//! Decimal integers as text: what a numeral means, reading one and writing one.

use vstd::prelude::*;

verus! {

/// Why a text is not an integer of the wanted type.
#[derive(Clone, Copy, Debug, PartialEq, Eq, Structural)]
pub enum IntErrorKind {
    /// The text is empty.
    Empty,
    /// The text is a sign alone, or holds a character that is no ASCII digit.
    InvalidDigit,
    /// The digits denote more than the type's greatest value.
    PosOverflow,
    /// The digits, after a minus sign, denote less than the type's least
    /// value.
    NegOverflow,
}

/// Whether `c` is one of the ten ASCII digits.
pub open spec fn is_digit(c: char) -> bool {
    '0' <= c <= '9'
}

/// The number that the digit `c` stands for.
pub open spec fn digit_value(c: char) -> nat {
    (c as u32 - '0' as u32) as nat
}

/// The character that stands for the digit `d`, for `d < 10`.
pub open spec fn digit_char(d: nat) -> char {
    (('0' as u8) + (d as u8)) as char
}

/// Whether `s` holds nothing but ASCII digits.
pub open spec fn all_digits(s: Seq<char>) -> bool {
    forall|i: int| 0 <= i < s.len() ==> is_digit(#[trigger] s[i])
}

/// The number that the digits of `s` denote in base ten; 0 for no digits.
pub open spec fn digits_value(s: Seq<char>) -> nat
    decreases s.len(),
{
    if s.len() == 0 {
        0
    } else {
        digits_value(s.drop_last()) * 10 + digit_value(s.last())
    }
}

/// What is left of a numeral once its sign is taken off; `minus` says whether
/// a minus sign counts as a sign.
pub open spec fn unsigned_part(s: Seq<char>, minus: bool) -> Seq<char> {
    if s.len() > 0 && (s[0] == '+' || (minus && s[0] == '-')) {
        s.skip(1)
    } else {
        s
    }
}

/// The number of digits that `s` begins with.
pub open spec fn leading_digits(s: Seq<char>) -> nat
    decreases s.len(),
{
    if s.len() > 0 && is_digit(s[0]) {
        1 + leading_digits(s.skip(1))
    } else {
        0
    }
}

/// The integer between `min` and `max` that `s` denotes: an optional sign (a
/// minus only where `min < 0`), then one or more ASCII digits. The text is
/// taken from left to right, and what goes wrong first decides: digits that
/// are too many for the type, before a character that is no digit, are an
/// overflow.
pub open spec fn int_of(s: Seq<char>, min: int, max: int) -> Result<int, IntErrorKind> {
    let body = unsigned_part(s, min < 0);
    let digits = body.take(leading_digits(body) as int);
    let negative = min < 0 && s.len() > 0 && s[0] == '-';
    if s.len() == 0 {
        Err(IntErrorKind::Empty)
    } else if body.len() == 0 {
        Err(IntErrorKind::InvalidDigit)
    } else if negative && -digits_value(digits) < min {
        Err(IntErrorKind::NegOverflow)
    } else if !negative && digits_value(digits) > max {
        Err(IntErrorKind::PosOverflow)
    } else if digits.len() < body.len() {
        Err(IntErrorKind::InvalidDigit)
    } else if negative {
        Ok(-digits_value(digits))
    } else {
        Ok(digits_value(digits) as int)
    }
}

/// The shortest decimal numeral of `n`.
pub open spec fn dec(n: nat) -> Seq<char>
    decreases n,
{
    if n < 10 {
        seq![digit_char(n)]
    } else {
        dec(n / 10).push(digit_char(n % 10))
    }
}

/// The decimal numeral of `n`, with a leading zero where it has one digit.
pub open spec fn dec_pad2(n: nat) -> Seq<char> {
    if n < 10 {
        seq!['0'] + dec(n)
    } else {
        dec(n)
    }
}

/// The decimal numeral of `i`, with a minus sign where it is negative.
pub open spec fn dec_int(i: int) -> Seq<char> {
    if i < 0 {
        seq!['-'] + dec((-i) as nat)
    } else {
        dec(i as nat)
    }
}

/// A numeral denotes the number it was written for.
pub proof fn lemma_dec_value(n: nat)
    ensures
        dec(n).len() >= 1,
        all_digits(dec(n)),
        digits_value(dec(n)) == n,
    decreases n,
{
    if n < 10 {
        assert(dec(n).drop_last() =~= Seq::<char>::empty());
        assert(digits_value(dec(n).drop_last()) == 0);
        assert(dec(n).last() == digit_char(n));
    } else {
        lemma_dec_value(n / 10);
        assert(dec(n).drop_last() =~= dec(n / 10));
        assert(dec(n).last() == digit_char(n % 10));
    }
}

/// Where the digits of `s` end: after `k` digits comes the end or a
/// character that is no digit.
pub proof fn lemma_leading_digits(s: Seq<char>, k: int)
    requires
        0 <= k <= s.len(),
        all_digits(s.take(k)),
        k == s.len() || !is_digit(s[k]),
    ensures
        leading_digits(s) == k,
    decreases k,
{
    if k > 0 {
        assert(s.take(k)[0] == s[0]);
        let rest = s.skip(1);
        assert(all_digits(rest.take(k - 1))) by {
            assert forall|i: int| 0 <= i < k - 1 implies is_digit(
                #[trigger] rest.take(k - 1)[i],
            ) by {
                assert(rest.take(k - 1)[i] == s.take(k)[i + 1]);
            }
        }
        lemma_leading_digits(rest, k - 1);
    }
}

/// A text of digits alone begins with as many digits as it is long.
pub proof fn lemma_all_leading(s: Seq<char>)
    requires
        all_digits(s),
    ensures
        leading_digits(s) == s.len(),
        s.take(leading_digits(s) as int) == s,
{
    assert(s.take(s.len() as int) =~= s);
    lemma_leading_digits(s, s.len() as int);
}

/// The numeral of an integer is read as that integer, and holds nothing but
/// digits and perhaps a minus sign.
pub proof fn lemma_int_round_trip(i: int, min: int, max: int)
    requires
        min <= i <= max,
        min <= 0 <= max,
    ensures
        int_of(dec_int(i), min, max) == Ok::<int, IntErrorKind>(i),
        forall|k: int|
            0 <= k < dec_int(i).len() ==> is_digit(#[trigger] dec_int(i)[k]) || dec_int(i)[k]
                == '-',
{
    let s = dec_int(i);
    if i < 0 {
        let body = dec((-i) as nat);
        lemma_dec_value((-i) as nat);
        lemma_all_leading(body);
        assert(s[0] == '-');
        assert(s.skip(1) =~= body);
        assert forall|k: int| 0 <= k < s.len() implies is_digit(#[trigger] s[k]) || s[k]
            == '-' by {
            if k > 0 {
                assert(s[k] == body[k - 1]);
            }
        }
    } else {
        lemma_dec_value(i as nat);
        lemma_all_leading(s);
        assert(is_digit(s[0]));
        assert(unsigned_part(s, min < 0) == s);
    }
}

/// Leading zeros do not change what digits denote.
pub proof fn lemma_leading_zero(s: Seq<char>)
    ensures
        digits_value(seq!['0'] + s) == digits_value(s),
    decreases s.len(),
{
    let z = seq!['0'] + s;
    if s.len() == 0 {
        assert(z.drop_last() =~= Seq::<char>::empty());
        assert(digits_value(z.drop_last()) == 0);
    } else {
        assert(z.drop_last() =~= seq!['0'] + s.drop_last());
        lemma_leading_zero(s.drop_last());
    }
}

/// Counts the digits of `v` from `from` on, and says what they denote;
/// `None` where that is more than a `u64` holds.
fn scan_digits(v: &Vec<char>, from: usize) -> (r: (usize, Option<u64>))
    requires
        from <= v.len(),
    ensures
        ({
            let body = v@.skip(from as int);
            let digits = body.take(r.0 as int);
            &&& r.0 == leading_digits(body)
            &&& r.0 <= body.len()
            &&& match r.1 {
                Some(n) => digits_value(digits) == n,
                None => digits_value(digits) > u64::MAX,
            }
        }),
{
    let ghost body = v@.skip(from as int);
    let mut acc: u64 = 0;
    let mut over: bool = false;
    let mut i: usize = from;
    assert(body.take(0) =~= Seq::<char>::empty());
    while i < v.len() && '0' <= v[i] && v[i] <= '9'
        invariant
            from <= i <= v.len(),
            body == v@.skip(from as int),
            all_digits(body.take(i - from)),
            !over ==> digits_value(body.take(i - from)) == acc,
            over ==> digits_value(body.take(i - from)) > u64::MAX,
        decreases v.len() - i,
    {
        let c = v[i];
        let ghost next = body.take(i - from + 1);
        assert(next.drop_last() =~= body.take(i - from));
        assert(next.last() == c);
        assert(all_digits(next)) by {
            assert forall|k: int| 0 <= k < next.len() implies is_digit(#[trigger] next[k]) by {
                if k < next.len() - 1 {
                    assert(next[k] == body.take(i - from)[k]);
                }
            }
        }
        let d: u64 = (c as u32 - '0' as u32) as u64;
        if !over {
            if acc > (u64::MAX - d) / 10 {
                over = true;
            } else {
                acc = acc * 10 + d;
            }
        }
        i += 1;
    }
    proof {
        if i < v.len() {
            assert(body[i - from] == v@[i as int]);
        }
        lemma_leading_digits(body, i - from);
    }
    if over {
        (i - from, None)
    } else {
        (i - from, Some(acc))
    }
}

/// The integer between `min` and `max` that the characters of `v` denote.
pub fn parse_int(v: &Vec<char>, min: i64, max: i64) -> (r: Result<i64, IntErrorKind>)
    requires
        min <= 0 <= max,
    ensures
        match r {
            Ok(n) => int_of(v@, min as int, max as int) == Ok::<int, IntErrorKind>(n as int),
            Err(e) => int_of(v@, min as int, max as int) == Err::<int, IntErrorKind>(e),
        },
{
    if v.len() == 0 {
        return Err(IntErrorKind::Empty);
    }
    let negative: bool = min < 0 && v[0] == '-';
    let from: usize = if v[0] == '+' || negative {
        1
    } else {
        0
    };
    assert(v@.skip(from as int) == unsigned_part(v@, min < 0)) by {
        assert(v@.skip(0) == v@);
    }
    if from == v.len() {
        return Err(IntErrorKind::InvalidDigit);
    }
    let (count, value) = scan_digits(v, from);
    let all: bool = count == v.len() - from;
    match value {
        None => {
            if negative {
                Err(IntErrorKind::NegOverflow)
            } else {
                Err(IntErrorKind::PosOverflow)
            }
        },
        Some(n) => {
            if negative {
                if n as i128 > -(min as i128) {
                    Err(IntErrorKind::NegOverflow)
                } else if !all {
                    Err(IntErrorKind::InvalidDigit)
                } else {
                    Ok((-(n as i128)) as i64)
                }
            } else {
                if n > max as u64 {
                    Err(IntErrorKind::PosOverflow)
                } else if !all {
                    Err(IntErrorKind::InvalidDigit)
                } else {
                    Ok(n as i64)
                }
            }
        },
    }
}

/// The number up to `u64::MAX` that the characters of `v` denote; a minus sign
/// is no part of such a numeral.
pub fn parse_u64(v: &Vec<char>) -> (r: Result<u64, IntErrorKind>)
    ensures
        match r {
            Ok(n) => int_of(v@, 0, u64::MAX as int) == Ok::<int, IntErrorKind>(n as int),
            Err(e) => int_of(v@, 0, u64::MAX as int) == Err::<int, IntErrorKind>(e),
        },
{
    if v.len() == 0 {
        return Err(IntErrorKind::Empty);
    }
    let from: usize = if v[0] == '+' {
        1
    } else {
        0
    };
    assert(v@.skip(from as int) == unsigned_part(v@, false)) by {
        assert(v@.skip(0) == v@);
    }
    if from == v.len() {
        return Err(IntErrorKind::InvalidDigit);
    }
    let (count, value) = scan_digits(v, from);
    match value {
        None => Err(IntErrorKind::PosOverflow),
        Some(n) => {
            if count < v.len() - from {
                Err(IntErrorKind::InvalidDigit)
            } else {
                Ok(n)
            }
        },
    }
}

/// Appends the shortest decimal numeral of `n` to `out`.
pub fn push_dec(out: &mut Vec<char>, n: u64)
    ensures
        final(out)@ == old(out)@ + dec(n as nat),
    decreases n,
{
    if n >= 10 {
        push_dec(out, n / 10);
    }
    let d: u8 = (n % 10) as u8;
    out.push((('0' as u8) + d) as char);
    assert(final(out)@ =~= old(out)@ + dec(n as nat));
}

/// Appends the decimal numeral of `n` to `out`, at least two digits of it.
pub fn push_dec_pad2(out: &mut Vec<char>, n: u64)
    ensures
        final(out)@ == old(out)@ + dec_pad2(n as nat),
{
    if n < 10 {
        out.push('0');
    }
    push_dec(out, n);
    assert(final(out)@ =~= old(out)@ + dec_pad2(n as nat));
}

/// Appends the decimal numeral of `i` to `out`.
pub fn push_int(out: &mut Vec<char>, i: i64)
    ensures
        final(out)@ == old(out)@ + dec_int(i as int),
{
    if i < 0 {
        out.push('-');
        push_dec(out, (-(i as i128)) as u64);
    } else {
        push_dec(out, i as u64);
    }
    assert(final(out)@ =~= old(out)@ + dec_int(i as int));
}

} // verus!
