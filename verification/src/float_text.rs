//! Numbers with a fraction, kept as the text they were written as.
//!
//! This crate never computes with such a number: it checks that the text is a
//! number and hands the same text out again.

use crate::error::{Error, ErrorView, FloatErrorKind};
use crate::num::{all_digits, dec, lemma_dec_value, push_dec, unsigned_part};
use crate::parser::Parser;
use crate::text::{
    eq_ignore_case, is_text_ignore_case, lemma_pieces_some, lower_seq, slice, split, split_chars,
    to_chars, to_lower, to_text,
};
use vstd::prelude::*;
use vstd::string::*;

verus! {

/// Digits, then perhaps a point and more digits; at least one digit in all.
pub open spec fn is_mantissa(m: Seq<char>) -> bool {
    let p = split(m, '.');
    &&& p.len() <= 2
    &&& all_digits(p[0])
    &&& p.len() == 2 ==> all_digits(p[1])
    &&& p[0].len() + (if p.len() == 2 { p[1].len() } else { 0 }) >= 1
}

/// An optional sign, then one or more digits.
pub open spec fn is_exponent(x: Seq<char>) -> bool {
    let body = unsigned_part(x, true);
    body.len() > 0 && all_digits(body)
}

/// A mantissa, then perhaps `e` or `E` and an exponent.
pub open spec fn is_number(r: Seq<char>) -> bool {
    let halves = split(lower_seq(r), 'e');
    &&& halves.len() <= 2
    &&& is_mantissa(halves[0])
    &&& halves.len() == 2 ==> is_exponent(halves[1])
}

/// `inf`, `infinity` or `nan`, in any case of letters.
pub open spec fn is_special(r: Seq<char>) -> bool {
    eq_ignore_case(r, "inf"@) || eq_ignore_case(r, "infinity"@) || eq_ignore_case(r, "nan"@)
}

/// Whether `s` is written as a number: an optional sign, then a number or one
/// of the three special words.
pub open spec fn is_float_text(s: Seq<char>) -> bool {
    let r = unsigned_part(s, true);
    r.len() > 0 && (is_special(r) || is_number(r))
}

/// What is wrong with `s` as a number, if anything.
pub open spec fn float_check(s: Seq<char>) -> Result<(), FloatErrorKind> {
    if s.len() == 0 {
        Err(FloatErrorKind::Empty)
    } else if !is_float_text(s) {
        Err(FloatErrorKind::Invalid)
    } else {
        Ok(())
    }
}

/// A number with a fraction, as text. Two of them are equal where they are
/// written alike: `0.1` and `0.10` are not.
#[derive(Debug, Hash)]
pub struct FloatText {
    text: String,
}

impl PartialEq for FloatText {
    fn eq(&self, other: &Self) -> (r: bool) {
        self.text == other.text
    }
}

impl vstd::std_specs::cmp::PartialEqSpecImpl for FloatText {
    open spec fn obeys_eq_spec() -> bool {
        true
    }

    open spec fn eq_spec(&self, other: &Self) -> bool {
        self@ == other@
    }
}

impl Eq for FloatText {

}

impl View for FloatText {
    type V = Seq<char>;

    closed spec fn view(&self) -> Seq<char> {
        self.text@
    }
}

impl Clone for FloatText {
    fn clone(&self) -> (r: Self)
        ensures
            r@ == self@,
    {
        proof {
            use_type_invariant(self);
        }
        FloatText { text: self.text.clone() }
    }
}

fn are_digits(v: &Vec<char>) -> (r: bool)
    ensures
        r == all_digits(v@),
{
    let mut i: usize = 0;
    while i < v.len()
        invariant
            i <= v.len(),
            forall|j: int| 0 <= j < i ==> crate::num::is_digit(#[trigger] v@[j]),
        decreases v.len() - i,
    {
        if !('0' <= v[i] && v[i] <= '9') {
            return false;
        }
        i += 1;
    }
    true
}

fn check_mantissa(m: &Vec<char>) -> (r: bool)
    ensures
        r == is_mantissa(m@),
{
    let p = split_chars(m, '.');
    proof {
        lemma_pieces_some(m@, None, '.');
    }
    if p.len() > 2 || !are_digits(&p[0]) {
        return false;
    }
    if p.len() == 2 {
        are_digits(&p[1]) && (p[0].len() > 0 || p[1].len() > 0)
    } else {
        p[0].len() > 0
    }
}

fn without_sign(v: &Vec<char>) -> (r: Vec<char>)
    ensures
        r@ == unsigned_part(v@, true),
{
    if v.len() > 0 && (v[0] == '+' || v[0] == '-') {
        assert(v@.subrange(1, v.len() as int) == v@.skip(1));
        slice(v, 1, v.len())
    } else {
        assert(v@.subrange(0, v.len() as int) == v@);
        slice(v, 0, v.len())
    }
}

fn check_number(r: &Vec<char>) -> (ok: bool)
    ensures
        ok == is_number(r@),
{
    let low = to_lower(r);
    let halves = split_chars(&low, 'e');
    proof {
        lemma_pieces_some(low@, None, 'e');
    }
    if halves.len() > 2 || !check_mantissa(&halves[0]) {
        return false;
    }
    if halves.len() == 2 {
        let body = without_sign(&halves[1]);
        body.len() > 0 && are_digits(&body)
    } else {
        true
    }
}

/// Whether the characters of `v` are written as a number.
pub fn check_float(v: &Vec<char>) -> (r: Result<(), FloatErrorKind>)
    ensures
        r == float_check(v@),
{
    if v.len() == 0 {
        return Err(FloatErrorKind::Empty);
    }
    let r = without_sign(v);
    if r.len() == 0 {
        return Err(FloatErrorKind::Invalid);
    }
    if is_text_ignore_case(&r, "inf") || is_text_ignore_case(&r, "infinity")
        || is_text_ignore_case(&r, "nan") || check_number(&r) {
        Ok(())
    } else {
        Err(FloatErrorKind::Invalid)
    }
}

impl FloatText {
    /// The text is written as a number.
    #[verifier::type_invariant]
    spec fn written_as_number(self) -> bool {
        is_float_text(self.text@)
    }

    /// Whether the text is written as a number.
    pub open spec fn wf(&self) -> bool {
        is_float_text(self@)
    }


    /// The whole number `n`.
    pub fn whole(n: u64) -> (r: FloatText)
        ensures
            r@ == dec(n as nat),
            r.wf(),
    {
        let mut out: Vec<char> = Vec::new();
        push_dec(&mut out, n);
        proof {
            let d = dec(n as nat);
            lemma_dec_value(n as nat);
            assert(out@ =~= d);
            assert(crate::num::is_digit(d[0]));
            assert(unsigned_part(d, true) == d);
            assert(lower_seq(d) =~= d) by {
                assert forall|i: int| 0 <= i < d.len() implies crate::text::lower(d[i])
                    == d[i] by {
                    assert(crate::num::is_digit(d[i]));
                }
            }
            assert(!crate::text::has_char(d, 'e')) by {
                if crate::text::has_char(d, 'e') {
                    let i = choose|i: int| 0 <= i < d.len() && d[i] == 'e';
                    assert(crate::num::is_digit(d[i]));
                }
            }
            assert(!crate::text::has_char(d, '.')) by {
                if crate::text::has_char(d, '.') {
                    let i = choose|i: int| 0 <= i < d.len() && d[i] == '.';
                    assert(crate::num::is_digit(d[i]));
                }
            }
            crate::text::lemma_split_one(d, 'e');
            crate::text::lemma_split_one(d, '.');
            assert(is_mantissa(d));
            assert(is_number(d));
        }
        FloatText { text: to_text(&out) }
    }

    /// The text of the number, which is written as a number.
    pub fn as_str(&self) -> (s: &str)
        ensures
            s@ == self@,
            self.wf(),
    {
        proof {
            use_type_invariant(self);
        }
        self.text.as_str()
    }

    /// The text of the number, which is written as a number.
    pub fn to_string(&self) -> (s: String)
        ensures
            s@ == self@,
            self.wf(),
    {
        proof {
            use_type_invariant(self);
        }
        self.text.clone()
    }
}

impl Parser for FloatText {
    /// Reads a number. The text is kept as it is.
    fn parse(src: &str) -> (r: Result<Self, Error>)
        ensures
            match r {
                Ok(f) => float_check(src@) is Ok && f@ == src@ && f.wf(),
                Err(e) => float_check(src@) is Err && e@ == (ErrorView::ParseFloatError {
                    error: float_check(src@)->Err_0,
                    msg: src@,
                }),
            },
    {
        let chars = to_chars(src);
        match check_float(&chars) {
            Ok(()) => Ok(FloatText { text: String::from_str(src) }),
            Err(kind) => Err(Error::parse_float_error(kind, src)),
        }
    }
}

} // verus!
