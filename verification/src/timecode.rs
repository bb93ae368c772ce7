//! Timecodes: a duration since zero, written `H:MM:SS.FF`.
//!
//! The part after the point is a count of milliseconds, written as an integer
//! of at least two digits: `.05` is 5 ms, `.50` is 50 ms and `.500` is 500 ms.
//! Reading and writing agree on this, so what is written is read back as the
//! same duration.

use crate::error::{Error, ErrorView};
use crate::num::{
    all_digits, dec, dec_pad2, int_of, lemma_dec_value, lemma_leading_zero, parse_u64, push_dec,
    push_dec_pad2,
};
use crate::parser::Parser;
use crate::text::{
    has_char, lemma_split_one, lemma_split_push, split, split_chars, to_chars, to_text,
};
use vstd::prelude::*;
use vstd::string::*;

verus! {

/// A span of time in whole milliseconds.
#[derive(Clone, Copy, Debug, PartialEq, Eq, Structural, Hash)]
pub struct Duration {
    pub millis: u64,
}

impl Duration {
    /// The duration of `millis` milliseconds.
    pub fn from_millis(millis: u64) -> (d: Duration)
        ensures
            d.millis == millis,
    {
        Duration { millis }
    }

    /// The duration in milliseconds.
    pub fn as_millis(&self) -> (m: u64)
        ensures
            m == self.millis,
    {
        self.millis
    }
}

impl Default for Duration {
    fn default() -> (d: Duration)
        ensures
            d.millis == 0,
    {
        Duration { millis: 0 }
    }
}

/// The timecode of `ms` milliseconds.
pub open spec fn timecode_text(ms: nat) -> Seq<char> {
    dec(ms / 3_600_000) + seq![':'] + dec_pad2((ms % 3_600_000) / 60_000) + seq![':'] + dec_pad2(
        (ms % 60_000) / 1_000,
    ) + seq!['.'] + dec_pad2(ms % 1_000)
}

/// The error for a text of the wrong shape.
pub open spec fn bad_shape(s: Seq<char>) -> ErrorView {
    ErrorView::ParseError { ty: "Duration"@, msg: "invalid duration format "@ + s }
}

/// The error for a component of `s` that is too large; `what` names it.
pub open spec fn out_of_range(what: Seq<char>, s: Seq<char>) -> ErrorView {
    ErrorView::ParseError { ty: "Duration"@, msg: what + seq![' '] + s + " out of range"@ }
}

/// One component of a timecode: a number below `bound`.
pub open spec fn component_of(
    part: Seq<char>,
    bound: nat,
    what: Seq<char>,
    s: Seq<char>,
) -> Result<nat, ErrorView> {
    match int_of(part, 0, u64::MAX as int) {
        Err(kind) => Err(ErrorView::ParseIntError { error: kind, msg: part }),
        Ok(n) => if n >= bound {
            Err(out_of_range(what, s))
        } else {
            Ok(n as nat)
        },
    }
}

/// The milliseconds that the timecode `s` stands for. There is exactly one
/// point in `s` and there are exactly two colons before it. The components are
/// read in the order hours, minutes, seconds, milliseconds, and the first one
/// that is no number, or is too large, gives the error.
pub open spec fn timecode_of(s: Seq<char>) -> Result<nat, ErrorView> {
    let halves = split(s, '.');
    if halves.len() != 2 {
        Err(bad_shape(s))
    } else {
        let clock = split(halves[0], ':');
        if clock.len() != 3 {
            Err(bad_shape(s))
        } else {
            match component_of(clock[0], 24, "hour"@, s) {
                Err(e) => Err(e),
                Ok(h) => match component_of(clock[1], 60, "minute"@, s) {
                    Err(e) => Err(e),
                    Ok(m) => match component_of(clock[2], 60, "second"@, s) {
                        Err(e) => Err(e),
                        Ok(sec) => match component_of(halves[1], 1000, "millisecond"@, s) {
                            Err(e) => Err(e),
                            Ok(ms) => Ok(h * 3_600_000 + m * 60_000 + sec * 1_000 + ms),
                        },
                    },
                },
            }
        }
    }
}

/// A run of digits holds neither a colon nor a point.
proof fn lemma_digits_no_mark(s: Seq<char>, mark: char)
    requires
        all_digits(s),
        mark == ':' || mark == '.',
    ensures
        !has_char(s, mark),
{
    if has_char(s, mark) {
        let i = choose|i: int| 0 <= i < s.len() && s[i] == mark;
        assert(crate::num::is_digit(s[i]));
    }
}

/// A numeral of a number below `bound`, with or without a leading zero, is
/// read as that number.
proof fn lemma_component(n: nat, padded: bool, bound: nat, what: Seq<char>, s: Seq<char>)
    requires
        n < bound <= 1000,
    ensures
        all_digits(if padded { dec_pad2(n) } else { dec(n) }),
        component_of(if padded { dec_pad2(n) } else { dec(n) }, bound, what, s) == Ok::<
            nat,
            ErrorView,
        >(n),
{
    lemma_dec_value(n);
    let text = if padded { dec_pad2(n) } else { dec(n) };
    if padded && n < 10 {
        lemma_leading_zero(dec(n));
        assert(all_digits(text)) by {
            assert forall|i: int| 0 <= i < text.len() implies crate::num::is_digit(
                #[trigger] text[i],
            ) by {
                if i > 0 {
                    assert(text[i] == dec(n)[i - 1]);
                }
            }
        }
    }
    assert(crate::num::is_digit(text[0]));
    assert(crate::num::unsigned_part(text, false) == text);
    crate::num::lemma_all_leading(text);
}

/// Three runs of digits with colons between them and a fourth after a point
/// are split into just these four.
proof fn lemma_split_timecode(th: Seq<char>, tm: Seq<char>, ts: Seq<char>, tf: Seq<char>)
    requires
        all_digits(th),
        all_digits(tm),
        all_digits(ts),
        all_digits(tf),
    ensures
        split(th + seq![':'] + tm + seq![':'] + ts + seq!['.'] + tf, '.') == seq![
            th + seq![':'] + tm + seq![':'] + ts,
            tf,
        ],
        split(th + seq![':'] + tm + seq![':'] + ts, ':') == seq![th, tm, ts],
{
    let clock = th + seq![':'] + tm + seq![':'] + ts;
    assert(!has_char(clock, '.')) by {
        if has_char(clock, '.') {
            let i = choose|i: int| 0 <= i < clock.len() && clock[i] == '.';
            if i < th.len() {
                assert(crate::num::is_digit(th[i]));
            } else if i == th.len() {
            } else if i < th.len() + 1 + tm.len() {
                assert(crate::num::is_digit(tm[i - th.len() - 1]));
            } else if i == th.len() + 1 + tm.len() {
            } else {
                assert(crate::num::is_digit(ts[i - th.len() - tm.len() - 2]));
            }
        }
    }
    lemma_digits_no_mark(tf, '.');
    lemma_split_push(clock, tf, '.');
    lemma_split_one(clock, '.');
    assert(split(clock + seq!['.'] + tf, '.') =~= seq![clock, tf]);
    lemma_digits_no_mark(th, ':');
    lemma_digits_no_mark(tm, ':');
    lemma_digits_no_mark(ts, ':');
    lemma_split_one(th, ':');
    lemma_split_push(th, tm, ':');
    lemma_split_push(th + seq![':'] + tm, ts, ':');
    assert(split(clock, ':') =~= seq![th, tm, ts]);
}

/// The hours, minutes, seconds and milliseconds of less than a day.
proof fn lemma_clock_parts(ms: nat)
    requires
        ms < 86_400_000,
    ensures
        ms / 3_600_000 < 24,
        (ms % 3_600_000) / 60_000 < 60,
        (ms % 60_000) / 1_000 < 60,
        ms % 1_000 < 1000,
        (ms / 3_600_000) * 3_600_000 + ((ms % 3_600_000) / 60_000) * 60_000 + ((ms % 60_000)
            / 1_000) * 1_000 + ms % 1_000 == ms,
{
}

/// Writing a duration of less than a day and reading the text gives the
/// duration back, to the millisecond.
pub proof fn lemma_write_then_read(ms: nat)
    requires
        ms < 86_400_000,
    ensures
        timecode_of(timecode_text(ms)) == Ok::<nat, ErrorView>(ms),
{
    let s = timecode_text(ms);
    let h = ms / 3_600_000;
    let m = (ms % 3_600_000) / 60_000;
    let sec = (ms % 60_000) / 1_000;
    let f = ms % 1_000;
    lemma_clock_parts(ms);
    lemma_component(h, false, 24, "hour"@, s);
    lemma_component(m, true, 60, "minute"@, s);
    lemma_component(sec, true, 60, "second"@, s);
    lemma_component(f, true, 1000, "millisecond"@, s);
    lemma_split_timecode(dec(h), dec_pad2(m), dec_pad2(sec), dec_pad2(f));
}

/// Only a text of the right shape with every component in its range is
/// read: one point, two colons before it, hours below 24, minutes and
/// seconds below 60, and less than 1000 after the point. What is read is
/// less than a day.
pub proof fn lemma_read_is_strict(s: Seq<char>)
    requires
        timecode_of(s) is Ok,
    ensures
        split(s, '.').len() == 2,
        split(split(s, '.')[0], ':').len() == 3,
        ({
            let clock = split(split(s, '.')[0], ':');
            let last = split(s, '.')[1];
            &&& int_of(clock[0], 0, u64::MAX as int) is Ok
            &&& int_of(clock[0], 0, u64::MAX as int)->Ok_0 < 24
            &&& int_of(clock[1], 0, u64::MAX as int) is Ok
            &&& int_of(clock[1], 0, u64::MAX as int)->Ok_0 < 60
            &&& int_of(clock[2], 0, u64::MAX as int) is Ok
            &&& int_of(clock[2], 0, u64::MAX as int)->Ok_0 < 60
            &&& int_of(last, 0, u64::MAX as int) is Ok
            &&& int_of(last, 0, u64::MAX as int)->Ok_0 < 1000
        }),
        timecode_of(s)->Ok_0 < 86_400_000,
{
}

/// Whatever timecode is read, writing the duration and reading it again
/// gives the same duration.
pub proof fn lemma_read_then_write(s: Seq<char>)
    requires
        timecode_of(s) is Ok,
    ensures
        timecode_of(timecode_text(timecode_of(s)->Ok_0)) == timecode_of(s),
{
    let ms = timecode_of(s)->Ok_0;
    assert(ms < 86_400_000);
    lemma_write_then_read(ms);
}

/// The timecode of `duration`.
pub fn format_duration(duration: &Duration) -> (s: String)
    ensures
        s@ == timecode_text(duration.millis as nat),
{
    let total: u64 = duration.millis;
    let mut out: Vec<char> = Vec::new();
    push_dec(&mut out, total / 3_600_000);
    out.push(':');
    push_dec_pad2(&mut out, (total % 3_600_000) / 60_000);
    out.push(':');
    push_dec_pad2(&mut out, (total % 60_000) / 1_000);
    out.push('.');
    push_dec_pad2(&mut out, total % 1_000);
    assert(out@ =~= timecode_text(total as nat));
    to_text(&out)
}

fn range_error(what: &str, src: &str) -> (e: Error)
    ensures
        e@ == out_of_range(what@, src@),
{
    let msg = String::from_str(what).concat(" ").concat(src).concat(" out of range");
    proof {
        reveal_strlit(" ");
        assert(" "@ =~= seq![' ']);
    }
    Error::parse_error("Duration", msg.as_str())
}

fn parse_component(part: &Vec<char>, bound: u64, what: &str, src: &str) -> (r: Result<u64, Error>)
    ensures
        match r {
            Ok(n) => component_of(part@, bound as nat, what@, src@) == Ok::<nat, ErrorView>(
                n as nat,
            ),
            Err(e) => component_of(part@, bound as nat, what@, src@) == Err::<nat, ErrorView>(e@),
        },
{
    match parse_u64(part) {
        Err(kind) => {
            let msg = to_text(part);
            Err(Error::parse_int_error(kind, msg.as_str()))
        },
        Ok(n) => {
            if n >= bound {
                Err(range_error(what, src))
            } else {
                Ok(n)
            }
        },
    }
}

impl Parser for Duration {
    /// Reads a timecode.
    fn parse(src: &str) -> (r: Result<Self, Error>)
        ensures
            match r {
                Ok(d) => timecode_of(src@) == Ok::<nat, ErrorView>(d.millis as nat),
                Err(e) => timecode_of(src@) == Err::<nat, ErrorView>(e@),
            },
    {
        let chars = to_chars(src);
        let halves = split_chars(&chars, '.');
        if halves.len() != 2 {
            let msg = String::from_str("invalid duration format ").concat(src);
            return Err(Error::parse_error("Duration", msg.as_str()));
        }
        let clock = split_chars(&halves[0], ':');
        if clock.len() != 3 {
            let msg = String::from_str("invalid duration format ").concat(src);
            return Err(Error::parse_error("Duration", msg.as_str()));
        }
        let h = match parse_component(&clock[0], 24, "hour", src) {
            Ok(h) => h,
            Err(e) => { return Err(e); },
        };
        let m = match parse_component(&clock[1], 60, "minute", src) {
            Ok(m) => m,
            Err(e) => { return Err(e); },
        };
        let s = match parse_component(&clock[2], 60, "second", src) {
            Ok(s) => s,
            Err(e) => { return Err(e); },
        };
        let ms = match parse_component(&halves[1], 1000, "millisecond", src) {
            Ok(ms) => ms,
            Err(e) => { return Err(e); },
        };
        Ok(Duration { millis: h * 3_600_000 + m * 60_000 + s * 1_000 + ms })
    }
}

} // verus!
