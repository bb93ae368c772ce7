//! The effect of an event: karaoke, scrolling text or a banner, written as
//! fields separated by semicolons.

use crate::error::{Error, ErrorView};
use crate::num::{dec_int, int_of, lemma_int_round_trip, parse_int, push_int};
use crate::parser::Parser;
use crate::text::{
    eq_ignore_case, has_char, is_text_ignore_case, join, lemma_split_join, lower_seq, split,
    split_chars, to_chars, to_text, views,
};
use vstd::prelude::*;
use vstd::string::*;

verus! {

/// What an event does besides showing its text.
#[derive(Debug, Hash)]
pub enum Effect {
    /// No effect at all; its text is empty.
    NoEffect,
    /// A text that names no known effect, kept as it was read.
    Unknown(String),
    Karaoke,
    ScrollUp { y1: i32, y2: i32, delay: i32, fadeawayheight: Option<i32> },
    ScrollDown { y1: i32, y2: i32, delay: i32, fadeawayheight: Option<i32> },
    Banner { delay: i32, lefttoright: bool, fadeawayheight: Option<i32> },
}

/// An [`Effect`] with its text as a sequence of characters.
pub enum EffectView {
    NoEffect,
    Unknown(Seq<char>),
    Karaoke,
    ScrollUp { y1: i32, y2: i32, delay: i32, fadeawayheight: Option<i32> },
    ScrollDown { y1: i32, y2: i32, delay: i32, fadeawayheight: Option<i32> },
    Banner { delay: i32, lefttoright: bool, fadeawayheight: Option<i32> },
}

impl View for Effect {
    type V = EffectView;

    open spec fn view(&self) -> EffectView {
        match self {
            Effect::NoEffect => EffectView::NoEffect,
            Effect::Unknown(s) => EffectView::Unknown(s@),
            Effect::Karaoke => EffectView::Karaoke,
            Effect::ScrollUp { y1, y2, delay, fadeawayheight } => EffectView::ScrollUp {
                y1: *y1,
                y2: *y2,
                delay: *delay,
                fadeawayheight: *fadeawayheight,
            },
            Effect::ScrollDown { y1, y2, delay, fadeawayheight } => EffectView::ScrollDown {
                y1: *y1,
                y2: *y2,
                delay: *delay,
                fadeawayheight: *fadeawayheight,
            },
            Effect::Banner { delay, lefttoright, fadeawayheight } => EffectView::Banner {
                delay: *delay,
                lefttoright: *lefttoright,
                fadeawayheight: *fadeawayheight,
            },
        }
    }
}

impl Clone for Effect {
    fn clone(&self) -> (r: Self)
        ensures
            r@ == self@,
    {
        match self {
            Effect::NoEffect => Effect::NoEffect,
            Effect::Unknown(s) => Effect::Unknown(s.clone()),
            Effect::Karaoke => Effect::Karaoke,
            Effect::ScrollUp { y1, y2, delay, fadeawayheight } => Effect::ScrollUp {
                y1: *y1,
                y2: *y2,
                delay: *delay,
                fadeawayheight: *fadeawayheight,
            },
            Effect::ScrollDown { y1, y2, delay, fadeawayheight } => Effect::ScrollDown {
                y1: *y1,
                y2: *y2,
                delay: *delay,
                fadeawayheight: *fadeawayheight,
            },
            Effect::Banner { delay, lefttoright, fadeawayheight } => Effect::Banner {
                delay: *delay,
                lefttoright: *lefttoright,
                fadeawayheight: *fadeawayheight,
            },
        }
    }
}

impl PartialEq for Effect {
    /// Two effects are equal where they are the same variant with the same
    /// fields.
    fn eq(&self, other: &Self) -> (r: bool) {
        match (self, other) {
            (Effect::NoEffect, Effect::NoEffect) => true,
            (Effect::Unknown(a), Effect::Unknown(b)) => *a == *b,
            (Effect::Karaoke, Effect::Karaoke) => true,
            (
                Effect::ScrollUp { y1: a1, y2: a2, delay: a3, fadeawayheight: a4 },
                Effect::ScrollUp { y1: b1, y2: b2, delay: b3, fadeawayheight: b4 },
            ) => *a1 == *b1 && *a2 == *b2 && *a3 == *b3 && *a4 == *b4,
            (
                Effect::ScrollDown { y1: a1, y2: a2, delay: a3, fadeawayheight: a4 },
                Effect::ScrollDown { y1: b1, y2: b2, delay: b3, fadeawayheight: b4 },
            ) => *a1 == *b1 && *a2 == *b2 && *a3 == *b3 && *a4 == *b4,
            (
                Effect::Banner { delay: a1, lefttoright: a2, fadeawayheight: a3 },
                Effect::Banner { delay: b1, lefttoright: b2, fadeawayheight: b3 },
            ) => *a1 == *b1 && *a2 == *b2 && *a3 == *b3,
            _ => false,
        }
    }
}

impl vstd::std_specs::cmp::PartialEqSpecImpl for Effect {
    open spec fn obeys_eq_spec() -> bool {
        true
    }

    open spec fn eq_spec(&self, other: &Self) -> bool {
        self@ == other@
    }
}

impl Eq for Effect {

}

/// The error for an effect that is named but badly written.
pub open spec fn effect_error(msg: Seq<char>) -> ErrorView {
    ErrorView::ParseError { ty: "Effect"@, msg }
}

/// The integer field `part`; `name` is what the error calls it.
pub open spec fn field_of(part: Seq<char>, name: Seq<char>) -> Result<i32, ErrorView> {
    match int_of(part, i32::MIN as int, i32::MAX as int) {
        Ok(n) => Ok(n as i32),
        Err(_) => Err(effect_error("Invalid "@ + name)),
    }
}

/// The height of the fade-away zone, which is the field at `at` where there
/// is one.
pub open spec fn fade_of(parts: Seq<Seq<char>>, at: int) -> Result<Option<i32>, ErrorView> {
    if parts.len() > at {
        match field_of(parts[at], "fadeawayheight"@) {
            Ok(n) => Ok(Some(n)),
            Err(e) => Err(e),
        }
    } else {
        Ok(None)
    }
}

/// The scrolling effect that `parts` describe: after the name come `y1`, `y2`
/// and `delay`, then perhaps the height of the fade-away zone. `direction` is
/// `Scroll up` or `Scroll down`.
pub open spec fn scroll_of(parts: Seq<Seq<char>>, direction: Seq<char>) -> Result<
    EffectView,
    ErrorView,
> {
    if parts.len() < 4 {
        Err(effect_error("Invalid "@ + direction + " effect"@))
    } else {
        match field_of(parts[1], "y1"@) {
            Err(e) => Err(e),
            Ok(y1) => match field_of(parts[2], "y2"@) {
                Err(e) => Err(e),
                Ok(y2) => match field_of(parts[3], "delay"@) {
                    Err(e) => Err(e),
                    Ok(delay) => match fade_of(parts, 4) {
                        Err(e) => Err(e),
                        Ok(fadeawayheight) => if direction == "Scroll up"@ {
                            Ok(EffectView::ScrollUp { y1, y2, delay, fadeawayheight })
                        } else if direction == "Scroll down"@ {
                            Ok(EffectView::ScrollDown { y1, y2, delay, fadeawayheight })
                        } else {
                            Err(effect_error("Unknown scroll direction"@))
                        },
                    },
                },
            }
        }
    }
}

/// The banner that `parts` describe: after the name come `delay` and the
/// direction, which is left to right where the number is 1, then perhaps the
/// height of the fade-away zone.
pub open spec fn banner_of(parts: Seq<Seq<char>>) -> Result<EffectView, ErrorView> {
    if parts.len() < 3 {
        Err(effect_error("Invalid Banner effect"@))
    } else {
        match field_of(parts[1], "delay"@) {
            Err(e) => Err(e),
            Ok(delay) => match field_of(parts[2], "lefttoright"@) {
                Err(e) => Err(e),
                Ok(flag) => match fade_of(parts, 3) {
                    Err(e) => Err(e),
                    Ok(fadeawayheight) => Ok(
                        EffectView::Banner { delay, lefttoright: flag == 1, fadeawayheight },
                    ),
                },
            },
        }
    }
}

/// The effect that the text `s` stands for. The first field names it, in any
/// case of letters. A text with another first field is kept as it is.
pub open spec fn effect_of(s: Seq<char>) -> Result<EffectView, ErrorView> {
    let parts = split(s, ';');
    if eq_ignore_case(parts[0], "karaoke"@) {
        Ok(EffectView::Karaoke)
    } else if eq_ignore_case(parts[0], "scroll up"@) {
        scroll_of(parts, "Scroll up"@)
    } else if eq_ignore_case(parts[0], "scroll down"@) {
        scroll_of(parts, "Scroll down"@)
    } else if eq_ignore_case(parts[0], "banner"@) {
        banner_of(parts)
    } else {
        Ok(EffectView::Unknown(s))
    }
}

/// `;` and the numeral of the height, where there is one.
pub open spec fn fade_text(fadeawayheight: Option<i32>) -> Seq<char> {
    match fadeawayheight {
        Some(h) => seq![';'] + dec_int(h as int),
        None => Seq::empty(),
    }
}

/// The text of a scrolling effect.
pub open spec fn scroll_text(
    name: Seq<char>,
    y1: i32,
    y2: i32,
    delay: i32,
    fadeawayheight: Option<i32>,
) -> Seq<char> {
    name + seq![';'] + dec_int(y1 as int) + seq![';'] + dec_int(y2 as int) + seq![';'] + dec_int(
        delay as int,
    ) + fade_text(fadeawayheight)
}

/// The text that stands for the effect `e`.
pub open spec fn effect_text(e: EffectView) -> Seq<char> {
    match e {
        EffectView::NoEffect => Seq::empty(),
        EffectView::Unknown(s) => s,
        EffectView::Karaoke => "Karaoke"@,
        EffectView::ScrollUp { y1, y2, delay, fadeawayheight } => scroll_text(
            "Scroll up"@,
            y1,
            y2,
            delay,
            fadeawayheight,
        ),
        EffectView::ScrollDown { y1, y2, delay, fadeawayheight } => scroll_text(
            "Scroll down"@,
            y1,
            y2,
            delay,
            fadeawayheight,
        ),
        EffectView::Banner { delay, lefttoright, fadeawayheight } => "Banner"@ + seq![';']
            + dec_int(delay as int) + seq![';'] + seq![if lefttoright { '1' } else { '0' }]
            + fade_text(fadeawayheight),
    }
}

/// The fields of the text of an effect that has a name.
pub open spec fn effect_fields(e: EffectView) -> Seq<Seq<char>> {
    match e {
        EffectView::ScrollUp { y1, y2, delay, fadeawayheight } => seq![
            "Scroll up"@,
            dec_int(y1 as int),
            dec_int(y2 as int),
            dec_int(delay as int),
        ] + fade_fields(fadeawayheight),
        EffectView::ScrollDown { y1, y2, delay, fadeawayheight } => seq![
            "Scroll down"@,
            dec_int(y1 as int),
            dec_int(y2 as int),
            dec_int(delay as int),
        ] + fade_fields(fadeawayheight),
        EffectView::Banner { delay, lefttoright, fadeawayheight } => seq![
            "Banner"@,
            dec_int(delay as int),
            dec_int(if lefttoright { 1int } else { 0int }),
        ] + fade_fields(fadeawayheight),
        EffectView::Karaoke => seq!["Karaoke"@],
        EffectView::NoEffect => seq![Seq::empty()],
        EffectView::Unknown(s) => split(s, ';'),
    }
}

/// The field of the height, where there is one.
pub open spec fn fade_fields(fadeawayheight: Option<i32>) -> Seq<Seq<char>> {
    match fadeawayheight {
        Some(h) => seq![dec_int(h as int)],
        None => Seq::empty(),
    }
}

/// Whether `e` is one of the effects that have a name.
pub open spec fn is_named(e: EffectView) -> bool {
    e is Karaoke || e is ScrollUp || e is ScrollDown || e is Banner
}

/// The numeral of a field is read as the field, and holds no semicolon.
proof fn lemma_field(n: i32, name: Seq<char>)
    ensures
        field_of(dec_int(n as int), name) == Ok::<i32, ErrorView>(n),
        !has_char(dec_int(n as int), ';'),
{
    lemma_int_round_trip(n as int, i32::MIN as int, i32::MAX as int);
    let s = dec_int(n as int);
    if has_char(s, ';') {
        let i = choose|i: int| 0 <= i < s.len() && s[i] == ';';
        assert(crate::num::is_digit(s[i]) || s[i] == '-');
    }
}

/// The four names, and how they compare without regard to case.
proof fn lemma_names()
    ensures
        !has_char("Karaoke"@, ';'),
        !has_char("Scroll up"@, ';'),
        !has_char("Scroll down"@, ';'),
        !has_char("Banner"@, ';'),
        eq_ignore_case("Karaoke"@, "karaoke"@),
        eq_ignore_case("Scroll up"@, "scroll up"@),
        eq_ignore_case("Scroll down"@, "scroll down"@),
        eq_ignore_case("Banner"@, "banner"@),
        "Karaoke"@.len() == 7 && "karaoke"@.len() == 7,
        "Scroll up"@.len() == 9 && "scroll up"@.len() == 9,
        "Scroll down"@.len() == 11 && "scroll down"@.len() == 11,
        "Banner"@.len() == 6 && "banner"@.len() == 6,
        "Scroll up"@ != "Scroll down"@,
{
    reveal_strlit("Karaoke");
    reveal_strlit("karaoke");
    reveal_strlit("Scroll up");
    reveal_strlit("scroll up");
    reveal_strlit("Scroll down");
    reveal_strlit("scroll down");
    reveal_strlit("Banner");
    reveal_strlit("banner");
    assert(lower_seq("Karaoke"@) =~= lower_seq("karaoke"@));
    assert(lower_seq("Scroll up"@) =~= lower_seq("scroll up"@));
    assert(lower_seq("Scroll down"@) =~= lower_seq("scroll down"@));
    assert(lower_seq("Banner"@) =~= lower_seq("banner"@));
    assert(!has_char("Karaoke"@, ';')) by {
        if has_char("Karaoke"@, ';') {
            let i = choose|i: int| 0 <= i < "Karaoke"@.len() && "Karaoke"@[i] == ';';
            assert(i == 0 || i == 1 || i == 2 || i == 3 || i == 4 || i == 5 || i == 6);
        }
    }
    assert(!has_char("Scroll up"@, ';')) by {
        if has_char("Scroll up"@, ';') {
            let i = choose|i: int| 0 <= i < "Scroll up"@.len() && "Scroll up"@[i] == ';';
            assert(i == 0 || i == 1 || i == 2 || i == 3 || i == 4 || i == 5 || i == 6 || i == 7
                || i == 8);
        }
    }
    assert(!has_char("Scroll down"@, ';')) by {
        if has_char("Scroll down"@, ';') {
            let i = choose|i: int| 0 <= i < "Scroll down"@.len() && "Scroll down"@[i] == ';';
            assert(i == 0 || i == 1 || i == 2 || i == 3 || i == 4 || i == 5 || i == 6 || i == 7
                || i == 8 || i == 9 || i == 10);
        }
    }
    assert(!has_char("Banner"@, ';')) by {
        if has_char("Banner"@, ';') {
            let i = choose|i: int| 0 <= i < "Banner"@.len() && "Banner"@[i] == ';';
            assert(i == 0 || i == 1 || i == 2 || i == 3 || i == 4 || i == 5);
        }
    }
}

/// The text of an effect that has a name is its fields joined by
/// semicolons, and none of the fields holds one.
proof fn lemma_effect_fields(e: EffectView)
    requires
        is_named(e),
    ensures
        effect_text(e) == join(effect_fields(e), seq![';']),
        forall|i: int|
            0 <= i < effect_fields(e).len() ==> !has_char(#[trigger] effect_fields(e)[i], ';'),
        effect_fields(e).len() >= 1,
{
    lemma_names();
    let f = effect_fields(e);
    let sep = seq![';'];
    match e {
        EffectView::ScrollUp { y1, y2, delay, fadeawayheight } => {
            lemma_field(y1, "y1"@);
            lemma_field(y2, "y2"@);
            lemma_field(delay, "delay"@);
            lemma_joined(f.take(4), fadeawayheight);
            assert(f.take(4) =~= seq![f[0], f[1], f[2], f[3]]);
            lemma_join4(f[0], f[1], f[2], f[3]);
            assert(f =~= f.take(4) + fade_fields(fadeawayheight));
        },
        EffectView::ScrollDown { y1, y2, delay, fadeawayheight } => {
            lemma_field(y1, "y1"@);
            lemma_field(y2, "y2"@);
            lemma_field(delay, "delay"@);
            lemma_joined(f.take(4), fadeawayheight);
            assert(f.take(4) =~= seq![f[0], f[1], f[2], f[3]]);
            lemma_join4(f[0], f[1], f[2], f[3]);
            assert(f =~= f.take(4) + fade_fields(fadeawayheight));
        },
        EffectView::Banner { delay, lefttoright, fadeawayheight } => {
            lemma_field(delay, "delay"@);
            lemma_field(if lefttoright { 1i32 } else { 0i32 }, "lefttoright"@);
            lemma_joined(f.take(3), fadeawayheight);
            assert(f.take(3) =~= seq![f[0], f[1], f[2]]);
            lemma_join3(f[0], f[1], f[2]);
            assert(f =~= f.take(3) + fade_fields(fadeawayheight));
            assert(dec_int(1) =~= seq!['1']);
            assert(dec_int(0) =~= seq!['0']);
            assert(effect_text(e) =~= join(f.take(3), sep) + fade_text(fadeawayheight));
        },
        _ => {
            assert(f =~= seq!["Karaoke"@]);
        },
    }
}

/// Three fields joined.
proof fn lemma_join3(a: Seq<char>, b: Seq<char>, c: Seq<char>)
    ensures
        join(seq![a, b, c], seq![';']) == a + seq![';'] + b + seq![';'] + c,
{
    let f = seq![a, b, c];
    assert(f.drop_last() =~= seq![a, b]);
    assert(seq![a, b].drop_last() =~= seq![a]);
    assert(join(seq![a], seq![';']) == a);
    assert(join(seq![a, b], seq![';']) =~= a + seq![';'] + b);
}

/// Four fields joined.
proof fn lemma_join4(a: Seq<char>, b: Seq<char>, c: Seq<char>, d: Seq<char>)
    ensures
        join(seq![a, b, c, d], seq![';']) == a + seq![';'] + b + seq![';'] + c + seq![';'] + d,
{
    let f = seq![a, b, c, d];
    assert(f.drop_last() =~= seq![a, b, c]);
    lemma_join3(a, b, c);
}

/// The fields with the height after them, joined.
proof fn lemma_joined(fields: Seq<Seq<char>>, fadeawayheight: Option<i32>)
    requires
        fields.len() >= 1,
    ensures
        join(fields + fade_fields(fadeawayheight), seq![';']) == join(fields, seq![';'])
            + fade_text(fadeawayheight),
        fadeawayheight is Some ==> !has_char(dec_int(fadeawayheight->0 as int), ';'),
{
    match fadeawayheight {
        Some(h) => {
            lemma_field(h, "fadeawayheight"@);
            let all = fields + fade_fields(fadeawayheight);
            assert(all.drop_last() =~= fields);
            assert(all.last() == dec_int(h as int));
            assert(join(all, seq![';']) =~= join(fields, seq![';']) + fade_text(
                fadeawayheight,
            ));
        },
        None => {
            assert(fields + fade_fields(fadeawayheight) =~= fields);
            assert(join(fields, seq![';']) + fade_text(fadeawayheight) =~= join(
                fields,
                seq![';'],
            ));
        },
    }
}

/// What a text is read as goes by its first field alone.
proof fn lemma_dispatch(s: Seq<char>)
    ensures
        split(s, ';')[0] == "Karaoke"@ ==> effect_of(s) == Ok::<EffectView, ErrorView>(
            EffectView::Karaoke,
        ),
        split(s, ';')[0] == "Scroll up"@ ==> effect_of(s) == scroll_of(
            split(s, ';'),
            "Scroll up"@,
        ),
        split(s, ';')[0] == "Scroll down"@ ==> effect_of(s) == scroll_of(
            split(s, ';'),
            "Scroll down"@,
        ),
        split(s, ';')[0] == "Banner"@ ==> effect_of(s) == banner_of(split(s, ';')),
{
    lemma_names();
    let head = split(s, ';')[0];
    if head == "Scroll up"@ {
        assert(lower_seq(head).len() != lower_seq("karaoke"@).len());
    }
    if head == "Scroll down"@ {
        assert(lower_seq(head).len() != lower_seq("karaoke"@).len());
        assert(lower_seq(head).len() != lower_seq("scroll up"@).len());
    }
    if head == "Banner"@ {
        assert(lower_seq(head).len() != lower_seq("karaoke"@).len());
        assert(lower_seq(head).len() != lower_seq("scroll up"@).len());
        assert(lower_seq(head).len() != lower_seq("scroll down"@).len());
    }
}

/// The height that was written is read back.
proof fn lemma_fade(parts: Seq<Seq<char>>, at: int, fadeawayheight: Option<i32>)
    requires
        at >= 0,
        parts.len() == at + fade_fields(fadeawayheight).len(),
        fadeawayheight is Some ==> parts[at] == dec_int(fadeawayheight->0 as int),
    ensures
        fade_of(parts, at) == Ok::<Option<i32>, ErrorView>(fadeawayheight),
{
    if fadeawayheight is Some {
        lemma_field(fadeawayheight->0, "fadeawayheight"@);
    }
}

/// A scroll is read back from its fields.
proof fn lemma_scroll_fields(
    name: Seq<char>,
    y1: i32,
    y2: i32,
    delay: i32,
    fadeawayheight: Option<i32>,
)
    ensures
        ({
            let parts = seq![
                name,
                dec_int(y1 as int),
                dec_int(y2 as int),
                dec_int(delay as int),
            ] + fade_fields(fadeawayheight);
            &&& name == "Scroll up"@ ==> scroll_of(parts, name) == Ok::<EffectView, ErrorView>(
                EffectView::ScrollUp { y1, y2, delay, fadeawayheight },
            )
            &&& name == "Scroll down"@ ==> scroll_of(parts, name) == Ok::<EffectView, ErrorView>(
                EffectView::ScrollDown { y1, y2, delay, fadeawayheight },
            )
        }),
{
    lemma_names();
    let parts = seq![name, dec_int(y1 as int), dec_int(y2 as int), dec_int(delay as int)]
        + fade_fields(fadeawayheight);
    lemma_field(y1, "y1"@);
    lemma_field(y2, "y2"@);
    lemma_field(delay, "delay"@);
    assert(parts[1] == dec_int(y1 as int));
    assert(parts[2] == dec_int(y2 as int));
    assert(parts[3] == dec_int(delay as int));
    lemma_fade(parts, 4, fadeawayheight);
}

/// A banner is read back from its fields.
proof fn lemma_banner_fields(delay: i32, lefttoright: bool, fadeawayheight: Option<i32>)
    ensures
        banner_of(
            seq![
                "Banner"@,
                dec_int(delay as int),
                dec_int(if lefttoright { 1int } else { 0int }),
            ] + fade_fields(fadeawayheight),
        ) == Ok::<EffectView, ErrorView>(
            EffectView::Banner { delay, lefttoright, fadeawayheight },
        ),
{
    let parts = seq![
        "Banner"@,
        dec_int(delay as int),
        dec_int(if lefttoright { 1int } else { 0int }),
    ] + fade_fields(fadeawayheight);
    lemma_field(delay, "delay"@);
    lemma_field(if lefttoright { 1i32 } else { 0i32 }, "lefttoright"@);
    assert(parts[1] == dec_int(delay as int));
    assert(parts[2] == dec_int(if lefttoright { 1int } else { 0int }));
    lemma_fade(parts, 3, fadeawayheight);
}

/// An effect that has a name is read back from its text: karaoke, a scroll
/// up or down and a banner, with or without the height of the fade-away
/// zone.
pub proof fn lemma_effect_round_trip(e: EffectView)
    requires
        is_named(e),
    ensures
        effect_of(effect_text(e)) == Ok::<EffectView, ErrorView>(e),
{
    lemma_effect_fields(e);
    let f = effect_fields(e);
    lemma_split_join(f, ';');
    lemma_dispatch(effect_text(e));
    match e {
        EffectView::ScrollUp { y1, y2, delay, fadeawayheight } => {
            lemma_scroll_fields("Scroll up"@, y1, y2, delay, fadeawayheight);
            assert(f[0] == "Scroll up"@);
        },
        EffectView::ScrollDown { y1, y2, delay, fadeawayheight } => {
            lemma_scroll_fields("Scroll down"@, y1, y2, delay, fadeawayheight);
            assert(f[0] == "Scroll down"@);
        },
        EffectView::Banner { delay, lefttoright, fadeawayheight } => {
            lemma_banner_fields(delay, lefttoright, fadeawayheight);
            assert(f[0] == "Banner"@);
        },
        _ => {
            assert(f[0] == "Karaoke"@);
        },
    }
}

/// A text whose first field names no effect is kept letter for letter, and
/// written as it was read.
pub proof fn lemma_unknown_round_trip(s: Seq<char>)
    requires
        effect_of(s) is Ok,
        effect_of(s)->Ok_0 is Unknown,
    ensures
        effect_of(s) == Ok::<EffectView, ErrorView>(EffectView::Unknown(s)),
        effect_text(effect_of(s)->Ok_0) == s,
{
}

fn parse_field(part: &Vec<char>, name: &str) -> (r: Result<i32, Error>)
    ensures
        match r {
            Ok(n) => field_of(part@, name@) == Ok::<i32, ErrorView>(n),
            Err(e) => field_of(part@, name@) == Err::<i32, ErrorView>(e@),
        },
{
    match parse_int(part, i32::MIN as i64, i32::MAX as i64) {
        Ok(n) => Ok(n as i32),
        Err(_) => {
            let msg = String::from_str("Invalid ").concat(name);
            Err(Error::parse_error("Effect", msg.as_str()))
        },
    }
}

fn parse_fade(parts: &Vec<Vec<char>>, at: usize) -> (r: Result<Option<i32>, Error>)
    ensures
        match r {
            Ok(h) => fade_of(views(parts@), at as int) == Ok::<Option<i32>, ErrorView>(h),
            Err(e) => fade_of(views(parts@), at as int) == Err::<Option<i32>, ErrorView>(e@),
        },
{
    if parts.len() > at {
        match parse_field(&parts[at], "fadeawayheight") {
            Ok(n) => Ok(Some(n)),
            Err(e) => Err(e),
        }
    } else {
        Ok(None)
    }
}

fn push_fade(out: &mut Vec<char>, fadeawayheight: &Option<i32>)
    ensures
        final(out)@ == old(out)@ + fade_text(*fadeawayheight),
{
    match fadeawayheight {
        Some(h) => {
            out.push(';');
            push_int(out, *h as i64);
            assert(final(out)@ =~= old(out)@ + fade_text(*fadeawayheight));
        },
        None => {
            assert(final(out)@ =~= old(out)@ + fade_text(*fadeawayheight));
        },
    }
}

fn scroll_string(name: &str, y1: i32, y2: i32, delay: i32, fadeawayheight: &Option<i32>) -> (s:
    String)
    ensures
        s@ == scroll_text(name@, y1, y2, delay, *fadeawayheight),
{
    let mut out: Vec<char> = to_chars(name);
    out.push(';');
    push_int(&mut out, y1 as i64);
    out.push(';');
    push_int(&mut out, y2 as i64);
    out.push(';');
    push_int(&mut out, delay as i64);
    push_fade(&mut out, fadeawayheight);
    assert(out@ =~= scroll_text(name@, y1, y2, delay, *fadeawayheight));
    to_text(&out)
}

impl Effect {
    /// Reads a scrolling effect from its fields; `direction` is `Scroll up` or
    /// `Scroll down`.
    pub fn parse_scroll_effect(parts: &Vec<Vec<char>>, direction: &str) -> (r: Result<Self, Error>)
        ensures
            match r {
                Ok(e) => scroll_of(views(parts@), direction@) == Ok::<EffectView, ErrorView>(e@),
                Err(e) => scroll_of(views(parts@), direction@) == Err::<EffectView, ErrorView>(
                    e@,
                ),
            },
    {
        if parts.len() < 4 {
            let msg = String::from_str("Invalid ").concat(direction).concat(" effect");
            return Err(Error::parse_error("Effect", msg.as_str()));
        }
        let y1 = match parse_field(&parts[1], "y1") {
            Ok(n) => n,
            Err(e) => { return Err(e); },
        };
        let y2 = match parse_field(&parts[2], "y2") {
            Ok(n) => n,
            Err(e) => { return Err(e); },
        };
        let delay = match parse_field(&parts[3], "delay") {
            Ok(n) => n,
            Err(e) => { return Err(e); },
        };
        let fadeawayheight = match parse_fade(parts, 4) {
            Ok(h) => h,
            Err(e) => { return Err(e); },
        };
        let d = to_chars(direction);
        if crate::text::is_text(&d, "Scroll up") {
            Ok(Effect::ScrollUp { y1, y2, delay, fadeawayheight })
        } else if crate::text::is_text(&d, "Scroll down") {
            Ok(Effect::ScrollDown { y1, y2, delay, fadeawayheight })
        } else {
            Err(Error::parse_error("Effect", "Unknown scroll direction"))
        }
    }

    /// Reads a banner from its fields.
    pub fn parse_banner_effect(parts: &Vec<Vec<char>>) -> (r: Result<Self, Error>)
        ensures
            match r {
                Ok(e) => banner_of(views(parts@)) == Ok::<EffectView, ErrorView>(e@),
                Err(e) => banner_of(views(parts@)) == Err::<EffectView, ErrorView>(e@),
            },
    {
        if parts.len() < 3 {
            return Err(Error::parse_error("Effect", "Invalid Banner effect"));
        }
        let delay = match parse_field(&parts[1], "delay") {
            Ok(n) => n,
            Err(e) => { return Err(e); },
        };
        let flag = match parse_field(&parts[2], "lefttoright") {
            Ok(n) => n,
            Err(e) => { return Err(e); },
        };
        let fadeawayheight = match parse_fade(parts, 3) {
            Ok(h) => h,
            Err(e) => { return Err(e); },
        };
        Ok(Effect::Banner { delay, lefttoright: flag == 1, fadeawayheight })
    }

    /// The text that stands for the effect.
    pub fn to_string(&self) -> (s: String)
        ensures
            s@ == effect_text(self@),
    {
        match self {
            Effect::NoEffect => String::new(),
            Effect::Unknown(s) => s.clone(),
            Effect::Karaoke => String::from_str("Karaoke"),
            Effect::ScrollUp { y1, y2, delay, fadeawayheight } => scroll_string(
                "Scroll up",
                *y1,
                *y2,
                *delay,
                fadeawayheight,
            ),
            Effect::ScrollDown { y1, y2, delay, fadeawayheight } => scroll_string(
                "Scroll down",
                *y1,
                *y2,
                *delay,
                fadeawayheight,
            ),
            Effect::Banner { delay, lefttoright, fadeawayheight } => {
                let mut out: Vec<char> = to_chars("Banner");
                out.push(';');
                push_int(&mut out, *delay as i64);
                out.push(';');
                out.push(if *lefttoright { '1' } else { '0' });
                push_fade(&mut out, fadeawayheight);
                assert(out@ =~= effect_text(self@));
                to_text(&out)
            },
        }
    }
}

impl Parser for Effect {
    /// Reads an effect. A text that names no known effect is no error: it is
    /// kept as it is.
    fn parse(src: &str) -> (r: Result<Self, Error>)
        ensures
            match r {
                Ok(e) => effect_of(src@) == Ok::<EffectView, ErrorView>(e@),
                Err(e) => effect_of(src@) == Err::<EffectView, ErrorView>(e@),
            },
    {
        let chars = to_chars(src);
        let parts = split_chars(&chars, ';');
        proof {
            crate::text::lemma_pieces_some(chars@, None, ';');
        }
        if is_text_ignore_case(&parts[0], "karaoke") {
            Ok(Effect::Karaoke)
        } else if is_text_ignore_case(&parts[0], "scroll up") {
            Effect::parse_scroll_effect(&parts, "Scroll up")
        } else if is_text_ignore_case(&parts[0], "scroll down") {
            Effect::parse_scroll_effect(&parts, "Scroll down")
        } else if is_text_ignore_case(&parts[0], "banner") {
            Effect::parse_banner_effect(&parts)
        } else {
            Ok(Effect::Unknown(String::from_str(src)))
        }
    }
}

} // verus!
