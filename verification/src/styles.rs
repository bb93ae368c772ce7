//! The styles of a script: the columns that a style can have, what an unset
//! column is written as, how the text of a column is read, and the records.

use crate::assoc::{
    first_key, lemma_first_key, lemma_first_key_at, lemma_no_key, value_of, without_key,
};
use crate::error::{Error, ErrorView};
use crate::float_text::FloatText;
use crate::parser::{float_value_of, int_value_of, parse_f64, parse_i64, value_result};
use crate::record::{
    empty_slots, first_slot, lemma_first_slot, lemma_first_slot_at, lemma_no_slot, record_text,
    slot_value, slot_view, slot_views, with_slot,
};
use crate::text::{
    concat_with, eq_ignore_case, is_lower_of, join, join_strings, lines_text, push_line, texts,
    to_chars, to_lower,
};
use crate::value::{Value, ValueView};
use vstd::prelude::*;
use vstd::string::*;

verus! {

/// A column of the styles table.
#[derive(Debug, Copy, Clone, Eq, PartialEq, Structural, Hash)]
pub enum StyleFormat {
    Name,
    Fontname,
    Fontsize,
    PrimaryColour,
    SecondaryColour,
    TertiaryColour,
    OutlineColour,
    BackColour,
    Bold,
    Italic,
    Underline,
    StrikeOut,
    ScaleX,
    ScaleY,
    Spacing,
    Angle,
    BorderStyle,
    Outline,
    Shadow,
    Alignment,
    MarginL,
    MarginR,
    MarginV,
    AlphaLevel,
    Encoding,
}

/// The name that a column is written with.
pub open spec fn style_format_name(f: StyleFormat) -> Seq<char> {
    match f {
        StyleFormat::Name => "Name"@,
        StyleFormat::Fontname => "Fontname"@,
        StyleFormat::Fontsize => "Fontsize"@,
        StyleFormat::PrimaryColour => "PrimaryColour"@,
        StyleFormat::SecondaryColour => "SecondaryColour"@,
        StyleFormat::TertiaryColour => "TertiaryColour"@,
        StyleFormat::OutlineColour => "OutlineColour"@,
        StyleFormat::BackColour => "BackColour"@,
        StyleFormat::Bold => "Bold"@,
        StyleFormat::Italic => "Italic"@,
        StyleFormat::Underline => "Underline"@,
        StyleFormat::StrikeOut => "StrikeOut"@,
        StyleFormat::ScaleX => "ScaleX"@,
        StyleFormat::ScaleY => "ScaleY"@,
        StyleFormat::Spacing => "Spacing"@,
        StyleFormat::Angle => "Angle"@,
        StyleFormat::BorderStyle => "BorderStyle"@,
        StyleFormat::Outline => "Outline"@,
        StyleFormat::Shadow => "Shadow"@,
        StyleFormat::Alignment => "Alignment"@,
        StyleFormat::MarginL => "MarginL"@,
        StyleFormat::MarginR => "MarginR"@,
        StyleFormat::MarginV => "MarginV"@,
        StyleFormat::AlphaLevel => "AlphaLevel"@,
        StyleFormat::Encoding => "Encoding"@,
    }
}

/// The column that `s` names, in any case of letters. The five colours are
/// also known by their spelling with `Color`.
pub open spec fn style_format_of(s: Seq<char>) -> Option<StyleFormat> {
    if eq_ignore_case(s, "Name"@) {
        Some(StyleFormat::Name)
    } else if eq_ignore_case(s, "Fontname"@) {
        Some(StyleFormat::Fontname)
    } else if eq_ignore_case(s, "Fontsize"@) {
        Some(StyleFormat::Fontsize)
    } else if eq_ignore_case(s, "PrimaryColour"@) || eq_ignore_case(s, "PrimaryColor"@) {
        Some(StyleFormat::PrimaryColour)
    } else if eq_ignore_case(s, "SecondaryColour"@) || eq_ignore_case(s, "SecondaryColor"@) {
        Some(StyleFormat::SecondaryColour)
    } else if eq_ignore_case(s, "TertiaryColour"@) || eq_ignore_case(s, "TertiaryColor"@) {
        Some(StyleFormat::TertiaryColour)
    } else if eq_ignore_case(s, "OutlineColour"@) || eq_ignore_case(s, "OutlineColor"@) {
        Some(StyleFormat::OutlineColour)
    } else if eq_ignore_case(s, "BackColour"@) || eq_ignore_case(s, "BackColor"@) {
        Some(StyleFormat::BackColour)
    } else if eq_ignore_case(s, "Bold"@) {
        Some(StyleFormat::Bold)
    } else if eq_ignore_case(s, "Italic"@) {
        Some(StyleFormat::Italic)
    } else if eq_ignore_case(s, "Underline"@) {
        Some(StyleFormat::Underline)
    } else if eq_ignore_case(s, "StrikeOut"@) {
        Some(StyleFormat::StrikeOut)
    } else if eq_ignore_case(s, "ScaleX"@) {
        Some(StyleFormat::ScaleX)
    } else if eq_ignore_case(s, "ScaleY"@) {
        Some(StyleFormat::ScaleY)
    } else if eq_ignore_case(s, "Spacing"@) {
        Some(StyleFormat::Spacing)
    } else if eq_ignore_case(s, "Angle"@) {
        Some(StyleFormat::Angle)
    } else if eq_ignore_case(s, "BorderStyle"@) {
        Some(StyleFormat::BorderStyle)
    } else if eq_ignore_case(s, "Outline"@) {
        Some(StyleFormat::Outline)
    } else if eq_ignore_case(s, "Shadow"@) {
        Some(StyleFormat::Shadow)
    } else if eq_ignore_case(s, "Alignment"@) {
        Some(StyleFormat::Alignment)
    } else if eq_ignore_case(s, "MarginL"@) {
        Some(StyleFormat::MarginL)
    } else if eq_ignore_case(s, "MarginR"@) {
        Some(StyleFormat::MarginR)
    } else if eq_ignore_case(s, "MarginV"@) {
        Some(StyleFormat::MarginV)
    } else if eq_ignore_case(s, "AlphaLevel"@) {
        Some(StyleFormat::AlphaLevel)
    } else if eq_ignore_case(s, "Encoding"@) {
        Some(StyleFormat::Encoding)
    } else {
        None
    }
}

/// What an unset slot of the column `f` is written as: an empty name, opaque
/// black for a colour, a scale of 100, a border style of 1, an alignment of
/// 2, margins of 10.
pub open spec fn style_default(f: StyleFormat) -> ValueView {
    match f {
        StyleFormat::Name | StyleFormat::Fontname => ValueView::Str(Seq::empty()),
        StyleFormat::Fontsize => ValueView::Int(0),
        StyleFormat::PrimaryColour
        | StyleFormat::SecondaryColour
        | StyleFormat::TertiaryColour
        | StyleFormat::OutlineColour
        | StyleFormat::BackColour => ValueView::Str("&H00000000"@),
        StyleFormat::Bold
        | StyleFormat::Italic
        | StyleFormat::Underline
        | StyleFormat::StrikeOut => ValueView::Int(0),
        StyleFormat::ScaleX | StyleFormat::ScaleY => ValueView::Float(crate::num::dec(100)),
        StyleFormat::Spacing | StyleFormat::Angle => ValueView::Float(crate::num::dec(0)),
        StyleFormat::BorderStyle => ValueView::Int(1),
        StyleFormat::Outline | StyleFormat::Shadow => ValueView::Float(crate::num::dec(0)),
        StyleFormat::Alignment => ValueView::Int(2),
        StyleFormat::MarginL
        | StyleFormat::MarginR
        | StyleFormat::MarginV
        | StyleFormat::AlphaLevel => ValueView::Int(10),
        StyleFormat::Encoding => ValueView::Int(134),
    }
}

/// Whether the fields of the column `f` are numbers with a fraction.
pub open spec fn is_fraction_column(f: StyleFormat) -> bool {
    f == StyleFormat::ScaleX || f == StyleFormat::ScaleY || f == StyleFormat::Spacing || f
        == StyleFormat::Angle || f == StyleFormat::Outline || f == StyleFormat::Shadow || f
        == StyleFormat::AlphaLevel
}

/// Whether the fields of the column `f` are kept as the text they are.
pub open spec fn is_text_column(f: StyleFormat) -> bool {
    f == StyleFormat::Name || f == StyleFormat::Fontname || f == StyleFormat::PrimaryColour || f
        == StyleFormat::SecondaryColour || f == StyleFormat::TertiaryColour || f
        == StyleFormat::OutlineColour || f == StyleFormat::BackColour
}

/// The value that the text `s` stands for in the column `f`: the text itself
/// for the names and the colours, a number with a fraction for the scales,
/// the spacing, the angle, the outline, the shadow and the alpha level, and
/// an integer for every other column.
pub open spec fn style_value_of(f: StyleFormat, s: Seq<char>) -> Result<ValueView, ErrorView> {
    if is_text_column(f) {
        Ok(ValueView::Str(s))
    } else if is_fraction_column(f) {
        float_value_of(s)
    } else {
        int_value_of(s)
    }
}

/// [`style_value_of`] as a function.
pub open spec fn style_reader() -> spec_fn(StyleFormat, Seq<char>) -> Result<ValueView, ErrorView> {
    |f: StyleFormat, s: Seq<char>| style_value_of(f, s)
}

/// What a column reads from a text, it reads again from what the value is
/// written as.
pub proof fn lemma_style_value_round_trip(f: StyleFormat, s: Seq<char>)
    requires
        style_value_of(f, s) is Ok,
    ensures
        style_value_of(f, crate::value::value_text(style_value_of(f, s)->Ok_0))
            == style_value_of(f, s),
{
    if !is_text_column(f) && !is_fraction_column(f) {
        let n = crate::num::int_of(s, i64::MIN as int, i64::MAX as int)->Ok_0;
        crate::num::lemma_int_round_trip(n, i64::MIN as int, i64::MAX as int);
    }
}

impl StyleFormat {
    /// The name that the column is written with.
    pub fn name(&self) -> (r: &'static str)
        ensures
            r@ == style_format_name(*self),
    {
        match self {
            StyleFormat::Name => "Name",
            StyleFormat::Fontname => "Fontname",
            StyleFormat::Fontsize => "Fontsize",
            StyleFormat::PrimaryColour => "PrimaryColour",
            StyleFormat::SecondaryColour => "SecondaryColour",
            StyleFormat::TertiaryColour => "TertiaryColour",
            StyleFormat::OutlineColour => "OutlineColour",
            StyleFormat::BackColour => "BackColour",
            StyleFormat::Bold => "Bold",
            StyleFormat::Italic => "Italic",
            StyleFormat::Underline => "Underline",
            StyleFormat::StrikeOut => "StrikeOut",
            StyleFormat::ScaleX => "ScaleX",
            StyleFormat::ScaleY => "ScaleY",
            StyleFormat::Spacing => "Spacing",
            StyleFormat::Angle => "Angle",
            StyleFormat::BorderStyle => "BorderStyle",
            StyleFormat::Outline => "Outline",
            StyleFormat::Shadow => "Shadow",
            StyleFormat::Alignment => "Alignment",
            StyleFormat::MarginL => "MarginL",
            StyleFormat::MarginR => "MarginR",
            StyleFormat::MarginV => "MarginV",
            StyleFormat::AlphaLevel => "AlphaLevel",
            StyleFormat::Encoding => "Encoding",
        }
    }

    /// The name that the column is written with.
    pub fn to_string(&self) -> (r: String)
        ensures
            r@ == style_format_name(*self),
    {
        String::from_str(self.name())
    }

    /// The column that `src` names, in any case of letters.
    pub fn from_name(src: &str) -> (r: Option<StyleFormat>)
        ensures
            r == style_format_of(src@),
    {
        let low = to_lower(&to_chars(src));
        if is_lower_of(&low, "Name") {
            Some(StyleFormat::Name)
        } else if is_lower_of(&low, "Fontname") {
            Some(StyleFormat::Fontname)
        } else if is_lower_of(&low, "Fontsize") {
            Some(StyleFormat::Fontsize)
        } else if is_lower_of(&low, "PrimaryColour") || is_lower_of(&low, "PrimaryColor") {
            Some(StyleFormat::PrimaryColour)
        } else if is_lower_of(&low, "SecondaryColour") || is_lower_of(&low, "SecondaryColor") {
            Some(StyleFormat::SecondaryColour)
        } else if is_lower_of(&low, "TertiaryColour") || is_lower_of(&low, "TertiaryColor") {
            Some(StyleFormat::TertiaryColour)
        } else if is_lower_of(&low, "OutlineColour") || is_lower_of(&low, "OutlineColor") {
            Some(StyleFormat::OutlineColour)
        } else if is_lower_of(&low, "BackColour") || is_lower_of(&low, "BackColor") {
            Some(StyleFormat::BackColour)
        } else if is_lower_of(&low, "Bold") {
            Some(StyleFormat::Bold)
        } else if is_lower_of(&low, "Italic") {
            Some(StyleFormat::Italic)
        } else if is_lower_of(&low, "Underline") {
            Some(StyleFormat::Underline)
        } else if is_lower_of(&low, "StrikeOut") {
            Some(StyleFormat::StrikeOut)
        } else if is_lower_of(&low, "ScaleX") {
            Some(StyleFormat::ScaleX)
        } else if is_lower_of(&low, "ScaleY") {
            Some(StyleFormat::ScaleY)
        } else if is_lower_of(&low, "Spacing") {
            Some(StyleFormat::Spacing)
        } else if is_lower_of(&low, "Angle") {
            Some(StyleFormat::Angle)
        } else if is_lower_of(&low, "BorderStyle") {
            Some(StyleFormat::BorderStyle)
        } else if is_lower_of(&low, "Outline") {
            Some(StyleFormat::Outline)
        } else if is_lower_of(&low, "Shadow") {
            Some(StyleFormat::Shadow)
        } else if is_lower_of(&low, "Alignment") {
            Some(StyleFormat::Alignment)
        } else if is_lower_of(&low, "MarginL") {
            Some(StyleFormat::MarginL)
        } else if is_lower_of(&low, "MarginR") {
            Some(StyleFormat::MarginR)
        } else if is_lower_of(&low, "MarginV") {
            Some(StyleFormat::MarginV)
        } else if is_lower_of(&low, "AlphaLevel") {
            Some(StyleFormat::AlphaLevel)
        } else if is_lower_of(&low, "Encoding") {
            Some(StyleFormat::Encoding)
        } else {
            None
        }
    }

    /// What an unset slot of the column is written as.
    pub fn default_value(&self) -> (v: Value)
        ensures
            v@ == style_default(*self),
    {
        match self {
            StyleFormat::Name | StyleFormat::Fontname => Value::Str(String::new()),
            StyleFormat::Fontsize => Value::Int(0),
            StyleFormat::PrimaryColour
            | StyleFormat::SecondaryColour
            | StyleFormat::TertiaryColour
            | StyleFormat::OutlineColour
            | StyleFormat::BackColour => Value::Str(String::from_str("&H00000000")),
            StyleFormat::Bold
            | StyleFormat::Italic
            | StyleFormat::Underline
            | StyleFormat::StrikeOut => Value::Int(0),
            StyleFormat::ScaleX | StyleFormat::ScaleY => Value::Float(FloatText::whole(100)),
            StyleFormat::Spacing | StyleFormat::Angle => Value::Float(FloatText::whole(0)),
            StyleFormat::BorderStyle => Value::Int(1),
            StyleFormat::Outline | StyleFormat::Shadow => Value::Float(FloatText::whole(0)),
            StyleFormat::Alignment => Value::Int(2),
            StyleFormat::MarginL
            | StyleFormat::MarginR
            | StyleFormat::MarginV
            | StyleFormat::AlphaLevel => Value::Int(10),
            StyleFormat::Encoding => Value::Int(134),
        }
    }

    /// Reads the text of one field of the column.
    pub fn parse_value(&self, src: &str) -> (r: Result<Value, Error>)
        ensures
            value_result(r) == style_value_of(*self, src@),
    {
        match self {
            StyleFormat::Name | StyleFormat::Fontname => Ok(Value::Str(String::from_str(src))),
            StyleFormat::Fontsize => parse_i64(src),
            StyleFormat::PrimaryColour
            | StyleFormat::SecondaryColour
            | StyleFormat::TertiaryColour
            | StyleFormat::OutlineColour
            | StyleFormat::BackColour => Ok(Value::Str(String::from_str(src))),
            StyleFormat::Bold
            | StyleFormat::Italic
            | StyleFormat::Underline
            | StyleFormat::StrikeOut => parse_i64(src),
            StyleFormat::ScaleX
            | StyleFormat::ScaleY
            | StyleFormat::Spacing
            | StyleFormat::Angle => parse_f64(src),
            StyleFormat::BorderStyle => parse_i64(src),
            StyleFormat::Outline | StyleFormat::Shadow | StyleFormat::AlphaLevel => parse_f64(src),
            StyleFormat::Alignment
            | StyleFormat::MarginL
            | StyleFormat::MarginR
            | StyleFormat::MarginV
            | StyleFormat::Encoding => parse_i64(src),
        }
    }
}

impl std::str::FromStr for StyleFormat {
    type Err = Error;

    /// The column that `src` names; see [`StyleFormat::from_name`].
    fn from_str(src: &str) -> (r: Result<Self, Error>)
        ensures
            match style_format_of(src@) {
                Some(f) => r == Ok::<StyleFormat, Error>(f),
                None => r is Err && r->Err_0@ == (ErrorView::ParseError {
                    ty: "StyleFormat"@,
                    msg: src@,
                }),
            },
    {
        match StyleFormat::from_name(src) {
            Some(f) => Ok(f),
            None => Err(Error::parse_error("StyleFormat", src)),
        }
    }
}

/// One style: its slots, one for each declared column.
#[derive(Debug, PartialEq, Eq)]
pub struct Style(Vec<(StyleFormat, Option<Value>)>);

impl View for Style {
    type V = Seq<(StyleFormat, Option<ValueView>)>;

    closed spec fn view(&self) -> Seq<(StyleFormat, Option<ValueView>)> {
        slot_views(self.0@)
    }
}

/// The fields of the style `slots`, separated by commas.
pub open spec fn style_text(slots: Seq<(StyleFormat, Option<ValueView>)>) -> Seq<char> {
    record_text(slots, |f: StyleFormat| style_default(f))
}

/// The name of the style `slots`: the text in its column `Name`.
pub open spec fn style_name_of(slots: Seq<(StyleFormat, Option<ValueView>)>) -> Result<
    Seq<char>,
    ErrorView,
> {
    match slot_value(slots, StyleFormat::Name) {
        None => Err(ErrorView::V4StyleNameNotFound),
        Some(ValueView::Str(name)) => Ok(name),
        Some(_) => Err(ErrorView::InvalidType { expected: "str"@ }),
    }
}

fn clone_slot(slot: &(StyleFormat, Option<Value>)) -> (r: (StyleFormat, Option<Value>))
    ensures
        slot_view(r) == slot_view(*slot),
{
    match &slot.1 {
        Some(v) => (slot.0, Some(v.clone())),
        None => (slot.0, None),
    }
}

impl Clone for Style {
    fn clone(&self) -> (r: Self)
        ensures
            r@ == self@,
    {
        let mut values: Vec<(StyleFormat, Option<Value>)> = Vec::new();
        let mut i: usize = 0;
        while i < self.0.len()
            invariant
                i <= self.0.len(),
                values@.len() == i,
                forall|j: int| 0 <= j < i ==> slot_view(values@[j]) == slot_view(self.0@[j]),
            decreases self.0.len() - i,
        {
            values.push(clone_slot(&self.0[i]));
            i += 1;
        }
        assert(slot_views(values@) =~= slot_views(self.0@));
        Style(values)
    }
}

impl Style {
    /// A new style with the columns of `styles`, all of them unset.
    pub fn new(styles: &V4Styles) -> (r: Self)
        ensures
            r@ == empty_slots(styles@.order),
    {
        let order = styles.order();
        let mut values: Vec<(StyleFormat, Option<Value>)> = Vec::new();
        let mut i: usize = 0;
        while i < order.len()
            invariant
                i <= order.len(),
                values@.len() == i,
                forall|j: int|
                    0 <= j < i ==> slot_view(values@[j]) == (order@[j], None::<ValueView>),
            decreases order.len() - i,
        {
            values.push((order[i], None));
            i += 1;
        }
        assert(slot_views(values@) =~= empty_slots(order@));
        Style(values)
    }

    /// The place of the first slot of the column `format`.
    fn position(&self, format: StyleFormat) -> (r: Option<usize>)
        ensures
            match r {
                Some(i) => first_slot(self@, format) == Some(i as int) && i < self.0@.len(),
                None => first_slot(self@, format) is None,
            },
    {
        let mut i: usize = 0;
        while i < self.0.len()
            invariant
                i <= self.0.len(),
                forall|j: int| 0 <= j < i ==> (#[trigger] self@[j]).0 != format,
            decreases self.0.len() - i,
        {
            if self.0[i].0 == format {
                proof {
                    lemma_first_slot_at(self@, format, i as int);
                }
                return Some(i);
            }
            i += 1;
        }
        proof {
            lemma_no_slot(self@, format);
        }
        None
    }

    /// Puts `value` into the first slot of the column `format`. A style
    /// without that column stays as it is.
    pub fn set(&mut self, format: StyleFormat, value: Value)
        ensures
            final(self)@ == with_slot(old(self)@, format, Some(value@)),
    {
        match self.position(format) {
            Some(i) => {
                self.0.set(i, (format, Some(value)));
                assert(final(self)@ =~= with_slot(old(self)@, format, Some(value@)));
            },
            None => {},
        }
    }

    /// What the first slot of the column `format` holds.
    pub fn get(&self, format: StyleFormat) -> (r: Option<&Value>)
        ensures
            match r {
                Some(v) => slot_value(self@, format) == Some(v@),
                None => slot_value(self@, format) is None,
            },
    {
        match self.position(format) {
            Some(i) => self.0[i].1.as_ref(),
            None => None,
        }
    }

    /// What the first slot of the column `format` holds, to be changed in
    /// place.
    pub fn get_mut(&mut self, format: StyleFormat) -> (r: Option<&mut Value>)
        ensures
            match r {
                Some(v) => slot_value(old(self)@, format) == Some(v@) && final(self)@
                    == with_slot(old(self)@, format, Some(final(v)@)),
                None => slot_value(old(self)@, format) is None && final(self)@ == old(self)@,
            },
    {
        match self.position(format) {
            Some(i) => {
                proof {
                    lemma_first_slot(old(self)@, format);
                }
                let ghost before = old(self).0@;
                let slot = &mut self.0[i];
                let ghost after = *final(slot);
                proof {
                    assert(slot_views(before.update(i as int, after)) =~= slot_views(
                        before,
                    ).update(i as int, slot_view(after)));
                    assert(slot_views(before).update(i as int, slot_view(before[i as int]))
                        =~= slot_views(before));
                }
                slot.1.as_mut()
            },
            None => None,
        }
    }

    /// Empties the first slot of the column `format`.
    pub fn remove(&mut self, format: StyleFormat)
        ensures
            final(self)@ == with_slot(old(self)@, format, None),
    {
        match self.position(format) {
            Some(i) => {
                self.0.set(i, (format, None));
                assert(final(self)@ =~= with_slot(old(self)@, format, None));
            },
            None => {},
        }
    }

    /// The fields of the style, separated by commas.
    pub fn to_string(&self) -> (s: String)
        ensures
            s@ == style_text(self@),
    {
        let mut fields: Vec<String> = Vec::new();
        let mut i: usize = 0;
        let ghost want = crate::record::slot_texts(self@, |f: StyleFormat| style_default(f));
        while i < self.0.len()
            invariant
                i <= self.0.len(),
                fields@.len() == i,
                want == crate::record::slot_texts(self@, |f: StyleFormat| style_default(f)),
                forall|j: int| 0 <= j < i ==> fields@[j]@ == want[j],
            decreases self.0.len() - i,
        {
            let field = match &self.0[i].1 {
                Some(v) => v.to_string(),
                None => self.0[i].0.default_value().to_string(),
            };
            fields.push(field);
            i += 1;
        }
        assert(texts(fields@) =~= want);
        proof {
            reveal_strlit(",");
            assert(","@ =~= seq![',']);
        }
        concat_with(&fields, ",")
    }
}

/// The styles of a script: the declared columns, which include `Name`, and
/// the styles in their order, each with its name.
#[derive(Debug, PartialEq, Eq)]
pub struct V4Styles {
    order: Vec<StyleFormat>,
    styles: Vec<(String, Style)>,
}

/// A [`V4Styles`] as the declared columns and the named styles.
pub struct V4StylesView {
    pub order: Seq<StyleFormat>,
    pub styles: Seq<(Seq<char>, Seq<(StyleFormat, Option<ValueView>)>)>,
}

impl V4StylesView {
    /// Whether the column `Name` is among the declared columns. The
    /// constructors see to it, and no method changes the columns.
    pub open spec fn wf(self) -> bool {
        self.order.contains(StyleFormat::Name)
    }
}

/// The views of the named styles of `l`.
pub open spec fn named_views(l: Seq<(String, Style)>) -> Seq<
    (Seq<char>, Seq<(StyleFormat, Option<ValueView>)>),
> {
    Seq::new(l.len(), |i: int| (l[i].0@, l[i].1@))
}

impl View for V4Styles {
    type V = V4StylesView;

    closed spec fn view(&self) -> V4StylesView {
        V4StylesView { order: self.order@, styles: named_views(self.styles@) }
    }
}

/// The columns that a script has where it declares none.
pub open spec fn default_style_order() -> Seq<StyleFormat> {
    seq![
        StyleFormat::Name,
        StyleFormat::Fontname,
        StyleFormat::Fontsize,
        StyleFormat::PrimaryColour,
        StyleFormat::SecondaryColour,
        StyleFormat::OutlineColour,
        StyleFormat::BackColour,
        StyleFormat::Bold,
        StyleFormat::Italic,
        StyleFormat::Underline,
        StyleFormat::StrikeOut,
        StyleFormat::ScaleX,
        StyleFormat::ScaleY,
        StyleFormat::Spacing,
        StyleFormat::Angle,
        StyleFormat::BorderStyle,
        StyleFormat::Outline,
        StyleFormat::Shadow,
        StyleFormat::Alignment,
        StyleFormat::MarginL,
        StyleFormat::MarginR,
        StyleFormat::MarginV,
        StyleFormat::Encoding,
    ]
}

/// The names of the columns of `order`.
pub open spec fn style_format_names(order: Seq<StyleFormat>) -> Seq<Seq<char>> {
    Seq::new(order.len(), |i: int| style_format_name(order[i]))
}

/// The lines of the styles of `l`: `Style: ` and the fields.
pub open spec fn style_lines(
    l: Seq<(Seq<char>, Seq<(StyleFormat, Option<ValueView>)>)>,
) -> Seq<Seq<char>> {
    Seq::new(l.len(), |i: int| "Style: "@ + style_text(l[i].1))
}

/// The body of the styles section: the line that declares the columns, then
/// one line for each style.
pub open spec fn styles_text(s: V4StylesView) -> Seq<char> {
    "Format: "@ + join(style_format_names(s.order), ", "@) + seq!['\n'] + lines_text(
        style_lines(s.styles),
    )
}

impl Clone for V4Styles {
    fn clone(&self) -> (r: Self)
        ensures
            r@ == self@,
    {
        let mut styles: Vec<(String, Style)> = Vec::new();
        let mut i: usize = 0;
        while i < self.styles.len()
            invariant
                i <= self.styles.len(),
                styles@.len() == i,
                forall|j: int|
                    0 <= j < i ==> styles@[j].0@ == self.styles@[j].0@ && styles@[j].1@
                        == self.styles@[j].1@,
            decreases self.styles.len() - i,
        {
            styles.push((self.styles[i].0.clone(), self.styles[i].1.clone()));
            i += 1;
        }
        assert(named_views(styles@) =~= named_views(self.styles@));
        V4Styles { order: self.order.clone(), styles }
    }
}

impl Default for V4Styles {
    /// No styles, with the 23 columns of a `v4.00+` script.
    fn default() -> (r: Self)
        ensures
            r@ == (V4StylesView { order: default_style_order(), styles: Seq::empty() }),
            r@.wf(),
    {
        let order = vec![
            StyleFormat::Name,
            StyleFormat::Fontname,
            StyleFormat::Fontsize,
            StyleFormat::PrimaryColour,
            StyleFormat::SecondaryColour,
            StyleFormat::OutlineColour,
            StyleFormat::BackColour,
            StyleFormat::Bold,
            StyleFormat::Italic,
            StyleFormat::Underline,
            StyleFormat::StrikeOut,
            StyleFormat::ScaleX,
            StyleFormat::ScaleY,
            StyleFormat::Spacing,
            StyleFormat::Angle,
            StyleFormat::BorderStyle,
            StyleFormat::Outline,
            StyleFormat::Shadow,
            StyleFormat::Alignment,
            StyleFormat::MarginL,
            StyleFormat::MarginR,
            StyleFormat::MarginV,
            StyleFormat::Encoding,
        ];
        let r = V4Styles { order, styles: Vec::new() };
        assert(r@.order =~= default_style_order());
        assert(r@.styles =~= Seq::empty());
        assert(r@.order[0] == StyleFormat::Name);
        r
    }
}

impl V4Styles {
    /// No styles, with the columns `order`. Without the column `Name` there
    /// is no such section.
    pub fn new(order: Vec<StyleFormat>) -> (r: Result<Self, Error>)
        ensures
            match r {
                Ok(s) => order@.contains(StyleFormat::Name) && s@ == (V4StylesView {
                    order: order@,
                    styles: Seq::empty(),
                }) && s@.wf(),
                Err(e) => !order@.contains(StyleFormat::Name) && e@
                    == ErrorView::V4StyleNameNotFound,
            },
    {
        let mut i: usize = 0;
        let mut found = false;
        while i < order.len() && !found
            invariant
                i <= order.len(),
                !found ==> forall|j: int| 0 <= j < i ==> order@[j] != StyleFormat::Name,
                found ==> order@.contains(StyleFormat::Name),
            decreases order.len() - i,
        {
            if order[i] == StyleFormat::Name {
                found = true;
            }
            i += 1;
        }
        if !found {
            return Err(Error::V4StyleNameNotFound);
        }
        let r = V4Styles { order, styles: Vec::new() };
        assert(r@.styles =~= Seq::empty());
        Ok(r)
    }

    /// The declared columns.
    pub fn order(&self) -> (r: &Vec<StyleFormat>)
        ensures
            r@ == self@.order,
    {
        &self.order
    }

    /// The number of styles.
    pub fn len(&self) -> (n: usize)
        ensures
            n == self@.styles.len(),
    {
        self.styles.len()
    }

    /// Adds `style` after the styles that are there, under the name that its
    /// column `Name` holds. A style of that name may be there already: the
    /// name then still finds the earlier one.
    pub fn add(&mut self, style: Style) -> (r: Result<(), Error>)
        ensures
            match style_name_of(style@) {
                Ok(name) => r is Ok && final(self)@ == (V4StylesView {
                    order: old(self)@.order,
                    styles: old(self)@.styles.push((name, style@)),
                }) && first_key(final(self)@.styles, name) is Some && (first_key(
                    old(self)@.styles,
                    name,
                ) is None ==> value_of(final(self)@.styles, name) == Some(style@)),
                Err(e) => r is Err && r->Err_0@ == e && final(self)@ == old(self)@,
            },
    {
        let name = match style.get(StyleFormat::Name) {
            None => { return Err(Error::V4StyleNameNotFound); },
            Some(v) => match v.as_str() {
                None => { return Err(Error::invalid_type("str")); },
                Some(s) => String::from_str(s),
            },
        };
        proof {
            let before = old(self)@.styles;
            let after = before.push((name@, style@));
            lemma_first_key(before, name@);
            match first_key(before, name@) {
                Some(i) => {
                    lemma_first_key_at(after, name@, i);
                },
                None => {
                    lemma_first_key_at(after, name@, before.len() as int);
                },
            }
        }
        self.styles.push((name, style));
        assert(final(self)@.styles =~= old(self)@.styles.push((name@, style@)));
        Ok(())
    }

    /// The place of the first style of the name `name`.
    fn position(&self, name: &str) -> (r: Option<usize>)
        ensures
            match r {
                Some(i) => first_key(self@.styles, name@) == Some(i as int) && i
                    < self.styles@.len(),
                None => first_key(self@.styles, name@) is None,
            },
    {
        let key = String::from_str(name);
        let mut i: usize = 0;
        while i < self.styles.len()
            invariant
                i <= self.styles.len(),
                key@ == name@,
                forall|j: int| 0 <= j < i ==> (#[trigger] self@.styles[j]).0 != name@,
            decreases self.styles.len() - i,
        {
            if self.styles[i].0 == key {
                proof {
                    lemma_first_key_at(self@.styles, name@, i as int);
                }
                return Some(i);
            }
            i += 1;
        }
        proof {
            lemma_no_key(self@.styles, name@);
        }
        None
    }

    /// The first style of the name `name`.
    pub fn get(&self, name: &str) -> (r: Option<&Style>)
        ensures
            match r {
                Some(s) => value_of(self@.styles, name@) == Some(s@),
                None => value_of(self@.styles, name@) is None,
            },
    {
        match self.position(name) {
            Some(i) => Some(&self.styles[i].1),
            None => None,
        }
    }

    /// The first style of the name `name`, to be changed in place.
    pub fn get_mut(&mut self, name: &str) -> (r: Option<&mut Style>)
        ensures
            match r {
                Some(s) => first_key(old(self)@.styles, name@) is Some && value_of(
                    old(self)@.styles,
                    name@,
                ) == Some(s@) && final(self)@ == (V4StylesView {
                    order: old(self)@.order,
                    styles: old(self)@.styles.update(
                        first_key(old(self)@.styles, name@)->0,
                        (name@, final(s)@),
                    ),
                }),
                None => first_key(old(self)@.styles, name@) is None && final(self)@ == old(
                    self,
                )@,
            },
    {
        match self.position(name) {
            Some(i) => {
                proof {
                    lemma_first_key(old(self)@.styles, name@);
                }
                let ghost before = old(self).styles@;
                let entry = &mut self.styles[i];
                let ghost after = *final(entry);
                let style = &mut entry.1;
                proof {
                    assert(named_views(before.update(i as int, after)) =~= named_views(
                        before,
                    ).update(i as int, (after.0@, after.1@)));
                }
                Some(style)
            },
            None => None,
        }
    }

    /// The styles in their order, each with its name.
    pub fn iter(&self) -> (r: Vec<(&str, &Style)>)
        ensures
            r@.len() == self@.styles.len(),
            forall|i: int|
                0 <= i < r@.len() ==> (#[trigger] r@[i]).0@ == self@.styles[i].0 && r@[i].1@
                    == self@.styles[i].1,
    {
        let mut out: Vec<(&str, &Style)> = Vec::new();
        let mut i: usize = 0;
        while i < self.styles.len()
            invariant
                i <= self.styles.len(),
                out@.len() == i,
                forall|j: int|
                    0 <= j < i ==> (#[trigger] out@[j]).0@ == self@.styles[j].0 && out@[j].1@
                        == self@.styles[j].1,
            decreases self.styles.len() - i,
        {
            out.push((self.styles[i].0.as_str(), &self.styles[i].1));
            i += 1;
        }
        out
    }

    /// Takes out every style of the name `name`.
    pub fn remove(&mut self, name: &str)
        ensures
            final(self)@ == (V4StylesView {
                order: old(self)@.order,
                styles: without_key(old(self)@.styles, name@),
            }),
    {
        let key = String::from_str(name);
        let mut kept: Vec<(String, Style)> = Vec::new();
        let ghost all = self@.styles;
        assert(all.take(all.len() as int) =~= all);
        while self.styles.len() > 0
            invariant
                key@ == name@,
                self.order == old(self).order,
                self@.styles.len() <= all.len(),
                self@.styles == all.take(self@.styles.len() as int),
                all == old(self)@.styles,
                without_key(all, name@) == without_key(self@.styles, name@) + named_views(
                    kept@,
                ).reverse(),
            decreases self.styles.len(),
        {
            let ghost before = self@.styles;
            let ghost held = named_views(kept@);
            let entry = self.styles.pop().unwrap();
            assert(self@.styles =~= before.drop_last());
            assert(before.last() == (entry.0@, entry.1@));
            if entry.0 != key {
                kept.push(entry);
                assert(named_views(kept@) =~= held.push(before.last()));
                assert(named_views(kept@).reverse() =~= seq![before.last()] + held.reverse());
                assert(without_key(before, name@) + held.reverse() =~= without_key(
                    self@.styles,
                    name@,
                ) + named_views(kept@).reverse());
            }
            assert(self@.styles =~= all.take(self@.styles.len() as int));
        }
        assert(self@.styles =~= Seq::empty());
        assert(without_key(self@.styles, name@) =~= Seq::empty());
        let ghost held = named_views(kept@);
        while kept.len() > 0
            invariant
                self.order == old(self).order,
                kept@.len() <= held.len(),
                named_views(kept@) == held.take(kept@.len() as int),
                self@.styles + named_views(kept@).reverse() == held.reverse(),
            decreases kept.len(),
        {
            let ghost before = named_views(kept@);
            let ghost have = self@.styles;
            let entry = kept.pop().unwrap();
            assert(named_views(kept@) =~= before.drop_last());
            self.styles.push(entry);
            assert(self@.styles =~= have.push(before.last()));
            assert(have + before.reverse() =~= self@.styles + named_views(kept@).reverse());
            assert(named_views(kept@) =~= held.take(kept@.len() as int));
        }
        assert(named_views(kept@).reverse() =~= Seq::empty());
        assert(self@.styles =~= held.reverse());
        assert(final(self)@.styles =~= without_key(old(self)@.styles, name@));
    }

    /// Takes out every style.
    pub fn clear(&mut self)
        ensures
            final(self)@ == (V4StylesView { order: old(self)@.order, styles: Seq::empty() }),
    {
        self.styles.clear();
        assert(final(self)@.styles =~= Seq::empty());
    }

    /// The body of the styles section.
    pub fn to_string(&self) -> (s: String)
        ensures
            s@ == styles_text(self@),
    {
        let mut names: Vec<String> = Vec::new();
        let mut i: usize = 0;
        while i < self.order.len()
            invariant
                i <= self.order.len(),
                names@.len() == i,
                forall|j: int| 0 <= j < i ==> names@[j]@ == style_format_name(self.order@[j]),
            decreases self.order.len() - i,
        {
            names.push(self.order[i].to_string());
            i += 1;
        }
        assert(texts(names@) =~= style_format_names(self@.order));
        let mut out = String::from_str("Format: ");
        let head = join_strings(&names, ", ");
        push_line(&mut out, head.as_str());
        let ghost start = out@;
        let ghost lines = style_lines(self@.styles);
        let mut k: usize = 0;
        assert(lines.take(0) =~= Seq::<Seq<char>>::empty());
        while k < self.styles.len()
            invariant
                k <= self.styles.len(),
                lines == style_lines(self@.styles),
                out@ == start + lines_text(lines.take(k as int)),
            decreases self.styles.len() - k,
        {
            let fields = self.styles[k].1.to_string();
            let line = String::from_str("Style: ").concat(fields.as_str());
            assert(lines.take(k + 1).drop_last() =~= lines.take(k as int));
            assert(lines.take(k + 1).last() == line@);
            push_line(&mut out, line.as_str());
            k += 1;
        }
        assert(lines.take(self.styles.len() as int) =~= lines);
        assert(out@ =~= styles_text(self@));
        out
    }
}

} // verus!
