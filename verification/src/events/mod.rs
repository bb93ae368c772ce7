//! The events of a script: the columns that an event can have, what an unset
//! column is written as, how the text of a column is read, and the records.

use crate::error::{Error, ErrorView};
use crate::events::effect::{effect_of, Effect, EffectView};
use crate::events::text::Text;
use crate::parser::{int_value_of, parse_i64, value_result, Parser};
use crate::record::{
    empty_slots, first_slot, lemma_first_slot_at, lemma_no_slot, record_text, slot_value, slot_view,
    slot_views, with_slot,
};
use crate::text::{
    concat_with, eq_ignore_case, is_lower_of, is_text_ignore_case, join, join_strings, lines_text,
    push_line, splitn, splitn_chars, texts, to_chars, to_lower, to_text,
};
use crate::timecode::{timecode_of, Duration};
use crate::value::{Value, ValueView};
use vstd::prelude::*;
use vstd::string::*;

pub mod effect;
pub mod text;

verus! {

/// A column of the events table.
#[derive(Debug, Copy, Clone, Eq, PartialEq, Structural, Hash)]
pub enum EventFormat {
    Layer,
    Marked,
    Start,
    End,
    Style,
    Name,
    MarginL,
    MarginR,
    MarginV,
    Effect,
    Text,
}

/// The name that a column is written with.
pub open spec fn event_format_name(f: EventFormat) -> Seq<char> {
    match f {
        EventFormat::Layer => "Layer"@,
        EventFormat::Marked => "Marked"@,
        EventFormat::Start => "Start"@,
        EventFormat::End => "End"@,
        EventFormat::Style => "Style"@,
        EventFormat::Name => "Name"@,
        EventFormat::MarginL => "MarginL"@,
        EventFormat::MarginR => "MarginR"@,
        EventFormat::MarginV => "MarginV"@,
        EventFormat::Effect => "Effect"@,
        EventFormat::Text => "Text"@,
    }
}

/// The column that `s` names, in any case of letters.
pub open spec fn event_format_of(s: Seq<char>) -> Option<EventFormat> {
    if eq_ignore_case(s, "Layer"@) {
        Some(EventFormat::Layer)
    } else if eq_ignore_case(s, "Marked"@) {
        Some(EventFormat::Marked)
    } else if eq_ignore_case(s, "Start"@) {
        Some(EventFormat::Start)
    } else if eq_ignore_case(s, "End"@) {
        Some(EventFormat::End)
    } else if eq_ignore_case(s, "Style"@) {
        Some(EventFormat::Style)
    } else if eq_ignore_case(s, "Name"@) {
        Some(EventFormat::Name)
    } else if eq_ignore_case(s, "MarginL"@) {
        Some(EventFormat::MarginL)
    } else if eq_ignore_case(s, "MarginR"@) {
        Some(EventFormat::MarginR)
    } else if eq_ignore_case(s, "MarginV"@) {
        Some(EventFormat::MarginV)
    } else if eq_ignore_case(s, "Effect"@) {
        Some(EventFormat::Effect)
    } else if eq_ignore_case(s, "Text"@) {
        Some(EventFormat::Text)
    } else {
        None
    }
}

/// What an unset slot of the column `f` is written as.
pub open spec fn event_default(f: EventFormat) -> ValueView {
    match f {
        EventFormat::Layer => ValueView::Int(0),
        EventFormat::Marked => ValueView::Str("Marked=0"@),
        EventFormat::Start | EventFormat::End => ValueView::Duration(Duration { millis: 0 }),
        EventFormat::Style | EventFormat::Name => ValueView::Str(Seq::empty()),
        EventFormat::MarginL | EventFormat::MarginR | EventFormat::MarginV => ValueView::Int(10),
        EventFormat::Effect => ValueView::Effect(EffectView::NoEffect),
        EventFormat::Text => ValueView::Str(Seq::empty()),
    }
}

/// The error for a `Marked` field.
pub open spec fn marked_error(msg: Seq<char>) -> ErrorView {
    ErrorView::ParseError { ty: "Marked"@, msg }
}

/// The value of a `Marked` field, which is written `Marked=` and an integer,
/// the word in any case of letters.
pub open spec fn marked_of(s: Seq<char>) -> Result<ValueView, ErrorView> {
    let parts = splitn(s, 2, '=');
    if parts.len() < 2 {
        Err(marked_error("Invalid Marked value: "@ + s))
    } else if !eq_ignore_case(parts[0], "marked"@) {
        Err(marked_error("Invalid Marked key: "@ + parts[0]))
    } else {
        int_value_of(parts[1])
    }
}

/// The value that the text `s` stands for in the column `f`: an integer for
/// the layer and the margins, a duration for the two times, an effect, the
/// event's text, and the text itself for the style and the name.
pub open spec fn event_value_of(f: EventFormat, s: Seq<char>) -> Result<ValueView, ErrorView> {
    match f {
        EventFormat::Layer => int_value_of(s),
        EventFormat::Marked => marked_of(s),
        EventFormat::Start | EventFormat::End => match timecode_of(s) {
            Ok(ms) => Ok(ValueView::Duration(Duration { millis: ms as u64 })),
            Err(e) => Err(e),
        },
        EventFormat::Style | EventFormat::Name => Ok(ValueView::Str(s)),
        EventFormat::MarginL | EventFormat::MarginR | EventFormat::MarginV => int_value_of(s),
        EventFormat::Effect => match effect_of(s) {
            Ok(e) => Ok(ValueView::Effect(e)),
            Err(e) => Err(e),
        },
        EventFormat::Text => Ok(ValueView::Text(s)),
    }
}

/// [`event_value_of`] as a function.
pub open spec fn event_reader() -> spec_fn(EventFormat, Seq<char>) -> Result<ValueView, ErrorView> {
    |f: EventFormat, s: Seq<char>| event_value_of(f, s)
}

/// What a column reads from a text, it reads again from what the value is
/// written as: an integer from its numeral, a time from its timecode, an
/// effect from its text. The one column of which this does not hold is
/// `Marked`, whose value is written as the number alone.
pub proof fn lemma_event_value_round_trip(f: EventFormat, s: Seq<char>)
    requires
        f != EventFormat::Marked,
        event_value_of(f, s) is Ok,
    ensures
        event_value_of(f, crate::value::value_text(event_value_of(f, s)->Ok_0))
            == event_value_of(f, s),
{
    match f {
        EventFormat::Layer | EventFormat::MarginL | EventFormat::MarginR | EventFormat::MarginV => {
            let n = crate::num::int_of(s, i64::MIN as int, i64::MAX as int)->Ok_0;
            crate::num::lemma_int_round_trip(n, i64::MIN as int, i64::MAX as int);
        },
        EventFormat::Start | EventFormat::End => {
            crate::timecode::lemma_read_is_strict(s);
            crate::timecode::lemma_read_then_write(s);
        },
        EventFormat::Effect => {
            let e = effect_of(s)->Ok_0;
            if crate::events::effect::is_named(e) {
                crate::events::effect::lemma_effect_round_trip(e);
            }
        },
        _ => {},
    }
}

fn parse_marked(src: &str) -> (r: Result<Value, Error>)
    ensures
        value_result(r) == marked_of(src@),
{
    let chars = to_chars(src);
    let parts = splitn_chars(&chars, 2, '=');
    if parts.len() < 2 {
        let msg = String::from_str("Invalid Marked value: ").concat(src);
        return Err(Error::parse_error("Marked", msg.as_str()));
    }
    if !is_text_ignore_case(&parts[0], "marked") {
        let key = to_text(&parts[0]);
        let msg = String::from_str("Invalid Marked key: ").concat(key.as_str());
        return Err(Error::parse_error("Marked", msg.as_str()));
    }
    let number = to_text(&parts[1]);
    parse_i64(number.as_str())
}

impl EventFormat {
    /// The name that the column is written with.
    pub fn name(&self) -> (r: &'static str)
        ensures
            r@ == event_format_name(*self),
    {
        match self {
            EventFormat::Layer => "Layer",
            EventFormat::Marked => "Marked",
            EventFormat::Start => "Start",
            EventFormat::End => "End",
            EventFormat::Style => "Style",
            EventFormat::Name => "Name",
            EventFormat::MarginL => "MarginL",
            EventFormat::MarginR => "MarginR",
            EventFormat::MarginV => "MarginV",
            EventFormat::Effect => "Effect",
            EventFormat::Text => "Text",
        }
    }

    /// The name that the column is written with.
    pub fn to_string(&self) -> (r: String)
        ensures
            r@ == event_format_name(*self),
    {
        String::from_str(self.name())
    }

    /// The column that `src` names, in any case of letters.
    pub fn from_name(src: &str) -> (r: Option<EventFormat>)
        ensures
            r == event_format_of(src@),
    {
        let low = to_lower(&to_chars(src));
        if is_lower_of(&low, "Layer") {
            Some(EventFormat::Layer)
        } else if is_lower_of(&low, "Marked") {
            Some(EventFormat::Marked)
        } else if is_lower_of(&low, "Start") {
            Some(EventFormat::Start)
        } else if is_lower_of(&low, "End") {
            Some(EventFormat::End)
        } else if is_lower_of(&low, "Style") {
            Some(EventFormat::Style)
        } else if is_lower_of(&low, "Name") {
            Some(EventFormat::Name)
        } else if is_lower_of(&low, "MarginL") {
            Some(EventFormat::MarginL)
        } else if is_lower_of(&low, "MarginR") {
            Some(EventFormat::MarginR)
        } else if is_lower_of(&low, "MarginV") {
            Some(EventFormat::MarginV)
        } else if is_lower_of(&low, "Effect") {
            Some(EventFormat::Effect)
        } else if is_lower_of(&low, "Text") {
            Some(EventFormat::Text)
        } else {
            None
        }
    }

    /// What an unset slot of the column is written as.
    pub fn default_value(&self) -> (v: Value)
        ensures
            v@ == event_default(*self),
    {
        match self {
            EventFormat::Layer => Value::Int(0),
            EventFormat::Marked => Value::Str(String::from_str("Marked=0")),
            EventFormat::Start | EventFormat::End => Value::Duration(Duration::from_millis(0)),
            EventFormat::Style | EventFormat::Name => Value::Str(String::new()),
            EventFormat::MarginL | EventFormat::MarginR | EventFormat::MarginV => Value::Int(10),
            EventFormat::Effect => Value::Effect(Effect::NoEffect),
            EventFormat::Text => Value::Str(String::new()),
        }
    }

    /// Reads the text of one field of the column.
    pub fn parse_value(&self, src: &str) -> (r: Result<Value, Error>)
        ensures
            value_result(r) == event_value_of(*self, src@),
    {
        match self {
            EventFormat::Layer => parse_i64(src),
            EventFormat::Marked => parse_marked(src),
            EventFormat::Start | EventFormat::End => match Duration::parse(src) {
                Ok(d) => Ok(Value::Duration(d)),
                Err(e) => Err(e),
            },
            EventFormat::Style | EventFormat::Name => Ok(Value::Str(String::from_str(src))),
            EventFormat::MarginL | EventFormat::MarginR | EventFormat::MarginV => parse_i64(src),
            EventFormat::Effect => match Effect::parse(src) {
                Ok(e) => Ok(Value::Effect(e)),
                Err(e) => Err(e),
            },
            EventFormat::Text => match Text::parse(src) {
                Ok(t) => Ok(Value::Text(t)),
                Err(e) => Err(e),
            },
        }
    }
}

impl std::str::FromStr for EventFormat {
    type Err = Error;

    /// The column that `src` names; see [`EventFormat::from_name`].
    fn from_str(src: &str) -> (r: Result<Self, Error>)
        ensures
            match event_format_of(src@) {
                Some(f) => r == Ok::<EventFormat, Error>(f),
                None => r is Err && r->Err_0@ == (ErrorView::ParseError {
                    ty: "EventFormat"@,
                    msg: src@,
                }),
            },
    {
        match EventFormat::from_name(src) {
            Some(f) => Ok(f),
            None => Err(Error::parse_error("EventFormat", src)),
        }
    }
}

/// The kind of an event: the word that its line begins with.
#[derive(Debug, Copy, Clone, Eq, PartialEq, Structural, Hash)]
pub enum EventType {
    Dialogue,
    Comment,
    Picture,
    Sound,
    Movie,
    Command,
}

/// The word that a kind of event is written with.
pub open spec fn event_type_name(t: EventType) -> Seq<char> {
    match t {
        EventType::Dialogue => "Dialogue"@,
        EventType::Comment => "Comment"@,
        EventType::Picture => "Picture"@,
        EventType::Sound => "Sound"@,
        EventType::Movie => "Movie"@,
        EventType::Command => "Command"@,
    }
}

/// The kind of event that `s` names, in any case of letters.
pub open spec fn event_type_of(s: Seq<char>) -> Option<EventType> {
    if eq_ignore_case(s, "Dialogue"@) {
        Some(EventType::Dialogue)
    } else if eq_ignore_case(s, "Comment"@) {
        Some(EventType::Comment)
    } else if eq_ignore_case(s, "Picture"@) {
        Some(EventType::Picture)
    } else if eq_ignore_case(s, "Sound"@) {
        Some(EventType::Sound)
    } else if eq_ignore_case(s, "Movie"@) {
        Some(EventType::Movie)
    } else if eq_ignore_case(s, "Command"@) {
        Some(EventType::Command)
    } else {
        None
    }
}

impl EventType {
    /// The word that the kind is written with.
    pub fn name(&self) -> (r: &'static str)
        ensures
            r@ == event_type_name(*self),
    {
        match self {
            EventType::Dialogue => "Dialogue",
            EventType::Comment => "Comment",
            EventType::Picture => "Picture",
            EventType::Sound => "Sound",
            EventType::Movie => "Movie",
            EventType::Command => "Command",
        }
    }

    /// The word that the kind is written with.
    pub fn to_string(&self) -> (r: String)
        ensures
            r@ == event_type_name(*self),
    {
        String::from_str(self.name())
    }

    /// The kind of event that `src` names, in any case of letters.
    pub fn from_name(src: &str) -> (r: Option<EventType>)
        ensures
            r == event_type_of(src@),
    {
        let low = to_lower(&to_chars(src));
        if is_lower_of(&low, "Dialogue") {
            Some(EventType::Dialogue)
        } else if is_lower_of(&low, "Comment") {
            Some(EventType::Comment)
        } else if is_lower_of(&low, "Picture") {
            Some(EventType::Picture)
        } else if is_lower_of(&low, "Sound") {
            Some(EventType::Sound)
        } else if is_lower_of(&low, "Movie") {
            Some(EventType::Movie)
        } else if is_lower_of(&low, "Command") {
            Some(EventType::Command)
        } else {
            None
        }
    }
}

impl std::str::FromStr for EventType {
    type Err = Error;

    /// The kind of event that `src` names; see [`EventType::from_name`].
    fn from_str(src: &str) -> (r: Result<Self, Error>)
        ensures
            match event_type_of(src@) {
                Some(f) => r == Ok::<EventType, Error>(f),
                None => r is Err && r->Err_0@ == (ErrorView::ParseError {
                    ty: "EventType"@,
                    msg: src@,
                }),
            },
    {
        match EventType::from_name(src) {
            Some(f) => Ok(f),
            None => Err(Error::parse_error("EventType", src)),
        }
    }
}

/// One event: its kind and its slots.
#[derive(Debug, PartialEq, Eq)]
pub struct Event {
    event_type: EventType,
    values: Vec<(EventFormat, Option<Value>)>,
}

/// An [`Event`] as its kind and the model of its slots.
pub struct EventView {
    pub event_type: EventType,
    pub slots: Seq<(EventFormat, Option<ValueView>)>,
}

impl View for Event {
    type V = EventView;

    closed spec fn view(&self) -> EventView {
        EventView { event_type: self.event_type, slots: slot_views(self.values@) }
    }
}

/// The line of the event `e`: its kind, a colon and a space, then its fields.
pub open spec fn event_text(e: EventView) -> Seq<char> {
    event_type_name(e.event_type) + ": "@ + record_text(
        e.slots,
        |f: EventFormat| event_default(f),
    )
}

fn clone_slot(slot: &(EventFormat, Option<Value>)) -> (r: (EventFormat, Option<Value>))
    ensures
        slot_view(r) == slot_view(*slot),
{
    match &slot.1 {
        Some(v) => (slot.0, Some(v.clone())),
        None => (slot.0, None),
    }
}

impl Clone for Event {
    fn clone(&self) -> (r: Self)
        ensures
            r@ == self@,
    {
        let mut values: Vec<(EventFormat, Option<Value>)> = Vec::new();
        let mut i: usize = 0;
        while i < self.values.len()
            invariant
                i <= self.values.len(),
                values@.len() == i,
                forall|j: int| 0 <= j < i ==> slot_view(values@[j]) == slot_view(self.values@[j]),
            decreases self.values.len() - i,
        {
            values.push(clone_slot(&self.values[i]));
            i += 1;
        }
        assert(slot_views(values@) =~= slot_views(self.values@));
        Event { event_type: self.event_type, values }
    }
}

impl Event {
    /// A new event of the kind `event_type` with the columns of `events`, all
    /// of them unset.
    pub fn new(event_type: EventType, events: &Events) -> (r: Self)
        ensures
            r@ == (EventView { event_type, slots: empty_slots(events@.order) }),
    {
        let order = events.order();
        let mut values: Vec<(EventFormat, Option<Value>)> = Vec::new();
        let mut i: usize = 0;
        while i < order.len()
            invariant
                i <= order.len(),
                values@.len() == i,
                forall|j: int|
                    0 <= j < i ==> slot_view(values@[j]) == (order@[j], None::<ValueView>),
            decreases order.len() - i,
        {
            values.push((order[i], None));
            i += 1;
        }
        assert(slot_views(values@) =~= empty_slots(order@));
        Event { event_type, values }
    }

    /// The kind of the event.
    pub fn event_type(&self) -> (t: EventType)
        ensures
            t == self@.event_type,
    {
        self.event_type
    }

    /// The place of the first slot of the column `format`.
    fn position(&self, format: EventFormat) -> (r: Option<usize>)
        ensures
            match r {
                Some(i) => first_slot(self@.slots, format) == Some(i as int) && i
                    < self.values@.len(),
                None => first_slot(self@.slots, format) is None,
            },
    {
        let mut i: usize = 0;
        while i < self.values.len()
            invariant
                i <= self.values.len(),
                forall|j: int| 0 <= j < i ==> (#[trigger] self@.slots[j]).0 != format,
            decreases self.values.len() - i,
        {
            if self.values[i].0 == format {
                proof {
                    lemma_first_slot_at(self@.slots, format, i as int);
                }
                return Some(i);
            }
            i += 1;
        }
        proof {
            lemma_no_slot(self@.slots, format);
        }
        None
    }

    /// Puts `value` into the first slot of the column `format`. An event
    /// without that column stays as it is.
    pub fn set(&mut self, format: EventFormat, value: Value)
        ensures
            final(self)@ == (EventView {
                event_type: old(self)@.event_type,
                slots: with_slot(old(self)@.slots, format, Some(value@)),
            }),
    {
        match self.position(format) {
            Some(i) => {
                self.values.set(i, (format, Some(value)));
                assert(final(self)@.slots =~= with_slot(old(self)@.slots, format, Some(value@)));
            },
            None => {},
        }
    }

    /// What the first slot of the column `format` holds.
    pub fn get(&self, format: EventFormat) -> (r: Option<&Value>)
        ensures
            match r {
                Some(v) => slot_value(self@.slots, format) == Some(v@),
                None => slot_value(self@.slots, format) is None,
            },
    {
        match self.position(format) {
            Some(i) => self.values[i].1.as_ref(),
            None => None,
        }
    }

    /// What the first slot of the column `format` holds, to be changed in
    /// place.
    pub fn get_mut(&mut self, format: EventFormat) -> (r: Option<&mut Value>)
        ensures
            match r {
                Some(v) => slot_value(old(self)@.slots, format) == Some(v@) && final(self)@ == (
                EventView {
                    event_type: old(self)@.event_type,
                    slots: with_slot(old(self)@.slots, format, Some(final(v)@)),
                }),
                None => slot_value(old(self)@.slots, format) is None && final(self)@ == old(
                    self,
                )@,
            },
    {
        match self.position(format) {
            Some(i) => {
                proof {
                    crate::record::lemma_first_slot(old(self)@.slots, format);
                }
                let ghost before = old(self).values@;
                let slot = &mut self.values[i];
                let ghost after = *final(slot);
                proof {
                    assert(slot_views(before.update(i as int, after)) =~= slot_views(
                        before,
                    ).update(i as int, slot_view(after)));
                    assert(slot_views(before).update(i as int, slot_view(before[i as int]))
                        =~= slot_views(before));
                }
                slot.1.as_mut()
            },
            None => None,
        }
    }

    /// Empties the first slot of the column `format`.
    pub fn remove(&mut self, format: EventFormat)
        ensures
            final(self)@ == (EventView {
                event_type: old(self)@.event_type,
                slots: with_slot(old(self)@.slots, format, None),
            }),
    {
        match self.position(format) {
            Some(i) => {
                self.values.set(i, (format, None));
                assert(final(self)@.slots =~= with_slot(old(self)@.slots, format, None));
            },
            None => {},
        }
    }

    /// The line of the event.
    pub fn to_string(&self) -> (s: String)
        ensures
            s@ == event_text(self@),
    {
        let mut fields: Vec<String> = Vec::new();
        let mut i: usize = 0;
        let ghost want = crate::record::slot_texts(self@.slots, |f: EventFormat| event_default(f));
        while i < self.values.len()
            invariant
                i <= self.values.len(),
                fields@.len() == i,
                want == crate::record::slot_texts(self@.slots, |f: EventFormat| event_default(f)),
                forall|j: int| 0 <= j < i ==> fields@[j]@ == want[j],
            decreases self.values.len() - i,
        {
            let field = match &self.values[i].1 {
                Some(v) => v.to_string(),
                None => self.values[i].0.default_value().to_string(),
            };
            fields.push(field);
            i += 1;
        }
        assert(texts(fields@) =~= want);
        let body = concat_with(&fields, ",");
        proof {
            reveal_strlit(",");
            assert(","@ =~= seq![',']);
        }
        String::from_str(self.event_type.name()).concat(": ").concat(body.as_str())
    }
}

/// The events of a script: the declared columns and the events in their
/// order.
#[derive(Debug, PartialEq, Eq)]
pub struct Events {
    order: Vec<EventFormat>,
    pub events: Vec<Event>,
}

/// An [`Events`] as the declared columns and the models of the events.
pub struct EventsView {
    pub order: Seq<EventFormat>,
    pub events: Seq<EventView>,
}

/// The views of the events of `l`.
pub open spec fn event_views(l: Seq<Event>) -> Seq<EventView> {
    Seq::new(l.len(), |i: int| l[i]@)
}

impl View for Events {
    type V = EventsView;

    closed spec fn view(&self) -> EventsView {
        EventsView { order: self.order@, events: event_views(self.events@) }
    }
}

/// The columns that a script has where it declares none.
pub open spec fn default_event_order() -> Seq<EventFormat> {
    seq![
        EventFormat::Layer,
        EventFormat::Start,
        EventFormat::End,
        EventFormat::Style,
        EventFormat::Name,
        EventFormat::MarginL,
        EventFormat::MarginR,
        EventFormat::MarginV,
        EventFormat::Effect,
        EventFormat::Text,
    ]
}

/// The names of the columns of `order`.
pub open spec fn event_format_names(order: Seq<EventFormat>) -> Seq<Seq<char>> {
    Seq::new(order.len(), |i: int| event_format_name(order[i]))
}

/// The lines of the events of `l`.
pub open spec fn event_lines(l: Seq<EventView>) -> Seq<Seq<char>> {
    Seq::new(l.len(), |i: int| event_text(l[i]))
}

/// The body of the events section: the line that declares the columns, then
/// one line for each event.
pub open spec fn events_text(e: EventsView) -> Seq<char> {
    "Format: "@ + join(event_format_names(e.order), ", "@) + seq!['\n'] + lines_text(
        event_lines(e.events),
    )
}

impl Clone for Events {
    fn clone(&self) -> (r: Self)
        ensures
            r@ == self@,
    {
        let mut events: Vec<Event> = Vec::new();
        let mut i: usize = 0;
        while i < self.events.len()
            invariant
                i <= self.events.len(),
                events@.len() == i,
                forall|j: int| 0 <= j < i ==> events@[j]@ == self.events@[j]@,
            decreases self.events.len() - i,
        {
            events.push(self.events[i].clone());
            i += 1;
        }
        assert(event_views(events@) =~= event_views(self.events@));
        Events { order: self.order.clone(), events }
    }
}

impl std::ops::Deref for Events {
    type Target = Vec<Event>;

    /// The events as a vector.
    fn deref(&self) -> (r: &Vec<Event>)
        ensures
            event_views(r@) == self@.events,
    {
        &self.events
    }
}

impl std::ops::DerefMut for Events {
    /// The events as a vector, to be changed in place. The declared columns
    /// stay as they are.
    fn deref_mut(&mut self) -> (r: &mut Vec<Event>)
        ensures
            event_views(r@) == old(self)@.events,
            final(self)@ == (EventsView {
                order: old(self)@.order,
                events: event_views(final(r)@),
            }),
    {
        &mut self.events
    }
}

impl Default for Events {
    /// No events, with the ten columns of a `v4.00+` script.
    fn default() -> (r: Self)
        ensures
            r@ == (EventsView { order: default_event_order(), events: Seq::empty() }),
    {
        let order = vec![
            EventFormat::Layer,
            EventFormat::Start,
            EventFormat::End,
            EventFormat::Style,
            EventFormat::Name,
            EventFormat::MarginL,
            EventFormat::MarginR,
            EventFormat::MarginV,
            EventFormat::Effect,
            EventFormat::Text,
        ];
        let r = Events { order, events: Vec::new() };
        assert(r@.order =~= default_event_order());
        assert(r@.events =~= Seq::<EventView>::empty());
        r
    }
}

impl Events {
    /// No events, with the columns `order`.
    pub fn new(order: Vec<EventFormat>) -> (r: Self)
        ensures
            r@ == (EventsView { order: order@, events: Seq::empty() }),
    {
        let r = Events { order, events: Vec::new() };
        assert(r@.events =~= Seq::<EventView>::empty());
        r
    }

    /// The declared columns.
    pub fn order(&self) -> (r: &Vec<EventFormat>)
        ensures
            r@ == self@.order,
    {
        &self.order
    }

    /// The number of events.
    pub fn len(&self) -> (n: usize)
        ensures
            n == self@.events.len(),
    {
        self.events.len()
    }

    /// The event at `index`, counted from 0.
    pub fn get(&self, index: usize) -> (r: Option<&Event>)
        ensures
            match r {
                Some(e) => index < self@.events.len() && e@ == self@.events[index as int],
                None => index >= self@.events.len(),
            },
    {
        if index < self.events.len() {
            Some(&self.events[index])
        } else {
            None
        }
    }

    /// Adds `event` after the events that are there.
    pub fn push(&mut self, event: Event)
        ensures
            final(self)@ == (EventsView {
                order: old(self)@.order,
                events: old(self)@.events.push(event@),
            }),
    {
        self.events.push(event);
        assert(final(self)@.events =~= old(self)@.events.push(event@));
    }

    /// The body of the events section.
    pub fn to_string(&self) -> (s: String)
        ensures
            s@ == events_text(self@),
    {
        let mut names: Vec<String> = Vec::new();
        let mut i: usize = 0;
        while i < self.order.len()
            invariant
                i <= self.order.len(),
                names@.len() == i,
                forall|j: int| 0 <= j < i ==> names@[j]@ == event_format_name(self.order@[j]),
            decreases self.order.len() - i,
        {
            names.push(self.order[i].to_string());
            i += 1;
        }
        assert(texts(names@) =~= event_format_names(self@.order));
        let mut out = String::from_str("Format: ");
        let head = join_strings(&names, ", ");
        push_line(&mut out, head.as_str());
        let ghost start = out@;
        let ghost lines = event_lines(self@.events);
        let mut k: usize = 0;
        assert(lines.take(0) =~= Seq::<Seq<char>>::empty());
        while k < self.events.len()
            invariant
                k <= self.events.len(),
                lines == event_lines(self@.events),
                out@ == start + lines_text(lines.take(k as int)),
            decreases self.events.len() - k,
        {
            let line = self.events[k].to_string();
            assert(lines.take(k + 1).drop_last() =~= lines.take(k as int));
            assert(lines.take(k + 1).last() == line@);
            push_line(&mut out, line.as_str());
            k += 1;
        }
        assert(lines.take(self.events.len() as int) =~= lines);
        assert(out@ =~= events_text(self@));
        out
    }
}

} // verus!
