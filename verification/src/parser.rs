//! Reading piece by piece: the trait of every type that is read from one
//! piece of text, and the reader that takes a script one line at a time, each
//! line in the section that it belongs to.

use crate::assoc::put;
use crate::error::{Error, ErrorView};
use crate::events::{
    event_reader, event_type_of, Event, EventFormat, Events, EventsView, EventType, EventView,
};
use crate::float_text::{float_check, FloatText};
use crate::fonts::Fonts;
use crate::graphics::Graphics;
use crate::num::{int_of, parse_int};
use crate::record::{filled, lemma_filled_error, record_of, shorter};
use crate::script_info::{
    collisions_name, collisions_of, key_of, script_type_name, script_type_of, with_comment,
    Collisions, Key, ScriptInfo, ScriptType,
};
use crate::styles::{style_name_of, style_reader, Style, StyleFormat, V4Styles, V4StylesView};
use crate::text::{
    eq_ignore_case, has_prefix, is_text_ignore_case, slice, split, split_chars, splitn,
    splitn_chars, starts_with, to_chars, to_text, trim, trimmed, views,
};
use crate::value::{Value, ValueView};
use vstd::prelude::*;
use vstd::string::*;

verus! {

/// A type whose values are read from one piece of text.
pub trait Parser: Sized {
    /// The value that `src` stands for.
    fn parse(src: &str) -> (r: Result<Self, Error>);
}

/// A result with its value or its error as a view.
pub open spec fn value_result(r: Result<Value, Error>) -> Result<ValueView, ErrorView> {
    match r {
        Ok(v) => Ok(v@),
        Err(e) => Err(e@),
    }
}

/// The integer value that `s` is written as; the error holds `s`.
pub open spec fn int_value_of(s: Seq<char>) -> Result<ValueView, ErrorView> {
    match int_of(s, i64::MIN as int, i64::MAX as int) {
        Ok(n) => Ok(ValueView::Int(n as i64)),
        Err(kind) => Err(ErrorView::ParseIntError { error: kind, msg: s }),
    }
}

/// The number with a fraction that `s` is written as; the error holds `s`.
pub open spec fn float_value_of(s: Seq<char>) -> Result<ValueView, ErrorView> {
    match float_check(s) {
        Ok(_) => Ok(ValueView::Float(s)),
        Err(kind) => Err(ErrorView::ParseFloatError { error: kind, msg: s }),
    }
}

/// Reads an integer value.
pub fn parse_i64(src: &str) -> (r: Result<Value, Error>)
    ensures
        value_result(r) == int_value_of(src@),
{
    let chars = to_chars(src);
    match parse_int(&chars, i64::MIN, i64::MAX) {
        Ok(n) => Ok(Value::Int(n)),
        Err(kind) => Err(Error::parse_int_error(kind, src)),
    }
}

/// Reads a number with a fraction, which is kept as it is written.
pub fn parse_f64(src: &str) -> (r: Result<Value, Error>)
    ensures
        value_result(r) == float_value_of(src@),
{
    match FloatText::parse(src) {
        Ok(f) => Ok(Value::Float(f)),
        Err(e) => Err(e),
    }
}

/// The section that the lines being read belong to.
#[derive(Debug, Clone, Copy, PartialEq, Eq, Structural)]
pub enum Context {
    /// Before the first section: lines are dropped.
    Outside,
    ParseScriptInfo,
    ParseStyles,
    ParseEvents,
    ParseFonts,
    ParseGraphics,
}

impl Default for Context {
    fn default() -> (c: Context)
        ensures
            c == Context::Outside,
    {
        Context::Outside
    }
}

/// What is read so far, and the section that the next line belongs to.
#[derive(Debug, PartialEq, Eq)]
pub struct SsaParser {
    pub context: Context,
    pub script_info: ScriptInfo,
    pub styles: V4Styles,
    pub events: Events,
    pub fonts: Fonts,
    pub graphics: Graphics,
}

/// Whether the key `k` holds an integer.
pub open spec fn is_int_key(k: Key) -> bool {
    k == Key::PlayResY || k == Key::PlayResX || k == Key::PlayDepth || k == Key::WrapStyle
}

/// The value that the text `value` stands for under a key that is written
/// as `key`. A key that this crate does not know holds the text itself.
pub open spec fn property_value_of(key: Seq<char>, value: Seq<char>) -> Result<
    ValueView,
    ErrorView,
> {
    match key_of(key) {
        None => Ok(ValueView::Str(value)),
        Some(k) => if k == Key::ScriptType {
            match script_type_of(value) {
                Ok(t) => Ok(ValueView::Str(script_type_name(t))),
                Err(e) => Err(e),
            }
        } else if k == Key::Collisions {
            match collisions_of(value) {
                Ok(c) => Ok(ValueView::Str(collisions_name(c))),
                Err(e) => Err(e),
            }
        } else if is_int_key(k) {
            int_value_of(value)
        } else if k == Key::Timer {
            float_value_of(value)
        } else if k == Key::ScaledBorderAndShadow {
            Ok(ValueView::Boolean(eq_ignore_case(value, "yes"@)))
        } else {
            Ok(ValueView::Str(value))
        },
    }
}

/// The properties `props` after the line `line` of the script info section.
/// A line that begins with `;` or `!` is a comment. Any other line is a key,
/// a colon and a value; the value is stored without the white space around
/// it. A line without a colon changes nothing.
pub open spec fn script_line(props: Seq<(Seq<char>, ValueView)>, line: Seq<char>) -> Result<
    Seq<(Seq<char>, ValueView)>,
    ErrorView,
> {
    if line.len() > 0 && (line[0] == ';' || line[0] == '!') {
        Ok(with_comment(props, trim(line.skip(1))))
    } else {
        let parts = splitn(line, 2, ':');
        if parts.len() < 2 || key_of(parts[0]) == Some(Key::Comment) {
            Ok(props)
        } else {
            match property_value_of(parts[0], trim(parts[1])) {
                Ok(v) => Ok(put(props, parts[0], v)),
                Err(e) => Err(e),
            }
        }
    }
}

/// The styles `styles` after the line `line` of the styles section. A line
/// that begins with `Style:` is a style: its fields, separated by commas,
/// are stored under the declared columns, and the style is added under its
/// name. Any other line changes nothing.
pub open spec fn style_line(styles: V4StylesView, line: Seq<char>) -> Result<
    V4StylesView,
    ErrorView,
> {
    if !starts_with(line, "Style:"@) {
        Ok(styles)
    } else {
        let fields = split(trim(line.skip("Style:"@.len() as int)), ',');
        match record_of(styles.order, fields, style_reader()) {
            Err(e) => Err(e),
            Ok(slots) => match style_name_of(slots) {
                Err(e) => Err(e),
                Ok(name) => Ok(
                    V4StylesView { order: styles.order, styles: styles.styles.push((name, slots)) },
                ),
            },
        }
    }
}

/// The events `events` after the line `line` of the events section. A line
/// with a colon is an event: before the colon stands its kind, after it the
/// fields, separated by commas. There are no more fields than declared
/// columns: the last one keeps the commas that follow. A line without a
/// colon changes nothing.
pub open spec fn event_line(events: EventsView, line: Seq<char>) -> Result<EventsView, ErrorView> {
    let parts = splitn(line, 2, ':');
    if parts.len() < 2 {
        Ok(events)
    } else {
        match event_type_of(parts[0]) {
            None => Err(
                ErrorView::ParseError {
                    ty: "EventType"@,
                    msg: "invalid event type "@ + parts[0],
                },
            ),
            Some(event_type) => {
                let fields = splitn(trim(parts[1]), events.order.len(), ',');
                match record_of(events.order, fields, event_reader()) {
                    Err(e) => Err(e),
                    Ok(slots) => Ok(
                        EventsView {
                            order: events.order,
                            events: events.events.push(EventView { event_type, slots }),
                        },
                    ),
                }
            },
        }
    }
}

/// The fields of an event line: with `n` declared columns, `n` at least 1,
/// there are never more than `n` fields, however many commas the line
/// holds. Joined by commas the fields are the line again, so what is more
/// than the columns is in the last field, commas included. No field but the
/// last holds a comma.
pub proof fn lemma_event_fields(body: Seq<char>, n: nat)
    requires
        n >= 1,
    ensures
        1 <= splitn(body, n, ',').len() <= n,
        crate::text::join(splitn(body, n, ','), seq![',']) == body,
        forall|i: int|
            0 <= i < splitn(body, n, ',').len() - 1 ==> !crate::text::has_char(
                #[trigger] splitn(body, n, ',')[i],
                ',',
            ),
{
    crate::text::lemma_pieces_keep_text(body, Some(n), ',');
}

/// An event that is read has the declared columns, each once for each time
/// it is declared, whatever the number of fields on its line.
pub proof fn lemma_event_columns(events: EventsView, line: Seq<char>)
    requires
        event_line(events, line) is Ok,
        splitn(line, 2, ':').len() >= 2,
    ensures
        event_line(events, line)->Ok_0.events.len() == events.events.len() + 1,
        crate::record::tags(event_line(events, line)->Ok_0.events.last().slots) == events.order,
{
    let parts = splitn(line, 2, ':');
    let fields = splitn(trim(parts[1]), events.order.len(), ',');
    crate::record::lemma_filled_tags(
        events.order,
        fields,
        shorter(events.order.len(), fields.len()),
        event_reader(),
    );
}

/// A style that is read has the declared columns, whatever the number of
/// fields on its line.
pub proof fn lemma_style_columns(styles: V4StylesView, line: Seq<char>)
    requires
        style_line(styles, line) is Ok,
        starts_with(line, "Style:"@),
    ensures
        style_line(styles, line)->Ok_0.styles.len() == styles.styles.len() + 1,
        crate::record::tags(style_line(styles, line)->Ok_0.styles.last().1) == styles.order,
        style_line(styles, line)->Ok_0.order == styles.order,
{
    let fields = split(trim(line.skip("Style:"@.len() as int)), ',');
    crate::record::lemma_filled_tags(
        styles.order,
        fields,
        shorter(styles.order.len(), fields.len()),
        style_reader(),
    );
}

/// The names `names` after `line`: a line that begins with `prefix` adds
/// what follows the prefix, without the white space around it.
pub open spec fn name_line(names: Seq<Seq<char>>, prefix: Seq<char>, line: Seq<char>) -> Seq<
    Seq<char>,
> {
    if starts_with(line, prefix) {
        names.push(trim(line.skip(prefix.len() as int)))
    } else {
        names
    }
}

/// What follows the text `prefix` in `chars`, without the white space around
/// it, where `chars` begins with `prefix`.
fn after_prefix(chars: &Vec<char>, prefix: &str) -> (r: Option<Vec<char>>)
    ensures
        match r {
            Some(rest) => starts_with(chars@, prefix@) && rest@ == trim(
                chars@.skip(prefix@.len() as int),
            ),
            None => !starts_with(chars@, prefix@),
        },
{
    if !has_prefix(chars, prefix) {
        return None;
    }
    let n = prefix.unicode_len();
    let rest = slice(chars, n, chars.len());
    assert(chars@.subrange(n as int, chars@.len() as int) == chars@.skip(n as int));
    Some(trimmed(&rest))
}

fn parse_property_value(key: &str, value: &str) -> (r: Result<Value, Error>)
    ensures
        value_result(r) == property_value_of(key@, value@),
{
    match Key::from_name(key) {
        None => Ok(Value::Str(String::from_str(value))),
        Some(k) => match k {
            Key::ScriptType => match ScriptType::parse(value) {
                Ok(t) => Ok(Value::Str(t.to_string())),
                Err(e) => Err(e),
            },
            Key::Collisions => match Collisions::parse(value) {
                Ok(c) => Ok(Value::Str(c.to_string())),
                Err(e) => Err(e),
            },
            Key::PlayResY | Key::PlayResX | Key::PlayDepth | Key::WrapStyle => parse_i64(value),
            Key::Timer => parse_f64(value),
            Key::ScaledBorderAndShadow => {
                let chars = to_chars(value);
                Ok(Value::Boolean(is_text_ignore_case(&chars, "yes")))
            },
            _ => Ok(Value::Str(String::from_str(value))),
        },
    }
}

/// The style that a line of `fields` gives under the columns of `styles`.
fn read_style(styles: &V4Styles, fields: &Vec<Vec<char>>) -> (r: Result<Style, Error>)
    ensures
        match record_of(styles@.order, views(fields@), style_reader()) {
            Ok(slots) => r is Ok && r->Ok_0@ == slots,
            Err(e) => r is Err && r->Err_0@ == e,
        },
{
    let mut style = Style::new(styles);
    let order = styles.order();
    let n: usize = if order.len() <= fields.len() {
        order.len()
    } else {
        fields.len()
    };
    let mut i: usize = 0;
    while i < n
        invariant
            i <= n,
            n == shorter(order@.len(), fields@.len()),
            order@ == styles@.order,
            views(fields@).len() == fields@.len(),
            filled(order@, views(fields@), i as nat, style_reader()) == Ok::<
                Seq<(StyleFormat, Option<ValueView>)>,
                ErrorView,
            >(style@),
        decreases n - i,
    {
        let field = to_text(&fields[i]);
        assert(field@ == views(fields@)[i as int]);
        match order[i].parse_value(field.as_str()) {
            Ok(v) => {
                style.set(order[i], v);
            },
            Err(e) => {
                proof {
                    let now = filled(order@, views(fields@), (i + 1) as nat, style_reader());
                    assert(style_reader()(order@[i as int], views(fields@)[i as int]) == Err::<
                        ValueView,
                        ErrorView,
                    >(e@));
                    assert(now == Err::<Seq<(StyleFormat, Option<ValueView>)>, ErrorView>(e@));
                    lemma_filled_error(
                        order@,
                        views(fields@),
                        (i + 1) as nat,
                        n as nat,
                        style_reader(),
                    );
                }
                return Err(e);
            },
        }
        i += 1;
    }
    Ok(style)
}

/// The event of the kind `event_type` that a line of `fields` gives under
/// the columns of `events`.
fn read_event(event_type: EventType, events: &Events, fields: &Vec<Vec<char>>) -> (r: Result<
    Event,
    Error,
>)
    ensures
        match record_of(events@.order, views(fields@), event_reader()) {
            Ok(slots) => r is Ok && r->Ok_0@ == (EventView { event_type, slots }),
            Err(e) => r is Err && r->Err_0@ == e,
        },
{
    let mut event = Event::new(event_type, events);
    let order = events.order();
    let n: usize = if order.len() <= fields.len() {
        order.len()
    } else {
        fields.len()
    };
    let mut i: usize = 0;
    while i < n
        invariant
            i <= n,
            n == shorter(order@.len(), fields@.len()),
            order@ == events@.order,
            views(fields@).len() == fields@.len(),
            event@.event_type == event_type,
            filled(order@, views(fields@), i as nat, event_reader()) == Ok::<
                Seq<(EventFormat, Option<ValueView>)>,
                ErrorView,
            >(event@.slots),
        decreases n - i,
    {
        let field = to_text(&fields[i]);
        assert(field@ == views(fields@)[i as int]);
        match order[i].parse_value(field.as_str()) {
            Ok(v) => {
                event.set(order[i], v);
            },
            Err(e) => {
                proof {
                    let now = filled(order@, views(fields@), (i + 1) as nat, event_reader());
                    assert(event_reader()(order@[i as int], views(fields@)[i as int]) == Err::<
                        ValueView,
                        ErrorView,
                    >(e@));
                    assert(now == Err::<Seq<(EventFormat, Option<ValueView>)>, ErrorView>(e@));
                    lemma_filled_error(
                        order@,
                        views(fields@),
                        (i + 1) as nat,
                        n as nat,
                        event_reader(),
                    );
                }
                return Err(e);
            },
        }
        i += 1;
    }
    Ok(event)
}

impl Default for SsaParser {
    /// Nothing read yet; see [`SsaParser::new`].
    fn default() -> (r: Self)
        ensures
            r.context == Context::Outside,
            r.script_info@ == Seq::<(Seq<char>, ValueView)>::empty(),
            r.styles@ == (V4StylesView {
                order: crate::styles::default_style_order(),
                styles: Seq::empty(),
            }),
            r.events@ == (EventsView {
                order: crate::events::default_event_order(),
                events: Seq::empty(),
            }),
            r.fonts@ == Seq::<Seq<char>>::empty(),
            r.graphics@ == Seq::<Seq<char>>::empty(),
    {
        SsaParser::new()
    }
}

impl Clone for SsaParser {
    fn clone(&self) -> (r: Self)
        ensures
            r.context == self.context,
            r.script_info@ == self.script_info@,
            r.styles@ == self.styles@,
            r.events@ == self.events@,
            r.fonts@ == self.fonts@,
            r.graphics@ == self.graphics@,
    {
        SsaParser {
            context: self.context,
            script_info: self.script_info.clone(),
            styles: self.styles.clone(),
            events: self.events.clone(),
            fonts: self.fonts.clone(),
            graphics: self.graphics.clone(),
        }
    }
}

impl SsaParser {
    /// Nothing read yet: no properties, no styles and no events, with the
    /// columns of a `v4.00+` script.
    pub fn new() -> (r: Self)
        ensures
            r.context == Context::Outside,
            r.script_info@ == Seq::<(Seq<char>, ValueView)>::empty(),
            r.styles@ == (V4StylesView {
                order: crate::styles::default_style_order(),
                styles: Seq::empty(),
            }),
            r.events@ == (EventsView {
                order: crate::events::default_event_order(),
                events: Seq::empty(),
            }),
            r.fonts@ == Seq::<Seq<char>>::empty(),
            r.graphics@ == Seq::<Seq<char>>::empty(),
    {
        SsaParser {
            context: Context::Outside,
            script_info: ScriptInfo::default(),
            styles: V4Styles::default(),
            events: Events::default(),
            fonts: Fonts::new(),
            graphics: Graphics::new(),
        }
    }

    /// Reads one line of the script info section.
    pub fn parse_script_info(&mut self, src: &str) -> (r: Result<(), Error>)
        ensures
            match script_line(old(self).script_info@, src@) {
                Ok(props) => r is Ok && final(self).script_info@ == props,
                Err(e) => r is Err && r->Err_0@ == e && final(self).script_info@ == old(
                    self,
                ).script_info@,
            },
            final(self).context == old(self).context,
            final(self).styles == old(self).styles,
            final(self).events == old(self).events,
            final(self).fonts == old(self).fonts,
            final(self).graphics == old(self).graphics,
    {
        let chars = to_chars(src);
        if chars.len() > 0 && (chars[0] == ';' || chars[0] == '!') {
            let rest = slice(&chars, 1, chars.len());
            assert(chars@.subrange(1, chars@.len() as int) == chars@.skip(1));
            let comment = to_text(&trimmed(&rest));
            self.script_info.add_comment(comment.as_str());
            return Ok(());
        }
        let parts = splitn_chars(&chars, 2, ':');
        if parts.len() < 2 {
            return Ok(());
        }
        let key = to_text(&parts[0]);
        match Key::from_name(key.as_str()) {
            Some(Key::Comment) => { return Ok(()); },
            _ => {},
        }
        let value = to_text(&trimmed(&parts[1]));
        match parse_property_value(key.as_str(), value.as_str()) {
            Ok(v) => {
                self.script_info.add_property(key.as_str(), v);
                Ok(())
            },
            Err(e) => Err(e),
        }
    }

    /// Reads one line of the styles section.
    pub fn parse_styles(&mut self, src: &str) -> (r: Result<(), Error>)
        ensures
            match style_line(old(self).styles@, src@) {
                Ok(styles) => r is Ok && final(self).styles@ == styles,
                Err(e) => r is Err && r->Err_0@ == e && final(self).styles@ == old(
                    self,
                ).styles@,
            },
            final(self).context == old(self).context,
            final(self).script_info == old(self).script_info,
            final(self).events == old(self).events,
            final(self).fonts == old(self).fonts,
            final(self).graphics == old(self).graphics,
    {
        let chars = to_chars(src);
        let body = match after_prefix(&chars, "Style:") {
            Some(body) => body,
            None => { return Ok(()); },
        };
        let fields = split_chars(&body, ',');
        let style = match read_style(&self.styles, &fields) {
            Ok(style) => style,
            Err(e) => { return Err(e); },
        };
        self.styles.add(style)
    }

    /// Reads one line of the events section.
    pub fn parse_events(&mut self, src: &str) -> (r: Result<(), Error>)
        ensures
            match event_line(old(self).events@, src@) {
                Ok(events) => r is Ok && final(self).events@ == events,
                Err(e) => r is Err && r->Err_0@ == e && final(self).events@ == old(
                    self,
                ).events@,
            },
            final(self).context == old(self).context,
            final(self).script_info == old(self).script_info,
            final(self).styles == old(self).styles,
            final(self).fonts == old(self).fonts,
            final(self).graphics == old(self).graphics,
    {
        let chars = to_chars(src);
        let parts = splitn_chars(&chars, 2, ':');
        if parts.len() < 2 {
            return Ok(());
        }
        let kind = to_text(&parts[0]);
        let event_type = match EventType::from_name(kind.as_str()) {
            Some(t) => t,
            None => {
                let msg = String::from_str("invalid event type ").concat(kind.as_str());
                return Err(Error::parse_error("EventType", msg.as_str()));
            },
        };
        let fields = splitn_chars(&trimmed(&parts[1]), self.events.order().len(), ',');
        let event = match read_event(event_type, &self.events, &fields) {
            Ok(event) => event,
            Err(e) => { return Err(e); },
        };
        self.events.push(event);
        Ok(())
    }

    /// Reads one line of the fonts section.
    pub fn parse_fonts(&mut self, src: &str) -> (r: Result<(), Error>)
        ensures
            r is Ok,
            final(self).fonts@ == name_line(old(self).fonts@, "fontname:"@, src@),
            final(self).context == old(self).context,
            final(self).script_info == old(self).script_info,
            final(self).styles == old(self).styles,
            final(self).events == old(self).events,
            final(self).graphics == old(self).graphics,
    {
        let chars = to_chars(src);
        match after_prefix(&chars, "fontname:") {
            Some(name) => {
                self.fonts.push(to_text(&name));
            },
            None => {},
        }
        Ok(())
    }

    /// Reads one line of the graphics section.
    pub fn parse_graphics(&mut self, src: &str) -> (r: Result<(), Error>)
        ensures
            r is Ok,
            final(self).graphics@ == name_line(old(self).graphics@, "filename:"@, src@),
            final(self).context == old(self).context,
            final(self).script_info == old(self).script_info,
            final(self).styles == old(self).styles,
            final(self).events == old(self).events,
            final(self).fonts == old(self).fonts,
    {
        let chars = to_chars(src);
        match after_prefix(&chars, "filename:") {
            Some(name) => {
                self.graphics.push(to_text(&name));
            },
            None => {},
        }
        Ok(())
    }
}

} // verus!
