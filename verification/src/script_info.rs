//! The `[Script Info]` section: properties in the order in which they were
//! first set, each under its key.

use crate::assoc::{
    first_key, lemma_first_key, lemma_first_key_at, lemma_no_key, lemma_put, lemma_put_twice, put,
    value_of, without_key,
};
use crate::error::{Error, ErrorView};
use crate::float_text::FloatText;
use crate::parser::Parser;
use crate::text::{eq_ignore_case, is_text, is_text_ignore_case, lines_text, push_line, to_chars};
use crate::value::{lemma_list_view, value_text, value_views, Value, ValueView};
use vstd::prelude::*;
use vstd::string::*;

verus! {

/// The keys that this crate knows.
#[derive(Debug, Copy, Clone, Hash, Eq, PartialEq, Structural)]
pub enum Key {
    Comment,
    Title,
    OriginalScript,
    OriginalTranslation,
    OriginalEditing,
    OriginalTiming,
    SynchPoint,
    ScriptUpdatedBy,
    UpdateDetails,
    ScriptType,
    Collisions,
    PlayResY,
    PlayResX,
    PlayDepth,
    Timer,
    WrapStyle,
    ScaledBorderAndShadow,
}

/// The text that a key is written as. The comments are kept under `;`.
pub open spec fn key_name(k: Key) -> Seq<char> {
    match k {
        Key::Comment => ";"@,
        Key::Title => "Title"@,
        Key::OriginalScript => "OriginalScript"@,
        Key::OriginalTranslation => "Original Translation"@,
        Key::OriginalEditing => "Original Editing"@,
        Key::OriginalTiming => "Original Timing"@,
        Key::SynchPoint => "Synch Point"@,
        Key::ScriptUpdatedBy => "Script Updated By"@,
        Key::UpdateDetails => "Update Details"@,
        Key::ScriptType => "ScriptType"@,
        Key::Collisions => "Collisions"@,
        Key::PlayResY => "PlayResY"@,
        Key::PlayResX => "PlayResX"@,
        Key::PlayDepth => "PlayDepth"@,
        Key::Timer => "Timer"@,
        Key::WrapStyle => "WrapStyle"@,
        Key::ScaledBorderAndShadow => "ScaledBorderAndShadow"@,
    }
}

/// The key that is written as `s`, letter for letter.
pub open spec fn key_of(s: Seq<char>) -> Option<Key> {
    if s == ";"@ {
        Some(Key::Comment)
    } else if s == "Title"@ {
        Some(Key::Title)
    } else if s == "OriginalScript"@ {
        Some(Key::OriginalScript)
    } else if s == "Original Translation"@ {
        Some(Key::OriginalTranslation)
    } else if s == "Original Editing"@ {
        Some(Key::OriginalEditing)
    } else if s == "Original Timing"@ {
        Some(Key::OriginalTiming)
    } else if s == "Synch Point"@ {
        Some(Key::SynchPoint)
    } else if s == "Script Updated By"@ {
        Some(Key::ScriptUpdatedBy)
    } else if s == "Update Details"@ {
        Some(Key::UpdateDetails)
    } else if s == "ScriptType"@ {
        Some(Key::ScriptType)
    } else if s == "Collisions"@ {
        Some(Key::Collisions)
    } else if s == "PlayResY"@ {
        Some(Key::PlayResY)
    } else if s == "PlayResX"@ {
        Some(Key::PlayResX)
    } else if s == "PlayDepth"@ {
        Some(Key::PlayDepth)
    } else if s == "Timer"@ {
        Some(Key::Timer)
    } else if s == "WrapStyle"@ {
        Some(Key::WrapStyle)
    } else if s == "ScaledBorderAndShadow"@ {
        Some(Key::ScaledBorderAndShadow)
    } else {
        None
    }
}

impl Key {
    /// The text that the key is written as.
    pub fn name(&self) -> (r: &'static str)
        ensures
            r@ == key_name(*self),
    {
        match self {
            Key::Comment => ";",
            Key::Title => "Title",
            Key::OriginalScript => "OriginalScript",
            Key::OriginalTranslation => "Original Translation",
            Key::OriginalEditing => "Original Editing",
            Key::OriginalTiming => "Original Timing",
            Key::SynchPoint => "Synch Point",
            Key::ScriptUpdatedBy => "Script Updated By",
            Key::UpdateDetails => "Update Details",
            Key::ScriptType => "ScriptType",
            Key::Collisions => "Collisions",
            Key::PlayResY => "PlayResY",
            Key::PlayResX => "PlayResX",
            Key::PlayDepth => "PlayDepth",
            Key::Timer => "Timer",
            Key::WrapStyle => "WrapStyle",
            Key::ScaledBorderAndShadow => "ScaledBorderAndShadow",
        }
    }

    /// The text that the key is written as.
    pub fn to_string(&self) -> (r: String)
        ensures
            r@ == key_name(*self),
    {
        String::from_str(self.name())
    }

    /// The key that is written as `src`, letter for letter.
    pub fn from_name(src: &str) -> (r: Option<Key>)
        ensures
            r == key_of(src@),
    {
        let chars = to_chars(src);
        if is_text(&chars, ";") {
            Some(Key::Comment)
        } else if is_text(&chars, "Title") {
            Some(Key::Title)
        } else if is_text(&chars, "OriginalScript") {
            Some(Key::OriginalScript)
        } else if is_text(&chars, "Original Translation") {
            Some(Key::OriginalTranslation)
        } else if is_text(&chars, "Original Editing") {
            Some(Key::OriginalEditing)
        } else if is_text(&chars, "Original Timing") {
            Some(Key::OriginalTiming)
        } else if is_text(&chars, "Synch Point") {
            Some(Key::SynchPoint)
        } else if is_text(&chars, "Script Updated By") {
            Some(Key::ScriptUpdatedBy)
        } else if is_text(&chars, "Update Details") {
            Some(Key::UpdateDetails)
        } else if is_text(&chars, "ScriptType") {
            Some(Key::ScriptType)
        } else if is_text(&chars, "Collisions") {
            Some(Key::Collisions)
        } else if is_text(&chars, "PlayResY") {
            Some(Key::PlayResY)
        } else if is_text(&chars, "PlayResX") {
            Some(Key::PlayResX)
        } else if is_text(&chars, "PlayDepth") {
            Some(Key::PlayDepth)
        } else if is_text(&chars, "Timer") {
            Some(Key::Timer)
        } else if is_text(&chars, "WrapStyle") {
            Some(Key::WrapStyle)
        } else if is_text(&chars, "ScaledBorderAndShadow") {
            Some(Key::ScaledBorderAndShadow)
        } else {
            None
        }
    }
}

impl std::str::FromStr for Key {
    type Err = Error;

    /// The key that `src` names; see [`Key::from_name`].
    fn from_str(src: &str) -> (r: Result<Self, Error>)
        ensures
            match key_of(src@) {
                Some(k) => r == Ok::<Key, Error>(k),
                None => r is Err && r->Err_0@ == (ErrorView::ParseError {
                    ty: "Key"@,
                    msg: src@,
                }),
            },
    {
        match Key::from_name(src) {
            Some(f) => Ok(f),
            None => Err(Error::parse_error("Key", src)),
        }
    }
}

/// The version of the script format that a script declares.
#[derive(Debug, Clone, Copy, PartialEq, Eq, Structural)]
pub enum ScriptType {
    V4,
    V4Plus,
}

/// The text that a script type is written as.
pub open spec fn script_type_name(t: ScriptType) -> Seq<char> {
    match t {
        ScriptType::V4 => "v4.00"@,
        ScriptType::V4Plus => "v4.00+"@,
    }
}

/// The script type that is written as `s`, letter for letter.
pub open spec fn script_type_of(s: Seq<char>) -> Result<ScriptType, ErrorView> {
    if s == "v4.00"@ {
        Ok(ScriptType::V4)
    } else if s == "v4.00+"@ {
        Ok(ScriptType::V4Plus)
    } else {
        Err(ErrorView::ParseError { ty: "ScriptType"@, msg: s })
    }
}

impl ScriptType {
    /// The text that the script type is written as.
    pub fn name(&self) -> (r: &'static str)
        ensures
            r@ == script_type_name(*self),
    {
        match self {
            ScriptType::V4 => "v4.00",
            ScriptType::V4Plus => "v4.00+",
        }
    }

    /// The text that the script type is written as.
    pub fn to_string(&self) -> (r: String)
        ensures
            r@ == script_type_name(*self),
    {
        String::from_str(self.name())
    }
}

impl Parser for ScriptType {
    fn parse(s: &str) -> (r: Result<Self, Error>)
        ensures
            match r {
                Ok(t) => script_type_of(s@) == Ok::<ScriptType, ErrorView>(t),
                Err(e) => script_type_of(s@) == Err::<ScriptType, ErrorView>(e@),
            },
    {
        let chars = to_chars(s);
        if is_text(&chars, "v4.00") {
            Ok(ScriptType::V4)
        } else if is_text(&chars, "v4.00+") {
            Ok(ScriptType::V4Plus)
        } else {
            Err(Error::parse_error("ScriptType", s))
        }
    }
}

/// How subtitles that collide are moved.
#[derive(Debug, Clone, Copy, PartialEq, Eq, Structural)]
pub enum Collisions {
    Normal,
    Reverse,
}

/// The text that a collision mode is written as.
pub open spec fn collisions_name(c: Collisions) -> Seq<char> {
    match c {
        Collisions::Normal => "Normal"@,
        Collisions::Reverse => "Reverse"@,
    }
}

/// The collision mode that `s` names, in any case of letters.
pub open spec fn collisions_of(s: Seq<char>) -> Result<Collisions, ErrorView> {
    if eq_ignore_case(s, "normal"@) {
        Ok(Collisions::Normal)
    } else if eq_ignore_case(s, "reverse"@) {
        Ok(Collisions::Reverse)
    } else {
        Err(ErrorView::ParseError { ty: "Collisions"@, msg: s })
    }
}

impl Collisions {
    /// The text that the collision mode is written as.
    pub fn name(&self) -> (r: &'static str)
        ensures
            r@ == collisions_name(*self),
    {
        match self {
            Collisions::Normal => "Normal",
            Collisions::Reverse => "Reverse",
        }
    }

    /// The text that the collision mode is written as.
    pub fn to_string(&self) -> (r: String)
        ensures
            r@ == collisions_name(*self),
    {
        String::from_str(self.name())
    }
}

impl Parser for Collisions {
    fn parse(s: &str) -> (r: Result<Self, Error>)
        ensures
            match r {
                Ok(c) => collisions_of(s@) == Ok::<Collisions, ErrorView>(c),
                Err(e) => collisions_of(s@) == Err::<Collisions, ErrorView>(e@),
            },
    {
        let chars = to_chars(s);
        if is_text_ignore_case(&chars, "normal") {
            Ok(Collisions::Normal)
        } else if is_text_ignore_case(&chars, "reverse") {
            Ok(Collisions::Reverse)
        } else {
            Err(Error::parse_error("Collisions", s))
        }
    }
}

/// The properties of a script, in the order in which their keys were first
/// set.
#[derive(Debug, PartialEq, Eq)]
pub struct ScriptInfo {
    properties: Vec<(String, Value)>,
}

/// The views of the properties of `l`.
pub open spec fn property_views(l: Seq<(String, Value)>) -> Seq<(Seq<char>, ValueView)> {
    Seq::new(l.len(), |i: int| (l[i].0@, l[i].1@))
}

impl View for ScriptInfo {
    type V = Seq<(Seq<char>, ValueView)>;

    closed spec fn view(&self) -> Seq<(Seq<char>, ValueView)> {
        property_views(self.properties@)
    }
}

/// The comments among the properties `props`, in the order in which they
/// were added.
pub open spec fn comments_of(props: Seq<(Seq<char>, ValueView)>) -> Seq<ValueView> {
    match value_of(props, key_name(Key::Comment)) {
        Some(ValueView::List(l)) => l,
        _ => Seq::empty(),
    }
}

/// The properties `props` with the comment `c` after the comments that are
/// there.
pub open spec fn with_comment(props: Seq<(Seq<char>, ValueView)>, c: Seq<char>) -> Seq<
    (Seq<char>, ValueView),
> {
    put(props, key_name(Key::Comment), ValueView::List(comments_of(props).push(ValueView::Str(c))))
}

/// The properties `props` after each pair of `more` was put, in their order.
pub open spec fn put_all(
    props: Seq<(Seq<char>, ValueView)>,
    more: Seq<(Seq<char>, ValueView)>,
) -> Seq<(Seq<char>, ValueView)>
    decreases more.len(),
{
    if more.len() == 0 {
        props
    } else {
        put(put_all(props, more.drop_last()), more.last().0, more.last().1)
    }
}

/// The text under `key`, where a text is there.
pub open spec fn str_at(props: Seq<(Seq<char>, ValueView)>, key: Seq<char>) -> Option<Seq<char>> {
    match value_of(props, key) {
        Some(ValueView::Str(s)) => Some(s),
        _ => None,
    }
}

/// The integer under `key`, where an integer is there.
pub open spec fn int_at(props: Seq<(Seq<char>, ValueView)>, key: Seq<char>) -> Option<i64> {
    match value_of(props, key) {
        Some(ValueView::Int(i)) => Some(i),
        _ => None,
    }
}

/// The lines of the comments `l`: `; ` and the comment.
pub open spec fn comment_lines(l: Seq<ValueView>) -> Seq<Seq<char>> {
    Seq::new(l.len(), |i: int| "; "@ + value_text(l[i]))
}

/// What one property is written as: a line of its key, a colon, a space and
/// its value, but for the comments, which are one line each, and for
/// `ScaledBorderAndShadow`, which is `yes` or `no`.
pub open spec fn property_text(key: Seq<char>, value: ValueView) -> Seq<char> {
    if key == key_name(Key::Comment) {
        match value {
            ValueView::List(l) => lines_text(comment_lines(l)),
            _ => Seq::empty(),
        }
    } else if key == key_name(Key::ScaledBorderAndShadow) {
        key + ": "@ + (if value == ValueView::Boolean(true) {
            "yes"@
        } else {
            "no"@
        }) + seq!['\n']
    } else {
        key + ": "@ + value_text(value) + seq!['\n']
    }
}

/// The body of the section: the properties in their order.
pub open spec fn script_info_text(props: Seq<(Seq<char>, ValueView)>) -> Seq<char>
    decreases props.len(),
{
    if props.len() == 0 {
        Seq::empty()
    } else {
        script_info_text(props.drop_last()) + property_text(props.last().0, props.last().1)
    }
}

/// Comments are kept in the order in which they were added.
pub proof fn lemma_comments_accumulate(props: Seq<(Seq<char>, ValueView)>, c: Seq<char>)
    ensures
        comments_of(with_comment(props, c)) == comments_of(props).push(ValueView::Str(c)),
{
    lemma_put(
        props,
        key_name(Key::Comment),
        ValueView::List(comments_of(props).push(ValueView::Str(c))),
    );
}

/// A key that is set twice holds the second value, at the place where the
/// first was put, and the number of properties is that after the first.
pub proof fn lemma_set_twice(
    props: Seq<(Seq<char>, ValueView)>,
    key: Seq<char>,
    first: ValueView,
    second: ValueView,
)
    ensures
        value_of(put(put(props, key, first), key, second), key) == Some(second),
        first_key(put(put(props, key, first), key, second), key) == first_key(
            put(props, key, first),
            key,
        ),
        put(put(props, key, first), key, second).len() == put(props, key, first).len(),
{
    lemma_put(props, key, first);
    lemma_put(put(props, key, first), key, second);
    lemma_put_twice(props, key, first, second);
}

impl Clone for ScriptInfo {
    fn clone(&self) -> (r: Self)
        ensures
            r@ == self@,
    {
        let mut properties: Vec<(String, Value)> = Vec::new();
        let mut i: usize = 0;
        while i < self.properties.len()
            invariant
                i <= self.properties.len(),
                properties@.len() == i,
                forall|j: int|
                    0 <= j < i ==> properties@[j].0@ == self.properties@[j].0@
                        && properties@[j].1@ == self.properties@[j].1@,
            decreases self.properties.len() - i,
        {
            properties.push((self.properties[i].0.clone(), self.properties[i].1.clone()));
            i += 1;
        }
        assert(property_views(properties@) =~= property_views(self.properties@));
        ScriptInfo { properties }
    }
}

impl Default for ScriptInfo {
    /// No properties.
    fn default() -> (r: Self)
        ensures
            r@ == Seq::<(Seq<char>, ValueView)>::empty(),
    {
        let r = ScriptInfo { properties: Vec::new() };
        assert(r@ =~= Seq::empty());
        r
    }
}

impl ScriptInfo {
    /// The place of the first property of the key `key`.
    fn position(&self, key: &str) -> (r: Option<usize>)
        ensures
            match r {
                Some(i) => first_key(self@, key@) == Some(i as int) && i
                    < self.properties@.len(),
                None => first_key(self@, key@) is None,
            },
    {
        let wanted = String::from_str(key);
        let mut i: usize = 0;
        while i < self.properties.len()
            invariant
                i <= self.properties.len(),
                wanted@ == key@,
                forall|j: int| 0 <= j < i ==> (#[trigger] self@[j]).0 != key@,
            decreases self.properties.len() - i,
        {
            if self.properties[i].0 == wanted {
                proof {
                    lemma_first_key_at(self@, key@, i as int);
                }
                return Some(i);
            }
            i += 1;
        }
        proof {
            lemma_no_key(self@, key@);
        }
        None
    }

    /// Puts `value` under `key`: in place of what is there, or as a new
    /// property after the others.
    pub fn add_property(&mut self, key: &str, value: Value)
        ensures
            final(self)@ == put(old(self)@, key@, value@),
    {
        match self.position(key) {
            Some(i) => {
                self.properties.set(i, (String::from_str(key), value));
            },
            None => {
                self.properties.push((String::from_str(key), value));
            },
        }
        assert(final(self)@ =~= put(old(self)@, key@, value@));
    }

    /// Puts each pair of `properties`, in their order.
    pub fn add_properties(&mut self, properties: Vec<(String, Value)>)
        ensures
            final(self)@ == put_all(old(self)@, property_views(properties@)),
    {
        let mut properties = properties;
        let ghost all = property_views(properties@);
        let mut rest: Vec<(String, Value)> = Vec::new();
        while properties.len() > 0
            invariant
                property_views(properties@) + property_views(rest@).reverse() == all,
            decreases properties.len(),
        {
            let ghost before = property_views(properties@);
            let ghost held = property_views(rest@);
            let entry = properties.pop().unwrap();
            rest.push(entry);
            assert(property_views(properties@) =~= before.drop_last());
            assert(property_views(rest@) =~= held.push(before.last()));
            assert(before + held.reverse() =~= property_views(properties@) + property_views(
                rest@,
            ).reverse());
        }
        assert(property_views(rest@).reverse() =~= all);
        let ghost held = property_views(rest@);
        assert(all.take(0) =~= Seq::empty());
        while rest.len() > 0
            invariant
                held.reverse() == all,
                rest@.len() <= held.len(),
                property_views(rest@) == held.take(rest@.len() as int),
                self@ == put_all(old(self)@, all.take(held.len() - rest@.len())),
            decreases rest.len(),
        {
            let ghost n = rest@.len() as int;
            let ghost done = held.len() - n;
            let ghost before = property_views(rest@);
            let entry = rest.pop().unwrap();
            assert(before[n - 1] == (entry.0@, entry.1@));
            assert(before[n - 1] == held[n - 1]);
            assert(held[n - 1] == all[done]);
            assert(all.take(done + 1).drop_last() =~= all.take(done));
            assert(all.take(done + 1).last() == all[done]);
            self.add_property(entry.0.as_str(), entry.1);
            assert(property_views(rest@) =~= held.take(rest@.len() as int));
        }
        assert(all.take(held.len() as int) =~= all);
    }

    /// Takes out every property of the key `key`.
    pub fn remove_property(&mut self, key: &str)
        ensures
            final(self)@ == without_key(old(self)@, key@),
    {
        let wanted = String::from_str(key);
        let mut kept: Vec<(String, Value)> = Vec::new();
        let ghost all = self@;
        while self.properties.len() > 0
            invariant
                wanted@ == key@,
                all == old(self)@,
                without_key(all, key@) == without_key(self@, key@) + property_views(
                    kept@,
                ).reverse(),
            decreases self.properties.len(),
        {
            let ghost before = self@;
            let ghost held = property_views(kept@);
            let entry = self.properties.pop().unwrap();
            assert(self@ =~= before.drop_last());
            assert(before.last() == (entry.0@, entry.1@));
            if entry.0 != wanted {
                kept.push(entry);
                assert(property_views(kept@) =~= held.push(before.last()));
                assert(property_views(kept@).reverse() =~= seq![before.last()] + held.reverse());
                assert(without_key(before, key@) + held.reverse() =~= without_key(self@, key@)
                    + property_views(kept@).reverse());
            }
        }
        assert(self@ =~= Seq::empty());
        assert(without_key(self@, key@) =~= Seq::empty());
        let ghost held = property_views(kept@);
        while kept.len() > 0
            invariant
                kept@.len() <= held.len(),
                property_views(kept@) == held.take(kept@.len() as int),
                self@ + property_views(kept@).reverse() == held.reverse(),
            decreases kept.len(),
        {
            let ghost before = property_views(kept@);
            let ghost have = self@;
            let entry = kept.pop().unwrap();
            assert(property_views(kept@) =~= before.drop_last());
            self.properties.push(entry);
            assert(self@ =~= have.push(before.last()));
            assert(have + before.reverse() =~= self@ + property_views(kept@).reverse());
            assert(property_views(kept@) =~= held.take(kept@.len() as int));
        }
        assert(property_views(kept@).reverse() =~= Seq::empty());
        assert(self@ =~= held.reverse());
    }

    /// What is under `key`.
    pub fn get_property(&self, key: &str) -> (r: Option<&Value>)
        ensures
            match r {
                Some(v) => value_of(self@, key@) == Some(v@),
                None => value_of(self@, key@) is None,
            },
    {
        match self.position(key) {
            Some(i) => Some(&self.properties[i].1),
            None => None,
        }
    }

    /// What is under `key`, to be changed in place.
    pub fn get_property_mut(&mut self, key: &str) -> (r: Option<&mut Value>)
        ensures
            match r {
                Some(v) => value_of(old(self)@, key@) == Some(v@) && final(self)@ == put(
                    old(self)@,
                    key@,
                    final(v)@,
                ),
                None => value_of(old(self)@, key@) is None && final(self)@ == old(self)@,
            },
    {
        match self.position(key) {
            Some(i) => {
                proof {
                    lemma_first_key(old(self)@, key@);
                }
                let ghost before = old(self).properties@;
                let entry = &mut self.properties[i];
                let ghost after = *final(entry);
                proof {
                    assert(property_views(before.update(i as int, after)) =~= property_views(
                        before,
                    ).update(i as int, (after.0@, after.1@)));
                }
                Some(&mut entry.1)
            },
            None => None,
        }
    }

    /// The properties in their order, each with its key.
    pub fn iter(&self) -> (r: Vec<(&str, &Value)>)
        ensures
            r@.len() == self@.len(),
            forall|i: int|
                0 <= i < r@.len() ==> (#[trigger] r@[i]).0@ == self@[i].0 && r@[i].1@
                    == self@[i].1,
    {
        let mut out: Vec<(&str, &Value)> = Vec::new();
        let mut i: usize = 0;
        while i < self.properties.len()
            invariant
                i <= self.properties.len(),
                out@.len() == i,
                forall|j: int|
                    0 <= j < i ==> (#[trigger] out@[j]).0@ == self@[j].0 && out@[j].1@
                        == self@[j].1,
            decreases self.properties.len() - i,
        {
            out.push((self.properties[i].0.as_str(), &self.properties[i].1));
            i += 1;
        }
        out
    }

    /// The comments, to be changed in place; `None` where there is none.
    pub fn get_comments_mut(&mut self) -> (r: Option<&mut Vec<Value>>)
        ensures
            match r {
                Some(l) => value_of(old(self)@, key_name(Key::Comment)) == Some(
                    ValueView::List(value_views(l@)),
                ) && final(self)@ == put(
                    old(self)@,
                    key_name(Key::Comment),
                    ValueView::List(value_views(final(l)@)),
                ),
                None => !(value_of(old(self)@, key_name(Key::Comment)) is Some && value_of(
                    old(self)@,
                    key_name(Key::Comment),
                )->0 is List) && final(self)@ == old(self)@,
            },
    {
        proof {
            lemma_first_key(old(self)@, key_name(Key::Comment));
        }
        match self.get_property_mut(Key::Comment.name()) {
            Some(v) => {
                let ghost before = *v;
                match v.as_list_mut() {
                    Some(l) => {
                        proof {
                            lemma_list_view(*l);
                            lemma_list_view(*final(l));
                        }
                        Some(l)
                    },
                    None => {
                        assert(put(old(self)@, key_name(Key::Comment), before@) =~= old(self)@);
                        None
                    },
                }
            },
            None => None,
        }
    }

    fn get_str_mut(&mut self, key: Key) -> (r: Option<&mut String>)
        ensures
            match r {
                Some(s) => str_at(old(self)@, key_name(key)) == Some(s@) && final(self)@ == put(
                    old(self)@,
                    key_name(key),
                    ValueView::Str(final(s)@),
                ),
                None => str_at(old(self)@, key_name(key)) is None && final(self)@ == old(self)@,
            },
    {
        proof {
            lemma_first_key(old(self)@, key_name(key));
        }
        match self.get_property_mut(key.name()) {
            Some(v) => {
                let ghost before = *v;
                match v.as_str_mut() {
                    Some(s) => Some(s),
                    None => {
                        assert(put(old(self)@, key_name(key), before@) =~= old(self)@);
                        None
                    },
                }
            },
            None => None,
        }
    }

    /// The title of the script, to be changed in place.
    pub fn get_title_mut(&mut self) -> (r: Option<&mut String>)
        ensures
            match r {
                Some(s) => str_at(old(self)@, key_name(Key::Title)) == Some(s@)
                    && final(self)@ == put(
                        old(self)@,
                        key_name(Key::Title),
                        ValueView::Str(final(s)@),
                    ),
                None => str_at(old(self)@, key_name(Key::Title)) is None
                    && final(self)@ == old(self)@,
            },
    {
        self.get_str_mut(Key::Title)
    }

    /// Who wrote the script, to be changed in place.
    pub fn get_original_script_mut(&mut self) -> (r: Option<&mut String>)
        ensures
            match r {
                Some(s) => str_at(old(self)@, key_name(Key::OriginalScript)) == Some(s@)
                    && final(self)@ == put(
                        old(self)@,
                        key_name(Key::OriginalScript),
                        ValueView::Str(final(s)@),
                    ),
                None => str_at(old(self)@, key_name(Key::OriginalScript)) is None
                    && final(self)@ == old(self)@,
            },
    {
        self.get_str_mut(Key::OriginalScript)
    }

    /// Who translated the script, to be changed in place.
    pub fn get_original_translation_mut(&mut self) -> (r: Option<&mut String>)
        ensures
            match r {
                Some(s) => str_at(old(self)@, key_name(Key::OriginalTranslation)) == Some(s@)
                    && final(self)@ == put(
                        old(self)@,
                        key_name(Key::OriginalTranslation),
                        ValueView::Str(final(s)@),
                    ),
                None => str_at(old(self)@, key_name(Key::OriginalTranslation)) is None
                    && final(self)@ == old(self)@,
            },
    {
        self.get_str_mut(Key::OriginalTranslation)
    }

    /// Who edited the script, to be changed in place.
    pub fn get_original_editing_mut(&mut self) -> (r: Option<&mut String>)
        ensures
            match r {
                Some(s) => str_at(old(self)@, key_name(Key::OriginalEditing)) == Some(s@)
                    && final(self)@ == put(
                        old(self)@,
                        key_name(Key::OriginalEditing),
                        ValueView::Str(final(s)@),
                    ),
                None => str_at(old(self)@, key_name(Key::OriginalEditing)) is None
                    && final(self)@ == old(self)@,
            },
    {
        self.get_str_mut(Key::OriginalEditing)
    }

    /// Who timed the script, to be changed in place.
    pub fn get_original_timing_mut(&mut self) -> (r: Option<&mut String>)
        ensures
            match r {
                Some(s) => str_at(old(self)@, key_name(Key::OriginalTiming)) == Some(s@)
                    && final(self)@ == put(
                        old(self)@,
                        key_name(Key::OriginalTiming),
                        ValueView::Str(final(s)@),
                    ),
                None => str_at(old(self)@, key_name(Key::OriginalTiming)) is None
                    && final(self)@ == old(self)@,
            },
    {
        self.get_str_mut(Key::OriginalTiming)
    }

    /// Where the script is to be synchronised, to be changed in place.
    pub fn get_synch_point_mut(&mut self) -> (r: Option<&mut String>)
        ensures
            match r {
                Some(s) => str_at(old(self)@, key_name(Key::SynchPoint)) == Some(s@)
                    && final(self)@ == put(
                        old(self)@,
                        key_name(Key::SynchPoint),
                        ValueView::Str(final(s)@),
                    ),
                None => str_at(old(self)@, key_name(Key::SynchPoint)) is None
                    && final(self)@ == old(self)@,
            },
    {
        self.get_str_mut(Key::SynchPoint)
    }

    /// Who updated the script, to be changed in place.
    pub fn get_script_updated_by_mut(&mut self) -> (r: Option<&mut String>)
        ensures
            match r {
                Some(s) => str_at(old(self)@, key_name(Key::ScriptUpdatedBy)) == Some(s@)
                    && final(self)@ == put(
                        old(self)@,
                        key_name(Key::ScriptUpdatedBy),
                        ValueView::Str(final(s)@),
                    ),
                None => str_at(old(self)@, key_name(Key::ScriptUpdatedBy)) is None
                    && final(self)@ == old(self)@,
            },
    {
        self.get_str_mut(Key::ScriptUpdatedBy)
    }

    /// What the update changed, to be changed in place.
    pub fn get_update_details_mut(&mut self) -> (r: Option<&mut String>)
        ensures
            match r {
                Some(s) => str_at(old(self)@, key_name(Key::UpdateDetails)) == Some(s@)
                    && final(self)@ == put(
                        old(self)@,
                        key_name(Key::UpdateDetails),
                        ValueView::Str(final(s)@),
                    ),
                None => str_at(old(self)@, key_name(Key::UpdateDetails)) is None
                    && final(self)@ == old(self)@,
            },
    {
        self.get_str_mut(Key::UpdateDetails)
    }

    /// The number of properties.
    pub fn len(&self) -> (n: usize)
        ensures
            n == self@.len(),
    {
        self.properties.len()
    }

    /// Takes out every property.
    pub fn clear(&mut self)
        ensures
            final(self)@ == Seq::<(Seq<char>, ValueView)>::empty(),
    {
        self.properties.clear();
        assert(final(self)@ =~= Seq::empty());
    }

    /// Adds the comment `comment` after the comments that are there.
    pub fn add_comment(&mut self, comment: &str)
        ensures
            final(self)@ == with_comment(old(self)@, comment@),
            comments_of(final(self)@) == comments_of(old(self)@).push(ValueView::Str(comment@)),
    {
        proof {
            lemma_comments_accumulate(old(self)@, comment@);
            lemma_first_key(old(self)@, key_name(Key::Comment));
        }
        let item = Value::Str(String::from_str(comment));
        match self.position(Key::Comment.name()) {
            Some(i) => {
                let entry = self.properties.remove(i);
                let list = match entry.1 {
                    Value::List(l) => {
                        proof {
                            lemma_list_view(l);
                        }
                        let mut l = l;
                        let ghost before = value_views(l@);
                        l.push(item);
                        proof {
                            lemma_list_view(l);
                            assert(value_views(l@) =~= before.push(item@));
                        }
                        Value::List(l)
                    },
                    _ => {
                        let l = vec![item];
                        proof {
                            lemma_list_view(l);
                            assert(value_views(l@) =~= Seq::<ValueView>::empty().push(item@));
                        }
                        Value::List(l)
                    },
                };
                self.properties.insert(i, (entry.0, list));
                assert(final(self)@ =~= with_comment(old(self)@, comment@));
            },
            None => {
                let l = vec![item];
                proof {
                    lemma_list_view(l);
                    assert(value_views(l@) =~= Seq::<ValueView>::empty().push(item@));
                }
                self.properties.push((Key::Comment.to_string(), Value::List(l)));
                assert(final(self)@ =~= with_comment(old(self)@, comment@));
            },
        }
    }

    /// The comments, in the order in which they were added; `None` where
    /// there is none.
    pub fn get_comments(&self) -> (r: Option<&Vec<Value>>)
        ensures
            match r {
                Some(l) => value_of(self@, key_name(Key::Comment)) == Some(
                    ValueView::List(value_views(l@)),
                ),
                None => !(value_of(self@, key_name(Key::Comment)) is Some && value_of(
                    self@,
                    key_name(Key::Comment),
                )->0 is List),
            },
    {
        match self.get_property(Key::Comment.name()) {
            Some(v) => match v.as_list() {
                Some(l) => {
                    proof {
                        lemma_list_view(*l);
                    }
                    Some(l)
                },
                None => None,
            },
            None => None,
        }
    }

    /// The body of the section.
    pub fn to_string(&self) -> (s: String)
        ensures
            s@ == script_info_text(self@),
    {
        let mut out = String::new();
        let mut i: usize = 0;
        assert(self@.take(0) =~= Seq::empty());
        while i < self.properties.len()
            invariant
                i <= self.properties.len(),
                out@ == script_info_text(self@.take(i as int)),
            decreases self.properties.len() - i,
        {
            let key = &self.properties[i].0;
            let value = &self.properties[i].1;
            assert(self@.take(i + 1).drop_last() =~= self@.take(i as int));
            assert(self@.take(i + 1).last() == (key@, value@));
            let ghost start = out@;
            let key_chars = to_chars(key.as_str());
            if is_text(&key_chars, Key::Comment.name()) {
                match value.as_list() {
                    Some(l) => {
                        proof {
                            lemma_list_view(*l);
                        }
                        let ghost lines = comment_lines(value_views(l@));
                        let mut k: usize = 0;
                        assert(lines.take(0) =~= Seq::<Seq<char>>::empty());
                        while k < l.len()
                            invariant
                                k <= l.len(),
                                lines == comment_lines(value_views(l@)),
                                out@ == start + lines_text(lines.take(k as int)),
                            decreases l.len() - k,
                        {
                            let item = l[k].to_string();
                            let line = String::from_str("; ").concat(item.as_str());
                            assert(lines.take(k + 1).drop_last() =~= lines.take(k as int));
                            assert(lines.take(k + 1).last() == line@);
                            push_line(&mut out, line.as_str());
                            k += 1;
                        }
                        assert(lines.take(l.len() as int) =~= lines);
                    },
                    None => {
                        assert(out@ =~= start + Seq::<char>::empty());
                    },
                }
            } else if is_text(&key_chars, Key::ScaledBorderAndShadow.name()) {
                let flag = match value.as_bool() {
                    Some(b) => b,
                    None => false,
                };
                let word = if flag {
                    "yes"
                } else {
                    "no"
                };
                let line = key.clone().concat(": ").concat(word);
                push_line(&mut out, line.as_str());
                assert(out@ =~= start + property_text(key@, value@));
            } else {
                let text = value.to_string();
                let line = key.clone().concat(": ").concat(text.as_str());
                push_line(&mut out, line.as_str());
                assert(out@ =~= start + property_text(key@, value@));
            }
            i += 1;
        }
        assert(self@.take(self.properties.len() as int) =~= self@);
        out
    }

    fn get_str(&self, key: Key) -> (r: Option<&str>)
        ensures
            match r {
                Some(s) => str_at(self@, key_name(key)) == Some(s@),
                None => str_at(self@, key_name(key)) is None,
            },
    {
        match self.get_property(key.name()) {
            Some(v) => v.as_str(),
            None => None,
        }
    }

    fn get_int(&self, key: Key) -> (r: Option<i64>)
        ensures
            r == int_at(self@, key_name(key)),
    {
        match self.get_property(key.name()) {
            Some(v) => v.as_int(),
            None => None,
        }
    }

    /// Sets the title of the script.
    pub fn set_title(&mut self, title: &str)
        ensures
            final(self)@ == put(old(self)@, key_name(Key::Title), ValueView::Str(title@)),
    {
        self.add_property(Key::Title.name(), Value::Str(String::from_str(title)));
    }

    /// The title of the script, where it is set to a text.
    pub fn get_title(&self) -> (r: Option<&str>)
        ensures
            match r {
                Some(s) => str_at(self@, key_name(Key::Title)) == Some(s@),
                None => str_at(self@, key_name(Key::Title)) is None,
            },
    {
        self.get_str(Key::Title)
    }

    /// Sets who wrote the script.
    pub fn set_original_script(&mut self, original_script: &str)
        ensures
            final(self)@ == put(
                old(self)@,
                key_name(Key::OriginalScript),
                ValueView::Str(original_script@),
            ),
    {
        self.add_property(
            Key::OriginalScript.name(),
            Value::Str(String::from_str(original_script)),
        );
    }

    /// Who wrote the script, where it is set to a text.
    pub fn get_original_script(&self) -> (r: Option<&str>)
        ensures
            match r {
                Some(s) => str_at(self@, key_name(Key::OriginalScript)) == Some(s@),
                None => str_at(self@, key_name(Key::OriginalScript)) is None,
            },
    {
        self.get_str(Key::OriginalScript)
    }

    /// Sets who translated the script.
    pub fn set_original_translation(&mut self, original_translation: &str)
        ensures
            final(self)@ == put(
                old(self)@,
                key_name(Key::OriginalTranslation),
                ValueView::Str(original_translation@),
            ),
    {
        self.add_property(
            Key::OriginalTranslation.name(),
            Value::Str(String::from_str(original_translation)),
        );
    }

    /// Who translated the script, where it is set to a text.
    pub fn get_original_translation(&self) -> (r: Option<&str>)
        ensures
            match r {
                Some(s) => str_at(self@, key_name(Key::OriginalTranslation)) == Some(s@),
                None => str_at(self@, key_name(Key::OriginalTranslation)) is None,
            },
    {
        self.get_str(Key::OriginalTranslation)
    }

    /// Sets who edited the script.
    pub fn set_original_editing(&mut self, original_editing: &str)
        ensures
            final(self)@ == put(
                old(self)@,
                key_name(Key::OriginalEditing),
                ValueView::Str(original_editing@),
            ),
    {
        self.add_property(
            Key::OriginalEditing.name(),
            Value::Str(String::from_str(original_editing)),
        );
    }

    /// Who edited the script, where it is set to a text.
    pub fn get_original_editing(&self) -> (r: Option<&str>)
        ensures
            match r {
                Some(s) => str_at(self@, key_name(Key::OriginalEditing)) == Some(s@),
                None => str_at(self@, key_name(Key::OriginalEditing)) is None,
            },
    {
        self.get_str(Key::OriginalEditing)
    }

    /// Sets who timed the script.
    pub fn set_original_timing(&mut self, original_timing: &str)
        ensures
            final(self)@ == put(
                old(self)@,
                key_name(Key::OriginalTiming),
                ValueView::Str(original_timing@),
            ),
    {
        self.add_property(
            Key::OriginalTiming.name(),
            Value::Str(String::from_str(original_timing)),
        );
    }

    /// Who timed the script, where it is set to a text.
    pub fn get_original_timing(&self) -> (r: Option<&str>)
        ensures
            match r {
                Some(s) => str_at(self@, key_name(Key::OriginalTiming)) == Some(s@),
                None => str_at(self@, key_name(Key::OriginalTiming)) is None,
            },
    {
        self.get_str(Key::OriginalTiming)
    }

    /// Sets where the script is to be synchronised.
    pub fn set_synch_point(&mut self, synch_point: &str)
        ensures
            final(self)@ == put(
                old(self)@,
                key_name(Key::SynchPoint),
                ValueView::Str(synch_point@),
            ),
    {
        self.add_property(Key::SynchPoint.name(), Value::Str(String::from_str(synch_point)));
    }

    /// Where the script is to be synchronised, where it is set to a text.
    pub fn get_synch_point(&self) -> (r: Option<&str>)
        ensures
            match r {
                Some(s) => str_at(self@, key_name(Key::SynchPoint)) == Some(s@),
                None => str_at(self@, key_name(Key::SynchPoint)) is None,
            },
    {
        self.get_str(Key::SynchPoint)
    }

    /// Sets who updated the script.
    pub fn set_script_updated_by(&mut self, script_updated_by: &str)
        ensures
            final(self)@ == put(
                old(self)@,
                key_name(Key::ScriptUpdatedBy),
                ValueView::Str(script_updated_by@),
            ),
    {
        self.add_property(
            Key::ScriptUpdatedBy.name(),
            Value::Str(String::from_str(script_updated_by)),
        );
    }

    /// Who updated the script, where it is set to a text.
    pub fn get_script_updated_by(&self) -> (r: Option<&str>)
        ensures
            match r {
                Some(s) => str_at(self@, key_name(Key::ScriptUpdatedBy)) == Some(s@),
                None => str_at(self@, key_name(Key::ScriptUpdatedBy)) is None,
            },
    {
        self.get_str(Key::ScriptUpdatedBy)
    }

    /// Sets what the update changed.
    pub fn set_update_details(&mut self, update_details: &str)
        ensures
            final(self)@ == put(
                old(self)@,
                key_name(Key::UpdateDetails),
                ValueView::Str(update_details@),
            ),
    {
        self.add_property(Key::UpdateDetails.name(), Value::Str(String::from_str(update_details)));
    }

    /// What the update changed, where it is set to a text.
    pub fn get_update_details(&self) -> (r: Option<&str>)
        ensures
            match r {
                Some(s) => str_at(self@, key_name(Key::UpdateDetails)) == Some(s@),
                None => str_at(self@, key_name(Key::UpdateDetails)) is None,
            },
    {
        self.get_str(Key::UpdateDetails)
    }

    /// Sets the script type, which is kept as the text it is written as.
    pub fn set_script_type(&mut self, script_type: ScriptType)
        ensures
            final(self)@ == put(
                old(self)@,
                key_name(Key::ScriptType),
                ValueView::Str(script_type_name(script_type)),
            ),
    {
        self.add_property(Key::ScriptType.name(), Value::Str(script_type.to_string()));
    }

    /// The script type, where the property is set to the text of one.
    pub fn get_script_type(&self) -> (r: Option<ScriptType>)
        ensures
            r == (match str_at(self@, key_name(Key::ScriptType)) {
                Some(s) => match script_type_of(s) {
                    Ok(t) => Some(t),
                    Err(_) => None,
                },
                None => None,
            }),
    {
        match self.get_str(Key::ScriptType) {
            Some(s) => match ScriptType::parse(s) {
                Ok(t) => Some(t),
                Err(_) => None,
            },
            None => None,
        }
    }

    /// Sets the collision mode, which is kept as the text it is written as.
    pub fn set_collisions(&mut self, collisions: Collisions)
        ensures
            final(self)@ == put(
                old(self)@,
                key_name(Key::Collisions),
                ValueView::Str(collisions_name(collisions)),
            ),
    {
        self.add_property(Key::Collisions.name(), Value::Str(collisions.to_string()));
    }

    /// The collision mode, where the property is set to the text of one.
    pub fn get_collisions(&self) -> (r: Option<Collisions>)
        ensures
            r == (match str_at(self@, key_name(Key::Collisions)) {
                Some(s) => match collisions_of(s) {
                    Ok(c) => Some(c),
                    Err(_) => None,
                },
                None => None,
            }),
    {
        match self.get_str(Key::Collisions) {
            Some(s) => match Collisions::parse(s) {
                Ok(c) => Some(c),
                Err(_) => None,
            },
            None => None,
        }
    }

    /// Sets the height of the screen the script was made for.
    pub fn set_play_res_y(&mut self, play_res_y: i64)
        ensures
            final(self)@ == put(old(self)@, key_name(Key::PlayResY), ValueView::Int(play_res_y)),
    {
        self.add_property(Key::PlayResY.name(), Value::Int(play_res_y));
    }

    /// The height of the screen the script was made for, where it is set to an integer.
    pub fn get_play_res_y(&self) -> (r: Option<i64>)
        ensures
            r == int_at(self@, key_name(Key::PlayResY)),
    {
        self.get_int(Key::PlayResY)
    }

    /// Sets the width of the screen the script was made for.
    pub fn set_play_res_x(&mut self, play_res_x: i64)
        ensures
            final(self)@ == put(old(self)@, key_name(Key::PlayResX), ValueView::Int(play_res_x)),
    {
        self.add_property(Key::PlayResX.name(), Value::Int(play_res_x));
    }

    /// The width of the screen the script was made for, where it is set to an integer.
    pub fn get_play_res_x(&self) -> (r: Option<i64>)
        ensures
            r == int_at(self@, key_name(Key::PlayResX)),
    {
        self.get_int(Key::PlayResX)
    }

    /// Sets the colour depth the script was made for.
    pub fn set_play_depth(&mut self, play_depth: i64)
        ensures
            final(self)@ == put(old(self)@, key_name(Key::PlayDepth), ValueView::Int(play_depth)),
    {
        self.add_property(Key::PlayDepth.name(), Value::Int(play_depth));
    }

    /// The colour depth the script was made for, where it is set to an integer.
    pub fn get_play_depth(&self) -> (r: Option<i64>)
        ensures
            r == int_at(self@, key_name(Key::PlayDepth)),
    {
        self.get_int(Key::PlayDepth)
    }

    /// Sets how long lines are wrapped.
    pub fn set_wrap_style(&mut self, wrap_style: i64)
        ensures
            final(self)@ == put(old(self)@, key_name(Key::WrapStyle), ValueView::Int(wrap_style)),
    {
        self.add_property(Key::WrapStyle.name(), Value::Int(wrap_style));
    }

    /// How long lines are wrapped, where it is set to an integer.
    pub fn get_wrap_style(&self) -> (r: Option<i64>)
        ensures
            r == int_at(self@, key_name(Key::WrapStyle)),
    {
        self.get_int(Key::WrapStyle)
    }

    /// Sets the speed of the timer, in percent.
    pub fn set_timer(&mut self, timer: FloatText)
        ensures
            final(self)@ == put(old(self)@, key_name(Key::Timer), ValueView::Float(timer@)),
    {
        self.add_property(Key::Timer.name(), Value::Float(timer));
    }

    /// The speed of the timer, where it is set to a number.
    pub fn get_timer(&self) -> (r: Option<&FloatText>)
        ensures
            match r {
                Some(f) => value_of(self@, key_name(Key::Timer)) == Some(ValueView::Float(f@)),
                None => !(value_of(self@, key_name(Key::Timer)) is Some && value_of(
                    self@,
                    key_name(Key::Timer),
                )->0 is Float),
            },
    {
        match self.get_property(Key::Timer.name()) {
            Some(v) => v.as_float(),
            None => None,
        }
    }

    /// Sets whether borders and shadows are scaled with the screen.
    pub fn set_scaled_border_and_shadow(&mut self, scaled_border_and_shadow: bool)
        ensures
            final(self)@ == put(
                old(self)@,
                key_name(Key::ScaledBorderAndShadow),
                ValueView::Boolean(scaled_border_and_shadow),
            ),
    {
        self.add_property(
            Key::ScaledBorderAndShadow.name(),
            Value::Boolean(scaled_border_and_shadow),
        );
    }

    /// Whether borders and shadows are scaled with the screen, where that is
    /// set.
    pub fn get_scaled_border_and_shadow(&self) -> (r: Option<bool>)
        ensures
            r == (match value_of(self@, key_name(Key::ScaledBorderAndShadow)) {
                Some(ValueView::Boolean(b)) => Some(b),
                _ => None,
            }),
    {
        match self.get_property(Key::ScaledBorderAndShadow.name()) {
            Some(v) => v.as_bool(),
            None => None,
        }
    }
}

} // verus!
