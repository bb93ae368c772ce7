//! The values that the fields of a script hold.

use crate::events::effect::{effect_text, Effect, EffectView};
use crate::events::text::Text;
use crate::float_text::FloatText;
use crate::num::{dec_int, push_int};
use crate::text::{join, join_strings, texts, to_text};
use crate::timecode::{format_duration, timecode_text, Duration};
use vstd::prelude::*;
use vstd::string::*;

verus! {

/// What a field or a property holds.
#[derive(Debug)]
pub enum Value {
    Str(String),
    Int(i64),
    Float(FloatText),
    Boolean(bool),
    List(Vec<Value>),
    Duration(Duration),
    Effect(Effect),
    Text(Text),
}

/// A [`Value`] with its texts as sequences of characters. Two values are the
/// same value where their views are equal: values of different variants never
/// are.
pub enum ValueView {
    Str(Seq<char>),
    Int(i64),
    Float(Seq<char>),
    Boolean(bool),
    List(Seq<ValueView>),
    Duration(Duration),
    Effect(EffectView),
    Text(Seq<char>),
}

/// The view of `v`.
pub open spec fn value_view(v: Value) -> ValueView
    decreases v,
{
    match v {
        Value::Str(s) => ValueView::Str(s@),
        Value::Int(i) => ValueView::Int(i),
        Value::Float(f) => ValueView::Float(f@),
        Value::Boolean(b) => ValueView::Boolean(b),
        Value::List(l) => ValueView::List(
            Seq::new(
                l.len() as nat,
                |i: int|
                    if 0 <= i < l.len() {
                        value_view(l[i])
                    } else {
                        ValueView::Boolean(false)
                    },
            ),
        ),
        Value::Duration(d) => ValueView::Duration(d),
        Value::Effect(e) => ValueView::Effect(e@),
        Value::Text(t) => ValueView::Text(t@),
    }
}

impl View for Value {
    type V = ValueView;

    open spec fn view(&self) -> ValueView {
        value_view(*self)
    }
}

/// The views of the values of `l`.
pub open spec fn value_views(l: Seq<Value>) -> Seq<ValueView> {
    Seq::new(l.len(), |i: int| l[i]@)
}

/// The view of a list is the list of the views.
pub proof fn lemma_list_view(l: Vec<Value>)
    ensures
        Value::List(l)@ == ValueView::List(value_views(l@)),
{
    let v = Value::List(l);
    let a = v@->List_0;
    assert(a.len() == l@.len());
    assert forall|i: int| 0 <= i < a.len() implies a[i] == value_views(l@)[i] by {
        assert(a[i] == l[i]@);
        assert(l[i] == l@[i]);
    }
    assert(a =~= value_views(l@));
}

/// The text that stands for the value `v` in a script. A list is written in
/// square brackets, its items separated by a comma and a space.
pub open spec fn value_text(v: ValueView) -> Seq<char>
    decreases v,
{
    match v {
        ValueView::Str(s) => s,
        ValueView::Int(i) => dec_int(i as int),
        ValueView::Float(f) => f,
        ValueView::Boolean(b) => if b {
            "true"@
        } else {
            "false"@
        },
        ValueView::List(l) => seq!['['] + join(value_texts(l), ", "@) + seq![']'],
        ValueView::Duration(d) => timecode_text(d.millis as nat),
        ValueView::Effect(e) => effect_text(e),
        ValueView::Text(t) => t,
    }
}

/// The texts of the values of `l`, in their order.
pub open spec fn value_texts(l: Seq<ValueView>) -> Seq<Seq<char>>
    decreases l,
{
    if l.len() == 0 {
        Seq::empty()
    } else {
        value_texts(l.drop_last()).push(value_text(l.last()))
    }
}

impl ValueView {
    /// The text that stands for the value in a script.
    pub open spec fn text(self) -> Seq<char> {
        value_text(self)
    }
}

impl PartialEq for Value {
    /// Two values are equal where they are the same variant and hold the
    /// same: values of different variants never are.
    fn eq(&self, other: &Self) -> (r: bool)
        decreases self,
    {
        match (self, other) {
            (Value::Str(a), Value::Str(b)) => *a == *b,
            (Value::Int(a), Value::Int(b)) => *a == *b,
            (Value::Float(a), Value::Float(b)) => *a == *b,
            (Value::Boolean(a), Value::Boolean(b)) => *a == *b,
            (Value::List(a), Value::List(b)) => {
                proof {
                    lemma_list_view(*a);
                    lemma_list_view(*b);
                }
                if a.len() != b.len() {
                    assert(value_views(a@).len() != value_views(b@).len());
                    return false;
                }
                let mut i: usize = 0;
                while i < a.len()
                    invariant
                        i <= a.len(),
                        a.len() == b.len(),
                        *self == Value::List(*a),
                        self@ == ValueView::List(value_views(a@)),
                        other@ == ValueView::List(value_views(b@)),
                        forall|j: int| 0 <= j < i ==> a@[j]@ == b@[j]@,
                    decreases a.len() - i,
                {
                    proof {
                        assert(decreases_to!(*a => a[i as int]));
                        assert(decreases_to!(*self => self->List_0));
                    }
                    if !a[i].eq(&b[i]) {
                        assert(value_views(a@)[i as int] != value_views(b@)[i as int]);
                        return false;
                    }
                    i += 1;
                }
                assert(value_views(a@) =~= value_views(b@));
                true
            },
            (Value::Duration(a), Value::Duration(b)) => *a == *b,
            (Value::Effect(a), Value::Effect(b)) => *a == *b,
            (Value::Text(a), Value::Text(b)) => *a == *b,
            _ => false,
        }
    }
}

impl vstd::std_specs::cmp::PartialEqSpecImpl for Value {
    open spec fn obeys_eq_spec() -> bool {
        true
    }

    open spec fn eq_spec(&self, other: &Self) -> bool {
        self@ == other@
    }
}

impl Eq for Value {

}

impl From<String> for Value {
    /// The value that holds a text.
    fn from(s: String) -> (r: Value) {
        Value::Str(s)
    }
}

impl vstd::std_specs::convert::FromSpecImpl<String> for Value {
    open spec fn obeys_from_spec() -> bool {
        true
    }

    open spec fn from_spec(s: String) -> Value {
        Value::Str(s)
    }
}

impl From<i64> for Value {
    /// The value that holds an integer.
    fn from(i: i64) -> (r: Value) {
        Value::Int(i)
    }
}

impl vstd::std_specs::convert::FromSpecImpl<i64> for Value {
    open spec fn obeys_from_spec() -> bool {
        true
    }

    open spec fn from_spec(i: i64) -> Value {
        Value::Int(i)
    }
}

impl From<FloatText> for Value {
    /// The value that holds a number with a fraction.
    fn from(f: FloatText) -> (r: Value) {
        Value::Float(f)
    }
}

impl vstd::std_specs::convert::FromSpecImpl<FloatText> for Value {
    open spec fn obeys_from_spec() -> bool {
        true
    }

    open spec fn from_spec(f: FloatText) -> Value {
        Value::Float(f)
    }
}

impl From<bool> for Value {
    /// The value that holds a truth value.
    fn from(b: bool) -> (r: Value) {
        Value::Boolean(b)
    }
}

impl vstd::std_specs::convert::FromSpecImpl<bool> for Value {
    open spec fn obeys_from_spec() -> bool {
        true
    }

    open spec fn from_spec(b: bool) -> Value {
        Value::Boolean(b)
    }
}

impl From<Vec<Value>> for Value {
    /// The value that holds a list.
    fn from(l: Vec<Value>) -> (r: Value) {
        Value::List(l)
    }
}

impl vstd::std_specs::convert::FromSpecImpl<Vec<Value>> for Value {
    open spec fn obeys_from_spec() -> bool {
        true
    }

    open spec fn from_spec(l: Vec<Value>) -> Value {
        Value::List(l)
    }
}

impl From<Duration> for Value {
    /// The value that holds a duration.
    fn from(d: Duration) -> (r: Value) {
        Value::Duration(d)
    }
}

impl vstd::std_specs::convert::FromSpecImpl<Duration> for Value {
    open spec fn obeys_from_spec() -> bool {
        true
    }

    open spec fn from_spec(d: Duration) -> Value {
        Value::Duration(d)
    }
}

impl From<Effect> for Value {
    /// The value that holds an effect.
    fn from(e: Effect) -> (r: Value) {
        Value::Effect(e)
    }
}

impl vstd::std_specs::convert::FromSpecImpl<Effect> for Value {
    open spec fn obeys_from_spec() -> bool {
        true
    }

    open spec fn from_spec(e: Effect) -> Value {
        Value::Effect(e)
    }
}

impl From<Text> for Value {
    /// The value that holds the text of an event.
    fn from(t: Text) -> (r: Value) {
        Value::Text(t)
    }
}

impl vstd::std_specs::convert::FromSpecImpl<Text> for Value {
    open spec fn obeys_from_spec() -> bool {
        true
    }

    open spec fn from_spec(t: Text) -> Value {
        Value::Text(t)
    }
}

impl Clone for Value {
    fn clone(&self) -> (r: Self)
        ensures
            r@ == self@,
        decreases self,
    {
        match self {
            Value::Str(s) => Value::Str(s.clone()),
            Value::Int(i) => Value::Int(*i),
            Value::Float(f) => Value::Float(f.clone()),
            Value::Boolean(b) => Value::Boolean(*b),
            Value::List(l) => {
                let mut out: Vec<Value> = Vec::new();
                let mut i: usize = 0;
                while i < l.len()
                    invariant
                        i <= l.len(),
                        out@.len() == i,
                        *self == Value::List(*l),
                        forall|j: int| 0 <= j < i ==> out@[j]@ == l@[j]@,
                    decreases l.len() - i,
                {
                    proof {
                        assert(decreases_to!(*l => l[i as int]));
                        assert(decreases_to!(*self => self->List_0));
                    }
                    let e = l[i].clone();
                    out.push(e);
                    i += 1;
                }
                let r = Value::List(out);
                assert(r@->List_0 =~= self@->List_0);
                r
            },
            Value::Duration(d) => Value::Duration(*d),
            Value::Effect(e) => Value::Effect(e.clone()),
            Value::Text(t) => Value::Text(t.clone()),
        }
    }
}

impl Value {
    /// The text that stands for the value in a script.
    pub fn to_string(&self) -> (s: String)
        ensures
            s@ == self@.text(),
        decreases self,
    {
        match self {
            Value::Str(s) => s.clone(),
            Value::Int(i) => {
                let mut out: Vec<char> = Vec::new();
                push_int(&mut out, *i);
                assert(out@ =~= dec_int(*i as int));
                to_text(&out)
            },
            Value::Float(f) => f.to_string(),
            Value::Boolean(b) => if *b {
                String::from_str("true")
            } else {
                String::from_str("false")
            },
            Value::List(l) => {
                let mut items: Vec<String> = Vec::new();
                let mut i: usize = 0;
                let ghost views = value_views(l@);
                proof {
                    lemma_list_view(*l);
                    assert(views.take(0) =~= Seq::<ValueView>::empty());
                    assert(texts(items@) =~= Seq::<Seq<char>>::empty());
                }
                while i < l.len()
                    invariant
                        i <= l.len(),
                        *self == Value::List(*l),
                        views == value_views(l@),
                        texts(items@) == value_texts(views.take(i as int)),
                    decreases l.len() - i,
                {
                    proof {
                        assert(decreases_to!(*l => l[i as int]));
                        assert(decreases_to!(*self => self->List_0));
                    }
                    let e = l[i].to_string();
                    let ghost before = texts(items@);
                    items.push(e);
                    proof {
                        assert(views.take(i + 1).drop_last() =~= views.take(i as int));
                        assert(views.take(i + 1).last() == l@[i as int]@);
                        assert(texts(items@) =~= before.push(e@));
                    }
                    i += 1;
                }
                assert(views.take(l.len() as int) =~= views);
                let inner = join_strings(&items, ", ");
                let r = String::from_str("[").concat(inner.as_str()).concat("]");
                proof {
                    reveal_strlit("[");
                    reveal_strlit("]");
                    assert("["@ =~= seq!['[']);
                    assert("]"@ =~= seq![']']);
                }
                r
            },
            Value::Duration(d) => format_duration(d),
            Value::Effect(e) => e.to_string(),
            Value::Text(t) => t.to_string(),
        }
    }

    /// The text that the value holds, to be changed in place; `None` for
    /// a value of another variant.
    pub fn as_str_mut(&mut self) -> (r: Option<&mut String>)
        ensures
            match r {
                Some(p) => old(self)@ == ValueView::Str(p@)
                    && final(self)@ == ValueView::Str(final(p)@),
                None => !(*old(self) is Str) && *final(self) == *old(self),
            },
    {
        match self {
            Value::Str(p) => Some(p),
            _ => None,
        }
    }

    /// The integer that the value holds, to be changed in place; `None` for
    /// a value of another variant.
    pub fn as_int_mut(&mut self) -> (r: Option<&mut i64>)
        ensures
            match r {
                Some(p) => *old(self) == Value::Int(*p) && *final(self) == Value::Int(*final(p)),
                None => !(*old(self) is Int) && *final(self) == *old(self),
            },
    {
        match self {
            Value::Int(p) => Some(p),
            _ => None,
        }
    }

    /// The number that the value holds, to be changed in place; `None` for
    /// a value of another variant.
    pub fn as_float_mut(&mut self) -> (r: Option<&mut FloatText>)
        ensures
            match r {
                Some(p) => old(self)@ == ValueView::Float(p@)
                    && final(self)@ == ValueView::Float(final(p)@),
                None => !(*old(self) is Float) && *final(self) == *old(self),
            },
    {
        match self {
            Value::Float(p) => Some(p),
            _ => None,
        }
    }

    /// The truth value that the value holds, to be changed in place; `None` for
    /// a value of another variant.
    pub fn as_bool_mut(&mut self) -> (r: Option<&mut bool>)
        ensures
            match r {
                Some(p) => *old(self) == Value::Boolean(*p)
                    && *final(self) == Value::Boolean(*final(p)),
                None => !(*old(self) is Boolean) && *final(self) == *old(self),
            },
    {
        match self {
            Value::Boolean(p) => Some(p),
            _ => None,
        }
    }

    /// The list that the value holds, to be changed in place; `None` for
    /// a value of another variant.
    pub fn as_list_mut(&mut self) -> (r: Option<&mut Vec<Value>>)
        ensures
            match r {
                Some(p) => *old(self) == Value::List(*p) && *final(self) == Value::List(*final(p)),
                None => !(*old(self) is List) && *final(self) == *old(self),
            },
    {
        match self {
            Value::List(p) => Some(p),
            _ => None,
        }
    }

    /// The duration that the value holds, to be changed in place; `None` for
    /// a value of another variant.
    pub fn as_duration_mut(&mut self) -> (r: Option<&mut Duration>)
        ensures
            match r {
                Some(p) => *old(self) == Value::Duration(*p)
                    && *final(self) == Value::Duration(*final(p)),
                None => !(*old(self) is Duration) && *final(self) == *old(self),
            },
    {
        match self {
            Value::Duration(p) => Some(p),
            _ => None,
        }
    }

    /// The effect that the value holds, to be changed in place; `None` for
    /// a value of another variant.
    pub fn as_effect_mut(&mut self) -> (r: Option<&mut Effect>)
        ensures
            match r {
                Some(p) => old(self)@ == ValueView::Effect(p@)
                    && final(self)@ == ValueView::Effect(final(p)@),
                None => !(*old(self) is Effect) && *final(self) == *old(self),
            },
    {
        match self {
            Value::Effect(p) => Some(p),
            _ => None,
        }
    }

    /// The text that the value holds; `None` for a value of another variant.
    pub fn as_str(&self) -> (r: Option<&str>)
        ensures
            match r {
                Some(s) => self@ == ValueView::Str(s@),
                None => !(self is Str),
            },
    {
        match self {
            Value::Str(s) => Some(s.as_str()),
            _ => None,
        }
    }

    /// The integer that the value holds; `None` for a value of another variant.
    pub fn as_int(&self) -> (r: Option<i64>)
        ensures
            match r {
                Some(i) => *self == Value::Int(i),
                None => !(self is Int),
            },
    {
        match self {
            Value::Int(i) => Some(*i),
            _ => None,
        }
    }

    /// The number that the value holds; `None` for a value of another variant.
    pub fn as_float(&self) -> (r: Option<&FloatText>)
        ensures
            match r {
                Some(f) => *self == Value::Float(*f),
                None => !(self is Float),
            },
    {
        match self {
            Value::Float(f) => Some(f),
            _ => None,
        }
    }

    /// The truth value that the value holds; `None` for a value of another variant.
    pub fn as_bool(&self) -> (r: Option<bool>)
        ensures
            match r {
                Some(b) => *self == Value::Boolean(b),
                None => !(self is Boolean),
            },
    {
        match self {
            Value::Boolean(b) => Some(*b),
            _ => None,
        }
    }

    /// The list that the value holds; `None` for a value of another variant.
    pub fn as_list(&self) -> (r: Option<&Vec<Value>>)
        ensures
            match r {
                Some(l) => *self == Value::List(*l),
                None => !(self is List),
            },
    {
        match self {
            Value::List(l) => Some(l),
            _ => None,
        }
    }

    /// The duration that the value holds; `None` for a value of another variant.
    pub fn as_duration(&self) -> (r: Option<Duration>)
        ensures
            match r {
                Some(d) => *self == Value::Duration(d),
                None => !(self is Duration),
            },
    {
        match self {
            Value::Duration(d) => Some(*d),
            _ => None,
        }
    }

    /// The effect that the value holds; `None` for a value of another variant.
    pub fn as_effect(&self) -> (r: Option<&Effect>)
        ensures
            match r {
                Some(e) => *self == Value::Effect(*e),
                None => !(self is Effect),
            },
    {
        match self {
            Value::Effect(e) => Some(e),
            _ => None,
        }
    }
}

} // verus!
