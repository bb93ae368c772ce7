//! The text of an event: what is shown on screen, override codes included.

use crate::error::Error;
use crate::parser::Parser;
use vstd::prelude::*;
use vstd::string::*;

verus! {

/// The text of an event, kept as it is written.
#[derive(Debug, Hash)]
pub struct Text(pub String);

impl PartialEq for Text {
    fn eq(&self, other: &Self) -> (r: bool) {
        self.0 == other.0
    }
}

impl vstd::std_specs::cmp::PartialEqSpecImpl for Text {
    open spec fn obeys_eq_spec() -> bool {
        true
    }

    open spec fn eq_spec(&self, other: &Self) -> bool {
        self@ == other@
    }
}

impl Eq for Text {

}

impl View for Text {
    type V = Seq<char>;

    open spec fn view(&self) -> Seq<char> {
        self.0@
    }
}

impl Clone for Text {
    fn clone(&self) -> (r: Self)
        ensures
            r@ == self@,
    {
        Text(self.0.clone())
    }
}

impl Text {
    /// The text as it is written.
    pub fn to_string(&self) -> (s: String)
        ensures
            s@ == self@,
    {
        self.0.clone()
    }
}

impl Parser for Text {
    /// Every text is the text of an event.
    fn parse(src: &str) -> (r: Result<Self, Error>)
        ensures
            r is Ok,
            r->Ok_0@ == src@,
    {
        Ok(Text(String::from_str(src)))
    }
}

} // verus!
