//! The `[Fonts]` section: the names of the fonts that the script embeds.

use vstd::prelude::*;
use vstd::string::*;

verus! {

/// The names of the embedded fonts, in their order.
#[derive(Debug, Eq, PartialEq, Hash)]
pub struct Fonts {
    pub fonts: Vec<String>,
}

impl View for Fonts {
    type V = Seq<Seq<char>>;

    open spec fn view(&self) -> Seq<Seq<char>> {
        Seq::new(self.fonts@.len(), |i: int| self.fonts@[i]@)
    }
}

impl Fonts {
    /// No fonts.
    pub fn new() -> (r: Self)
        ensures
            r@ == Seq::<Seq<char>>::empty(),
    {
        let r = Fonts { fonts: Vec::new() };
        assert(r@ =~= Seq::empty());
        r
    }

    /// Adds the font `font` after the fonts that are there.
    pub fn push(&mut self, font: String)
        ensures
            final(self)@ == old(self)@.push(font@),
    {
        self.fonts.push(font);
        assert(final(self)@ =~= old(self)@.push(font@));
    }

    /// The font at `index`, counted from 0.
    pub fn get(&self, index: usize) -> (r: Option<&String>)
        ensures
            match r {
                Some(s) => index < self@.len() && s@ == self@[index as int],
                None => index >= self@.len(),
            },
    {
        if index < self.fonts.len() {
            Some(&self.fonts[index])
        } else {
            None
        }
    }

    /// The number of fonts.
    pub fn len(&self) -> (n: usize)
        ensures
            n == self@.len(),
    {
        self.fonts.len()
    }
}

impl std::ops::Deref for Fonts {
    type Target = Vec<String>;

    /// The names as a vector.
    fn deref(&self) -> (r: &Vec<String>)
        ensures
            *r == self.fonts,
    {
        &self.fonts
    }
}

impl std::ops::DerefMut for Fonts {
    /// The names as a vector, to be changed in place.
    fn deref_mut(&mut self) -> (r: &mut Vec<String>)
        ensures
            *r == old(self).fonts,
            final(self).fonts == *final(r),
    {
        &mut self.fonts
    }
}

impl Default for Fonts {
    /// No fonts.
    fn default() -> (r: Self)
        ensures
            r@ == Seq::<Seq<char>>::empty(),
    {
        Fonts::new()
    }
}

impl Clone for Fonts {
    fn clone(&self) -> (r: Self)
        ensures
            r@ == self@,
    {
        let mut fonts: Vec<String> = Vec::new();
        let mut i: usize = 0;
        while i < self.fonts.len()
            invariant
                i <= self.fonts.len(),
                fonts@.len() == i,
                forall|j: int| 0 <= j < i ==> fonts@[j]@ == self.fonts@[j]@,
            decreases self.fonts.len() - i,
        {
            fonts.push(self.fonts[i].clone());
            i += 1;
        }
        let r = Fonts { fonts };
        assert(r@ =~= self@);
        r
    }
}

} // verus!
