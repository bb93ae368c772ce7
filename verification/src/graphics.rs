//! The `[Graphics]` section: the names of the pictures that the script embeds.

use vstd::prelude::*;
use vstd::string::*;

verus! {

/// The names of the embedded pictures, in their order.
#[derive(Debug, Eq, PartialEq, Hash)]
pub struct Graphics {
    pub graphics: Vec<String>,
}

impl View for Graphics {
    type V = Seq<Seq<char>>;

    open spec fn view(&self) -> Seq<Seq<char>> {
        Seq::new(self.graphics@.len(), |i: int| self.graphics@[i]@)
    }
}

impl Graphics {
    /// No pictures.
    pub fn new() -> (r: Self)
        ensures
            r@ == Seq::<Seq<char>>::empty(),
    {
        let r = Graphics { graphics: Vec::new() };
        assert(r@ =~= Seq::empty());
        r
    }

    /// Adds the picture `file` after the pictures that are there.
    pub fn push(&mut self, file: String)
        ensures
            final(self)@ == old(self)@.push(file@),
    {
        self.graphics.push(file);
        assert(final(self)@ =~= old(self)@.push(file@));
    }

    /// The picture at `index`, counted from 0.
    pub fn get(&self, index: usize) -> (r: Option<&String>)
        ensures
            match r {
                Some(s) => index < self@.len() && s@ == self@[index as int],
                None => index >= self@.len(),
            },
    {
        if index < self.graphics.len() {
            Some(&self.graphics[index])
        } else {
            None
        }
    }

    /// The number of pictures.
    pub fn len(&self) -> (n: usize)
        ensures
            n == self@.len(),
    {
        self.graphics.len()
    }
}

impl std::ops::Deref for Graphics {
    type Target = Vec<String>;

    /// The names as a vector.
    fn deref(&self) -> (r: &Vec<String>)
        ensures
            *r == self.graphics,
    {
        &self.graphics
    }
}

impl std::ops::DerefMut for Graphics {
    /// The names as a vector, to be changed in place.
    fn deref_mut(&mut self) -> (r: &mut Vec<String>)
        ensures
            *r == old(self).graphics,
            final(self).graphics == *final(r),
    {
        &mut self.graphics
    }
}

impl Default for Graphics {
    /// No pictures.
    fn default() -> (r: Self)
        ensures
            r@ == Seq::<Seq<char>>::empty(),
    {
        Graphics::new()
    }
}

impl Clone for Graphics {
    fn clone(&self) -> (r: Self)
        ensures
            r@ == self@,
    {
        let mut graphics: Vec<String> = Vec::new();
        let mut i: usize = 0;
        while i < self.graphics.len()
            invariant
                i <= self.graphics.len(),
                graphics@.len() == i,
                forall|j: int| 0 <= j < i ==> graphics@[j]@ == self.graphics@[j]@,
            decreases self.graphics.len() - i,
        {
            graphics.push(self.graphics[i].clone());
            i += 1;
        }
        let r = Graphics { graphics };
        assert(r@ =~= self@);
        r
    }
}

} // verus!
