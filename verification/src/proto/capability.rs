//! Capability grants in wire form.

use vstd::prelude::*;

verus! {

/// A capability grant as it stands on the wire, for example `fs.read(/proj)`.
#[derive(Debug, PartialEq, Eq, Hash)]
pub struct Capability(pub String);

impl View for Capability {
    type V = Seq<char>;

    open spec fn view(&self) -> Seq<char> {
        self.0@
    }
}

impl Clone for Capability {
    fn clone(&self) -> (r: Self)
        ensures
            r == *self,
    {
        Capability(self.0.clone())
    }
}

impl Capability {
    /// Borrow the grant as a string slice.
    pub fn as_str(&self) -> (r: &str)
        ensures
            r@ == self@,
    {
        self.0.as_str()
    }
}

/// The grants of a list, each by its text.
pub open spec fn grant_texts(caps: Seq<Capability>) -> Seq<Seq<char>> {
    Seq::new(caps.len(), |i: int| caps[i]@)
}

} // verus!
