//! Opaque protocol identifiers.

use vstd::prelude::*;

verus! {

/// Opaque session identifier (for example `s_91`). The inner text is not parsed.
#[derive(Debug, PartialEq, Eq, Hash)]
pub struct SessionId(pub String);

impl View for SessionId {
    type V = Seq<char>;

    open spec fn view(&self) -> Seq<char> {
        self.0@
    }
}

impl Clone for SessionId {
    fn clone(&self) -> (r: Self)
        ensures
            r == *self,
    {
        SessionId(self.0.clone())
    }
}

impl SessionId {
    /// Borrow the identifier as a string slice.
    pub fn as_str(&self) -> (r: &str)
        ensures
            r@ == self@,
    {
        self.0.as_str()
    }
}

/// Opaque job identifier (for example `j_5`). The inner text is not parsed.
#[derive(Debug, PartialEq, Eq, Hash)]
pub struct JobId(pub String);

impl View for JobId {
    type V = Seq<char>;

    open spec fn view(&self) -> Seq<char> {
        self.0@
    }
}

impl Clone for JobId {
    fn clone(&self) -> (r: Self)
        ensures
            r == *self,
    {
        JobId(self.0.clone())
    }
}

impl JobId {
    /// Borrow the identifier as a string slice.
    pub fn as_str(&self) -> (r: &str)
        ensures
            r@ == self@,
    {
        self.0.as_str()
    }
}

} // verus!
