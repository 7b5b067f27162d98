//! Identifiers made of ASCII characters.

use vstd::prelude::*;

verus! {

/// An identifier of ASCII characters.
pub struct Id {
    inner: String,
}

impl View for Id {
    type V = Seq<char>;

    closed spec fn view(&self) -> Seq<char> {
        self.inner@
    }
}

impl Id {
    /// The empty identifier.
    pub fn new() -> (r: Id)
        ensures
            r@ == Seq::<char>::empty(),
    {
        Id { inner: String::new() }
    }
}

} // verus!
