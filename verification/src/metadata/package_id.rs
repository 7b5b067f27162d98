//! Package identifiers of metadata, taken as they are written.

use vstd::prelude::*;

verus! {

/// A package identifier, not checked.
#[derive(Clone, Debug, PartialEq, Eq, Hash, PartialOrd, Ord)]
pub struct PackageId {
    repr: String,
}

impl View for PackageId {
    type V = Seq<char>;

    closed spec fn view(&self) -> Seq<char> {
        self.repr@
    }
}

impl PackageId {
    /// The identifier `id`.
    pub fn new(id: String) -> (r: PackageId)
        ensures
            r@ == id@,
    {
        PackageId { repr: id }
    }

    /// The identifier's text.
    pub fn as_str(&self) -> (s: &str)
        ensures
            s@ == self@,
    {
        self.repr.as_str()
    }
}

} // verus!
