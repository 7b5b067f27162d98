//! Package names.

use vstd::prelude::*;

use crate::pattern::{regex_matches, Pattern};

verus! {

/// The name of a package.
#[derive(Clone, Debug, PartialEq, Eq, Hash, PartialOrd, Ord)]
pub struct Package {
    id: String,
}

impl View for Package {
    type V = Seq<char>;

    closed spec fn view(&self) -> Seq<char> {
        self.id@
    }
}

impl Package {
    /// The package named `name`.
    pub fn new(name: String) -> (r: Package)
        ensures
            r@ == name@,
    {
        Package { id: name }
    }

    /// Whether the pattern matches somewhere in the name.
    pub fn matches(&self, regex: &Pattern) -> (r: bool)
        ensures
            r == regex_matches(regex@, self@),
    {
        regex.is_match(self.id.as_str())
    }

    /// The name.
    pub fn as_str(&self) -> (s: &str)
        ensures
            s@ == self@,
    {
        self.id.as_str()
    }
}

} // verus!
