//! Groups (repositories) of packages.

use vstd::prelude::*;

use crate::pattern::{regex_matches, Pattern};

verus! {

/// A group, or repository, of packages.
#[derive(Clone, Debug, PartialEq, Eq, Hash, PartialOrd, Ord)]
pub struct Group {
    id: String,
}

impl View for Group {
    type V = Seq<char>;

    closed spec fn view(&self) -> Seq<char> {
        self.id@
    }
}

impl Group {
    /// The group named `group`.
    pub fn new(group: String) -> (r: Group)
        ensures
            r@ == group@,
    {
        Group { id: group }
    }

    /// Whether the pattern matches somewhere in the name.
    pub fn matches(&self, regex: &Pattern) -> (r: bool)
        ensures
            r == regex_matches(regex@, self@),
    {
        regex.is_match(self.id.as_str())
    }

    /// The name.
    pub fn as_str(&self) -> (s: &str)
        ensures
            s@ == self@,
    {
        self.id.as_str()
    }
}

} // verus!
