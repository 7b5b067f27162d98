//! A tag as GitHub lists it.

use vstd::prelude::*;

verus! {

/// A tag of a GitHub repository.
#[derive(Debug)]
pub struct Tag {
    pub name: Option<String>,
    pub zipball_url: Option<String>,
    pub tarball_url: Option<String>,
    pub commit: Option<Commit>,
}

/// The commit a GitHub tag points to.
#[derive(Debug)]
pub struct Commit {
    pub sha: Option<String>,
    pub url: Option<String>,
}

} // verus!
