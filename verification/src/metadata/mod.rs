//! Package metadata: groups of packages, package names, and the entries of
//! a metadata file.

pub mod group;
pub mod id;
pub mod package;
pub mod package_id;

use vstd::prelude::*;

verus! {

/// The entries of a metadata file: the sources a package is built from
/// and the packages it depends on.
#[derive(Clone, Debug)]
#[non_exhaustive]
pub struct Metadata {
    pub source: Vec<String>,
    pub depend: Vec<String>,
}

impl Metadata {
    /// The entries `source` and `depend`.
    pub fn new(source: Vec<String>, depend: Vec<String>) -> (m: Metadata)
        ensures
            m.source == source,
            m.depend == depend,
    {
        Metadata { source, depend }
    }
}

} // verus!
