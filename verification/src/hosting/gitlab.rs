//! A tag as GitLab lists it.

use vstd::prelude::*;

verus! {

/// A tag of a GitLab repository.
#[derive(Debug)]
pub struct Tag {
    pub commit: Option<Commit>,
    pub release: Option<Release>,
    pub name: Option<String>,
    pub target: Option<String>,
    pub message: Option<String>,
    pub protected: Option<bool>,
}

/// The commit a GitLab tag points to.
#[derive(Debug)]
pub struct Commit {
    pub id: Option<String>,
    pub short_id: Option<String>,
    pub title: Option<String>,
    pub created_at: Option<String>,
    pub parent_ids: Vec<String>,
    pub message: Option<String>,
    pub author_name: Option<String>,
    pub author_email: Option<String>,
    pub authored_date: Option<String>,
    pub comitter_name: Option<String>,
    pub comitter_email: Option<String>,
    pub comitted_date: Option<String>,
}

/// The release of a GitLab tag.
#[derive(Debug)]
pub struct Release {
    pub tag_name: Option<String>,
    pub description: Option<String>,
}

} // verus!
