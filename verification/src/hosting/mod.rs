//! What the hosting services answer about the tags of a repository.

pub mod github;
pub mod gitlab;
