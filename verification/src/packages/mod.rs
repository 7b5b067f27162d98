//! The packages of the repositories: each package, and an index of them by
//! repository and by identifier.

pub mod package;
pub mod set;
pub mod index;
pub mod load;
