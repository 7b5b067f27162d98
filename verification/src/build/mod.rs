//! Building packages: compiler flags, build-system detection and the
//! commands that build and install a package.

pub mod compiler;
pub mod process;
pub mod autotools;
pub mod configs;
pub mod steps;
pub mod toolchain;
pub mod resolve;
pub mod layout;
pub mod sources;
