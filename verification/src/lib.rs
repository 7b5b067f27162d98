//! A package manager's core: target triples, identifiers, atoms, sources,
//! versions, package indexes and build planning.

pub mod text;
pub mod triple;
pub mod pattern;
pub mod id;
pub mod source;
pub mod version;
pub mod atom;
pub mod command;
pub mod build;
pub mod environment;
pub mod packages;
pub mod manifest;
pub mod bimap;
pub mod cmake;
pub mod autotools_commands;
pub mod metadata;
pub mod hosting;
pub mod collections;
pub mod theme;
pub mod config;
pub mod sync;
pub mod download;
pub mod numbers;
pub mod versions;
pub mod sources;
