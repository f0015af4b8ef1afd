//! The core of a package manager and build driver: package identities and
//! their dependency edges, a resolver that closes a dependency list over a
//! registry, a leaves-first build order, and the command lines that mirror a
//! remote repository and drive the compiler.
//!
//! Everything here computes on plain values. Running a process or touching
//! the file system is left to the caller, which hands in what it observed and
//! carries out the steps it is given.

pub mod cargo_rustc;
pub mod dependency;
pub mod errors;
pub mod git;
pub mod graph;
pub mod location;
pub mod manifest;
pub mod package;
pub mod package_id;
pub mod paths;
pub mod process;
pub mod registry;
pub mod resolver;
pub mod source;
pub mod summary;
pub mod text;
pub mod version;
