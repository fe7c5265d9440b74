//! Per-file build and run orchestration for single-source programs.
//!
//! A source file's extension selects a language entry from a layered
//! configuration. The entry's command templates are filled in with the source
//! and artifact paths, the compile commands run unless the artifact is fresh,
//! and the run command produces the combined output.
//!
//! Everything here is a function from plain values to plain values. Reading
//! files, asking for timestamps and spawning processes is left to the caller,
//! who hands the results in and carries out the actions that come back.

pub mod cache;
pub mod cli;
pub mod config;
pub mod error;
pub mod exec;
pub mod path;
pub mod runner;
pub mod template;
pub mod text;
