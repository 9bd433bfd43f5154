//! Analyzer for command-line binaries: bounded probing, help-text
//! parsing, option-type inference, recursive subcommand discovery and
//! no-arguments behavior classification.
//!
//! The library never touches the filesystem and never spawns a process
//! itself: callers run the probes it plans and hand back plain values.

pub mod analyzer;
pub mod cli;
pub mod config;
pub mod generator;
pub mod reporter;
pub mod runner;
pub mod error;
pub mod text;
pub mod types;
pub mod utils;
