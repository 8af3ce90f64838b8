//! Audit of unstable compiler features across a locked dependency graph.
//!
//! The crate decides which crates of a dependency graph declare unstable
//! features that the selected compiler cannot enable, and which repair to try
//! next: another version of the offending crate, another version of one of its
//! ancestors, or another compiler. Running the build tool, the registry and the
//! package manager is left to the caller, who feeds their answers back in.

pub mod error;
pub mod command;
pub mod text;
pub mod status;
pub mod rustc_version;
pub mod version;
pub mod check_info;
pub mod build_config;
pub mod graph;
pub mod registry;
pub mod dep_manager;
pub mod wire;
pub mod extract;
pub mod audit;
pub mod cli;
pub mod diagnose;
