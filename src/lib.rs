//! Pruning of stale artifacts from a Maven-style local repository.
//!
//! The traversal worklist, the rule that decides which files are deleted and
//! the byte accounting are verified here; the caller performs the file system
//! work and reports what happened.
pub mod args;
pub mod cleanup;
pub mod paths;
pub mod rules;
pub mod size;
pub mod text;

pub use args::Args;
