//! The options of a cleanup run.
use vstd::prelude::*;

verus! {

/// The options of a cleanup run: the repository root and the log level name.
pub struct Args {
    /// Root directory of the repository to clean.
    pub path: String,
    /// Name of the log level, such as `INFO` or `DEBUG`.
    pub level: String,
}

} // verus!
