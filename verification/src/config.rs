//! The settings of one server.

use vstd::prelude::*;

verus! {

/// The settings that the log and the store are made from.
pub struct RudisConfig {
    /// Whether accepted write commands are recorded in the log.
    pub appendonly: bool,
    /// The log file's name.
    pub appendfilename: Option<String>,
    /// The directory of the log file; the file's path is this text directly
    /// followed by the name.
    pub dir: String,
    /// The number of databases.
    pub databases: usize,
}

} // verus!
