//! Run-time settings of the filter.

use vstd::prelude::*;

verus! {

/// How much the filter logs.
#[derive(Debug, Clone, Copy)]
pub enum LogLevel {
    Trace,
    Debug,
    Info,
    Warn,
    Error,
}

/// Settings given on the command line.
#[derive(Debug, Clone)]
pub struct Config {
    /// Host name written in the `Authentication-Results` header.
    pub hostname: String,
    /// Whether messages that fail a check are rejected at commit.
    pub reject_on_fail: bool,
    /// The message sent with a rejection.
    pub reject_message: String,
    /// How much is logged.
    pub log_level: LogLevel,
}

} // verus!
