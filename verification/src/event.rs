//! Message levels of the command line's event output.

use vstd::prelude::*;

verus! {

/// Severity of a message event.
#[derive(Debug, Clone, Copy, PartialEq, Eq, Structural)]
pub enum MessageLevel {
    Info,
    Warn,
    Error,
}

impl MessageLevel {
    /// "info", "warn" or "error".
    pub fn as_str(self) -> (r: &'static str)
        ensures
            r == match self {
                MessageLevel::Info => "info",
                MessageLevel::Warn => "warn",
                MessageLevel::Error => "error",
            },
    {
        match self {
            MessageLevel::Info => "info",
            MessageLevel::Warn => "warn",
            MessageLevel::Error => "error",
        }
    }
}

} // verus!
