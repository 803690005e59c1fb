//! Severities and log events.

use vstd::prelude::*;

verus! {

/// How severe a log event is.  `Off` excludes every event; the remaining
/// levels are ordered from most severe (`Error`) to least severe (`Trace`).
#[derive(Clone, Copy, Debug, PartialEq, Eq, Structural)]
pub enum Severity {
    Off,
    Error,
    Warn,
    Info,
    Debug,
    Trace,
}

impl Severity {
    /// The position of the severity in the `Off < Error < ... < Trace`
    /// ordering; the threshold comparison of the facade goes by it.
    pub open spec fn rank_spec(self) -> int {
        match self {
            Severity::Off => 0,
            Severity::Error => 1,
            Severity::Warn => 2,
            Severity::Info => 3,
            Severity::Debug => 4,
            Severity::Trace => 5,
        }
    }

    /// Numeric rank of the severity, for threshold comparisons.
    pub fn rank(self) -> (r: u8)
        ensures
            r as int == self.rank_spec(),
    {
        match self {
            Severity::Off => 0,
            Severity::Error => 1,
            Severity::Warn => 2,
            Severity::Info => 3,
            Severity::Debug => 4,
            Severity::Trace => 5,
        }
    }
}

/// What a predicate may look at when it decides whether an event is
/// eligible: the event's severity and the namespace it came from.
pub struct Metadata {
    pub severity: Severity,
    pub source: String,
}

/// One logging call: its metadata plus the already formatted message text.
pub struct Event {
    pub metadata: Metadata,
    pub message: String,
}

} // verus!
