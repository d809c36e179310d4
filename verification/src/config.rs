//! The decisions that configuration takes from plain text.

use crate::text::text_equal;
use vstd::prelude::*;

verus! {

/// How much the server logs: nothing, or everything from the given severity
/// upwards.
#[derive(Clone, Copy, Debug, PartialEq, Eq, Structural)]
pub enum LogLevel {
    Off,
    Error,
    Warn,
    Info,
    Debug,
    Trace,
}

/// The level that a name stands for. Names are lower case; any other text
/// names no level.
pub open spec fn named_level(name: Seq<char>) -> Option<LogLevel> {
    if name == "trace"@ {
        Some(LogLevel::Trace)
    } else if name == "debug"@ {
        Some(LogLevel::Debug)
    } else if name == "info"@ {
        Some(LogLevel::Info)
    } else if name == "warn"@ {
        Some(LogLevel::Warn)
    } else if name == "error"@ {
        Some(LogLevel::Error)
    } else if name == "off"@ {
        Some(LogLevel::Off)
    } else {
        None
    }
}

impl LogLevel {
    /// The level that a name stands for, if it names one.
    pub fn from_name(name: &str) -> (level: Option<LogLevel>)
        ensures
            level == named_level(name@),
    {
        if text_equal(name, "trace") {
            Some(LogLevel::Trace)
        } else if text_equal(name, "debug") {
            Some(LogLevel::Debug)
        } else if text_equal(name, "info") {
            Some(LogLevel::Info)
        } else if text_equal(name, "warn") {
            Some(LogLevel::Warn)
        } else if text_equal(name, "error") {
            Some(LogLevel::Error)
        } else if text_equal(name, "off") {
            Some(LogLevel::Off)
        } else {
            None
        }
    }

    /// The level to log at for a configured name: the level it names, and
    /// `Info` where it names none.
    pub fn or_default(name: &str) -> (level: LogLevel)
        ensures
            level == match named_level(name@) {
                Some(named) => named,
                None => LogLevel::Info,
            },
    {
        match LogLevel::from_name(name) {
            Some(named) => named,
            None => LogLevel::Info,
        }
    }
}

} // verus!
