//! Which events belong in the protocol log.

use vstd::prelude::*;

use crate::text::{chars_of, has_prefix, starts_with};

verus! {

/// How detailed an event is.
#[derive(Debug, Clone, Copy, PartialEq, Eq, Structural)]
pub enum Level {
    Error,
    Warn,
    Info,
    Debug,
    Trace,
}

/// Whether an event reaches the log file while it is on: events of this tool and
/// of the transport below it, down to debug, where the transport logs every
/// payload. Trace, and everybody else, stay out.
pub open spec fn is_wanted(target: Seq<char>, level: Level) -> bool {
    level != Level::Trace && (starts_with(target, "mqb_"@) || starts_with(target, "automotive"@))
}

/// Whether an event reaches the log file while it is on.
pub fn wanted(target: &str, level: Level) -> (r: bool)
    ensures
        r == is_wanted(target@, level),
{
    let chars = chars_of(target);
    level != Level::Trace && (has_prefix(&chars, "mqb_") || has_prefix(&chars, "automotive"))
}

/// What the log file becomes when logging is switched.
#[derive(Debug, Clone, Copy, PartialEq, Eq, Structural)]
pub enum Switch {
    /// Stop, and close the file if one is open.
    Close,
    /// Open a file, mark where the run starts, then log.
    Open,
    /// Log to the file that is already open.
    Reuse,
}

/// What switching the log does. Switching it on twice reuses the open file, so
/// that it does not restart the log.
pub fn switch(on: bool, open: bool) -> (r: Switch)
    ensures
        r == (if !on {
            Switch::Close
        } else if open {
            Switch::Reuse
        } else {
            Switch::Open
        }),
{
    if !on {
        Switch::Close
    } else if open {
        Switch::Reuse
    } else {
        Switch::Open
    }
}

} // verus!
