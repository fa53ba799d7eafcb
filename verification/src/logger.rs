//! The verbosity scale of the diagnostic output: how a count of verbosity
//! flags maps to a level. Emitting the output itself is the caller's
//! business.

use vstd::prelude::*;

verus! {

/// A verbosity level, from errors only up to full tracing.
#[derive(Clone, Copy, Debug, PartialEq, Eq, Structural)]
pub enum Level {
    Error,
    Warn,
    Info,
    Debug,
    Trace,
}

/// The level selected by a count of verbosity flags: zero shows errors
/// only, each further flag adds a level, and four or more show everything.
pub open spec fn level_of(value: u8) -> Level {
    if value == 0 {
        Level::Error
    } else if value == 1 {
        Level::Warn
    } else if value == 2 {
        Level::Info
    } else if value == 3 {
        Level::Debug
    } else {
        Level::Trace
    }
}

impl From<u8> for Level {
    fn from(value: u8) -> Self {
        match value {
            0 => Self::Error,
            1 => Self::Warn,
            2 => Self::Info,
            3 => Self::Debug,
            _ => Self::Trace,
        }
    }
}

impl vstd::std_specs::convert::FromSpecImpl<u8> for Level {
    open spec fn obeys_from_spec() -> bool {
        true
    }

    open spec fn from_spec(v: u8) -> Level {
        level_of(v)
    }
}

} // verus!
