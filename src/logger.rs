//! Logging levels.

use vstd::prelude::*;

verus! {

/// Defines the different levels for log messages.
#[derive(PartialEq, Eq, Structural, Clone, Copy, Debug)]
pub enum LoggingLevel {
    /// Only shows errors, warnings, and launch information.
    Critical,
    /// Shows everything except debug and trace information.
    Normal,
    /// Shows everything.
    Debug,
    /// Shows nothing.
    Off,
}

/// The rank of the most verbose message level shown: 0 for none, then error,
/// warning, info, debug and trace from 1 to 5.
pub open spec fn rank_of(l: LoggingLevel) -> usize {
    match l {
        LoggingLevel::Critical => 2,
        LoggingLevel::Normal => 3,
        LoggingLevel::Debug => 5,
        LoggingLevel::Off => 0,
    }
}

impl LoggingLevel {
    /// The level chosen by the number of verbosity flags: one for normal, two
    /// for critical, three for debug, any other number for off.
    pub fn from_verbosity(n: u64) -> (r: LoggingLevel)
        ensures
            r == (if n == 1 {
                LoggingLevel::Normal
            } else if n == 2 {
                LoggingLevel::Critical
            } else if n == 3 {
                LoggingLevel::Debug
            } else {
                LoggingLevel::Off
            }),
    {
        if n == 1 {
            LoggingLevel::Normal
        } else if n == 2 {
            LoggingLevel::Critical
        } else if n == 3 {
            LoggingLevel::Debug
        } else {
            LoggingLevel::Off
        }
    }

    /// The rank of the most verbose message level that this level shows.
    pub fn filter_rank(self) -> (r: usize)
        ensures
            r == rank_of(self),
    {
        match self {
            LoggingLevel::Critical => 2,
            LoggingLevel::Normal => 3,
            LoggingLevel::Debug => 5,
            LoggingLevel::Off => 0,
        }
    }

    /// The level's name.
    pub fn name(self) -> (r: &'static str)
        ensures
            r@ == (match self {
                LoggingLevel::Critical => "critical"@,
                LoggingLevel::Normal => "normal"@,
                LoggingLevel::Debug => "debug"@,
                LoggingLevel::Off => "off"@,
            }),
    {
        match self {
            LoggingLevel::Critical => "critical",
            LoggingLevel::Normal => "normal",
            LoggingLevel::Debug => "debug",
            LoggingLevel::Off => "off",
        }
    }
}

} // verus!
