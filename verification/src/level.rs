//! Ordered severity levels and the verbosity table that maps a `-v` count to
//! a (global, own-target) pair of minimum levels.

use vstd::prelude::*;

verus! {

/// Severity of an event or span, ordered `Trace < Debug < Info < Warn < Error`.
#[derive(Clone, Copy, Debug, PartialEq, Eq, Structural)]
pub enum Level {
    Trace,
    Debug,
    Info,
    Warn,
    Error,
}

impl Level {
    /// Rank in the total order: `Trace` is 0, `Error` is 4.
    pub open spec fn rank(self) -> int {
        match self {
            Level::Trace => 0,
            Level::Debug => 1,
            Level::Info => 2,
            Level::Warn => 3,
            Level::Error => 4,
        }
    }

    /// `true` iff `self` is at most as severe as `other`.
    pub fn le(self, other: Level) -> (r: bool)
        ensures
            r == (self.rank() <= other.rank()),
    {
        self.rank_exec() <= other.rank_exec()
    }

    /// Executable rank, equal to the specification rank.
    pub fn rank_exec(self) -> (r: u8)
        ensures
            r as int == self.rank(),
    {
        match self {
            Level::Trace => 0,
            Level::Debug => 1,
            Level::Info => 2,
            Level::Warn => 3,
            Level::Error => 4,
        }
    }

    /// The OTLP severity text for this level.
    pub open spec fn severity_text_spec(self) -> Seq<char> {
        match self {
            Level::Trace => "TRACE"@,
            Level::Debug => "DEBUG"@,
            Level::Info => "INFO"@,
            Level::Warn => "WARN"@,
            Level::Error => "ERROR"@,
        }
    }

    /// The OTLP severity number: `{TRACE: 1, DEBUG: 5, INFO: 9, WARN: 13, ERROR: 17}`.
    pub open spec fn severity_number_spec(self) -> int {
        match self {
            Level::Trace => 1,
            Level::Debug => 5,
            Level::Info => 9,
            Level::Warn => 13,
            Level::Error => 17,
        }
    }

    /// Textual severity, e.g. `"INFO"`.
    pub fn severity_text(self) -> (r: &'static str)
        ensures
            r@ == self.severity_text_spec(),
    {
        match self {
            Level::Trace => "TRACE",
            Level::Debug => "DEBUG",
            Level::Info => "INFO",
            Level::Warn => "WARN",
            Level::Error => "ERROR",
        }
    }

    /// Numeric severity, e.g. `9` for `Info`.
    pub fn severity_number(self) -> (r: u32)
        ensures
            r as int == self.severity_number_spec(),
    {
        match self {
            Level::Trace => 1,
            Level::Debug => 5,
            Level::Info => 9,
            Level::Warn => 13,
            Level::Error => 17,
        }
    }
}

/// The fixed verbosity table: a `-v` count resolves to a pair
/// `(global minimum level, own-target minimum level)`.
pub open spec fn verbosity_levels_spec(count: u64) -> (Level, Level) {
    if count == 0 {
        (Level::Error, Level::Info)
    } else if count == 1 {
        (Level::Info, Level::Info)
    } else if count == 2 {
        (Level::Info, Level::Debug)
    } else if count == 3 {
        (Level::Info, Level::Trace)
    } else if count == 4 {
        (Level::Debug, Level::Trace)
    } else {
        (Level::Trace, Level::Trace)
    }
}

/// Resolves a verbosity count to the `(global, own-target)` minimum-level
/// pair of the fixed table: 0 maps to `(Error, Info)`, 1 to `(Info, Info)`,
/// 2 to `(Info, Debug)`, 3 to `(Info, Trace)`, 4 to `(Debug, Trace)`, and
/// every higher count to `(Trace, Trace)`.
pub fn verbosity_levels(count: u64) -> (r: (Level, Level))
    ensures
        r == verbosity_levels_spec(count),
{
    match count {
        0 => (Level::Error, Level::Info),
        1 => (Level::Info, Level::Info),
        2 => (Level::Info, Level::Debug),
        3 => (Level::Info, Level::Trace),
        4 => (Level::Debug, Level::Trace),
        _ => (Level::Trace, Level::Trace),
    }
}

} // verus!
