//! The ordered verbosity scale, the process-wide verbosity configuration,
//! and the operator options that choose a level.

use vstd::prelude::*;

verus! {

/// How talkative the run is.  The scale is ordered: a message tagged with a
/// level is shown exactly when its level is at or below the configured one.
/// `Off` sits above every configurable level, so a message tagged `Off` is
/// never shown.
#[derive(Clone, Copy, Debug, Eq, PartialEq, Structural)]
pub enum Verbosity {
    Quiet2,
    Quiet,
    Normal,
    Verbose,
    Off,
}

impl Verbosity {
    /// Position of the level on the ordered scale.
    pub open spec fn rank(self) -> int {
        match self {
            Verbosity::Quiet2 => 0,
            Verbosity::Quiet => 1,
            Verbosity::Normal => 2,
            Verbosity::Verbose => 3,
            Verbosity::Off => 4,
        }
    }

    /// `self` is at or below `other` on the scale.
    pub open spec fn spec_le(self, other: Verbosity) -> bool {
        self.rank() <= other.rank()
    }

    /// Executable comparison on the scale.
    pub fn le(self, other: Verbosity) -> (r: bool)
        ensures
            r == self.spec_le(other),
    {
        self.rank_exec() <= other.rank_exec()
    }

    fn rank_exec(self) -> (r: u8)
        ensures
            r as int == self.rank(),
    {
        match self {
            Verbosity::Quiet2 => 0,
            Verbosity::Quiet => 1,
            Verbosity::Normal => 2,
            Verbosity::Verbose => 3,
            Verbosity::Off => 4,
        }
    }
}

impl Default for Verbosity {
    /// The level used when the operator asks for nothing special.
    fn default() -> (r: Verbosity)
        ensures
            r == Verbosity::Normal,
    {
        Verbosity::Normal
    }
}

/// A message tagged `level` is shown under the configured level `current`.
pub open spec fn spec_is_active(level: Verbosity, current: Verbosity) -> bool {
    level.spec_le(current)
}

/// Whether a message or echo tagged with `level` is shown when the process
/// runs at verbosity `current`.  The configuration is fixed once at startup
/// and passed explicitly to every caller.
pub fn is_active(level: Verbosity, current: Verbosity) -> (r: bool)
    ensures
        r == spec_is_active(level, current),
{
    level.le(current)
}

/// The operator's global switches, as parsed from the command line.
#[derive(Clone, Copy, Debug, Eq, PartialEq, Structural)]
pub struct Options {
    /// Record failed projects and keep running instead of aborting.
    pub keep_going: bool,
    /// How many times the quieting switch was given.
    pub quiet: u8,
    /// Whether the verbose switch was given.
    pub verbose: bool,
}

impl Options {
    /// The verbosity level the switches ask for: one step up for the verbose
    /// switch, one step down per quieting switch, saturating at the ends of
    /// the scale.
    pub open spec fn spec_verbosity(self) -> Verbosity {
        let score = (if self.verbose { 1int } else { 0int }) - self.quiet as int;
        if score >= 1 {
            Verbosity::Verbose
        } else if score == 0 {
            Verbosity::Normal
        } else if score == -1 {
            Verbosity::Quiet
        } else {
            Verbosity::Quiet2
        }
    }

    /// Turns the counted switches into a level on the scale.
    pub fn verbosity(&self) -> (r: Verbosity)
        ensures
            r == self.spec_verbosity(),
    {
        let up: i16 = if self.verbose { 1 } else { 0 };
        let score: i16 = up - (self.quiet as i16);
        if score >= 1 {
            Verbosity::Verbose
        } else if score == 0 {
            Verbosity::Normal
        } else if score == -1 {
            Verbosity::Quiet
        } else {
            Verbosity::Quiet2
        }
    }
}

impl Default for Options {
    fn default() -> (r: Options)
        ensures
            r == (Options { keep_going: false, quiet: 0u8, verbose: false }),
    {
        Options { keep_going: false, quiet: 0, verbose: false }
    }
}

/// The logging configuration computed once at startup: the fixed verbosity
/// level and whether debug records from the transport library are let
/// through.
#[derive(Clone, Copy, Debug, Eq, PartialEq, Structural)]
pub struct LogConfig {
    pub level: Verbosity,
    pub debug_enabled: bool,
}

/// Computes the logging configuration for a run: the level is stored as
/// given, and debug records are enabled exactly at `Verbose` and above.
pub fn init_logging(level: Verbosity) -> (c: LogConfig)
    ensures
        c.level == level,
        c.debug_enabled == Verbosity::Verbose.spec_le(level),
{
    LogConfig { level, debug_enabled: Verbosity::Verbose.le(level) }
}

} // verus!
