//! How many `-v` flags select which level of logging.

use vstd::prelude::*;

verus! {

/// The levels of logging, from the least to the most verbose.
#[derive(Clone, Copy, Debug, PartialEq, Eq, Structural)]
pub enum LogVerbosity {
    Error,
    Warn,
    Info,
    Debug,
    Trace,
}

/// The position of a level, from the least verbose (0) to the most (4).
pub open spec fn verbosity_rank(v: LogVerbosity) -> nat {
    match v {
        LogVerbosity::Error => 0,
        LogVerbosity::Warn => 1,
        LogVerbosity::Info => 2,
        LogVerbosity::Debug => 3,
        LogVerbosity::Trace => 4,
    }
}

/// The level that `count` flags select: errors only with none, one level more
/// for each flag, and every message from four flags on.
pub open spec fn verbosity_of(count: u8) -> LogVerbosity {
    if count == 0 {
        LogVerbosity::Error
    } else if count == 1 {
        LogVerbosity::Warn
    } else if count == 2 {
        LogVerbosity::Info
    } else if count == 3 {
        LogVerbosity::Debug
    } else {
        LogVerbosity::Trace
    }
}

/// The level of logging for `count` occurrences of `-v`.
pub fn verbosity_for_count(count: u8) -> (v: LogVerbosity)
    ensures
        v == verbosity_of(count),
{
    match count {
        0 => LogVerbosity::Error,
        1 => LogVerbosity::Warn,
        2 => LogVerbosity::Info,
        3 => LogVerbosity::Debug,
        _ => LogVerbosity::Trace,
    }
}

/// More flags never make the logging less verbose.
pub proof fn lemma_verbosity_monotone(a: u8, b: u8)
    requires
        a <= b,
    ensures
        verbosity_rank(verbosity_of(a)) <= verbosity_rank(verbosity_of(b)),
{
}

/// Each `-v` raises the level by one, from errors only with none up to every
/// message with four or more.
pub proof fn lemma_verbosity_steps(count: u8)
    ensures
        verbosity_rank(verbosity_of(count)) == if count < 4 {
            count as nat
        } else {
            4
        },
        count == 0 ==> verbosity_of(count) == LogVerbosity::Error,
        count >= 4 ==> verbosity_of(count) == LogVerbosity::Trace,
{
}

} // verus!
