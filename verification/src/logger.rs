//! How much the program says, by how often it was asked to say more.

use vstd::prelude::*;

verus! {

/// The least severe kind of message that is still shown.
#[derive(Clone, Copy, Debug, PartialEq, Eq, Structural)]
pub enum LevelFilter {
    Warn,
    Info,
    Trace,
}

/// The filter for a verbosity: warnings when nothing was asked for, notices
/// when asked once, everything when asked more often.
pub fn level_filter(verbosity: u64) -> (level: LevelFilter)
    ensures
        level == if verbosity == 0 {
            LevelFilter::Warn
        } else if verbosity == 1 {
            LevelFilter::Info
        } else {
            LevelFilter::Trace
        },
{
    match verbosity {
        0 => LevelFilter::Warn,
        1 => LevelFilter::Info,
        _ => LevelFilter::Trace,
    }
}

} // verus!
