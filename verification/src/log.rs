//! Verbosity levels of the stderr logger. The level itself is held by the
//! program; these functions decide it and what it lets through.

use vstd::prelude::*;

verus! {

/// Only errors are shown.
pub const LEVEL_ERROR: i8 = -2;
/// Warnings and errors are shown.
pub const LEVEL_WARN: i8 = -1;
/// Informational messages are shown too (the default).
pub const LEVEL_INFO: i8 = 0;
/// Debug messages are shown too.
pub const LEVEL_DEBUG: i8 = 1;

/// The level for a verbosity offset from the default: `0` is info, above is
/// debug, below is quiet (only warnings at -1, only errors at -2 and below).
pub fn init(verbosity: i8) -> (level: i8)
    ensures
        level == if verbosity < LEVEL_ERROR {
            LEVEL_ERROR
        } else if verbosity > LEVEL_DEBUG {
            LEVEL_DEBUG
        } else {
            verbosity
        },
{
    if verbosity < LEVEL_ERROR {
        LEVEL_ERROR
    } else if verbosity > LEVEL_DEBUG {
        LEVEL_DEBUG
    } else {
        verbosity
    }
}

/// Whether a message of `message_level` is shown at `level`. Errors are
/// always shown.
pub fn shows(level: i8, message_level: i8) -> (b: bool)
    ensures
        b == (message_level <= LEVEL_ERROR || level >= message_level),
{
    message_level <= LEVEL_ERROR || level >= message_level
}

} // verus!
