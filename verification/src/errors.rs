//! Error taxonomy of the scheduling core.

use vstd::prelude::*;

verus! {

/// Outcome of resolving, guarding or selecting for one target date.
#[derive(Clone, Copy, Debug, PartialEq, Eq, Structural)]
pub enum ScheduleError {
    /// The user-supplied date string could not be parsed.
    InvalidDateFormat,
    /// An explicit post-on date does not lie strictly before the target date.
    SchedulingOrderViolation,
    /// The computed post-at instant is not in the future.
    PastDeadline,
    /// A message is already scheduled remotely on the same calendar date.
    AlreadyScheduledRemote,
    /// The current batch already contains the same post-at instant.
    AlreadyScheduledLocal,
    /// The roster is empty or fully excluded.
    NoMemberAvailable,
}

/// Coarse process-level failures, as surfaced to the command line.
#[derive(Clone, Copy, Debug, PartialEq, Eq, Structural)]
pub enum SlackRError {
    TooLate,
    AlreadyScheduled,
    NoMemberToSelect,
    CorruptedConfig,
    WriteConfig,
}

} // verus!
