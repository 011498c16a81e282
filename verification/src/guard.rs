//! The duplicate guard: refuses a candidate post-at instant that collides
//! with an already-scheduled message or with the batch under construction.

use vstd::prelude::*;
use crate::api::ScheduledMessageObject;
use crate::datetime::DateTime;
use crate::errors::ScheduleError;

verus! {

/// A remote collision: some already-scheduled message posts on the same
/// calendar day as the candidate.
pub open spec fn remote_dup(cand: DateTime, scheduled: Seq<ScheduledMessageObject>) -> bool {
    exists|i: int| 0 <= i < scheduled.len() && scheduled[i].post_at.day == cand.day
}

/// A local collision: the batch under construction already contains the very
/// same instant.
pub open spec fn local_dup(cand: DateTime, in_progress: Seq<DateTime>) -> bool {
    exists|i: int| 0 <= i < in_progress.len() && in_progress[i] == cand
}

/// The outcome `check_duplicate` owes for a candidate: a remote collision
/// outweighs a local one, and only a collision-free candidate passes.
pub open spec fn duplicate_verdict(
    cand: DateTime,
    scheduled: Seq<ScheduledMessageObject>,
    in_progress: Seq<DateTime>,
) -> Result<(), ScheduleError> {
    if remote_dup(cand, scheduled) {
        Err(ScheduleError::AlreadyScheduledRemote)
    } else if local_dup(cand, in_progress) {
        Err(ScheduleError::AlreadyScheduledLocal)
    } else {
        Ok(())
    }
}

/// Checks a candidate post-at instant against the already-scheduled messages
/// (same calendar day collides) and against the instants of the current batch
/// (same instant collides).
pub fn check_duplicate(
    candidate: &DateTime,
    already_scheduled: &Vec<ScheduledMessageObject>,
    in_progress: &Vec<DateTime>,
) -> (r: Result<(), ScheduleError>)
    ensures
        r == duplicate_verdict(*candidate, already_scheduled@, in_progress@),
{
    let mut i: usize = 0;
    while i < already_scheduled.len()
        invariant
            i <= already_scheduled@.len(),
            forall|k: int| 0 <= k < i ==> already_scheduled@[k].post_at.day != candidate.day,
        decreases already_scheduled@.len() - i,
    {
        if already_scheduled[i].date() == candidate.day {
            assert(remote_dup(*candidate, already_scheduled@));
            return Err(ScheduleError::AlreadyScheduledRemote);
        }
        i = i + 1;
    }
    let mut j: usize = 0;
    while j < in_progress.len()
        invariant
            j <= in_progress@.len(),
            !remote_dup(*candidate, already_scheduled@),
            forall|k: int| 0 <= k < j ==> in_progress@[k] != *candidate,
        decreases in_progress@.len() - j,
    {
        if in_progress[j] == *candidate {
            assert(local_dup(*candidate, in_progress@));
            return Err(ScheduleError::AlreadyScheduledLocal);
        }
        j = j + 1;
    }
    Ok(())
}

} // verus!
