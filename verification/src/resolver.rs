//! The date resolver: turns user input dates into target dates, and target
//! dates into post-at instants, enforcing the weekday rules.
//!
//! A target date never falls on a weekend: a Saturday is moved two days and a
//! Sunday one day forward, both to the following Monday. A computed post-at
//! instant is moved back to the Friday before when the advance-days offset
//! lands it on a weekend: two days back from a Sunday, one from a Saturday.

use vstd::prelude::*;
use crate::calendar::{self, is_weekend, weekday_index, day_index};
use crate::datetime::{DateTime, TimeOfDay};
use crate::dates::{self, date_str_ok, date_str_year, date_str_month, date_str_day};
use crate::errors::ScheduleError;

verus! {

/// The weekend rule for target dates: Saturday and Sunday move forward to
/// the following Monday.
pub open spec fn shift_target_day(day: int) -> int {
    if weekday_index(day) == 5 {
        day + 2
    } else if weekday_index(day) == 6 {
        day + 1
    } else {
        day
    }
}

/// The weekend rule for computed post-at days: Sunday and Saturday move back
/// to the Friday before.
pub open spec fn shift_post_day(day: int) -> int {
    if weekday_index(day) == 6 {
        day - 2
    } else if weekday_index(day) == 5 {
        day - 1
    } else {
        day
    }
}

/// A day shifted by the target weekend rule is a weekday.
pub proof fn lemma_shift_target_weekday(day: int)
    ensures
        !is_weekend(shift_target_day(day)),
        weekday_index(shift_target_day(day)) == if is_weekend(day) {
            0int
        } else {
            weekday_index(day)
        },
{
    vstd::arithmetic::div_mod::lemma_fundamental_div_mod(day + 5, 7);
    vstd::arithmetic::div_mod::lemma_mod_bound(day + 5, 7);
    let q = (day + 5) / 7;
    if weekday_index(day) == 5 {
        // day == 7q, so day + 2 has weekday (7(q + 1)) % 7 == 0
        lemma_mod_of_multiple_plus(q + 1, 0);
    } else if weekday_index(day) == 6 {
        // day == 7q + 1, so day + 1 has weekday (7(q + 1)) % 7 == 0
        lemma_mod_of_multiple_plus(q + 1, 0);
    }
}

/// The target weekend rule is idempotent: shifting a shifted day changes
/// nothing.
pub proof fn lemma_weekend_shift_idempotent(day: int)
    ensures
        shift_target_day(shift_target_day(day)) == shift_target_day(day),
{
    lemma_shift_target_weekday(day);
}

/// A day shifted by the post-at weekend rule is a weekday.
pub proof fn lemma_shift_post_weekday(day: int)
    ensures
        !is_weekend(shift_post_day(day)),
        weekday_index(shift_post_day(day)) == if is_weekend(day) {
            4int
        } else {
            weekday_index(day)
        },
{
    vstd::arithmetic::div_mod::lemma_fundamental_div_mod(day + 5, 7);
    vstd::arithmetic::div_mod::lemma_mod_bound(day + 5, 7);
    let q = (day + 5) / 7;
    if weekday_index(day) == 6 {
        // day == 7q + 1, so day - 2 has weekday (7q + 4) % 7 == 4
        lemma_mod_of_multiple_plus(q, 4);
    } else if weekday_index(day) == 5 {
        // day == 7q, so day - 1 has weekday (7q + 4) % 7 == 4
        lemma_mod_of_multiple_plus(q, 4);
    }
}

/// `(7q + r) % 7 == r` for a remainder below 7.
proof fn lemma_mod_of_multiple_plus(q: int, r: int)
    requires
        0 <= r < 7,
    ensures
        (7 * q + r) % 7 == r,
{
    vstd::arithmetic::div_mod::lemma_mod_multiples_vanish(q, r, 7);
    vstd::arithmetic::div_mod::lemma_small_mod(r as nat, 7);
}

/// Applies the target weekend rule to an instant, keeping its time of day.
pub fn weekend_shift(dt: &DateTime) -> (r: DateTime)
    requires
        -100_000_000 <= dt.day <= 100_000_000,
    ensures
        r.day as int == shift_target_day(dt.day as int),
        r.secs == dt.secs,
        !is_weekend(r.day as int),
{
    proof {
        lemma_shift_target_weekday(dt.day as int);
    }
    let w = calendar::weekday_index_exec(dt.day);
    if w == 5 {
        DateTime { day: dt.day + 2, secs: dt.secs }
    } else if w == 6 {
        DateTime { day: dt.day + 1, secs: dt.secs }
    } else {
        DateTime { day: dt.day, secs: dt.secs }
    }
}

/// The target date an input string resolves to: its calendar day at the
/// configured target time, weekend-shifted.
pub open spec fn resolved_target(s: Seq<char>, target_time: TimeOfDay) -> DateTime {
    DateTime {
        day: shift_target_day(day_index(date_str_year(s), date_str_month(s), date_str_day(s))) as i64,
        secs: target_time.spec_secs() as u32,
    }
}

/// The target date used when no input date is given: tomorrow at the
/// configured target time, weekend-shifted.
pub open spec fn default_target(now: DateTime, target_time: TimeOfDay) -> DateTime {
    DateTime {
        day: shift_target_day(now.day + 1) as i64,
        secs: target_time.spec_secs() as u32,
    }
}

/// Outcome of resolving one input string.
pub open spec fn target_outcome(s: Seq<char>, target_time: TimeOfDay) -> Result<
    DateTime,
    ScheduleError,
> {
    if date_str_ok(s) {
        Ok(resolved_target(s, target_time))
    } else {
        Err(ScheduleError::InvalidDateFormat)
    }
}

/// Resolves each input date string to a weekend-shifted target date at the
/// configured target time; with no inputs, resolves to tomorrow. The output
/// order matches the input order, and an unparseable input fails only its own
/// entry.
pub fn resolve_target_dates(inputs: &Vec<String>, now: &DateTime, target_time: TimeOfDay) -> (r:
    Vec<Result<DateTime, ScheduleError>>)
    requires
        0 <= now.day <= calendar::DAY_INDEX_CEIL,
        target_time.wf(),
    ensures
        inputs@.len() == 0 ==> r@ =~= seq![
            Ok::<DateTime, ScheduleError>(default_target(*now, target_time)),
        ],
        inputs@.len() > 0 ==> {
            &&& r@.len() == inputs@.len()
            &&& forall|i: int|
                0 <= i < inputs@.len() ==> r@[i] == target_outcome(inputs@[i]@, target_time)
        },
{
    let mut out: Vec<Result<DateTime, ScheduleError>> = Vec::new();
    if inputs.len() == 0 {
        let tomorrow = DateTime { day: now.day + 1, secs: target_time.secs() };
        out.push(Ok(weekend_shift(&tomorrow)));
        return out;
    }
    let mut i: usize = 0;
    while i < inputs.len()
        invariant
            i <= inputs@.len(),
            out@.len() == i,
            target_time.wf(),
            forall|k: int| 0 <= k < i ==> out@[k] == target_outcome(inputs@[k]@, target_time),
        decreases inputs@.len() - i,
    {
        let base = DateTime { day: 0, secs: target_time.secs() };
        match dates::convert_date_string_to_local(inputs[i].as_str(), &base) {
            Ok(parsed) => {
                out.push(Ok(weekend_shift(&parsed)));
            },
            Err(_) => {
                out.push(Err(ScheduleError::InvalidDateFormat));
            },
        }
        i = i + 1;
    }
    out
}

/// The post-at instant computed from a target date: `advance_days` days
/// earlier, same time of day, weekend-shifted back.
pub open spec fn computed_post_at(target: DateTime, advance_days: int) -> DateTime {
    DateTime { day: shift_post_day(target.day - advance_days) as i64, secs: target.secs }
}

/// The outcome `resolve_post_at` owes: with an explicit post-on date, that
/// date at the configured post time, taken as given — no weekend shift —
/// provided it lies strictly before the target; otherwise the target minus
/// `advance_days` days, shifted back past a weekend, provided it is strictly
/// in the future.
pub open spec fn post_at_outcome(
    target: DateTime,
    advance_days: int,
    post_time: TimeOfDay,
    explicit_post_on: Option<Seq<char>>,
    now: DateTime,
) -> Result<DateTime, ScheduleError> {
    match explicit_post_on {
        Some(s) => {
            if !date_str_ok(s) {
                Err(ScheduleError::InvalidDateFormat)
            } else {
                let cand = DateTime {
                    day: day_index(date_str_year(s), date_str_month(s), date_str_day(s)) as i64,
                    secs: post_time.spec_secs() as u32,
                };
                if cand.spec_lt(target) {
                    Ok(cand)
                } else {
                    Err(ScheduleError::SchedulingOrderViolation)
                }
            }
        },
        None => {
            let cand = computed_post_at(target, advance_days);
            if now.spec_lt(cand) {
                Ok(cand)
            } else {
                Err(ScheduleError::PastDeadline)
            }
        },
    }
}

/// Resolves the instant at which to post for `target`.
///
/// With an explicit post-on date, that date at the configured post time is
/// taken as given — no weekend shift — but must lie strictly before the
/// target. Otherwise the post-at instant is the target minus `advance_days`
/// days, shifted back past a weekend, and must be strictly in the future.
pub fn resolve_post_at(
    target: &DateTime,
    advance_days: i64,
    post_time: TimeOfDay,
    explicit_post_on: Option<&str>,
    now: &DateTime,
) -> (r: Result<DateTime, ScheduleError>)
    requires
        0 <= target.day <= calendar::DAY_INDEX_CEIL,
        0 <= advance_days <= calendar::DAY_INDEX_CEIL,
        post_time.wf(),
    ensures
        r == post_at_outcome(
            *target,
            advance_days as int,
            post_time,
            match explicit_post_on {
                Some(s) => Some(s@),
                None => None,
            },
            *now,
        ),
        r is Ok && explicit_post_on is None ==> !is_weekend(r->Ok_0.day as int),
{
    match explicit_post_on {
        Some(post_on_day) => {
            let base = DateTime { day: 0, secs: post_time.secs() };
            let cand = match dates::convert_date_string_to_local(post_on_day, &base) {
                Ok(c) => c,
                Err(_) => {
                    return Err(ScheduleError::InvalidDateFormat);
                },
            };
            if cand.is_before(target) {
                Ok(cand)
            } else {
                Err(ScheduleError::SchedulingOrderViolation)
            }
        },
        None => {
            let unfiltered = DateTime { day: target.day - advance_days, secs: target.secs };
            proof {
                lemma_shift_post_weekday(unfiltered.day as int);
            }
            let w = calendar::weekday_index_exec(unfiltered.day);
            let cand = if w == 6 {
                DateTime { day: unfiltered.day - 2, secs: unfiltered.secs }
            } else if w == 5 {
                DateTime { day: unfiltered.day - 1, secs: unfiltered.secs }
            } else {
                unfiltered
            };
            if now.is_before(&cand) {
                Ok(cand)
            } else {
                Err(ScheduleError::PastDeadline)
            }
        },
    }
}

} // verus!
