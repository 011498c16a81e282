//! Planning of the `joke` and `reroll` commands: which target dates get a
//! message, at which instant each message posts, and who is assigned.
//!
//! Planning is pure: the caller fetches the already-scheduled messages and
//! the current instant, and afterwards performs the planned Slack calls. A
//! failure for one candidate in a multi-date batch does not abort the rest;
//! each target date is processed independently.

use vstd::prelude::*;
use vstd::multiset::Multiset;
use vstd::string::StringExecFns;
use crate::config::BotConfig;
use crate::datetime::{DateTime, TimeOfDay};
use crate::errors::ScheduleError;
use crate::guard::{self, duplicate_verdict};
use crate::resolver::{self, post_at_outcome, target_outcome, default_target};
use crate::selector::{self, seq_contains_str, is_eligible};
use crate::api::ScheduledMessageObject;
use crate::calendar;
use crate::dates;

verus! {

broadcast use
    vstd::seq_lib::group_to_multiset_ensures,
    vstd::multiset::group_multiset_axioms;

/// One fully planned message of a `joke` batch.
#[derive(Debug, Clone)]
pub struct PlannedJoke {
    /// The member assigned to the joke duty.
    pub member: String,
    /// The day the duty refers to.
    pub target_date: DateTime,
    /// The instant the reminder will post.
    pub post_at: DateTime,
}

/// The target date of entry `i` of a batch: the resolved input date, or
/// tomorrow when no input was given.
pub open spec fn nth_target(
    inputs: Seq<String>,
    now: DateTime,
    target_time: TimeOfDay,
    i: int,
) -> Result<DateTime, ScheduleError> {
    if inputs.len() == 0 {
        Ok(default_target(now, target_time))
    } else {
        target_outcome(inputs[i]@, target_time)
    }
}

/// Planned post-at instant for one target date, given the instants already
/// taken by earlier entries of the batch. Everything but the assigned member
/// is a function of the inputs.
pub open spec fn plan_step(
    target_res: Result<DateTime, ScheduleError>,
    config: BotConfig,
    post_on: Option<Seq<char>>,
    now: DateTime,
    scheduled: Seq<ScheduledMessageObject>,
    in_progress: Seq<DateTime>,
) -> Result<DateTime, ScheduleError> {
    match target_res {
        Err(e) => Err(e),
        Ok(target) => match post_at_outcome(
            target,
            config.advance_days as int,
            config.post_time,
            post_on,
            now,
        ) {
            Err(e) => Err(e),
            Ok(post_at) => if !now.spec_lt(post_at) {
                Err(ScheduleError::PastDeadline)
            } else {
                match duplicate_verdict(post_at, scheduled, in_progress) {
                    Err(e) => Err(e),
                    Ok(_) => if config.members@.len() == 0 {
                        Err(ScheduleError::NoMemberAvailable)
                    } else {
                        Ok(post_at)
                    },
                }
            },
        },
    }
}

/// The post-at instants claimed by the first `k` entries of a batch: each
/// successful entry reserves its instant against the ones after it.
pub open spec fn in_progress_after(
    inputs: Seq<String>,
    config: BotConfig,
    post_on: Option<Seq<char>>,
    now: DateTime,
    scheduled: Seq<ScheduledMessageObject>,
    k: int,
) -> Seq<DateTime>
    decreases k,
{
    if k <= 0 {
        Seq::empty()
    } else {
        let prev = in_progress_after(inputs, config, post_on, now, scheduled, k - 1);
        match plan_step(
            nth_target(inputs, now, config.target_time, k - 1),
            config,
            post_on,
            now,
            scheduled,
            prev,
        ) {
            Ok(p) => prev.push(p),
            Err(_) => prev,
        }
    }
}

/// Outcome owed for entry `i` of a batch: its planned post-at instant, or
/// the error that skips it.
pub open spec fn planned_outcome(
    inputs: Seq<String>,
    config: BotConfig,
    post_on: Option<Seq<char>>,
    now: DateTime,
    scheduled: Seq<ScheduledMessageObject>,
    i: int,
) -> Result<DateTime, ScheduleError> {
    plan_step(
        nth_target(inputs, now, config.target_time, i),
        config,
        post_on,
        now,
        scheduled,
        in_progress_after(inputs, config, post_on, now, scheduled, i),
    )
}

/// Plans one entry of a batch: resolves the post-at instant, refuses an
/// instant that is not in the future or that collides with an existing or
/// in-progress schedule, and assigns a random roster member.
pub fn plan_one(
    target_res: &Result<DateTime, ScheduleError>,
    config: &BotConfig,
    post_on: Option<&str>,
    now: &DateTime,
    scheduled: &Vec<ScheduledMessageObject>,
    in_progress: &Vec<DateTime>,
) -> (r: Result<PlannedJoke, ScheduleError>)
    requires
        config.wf(),
        target_res matches Ok(t) ==> 0 <= t.day <= calendar::DAY_INDEX_CEIL,
    ensures
        ({
            let step = plan_step(
                *target_res,
                *config,
                match post_on {
                    Some(s) => Some(s@),
                    None => None,
                },
                *now,
                scheduled@,
                in_progress@,
            );
            match step {
                Err(e) => r == Err::<PlannedJoke, ScheduleError>(e),
                Ok(p) => {
                    &&& r is Ok
                    &&& r->Ok_0.post_at == p
                    &&& r->Ok_0.target_date == target_res->Ok_0
                    &&& is_eligible(config.members@, Seq::<String>::empty(), r->Ok_0.member@)
                },
            }
        }),
{
    let target = match target_res {
        Ok(t) => t,
        Err(e) => {
            return Err(*e);
        },
    };
    let post_at = match resolver::resolve_post_at(
        target,
        config.advance_days,
        config.post_time,
        post_on,
        now,
    ) {
        Ok(p) => p,
        Err(e) => {
            return Err(e);
        },
    };
    if !now.is_before(&post_at) {
        return Err(ScheduleError::PastDeadline);
    }
    if let Err(e) = guard::check_duplicate(&post_at, scheduled, in_progress) {
        return Err(e);
    }
    let exclude: Vec<String> = Vec::new();
    let member = match selector::select(&config.members, &exclude) {
        Some(m) => m,
        None => {
            assert(config.members@.len() == 0) by {
                if config.members@.len() > 0 {
                    assert(!seq_contains_str(exclude@, config.members@[0]@));
                }
            }
            return Err(ScheduleError::NoMemberAvailable);
        },
    };
    Ok(PlannedJoke { member, target_date: *target, post_at })
}

/// Plans a whole `joke` batch: one entry per input date, or a single entry
/// for tomorrow when no date is given. Entry `i` of the result is the plan
/// or the error owed for target `i`; earlier successes reserve their post-at
/// instants against later entries.
pub fn plan_jokes(
    input_date_args: &Vec<String>,
    scheduled_day_arg: Option<&str>,
    config: &BotConfig,
    now: &DateTime,
    already_scheduled: &Vec<ScheduledMessageObject>,
) -> (r: Vec<Result<PlannedJoke, ScheduleError>>)
    requires
        config.wf(),
        0 <= now.day <= calendar::DAY_INDEX_MAX,
    ensures
        r@.len() == if input_date_args@.len() == 0 {
            1int
        } else {
            input_date_args@.len() as int
        },
        forall|i: int|
            #![trigger r@[i]]
            0 <= i < r@.len() ==> {
                let outcome = planned_outcome(
                    input_date_args@,
                    *config,
                    match scheduled_day_arg {
                        Some(s) => Some(s@),
                        None => None,
                    },
                    *now,
                    already_scheduled@,
                    i,
                );
                match outcome {
                    Err(e) => r@[i] == Err::<PlannedJoke, ScheduleError>(e),
                    Ok(p) => {
                        &&& r@[i] is Ok
                        &&& r@[i]->Ok_0.post_at == p
                        &&& r@[i]->Ok_0.target_date == nth_target(
                            input_date_args@,
                            *now,
                            config.target_time,
                            i,
                        )->Ok_0
                        &&& is_eligible(
                            config.members@,
                            Seq::<String>::empty(),
                            r@[i]->Ok_0.member@,
                        )
                    },
                }
            },
{
    let ghost post_on_spec: Option<Seq<char>> = match scheduled_day_arg {
        Some(s) => Some(s@),
        None => None,
    };
    let targets = resolver::resolve_target_dates(input_date_args, now, config.target_time);
    let ghost n = targets@.len() as int;
    assert(forall|i: int|
        0 <= i < n ==> targets@[i] == nth_target(input_date_args@, *now, config.target_time, i));
    assert forall|k: int|
        #![trigger targets@[k]]
        0 <= k < n implies (targets@[k] matches Ok(t) ==> 0 <= t.day
        <= calendar::DAY_INDEX_CEIL) by {
        if input_date_args@.len() > 0 {
            let s = input_date_args@[k]@;
            if dates::date_str_ok(s) {
                calendar::lemma_day_index_in_range(
                    dates::date_str_year(s),
                    dates::date_str_month(s),
                    dates::date_str_day(s),
                );
            }
        }
    }
    let mut out: Vec<Result<PlannedJoke, ScheduleError>> = Vec::new();
    let mut in_progress: Vec<DateTime> = Vec::new();
    let mut i: usize = 0;
    while i < targets.len()
        invariant
            i <= targets@.len(),
            targets@.len() == n,
            out@.len() == i,
            config.wf(),
            post_on_spec == (match scheduled_day_arg {
                Some(s) => Some(s@),
                None => None::<Seq<char>>,
            }),
            forall|k: int|
                0 <= k < n ==> targets@[k] == nth_target(
                    input_date_args@,
                    *now,
                    config.target_time,
                    k,
                ),
            forall|k: int|
                #![trigger targets@[k]]
                0 <= k < n ==> (targets@[k] matches Ok(t) ==> 0 <= t.day
                    <= calendar::DAY_INDEX_CEIL),
            in_progress@ == in_progress_after(
                input_date_args@,
                *config,
                post_on_spec,
                *now,
                already_scheduled@,
                i as int,
            ),
            forall|k: int|
                #![trigger out@[k]]
                0 <= k < i ==> {
                    let outcome = planned_outcome(
                        input_date_args@,
                        *config,
                        post_on_spec,
                        *now,
                        already_scheduled@,
                        k,
                    );
                    match outcome {
                        Err(e) => out@[k] == Err::<PlannedJoke, ScheduleError>(e),
                        Ok(p) => {
                            &&& out@[k] is Ok
                            &&& out@[k]->Ok_0.post_at == p
                            &&& out@[k]->Ok_0.target_date == nth_target(
                                input_date_args@,
                                *now,
                                config.target_time,
                                k,
                            )->Ok_0
                            &&& is_eligible(
                                config.members@,
                                Seq::<String>::empty(),
                                out@[k]->Ok_0.member@,
                            )
                        },
                    }
                },
        decreases targets@.len() - i,
    {
        let ghost prev_ip = in_progress@;
        let ghost step = plan_step(
            targets@[i as int],
            *config,
            post_on_spec,
            *now,
            already_scheduled@,
            prev_ip,
        );
        let planned = plan_one(
            &targets[i],
            config,
            scheduled_day_arg,
            now,
            already_scheduled,
            &in_progress,
        );
        match &planned {
            Ok(pj) => {
                in_progress.push(pj.post_at);
            },
            Err(_) => {},
        }
        out.push(planned);
        proof {
            assert(step == planned_outcome(
                input_date_args@,
                *config,
                post_on_spec,
                *now,
                already_scheduled@,
                i as int,
            ));
            assert(in_progress@ == in_progress_after(
                input_date_args@,
                *config,
                post_on_spec,
                *now,
                already_scheduled@,
                i as int + 1,
            ));
        }
        i = i + 1;
    }
    out
}

/// Plans the reroll message for an accepted member: tomorrow's
/// weekend-shifted target date, posted `instant_delay` seconds from now.
pub fn plan_reroll(member: String, config: &BotConfig, now: &DateTime) -> (r: PlannedJoke)
    requires
        config.wf(),
        0 <= now.day <= calendar::DAY_INDEX_MAX,
        now.secs < 86400,
    ensures
        r.member == member,
        r.target_date == default_target(*now, config.target_time),
        r.post_at.day * 86400 + r.post_at.secs == now.day * 86400 + now.secs
            + config.instant_delay,
        r.post_at.secs < 86400,
{
    let target = resolver::weekend_shift(
        &DateTime { day: now.day + 1, secs: config.target_time.secs() },
    );
    let post_at = now.plus_seconds(config.instant_delay);
    PlannedJoke { member, target_date: target, post_at }
}

/// Looks a scheduled message up by its id; `Some(i)` is the first index
/// whose id matches.
pub fn find_scheduled_by_id(messages: &Vec<ScheduledMessageObject>, id: &str) -> (r: Option<
    usize,
>)
    ensures
        match r {
            Some(i) => {
                &&& 0 <= i < messages@.len()
                &&& messages@[i as int].id@ == id@
                &&& forall|k: int| 0 <= k < i ==> messages@[k].id@ != id@
            },
            None => forall|k: int| 0 <= k < messages@.len() ==> messages@[k].id@ != id@,
        },
{
    let mut i: usize = 0;
    while i < messages.len()
        invariant
            i <= messages@.len(),
            forall|k: int| 0 <= k < i ==> messages@[k].id@ != id@,
        decreases messages@.len() - i,
    {
        if crate::strutil::str_eq(messages[i].id.as_str(), id) {
            return Some(i);
        }
        i = i + 1;
    }
    None
}

/// A message list ordered by post-at instant.
pub open spec fn sorted_by_post_at(s: Seq<ScheduledMessageObject>) -> bool {
    forall|i: int, j: int| 0 <= i < j < s.len() ==> s[i].post_at.spec_le(s[j].post_at)
}

/// Sorts scheduled messages by their post-at instant: the result is ordered
/// and holds exactly the messages given.
pub fn sort_by_post_at(messages: Vec<ScheduledMessageObject>) -> (r: Vec<
    ScheduledMessageObject,
>)
    ensures
        sorted_by_post_at(r@),
        r@.to_multiset() == messages@.to_multiset(),
        r@.len() == messages@.len(),
{
    let mut rest = messages;
    let mut out: Vec<ScheduledMessageObject> = Vec::new();
    while rest.len() > 0
        invariant
            sorted_by_post_at(out@),
            out@.to_multiset().add(rest@.to_multiset()) =~= messages@.to_multiset(),
            out@.len() + rest@.len() == messages@.len(),
            forall|i: int, e: ScheduledMessageObject|
                #![trigger out@[i].post_at.spec_le(e.post_at)]
                0 <= i < out@.len() && rest@.to_multiset().count(e) > 0
                    ==> out@[i].post_at.spec_le(e.post_at),
        decreases rest@.len(),
    {
        let mut mi: usize = 0;
        let mut k: usize = 1;
        while k < rest.len()
            invariant
                mi < k <= rest@.len(),
                rest@.len() > 0,
                forall|j: int| 0 <= j < k ==> rest@[mi as int].post_at.spec_le(rest@[j].post_at),
            decreases rest@.len() - k,
        {
            if rest[k].post_at.is_before(&rest[mi].post_at) {
                mi = k;
            }
            k = k + 1;
        }
        let ghost old_out = out@;
        let ghost old_rest = rest@;
        let x = rest.remove(mi);
        out.push(x);
        proof {
            assert(out@ == old_out.push(x));
            assert(rest@ == old_rest.remove(mi as int));
            assert(old_rest[mi as int] == x);
            assert(old_rest.contains(x));
            assert(old_rest.to_multiset().count(x) > 0);
            assert(old_out.push(x).to_multiset() =~= old_out.to_multiset().insert(x));
            assert(old_rest.remove(mi as int).to_multiset() =~= old_rest.to_multiset().remove(
                x,
            ));
            assert(out@.to_multiset().add(rest@.to_multiset()) =~= messages@.to_multiset());
            assert forall|i: int, e: ScheduledMessageObject|
                0 <= i < out@.len() && rest@.to_multiset().count(e) > 0 implies #[trigger] out@[
            i].post_at.spec_le(e.post_at) by {
                assert(old_rest.to_multiset().count(e) > 0);
                assert(old_rest.contains(e));
                let we = choose|w: int| 0 <= w < old_rest.len() && old_rest[w] == e;
                assert(old_rest[mi as int].post_at.spec_le(old_rest[we].post_at));
                if i < old_out.len() {
                    assert(out@[i] == old_out[i]);
                } else {
                    assert(out@[i] == x);
                }
            }
            assert(sorted_by_post_at(out@)) by {
                assert(old_rest.to_multiset().count(x) > 0);
                assert forall|i: int, j: int|
                    0 <= i < j < out@.len() implies out@[i].post_at.spec_le(
                    out@[j].post_at,
                ) by {
                    if j < old_out.len() {
                    } else {
                        assert(out@[j] == x);
                    }
                }
            }
        }
    }
    proof {
        assert(rest@.to_multiset() =~= Multiset::<ScheduledMessageObject>::empty()) by {
            assert(rest@.to_multiset().len() == 0);
        }
        assert(out@.to_multiset() =~= messages@.to_multiset());
    }
    out
}

/// The text of a scheduled joke message.
pub fn joke_message_text(member: &str, date_str: &str) -> (r: String)
    ensures
        r@ == "<@"@ + member@ + "> will be in charge of a joke on "@ + date_str@ + "!"@,
{
    let mut s = String::from_str("<@");
    s.append(member);
    s.append("> will be in charge of a joke on ");
    s.append(date_str);
    s.append("!");
    s
}

/// The text of a reroll message.
pub fn reroll_message_text(member: &str, date_str: &str) -> (r: String)
    ensures
        r@ == "Reroll: <@"@ + member@ + "> will be in charge of a joke on "@ + date_str@
            + "!"@,
{
    let mut s = String::from_str("Reroll: <@");
    s.append(member);
    s.append("> will be in charge of a joke on ");
    s.append(date_str);
    s.append("!");
    s
}

} // verus!
