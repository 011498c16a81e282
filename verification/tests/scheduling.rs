use slack_r::api::ScheduledMessageObject;
use slack_r::calendar::day_index_exec;
use slack_r::config::BotConfig;
use slack_r::datetime::{DateTime, TimeOfDay};
use slack_r::errors::ScheduleError;
use slack_r::guard::check_duplicate;
use slack_r::plan::{find_scheduled_by_id, plan_jokes, plan_reroll, sort_by_post_at};
use slack_r::resolver::{resolve_post_at, resolve_target_dates, weekend_shift};
use slack_r::selector::select;

fn test_config() -> BotConfig {
    BotConfig {
        members: vec![
            "user_1".to_string(),
            "user_2".to_string(),
            "user3".to_string(),
        ],
        selected: vec![],
        channel: "test_channel".to_string(),
        target_time: TimeOfDay::new(11, 30, 0),
        advance_days: 1,
        post_time: TimeOfDay::new(11, 30, 0),
        instant_delay: 45,
        token: Some("test_token".to_string()),
        id: "test_bot_id".to_string(),
    }
}

fn message_on(id: &str, day: i64) -> ScheduledMessageObject {
    ScheduledMessageObject {
        id: id.to_string(),
        channel_id: "C1".to_string(),
        post_at: DateTime::new(day, 41400),
        date_created: DateTime::new(day - 10, 0),
        text: "msg".to_string(),
    }
}

#[test]
fn get_target_date_default() {
    let config = test_config();
    assert_eq!(config.target_time, TimeOfDay::new(11, 30, 0));
    let now = DateTime::new(day_index_exec(2021, 12, 1), 0);
    let target_date = resolve_target_dates(&vec!["2021-12-31".to_string()], &now, config.target_time);
    let expected = DateTime::new(day_index_exec(2021, 12, 31), 11 * 3600 + 30 * 60);
    assert_eq!(target_date.first().unwrap().to_owned(), Ok(expected));
}

// Target time 11:30:00, post time 11:30:00, one advance day, input date
// 2021-12-31 (a Friday): the target needs no shift and the post-at instant
// is the day before, same time.
#[test]
fn joke_resolution_scenario() {
    let config = test_config();
    let now = DateTime::new(day_index_exec(2021, 12, 28), 0);
    let targets = resolve_target_dates(&vec!["2021-12-31".to_string()], &now, config.target_time);
    let target = targets[0].unwrap();
    assert_eq!(target, DateTime::new(day_index_exec(2021, 12, 31), 41400));
    let post_at = resolve_post_at(&target, config.advance_days, config.post_time, None, &now);
    assert_eq!(post_at, Ok(DateTime::new(day_index_exec(2021, 12, 30), 41400)));
}

// A Saturday target shifts to the following Monday, two days later, at the
// same time of day.
#[test]
fn saturday_target_shifts_to_monday() {
    let sat = DateTime::new(day_index_exec(2022, 1, 1), 41400);
    assert_eq!(sat.weekday(), 5);
    let shifted = weekend_shift(&sat);
    assert_eq!(shifted.day, day_index_exec(2022, 1, 3));
    assert_eq!(shifted.weekday(), 0);
    assert_eq!(shifted.secs, 41400);
    // shifting is idempotent
    assert_eq!(weekend_shift(&shifted), shifted);
    // a Sunday shifts one day
    let sun = DateTime::new(day_index_exec(2022, 1, 2), 41400);
    assert_eq!(weekend_shift(&sun).day, day_index_exec(2022, 1, 3));
    // a weekday stays put
    let wed = DateTime::new(day_index_exec(2022, 1, 5), 41400);
    assert_eq!(weekend_shift(&wed), wed);
}

// A post-at instant that lands on a Sunday moves back two days, to the
// Friday of the prior week.
#[test]
fn sunday_post_at_shifts_back_to_friday() {
    let monday_target = DateTime::new(day_index_exec(2022, 1, 10), 41400);
    let now = DateTime::new(day_index_exec(2022, 1, 3), 0);
    let post = resolve_post_at(&monday_target, 1, TimeOfDay::new(11, 30, 0), None, &now);
    let friday = DateTime::new(day_index_exec(2022, 1, 7), 41400);
    assert_eq!(post, Ok(friday));
    assert_eq!(friday.weekday(), 4);
}

// The computed post-at instant never falls on a weekend, whatever the
// advance-days offset.
#[test]
fn computed_post_at_never_on_weekend() {
    let target = DateTime::new(day_index_exec(2022, 3, 15), 41400);
    let now = DateTime::new(0, 0);
    for advance in 0i64..30 {
        let post = resolve_post_at(&target, advance, TimeOfDay::new(11, 30, 0), None, &now)
            .unwrap();
        assert!(post.weekday() < 5);
    }
}

#[test]
fn empty_input_resolves_to_tomorrow() {
    let config = test_config();
    // a Thursday: tomorrow is Friday, no shift
    let thu = DateTime::new(day_index_exec(2021, 12, 30), 0);
    let r = resolve_target_dates(&vec![], &thu, config.target_time);
    assert_eq!(r.len(), 1);
    assert_eq!(
        r[0],
        Ok(DateTime::new(day_index_exec(2021, 12, 31), 41400))
    );
    // a Friday: tomorrow is Saturday, shifted to Monday
    let fri = DateTime::new(day_index_exec(2021, 12, 31), 0);
    let r = resolve_target_dates(&vec![], &fri, config.target_time);
    assert_eq!(r.len(), 1);
    assert_eq!(r[0], Ok(DateTime::new(day_index_exec(2022, 1, 3), 41400)));
}

#[test]
fn explicit_post_on_must_precede_target() {
    let target = DateTime::new(day_index_exec(2022, 1, 10), 41400);
    let now = DateTime::new(day_index_exec(2022, 1, 3), 0);
    let post_time = TimeOfDay::new(11, 30, 0);
    // same day as target, same time: not strictly before
    let r = resolve_post_at(&target, 1, post_time, Some("2022-01-10"), &now);
    assert_eq!(r, Err(ScheduleError::SchedulingOrderViolation));
    // the day before: accepted as-is
    let r = resolve_post_at(&target, 1, post_time, Some("2022-01-07"), &now);
    assert_eq!(r, Ok(DateTime::new(day_index_exec(2022, 1, 7), 41400)));
    // unparseable
    let r = resolve_post_at(&target, 1, post_time, Some("soon"), &now);
    assert_eq!(r, Err(ScheduleError::InvalidDateFormat));
}

#[test]
fn past_deadline_is_refused() {
    let target = DateTime::new(day_index_exec(2022, 1, 11), 41400);
    let now = DateTime::new(day_index_exec(2022, 1, 12), 0);
    let r = resolve_post_at(&target, 1, TimeOfDay::new(11, 30, 0), None, &now);
    assert_eq!(r, Err(ScheduleError::PastDeadline));
}

#[test]
fn duplicate_guard_verdicts() {
    let cand = DateTime::new(day_index_exec(2022, 1, 7), 41400);
    let remote = vec![message_on("Q1", day_index_exec(2022, 1, 7))];
    let none: Vec<ScheduledMessageObject> = vec![];
    assert_eq!(
        check_duplicate(&cand, &remote, &vec![]),
        Err(ScheduleError::AlreadyScheduledRemote)
    );
    assert_eq!(
        check_duplicate(&cand, &none, &vec![cand]),
        Err(ScheduleError::AlreadyScheduledLocal)
    );
    let other = DateTime::new(day_index_exec(2022, 1, 6), 41400);
    assert_eq!(check_duplicate(&cand, &none, &vec![other]), Ok(()));
}

// Two input dates resolving to the same post-at instant: the first entry of
// the batch proceeds, the second is refused as a local duplicate.
#[test]
fn batch_rejects_second_equal_post_at() {
    let config = test_config();
    let now = DateTime::new(day_index_exec(2021, 12, 28), 0);
    // Saturday and Sunday inputs both shift to Monday 2022-01-03, so both
    // compute the same post-at instant.
    let inputs = vec!["2022-01-01".to_string(), "2022-01-02".to_string()];
    let r = plan_jokes(&inputs, None, &config, &now, &vec![]);
    assert_eq!(r.len(), 2);
    let first = r[0].as_ref().unwrap();
    assert_eq!(first.target_date, DateTime::new(day_index_exec(2022, 1, 3), 41400));
    // Monday minus one day is Sunday, shifted back to Friday 2021-12-31
    assert_eq!(first.post_at, DateTime::new(day_index_exec(2021, 12, 31), 41400));
    assert!(config.members.contains(&first.member));
    assert_eq!(
        r[1].as_ref().unwrap_err(),
        &ScheduleError::AlreadyScheduledLocal
    );
}

#[test]
fn batch_rejects_remotely_scheduled_date() {
    let config = test_config();
    let now = DateTime::new(day_index_exec(2021, 12, 28), 0);
    // a message already posts on the computed post-at day, 2021-12-30
    let remote = vec![message_on("Q1", day_index_exec(2021, 12, 30))];
    let r = plan_jokes(&vec!["2021-12-31".to_string()], None, &config, &now, &remote);
    assert_eq!(r.len(), 1);
    assert_eq!(
        r[0].as_ref().unwrap_err(),
        &ScheduleError::AlreadyScheduledRemote
    );
}

#[test]
fn batch_with_bad_date_continues() {
    let config = test_config();
    let now = DateTime::new(day_index_exec(2021, 12, 28), 0);
    let inputs = vec!["bogus".to_string(), "2022-01-05".to_string()];
    let r = plan_jokes(&inputs, None, &config, &now, &vec![]);
    assert_eq!(r.len(), 2);
    assert_eq!(r[0].as_ref().unwrap_err(), &ScheduleError::InvalidDateFormat);
    assert!(r[1].is_ok());
}

#[test]
fn batch_without_members_fails() {
    let mut config = test_config();
    config.members = vec![];
    let now = DateTime::new(day_index_exec(2021, 12, 28), 0);
    let r = plan_jokes(&vec!["2022-01-05".to_string()], None, &config, &now, &vec![]);
    assert_eq!(r.len(), 1);
    assert_eq!(r[0].as_ref().unwrap_err(), &ScheduleError::NoMemberAvailable);
}

#[test]
fn select_only_eligible_members() {
    let roster = vec!["a".to_string(), "b".to_string(), "c".to_string()];
    let exclude = vec!["b".to_string()];
    for _ in 0..50 {
        let picked = select(&roster, &exclude).unwrap();
        assert!(picked == "a" || picked == "c");
    }
    let all = roster.clone();
    assert_eq!(select(&roster, &all), None);
    assert_eq!(select(&vec![], &vec![]), None);
}

// The reroll flow over a roster of three: two proposals are excluded
// without acceptance, the third is the only one left; once it too is
// rejected, no member is available.
#[test]
fn reroll_exhausts_roster() {
    let roster = vec!["a".to_string(), "b".to_string(), "c".to_string()];
    let mut exclude: Vec<String> = Vec::new();
    let first = select(&roster, &exclude).unwrap();
    exclude.push(first);
    let second = select(&roster, &exclude).unwrap();
    assert!(!exclude.contains(&second));
    exclude.push(second);
    let third = select(&roster, &exclude).unwrap();
    assert!(!exclude.contains(&third));
    assert!(roster.contains(&third));
    exclude.push(third);
    assert_eq!(select(&roster, &exclude), None);
}

#[test]
fn reroll_plan_uses_instant_delay() {
    let config = test_config();
    // a Wednesday evening, near midnight so the delay carries into the
    // next day
    let now = DateTime::new(day_index_exec(2022, 1, 5), 86399);
    let planned = plan_reroll("user_1".to_string(), &config, &now);
    assert_eq!(planned.member, "user_1");
    // tomorrow is Thursday, no weekend shift
    assert_eq!(
        planned.target_date,
        DateTime::new(day_index_exec(2022, 1, 6), 41400)
    );
    assert_eq!(planned.post_at, DateTime::new(day_index_exec(2022, 1, 6), 44));
}

#[test]
fn sort_scheduled_messages_by_post_at() {
    let d = day_index_exec(2022, 1, 10);
    let msgs = vec![message_on("m3", d + 2), message_on("m1", d), message_on("m2", d + 1)];
    let sorted = sort_by_post_at(msgs);
    let ids: Vec<&str> = sorted.iter().map(|m| m.id.as_str()).collect();
    assert_eq!(ids, vec!["m1", "m2", "m3"]);
}

#[test]
fn find_scheduled_message_by_id() {
    let d = day_index_exec(2022, 1, 10);
    let msgs = vec![message_on("m1", d), message_on("m2", d + 1)];
    assert_eq!(find_scheduled_by_id(&msgs, "m2"), Some(1));
    assert_eq!(find_scheduled_by_id(&msgs, "m9"), None);
}
