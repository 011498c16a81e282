//! The boundary to wall-clock time: the current instant, and conversions
//! between epoch seconds and the library's local-time instants. Only these
//! items consult the timezone; everything around them is verified on plain
//! values.

use vstd::prelude::*;
use chrono::{Datelike, TimeZone, Timelike};
use crate::api::{
    ScheduleMessageResponse,
    ScheduleMessageResponseRaw,
    ScheduledMessageObject,
    ScheduledMessageObjectRaw,
};
use crate::calendar;
use crate::datetime::{DateTime, TimeOfDay};

verus! {

/// Relies on `chrono::Local::now`: the current local civil time as year,
/// month, day, hour, minute and second. chrono documents the month as 1 to
/// 12, the day of month as 1 to 31, the hour below 24, minute and second
/// below 60.
#[verifier::external_body]
fn now_civil_raw() -> (r: (i32, u32, u32, u32, u32, u32))
    ensures
        1 <= r.1 <= 12,
        1 <= r.2 <= 31,
        r.3 < 24,
        r.4 < 60,
        r.5 < 60,
{
    let n = chrono::Local::now();
    (n.year(), n.month(), n.day(), n.hour(), n.minute(), n.second())
}

/// Relies on `chrono::TimeZone::timestamp_opt` on the local timezone: the
/// local civil time of an epoch instant, with the same documented field
/// ranges as `now_civil_raw`; `None` when chrono cannot map the instant.
#[verifier::external_body]
fn civil_of_epoch_raw(ts: i64) -> (r: Option<(i32, u32, u32, u32, u32, u32)>)
    ensures
        r matches Some(c) ==> 1 <= c.1 <= 12 && 1 <= c.2 <= 31 && c.3 < 24 && c.4 < 60 && c.5
            < 60,
{
    let dt = match chrono::Local.timestamp_opt(ts, 0) {
        chrono::LocalResult::Single(d) => d,
        chrono::LocalResult::Ambiguous(d, _) => d,
        chrono::LocalResult::None => return None,
    };
    Some((dt.year(), dt.month(), dt.day(), dt.hour(), dt.minute(), dt.second()))
}

/// Relies on `chrono::TimeZone::with_ymd_and_hms` on the local timezone: the
/// epoch seconds of a local civil time; `None` when the timezone has no such
/// instant. Nothing more is promised: the result depends on the machine's
/// timezone.
#[verifier::external_body]
fn epoch_of_civil_raw(y: i32, mo: u32, d: u32, h: u32, mi: u32, s: u32) -> Option<i64> {
    let dt = match chrono::Local.with_ymd_and_hms(y, mo, d, h, mi, s) {
        chrono::LocalResult::Single(v) => v,
        chrono::LocalResult::Ambiguous(v, _) => v,
        chrono::LocalResult::None => return None,
    };
    Some(dt.timestamp())
}

/// Turns a civil time with chrono's documented field ranges into an instant,
/// validating that it lies in the supported years and names a real date.
fn datetime_of_civil(c: (i32, u32, u32, u32, u32, u32)) -> (r: Option<DateTime>)
    requires
        1 <= c.1 <= 12,
        1 <= c.2 <= 31,
        c.3 < 24,
        c.4 < 60,
        c.5 < 60,
    ensures
        r matches Some(dt) ==> dt.wf() && 0 <= dt.day <= calendar::DAY_INDEX_MAX && dt.secs
            < 86400,
{
    let (y, mo, d, h, mi, s) = c;
    if y < 0 || y > 9999 {
        return None;
    }
    if d > calendar::days_in_month_exec(y as u32, mo) {
        return None;
    }
    proof {
        calendar::lemma_day_index_in_range(y as int, c.1 as int, c.2 as int);
    }
    let t = TimeOfDay::new(h as u8, mi as u8, s as u8);
    Some(DateTime::from_ymd_time(y as u32, mo, d, t))
}

/// The current local instant; `None` only for a clock outside the supported
/// years.
pub fn now_datetime() -> (r: Option<DateTime>)
    ensures
        r matches Some(dt) ==> dt.wf() && 0 <= dt.day <= calendar::DAY_INDEX_MAX && dt.secs
            < 86400,
{
    datetime_of_civil(now_civil_raw())
}

/// The local instant of an epoch timestamp; `None` when it cannot be mapped
/// into the supported local calendar.
pub fn datetime_of_epoch(ts: i64) -> (r: Option<DateTime>)
    ensures
        r matches Some(dt) ==> dt.wf() && 0 <= dt.day <= calendar::DAY_INDEX_MAX && dt.secs
            < 86400,
{
    match civil_of_epoch_raw(ts) {
        Some(c) => datetime_of_civil(c),
        None => None,
    }
}

/// The epoch seconds of a local instant; `None` when the instant lies
/// outside the supported years or the timezone has no such wall-clock time.
pub fn epoch_of_datetime(dt: &DateTime) -> Option<i64>
    requires
        dt.secs < 86400,
{
    if dt.day < 0 {
        return None;
    }
    let limit = calendar::days_before_year_exec(10000);
    if dt.day >= limit as i64 {
        return None;
    }
    let (y, m, d) = calendar::civil_from_days(dt.day);
    let h = dt.secs / 3600;
    let mi = (dt.secs / 60) % 60;
    let s = dt.secs % 60;
    epoch_of_civil_raw(y as i32, m, d, h, mi, s)
}

/// Converts a scheduled message from its wire form, mapping both instants
/// into local time; `None` when either cannot be mapped.
pub fn scheduled_message_from_raw(raw: &ScheduledMessageObjectRaw) -> (r: Option<
    ScheduledMessageObject,
>)
    ensures
        r matches Some(m) ==> {
            &&& m.id@ == raw.id@
            &&& m.channel_id@ == raw.channel_id@
            &&& m.text@ == raw.text@
            &&& m.post_at.wf()
            &&& m.date_created.wf()
        },
{
    let post_at = match datetime_of_epoch(raw.post_at) {
        Some(p) => p,
        None => {
            return None;
        },
    };
    let date_created = match datetime_of_epoch(raw.date_created) {
        Some(p) => p,
        None => {
            return None;
        },
    };
    Some(
        ScheduledMessageObject {
            id: raw.id.clone(),
            channel_id: raw.channel_id.clone(),
            post_at,
            date_created,
            text: raw.text.clone(),
        },
    )
}

/// Converts a schedule-message response from its wire form, mapping the
/// post-at instant into local time; `None` when it cannot be mapped.
pub fn schedule_message_response_from_raw(raw: ScheduleMessageResponseRaw) -> (r: Option<
    ScheduleMessageResponse,
>)
    ensures
        r matches Some(m) ==> {
            &&& m.channel@ == raw.channel@
            &&& m.scheduled_message_id@ == raw.scheduled_message_id@
            &&& m.message == raw.message
            &&& m.post_at.wf()
        },
{
    let post_at = match datetime_of_epoch(raw.post_at) {
        Some(p) => p,
        None => {
            return None;
        },
    };
    Some(
        ScheduleMessageResponse {
            channel: raw.channel,
            scheduled_message_id: raw.scheduled_message_id,
            post_at,
            message: raw.message,
        },
    )
}

} // verus!
