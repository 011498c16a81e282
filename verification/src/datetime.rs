//! Wall-clock instants in the bot's local timezone: a calendar day index
//! paired with a second of the day.

use vstd::prelude::*;
use crate::calendar;

verus! {

pub const SECS_PER_DAY: u32 = 86400;

/// A time of day, as read from an `HH:MM:SS` string.
#[derive(Clone, Copy, Debug, PartialEq, Eq, Structural)]
pub struct TimeOfDay {
    pub hour: u8,
    pub minute: u8,
    pub second: u8,
}

impl TimeOfDay {
    pub open spec fn wf(self) -> bool {
        self.hour < 24 && self.minute < 60 && self.second < 60
    }

    /// The second of the day this time names.
    pub open spec fn spec_secs(self) -> int {
        self.hour * 3600 + self.minute * 60 + self.second
    }

    pub fn new(hour: u8, minute: u8, second: u8) -> (t: TimeOfDay)
        requires
            hour < 24,
            minute < 60,
            second < 60,
        ensures
            t == (TimeOfDay { hour, minute, second }),
            t.wf(),
    {
        TimeOfDay { hour, minute, second }
    }

    pub fn secs(self) -> (s: u32)
        ensures
            s as int == self.spec_secs(),
            self.wf() ==> s < SECS_PER_DAY,
    {
        self.hour as u32 * 3600 + self.minute as u32 * 60 + self.second as u32
    }
}

/// An instant in the local timezone: `day` counts days since 0000-01-01
/// (see `calendar`), `secs` is the second of that day.
#[derive(Clone, Copy, Debug, PartialEq, Eq, Structural)]
pub struct DateTime {
    pub day: i64,
    pub secs: u32,
}

impl DateTime {
    /// Instants the library constructs stay within the supported calendar
    /// years and carry a proper second of the day.
    pub open spec fn wf(self) -> bool {
        0 <= self.day <= calendar::DAY_INDEX_CEIL && self.secs < SECS_PER_DAY
    }

    pub open spec fn spec_lt(self, other: DateTime) -> bool {
        self.day < other.day || (self.day == other.day && self.secs < other.secs)
    }

    pub open spec fn spec_le(self, other: DateTime) -> bool {
        self.day < other.day || (self.day == other.day && self.secs <= other.secs)
    }

    pub fn new(day: i64, secs: u32) -> (dt: DateTime)
        ensures
            dt == (DateTime { day, secs }),
    {
        DateTime { day, secs }
    }

    /// Builds the instant of a calendar date at a given time of day.
    pub fn from_ymd_time(y: u32, m: u32, d: u32, time: TimeOfDay) -> (dt: DateTime)
        requires
            calendar::valid_ymd(y as int, m as int, d as int),
            time.wf(),
        ensures
            dt.day == calendar::day_index(y as int, m as int, d as int),
            dt.secs == time.spec_secs(),
            dt.wf(),
    {
        DateTime { day: calendar::day_index_exec(y, m, d), secs: time.secs() }
    }

    /// Strict "comes earlier" comparison.
    pub fn is_before(&self, other: &DateTime) -> (r: bool)
        ensures
            r == self.spec_lt(*other),
    {
        self.day < other.day || (self.day == other.day && self.secs < other.secs)
    }

    /// "Comes earlier or at the same instant" comparison.
    pub fn is_at_or_before(&self, other: &DateTime) -> (r: bool)
        ensures
            r == self.spec_le(*other),
    {
        self.day < other.day || (self.day == other.day && self.secs <= other.secs)
    }

    /// Whether both name the same calendar day, whatever the time.
    pub fn same_date(&self, other: &DateTime) -> (r: bool)
        ensures
            r == (self.day == other.day),
    {
        self.day == other.day
    }

    pub fn weekday(&self) -> (w: u8)
        requires
            -100_000_000 <= self.day <= 100_000_000,
        ensures
            w as int == calendar::weekday_index(self.day as int),
            w < 7,
    {
        calendar::weekday_index_exec(self.day)
    }

    /// Whether the instant falls on Monday through Friday.
    pub fn is_weekday(&self) -> (r: bool)
        requires
            -100_000_000 <= self.day <= 100_000_000,
        ensures
            r == !calendar::is_weekend(self.day as int),
    {
        self.weekday() < 5
    }

    /// The same calendar day at another time of day.
    pub fn with_time(&self, time: TimeOfDay) -> (dt: DateTime)
        requires
            time.wf(),
        ensures
            dt.day == self.day,
            dt.secs == time.spec_secs(),
    {
        DateTime { day: self.day, secs: time.secs() }
    }

    /// The instant `delta` seconds later.
    pub fn plus_seconds(&self, delta: i64) -> (dt: DateTime)
        requires
            0 <= delta <= 1_000_000_000,
            -100_000_000 <= self.day <= 100_000_000,
            self.secs < SECS_PER_DAY,
        ensures
            dt.day * 86400 + dt.secs == self.day * 86400 + self.secs + delta,
            dt.secs < SECS_PER_DAY,
            dt.day >= self.day,
    {
        let total = self.secs as i64 + delta;
        let carry_days = total / 86400;
        let secs = total % 86400;
        proof {
            vstd::arithmetic::div_mod::lemma_fundamental_div_mod(total as int, 86400);
            vstd::arithmetic::div_mod::lemma_mod_bound(total as int, 86400);
            assert((self.day + carry_days) * 86400 == self.day * 86400 + carry_days * 86400)
                by (nonlinear_arith);
        }
        DateTime { day: self.day + carry_days, secs: secs as u32 }
    }
}

} // verus!
