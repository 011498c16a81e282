//! Proleptic Gregorian day arithmetic for the years 0 through 9999, the range
//! a `YYYY-MM-DD` input can name.
//!
//! A calendar date is counted as a day index: the number of days since
//! 0000-01-01 (day 0). Weekdays are numbered 0 (Monday) through 6 (Sunday).

use vstd::prelude::*;

verus! {

/// Largest day index a supported date can have: at most `366 * 9999` days
/// in the full years before 9999, plus at most 341 days in the months before
/// December, plus at most 30 more days.
pub const DAY_INDEX_MAX: i64 = 3_660_005;

/// A loose ceiling on day indexes the library works with; it leaves room
/// above `DAY_INDEX_MAX` for the small forward shifts of the weekend rule.
pub const DAY_INDEX_CEIL: i64 = 3_661_000;

pub open spec fn is_leap_year(y: int) -> bool {
    (y % 4 == 0 && y % 100 != 0) || y % 400 == 0
}

pub open spec fn days_in_year(y: int) -> int {
    if is_leap_year(y) {
        366
    } else {
        365
    }
}

pub open spec fn days_in_month(y: int, m: int) -> int {
    if m == 1 {
        31
    } else if m == 2 {
        if is_leap_year(y) {
            29
        } else {
            28
        }
    } else if m == 3 {
        31
    } else if m == 4 {
        30
    } else if m == 5 {
        31
    } else if m == 6 {
        30
    } else if m == 7 {
        31
    } else if m == 8 {
        31
    } else if m == 9 {
        30
    } else if m == 10 {
        31
    } else if m == 11 {
        30
    } else {
        31
    }
}

/// Number of days in all years before `y` (years 0 through `y - 1`).
pub open spec fn days_before_year(y: int) -> int
    decreases y,
{
    if y <= 0 {
        0
    } else {
        days_before_year(y - 1) + days_in_year(y - 1)
    }
}

/// Number of days in the months of year `y` before month `m`.
pub open spec fn days_before_month(y: int, m: int) -> int
    decreases m,
{
    if m <= 1 {
        0
    } else {
        days_before_month(y, m - 1) + days_in_month(y, m - 1)
    }
}

/// Whether year, month and day name a real calendar date in the supported
/// range.
pub open spec fn valid_ymd(y: int, m: int, d: int) -> bool {
    0 <= y <= 9999 && 1 <= m <= 12 && 1 <= d <= days_in_month(y, m)
}

/// Day index of a calendar date: days since 0000-01-01.
pub open spec fn day_index(y: int, m: int, d: int) -> int {
    days_before_year(y) + days_before_month(y, m) + (d - 1)
}

/// Weekday of a day index: 0 is Monday, ..., 4 is Friday, 5 is Saturday,
/// 6 is Sunday. Day 0 (0000-01-01) was a Saturday.
pub open spec fn weekday_index(day: int) -> int {
    (day + 5) % 7
}

pub open spec fn is_weekend(day: int) -> bool {
    weekday_index(day) >= 5
}

pub proof fn lemma_days_before_year_bounds(y: int)
    requires
        0 <= y,
    ensures
        365 * y <= days_before_year(y) <= 366 * y,
    decreases y,
{
    if y > 0 {
        lemma_days_before_year_bounds(y - 1);
    }
}

pub proof fn lemma_days_before_month_bounds(y: int, m: int)
    requires
        1 <= m <= 13,
    ensures
        28 * (m - 1) <= days_before_month(y, m) <= 31 * (m - 1),
    decreases m,
{
    if m > 1 {
        lemma_days_before_month_bounds(y, m - 1);
    }
}

/// Every date of the supported years has a day index in
/// `[0, DAY_INDEX_MAX]`.
pub proof fn lemma_day_index_in_range(y: int, m: int, d: int)
    requires
        valid_ymd(y, m, d),
    ensures
        0 <= day_index(y, m, d) <= DAY_INDEX_MAX as int,
{
    lemma_days_before_year_bounds(y);
    lemma_days_before_month_bounds(y, m);
}

/// Computes `days_before_year(y)`.
pub fn days_before_year_exec(y: u32) -> (r: u32)
    requires
        y <= 10000,
    ensures
        r as int == days_before_year(y as int),
{
    let mut i: u32 = 0;
    let mut total: u32 = 0;
    while i < y
        invariant
            i <= y <= 10000,
            total as int == days_before_year(i as int),
        decreases y - i,
    {
        proof {
            lemma_days_before_year_bounds(i as int);
        }
        let len: u32 = if (i % 4 == 0 && i % 100 != 0) || i % 400 == 0 {
            366
        } else {
            365
        };
        total = total + len;
        i = i + 1;
    }
    total
}

/// Computes `days_in_month(y, m)`.
pub fn days_in_month_exec(y: u32, m: u32) -> (r: u32)
    requires
        1 <= m <= 12,
    ensures
        r as int == days_in_month(y as int, m as int),
        28 <= r <= 31,
{
    if m == 2 {
        if (y % 4 == 0 && y % 100 != 0) || y % 400 == 0 {
            29
        } else {
            28
        }
    } else if m == 4 || m == 6 || m == 9 || m == 11 {
        30
    } else {
        31
    }
}

/// Computes `days_before_month(y, m)`.
pub fn days_before_month_exec(y: u32, m: u32) -> (r: u32)
    requires
        1 <= m <= 12,
    ensures
        r as int == days_before_month(y as int, m as int),
{
    let mut i: u32 = 1;
    let mut total: u32 = 0;
    while i < m
        invariant
            1 <= i <= m <= 12,
            total as int == days_before_month(y as int, i as int),
        decreases m - i,
    {
        proof {
            lemma_days_before_month_bounds(y as int, i as int);
        }
        total = total + days_in_month_exec(y, i);
        i = i + 1;
    }
    total
}

/// Computes the day index of a valid date.
pub fn day_index_exec(y: u32, m: u32, d: u32) -> (r: i64)
    requires
        valid_ymd(y as int, m as int, d as int),
    ensures
        r as int == day_index(y as int, m as int, d as int),
        0 <= r <= DAY_INDEX_MAX,
{
    proof {
        lemma_day_index_in_range(y as int, m as int, d as int);
    }
    let by = days_before_year_exec(y);
    let bm = days_before_month_exec(y, m);
    by as i64 + bm as i64 + (d as i64 - 1)
}

/// Computes `weekday_index(day)` for any day index, negative ones included.
pub fn weekday_index_exec(day: i64) -> (w: u8)
    requires
        -100_000_000 <= day <= 100_000_000,
    ensures
        w as int == weekday_index(day as int),
        w < 7,
{
    // 105_000_000 is a multiple of 7, so shifting by it keeps the weekday.
    let shifted = day + 105_000_000;
    let w = (shifted + 5) % 7;
    proof {
        vstd::arithmetic::div_mod::lemma_mod_multiples_vanish(
            15_000_000,
            day as int + 5,
            7,
        );
        vstd::arithmetic::div_mod::lemma_mod_bound(shifted as int + 5, 7);
    }
    w as u8
}

/// Computes `days_in_year(y)`.
pub fn days_in_year_exec(y: u32) -> (r: u32)
    ensures
        r as int == days_in_year(y as int),
        365 <= r <= 366,
{
    if (y % 4 == 0 && y % 100 != 0) || y % 400 == 0 {
        366
    } else {
        365
    }
}

/// `days_before_month` grows with the month.
pub proof fn lemma_days_before_month_mono(y: int, m1: int, m2: int)
    requires
        1 <= m1 <= m2 <= 13,
    ensures
        days_before_month(y, m1) <= days_before_month(y, m2),
    decreases m2 - m1,
{
    if m1 < m2 {
        lemma_days_before_month_mono(y, m1, m2 - 1);
    }
}

/// The twelve months of a year together hold `days_in_year(y)` days.
pub proof fn lemma_months_cover_year(y: int)
    ensures
        days_before_month(y, 13) == days_in_year(y),
{
    reveal_with_fuel(days_before_month, 13);
}

/// Recovers year, month and day from a day index; the inverse of
/// `day_index` on the supported years.
pub fn civil_from_days(day: i64) -> (r: (u32, u32, u32))
    requires
        0 <= day,
        (day as int) < days_before_year(10000),
    ensures
        valid_ymd(r.0 as int, r.1 as int, r.2 as int),
        day_index(r.0 as int, r.1 as int, r.2 as int) == day as int,
{
    proof {
        lemma_days_before_year_bounds(10000);
    }
    let mut y: u32 = 0;
    let mut rest: u32 = day as u32;
    while rest >= days_in_year_exec(y)
        invariant
            y <= 9999,
            days_before_year(y as int) <= day as int,
            (day as int) < days_before_year(10000),
            rest as int == day as int - days_before_year(y as int),
        decreases 10000 - y,
    {
        let len = days_in_year_exec(y);
        rest = rest - len;
        y = y + 1;
        proof {
            if y == 10000 {
                assert(days_before_year(10000) <= day as int);
            }
        }
    }
    proof {
        lemma_months_cover_year(y as int);
    }
    let mut m: u32 = 1;
    while m < 12 && rest >= days_in_month_exec(y, m)
        invariant
            1 <= m <= 12,
            days_before_month(y as int, m as int) <= day as int - days_before_year(y as int),
            day as int - days_before_year(y as int) < days_in_year(y as int),
            days_before_month(y as int, 13) == days_in_year(y as int),
            rest as int == day as int - days_before_year(y as int) - days_before_month(
                y as int,
                m as int,
            ),
        decreases 12 - m,
    {
        rest = rest - days_in_month_exec(y, m);
        m = m + 1;
    }
    proof {
        if rest as int >= days_in_month(y as int, m as int) {
            // only possible in December, where it would overrun the year
            assert(m == 12);
            lemma_days_before_month_mono(y as int, 13, 13);
        }
    }
    (y, m, rest + 1)
}

} // verus!
