//! User-facing date and time input: the `YYYY-MM-DD` and `HH:MM:SS` grammars,
//! and the validation rules applied to command-line arguments.

use vstd::prelude::*;
use vstd::string::{StrSliceExecFns, StringExecFns};
use crate::calendar;
use crate::datetime::{DateTime, TimeOfDay};

verus! {

pub open spec fn is_digit(c: char) -> bool {
    '0' <= c && c <= '9'
}

pub open spec fn digit_val(c: char) -> int {
    c as int - '0' as int
}

/// Shape of a `YYYY-MM-DD` string: four digits, dash, two digits, dash, two
/// digits, and nothing else.
pub open spec fn date_str_shaped(s: Seq<char>) -> bool {
    &&& s.len() == 10
    &&& is_digit(s[0])
    &&& is_digit(s[1])
    &&& is_digit(s[2])
    &&& is_digit(s[3])
    &&& s[4] == '-'
    &&& is_digit(s[5])
    &&& is_digit(s[6])
    &&& s[7] == '-'
    &&& is_digit(s[8])
    &&& is_digit(s[9])
}

pub open spec fn date_str_year(s: Seq<char>) -> int {
    digit_val(s[0]) * 1000 + digit_val(s[1]) * 100 + digit_val(s[2]) * 10 + digit_val(s[3])
}

pub open spec fn date_str_month(s: Seq<char>) -> int {
    digit_val(s[5]) * 10 + digit_val(s[6])
}

pub open spec fn date_str_day(s: Seq<char>) -> int {
    digit_val(s[8]) * 10 + digit_val(s[9])
}

/// A parseable date input: well shaped, and naming a real calendar date.
pub open spec fn date_str_ok(s: Seq<char>) -> bool {
    date_str_shaped(s) && calendar::valid_ymd(
        date_str_year(s),
        date_str_month(s),
        date_str_day(s),
    )
}

/// Shape and ranges of an `HH:MM:SS` string.
pub open spec fn time_str_shaped(s: Seq<char>) -> bool {
    &&& s.len() == 8
    &&& is_digit(s[0])
    &&& is_digit(s[1])
    &&& s[2] == ':'
    &&& is_digit(s[3])
    &&& is_digit(s[4])
    &&& s[5] == ':'
    &&& is_digit(s[6])
    &&& is_digit(s[7])
}

pub open spec fn time_str_hour(s: Seq<char>) -> int {
    digit_val(s[0]) * 10 + digit_val(s[1])
}

pub open spec fn time_str_minute(s: Seq<char>) -> int {
    digit_val(s[3]) * 10 + digit_val(s[4])
}

pub open spec fn time_str_second(s: Seq<char>) -> int {
    digit_val(s[6]) * 10 + digit_val(s[7])
}

pub open spec fn time_str_ok(s: Seq<char>) -> bool {
    &&& time_str_shaped(s)
    &&& time_str_hour(s) < 24
    &&& time_str_minute(s) < 60
    &&& time_str_second(s) < 60
}

/// Reads one character as a decimal digit.
fn digit_of(c: char) -> (r: Option<u32>)
    ensures
        r is Some <==> is_digit(c),
        r is Some ==> r->Some_0 as int == digit_val(c) && r->Some_0 < 10,
{
    let u = c as u32;
    if 48 <= u && u <= 57 {
        Some(u - 48)
    } else {
        None
    }
}

/// Parses a `YYYY-MM-DD` string into year, month and day; `None` when the
/// input has the wrong shape or names no real calendar date.
pub fn parse_ymd(s: &str) -> (r: Option<(u32, u32, u32)>)
    ensures
        r is Some <==> date_str_ok(s@),
        r is Some ==> {
            &&& r->Some_0.0 as int == date_str_year(s@)
            &&& r->Some_0.1 as int == date_str_month(s@)
            &&& r->Some_0.2 as int == date_str_day(s@)
            &&& calendar::valid_ymd(
                r->Some_0.0 as int,
                r->Some_0.1 as int,
                r->Some_0.2 as int,
            )
        },
{
    if s.unicode_len() != 10 {
        return None;
    }
    if s.get_char(4) != '-' || s.get_char(7) != '-' {
        return None;
    }
    let d0 = digit_of(s.get_char(0));
    let d1 = digit_of(s.get_char(1));
    let d2 = digit_of(s.get_char(2));
    let d3 = digit_of(s.get_char(3));
    let d5 = digit_of(s.get_char(5));
    let d6 = digit_of(s.get_char(6));
    let d8 = digit_of(s.get_char(8));
    let d9 = digit_of(s.get_char(9));
    match (d0, d1, d2, d3, d5, d6, d8, d9) {
        (
            Some(y0),
            Some(y1),
            Some(y2),
            Some(y3),
            Some(m0),
            Some(m1),
            Some(a0),
            Some(a1),
        ) => {
            let y = y0 * 1000 + y1 * 100 + y2 * 10 + y3;
            let m = m0 * 10 + m1;
            let d = a0 * 10 + a1;
            if m < 1 || m > 12 {
                return None;
            }
            if d < 1 || d > calendar::days_in_month_exec(y, m) {
                return None;
            }
            Some((y, m, d))
        },
        _ => None,
    }
}

/// Parses an `HH:MM:SS` string; `None` when it is not a valid time of day.
pub fn parse_time(s: &str) -> (r: Option<TimeOfDay>)
    ensures
        r is Some <==> time_str_ok(s@),
        r is Some ==> {
            &&& r->Some_0.hour as int == time_str_hour(s@)
            &&& r->Some_0.minute as int == time_str_minute(s@)
            &&& r->Some_0.second as int == time_str_second(s@)
            &&& r->Some_0.wf()
        },
{
    if s.unicode_len() != 8 {
        return None;
    }
    if s.get_char(2) != ':' || s.get_char(5) != ':' {
        return None;
    }
    let d0 = digit_of(s.get_char(0));
    let d1 = digit_of(s.get_char(1));
    let d3 = digit_of(s.get_char(3));
    let d4 = digit_of(s.get_char(4));
    let d6 = digit_of(s.get_char(6));
    let d7 = digit_of(s.get_char(7));
    match (d0, d1, d3, d4, d6, d7) {
        (Some(h0), Some(h1), Some(m0), Some(m1), Some(s0), Some(s1)) => {
            let h = h0 * 10 + h1;
            let mi = m0 * 10 + m1;
            let se = s0 * 10 + s1;
            if h < 24 && mi < 60 && se < 60 {
                Some(TimeOfDay { hour: h as u8, minute: mi as u8, second: se as u8 })
            } else {
                None
            }
        },
        _ => None,
    }
}

/// Checks a command-line time argument; the error text explains the format.
pub fn validate_time_input(input_time: String) -> (r: Result<(), String>)
    ensures
        r is Ok <==> time_str_ok(input_time@),
{
    match parse_time(input_time.as_str()) {
        Some(_) => Ok(()),
        None => Err(String::from_str("input contains invalid characters")),
    }
}

/// Takes a date string such as `2020-10-21` and returns the instant of that
/// calendar day, using `time` as template for the time of day.
/// Returns a `String` as error, so it can be used to validate while invoking
/// as command line argument too.
pub fn convert_date_string_to_local(input_date: &str, time: &DateTime) -> (r: Result<
    DateTime,
    String,
>)
    ensures
        r is Ok <==> date_str_ok(input_date@),
        r is Ok ==> {
            &&& r->Ok_0.day as int == calendar::day_index(
                date_str_year(input_date@),
                date_str_month(input_date@),
                date_str_day(input_date@),
            )
            &&& r->Ok_0.secs == time.secs
            &&& 0 <= r->Ok_0.day <= calendar::DAY_INDEX_MAX
        },
{
    match parse_ymd(input_date) {
        Some((y, m, d)) => Ok(DateTime::new(calendar::day_index_exec(y, m, d), time.secs)),
        None => Err(String::from_str("Not a date. Example format: 2020-10-21")),
    }
}

/// Whether a date input passes the command-line check against `now`: it must
/// parse, lie strictly in the future, and less than 120 days ahead.
pub open spec fn date_input_acceptable(s: Seq<char>, now: DateTime) -> bool {
    &&& date_str_ok(s)
    &&& {
        let parsed = DateTime {
            day: calendar::day_index(date_str_year(s), date_str_month(s), date_str_day(s)) as i64,
            secs: now.secs,
        };
        &&& !parsed.spec_le(now)
        &&& parsed.spec_lt(DateTime { day: (now.day + 120) as i64, secs: now.secs })
    }
}

/// Checks a command-line date argument against `now`: parseable, strictly in
/// the future, and no more than 120 days ahead.
pub fn validate_date_input(input_date: String, now: &DateTime) -> (r: Result<(), String>)
    requires
        now.day <= calendar::DAY_INDEX_CEIL,
    ensures
        r is Ok <==> date_input_acceptable(input_date@, *now),
{
    let parsed = match convert_date_string_to_local(input_date.as_str(), now) {
        Ok(p) => p,
        Err(e) => {
            return Err(e);
        },
    };
    if parsed.is_at_or_before(now) {
        let mut msg = String::from_str("Date ");
        msg.append(input_date.as_str());
        msg.append(" must be in the future");
        return Err(msg);
    }
    let in_120_days = DateTime::new(now.day + 120, now.secs);
    if !parsed.is_before(&in_120_days) {
        let mut msg = String::from_str("Date ");
        msg.append(input_date.as_str());
        msg.append(" must not be more than 120 days in the future");
        return Err(msg);
    }
    Ok(())
}

/// Witnessed form of the email shape: `i` is the first `@` of the string,
/// and `j` a dot after it that comes before any second `@`.
pub open spec fn email_ok_at(s: Seq<char>, i: int, j: int) -> bool {
    &&& 0 <= i < j < s.len()
    &&& s[i] == '@'
    &&& (forall|k: int| 0 <= k < i ==> s[k] != '@')
    &&& s[j] == '.'
    &&& (forall|k: int| i < k < j ==> s[k] != '@')
}

/// Naive email shape check: something before an `@`, and the part between
/// the first and second `@` must contain a dot.
pub open spec fn email_ok(s: Seq<char>) -> bool {
    exists|i: int, j: int| email_ok_at(s, i, j)
}

/// Very naive email validation, as applied to command-line member arguments.
pub fn validate_email(input_email: String) -> (r: Result<(), String>)
    ensures
        r is Ok <==> email_ok(input_email@),
{
    let s = input_email.as_str();
    let n = s.unicode_len();
    let mut i: usize = 0;
    // find the first '@'
    while i < n && s.get_char(i) != '@'
        invariant
            i <= n,
            n == s@.len(),
            forall|k: int| 0 <= k < i ==> s@[k] != '@',
        decreases n - i,
    {
        i = i + 1;
    }
    if i >= n {
        return Err(String::from_str("Not an email"));
    }
    // look for a '.' after it, before any second '@'
    let at = i;
    let mut j = at + 1;
    while j < n && s.get_char(j) != '.' && s.get_char(j) != '@'
        invariant
            at < j <= n,
            n == s@.len(),
            forall|k: int| at < k < j ==> s@[k] != '.' && s@[k] != '@',
        decreases n - j,
    {
        j = j + 1;
    }
    if j < n && s.get_char(j) == '.' {
        assert(email_ok_at(input_email@, at as int, j as int));
        Ok(())
    } else {
        assert(forall|i2: int, j2: int| !email_ok_at(input_email@, i2, j2)) by {
            assert forall|i2: int, j2: int| !email_ok_at(input_email@, i2, j2) by {
                if email_ok_at(input_email@, i2, j2) {
                    assert(i2 == at as int);
                }
            }
        }
        Err(String::from_str("Not an email"))
    }
}

} // verus!
