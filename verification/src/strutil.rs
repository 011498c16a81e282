//! Small verified string helpers.

use vstd::prelude::*;
use vstd::string::StrSliceExecFns;

verus! {

/// Character-for-character equality of two string slices.
pub fn str_eq(a: &str, b: &str) -> (r: bool)
    ensures
        r == (a@ == b@),
{
    let na = a.unicode_len();
    let nb = b.unicode_len();
    if na != nb {
        return false;
    }
    let mut i: usize = 0;
    while i < na
        invariant
            i <= na,
            na == a@.len(),
            na == b@.len(),
            forall|k: int| 0 <= k < i ==> a@[k] == b@[k],
        decreases na - i,
    {
        if a.get_char(i) != b.get_char(i) {
            return false;
        }
        i = i + 1;
    }
    assert(a@ =~= b@);
    true
}

/// Relies on `String::push`: appends exactly the one character.
#[verifier::external_body]
pub fn push_char(s: &mut String, c: char)
    ensures
        final(s)@ == old(s)@.push(c),
{
    s.push(c);
}

/// The character of one decimal digit.
pub open spec fn spec_digit_char(v: int) -> char {
    ((48 + v) as u8) as char
}

/// The ten characters of a `YYYY-MM-DD` rendering.
pub open spec fn ymd_chars(y: int, m: int, d: int) -> Seq<char> {
    seq![
        spec_digit_char(y / 1000),
        spec_digit_char((y / 100) % 10),
        spec_digit_char((y / 10) % 10),
        spec_digit_char(y % 10),
        '-',
        spec_digit_char(m / 10),
        spec_digit_char(m % 10),
        '-',
        spec_digit_char(d / 10),
        spec_digit_char(d % 10),
    ]
}

pub(crate) fn digit_char_of(v: u32) -> (c: char)
    requires
        v < 10,
    ensures
        c == spec_digit_char(v as int),
        crate::dates::is_digit(c),
        crate::dates::digit_val(c) == v as int,
{
    ((48 + v) as u8) as char
}

/// Renders a date as `YYYY-MM-DD`, each part zero-padded.
pub fn format_ymd(y: u32, m: u32, d: u32) -> (r: String)
    requires
        y <= 9999,
        1 <= m <= 12,
        1 <= d <= 31,
    ensures
        r@ =~= ymd_chars(y as int, m as int, d as int),
        crate::dates::date_str_shaped(r@),
        crate::dates::date_str_year(r@) == y as int,
        crate::dates::date_str_month(r@) == m as int,
        crate::dates::date_str_day(r@) == d as int,
{
    let mut s = String::new();
    push_char(&mut s, digit_char_of(y / 1000));
    push_char(&mut s, digit_char_of((y / 100) % 10));
    push_char(&mut s, digit_char_of((y / 10) % 10));
    push_char(&mut s, digit_char_of(y % 10));
    push_char(&mut s, '-');
    push_char(&mut s, digit_char_of(m / 10));
    push_char(&mut s, digit_char_of(m % 10));
    push_char(&mut s, '-');
    push_char(&mut s, digit_char_of(d / 10));
    push_char(&mut s, digit_char_of(d % 10));
    proof {
        let yi = y as int;
        vstd::arithmetic::div_mod::lemma_fundamental_div_mod(yi, 10);
        vstd::arithmetic::div_mod::lemma_fundamental_div_mod(yi / 10, 10);
        vstd::arithmetic::div_mod::lemma_fundamental_div_mod(yi / 100, 10);
        vstd::arithmetic::div_mod::lemma_div_denominator(yi, 10, 10);
        vstd::arithmetic::div_mod::lemma_div_denominator(yi, 100, 10);
        assert(yi == (yi / 1000) * 1000 + ((yi / 100) % 10) * 100 + ((yi / 10) % 10) * 10 + yi
            % 10);
        let mi = m as int;
        vstd::arithmetic::div_mod::lemma_fundamental_div_mod(mi, 10);
        let di = d as int;
        vstd::arithmetic::div_mod::lemma_fundamental_div_mod(di, 10);
    }
    s
}

/// Renders a day index as `YYYY-MM-DD`; `None` outside the supported years.
pub fn format_day_index(day: i64) -> (r: Option<String>)
    ensures
        r matches Some(s) ==> {
            &&& crate::dates::date_str_shaped(s@)
            &&& crate::calendar::day_index(
                crate::dates::date_str_year(s@),
                crate::dates::date_str_month(s@),
                crate::dates::date_str_day(s@),
            ) == day as int
        },
{
    if day < 0 {
        return None;
    }
    let limit = crate::calendar::days_before_year_exec(10000);
    if day >= limit as i64 {
        return None;
    }
    let (y, m, d) = crate::calendar::civil_from_days(day);
    Some(format_ymd(y, m, d))
}

} // verus!
