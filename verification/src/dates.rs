//! Calendar dates and times of day as plain values.
//!
//! Events carry a date and an optional time.  The submission API accepts them
//! as text — a date as `YYYY-MM-DD`, a time as `HH:MM:SS`, and the month
//! filter of the event listing as `YYYY-MM` — and the parsers here validate
//! the fields against the calendar (month ranges, month lengths, leap years).

use vstd::prelude::*;
use vstd::string::StrSliceExecFns;

verus! {

/// A calendar date.  Well-formed values satisfy [`date_wf`].
#[derive(Clone, Copy, Debug, PartialEq, Eq, Structural)]
pub struct Date {
    pub year: u32,
    pub month: u32,
    pub day: u32,
}

/// A time of day.  Well-formed values satisfy [`time_wf`].
#[derive(Clone, Copy, Debug, PartialEq, Eq, Structural)]
pub struct Time {
    pub hour: u32,
    pub minute: u32,
    pub second: u32,
}

/// A calendar month, as the event listing's month filter names one.
#[derive(Clone, Copy, Debug, PartialEq, Eq, Structural)]
pub struct YearMonth {
    pub year: u32,
    pub month: u32,
}

pub open spec fn spec_is_leap_year(y: int) -> bool {
    (y % 4 == 0 && y % 100 != 0) || y % 400 == 0
}

pub open spec fn spec_days_in_month(y: int, m: int) -> int {
    if m == 2 {
        if spec_is_leap_year(y) {
            29
        } else {
            28
        }
    } else if m == 4 || m == 6 || m == 9 || m == 11 {
        30
    } else {
        31
    }
}

/// A date the four-digit-year calendar admits.
pub open spec fn date_wf(d: Date) -> bool {
    &&& d.year <= 9999
    &&& 1 <= d.month <= 12
    &&& 1 <= d.day <= spec_days_in_month(d.year as int, d.month as int)
}

pub open spec fn time_wf(t: Time) -> bool {
    t.hour < 24 && t.minute < 60 && t.second < 60
}

pub open spec fn year_month_wf(ym: YearMonth) -> bool {
    ym.year <= 9999 && 1 <= ym.month <= 12
}

/// Number of days in the month, counting leap years.
pub fn days_in_month(year: u32, month: u32) -> (r: u32)
    requires
        1 <= month <= 12,
    ensures
        r == spec_days_in_month(year as int, month as int),
{
    if month == 2 {
        if (year % 4 == 0 && year % 100 != 0) || year % 400 == 0 {
            29
        } else {
            28
        }
    } else if month == 4 || month == 6 || month == 9 || month == 11 {
        30
    } else {
        31
    }
}

pub open spec fn is_digit(c: char) -> bool {
    0x30 <= c as u32 <= 0x39
}

pub open spec fn digit_val(c: char) -> int {
    c as u32 - 0x30
}

fn digit_of(c: char) -> (r: Option<u32>)
    ensures
        r is Some <==> is_digit(c),
        is_digit(c) ==> r == Some(digit_val(c) as u32),
{
    let u: u32 = c as u32;
    if 0x30 <= u && u <= 0x39 {
        Some(u - 0x30)
    } else {
        None
    }
}

/// The text has the shape `YYYY-MM-DD`, digits and dashes in place.
pub open spec fn date_digits_ok(s: Seq<char>) -> bool {
    &&& s.len() == 10
    &&& is_digit(s[0]) && is_digit(s[1]) && is_digit(s[2]) && is_digit(s[3])
    &&& s[4] == '-'
    &&& is_digit(s[5]) && is_digit(s[6])
    &&& s[7] == '-'
    &&& is_digit(s[8]) && is_digit(s[9])
}

/// The date the digits of a `YYYY-MM-DD` text spell, before validation.
pub open spec fn spec_date_of(s: Seq<char>) -> Date {
    Date {
        year: (digit_val(s[0]) * 1000 + digit_val(s[1]) * 100 + digit_val(s[2]) * 10 + digit_val(
            s[3],
        )) as u32,
        month: (digit_val(s[5]) * 10 + digit_val(s[6])) as u32,
        day: (digit_val(s[8]) * 10 + digit_val(s[9])) as u32,
    }
}

/// The text is a valid `YYYY-MM-DD` calendar date.
pub open spec fn spec_is_date_str(s: Seq<char>) -> bool {
    date_digits_ok(s) && date_wf(spec_date_of(s))
}

/// Parses a `YYYY-MM-DD` date, rejecting anything the calendar does not admit.
pub fn parse_date(s: &str) -> (r: Option<Date>)
    ensures
        spec_is_date_str(s@) ==> r == Some(spec_date_of(s@)),
        !spec_is_date_str(s@) ==> r is None,
        r is Some ==> date_wf(r->Some_0),
{
    if s.unicode_len() != 10 {
        return None;
    }
    if s.get_char(4) != '-' || s.get_char(7) != '-' {
        return None;
    }
    let d0: u32 = match digit_of(s.get_char(0)) { Some(d) => d, None => { return None; } };
    let d1: u32 = match digit_of(s.get_char(1)) { Some(d) => d, None => { return None; } };
    let d2: u32 = match digit_of(s.get_char(2)) { Some(d) => d, None => { return None; } };
    let d3: u32 = match digit_of(s.get_char(3)) { Some(d) => d, None => { return None; } };
    let d5: u32 = match digit_of(s.get_char(5)) { Some(d) => d, None => { return None; } };
    let d6: u32 = match digit_of(s.get_char(6)) { Some(d) => d, None => { return None; } };
    let d8: u32 = match digit_of(s.get_char(8)) { Some(d) => d, None => { return None; } };
    let d9: u32 = match digit_of(s.get_char(9)) { Some(d) => d, None => { return None; } };
    let year: u32 = d0 * 1000 + d1 * 100 + d2 * 10 + d3;
    let month: u32 = d5 * 10 + d6;
    let day: u32 = d8 * 10 + d9;
    if month < 1 || month > 12 {
        return None;
    }
    if day < 1 || day > days_in_month(year, month) {
        return None;
    }
    Some(Date { year, month, day })
}

/// The text has the shape `HH:MM:SS`, digits and colons in place.
pub open spec fn time_digits_ok(s: Seq<char>) -> bool {
    &&& s.len() == 8
    &&& is_digit(s[0]) && is_digit(s[1])
    &&& s[2] == ':'
    &&& is_digit(s[3]) && is_digit(s[4])
    &&& s[5] == ':'
    &&& is_digit(s[6]) && is_digit(s[7])
}

/// The time the digits of an `HH:MM:SS` text spell, before validation.
pub open spec fn spec_time_of(s: Seq<char>) -> Time {
    Time {
        hour: (digit_val(s[0]) * 10 + digit_val(s[1])) as u32,
        minute: (digit_val(s[3]) * 10 + digit_val(s[4])) as u32,
        second: (digit_val(s[6]) * 10 + digit_val(s[7])) as u32,
    }
}

/// The text is a valid `HH:MM:SS` time of day.
pub open spec fn spec_is_time_str(s: Seq<char>) -> bool {
    time_digits_ok(s) && time_wf(spec_time_of(s))
}

/// Parses an `HH:MM:SS` time of day.
pub fn parse_time(s: &str) -> (r: Option<Time>)
    ensures
        spec_is_time_str(s@) ==> r == Some(spec_time_of(s@)),
        !spec_is_time_str(s@) ==> r is None,
        r is Some ==> time_wf(r->Some_0),
{
    if s.unicode_len() != 8 {
        return None;
    }
    if s.get_char(2) != ':' || s.get_char(5) != ':' {
        return None;
    }
    let d0: u32 = match digit_of(s.get_char(0)) { Some(d) => d, None => { return None; } };
    let d1: u32 = match digit_of(s.get_char(1)) { Some(d) => d, None => { return None; } };
    let d3: u32 = match digit_of(s.get_char(3)) { Some(d) => d, None => { return None; } };
    let d4: u32 = match digit_of(s.get_char(4)) { Some(d) => d, None => { return None; } };
    let d6: u32 = match digit_of(s.get_char(6)) { Some(d) => d, None => { return None; } };
    let d7: u32 = match digit_of(s.get_char(7)) { Some(d) => d, None => { return None; } };
    let hour: u32 = d0 * 10 + d1;
    let minute: u32 = d3 * 10 + d4;
    let second: u32 = d6 * 10 + d7;
    if hour >= 24 || minute >= 60 || second >= 60 {
        return None;
    }
    Some(Time { hour, minute, second })
}

/// The text has the shape `YYYY-MM`, digits and dash in place.
pub open spec fn month_digits_ok(s: Seq<char>) -> bool {
    &&& s.len() == 7
    &&& is_digit(s[0]) && is_digit(s[1]) && is_digit(s[2]) && is_digit(s[3])
    &&& s[4] == '-'
    &&& is_digit(s[5]) && is_digit(s[6])
}

/// The month the digits of a `YYYY-MM` text spell, before validation.
pub open spec fn spec_month_of(s: Seq<char>) -> YearMonth {
    YearMonth {
        year: (digit_val(s[0]) * 1000 + digit_val(s[1]) * 100 + digit_val(s[2]) * 10 + digit_val(
            s[3],
        )) as u32,
        month: (digit_val(s[5]) * 10 + digit_val(s[6])) as u32,
    }
}

/// The text is a valid `YYYY-MM` month.
pub open spec fn spec_is_month_str(s: Seq<char>) -> bool {
    month_digits_ok(s) && year_month_wf(spec_month_of(s))
}

/// Parses the `YYYY-MM` month filter of the event listing.
pub fn parse_month(s: &str) -> (r: Option<YearMonth>)
    ensures
        spec_is_month_str(s@) ==> r == Some(spec_month_of(s@)),
        !spec_is_month_str(s@) ==> r is None,
        r is Some ==> year_month_wf(r->Some_0),
{
    if s.unicode_len() != 7 {
        return None;
    }
    if s.get_char(4) != '-' {
        return None;
    }
    let d0: u32 = match digit_of(s.get_char(0)) { Some(d) => d, None => { return None; } };
    let d1: u32 = match digit_of(s.get_char(1)) { Some(d) => d, None => { return None; } };
    let d2: u32 = match digit_of(s.get_char(2)) { Some(d) => d, None => { return None; } };
    let d3: u32 = match digit_of(s.get_char(3)) { Some(d) => d, None => { return None; } };
    let d5: u32 = match digit_of(s.get_char(5)) { Some(d) => d, None => { return None; } };
    let d6: u32 = match digit_of(s.get_char(6)) { Some(d) => d, None => { return None; } };
    let year: u32 = d0 * 1000 + d1 * 100 + d2 * 10 + d3;
    let month: u32 = d5 * 10 + d6;
    if month < 1 || month > 12 {
        return None;
    }
    Some(YearMonth { year, month })
}

/// A single ordering key for a date: later dates get larger keys.
pub open spec fn date_key(d: Date) -> int {
    d.year * 10000 + d.month * 100 + d.day
}

/// A single ordering key for a time of day.
pub open spec fn time_key(t: Time) -> int {
    t.hour * 3600 + t.minute * 60 + t.second
}

/// Key for an optional time: a missing time sorts after every real one.
pub open spec fn opt_time_key(t: Option<Time>) -> int {
    match t {
        Some(tt) => time_key(tt),
        None => 86400,
    }
}

} // verus!
