//! ASN.1 UTCTime strings as seconds since the Unix epoch.

use chrono::NaiveDate;
use vstd::prelude::*;

verus! {

/// Whether `y` is a leap year of the Gregorian calendar.
pub open spec fn is_leap_year(y: int) -> bool {
    y % 4 == 0 && (y % 100 != 0 || y % 400 == 0)
}

/// The number of days of month `m` of year `y`.
pub open spec fn days_in_month(y: int, m: int) -> int {
    if m == 2 {
        if is_leap_year(y) {
            29
        } else {
            28
        }
    } else if m == 4 || m == 6 || m == 9 || m == 11 {
        30
    } else {
        31
    }
}

/// The number of days of year `y` that lie before its month `m`.
pub open spec fn days_before_month(y: int, m: int) -> int
    decreases m,
{
    if m <= 1 {
        0
    } else {
        days_before_month(y, m - 1) + days_in_month(y, m - 1)
    }
}

/// The number of leap years among the years 1 to `y - 1`.
pub open spec fn leap_years_before(y: int) -> int {
    (y - 1) / 4 - (y - 1) / 100 + (y - 1) / 400
}

/// The number of days from 1 January 1970 to the given day; negative for a
/// day before it.
pub open spec fn days_from_epoch(y: int, m: int, d: int) -> int {
    365 * (y - 1970) + leap_years_before(y) - leap_years_before(1970) + days_before_month(y, m)
        + d - 1
}

/// Whether the numbers name a day of the Gregorian calendar and a second of
/// that day.
pub open spec fn is_civil(y: int, m: int, d: int, h: int, mi: int, s: int) -> bool {
    &&& 1 <= m <= 12
    &&& 1 <= d <= days_in_month(y, m)
    &&& 0 <= h < 24
    &&& 0 <= mi < 60
    &&& 0 <= s < 60
}

/// The number of seconds, leap seconds not counted, from
/// 1970-01-01T00:00:00Z to the given instant.
pub open spec fn unix_seconds(y: int, m: int, d: int, h: int, mi: int, s: int) -> int {
    days_from_epoch(y, m, d) * 86400 + h * 3600 + mi * 60 + s
}

/// Whether `b` is an ASCII decimal digit.
pub open spec fn is_digit(b: u8) -> bool {
    48 <= b <= 57
}

/// The number that the two digits at indices `at` and `at + 1` of `s` spell.
pub open spec fn two_digits(s: Seq<u8>, at: int) -> int {
    (s[at] - 48) * 10 + (s[at + 1] - 48)
}

/// `s` has the form `YYMMDDHHMMSSZ`: twelve digits and the letter Z.
pub open spec fn is_utc_time_form(s: Seq<u8>) -> bool {
    &&& s.len() == 13
    &&& forall|i: int| 0 <= i < 12 ==> is_digit(#[trigger] s[i])
    &&& s[12] == 90
}

/// The year that a two-digit year stands for: 2000 to 2049 below 50, 1950 to
/// 1999 from 50 on.
pub open spec fn full_year(yy: int) -> int {
    if yy < 50 {
        2000 + yy
    } else {
        1900 + yy
    }
}

/// The second that a seconds field stands for: 60 announces a leap second,
/// which counts as the last second of its minute.
pub open spec fn civil_second(ss: int) -> int {
    if ss == 60 {
        59
    } else {
        ss
    }
}

/// The instant that `s` names, in seconds since the Unix epoch; `None` where
/// `s` is not of the form `YYMMDDHHMMSSZ` or names no instant.
pub open spec fn utc_time_seconds(s: Seq<u8>) -> Option<int> {
    if !is_utc_time_form(s) {
        None
    } else {
        let y = full_year(two_digits(s, 0));
        let m = two_digits(s, 2);
        let d = two_digits(s, 4);
        let h = two_digits(s, 6);
        let mi = two_digits(s, 8);
        let sec = civil_second(two_digits(s, 10));
        if is_civil(y, m, d, h, mi, sec) {
            Some(unix_seconds(y, m, d, h, mi, sec))
        } else {
            None
        }
    }
}

/// A string of any other form than `YYMMDDHHMMSSZ` names no instant: not one
/// of another length, nor one with another character than a digit in its
/// first twelve places or than the letter Z in its last.
pub proof fn lemma_other_forms_name_no_instant(s: Seq<u8>)
    requires
        s.len() != 13 || s[12] != 90 || exists|i: int| 0 <= i < 12 && !is_digit(#[trigger] s[i]),
    ensures
        utc_time_seconds(s) is None,
{
}

/// Calls `chrono::NaiveDate::from_ymd_opt`, then `and_hms_opt` on the date,
/// `and_utc` on the date and time, and `timestamp` on the result.
///
/// Trusted: the first two return a value exactly for a day that the
/// Gregorian calendar has and for an hour below 24, a minute and a second
/// below 60; the timestamp is the count of seconds, leap seconds left out,
/// since 1970-01-01T00:00:00 UTC.
#[verifier::external_body]
fn chrono_timestamp(year: i32, month: u32, day: u32, hour: u32, minute: u32, second: u32) -> (r:
    Option<i64>)
    requires
        1 <= year <= 9999,
    ensures
        match r {
            Some(t) => is_civil(
                year as int,
                month as int,
                day as int,
                hour as int,
                minute as int,
                second as int,
            ) && t == unix_seconds(
                year as int,
                month as int,
                day as int,
                hour as int,
                minute as int,
                second as int,
            ),
            None => !is_civil(
                year as int,
                month as int,
                day as int,
                hour as int,
                minute as int,
                second as int,
            ),
        },
{
    let date = NaiveDate::from_ymd_opt(year, month, day)?;
    Some(date.and_hms_opt(hour, minute, second)?.and_utc().timestamp())
}

/// Reads the two digits at `at` and `at + 1`.
fn read_two_digits(s: &[u8], at: usize) -> (n: u32)
    requires
        at + 1 < s@.len(),
        is_digit(s@[at as int]),
        is_digit(s@[at + 1]),
    ensures
        n == two_digits(s@, at as int),
        n < 100,
{
    ((s[at] - 48) as u32) * 10 + ((s[at + 1] - 48) as u32)
}

/// Whether `s` has the form `YYMMDDHHMMSSZ`.
pub fn has_utc_time_form(s: &[u8]) -> (b: bool)
    ensures
        b == is_utc_time_form(s@),
{
    if s.len() != 13 {
        return false;
    }
    let mut i: usize = 0;
    while i < 12
        invariant
            s@.len() == 13,
            0 <= i <= 12,
            forall|j: int| 0 <= j < i ==> is_digit(#[trigger] s@[j]),
        decreases 12 - i,
    {
        if s[i] < 48 || s[i] > 57 {
            return false;
        }
        i += 1;
    }
    s[12] == 90
}

/// Converts a UTCTime string to seconds since the Unix epoch.
///
/// Succeeds exactly on the strings of the form `YYMMDDHHMMSSZ` that name an
/// instant, and then returns the instant.
pub fn utc_time_to_timestamp(s: &[u8]) -> (r: Option<i64>)
    ensures
        match utc_time_seconds(s@) {
            Some(t) => r matches Some(v) && v == t,
            None => r is None,
        },
{
    if !has_utc_time_form(s) {
        return None;
    }
    let yy = read_two_digits(s, 0);
    let year: i32 = if yy < 50 {
        2000 + yy as i32
    } else {
        1900 + yy as i32
    };
    let month = read_two_digits(s, 2);
    let day = read_two_digits(s, 4);
    let hour = read_two_digits(s, 6);
    let minute = read_two_digits(s, 8);
    let ss = read_two_digits(s, 10);
    let second = if ss == 60 {
        59
    } else {
        ss
    };
    chrono_timestamp(year, month, day, hour, minute, second)
}

} // verus!
