//! Civil calendar arithmetic: turning the date and time a camera writes
//! into metadata (year, month, day, hour, minute, second, read as UTC)
//! into seconds since the epoch. The calendar is the proleptic Gregorian
//! one, stated day by day and month by month, and the conversion is proved
//! against that statement.

use vstd::prelude::*;

verus! {

/// Whether a year is a leap year: divisible by 4, except centuries, which
/// must be divisible by 400.
pub open spec fn is_leap_year(y: int) -> bool {
    y % 4 == 0 && (y % 100 != 0 || y % 400 == 0)
}

/// How many days a year has.
pub open spec fn days_in_year(y: int) -> int {
    if is_leap_year(y) {
        366
    } else {
        365
    }
}

/// How many days a month has in a given year.
pub open spec fn days_in_month(y: int, m: int) -> int {
    if m == 2 {
        if is_leap_year(y) {
            29
        } else {
            28
        }
    } else if m == 4 || m == 6 || m == 9 || m == 11 {
        30
    } else {
        31
    }
}

/// The days of all years from 1970 up to (excluding) `y`.
pub open spec fn days_before_year(y: int) -> int
    decreases y,
{
    if y <= 1970 {
        0
    } else {
        days_before_year(y - 1) + days_in_year(y - 1)
    }
}

/// The days of all months of year `y` before month `m`.
pub open spec fn days_before_month(y: int, m: int) -> int
    decreases m,
{
    if m <= 1 {
        0
    } else {
        days_before_month(y, m - 1) + days_in_month(y, m - 1)
    }
}

/// Days between 1970-01-01 and the given date.
pub open spec fn epoch_days(y: int, m: int, d: int) -> int {
    days_before_year(y) + days_before_month(y, m) + (d - 1)
}

/// Seconds between the epoch and the given date and time of day.
pub open spec fn epoch_seconds_spec(y: int, m: int, d: int, hh: int, mm: int, ss: int) -> int {
    epoch_days(y, m, d) * 86400 + hh * 3600 + mm * 60 + ss
}

/// Whether the fields name a real date and time of day, from 1970 on.
pub open spec fn valid_civil(y: int, m: int, d: int, hh: int, mm: int, ss: int) -> bool {
    &&& 1970 <= y <= 9999
    &&& 1 <= m <= 12
    &&& 1 <= d <= days_in_month(y, m)
    &&& 0 <= hh <= 23
    &&& 0 <= mm <= 59
    &&& 0 <= ss <= 59
}

/// Whether the fields name a real date and time of day, from 1970 on.
pub fn is_valid_civil(year: u16, month: u8, day: u8, hour: u8, minute: u8, second: u8) -> (r:
    bool)
    ensures
        r == valid_civil(
            year as int,
            month as int,
            day as int,
            hour as int,
            minute as int,
            second as int,
        ),
{
    1970 <= year && year <= 9999 && 1 <= month && month <= 12 && 1 <= day && day
        <= days_in_month_count(year, month) && hour <= 23 && minute <= 59 && second <= 59
}

/// How many days a month has in a given year.
fn days_in_month_count(year: u16, month: u8) -> (r: u8)
    ensures
        r == days_in_month(year as int, month as int),
{
    if month == 2 {
        if year % 4 == 0 && (year % 100 != 0 || year % 400 == 0) {
            29
        } else {
            28
        }
    } else if month == 4 || month == 6 || month == 9 || month == 11 {
        30
    } else {
        31
    }
}

/// Seconds since the epoch for a valid date and time of day, read as UTC.
pub fn epoch_seconds(year: u16, month: u8, day: u8, hour: u8, minute: u8, second: u8) -> (r: i64)
    requires
        valid_civil(year as int, month as int, day as int, hour as int, minute as int, second as int),
    ensures
        r == epoch_seconds_spec(
            year as int,
            month as int,
            day as int,
            hour as int,
            minute as int,
            second as int,
        ),
{
    let mut days: i64 = 0;
    let mut y: u16 = 1970;
    while y < year
        invariant
            1970 <= y <= year,
            days == days_before_year(y as int),
            0 <= days <= (y - 1970) * 366,
        decreases year - y,
    {
        if y % 4 == 0 && (y % 100 != 0 || y % 400 == 0) {
            days = days + 366;
        } else {
            days = days + 365;
        }
        proof {
            vstd::arithmetic::mul::lemma_mul_inequality(1, y + 1 - 1970, 366);
        }
        y = y + 1;
    }
    let mut m: u8 = 1;
    let ghost day_base = days;
    while m < month
        invariant
            1 <= m <= month,
            month <= 12,
            days == day_base + days_before_month(year as int, m as int),
            day_base <= days <= day_base + (m - 1) * 31,
            0 <= day_base <= 8030 * 366,
        decreases month - m,
    {
        let len = days_in_month_count(year, m);
        days = days + len as i64;
        proof {
            vstd::arithmetic::mul::lemma_mul_inequality(1, m + 1 - 1, 31);
        }
        m = m + 1;
    }
    days = days + (day as i64 - 1);
    days * 86400 + hour as i64 * 3600 + minute as i64 * 60 + second as i64
}

} // verus!
