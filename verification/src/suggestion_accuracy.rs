//! How far a suggested location may be off: a radius in meters around the
//! suggested coordinate, and the gap in seconds between the photograph and
//! the recorded fix the suggestion came from. Includes the exact text that
//! describes such an accuracy to a person, built and proved character by
//! character.

use vstd::prelude::*;

use crate::arith::{div_trunc, rem_trunc, div_trunc_i64, rem_trunc_i64};

verus! {

/// The decimal digits of a nonnegative number, most significant first.
pub open spec fn dec_digits(n: nat) -> Seq<char>
    decreases n,
{
    if n < 10 {
        seq![digit_char(n)]
    } else {
        dec_digits(n / 10).push(digit_char(n % 10))
    }
}

/// The character for one decimal digit.
pub open spec fn digit_char(d: nat) -> char {
    if d == 0 {
        '0'
    } else if d == 1 {
        '1'
    } else if d == 2 {
        '2'
    } else if d == 3 {
        '3'
    } else if d == 4 {
        '4'
    } else if d == 5 {
        '5'
    } else if d == 6 {
        '6'
    } else if d == 7 {
        '7'
    } else if d == 8 {
        '8'
    } else {
        '9'
    }
}

/// The decimal text of a signed number: a minus sign before the digits of
/// its magnitude when negative.
pub open spec fn dec_string(n: int) -> Seq<char> {
    if n < 0 {
        seq!['-'] + dec_digits((-n) as nat)
    } else {
        dec_digits(n as nat)
    }
}

/// The text for one time period: the count, a space, and the unit, which is
/// singular exactly when the count is 1.
pub open spec fn period_text(p: int, singular: Seq<char>, plural: Seq<char>) -> Seq<char> {
    dec_string(p) + seq![' '] + (if p == 1 {
        singular
    } else {
        plural
    })
}

/// The first `i` parts joined by the separator.
pub open spec fn joined_upto(parts: Seq<Seq<char>>, sep: Seq<char>, i: int) -> Seq<char>
    decreases i,
{
    if i <= 0 {
        Seq::empty()
    } else if i == 1 {
        parts[0]
    } else {
        joined_upto(parts, sep, i - 1) + sep + parts[i - 1]
    }
}

/// All parts joined by the separator.
pub open spec fn joined(parts: Seq<Seq<char>>, sep: Seq<char>) -> Seq<char> {
    joined_upto(parts, sep, parts.len() as int)
}

/// The time periods named when a gap of `s` seconds is written out: weeks,
/// then the leftover days, hours, minutes and seconds, each only when it
/// contributes. Each period keeps the sign of the gap.
pub open spec fn time_periods(s: int) -> Seq<Seq<char>> {
    let weeks = div_trunc(s, 604800);
    let days = div_trunc(s, 86400);
    let hours = div_trunc(s, 3600);
    let minutes = div_trunc(s, 60);
    (if weeks != 0 {
        seq![period_text(weeks, "week"@, "weeks"@)]
    } else {
        Seq::empty()
    }) + (if days != 0 && rem_trunc(days, 7) != 0 {
        seq![period_text(rem_trunc(days, 7), "day"@, "days"@)]
    } else {
        Seq::empty()
    }) + (if hours != 0 && rem_trunc(hours, 24) != 0 {
        seq![period_text(rem_trunc(hours, 24), "hour"@, "hours"@)]
    } else {
        Seq::empty()
    }) + (if minutes != 0 && rem_trunc(minutes, 60) != 0 {
        seq![period_text(rem_trunc(minutes, 60), "minute"@, "minutes"@)]
    } else {
        Seq::empty()
    }) + (if s != 0 && rem_trunc(s, 60) != 0 {
        seq![period_text(rem_trunc(s, 60), "second"@, "seconds"@)]
    } else {
        Seq::empty()
    })
}

/// The full text for a time gap: its periods joined by a comma and a
/// space, or a literal zero for no gap at all.
pub open spec fn pretty_time(s: int) -> Seq<char> {
    if s == 0 {
        "0 seconds"@
    } else {
        joined(time_periods(s), ", "@)
    }
}

/// The full text for a suggestion accuracy: the radius in metres, then the
/// time gap.
pub open spec fn accuracy_text(meters: int, seconds: int) -> Seq<char> {
    dec_string(meters) + " metres, "@ + pretty_time(seconds)
}

/// How far a suggested location may be off: a confidence radius in meters,
/// and the time gap in seconds between the photograph and the fix behind
/// the suggestion.
#[derive(PartialEq, Eq, Structural, Debug)]
pub struct SuggestionAccuracy {
    meters: u32,
    seconds: i64,
}

impl SuggestionAccuracy {
    /// The confidence radius in meters.
    pub closed spec fn spec_meters(self) -> u32 {
        self.meters
    }

    /// The time gap in seconds.
    pub closed spec fn spec_seconds(self) -> i64 {
        self.seconds
    }

    pub fn new(meters: u32, seconds: i64) -> (r: SuggestionAccuracy)
        ensures
            r.spec_meters() == meters,
            r.spec_seconds() == seconds,
    {
        SuggestionAccuracy { meters, seconds }
    }

    pub fn meters(&self) -> (r: u32)
        ensures
            r == self.spec_meters(),
    {
        self.meters
    }

    pub fn seconds(&self) -> (r: i64)
        ensures
            r == self.spec_seconds(),
    {
        self.seconds
    }

    /// The text that describes this accuracy to a person.
    pub fn display_string(&self) -> (r: String)
        ensures
            r@ == accuracy_text(self.spec_meters() as int, self.spec_seconds() as int),
    {
        let mut out = u64_to_string(self.meters as u64);
        out.append(" metres, ");
        let time = self.pretty_print_time();
        out.append(time.as_str());
        proof {
            assert(out@ =~= accuracy_text(self.spec_meters() as int, self.spec_seconds() as int));
        }
        out
    }

    /// The time gap written out in words.
    fn pretty_print_time(&self) -> (r: String)
        ensures
            r@ == pretty_time(self.spec_seconds() as int),
    {
        if self.seconds == 0 {
            let out = String::from_str("0 seconds");
            return out;
        }
        let s: i64 = self.seconds;
        let weeks: i64 = div_trunc_i64(s, 604800);
        let days: i64 = div_trunc_i64(s, 86400);
        let hours: i64 = div_trunc_i64(s, 3600);
        let minutes: i64 = div_trunc_i64(s, 60);

        let mut periods: Vec<String> = Vec::new();
        let ghost parts = time_periods(s as int);

        if weeks != 0 {
            let p = print_period(weeks, "week", "weeks");
            periods.push(p);
        }
        if should_print_period(days, 7) {
            let p = print_period(rem_trunc_i64(days, 7), "day", "days");
            periods.push(p);
        }
        if should_print_period(hours, 24) {
            let p = print_period(rem_trunc_i64(hours, 24), "hour", "hours");
            periods.push(p);
        }
        if should_print_period(minutes, 60) {
            let p = print_period(rem_trunc_i64(minutes, 60), "minute", "minutes");
            periods.push(p);
        }
        if should_print_period(s, 60) {
            let p = print_period(rem_trunc_i64(s, 60), "second", "seconds");
            periods.push(p);
        }
        proof {
            assert(periods@.map_values(|p: String| p@) =~= parts);
        }
        join_strings(&periods, ", ")
    }
}

/// Whether a period at this unit is written out: it exists, and it is not
/// exactly a whole number of the next larger unit.
pub fn should_print_period(period: i64, max: u8) -> (r: bool)
    requires
        max > 0,
    ensures
        r == (period != 0 && rem_trunc(period as int, max as int) != 0),
{
    period != 0 && rem_trunc_i64(period, max as i64) != 0
}

/// One time period written out: the count and its unit, singular only for a
/// count of exactly 1.
pub fn print_period(period: i64, singular: &str, plural: &str) -> (r: String)
    ensures
        r@ == period_text(period as int, singular@, plural@),
{
    let mut out = i64_to_string(period);
    out.append(" ");
    proof {
        reveal_strlit(" ");
        assert(out@ =~= dec_string(period as int) + seq![' ']);
    }
    if period == 1 {
        out.append(singular);
    } else {
        out.append(plural);
    }
    out
}

/// The decimal digits of an unsigned number, as text.
fn u64_to_string(n: u64) -> (r: String)
    ensures
        r@ == dec_digits(n as nat),
    decreases n,
{
    if n < 10 {
        let d = digit_str(n as u8);
        let out = d.to_owned();
        out
    } else {
        let mut out = u64_to_string(n / 10);
        let d = digit_str((n % 10) as u8);
        out.append(d);
        proof {
            assert(out@ =~= dec_digits((n / 10) as nat).push(digit_char((n % 10) as nat)));
        }
        out
    }
}

/// The decimal text of a signed number.
fn i64_to_string(n: i64) -> (r: String)
    ensures
        r@ == dec_string(n as int),
{
    if n >= 0 {
        u64_to_string(n as u64)
    } else {
        let magnitude: u64 = if n == i64::MIN {
            9223372036854775808u64
        } else {
            (-n) as u64
        };
        let mut out = String::from_str("-");
        let digits = u64_to_string(magnitude);
        out.append(digits.as_str());
        proof {
            reveal_strlit("-");
            assert(out@ =~= seq!['-'] + dec_digits(magnitude as nat));
        }
        out
    }
}

/// The character of one decimal digit.
fn digit_str(d: u8) -> (r: &'static str)
    requires
        d < 10,
    ensures
        r@ == seq![digit_char(d as nat)],
{
    proof {
        reveal_strlit("0");
        reveal_strlit("1");
        reveal_strlit("2");
        reveal_strlit("3");
        reveal_strlit("4");
        reveal_strlit("5");
        reveal_strlit("6");
        reveal_strlit("7");
        reveal_strlit("8");
        reveal_strlit("9");
    }
    let r = match d {
        0 => "0",
        1 => "1",
        2 => "2",
        3 => "3",
        4 => "4",
        5 => "5",
        6 => "6",
        7 => "7",
        8 => "8",
        _ => "9",
    };
    proof {
        assert(r@ =~= seq![digit_char(d as nat)]);
    }
    r
}

/// The given parts joined by the separator.
fn join_strings(parts: &Vec<String>, sep: &str) -> (r: String)
    ensures
        r@ == joined(parts@.map_values(|p: String| p@), sep@),
{
    let ghost views = parts@.map_values(|p: String| p@);
    if parts.len() == 0 {
        let out = String::new();
        proof {
            assert(out@ =~= joined(views, sep@));
        }
        return out;
    }
    let mut out: String = parts[0].clone();
    let mut i: usize = 1;
    while i < parts.len()
        invariant
            1 <= i <= parts@.len(),
            views == parts@.map_values(|p: String| p@),
            out@ == joined_upto(views, sep@, i as int),
        decreases parts@.len() - i,
    {
        out.append(sep);
        out.append(parts[i].as_str());
        i = i + 1;
    }
    out
}

} // verus!
