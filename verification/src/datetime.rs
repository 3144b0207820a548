//! Calendar dates of file times (UTC, proleptic Gregorian calendar).
use vstd::prelude::*;

use vstd::string::{StrSliceExecFns, StringExecFns};

use crate::text::{decimal, push_char, u64_to_string};

verus! {

/// A leap year of the Gregorian calendar.
pub open spec fn leap(y: int) -> bool {
    (y % 4 == 0 && y % 100 != 0) || y % 400 == 0
}

/// Number of days of year `y`.
pub open spec fn year_length(y: int) -> nat {
    if leap(y) {
        366
    } else {
        365
    }
}

/// Number of days of month `m` (0 for January) in a year that is a leap
/// year or not.
pub open spec fn month_length(is_leap: bool, m: int) -> nat {
    if m == 1 {
        if is_leap {
            29
        } else {
            28
        }
    } else if m == 3 || m == 5 || m == 8 || m == 10 {
        30
    } else {
        31
    }
}

/// Splits `days` days counted from January 1st of year `y` into a year and
/// the number of days into that year.
pub open spec fn year_and_day(days: nat, y: int) -> (int, nat)
    decreases days,
{
    if days < year_length(y) {
        (y, days)
    } else {
        year_and_day((days - year_length(y)) as nat, y + 1)
    }
}

/// Splits day `d` of a year into a month (0 for January) and the day in that
/// month (0 for the first), counting from month `m`.
pub open spec fn month_and_day(is_leap: bool, d: nat, m: int) -> (int, nat)
    decreases 12 - m,
{
    if m >= 12 {
        (0, d)
    } else if d < month_length(is_leap, m) {
        (m, d)
    } else {
        month_and_day(is_leap, (d - month_length(is_leap, m)) as nat, m + 1)
    }
}

/// The number of days of a year before the first of month `m` (0 for
/// January, 12 for the end of the year) in the Gregorian calendar: 31 for
/// February, 59 for March (60 in a leap year), and so on.
pub open spec fn days_before_month(is_leap: bool, m: int) -> int {
    let common: int = if m <= 0 {
        0
    } else if m == 1 {
        31
    } else if m == 2 {
        59
    } else if m == 3 {
        90
    } else if m == 4 {
        120
    } else if m == 5 {
        151
    } else if m == 6 {
        181
    } else if m == 7 {
        212
    } else if m == 8 {
        243
    } else if m == 9 {
        273
    } else if m == 10 {
        304
    } else if m == 11 {
        334
    } else {
        365
    };
    if is_leap && m >= 2 {
        common + 1
    } else {
        common
    }
}

proof fn lemma_month_from(is_leap: bool, d: nat, m: int)
    requires
        0 <= m <= 12,
        days_before_month(is_leap, m) <= d < days_before_month(is_leap, 12),
    ensures
        ({
            let (month, day) = month_and_day(is_leap, (d - days_before_month(is_leap, m)) as nat, m);
            &&& m <= month < 12
            &&& days_before_month(is_leap, month) <= d < days_before_month(is_leap, month + 1)
            &&& day == d - days_before_month(is_leap, month)
        }),
    decreases 12 - m,
{
    assert(month_length(is_leap, m) == days_before_month(is_leap, m + 1) - days_before_month(
        is_leap,
        m,
    ));
    if d >= days_before_month(is_leap, m + 1) {
        lemma_month_from(is_leap, d, m + 1);
    }
}

/// Day `d` of a year (0 for January 1st) falls in the month of the
/// Gregorian calendar whose days it lies among: after the days of the months
/// before it (31 for January, 28 or 29 for February, 30 for April, June,
/// September and November, 31 for the others), and the day in the month is
/// what is left. So every date is a real calendar date, and the day after the
/// last day of a month is the first of the next.
pub proof fn day_of_year_is_a_calendar_date(is_leap: bool, d: nat)
    requires
        d < (if is_leap { 366nat } else { 365nat }),
    ensures
        ({
            let (month, day) = month_and_day(is_leap, d, 0);
            &&& 0 <= month < 12
            &&& days_before_month(is_leap, month) <= d < days_before_month(is_leap, month + 1)
            &&& day == d - days_before_month(is_leap, month)
        }),
{
    lemma_month_from(is_leap, d, 0);
}

/// The decimal digits of `n`, with zeros in front up to `width` digits.
pub open spec fn zero_padded(n: nat, width: nat) -> Seq<char> {
    let digits = decimal(n);
    if digits.len() < width {
        Seq::new((width - digits.len()) as nat, |i: int| '0') + digits
    } else {
        digits
    }
}

/// "YYYY-MM-DD hh:mm:ss" for the time `secs` seconds after 1970-01-01 00:00:00 UTC.
pub open spec fn datetime_text(secs: nat) -> Seq<char> {
    let days = secs / 86400;
    let t = secs % 86400;
    let (y, d) = year_and_day(days, 1970);
    let (m, day) = month_and_day(leap(y), d, 0);
    zero_padded(y as nat, 4) + seq!['-'] + zero_padded((m + 1) as nat, 2) + seq!['-']
        + zero_padded(day + 1, 2) + seq![' '] + zero_padded(t / 3600, 2) + seq![':']
        + zero_padded((t % 3600) / 60, 2) + seq![':'] + zero_padded(t % 60, 2)
}

/// Whether `y` is a leap year.
pub fn is_leap(y: i64) -> (r: bool)
    ensures
        r == leap(y as int),
{
    let r4 = y % 4 == 0;
    let r100 = y % 100 == 0;
    let r400 = y % 400 == 0;
    assert(r4 == ((y as int) % 4 == 0)) by (nonlinear_arith)
        requires
            r4 == (y % 4 == 0),
    ;
    assert(r100 == ((y as int) % 100 == 0)) by (nonlinear_arith)
        requires
            r100 == (y % 100 == 0),
    ;
    assert(r400 == ((y as int) % 400 == 0)) by (nonlinear_arith)
        requires
            r400 == (y % 400 == 0),
    ;
    (r4 && !r100) || r400
}

fn month_days(is_leap: bool, m: usize) -> (r: u64)
    ensures
        r == month_length(is_leap, m as int),
{
    if m == 1 {
        if is_leap {
            29
        } else {
            28
        }
    } else if m == 3 || m == 5 || m == 8 || m == 10 {
        30
    } else {
        31
    }
}

fn push_padded(s: &mut String, n: u64, width: usize)
    ensures
        final(s)@ == old(s)@ + zero_padded(n as nat, width as nat),
{
    let digits = u64_to_string(n);
    let len = digits.as_str().unicode_len();
    let ghost start = s@;
    let mut pad = len;
    while pad < width
        invariant
            len <= pad,
            pad == len || pad <= width,
            len == decimal(n as nat).len(),
            s@ == start + Seq::new((pad - len) as nat, |i: int| '0'),
        decreases width - pad,
    {
        push_char(s, '0');
        pad += 1;
        assert(s@ =~= start + Seq::new((pad - len) as nat, |i: int| '0'));
    }
    s.append(digits.as_str());
    assert(s@ =~= start + zero_padded(n as nat, width as nat));
}

/// Formats a file time given as seconds since 1970-01-01 00:00:00 UTC as
/// "YYYY-MM-DD hh:mm:ss"; the empty string when the time is before 1970
/// (`None`).
pub fn format_datetime(since_epoch: Option<u64>) -> (r: String)
    ensures
        r@ == match since_epoch {
            None => Seq::empty(),
            Some(secs) => datetime_text(secs as nat),
        },
{
    let secs = match since_epoch {
        None => {
            return String::new();
        },
        Some(secs) => secs,
    };
    let days = secs / 86400;
    let time_secs = secs % 86400;
    let h = time_secs / 3600;
    let m = (time_secs % 3600) / 60;
    let sec = time_secs % 60;
    let mut y: i64 = 1970;
    let mut d: u64 = days;
    loop
        invariant
            1970 <= y,
            (y - 1970) * 365 + d <= days,
            days <= 0x1_0000_0000_0000,
            year_and_day(days as nat, 1970) == year_and_day(d as nat, y as int),
        ensures
            year_and_day(days as nat, 1970) == (y as int, d as nat),
        decreases d,
    {
        let year_days: u64 = if is_leap(y) {
            366
        } else {
            365
        };
        if d < year_days {
            break;
        }
        d -= year_days;
        y += 1;
    }
    let ghost yd = year_and_day(days as nat, 1970);
    let leap_year = is_leap(y);
    let mut mo: usize = 0;
    let mut mi: usize = 0;
    while mi < 12
        invariant_except_break
            mo == 0,
        invariant
            mi <= 12,
            d <= days,
            days <= 0x1_0000_0000_0000,
            month_and_day(leap_year, yd.1, 0) == month_and_day(leap_year, d as nat, mi as int),
        ensures
            month_and_day(leap_year, yd.1, 0) == (mo as int, d as nat),
            mo < 12,
            d <= days,
        decreases 12 - mi,
    {
        let md = month_days(leap_year, mi);
        if d < md {
            mo = mi;
            break;
        }
        d -= md;
        mi += 1;
    }
    let mut r = String::new();
    push_padded(&mut r, y as u64, 4);
    push_char(&mut r, '-');
    push_padded(&mut r, (mo + 1) as u64, 2);
    push_char(&mut r, '-');
    push_padded(&mut r, d + 1, 2);
    push_char(&mut r, ' ');
    push_padded(&mut r, h, 2);
    push_char(&mut r, ':');
    push_padded(&mut r, m, 2);
    push_char(&mut r, ':');
    push_padded(&mut r, sec, 2);
    assert(r@ =~= datetime_text(secs as nat));
    r
}

} // verus!
