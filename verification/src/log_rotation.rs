//! Daily log file naming and the rotation rule: Gregorian calendar arithmetic
//! from a day count, file names per day, and when to start a new file.

use vstd::prelude::*;

use crate::text::{decimal, decimal_len, push_char, push_decimal, push_str};

use crate::event::{duration_whole_secs, epoch_duration};

verus! {

broadcast use vstd::string::group_string_axioms;

/// Leap years of the Gregorian calendar.
pub open spec fn is_leap_year(y: int) -> bool {
    (y % 4 == 0 && y % 100 != 0) || y % 400 == 0
}

/// The number of days in year `y`.
pub open spec fn year_len(y: int) -> nat {
    if is_leap_year(y) { 366 } else { 365 }
}

/// The number of days from 1970-01-01 to the first day of year `y`.
pub open spec fn days_before_year(y: int) -> nat
    decreases y - 1970,
{
    if y <= 1970 {
        0
    } else {
        days_before_year(y - 1) + year_len(y - 1)
    }
}

/// The number of days in month `m` (1 to 12) of year `y`.
pub open spec fn month_len(y: int, m: int) -> nat {
    if m == 2 {
        if is_leap_year(y) { 29 } else { 28 }
    } else if m == 4 || m == 6 || m == 9 || m == 11 {
        30
    } else {
        31
    }
}

/// The number of days from the first of January of year `y` to the first day
/// of month `m` (1 to 13).
pub open spec fn days_before_month(y: int, m: int) -> nat {
    let leap_day: nat = if is_leap_year(y) && m > 2 { 1 } else { 0 };
    let base: nat = if m <= 1 {
        0
    } else if m == 2 {
        31
    } else if m == 3 {
        59
    } else if m == 4 {
        90
    } else if m == 5 {
        120
    } else if m == 6 {
        151
    } else if m == 7 {
        181
    } else if m == 8 {
        212
    } else if m == 9 {
        243
    } else if m == 10 {
        273
    } else if m == 11 {
        304
    } else if m == 12 {
        334
    } else {
        365
    };
    base + leap_day
}

/// `(y, m, d)` is a calendar date no earlier than 1970-01-01.
pub open spec fn valid_date(y: int, m: int, d: int) -> bool {
    &&& y >= 1970
    &&& 1 <= m <= 12
    &&& 1 <= d <= month_len(y, m)
}

/// The number of days from 1970-01-01 to the date `(y, m, d)`.
pub open spec fn days_of_date(y: int, m: int, d: int) -> int {
    days_before_year(y) + days_before_month(y, m) + d - 1
}

/// Whether `y` is a leap year of the Gregorian calendar.
pub fn is_leap(y: u64) -> (r: bool)
    ensures
        r == is_leap_year(y as int),
{
    (y % 4 == 0 && y % 100 != 0) || y % 400 == 0
}

proof fn lemma_month_table(y: int, m: int)
    requires
        1 <= m <= 12,
    ensures
        days_before_month(y, m + 1) == days_before_month(y, m) + month_len(y, m),
        days_before_month(y, 13) == year_len(y),
        days_before_month(y, 1) == 0,
{
}

proof fn lemma_year_lower_bound(y: int)
    requires
        y >= 1970,
    ensures
        days_before_year(y) >= 365 * (y - 1970),
    decreases y - 1970,
{
    if y > 1970 {
        lemma_year_lower_bound(y - 1);
    }
}

proof fn lemma_years_monotone(a: int, b: int)
    requires
        1970 <= a <= b,
    ensures
        days_before_year(a) + (if a < b { year_len(a) } else { 0 }) <= days_before_year(b),
    decreases b - a,
{
    if a < b {
        lemma_years_monotone(a, b - 1);
        if a < b - 1 {
            assert(days_before_year(a) + year_len(a) <= days_before_year(b - 1));
        }
    }
}

proof fn lemma_months_monotone(y: int, a: int, b: int)
    requires
        1 <= a < b <= 13,
    ensures
        days_before_month(y, a) + month_len(y, a) <= days_before_month(y, b),
{
}

/// Two dates from 1970 on with the same day count are the same date.
pub proof fn lemma_days_of_date_injective(y1: int, m1: int, d1: int, y2: int, m2: int, d2: int)
    requires
        valid_date(y1, m1, d1),
        valid_date(y2, m2, d2),
        days_of_date(y1, m1, d1) == days_of_date(y2, m2, d2),
    ensures
        y1 == y2 && m1 == m2 && d1 == d2,
{
    lemma_month_table(y1, m1);
    lemma_month_table(y2, m2);
    lemma_months_monotone(y1, m1, 13);
    lemma_months_monotone(y2, m2, 13);
    if y1 < y2 {
        lemma_years_monotone(y1, y2);
        assert(false);
    } else if y2 < y1 {
        lemma_years_monotone(y2, y1);
        assert(false);
    }
    if m1 < m2 {
        lemma_months_monotone(y1, m1, m2);
        assert(false);
    } else if m2 < m1 {
        lemma_months_monotone(y1, m2, m1);
        assert(false);
    }
}

fn month_length(year: u64, leap: bool, m: u64) -> (r: u64)
    requires
        1 <= m <= 12,
        leap == is_leap_year(year as int),
    ensures
        r == month_len(year as int, m as int),
{
    if m == 2 {
        if leap { 29 } else { 28 }
    } else if m == 4 || m == 6 || m == 9 || m == 11 {
        30
    } else {
        31
    }
}

/// The date `days` days after 1970-01-01, as (year, month, day).
pub open spec fn date_of(days: int) -> (int, int, int) {
    choose|t: (int, int, int)| valid_date(t.0, t.1, t.2) && days_of_date(t.0, t.1, t.2) == days
}

/// The calendar date `days` days after 1970-01-01, as (year, month, day).
pub fn days_to_ymd(days: u64) -> (r: (u64, u64, u64))
    ensures
        valid_date(r.0 as int, r.1 as int, r.2 as int),
        days_of_date(r.0 as int, r.1 as int, r.2 as int) == days,
        (r.0 as int, r.1 as int, r.2 as int) == date_of(days as int),
{
    let mut rem = days;
    let mut year: u64 = 1970;
    loop
        invariant
            1970 <= year,
            days_before_year(year as int) + rem == days,
        ensures
            1970 <= year,
            days_before_year(year as int) + rem == days,
            rem < year_len(year as int),
        decreases rem,
    {
        let dy: u64 = if is_leap(year) { 366 } else { 365 };
        if rem < dy {
            break;
        }
        proof {
            lemma_year_lower_bound(year as int);
            lemma_year_lower_bound(year + 1);
        }
        rem = rem - dy;
        year = year + 1;
    }
    let leap = is_leap(year);
    let mut month: u64 = 1;
    proof {
        lemma_month_table(year as int, 1);
    }
    loop
        invariant
            1 <= month <= 12,
            leap == is_leap_year(year as int),
            rem < year_len(year as int),
            days_before_month(year as int, 1) == 0,
            days_before_year(year as int) + days_before_month(year as int, month as int) + rem == days,
            days_before_month(year as int, month as int) + rem < year_len(year as int),
        ensures
            1 <= month <= 12,
            days_before_year(year as int) + days_before_month(year as int, month as int) + rem == days,
            rem < month_len(year as int, month as int),
        decreases 12 - month,
    {
        let dm = month_length(year, leap, month);
        if rem < dm {
            break;
        }
        proof {
            lemma_month_table(year as int, month as int);
        }
        rem = rem - dm;
        month = month + 1;
    }
    let r = (year, month, rem + 1);
    proof {
        let t = (r.0 as int, r.1 as int, r.2 as int);
        assert(valid_date(t.0, t.1, t.2) && days_of_date(t.0, t.1, t.2) == days);
        let c = date_of(days as int);
        lemma_days_of_date_injective(t.0, t.1, t.2, c.0, c.1, c.2);
    }
    r
}

/// `s` padded on the left with zeros to at least `width` characters.
pub open spec fn zero_pad(s: Seq<char>, width: nat) -> Seq<char> {
    if s.len() < width {
        Seq::new((width - s.len()) as nat, |i: int| '0') + s
    } else {
        s
    }
}

/// Appends the decimal rendering of `n`, zero-padded to `width` characters.
pub fn push_padded_decimal(out: &mut String, n: u64, width: usize)
    ensures
        final(out)@ == old(out)@ + zero_pad(decimal(n as nat), width as nat),
{
    let len = decimal_len(n);
    let ghost start = out@;
    let mut k: usize = len;
    while k < width
        invariant
            len <= k,
            len == decimal(n as nat).len(),
            k <= width || k == len,
            out@ == start + Seq::new((k - len) as nat, |i: int| '0'),
        decreases width - k,
    {
        push_char(out, '0');
        assert(Seq::new((k + 1 - len) as nat, |i: int| '0') =~= Seq::new((k - len) as nat, |i: int| '0').push('0'));
        k = k + 1;
    }
    push_decimal(out, n);
    if len < width {
        assert(k == width);
    } else {
        assert(Seq::new((k - len) as nat, |i: int| '0') =~= Seq::<char>::empty());
    }
    assert(final_eq(out@, start, n, width));
}

spec fn final_eq(o: Seq<char>, start: Seq<char>, n: u64, width: usize) -> bool {
    o =~= start + zero_pad(decimal(n as nat), width as nat)
}

/// Counting the days of a date and turning the count back into a date gives
/// the same date, for every date from 1970-01-01 on.
pub proof fn law_date_round_trip(y: int, m: int, d: int)
    requires
        valid_date(y, m, d),
    ensures
        days_of_date(y, m, d) >= 0,
        date_of(days_of_date(y, m, d)) == (y, m, d),
{
    let n = days_of_date(y, m, d);
    let t = (y, m, d);
    assert(valid_date(t.0, t.1, t.2) && days_of_date(t.0, t.1, t.2) == n);
    let c = date_of(n);
    lemma_days_of_date_injective(y, m, d, c.0, c.1, c.2);
}

/// The name of the log file for the date `(y, m, d)`: `log_YYYY-MM-DD.txt`.
pub open spec fn log_name(y: int, m: int, d: int) -> Seq<char> {
    "log_"@ + zero_pad(decimal(y as nat), 4) + "-"@ + zero_pad(decimal(m as nat), 2) + "-"@
        + zero_pad(decimal(d as nat), 2) + ".txt"@
}

/// The name of the log file for the day `days` days after 1970-01-01.
pub open spec fn log_name_for_day(days: int) -> Seq<char> {
    let t = date_of(days);
    log_name(t.0, t.1, t.2)
}

/// The name of the log file for the day of the Unix time `secs` (UTC).
pub open spec fn log_name_at(secs: int) -> Seq<char> {
    log_name_for_day(secs / 86400)
}

/// The name of the log file for the day `days` days after 1970-01-01.
pub fn log_file_name(days: u64) -> (r: String)
    ensures
        r@ == log_name_for_day(days as int),
{
    let (y, m, d) = days_to_ymd(days);
    let mut r = String::new();
    push_str(&mut r, "log_");
    push_padded_decimal(&mut r, y, 4);
    push_str(&mut r, "-");
    push_padded_decimal(&mut r, m, 2);
    push_str(&mut r, "-");
    push_padded_decimal(&mut r, d, 2);
    push_str(&mut r, ".txt");
    r
}

/// The name of today's log file: the day, in UTC, of some clock reading `t`.
pub fn today_filename() -> (r: String)
    ensures
        exists|t: std::time::SystemTime|
            r@ == log_name_at(duration_whole_secs(#[trigger] epoch_duration(t)) as int),
{
    let now = crate::event::system_time_now();
    let secs = crate::event::secs_since_epoch(&now);
    let r = log_file_name(secs / 86400);
    assert(r@ == log_name_at(duration_whole_secs(epoch_duration(now)) as int));
    r
}

/// The size in bytes at which the current log file is rotated.
pub const MAX_LOG_BYTES: u64 = 10 * 1024 * 1024;

/// Whether the current log file must be archived before the next write: it
/// has reached the size limit, or the day has changed since it was opened.
pub fn needs_rotation(size: u64, current_name: &String, today_name: &String) -> (r: bool)
    ensures
        r == (size >= MAX_LOG_BYTES || current_name@ != today_name@),
{
    size >= MAX_LOG_BYTES || *current_name != *today_name
}

} // verus!
