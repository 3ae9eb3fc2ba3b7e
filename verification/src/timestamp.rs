use vstd::prelude::*;
use crate::text::{push_padded, push_str, dec, zero_pad};

verus! {

/// Whether `y` is a leap year of the Gregorian calendar.
pub open spec fn leap(y: int) -> bool {
    (y % 4 == 0 && y % 100 != 0) || y % 400 == 0
}

/// Number of days in year `y`.
pub open spec fn year_len(y: int) -> nat {
    if leap(y) {
        366
    } else {
        365
    }
}

/// Number of days in month `m` (1 to 12) of year `y`.
pub open spec fn month_len(y: int, m: int) -> nat {
    if m == 2 {
        if leap(y) {
            29
        } else {
            28
        }
    } else if m == 4 || m == 6 || m == 9 || m == 11 {
        30
    } else {
        31
    }
}

/// Days from 1970-01-01 to the first day of year `y` (for `y >= 1970`).
pub open spec fn days_before_year(y: int) -> nat
    decreases y - 1970,
{
    if y <= 1970 {
        0
    } else {
        days_before_year(y - 1) + year_len(y - 1)
    }
}

/// Days from the first of January of year `y` to the first day of month `m`.
pub open spec fn days_before_month(y: int, m: int) -> nat
    decreases m,
{
    if m <= 1 {
        0
    } else {
        days_before_month(y, m - 1) + month_len(y, m - 1)
    }
}

/// Whether `(y, m, d)` is a valid date, `days` days after 1970-01-01.
pub open spec fn is_civil(days: int, y: int, m: int, d: int) -> bool {
    &&& y >= 1970
    &&& 1 <= m <= 12
    &&& 1 <= d <= month_len(y, m)
    &&& days == days_before_year(y) + days_before_month(y, m) + d - 1
}

/// The date `days` days after 1970-01-01, as (year, month, day).
pub open spec fn civil_of(days: int) -> (int, int, int) {
    choose|t: (int, int, int)| is_civil(days, t.0, t.1, t.2)
}

pub proof fn lemma_days_before_month_total(y: int)
    ensures
        days_before_month(y, 13) == year_len(y),
{
    reveal_with_fuel(days_before_month, 13);
}

pub proof fn lemma_days_before_month_mono(y: int, m1: int, m2: int)
    requires
        1 <= m1 <= m2 <= 13,
    ensures
        days_before_month(y, m1) + (if m1 < m2 { month_len(y, m1) } else { 0 }) <= days_before_month(y, m2),
    decreases m2 - m1,
{
    if m1 < m2 {
        lemma_days_before_month_mono(y, m1, m2 - 1);
        if m1 < m2 - 1 {
        }
    }
}

pub proof fn lemma_days_before_year_mono(y1: int, y2: int)
    requires
        1970 <= y1 <= y2,
    ensures
        days_before_year(y1) + (if y1 < y2 { year_len(y1) } else { 0 }) <= days_before_year(y2),
        days_before_year(y2) >= days_before_year(y1) + 365 * (y2 - y1),
    decreases y2 - y1,
{
    if y1 < y2 {
        lemma_days_before_year_mono(y1, y2 - 1);
    }
}

/// A date is determined by its day number: no two distinct dates share one.
pub proof fn lemma_civil_unique(days: int, y1: int, m1: int, d1: int, y2: int, m2: int, d2: int)
    requires
        is_civil(days, y1, m1, d1),
        is_civil(days, y2, m2, d2),
    ensures
        y1 == y2 && m1 == m2 && d1 == d2,
{
    lemma_days_before_month_total(y1);
    lemma_days_before_month_total(y2);
    lemma_days_before_month_mono(y1, m1, 13);
    lemma_days_before_month_mono(y2, m2, 13);
    if y1 < y2 {
        lemma_days_before_year_mono(y1, y2);
    } else if y2 < y1 {
        lemma_days_before_year_mono(y2, y1);
    } else {
        if m1 < m2 {
            lemma_days_before_month_mono(y1, m1, m2);
        } else if m2 < m1 {
            lemma_days_before_month_mono(y1, m2, m1);
        }
    }
}

/// Whether date `a` comes before date `b` in calendar order (year, then month, then day).
pub open spec fn date_lt(a: (int, int, int), b: (int, int, int)) -> bool {
    a.0 < b.0 || (a.0 == b.0 && (a.1 < b.1 || (a.1 == b.1 && a.2 < b.2)))
}

proof fn lemma_date_order(days1: int, y1: int, m1: int, d1: int, days2: int, y2: int, m2: int, d2: int)
    requires
        is_civil(days1, y1, m1, d1),
        is_civil(days2, y2, m2, d2),
        date_lt((y1, m1, d1), (y2, m2, d2)),
    ensures
        days1 < days2,
{
    lemma_days_before_month_total(y1);
    lemma_days_before_month_mono(y1, m1, 13);
    if y1 < y2 {
        lemma_days_before_year_mono(y1, y2);
    } else if m1 < m2 {
        lemma_days_before_month_mono(y1, m1, m2);
    }
}

/// The calendar runs forward: of two valid dates, the one with the smaller day number is the
/// earlier date, and the other way round.
pub proof fn lemma_civil_increasing(days1: int, y1: int, m1: int, d1: int, days2: int, y2: int, m2: int, d2: int)
    requires
        is_civil(days1, y1, m1, d1),
        is_civil(days2, y2, m2, d2),
    ensures
        days1 < days2 <==> date_lt((y1, m1, d1), (y2, m2, d2)),
{
    if date_lt((y1, m1, d1), (y2, m2, d2)) {
        lemma_date_order(days1, y1, m1, d1, days2, y2, m2, d2);
    } else if date_lt((y2, m2, d2), (y1, m1, d1)) {
        lemma_date_order(days2, y2, m2, d2, days1, y1, m1, d1);
    }
}

/// Whether `y` is a leap year.
pub fn is_leap(y: u64) -> (b: bool)
    ensures
        b == leap(y as int),
{
    (y % 4 == 0 && y % 100 != 0) || y % 400 == 0
}

fn days_in_month(leap_year: bool, m: u64) -> (n: u64)
    requires
        1 <= m <= 12,
    ensures
        forall|y: int| leap(y) == leap_year ==> n == month_len(y, m as int),
{
    if m == 2 {
        if leap_year {
            29
        } else {
            28
        }
    } else if m == 4 || m == 6 || m == 9 || m == 11 {
        30
    } else {
        31
    }
}

/// Converts a count of days since 1970-01-01 into the Gregorian (year, month, day).
pub fn days_to_ymd(days: u64) -> (r: (u64, u64, u64))
    ensures
        is_civil(days as int, r.0 as int, r.1 as int, r.2 as int),
        (r.0 as int, r.1 as int, r.2 as int) == civil_of(days as int),
{
    let mut rest = days;
    let mut year: u64 = 1970;
    loop
        invariant
            1970 <= year,
            rest <= days,
            days == days_before_year(year as int) + rest,
            year - 1970 <= (days - rest) / 365,
        ensures
            1970 <= year,
            days == days_before_year(year as int) + rest,
            rest < year_len(year as int),
        decreases rest,
    {
        let dy: u64 = if is_leap(year) {
            366
        } else {
            365
        };
        if rest < dy {
            break;
        }
        rest = rest - dy;
        proof {
            assert(days_before_year(year + 1) == days_before_year(year as int) + year_len(
                year as int,
            ));
        }
        year = year + 1;
    }
    let leap_year = is_leap(year);
    let mut month: u64 = 1;
    loop
        invariant
            1 <= month <= 12,
            leap_year == leap(year as int),
            rest < year_len(year as int),
            rest + days_before_month(year as int, month as int) < year_len(year as int),
            days == days_before_year(year as int) + days_before_month(year as int, month as int)
                + rest,
        ensures
            1 <= month <= 12,
            rest < month_len(year as int, month as int),
            days == days_before_year(year as int) + days_before_month(year as int, month as int)
                + rest,
        decreases 12 - month,
    {
        let dm = days_in_month(leap_year, month);
        if rest < dm {
            break;
        }
        rest = rest - dm;
        proof {
            lemma_days_before_month_total(year as int);
            lemma_days_before_month_mono(year as int, month as int + 1, 13);
            if month == 12 {
                assert(false);
            }
        }
        month = month + 1;
    }
    let r = (year, month, rest + 1);
    proof {
        let t = (year as int, month as int, rest + 1);
        assert(is_civil(days as int, t.0, t.1, t.2));
        let c = civil_of(days as int);
        lemma_civil_unique(days as int, t.0, t.1, t.2, c.0, c.1, c.2);
    }
    r
}

/// Whole seconds and milliseconds of the instant `ts_ms` milliseconds after the epoch, as the
/// conversion through `Duration::new(secs as u64, nanos as u32)` yields them.
pub open spec fn clock_parts(ts_ms: int) -> (int, int) {
    if ts_ms >= 0 {
        (ts_ms / 1000, ts_ms % 1000)
    } else {
        let n = 4294967296 + ts_ms * 1000000;
        (n / 1000000000, (n % 1000000000) / 1000000)
    }
}

/// ISO 8601 text `YYYY-MM-DDTHH:MM:SS.mmmZ` of the instant `ts_ms` milliseconds after the epoch.
pub open spec fn iso_text(ts_ms: int) -> Seq<char> {
    let secs = clock_parts(ts_ms).0;
    let ms = clock_parts(ts_ms).1;
    let date = civil_of(secs / 86400);
    zero_pad(dec(date.0 as nat), 4) + seq!['-'] + zero_pad(dec(date.1 as nat), 2) + seq!['-']
        + zero_pad(dec(date.2 as nat), 2) + seq!['T'] + zero_pad(dec(((secs / 3600) % 24) as nat), 2)
        + seq![':'] + zero_pad(dec(((secs / 60) % 60) as nat), 2) + seq![':'] + zero_pad(
        dec((secs % 60) as nat),
        2,
    ) + seq!['.'] + zero_pad(dec(ms as nat), 3) + seq!['Z']
}

/// Formats Unix milliseconds as ISO 8601 UTC text, e.g. `2024-01-01T00:00:00.000Z`.
///
/// Inputs at or below -1000 overflow the epoch arithmetic and are excluded; inputs between
/// -1000 and 0 wrap as the unsigned conversion does.
pub fn unix_ms_to_iso(ts_ms: i64) -> (s: String)
    requires
        ts_ms > -1000,
    ensures
        s@ == iso_text(ts_ms as int),
{
    let (total_secs, ms): (u64, u64) = if ts_ms >= 0 {
        ((ts_ms / 1000) as u64, (ts_ms % 1000) as u64)
    } else {
        let n: u64 = (4294967296i64 + ts_ms * 1000000) as u64;
        (n / 1000000000, (n % 1000000000) / 1000000)
    };
    let sec = total_secs % 60;
    let min = (total_secs / 60) % 60;
    let hour = (total_secs / 3600) % 24;
    let days = total_secs / 86400;
    let (year, month, day) = days_to_ymd(days);
    let mut s = String::new();
    push_padded(&mut s, year, 4);
    push_str(&mut s, "-");
    push_padded(&mut s, month, 2);
    push_str(&mut s, "-");
    push_padded(&mut s, day, 2);
    push_str(&mut s, "T");
    push_padded(&mut s, hour, 2);
    push_str(&mut s, ":");
    push_padded(&mut s, min, 2);
    push_str(&mut s, ":");
    push_padded(&mut s, sec, 2);
    push_str(&mut s, ".");
    push_padded(&mut s, ms, 3);
    push_str(&mut s, "Z");
    proof {
        reveal_strlit("-");
        reveal_strlit("T");
        reveal_strlit(":");
        reveal_strlit(".");
        reveal_strlit("Z");
        assert(s@ =~= iso_text(ts_ms as int));
    }
    s
}

} // verus!
