//! Days since the Unix epoch to a civil (proleptic Gregorian) date, and
//! the `YYYY-MM-DD` rendering used in default report file names.

use vstd::prelude::*;
use vstd::string::*;
use crate::cli::format::{append_padded, append_padded_signed, padded_decimal};

verus! {

/// Gregorian leap years: every fourth year, except centuries not
/// divisible by 400.
pub open spec fn is_leap_year(y: int) -> bool {
    (y % 4 == 0 && y % 100 != 0) || y % 400 == 0
}

/// The number of days in month `m` (1-12) of year `y`.
pub open spec fn days_in_month(y: int, m: int) -> int {
    if m == 2 {
        if is_leap_year(y) { 29 } else { 28 }
    } else if m == 4 || m == 6 || m == 9 || m == 11 {
        30
    } else {
        31
    }
}

/// `(y, m, d)` names a day of the proleptic Gregorian calendar.
pub open spec fn is_valid_date(y: int, m: int, d: int) -> bool {
    1 <= m <= 12 && 1 <= d <= days_in_month(y, m)
}

/// The number of leap years in `[1, y)` (negative for `y <= 0`): counts
/// multiples of 4, minus multiples of 100, plus multiples of 400.
pub open spec fn leap_years_before(y: int) -> int {
    (y - 1) / 4 - (y - 1) / 100 + (y - 1) / 400
}

/// Days from 1970-01-01 to January 1st of year `y`.
pub open spec fn days_before_year(y: int) -> int {
    365 * (y - 1970) + leap_years_before(y) - leap_years_before(1970)
}

/// Days from January 1st of year `y` to the first day of month `m`.
pub open spec fn days_before_month(y: int, m: int) -> int {
    let common: int = if m == 1 {
        0
    } else if m == 2 {
        31
    } else if m == 3 {
        59
    } else if m == 4 {
        90
    } else if m == 5 {
        120
    } else if m == 6 {
        151
    } else if m == 7 {
        181
    } else if m == 8 {
        212
    } else if m == 9 {
        243
    } else if m == 10 {
        273
    } else if m == 11 {
        304
    } else {
        334
    };
    if m > 2 && is_leap_year(y) { common + 1 } else { common }
}

/// Days from 1970-01-01 (day 0) to the date `(y, m, d)`.
pub open spec fn days_from_civil(y: int, m: int, d: int) -> int {
    days_before_year(y) + days_before_month(y, m) + d - 1
}

/// Within a 400-year era counted from March 1st of year 0, the day on
/// which the era's March-based year `y` starts.
pub open spec fn era_year_start(y: int) -> int {
    365 * y + y / 4 - y / 100
}

/// The era's March-based year `y` ends with a leap day when the
/// January/February it contains belong to a leap year.
pub open spec fn era_year_len(y: int) -> int {
    if (y + 1) % 4 == 0 && ((y + 1) % 100 != 0 || (y + 1) % 400 == 0) { 366 } else { 365 }
}

/// Within a March-based year, the day on which month index `mp`
/// (0 = March, ..., 11 = February) starts.
pub open spec fn month_start(mp: int) -> int {
    (153 * mp + 2) / 5
}

/// The year of the era that day `doe` of the era falls in.
proof fn lemma_year_of_era(doe: int)
    requires
        0 <= doe <= 146096,
    ensures
        ({
            let yoe = (doe - doe / 1460 + doe / 36524 - doe / 146096) / 365;
            &&& 0 <= yoe <= 399
            &&& era_year_start(yoe) <= doe < era_year_start(yoe) + era_year_len(yoe)
        }),
{
}

/// The month of a March-based year that day `doy` falls in.
proof fn lemma_month_of_year(doy: int, leap: bool)
    requires
        0 <= doy <= (if leap { 365int } else { 364 }),
    ensures
        ({
            let mp = (5 * doy + 2) / 153;
            let m = if mp < 10 { mp + 3 } else { mp - 9 };
            let d = doy - month_start(mp) + 1;
            &&& 0 <= mp <= 11
            &&& 1 <= d
            &&& d <= (if m == 2 { if leap { 29int } else { 28 } } else if m == 4 || m == 6 || m == 9 || m == 11 { 30 } else { 31 })
            &&& month_start(mp) == (if mp < 10 { days_before_month(1, m) - 59 } else { days_before_month(1, m) + 306 })
        }),
{
}

/// A year's leap status only depends on its position in the 400-year cycle.
proof fn lemma_leap_periodic(era: int, yoe: int)
    ensures
        is_leap_year(era * 400 + yoe) == is_leap_year(yoe),
        (era * 400 + yoe) / 4 == era * 100 + yoe / 4,
        (era * 400 + yoe) / 100 == era * 4 + yoe / 100,
        (era * 400 + yoe) / 400 == era + yoe / 400,
{
    assert((era * 400 + yoe) % 4 == yoe % 4) by (nonlinear_arith);
    assert((era * 400 + yoe) % 100 == yoe % 100) by (nonlinear_arith);
    assert((era * 400 + yoe) % 400 == yoe % 400) by (nonlinear_arith);
    assert((era * 400 + yoe) / 4 == era * 100 + yoe / 4) by (nonlinear_arith);
    assert((era * 400 + yoe) / 100 == era * 4 + yoe / 100) by (nonlinear_arith);
    assert((era * 400 + yoe) / 400 == era + yoe / 400) by (nonlinear_arith);
}

/// March 1st of year `y` lies `days_before_year(y) + 59 + leap` days
/// after the epoch, which the era arithmetic counts from March 1st, 0000.
proof fn lemma_march_first(era: int, yoe: int)
    requires
        0 <= yoe <= 399,
    ensures
        days_before_year(era * 400 + yoe) + 59 + (if is_leap_year(era * 400 + yoe) { 1int } else { 0 })
            == era * 146097 + era_year_start(yoe) - 719468,
{
    let y = era * 400 + yoe;
    lemma_leap_periodic(era, yoe);
    lemma_leap_periodic(era, yoe - 1);
    assert(era * 400 + (yoe - 1) == y - 1);
}

/// January 1st of the next year is a year's length later.
proof fn lemma_next_year(y: int)
    ensures
        days_before_year(y + 1) == days_before_year(y) + 365 + (if is_leap_year(y) { 1int } else { 0 }),
{
    assert(y / 4 - (y - 1) / 4 == (if y % 4 == 0 { 1int } else { 0 }));
    assert(y / 100 - (y - 1) / 100 == (if y % 100 == 0 { 1int } else { 0 }));
    assert(y / 400 - (y - 1) / 400 == (if y % 400 == 0 { 1int } else { 0 }));
    assert(y % 400 == 0 ==> y % 100 == 0 && y % 4 == 0);
    assert(y % 100 == 0 ==> y % 4 == 0);
}

/// Day `doy` of the era's March-based year `yoe` is the civil date the
/// algorithm computes for it.
proof fn lemma_civil_assembly(era: int, yoe: int, doy: int)
    requires
        0 <= yoe <= 399,
        0 <= doy < era_year_len(yoe),
    ensures
        ({
            let y = era * 400 + yoe;
            let mp = (5 * doy + 2) / 153;
            let m = if mp < 10 { mp + 3 } else { mp - 9 };
            let d = doy - month_start(mp) + 1;
            let year = if m <= 2 { y + 1 } else { y };
            &&& is_valid_date(year, m, d)
            &&& days_from_civil(year, m, d) == era * 146097 + era_year_start(yoe) + doy - 719468
        }),
{
    let y = era * 400 + yoe;
    lemma_leap_periodic(era, yoe + 1);
    assert(era * 400 + (yoe + 1) == y + 1);
    assert(is_leap_year(yoe + 1) == (era_year_len(yoe) == 366));
    lemma_month_of_year(doy, is_leap_year(y + 1));
    lemma_march_first(era, yoe);
    lemma_next_year(y);
    let mp = (5 * doy + 2) / 153;
    let m = if mp < 10 { mp + 3 } else { mp - 9 };
    if mp < 10 {
        assert(days_before_month(y, m) == days_before_month(1, m) + (if is_leap_year(y) { 1int } else { 0 }));
    } else {
        assert(days_before_month(y + 1, m) == days_before_month(1, m));
    }
}

/// Days since 1970-01-01 (UTC) to a `(year, month, day)` civil date, by
/// Howard Hinnant's `civil_from_days` algorithm.
pub fn civil_from_days(z: i64) -> (r: (i64, u32, u32))
    requires
        z <= i64::MAX - 719_468,
        z + 719_468 >= i64::MIN + 146_096,
    ensures
        is_valid_date(r.0 as int, r.1 as int, r.2 as int),
        days_from_civil(r.0 as int, r.1 as int, r.2 as int) == z,
{
    let z = z + 719_468;
    let era = (if z >= 0 { z } else { z - 146_096 }) / 146_097;
    proof {
        assert(era == z as int / 146_097);
        assert(0 <= z - era * 146_097 <= 146_096);
    }
    let doe = (z - era * 146_097) as u64;
    proof {
        lemma_year_of_era(doe as int);
    }
    let yoe = (doe - doe / 1460 + doe / 36_524 - doe / 146_096) / 365;
    let y = yoe as i64 + era * 400;
    let doy = doe - (365 * yoe + yoe / 4 - yoe / 100);
    let mp = (5 * doy + 2) / 153;
    proof {
        lemma_civil_assembly(era as int, yoe as int, doy as int);
        lemma_month_of_year(doy as int, true);
    }
    let day = (doy - (153 * mp + 2) / 5 + 1) as u32;
    let month = (if mp < 10 { mp + 3 } else { mp - 9 }) as u32;
    let year = if month <= 2 { y + 1 } else { y };
    (year, month, day)
}

/// Later years start later.
proof fn lemma_years_ordered(a: int, b: int)
    requires
        a <= b,
    ensures
        days_before_year(a) + 365 * (b - a) <= days_before_year(b),
    decreases b - a,
{
    if a < b {
        lemma_years_ordered(a, b - 1);
        lemma_next_year(b - 1);
    }
}

/// A valid date lies within its year, at its month's offset.
proof fn lemma_day_of_year(y: int, m: int, d: int)
    requires
        is_valid_date(y, m, d),
    ensures
        0 <= days_before_month(y, m) + d - 1 < 365 + (if is_leap_year(y) { 1int } else { 0 }),
        forall|m2: int, d2: int| is_valid_date(y, m2, d2) && m2 < m ==>
            days_before_month(y, m2) + d2 < days_before_month(y, m) + d,
{
}

/// Each day since the epoch is exactly one calendar date: two valid dates
/// with the same day count are the same date.
pub proof fn days_from_civil_injective(y1: int, m1: int, d1: int, y2: int, m2: int, d2: int)
    requires
        is_valid_date(y1, m1, d1),
        is_valid_date(y2, m2, d2),
        days_from_civil(y1, m1, d1) == days_from_civil(y2, m2, d2),
    ensures
        y1 == y2 && m1 == m2 && d1 == d2,
{
    lemma_day_of_year(y1, m1, d1);
    lemma_day_of_year(y2, m2, d2);
    if y1 < y2 {
        lemma_next_year(y1);
        lemma_years_ordered(y1 + 1, y2);
    } else if y2 < y1 {
        lemma_next_year(y2);
        lemma_years_ordered(y2 + 1, y1);
    } else {
        if m1 < m2 {
            lemma_day_of_year(y1, m2, d2);
        } else if m2 < m1 {
            lemma_day_of_year(y1, m1, d1);
        }
    }
}

/// A date written `YYYY-MM-DD`, each part zero-padded as `{:04}`/`{:02}`
/// pad them.
pub open spec fn date_text(y: int, m: int, d: int) -> Seq<char> {
    padded_decimal(y, 4) + seq!['-'] + padded_decimal(m, 2) + seq!['-'] + padded_decimal(d, 2)
}

/// The UTC date `days_since_epoch` days after 1970-01-01, as `YYYY-MM-DD`
/// (the default `--export` report file name carries it).
pub fn today_utc_date(days_since_epoch: u64) -> (r: String)
    requires
        days_since_epoch <= i64::MAX - 719_468,
    ensures
        exists|y: int, m: int, d: int|
            is_valid_date(y, m, d) && days_from_civil(y, m, d) == days_since_epoch
                && r@ == date_text(y, m, d),
{
    let (year, month, day) = civil_from_days(days_since_epoch as i64);
    let mut s = String::new();
    append_padded_signed(&mut s, year, 4);
    proof {
        reveal_strlit("-");
    }
    s.append("-");
    append_padded(&mut s, month as u64, 2);
    s.append("-");
    append_padded(&mut s, day as u64, 2);
    assert(s@ =~= date_text(year as int, month as int, day as int));
    s
}

} // verus!
