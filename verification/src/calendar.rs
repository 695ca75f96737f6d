//! Proleptic Gregorian civil dates, as chrono's `NaiveDate` computes them.
//!
//! Dates are carried as plain year/month/day triples; chrono does the
//! validity checks, the weekday and the day stepping behind the wrappers
//! at the end of this file.

use vstd::prelude::*;
use chrono::Datelike;

verus! {

/// The earliest year chrono's `NaiveDate` represents.
pub const MIN_YEAR: i32 = -262143;

/// The latest year chrono's `NaiveDate` represents.
pub const MAX_YEAR: i32 = 262142;

/// Monday, as `Weekday::num_days_from_monday` numbers it.
pub const MONDAY: u32 = 0;

/// Thursday, as `Weekday::num_days_from_monday` numbers it.
pub const THURSDAY: u32 = 3;

/// A calendar date (year, month 1..=12, day of month 1..=31).
#[derive(Clone, Copy, Debug, PartialEq, Eq, Structural)]
pub struct CivilDate {
    pub year: i32,
    pub month: u32,
    pub day: u32,
}

pub open spec fn date(year: int, month: int, day: int) -> CivilDate {
    CivilDate { year: year as i32, month: month as u32, day: day as u32 }
}

pub open spec fn is_leap_year(y: int) -> bool {
    y % 4 == 0 && (y % 100 != 0 || y % 400 == 0)
}

pub open spec fn days_in_month(y: int, m: int) -> int {
    if m == 2 {
        if is_leap_year(y) {
            29
        } else {
            28
        }
    } else if m == 4 || m == 6 || m == 9 || m == 11 {
        30
    } else {
        31
    }
}

/// Whether the triple names a day that `NaiveDate` can hold.
pub open spec fn is_valid_ymd(y: int, m: int, d: int) -> bool {
    &&& MIN_YEAR <= y <= MAX_YEAR
    &&& 1 <= m <= 12
    &&& 1 <= d <= days_in_month(y, m)
}

pub open spec fn is_valid(dt: CivilDate) -> bool {
    is_valid_ymd(dt.year as int, dt.month as int, dt.day as int)
}

/// Days in the years before `y`, counted from 0001-01-01.
pub open spec fn days_before_year(y: int) -> int {
    365 * (y - 1) + (y - 1) / 4 - (y - 1) / 100 + (y - 1) / 400
}

/// Days in the months of year `y` before month `m`.
pub open spec fn days_before_month(y: int, m: int) -> int {
    let base: int = if m <= 1 {
        0
    } else if m == 2 {
        31
    } else if m == 3 {
        59
    } else if m == 4 {
        90
    } else if m == 5 {
        120
    } else if m == 6 {
        151
    } else if m == 7 {
        181
    } else if m == 8 {
        212
    } else if m == 9 {
        243
    } else if m == 10 {
        273
    } else if m == 11 {
        304
    } else {
        334
    };
    if m > 2 && is_leap_year(y) {
        base + 1
    } else {
        base
    }
}

/// Ordinal day number; 0001-01-01 is day 1.
pub open spec fn day_number(y: int, m: int, d: int) -> int {
    days_before_year(y) + days_before_month(y, m) + d
}

/// Day of the week, 0 for Monday through 6 for Sunday (0001-01-01 was a Monday).
pub open spec fn weekday_of(dt: CivilDate) -> int {
    (day_number(dt.year as int, dt.month as int, dt.day as int) - 1) % 7
}

/// The calendar day before `dt` (`NaiveDate::pred_opt`).
pub open spec fn pred_date(dt: CivilDate) -> Option<CivilDate> {
    if dt.day > 1 {
        Some(date(dt.year as int, dt.month as int, dt.day - 1))
    } else if dt.month > 1 {
        Some(date(dt.year as int, dt.month - 1, days_in_month(dt.year as int, dt.month - 1)))
    } else if dt.year > MIN_YEAR {
        Some(date(dt.year - 1, 12, 31))
    } else {
        None
    }
}

/// The calendar day after `dt`.
pub open spec fn succ_date(dt: CivilDate) -> Option<CivilDate> {
    if (dt.day as int) < days_in_month(dt.year as int, dt.month as int) {
        Some(date(dt.year as int, dt.month as int, dt.day + 1))
    } else if dt.month < 12 {
        Some(date(dt.year as int, dt.month + 1, 1))
    } else if dt.year < MAX_YEAR {
        Some(date(dt.year + 1, 1, 1))
    } else {
        None
    }
}

/// `dt` stepped back `n` days, `None` once that leaves the representable range.
pub open spec fn sub_days(dt: CivilDate, n: nat) -> Option<CivilDate>
    decreases n,
{
    if n == 0 {
        Some(dt)
    } else {
        match pred_date(dt) {
            Some(p) => sub_days(p, (n - 1) as nat),
            None => None,
        }
    }
}

/// `dt` stepped forward `n` days, `None` once that leaves the representable range.
pub open spec fn add_days(dt: CivilDate, n: nat) -> Option<CivilDate>
    decreases n,
{
    if n == 0 {
        Some(dt)
    } else {
        match succ_date(dt) {
            Some(p) => add_days(p, (n - 1) as nat),
            None => None,
        }
    }
}

/// Chronological order of dates (the order of `NaiveDate`).
pub open spec fn date_lt(a: CivilDate, b: CivilDate) -> bool {
    ||| a.year < b.year
    ||| (a.year == b.year && a.month < b.month)
    ||| (a.year == b.year && a.month == b.month && a.day < b.day)
}

pub open spec fn date_le(a: CivilDate, b: CivilDate) -> bool {
    date_lt(a, b) || a == b
}

/// Whether `a` comes strictly before `b`.
pub fn date_before(a: &CivilDate, b: &CivilDate) -> (r: bool)
    ensures
        r == date_lt(*a, *b),
{
    a.year < b.year || (a.year == b.year && a.month < b.month) || (a.year == b.year && a.month
        == b.month && a.day < b.day)
}

/// Whether `a` is `b` or comes before it.
pub fn date_not_after(a: &CivilDate, b: &CivilDate) -> (r: bool)
    ensures
        r == date_le(*a, *b),
{
    date_before(a, b) || (a.year == b.year && a.month == b.month && a.day == b.day)
}

/// Moving `k` days forward within a month moves the weekday by `k` (mod 7).
pub proof fn lemma_weekday_step(y: int, m: int, d: int, k: int)
    ensures
        (day_number(y, m, d + k) - 1) % 7 == ((day_number(y, m, d) - 1) % 7 + k) % 7,
{
    let x = day_number(y, m, d) - 1;
    assert(day_number(y, m, d + k) - 1 == x + k);
    vstd::arithmetic::div_mod::lemma_add_mod_noop(x, k, 7);
    vstd::arithmetic::div_mod::lemma_mod_twice(x, 7);
    vstd::arithmetic::div_mod::lemma_add_mod_noop(x % 7, k, 7);
}

/// One year earlier loses a multiple of `q` exactly when `y` is one.
pub proof fn lemma_div_prev(y: int, q: int)
    requires
        y >= 1,
        q > 0,
    ensures
        (y - 1) / q == y / q - (if y % q == 0 { 1int } else { 0int }),
{
    let a = y / q;
    let r = y % q;
    vstd::arithmetic::div_mod::lemma_fundamental_div_mod(y, q);
    if r == 0 {
        assert(y - 1 == (a - 1) * q + (q - 1)) by (nonlinear_arith)
            requires
                y == q * a + r,
                r == 0,
        ;
        vstd::arithmetic::div_mod::lemma_fundamental_div_mod_converse(y - 1, q, a - 1, q - 1);
    } else {
        vstd::arithmetic::div_mod::lemma_fundamental_div_mod_converse(y - 1, q, a, r - 1);
    }
}

/// The days before March of year `y`, counted from 0001-01-01, by the
/// leap-year counts up to and including `y`.
pub proof fn lemma_days_before_march(y: int)
    requires
        y >= 1,
    ensures
        days_before_year(y) + days_before_month(y, 3) == 365 * (y - 1) + y / 4 - y / 100 + y / 400 + 59,
{
    lemma_div_prev(y, 4);
    lemma_div_prev(y, 100);
    lemma_div_prev(y, 400);
    if y % 400 == 0 {
        let t = y / 400;
        vstd::arithmetic::div_mod::lemma_fundamental_div_mod(y, 400);
        vstd::arithmetic::div_mod::lemma_fundamental_div_mod_converse(y, 100, 4 * t, 0);
    }
    if y % 100 == 0 {
        let t = y / 100;
        vstd::arithmetic::div_mod::lemma_fundamental_div_mod(y, 100);
        vstd::arithmetic::div_mod::lemma_fundamental_div_mod_converse(y, 4, 25 * t, 0);
    }
}

/// The date for `year`-`month`-`day` when it exists (`NaiveDate::from_ymd_opt`).
///
/// chrono answers `Some` exactly for a month in 1..=12, a day that the month
/// has in that (proleptic Gregorian) year and a year in its range.
#[verifier::external_body]
pub(crate) fn date_from_ymd(year: i32, month: u32, day: u32) -> (r: Option<CivilDate>)
    ensures
        r is Some <==> is_valid_ymd(year as int, month as int, day as int),
        r is Some ==> r == Some(CivilDate { year, month, day }),
{
    match chrono::NaiveDate::from_ymd_opt(year, month, day) {
        Some(_) => Some(CivilDate { year, month, day }),
        None => None,
    }
}

/// The weekday of a valid date (`NaiveDate::weekday` then
/// `Weekday::num_days_from_monday`): 0 for Monday through 6 for Sunday.
#[verifier::external_body]
pub(crate) fn weekday_from_monday(dt: &CivilDate) -> (r: u32)
    requires
        is_valid(*dt),
    ensures
        r == weekday_of(*dt),
{
    chrono::NaiveDate::from_ymd_opt(dt.year, dt.month, dt.day).unwrap().weekday().num_days_from_monday()
}

/// The previous calendar day (`NaiveDate::pred_opt`); `None` before the first
/// representable date.
#[verifier::external_body]
pub(crate) fn date_pred(dt: &CivilDate) -> (r: Option<CivilDate>)
    requires
        is_valid(*dt),
    ensures
        r == pred_date(*dt),
{
    match chrono::NaiveDate::from_ymd_opt(dt.year, dt.month, dt.day).unwrap().pred_opt() {
        Some(p) => Some(CivilDate { year: p.year(), month: p.month(), day: p.day() }),
        None => None,
    }
}

/// `dt` moved back `days` days (`NaiveDate::checked_sub_days`); `None` when the
/// count exceeds `i32::MAX` or the result leaves the representable range.
#[verifier::external_body]
pub(crate) fn date_sub_days(dt: &CivilDate, days: u64) -> (r: Option<CivilDate>)
    requires
        is_valid(*dt),
    ensures
        days > i32::MAX ==> r is None,
        days <= i32::MAX ==> r == sub_days(*dt, days as nat),
{
    let d = chrono::NaiveDate::from_ymd_opt(dt.year, dt.month, dt.day).unwrap();
    match d.checked_sub_days(chrono::Days::new(days)) {
        Some(p) => Some(CivilDate { year: p.year(), month: p.month(), day: p.day() }),
        None => None,
    }
}

/// `dt` moved forward `days` days (`NaiveDate::checked_add_days`); `None` when
/// the count exceeds `i32::MAX` or the result leaves the representable range.
#[verifier::external_body]
pub(crate) fn date_add_days(dt: &CivilDate, days: u64) -> (r: Option<CivilDate>)
    requires
        is_valid(*dt),
    ensures
        days > i32::MAX ==> r is None,
        days <= i32::MAX ==> r == add_days(*dt, days as nat),
{
    let d = chrono::NaiveDate::from_ymd_opt(dt.year, dt.month, dt.day).unwrap();
    match d.checked_add_days(chrono::Days::new(days)) {
        Some(p) => Some(CivilDate { year: p.year(), month: p.month(), day: p.day() }),
        None => None,
    }
}

} // verus!
