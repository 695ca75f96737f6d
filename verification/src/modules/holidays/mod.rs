//! Public holidays per country and the holidays panel built on them.

pub mod config;

use vstd::prelude::*;
use crate::calendar::{
    CivilDate, MAX_YEAR, MONDAY, THURSDAY, date, date_lt, date_le, is_valid, is_valid_ymd,
    days_in_month, weekday_of, pred_date, sub_days, add_days, day_number, lemma_weekday_step,
    date_from_ymd, weekday_from_monday, date_pred, date_sub_days, date_add_days, date_before,
    date_not_after, lemma_days_before_march,
};
use crate::modules::lunar::{spec_chinese_new_year, approx_chinese_new_year_gregorian};
use crate::text::{to_upper, chars_of, upper_vec, range_eq_str, decimal, push_decimal, string_of};
use crate::modules::bottom_module::{PanelLine, body_lines, strings_view};
use crate::modules::module_id::ModuleId;
use config::{HolidaysConfig, ConfigMeta, LoadedHolidaysConfig};

verus! {

/// `Some(date)` when `y-m-d` exists, as `NaiveDate::from_ymd_opt` answers.
pub open spec fn ymd(y: int, m: int, d: int) -> Option<CivilDate> {
    if is_valid_ymd(y, m, d) {
        Some(date(y, m, d))
    } else {
        None
    }
}

/// Rust's `/` on integers: the quotient rounded toward zero (`b > 0`).
pub open spec fn tdiv(a: int, b: int) -> int {
    if a >= 0 {
        a / b
    } else {
        -((-a) / b)
    }
}

/// Rust's `%` on integers: the remainder that keeps the sign of `a` (`b > 0`).
pub open spec fn tmod(a: int, b: int) -> int {
    if a >= 0 {
        a % b
    } else {
        -((-a) % b)
    }
}

/// (month, day) of Easter Sunday by the anonymous Gregorian algorithm,
/// evaluated with Rust's integer division.
pub open spec fn easter_parts(y: int) -> (int, int) {
    let a = tmod(y, 19);
    let b = tdiv(y, 100);
    let c = tmod(y, 100);
    let d = tdiv(b, 4);
    let e = tmod(b, 4);
    let f = tdiv(b + 8, 25);
    let g = tdiv(b - f + 1, 3);
    let h = tmod(19 * a + b - d - g + 15, 30);
    let i = tdiv(c, 4);
    let k = tmod(c, 4);
    let l = tmod(32 + 2 * e + 2 * i - h - k, 7);
    let m = tdiv(a + 11 * h + 22 * l, 451);
    (tdiv(h + l - 7 * m + 114, 31), tmod(h + l - 7 * m + 114, 31) + 1)
}

/// Whether the algorithm lands on an existing date for `y`.
pub open spec fn easter_is_valid(y: int) -> bool {
    is_valid_ymd(y, easter_parts(y).0, easter_parts(y).1)
}

pub open spec fn spec_easter(y: int) -> CivilDate {
    date(y, easter_parts(y).0, easter_parts(y).1)
}

/// `a / b` on `i32`, rounded toward zero.
fn trunc_div(a: i32, b: i32) -> (r: i32)
    requires
        b > 0,
    ensures
        r == tdiv(a as int, b as int),
        a >= 0 ==> 0 <= r <= a,
        a < 0 ==> a <= r <= 0,
{
    a / b
}

/// `a % b` on `i32`, with the sign of `a`.
fn trunc_rem(a: i32, b: i32) -> (r: i32)
    requires
        b > 0,
    ensures
        r == tmod(a as int, b as int),
        a >= 0 ==> 0 <= r < b,
        a < 0 ==> -b < r <= 0,
{
    a % b
}

/// Month and day of Easter for `year` by the anonymous Gregorian
/// algorithm, in Rust's integer arithmetic.
fn easter_month_day(year: i32) -> (r: (i32, i32))
    ensures
        r.0 == easter_parts(year as int).0,
        r.1 == easter_parts(year as int).1,
{
    let a = trunc_rem(year, 19);
    let b = trunc_div(year, 100);
    let c = trunc_rem(year, 100);
    let d = trunc_div(b, 4);
    let e = trunc_rem(b, 4);
    let f = trunc_div(b + 8, 25);
    let g = trunc_div(b - f + 1, 3);
    let h = trunc_rem(19 * a + b - d - g + 15, 30);
    let i = trunc_div(c, 4);
    let k = trunc_rem(c, 4);
    let l = trunc_rem(32 + 2 * e + 2 * i - h - k, 7);
    let m = trunc_div(a + 11 * h + 22 * l, 451);
    let month = trunc_div(h + l - 7 * m + 114, 31);
    let day = trunc_rem(h + l - 7 * m + 114, 31) + 1;
    (month, day)
}

/// Easter Sunday (Gregorian) for `year`.
pub fn easter_sunday(year: i32) -> (r: CivilDate)
    requires
        easter_is_valid(year as int),
    ensures
        r == spec_easter(year as int),
        is_valid(r),
{
    let (month, day) = easter_month_day(year);
    date_from_ymd(year, month as u32, day as u32).unwrap()
}


/// For every year from 0 on, the algorithm yields a day of March or April
/// that exists.
pub proof fn lemma_easter_valid(y: int)
    requires
        0 <= y <= MAX_YEAR,
    ensures
        easter_is_valid(y),
        easter_parts(y).0 == 3 || easter_parts(y).0 == 4,
{
    let a = y % 19;
    let b = y / 100;
    let c = y % 100;
    let d = b / 4;
    let e = b % 4;
    let f = (b + 8) / 25;
    let g = (b - f + 1) / 3;
    assert(f <= b + 1);
    assert(19 * a + b - d - g + 15 >= 0) by {
        assert(d <= b / 4);
        assert(3 * g <= b - f + 1);
        assert(4 * d <= b);
    }
    let h = (19 * a + b - d - g + 15) % 30;
    let i = c / 4;
    let k = c % 4;
    assert(32 + 2 * e + 2 * i - h - k >= 0);
    let l = (32 + 2 * e + 2 * i - h - k) % 7;
    let m = (a + 11 * h + 22 * l) / 451;
    assert(0 <= a < 19 && 0 <= h < 30 && 0 <= l < 7);
    assert(m == 0 || m == 1);
    assert(m == 1 ==> h + l >= 7) by {
        if m == 1 {
            assert(a + 11 * h + 22 * l >= 451);
        }
    }
    let v = h + l - 7 * m + 114;
    assert(114 <= v <= 149);
    assert(easter_parts(y) == (v / 31, v % 31 + 1));
}

/// The `n`-th occurrence (1-based) of weekday `wd` in month `m` of year `y`.
pub open spec fn spec_nth_weekday(y: int, m: int, n: int, wd: int) -> Option<CivilDate> {
    if !is_valid_ymd(y, m, 1) {
        None
    } else {
        let first_wd = weekday_of(date(y, m, 1));
        let diff = (wd - first_wd + 7) % 7;
        ymd(y, m, 1 + diff + (n - 1) * 7)
    }
}

/// The `n`-th occurrence (1-based) of weekday `wd` (0 = Monday) in a month.
pub fn nth_weekday(year: i32, month: u32, n: i32, wd: u32) -> (r: Option<CivilDate>)
    requires
        wd <= 6,
    ensures
        r == spec_nth_weekday(year as int, month as int, n as int, wd as int),
{
    let first = date_from_ymd(year, month, 1)?;
    let first_wd = weekday_from_monday(&first);
    let diff = (wd as i64 - first_wd as i64 + 7) % 7;
    let day: i64 = 1 + diff + (n as i64 - 1) * 7;
    if day < 1 || day > 31 {
        return None;
    }
    date_from_ymd(year, month, day as u32)
}

/// The last occurrence of weekday `wd` in month `m` of year `y`.
pub open spec fn spec_last_weekday(y: int, m: int, wd: int) -> Option<CivilDate> {
    let (ny, nm) = if m == 12 {
        (y + 1, 1int)
    } else {
        (y, m + 1)
    };
    match ymd(ny, nm, 1) {
        None => None,
        Some(first_next) => match pred_date(first_next) {
            None => None,
            Some(last) => sub_days(last, ((weekday_of(last) - wd + 7) % 7) as nat),
        },
    }
}

proof fn lemma_pred_valid(dt: CivilDate)
    requires
        is_valid(dt),
        pred_date(dt) is Some,
    ensures
        is_valid(pred_date(dt).unwrap()),
{
}

/// The last occurrence of weekday `wd` (0 = Monday) in a month.
pub fn last_weekday(year: i32, month: u32, wd: u32) -> (r: Option<CivilDate>)
    requires
        wd <= 6,
        month < u32::MAX,
        month == 12 ==> year < i32::MAX,
    ensures
        r == spec_last_weekday(year as int, month as int, wd as int),
{
    let (y, m) = if month == 12 {
        (year + 1, 1)
    } else {
        (year, month + 1)
    };
    let first_next = date_from_ymd(y, m, 1)?;
    let last_of_month = date_pred(&first_next)?;
    proof {
        lemma_pred_valid(first_next);
    }
    let last_wd = weekday_from_monday(&last_of_month);
    let diff = (last_wd as i32 - wd as i32 + 7) % 7;
    date_sub_days(&last_of_month, diff as u64)
}

/// Victoria Day: the last Monday strictly before May 25 of `y`.
pub open spec fn spec_victoria_day(y: int) -> Option<CivilDate> {
    match ymd(y, 5, 25) {
        None => None,
        Some(may25) => sub_days(may25, ((weekday_of(may25) - MONDAY + 6) % 7 + 1) as nat),
    }
}

/// Victoria Day (Canada): the Monday preceding May 25.
pub fn victoria_day(year: i32) -> (r: Option<CivilDate>)
    ensures
        r == spec_victoria_day(year as int),
{
    let may25 = date_from_ymd(year, 5, 25)?;
    let wd = weekday_from_monday(&may25);
    let days_back = (wd as i32 - MONDAY as i32 + 6) % 7 + 1;
    date_sub_days(&may25, days_back as u64)
}


/// Stepping back `k` days inside a month only lowers the day of month.
proof fn lemma_sub_days_in_month(dt: CivilDate, k: nat)
    requires
        k < dt.day,
    ensures
        sub_days(dt, k) == Some(CivilDate { year: dt.year, month: dt.month, day: (dt.day - k) as u32 }),
    decreases k,
{
    if k > 0 {
        let p = CivilDate { year: dt.year, month: dt.month, day: (dt.day - 1) as u32 };
        assert(pred_date(dt) == Some(p));
        lemma_sub_days_in_month(p, (k - 1) as nat);
    }
}

/// The weekday shift used by the rules lands on the weekday asked for.
proof fn lemma_weekday_shift(y: int, m: int, d: int, w: int, wd: int)
    requires
        w == (day_number(y, m, d) - 1) % 7,
        0 <= wd <= 6,
    ensures
        (day_number(y, m, d + (wd - w + 7) % 7) - 1) % 7 == wd,
        (day_number(y, m, d - (w - wd + 7) % 7) - 1) % 7 == wd,
{
    lemma_weekday_step(y, m, d, (wd - w + 7) % 7);
    lemma_weekday_step(y, m, d, -((w - wd + 7) % 7));
}

/// Law: from year 1 on, Easter as computed falls on a Sunday between
/// March 22 and April 25.
pub proof fn lemma_easter_sunday(y: int)
    requires
        1 <= y <= MAX_YEAR,
    ensures
        weekday_of(spec_easter(y)) == 6,
        date_le(date(y, 3, 22), spec_easter(y)),
        date_le(spec_easter(y), date(y, 4, 25)),
{
    lemma_easter_valid(y);
    let a = y % 19;
    let b = y / 100;
    let c = y % 100;
    let d = b / 4;
    let e = b % 4;
    let f = (b + 8) / 25;
    let g = (b - f + 1) / 3;
    assert(3 * g <= b - f + 1 && 4 * d <= b && f <= b + 1);
    let h = (19 * a + b - d - g + 15) % 30;
    let i = c / 4;
    let k = c % 4;
    let z = 32 + 2 * e + 2 * i - h - k;
    assert(z >= 0);
    let l = z % 7;
    let m = (a + 11 * h + 22 * l) / 451;
    assert(0 <= a < 19 && 0 <= h < 30 && 0 <= l < 7);
    assert(m == 0 || m == 1);
    assert(m == 1 ==> h + l >= 7) by {
        if m == 1 {
            assert(a + 11 * h + 22 * l >= 451);
        }
    }
    assert(h + l >= 35 ==> m == 1) by {
        if h + l >= 35 {
            assert(a + 11 * h + 22 * l >= 451);
        }
    }
    let n = h + l - 7 * m;
    assert(0 <= n <= 34);
    let v = n + 114;
    let (mo, dy) = easter_parts(y);
    assert(mo == v / 31 && dy == v % 31 + 1);
    if n <= 9 {
        vstd::arithmetic::div_mod::lemma_fundamental_div_mod_converse(v, 31, 3, n + 21);
    } else {
        vstd::arithmetic::div_mod::lemma_fundamental_div_mod_converse(v, 31, 4, n - 10);
    }
    assert(day_number(y, mo, dy) == day_number(y, 3, 22) + n);
    // The weekday: y = 100b + 4i + k and b = 4d + e.
    vstd::arithmetic::div_mod::lemma_fundamental_div_mod(y, 100);
    vstd::arithmetic::div_mod::lemma_fundamental_div_mod(b, 4);
    vstd::arithmetic::div_mod::lemma_fundamental_div_mod(c, 4);
    vstd::arithmetic::div_mod::lemma_fundamental_div_mod(z, 7);
    vstd::arithmetic::div_mod::lemma_fundamental_div_mod_converse(y, 4, 25 * b + i, k);
    vstd::arithmetic::div_mod::lemma_fundamental_div_mod_converse(y, 400, d, 100 * e + c);
    lemma_days_before_march(y);
    let q = z / 7;
    let s = 20871 * d + 5218 * e + 209 * i + 52 * k - 37 - q - m;
    assert(day_number(y, 3, 22) + n - 1 == 7 * s + 6);
    vstd::arithmetic::div_mod::lemma_fundamental_div_mod_converse(day_number(y, 3, 22) + n - 1, 7, s, 6);
}

/// Law: the `n`-th weekday found lies in the asked month, in the `n`-th
/// week of it, and falls on the asked weekday.
pub proof fn lemma_nth_weekday_correct(y: int, m: int, n: int, wd: int)
    requires
        0 <= wd <= 6,
        spec_nth_weekday(y, m, n, wd) is Some,
    ensures
        ({
            let dt = spec_nth_weekday(y, m, n, wd).unwrap();
            &&& dt.year == y && dt.month == m
            &&& 7 * (n - 1) < dt.day <= 7 * n
            &&& weekday_of(dt) == wd
        }),
{
    let w = weekday_of(date(y, m, 1));
    lemma_weekday_shift(y, m, 1, w, wd);
    lemma_weekday_step(y, m, 1 + (wd - w + 7) % 7, (n - 1) * 7);
    vstd::arithmetic::div_mod::lemma_mod_multiples_vanish(n - 1, wd, 7);
}

/// Every dated entry comes from a rule of the table with that date and name.
proof fn lemma_keep_dated_from(t: Seq<(Option<CivilDate>, Seq<char>)>, k: int)
    requires
        0 <= k < keep_dated(t).len(),
    ensures
        exists|j: int| 0 <= j < t.len() && #[trigger] t[j] == (Some(keep_dated(t)[k].0), keep_dated(t)[k].1),
    decreases t.len(),
{
    let rest = keep_dated(t.drop_last());
    if k < rest.len() {
        lemma_keep_dated_from(t.drop_last(), k);
        let j = choose|j: int| 0 <= j < t.drop_last().len()
            && #[trigger] t.drop_last()[j] == (Some(rest[k].0), rest[k].1);
        assert(keep_dated(t)[k] == rest[k]);
        assert(t[j] == t.drop_last()[j]);
    } else {
        assert(t[t.len() - 1] == t.last());
    }
}

/// Keeping the dated entries of two tables one after the other keeps those
/// of their concatenation.
proof fn lemma_keep_dated_append(a: Seq<(Option<CivilDate>, Seq<char>)>, b: Seq<(Option<CivilDate>, Seq<char>)>)
    ensures
        keep_dated(a + b) == keep_dated(a) + keep_dated(b),
    decreases b.len(),
{
    if b.len() == 0 {
        assert(a + b =~= a);
        assert(keep_dated(a) + keep_dated(b) =~= keep_dated(a));
    } else {
        lemma_keep_dated_append(a, b.drop_last());
        assert((a + b).drop_last() =~= a + b.drop_last());
        assert((a + b).last() == b.last());
        match b.last().0 {
            Some(d) => {
                assert(keep_dated(a) + keep_dated(b) =~= (keep_dated(a) + keep_dated(b.drop_last())).push((d, b.last().1)));
            },
            None => {},
        }
    }
}

/// A result sorted by date that keeps the first entry of each date lists
/// every entry no earlier entry shares a date with.
proof fn lemma_first_of_date_listed(r: Seq<(CivilDate, Seq<char>)>, c: Seq<(CivilDate, Seq<char>)>, k: int)
    requires
        sorted_first_per_date(r, c),
        0 <= k < c.len(),
        forall|j: int| 0 <= j < k ==> (#[trigger] c[j]).0 != c[k].0,
    ensures
        exists|i: int| 0 <= i < r.len() && #[trigger] r[i] == c[k],
{
    assert(has_date(r, c[k].0));
    let i = choose|i: int| 0 <= i < r.len() && (#[trigger] r[i]).0 == c[k].0;
    assert(first_with_date(c, r[i]));
    let k2 = choose|k2: int|
        0 <= k2 < c.len() && c[k2] == r[i] && forall|j: int| 0 <= j < k2 ==> (#[trigger] c[j]).0 != r[i].0;
    if k2 < k {
        assert(c[k2].0 == c[k].0);
    } else if k2 > k {
        assert(c[k].0 == r[i].0);
    }
    assert(r[i] == c[k]);
}

/// Law: in the US holidays of any year, as `holidays_for_year` lists them,
/// Labor Day falls in that year's September, on a Monday, within the
/// month's first seven days: the first Monday of September.
pub proof fn lemma_us_labor_day(y: int, r: Seq<(CivilDate, Seq<char>)>)
    requires
        sorted_first_per_date(r, keep_dated(holiday_table(y, "US"@))),
    ensures
        forall|i: int| 0 <= i < r.len() && (#[trigger] r[i]).1 == "Labor Day"@ ==> {
            &&& r[i].0.year == y
            &&& r[i].0.month == 9
            &&& weekday_of(r[i].0) == MONDAY
            &&& 1 <= r[i].0.day <= 7
        },
        is_valid_ymd(y, 9, 1) ==> exists|i: int| 0 <= i < r.len() && (#[trigger] r[i]).1 == "Labor Day"@,
{
    let t = holiday_table(y, "US"@);
    let c = keep_dated(t);
    reveal_strlit("US");
    reveal_strlit("GB");
    reveal_strlit("UK");
    reveal_strlit("New Year's Day");
    reveal_strlit("Christmas Day");
    reveal_strlit("MLK Day");
    reveal_strlit("Presidents' Day");
    reveal_strlit("Memorial Day");
    reveal_strlit("Juneteenth");
    reveal_strlit("Independence Day");
    reveal_strlit("Labor Day");
    reveal_strlit("Columbus / Indigenous Day");
    reveal_strlit("Veterans Day");
    reveal_strlit("Thanksgiving");
    reveal_strlit("New Year's Eve");
    assert(t =~= seq![(ymd(y, 1, 1), "New Year's Day"@), (ymd(y, 12, 25), "Christmas Day"@)] + us_rules(y));
    assert forall|i: int| 0 <= i < r.len() && (#[trigger] r[i]).1 == "Labor Day"@ implies {
        &&& r[i].0.year == y
        &&& r[i].0.month == 9
        &&& weekday_of(r[i].0) == MONDAY
        &&& 1 <= r[i].0.day <= 7
    } by {
        assert(first_with_date(c, r[i]));
        let k = choose|k: int|
            0 <= k < c.len() && c[k] == r[i] && forall|j: int| 0 <= j < k ==> (#[trigger] c[j]).0 != r[i].0;
        lemma_keep_dated_from(t, k);
        let j = choose|j: int| 0 <= j < t.len() && #[trigger] t[j] == (Some(c[k].0), c[k].1);
        assert(t[j].1 == "Labor Day"@);
        assert(j == 7) by {
            if j != 7 {
                assert(t[j].1 != "Labor Day"@);
            }
        }
        lemma_nth_weekday_correct(y, 9, 1, MONDAY as int);
    }
    if is_valid_ymd(y, 9, 1) {
        let ld = spec_nth_weekday(y, 9, 1, MONDAY as int);
        let w = weekday_of(date(y, 9, 1));
        assert(ld is Some) by {
            assert(0 <= (MONDAY - w + 7) % 7 < 7);
        }
        lemma_nth_weekday_correct(y, 9, 1, MONDAY as int);
        let d = ld.unwrap();
        let before = t.take(7);
        let upto = t.take(8);
        assert(upto =~= before.push(t[7]));
        assert(t =~= upto + t.skip(8));
        lemma_keep_dated_append(upto, t.skip(8));
        assert(upto.drop_last() =~= before);
        assert(t[7] == (ld, "Labor Day"@));
        assert(upto.last() == t[7]);
        assert(keep_dated(upto) =~= keep_dated(before).push((d, "Labor Day"@)));
        let k = keep_dated(before).len() as int;
        assert(c[k] == (d, "Labor Day"@));
        // The rules before Labor Day date January, February, May, June,
        // July and December.
        lemma_nth_weekday_correct(y, 1, 3, MONDAY as int);
        lemma_nth_weekday_correct(y, 2, 3, MONDAY as int);
        if spec_last_weekday(y, 5, MONDAY as int) is Some {
            lemma_last_weekday_correct(y, 5, MONDAY as int);
        }
        assert forall|j: int| 0 <= j < k implies (#[trigger] c[j]).0 != c[k].0 by {
            assert(c[j] == keep_dated(before)[j]);
            lemma_keep_dated_from(before, j);
            let j2 = choose|j2: int| 0 <= j2 < before.len()
                && #[trigger] before[j2] == (Some(keep_dated(before)[j].0), keep_dated(before)[j].1);
            assert(before[j2] == t[j2]);
            assert(c[j].0.month != 9);
        }
        lemma_first_of_date_listed(r, c, k);
    }
}

/// Whether `dt` is the `n`-th weekday `wd` (0 = Monday) of month `m` of
/// year `y`: in that month, on that weekday, within its `n`-th seven days.
pub open spec fn is_nth_weekday(dt: CivilDate, y: int, m: int, n: int, wd: int) -> bool {
    &&& dt.year == y && dt.month == m
    &&& weekday_of(dt) == wd
    &&& 7 * (n - 1) < dt.day <= 7 * n
}

/// Whether `dt` is the last weekday `wd` of month `m` of year `y`: in that
/// month, on that weekday, within its last seven days.
pub open spec fn is_last_weekday(dt: CivilDate, y: int, m: int, wd: int) -> bool {
    &&& dt.year == y && dt.month == m
    &&& weekday_of(dt) == wd
    &&& days_in_month(y, m) - 7 < dt.day <= days_in_month(y, m)
}

/// Every holiday listed comes from a rule of the table, with its date and
/// name.
proof fn lemma_listed_from_table(t: Seq<(Option<CivilDate>, Seq<char>)>, r: Seq<(CivilDate, Seq<char>)>, i: int)
    requires
        sorted_first_per_date(r, keep_dated(t)),
        0 <= i < r.len(),
    ensures
        exists|j: int| 0 <= j < t.len() && #[trigger] t[j] == (Some(r[i].0), r[i].1),
{
    let c = keep_dated(t);
    assert(first_with_date(c, r[i]));
    let k = choose|k: int|
        0 <= k < c.len() && c[k] == r[i] && forall|j: int| 0 <= j < k ==> (#[trigger] c[j]).0 != r[i].0;
    lemma_keep_dated_from(t, k);
}

/// The rules of the US table, with New Year's Day and Christmas first.
proof fn lemma_us_table(y: int)
    ensures
        holiday_table(y, "US"@) == seq![(ymd(y, 1, 1), "New Year's Day"@), (ymd(y, 12, 25), "Christmas Day"@)] + us_rules(y),
{
    reveal_strlit("US");
    assert(country_rules(y, "US"@) == us_rules(y));
    assert(holiday_table(y, "US"@) =~= seq![(ymd(y, 1, 1), "New Year's Day"@), (ymd(y, 12, 25), "Christmas Day"@)] + us_rules(y));
}

/// Only one rule of the US table has each name.
proof fn lemma_us_names(y: int, j: int, idx: int)
    requires
        0 <= j < holiday_table(y, "US"@).len(),
        0 <= idx < holiday_table(y, "US"@).len(),
        holiday_table(y, "US"@)[j].1 == holiday_table(y, "US"@)[idx].1,
    ensures
        j == idx,
{
    lemma_us_table(y);
    let t = holiday_table(y, "US"@);
    reveal_strlit("New Year's Day");
    reveal_strlit("Christmas Day");
    reveal_strlit("MLK Day");
    reveal_strlit("Presidents' Day");
    reveal_strlit("Memorial Day");
    reveal_strlit("Juneteenth");
    reveal_strlit("Independence Day");
    reveal_strlit("Labor Day");
    reveal_strlit("Columbus / Indigenous Day");
    reveal_strlit("Veterans Day");
    reveal_strlit("Thanksgiving");
    reveal_strlit("New Year's Eve");
    assert(t[0].1 == "New Year's Day"@);
    assert(t[1].1 == "Christmas Day"@);
    assert(t[2].1 == "MLK Day"@);
    assert(t[3].1 == "Presidents' Day"@);
    assert(t[4].1 == "Memorial Day"@);
    assert(t[5].1 == "Juneteenth"@);
    assert(t[6].1 == "Independence Day"@);
    assert(t[7].1 == "Labor Day"@);
    assert(t[8].1 == "Columbus / Indigenous Day"@);
    assert(t[9].1 == "Veterans Day"@);
    assert(t[10].1 == "Thanksgiving"@);
    assert(t[11].1 == "New Year's Eve"@);
    if j == 0 && idx == 1 || j == 1 && idx == 0 {
        assert("New Year's Day"@.len() != "Christmas Day"@.len());
    }
    if j == 0 && idx == 2 || j == 2 && idx == 0 {
        assert("New Year's Day"@.len() != "MLK Day"@.len());
    }
    if j == 0 && idx == 3 || j == 3 && idx == 0 {
        assert("New Year's Day"@.len() != "Presidents' Day"@.len());
    }
    if j == 0 && idx == 4 || j == 4 && idx == 0 {
        assert("New Year's Day"@.len() != "Memorial Day"@.len());
    }
    if j == 0 && idx == 5 || j == 5 && idx == 0 {
        assert("New Year's Day"@.len() != "Juneteenth"@.len());
    }
    if j == 0 && idx == 6 || j == 6 && idx == 0 {
        assert("New Year's Day"@.len() != "Independence Day"@.len());
    }
    if j == 0 && idx == 7 || j == 7 && idx == 0 {
        assert("New Year's Day"@.len() != "Labor Day"@.len());
    }
    if j == 0 && idx == 8 || j == 8 && idx == 0 {
        assert("New Year's Day"@.len() != "Columbus / Indigenous Day"@.len());
    }
    if j == 0 && idx == 9 || j == 9 && idx == 0 {
        assert("New Year's Day"@.len() != "Veterans Day"@.len());
    }
    if j == 0 && idx == 10 || j == 10 && idx == 0 {
        assert("New Year's Day"@.len() != "Thanksgiving"@.len());
    }
    if j == 0 && idx == 11 || j == 11 && idx == 0 {
        assert("New Year's Day"@[11] != "New Year's Eve"@[11]);
    }
    if j == 1 && idx == 2 || j == 2 && idx == 1 {
        assert("Christmas Day"@.len() != "MLK Day"@.len());
    }
    if j == 1 && idx == 3 || j == 3 && idx == 1 {
        assert("Christmas Day"@.len() != "Presidents' Day"@.len());
    }
    if j == 1 && idx == 4 || j == 4 && idx == 1 {
        assert("Christmas Day"@.len() != "Memorial Day"@.len());
    }
    if j == 1 && idx == 5 || j == 5 && idx == 1 {
        assert("Christmas Day"@.len() != "Juneteenth"@.len());
    }
    if j == 1 && idx == 6 || j == 6 && idx == 1 {
        assert("Christmas Day"@.len() != "Independence Day"@.len());
    }
    if j == 1 && idx == 7 || j == 7 && idx == 1 {
        assert("Christmas Day"@.len() != "Labor Day"@.len());
    }
    if j == 1 && idx == 8 || j == 8 && idx == 1 {
        assert("Christmas Day"@.len() != "Columbus / Indigenous Day"@.len());
    }
    if j == 1 && idx == 9 || j == 9 && idx == 1 {
        assert("Christmas Day"@.len() != "Veterans Day"@.len());
    }
    if j == 1 && idx == 10 || j == 10 && idx == 1 {
        assert("Christmas Day"@.len() != "Thanksgiving"@.len());
    }
    if j == 1 && idx == 11 || j == 11 && idx == 1 {
        assert("Christmas Day"@.len() != "New Year's Eve"@.len());
    }
    if j == 2 && idx == 3 || j == 3 && idx == 2 {
        assert("MLK Day"@.len() != "Presidents' Day"@.len());
    }
    if j == 2 && idx == 4 || j == 4 && idx == 2 {
        assert("MLK Day"@.len() != "Memorial Day"@.len());
    }
    if j == 2 && idx == 5 || j == 5 && idx == 2 {
        assert("MLK Day"@.len() != "Juneteenth"@.len());
    }
    if j == 2 && idx == 6 || j == 6 && idx == 2 {
        assert("MLK Day"@.len() != "Independence Day"@.len());
    }
    if j == 2 && idx == 7 || j == 7 && idx == 2 {
        assert("MLK Day"@.len() != "Labor Day"@.len());
    }
    if j == 2 && idx == 8 || j == 8 && idx == 2 {
        assert("MLK Day"@.len() != "Columbus / Indigenous Day"@.len());
    }
    if j == 2 && idx == 9 || j == 9 && idx == 2 {
        assert("MLK Day"@.len() != "Veterans Day"@.len());
    }
    if j == 2 && idx == 10 || j == 10 && idx == 2 {
        assert("MLK Day"@.len() != "Thanksgiving"@.len());
    }
    if j == 2 && idx == 11 || j == 11 && idx == 2 {
        assert("MLK Day"@.len() != "New Year's Eve"@.len());
    }
    if j == 3 && idx == 4 || j == 4 && idx == 3 {
        assert("Presidents' Day"@.len() != "Memorial Day"@.len());
    }
    if j == 3 && idx == 5 || j == 5 && idx == 3 {
        assert("Presidents' Day"@.len() != "Juneteenth"@.len());
    }
    if j == 3 && idx == 6 || j == 6 && idx == 3 {
        assert("Presidents' Day"@.len() != "Independence Day"@.len());
    }
    if j == 3 && idx == 7 || j == 7 && idx == 3 {
        assert("Presidents' Day"@.len() != "Labor Day"@.len());
    }
    if j == 3 && idx == 8 || j == 8 && idx == 3 {
        assert("Presidents' Day"@.len() != "Columbus / Indigenous Day"@.len());
    }
    if j == 3 && idx == 9 || j == 9 && idx == 3 {
        assert("Presidents' Day"@.len() != "Veterans Day"@.len());
    }
    if j == 3 && idx == 10 || j == 10 && idx == 3 {
        assert("Presidents' Day"@.len() != "Thanksgiving"@.len());
    }
    if j == 3 && idx == 11 || j == 11 && idx == 3 {
        assert("Presidents' Day"@.len() != "New Year's Eve"@.len());
    }
    if j == 4 && idx == 5 || j == 5 && idx == 4 {
        assert("Memorial Day"@.len() != "Juneteenth"@.len());
    }
    if j == 4 && idx == 6 || j == 6 && idx == 4 {
        assert("Memorial Day"@.len() != "Independence Day"@.len());
    }
    if j == 4 && idx == 7 || j == 7 && idx == 4 {
        assert("Memorial Day"@.len() != "Labor Day"@.len());
    }
    if j == 4 && idx == 8 || j == 8 && idx == 4 {
        assert("Memorial Day"@.len() != "Columbus / Indigenous Day"@.len());
    }
    if j == 4 && idx == 9 || j == 9 && idx == 4 {
        assert("Memorial Day"@[0] != "Veterans Day"@[0]);
    }
    if j == 4 && idx == 10 || j == 10 && idx == 4 {
        assert("Memorial Day"@[0] != "Thanksgiving"@[0]);
    }
    if j == 4 && idx == 11 || j == 11 && idx == 4 {
        assert("Memorial Day"@.len() != "New Year's Eve"@.len());
    }
    if j == 5 && idx == 6 || j == 6 && idx == 5 {
        assert("Juneteenth"@.len() != "Independence Day"@.len());
    }
    if j == 5 && idx == 7 || j == 7 && idx == 5 {
        assert("Juneteenth"@.len() != "Labor Day"@.len());
    }
    if j == 5 && idx == 8 || j == 8 && idx == 5 {
        assert("Juneteenth"@.len() != "Columbus / Indigenous Day"@.len());
    }
    if j == 5 && idx == 9 || j == 9 && idx == 5 {
        assert("Juneteenth"@.len() != "Veterans Day"@.len());
    }
    if j == 5 && idx == 10 || j == 10 && idx == 5 {
        assert("Juneteenth"@.len() != "Thanksgiving"@.len());
    }
    if j == 5 && idx == 11 || j == 11 && idx == 5 {
        assert("Juneteenth"@.len() != "New Year's Eve"@.len());
    }
    if j == 6 && idx == 7 || j == 7 && idx == 6 {
        assert("Independence Day"@.len() != "Labor Day"@.len());
    }
    if j == 6 && idx == 8 || j == 8 && idx == 6 {
        assert("Independence Day"@.len() != "Columbus / Indigenous Day"@.len());
    }
    if j == 6 && idx == 9 || j == 9 && idx == 6 {
        assert("Independence Day"@.len() != "Veterans Day"@.len());
    }
    if j == 6 && idx == 10 || j == 10 && idx == 6 {
        assert("Independence Day"@.len() != "Thanksgiving"@.len());
    }
    if j == 6 && idx == 11 || j == 11 && idx == 6 {
        assert("Independence Day"@.len() != "New Year's Eve"@.len());
    }
    if j == 7 && idx == 8 || j == 8 && idx == 7 {
        assert("Labor Day"@.len() != "Columbus / Indigenous Day"@.len());
    }
    if j == 7 && idx == 9 || j == 9 && idx == 7 {
        assert("Labor Day"@.len() != "Veterans Day"@.len());
    }
    if j == 7 && idx == 10 || j == 10 && idx == 7 {
        assert("Labor Day"@.len() != "Thanksgiving"@.len());
    }
    if j == 7 && idx == 11 || j == 11 && idx == 7 {
        assert("Labor Day"@.len() != "New Year's Eve"@.len());
    }
    if j == 8 && idx == 9 || j == 9 && idx == 8 {
        assert("Columbus / Indigenous Day"@.len() != "Veterans Day"@.len());
    }
    if j == 8 && idx == 10 || j == 10 && idx == 8 {
        assert("Columbus / Indigenous Day"@.len() != "Thanksgiving"@.len());
    }
    if j == 8 && idx == 11 || j == 11 && idx == 8 {
        assert("Columbus / Indigenous Day"@.len() != "New Year's Eve"@.len());
    }
    if j == 9 && idx == 10 || j == 10 && idx == 9 {
        assert("Veterans Day"@[0] != "Thanksgiving"@[0]);
    }
    if j == 9 && idx == 11 || j == 11 && idx == 9 {
        assert("Veterans Day"@.len() != "New Year's Eve"@.len());
    }
    if j == 10 && idx == 11 || j == 11 && idx == 10 {
        assert("Thanksgiving"@.len() != "New Year's Eve"@.len());
    }
}

/// Law: in the holidays of the United States for any year, as
/// `holidays_for_year` lists them, each holiday falls where its rule puts it:
/// New Year's Day on January 1; Christmas Day on December 25; MLK Day on the
/// third Monday of January; Presidents' Day on the third Monday of February;
/// Memorial Day on the last Monday of May; Juneteenth on June 19;
/// Independence Day on July 4; Labor Day on the first Monday of September;
/// Columbus / Indigenous Day on the second Monday of October; Veterans Day on
/// November 11; Thanksgiving on the fourth Thursday of November; New Year's
/// Eve on December 31.
pub proof fn lemma_us_holiday_dates(y: int, r: Seq<(CivilDate, Seq<char>)>)
    requires
        sorted_first_per_date(r, keep_dated(holiday_table(y, "US"@))),
    ensures
        forall|i: int| 0 <= i < r.len() && (#[trigger] r[i]).1 == "New Year's Day"@ ==> r[i].0 == date(y, 1, 1),
        forall|i: int| 0 <= i < r.len() && (#[trigger] r[i]).1 == "Christmas Day"@ ==> r[i].0 == date(y, 12, 25),
        forall|i: int| 0 <= i < r.len() && (#[trigger] r[i]).1 == "MLK Day"@ ==> is_nth_weekday(r[i].0, y, 1, 3, MONDAY as int),
        forall|i: int| 0 <= i < r.len() && (#[trigger] r[i]).1 == "Presidents' Day"@ ==> is_nth_weekday(r[i].0, y, 2, 3, MONDAY as int),
        forall|i: int| 0 <= i < r.len() && (#[trigger] r[i]).1 == "Memorial Day"@ ==> is_last_weekday(r[i].0, y, 5, MONDAY as int),
        forall|i: int| 0 <= i < r.len() && (#[trigger] r[i]).1 == "Juneteenth"@ ==> r[i].0 == date(y, 6, 19),
        forall|i: int| 0 <= i < r.len() && (#[trigger] r[i]).1 == "Independence Day"@ ==> r[i].0 == date(y, 7, 4),
        forall|i: int| 0 <= i < r.len() && (#[trigger] r[i]).1 == "Labor Day"@ ==> is_nth_weekday(r[i].0, y, 9, 1, MONDAY as int),
        forall|i: int| 0 <= i < r.len() && (#[trigger] r[i]).1 == "Columbus / Indigenous Day"@ ==> is_nth_weekday(r[i].0, y, 10, 2, MONDAY as int),
        forall|i: int| 0 <= i < r.len() && (#[trigger] r[i]).1 == "Veterans Day"@ ==> r[i].0 == date(y, 11, 11),
        forall|i: int| 0 <= i < r.len() && (#[trigger] r[i]).1 == "Thanksgiving"@ ==> is_nth_weekday(r[i].0, y, 11, 4, THURSDAY as int),
        forall|i: int| 0 <= i < r.len() && (#[trigger] r[i]).1 == "New Year's Eve"@ ==> r[i].0 == date(y, 12, 31),
{
    let t = holiday_table(y, "US"@);
    lemma_us_table(y);
    reveal_strlit("New Year's Day");
    assert forall|i: int| 0 <= i < r.len() && (#[trigger] r[i]).1 == "New Year's Day"@ implies r[i].0 == date(y, 1, 1) by {
        lemma_listed_from_table(t, r, i);
        let j = choose|j: int| 0 <= j < t.len() && #[trigger] t[j] == (Some(r[i].0), r[i].1);
        assert(t[0].1 == "New Year's Day"@);
        lemma_us_names(y, j, 0);
    }
    reveal_strlit("Christmas Day");
    assert forall|i: int| 0 <= i < r.len() && (#[trigger] r[i]).1 == "Christmas Day"@ implies r[i].0 == date(y, 12, 25) by {
        lemma_listed_from_table(t, r, i);
        let j = choose|j: int| 0 <= j < t.len() && #[trigger] t[j] == (Some(r[i].0), r[i].1);
        assert(t[1].1 == "Christmas Day"@);
        lemma_us_names(y, j, 1);
    }
    reveal_strlit("MLK Day");
    assert forall|i: int| 0 <= i < r.len() && (#[trigger] r[i]).1 == "MLK Day"@ implies is_nth_weekday(r[i].0, y, 1, 3, MONDAY as int) by {
        lemma_listed_from_table(t, r, i);
        let j = choose|j: int| 0 <= j < t.len() && #[trigger] t[j] == (Some(r[i].0), r[i].1);
        assert(t[2].1 == "MLK Day"@);
        lemma_us_names(y, j, 2);
        lemma_nth_weekday_correct(y, 1, 3, MONDAY as int);
    }
    reveal_strlit("Presidents' Day");
    assert forall|i: int| 0 <= i < r.len() && (#[trigger] r[i]).1 == "Presidents' Day"@ implies is_nth_weekday(r[i].0, y, 2, 3, MONDAY as int) by {
        lemma_listed_from_table(t, r, i);
        let j = choose|j: int| 0 <= j < t.len() && #[trigger] t[j] == (Some(r[i].0), r[i].1);
        assert(t[3].1 == "Presidents' Day"@);
        lemma_us_names(y, j, 3);
        lemma_nth_weekday_correct(y, 2, 3, MONDAY as int);
    }
    reveal_strlit("Memorial Day");
    assert forall|i: int| 0 <= i < r.len() && (#[trigger] r[i]).1 == "Memorial Day"@ implies is_last_weekday(r[i].0, y, 5, MONDAY as int) by {
        lemma_listed_from_table(t, r, i);
        let j = choose|j: int| 0 <= j < t.len() && #[trigger] t[j] == (Some(r[i].0), r[i].1);
        assert(t[4].1 == "Memorial Day"@);
        lemma_us_names(y, j, 4);
        lemma_last_weekday_correct(y, 5, MONDAY as int);
    }
    reveal_strlit("Juneteenth");
    assert forall|i: int| 0 <= i < r.len() && (#[trigger] r[i]).1 == "Juneteenth"@ implies r[i].0 == date(y, 6, 19) by {
        lemma_listed_from_table(t, r, i);
        let j = choose|j: int| 0 <= j < t.len() && #[trigger] t[j] == (Some(r[i].0), r[i].1);
        assert(t[5].1 == "Juneteenth"@);
        lemma_us_names(y, j, 5);
    }
    reveal_strlit("Independence Day");
    assert forall|i: int| 0 <= i < r.len() && (#[trigger] r[i]).1 == "Independence Day"@ implies r[i].0 == date(y, 7, 4) by {
        lemma_listed_from_table(t, r, i);
        let j = choose|j: int| 0 <= j < t.len() && #[trigger] t[j] == (Some(r[i].0), r[i].1);
        assert(t[6].1 == "Independence Day"@);
        lemma_us_names(y, j, 6);
    }
    reveal_strlit("Labor Day");
    assert forall|i: int| 0 <= i < r.len() && (#[trigger] r[i]).1 == "Labor Day"@ implies is_nth_weekday(r[i].0, y, 9, 1, MONDAY as int) by {
        lemma_listed_from_table(t, r, i);
        let j = choose|j: int| 0 <= j < t.len() && #[trigger] t[j] == (Some(r[i].0), r[i].1);
        assert(t[7].1 == "Labor Day"@);
        lemma_us_names(y, j, 7);
        lemma_nth_weekday_correct(y, 9, 1, MONDAY as int);
    }
    reveal_strlit("Columbus / Indigenous Day");
    assert forall|i: int| 0 <= i < r.len() && (#[trigger] r[i]).1 == "Columbus / Indigenous Day"@ implies is_nth_weekday(r[i].0, y, 10, 2, MONDAY as int) by {
        lemma_listed_from_table(t, r, i);
        let j = choose|j: int| 0 <= j < t.len() && #[trigger] t[j] == (Some(r[i].0), r[i].1);
        assert(t[8].1 == "Columbus / Indigenous Day"@);
        lemma_us_names(y, j, 8);
        lemma_nth_weekday_correct(y, 10, 2, MONDAY as int);
    }
    reveal_strlit("Veterans Day");
    assert forall|i: int| 0 <= i < r.len() && (#[trigger] r[i]).1 == "Veterans Day"@ implies r[i].0 == date(y, 11, 11) by {
        lemma_listed_from_table(t, r, i);
        let j = choose|j: int| 0 <= j < t.len() && #[trigger] t[j] == (Some(r[i].0), r[i].1);
        assert(t[9].1 == "Veterans Day"@);
        lemma_us_names(y, j, 9);
    }
    reveal_strlit("Thanksgiving");
    assert forall|i: int| 0 <= i < r.len() && (#[trigger] r[i]).1 == "Thanksgiving"@ implies is_nth_weekday(r[i].0, y, 11, 4, THURSDAY as int) by {
        lemma_listed_from_table(t, r, i);
        let j = choose|j: int| 0 <= j < t.len() && #[trigger] t[j] == (Some(r[i].0), r[i].1);
        assert(t[10].1 == "Thanksgiving"@);
        lemma_us_names(y, j, 10);
        lemma_nth_weekday_correct(y, 11, 4, THURSDAY as int);
    }
    reveal_strlit("New Year's Eve");
    assert forall|i: int| 0 <= i < r.len() && (#[trigger] r[i]).1 == "New Year's Eve"@ implies r[i].0 == date(y, 12, 31) by {
        lemma_listed_from_table(t, r, i);
        let j = choose|j: int| 0 <= j < t.len() && #[trigger] t[j] == (Some(r[i].0), r[i].1);
        assert(t[11].1 == "New Year's Eve"@);
        lemma_us_names(y, j, 11);
    }
}

/// The rules of the GB table, with New Year's Day and Christmas first.
proof fn lemma_gb_table(y: int)
    ensures
        holiday_table(y, "GB"@) == seq![(ymd(y, 1, 1), "New Year's Day"@), (ymd(y, 12, 25), "Christmas Day"@)] + gb_rules(y),
{
    reveal_strlit("US");
    reveal_strlit("GB");
    assert("GB"@[0] != "US"@[0]);
    assert(country_rules(y, "GB"@) == gb_rules(y));
    assert(holiday_table(y, "GB"@) =~= seq![(ymd(y, 1, 1), "New Year's Day"@), (ymd(y, 12, 25), "Christmas Day"@)] + gb_rules(y));
}

/// Only one rule of the GB table has each name.
proof fn lemma_gb_names(y: int, j: int, idx: int)
    requires
        0 <= j < holiday_table(y, "GB"@).len(),
        0 <= idx < holiday_table(y, "GB"@).len(),
        holiday_table(y, "GB"@)[j].1 == holiday_table(y, "GB"@)[idx].1,
    ensures
        j == idx,
{
    lemma_gb_table(y);
    let t = holiday_table(y, "GB"@);
    reveal_strlit("New Year's Day");
    reveal_strlit("Christmas Day");
    reveal_strlit("Good Friday");
    reveal_strlit("Easter Monday");
    reveal_strlit("Early May Bank Holiday");
    reveal_strlit("Spring Bank Holiday");
    reveal_strlit("Summer Bank Holiday");
    reveal_strlit("Boxing Day");
    assert(t[0].1 == "New Year's Day"@);
    assert(t[1].1 == "Christmas Day"@);
    assert(t[2].1 == "Good Friday"@);
    assert(t[3].1 == "Easter Monday"@);
    assert(t[4].1 == "Early May Bank Holiday"@);
    assert(t[5].1 == "Spring Bank Holiday"@);
    assert(t[6].1 == "Summer Bank Holiday"@);
    assert(t[7].1 == "Boxing Day"@);
    if j == 0 && idx == 1 || j == 1 && idx == 0 {
        assert("New Year's Day"@.len() != "Christmas Day"@.len());
    }
    if j == 0 && idx == 2 || j == 2 && idx == 0 {
        assert("New Year's Day"@.len() != "Good Friday"@.len());
    }
    if j == 0 && idx == 3 || j == 3 && idx == 0 {
        assert("New Year's Day"@.len() != "Easter Monday"@.len());
    }
    if j == 0 && idx == 4 || j == 4 && idx == 0 {
        assert("New Year's Day"@.len() != "Early May Bank Holiday"@.len());
    }
    if j == 0 && idx == 5 || j == 5 && idx == 0 {
        assert("New Year's Day"@.len() != "Spring Bank Holiday"@.len());
    }
    if j == 0 && idx == 6 || j == 6 && idx == 0 {
        assert("New Year's Day"@.len() != "Summer Bank Holiday"@.len());
    }
    if j == 0 && idx == 7 || j == 7 && idx == 0 {
        assert("New Year's Day"@.len() != "Boxing Day"@.len());
    }
    if j == 1 && idx == 2 || j == 2 && idx == 1 {
        assert("Christmas Day"@.len() != "Good Friday"@.len());
    }
    if j == 1 && idx == 3 || j == 3 && idx == 1 {
        assert("Christmas Day"@[0] != "Easter Monday"@[0]);
    }
    if j == 1 && idx == 4 || j == 4 && idx == 1 {
        assert("Christmas Day"@.len() != "Early May Bank Holiday"@.len());
    }
    if j == 1 && idx == 5 || j == 5 && idx == 1 {
        assert("Christmas Day"@.len() != "Spring Bank Holiday"@.len());
    }
    if j == 1 && idx == 6 || j == 6 && idx == 1 {
        assert("Christmas Day"@.len() != "Summer Bank Holiday"@.len());
    }
    if j == 1 && idx == 7 || j == 7 && idx == 1 {
        assert("Christmas Day"@.len() != "Boxing Day"@.len());
    }
    if j == 2 && idx == 3 || j == 3 && idx == 2 {
        assert("Good Friday"@.len() != "Easter Monday"@.len());
    }
    if j == 2 && idx == 4 || j == 4 && idx == 2 {
        assert("Good Friday"@.len() != "Early May Bank Holiday"@.len());
    }
    if j == 2 && idx == 5 || j == 5 && idx == 2 {
        assert("Good Friday"@.len() != "Spring Bank Holiday"@.len());
    }
    if j == 2 && idx == 6 || j == 6 && idx == 2 {
        assert("Good Friday"@.len() != "Summer Bank Holiday"@.len());
    }
    if j == 2 && idx == 7 || j == 7 && idx == 2 {
        assert("Good Friday"@.len() != "Boxing Day"@.len());
    }
    if j == 3 && idx == 4 || j == 4 && idx == 3 {
        assert("Easter Monday"@.len() != "Early May Bank Holiday"@.len());
    }
    if j == 3 && idx == 5 || j == 5 && idx == 3 {
        assert("Easter Monday"@.len() != "Spring Bank Holiday"@.len());
    }
    if j == 3 && idx == 6 || j == 6 && idx == 3 {
        assert("Easter Monday"@.len() != "Summer Bank Holiday"@.len());
    }
    if j == 3 && idx == 7 || j == 7 && idx == 3 {
        assert("Easter Monday"@.len() != "Boxing Day"@.len());
    }
    if j == 4 && idx == 5 || j == 5 && idx == 4 {
        assert("Early May Bank Holiday"@.len() != "Spring Bank Holiday"@.len());
    }
    if j == 4 && idx == 6 || j == 6 && idx == 4 {
        assert("Early May Bank Holiday"@.len() != "Summer Bank Holiday"@.len());
    }
    if j == 4 && idx == 7 || j == 7 && idx == 4 {
        assert("Early May Bank Holiday"@.len() != "Boxing Day"@.len());
    }
    if j == 5 && idx == 6 || j == 6 && idx == 5 {
        assert("Spring Bank Holiday"@[1] != "Summer Bank Holiday"@[1]);
    }
    if j == 5 && idx == 7 || j == 7 && idx == 5 {
        assert("Spring Bank Holiday"@.len() != "Boxing Day"@.len());
    }
    if j == 6 && idx == 7 || j == 7 && idx == 6 {
        assert("Summer Bank Holiday"@.len() != "Boxing Day"@.len());
    }
}

/// Law: in the holidays of the United Kingdom for any year, as
/// `holidays_for_year` lists them, each holiday falls where its rule puts it:
/// New Year's Day on January 1; Christmas Day on December 25; Early May Bank
/// Holiday on the first Monday of May; Spring Bank Holiday on the last Monday
/// of May; Summer Bank Holiday on the last Monday of August; Boxing Day on
/// December 26.
pub proof fn lemma_gb_holiday_dates(y: int, r: Seq<(CivilDate, Seq<char>)>)
    requires
        sorted_first_per_date(r, keep_dated(holiday_table(y, "GB"@))),
    ensures
        forall|i: int| 0 <= i < r.len() && (#[trigger] r[i]).1 == "New Year's Day"@ ==> r[i].0 == date(y, 1, 1),
        forall|i: int| 0 <= i < r.len() && (#[trigger] r[i]).1 == "Christmas Day"@ ==> r[i].0 == date(y, 12, 25),
        forall|i: int| 0 <= i < r.len() && (#[trigger] r[i]).1 == "Early May Bank Holiday"@ ==> is_nth_weekday(r[i].0, y, 5, 1, MONDAY as int),
        forall|i: int| 0 <= i < r.len() && (#[trigger] r[i]).1 == "Spring Bank Holiday"@ ==> is_last_weekday(r[i].0, y, 5, MONDAY as int),
        forall|i: int| 0 <= i < r.len() && (#[trigger] r[i]).1 == "Summer Bank Holiday"@ ==> is_last_weekday(r[i].0, y, 8, MONDAY as int),
        forall|i: int| 0 <= i < r.len() && (#[trigger] r[i]).1 == "Boxing Day"@ ==> r[i].0 == date(y, 12, 26),
{
    let t = holiday_table(y, "GB"@);
    lemma_gb_table(y);
    reveal_strlit("New Year's Day");
    assert forall|i: int| 0 <= i < r.len() && (#[trigger] r[i]).1 == "New Year's Day"@ implies r[i].0 == date(y, 1, 1) by {
        lemma_listed_from_table(t, r, i);
        let j = choose|j: int| 0 <= j < t.len() && #[trigger] t[j] == (Some(r[i].0), r[i].1);
        assert(t[0].1 == "New Year's Day"@);
        lemma_gb_names(y, j, 0);
    }
    reveal_strlit("Christmas Day");
    assert forall|i: int| 0 <= i < r.len() && (#[trigger] r[i]).1 == "Christmas Day"@ implies r[i].0 == date(y, 12, 25) by {
        lemma_listed_from_table(t, r, i);
        let j = choose|j: int| 0 <= j < t.len() && #[trigger] t[j] == (Some(r[i].0), r[i].1);
        assert(t[1].1 == "Christmas Day"@);
        lemma_gb_names(y, j, 1);
    }
    reveal_strlit("Early May Bank Holiday");
    assert forall|i: int| 0 <= i < r.len() && (#[trigger] r[i]).1 == "Early May Bank Holiday"@ implies is_nth_weekday(r[i].0, y, 5, 1, MONDAY as int) by {
        lemma_listed_from_table(t, r, i);
        let j = choose|j: int| 0 <= j < t.len() && #[trigger] t[j] == (Some(r[i].0), r[i].1);
        assert(t[4].1 == "Early May Bank Holiday"@);
        lemma_gb_names(y, j, 4);
        lemma_nth_weekday_correct(y, 5, 1, MONDAY as int);
    }
    reveal_strlit("Spring Bank Holiday");
    assert forall|i: int| 0 <= i < r.len() && (#[trigger] r[i]).1 == "Spring Bank Holiday"@ implies is_last_weekday(r[i].0, y, 5, MONDAY as int) by {
        lemma_listed_from_table(t, r, i);
        let j = choose|j: int| 0 <= j < t.len() && #[trigger] t[j] == (Some(r[i].0), r[i].1);
        assert(t[5].1 == "Spring Bank Holiday"@);
        lemma_gb_names(y, j, 5);
        lemma_last_weekday_correct(y, 5, MONDAY as int);
    }
    reveal_strlit("Summer Bank Holiday");
    assert forall|i: int| 0 <= i < r.len() && (#[trigger] r[i]).1 == "Summer Bank Holiday"@ implies is_last_weekday(r[i].0, y, 8, MONDAY as int) by {
        lemma_listed_from_table(t, r, i);
        let j = choose|j: int| 0 <= j < t.len() && #[trigger] t[j] == (Some(r[i].0), r[i].1);
        assert(t[6].1 == "Summer Bank Holiday"@);
        lemma_gb_names(y, j, 6);
        lemma_last_weekday_correct(y, 8, MONDAY as int);
    }
    reveal_strlit("Boxing Day");
    assert forall|i: int| 0 <= i < r.len() && (#[trigger] r[i]).1 == "Boxing Day"@ implies r[i].0 == date(y, 12, 26) by {
        lemma_listed_from_table(t, r, i);
        let j = choose|j: int| 0 <= j < t.len() && #[trigger] t[j] == (Some(r[i].0), r[i].1);
        assert(t[7].1 == "Boxing Day"@);
        lemma_gb_names(y, j, 7);
    }
}

/// The rules of the CA table, with New Year's Day and Christmas first.
proof fn lemma_ca_table(y: int)
    ensures
        holiday_table(y, "CA"@) == seq![(ymd(y, 1, 1), "New Year's Day"@), (ymd(y, 12, 25), "Christmas Day"@)] + ca_rules(y),
{
    reveal_strlit("US");
    reveal_strlit("GB");
    reveal_strlit("UK");
    reveal_strlit("CA");
    assert("CA"@[0] != "US"@[0]);
    assert("CA"@[0] != "GB"@[0]);
    assert("CA"@[0] != "UK"@[0]);
    assert(country_rules(y, "CA"@) == ca_rules(y));
    assert(holiday_table(y, "CA"@) =~= seq![(ymd(y, 1, 1), "New Year's Day"@), (ymd(y, 12, 25), "Christmas Day"@)] + ca_rules(y));
}

/// Only one rule of the CA table has each name.
proof fn lemma_ca_names(y: int, j: int, idx: int)
    requires
        0 <= j < holiday_table(y, "CA"@).len(),
        0 <= idx < holiday_table(y, "CA"@).len(),
        holiday_table(y, "CA"@)[j].1 == holiday_table(y, "CA"@)[idx].1,
    ensures
        j == idx,
{
    lemma_ca_table(y);
    let t = holiday_table(y, "CA"@);
    reveal_strlit("New Year's Day");
    reveal_strlit("Christmas Day");
    reveal_strlit("Canada Day");
    reveal_strlit("Civic Holiday");
    reveal_strlit("National Day for Truth and Reconciliation");
    reveal_strlit("Thanksgiving (CA)");
    reveal_strlit("Remembrance Day");
    reveal_strlit("Victoria Day");
    assert(t[0].1 == "New Year's Day"@);
    assert(t[1].1 == "Christmas Day"@);
    assert(t[2].1 == "Canada Day"@);
    assert(t[3].1 == "Civic Holiday"@);
    assert(t[4].1 == "National Day for Truth and Reconciliation"@);
    assert(t[5].1 == "Thanksgiving (CA)"@);
    assert(t[6].1 == "Remembrance Day"@);
    assert(t[7].1 == "Victoria Day"@);
    if j == 0 && idx == 1 || j == 1 && idx == 0 {
        assert("New Year's Day"@.len() != "Christmas Day"@.len());
    }
    if j == 0 && idx == 2 || j == 2 && idx == 0 {
        assert("New Year's Day"@.len() != "Canada Day"@.len());
    }
    if j == 0 && idx == 3 || j == 3 && idx == 0 {
        assert("New Year's Day"@.len() != "Civic Holiday"@.len());
    }
    if j == 0 && idx == 4 || j == 4 && idx == 0 {
        assert("New Year's Day"@.len() != "National Day for Truth and Reconciliation"@.len());
    }
    if j == 0 && idx == 5 || j == 5 && idx == 0 {
        assert("New Year's Day"@.len() != "Thanksgiving (CA)"@.len());
    }
    if j == 0 && idx == 6 || j == 6 && idx == 0 {
        assert("New Year's Day"@.len() != "Remembrance Day"@.len());
    }
    if j == 0 && idx == 7 || j == 7 && idx == 0 {
        assert("New Year's Day"@.len() != "Victoria Day"@.len());
    }
    if j == 1 && idx == 2 || j == 2 && idx == 1 {
        assert("Christmas Day"@.len() != "Canada Day"@.len());
    }
    if j == 1 && idx == 3 || j == 3 && idx == 1 {
        assert("Christmas Day"@[1] != "Civic Holiday"@[1]);
    }
    if j == 1 && idx == 4 || j == 4 && idx == 1 {
        assert("Christmas Day"@.len() != "National Day for Truth and Reconciliation"@.len());
    }
    if j == 1 && idx == 5 || j == 5 && idx == 1 {
        assert("Christmas Day"@.len() != "Thanksgiving (CA)"@.len());
    }
    if j == 1 && idx == 6 || j == 6 && idx == 1 {
        assert("Christmas Day"@.len() != "Remembrance Day"@.len());
    }
    if j == 1 && idx == 7 || j == 7 && idx == 1 {
        assert("Christmas Day"@.len() != "Victoria Day"@.len());
    }
    if j == 2 && idx == 3 || j == 3 && idx == 2 {
        assert("Canada Day"@.len() != "Civic Holiday"@.len());
    }
    if j == 2 && idx == 4 || j == 4 && idx == 2 {
        assert("Canada Day"@.len() != "National Day for Truth and Reconciliation"@.len());
    }
    if j == 2 && idx == 5 || j == 5 && idx == 2 {
        assert("Canada Day"@.len() != "Thanksgiving (CA)"@.len());
    }
    if j == 2 && idx == 6 || j == 6 && idx == 2 {
        assert("Canada Day"@.len() != "Remembrance Day"@.len());
    }
    if j == 2 && idx == 7 || j == 7 && idx == 2 {
        assert("Canada Day"@.len() != "Victoria Day"@.len());
    }
    if j == 3 && idx == 4 || j == 4 && idx == 3 {
        assert("Civic Holiday"@.len() != "National Day for Truth and Reconciliation"@.len());
    }
    if j == 3 && idx == 5 || j == 5 && idx == 3 {
        assert("Civic Holiday"@.len() != "Thanksgiving (CA)"@.len());
    }
    if j == 3 && idx == 6 || j == 6 && idx == 3 {
        assert("Civic Holiday"@.len() != "Remembrance Day"@.len());
    }
    if j == 3 && idx == 7 || j == 7 && idx == 3 {
        assert("Civic Holiday"@.len() != "Victoria Day"@.len());
    }
    if j == 4 && idx == 5 || j == 5 && idx == 4 {
        assert("National Day for Truth and Reconciliation"@.len() != "Thanksgiving (CA)"@.len());
    }
    if j == 4 && idx == 6 || j == 6 && idx == 4 {
        assert("National Day for Truth and Reconciliation"@.len() != "Remembrance Day"@.len());
    }
    if j == 4 && idx == 7 || j == 7 && idx == 4 {
        assert("National Day for Truth and Reconciliation"@.len() != "Victoria Day"@.len());
    }
    if j == 5 && idx == 6 || j == 6 && idx == 5 {
        assert("Thanksgiving (CA)"@.len() != "Remembrance Day"@.len());
    }
    if j == 5 && idx == 7 || j == 7 && idx == 5 {
        assert("Thanksgiving (CA)"@.len() != "Victoria Day"@.len());
    }
    if j == 6 && idx == 7 || j == 7 && idx == 6 {
        assert("Remembrance Day"@.len() != "Victoria Day"@.len());
    }
}

/// Law: in the holidays of Canada for any year, as `holidays_for_year` lists
/// them, each holiday falls where its rule puts it: New Year's Day on January
/// 1; Christmas Day on December 25; Canada Day on July 1; Civic Holiday on
/// the first Monday of August; National Day for Truth and Reconciliation on
/// September 30; Thanksgiving (CA) on the second Monday of October;
/// Remembrance Day on November 11; Victoria Day on a Monday from May 18 to
/// May 24.
pub proof fn lemma_ca_holiday_dates(y: int, r: Seq<(CivilDate, Seq<char>)>)
    requires
        sorted_first_per_date(r, keep_dated(holiday_table(y, "CA"@))),
    ensures
        forall|i: int| 0 <= i < r.len() && (#[trigger] r[i]).1 == "New Year's Day"@ ==> r[i].0 == date(y, 1, 1),
        forall|i: int| 0 <= i < r.len() && (#[trigger] r[i]).1 == "Christmas Day"@ ==> r[i].0 == date(y, 12, 25),
        forall|i: int| 0 <= i < r.len() && (#[trigger] r[i]).1 == "Canada Day"@ ==> r[i].0 == date(y, 7, 1),
        forall|i: int| 0 <= i < r.len() && (#[trigger] r[i]).1 == "Civic Holiday"@ ==> is_nth_weekday(r[i].0, y, 8, 1, MONDAY as int),
        forall|i: int| 0 <= i < r.len() && (#[trigger] r[i]).1 == "National Day for Truth and Reconciliation"@ ==> r[i].0 == date(y, 9, 30),
        forall|i: int| 0 <= i < r.len() && (#[trigger] r[i]).1 == "Thanksgiving (CA)"@ ==> is_nth_weekday(r[i].0, y, 10, 2, MONDAY as int),
        forall|i: int| 0 <= i < r.len() && (#[trigger] r[i]).1 == "Remembrance Day"@ ==> r[i].0 == date(y, 11, 11),
        forall|i: int| 0 <= i < r.len() && (#[trigger] r[i]).1 == "Victoria Day"@ ==> r[i].0.year == y && r[i].0.month == 5 && weekday_of(r[i].0) == MONDAY && 18 <= r[i].0.day <= 24,
{
    let t = holiday_table(y, "CA"@);
    lemma_ca_table(y);
    reveal_strlit("New Year's Day");
    assert forall|i: int| 0 <= i < r.len() && (#[trigger] r[i]).1 == "New Year's Day"@ implies r[i].0 == date(y, 1, 1) by {
        lemma_listed_from_table(t, r, i);
        let j = choose|j: int| 0 <= j < t.len() && #[trigger] t[j] == (Some(r[i].0), r[i].1);
        assert(t[0].1 == "New Year's Day"@);
        lemma_ca_names(y, j, 0);
    }
    reveal_strlit("Christmas Day");
    assert forall|i: int| 0 <= i < r.len() && (#[trigger] r[i]).1 == "Christmas Day"@ implies r[i].0 == date(y, 12, 25) by {
        lemma_listed_from_table(t, r, i);
        let j = choose|j: int| 0 <= j < t.len() && #[trigger] t[j] == (Some(r[i].0), r[i].1);
        assert(t[1].1 == "Christmas Day"@);
        lemma_ca_names(y, j, 1);
    }
    reveal_strlit("Canada Day");
    assert forall|i: int| 0 <= i < r.len() && (#[trigger] r[i]).1 == "Canada Day"@ implies r[i].0 == date(y, 7, 1) by {
        lemma_listed_from_table(t, r, i);
        let j = choose|j: int| 0 <= j < t.len() && #[trigger] t[j] == (Some(r[i].0), r[i].1);
        assert(t[2].1 == "Canada Day"@);
        lemma_ca_names(y, j, 2);
    }
    reveal_strlit("Civic Holiday");
    assert forall|i: int| 0 <= i < r.len() && (#[trigger] r[i]).1 == "Civic Holiday"@ implies is_nth_weekday(r[i].0, y, 8, 1, MONDAY as int) by {
        lemma_listed_from_table(t, r, i);
        let j = choose|j: int| 0 <= j < t.len() && #[trigger] t[j] == (Some(r[i].0), r[i].1);
        assert(t[3].1 == "Civic Holiday"@);
        lemma_ca_names(y, j, 3);
        lemma_nth_weekday_correct(y, 8, 1, MONDAY as int);
    }
    reveal_strlit("National Day for Truth and Reconciliation");
    assert forall|i: int| 0 <= i < r.len() && (#[trigger] r[i]).1 == "National Day for Truth and Reconciliation"@ implies r[i].0 == date(y, 9, 30) by {
        lemma_listed_from_table(t, r, i);
        let j = choose|j: int| 0 <= j < t.len() && #[trigger] t[j] == (Some(r[i].0), r[i].1);
        assert(t[4].1 == "National Day for Truth and Reconciliation"@);
        lemma_ca_names(y, j, 4);
    }
    reveal_strlit("Thanksgiving (CA)");
    assert forall|i: int| 0 <= i < r.len() && (#[trigger] r[i]).1 == "Thanksgiving (CA)"@ implies is_nth_weekday(r[i].0, y, 10, 2, MONDAY as int) by {
        lemma_listed_from_table(t, r, i);
        let j = choose|j: int| 0 <= j < t.len() && #[trigger] t[j] == (Some(r[i].0), r[i].1);
        assert(t[5].1 == "Thanksgiving (CA)"@);
        lemma_ca_names(y, j, 5);
        lemma_nth_weekday_correct(y, 10, 2, MONDAY as int);
    }
    reveal_strlit("Remembrance Day");
    assert forall|i: int| 0 <= i < r.len() && (#[trigger] r[i]).1 == "Remembrance Day"@ implies r[i].0 == date(y, 11, 11) by {
        lemma_listed_from_table(t, r, i);
        let j = choose|j: int| 0 <= j < t.len() && #[trigger] t[j] == (Some(r[i].0), r[i].1);
        assert(t[6].1 == "Remembrance Day"@);
        lemma_ca_names(y, j, 6);
    }
    reveal_strlit("Victoria Day");
    assert forall|i: int| 0 <= i < r.len() && (#[trigger] r[i]).1 == "Victoria Day"@ implies r[i].0.year == y && r[i].0.month == 5 && weekday_of(r[i].0) == MONDAY && 18 <= r[i].0.day <= 24 by {
        lemma_listed_from_table(t, r, i);
        let j = choose|j: int| 0 <= j < t.len() && #[trigger] t[j] == (Some(r[i].0), r[i].1);
        assert(t[7].1 == "Victoria Day"@);
        lemma_ca_names(y, j, 7);
        lemma_victoria_day_correct(y);
    }
}

/// The rules of the AU table, with New Year's Day and Christmas first.
proof fn lemma_au_table(y: int)
    ensures
        holiday_table(y, "AU"@) == seq![(ymd(y, 1, 1), "New Year's Day"@), (ymd(y, 12, 25), "Christmas Day"@)] + au_rules(y),
{
    reveal_strlit("US");
    reveal_strlit("GB");
    reveal_strlit("UK");
    reveal_strlit("CA");
    reveal_strlit("DE");
    reveal_strlit("FR");
    reveal_strlit("AU");
    assert("AU"@[0] != "US"@[0]);
    assert("AU"@[0] != "GB"@[0]);
    assert("AU"@[0] != "UK"@[0]);
    assert("AU"@[0] != "CA"@[0]);
    assert("AU"@[0] != "DE"@[0]);
    assert("AU"@[0] != "FR"@[0]);
    assert(country_rules(y, "AU"@) == au_rules(y));
    assert(holiday_table(y, "AU"@) =~= seq![(ymd(y, 1, 1), "New Year's Day"@), (ymd(y, 12, 25), "Christmas Day"@)] + au_rules(y));
}

/// Only one rule of the AU table has each name.
proof fn lemma_au_names(y: int, j: int, idx: int)
    requires
        0 <= j < holiday_table(y, "AU"@).len(),
        0 <= idx < holiday_table(y, "AU"@).len(),
        holiday_table(y, "AU"@)[j].1 == holiday_table(y, "AU"@)[idx].1,
    ensures
        j == idx,
{
    lemma_au_table(y);
    let t = holiday_table(y, "AU"@);
    reveal_strlit("New Year's Day");
    reveal_strlit("Christmas Day");
    reveal_strlit("Australia Day");
    reveal_strlit("Anzac Day");
    reveal_strlit("King's Birthday");
    reveal_strlit("Boxing Day");
    assert(t[0].1 == "New Year's Day"@);
    assert(t[1].1 == "Christmas Day"@);
    assert(t[2].1 == "Australia Day"@);
    assert(t[3].1 == "Anzac Day"@);
    assert(t[4].1 == "King's Birthday"@);
    assert(t[5].1 == "Boxing Day"@);
    if j == 0 && idx == 1 || j == 1 && idx == 0 {
        assert("New Year's Day"@.len() != "Christmas Day"@.len());
    }
    if j == 0 && idx == 2 || j == 2 && idx == 0 {
        assert("New Year's Day"@.len() != "Australia Day"@.len());
    }
    if j == 0 && idx == 3 || j == 3 && idx == 0 {
        assert("New Year's Day"@.len() != "Anzac Day"@.len());
    }
    if j == 0 && idx == 4 || j == 4 && idx == 0 {
        assert("New Year's Day"@.len() != "King's Birthday"@.len());
    }
    if j == 0 && idx == 5 || j == 5 && idx == 0 {
        assert("New Year's Day"@.len() != "Boxing Day"@.len());
    }
    if j == 1 && idx == 2 || j == 2 && idx == 1 {
        assert("Christmas Day"@[0] != "Australia Day"@[0]);
    }
    if j == 1 && idx == 3 || j == 3 && idx == 1 {
        assert("Christmas Day"@.len() != "Anzac Day"@.len());
    }
    if j == 1 && idx == 4 || j == 4 && idx == 1 {
        assert("Christmas Day"@.len() != "King's Birthday"@.len());
    }
    if j == 1 && idx == 5 || j == 5 && idx == 1 {
        assert("Christmas Day"@.len() != "Boxing Day"@.len());
    }
    if j == 2 && idx == 3 || j == 3 && idx == 2 {
        assert("Australia Day"@.len() != "Anzac Day"@.len());
    }
    if j == 2 && idx == 4 || j == 4 && idx == 2 {
        assert("Australia Day"@.len() != "King's Birthday"@.len());
    }
    if j == 2 && idx == 5 || j == 5 && idx == 2 {
        assert("Australia Day"@.len() != "Boxing Day"@.len());
    }
    if j == 3 && idx == 4 || j == 4 && idx == 3 {
        assert("Anzac Day"@.len() != "King's Birthday"@.len());
    }
    if j == 3 && idx == 5 || j == 5 && idx == 3 {
        assert("Anzac Day"@.len() != "Boxing Day"@.len());
    }
    if j == 4 && idx == 5 || j == 5 && idx == 4 {
        assert("King's Birthday"@.len() != "Boxing Day"@.len());
    }
}

/// Law: in the holidays of Australia for any year, as `holidays_for_year`
/// lists them, each holiday falls where its rule puts it: New Year's Day on
/// January 1; Christmas Day on December 25; Australia Day on January 26;
/// Anzac Day on April 25; King's Birthday on the second Monday of June;
/// Boxing Day on December 26.
pub proof fn lemma_au_holiday_dates(y: int, r: Seq<(CivilDate, Seq<char>)>)
    requires
        sorted_first_per_date(r, keep_dated(holiday_table(y, "AU"@))),
    ensures
        forall|i: int| 0 <= i < r.len() && (#[trigger] r[i]).1 == "New Year's Day"@ ==> r[i].0 == date(y, 1, 1),
        forall|i: int| 0 <= i < r.len() && (#[trigger] r[i]).1 == "Christmas Day"@ ==> r[i].0 == date(y, 12, 25),
        forall|i: int| 0 <= i < r.len() && (#[trigger] r[i]).1 == "Australia Day"@ ==> r[i].0 == date(y, 1, 26),
        forall|i: int| 0 <= i < r.len() && (#[trigger] r[i]).1 == "Anzac Day"@ ==> r[i].0 == date(y, 4, 25),
        forall|i: int| 0 <= i < r.len() && (#[trigger] r[i]).1 == "King's Birthday"@ ==> is_nth_weekday(r[i].0, y, 6, 2, MONDAY as int),
        forall|i: int| 0 <= i < r.len() && (#[trigger] r[i]).1 == "Boxing Day"@ ==> r[i].0 == date(y, 12, 26),
{
    let t = holiday_table(y, "AU"@);
    lemma_au_table(y);
    reveal_strlit("New Year's Day");
    assert forall|i: int| 0 <= i < r.len() && (#[trigger] r[i]).1 == "New Year's Day"@ implies r[i].0 == date(y, 1, 1) by {
        lemma_listed_from_table(t, r, i);
        let j = choose|j: int| 0 <= j < t.len() && #[trigger] t[j] == (Some(r[i].0), r[i].1);
        assert(t[0].1 == "New Year's Day"@);
        lemma_au_names(y, j, 0);
    }
    reveal_strlit("Christmas Day");
    assert forall|i: int| 0 <= i < r.len() && (#[trigger] r[i]).1 == "Christmas Day"@ implies r[i].0 == date(y, 12, 25) by {
        lemma_listed_from_table(t, r, i);
        let j = choose|j: int| 0 <= j < t.len() && #[trigger] t[j] == (Some(r[i].0), r[i].1);
        assert(t[1].1 == "Christmas Day"@);
        lemma_au_names(y, j, 1);
    }
    reveal_strlit("Australia Day");
    assert forall|i: int| 0 <= i < r.len() && (#[trigger] r[i]).1 == "Australia Day"@ implies r[i].0 == date(y, 1, 26) by {
        lemma_listed_from_table(t, r, i);
        let j = choose|j: int| 0 <= j < t.len() && #[trigger] t[j] == (Some(r[i].0), r[i].1);
        assert(t[2].1 == "Australia Day"@);
        lemma_au_names(y, j, 2);
    }
    reveal_strlit("Anzac Day");
    assert forall|i: int| 0 <= i < r.len() && (#[trigger] r[i]).1 == "Anzac Day"@ implies r[i].0 == date(y, 4, 25) by {
        lemma_listed_from_table(t, r, i);
        let j = choose|j: int| 0 <= j < t.len() && #[trigger] t[j] == (Some(r[i].0), r[i].1);
        assert(t[3].1 == "Anzac Day"@);
        lemma_au_names(y, j, 3);
    }
    reveal_strlit("King's Birthday");
    assert forall|i: int| 0 <= i < r.len() && (#[trigger] r[i]).1 == "King's Birthday"@ implies is_nth_weekday(r[i].0, y, 6, 2, MONDAY as int) by {
        lemma_listed_from_table(t, r, i);
        let j = choose|j: int| 0 <= j < t.len() && #[trigger] t[j] == (Some(r[i].0), r[i].1);
        assert(t[4].1 == "King's Birthday"@);
        lemma_au_names(y, j, 4);
        lemma_nth_weekday_correct(y, 6, 2, MONDAY as int);
    }
    reveal_strlit("Boxing Day");
    assert forall|i: int| 0 <= i < r.len() && (#[trigger] r[i]).1 == "Boxing Day"@ implies r[i].0 == date(y, 12, 26) by {
        lemma_listed_from_table(t, r, i);
        let j = choose|j: int| 0 <= j < t.len() && #[trigger] t[j] == (Some(r[i].0), r[i].1);
        assert(t[5].1 == "Boxing Day"@);
        lemma_au_names(y, j, 5);
    }
}

/// The rules of the DE table, with New Year's Day and Christmas first.
proof fn lemma_de_table(y: int)
    ensures
        holiday_table(y, "DE"@) == seq![(ymd(y, 1, 1), "New Year's Day"@), (ymd(y, 12, 25), "Christmas Day"@)] + de_rules(y),
{
    reveal_strlit("US");
    reveal_strlit("GB");
    reveal_strlit("UK");
    reveal_strlit("CA");
    reveal_strlit("DE");
    assert("DE"@[0] != "US"@[0]);
    assert("DE"@[0] != "GB"@[0]);
    assert("DE"@[0] != "UK"@[0]);
    assert("DE"@[0] != "CA"@[0]);
    assert(country_rules(y, "DE"@) == de_rules(y));
    assert(holiday_table(y, "DE"@) =~= seq![(ymd(y, 1, 1), "New Year's Day"@), (ymd(y, 12, 25), "Christmas Day"@)] + de_rules(y));
}

/// Only one rule of the DE table has each name.
proof fn lemma_de_names(y: int, j: int, idx: int)
    requires
        0 <= j < holiday_table(y, "DE"@).len(),
        0 <= idx < holiday_table(y, "DE"@).len(),
        holiday_table(y, "DE"@)[j].1 == holiday_table(y, "DE"@)[idx].1,
    ensures
        j == idx,
{
    lemma_de_table(y);
    let t = holiday_table(y, "DE"@);
    reveal_strlit("New Year's Day");
    reveal_strlit("Christmas Day");
    reveal_strlit("German Unity Day");
    reveal_strlit("Karfreitag (Good Friday)");
    reveal_strlit("Ostermontag (Easter Monday)");
    reveal_strlit("Tag der Arbeit (Labour Day)");
    reveal_strlit("Heiligabend (Christmas Eve)");
    reveal_strlit("2. Weihnachtstag");
    assert(t[0].1 == "New Year's Day"@);
    assert(t[1].1 == "Christmas Day"@);
    assert(t[2].1 == "German Unity Day"@);
    assert(t[3].1 == "Karfreitag (Good Friday)"@);
    assert(t[4].1 == "Ostermontag (Easter Monday)"@);
    assert(t[5].1 == "Tag der Arbeit (Labour Day)"@);
    assert(t[6].1 == "Heiligabend (Christmas Eve)"@);
    assert(t[7].1 == "2. Weihnachtstag"@);
    if j == 0 && idx == 1 || j == 1 && idx == 0 {
        assert("New Year's Day"@.len() != "Christmas Day"@.len());
    }
    if j == 0 && idx == 2 || j == 2 && idx == 0 {
        assert("New Year's Day"@.len() != "German Unity Day"@.len());
    }
    if j == 0 && idx == 3 || j == 3 && idx == 0 {
        assert("New Year's Day"@.len() != "Karfreitag (Good Friday)"@.len());
    }
    if j == 0 && idx == 4 || j == 4 && idx == 0 {
        assert("New Year's Day"@.len() != "Ostermontag (Easter Monday)"@.len());
    }
    if j == 0 && idx == 5 || j == 5 && idx == 0 {
        assert("New Year's Day"@.len() != "Tag der Arbeit (Labour Day)"@.len());
    }
    if j == 0 && idx == 6 || j == 6 && idx == 0 {
        assert("New Year's Day"@.len() != "Heiligabend (Christmas Eve)"@.len());
    }
    if j == 0 && idx == 7 || j == 7 && idx == 0 {
        assert("New Year's Day"@.len() != "2. Weihnachtstag"@.len());
    }
    if j == 1 && idx == 2 || j == 2 && idx == 1 {
        assert("Christmas Day"@.len() != "German Unity Day"@.len());
    }
    if j == 1 && idx == 3 || j == 3 && idx == 1 {
        assert("Christmas Day"@.len() != "Karfreitag (Good Friday)"@.len());
    }
    if j == 1 && idx == 4 || j == 4 && idx == 1 {
        assert("Christmas Day"@.len() != "Ostermontag (Easter Monday)"@.len());
    }
    if j == 1 && idx == 5 || j == 5 && idx == 1 {
        assert("Christmas Day"@.len() != "Tag der Arbeit (Labour Day)"@.len());
    }
    if j == 1 && idx == 6 || j == 6 && idx == 1 {
        assert("Christmas Day"@.len() != "Heiligabend (Christmas Eve)"@.len());
    }
    if j == 1 && idx == 7 || j == 7 && idx == 1 {
        assert("Christmas Day"@.len() != "2. Weihnachtstag"@.len());
    }
    if j == 2 && idx == 3 || j == 3 && idx == 2 {
        assert("German Unity Day"@.len() != "Karfreitag (Good Friday)"@.len());
    }
    if j == 2 && idx == 4 || j == 4 && idx == 2 {
        assert("German Unity Day"@.len() != "Ostermontag (Easter Monday)"@.len());
    }
    if j == 2 && idx == 5 || j == 5 && idx == 2 {
        assert("German Unity Day"@.len() != "Tag der Arbeit (Labour Day)"@.len());
    }
    if j == 2 && idx == 6 || j == 6 && idx == 2 {
        assert("German Unity Day"@.len() != "Heiligabend (Christmas Eve)"@.len());
    }
    if j == 2 && idx == 7 || j == 7 && idx == 2 {
        assert("German Unity Day"@[0] != "2. Weihnachtstag"@[0]);
    }
    if j == 3 && idx == 4 || j == 4 && idx == 3 {
        assert("Karfreitag (Good Friday)"@.len() != "Ostermontag (Easter Monday)"@.len());
    }
    if j == 3 && idx == 5 || j == 5 && idx == 3 {
        assert("Karfreitag (Good Friday)"@.len() != "Tag der Arbeit (Labour Day)"@.len());
    }
    if j == 3 && idx == 6 || j == 6 && idx == 3 {
        assert("Karfreitag (Good Friday)"@.len() != "Heiligabend (Christmas Eve)"@.len());
    }
    if j == 3 && idx == 7 || j == 7 && idx == 3 {
        assert("Karfreitag (Good Friday)"@.len() != "2. Weihnachtstag"@.len());
    }
    if j == 4 && idx == 5 || j == 5 && idx == 4 {
        assert("Ostermontag (Easter Monday)"@[0] != "Tag der Arbeit (Labour Day)"@[0]);
    }
    if j == 4 && idx == 6 || j == 6 && idx == 4 {
        assert("Ostermontag (Easter Monday)"@[0] != "Heiligabend (Christmas Eve)"@[0]);
    }
    if j == 4 && idx == 7 || j == 7 && idx == 4 {
        assert("Ostermontag (Easter Monday)"@.len() != "2. Weihnachtstag"@.len());
    }
    if j == 5 && idx == 6 || j == 6 && idx == 5 {
        assert("Tag der Arbeit (Labour Day)"@[0] != "Heiligabend (Christmas Eve)"@[0]);
    }
    if j == 5 && idx == 7 || j == 7 && idx == 5 {
        assert("Tag der Arbeit (Labour Day)"@.len() != "2. Weihnachtstag"@.len());
    }
    if j == 6 && idx == 7 || j == 7 && idx == 6 {
        assert("Heiligabend (Christmas Eve)"@.len() != "2. Weihnachtstag"@.len());
    }
}

/// Law: in the holidays of Germany for any year, as `holidays_for_year` lists
/// them, each holiday falls where its rule puts it: New Year's Day on January
/// 1; Christmas Day on December 25; German Unity Day on October 3; Tag der
/// Arbeit (Labour Day) on May 1; Heiligabend (Christmas Eve) on December 24;
/// 2. Weihnachtstag on December 26.
pub proof fn lemma_de_holiday_dates(y: int, r: Seq<(CivilDate, Seq<char>)>)
    requires
        sorted_first_per_date(r, keep_dated(holiday_table(y, "DE"@))),
    ensures
        forall|i: int| 0 <= i < r.len() && (#[trigger] r[i]).1 == "New Year's Day"@ ==> r[i].0 == date(y, 1, 1),
        forall|i: int| 0 <= i < r.len() && (#[trigger] r[i]).1 == "Christmas Day"@ ==> r[i].0 == date(y, 12, 25),
        forall|i: int| 0 <= i < r.len() && (#[trigger] r[i]).1 == "German Unity Day"@ ==> r[i].0 == date(y, 10, 3),
        forall|i: int| 0 <= i < r.len() && (#[trigger] r[i]).1 == "Tag der Arbeit (Labour Day)"@ ==> r[i].0 == date(y, 5, 1),
        forall|i: int| 0 <= i < r.len() && (#[trigger] r[i]).1 == "Heiligabend (Christmas Eve)"@ ==> r[i].0 == date(y, 12, 24),
        forall|i: int| 0 <= i < r.len() && (#[trigger] r[i]).1 == "2. Weihnachtstag"@ ==> r[i].0 == date(y, 12, 26),
{
    let t = holiday_table(y, "DE"@);
    lemma_de_table(y);
    reveal_strlit("New Year's Day");
    assert forall|i: int| 0 <= i < r.len() && (#[trigger] r[i]).1 == "New Year's Day"@ implies r[i].0 == date(y, 1, 1) by {
        lemma_listed_from_table(t, r, i);
        let j = choose|j: int| 0 <= j < t.len() && #[trigger] t[j] == (Some(r[i].0), r[i].1);
        assert(t[0].1 == "New Year's Day"@);
        lemma_de_names(y, j, 0);
    }
    reveal_strlit("Christmas Day");
    assert forall|i: int| 0 <= i < r.len() && (#[trigger] r[i]).1 == "Christmas Day"@ implies r[i].0 == date(y, 12, 25) by {
        lemma_listed_from_table(t, r, i);
        let j = choose|j: int| 0 <= j < t.len() && #[trigger] t[j] == (Some(r[i].0), r[i].1);
        assert(t[1].1 == "Christmas Day"@);
        lemma_de_names(y, j, 1);
    }
    reveal_strlit("German Unity Day");
    assert forall|i: int| 0 <= i < r.len() && (#[trigger] r[i]).1 == "German Unity Day"@ implies r[i].0 == date(y, 10, 3) by {
        lemma_listed_from_table(t, r, i);
        let j = choose|j: int| 0 <= j < t.len() && #[trigger] t[j] == (Some(r[i].0), r[i].1);
        assert(t[2].1 == "German Unity Day"@);
        lemma_de_names(y, j, 2);
    }
    reveal_strlit("Tag der Arbeit (Labour Day)");
    assert forall|i: int| 0 <= i < r.len() && (#[trigger] r[i]).1 == "Tag der Arbeit (Labour Day)"@ implies r[i].0 == date(y, 5, 1) by {
        lemma_listed_from_table(t, r, i);
        let j = choose|j: int| 0 <= j < t.len() && #[trigger] t[j] == (Some(r[i].0), r[i].1);
        assert(t[5].1 == "Tag der Arbeit (Labour Day)"@);
        lemma_de_names(y, j, 5);
    }
    reveal_strlit("Heiligabend (Christmas Eve)");
    assert forall|i: int| 0 <= i < r.len() && (#[trigger] r[i]).1 == "Heiligabend (Christmas Eve)"@ implies r[i].0 == date(y, 12, 24) by {
        lemma_listed_from_table(t, r, i);
        let j = choose|j: int| 0 <= j < t.len() && #[trigger] t[j] == (Some(r[i].0), r[i].1);
        assert(t[6].1 == "Heiligabend (Christmas Eve)"@);
        lemma_de_names(y, j, 6);
    }
    reveal_strlit("2. Weihnachtstag");
    assert forall|i: int| 0 <= i < r.len() && (#[trigger] r[i]).1 == "2. Weihnachtstag"@ implies r[i].0 == date(y, 12, 26) by {
        lemma_listed_from_table(t, r, i);
        let j = choose|j: int| 0 <= j < t.len() && #[trigger] t[j] == (Some(r[i].0), r[i].1);
        assert(t[7].1 == "2. Weihnachtstag"@);
        lemma_de_names(y, j, 7);
    }
}

/// The rules of the FR table, with New Year's Day and Christmas first.
proof fn lemma_fr_table(y: int)
    ensures
        holiday_table(y, "FR"@) == seq![(ymd(y, 1, 1), "New Year's Day"@), (ymd(y, 12, 25), "Christmas Day"@)] + fr_rules(y),
{
    reveal_strlit("US");
    reveal_strlit("GB");
    reveal_strlit("UK");
    reveal_strlit("CA");
    reveal_strlit("DE");
    reveal_strlit("FR");
    assert("FR"@[0] != "US"@[0]);
    assert("FR"@[0] != "GB"@[0]);
    assert("FR"@[0] != "UK"@[0]);
    assert("FR"@[0] != "CA"@[0]);
    assert("FR"@[0] != "DE"@[0]);
    assert(country_rules(y, "FR"@) == fr_rules(y));
    assert(holiday_table(y, "FR"@) =~= seq![(ymd(y, 1, 1), "New Year's Day"@), (ymd(y, 12, 25), "Christmas Day"@)] + fr_rules(y));
}

/// Only one rule of the FR table has each name.
proof fn lemma_fr_names(y: int, j: int, idx: int)
    requires
        0 <= j < holiday_table(y, "FR"@).len(),
        0 <= idx < holiday_table(y, "FR"@).len(),
        holiday_table(y, "FR"@)[j].1 == holiday_table(y, "FR"@)[idx].1,
    ensures
        j == idx,
{
    lemma_fr_table(y);
    let t = holiday_table(y, "FR"@);
    reveal_strlit("New Year's Day");
    reveal_strlit("Christmas Day");
    reveal_strlit("Fête du Travail");
    reveal_strlit("Victoire 1945");
    reveal_strlit("Fête Nationale (Bastille Day)");
    reveal_strlit("Armistice 1918");
    reveal_strlit("Lundi de Pâques");
    reveal_strlit("Assomption");
    reveal_strlit("Toussaint");
    assert(t[0].1 == "New Year's Day"@);
    assert(t[1].1 == "Christmas Day"@);
    assert(t[2].1 == "Fête du Travail"@);
    assert(t[3].1 == "Victoire 1945"@);
    assert(t[4].1 == "Fête Nationale (Bastille Day)"@);
    assert(t[5].1 == "Armistice 1918"@);
    assert(t[6].1 == "Lundi de Pâques"@);
    assert(t[7].1 == "Assomption"@);
    assert(t[8].1 == "Toussaint"@);
    if j == 0 && idx == 1 || j == 1 && idx == 0 {
        assert("New Year's Day"@.len() != "Christmas Day"@.len());
    }
    if j == 0 && idx == 2 || j == 2 && idx == 0 {
        assert("New Year's Day"@.len() != "Fête du Travail"@.len());
    }
    if j == 0 && idx == 3 || j == 3 && idx == 0 {
        assert("New Year's Day"@.len() != "Victoire 1945"@.len());
    }
    if j == 0 && idx == 4 || j == 4 && idx == 0 {
        assert("New Year's Day"@.len() != "Fête Nationale (Bastille Day)"@.len());
    }
    if j == 0 && idx == 5 || j == 5 && idx == 0 {
        assert("New Year's Day"@[0] != "Armistice 1918"@[0]);
    }
    if j == 0 && idx == 6 || j == 6 && idx == 0 {
        assert("New Year's Day"@.len() != "Lundi de Pâques"@.len());
    }
    if j == 0 && idx == 7 || j == 7 && idx == 0 {
        assert("New Year's Day"@.len() != "Assomption"@.len());
    }
    if j == 0 && idx == 8 || j == 8 && idx == 0 {
        assert("New Year's Day"@.len() != "Toussaint"@.len());
    }
    if j == 1 && idx == 2 || j == 2 && idx == 1 {
        assert("Christmas Day"@.len() != "Fête du Travail"@.len());
    }
    if j == 1 && idx == 3 || j == 3 && idx == 1 {
        assert("Christmas Day"@[0] != "Victoire 1945"@[0]);
    }
    if j == 1 && idx == 4 || j == 4 && idx == 1 {
        assert("Christmas Day"@.len() != "Fête Nationale (Bastille Day)"@.len());
    }
    if j == 1 && idx == 5 || j == 5 && idx == 1 {
        assert("Christmas Day"@.len() != "Armistice 1918"@.len());
    }
    if j == 1 && idx == 6 || j == 6 && idx == 1 {
        assert("Christmas Day"@.len() != "Lundi de Pâques"@.len());
    }
    if j == 1 && idx == 7 || j == 7 && idx == 1 {
        assert("Christmas Day"@.len() != "Assomption"@.len());
    }
    if j == 1 && idx == 8 || j == 8 && idx == 1 {
        assert("Christmas Day"@.len() != "Toussaint"@.len());
    }
    if j == 2 && idx == 3 || j == 3 && idx == 2 {
        assert("Fête du Travail"@.len() != "Victoire 1945"@.len());
    }
    if j == 2 && idx == 4 || j == 4 && idx == 2 {
        assert("Fête du Travail"@.len() != "Fête Nationale (Bastille Day)"@.len());
    }
    if j == 2 && idx == 5 || j == 5 && idx == 2 {
        assert("Fête du Travail"@.len() != "Armistice 1918"@.len());
    }
    if j == 2 && idx == 6 || j == 6 && idx == 2 {
        assert("Fête du Travail"@[0] != "Lundi de Pâques"@[0]);
    }
    if j == 2 && idx == 7 || j == 7 && idx == 2 {
        assert("Fête du Travail"@.len() != "Assomption"@.len());
    }
    if j == 2 && idx == 8 || j == 8 && idx == 2 {
        assert("Fête du Travail"@.len() != "Toussaint"@.len());
    }
    if j == 3 && idx == 4 || j == 4 && idx == 3 {
        assert("Victoire 1945"@.len() != "Fête Nationale (Bastille Day)"@.len());
    }
    if j == 3 && idx == 5 || j == 5 && idx == 3 {
        assert("Victoire 1945"@.len() != "Armistice 1918"@.len());
    }
    if j == 3 && idx == 6 || j == 6 && idx == 3 {
        assert("Victoire 1945"@.len() != "Lundi de Pâques"@.len());
    }
    if j == 3 && idx == 7 || j == 7 && idx == 3 {
        assert("Victoire 1945"@.len() != "Assomption"@.len());
    }
    if j == 3 && idx == 8 || j == 8 && idx == 3 {
        assert("Victoire 1945"@.len() != "Toussaint"@.len());
    }
    if j == 4 && idx == 5 || j == 5 && idx == 4 {
        assert("Fête Nationale (Bastille Day)"@.len() != "Armistice 1918"@.len());
    }
    if j == 4 && idx == 6 || j == 6 && idx == 4 {
        assert("Fête Nationale (Bastille Day)"@.len() != "Lundi de Pâques"@.len());
    }
    if j == 4 && idx == 7 || j == 7 && idx == 4 {
        assert("Fête Nationale (Bastille Day)"@.len() != "Assomption"@.len());
    }
    if j == 4 && idx == 8 || j == 8 && idx == 4 {
        assert("Fête Nationale (Bastille Day)"@.len() != "Toussaint"@.len());
    }
    if j == 5 && idx == 6 || j == 6 && idx == 5 {
        assert("Armistice 1918"@.len() != "Lundi de Pâques"@.len());
    }
    if j == 5 && idx == 7 || j == 7 && idx == 5 {
        assert("Armistice 1918"@.len() != "Assomption"@.len());
    }
    if j == 5 && idx == 8 || j == 8 && idx == 5 {
        assert("Armistice 1918"@.len() != "Toussaint"@.len());
    }
    if j == 6 && idx == 7 || j == 7 && idx == 6 {
        assert("Lundi de Pâques"@.len() != "Assomption"@.len());
    }
    if j == 6 && idx == 8 || j == 8 && idx == 6 {
        assert("Lundi de Pâques"@.len() != "Toussaint"@.len());
    }
    if j == 7 && idx == 8 || j == 8 && idx == 7 {
        assert("Assomption"@.len() != "Toussaint"@.len());
    }
}

/// Law: in the holidays of France for any year, as `holidays_for_year` lists
/// them, each holiday falls where its rule puts it: New Year's Day on January
/// 1; Christmas Day on December 25; Fête du Travail on May 1; Victoire 1945
/// on May 8; Fête Nationale (Bastille Day) on July 14; Armistice 1918 on
/// November 11; Assomption on August 15; Toussaint on November 1.
pub proof fn lemma_fr_holiday_dates(y: int, r: Seq<(CivilDate, Seq<char>)>)
    requires
        sorted_first_per_date(r, keep_dated(holiday_table(y, "FR"@))),
    ensures
        forall|i: int| 0 <= i < r.len() && (#[trigger] r[i]).1 == "New Year's Day"@ ==> r[i].0 == date(y, 1, 1),
        forall|i: int| 0 <= i < r.len() && (#[trigger] r[i]).1 == "Christmas Day"@ ==> r[i].0 == date(y, 12, 25),
        forall|i: int| 0 <= i < r.len() && (#[trigger] r[i]).1 == "Fête du Travail"@ ==> r[i].0 == date(y, 5, 1),
        forall|i: int| 0 <= i < r.len() && (#[trigger] r[i]).1 == "Victoire 1945"@ ==> r[i].0 == date(y, 5, 8),
        forall|i: int| 0 <= i < r.len() && (#[trigger] r[i]).1 == "Fête Nationale (Bastille Day)"@ ==> r[i].0 == date(y, 7, 14),
        forall|i: int| 0 <= i < r.len() && (#[trigger] r[i]).1 == "Armistice 1918"@ ==> r[i].0 == date(y, 11, 11),
        forall|i: int| 0 <= i < r.len() && (#[trigger] r[i]).1 == "Assomption"@ ==> r[i].0 == date(y, 8, 15),
        forall|i: int| 0 <= i < r.len() && (#[trigger] r[i]).1 == "Toussaint"@ ==> r[i].0 == date(y, 11, 1),
{
    let t = holiday_table(y, "FR"@);
    lemma_fr_table(y);
    reveal_strlit("New Year's Day");
    assert forall|i: int| 0 <= i < r.len() && (#[trigger] r[i]).1 == "New Year's Day"@ implies r[i].0 == date(y, 1, 1) by {
        lemma_listed_from_table(t, r, i);
        let j = choose|j: int| 0 <= j < t.len() && #[trigger] t[j] == (Some(r[i].0), r[i].1);
        assert(t[0].1 == "New Year's Day"@);
        lemma_fr_names(y, j, 0);
    }
    reveal_strlit("Christmas Day");
    assert forall|i: int| 0 <= i < r.len() && (#[trigger] r[i]).1 == "Christmas Day"@ implies r[i].0 == date(y, 12, 25) by {
        lemma_listed_from_table(t, r, i);
        let j = choose|j: int| 0 <= j < t.len() && #[trigger] t[j] == (Some(r[i].0), r[i].1);
        assert(t[1].1 == "Christmas Day"@);
        lemma_fr_names(y, j, 1);
    }
    reveal_strlit("Fête du Travail");
    assert forall|i: int| 0 <= i < r.len() && (#[trigger] r[i]).1 == "Fête du Travail"@ implies r[i].0 == date(y, 5, 1) by {
        lemma_listed_from_table(t, r, i);
        let j = choose|j: int| 0 <= j < t.len() && #[trigger] t[j] == (Some(r[i].0), r[i].1);
        assert(t[2].1 == "Fête du Travail"@);
        lemma_fr_names(y, j, 2);
    }
    reveal_strlit("Victoire 1945");
    assert forall|i: int| 0 <= i < r.len() && (#[trigger] r[i]).1 == "Victoire 1945"@ implies r[i].0 == date(y, 5, 8) by {
        lemma_listed_from_table(t, r, i);
        let j = choose|j: int| 0 <= j < t.len() && #[trigger] t[j] == (Some(r[i].0), r[i].1);
        assert(t[3].1 == "Victoire 1945"@);
        lemma_fr_names(y, j, 3);
    }
    reveal_strlit("Fête Nationale (Bastille Day)");
    assert forall|i: int| 0 <= i < r.len() && (#[trigger] r[i]).1 == "Fête Nationale (Bastille Day)"@ implies r[i].0 == date(y, 7, 14) by {
        lemma_listed_from_table(t, r, i);
        let j = choose|j: int| 0 <= j < t.len() && #[trigger] t[j] == (Some(r[i].0), r[i].1);
        assert(t[4].1 == "Fête Nationale (Bastille Day)"@);
        lemma_fr_names(y, j, 4);
    }
    reveal_strlit("Armistice 1918");
    assert forall|i: int| 0 <= i < r.len() && (#[trigger] r[i]).1 == "Armistice 1918"@ implies r[i].0 == date(y, 11, 11) by {
        lemma_listed_from_table(t, r, i);
        let j = choose|j: int| 0 <= j < t.len() && #[trigger] t[j] == (Some(r[i].0), r[i].1);
        assert(t[5].1 == "Armistice 1918"@);
        lemma_fr_names(y, j, 5);
    }
    reveal_strlit("Assomption");
    assert forall|i: int| 0 <= i < r.len() && (#[trigger] r[i]).1 == "Assomption"@ implies r[i].0 == date(y, 8, 15) by {
        lemma_listed_from_table(t, r, i);
        let j = choose|j: int| 0 <= j < t.len() && #[trigger] t[j] == (Some(r[i].0), r[i].1);
        assert(t[7].1 == "Assomption"@);
        lemma_fr_names(y, j, 7);
    }
    reveal_strlit("Toussaint");
    assert forall|i: int| 0 <= i < r.len() && (#[trigger] r[i]).1 == "Toussaint"@ implies r[i].0 == date(y, 11, 1) by {
        lemma_listed_from_table(t, r, i);
        let j = choose|j: int| 0 <= j < t.len() && #[trigger] t[j] == (Some(r[i].0), r[i].1);
        assert(t[8].1 == "Toussaint"@);
        lemma_fr_names(y, j, 8);
    }
}

/// The rules of the JP table, with New Year's Day and Christmas first.
proof fn lemma_jp_table(y: int)
    ensures
        holiday_table(y, "JP"@) == seq![(ymd(y, 1, 1), "New Year's Day"@), (ymd(y, 12, 25), "Christmas Day"@)] + jp_rules(y),
{
    reveal_strlit("US");
    reveal_strlit("GB");
    reveal_strlit("UK");
    reveal_strlit("CA");
    reveal_strlit("DE");
    reveal_strlit("FR");
    reveal_strlit("AU");
    reveal_strlit("JP");
    assert("JP"@[0] != "US"@[0]);
    assert("JP"@[0] != "GB"@[0]);
    assert("JP"@[0] != "UK"@[0]);
    assert("JP"@[0] != "CA"@[0]);
    assert("JP"@[0] != "DE"@[0]);
    assert("JP"@[0] != "FR"@[0]);
    assert("JP"@[0] != "AU"@[0]);
    assert(country_rules(y, "JP"@) == jp_rules(y));
    assert(holiday_table(y, "JP"@) =~= seq![(ymd(y, 1, 1), "New Year's Day"@), (ymd(y, 12, 25), "Christmas Day"@)] + jp_rules(y));
}

/// Only one rule of the JP table has each name.
proof fn lemma_jp_names(y: int, j: int, idx: int)
    requires
        0 <= j < holiday_table(y, "JP"@).len(),
        0 <= idx < holiday_table(y, "JP"@).len(),
        holiday_table(y, "JP"@)[j].1 == holiday_table(y, "JP"@)[idx].1,
    ensures
        j == idx,
{
    lemma_jp_table(y);
    let t = holiday_table(y, "JP"@);
    reveal_strlit("New Year's Day");
    reveal_strlit("Christmas Day");
    reveal_strlit("建国記念の日 (National Foundation Day)");
    reveal_strlit("昭和の日 (Shōwa Day)");
    reveal_strlit("憲法記念日 (Constitution Memorial Day)");
    reveal_strlit("こどもの日 (Children's Day)");
    reveal_strlit("文化の日 (Culture Day)");
    reveal_strlit("勤労感謝の日 (Labour Thanksgiving)");
    reveal_strlit("天皇誕生日 (Emperor's Birthday)");
    assert(t[0].1 == "New Year's Day"@);
    assert(t[1].1 == "Christmas Day"@);
    assert(t[2].1 == "建国記念の日 (National Foundation Day)"@);
    assert(t[3].1 == "昭和の日 (Shōwa Day)"@);
    assert(t[4].1 == "憲法記念日 (Constitution Memorial Day)"@);
    assert(t[5].1 == "こどもの日 (Children's Day)"@);
    assert(t[6].1 == "文化の日 (Culture Day)"@);
    assert(t[7].1 == "勤労感謝の日 (Labour Thanksgiving)"@);
    assert(t[8].1 == "天皇誕生日 (Emperor's Birthday)"@);
    if j == 0 && idx == 1 || j == 1 && idx == 0 {
        assert("New Year's Day"@.len() != "Christmas Day"@.len());
    }
    if j == 0 && idx == 2 || j == 2 && idx == 0 {
        assert("New Year's Day"@.len() != "建国記念の日 (National Foundation Day)"@.len());
    }
    if j == 0 && idx == 3 || j == 3 && idx == 0 {
        assert("New Year's Day"@.len() != "昭和の日 (Shōwa Day)"@.len());
    }
    if j == 0 && idx == 4 || j == 4 && idx == 0 {
        assert("New Year's Day"@.len() != "憲法記念日 (Constitution Memorial Day)"@.len());
    }
    if j == 0 && idx == 5 || j == 5 && idx == 0 {
        assert("New Year's Day"@.len() != "こどもの日 (Children's Day)"@.len());
    }
    if j == 0 && idx == 6 || j == 6 && idx == 0 {
        assert("New Year's Day"@.len() != "文化の日 (Culture Day)"@.len());
    }
    if j == 0 && idx == 7 || j == 7 && idx == 0 {
        assert("New Year's Day"@.len() != "勤労感謝の日 (Labour Thanksgiving)"@.len());
    }
    if j == 0 && idx == 8 || j == 8 && idx == 0 {
        assert("New Year's Day"@.len() != "天皇誕生日 (Emperor's Birthday)"@.len());
    }
    if j == 1 && idx == 2 || j == 2 && idx == 1 {
        assert("Christmas Day"@.len() != "建国記念の日 (National Foundation Day)"@.len());
    }
    if j == 1 && idx == 3 || j == 3 && idx == 1 {
        assert("Christmas Day"@.len() != "昭和の日 (Shōwa Day)"@.len());
    }
    if j == 1 && idx == 4 || j == 4 && idx == 1 {
        assert("Christmas Day"@.len() != "憲法記念日 (Constitution Memorial Day)"@.len());
    }
    if j == 1 && idx == 5 || j == 5 && idx == 1 {
        assert("Christmas Day"@.len() != "こどもの日 (Children's Day)"@.len());
    }
    if j == 1 && idx == 6 || j == 6 && idx == 1 {
        assert("Christmas Day"@.len() != "文化の日 (Culture Day)"@.len());
    }
    if j == 1 && idx == 7 || j == 7 && idx == 1 {
        assert("Christmas Day"@.len() != "勤労感謝の日 (Labour Thanksgiving)"@.len());
    }
    if j == 1 && idx == 8 || j == 8 && idx == 1 {
        assert("Christmas Day"@.len() != "天皇誕生日 (Emperor's Birthday)"@.len());
    }
    if j == 2 && idx == 3 || j == 3 && idx == 2 {
        assert("建国記念の日 (National Foundation Day)"@.len() != "昭和の日 (Shōwa Day)"@.len());
    }
    if j == 2 && idx == 4 || j == 4 && idx == 2 {
        assert("建国記念の日 (National Foundation Day)"@.len() != "憲法記念日 (Constitution Memorial Day)"@.len());
    }
    if j == 2 && idx == 5 || j == 5 && idx == 2 {
        assert("建国記念の日 (National Foundation Day)"@.len() != "こどもの日 (Children's Day)"@.len());
    }
    if j == 2 && idx == 6 || j == 6 && idx == 2 {
        assert("建国記念の日 (National Foundation Day)"@.len() != "文化の日 (Culture Day)"@.len());
    }
    if j == 2 && idx == 7 || j == 7 && idx == 2 {
        assert("建国記念の日 (National Foundation Day)"@.len() != "勤労感謝の日 (Labour Thanksgiving)"@.len());
    }
    if j == 2 && idx == 8 || j == 8 && idx == 2 {
        assert("建国記念の日 (National Foundation Day)"@.len() != "天皇誕生日 (Emperor's Birthday)"@.len());
    }
    if j == 3 && idx == 4 || j == 4 && idx == 3 {
        assert("昭和の日 (Shōwa Day)"@.len() != "憲法記念日 (Constitution Memorial Day)"@.len());
    }
    if j == 3 && idx == 5 || j == 5 && idx == 3 {
        assert("昭和の日 (Shōwa Day)"@.len() != "こどもの日 (Children's Day)"@.len());
    }
    if j == 3 && idx == 6 || j == 6 && idx == 3 {
        assert("昭和の日 (Shōwa Day)"@.len() != "文化の日 (Culture Day)"@.len());
    }
    if j == 3 && idx == 7 || j == 7 && idx == 3 {
        assert("昭和の日 (Shōwa Day)"@.len() != "勤労感謝の日 (Labour Thanksgiving)"@.len());
    }
    if j == 3 && idx == 8 || j == 8 && idx == 3 {
        assert("昭和の日 (Shōwa Day)"@.len() != "天皇誕生日 (Emperor's Birthday)"@.len());
    }
    if j == 4 && idx == 5 || j == 5 && idx == 4 {
        assert("憲法記念日 (Constitution Memorial Day)"@.len() != "こどもの日 (Children's Day)"@.len());
    }
    if j == 4 && idx == 6 || j == 6 && idx == 4 {
        assert("憲法記念日 (Constitution Memorial Day)"@.len() != "文化の日 (Culture Day)"@.len());
    }
    if j == 4 && idx == 7 || j == 7 && idx == 4 {
        assert("憲法記念日 (Constitution Memorial Day)"@.len() != "勤労感謝の日 (Labour Thanksgiving)"@.len());
    }
    if j == 4 && idx == 8 || j == 8 && idx == 4 {
        assert("憲法記念日 (Constitution Memorial Day)"@.len() != "天皇誕生日 (Emperor's Birthday)"@.len());
    }
    if j == 5 && idx == 6 || j == 6 && idx == 5 {
        assert("こどもの日 (Children's Day)"@.len() != "文化の日 (Culture Day)"@.len());
    }
    if j == 5 && idx == 7 || j == 7 && idx == 5 {
        assert("こどもの日 (Children's Day)"@.len() != "勤労感謝の日 (Labour Thanksgiving)"@.len());
    }
    if j == 5 && idx == 8 || j == 8 && idx == 5 {
        assert("こどもの日 (Children's Day)"@.len() != "天皇誕生日 (Emperor's Birthday)"@.len());
    }
    if j == 6 && idx == 7 || j == 7 && idx == 6 {
        assert("文化の日 (Culture Day)"@.len() != "勤労感謝の日 (Labour Thanksgiving)"@.len());
    }
    if j == 6 && idx == 8 || j == 8 && idx == 6 {
        assert("文化の日 (Culture Day)"@.len() != "天皇誕生日 (Emperor's Birthday)"@.len());
    }
    if j == 7 && idx == 8 || j == 8 && idx == 7 {
        assert("勤労感謝の日 (Labour Thanksgiving)"@.len() != "天皇誕生日 (Emperor's Birthday)"@.len());
    }
}

/// Law: in the holidays of Japan for any year, as `holidays_for_year` lists
/// them, each holiday falls where its rule puts it: New Year's Day on January
/// 1; Christmas Day on December 25; 建国記念の日 (National Foundation Day) on
/// February 11; 昭和の日 (Shōwa Day) on April 29; 憲法記念日 (Constitution Memorial
/// Day) on May 3; こどもの日 (Children's Day) on May 5; 文化の日 (Culture Day) on
/// November 3; 勤労感謝の日 (Labour Thanksgiving) on November 23; 天皇誕生日 (Emperor's
/// Birthday) on February 23.
pub proof fn lemma_jp_holiday_dates(y: int, r: Seq<(CivilDate, Seq<char>)>)
    requires
        sorted_first_per_date(r, keep_dated(holiday_table(y, "JP"@))),
    ensures
        forall|i: int| 0 <= i < r.len() && (#[trigger] r[i]).1 == "New Year's Day"@ ==> r[i].0 == date(y, 1, 1),
        forall|i: int| 0 <= i < r.len() && (#[trigger] r[i]).1 == "Christmas Day"@ ==> r[i].0 == date(y, 12, 25),
        forall|i: int| 0 <= i < r.len() && (#[trigger] r[i]).1 == "建国記念の日 (National Foundation Day)"@ ==> r[i].0 == date(y, 2, 11),
        forall|i: int| 0 <= i < r.len() && (#[trigger] r[i]).1 == "昭和の日 (Shōwa Day)"@ ==> r[i].0 == date(y, 4, 29),
        forall|i: int| 0 <= i < r.len() && (#[trigger] r[i]).1 == "憲法記念日 (Constitution Memorial Day)"@ ==> r[i].0 == date(y, 5, 3),
        forall|i: int| 0 <= i < r.len() && (#[trigger] r[i]).1 == "こどもの日 (Children's Day)"@ ==> r[i].0 == date(y, 5, 5),
        forall|i: int| 0 <= i < r.len() && (#[trigger] r[i]).1 == "文化の日 (Culture Day)"@ ==> r[i].0 == date(y, 11, 3),
        forall|i: int| 0 <= i < r.len() && (#[trigger] r[i]).1 == "勤労感謝の日 (Labour Thanksgiving)"@ ==> r[i].0 == date(y, 11, 23),
        forall|i: int| 0 <= i < r.len() && (#[trigger] r[i]).1 == "天皇誕生日 (Emperor's Birthday)"@ ==> r[i].0 == date(y, 2, 23),
{
    let t = holiday_table(y, "JP"@);
    lemma_jp_table(y);
    reveal_strlit("New Year's Day");
    assert forall|i: int| 0 <= i < r.len() && (#[trigger] r[i]).1 == "New Year's Day"@ implies r[i].0 == date(y, 1, 1) by {
        lemma_listed_from_table(t, r, i);
        let j = choose|j: int| 0 <= j < t.len() && #[trigger] t[j] == (Some(r[i].0), r[i].1);
        assert(t[0].1 == "New Year's Day"@);
        lemma_jp_names(y, j, 0);
    }
    reveal_strlit("Christmas Day");
    assert forall|i: int| 0 <= i < r.len() && (#[trigger] r[i]).1 == "Christmas Day"@ implies r[i].0 == date(y, 12, 25) by {
        lemma_listed_from_table(t, r, i);
        let j = choose|j: int| 0 <= j < t.len() && #[trigger] t[j] == (Some(r[i].0), r[i].1);
        assert(t[1].1 == "Christmas Day"@);
        lemma_jp_names(y, j, 1);
    }
    reveal_strlit("建国記念の日 (National Foundation Day)");
    assert forall|i: int| 0 <= i < r.len() && (#[trigger] r[i]).1 == "建国記念の日 (National Foundation Day)"@ implies r[i].0 == date(y, 2, 11) by {
        lemma_listed_from_table(t, r, i);
        let j = choose|j: int| 0 <= j < t.len() && #[trigger] t[j] == (Some(r[i].0), r[i].1);
        assert(t[2].1 == "建国記念の日 (National Foundation Day)"@);
        lemma_jp_names(y, j, 2);
    }
    reveal_strlit("昭和の日 (Shōwa Day)");
    assert forall|i: int| 0 <= i < r.len() && (#[trigger] r[i]).1 == "昭和の日 (Shōwa Day)"@ implies r[i].0 == date(y, 4, 29) by {
        lemma_listed_from_table(t, r, i);
        let j = choose|j: int| 0 <= j < t.len() && #[trigger] t[j] == (Some(r[i].0), r[i].1);
        assert(t[3].1 == "昭和の日 (Shōwa Day)"@);
        lemma_jp_names(y, j, 3);
    }
    reveal_strlit("憲法記念日 (Constitution Memorial Day)");
    assert forall|i: int| 0 <= i < r.len() && (#[trigger] r[i]).1 == "憲法記念日 (Constitution Memorial Day)"@ implies r[i].0 == date(y, 5, 3) by {
        lemma_listed_from_table(t, r, i);
        let j = choose|j: int| 0 <= j < t.len() && #[trigger] t[j] == (Some(r[i].0), r[i].1);
        assert(t[4].1 == "憲法記念日 (Constitution Memorial Day)"@);
        lemma_jp_names(y, j, 4);
    }
    reveal_strlit("こどもの日 (Children's Day)");
    assert forall|i: int| 0 <= i < r.len() && (#[trigger] r[i]).1 == "こどもの日 (Children's Day)"@ implies r[i].0 == date(y, 5, 5) by {
        lemma_listed_from_table(t, r, i);
        let j = choose|j: int| 0 <= j < t.len() && #[trigger] t[j] == (Some(r[i].0), r[i].1);
        assert(t[5].1 == "こどもの日 (Children's Day)"@);
        lemma_jp_names(y, j, 5);
    }
    reveal_strlit("文化の日 (Culture Day)");
    assert forall|i: int| 0 <= i < r.len() && (#[trigger] r[i]).1 == "文化の日 (Culture Day)"@ implies r[i].0 == date(y, 11, 3) by {
        lemma_listed_from_table(t, r, i);
        let j = choose|j: int| 0 <= j < t.len() && #[trigger] t[j] == (Some(r[i].0), r[i].1);
        assert(t[6].1 == "文化の日 (Culture Day)"@);
        lemma_jp_names(y, j, 6);
    }
    reveal_strlit("勤労感謝の日 (Labour Thanksgiving)");
    assert forall|i: int| 0 <= i < r.len() && (#[trigger] r[i]).1 == "勤労感謝の日 (Labour Thanksgiving)"@ implies r[i].0 == date(y, 11, 23) by {
        lemma_listed_from_table(t, r, i);
        let j = choose|j: int| 0 <= j < t.len() && #[trigger] t[j] == (Some(r[i].0), r[i].1);
        assert(t[7].1 == "勤労感謝の日 (Labour Thanksgiving)"@);
        lemma_jp_names(y, j, 7);
    }
    reveal_strlit("天皇誕生日 (Emperor's Birthday)");
    assert forall|i: int| 0 <= i < r.len() && (#[trigger] r[i]).1 == "天皇誕生日 (Emperor's Birthday)"@ implies r[i].0 == date(y, 2, 23) by {
        lemma_listed_from_table(t, r, i);
        let j = choose|j: int| 0 <= j < t.len() && #[trigger] t[j] == (Some(r[i].0), r[i].1);
        assert(t[8].1 == "天皇誕生日 (Emperor's Birthday)"@);
        lemma_jp_names(y, j, 8);
    }
}

/// Law: the last weekday found lies in the asked month, falls on the asked
/// weekday, and no later day of that month does.
pub proof fn lemma_last_weekday_correct(y: int, m: int, wd: int)
    requires
        0 <= wd <= 6,
        1 <= m <= 12,
        spec_last_weekday(y, m, wd) is Some,
    ensures
        ({
            let dt = spec_last_weekday(y, m, wd).unwrap();
            &&& dt.year == y && dt.month == m
            &&& days_in_month(y, m) - 7 < dt.day <= days_in_month(y, m)
            &&& weekday_of(dt) == wd
        }),
{
    let (ny, nm) = if m == 12 {
        (y + 1, 1int)
    } else {
        (y, m + 1)
    };
    let first_next = date(ny, nm, 1);
    let last = pred_date(first_next).unwrap();
    assert(last == date(y, m, days_in_month(y, m)));
    let w = weekday_of(last);
    let diff = (w - wd + 7) % 7;
    lemma_sub_days_in_month(last, diff as nat);
    lemma_weekday_shift(y, m, days_in_month(y, m), w, wd);
}

/// Law: Victoria Day is a Monday between May 18 and May 24: the last
/// Monday before May 25.
pub proof fn lemma_victoria_day_correct(y: int)
    requires
        spec_victoria_day(y) is Some,
    ensures
        ({
            let dt = spec_victoria_day(y).unwrap();
            &&& dt.year == y && dt.month == 5
            &&& 18 <= dt.day <= 24
            &&& weekday_of(dt) == MONDAY
        }),
{
    let may25 = date(y, 5, 25);
    let w = weekday_of(may25);
    let diff = (w - MONDAY + 6) % 7 + 1;
    lemma_sub_days_in_month(may25, diff as nat);
    lemma_weekday_step(y, 5, 25, -diff);
}


/// One candidate holiday: its date when that date exists, and its name.
pub type HolidayEntry = (Option<CivilDate>, &'static str);

pub open spec fn entry_view(e: (Option<CivilDate>, &str)) -> (Option<CivilDate>, Seq<char>) {
    (e.0, e.1@)
}

pub open spec fn table_view(t: Seq<(Option<CivilDate>, &str)>) -> Seq<(Option<CivilDate>, Seq<char>)> {
    t.map_values(|e: (Option<CivilDate>, &str)| entry_view(e))
}

pub open spec fn holiday_view(t: Seq<(CivilDate, &str)>) -> Seq<(CivilDate, Seq<char>)> {
    t.map_values(|e: (CivilDate, &str)| (e.0, e.1@))
}

pub open spec fn easter_offset_back(y: int, days: nat) -> Option<CivilDate> {
    sub_days(spec_easter(y), days)
}

pub open spec fn easter_offset_forward(y: int, days: nat) -> Option<CivilDate> {
    add_days(spec_easter(y), days)
}

/// Countries whose rules are anchored on Easter.
pub open spec fn uses_easter(c: Seq<char>) -> bool {
    c == "GB"@ || c == "UK"@ || c == "DE"@ || c == "FR"@
}

/// (month, day) of the Lantern Festival stand-in: two weeks after the New
/// Year stand-in, wrapped over a 28-day month.
pub open spec fn lantern_month_day(y: int) -> (int, int) {
    let (m, d) = spec_chinese_new_year(y);
    if d + 14 > 28 {
        (m + 1, d + 14 - 28)
    } else {
        (m as int, d + 14)
    }
}

/// Holiday rules for the United States.
pub open spec fn us_rules(y: int) -> Seq<(Option<CivilDate>, Seq<char>)> {
        seq![
        (spec_nth_weekday(y, 1, 3, MONDAY as int), "MLK Day"@),
        (spec_nth_weekday(y, 2, 3, MONDAY as int), "Presidents' Day"@),
        (spec_last_weekday(y, 5, MONDAY as int), "Memorial Day"@),
        (ymd(y, 6, 19), "Juneteenth"@),
        (ymd(y, 7, 4), "Independence Day"@),
        (spec_nth_weekday(y, 9, 1, MONDAY as int), "Labor Day"@),
        (spec_nth_weekday(y, 10, 2, MONDAY as int), "Columbus / Indigenous Day"@),
        (ymd(y, 11, 11), "Veterans Day"@),
        (spec_nth_weekday(y, 11, 4, THURSDAY as int), "Thanksgiving"@),
        (ymd(y, 12, 31), "New Year's Eve"@),
    ]
}

/// Holiday rules for the United Kingdom.
pub open spec fn gb_rules(y: int) -> Seq<(Option<CivilDate>, Seq<char>)> {
        seq![
        (easter_offset_back(y, 2), "Good Friday"@),
        (easter_offset_forward(y, 1), "Easter Monday"@),
        (spec_nth_weekday(y, 5, 1, MONDAY as int), "Early May Bank Holiday"@),
        (spec_last_weekday(y, 5, MONDAY as int), "Spring Bank Holiday"@),
        (spec_last_weekday(y, 8, MONDAY as int), "Summer Bank Holiday"@),
        (ymd(y, 12, 26), "Boxing Day"@),
    ]
}

/// Holiday rules for Canada.
pub open spec fn ca_rules(y: int) -> Seq<(Option<CivilDate>, Seq<char>)> {
        seq![
        (ymd(y, 7, 1), "Canada Day"@),
        (spec_nth_weekday(y, 8, 1, MONDAY as int), "Civic Holiday"@),
        (ymd(y, 9, 30), "National Day for Truth and Reconciliation"@),
        (spec_nth_weekday(y, 10, 2, MONDAY as int), "Thanksgiving (CA)"@),
        (ymd(y, 11, 11), "Remembrance Day"@),
        (spec_victoria_day(y), "Victoria Day"@),
    ]
}

/// Holiday rules for Germany.
pub open spec fn de_rules(y: int) -> Seq<(Option<CivilDate>, Seq<char>)> {
        seq![
        (ymd(y, 10, 3), "German Unity Day"@),
        (easter_offset_back(y, 2), "Karfreitag (Good Friday)"@),
        (easter_offset_forward(y, 1), "Ostermontag (Easter Monday)"@),
        (ymd(y, 5, 1), "Tag der Arbeit (Labour Day)"@),
        (ymd(y, 12, 24), "Heiligabend (Christmas Eve)"@),
        (ymd(y, 12, 26), "2. Weihnachtstag"@),
    ]
}

/// Holiday rules for France.
pub open spec fn fr_rules(y: int) -> Seq<(Option<CivilDate>, Seq<char>)> {
        seq![
        (ymd(y, 5, 1), "Fête du Travail"@),
        (ymd(y, 5, 8), "Victoire 1945"@),
        (ymd(y, 7, 14), "Fête Nationale (Bastille Day)"@),
        (ymd(y, 11, 11), "Armistice 1918"@),
        (easter_offset_forward(y, 1), "Lundi de Pâques"@),
        (ymd(y, 8, 15), "Assomption"@),
        (ymd(y, 11, 1), "Toussaint"@),
    ]
}

/// Holiday rules for Australia.
pub open spec fn au_rules(y: int) -> Seq<(Option<CivilDate>, Seq<char>)> {
        seq![
        (ymd(y, 1, 26), "Australia Day"@),
        (ymd(y, 4, 25), "Anzac Day"@),
        (spec_nth_weekday(y, 6, 2, MONDAY as int), "King's Birthday"@),
        (ymd(y, 12, 26), "Boxing Day"@),
    ]
}

/// Holiday rules for Japan.
pub open spec fn jp_rules(y: int) -> Seq<(Option<CivilDate>, Seq<char>)> {
        seq![
        (ymd(y, 2, 11), "建国記念の日 (National Foundation Day)"@),
        (ymd(y, 4, 29), "昭和の日 (Shōwa Day)"@),
        (ymd(y, 5, 3), "憲法記念日 (Constitution Memorial Day)"@),
        (ymd(y, 5, 5), "こどもの日 (Children's Day)"@),
        (ymd(y, 11, 3), "文化の日 (Culture Day)"@),
        (ymd(y, 11, 23), "勤労感謝の日 (Labour Thanksgiving)"@),
        (ymd(y, 2, 23), "天皇誕生日 (Emperor's Birthday)"@),
    ]
}

/// Holiday rules for China (cultural festivals).
pub open spec fn cn_rules(y: int) -> Seq<(Option<CivilDate>, Seq<char>)> {
        seq![
        (
            ymd(y, spec_chinese_new_year(y).0 as int, spec_chinese_new_year(y).1 as int),
            "春节 (Spring Festival / Chinese New Year)"@,
        ),
        (ymd(y, lantern_month_day(y).0, lantern_month_day(y).1), "元宵 (Lantern Festival)"@),
        (ymd(y, 9, 17), "中秋 (Mid-Autumn Festival)"@),
        (ymd(y, 6, 10), "端午 (Dragon Boat Festival)"@),
    ]
}

/// Holiday rules for any other country.
pub open spec fn other_rules(y: int) -> Seq<(Option<CivilDate>, Seq<char>)> {
        seq![(ymd(y, 5, 1), "International Workers' Day"@)]

}

/// The rules that apply to an upper-cased country code.
pub open spec fn country_rules(y: int, c: Seq<char>) -> Seq<(Option<CivilDate>, Seq<char>)> {
    if c == "US"@ {
        us_rules(y)
    } else if c == "GB"@ || c == "UK"@ {
        gb_rules(y)
    } else if c == "CA"@ {
        ca_rules(y)
    } else if c == "DE"@ {
        de_rules(y)
    } else if c == "FR"@ {
        fr_rules(y)
    } else if c == "AU"@ {
        au_rules(y)
    } else if c == "JP"@ {
        jp_rules(y)
    } else if c == "CN"@ || c == "CHINA"@ {
        cn_rules(y)
    } else {
        other_rules(y)
    }
}

/// The candidate holidays of `y` for an upper-cased country code, in the
/// order the rules list them (New Year's Day and Christmas first).
pub open spec fn holiday_table(y: int, c: Seq<char>) -> Seq<(Option<CivilDate>, Seq<char>)> {
    seq![(ymd(y, 1, 1), "New Year's Day"@), (ymd(y, 12, 25), "Christmas Day"@)] + country_rules(y, c)
}

/// The holidays of `y` for the upper-cased country code `c`: the dated
/// candidates sorted by date, keeping the first rule of each date.
pub open spec fn holidays_of(y: int, c: Seq<char>) -> Seq<(CivilDate, Seq<char>)> {
    choose|h: Seq<(CivilDate, Seq<char>)>| sorted_first_per_date(h, keep_dated(holiday_table(y, c)))
}

/// The entries of a table whose date exists, in table order.
pub open spec fn keep_dated(t: Seq<(Option<CivilDate>, Seq<char>)>) -> Seq<(CivilDate, Seq<char>)>
    decreases t.len(),
{
    if t.len() == 0 {
        seq![]
    } else {
        let rest = keep_dated(t.drop_last());
        match t.last().0 {
            Some(d) => rest.push((d, t.last().1)),
            None => rest,
        }
    }
}

/// Whether `e` is the first candidate of `c` with its date.
pub open spec fn first_with_date(c: Seq<(CivilDate, Seq<char>)>, e: (CivilDate, Seq<char>)) -> bool {
    exists|k: int|
        0 <= k < c.len() && c[k] == e && forall|j: int| 0 <= j < k ==> (#[trigger] c[j]).0 != e.0
}

/// Whether some entry of `r` has date `d`.
pub open spec fn has_date(r: Seq<(CivilDate, Seq<char>)>, d: CivilDate) -> bool {
    exists|i: int| 0 <= i < r.len() && (#[trigger] r[i]).0 == d
}

/// `r` is `c` sorted by date (stably) with every later entry of an already
/// seen date dropped: strictly increasing dates, each entry the first of `c`
/// with its date, and every date of `c` present.
pub open spec fn sorted_first_per_date(r: Seq<(CivilDate, Seq<char>)>, c: Seq<(CivilDate, Seq<char>)>) -> bool {
    &&& forall|i: int, j: int| 0 <= i < j < r.len() ==> date_lt(#[trigger] r[i].0, #[trigger] r[j].0)
    &&& forall|i: int| 0 <= i < r.len() ==> #[trigger] first_with_date(c, r[i])
    &&& forall|k: int| 0 <= k < c.len() ==> #[trigger] has_date(r, c[k].0)
}


proof fn lemma_first_with_date_extend(c: Seq<(CivilDate, Seq<char>)>, x: (CivilDate, Seq<char>), e: (CivilDate, Seq<char>))
    requires
        first_with_date(c, e),
    ensures
        first_with_date(c.push(x), e),
{
    let k = choose|k: int|
        0 <= k < c.len() && c[k] == e && forall|j: int| 0 <= j < k ==> (#[trigger] c[j]).0 != e.0;
    let c2 = c.push(x);
    assert(c2[k] == e);
    assert forall|j: int| 0 <= j < k implies (#[trigger] c2[j]).0 != e.0 by {
        assert(c2[j] == c[j]);
    }
}

/// Adds one dated candidate to a list kept sorted by date, unless a holiday
/// on that date is already listed (the earlier one wins).
fn insert_by_date(
    out: &mut Vec<(CivilDate, &'static str)>,
    d: CivilDate,
    name: &'static str,
    Ghost(c): Ghost<Seq<(CivilDate, Seq<char>)>>,
)
    requires
        sorted_first_per_date(holiday_view(old(out)@), c),
    ensures
        sorted_first_per_date(holiday_view(final(out)@), c.push((d, name@))),
{
    let ghost r = holiday_view(out@);
    let ghost c2 = c.push((d, name@));
    let mut i: usize = 0;
    while i < out.len() && date_before(&out[i].0, &d)
        invariant
            i <= out@.len(),
            r == holiday_view(out@),
            forall|j: int| 0 <= j < i ==> date_lt(#[trigger] r[j].0, d),
        decreases out@.len() - i,
    {
        i = i + 1;
    }
    if i < out.len() && out[i].0 == d {
        proof {
            assert(r[i as int].0 == d);
            assert forall|x: int| 0 <= x < r.len() implies #[trigger] first_with_date(c2, r[x]) by {
                lemma_first_with_date_extend(c, (d, name@), r[x]);
            }
            assert forall|k: int| 0 <= k < c2.len() implies #[trigger] has_date(r, c2[k].0) by {
                if k < c.len() {
                    assert(c2[k] == c[k]);
                } else {
                    assert(r[i as int].0 == c2[k].0);
                }
            }
        }
        return;
    }
    proof {
        // Every later entry comes after `d`.
        assert forall|j: int| i <= j < r.len() implies date_lt(d, #[trigger] r[j].0) by {
            assert(!date_lt(r[i as int].0, d) && r[i as int].0 != d);
            if j > i {
                assert(date_lt(r[i as int].0, r[j].0));
            }
        }
        // No earlier candidate has date `d`.
        assert forall|j: int| 0 <= j < c.len() implies (#[trigger] c[j]).0 != d by {
            assert(has_date(r, c[j].0));
            let m = choose|m: int| 0 <= m < r.len() && (#[trigger] r[m]).0 == c[j].0;
            if m < i {
                assert(date_lt(r[m].0, d));
            } else {
                assert(date_lt(d, r[m].0));
            }
        }
    }
    out.insert(i, (d, name));
    proof {
        let r2 = holiday_view(out@);
        assert(r2 =~= r.insert(i as int, (d, name@)));
        assert forall|a: int, b: int| 0 <= a < b < r2.len() implies date_lt(
            #[trigger] r2[a].0,
            #[trigger] r2[b].0,
        ) by {
            if b < i {
            } else if b == i {
                assert(r2[a] == r[a]);
            } else if a < i {
                assert(r2[a] == r[a] && r2[b] == r[b - 1]);
            } else if a == i {
                assert(r2[b] == r[b - 1]);
            } else {
                assert(r2[a] == r[a - 1] && r2[b] == r[b - 1]);
            }
        }
        assert(first_with_date(c2, (d, name@))) by {
            let k = c.len() as int;
            assert(c2[k] == (d, name@));
            assert forall|j: int| 0 <= j < k implies (#[trigger] c2[j]).0 != d by {
                assert(c2[j] == c[j]);
            }
        }
        assert forall|x: int| 0 <= x < r2.len() implies #[trigger] first_with_date(c2, r2[x]) by {
            if x < i {
                assert(r2[x] == r[x]);
                lemma_first_with_date_extend(c, (d, name@), r[x]);
            } else if x > i {
                assert(r2[x] == r[x - 1]);
                lemma_first_with_date_extend(c, (d, name@), r[x - 1]);
            }
        }
        assert forall|k: int| 0 <= k < c2.len() implies #[trigger] has_date(r2, c2[k].0) by {
            if k < c.len() {
                assert(c2[k] == c[k]);
                assert(has_date(r, c[k].0));
                let m = choose|m: int| 0 <= m < r.len() && (#[trigger] r[m]).0 == c[k].0;
                if m < i {
                    assert(r2[m] == r[m]);
                } else {
                    assert(r2[m + 1] == r[m]);
                }
            } else {
                assert(r2[i as int].0 == c2[k].0);
            }
        }
    }
}


fn us_holidays(year: i32) -> (r: Vec<HolidayEntry>)
    ensures
        table_view(r@) == us_rules(year as int),
{
        vec![
        (nth_weekday(year, 1, 3, MONDAY), "MLK Day"),
        (nth_weekday(year, 2, 3, MONDAY), "Presidents' Day"),
        (last_weekday(year, 5, MONDAY), "Memorial Day"),
        (date_from_ymd(year, 6, 19), "Juneteenth"),
        (date_from_ymd(year, 7, 4), "Independence Day"),
        (nth_weekday(year, 9, 1, MONDAY), "Labor Day"),
        (nth_weekday(year, 10, 2, MONDAY), "Columbus / Indigenous Day"),
        (date_from_ymd(year, 11, 11), "Veterans Day"),
        (nth_weekday(year, 11, 4, THURSDAY), "Thanksgiving"),
        (date_from_ymd(year, 12, 31), "New Year's Eve"),
    ]
}

fn gb_holidays(year: i32) -> (r: Vec<HolidayEntry>)
    requires
        easter_is_valid(year as int),
    ensures
        table_view(r@) == gb_rules(year as int),
{
        let easter = easter_sunday(year);
    vec![
        (date_sub_days(&easter, 2), "Good Friday"),
        (date_add_days(&easter, 1), "Easter Monday"),
        (nth_weekday(year, 5, 1, MONDAY), "Early May Bank Holiday"),
        (last_weekday(year, 5, MONDAY), "Spring Bank Holiday"),
        (last_weekday(year, 8, MONDAY), "Summer Bank Holiday"),
        (date_from_ymd(year, 12, 26), "Boxing Day"),
    ]
}

fn ca_holidays(year: i32) -> (r: Vec<HolidayEntry>)
    ensures
        table_view(r@) == ca_rules(year as int),
{
        vec![
        (date_from_ymd(year, 7, 1), "Canada Day"),
        (nth_weekday(year, 8, 1, MONDAY), "Civic Holiday"),
        (date_from_ymd(year, 9, 30), "National Day for Truth and Reconciliation"),
        (nth_weekday(year, 10, 2, MONDAY), "Thanksgiving (CA)"),
        (date_from_ymd(year, 11, 11), "Remembrance Day"),
        (victoria_day(year), "Victoria Day"),
    ]
}

fn de_holidays(year: i32) -> (r: Vec<HolidayEntry>)
    requires
        easter_is_valid(year as int),
    ensures
        table_view(r@) == de_rules(year as int),
{
        let easter = easter_sunday(year);
    vec![
        (date_from_ymd(year, 10, 3), "German Unity Day"),
        (date_sub_days(&easter, 2), "Karfreitag (Good Friday)"),
        (date_add_days(&easter, 1), "Ostermontag (Easter Monday)"),
        (date_from_ymd(year, 5, 1), "Tag der Arbeit (Labour Day)"),
        (date_from_ymd(year, 12, 24), "Heiligabend (Christmas Eve)"),
        (date_from_ymd(year, 12, 26), "2. Weihnachtstag"),
    ]
}

fn fr_holidays(year: i32) -> (r: Vec<HolidayEntry>)
    requires
        easter_is_valid(year as int),
    ensures
        table_view(r@) == fr_rules(year as int),
{
        let easter = easter_sunday(year);
    vec![
        (date_from_ymd(year, 5, 1), "Fête du Travail"),
        (date_from_ymd(year, 5, 8), "Victoire 1945"),
        (date_from_ymd(year, 7, 14), "Fête Nationale (Bastille Day)"),
        (date_from_ymd(year, 11, 11), "Armistice 1918"),
        (date_add_days(&easter, 1), "Lundi de Pâques"),
        (date_from_ymd(year, 8, 15), "Assomption"),
        (date_from_ymd(year, 11, 1), "Toussaint"),
    ]
}

fn au_holidays(year: i32) -> (r: Vec<HolidayEntry>)
    ensures
        table_view(r@) == au_rules(year as int),
{
        vec![
        (date_from_ymd(year, 1, 26), "Australia Day"),
        (date_from_ymd(year, 4, 25), "Anzac Day"),
        (nth_weekday(year, 6, 2, MONDAY), "King's Birthday"),
        (date_from_ymd(year, 12, 26), "Boxing Day"),
    ]
}

fn jp_holidays(year: i32) -> (r: Vec<HolidayEntry>)
    ensures
        table_view(r@) == jp_rules(year as int),
{
        vec![
        (date_from_ymd(year, 2, 11), "建国記念の日 (National Foundation Day)"),
        (date_from_ymd(year, 4, 29), "昭和の日 (Shōwa Day)"),
        (date_from_ymd(year, 5, 3), "憲法記念日 (Constitution Memorial Day)"),
        (date_from_ymd(year, 5, 5), "こどもの日 (Children's Day)"),
        (date_from_ymd(year, 11, 3), "文化の日 (Culture Day)"),
        (date_from_ymd(year, 11, 23), "勤労感謝の日 (Labour Thanksgiving)"),
        (date_from_ymd(year, 2, 23), "天皇誕生日 (Emperor's Birthday)"),
    ]
}

fn cn_holidays(year: i32) -> (r: Vec<HolidayEntry>)
    ensures
        table_view(r@) == cn_rules(year as int),
{
    let (m, d) = approx_chinese_new_year_gregorian(year);
    let new_year = date_from_ymd(year, m, d);
    let (m, d) = approx_chinese_new_year_gregorian(year);
    let mut dd = d + 14;
    let mut mm = m;
    if dd > 28 {
        dd = dd - 28;
        mm = mm + 1;
    }
    vec![
        (new_year, "春节 (Spring Festival / Chinese New Year)"),
        (date_from_ymd(year, mm, dd), "元宵 (Lantern Festival)"),
        (date_from_ymd(year, 9, 17), "中秋 (Mid-Autumn Festival)"),
        (date_from_ymd(year, 6, 10), "端午 (Dragon Boat Festival)"),
    ]
}

fn other_holidays(year: i32) -> (r: Vec<HolidayEntry>)
    ensures
        table_view(r@) == other_rules(year as int),
{
    vec![(date_from_ymd(year, 5, 1), "International Workers' Day")]
}

/// The candidate holidays of `year` for the upper-cased country code `cu`.
fn holiday_table_for(year: i32, cu: &Vec<char>) -> (r: Vec<HolidayEntry>)
    requires
        uses_easter(cu@) ==> easter_is_valid(year as int),
    ensures
        table_view(r@) == holiday_table(year as int, cu@),
{
    let n = cu.len();
    assert(cu@.subrange(0, n as int) =~= cu@);
    let mut table: Vec<HolidayEntry> = vec![
        (date_from_ymd(year, 1, 1), "New Year's Day"),
        (date_from_ymd(year, 12, 25), "Christmas Day"),
    ];
    let mut extra: Vec<HolidayEntry> = if range_eq_str(&cu, 0, n, "US") {
        us_holidays(year)
    } else if range_eq_str(&cu, 0, n, "GB") || range_eq_str(&cu, 0, n, "UK") {
        gb_holidays(year)
    } else if range_eq_str(&cu, 0, n, "CA") {
        ca_holidays(year)
    } else if range_eq_str(&cu, 0, n, "DE") {
        de_holidays(year)
    } else if range_eq_str(&cu, 0, n, "FR") {
        fr_holidays(year)
    } else if range_eq_str(&cu, 0, n, "AU") {
        au_holidays(year)
    } else if range_eq_str(&cu, 0, n, "JP") {
        jp_holidays(year)
    } else if range_eq_str(&cu, 0, n, "CN") || range_eq_str(&cu, 0, n, "CHINA") {
        cn_holidays(year)
    } else {
        other_holidays(year)
    };
    table.append(&mut extra);
    assert(table_view(table@) =~= holiday_table(year as int, cu@));
    table
}


/// The holidays of `year` for `country` (matched case-insensitively, ASCII),
/// sorted by date, one per date: where two rules give the same date the one
/// listed first is kept. Dates that do not exist are left out.
pub fn holidays_for_year(year: i32, country: &str) -> (r: Vec<(CivilDate, &'static str)>)
    requires
        uses_easter(to_upper(country@)) ==> easter_is_valid(year as int),
    ensures
        holiday_view(r@) == holidays_of(year as int, to_upper(country@)),
        sorted_first_per_date(
            holiday_view(r@),
            keep_dated(holiday_table(year as int, to_upper(country@))),
        ),
{
    let cu = upper_vec(&chars_of(country));
    let table = holiday_table_for(year, &cu);
    let ghost tv = table_view(table@);
    let mut out: Vec<(CivilDate, &'static str)> = Vec::new();
    let mut k: usize = 0;
    assert(keep_dated(tv.take(0)) =~= seq![]);
    while k < table.len()
        invariant
            k <= table@.len(),
            tv == table_view(table@),
            sorted_first_per_date(holiday_view(out@), keep_dated(tv.take(k as int))),
        decreases table@.len() - k,
    {
        let (od, name) = table[k];
        let ghost before = keep_dated(tv.take(k as int));
        assert(tv.take(k + 1).drop_last() =~= tv.take(k as int));
        assert(tv.take(k + 1).last() == entry_view(table@[k as int]));
        if let Some(d) = od {
            insert_by_date(&mut out, d, name, Ghost(before));
        }
        k = k + 1;
    }
    assert(tv.take(table@.len() as int) =~= tv);
    proof {
        let c = keep_dated(holiday_table(year as int, to_upper(country@)));
        let h = holidays_of(year as int, to_upper(country@));
        assert(sorted_first_per_date(holiday_view(out@), c));
        lemma_sorted_first_unique(holiday_view(out@), h, c);
    }
    out
}


proof fn lemma_first_with_date_unique(
    c: Seq<(CivilDate, Seq<char>)>,
    e1: (CivilDate, Seq<char>),
    e2: (CivilDate, Seq<char>),
)
    requires
        first_with_date(c, e1),
        first_with_date(c, e2),
        e1.0 == e2.0,
    ensures
        e1 == e2,
{
    let k1 = choose|k: int|
        0 <= k < c.len() && c[k] == e1 && forall|j: int| 0 <= j < k ==> (#[trigger] c[j]).0 != e1.0;
    let k2 = choose|k: int|
        0 <= k < c.len() && c[k] == e2 && forall|j: int| 0 <= j < k ==> (#[trigger] c[j]).0 != e2.0;
    if k1 < k2 {
        assert(c[k1].0 == e2.0);
    } else if k2 < k1 {
        assert(c[k2].0 == e1.0);
    }
}

proof fn lemma_prefix_agrees(
    r1: Seq<(CivilDate, Seq<char>)>,
    r2: Seq<(CivilDate, Seq<char>)>,
    c: Seq<(CivilDate, Seq<char>)>,
    i: int,
)
    requires
        sorted_first_per_date(r1, c),
        sorted_first_per_date(r2, c),
        0 <= i < r1.len(),
        i < r2.len(),
    ensures
        forall|j: int| 0 <= j <= i ==> r1[j] == r2[j],
    decreases i,
{
    if i > 0 {
        lemma_prefix_agrees(r1, r2, c, i - 1);
    }
    let d1 = r1[i].0;
    let d2 = r2[i].0;
    // `d1` is a candidate date, so `r2` lists it somewhere.
    assert(first_with_date(c, r1[i]));
    let k1 = choose|k: int|
        0 <= k < c.len() && c[k] == r1[i] && forall|j: int| 0 <= j < k ==> (#[trigger] c[j]).0 != r1[i].0;
    assert(has_date(r2, c[k1].0));
    let m2 = choose|m: int| 0 <= m < r2.len() && (#[trigger] r2[m]).0 == c[k1].0;
    assert(first_with_date(c, r2[i]));
    let k2 = choose|k: int|
        0 <= k < c.len() && c[k] == r2[i] && forall|j: int| 0 <= j < k ==> (#[trigger] c[j]).0 != r2[i].0;
    assert(has_date(r1, c[k2].0));
    let m1 = choose|m: int| 0 <= m < r1.len() && (#[trigger] r1[m]).0 == c[k2].0;
    if m2 < i {
        assert(r1[m2] == r2[m2]);
        assert(date_lt(r1[m2].0, r1[i].0));
    }
    if m1 < i {
        assert(r1[m1] == r2[m1]);
        assert(date_lt(r2[m1].0, r2[i].0));
    }
    if m2 > i {
        assert(date_lt(r2[i].0, r2[m2].0));
    }
    if m1 > i {
        assert(date_lt(r1[i].0, r1[m1].0));
    }
    assert(d1 == d2);
    lemma_first_with_date_unique(c, r1[i], r2[i]);
}

/// Law: sorting by date and keeping the first holiday of each date has
/// exactly one outcome, so [`holidays_of`] names a single list.
pub proof fn lemma_sorted_first_unique(
    r1: Seq<(CivilDate, Seq<char>)>,
    r2: Seq<(CivilDate, Seq<char>)>,
    c: Seq<(CivilDate, Seq<char>)>,
)
    requires
        sorted_first_per_date(r1, c),
        sorted_first_per_date(r2, c),
    ensures
        r1 == r2,
{
    if r1.len() > 0 && r2.len() > 0 {
        let n = if r1.len() < r2.len() {
            r1.len() as int
        } else {
            r2.len() as int
        };
        lemma_prefix_agrees(r1, r2, c, n - 1);
    }
    if r1.len() > r2.len() {
        let i = r2.len() as int;
        assert(first_with_date(c, r1[i]));
        let k = choose|k: int|
            0 <= k < c.len() && c[k] == r1[i] && forall|j: int| 0 <= j < k ==> (#[trigger] c[j]).0 != r1[i].0;
        assert(has_date(r2, c[k].0));
        let m = choose|m: int| 0 <= m < r2.len() && (#[trigger] r2[m]).0 == c[k].0;
        assert(r1[m] == r2[m]);
        assert(date_lt(r1[m].0, r1[i].0));
    }
    if r2.len() > r1.len() {
        let i = r1.len() as int;
        assert(first_with_date(c, r2[i]));
        let k = choose|k: int|
            0 <= k < c.len() && c[k] == r2[i] && forall|j: int| 0 <= j < k ==> (#[trigger] c[j]).0 != r2[i].0;
        assert(has_date(r1, c[k].0));
        let m = choose|m: int| 0 <= m < r1.len() && (#[trigger] r1[m]).0 == c[k].0;
        assert(r1[m] == r2[m]);
        assert(date_lt(r2[m].0, r2[i].0));
    }
    assert(r1 =~= r2);
}


pub open spec fn month_abbrev(m: int) -> Seq<char> {
    if m == 1 {
        "Jan"@
    } else if m == 2 {
        "Feb"@
    } else if m == 3 {
        "Mar"@
    } else if m == 4 {
        "Apr"@
    } else if m == 5 {
        "May"@
    } else if m == 6 {
        "Jun"@
    } else if m == 7 {
        "Jul"@
    } else if m == 8 {
        "Aug"@
    } else if m == 9 {
        "Sep"@
    } else if m == 10 {
        "Oct"@
    } else if m == 11 {
        "Nov"@
    } else if m == 12 {
        "Dec"@
    } else {
        "???"@
    }
}

/// The English name of month `m` (1 for January through 12 for December).
pub open spec fn english_month_name(m: int) -> Seq<char> {
    if m == 1 {
        "January"@
    } else if m == 2 {
        "February"@
    } else if m == 3 {
        "March"@
    } else if m == 4 {
        "April"@
    } else if m == 5 {
        "May"@
    } else if m == 6 {
        "June"@
    } else if m == 7 {
        "July"@
    } else if m == 8 {
        "August"@
    } else if m == 9 {
        "September"@
    } else if m == 10 {
        "October"@
    } else if m == 11 {
        "November"@
    } else if m == 12 {
        "December"@
    } else {
        Seq::<char>::empty()
    }
}

/// A month's abbreviation is the first three letters of its English name.
proof fn lemma_abbrev_of_name(m: int)
    requires
        1 <= m <= 12,
    ensures
        month_abbrev(m) == english_month_name(m).take(3),
        month_abbrev(m).len() == 3,
{
    if m == 1 {
        reveal_strlit("January");
        reveal_strlit("Jan");
        assert(english_month_name(m).take(3) =~= month_abbrev(m));
    } else if m == 2 {
        reveal_strlit("February");
        reveal_strlit("Feb");
        assert(english_month_name(m).take(3) =~= month_abbrev(m));
    } else if m == 3 {
        reveal_strlit("March");
        reveal_strlit("Mar");
        assert(english_month_name(m).take(3) =~= month_abbrev(m));
    } else if m == 4 {
        reveal_strlit("April");
        reveal_strlit("Apr");
        assert(english_month_name(m).take(3) =~= month_abbrev(m));
    } else if m == 5 {
        reveal_strlit("May");
        reveal_strlit("May");
        assert(english_month_name(m).take(3) =~= month_abbrev(m));
    } else if m == 6 {
        reveal_strlit("June");
        reveal_strlit("Jun");
        assert(english_month_name(m).take(3) =~= month_abbrev(m));
    } else if m == 7 {
        reveal_strlit("July");
        reveal_strlit("Jul");
        assert(english_month_name(m).take(3) =~= month_abbrev(m));
    } else if m == 8 {
        reveal_strlit("August");
        reveal_strlit("Aug");
        assert(english_month_name(m).take(3) =~= month_abbrev(m));
    } else if m == 9 {
        reveal_strlit("September");
        reveal_strlit("Sep");
        assert(english_month_name(m).take(3) =~= month_abbrev(m));
    } else if m == 10 {
        reveal_strlit("October");
        reveal_strlit("Oct");
        assert(english_month_name(m).take(3) =~= month_abbrev(m));
    } else if m == 11 {
        reveal_strlit("November");
        reveal_strlit("Nov");
        assert(english_month_name(m).take(3) =~= month_abbrev(m));
    } else if m == 12 {
        reveal_strlit("December");
        reveal_strlit("Dec");
        assert(english_month_name(m).take(3) =~= month_abbrev(m));
    }
}

/// Law: a holiday line starts with the first three letters of the English
/// name of the holiday's month, then a space; so lines of holidays in
/// different months start differently.
pub proof fn lemma_holiday_line_month(d: CivilDate, name: Seq<char>, d2: CivilDate, name2: Seq<char>)
    requires
        1 <= d.month <= 12,
        1 <= d2.month <= 12,
    ensures
        holiday_line(d, name).take(3) == english_month_name(d.month as int).take(3),
        holiday_line(d, name)[3] == ' ',
        d.month != d2.month ==> holiday_line(d, name).take(3) != holiday_line(d2, name2).take(3),
{
    lemma_abbrev_of_name(d.month as int);
    lemma_abbrev_of_name(d2.month as int);
    let a = month_abbrev(d.month as int);
    let a2 = month_abbrev(d2.month as int);
    let l = holiday_line(d, name);
    let l2 = holiday_line(d2, name2);
    assert(l.take(3) =~= a);
    assert(l2.take(3) =~= a2);
    reveal_strlit(" ");
    assert(l[3] == ' ');
    if d.month != d2.month {
        reveal_strlit("Jan");
        reveal_strlit("Feb");
        reveal_strlit("Mar");
        reveal_strlit("Apr");
        reveal_strlit("May");
        reveal_strlit("Jun");
        reveal_strlit("Jul");
        reveal_strlit("Aug");
        reveal_strlit("Sep");
        reveal_strlit("Oct");
        reveal_strlit("Nov");
        reveal_strlit("Dec");
        assert(a != a2) by {
            if a == a2 {
                assert(a[0] == a2[0] && a[1] == a2[1] && a[2] == a2[2]);
            }
        }
    }
}

/// A holiday as the panel shows it, e.g. "Dec 25 - Christmas Day".
pub open spec fn holiday_line(d: CivilDate, name: Seq<char>) -> Seq<char> {
    month_abbrev(d.month as int) + " "@ + decimal(d.day as nat) + " - "@ + name
}

fn month_abbrev_str(m: u32) -> (r: &'static str)
    ensures
        r@ == month_abbrev(m as int),
{
    match m {
        1 => "Jan",
        2 => "Feb",
        3 => "Mar",
        4 => "Apr",
        5 => "May",
        6 => "Jun",
        7 => "Jul",
        8 => "Aug",
        9 => "Sep",
        10 => "Oct",
        11 => "Nov",
        12 => "Dec",
        _ => "???",
    }
}

/// "Mon D - Name", e.g. "Dec 25 - Christmas Day".
pub fn format_holiday(d: CivilDate, name: &str) -> (r: String)
    ensures
        r@ == holiday_line(d, name@),
{
    let mut out = string_of(month_abbrev_str(d.month));
    out.append(" ");
    push_decimal(&mut out, d.day as u64);
    out.append(" - ");
    out.append(name);
    assert(out@ =~= holiday_line(d, name@));
    out
}

/// The entries of `h` dated `today` or later, in order.
pub open spec fn on_or_after(h: Seq<(CivilDate, Seq<char>)>, today: CivilDate) -> Seq<(CivilDate, Seq<char>)>
    decreases h.len(),
{
    if h.len() == 0 {
        seq![]
    } else {
        let r = on_or_after(h.drop_last(), today);
        if date_le(today, h.last().0) {
            r.push(h.last())
        } else {
            r
        }
    }
}

/// The panel lines for the first `max` holidays of `h` from `today` on.
pub open spec fn upcoming_lines(h: Seq<(CivilDate, Seq<char>)>, today: CivilDate, max: nat) -> Seq<Seq<char>> {
    let f = on_or_after(h, today);
    f.take(if max < f.len() { max as int } else { f.len() as int }).map_values(
        |e: (CivilDate, Seq<char>)| holiday_line(e.0, e.1),
    )
}

proof fn lemma_on_or_after_append(a: Seq<(CivilDate, Seq<char>)>, b: Seq<(CivilDate, Seq<char>)>, today: CivilDate)
    ensures
        on_or_after(a + b, today) == on_or_after(a, today) + on_or_after(b, today),
    decreases b.len(),
{
    if b.len() == 0 {
        assert(a + b =~= a);
        assert(on_or_after(a, today) + on_or_after(b, today) =~= on_or_after(a, today));
    } else {
        assert((a + b).drop_last() =~= a + b.drop_last());
        lemma_on_or_after_append(a, b.drop_last(), today);
        if date_le(today, b.last().0) {
            assert(on_or_after(a, today) + on_or_after(b, today) =~= (on_or_after(a, today)
                + on_or_after(b.drop_last(), today)).push(b.last()));
        }
    }
}

/// Whether the holiday rules of `country` can be evaluated for `year`
/// (the Easter-based rules need an existing Easter date).
pub open spec fn holidays_supported(country: Seq<char>, year: int) -> bool {
    uses_easter(to_upper(country)) ==> easter_is_valid(year)
}

/// Checks [`holidays_supported`] at run time.
pub fn holidays_supported_for(country: &str, year: i32) -> (r: bool)
    ensures
        r == holidays_supported(country@, year as int),
{
    let cu = upper_vec(&chars_of(country));
    let n = cu.len();
    assert(cu@.subrange(0, n as int) =~= cu@);
    if range_eq_str(&cu, 0, n, "GB") || range_eq_str(&cu, 0, n, "UK") || range_eq_str(&cu, 0, n, "DE")
        || range_eq_str(&cu, 0, n, "FR") {
        easter_exists(year)
    } else {
        true
    }
}

/// Whether the Easter algorithm lands on an existing date for `year`.
fn easter_exists(year: i32) -> (r: bool)
    ensures
        r == easter_is_valid(year as int),
{
    let (month, day) = easter_month_day(year);
    if month < 1 || day < 1 {
        return false;
    }
    date_from_ymd(year, month as u32, day as u32).is_some()
}

/// The bottom panel listing upcoming public holidays of a configured country.
pub struct HolidaysPanel {
    config: HolidaysConfig,
    config_meta: ConfigMeta,
    holidays: Vec<String>,
    last_computed_date: Option<CivilDate>,
}

impl HolidaysPanel {
    /// The panel lines for the holidays of `cfg.country` dated `today` or later,
    /// at most `cfg.max_upcoming` of them, soonest first.
    pub fn compute_upcoming_for_date(cfg: &HolidaysConfig, today: CivilDate) -> (r: Vec<String>)
        requires
            holidays_supported(cfg.country@, today.year as int),
        ensures
            strings_view(r@) == upcoming_lines(
                holidays_of(today.year as int, to_upper(cfg.country@)),
                today,
                cfg.max_upcoming as nat,
            ),
    {
        let all = holidays_for_year(today.year, cfg.country.as_str());
        let ghost h = holiday_view(all@);
        let max = cfg.max_upcoming;
        let mut out: Vec<String> = Vec::new();
        let mut k: usize = 0;
        while k < all.len() && out.len() < max
            invariant
                k <= all@.len(),
                h == holiday_view(all@),
                out@.len() <= max,
                out@.len() == on_or_after(h.take(k as int), today).len(),
                strings_view(out@) == on_or_after(h.take(k as int), today).map_values(
                    |e: (CivilDate, Seq<char>)| holiday_line(e.0, e.1),
                ),
            decreases all@.len() - k,
        {
            let (d, name) = all[k];
            assert(h.take(k + 1).drop_last() =~= h.take(k as int));
            assert(h.take(k + 1).last() == (d, name@));
            let ghost prev = on_or_after(h.take(k as int), today);
            let ghost prev_out = strings_view(out@);
            assert(on_or_after(h.take(k + 1), today) == if date_le(today, d) {
                prev.push((d, name@))
            } else {
                prev
            });
            if date_not_after(&today, &d) {
                let line = format_holiday(d, name);
                out.push(line);
                assert(strings_view(out@) =~= prev_out.push(holiday_line(d, name@)));
            }
            k = k + 1;
            assert(strings_view(out@) =~= on_or_after(h.take(k as int), today).map_values(
                |e: (CivilDate, Seq<char>)| holiday_line(e.0, e.1),
            ));
        }
        proof {
            let f = on_or_after(h, today);
            let fk = on_or_after(h.take(k as int), today);
            assert(h =~= h.take(k as int) + h.skip(k as int));
            lemma_on_or_after_append(h.take(k as int), h.skip(k as int), today);
            if k == all@.len() {
                assert(h.take(k as int) =~= h);
            }
            assert(f.take(fk.len() as int) =~= fk);
            assert(strings_view(out@) =~= upcoming_lines(h, today, max as nat));
        }
        out
    }

    /// The sample list shown where no date is available.
    pub fn fallback_samples() -> (r: Vec<String>)
        ensures
            strings_view(r@) == seq![
                "Jun 19 - Juneteenth"@,
                "Jul 4 - Independence Day"@,
                "Sep 1 - Labor Day"@,
            ],
    {
        let r = vec![
            string_of("Jun 19 - Juneteenth"),
            string_of("Jul 4 - Independence Day"),
            string_of("Sep 1 - Labor Day"),
        ];
        assert(strings_view(r@) =~= seq![
            "Jun 19 - Juneteenth"@,
            "Jul 4 - Independence Day"@,
            "Sep 1 - Labor Day"@,
        ]);
        r
    }

    pub closed spec fn config_view(&self) -> (Seq<char>, usize) {
        self.config@
    }

    pub closed spec fn holiday_texts(&self) -> Seq<Seq<char>> {
        strings_view(self.holidays@)
    }

    pub closed spec fn computed_for(&self) -> Option<CivilDate> {
        self.last_computed_date
    }

    pub closed spec fn meta(&self) -> ConfigMeta {
        self.config_meta
    }

    /// A panel for the loaded configuration, listing the holidays from
    /// `today` on.
    pub fn new(loaded: LoadedHolidaysConfig, today: CivilDate) -> (r: Self)
        requires
            holidays_supported(loaded.config.country@, today.year as int),
        ensures
            r.config_view() == loaded.config@,
            r.meta() == loaded.meta,
            r.holiday_texts() == upcoming_lines(
                holidays_of(today.year as int, to_upper(loaded.config.country@)),
                today,
                loaded.config.max_upcoming as nat,
            ),
            r.computed_for() is None,
    {
        let holidays = HolidaysPanel::compute_upcoming_for_date(&loaded.config, today);
        HolidaysPanel {
            config: loaded.config,
            config_meta: loaded.meta,
            holidays,
            last_computed_date: None,
        }
    }

    /// Takes over a configuration that was read again because its file
    /// changed, and recomputes the list for `today`.
    pub fn reload_config(&mut self, loaded: LoadedHolidaysConfig, today: CivilDate)
        requires
            holidays_supported(loaded.config.country@, today.year as int),
        ensures
            final(self).config_view() == loaded.config@,
            final(self).meta() == loaded.meta,
            final(self).holiday_texts() == upcoming_lines(
                holidays_of(today.year as int, to_upper(loaded.config.country@)),
                today,
                loaded.config.max_upcoming as nat,
            ),
            final(self).computed_for() is None,
    {
        self.holidays = HolidaysPanel::compute_upcoming_for_date(&loaded.config, today);
        self.config = loaded.config;
        self.config_meta = loaded.meta;
        self.last_computed_date = None;
    }

    /// Recomputes the list when `today` differs from the day it was last
    /// computed for.
    pub fn refresh_for_date(&mut self, today: CivilDate)
        requires
            holidays_supported(old(self).config_view().0, today.year as int),
        ensures
            final(self).config_view() == old(self).config_view(),
            final(self).meta() == old(self).meta(),
            final(self).computed_for() == Some(today),
            old(self).computed_for() == Some(today) ==> final(self).holiday_texts() == old(self).holiday_texts(),
            old(self).computed_for() != Some(today) ==> final(self).holiday_texts()
                == upcoming_lines(
                holidays_of(today.year as int, to_upper(old(self).config_view().0)),
                today,
                old(self).config_view().1 as nat,
            ),
    {
        if let Some(last) = self.last_computed_date {
            if last == today {
                return;
            }
        }
        self.holidays = HolidaysPanel::compute_upcoming_for_date(&self.config, today);
        self.last_computed_date = Some(today);
    }

    /// One tick: take over a changed configuration if one was read, then
    /// make sure the list is computed for `today`.
    pub fn tick(&mut self, reloaded: Option<LoadedHolidaysConfig>, today: CivilDate)
        requires
            match reloaded {
                Some(l) => holidays_supported(l.config.country@, today.year as int),
                None => holidays_supported(old(self).config_view().0, today.year as int),
            },
        ensures
            final(self).computed_for() == Some(today),
            match reloaded {
                Some(l) => final(self).config_view() == l.config@ && final(self).meta() == l.meta
                    && final(self).holiday_texts() == upcoming_lines(
                    holidays_of(today.year as int, to_upper(l.config.country@)),
                    today,
                    l.config.max_upcoming as nat,
                ),
                None => final(self).config_view() == old(self).config_view() && final(self).meta()
                    == old(self).meta() && (old(self).computed_for() != Some(today) ==> final(self).holiday_texts() == upcoming_lines(
                    holidays_of(today.year as int, to_upper(old(self).config_view().0)),
                    today,
                    old(self).config_view().1 as nat,
                )) && (old(self).computed_for() == Some(today) ==> final(self).holiday_texts()
                    == old(self).holiday_texts()),
            },
    {
        if let Some(l) = reloaded {
            self.reload_config(l, today);
        }
        self.refresh_for_date(today);
    }

    /// The configuration the panel follows.
    pub fn config(&self) -> (r: &HolidaysConfig)
        ensures
            r@ == self.config_view(),
    {
        &self.config
    }

    /// Where the configuration was read from.
    pub fn config_meta(&self) -> (r: &ConfigMeta)
        ensures
            *r == self.meta(),
    {
        &self.config_meta
    }

    pub fn id(&self) -> (r: ModuleId)
        ensures
            r == ModuleId::Holidays,
    {
        ModuleId::Holidays
    }

    /// The panel title naming the country, and its colour (0xRRGGBB).
    pub fn title(&self) -> (r: (String, u32))
        ensures
            r.0@ == holidays_title(self.config_view().0),
            r.1 == 0xFFAA88,
    {
        (holidays_title_for(self.config.country.as_str()), 0xFFAA88)
    }

    /// The first three holiday lines.
    pub fn lines(&self) -> (r: Vec<PanelLine>)
        ensures
            r@.len() == if self.holiday_texts().len() < 3 { self.holiday_texts().len() } else { 3 },
            forall|i: int| 0 <= i < r@.len() ==> (#[trigger] r@[i]).text@ == self.holiday_texts()[i]
                && r@[i].size_pt == 0,
    {
        body_lines(&self.holidays, 3)
    }
}

/// "Holidays (XX)": the United Kingdom shows as "UK", "CHINA" as "CN",
/// every other code as it is.
pub open spec fn holidays_title(country: Seq<char>) -> Seq<char> {
    if country == "GB"@ {
        "Holidays (UK)"@
    } else if country == "CN"@ || country == "CHINA"@ {
        "Holidays (CN)"@
    } else {
        "Holidays ("@ + country + ")"@
    }
}

fn holidays_title_for(country: &str) -> (r: String)
    ensures
        r@ == holidays_title(country@),
{
    let v = chars_of(country);
    let n = v.len();
    assert(v@.subrange(0, n as int) =~= v@);
    if range_eq_str(&v, 0, n, "GB") {
        string_of("Holidays (UK)")
    } else if range_eq_str(&v, 0, n, "CN") || range_eq_str(&v, 0, n, "CHINA") {
        string_of("Holidays (CN)")
    } else {
        let mut out = string_of("Holidays (");
        out.append(country);
        out.append(")");
        assert(out@ =~= holidays_title(country@));
        out
    }
}



/// Whether `t` occurs in `s` as a run of consecutive characters.
pub open spec fn contains_text(s: Seq<char>, t: Seq<char>) -> bool {
    exists|i: int| 0 <= i && i + t.len() <= s.len() && #[trigger] s.subrange(i, i + t.len()) == t
}

/// Law: every line the holidays panel lists reads "<date> - <name>": it
/// holds " - ".
pub proof fn lemma_upcoming_lines_have_separator(
    h: Seq<(CivilDate, Seq<char>)>,
    today: CivilDate,
    max: nat,
    i: int,
)
    requires
        0 <= i < upcoming_lines(h, today, max).len(),
    ensures
        contains_text(upcoming_lines(h, today, max)[i], " - "@),
{
    reveal_strlit(" - ");
    reveal_strlit(" ");
    let f = on_or_after(h, today);
    let k = if max < f.len() { max as int } else { f.len() as int };
    let e = f.take(k)[i];
    let line = holiday_line(e.0, e.1);
    assert(upcoming_lines(h, today, max)[i] == line);
    let at: int = (month_abbrev(e.0.month as int).len() + 1 + decimal(e.0.day as nat).len()) as int;
    let head = month_abbrev(e.0.month as int) + " "@ + decimal(e.0.day as nat);
    assert(head.len() == at);
    assert(line == head + " - "@ + e.1);
    assert(line.subrange(at, at + 3) =~= " - "@);
}


/// Law: the holidays panel's title always reads "Holidays (...)".
pub proof fn lemma_title_names_holidays(country: Seq<char>)
    ensures
        "Holidays ("@.is_prefix_of(holidays_title(country)),
{
    reveal_strlit("Holidays (");
    reveal_strlit("Holidays (UK)");
    reveal_strlit("Holidays (CN)");
    let t = holidays_title(country);
    assert(t.subrange(0, 10) =~= "Holidays ("@);
}

} // verus!
