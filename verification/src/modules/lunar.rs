//! Lunar helpers shared with the holiday rules.

use vstd::prelude::*;

verus! {

/// The (month, day) used for Chinese New Year of `year`: a fixed table for
/// 2024..=2027 and February 10 for every other year.
pub open spec fn spec_chinese_new_year(year: int) -> (u32, u32) {
    if year == 2024 {
        (2, 10)
    } else if year == 2025 {
        (1, 29)
    } else if year == 2026 {
        (2, 17)
    } else if year == 2027 {
        (2, 6)
    } else {
        (2, 10)
    }
}

/// Rough Gregorian (month, day) of Chinese New Year, used as a placeholder
/// until a full lunar engine is wired in.
pub fn approx_chinese_new_year_gregorian(year: i32) -> (r: (u32, u32))
    ensures
        r == spec_chinese_new_year(year as int),
{
    match year {
        2024 => (2, 10),
        2025 => (1, 29),
        2026 => (2, 17),
        2027 => (2, 6),
        _ => (2, 10),
    }
}

} // verus!
