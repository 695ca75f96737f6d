//! Wall-clock time of day as the embedded build keeps it.

use vstd::prelude::*;

verus! {

/// Hour, minute and second of the day.
#[derive(Clone, Copy, Debug, PartialEq, Eq, Structural)]
pub struct WallTime {
    pub hour: u32,
    pub minute: u32,
    pub second: u32,
}

impl WallTime {
    pub fn new(hour: u32, minute: u32, second: u32) -> (r: Self)
        ensures
            r == (WallTime { hour, minute, second }),
    {
        WallTime { hour, minute, second }
    }

    /// The time of day `total` seconds after midnight (wrapping at 24 hours).
    pub fn from_seconds(total: u32) -> (r: Self)
        ensures
            r.hour == (total / 3600) % 24,
            r.minute == (total / 60) % 60,
            r.second == total % 60,
    {
        WallTime::new((total / 3600) % 24, (total / 60) % 60, total % 60)
    }
}

/// Law: the clock fields are always in range, and they add up to the seconds
/// since the start of the day.
pub proof fn lemma_wall_time_fields(total: u32)
    ensures
        (total / 3600) % 24 < 24,
        (total / 60) % 60 < 60,
        total % 60 < 60,
        ((total / 3600) % 24) * 3600 + ((total / 60) % 60) * 60 + total % 60 == total % 86400,
{
    let t = total as int;
    let q = t / 60;
    let sec = t % 60;
    vstd::arithmetic::div_mod::lemma_fundamental_div_mod(t, 60);
    let hh = q / 60;
    let mm = q % 60;
    vstd::arithmetic::div_mod::lemma_fundamental_div_mod(q, 60);
    assert(t == 3600 * hh + 60 * mm + sec);
    vstd::arithmetic::div_mod::lemma_fundamental_div_mod_converse(t, 3600, hh, 60 * mm + sec);
    let d = hh / 24;
    let h = hh % 24;
    vstd::arithmetic::div_mod::lemma_fundamental_div_mod(hh, 24);
    assert(t == 86400 * d + (3600 * h + 60 * mm + sec));
    vstd::arithmetic::div_mod::lemma_fundamental_div_mod_converse(t, 86400, d, 3600 * h + 60 * mm + sec);
}

} // verus!
