//! Colours the hands and numerals are tinted with at night.

use vstd::prelude::*;

verus! {

/// The tint of the hour and minute hands and the hub: ivory at night,
/// none (the artwork's own colours) by day.
pub fn ivory_tint(night: bool) -> (r: Option<(u8, u8, u8)>)
    ensures
        r == if night { Some((220u8, 200u8, 170u8)) } else { None::<(u8, u8, u8)> },
{
    if night {
        Some((220, 200, 170))
    } else {
        None
    }
}

/// The tint of the second hand: orange at night, none by day.
pub fn second_tint(night: bool) -> (r: Option<(u8, u8, u8)>)
    ensures
        r == if night { Some((255u8, 120u8, 64u8)) } else { None::<(u8, u8, u8)> },
{
    if night {
        Some((255, 120, 64))
    } else {
        None
    }
}

/// The tint of the numerals at local hour `hour`: amber from 22:00 to
/// 06:00, none otherwise.
pub fn numeral_tint(hour: u32) -> (r: Option<(u8, u8, u8)>)
    ensures
        r == if hour >= 22 || hour < 6 { Some((255u8, 170u8, 51u8)) } else { None::<(u8, u8, u8)> },
{
    if hour >= 22 || hour < 6 {
        Some((255, 170, 51))
    } else {
        None
    }
}

} // verus!
