//! The firmware-update progress screen.

use vstd::prelude::*;
use crate::text::{decimal, push_char, push_decimal};

verus! {

/// Left edge of the progress bar.
pub const BAR_X: i32 = 200;

/// Top edge of the progress bar.
pub const BAR_Y: i32 = 200;

/// Full width of the progress bar.
pub const BAR_WIDTH: i32 = 400;

/// Height of the progress bar.
pub const BAR_HEIGHT: i32 = 24;

/// The progress bar at `percent`: the filled width (four pixels a percent,
/// the bar being 400 wide) and the label `<percent>%`.
pub fn progress_bar(percent: u8) -> (r: (i32, String))
    ensures
        r.0 == BAR_WIDTH * percent / 100,
        r.1@ == decimal(percent as nat) + seq!['%'],
{
    let filled = BAR_WIDTH * (percent as i32) / 100;
    let mut label = String::new();
    push_decimal(&mut label, percent as u64);
    push_char(&mut label, '%');
    assert(label@ =~= decimal(percent as nat) + seq!['%']);
    (filled, label)
}

} // verus!
