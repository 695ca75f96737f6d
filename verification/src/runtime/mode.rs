//! The screens the clock can show.

use vstd::prelude::*;

verus! {

/// The UI mode: which screen the clock is on.
#[derive(Debug, Clone, Copy, PartialEq, Eq, Structural)]
pub enum UiMode {
    Boot,
    Clock,
    Menu,
    TimeSet,
    Alarm,
    About,
}

} // verus!
