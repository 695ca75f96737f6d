//! The firmware updater.

use vstd::prelude::*;

verus! {

/// The firmware updater; updates run only when it is enabled.
pub struct OtaUpdater {
    pub enabled: bool,
}

impl OtaUpdater {
    /// A disabled updater.
    pub fn new() -> (r: Self)
        ensures
            !r.enabled,
    {
        OtaUpdater { enabled: false }
    }
}

} // verus!
