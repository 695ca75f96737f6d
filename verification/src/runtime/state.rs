//! Run-loop state shared by the build targets.

use vstd::prelude::*;

verus! {

/// The firmware updater of a build without network updates: it holds no
/// state and never updates.
pub struct OtaUpdater;

impl OtaUpdater {
    pub fn new() -> Self {
        OtaUpdater
    }
}

} // verus!
