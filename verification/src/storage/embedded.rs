//! Embedded storage: logical paths live on the SD card volume at `/sd/`.

use vstd::prelude::*;
use crate::text::{concat, starts_with, string_of};

verus! {

/// Where a logical path lives on the SD card: `cache/...` moves under
/// `/sd/`, everything else is already a card path.
pub open spec fn card_path(logical: Seq<char>) -> Seq<char> {
    if "cache/"@.is_prefix_of(logical) {
        "/sd/"@ + logical
    } else {
        logical
    }
}

/// Maps a logical path to its location on the SD card.
pub fn resolve_logical_path(logical: &str) -> (r: String)
    ensures
        r@ == card_path(logical@),
{
    if starts_with(logical, "cache/") {
        return concat("/sd/", logical);
    }
    string_of(logical)
}

} // verus!
