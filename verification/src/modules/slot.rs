//! The three slots of the bottom panel row.

use vstd::prelude::*;
use crate::text::{
    trim, to_lower, chars_of, trim_bounds, range_lower_eq_str, lemma_trim_plain, lemma_lower_plain,
};

verus! {

#[derive(Clone, Copy, Debug, PartialEq, Eq, Hash, Structural)]
pub enum BottomSlot {
    Left,
    Mid,
    Right,
}

/// The slot a configured name selects (trimmed, ASCII case-insensitive).
pub open spec fn slot_named(s: Seq<char>) -> Option<BottomSlot> {
    let k = to_lower(trim(s));
    if k == "b_left"@ || k == "left"@ {
        Some(BottomSlot::Left)
    } else if k == "b_mid"@ || k == "mid"@ || k == "middle"@ || k == "center"@ || k == "centre"@ {
        Some(BottomSlot::Mid)
    } else if k == "b_right"@ || k == "right"@ {
        Some(BottomSlot::Right)
    } else {
        None
    }
}

pub open spec fn slot_name(s: BottomSlot) -> Seq<char> {
    match s {
        BottomSlot::Left => "b_left"@,
        BottomSlot::Mid => "b_mid"@,
        BottomSlot::Right => "b_right"@,
    }
}

pub open spec fn slot_index(s: BottomSlot) -> usize {
    match s {
        BottomSlot::Left => 0,
        BottomSlot::Mid => 1,
        BottomSlot::Right => 2,
    }
}

impl BottomSlot {
    /// The slots from left to right.
    pub fn all() -> (r: [BottomSlot; 3])
        ensures
            r@ == seq![BottomSlot::Left, BottomSlot::Mid, BottomSlot::Right],
    {
        [BottomSlot::Left, BottomSlot::Mid, BottomSlot::Right]
    }

    /// The slot `v[lo..hi]` names, if any.
    pub fn from_range(v: &Vec<char>, lo: usize, hi: usize) -> (r: Option<BottomSlot>)
        requires
            lo <= hi <= v@.len(),
        ensures
            r == slot_named(v@.subrange(lo as int, hi as int)),
    {
        let (a, b) = trim_bounds(v, lo, hi);
        if range_lower_eq_str(v, a, b, "b_left") || range_lower_eq_str(v, a, b, "left") {
            Some(BottomSlot::Left)
        } else if range_lower_eq_str(v, a, b, "b_mid") || range_lower_eq_str(v, a, b, "mid")
            || range_lower_eq_str(v, a, b, "middle") || range_lower_eq_str(v, a, b, "center")
            || range_lower_eq_str(v, a, b, "centre") {
            Some(BottomSlot::Mid)
        } else if range_lower_eq_str(v, a, b, "b_right") || range_lower_eq_str(v, a, b, "right") {
            Some(BottomSlot::Right)
        } else {
            None
        }
    }

    /// The slot a name selects: "b_left"/"left", "b_mid"/"mid"/"middle"/
    /// "center"/"centre", "b_right"/"right", ignoring surrounding white space
    /// and ASCII case.
    pub fn from_str(s: &str) -> (r: Option<BottomSlot>)
        ensures
            r == slot_named(s@),
    {
        let v = chars_of(s);
        assert(v@.subrange(0, v@.len() as int) =~= v@);
        BottomSlot::from_range(&v, 0, v.len())
    }

    /// The configuration key of the slot.
    pub fn as_str(self) -> (r: &'static str)
        ensures
            r@ == slot_name(self),
    {
        match self {
            BottomSlot::Left => "b_left",
            BottomSlot::Mid => "b_mid",
            BottomSlot::Right => "b_right",
        }
    }

    /// Position of the slot from the left, 0 to 2.
    pub fn index(self) -> (r: usize)
        ensures
            r == slot_index(self),
    {
        match self {
            BottomSlot::Left => 0,
            BottomSlot::Mid => 1,
            BottomSlot::Right => 2,
        }
    }
}

/// Law: a slot's configuration key selects that slot again.
pub proof fn lemma_slot_name_round_trip(s: BottomSlot)
    ensures
        slot_named(slot_name(s)) == Some(s),
{
    reveal_strlit("b_left");
    reveal_strlit("left");
    reveal_strlit("b_mid");
    reveal_strlit("mid");
    reveal_strlit("middle");
    reveal_strlit("center");
    reveal_strlit("centre");
    reveal_strlit("b_right");
    reveal_strlit("right");
    let n = slot_name(s);
    lemma_trim_plain(n);
    lemma_lower_plain(n);
}

/// Law: the slots sit at distinct positions.
pub proof fn lemma_slot_index_distinct(a: BottomSlot, b: BottomSlot)
    ensures
        slot_index(a) == slot_index(b) <==> a == b,
{
}

} // verus!
