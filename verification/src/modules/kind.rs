//! The kinds of content a panel can show.

use vstd::prelude::*;
use crate::text::{
    trim, to_lower, chars_of, trim_bounds, range_lower_eq_str, lemma_trim_plain, lemma_lower_plain,
};

verus! {

#[derive(Clone, Copy, Debug, PartialEq, Eq, Structural)]
pub enum PanelKind {
    Weather,
    Calendar,
    Holidays,
}

/// The kind a configured name selects (trimmed, ASCII case-insensitive).
pub open spec fn panel_kind_named(s: Seq<char>) -> Option<PanelKind> {
    let k = to_lower(trim(s));
    if k == "weather"@ {
        Some(PanelKind::Weather)
    } else if k == "calendar"@ {
        Some(PanelKind::Calendar)
    } else if k == "holidays"@ {
        Some(PanelKind::Holidays)
    } else {
        None
    }
}

pub open spec fn panel_kind_name(k: PanelKind) -> Seq<char> {
    match k {
        PanelKind::Weather => "weather"@,
        PanelKind::Calendar => "calendar"@,
        PanelKind::Holidays => "holidays"@,
    }
}

impl PanelKind {
    /// Every kind, in display order.
    pub fn all() -> (r: [PanelKind; 3])
        ensures
            r@ == seq![PanelKind::Weather, PanelKind::Calendar, PanelKind::Holidays],
    {
        [PanelKind::Weather, PanelKind::Calendar, PanelKind::Holidays]
    }

    /// The kind a name selects: "weather", "calendar" or "holidays",
    /// ignoring surrounding white space and ASCII case.
    pub fn from_str(s: &str) -> (r: Option<PanelKind>)
        ensures
            r == panel_kind_named(s@),
    {
        let v = chars_of(s);
        let (a, b) = trim_bounds(&v, 0, v.len());
        assert(v@.subrange(0, v@.len() as int) =~= v@);
        if range_lower_eq_str(&v, a, b, "weather") {
            Some(PanelKind::Weather)
        } else if range_lower_eq_str(&v, a, b, "calendar") {
            Some(PanelKind::Calendar)
        } else if range_lower_eq_str(&v, a, b, "holidays") {
            Some(PanelKind::Holidays)
        } else {
            None
        }
    }

    /// The canonical name of the kind.
    pub fn as_str(self) -> (r: &'static str)
        ensures
            r@ == panel_kind_name(self),
    {
        match self {
            PanelKind::Weather => "weather",
            PanelKind::Calendar => "calendar",
            PanelKind::Holidays => "holidays",
        }
    }
}

/// Law: a kind's canonical name selects that kind again.
pub proof fn lemma_panel_kind_round_trip(k: PanelKind)
    ensures
        panel_kind_named(panel_kind_name(k)) == Some(k),
{
    reveal_strlit("weather");
    reveal_strlit("calendar");
    reveal_strlit("holidays");
    let s = panel_kind_name(k);
    lemma_trim_plain(s);
    lemma_lower_plain(s);
}

} // verus!
