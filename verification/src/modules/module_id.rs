//! Identifiers of the panel modules.

use vstd::prelude::*;
use crate::text::{
    trim, to_lower, chars_of, trim_bounds, range_lower_eq_str, lemma_trim_plain, lemma_lower_plain,
};

verus! {

/// The panel modules (bottom row and upper row).
#[derive(Clone, Copy, Debug, PartialEq, Eq, Hash, Structural)]
pub enum ModuleId {
    Weather,
    Calendar,
    Holidays,
    Lunar,
    Zodiac,
    /// Venus-Moon pentagram cycle visualizer.
    Pentagram,
}

/// The module a configured name selects (trimmed, ASCII case-insensitive).
pub open spec fn module_named(s: Seq<char>) -> Option<ModuleId> {
    let k = to_lower(trim(s));
    if k == "weather"@ {
        Some(ModuleId::Weather)
    } else if k == "calendar"@ {
        Some(ModuleId::Calendar)
    } else if k == "holidays"@ {
        Some(ModuleId::Holidays)
    } else if k == "lunar"@ {
        Some(ModuleId::Lunar)
    } else if k == "zodiac"@ {
        Some(ModuleId::Zodiac)
    } else if k == "pentagram"@ || k == "venus"@ || k == "venus_pentagram"@ {
        Some(ModuleId::Pentagram)
    } else {
        None
    }
}

pub open spec fn module_name(m: ModuleId) -> Seq<char> {
    match m {
        ModuleId::Weather => "weather"@,
        ModuleId::Calendar => "calendar"@,
        ModuleId::Holidays => "holidays"@,
        ModuleId::Lunar => "lunar"@,
        ModuleId::Zodiac => "zodiac"@,
        ModuleId::Pentagram => "pentagram"@,
    }
}

impl ModuleId {
    /// Every module, in display order.
    pub fn all() -> (r: [ModuleId; 6])
        ensures
            r@ == seq![
                ModuleId::Weather,
                ModuleId::Calendar,
                ModuleId::Holidays,
                ModuleId::Lunar,
                ModuleId::Zodiac,
                ModuleId::Pentagram,
            ],
    {
        [
            ModuleId::Weather,
            ModuleId::Calendar,
            ModuleId::Holidays,
            ModuleId::Lunar,
            ModuleId::Zodiac,
            ModuleId::Pentagram,
        ]
    }

    /// The module `v[lo..hi]` names, if any.
    pub fn from_range(v: &Vec<char>, lo: usize, hi: usize) -> (r: Option<ModuleId>)
        requires
            lo <= hi <= v@.len(),
        ensures
            r == module_named(v@.subrange(lo as int, hi as int)),
    {
        let (a, b) = trim_bounds(v, lo, hi);
        if range_lower_eq_str(v, a, b, "weather") {
            Some(ModuleId::Weather)
        } else if range_lower_eq_str(v, a, b, "calendar") {
            Some(ModuleId::Calendar)
        } else if range_lower_eq_str(v, a, b, "holidays") {
            Some(ModuleId::Holidays)
        } else if range_lower_eq_str(v, a, b, "lunar") {
            Some(ModuleId::Lunar)
        } else if range_lower_eq_str(v, a, b, "zodiac") {
            Some(ModuleId::Zodiac)
        } else if range_lower_eq_str(v, a, b, "pentagram") || range_lower_eq_str(v, a, b, "venus")
            || range_lower_eq_str(v, a, b, "venus_pentagram") {
            Some(ModuleId::Pentagram)
        } else {
            None
        }
    }

    /// The module a name selects: "weather", "calendar", "holidays",
    /// "lunar", "zodiac", or "pentagram" (also "venus", "venus_pentagram"),
    /// ignoring surrounding white space and ASCII case.
    pub fn from_str(s: &str) -> (r: Option<ModuleId>)
        ensures
            r == module_named(s@),
    {
        let v = chars_of(s);
        assert(v@.subrange(0, v@.len() as int) =~= v@);
        ModuleId::from_range(&v, 0, v.len())
    }

    /// The canonical configuration name of the module.
    pub fn as_str(self) -> (r: &'static str)
        ensures
            r@ == module_name(self),
    {
        match self {
            ModuleId::Weather => "weather",
            ModuleId::Calendar => "calendar",
            ModuleId::Holidays => "holidays",
            ModuleId::Lunar => "lunar",
            ModuleId::Zodiac => "zodiac",
            ModuleId::Pentagram => "pentagram",
        }
    }
}

/// Law: a module's canonical name selects that module again.
pub proof fn lemma_module_name_round_trip(m: ModuleId)
    ensures
        module_named(module_name(m)) == Some(m),
{
    reveal_strlit("weather");
    reveal_strlit("calendar");
    reveal_strlit("holidays");
    reveal_strlit("lunar");
    reveal_strlit("zodiac");
    reveal_strlit("pentagram");
    reveal_strlit("venus");
    reveal_strlit("venus_pentagram");
    let s = module_name(m);
    lemma_trim_plain(s);
    lemma_lower_plain(s);
}

} // verus!
