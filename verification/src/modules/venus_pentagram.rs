//! The Venus-Moon pentagram panel: where the eight-year cycle of five Venus
//! synodic periods stands.
//!
//! The cycle position is computed by the caller and comes in as a
//! percentage text.

use vstd::prelude::*;
use crate::text::{concat, string_of};
use crate::modules::bottom_module::{PanelLine, body_lines, strings_view};
use crate::modules::module_id::ModuleId;

verus! {

/// The pentagram panel.
pub struct VenusMoonPentagramPanel {
    lines: Vec<String>,
}

impl VenusMoonPentagramPanel {
    pub closed spec fn texts(&self) -> Seq<Seq<char>> {
        strings_view(self.lines@)
    }

    pub fn new() -> (r: Self)
        ensures
            r.texts() == seq!["Venus-Moon"@, "Pentagram"@, "Cycle"@],
    {
        let mut lines: Vec<String> = Vec::new();
        lines.push(string_of("Venus-Moon"));
        lines.push(string_of("Pentagram"));
        lines.push(string_of("Cycle"));
        let r = VenusMoonPentagramPanel { lines };
        assert(r.texts() =~= seq!["Venus-Moon"@, "Pentagram"@, "Cycle"@]);
        r
    }

    /// Shows the cycle position: the third line becomes `Pos: <percent>%`.
    pub fn tick(&mut self, percent: &str)
        requires
            old(self).texts().len() >= 3,
        ensures
            final(self).texts() == old(self).texts().update(2, "Pos: "@ + percent@ + "%"@),
    {
        let mut pos = concat("Pos: ", percent);
        pos.append("%");
        let ghost before = self.lines@;
        self.lines.set(2, pos);
        assert(strings_view(self.lines@) =~= strings_view(before).update(2, "Pos: "@ + percent@ + "%"@));
    }

    pub fn id(&self) -> (r: ModuleId)
        ensures
            r == ModuleId::Pentagram,
    {
        ModuleId::Pentagram
    }

    /// The title and its colour.
    pub fn title(&self) -> (r: (String, u32))
        ensures
            r.0@ == "Pentagram"@,
            r.1 == 0xFFAA88,
    {
        (string_of("Pentagram"), 0xFFAA88)
    }

    /// The first three lines, in body size.
    pub fn lines(&self) -> (r: Vec<PanelLine>)
        ensures
            r@.len() == if self.texts().len() < 3 { self.texts().len() } else { 3 },
            forall|i: int| 0 <= i < r@.len() ==> (#[trigger] r@[i]).text@ == self.texts()[i] && r@[i].size_pt == 0,
    {
        body_lines(&self.lines, 3)
    }
}

} // verus!
