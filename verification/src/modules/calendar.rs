//! The calendar panel: the day's events.

use vstd::prelude::*;
use crate::text::string_of;
use crate::modules::bottom_module::{PanelLine, body_lines, strings_view};
use crate::modules::module_id::ModuleId;

verus! {

/// The calendar panel.
pub struct CalendarPanel {
    pub events: Vec<String>,
}

impl CalendarPanel {
    /// A panel with the sample agenda.
    pub fn new() -> (r: Self)
        ensures
            strings_view(r.events@) == seq!["09:00 Team Sync"@, "11:30 Doctor"@, "15:00 Project Review"@],
    {
        let mut events: Vec<String> = Vec::new();
        events.push(string_of("09:00 Team Sync"));
        events.push(string_of("11:30 Doctor"));
        events.push(string_of("15:00 Project Review"));
        assert(strings_view(events@) =~= seq!["09:00 Team Sync"@, "11:30 Doctor"@, "15:00 Project Review"@]);
        CalendarPanel { events }
    }

    pub fn id(&self) -> (r: ModuleId)
        ensures
            r == ModuleId::Calendar,
    {
        ModuleId::Calendar
    }

    /// The title and its colour.
    pub fn title(&self) -> (r: (String, u32))
        ensures
            r.0@ == "Calendar"@,
            r.1 == 0x88AAFF,
    {
        (string_of("Calendar"), 0x88AAFF)
    }

    /// The first three events, in body size.
    pub fn lines(&self) -> (r: Vec<PanelLine>)
        ensures
            r@.len() == if self.events@.len() < 3 { self.events@.len() } else { 3 },
            forall|i: int| 0 <= i < r@.len() ==> (#[trigger] r@[i]).text@ == self.events@[i]@ && r@[i].size_pt == 0,
    {
        body_lines(&self.events, 3)
    }
}

} // verus!
