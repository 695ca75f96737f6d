//! The panel bar: which modules are ticked and drawn, in which order, and
//! where their text goes.
//!
//! The bottom row shows the three configured slots; the upper row always
//! shows the lunar, zodiac and pentagram modules. The drawing itself, and
//! the row positions of the screen layout, belong to the caller.

use vstd::prelude::*;
use crate::modules::bottom_module::PanelLine;
use crate::modules::config::{BottomSlotConfig, slot_module};
use crate::modules::module_id::ModuleId;
use crate::modules::slot::BottomSlot;

verus! {

/// Left padding of a panel's text, in pixels.
pub const TEXT_PAD: i32 = 10;

/// Offset of a panel's title below the top of its row.
pub const TITLE_OFFSET: i32 = 6;

/// Offset of a panel's first body line below the top of its row.
pub const BODY_OFFSET: i32 = 40;

/// The modules of the upper row, left to right.
pub open spec fn upper_module(i: int) -> ModuleId {
    if i == 0 {
        ModuleId::Lunar
    } else if i == 1 {
        ModuleId::Zodiac
    } else {
        ModuleId::Pentagram
    }
}

/// The order in which a tick visits the modules: the bottom slots left to
/// right, then the upper row.
pub open spec fn tick_sequence(slots: BottomSlotConfig) -> Seq<ModuleId> {
    seq![
        slot_module(slots, BottomSlot::Left),
        slot_module(slots, BottomSlot::Mid),
        slot_module(slots, BottomSlot::Right),
        ModuleId::Lunar,
        ModuleId::Zodiac,
        ModuleId::Pentagram,
    ]
}

/// The modules to tick, in order.
pub fn tick_order(slots: &BottomSlotConfig) -> (r: Vec<ModuleId>)
    ensures
        r@ == tick_sequence(*slots),
{
    let mut r: Vec<ModuleId> = Vec::new();
    r.push(slots.module_for(BottomSlot::Left));
    r.push(slots.module_for(BottomSlot::Mid));
    r.push(slots.module_for(BottomSlot::Right));
    r.push(ModuleId::Lunar);
    r.push(ModuleId::Zodiac);
    r.push(ModuleId::Pentagram);
    assert(r@ =~= tick_sequence(*slots));
    r
}

/// The module in column `i` (0 to 2) of the upper row, and the slot whose
/// position it takes.
pub fn upper_column(i: usize) -> (r: (ModuleId, BottomSlot))
    requires
        i < 3,
    ensures
        r.0 == upper_module(i as int),
        r.1 == if i == 0 { BottomSlot::Left } else if i == 1 { BottomSlot::Mid } else { BottomSlot::Right },
{
    match i {
        0 => (ModuleId::Lunar, BottomSlot::Left),
        1 => (ModuleId::Zodiac, BottomSlot::Mid),
        _ => (ModuleId::Pentagram, BottomSlot::Right),
    }
}

/// Where one text line is drawn, and how large.
#[derive(Clone, Copy, Debug, PartialEq, Eq, Structural)]
pub struct TextPlacement {
    pub x: i32,
    pub y: i32,
    pub size_pt: u8,
}

/// The title of a panel in the column at `x` of the row at `row_y`.
pub fn title_placement(x: i32, row_y: i32, title_pt: u8) -> (r: TextPlacement)
    requires
        x + TEXT_PAD <= i32::MAX,
        row_y + TITLE_OFFSET <= i32::MAX,
    ensures
        r.x == x + TEXT_PAD,
        r.y == row_y + TITLE_OFFSET,
        r.size_pt == title_pt,
{
    TextPlacement { x: x + TEXT_PAD, y: row_y + TITLE_OFFSET, size_pt: title_pt }
}

/// Where body line `i` goes: `gap` pixels apart from the body top, in the
/// line's own size or, when that is 0, the layout's body size.
pub open spec fn line_placement(line: PanelLine, i: int, x: i32, row_y: i32, gap: i32, body_pt: u8) -> TextPlacement {
    TextPlacement {
        x: (x + TEXT_PAD) as i32,
        y: (row_y + BODY_OFFSET + i * gap) as i32,
        size_pt: if line.size_pt == 0 { body_pt } else { line.size_pt },
    }
}

/// Where the body lines of a panel in the column at `x` of the row at
/// `row_y` are drawn.
pub fn place_lines(lines: &Vec<PanelLine>, x: i32, row_y: i32, gap: i32, body_pt: u8) -> (r: Vec<TextPlacement>)
    requires
        x + TEXT_PAD <= i32::MAX,
        row_y + BODY_OFFSET <= i32::MAX,
        lines@.len() <= i32::MAX,
        forall|i: int| 0 <= i < lines@.len() ==> i32::MIN <= #[trigger] (i * gap) <= i32::MAX,
        forall|i: int| 0 <= i < lines@.len() ==> i32::MIN <= #[trigger] (row_y + BODY_OFFSET + i * gap) <= i32::MAX,
    ensures
        r@.len() == lines@.len(),
        forall|i: int| 0 <= i < r@.len() ==> #[trigger] r@[i] == line_placement(lines@[i], i, x, row_y, gap, body_pt),
{
    let mut r: Vec<TextPlacement> = Vec::new();
    let mut i: usize = 0;
    while i < lines.len()
        invariant
            x + TEXT_PAD <= i32::MAX,
            row_y + BODY_OFFSET <= i32::MAX,
            lines@.len() <= i32::MAX,
            forall|k: int| 0 <= k < lines@.len() ==> i32::MIN <= #[trigger] (k * gap) <= i32::MAX,
            forall|k: int| 0 <= k < lines@.len() ==> i32::MIN <= #[trigger] (row_y + BODY_OFFSET + k * gap) <= i32::MAX,
            i <= lines@.len(),
            r@.len() == i,
            forall|k: int| 0 <= k < i ==> #[trigger] r@[k] == line_placement(lines@[k], k, x, row_y, gap, body_pt),
        decreases lines.len() - i,
    {
        assert(i32::MIN <= (i as int) * gap <= i32::MAX);
        assert(i32::MIN <= row_y + BODY_OFFSET + (i as int) * gap <= i32::MAX);
        let body_y = row_y + BODY_OFFSET;
        let ii = i as i32;
        let yy: i32 = body_y + ii * gap;
        let size = if lines[i].size_pt == 0 {
            body_pt
        } else {
            lines[i].size_pt
        };
        r.push(TextPlacement { x: x + TEXT_PAD, y: yy, size_pt: size });
        i = i + 1;
    }
    r
}

} // verus!
