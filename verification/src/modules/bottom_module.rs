//! What every panel module hands to the renderer.

use vstd::prelude::*;
use crate::modules::holidays::tdiv;

verus! {

/// One text line of a panel.
pub struct PanelLine {
    pub text: String,
    /// Font size in points; 0 means the layout's default body size.
    pub size_pt: u8,
}

pub open spec fn line_texts(lines: Seq<PanelLine>) -> Seq<Seq<char>> {
    lines.map_values(|l: PanelLine| l.text@)
}

pub open spec fn strings_view(v: Seq<String>) -> Seq<Seq<char>> {
    v.map_values(|s: String| s@)
}

/// The first `max` texts as body lines (size 0).
pub fn body_lines(texts: &Vec<String>, max: usize) -> (r: Vec<PanelLine>)
    ensures
        r@.len() == if texts@.len() < max { texts@.len() } else { max as nat },
        forall|i: int| 0 <= i < r@.len() ==> (#[trigger] r@[i]).text@ == texts@[i]@ && r@[i].size_pt == 0,
{
    let mut out: Vec<PanelLine> = Vec::new();
    let mut k: usize = 0;
    while k < texts.len() && k < max
        invariant
            k <= texts@.len(),
            k <= max,
            out@.len() == k,
            forall|i: int| 0 <= i < k ==> (#[trigger] out@[i]).text@ == texts@[i]@ && out@[i].size_pt == 0,
        decreases texts@.len() - k,
    {
        out.push(PanelLine { text: texts[k].clone(), size_pt: 0 });
        k = k + 1;
    }
    out
}


/// The side of the decorative icon in a panel of height `h`: `h - 20`,
/// kept between 80 and 112 pixels.
pub open spec fn icon_side(h: int) -> int {
    let s = if h - 20 < 80 { 80 } else { h - 20 };
    if s > 112 { 112 } else { s }
}

/// Where a panel at `(x, y)` of size `w` by `h` draws its decorative icon:
/// against the right edge (6 pixels in), centred vertically. Returns the
/// icon's left, top and side.
pub fn corner_icon(x: i32, y: i32, w: i32, h: i32) -> (r: (i32, i32, u32))
    requires
        h >= i32::MIN + 20,
        h - icon_side(h as int) >= i32::MIN,
        i32::MIN <= x + w - icon_side(h as int) - 6 <= i32::MAX,
        i32::MIN <= x + w <= i32::MAX,
        i32::MIN <= y + tdiv(h - icon_side(h as int), 2) <= i32::MAX,
    ensures
        r.2 == icon_side(h as int),
        r.0 == x + w - icon_side(h as int) - 6,
        r.1 == y + tdiv(h - icon_side(h as int), 2),
{
    let lower: i32 = if h - 20 < 80 {
        80
    } else {
        h - 20
    };
    let side: i32 = if lower > 112 {
        112
    } else {
        lower
    };
    let left = x + w - side - 6;
    let top = y + (h - side) / 2;
    (left, top, side as u32)
}

} // verus!
