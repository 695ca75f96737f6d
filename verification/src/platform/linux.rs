//! The desktop platform's input and drawing rules: keys standing in for the
//! rotary encoder and its push button, and the shapes the SDL canvas is
//! asked to fill.

use vstd::prelude::*;

verus! {

/// The keys the desktop build reads.
#[derive(Clone, Copy, Debug, PartialEq, Eq, Structural)]
pub enum NavKey {
    Left,
    Down,
    Right,
    Up,
    Space,
    Return,
    /// Any other key.
    Other,
}

/// What the keys have done since the encoder and button were last read.
#[derive(Clone, Copy, Debug, PartialEq, Eq, Structural)]
pub struct SdlInput {
    /// Encoder steps: left and down turn back, right and up forward.
    pub rotary_delta: i32,
    /// Space or Return was pressed.
    pub button_down: bool,
}

impl SdlInput {
    /// No steps, no press.
    pub fn new() -> (r: Self)
        ensures
            r == (SdlInput { rotary_delta: 0, button_down: false }),
    {
        SdlInput { rotary_delta: 0, button_down: false }
    }

    /// Takes a key event; releases are ignored.
    pub fn ingest_key(&mut self, key: NavKey, pressed: bool)
        requires
            pressed && (key == NavKey::Left || key == NavKey::Down) ==> old(self).rotary_delta > i32::MIN,
            pressed && (key == NavKey::Right || key == NavKey::Up) ==> old(self).rotary_delta < i32::MAX,
        ensures
            !pressed || key == NavKey::Other ==> *final(self) == *old(self),
            pressed && (key == NavKey::Left || key == NavKey::Down) ==> *final(self) == (SdlInput {
                rotary_delta: (old(self).rotary_delta - 1) as i32,
                ..*old(self)
            }),
            pressed && (key == NavKey::Right || key == NavKey::Up) ==> *final(self) == (SdlInput {
                rotary_delta: (old(self).rotary_delta + 1) as i32,
                ..*old(self)
            }),
            pressed && (key == NavKey::Space || key == NavKey::Return) ==> *final(self) == (SdlInput {
                button_down: true,
                ..*old(self)
            }),
    {
        if !pressed {
            return;
        }
        match key {
            NavKey::Left | NavKey::Down => self.rotary_delta = self.rotary_delta - 1,
            NavKey::Right | NavKey::Up => self.rotary_delta = self.rotary_delta + 1,
            NavKey::Space | NavKey::Return => self.button_down = true,
            NavKey::Other => {},
        }
    }

    /// The steps since the last read; the count starts again from zero.
    pub fn read_rotary_delta(&mut self) -> (d: i32)
        ensures
            d == old(self).rotary_delta,
            *final(self) == (SdlInput { rotary_delta: 0, ..*old(self) }),
    {
        let d = self.rotary_delta;
        self.rotary_delta = 0;
        d
    }

    /// Whether the button was pressed since the last read; the press is
    /// consumed.
    pub fn read_pushbutton(&mut self) -> (b: bool)
        ensures
            b == old(self).button_down,
            *final(self) == (SdlInput { button_down: false, ..*old(self) }),
    {
        let b = self.button_down;
        self.button_down = false;
        b
    }
}

/// The size a rectangle is filled with: at least one pixel each way.
pub fn fill_size(w: i32, h: i32) -> (r: (u32, u32))
    ensures
        r.0 == if w < 1 { 1 } else { w as int },
        r.1 == if h < 1 { 1 } else { h as int },
{
    let fw: i32 = if w < 1 {
        1
    } else {
        w
    };
    let fh: i32 = if h < 1 {
        1
    } else {
        h
    };
    (fw as u32, fh as u32)
}

/// A filled square: left, top and side.
#[derive(Clone, Copy, Debug, PartialEq, Eq, Structural)]
pub struct Square {
    pub x: i32,
    pub y: i32,
    pub side: u32,
}

/// The squares a filled circle is drawn with: one per radius from
/// `radius` down to 0, each centred on `(cx, cy)` with side twice the
/// radius.
pub open spec fn circle_square(cx: int, cy: int, radius: int, k: int) -> Square {
    let r = radius - k;
    Square { x: (cx - r) as i32, y: (cy - r) as i32, side: (2 * r) as u32 }
}

/// The squares that draw a filled circle of `radius` around `(cx, cy)`,
/// largest first.
pub fn circle_squares(cx: i32, cy: i32, radius: i32) -> (r: Vec<Square>)
    requires
        radius <= i32::MAX / 2,
        cx - radius >= i32::MIN,
        cy - radius >= i32::MIN,
    ensures
        r@.len() == if radius < 0 { 0 } else { radius + 1 },
        forall|k: int| 0 <= k < r@.len() ==> #[trigger] r@[k] == circle_square(cx as int, cy as int, radius as int, k),
{
    let mut out: Vec<Square> = Vec::new();
    if radius < 0 {
        return out;
    }
    let mut r = radius;
    loop
        invariant
            0 <= radius <= i32::MAX / 2,
            cx - radius >= i32::MIN,
            cy - radius >= i32::MIN,
            -1 <= r <= radius,
            out@.len() == radius - r,
            forall|k: int| 0 <= k < out@.len() ==> #[trigger] out@[k] == circle_square(cx as int, cy as int, radius as int, k),
        ensures
            out@.len() == radius + 1,
            forall|k: int| 0 <= k < out@.len() ==> #[trigger] out@[k] == circle_square(cx as int, cy as int, radius as int, k),
        decreases r + 1,
    {
        if r < 0 {
            break;
        }
        let d = (r * 2) as u32;
        out.push(Square { x: cx - r, y: cy - r, side: d });
        r = r - 1;
    }
    out
}

} // verus!
