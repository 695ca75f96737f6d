//! Scanline geometry for the DVI output: integer square root, filled discs,
//! thick points and run-length encoded image rows.
//!
//! A scanline is described as a list of solid runs (a width in pixels and a
//! colour), left to right.

use vstd::prelude::*;
use crate::text::{decimal, push_char, push_decimal};

verus! {

/// Width of the DVI frame in pixels.
pub const DISPLAY_WIDTH: u32 = 640;

/// Height of the DVI frame in pixels.
pub const DISPLAY_HEIGHT: u32 = 480;

/// Whether `r` is the integer square root of `n`.
pub open spec fn is_isqrt(n: int, r: int) -> bool {
    0 <= r && r * r <= n < (r + 1) * (r + 1)
}

/// `s` is at most the square root of `n`.
pub open spec fn below_root(n: int, s: int) -> bool {
    s >= 0 && s * s <= n
}

/// The integer square root of a non-negative `n`.
pub open spec fn isqrt_of(n: int) -> int {
    choose|h: int| #[trigger] is_isqrt(n, h)
}

/// One Newton step never drops below a lower bound of the root.
proof fn lemma_newton_step_bound(n: int, x: int, s: int)
    requires
        x >= 1,
        s >= 0,
        s * s <= n,
    ensures
        (x + n / x) / 2 >= s,
{
    let q = n / x;
    vstd::arithmetic::div_mod::lemma_fundamental_div_mod(n, x);
    let rem = n % x;
    assert(0 <= rem < x) by {
        vstd::arithmetic::div_mod::lemma_mod_bound(n, x);
    }
    assert(n == x * q + rem);
    if x + q < 2 * s {
        assert(n < x * (q + 1)) by (nonlinear_arith)
            requires
                n == x * q + rem,
                rem < x,
        ;
        assert(x * (q + 1) <= x * (2 * s - x)) by (nonlinear_arith)
            requires
                x + q < 2 * s,
                x >= 1,
        ;
        assert(x * (2 * s - x) <= s * s) by (nonlinear_arith);
    }
}

/// The Newton step stays within `n + 1`.
proof fn lemma_newton_step_small(n: int, x: int)
    requires
        1 <= x <= n,
    ensures
        x + n / x <= n + 1,
        n / x >= 1,
{
    let q = n / x;
    vstd::arithmetic::div_mod::lemma_fundamental_div_mod(n, x);
    vstd::arithmetic::div_mod::lemma_mod_bound(n, x);
    assert(q >= 1) by (nonlinear_arith)
        requires
            n == x * q + n % x,
            n % x < x,
            x <= n,
            x >= 1,
    ;
    assert(x + q <= x * q + 1) by (nonlinear_arith)
        requires
            x >= 1,
            q >= 1,
    ;
    assert(x * q <= n);
}

/// When `x` exceeds the root, the Newton step goes down.
proof fn lemma_newton_step_descends(n: int, x: int)
    requires
        x >= 1,
        x * x > n,
        n >= 0,
    ensures
        (x + n / x) / 2 < x,
{
    vstd::arithmetic::div_mod::lemma_fundamental_div_mod(n, x);
    vstd::arithmetic::div_mod::lemma_mod_bound(n, x);
    let q = n / x;
    assert(q < x) by (nonlinear_arith)
        requires
            n == x * q + n % x,
            0 <= n % x,
            x * x > n,
            x >= 1,
    ;
}

/// Integer square root by Newton's method; 0 for `n <= 0`.
pub fn isqrt(n: i32) -> (r: i32)
    requires
        n < i32::MAX,
    ensures
        n <= 0 ==> r == 0,
        n > 0 ==> is_isqrt(n as int, r as int),
{
    if n <= 0 {
        return 0;
    }
    let mut x = n;
    let mut y = (x + 1) / 2;
    proof {
        assert(n / n == 1) by {
            vstd::arithmetic::div_mod::lemma_div_by_self(n as int);
        }
        assert forall|s: int| #[trigger] below_root(n as int, s) implies x >= s by {
            if s > n {
                assert(s * s > n) by (nonlinear_arith)
                    requires
                        s > n,
                        n >= 1,
                ;
            }
        }
    }
    while y < x
        invariant
            1 <= x <= n < i32::MAX,
            y == (x + n / x) / 2,
            forall|s: int| #[trigger] below_root(n as int, s) ==> x >= s,
        decreases x,
    {
        proof {
            assert forall|s: int| #[trigger] below_root(n as int, s) implies y >= s by {
                lemma_newton_step_bound(n as int, x as int, s);
            }
        }
        x = y;
        proof {
            assert(x >= 1) by {
                assert(below_root(n as int, 1));
            }
            lemma_newton_step_small(n as int, x as int);
        }
        y = (x + n / x) / 2;
    }
    proof {
        if x * x > n {
            lemma_newton_step_descends(n as int, x as int);
        }
        assert((x + 1) * (x + 1) > n) by {
            if (x + 1) * (x + 1) <= n {
                assert(below_root(n as int, x + 1));
            }
        }
    }
    x
}


/// A 24-bit colour.
#[derive(Clone, Copy, Debug, PartialEq, Eq, Structural)]
pub struct Rgb {
    pub r: u8,
    pub g: u8,
    pub b: u8,
}

/// A horizontal run of `width` pixels of one colour.
#[derive(Clone, Copy, Debug, PartialEq, Eq, Structural)]
pub struct Run {
    pub width: u32,
    pub color: Rgb,
}

/// The colour `0xRRGGBB` split into its channels.
pub fn color24(c: u32) -> (r: Rgb)
    ensures
        r.r == (c / 65536) % 256,
        r.g == (c / 256) % 256,
        r.b == c % 256,
{
    let red = ((c >> 16) & 0xFF) as u8;
    let green = ((c >> 8) & 0xFF) as u8;
    let blue = (c & 0xFF) as u8;
    assert(((c >> 16) & 0xFF) == (c / 65536) % 256) by (bit_vector);
    assert(((c >> 8) & 0xFF) == (c / 256) % 256) by (bit_vector);
    assert((c & 0xFF) == c % 256) by (bit_vector);
    Rgb { r: red, g: green, b: blue }
}

/// The pixels that a list of runs paints, left to right.
pub open spec fn expand(runs: Seq<Run>) -> Seq<Rgb>
    decreases runs.len(),
{
    if runs.len() == 0 {
        seq![]
    } else {
        expand(runs.drop_last()) + Seq::new(runs.last().width as nat, |i: int| runs.last().color)
    }
}

/// Total width of a list of runs.
pub open spec fn runs_width(runs: Seq<Run>) -> int
    decreases runs.len(),
{
    if runs.len() == 0 {
        0
    } else {
        runs_width(runs.drop_last()) + runs.last().width
    }
}

/// Expanding runs gives as many pixels as the runs are wide.
pub proof fn lemma_expand_len(runs: Seq<Run>)
    ensures
        expand(runs).len() == runs_width(runs),
    decreases runs.len(),
{
    if runs.len() > 0 {
        lemma_expand_len(runs.drop_last());
    }
}

/// Expanding two lists of runs one after the other expands their concatenation.
pub proof fn lemma_expand_append(a: Seq<Run>, b: Seq<Run>)
    ensures
        expand(a + b) == expand(a) + expand(b),
    decreases b.len(),
{
    if b.len() == 0 {
        assert(a + b =~= a);
        assert(expand(a) + expand(b) =~= expand(a));
    } else {
        assert((a + b).drop_last() =~= a + b.drop_last());
        lemma_expand_append(a, b.drop_last());
        assert(expand(a + b) =~= expand(a) + expand(b));
    }
}

/// One run expands to its width in pixels of its colour.
pub proof fn lemma_expand_single(r: Run)
    ensures
        expand(seq![r]) == Seq::new(r.width as nat, |i: int| r.color),
{
    let s = seq![r];
    assert(s.drop_last() =~= Seq::<Run>::empty());
    assert(s.last() == r);
    assert(expand(Seq::<Run>::empty()) =~= Seq::<Rgb>::empty());
    assert(expand(s) == expand(s.drop_last()) + Seq::new(r.width as nat, |i: int| r.color));
    assert(expand(s) =~= Seq::new(r.width as nat, |i: int| r.color));
}

/// `[run]` when it has pixels, nothing otherwise.
pub open spec fn run_if(width: int, color: Rgb) -> Seq<Run> {
    if width > 0 {
        seq![Run { width: width as u32, color }]
    } else {
        seq![]
    }
}

pub open spec fn clamp_zero(v: int) -> int {
    if v < 0 {
        0
    } else {
        v
    }
}

/// The runs of a row that shows `fill` over `[x1, x2)` on `bg` across the
/// display width.
pub open spec fn band_runs(x1: int, x2: int, mid: int, fill: Rgb, bg: Rgb) -> Seq<Run> {
    run_if(x1, bg) + run_if(mid, fill) + (if x2 < DISPLAY_WIDTH {
        run_if(DISPLAY_WIDTH - x2, bg)
    } else {
        seq![]
    })
}

/// The runs of scanline `y` through a disc of `radius` around `(cx, cy)`.
pub open spec fn disc_runs(y: int, cx: int, cy: int, radius: int, fill: Rgb, bg: Rgb) -> Seq<Run> {
    let dy = y - cy;
    if radius <= 0 || dy * dy > radius * radius {
        seq![Run { width: DISPLAY_WIDTH, color: bg }]
    } else {
        let half = isqrt_of(radius * radius - dy * dy);
        let x1 = clamp_zero(cx - half);
        let x2 = clamp_zero(cx + half);
        band_runs(x1, x2, clamp_zero(x2 - x1), fill, bg)
    }
}

proof fn lemma_isqrt_unique(n: int, a: int, b: int)
    requires
        is_isqrt(n, a),
        is_isqrt(n, b),
    ensures
        a == b,
{
    if a < b {
        assert((a + 1) * (a + 1) <= b * b) by (nonlinear_arith)
            requires
                0 <= a < b,
        ;
    } else if b < a {
        assert((b + 1) * (b + 1) <= a * a) by (nonlinear_arith)
            requires
                0 <= b < a,
        ;
    }
}

/// Appends a solid run.
fn solid(runs: &mut Vec<Run>, width: u32, color: Rgb)
    ensures
        final(runs)@ == old(runs)@.push(Run { width, color }),
{
    runs.push(Run { width, color });
}

/// Appends the runs of scanline `y` through a filled disc of `radius`
/// around `(cx, cy)`: `fill` over the chord, `bg` elsewhere across the
/// display width.
pub fn fill_scanline_disc(
    runs: &mut Vec<Run>,
    y: i32,
    cx: i32,
    cy: i32,
    radius: i32,
    fill: Rgb,
    bg: Rgb,
)
    requires
        radius > 0 ==> radius <= 46340 && -46340 <= y - cy <= 46340,
        radius > 0 && (y - cy) * (y - cy) <= radius * radius ==> i32::MIN <= cx - isqrt_of(
            radius * radius - (y - cy) * (y - cy),
        ) && cx + isqrt_of(radius * radius - (y - cy) * (y - cy)) <= i32::MAX,
    ensures
        final(runs)@ == old(runs)@ + disc_runs(y as int, cx as int, cy as int, radius as int, fill, bg),
{
    if radius <= 0 {
        solid(runs, DISPLAY_WIDTH, bg);
        return;
    }
    let dy = y - cy;
    assert(0 <= radius * radius <= 46340 * 46340) by (nonlinear_arith)
        requires
            0 < radius <= 46340,
    ;
    assert(0 <= dy * dy <= 46340 * 46340) by (nonlinear_arith)
        requires
            -46340 <= dy <= 46340,
    ;
    let r2 = radius * radius;
    let d2 = dy * dy;
    if d2 > r2 {
        solid(runs, DISPLAY_WIDTH, bg);
        return;
    }
    let half = isqrt(r2 - d2);
    proof {
        let n = r2 - d2;
        let chosen = isqrt_of(n as int);
        assert(dy * dy == (y - cy) * (y - cy));
        if n > 0 {
            assert(is_isqrt(n as int, half as int));
            lemma_isqrt_unique(n as int, chosen, half as int);
        } else {
            assert(is_isqrt(0, 0));
            lemma_isqrt_unique(0, chosen, 0);
        }
        assert(half <= radius) by (nonlinear_arith)
            requires
                half * half <= r2,
                r2 == radius * radius,
                radius > 0,
                half >= 0,
        ;
    }
    let x1: u32 = if cx - half > 0 {
        (cx - half) as u32
    } else {
        0
    };
    let x2: u32 = if cx + half > 0 {
        (cx + half) as u32
    } else {
        0
    };
    let ghost before = runs@;
    if x1 > 0 {
        solid(runs, x1, bg);
    }
    let mid = x2.saturating_sub(x1);
    if mid > 0 {
        solid(runs, mid, fill);
    }
    if x2 < DISPLAY_WIDTH {
        solid(runs, DISPLAY_WIDTH - x2, bg);
    }
    assert(runs@ =~= before + band_runs(x1 as int, x2 as int, mid as int, fill, bg));
}

/// The runs of one row of a point `thickness` pixels either side of `cx`.
pub open spec fn thick_point_runs(cx: int, color: Rgb, thickness: int, bg: Rgb) -> Seq<Run> {
    let x1 = clamp_zero(cx - thickness);
    let x2 = clamp_zero(cx + thickness);
    let mid = if clamp_zero(x2 - x1) < 1 {
        1
    } else {
        clamp_zero(x2 - x1)
    };
    band_runs(x1, x2, mid, color, bg)
}

/// Appends one row of a thick point centred on `cx` (at least one pixel wide).
pub fn paint_thick_point(runs: &mut Vec<Run>, cx: i32, color: Rgb, thickness: i32, bg: Rgb)
    requires
        i32::MIN <= cx - thickness <= i32::MAX,
        i32::MIN <= cx + thickness <= i32::MAX,
    ensures
        final(runs)@ == old(runs)@ + thick_point_runs(cx as int, color, thickness as int, bg),
{
    let half = thickness;
    let x1: u32 = if cx - half > 0 {
        (cx - half) as u32
    } else {
        0
    };
    let x2: u32 = if cx + half > 0 {
        (cx + half) as u32
    } else {
        0
    };
    let ghost before = runs@;
    if x1 > 0 {
        solid(runs, x1, bg);
    }
    let d = x2.saturating_sub(x1);
    let mid = if d < 1 {
        1
    } else {
        d
    };
    solid(runs, mid, color);
    if x2 < DISPLAY_WIDTH {
        solid(runs, DISPLAY_WIDTH - x2, bg);
    }
    assert(runs@ =~= before + band_runs(x1 as int, x2 as int, mid as int, color, bg));
}

/// Law: a disc row that lies within the display paints exactly the display
/// width, `fill` from `x1` up to `x2` and `bg` elsewhere.
pub proof fn lemma_band_pixels(x1: int, x2: int, fill: Rgb, bg: Rgb)
    requires
        0 <= x1 <= x2 <= DISPLAY_WIDTH,
    ensures
        expand(band_runs(x1, x2, x2 - x1, fill, bg)) == Seq::new(
            DISPLAY_WIDTH as nat,
            |x: int| if x1 <= x < x2 { fill } else { bg },
        ),
{
    let a = run_if(x1, bg);
    let b = run_if(x2 - x1, fill);
    let c = if x2 < DISPLAY_WIDTH {
        run_if(DISPLAY_WIDTH - x2, bg)
    } else {
        seq![]
    };
    lemma_expand_append(a + b, c);
    lemma_expand_append(a, b);
    if x1 > 0 {
        lemma_expand_single(Run { width: x1 as u32, color: bg });
    }
    if x2 - x1 > 0 {
        lemma_expand_single(Run { width: (x2 - x1) as u32, color: fill });
    }
    if x2 < DISPLAY_WIDTH {
        lemma_expand_single(Run { width: (DISPLAY_WIDTH - x2) as u32, color: bg });
    }
    assert(expand(band_runs(x1, x2, x2 - x1, fill, bg)) =~= Seq::new(
        DISPLAY_WIDTH as nat,
        |x: int| if x1 <= x < x2 { fill } else { bg },
    ));
}


/// The pixels of an RGB row: three bytes per pixel, `width` pixels.
pub open spec fn row_pixels(row: Seq<u8>, width: nat) -> Seq<Rgb> {
    Seq::new(width, |x: int| Rgb { r: row[3 * x], g: row[3 * x + 1], b: row[3 * x + 2] })
}

/// `runs` is the run-length encoding of `pixels`: they paint exactly those
/// pixels, no run is empty and no two neighbouring runs share a colour.
pub open spec fn is_rle(runs: Seq<Run>, pixels: Seq<Rgb>) -> bool {
    &&& expand(runs) == pixels
    &&& forall|i: int| 0 <= i < runs.len() ==> #[trigger] runs[i].width > 0
    &&& forall|i: int| 0 < i < runs.len() ==> #[trigger] runs[i - 1].color != runs[i].color
}

/// What pads a row of `width` pixels out to the display width.
pub open spec fn padding(width: int, bg: Rgb) -> Seq<Run> {
    if width < DISPLAY_WIDTH {
        seq![Run { width: (DISPLAY_WIDTH - width) as u32, color: bg }]
    } else {
        seq![]
    }
}

/// Appends the runs of one image row of `width` RGB pixels, run-length
/// encoded, padded with `bg` up to the display width. A row shorter than
/// `width` pixels shows as a `bg` line.
pub fn emit_scanline_rgb(runs: &mut Vec<Run>, row: &[u8], width: u32, bg: Rgb)
    requires
        3 * width <= u32::MAX,
    ensures
        row@.len() < 3 * width ==> final(runs)@ == old(runs)@.push(Run { width: DISPLAY_WIDTH, color: bg }),
        row@.len() >= 3 * width ==> exists|rle: Seq<Run>|
            is_rle(rle, row_pixels(row@, width as nat))
            && #[trigger] (old(runs)@ + rle + padding(width as int, bg)) == final(runs)@,
{
    if row.len() < (width * 3) as usize {
        solid(runs, DISPLAY_WIDTH, bg);
        return;
    }
    let ghost px = row_pixels(row@, width as nat);
    let ghost start = runs@;
    let ghost mut rle: Seq<Run> = seq![];
    let mut x: u32 = 0;
    assert(px.take(0) =~= Seq::<Rgb>::empty());
    assert(expand(rle) =~= Seq::<Rgb>::empty());
    while x < width
        invariant
            3 * width <= u32::MAX,
            row@.len() >= 3 * width,
            px == row_pixels(row@, width as nat),
            x <= width,
            runs@ == start + rle,
            is_rle(rle, px.take(x as int)),
            x > 0 && x < width ==> rle.last().color != px[x as int],
            x == 0 ==> rle.len() == 0,
        decreases width - x,
    {
        let i = (x * 3) as usize;
        let color = Rgb { r: row[i], g: row[i + 1], b: row[i + 2] };
        assert(color == px[x as int]);
        let mut run: u32 = 1;
        while x + run < width
            invariant
                3 * width <= u32::MAX,
                row@.len() >= 3 * width,
                px == row_pixels(row@, width as nat),
                x < width,
                i == 3 * x,
                1 <= run,
                x + run <= width,
                color == px[x as int],
                forall|k: int| x <= k < x + run ==> #[trigger] px[k] == color,
            ensures
                x + run <= width,
                1 <= run,
                forall|k: int| x <= k < x + run ==> #[trigger] px[k] == color,
                x + run < width ==> px[x + run] != color,
            decreases width - x - run,
        {
            let j = ((x + run) * 3) as usize;
            if row[j] != row[i] || row[j + 1] != row[i + 1] || row[j + 2] != row[i + 2] {
                break;
            }
            assert(px[x + run] == color);
            run += 1;
        }
        let ghost seg = Run { width: run, color };
        let ghost prev = rle;
        proof {
            lemma_expand_append(rle, seq![seg]);
            lemma_expand_single(seg);
            assert(px.take(x + run) =~= px.take(x as int) + Seq::new(run as nat, |k: int| color));
        }
        solid(runs, run, color);
        proof {
            rle = rle.push(seg);
            assert(prev + seq![seg] =~= rle);
            assert(runs@ =~= start + rle);
            assert(expand(rle) == px.take(x + run));
            assert forall|k: int| 0 < k < rle.len() implies #[trigger] rle[k - 1].color != rle[k].color by {
                if k < rle.len() - 1 {
                    assert(rle[k - 1] == prev[k - 1] && rle[k] == prev[k]);
                } else {
                    assert(rle[k - 1] == prev.last());
                }
            }
            assert forall|k: int| 0 <= k < rle.len() implies #[trigger] rle[k].width > 0 by {
                if k < rle.len() - 1 {
                    assert(rle[k] == prev[k]);
                }
            }
        }
        x += run;
    }
    assert(px.take(width as int) =~= px);
    if x < DISPLAY_WIDTH {
        solid(runs, DISPLAY_WIDTH - x, bg);
    }
    assert(runs@ =~= start + rle + padding(width as int, bg));
}

/// The display-list state of the DVI output: the background colour.
pub struct DviGfx {
    pub bg: u32,
}

impl DviGfx {
    /// A display on a black background.
    pub fn new() -> (g: Self)
        ensures
            g.bg == 0,
    {
        DviGfx { bg: 0x000000 }
    }

    /// Clears to `color`: it becomes the background.
    pub fn clear(&mut self, color: u32)
        ensures
            final(self).bg == color,
    {
        self.bg = color;
    }

    /// Fills a rectangle; the scanline output keeps one background colour,
    /// so the rectangle's colour becomes the background.
    pub fn fill_rect(&mut self, x: i32, y: i32, w: i32, h: i32, color: u32)
        ensures
            final(self).bg == color,
    {
        self.bg = color;
    }
}


/// A number written with at least two digits (`{:02}`).
pub open spec fn two_digits(n: u32) -> Seq<char> {
    if n < 10 {
        seq!['0'] + decimal(n as nat)
    } else {
        decimal(n as nat)
    }
}

fn push_two_digits(s: &mut String, n: u32)
    ensures
        final(s)@ == old(s)@ + two_digits(n),
{
    if n < 10 {
        push_char(s, '0');
    }
    push_decimal(s, n as u64);
    assert(final(s)@ =~= old(s)@ + two_digits(n));
}

/// The status line under the clock: `HH:MM:SS`.
pub fn clock_time_text(hour: u32, minute: u32, second: u32) -> (r: String)
    ensures
        r@ == two_digits(hour) + seq![':'] + two_digits(minute) + seq![':'] + two_digits(second),
{
    let mut s = String::new();
    push_two_digits(&mut s, hour);
    push_char(&mut s, ':');
    push_two_digits(&mut s, minute);
    push_char(&mut s, ':');
    push_two_digits(&mut s, second);
    assert(s@ =~= two_digits(hour) + seq![':'] + two_digits(minute) + seq![':'] + two_digits(second));
    s
}

/// A text strip's width rounded up to an even number of pixels, as the
/// 1-bit palette runs need.
pub fn even_width(w: u32) -> (r: u32)
    requires
        w < u32::MAX,
    ensures
        r == w + w % 2,
        r % 2 == 0,
{
    w + w % 2
}


proof fn lemma_rle_last(a: Seq<Run>, px: Seq<Rgb>)
    requires
        is_rle(a, px),
        a.len() > 0,
    ensures
        0 < a.last().width <= px.len(),
        forall|i: int| px.len() - a.last().width <= i < px.len() ==> #[trigger] px[i] == a.last().color,
        is_rle(a.drop_last(), px.take(px.len() - a.last().width)),
        a.len() == 1 ==> a.last().width == px.len(),
        a.len() > 1 ==> px[px.len() - a.last().width - 1] != a.last().color,
{
    let p = a.drop_last();
    let e = expand(p);
    let w = a.last().width as int;
    let c = a.last().color;
    assert(a[a.len() - 1].width > 0);
    assert(px == e + Seq::new(w as nat, |i: int| c));
    lemma_expand_len(p);
    assert(px.take(px.len() - w) =~= e);
    assert forall|i: int| 0 <= i < p.len() implies #[trigger] p[i].width > 0 by {
        assert(p[i] == a[i]);
    }
    assert forall|i: int| 0 < i < p.len() implies #[trigger] p[i - 1].color != p[i].color by {
        assert(p[i] == a[i] && p[i - 1] == a[i - 1]);
    }
    if a.len() == 1 {
        assert(p =~= Seq::<Run>::empty());
        assert(e =~= Seq::<Rgb>::empty());
    } else {
        let q = p.drop_last();
        assert(p.last() == a[a.len() - 2]);
        assert(p[p.len() - 1].width > 0);
        assert(e == expand(q) + Seq::new(p.last().width as nat, |i: int| p.last().color));
        assert(e.last() == p.last().color);
        assert(px[px.len() - w - 1] == e[e.len() - 1]);
        assert(a[a.len() - 2].color != a[a.len() - 1].color);
    }
}

/// Law: a row of pixels has one run-length encoding, so the runs that
/// `emit_scanline_rgb` appends for a row are determined by the row.
pub proof fn lemma_rle_unique(a: Seq<Run>, b: Seq<Run>, px: Seq<Rgb>)
    requires
        is_rle(a, px),
        is_rle(b, px),
    ensures
        a == b,
    decreases px.len(),
{
    if a.len() == 0 || b.len() == 0 {
        if a.len() > 0 {
            lemma_rle_last(a, px);
            assert(expand(b) =~= Seq::<Rgb>::empty());
        } else if b.len() > 0 {
            lemma_rle_last(b, px);
            assert(expand(a) =~= Seq::<Rgb>::empty());
        }
        assert(a =~= b);
    } else {
        lemma_rle_last(a, px);
        lemma_rle_last(b, px);
        let n = px.len() as int;
        let wa = a.last().width as int;
        let wb = b.last().width as int;
        assert(a.last().color == px[n - 1]);
        assert(b.last().color == px[n - 1]);
        if wa < wb {
            assert(px[n - wa - 1] == b.last().color);
            assert(a.len() > 1);
        } else if wb < wa {
            assert(px[n - wb - 1] == a.last().color);
            assert(b.len() > 1);
        }
        assert(wa == wb);
        assert(a.last() == b.last());
        lemma_rle_unique(a.drop_last(), b.drop_last(), px.take(n - wa));
        assert(a =~= a.drop_last().push(a.last()));
        assert(b =~= b.drop_last().push(b.last()));
    }
}


/// What scanline `y` of a clock hand from `(cx, cy)` to `(x2, y2)`,
/// `thickness` pixels either side, shows.
#[derive(Clone, Copy, Debug, PartialEq, Eq, Structural)]
pub enum HandRow {
    /// The row lies outside the hand's vertical extent.
    Skip,
    /// A thick point at the pivot's column.
    AtPivot,
    /// A thick point on the hand, where the line crosses the row (the
    /// crossing is computed by the caller).
    Crossing,
}

pub open spec fn min_int(a: int, b: int) -> int {
    if a <= b { a } else { b }
}

pub open spec fn max_int(a: int, b: int) -> int {
    if a >= b { a } else { b }
}

pub open spec fn abs_int(a: int) -> int {
    if a < 0 { -a } else { a }
}

/// The kind of row `y` of a hand: skipped outside its extent; at the pivot
/// where both ends are within `thickness` rows or the hand is level;
/// otherwise on the crossing.
pub open spec fn hand_row_of(y: int, cy: int, y2: int, thickness: int) -> HandRow {
    if y < min_int(cy, y2) - thickness || y > max_int(cy, y2) + thickness {
        HandRow::Skip
    } else if abs_int(y - cy) <= thickness && abs_int(y - y2) <= thickness {
        HandRow::AtPivot
    } else if y2 == cy {
        HandRow::AtPivot
    } else {
        HandRow::Crossing
    }
}

/// Classifies row `y` of a hand.
pub fn hand_row(y: i32, cy: i32, y2: i32, thickness: i32) -> (r: HandRow)
    requires
        i32::MIN <= min_int(cy as int, y2 as int) - thickness <= i32::MAX,
        i32::MIN <= max_int(cy as int, y2 as int) + thickness <= i32::MAX,
        hand_row_of(y as int, cy as int, y2 as int, thickness as int) != HandRow::Skip ==> i32::MIN < y - cy
            <= i32::MAX,
        hand_row_of(y as int, cy as int, y2 as int, thickness as int) != HandRow::Skip && abs_int(y - cy)
            <= thickness ==> i32::MIN < y - y2 <= i32::MAX,
    ensures
        r == hand_row_of(y as int, cy as int, y2 as int, thickness as int),
{
    let lo = if cy <= y2 { cy } else { y2 };
    let hi = if cy >= y2 { cy } else { y2 };
    if y < lo - thickness || y > hi + thickness {
        return HandRow::Skip;
    }
    let dy = y - cy;
    let dc = if dy < 0 {
        -dy
    } else {
        dy
    };
    if dc <= thickness {
        let dy2 = y - y2;
        let d2 = if dy2 < 0 {
            -dy2
        } else {
            dy2
        };
        if d2 <= thickness {
            return HandRow::AtPivot;
        }
    }
    if y2 == cy {
        return HandRow::AtPivot;
    }
    HandRow::Crossing
}

} // verus!
