//! Face artwork files and their rasterised glyphs.

use vstd::prelude::*;
use crate::text::{join_path, path_join, string_of};

verus! {

/// A rasterised glyph: RGBA pixels, row by row.
pub struct RasterGlyph {
    pub pixels: Vec<u8>,
    pub width: u32,
    pub height: u32,
}

/// Where the bundled copy of face artwork `rel` lies under the repository
/// root.
pub open spec fn bundled_face(rel: Seq<char>, root: Seq<char>) -> Seq<char> {
    join_path(join_path(root, "assets/faces"@), rel)
}

/// The bundled path of face artwork `rel`.
pub fn bundled_face_path(rel: &str, repo_root: &str) -> (r: String)
    ensures
        r@ == bundled_face(rel@, repo_root@),
{
    let dir = path_join(repo_root, "assets/faces");
    path_join(dir.as_str(), rel)
}

/// Face artwork `rel`: the bundled copy when it is a file
/// (`bundled_is_file`), else `rel` as given.
pub fn resolve_face_path(rel: &str, repo_root: &str, bundled_is_file: bool) -> (r: String)
    ensures
        r@ == if bundled_is_file { bundled_face(rel@, repo_root@) } else { rel@ },
{
    if bundled_is_file {
        bundled_face_path(rel, repo_root)
    } else {
        string_of(rel)
    }
}


/// How far an extent of `len` is moved in to centre it in `size`
/// (nothing when it does not fit).
pub open spec fn center_offset(size: nat, len: nat) -> nat {
    if size >= len {
        ((size - len) / 2) as nat
    } else {
        0
    }
}

/// Where row `row` of a `w` by `h` image starts in a centred `size` by
/// `size` RGBA buffer, in bytes.
pub open spec fn row_start(w: nat, h: nat, size: nat, row: nat) -> nat {
    ((center_offset(size, h) + row) * size + center_offset(size, w)) * 4
}

/// The `size` by `size` RGBA buffer after the first `rows` rows of the
/// `w` by `h` image `data` were copied to their centred places: a row is
/// skipped when it falls below the buffer or would run past its end.
pub open spec fn placed_rows(data: Seq<u8>, w: nat, h: nat, size: nat, rows: nat) -> Seq<u8>
    decreases rows,
{
    if rows == 0 {
        Seq::new(size * size * 4, |i: int| 0u8)
    } else {
        let prev = placed_rows(data, w, h, size, (rows - 1) as nat);
        let row = (rows - 1) as nat;
        let start = row_start(w, h, size, row);
        let end = start + w * 4;
        if center_offset(size, h) + row >= size || end > prev.len() {
            prev
        } else {
            prev.take(start as int) + data.subrange((row * w * 4) as int, ((row + 1) * w * 4) as int) + prev.skip(end as int)
        }
    }
}

proof fn lemma_placed_len(data: Seq<u8>, w: nat, h: nat, size: nat, rows: nat)
    requires
        data.len() >= w * h * 4,
        rows <= h,
    ensures
        placed_rows(data, w, h, size, rows).len() == size * size * 4,
    decreases rows,
{
    if rows > 0 {
        lemma_placed_len(data, w, h, size, (rows - 1) as nat);
        let row = (rows - 1) as nat;
        assert((row + 1) * w * 4 <= w * h * 4) by (nonlinear_arith)
            requires
                row + 1 <= h,
        ;
        assert(row * w * 4 <= (row + 1) * w * 4) by (nonlinear_arith);
        assert((row + 1) * w * 4 - row * w * 4 == w * 4) by (nonlinear_arith);
    }
}

/// Places a rendered `w` by `h` RGBA image (`data`, row by row) in the
/// middle of a transparent `size` by `size` buffer.
pub fn center_raster(data: &Vec<u8>, w: u32, h: u32, size: u32) -> (out: Vec<u8>)
    requires
        size * size * 4 <= u32::MAX,
        data@.len() >= w * h * 4,
    ensures
        out@ == placed_rows(data@, w as nat, h as nat, size as nat, h as nat),
{
    let n = (size * size * 4) as usize;
    let mut out: Vec<u8> = Vec::new();
    while out.len() < n
        invariant
            n == size * size * 4,
            out@.len() <= n,
            forall|i: int| 0 <= i < out@.len() ==> out@[i] == 0u8,
        decreases n - out@.len(),
    {
        out.push(0u8);
    }
    assert(out@ =~= placed_rows(data@, w as nat, h as nat, size as nat, 0));
    let dl = data.len();
    let x_off: u64 = (size.saturating_sub(w) / 2) as u64;
    let y_off: u64 = (size.saturating_sub(h) / 2) as u64;
    let mut row: u32 = 0;
    while row < h
        invariant
            size * size * 4 <= u32::MAX,
            data@.len() >= w * h * 4,
            dl == data@.len(),
            n == out@.len(),
            row <= h,
            x_off == center_offset(size as nat, w as nat),
            y_off == center_offset(size as nat, h as nat),
            out@ == placed_rows(data@, w as nat, h as nat, size as nat, row as nat),
        decreases h - row,
    {
        proof {
            lemma_placed_len(data@, w as nat, h as nat, size as nat, row as nat);
        }
        let dst_row: u64 = y_off + row as u64;
        let ghost prev = out@;
        if dst_row < size as u64 {
            assert(dst_row * size <= size * size) by (nonlinear_arith)
                requires
                    dst_row < size,
            ;
            let dst_start: u64 = (dst_row * size as u64 + x_off) * 4;
            assert(dst_start == row_start(w as nat, h as nat, size as nat, row as nat));
            let dst_end: u64 = dst_start + w as u64 * 4;
            if dst_end <= out.len() as u64 {
                assert((row + 1) * w * 4 <= w * h * 4) by (nonlinear_arith)
                    requires
                        row + 1 <= h,
                ;
                assert(row * w * 4 + w * 4 == (row + 1) * w * 4) by (nonlinear_arith);
                assert(row * w <= row * w * 4) by (nonlinear_arith);
                assert(w <= w * 4);
                let src_start: usize = (row as usize) * (w as usize) * 4;
                let len: usize = (w as usize) * 4;
                let base: usize = dst_start as usize;
                let mut j: usize = 0;
                while j < len
                    invariant
                        len == w * 4,
                        dl == data@.len(),
                        n == out@.len(),
                        base == dst_start,
                        base + len <= out@.len(),
                        src_start == row * w * 4,
                        src_start + len <= data@.len(),
                        out@.len() == prev.len(),
                        j <= len,
                        forall|i: int| 0 <= i < base ==> out@[i] == prev[i],
                        forall|i: int| base + len <= i < out@.len() ==> out@[i] == prev[i],
                        forall|i: int| base <= i < base + j ==> #[trigger] out@[i] == data@[src_start + (i - base)],
                    decreases len - j,
                {
                    let v = data[src_start + j];
                    out.set(base + j, v);
                    j = j + 1;
                }
                assert(out@ =~= prev.take(base as int) + data@.subrange(src_start as int, (src_start + len) as int)
                    + prev.skip((base + len) as int));
            }
        }
        row = row + 1;
    }
    out
}


proof fn lemma_rows_kept(data: Seq<u8>, w: nat, h: nat, size: nat, rows: nat)
    requires
        w <= size,
        h <= size,
        data.len() >= w * h * 4,
        rows <= h,
    ensures
        forall|r: nat, c: nat|
            r < rows && c < w * 4 ==> #[trigger] placed_rows(data, w, h, size, rows)[(row_start(w, h, size, r) + c) as int]
                == data[(r * w * 4 + c) as int],
    decreases rows,
{
    if rows > 0 {
        let row = (rows - 1) as nat;
        lemma_rows_kept(data, w, h, size, row);
        lemma_placed_len(data, w, h, size, row);
        let prev = placed_rows(data, w, h, size, row);
        let x_off = center_offset(size, w);
        let y_off = center_offset(size, h);
        let start = row_start(w, h, size, row);
        let end = start + w * 4;
        assert(y_off + row < size);
        assert(x_off + w <= size);
        assert(end <= size * size * 4) by (nonlinear_arith)
            requires
                start == ((y_off + row) * size + x_off) * 4,
                end == start + w * 4,
                y_off + row + 1 <= size,
                x_off + w <= size,
        ;
        assert((row + 1) * w * 4 <= w * h * 4) by (nonlinear_arith)
            requires
                row + 1 <= h,
        ;
        assert((row + 1) * w * 4 == row * w * 4 + w * 4) by (nonlinear_arith);
        let cur = placed_rows(data, w, h, size, rows);
        assert(cur == prev.take(start as int) + data.subrange((row * w * 4) as int, ((row + 1) * w * 4) as int)
            + prev.skip(end as int));
        assert forall|r: nat, c: nat| r < rows && c < w * 4 implies #[trigger] cur[(row_start(w, h, size, r) + c) as int]
            == data[(r * w * 4 + c) as int] by {
            if r < row {
                assert(row_start(w, h, size, r) + c < start) by (nonlinear_arith)
                    requires
                        r < row,
                        c < w * 4,
                        w <= size,
                        row_start(w, h, size, r) == ((y_off + r) * size + x_off) * 4,
                        start == ((y_off + row) * size + x_off) * 4,
                ;
            } else {
                assert(r == row);
            }
        }
    }
}

/// Law: an image no larger than the buffer lands whole and centred: byte
/// `col` of row `row` of the image is at that row's centred place.
pub proof fn lemma_image_lands_centred(data: Seq<u8>, w: nat, h: nat, size: nat, row: nat, col: nat)
    requires
        w <= size,
        h <= size,
        data.len() >= w * h * 4,
        row < h,
        col < w * 4,
    ensures
        placed_rows(data, w, h, size, h)[(row_start(w, h, size, row) + col) as int] == data[(row * w * 4 + col) as int],
{
    lemma_rows_kept(data, w, h, size, h);
}

} // verus!
