//! The `key = value` line format shared by the configuration files.
//!
//! A file is read line by line; a line is trimmed, skipped when it is empty
//! or starts with `#`, and otherwise split at its first `=`.

use vstd::prelude::*;
use crate::text::{trim, trim_bounds};

verus! {

/// Index of the first `'\n'` at or after `pos`, or the length of `s`.
pub open spec fn line_end(s: Seq<char>, pos: int) -> int
    decreases s.len() - pos,
{
    if pos >= s.len() {
        s.len() as int
    } else if s[pos] == '\n' {
        pos
    } else {
        line_end(s, pos + 1)
    }
}

/// Index of the first `c` in `s`, if any.
pub open spec fn first_index_of(s: Seq<char>, c: char) -> Option<int>
    decreases s.len(),
{
    if s.len() == 0 {
        None
    } else if s[0] == c {
        Some(0)
    } else {
        match first_index_of(s.drop_first(), c) {
            Some(i) => Some(i + 1),
            None => None,
        }
    }
}

/// What a configuration line holds once trimmed.
pub enum LineShape {
    /// Empty, or a `#` comment.
    Blank,
    /// `key = value`: bounds of the trimmed key and of the trimmed value.
    Pair { key_lo: usize, key_hi: usize, value_lo: usize, value_hi: usize },
    /// Any other text.
    Other,
}

pub open spec fn is_blank(t: Seq<char>) -> bool {
    t.len() == 0 || t[0] == '#'
}

/// The trimmed key and value of a non-blank line holding `=`.
pub open spec fn line_pair(line: Seq<char>) -> Option<(Seq<char>, Seq<char>)> {
    let t = trim(line);
    if is_blank(t) {
        None
    } else {
        match first_index_of(t, '=') {
            Some(i) => Some((trim(t.subrange(0, i)), trim(t.subrange(i + 1, t.len() as int)))),
            None => None,
        }
    }
}

/// Where the line starting at `pos` ends (`'\n'` or end of text).
pub fn find_line_end(v: &Vec<char>, pos: usize) -> (r: usize)
    requires
        pos <= v@.len(),
    ensures
        r == line_end(v@, pos as int),
        pos <= r <= v@.len(),
        r < v@.len() ==> v@[r as int] == '\n',
{
    let mut i = pos;
    while i < v.len() && v[i] != '\n'
        invariant
            pos <= i <= v@.len(),
            line_end(v@, pos as int) == line_end(v@, i as int),
        decreases v@.len() - i,
    {
        i = i + 1;
    }
    i
}

/// Index of the first `c` within `v[lo..hi]`, counted from `lo`.
pub fn find_char(v: &Vec<char>, lo: usize, hi: usize, c: char) -> (r: Option<usize>)
    requires
        lo <= hi <= v@.len(),
    ensures
        match r {
            Some(i) => first_index_of(v@.subrange(lo as int, hi as int), c) == Some(i as int) && lo
                + i < hi,
            None => first_index_of(v@.subrange(lo as int, hi as int), c) is None,
        },
{
    let mut i = hi;
    let mut found: Option<usize> = None;
    // Scan backwards so that the last hit kept is the first occurrence.
    while i > lo
        invariant
            lo <= i <= hi <= v@.len(),
            match found {
                Some(k) => first_index_of(v@.subrange(i as int, hi as int), c) == Some(k as int)
                    && i + k < hi,
                None => first_index_of(v@.subrange(i as int, hi as int), c) is None,
            },
        decreases i - lo,
    {
        i = i - 1;
        assert(v@.subrange(i as int, hi as int).drop_first() =~= v@.subrange(i + 1, hi as int));
        if v[i] == c {
            found = Some(0);
        } else {
            found = match found {
                Some(k) => Some(k + 1),
                None => None,
            };
        }
    }
    match found {
        Some(k) => Some(k),
        None => None,
    }
}

/// Splits the line `v[lo..hi]` into blank, key/value pair, or other text.
pub fn shape_of_line(v: &Vec<char>, lo: usize, hi: usize) -> (r: LineShape)
    requires
        lo <= hi <= v@.len(),
    ensures
        ({
            let line = v@.subrange(lo as int, hi as int);
            match r {
                LineShape::Blank => is_blank(trim(line)),
                LineShape::Pair { key_lo, key_hi, value_lo, value_hi } => {
                    &&& key_lo <= key_hi <= v@.len()
                    &&& value_lo <= value_hi <= v@.len()
                    &&& line_pair(line) == Some(
                        (
                            v@.subrange(key_lo as int, key_hi as int),
                            v@.subrange(value_lo as int, value_hi as int),
                        ),
                    )
                },
                LineShape::Other => !is_blank(trim(line)) && line_pair(line) is None,
            }
        }),
{
    let ghost line = v@.subrange(lo as int, hi as int);
    let (a, b) = trim_bounds(v, lo, hi);
    let ghost t = v@.subrange(a as int, b as int);
    if a == b || v[a] == '#' {
        return LineShape::Blank;
    }
    match find_char(v, a, b, '=') {
        Some(i) => {
            let (ka, kb) = trim_bounds(v, a, a + i);
            let (va, vb) = trim_bounds(v, a + i + 1, b);
            assert(t.subrange(0, i as int) =~= v@.subrange(a as int, (a + i) as int));
            assert(t.subrange(i + 1, t.len() as int) =~= v@.subrange((a + i + 1) as int, b as int));
            LineShape::Pair { key_lo: ka, key_hi: kb, value_lo: va, value_hi: vb }
        },
        None => LineShape::Other,
    }
}


/// A character that does not occur is not found.
pub proof fn lemma_first_index_absent(s: Seq<char>, c: char)
    requires
        forall|i: int| 0 <= i < s.len() ==> s[i] != c,
    ensures
        first_index_of(s, c) is None,
    decreases s.len(),
{
    if s.len() > 0 {
        lemma_first_index_absent(s.drop_first(), c);
    }
}

/// In `x`, `c`, `y` with no `c` in `x`, the first `c` follows `x`.
pub proof fn lemma_first_index_after(x: Seq<char>, c: char, y: Seq<char>)
    requires
        forall|i: int| 0 <= i < x.len() ==> x[i] != c,
    ensures
        first_index_of(x + seq![c] + y, c) == Some(x.len() as int),
    decreases x.len(),
{
    let w = x + seq![c] + y;
    if x.len() > 0 {
        assert(w[0] == x[0]);
        assert(w.drop_first() =~= x.drop_first() + seq![c] + y);
        lemma_first_index_after(x.drop_first(), c, y);
    } else {
        assert(w[0] == c);
    }
}


/// The line from `p` ends at the first `'\\n'` from there.
pub proof fn lemma_line_end_at(t: Seq<char>, p: int, q: int)
    requires
        0 <= p <= q < t.len(),
        forall|k: int| p <= k < q ==> t[k] != '\n',
        t[q] == '\n',
    ensures
        line_end(t, p) == q,
    decreases q - p,
{
    if p < q {
        lemma_line_end_at(t, p + 1, q);
    }
}

} // verus!
