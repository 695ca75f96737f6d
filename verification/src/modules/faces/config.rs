//! Face configuration (`faces.conf`): `face = <name>`; `#` starts a comment.

use vstd::prelude::*;
use crate::conf::{first_index_of, line_end, find_char, find_line_end, lemma_first_index_absent, lemma_first_index_after, lemma_line_end_at};
use crate::modules::faces::{FaceId, face_named, face_name, lemma_face_name_round_trip};
use crate::modules::holidays::config::lemma_line_end_bounds;
use crate::storage::linux::{XdgEnv, config_candidates, find_config, first_file};
use crate::text::{chars_of, concat, opt_view, range_lower_eq_str, to_lower, trim, trim_bounds, lemma_trim_plain};

verus! {

/// `line` up to its first `#`.
pub open spec fn before_hash(line: Seq<char>) -> Seq<char> {
    match first_index_of(line, '#') {
        Some(i) => line.take(i),
        None => line,
    }
}

/// The trimmed key and value of a line, comment removed, that holds `=`.
pub open spec fn face_pair(line: Seq<char>) -> Option<(Seq<char>, Seq<char>)> {
    let t = trim(before_hash(line));
    if t.len() == 0 {
        None
    } else {
        match first_index_of(t, '=') {
            Some(i) => Some((trim(t.take(i)), trim(t.skip(i + 1)))),
            None => None,
        }
    }
}

/// The face after one line: a `face` key (any ASCII case) sets it to what
/// its value names, which may be none.
pub open spec fn apply_face_line(face: Option<FaceId>, line: Seq<char>) -> Option<FaceId> {
    match face_pair(line) {
        Some((k, v)) => if to_lower(k) == "face"@ {
            face_named(v)
        } else {
            face
        },
        None => face,
    }
}

/// The face after the lines of `s` from `pos` on.
pub open spec fn face_from(s: Seq<char>, pos: int, face: Option<FaceId>) -> Option<FaceId>
    decreases s.len() + 1 - pos,
{
    if pos < 0 || pos > s.len() {
        face
    } else {
        let e = line_end(s, pos);
        proof {
            lemma_line_end_bounds(s, pos);
        }
        face_from(s, e + 1, apply_face_line(face, s.subrange(pos, e)))
    }
}

fn apply_line(face: Option<FaceId>, v: &Vec<char>, lo: usize, hi: usize) -> (r: Option<FaceId>)
    requires
        lo <= hi <= v@.len(),
    ensures
        r == apply_face_line(face, v@.subrange(lo as int, hi as int)),
{
    let ghost line = v@.subrange(lo as int, hi as int);
    let cut = match find_char(v, lo, hi, '#') {
        Some(i) => lo + i,
        None => hi,
    };
    assert(v@.subrange(lo as int, cut as int) =~= before_hash(line));
    let (a, b) = trim_bounds(v, lo, cut);
    let ghost t = v@.subrange(a as int, b as int);
    if a == b {
        return face;
    }
    match find_char(v, a, b, '=') {
        Some(i) => {
            let (ka, kb) = trim_bounds(v, a, a + i);
            let (va, vb) = trim_bounds(v, a + i + 1, b);
            assert(t.take(i as int) =~= v@.subrange(a as int, (a + i) as int));
            assert(t.skip(i + 1) =~= v@.subrange((a + i + 1) as int, b as int));
            if range_lower_eq_str(v, ka, kb, "face") {
                FaceId::parse_range(v, va, vb)
            } else {
                face
            }
        },
        None => face,
    }
}

/// Reads a face configuration text (from the file at `path`): the face
/// named by the last `face =` line, or an error when there is none or the
/// last one names no face.
pub fn parse_faces_config(path: &str, text: &str) -> (r: Result<FaceId, String>)
    ensures
        match face_from(text@, 0, None) {
            Some(f) => r == Ok::<FaceId, String>(f),
            None => r is Err && r->Err_0@ == "missing face= in "@ + path@,
        },
{
    let v = chars_of(text);
    let mut face: Option<FaceId> = None;
    let mut pos: usize = 0;
    loop
        invariant_except_break
            face_from(v@, 0, None) == face_from(v@, pos as int, face),
        invariant
            pos <= v@.len(),
            v@ == text@,
        ensures
            face_from(v@, 0, None) == face,
        decreases v@.len() - pos,
    {
        let e = find_line_end(&v, pos);
        let ghost before = face;
        face = apply_line(face, &v, pos, e);
        assert(face_from(v@, pos as int, before) == face_from(v@, e + 1, face));
        if e >= v.len() {
            break;
        }
        pos = e + 1;
    }
    match face {
        Some(f) => Ok(f),
        None => Err(concat("missing face= in ", path)),
    }
}

/// The face to draw: the configured one when the configuration was found
/// and read (`parsed`), else the default.
pub fn load_face_id_from(parsed: Option<Result<FaceId, String>>) -> (r: FaceId)
    ensures
        r == match parsed {
            Some(Ok(f)) => f,
            _ => FaceId::RetroRoman,
        },
{
    match parsed {
        Some(Ok(f)) => f,
        _ => FaceId::default(),
    }
}

/// The face configuration file: `faces.conf` in the config directory,
/// else the repository's `config/faces.conf`, else its example; the first
/// candidate that is a file by the flags in `is_file`.
pub fn resolve_faces_config_path(env: &XdgEnv, repo_root: &str, is_file: &Vec<bool>) -> (r: Option<String>)
    ensures
        opt_view(r) == first_file(config_candidates("faces.conf"@, "faces.conf.example"@, *env, repo_root@), is_file@),
{
    find_config("faces.conf", "faces.conf.example", env, repo_root, is_file)
}


/// The configuration line that picks face `f`.
pub open spec fn face_line(f: FaceId) -> Seq<char> {
    seq!['f', 'a', 'c', 'e', '='] + face_name(f) + seq!['\n']
}

/// Law: a configuration holding the line `face=<name>` of a face reads
/// back as that face.
pub proof fn lemma_face_line_round_trip(f: FaceId)
    ensures
        face_from(face_line(f), 0, None) == Some(f),
{
    reveal_strlit("retro-roman");
    reveal_strlit("face");
    let t = face_line(f);
    let n = face_name(f);
    let key = seq!['f', 'a', 'c', 'e'];
    let q = t.len() - 1;
    assert forall|j: int| 0 <= j < q implies t[j] != '\n' && t[j] != '#' by {}
    lemma_line_end_at(t, 0, q);
    let body = t.subrange(0, q);
    assert(body =~= key + seq!['='] + n);
    lemma_first_index_absent(body, '#');
    assert(before_hash(body) == body);
    lemma_trim_plain(body);
    lemma_trim_plain(key);
    lemma_trim_plain(n);
    lemma_first_index_after(key, '=', n);
    assert(body.take(4) =~= key);
    assert(body.skip(5) =~= n);
    assert(to_lower(key) =~= "face"@);
    lemma_face_name_round_trip(f);
    assert(apply_face_line(None, body) == Some(f));
    let len = t.len() as int;
    let e = Seq::<char>::empty();
    assert(line_end(t, len) == len);
    assert(t.subrange(len, len) =~= e);
    assert(trim(e) =~= e);
    assert(apply_face_line(Some(f), t.subrange(len, len)) == Some(f));
    assert(face_from(t, len + 1, Some(f)) == Some(f));
    assert(face_from(t, len, Some(f)) == Some(f));
    assert(q + 1 == len);
    assert(face_from(t, 0, None) == face_from(t, q + 1, apply_face_line(None, body)));
}


} // verus!
