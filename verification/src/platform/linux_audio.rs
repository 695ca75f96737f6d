//! Sound on the Linux build: the chime sounds and where media files are
//! looked for.
//!
//! Playing the sounds is the mixer's business; this module names the files
//! and lists, in order, the places a media file may be. The caller says
//! which of them exist.

use vstd::prelude::*;
use crate::text::{join_path, opt_view, path_join, string_of, views};
use crate::storage::linux::{first_existing, first_file};

verus! {

/// Mixer channel of the chimes and one-shot sounds.
pub const CHIME_CHANNEL: i32 = 0;

/// Mixer channel of the looping alarm sound.
pub const ALARM_CHANNEL: i32 = 1;

/// The chime sounds.
#[derive(Clone, Copy, Debug, PartialEq, Eq, Hash, Structural)]
pub enum ChimeKind {
    Tick,
    Tock,
    Quarter,
    Half,
    Hour,
}

pub open spec fn chime_file(k: ChimeKind) -> Seq<char> {
    match k {
        ChimeKind::Tick => "sounds/tick.wav"@,
        ChimeKind::Tock => "sounds/tock.wav"@,
        ChimeKind::Quarter => "sounds/quarter.wav"@,
        ChimeKind::Half => "sounds/half.wav"@,
        ChimeKind::Hour => "sounds/bell.wav"@,
    }
}

impl ChimeKind {
    /// The sound file of the chime.
    pub fn default_path(self) -> (r: &'static str)
        ensures
            r@ == chime_file(self),
    {
        match self {
            ChimeKind::Tick => "sounds/tick.wav",
            ChimeKind::Tock => "sounds/tock.wav",
            ChimeKind::Quarter => "sounds/quarter.wav",
            ChimeKind::Half => "sounds/half.wav",
            ChimeKind::Hour => "sounds/bell.wav",
        }
    }
}

/// The last component of path `p`, as `std::path::Path::file_name` gives
/// it.
pub uninterp spec fn path_file_name(p: Seq<char>) -> Option<Seq<char>>;

/// `std::path::Path::file_name` on `p`, as text: the final component of the
/// path, `None` when the path ends in `..` or has no component. The
/// contract says only that the result is a function of `p`, named
/// `path_file_name`; how the path is split into components is not stated.
#[verifier::external_body]
fn file_name_of(p: &str) -> (r: Option<String>)
    ensures
        opt_view(r) == path_file_name(p@),
{
    match std::path::Path::new(p).file_name() {
        Some(n) => Some(n.to_string_lossy().into_owned()),
        None => None,
    }
}

pub open spec fn has_char(s: Seq<char>, c: char) -> bool {
    exists|i: int| 0 <= i < s.len() && s[i] == c
}

/// Each candidate, then the same path under the repository root.
pub open spec fn with_root(c: Seq<Seq<char>>, root: Seq<char>) -> Seq<Seq<char>>
    decreases c.len(),
{
    if c.len() == 0 {
        seq![]
    } else {
        with_root(c.drop_last(), root) + seq![c.last(), join_path(root, c.last())]
    }
}

/// The places media file `name` may be, in the order they are tried, given
/// its file name `file_name`: the path itself when absolute; then, for a
/// bare name, `sounds/<name>` and `videos/<name>`; then the name itself,
/// and its file name under `sounds/` and `videos/` — each of these as given
/// and under the repository root. An empty name has none.
pub open spec fn media_candidates(name: Seq<char>, file_name: Option<Seq<char>>, root: Seq<char>) -> Seq<Seq<char>> {
    let base = match file_name {
        Some(f) => f,
        None => name,
    };
    let core = seq![name, join_path("sounds"@, base), join_path("videos"@, base)];
    let listed = if !has_char(name, '/') && !has_char(name, '\\') {
        seq![join_path("sounds"@, name), join_path("videos"@, name)] + core
    } else {
        core
    };
    if name.len() == 0 {
        seq![]
    } else if name[0] == '/' {
        seq![name] + with_root(listed, root)
    } else {
        with_root(listed, root)
    }
}

fn contains_char(s: &str, c: char) -> (r: bool)
    ensures
        r == has_char(s@, c),
{
    let n = s.unicode_len();
    let mut i: usize = 0;
    while i < n
        invariant
            n == s@.len(),
            i <= n,
            forall|k: int| 0 <= k < i ==> s@[k] != c,
        decreases n - i,
    {
        if s.get_char(i) == c {
            return true;
        }
        i = i + 1;
    }
    false
}

/// The candidates of media file `name` under `repo_root`, given its file
/// name `file_name` (as [`file_name_of`] reports it).
pub fn media_candidates_for(name: &str, file_name: Option<String>, repo_root: &str) -> (r: Vec<String>)
    ensures
        views(r@) == media_candidates(name@, opt_view(file_name), repo_root@),
{
    let mut r: Vec<String> = Vec::new();
    let n = name.unicode_len();
    if n == 0 {
        assert(views(r@) =~= media_candidates(name@, opt_view(file_name), repo_root@));
        return r;
    }
    let base = match file_name {
        Some(f) => f,
        None => string_of(name),
    };
    let mut listed: Vec<String> = Vec::new();
    if !contains_char(name, '/') && !contains_char(name, '\\') {
        listed.push(path_join("sounds", name));
        listed.push(path_join("videos", name));
    }
    listed.push(string_of(name));
    listed.push(path_join("sounds", base.as_str()));
    listed.push(path_join("videos", base.as_str()));
    let ghost lv = views(listed@);
    proof {
        let bv = base@;
        let core = seq![name@, join_path("sounds"@, bv), join_path("videos"@, bv)];
        if !has_char(name@, '/') && !has_char(name@, '\\') {
            assert(lv =~= seq![join_path("sounds"@, name@), join_path("videos"@, name@)] + core);
        } else {
            assert(lv =~= core);
        }
    }
    if name.get_char(0) == '/' {
        r.push(string_of(name));
    }
    let ghost start = views(r@);
    let mut i: usize = 0;
    while i < listed.len()
        invariant
            lv == views(listed@),
            i <= listed@.len(),
            views(r@) == start + with_root(lv.take(i as int), repo_root@),
        decreases listed.len() - i,
    {
        assert(lv.take(i + 1).drop_last() =~= lv.take(i as int));
        let c = listed[i].clone();
        let m = path_join(repo_root, c.as_str());
        let ghost before = views(r@);
        r.push(c);
        r.push(m);
        assert(views(r@) =~= before + seq![lv[i as int], join_path(repo_root@, lv[i as int])]);
        i = i + 1;
    }
    assert(lv.take(listed@.len() as int) =~= lv);
    assert(views(r@) =~= media_candidates(name@, opt_view(file_name), repo_root@));
    r
}

/// The candidates of media file `name` under `repo_root`.
pub fn media_path_candidates(name: &str, repo_root: &str) -> (r: Vec<String>)
    ensures
        views(r@) == media_candidates(name@, path_file_name(name@), repo_root@),
{
    let f = file_name_of(name);
    media_candidates_for(name, f, repo_root)
}

/// Finds media file `name` for a run from the repository root or the
/// working directory: the first of its candidates that exists, by the flags
/// in `exists` (one per candidate of [`media_path_candidates`]).
pub fn resolve_media_path(name: &str, repo_root: &str, exists: &Vec<bool>) -> (r: Option<String>)
    ensures
        opt_view(r) == first_file(media_candidates(name@, path_file_name(name@), repo_root@), exists@),
{
    let c = media_path_candidates(name, repo_root);
    first_existing(&c, exists)
}

/// Where a configuration file from the list `names` is looked for: each
/// name's media candidates, then the name itself, in order.
pub open spec fn config_file_candidates(names: Seq<Seq<char>>, root: Seq<char>) -> Seq<Seq<char>>
    decreases names.len(),
{
    if names.len() == 0 {
        seq![]
    } else {
        config_file_candidates(names.drop_last(), root) + media_candidates(
            names.last(),
            path_file_name(names.last()),
            root,
        ) + seq![names.last()]
    }
}

/// The candidates of a configuration file looked for under the names
/// `first` and then `second` (its example).
pub fn config_file_path_candidates(first: &str, second: &str, repo_root: &str) -> (r: Vec<String>)
    ensures
        views(r@) == config_file_candidates(seq![first@, second@], repo_root@),
{
    let mut r = media_path_candidates(first, repo_root);
    r.push(string_of(first));
    let mut b = media_path_candidates(second, repo_root);
    let ghost (a0, b0) = (r@, b@);
    r.append(&mut b);
    r.push(string_of(second));
    proof {
        let root = repo_root@;
        let names = seq![first@, second@];
        let one = seq![first@];
        let m1 = media_candidates(first@, path_file_name(first@), root);
        let m2 = media_candidates(second@, path_file_name(second@), root);
        assert(names.drop_last() =~= one);
        assert(one.drop_last() =~= Seq::<Seq<char>>::empty());
        assert(config_file_candidates(Seq::<Seq<char>>::empty(), root) == Seq::<Seq<char>>::empty());
        assert(config_file_candidates(one, root) =~= m1 + seq![first@]);
        assert(config_file_candidates(names, root) == config_file_candidates(one, root) + m2 + seq![second@]);
        assert(views(a0) =~= m1 + seq![first@]);
        assert(views(r@) =~= views(a0) + views(b0) + seq![second@]);
    }
    r
}

} // verus!
