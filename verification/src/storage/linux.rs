//! Linux storage: logical `/sd/...` and `cache/...` paths map to the XDG
//! base directories, with fallbacks into the repository's `config/`.
//!
//! The environment and the file system are read by the caller: the
//! directories come in as an [`XdgEnv`], and where a path must exist the
//! caller says which of the candidates are files.

use vstd::prelude::*;
use crate::text::{opt_view, views, concat, ends_with, join_path, path_join, skip_chars, starts_with, str_eq, string_of};
use crate::storage::logical::ALARMS_CSV;

verus! {

/// The directory name the clock uses under each XDG base directory.
pub const APP_SLUG: &'static str = "pi-smart-clock";

/// The environment variables that place the XDG directories; `None` where
/// a variable is unset.
pub struct XdgEnv {
    pub home: Option<String>,
    pub config_home: Option<String>,
    pub data_home: Option<String>,
    pub state_home: Option<String>,
    pub cache_home: Option<String>,
}

/// `$HOME`, or `.` when it is unset.
pub open spec fn home_of(env: XdgEnv) -> Seq<char> {
    match env.home {
        Some(h) => h@,
        None => "."@,
    }
}

/// The clock's directory under an XDG base: `$VAR/pi-smart-clock`, or
/// `$HOME/<fallback>/pi-smart-clock` when the variable is unset.
pub open spec fn app_dir(var: Option<String>, home: Seq<char>, fallback: Seq<char>) -> Seq<char> {
    let base = match var {
        Some(v) => v@,
        None => join_path(home, fallback),
    };
    join_path(base, APP_SLUG@)
}

pub open spec fn config_dir_of(env: XdgEnv) -> Seq<char> {
    app_dir(env.config_home, home_of(env), ".config"@)
}

pub open spec fn data_dir_of(env: XdgEnv) -> Seq<char> {
    app_dir(env.data_home, home_of(env), ".local/share"@)
}

pub open spec fn state_dir_of(env: XdgEnv) -> Seq<char> {
    app_dir(env.state_home, home_of(env), ".local/state"@)
}

pub open spec fn cache_dir_of(env: XdgEnv) -> Seq<char> {
    app_dir(env.cache_home, home_of(env), ".cache"@)
}

/// The home directory.
pub fn home_dir(env: &XdgEnv) -> (r: String)
    ensures
        r@ == home_of(*env),
{
    match &env.home {
        Some(h) => h.clone(),
        None => string_of("."),
    }
}

fn app_dir_from(var: &Option<String>, home: &str, fallback: &str) -> (r: String)
    ensures
        r@ == app_dir(*var, home@, fallback@),
{
    let base = match var {
        Some(v) => v.clone(),
        None => path_join(home, fallback),
    };
    path_join(base.as_str(), APP_SLUG)
}

/// `$XDG_CONFIG_HOME/pi-smart-clock` (default `~/.config/pi-smart-clock`).
pub fn xdg_config_dir(env: &XdgEnv) -> (r: String)
    ensures
        r@ == config_dir_of(*env),
{
    let home = home_dir(env);
    app_dir_from(&env.config_home, home.as_str(), ".config")
}

/// `$XDG_DATA_HOME/pi-smart-clock` (default `~/.local/share/pi-smart-clock`).
pub fn xdg_data_dir(env: &XdgEnv) -> (r: String)
    ensures
        r@ == data_dir_of(*env),
{
    let home = home_dir(env);
    app_dir_from(&env.data_home, home.as_str(), ".local/share")
}

/// `$XDG_STATE_HOME/pi-smart-clock` (default `~/.local/state/pi-smart-clock`).
pub fn xdg_state_dir(env: &XdgEnv) -> (r: String)
    ensures
        r@ == state_dir_of(*env),
{
    let home = home_dir(env);
    app_dir_from(&env.state_home, home.as_str(), ".local/state")
}

/// `$XDG_CACHE_HOME/pi-smart-clock` (default `~/.cache/pi-smart-clock`).
pub fn xdg_cache_dir(env: &XdgEnv) -> (r: String)
    ensures
        r@ == cache_dir_of(*env),
{
    let home = home_dir(env);
    app_dir_from(&env.cache_home, home.as_str(), ".cache")
}

/// Where a logical path lives on Linux.
///
/// `/sd/config/alarms_*.csv.bak` goes to the state directory's `backups/`,
/// `/sd/config/alarms.csv` to the data directory's `config/`, other
/// `/sd/config/` files to the config directory, the rest of `/sd/` to the
/// data directory, `cache/...` to the cache directory; any other path
/// stands as it is.
pub open spec fn linux_path(logical: Seq<char>, env: XdgEnv) -> Seq<char> {
    if "/sd/"@.is_prefix_of(logical) {
        let relative = logical.skip("/sd/"@.len() as int);
        if "config/"@.is_prefix_of(relative) {
            let name = relative.skip("config/"@.len() as int);
            if "alarms_"@.is_prefix_of(name) && ".csv.bak"@.is_suffix_of(name) {
                join_path(join_path(state_dir_of(env), "backups"@), name)
            } else if name == "alarms.csv"@ {
                join_path(join_path(data_dir_of(env), "config"@), name)
            } else {
                join_path(config_dir_of(env), name)
            }
        } else {
            join_path(data_dir_of(env), relative)
        }
    } else if "cache/"@.is_prefix_of(logical) {
        join_path(cache_dir_of(env), logical.skip("cache/"@.len() as int))
    } else {
        logical
    }
}

/// Maps a logical `/sd/...` or `cache/...` path to its XDG location.
pub fn resolve_logical_path(logical: &str, env: &XdgEnv) -> (r: String)
    ensures
        r@ == linux_path(logical@, *env),
{
    if starts_with(logical, "/sd/") {
        let relative = skip_chars(logical, "/sd/".unicode_len());
        let rel = relative.as_str();
        if starts_with(rel, "config/") {
            let name_s = skip_chars(rel, "config/".unicode_len());
            let name = name_s.as_str();
            if starts_with(name, "alarms_") && ends_with(name, ".csv.bak") {
                let state = xdg_state_dir(env);
                let backups = path_join(state.as_str(), "backups");
                return path_join(backups.as_str(), name);
            }
            if str_eq(name, "alarms.csv") {
                let data = xdg_data_dir(env);
                let config = path_join(data.as_str(), "config");
                return path_join(config.as_str(), name);
            }
            let config = xdg_config_dir(env);
            return path_join(config.as_str(), name);
        }
        let data = xdg_data_dir(env);
        return path_join(data.as_str(), rel);
    }
    if starts_with(logical, "cache/") {
        let name = skip_chars(logical, "cache/".unicode_len());
        let cache = xdg_cache_dir(env);
        return path_join(cache.as_str(), name.as_str());
    }
    string_of(logical)
}

/// The places a repository file `name` may be, in the order they are
/// tried: the path itself when it is absolute, then under the repository
/// root, then relative to the working directory.
pub open spec fn repo_candidates(name: Seq<char>, root: Seq<char>) -> Seq<Seq<char>> {
    let tail = seq![join_path(root, name), name];
    if name.len() > 0 && name[0] == '/' {
        seq![name] + tail
    } else {
        tail
    }
}

/// The first candidate from index `i` on that is a file (`is_file[k]`
/// tells whether candidate `k` is one; a missing flag counts as no).
pub open spec fn first_file_from(c: Seq<Seq<char>>, is_file: Seq<bool>, i: int) -> Option<Seq<char>>
    decreases c.len() - i,
{
    if i < 0 || i >= c.len() {
        None
    } else if i < is_file.len() && is_file[i] {
        Some(c[i])
    } else {
        first_file_from(c, is_file, i + 1)
    }
}

pub open spec fn first_file(c: Seq<Seq<char>>, is_file: Seq<bool>) -> Option<Seq<char>> {
    first_file_from(c, is_file, 0)
}

/// The candidate paths of repository file `name` under `repo_root`.
pub fn repo_path_candidates(name: &str, repo_root: &str) -> (r: Vec<String>)
    ensures
        views(r@) == repo_candidates(name@, repo_root@),
{
    let mut r: Vec<String> = Vec::new();
    let absolute = name.unicode_len() > 0 && name.get_char(0) == '/';
    if absolute {
        r.push(string_of(name));
    }
    r.push(path_join(repo_root, name));
    r.push(string_of(name));
    assert(views(r@) =~= repo_candidates(name@, repo_root@));
    r
}

/// The first of `candidates` that is a file, by the flags in `is_file`.
pub fn first_existing(candidates: &Vec<String>, is_file: &Vec<bool>) -> (r: Option<String>)
    ensures
        opt_view(r) == first_file(views(candidates@), is_file@),
{
    let ghost c = views(candidates@);
    let mut i: usize = 0;
    while i < candidates.len()
        invariant
            c == views(candidates@),
            i <= candidates@.len(),
            first_file_from(c, is_file@, 0) == first_file_from(c, is_file@, i as int),
        decreases candidates.len() - i,
    {
        if i < is_file.len() && is_file[i] {
            return Some(candidates[i].clone());
        }
        i = i + 1;
    }
    None
}

/// Finds repository file `name`: the first of its candidates under
/// `repo_root` that is a file.
pub fn resolve_repo_path(name: &str, repo_root: &str, is_file: &Vec<bool>) -> (r: Option<String>)
    ensures
        opt_view(r) == first_file(repo_candidates(name@, repo_root@), is_file@),
{
    let c = repo_path_candidates(name, repo_root);
    first_existing(&c, is_file)
}

/// The repository files that stand in for a logical path that is missing
/// from its XDG location, in the order they are tried.
pub open spec fn fallback_names(logical: Seq<char>) -> Seq<Seq<char>> {
    if logical == ALARMS_CSV@ {
        seq!["config/alarms.csv"@, "config/alarms.csv.example"@]
    } else if logical == "/sd/config/weather.conf"@ {
        seq!["config/weather.conf"@, "config/weather.conf.example"@]
    } else if logical == "/sd/config/alarms.csv.example"@ {
        seq!["config/alarms.csv.example"@]
    } else {
        seq![]
    }
}

/// The repository fallbacks of a logical path.
pub fn repo_fallbacks(logical: &str) -> (r: Vec<String>)
    ensures
        views(r@) == fallback_names(logical@),
{
    let mut r: Vec<String> = Vec::new();
    if str_eq(logical, ALARMS_CSV) {
        r.push(string_of("config/alarms.csv"));
        r.push(string_of("config/alarms.csv.example"));
    } else if str_eq(logical, "/sd/config/weather.conf") {
        r.push(string_of("config/weather.conf"));
        r.push(string_of("config/weather.conf.example"));
    } else if str_eq(logical, "/sd/config/alarms.csv.example") {
        r.push(string_of("config/alarms.csv.example"));
    }
    assert(views(r@) =~= fallback_names(logical@));
    r
}

/// The pieces of `s` between its `/` separators, empty ones included.
pub open spec fn slash_pieces(s: Seq<char>) -> Seq<Seq<char>>
    decreases s.len(),
{
    if s.len() == 0 {
        seq![Seq::<char>::empty()]
    } else {
        let rest = slash_pieces(s.drop_first());
        if s[0] == '/' {
            seq![Seq::<char>::empty()] + rest
        } else {
            rest.update(0, seq![s[0]] + rest[0])
        }
    }
}

/// Whether a piece of a path names a component of it: neither empty (a
/// repeated or trailing separator) nor `.`.
pub open spec fn names_component(p: Seq<char>) -> bool {
    p.len() > 0 && p != seq!['.']
}

/// The components of a Unix path as `Path::components` yields them:
/// whether the path starts at the root, then its parts between separators,
/// with repeated separators, a trailing separator and `.` parts ignored,
/// except that a relative path keeps a leading `.`.
pub open spec fn path_components(s: Seq<char>) -> (bool, Seq<Seq<char>>) {
    let pieces = slash_pieces(s);
    let has_root = s.len() > 0 && s[0] == '/';
    if !has_root && pieces[0] == seq!['.'] {
        (false, seq![seq!['.']] + pieces.drop_first().filter(|p: Seq<char>| names_component(p)))
    } else {
        (has_root, pieces.filter(|p: Seq<char>| names_component(p)))
    }
}

/// Whether `a` and `b` are the same path (`Path`'s `==`).
///
/// std compares paths by their components, as `Path::components` yields
/// them: `a//b`, `a/./b` and `a/b/` are all the path `a/b`, while `./a`
/// keeps its leading `.` and `..` is kept as written.
#[verifier::external_body]
fn same_path(a: &str, b: &str) -> (r: bool)
    ensures
        r == (path_components(a@) == path_components(b@)),
{
    std::path::Path::new(a) == std::path::Path::new(b)
}

/// Whether `paths` lists the same path as `p`.
pub open spec fn lists_path(paths: Seq<Seq<char>>, p: Seq<char>) -> bool {
    exists|i: int| 0 <= i < paths.len() && #[trigger] path_components(paths[i]) == path_components(p)
}

/// Whether no two entries of `paths` are the same path.
pub open spec fn distinct_paths(paths: Seq<Seq<char>>) -> bool {
    forall|i: int, j: int|
        0 <= i < j < paths.len() ==> #[trigger] path_components(paths[i]) != #[trigger] path_components(paths[j])
}

/// The read candidates: `first`, then each fallback that was found and is
/// not the same path as one already listed.
pub open spec fn with_fallbacks(first: Seq<char>, found: Seq<Option<Seq<char>>>) -> Seq<Seq<char>>
    decreases found.len(),
{
    if found.len() == 0 {
        seq![first]
    } else {
        let prev = with_fallbacks(first, found.drop_last());
        match found.last() {
            Some(p) => if lists_path(prev, p) {
                prev
            } else {
                prev.push(p)
            },
            None => prev,
        }
    }
}

/// Whether `paths` lists the same path as `p`.
fn lists(paths: &Vec<String>, p: &String) -> (r: bool)
    ensures
        r == lists_path(views(paths@), p@),
{
    let ghost v = views(paths@);
    let mut i: usize = 0;
    while i < paths.len()
        invariant
            v == views(paths@),
            i <= paths@.len(),
            forall|k: int| 0 <= k < i ==> #[trigger] path_components(v[k]) != path_components(p@),
        decreases paths.len() - i,
    {
        if same_path(paths[i].as_str(), p.as_str()) {
            assert(path_components(v[i as int]) == path_components(p@));
            return true;
        }
        i = i + 1;
    }
    false
}

/// Adds a repository fallback that was found (`found`, as
/// [`resolve_repo_path`] gives it) unless the same path is already listed.
pub fn push_repo_fallback(paths: &mut Vec<String>, found: &Option<String>)
    ensures
        views(final(paths)@) == match opt_view(*found) {
            Some(p) => if lists_path(views(old(paths)@), p) {
                views(old(paths)@)
            } else {
                views(old(paths)@).push(p)
            },
            None => views(old(paths)@),
        },
{
    match found {
        Some(p) => {
            if !lists(paths, p) {
                let ghost before = views(paths@);
                paths.push(p.clone());
                assert(views(paths@) =~= before.push(p@));
            }
        },
        None => {},
    }
}

/// The file flags of the `k`-th fallback's candidates; none where `flags`
/// has no entry for it.
pub open spec fn flags_at(flags: Seq<Seq<bool>>, k: int) -> Seq<bool> {
    if 0 <= k < flags.len() {
        flags[k]
    } else {
        seq![]
    }
}

/// The views of a list of flag lists.
pub open spec fn flag_views(flags: Seq<Vec<bool>>) -> Seq<Seq<bool>> {
    flags.map_values(|v: Vec<bool>| v@)
}

/// For each repository fallback of `logical`, the first of its candidates
/// under `root` that is a file by its flags (`flags[k]` for the `k`-th).
pub open spec fn found_fallbacks(logical: Seq<char>, root: Seq<char>, flags: Seq<Seq<bool>>) -> Seq<Option<Seq<char>>> {
    let names = fallback_names(logical);
    Seq::new(names.len(), |k: int| first_file(repo_candidates(names[k], root), flags_at(flags, k)))
}

/// A candidate found is one whose flag is set.
pub proof fn lemma_first_file_flagged(c: Seq<Seq<char>>, is_file: Seq<bool>, i: int)
    requires
        first_file_from(c, is_file, i) is Some,
    ensures
        exists|j: int| #![trigger c[j]] i <= j < c.len() && j < is_file.len() && is_file[j]
            && c[j] == first_file_from(c, is_file, i).unwrap(),
    decreases c.len() - i,
{
    if !(i < is_file.len() && is_file[i]) {
        lemma_first_file_flagged(c, is_file, i + 1);
    } else {
        assert(c[i] == first_file_from(c, is_file, i).unwrap());
    }
}

/// The read candidates start with `first`, list each path once, and
/// follow it only with paths that were found.
pub proof fn lemma_with_fallbacks(first: Seq<char>, found: Seq<Option<Seq<char>>>)
    ensures
        ({
            let w = with_fallbacks(first, found);
            &&& 1 <= w.len() <= 1 + found.len()
            &&& w[0] == first
            &&& distinct_paths(w)
            &&& w.no_duplicates()
            &&& forall|i: int| #![trigger w[i]] 1 <= i < w.len()
                ==> exists|k: int| 0 <= k < found.len() && found[k] == Some(w[i])
        }),
    decreases found.len(),
{
    if found.len() > 0 {
        let d = found.drop_last();
        lemma_with_fallbacks(first, d);
        let prev = with_fallbacks(first, d);
        let w = with_fallbacks(first, found);
        assert forall|i: int| #![trigger w[i]] 1 <= i < w.len()
            implies exists|k: int| 0 <= k < found.len() && found[k] == Some(w[i]) by {
            if i < prev.len() {
                assert(w[i] == prev[i]);
                let k = choose|k: int| 0 <= k < d.len() && d[k] == Some(prev[i]);
                assert(found[k] == d[k]);
            } else {
                assert(found[found.len() - 1] == Some(w[i]));
            }
        }
        match found.last() {
            Some(p) => if !lists_path(prev, p) {
                assert forall|i: int, j: int| 0 <= i < j < w.len() implies
                    #[trigger] path_components(w[i]) != #[trigger] path_components(w[j]) by {
                    if j == prev.len() {
                        assert(w[i] == prev[i] && w[j] == p);
                        if path_components(prev[i]) == path_components(p) {
                            assert(lists_path(prev, p));
                        }
                    } else {
                        assert(w[i] == prev[i] && w[j] == prev[j]);
                    }
                }
            },
            None => {},
        }
    }
    let w = with_fallbacks(first, found);
    assert forall|i: int, j: int| 0 <= i < w.len() && 0 <= j < w.len() && i != j implies w[i] != w[j] by {
        if i < j {
            assert(path_components(w[i]) != path_components(w[j]));
        } else {
            assert(path_components(w[j]) != path_components(w[i]));
        }
    }
}

/// The paths to try, in order, when reading logical path `logical`: its
/// XDG location, then those of its repository fallbacks that were found
/// under `repo_root` (`is_file[k]` flags the candidates of the `k`-th of
/// [`repo_fallbacks`], as [`repo_path_candidates`] lists them), each path
/// once.
pub fn read_path_candidates(logical: &str, env: &XdgEnv, repo_root: &str, is_file: &Vec<Vec<bool>>) -> (r: Vec<String>)
    ensures
        views(r@) == with_fallbacks(
            linux_path(logical@, *env),
            found_fallbacks(logical@, repo_root@, flag_views(is_file@)),
        ),
        1 <= r@.len() <= 1 + fallback_names(logical@).len(),
        r@.len() <= 3,
        fallback_names(logical@).len() == 0 ==> r@.len() == 1,
        views(r@)[0] == linux_path(logical@, *env),
        distinct_paths(views(r@)),
        views(r@).no_duplicates(),
        forall|i: int| #![trigger r@[i]] 1 <= i < r@.len() ==> exists|k: int, j: int|
            0 <= k < fallback_names(logical@).len()
            && 0 <= j < repo_candidates(fallback_names(logical@)[k], repo_root@).len()
            && j < flags_at(flag_views(is_file@), k).len()
            && flags_at(flag_views(is_file@), k)[j]
            && repo_candidates(fallback_names(logical@)[k], repo_root@)[j] == r@[i]@,
{
    let ghost flags = flag_views(is_file@);
    let ghost f = found_fallbacks(logical@, repo_root@, flags);
    let names = repo_fallbacks(logical);
    let first = resolve_logical_path(logical, env);
    let ghost first_v = first@;
    let mut paths: Vec<String> = Vec::new();
    paths.push(first);
    assert(views(paths@) =~= with_fallbacks(first_v, f.take(0)));
    let empty: Vec<bool> = Vec::new();
    let mut i: usize = 0;
    while i < names.len()
        invariant
            flags == flag_views(is_file@),
            f == found_fallbacks(logical@, repo_root@, flags),
            views(names@) == fallback_names(logical@),
            first_v == linux_path(logical@, *env),
            i <= names@.len(),
            empty@ == Seq::<bool>::empty(),
            views(paths@) == with_fallbacks(first_v, f.take(i as int)),
        decreases names.len() - i,
    {
        let flags_i = if i < is_file.len() {
            &is_file[i]
        } else {
            &empty
        };
        assert(flags_i@ == flags_at(flags, i as int));
        assert(names@[i as int]@ == fallback_names(logical@)[i as int]);
        let found = resolve_repo_path(names[i].as_str(), repo_root, flags_i);
        assert(f.take(i + 1).drop_last() =~= f.take(i as int));
        assert(f.take(i + 1).last() == opt_view(found));
        push_repo_fallback(&mut paths, &found);
        i = i + 1;
    }
    assert(f.take(names@.len() as int) =~= f);
    proof {
        lemma_with_fallbacks(first_v, f);
        let w = views(paths@);
        let names_v = fallback_names(logical@);
        assert(names_v.len() <= 2);
        assert forall|i: int| #![trigger paths@[i]] 1 <= i < paths@.len() implies exists|k: int, j: int|
            0 <= k < names_v.len()
            && 0 <= j < repo_candidates(names_v[k], repo_root@).len()
            && j < flags_at(flags, k).len()
            && flags_at(flags, k)[j]
            && repo_candidates(names_v[k], repo_root@)[j] == paths@[i]@ by {
            assert(w[i] == paths@[i]@);
            let k = choose|k: int| 0 <= k < f.len() && f[k] == Some(w[i]);
            let c = repo_candidates(names_v[k], repo_root@);
            lemma_first_file_flagged(c, flags_at(flags, k), 0);
            let j = choose|j: int| #![trigger c[j]] 0 <= j < c.len() && j < flags_at(flags, k).len()
                && flags_at(flags, k)[j] && c[j] == first_file_from(c, flags_at(flags, k), 0).unwrap();
            assert(c[j] == paths@[i]@);
        }
    }
    paths
}

/// The places a config file is looked for: `name` in the config
/// directory, then `config/<name>` and `config/<example_name>` in the
/// repository.
pub open spec fn config_candidates(name: Seq<char>, example_name: Seq<char>, env: XdgEnv, root: Seq<char>) -> Seq<Seq<char>> {
    seq![join_path(config_dir_of(env), name)] + repo_candidates("config/"@ + name, root)
        + repo_candidates("config/"@ + example_name, root)
}

/// The candidate paths of user config `name`, in the order they are tried.
pub fn config_path_candidates(name: &str, example_name: &str, env: &XdgEnv, repo_root: &str) -> (r: Vec<String>)
    ensures
        views(r@) == config_candidates(name@, example_name@, *env, repo_root@),
{
    let dir = xdg_config_dir(env);
    let mut r: Vec<String> = Vec::new();
    r.push(path_join(dir.as_str(), name));
    let own = concat("config/", name);
    let mut a = repo_path_candidates(own.as_str(), repo_root);
    let example = concat("config/", example_name);
    let mut b = repo_path_candidates(example.as_str(), repo_root);
    let ghost (r0, a0, b0) = (r@, a@, b@);
    r.append(&mut a);
    r.append(&mut b);
    assert(r@ =~= r0 + a0 + b0);
    assert(views(r@) =~= views(r0) + views(a0) + views(b0));
    r
}

/// Finds user config `name`: `~/.config/pi-smart-clock/<name>`, then the
/// repository's `config/<name>`, then `config/<example_name>`; the first
/// candidate that is a file by the flags in `is_file`.
pub fn find_config(name: &str, example_name: &str, env: &XdgEnv, repo_root: &str, is_file: &Vec<bool>) -> (r: Option<String>)
    ensures
        opt_view(r) == first_file(config_candidates(name@, example_name@, *env, repo_root@), is_file@),
{
    let c = config_path_candidates(name, example_name, env, repo_root);
    first_existing(&c, is_file)
}

/// What a copy writes: the source's bytes, or an error naming the source
/// when it could not be read.
pub fn copy_file(from: &str, source: Option<Vec<u8>>) -> (r: Result<Vec<u8>, String>)
    ensures
        source is None ==> r is Err && r->Err_0@ == "copy source missing: "@ + from@,
        source is Some ==> r == Ok::<Vec<u8>, String>(source->0),
{
    match source {
        Some(data) => Ok(data),
        None => Err(concat("copy source missing: ", from)),
    }
}


/// Law: an alarm backup (`alarms_backup`) made at `timestamp` is kept in
/// the state directory's `backups/`, under its own file name.
pub proof fn lemma_backup_goes_to_state(timestamp: Seq<char>, env: XdgEnv)
    ensures
        linux_path("/sd/config/alarms_"@ + timestamp + ".csv.bak"@, env) == join_path(
            join_path(state_dir_of(env), "backups"@),
            "alarms_"@ + timestamp + ".csv.bak"@,
        ),
{
    reveal_strlit("/sd/config/alarms_");
    reveal_strlit(".csv.bak");
    reveal_strlit("/sd/");
    reveal_strlit("config/");
    reveal_strlit("alarms_");
    let logical = "/sd/config/alarms_"@ + timestamp + ".csv.bak"@;
    let name = "alarms_"@ + timestamp + ".csv.bak"@;
    assert(logical.subrange(0, 4) =~= "/sd/"@);
    let relative = logical.skip(4);
    assert(relative =~= "config/"@ + name);
    assert(relative.subrange(0, 7) =~= "config/"@);
    assert(relative.skip(7) =~= name);
    assert(name.subrange(0, 7) =~= "alarms_"@);
    assert(name.subrange(name.len() - 8, name.len() as int) =~= ".csv.bak"@);
}

/// Law: a logical cache file `cache/<name>` lives in the cache directory
/// under `<name>`.
pub proof fn lemma_cache_goes_to_cache_dir(name: Seq<char>, env: XdgEnv)
    ensures
        linux_path("cache/"@ + name, env) == join_path(cache_dir_of(env), name),
{
    reveal_strlit("cache/");
    reveal_strlit("/sd/");
    let logical = "cache/"@ + name;
    assert(logical[0] == 'c');
    assert(!"/sd/"@.is_prefix_of(logical)) by {
        if "/sd/"@.is_prefix_of(logical) {
            assert(logical.subrange(0, 4)[0] == '/');
        }
    }
    assert(logical.subrange(0, 6) =~= "cache/"@);
    assert(logical.skip(6) =~= name);
}

} // verus!
