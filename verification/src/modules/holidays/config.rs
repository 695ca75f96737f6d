//! Holidays panel configuration: which country, and how many dates to list.

use vstd::prelude::*;
use crate::storage::linux::{XdgEnv, config_candidates, find_config, first_file};
use crate::text::opt_view;
use crate::conf::{LineShape, line_end, line_pair, find_line_end, shape_of_line};
use crate::text::{
    lemma_trim_plain, lemma_trim_upper_stable,
    trim, to_lower, to_upper, parse_unsigned, chars_of, trim_bounds, upper_range, range_eq_str,
    range_lower_eq_str, parse_usize, string_of, string_from_range,
};

verus! {

/// Configuration for the holidays panel.
#[derive(Clone, Debug)]
pub struct HolidaysConfig {
    /// Country or region code (e.g. "US", "GB", "CA"); picks the holiday rules.
    pub country: String,
    /// How many holidays from today on to list.
    pub max_upcoming: usize,
}

impl View for HolidaysConfig {
    type V = (Seq<char>, usize);

    open spec fn view(&self) -> (Seq<char>, usize) {
        (self.country@, self.max_upcoming)
    }
}

pub open spec fn default_holidays_config() -> (Seq<char>, usize) {
    ("US"@, 6)
}

impl Default for HolidaysConfig {
    fn default() -> (r: Self)
        ensures
            r@ == default_holidays_config(),
    {
        HolidaysConfig { country: string_of("US"), max_upcoming: 6 }
    }
}

/// Where a configuration came from: its path and the file's modification
/// time (nanoseconds from the Unix epoch, negative before it).
#[derive(Clone, Debug)]
pub struct ConfigMeta {
    pub path: Option<String>,
    pub modified: Option<i128>,
}

/// A configuration together with where it was read from.
#[derive(Clone, Debug)]
pub struct LoadedHolidaysConfig {
    pub config: HolidaysConfig,
    pub meta: ConfigMeta,
}

/// The country code a configured name stands for: trimmed, upper-cased, and
/// common names and aliases mapped to their two-letter code.
pub open spec fn normalized_country(s: Seq<char>) -> Seq<char> {
    let u = to_upper(trim(s));
    if u == "USA"@ || u == "UNITED STATES"@ || u == "UNITED_STATES"@ {
        "US"@
    } else if u == "UK"@ || u == "BRITAIN"@ || u == "UNITED KINGDOM"@ || u == "UNITED_KINGDOM"@ {
        "GB"@
    } else if u == "DEUTSCHLAND"@ {
        "DE"@
    } else if u == "CANADA"@ {
        "CA"@
    } else if u == "FRANCE"@ {
        "FR"@
    } else if u == "AUSTRALIA"@ {
        "AU"@
    } else if u == "JAPAN"@ {
        "JP"@
    } else if u == "CHINA"@ || u == "PRC"@ || u == "CN"@ {
        "CN"@
    } else {
        u
    }
}

fn normalize_country_range(v: &Vec<char>, lo: usize, hi: usize) -> (r: String)
    requires
        lo <= hi <= v@.len(),
    ensures
        r@ == normalized_country(v@.subrange(lo as int, hi as int)),
{
    let (a, b) = trim_bounds(v, lo, hi);
    let u = upper_range(v, a, b);
    let n = u.len();
    assert(u@.subrange(0, n as int) =~= u@);
    if range_eq_str(&u, 0, n, "USA") || range_eq_str(&u, 0, n, "UNITED STATES") || range_eq_str(
        &u,
        0,
        n,
        "UNITED_STATES",
    ) {
        string_of("US")
    } else if range_eq_str(&u, 0, n, "UK") || range_eq_str(&u, 0, n, "BRITAIN") || range_eq_str(
        &u,
        0,
        n,
        "UNITED KINGDOM",
    ) || range_eq_str(&u, 0, n, "UNITED_KINGDOM") {
        string_of("GB")
    } else if range_eq_str(&u, 0, n, "DEUTSCHLAND") {
        string_of("DE")
    } else if range_eq_str(&u, 0, n, "CANADA") {
        string_of("CA")
    } else if range_eq_str(&u, 0, n, "FRANCE") {
        string_of("FR")
    } else if range_eq_str(&u, 0, n, "AUSTRALIA") {
        string_of("AU")
    } else if range_eq_str(&u, 0, n, "JAPAN") {
        string_of("JP")
    } else if range_eq_str(&u, 0, n, "CHINA") || range_eq_str(&u, 0, n, "PRC") || range_eq_str(
        &u,
        0,
        n,
        "CN",
    ) {
        string_of("CN")
    } else {
        string_from_range(&u, 0, n)
    }
}

/// Maps a configured country name or alias to its code (e.g. "uk" to "GB",
/// "United States" to "US"); other names are trimmed and upper-cased.
pub fn normalize_country(s: &str) -> (r: String)
    ensures
        r@ == normalized_country(s@),
{
    let v = chars_of(s);
    assert(v@.subrange(0, v@.len() as int) =~= v@);
    normalize_country_range(&v, 0, v.len())
}

pub open spec fn is_country_key(k: Seq<char>) -> bool {
    k == "country"@ || k == "region"@ || k == "locale"@ || k == "holidays"@
}

pub open spec fn is_count_key(k: Seq<char>) -> bool {
    k == "max_upcoming"@ || k == "max"@ || k == "count"@
}

/// The effect of one line on the configuration read so far.
pub open spec fn apply_holidays_line(cfg: (Seq<char>, usize), line: Seq<char>) -> (Seq<char>, usize) {
    match line_pair(line) {
        None => cfg,
        Some((k, v)) => {
            let key = to_lower(k);
            if is_country_key(key) {
                if v.len() > 0 {
                    (normalized_country(v), cfg.1)
                } else {
                    cfg
                }
            } else if is_count_key(key) {
                match parse_unsigned(v, usize::MAX as nat) {
                    Some(n) => if n > 0 {
                        (cfg.0, n as usize)
                    } else {
                        cfg
                    },
                    None => cfg,
                }
            } else {
                cfg
            }
        },
    }
}

/// The end of the line from `pos` lies between `pos` and the end of the text.
pub proof fn lemma_line_end_bounds(s: Seq<char>, pos: int)
    requires
        0 <= pos <= s.len(),
    ensures
        pos <= line_end(s, pos) <= s.len(),
    decreases s.len() - pos,
{
    if pos < s.len() && s[pos] != '\n' {
        lemma_line_end_bounds(s, pos + 1);
    }
}

/// The configuration after the lines of `s` from position `pos` on.
pub open spec fn holidays_config_from(s: Seq<char>, pos: int, cfg: (Seq<char>, usize)) -> (Seq<char>, usize)
    decreases s.len() + 1 - pos,
{
    if pos < 0 || pos > s.len() {
        cfg
    } else {
        let e = line_end(s, pos);
        proof {
            lemma_line_end_bounds(s, pos);
        }
        holidays_config_from(s, e + 1, apply_holidays_line(cfg, s.subrange(pos, e)))
    }
}

/// Reads a holidays configuration text: `country` (also `region`, `locale`,
/// `holidays`) and `max_upcoming` (also `max`, `count`), starting from the
/// defaults; unknown keys, malformed lines, empty countries and counts that
/// are not positive integers leave the value as it was.
pub fn parse_holidays_config(content: &str) -> (r: HolidaysConfig)
    ensures
        r@ == holidays_config_from(content@, 0, default_holidays_config()),
{
    let v = chars_of(content);
    let mut cfg = HolidaysConfig::default();
    let mut pos: usize = 0;
    loop
        invariant_except_break
            holidays_config_from(v@, 0, default_holidays_config()) == holidays_config_from(
                v@,
                pos as int,
                cfg@,
            ),
        invariant
            pos <= v@.len(),
            v@ == content@,
        ensures
            holidays_config_from(v@, 0, default_holidays_config()) == cfg@,
        decreases v@.len() - pos,
    {
        let e = find_line_end(&v, pos);
        let ghost before = cfg@;
        match shape_of_line(&v, pos, e) {
            LineShape::Pair { key_lo, key_hi, value_lo, value_hi } => {
                if range_lower_eq_str(&v, key_lo, key_hi, "country") || range_lower_eq_str(
                    &v,
                    key_lo,
                    key_hi,
                    "region",
                ) || range_lower_eq_str(&v, key_lo, key_hi, "locale") || range_lower_eq_str(
                    &v,
                    key_lo,
                    key_hi,
                    "holidays",
                ) {
                    if value_lo < value_hi {
                        cfg.country = normalize_country_range(&v, value_lo, value_hi);
                    }
                } else if range_lower_eq_str(&v, key_lo, key_hi, "max_upcoming")
                    || range_lower_eq_str(&v, key_lo, key_hi, "max") || range_lower_eq_str(
                    &v,
                    key_lo,
                    key_hi,
                    "count",
                ) {
                    if let Some(n) = parse_usize(&v, value_lo, value_hi) {
                        if n > 0 {
                            cfg.max_upcoming = n;
                        }
                    }
                }
            },
            _ => {},
        }
        assert(cfg@ == apply_holidays_line(before, v@.subrange(pos as int, e as int)));
        assert(holidays_config_from(v@, pos as int, before) == holidays_config_from(
            v@,
            e + 1,
            cfg@,
        ));
        if e >= v.len() {
            break;
        }
        pos = e + 1;
    }
    cfg
}

/// Builds the loaded configuration from what the caller found on disk: the
/// resolved path (if any), its modification time, and its text (`None` when
/// it could not be read). Without a path, or when the text is missing, the
/// defaults apply.
pub fn load_holidays_config_loaded(
    path: Option<String>,
    modified: Option<i128>,
    content: Option<&str>,
) -> (r: LoadedHolidaysConfig)
    ensures
        path is None ==> r.config@ == default_holidays_config() && r.meta.path is None
            && r.meta.modified is None,
        path is Some ==> r.meta.path == path && r.meta.modified == modified,
        path is Some ==> r.config@ == match content {
            Some(t) => holidays_config_from(t@, 0, default_holidays_config()),
            None => default_holidays_config(),
        },
{
    match path {
        None => LoadedHolidaysConfig {
            config: HolidaysConfig::default(),
            meta: ConfigMeta { path: None, modified: None },
        },
        Some(p) => {
            let config = match content {
                Some(t) => parse_holidays_config(t),
                None => HolidaysConfig::default(),
            };
            LoadedHolidaysConfig { config, meta: ConfigMeta { path: Some(p), modified } }
        },
    }
}

/// Whether a configuration should be read again: it came from a file whose
/// current modification time is known and differs from the recorded one.
pub fn config_changed(meta: &ConfigMeta, current_modified: Option<i128>) -> (r: bool)
    ensures
        r == (meta.path is Some && current_modified is Some && meta.modified != current_modified),
{
    match (&meta.path, current_modified) {
        (Some(_), Some(m)) => match meta.modified {
            Some(old) => old != m,
            None => true,
        },
        _ => false,
    }
}


/// The holidays configuration file: `holidays.conf` in the config
/// directory, else the repository's `config/holidays.conf`, else its
/// example; the first candidate that is a file by the flags in `is_file`
/// (one per candidate of `config_path_candidates`).
pub fn resolve_holidays_config(env: &XdgEnv, repo_root: &str, is_file: &Vec<bool>) -> (r: Option<String>)
    ensures
        opt_view(r) == first_file(
            config_candidates("holidays.conf"@, "holidays.conf.example"@, *env, repo_root@),
            is_file@,
        ),
{
    find_config("holidays.conf", "holidays.conf.example", env, repo_root, is_file)
}


proof fn lemma_code_fixed(c: Seq<char>)
    requires
        c.len() == 2,
        'A' <= c[0] <= 'Z',
        'A' <= c[1] <= 'Z',
    ensures
        to_upper(trim(c)) == c,
{
    lemma_trim_plain(c);
    assert(to_upper(c) =~= c);
}

/// Law: every name the configuration accepts for a country, trimmed and in
/// any ASCII case, stands for that country's two-letter code: "USA",
/// "United States" and "United_States" for US; "UK", "Britain", "United
/// Kingdom" and "United_Kingdom" for GB; "Deutschland" for DE; "Canada" for
/// CA; "France" for FR; "Australia" for AU; "Japan" for JP; "China" and
/// "PRC" for CN; and each code for itself; any other name is kept,
/// trimmed and upper-cased.
pub proof fn lemma_country_aliases(s: Seq<char>)
    ensures
        to_upper(trim(s)) == "USA"@ || to_upper(trim(s)) == "UNITED STATES"@
            || to_upper(trim(s)) == "UNITED_STATES"@ || to_upper(trim(s)) == "US"@
            ==> normalized_country(s) == "US"@,
        to_upper(trim(s)) == "UK"@ || to_upper(trim(s)) == "BRITAIN"@ || to_upper(trim(s)) == "UNITED KINGDOM"@
            || to_upper(trim(s)) == "UNITED_KINGDOM"@ || to_upper(trim(s)) == "GB"@
            ==> normalized_country(s) == "GB"@,
        to_upper(trim(s)) == "DEUTSCHLAND"@ || to_upper(trim(s)) == "DE"@ ==> normalized_country(s) == "DE"@,
        to_upper(trim(s)) == "CANADA"@ || to_upper(trim(s)) == "CA"@ ==> normalized_country(s) == "CA"@,
        to_upper(trim(s)) == "FRANCE"@ || to_upper(trim(s)) == "FR"@ ==> normalized_country(s) == "FR"@,
        to_upper(trim(s)) == "AUSTRALIA"@ || to_upper(trim(s)) == "AU"@ ==> normalized_country(s) == "AU"@,
        to_upper(trim(s)) == "JAPAN"@ || to_upper(trim(s)) == "JP"@ ==> normalized_country(s) == "JP"@,
        to_upper(trim(s)) == "CHINA"@ || to_upper(trim(s)) == "PRC"@ || to_upper(trim(s)) == "CN"@
            ==> normalized_country(s) == "CN"@,
        !(to_upper(trim(s)) == "USA"@ || to_upper(trim(s)) == "UNITED STATES"@ || to_upper(trim(s)) == "UNITED_STATES"@ || to_upper(trim(s)) == "UK"@ || to_upper(trim(s)) == "BRITAIN"@ || to_upper(trim(s)) == "UNITED KINGDOM"@ || to_upper(trim(s)) == "UNITED_KINGDOM"@ || to_upper(trim(s)) == "DEUTSCHLAND"@ || to_upper(trim(s)) == "CANADA"@ || to_upper(trim(s)) == "FRANCE"@ || to_upper(trim(s)) == "AUSTRALIA"@ || to_upper(trim(s)) == "JAPAN"@ || to_upper(trim(s)) == "CHINA"@ || to_upper(trim(s)) == "PRC"@)
            ==> normalized_country(s) == to_upper(trim(s)),
{
    reveal_strlit("US");
    reveal_strlit("GB");
    reveal_strlit("DE");
    reveal_strlit("CA");
    reveal_strlit("FR");
    reveal_strlit("AU");
    reveal_strlit("JP");
    reveal_strlit("CN");
    reveal_strlit("USA");
    reveal_strlit("UNITED STATES");
    reveal_strlit("UNITED_STATES");
    reveal_strlit("UK");
    reveal_strlit("BRITAIN");
    reveal_strlit("UNITED KINGDOM");
    reveal_strlit("UNITED_KINGDOM");
    reveal_strlit("DEUTSCHLAND");
    reveal_strlit("CANADA");
    reveal_strlit("FRANCE");
    reveal_strlit("AUSTRALIA");
    reveal_strlit("JAPAN");
    reveal_strlit("CHINA");
    reveal_strlit("PRC");
    let u = to_upper(trim(s));
    if u == "US"@ {
        assert(u =~= seq!['U', 'S']);
    } else if u == "USA"@ {
        assert(u =~= seq!['U', 'S', 'A']);
    } else if u == "UNITED STATES"@ {
        assert(u =~= seq!['U', 'N', 'I', 'T', 'E', 'D', ' ', 'S', 'T', 'A', 'T', 'E', 'S']);
    } else if u == "UNITED_STATES"@ {
        assert(u =~= seq!['U', 'N', 'I', 'T', 'E', 'D', '_', 'S', 'T', 'A', 'T', 'E', 'S']);
    } else if u == "GB"@ {
        assert(u =~= seq!['G', 'B']);
    } else if u == "UK"@ {
        assert(u =~= seq!['U', 'K']);
    } else if u == "BRITAIN"@ {
        assert(u =~= seq!['B', 'R', 'I', 'T', 'A', 'I', 'N']);
    } else if u == "UNITED KINGDOM"@ {
        assert(u =~= seq!['U', 'N', 'I', 'T', 'E', 'D', ' ', 'K', 'I', 'N', 'G', 'D', 'O', 'M']);
    } else if u == "UNITED_KINGDOM"@ {
        assert(u =~= seq!['U', 'N', 'I', 'T', 'E', 'D', '_', 'K', 'I', 'N', 'G', 'D', 'O', 'M']);
    } else if u == "DE"@ {
        assert(u =~= seq!['D', 'E']);
    } else if u == "DEUTSCHLAND"@ {
        assert(u =~= seq!['D', 'E', 'U', 'T', 'S', 'C', 'H', 'L', 'A', 'N', 'D']);
    } else if u == "CA"@ {
        assert(u =~= seq!['C', 'A']);
    } else if u == "CANADA"@ {
        assert(u =~= seq!['C', 'A', 'N', 'A', 'D', 'A']);
    } else if u == "FR"@ {
        assert(u =~= seq!['F', 'R']);
    } else if u == "FRANCE"@ {
        assert(u =~= seq!['F', 'R', 'A', 'N', 'C', 'E']);
    } else if u == "AU"@ {
        assert(u =~= seq!['A', 'U']);
    } else if u == "AUSTRALIA"@ {
        assert(u =~= seq!['A', 'U', 'S', 'T', 'R', 'A', 'L', 'I', 'A']);
    } else if u == "JP"@ {
        assert(u =~= seq!['J', 'P']);
    } else if u == "JAPAN"@ {
        assert(u =~= seq!['J', 'A', 'P', 'A', 'N']);
    } else if u == "CN"@ {
        assert(u =~= seq!['C', 'N']);
    } else if u == "CHINA"@ {
        assert(u =~= seq!['C', 'H', 'I', 'N', 'A']);
    } else if u == "PRC"@ {
        assert(u =~= seq!['P', 'R', 'C']);
    }
}

/// Law: a normalized country code normalizes to itself.
pub proof fn lemma_normalize_idempotent(s: Seq<char>)
    ensures
        normalized_country(normalized_country(s)) == normalized_country(s),
{
    lemma_trim_upper_stable(s);
    reveal_strlit("US");
    reveal_strlit("GB");
    reveal_strlit("DE");
    reveal_strlit("CA");
    reveal_strlit("FR");
    reveal_strlit("AU");
    reveal_strlit("JP");
    reveal_strlit("CN");
    reveal_strlit("USA");
    reveal_strlit("UNITED STATES");
    reveal_strlit("UNITED_STATES");
    reveal_strlit("UK");
    reveal_strlit("BRITAIN");
    reveal_strlit("UNITED KINGDOM");
    reveal_strlit("UNITED_KINGDOM");
    reveal_strlit("DEUTSCHLAND");
    reveal_strlit("CANADA");
    reveal_strlit("FRANCE");
    reveal_strlit("AUSTRALIA");
    reveal_strlit("JAPAN");
    reveal_strlit("CHINA");
    reveal_strlit("PRC");
    let n = normalized_country(s);
    if n == "US"@ || n == "GB"@ || n == "DE"@ || n == "CA"@ || n == "FR"@ || n == "AU"@ || n == "JP"@
        || n == "CN"@ {
        lemma_code_fixed(n);
        assert(n != "UK"@ || n[1] != 'B');
    }
}

} // verus!
