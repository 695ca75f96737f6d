//! Weather panel configuration (`weather.conf`): location, time zone,
//! temperature units, refresh interval and an optional city name.
//!
//! The coordinates are decimal fractions; the parser hands their text back
//! in line order for the caller to read as numbers, together with the rest
//! of the settings.

use vstd::prelude::*;
use crate::platform::linux_audio::{config_file_candidates, config_file_path_candidates};
use crate::storage::linux::{first_existing, first_file};
use crate::text::{opt_view, views};
use crate::conf::{LineShape, line_end, line_pair, find_line_end, shape_of_line};
use crate::text::{
    to_lower, parse_unsigned, chars_of, range_lower_eq_str, parse_u64, string_of, string_from_range,
    lower_string_range, concat,
};
use crate::modules::holidays::config::lemma_line_end_bounds;

pub use crate::modules::holidays::config::ConfigMeta;

verus! {

/// Refresh interval used when the configuration names none.
pub const DEFAULT_UPDATE_MINUTES: u64 = 30;

/// The unit temperatures are shown in.
#[derive(Clone, Copy, Debug, PartialEq, Eq, Structural)]
pub enum TemperatureUnit {
    Fahrenheit,
    Celsius,
}

pub open spec fn unit_param(u: TemperatureUnit) -> Seq<char> {
    match u {
        TemperatureUnit::Fahrenheit => "fahrenheit"@,
        TemperatureUnit::Celsius => "celsius"@,
    }
}

pub open spec fn unit_symbol(u: TemperatureUnit) -> Seq<char> {
    match u {
        TemperatureUnit::Fahrenheit => "°F"@,
        TemperatureUnit::Celsius => "°C"@,
    }
}

impl TemperatureUnit {
    /// The unit's name in the forecast service's query.
    pub fn open_meteo_param(self) -> (r: &'static str)
        ensures
            r@ == unit_param(self),
    {
        match self {
            TemperatureUnit::Fahrenheit => "fahrenheit",
            TemperatureUnit::Celsius => "celsius",
        }
    }

    /// The unit's symbol after a temperature.
    pub fn symbol(self) -> (r: &'static str)
        ensures
            r@ == unit_symbol(self),
    {
        match self {
            TemperatureUnit::Fahrenheit => "°F",
            TemperatureUnit::Celsius => "°C",
        }
    }
}

/// The unit that a lower-cased `units` value names.
pub open spec fn unit_named(name: Seq<char>) -> Option<TemperatureUnit> {
    if name == "fahrenheit"@ || name == "f"@ || name == "farenheit"@ {
        Some(TemperatureUnit::Fahrenheit)
    } else if name == "celsius"@ || name == "c"@ || name == "centigrade"@ {
        Some(TemperatureUnit::Celsius)
    } else {
        None
    }
}

/// The weather settings other than the coordinates.
#[derive(Clone, Debug)]
pub struct WeatherSettings {
    pub timezone: String,
    pub units: TemperatureUnit,
    pub update_interval_minutes: u64,
    /// A city name that overrides the one looked up from the coordinates.
    pub city: Option<String>,
}

pub struct SettingsModel {
    pub timezone: Seq<char>,
    pub units: TemperatureUnit,
    pub update_interval_minutes: u64,
    pub city: Option<Seq<char>>,
}

impl View for WeatherSettings {
    type V = SettingsModel;

    open spec fn view(&self) -> SettingsModel {
        SettingsModel {
            timezone: self.timezone@,
            units: self.units,
            update_interval_minutes: self.update_interval_minutes,
            city: match self.city {
                Some(c) => Some(c@),
                None => None,
            },
        }
    }
}

pub open spec fn default_settings() -> SettingsModel {
    SettingsModel {
        timezone: "auto"@,
        units: TemperatureUnit::Fahrenheit,
        update_interval_minutes: DEFAULT_UPDATE_MINUTES,
        city: None,
    }
}

impl Default for WeatherSettings {
    /// Time zone `auto`, Fahrenheit, a refresh every 30 minutes, no city.
    fn default() -> (r: Self)
        ensures
            r@ == default_settings(),
    {
        WeatherSettings {
            timezone: string_of("auto"),
            units: TemperatureUnit::Fahrenheit,
            update_interval_minutes: DEFAULT_UPDATE_MINUTES,
            city: None,
        }
    }
}

/// Default latitude (Indianapolis), as written in a configuration file.
pub const DEFAULT_LATITUDE: &'static str = "39.7684";

/// Default longitude (Indianapolis), as written in a configuration file.
pub const DEFAULT_LONGITUDE: &'static str = "-86.1581";

/// A line of the configuration that the settings alone do not absorb.
pub enum WeatherNote {
    /// A `latitude` value, still to be read as a number.
    Latitude(String),
    /// A `longitude` value, still to be read as a number.
    Longitude(String),
    /// The line is invalid; the configuration is rejected with this message.
    Failed(String),
}

pub enum NoteModel {
    Latitude(Seq<char>),
    Longitude(Seq<char>),
    Failed(Seq<char>),
}

impl View for WeatherNote {
    type V = NoteModel;

    open spec fn view(&self) -> NoteModel {
        match self {
            WeatherNote::Latitude(t) => NoteModel::Latitude(t@),
            WeatherNote::Longitude(t) => NoteModel::Longitude(t@),
            WeatherNote::Failed(m) => NoteModel::Failed(m@),
        }
    }
}

/// What one line does: change (or keep) the settings, or make a note.
pub enum LineEffect {
    Settings(SettingsModel),
    Note(NoteModel),
}

pub open spec fn is_latitude_key(k: Seq<char>) -> bool {
    k == "latitude"@ || k == "lat"@
}

pub open spec fn is_longitude_key(k: Seq<char>) -> bool {
    k == "longitude"@ || k == "lon"@ || k == "lng"@
}

pub open spec fn is_timezone_key(k: Seq<char>) -> bool {
    k == "timezone"@ || k == "tz"@
}

pub open spec fn is_units_key(k: Seq<char>) -> bool {
    k == "units"@ || k == "temperature_unit"@
}

pub open spec fn is_interval_key(k: Seq<char>) -> bool {
    k == "update_interval_minutes"@ || k == "update_minutes"@ || k == "interval"@
}

pub open spec fn is_city_key(k: Seq<char>) -> bool {
    k == "city"@ || k == "location"@
}

/// The effect of one configuration line on the settings read so far. Keys
/// are matched without regard to ASCII case; unknown keys, blank lines,
/// comments and lines without `=` change nothing.
pub open spec fn weather_line_effect(cfg: SettingsModel, line: Seq<char>) -> LineEffect {
    match line_pair(line) {
        None => LineEffect::Settings(cfg),
        Some((k, v)) => {
            let key = to_lower(k);
            if is_latitude_key(key) {
                LineEffect::Note(NoteModel::Latitude(v))
            } else if is_longitude_key(key) {
                LineEffect::Note(NoteModel::Longitude(v))
            } else if is_timezone_key(key) {
                LineEffect::Settings(SettingsModel { timezone: v, ..cfg })
            } else if is_units_key(key) {
                match unit_named(to_lower(v)) {
                    Some(u) => LineEffect::Settings(SettingsModel { units: u, ..cfg }),
                    None => LineEffect::Note(NoteModel::Failed("unknown units: "@ + to_lower(v))),
                }
            } else if is_interval_key(key) {
                match parse_unsigned(v, u64::MAX as nat) {
                    Some(n) => LineEffect::Settings(
                        SettingsModel { update_interval_minutes: n as u64, ..cfg },
                    ),
                    None => LineEffect::Note(
                        NoteModel::Failed("bad update_interval_minutes: "@ + v),
                    ),
                }
            } else if is_city_key(key) && v.len() > 0 {
                LineEffect::Settings(SettingsModel { city: Some(v), ..cfg })
            } else {
                LineEffect::Settings(cfg)
            }
        },
    }
}

/// The settings and notes after the lines of `s` from `pos` on; reading
/// stops after the first failed line.
pub open spec fn weather_config_from(
    s: Seq<char>,
    pos: int,
    cfg: SettingsModel,
    notes: Seq<NoteModel>,
) -> (SettingsModel, Seq<NoteModel>)
    decreases s.len() + 1 - pos,
{
    if pos < 0 || pos > s.len() {
        (cfg, notes)
    } else {
        let e = line_end(s, pos);
        proof {
            lemma_line_end_bounds(s, pos);
        }
        match weather_line_effect(cfg, s.subrange(pos, e)) {
            LineEffect::Settings(c) => weather_config_from(s, e + 1, c, notes),
            LineEffect::Note(NoteModel::Failed(m)) => (cfg, notes.push(NoteModel::Failed(m))),
            LineEffect::Note(n) => weather_config_from(s, e + 1, cfg, notes.push(n)),
        }
    }
}

/// A configuration text read line by line.
pub struct WeatherParse {
    /// The settings as the lines left them (from the defaults).
    pub settings: WeatherSettings,
    /// The coordinate values in line order, ending with the failure that
    /// stopped the reading, if one did.
    pub notes: Vec<WeatherNote>,
}

pub open spec fn notes_view(v: Seq<WeatherNote>) -> Seq<NoteModel> {
    v.map_values(|n: WeatherNote| n@)
}

/// The effect of the line `v[lo..hi]` on `cfg`: `None` when the settings
/// absorb it (changing `cfg` as the line says), otherwise the note it makes.
fn apply_weather_line(cfg: &mut WeatherSettings, v: &Vec<char>, lo: usize, hi: usize) -> (r: Option<WeatherNote>)
    requires
        lo <= hi <= v@.len(),
    ensures
        match weather_line_effect(old(cfg)@, v@.subrange(lo as int, hi as int)) {
            LineEffect::Settings(c) => r is None && final(cfg)@ == c,
            LineEffect::Note(n) => r is Some && r->0@ == n && final(cfg)@ == old(cfg)@,
        },
{
    let ghost line = v@.subrange(lo as int, hi as int);
    match shape_of_line(v, lo, hi) {
        LineShape::Pair { key_lo, key_hi, value_lo, value_hi } => {
            let ghost value = v@.subrange(value_lo as int, value_hi as int);
            if range_lower_eq_str(v, key_lo, key_hi, "latitude") || range_lower_eq_str(v, key_lo, key_hi, "lat") {
                return Some(WeatherNote::Latitude(string_from_range(v, value_lo, value_hi)));
            }
            if range_lower_eq_str(v, key_lo, key_hi, "longitude") || range_lower_eq_str(v, key_lo, key_hi, "lon")
                || range_lower_eq_str(v, key_lo, key_hi, "lng") {
                return Some(WeatherNote::Longitude(string_from_range(v, value_lo, value_hi)));
            }
            if range_lower_eq_str(v, key_lo, key_hi, "timezone") || range_lower_eq_str(v, key_lo, key_hi, "tz") {
                cfg.timezone = string_from_range(v, value_lo, value_hi);
                return None;
            }
            if range_lower_eq_str(v, key_lo, key_hi, "units") || range_lower_eq_str(
                v,
                key_lo,
                key_hi,
                "temperature_unit",
            ) {
                if range_lower_eq_str(v, value_lo, value_hi, "fahrenheit") || range_lower_eq_str(
                    v,
                    value_lo,
                    value_hi,
                    "f",
                ) || range_lower_eq_str(v, value_lo, value_hi, "farenheit") {
                    cfg.units = TemperatureUnit::Fahrenheit;
                    return None;
                }
                if range_lower_eq_str(v, value_lo, value_hi, "celsius") || range_lower_eq_str(
                    v,
                    value_lo,
                    value_hi,
                    "c",
                ) || range_lower_eq_str(v, value_lo, value_hi, "centigrade") {
                    cfg.units = TemperatureUnit::Celsius;
                    return None;
                }
                let other = lower_string_range(v, value_lo, value_hi);
                return Some(WeatherNote::Failed(concat("unknown units: ", other.as_str())));
            }
            if range_lower_eq_str(v, key_lo, key_hi, "update_interval_minutes") || range_lower_eq_str(
                v,
                key_lo,
                key_hi,
                "update_minutes",
            ) || range_lower_eq_str(v, key_lo, key_hi, "interval") {
                match parse_u64(v, value_lo, value_hi) {
                    Some(n) => {
                        cfg.update_interval_minutes = n;
                        return None;
                    },
                    None => {
                        let text = string_from_range(v, value_lo, value_hi);
                        return Some(
                            WeatherNote::Failed(concat("bad update_interval_minutes: ", text.as_str())),
                        );
                    },
                }
            }
            if range_lower_eq_str(v, key_lo, key_hi, "city") || range_lower_eq_str(v, key_lo, key_hi, "location") {
                if value_lo < value_hi {
                    cfg.city = Some(string_from_range(v, value_lo, value_hi));
                }
                return None;
            }
            None
        },
        _ => None,
    }
}

/// Reads a weather configuration text from the defaults: the settings, and
/// the coordinate values and first failure in line order. A configuration
/// is valid when no note failed and every coordinate value reads as a
/// number; the last latitude and longitude given are the ones that hold.
pub fn parse_weather_config(content: &str) -> (r: WeatherParse)
    ensures
        (r.settings@, notes_view(r.notes@)) == weather_config_from(content@, 0, default_settings(), seq![]),
{
    let v = chars_of(content);
    let mut cfg = WeatherSettings::default();
    let mut notes: Vec<WeatherNote> = Vec::new();
    let mut pos: usize = 0;
    assert(notes_view(notes@) =~= seq![]);
    loop
        invariant_except_break
            weather_config_from(v@, 0, default_settings(), seq![]) == weather_config_from(
                v@,
                pos as int,
                cfg@,
                notes_view(notes@),
            ),
        invariant
            pos <= v@.len(),
            v@ == content@,
        ensures
            weather_config_from(v@, 0, default_settings(), seq![]) == (cfg@, notes_view(notes@)),
        decreases v@.len() - pos,
    {
        let e = find_line_end(&v, pos);
        let ghost before = cfg@;
        let ghost before_notes = notes_view(notes@);
        let outcome = apply_weather_line(&mut cfg, &v, pos, e);
        match outcome {
            None => {},
            Some(note) => {
                let failed = match &note {
                    WeatherNote::Failed(_) => true,
                    _ => false,
                };
                let ghost n = note@;
                notes.push(note);
                assert(notes_view(notes@) =~= before_notes.push(n));
                if failed {
                    break;
                }
            },
        }
        assert(weather_config_from(v@, pos as int, before, before_notes) == weather_config_from(
            v@,
            e + 1,
            cfg@,
            notes_view(notes@),
        ));
        if e >= v.len() {
            assert(weather_config_from(v@, e + 1, cfg@, notes_view(notes@)) == (cfg@, notes_view(notes@)));
            break;
        }
        pos = e + 1;
    }
    WeatherParse { settings: cfg, notes }
}


/// The places the weather configuration is looked for, in order:
/// `config/weather.conf`, then `config/weather.conf.example`.
pub fn weather_config_candidates(repo_root: &str) -> (r: Vec<String>)
    ensures
        views(r@) == config_file_candidates(seq!["config/weather.conf"@, "config/weather.conf.example"@], repo_root@),
{
    config_file_path_candidates("config/weather.conf", "config/weather.conf.example", repo_root)
}

/// The weather configuration file: the first of its candidates that
/// exists, by the flags in `exists` (one per candidate of
/// [`weather_config_candidates`]).
pub fn resolve_weather_config(repo_root: &str, exists: &Vec<bool>) -> (r: Option<String>)
    ensures
        opt_view(r) == first_file(
            config_file_candidates(seq!["config/weather.conf"@, "config/weather.conf.example"@], repo_root@),
            exists@,
        ),
{
    let c = weather_config_candidates(repo_root);
    first_existing(&c, exists)
}

/// Law: a `units` (or `temperature_unit`) line, key and value in any ASCII
/// case, sets Celsius for the values "celsius", "c" and "centigrade", and
/// Fahrenheit for "fahrenheit", "f" and "farenheit", leaving the other
/// settings as they were; no value names both units, and any other value
/// rejects the configuration as an unknown unit.
pub proof fn lemma_units_values(cfg: SettingsModel, line: Seq<char>, k: Seq<char>, v: Seq<char>)
    requires
        line_pair(line) == Some((k, v)),
        to_lower(k) == "units"@ || to_lower(k) == "temperature_unit"@,
    ensures
        to_lower(v) == "celsius"@ || to_lower(v) == "c"@ || to_lower(v) == "centigrade"@
            ==> weather_line_effect(cfg, line) == LineEffect::Settings(
                SettingsModel { units: TemperatureUnit::Celsius, ..cfg },
            ),
        to_lower(v) == "fahrenheit"@ || to_lower(v) == "f"@ || to_lower(v) == "farenheit"@
            ==> weather_line_effect(cfg, line) == LineEffect::Settings(
                SettingsModel { units: TemperatureUnit::Fahrenheit, ..cfg },
            ),
        !(to_lower(v) == "celsius"@ || to_lower(v) == "c"@ || to_lower(v) == "centigrade"@
            || to_lower(v) == "fahrenheit"@ || to_lower(v) == "f"@ || to_lower(v) == "farenheit"@)
            ==> weather_line_effect(cfg, line) == LineEffect::Note(
                NoteModel::Failed("unknown units: "@ + to_lower(v)),
            ),
{
    let key = to_lower(k);
    let name = to_lower(v);
    reveal_strlit("latitude");
    reveal_strlit("lat");
    reveal_strlit("longitude");
    reveal_strlit("lon");
    reveal_strlit("lng");
    reveal_strlit("timezone");
    reveal_strlit("tz");
    reveal_strlit("units");
    reveal_strlit("temperature_unit");
    reveal_strlit("fahrenheit");
    reveal_strlit("f");
    reveal_strlit("farenheit");
    reveal_strlit("celsius");
    reveal_strlit("c");
    reveal_strlit("centigrade");
    if key == "units"@ {
        assert(key =~= seq!['u', 'n', 'i', 't', 's']);
    } else if key == "temperature_unit"@ {
        assert(key =~= seq!['t', 'e', 'm', 'p', 'e', 'r', 'a', 't', 'u', 'r', 'e', '_', 'u', 'n', 'i', 't']);
    }
    assert(!is_latitude_key(key) && !is_longitude_key(key) && !is_timezone_key(key) && is_units_key(key));
    if name == "fahrenheit"@ {
        assert(name =~= seq!['f', 'a', 'h', 'r', 'e', 'n', 'h', 'e', 'i', 't']);
        assert(name[0] == 'f' && "celsius"@[0] == 'c' && "c"@[0] == 'c' && "centigrade"@[0] == 'c');
    } else if name == "f"@ {
        assert(name =~= seq!['f']);
        assert(name[0] == 'f' && "celsius"@[0] == 'c' && "c"@[0] == 'c' && "centigrade"@[0] == 'c');
    } else if name == "farenheit"@ {
        assert(name =~= seq!['f', 'a', 'r', 'e', 'n', 'h', 'e', 'i', 't']);
        assert(name[0] == 'f' && "celsius"@[0] == 'c' && "c"@[0] == 'c' && "centigrade"@[0] == 'c');
    } else if name == "celsius"@ {
        assert(name =~= seq!['c', 'e', 'l', 's', 'i', 'u', 's']);
        assert(name[0] == 'c');
        assert("fahrenheit"@[0] == 'f' && "f"@[0] == 'f' && "farenheit"@[0] == 'f');
        assert(unit_named(name) == Some(TemperatureUnit::Celsius));
        assert(weather_line_effect(cfg, line) == LineEffect::Settings(
            SettingsModel { units: TemperatureUnit::Celsius, ..cfg },
        ));
    } else if name == "c"@ {
        assert(name =~= seq!['c']);
        assert(name[0] == 'c');
        assert("fahrenheit"@[0] == 'f' && "f"@[0] == 'f' && "farenheit"@[0] == 'f');
        assert(unit_named(name) == Some(TemperatureUnit::Celsius));
        assert(weather_line_effect(cfg, line) == LineEffect::Settings(
            SettingsModel { units: TemperatureUnit::Celsius, ..cfg },
        ));
    } else if name == "centigrade"@ {
        assert(name =~= seq!['c', 'e', 'n', 't', 'i', 'g', 'r', 'a', 'd', 'e']);
        assert(name[0] == 'c');
        assert("fahrenheit"@[0] == 'f' && "f"@[0] == 'f' && "farenheit"@[0] == 'f');
        assert(unit_named(name) == Some(TemperatureUnit::Celsius));
        assert(weather_line_effect(cfg, line) == LineEffect::Settings(
            SettingsModel { units: TemperatureUnit::Celsius, ..cfg },
        ));
    }
}

/// Whether a configuration read into `notes` is taken, given for each
/// note whether its coordinate text reads as a number (`reads[k]` for the
/// `k`-th; a missing flag counts as no): the notes are checked in order from
/// `i`, and the first failure, or the first coordinate that does not read,
/// rejects the configuration with its message.
pub open spec fn notes_verdict(notes: Seq<NoteModel>, reads: Seq<bool>, i: int) -> Result<(), Seq<char>>
    decreases notes.len() - i,
{
    if i < 0 || i >= notes.len() {
        Ok(())
    } else {
        let good = i < reads.len() && reads[i];
        match notes[i] {
            NoteModel::Failed(m) => Err(m),
            NoteModel::Latitude(t) => if good {
                notes_verdict(notes, reads, i + 1)
            } else {
                Err("bad latitude: "@ + t)
            },
            NoteModel::Longitude(t) => if good {
                notes_verdict(notes, reads, i + 1)
            } else {
                Err("bad longitude: "@ + t)
            },
        }
    }
}

/// Whether the configuration read into `notes` is taken (`Ok`), or
/// rejected, so that the defaults are used, with the message of its first
/// bad note; `reads[k]` says whether the `k`-th note's coordinate text
/// reads as a number.
pub fn check_notes(notes: &Vec<WeatherNote>, reads: &Vec<bool>) -> (r: Result<(), String>)
    ensures
        match r {
            Ok(_) => notes_verdict(notes_view(notes@), reads@, 0) == Ok::<(), Seq<char>>(()),
            Err(e) => notes_verdict(notes_view(notes@), reads@, 0) == Err::<(), Seq<char>>(e@),
        },
{
    let ghost nv = notes_view(notes@);
    let mut i: usize = 0;
    while i < notes.len()
        invariant
            nv == notes_view(notes@),
            i <= notes@.len(),
            notes_verdict(nv, reads@, 0) == notes_verdict(nv, reads@, i as int),
        decreases notes.len() - i,
    {
        let good = i < reads.len() && reads[i];
        assert(nv[i as int] == notes@[i as int]@);
        match &notes[i] {
            WeatherNote::Failed(m) => {
                return Err(m.clone());
            },
            WeatherNote::Latitude(t) => {
                if !good {
                    return Err(concat("bad latitude: ", t.as_str()));
                }
            },
            WeatherNote::Longitude(t) => {
                if !good {
                    return Err(concat("bad longitude: ", t.as_str()));
                }
            },
        }
        i = i + 1;
    }
    Ok(())
}

} // verus!
