//! The weather caches: when a cached city name or weather report may stand
//! in for a fresh lookup, and how often the report is refreshed.
//!
//! The cache files are read and written by the caller; their coordinates
//! are compared there, and the outcome comes in as `same_location`.

use vstd::prelude::*;
use crate::text::string_of;
use crate::storage::linux::{XdgEnv, linux_path, resolve_logical_path};
use crate::modules::weather::api::WeatherReport;
use crate::modules::weather::config::{ConfigMeta, DEFAULT_UPDATE_MINUTES, WeatherSettings, unit_param};
use crate::modules::weather::icons::{WeatherIcon, icon_of};

verus! {

/// How long a looked-up city name stays good, in seconds.
pub const CITY_MAX_AGE_SECS: u64 = 3600;

/// Refresh interval while weather alerts are active, in seconds.
pub const ALERT_INTERVAL_SECS: u64 = 300;

/// Whole seconds since the Unix epoch of a time given in nanoseconds from
/// it; times before the epoch count as 0.
pub open spec fn epoch_secs(nanos: i128) -> int {
    if nanos < 0 {
        0
    } else {
        nanos / 1_000_000_000
    }
}

/// Whole seconds since the Unix epoch of a time given in nanoseconds from
/// it (0 before the epoch).
pub fn system_time_secs(nanos: i128) -> (r: u64)
    requires
        epoch_secs(nanos) <= u64::MAX,
    ensures
        r == epoch_secs(nanos),
{
    if nanos < 0 {
        0
    } else {
        (nanos / 1_000_000_000) as u64
    }
}

/// The configuration's modification time in seconds, 0 when unknown.
pub open spec fn config_secs(meta: ConfigMeta) -> int {
    match meta.modified {
        Some(n) => epoch_secs(n),
        None => 0,
    }
}

/// The configuration's modification time in seconds, 0 when unknown.
pub fn config_mtime(meta: &ConfigMeta) -> (r: u64)
    requires
        config_secs(*meta) <= u64::MAX,
    ensures
        r == config_secs(*meta),
{
    match meta.modified {
        Some(n) => system_time_secs(n),
        None => 0,
    }
}

/// The refresh interval in seconds: five minutes while alerts are active,
/// otherwise the configured number of minutes.
pub open spec fn interval_secs(minutes: u64, alerts_active: bool) -> int {
    if alerts_active {
        ALERT_INTERVAL_SECS as int
    } else {
        minutes * 60
    }
}

/// The refresh interval in seconds.
pub fn update_interval(settings: &WeatherSettings, alerts_active: bool) -> (r: u64)
    requires
        alerts_active || settings.update_interval_minutes * 60 <= u64::MAX,
    ensures
        r == interval_secs(settings.update_interval_minutes, alerts_active),
{
    if alerts_active {
        ALERT_INTERVAL_SECS
    } else {
        settings.update_interval_minutes * 60
    }
}

/// The refresh interval, in minutes, used when none is configured.
pub fn default_update_minutes() -> (r: u64)
    ensures
        r == DEFAULT_UPDATE_MINUTES,
{
    DEFAULT_UPDATE_MINUTES
}

/// Seconds from `then` to `now`, 0 when `then` is later.
pub fn age_since(now: u64, then: u64) -> (r: u64)
    ensures
        r == if now >= then { now - then } else { 0 },
{
    now.saturating_sub(then)
}

/// The cached city lookup, apart from its coordinates.
#[derive(Clone, Debug)]
pub struct CityCacheRecord {
    pub city: String,
    /// Modification time (seconds) of the configuration it was made under.
    pub config_mtime: u64,
    /// When the lookup was made (seconds since the epoch).
    pub looked_up_at: u64,
}

/// Where the panel's city name comes from.
pub enum CitySource {
    /// The configuration names it.
    Configured(String),
    /// A fresh enough cached lookup has it.
    Cached(String),
    /// It must be looked up from the coordinates.
    LookUp,
}

/// The cached city may be used: made for the same coordinates, under the
/// same configuration, less than an hour ago.
pub open spec fn city_cache_fresh(rec: CityCacheRecord, same_location: bool, config_mtime: u64, now: u64) -> bool {
    &&& same_location
    &&& rec.config_mtime == config_mtime
    &&& (if now >= rec.looked_up_at { now - rec.looked_up_at } else { 0 }) < CITY_MAX_AGE_SECS
}

/// Decides where the city name comes from: the configuration's override,
/// else a fresh cached lookup (`cached`, whose coordinates match the
/// configuration's when `same_location`), else a new lookup.
pub fn city_source(
    settings: &WeatherSettings,
    cached: Option<CityCacheRecord>,
    same_location: bool,
    config_mtime: u64,
    now: u64,
) -> (r: CitySource)
    ensures
        match r {
            CitySource::Configured(c) => settings.city == Some(c),
            CitySource::Cached(c) => settings.city is None && cached is Some && city_cache_fresh(
                cached->0,
                same_location,
                config_mtime,
                now,
            ) && c == cached->0.city,
            CitySource::LookUp => settings.city is None && !(cached is Some && city_cache_fresh(
                cached->0,
                same_location,
                config_mtime,
                now,
            )),
        },
{
    match &settings.city {
        Some(c) => CitySource::Configured(c.clone()),
        None => match cached {
            Some(rec) => {
                if same_location && rec.config_mtime == config_mtime && age_since(now, rec.looked_up_at)
                    < CITY_MAX_AGE_SECS {
                    CitySource::Cached(rec.city)
                } else {
                    CitySource::LookUp
                }
            },
            None => CitySource::LookUp,
        },
    }
}

/// The cached weather report, apart from its coordinates and temperature.
#[derive(Clone, Debug)]
pub struct WeatherCacheRecord {
    /// The unit name it was fetched in.
    pub units: String,
    /// Modification time (seconds) of the configuration it was made under.
    pub config_mtime: u64,
    pub update_interval_minutes: u64,
    /// When it was fetched (seconds since the epoch).
    pub fetched_at: u64,
    pub city: String,
    pub humidity: u8,
    pub condition: String,
    pub weather_code: u16,
    pub aqi: Option<u32>,
    pub aqi_label: String,
}

/// The cached report belongs to the current configuration: same
/// coordinates, units, configuration time and interval, and the cache file
/// is no older than the configuration.
pub open spec fn cache_valid(
    rec: WeatherCacheRecord,
    same_location: bool,
    settings: WeatherSettings,
    config_mtime: u64,
    cache_file_mtime: Option<u64>,
) -> bool {
    &&& same_location
    &&& rec.units@ == unit_param(settings.units)
    &&& rec.config_mtime == config_mtime
    &&& rec.update_interval_minutes == settings.update_interval_minutes
    &&& match cache_file_mtime {
        Some(m) => m >= config_mtime,
        None => false,
    }
}

/// Whether the cached report belongs to the current configuration
/// (`cache_file_mtime` is the cache file's modification time in seconds,
/// `None` when it could not be read).
pub fn weather_cache_valid(
    rec: &WeatherCacheRecord,
    same_location: bool,
    settings: &WeatherSettings,
    config_mtime: u64,
    cache_file_mtime: Option<u64>,
) -> (r: bool)
    ensures
        r == cache_valid(*rec, same_location, *settings, config_mtime, cache_file_mtime),
{
    let units = string_of(settings.units.open_meteo_param());
    same_location && rec.units == units && rec.config_mtime == config_mtime
        && rec.update_interval_minutes == settings.update_interval_minutes && match cache_file_mtime {
        Some(m) => m >= config_mtime,
        None => false,
    }
}

/// Whether a valid cached report is recent enough to serve instead of a
/// fetch: younger than the refresh interval.
pub fn cache_serves(valid: bool, rec: &WeatherCacheRecord, now: u64, interval: u64) -> (r: bool)
    ensures
        r == (valid && (if now >= rec.fetched_at { now - rec.fetched_at } else { 0 }) < interval),
{
    valid && age_since(now, rec.fetched_at) < interval
}

/// The report a cache record gives for `city` (the cached city when `city`
/// is empty); the icon follows the weather code.
pub fn report_from_cache(rec: WeatherCacheRecord, city: &str) -> (r: WeatherReport)
    ensures
        r.humidity == rec.humidity,
        r.condition == rec.condition,
        r.weather_code == rec.weather_code,
        r.icon == icon_of(rec.weather_code),
        r.aqi == rec.aqi,
        r.aqi_label == rec.aqi_label,
        r.city@ == if city@.len() == 0 { rec.city@ } else { city@ },
{
    let name = if city.unicode_len() == 0 {
        rec.city
    } else {
        string_of(city)
    };
    WeatherReport {
        humidity: rec.humidity,
        condition: rec.condition,
        weather_code: rec.weather_code,
        icon: WeatherIcon::from_code(rec.weather_code),
        aqi: rec.aqi,
        aqi_label: rec.aqi_label,
        city: name,
    }
}

/// The record that saves `report`, fetched at `now` under the current
/// configuration.
pub fn cache_record(settings: &WeatherSettings, config_mtime: u64, report: &WeatherReport, now: u64) -> (r: WeatherCacheRecord)
    ensures
        r.units@ == unit_param(settings.units),
        r.config_mtime == config_mtime,
        r.update_interval_minutes == settings.update_interval_minutes,
        r.fetched_at == now,
        r.city == report.city,
        r.humidity == report.humidity,
        r.condition == report.condition,
        r.weather_code == report.weather_code,
        r.aqi == report.aqi,
        r.aqi_label == report.aqi_label,
{
    WeatherCacheRecord {
        units: string_of(settings.units.open_meteo_param()),
        config_mtime,
        update_interval_minutes: settings.update_interval_minutes,
        fetched_at: now,
        city: report.city.clone(),
        humidity: report.humidity,
        condition: report.condition.clone(),
        weather_code: report.weather_code,
        aqi: report.aqi,
        aqi_label: report.aqi_label.clone(),
    }
}

/// Law: a report saved under the current configuration reads back, while
/// the cache file is no older than the configuration, as valid for that
/// configuration and location.
pub proof fn lemma_saved_record_valid(
    rec: WeatherCacheRecord,
    settings: WeatherSettings,
    config_mtime: u64,
    file_mtime: u64,
)
    requires
        rec.units@ == unit_param(settings.units),
        rec.config_mtime == config_mtime,
        rec.update_interval_minutes == settings.update_interval_minutes,
        file_mtime >= config_mtime,
    ensures
        cache_valid(rec, true, settings, config_mtime, Some(file_mtime)),
{
}


/// Where a cache file (a logical `cache/...` path) lives.
pub fn resolve_cache_path(name: &str, env: &XdgEnv) -> (r: Option<String>)
    ensures
        r matches Some(p) && p@ == linux_path(name@, *env),
{
    Some(resolve_logical_path(name, env))
}


/// Law: a cached report stamped under another configuration time (the
/// configuration changed since) is never valid.
pub proof fn lemma_cache_invalid_after_config_change(
    rec: WeatherCacheRecord,
    same_location: bool,
    settings: WeatherSettings,
    config_mtime: u64,
    cache_file_mtime: Option<u64>,
)
    requires
        rec.config_mtime != config_mtime,
    ensures
        !cache_valid(rec, same_location, settings, config_mtime, cache_file_mtime),
{
}

} // verus!
