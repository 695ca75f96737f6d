use pi_smart_clock::modules::weather::api::{
    aqi_label, city_or_nearby, pick_city_name, report_from_forecast, CityAddress, WeatherReport,
};
use pi_smart_clock::modules::weather::cache::{
    age_since, cache_record, cache_serves, city_source, config_mtime, default_update_minutes,
    report_from_cache, resolve_cache_path, system_time_secs, update_interval, weather_cache_valid,
    CityCacheRecord, CitySource, WeatherCacheRecord,
};
use pi_smart_clock::modules::weather::config::{
    check_notes, parse_weather_config, resolve_weather_config, weather_config_candidates, ConfigMeta,
    TemperatureUnit, WeatherNote, WeatherSettings,
};
use pi_smart_clock::modules::weather::icons::{wmo_condition, WeatherIcon};
use pi_smart_clock::modules::weather::{truncate, WeatherPanel};
use pi_smart_clock::storage::linux::XdgEnv;

fn settings() -> WeatherSettings {
    WeatherSettings {
        timezone: "auto".to_string(),
        units: TemperatureUnit::Fahrenheit,
        update_interval_minutes: 30,
        city: None,
    }
}

fn record(config_mtime: u64) -> WeatherCacheRecord {
    WeatherCacheRecord {
        units: "fahrenheit".to_string(),
        config_mtime,
        update_interval_minutes: 30,
        fetched_at: 0,
        city: "Test".to_string(),
        humidity: 50,
        condition: "Clear".to_string(),
        weather_code: 0,
        aqi: Some(42),
        aqi_label: aqi_label(42),
    }
}

#[test]
fn weather_cache_invalid_when_config_newer() {
    let config = settings();
    let (latitude, longitude) = (40.0_f64, -86.0_f64);
    let meta = ConfigMeta { path: None, modified: Some(2000 * 1_000_000_000) };
    let cache = record(1000);
    let (cache_latitude, cache_longitude) = (40.0_f64, -86.0_f64);
    let same_location = cache_latitude == latitude && cache_longitude == longitude;
    let mtime = config_mtime(&meta);
    assert!(!weather_cache_valid(&cache, same_location, &config, mtime, Some(2500)));
}

#[test]
fn weather_cache_valid_when_stamped_for_config() {
    let config = settings();
    let meta = ConfigMeta { path: None, modified: Some(2000 * 1_000_000_000 + 5) };
    let mtime = config_mtime(&meta);
    assert_eq!(mtime, 2000);
    assert!(weather_cache_valid(&record(2000), true, &config, mtime, Some(2000)));
    assert!(!weather_cache_valid(&record(2000), false, &config, mtime, Some(2000)));
    assert!(!weather_cache_valid(&record(2000), true, &config, mtime, Some(1999)));
    assert!(!weather_cache_valid(&record(2000), true, &config, mtime, None));
    let celsius = WeatherSettings { units: TemperatureUnit::Celsius, ..settings() };
    assert!(!weather_cache_valid(&record(2000), true, &celsius, mtime, Some(2000)));
}

#[test]
fn default_update_interval_is_30_minutes() {
    assert_eq!(WeatherSettings::default().update_interval_minutes, 30);
    assert_eq!(default_update_minutes(), 30);
}

#[test]
fn intervals_and_ages() {
    assert_eq!(update_interval(&settings(), false), 1800);
    assert_eq!(update_interval(&settings(), true), 300);
    assert_eq!(age_since(100, 40), 60);
    assert_eq!(age_since(40, 100), 0);
    assert_eq!(system_time_secs(-5), 0);
    assert_eq!(system_time_secs(1_999_999_999), 1);
    assert!(cache_serves(true, &record(0), 1000, 1800));
    assert!(!cache_serves(true, &record(0), 1800, 1800));
    assert!(!cache_serves(false, &record(0), 10, 1800));
}

#[test]
fn weather_config_lines() {
    let p = parse_weather_config("# home\nlat = 40.1\nLONGITUDE=-86.2\nunits = C\ninterval = +15\ncity = Indy\ntz=America/Indiana\n");
    assert_eq!(p.settings.units, TemperatureUnit::Celsius);
    assert_eq!(p.settings.update_interval_minutes, 15);
    assert_eq!(p.settings.city, Some("Indy".to_string()));
    assert_eq!(p.settings.timezone, "America/Indiana");
    assert_eq!(p.notes.len(), 2);
    match (&p.notes[0], &p.notes[1]) {
        (WeatherNote::Latitude(a), WeatherNote::Longitude(b)) => {
            assert_eq!(a, "40.1");
            assert_eq!(b, "-86.2");
        }
        _ => panic!("expected the coordinates"),
    }
}

#[test]
fn weather_config_failures_stop_reading() {
    let p = parse_weather_config("units = kelvin\nlat = 1\n");
    assert_eq!(p.notes.len(), 1);
    match &p.notes[0] {
        WeatherNote::Failed(m) => assert_eq!(m, "unknown units: kelvin"),
        _ => panic!("expected a failure"),
    }
    let p = parse_weather_config("interval = soon\n");
    match &p.notes[0] {
        WeatherNote::Failed(m) => assert_eq!(m, "bad update_interval_minutes: soon"),
        _ => panic!("expected a failure"),
    }
    let p = parse_weather_config("city =\n");
    assert_eq!(p.settings.city, None);
    assert!(p.notes.is_empty());
}

#[test]
fn weather_config_search_order() {
    let c = weather_config_candidates("/repo");
    assert_eq!(c.len(), 14);
    assert_eq!(c[13], "config/weather.conf.example");
    let mut flags = vec![false; 14];
    flags[8] = true;
    assert_eq!(resolve_weather_config("/repo", &flags), Some("/repo/config/weather.conf.example".to_string()));
}

#[test]
fn unit_names() {
    assert_eq!(TemperatureUnit::Fahrenheit.open_meteo_param(), "fahrenheit");
    assert_eq!(TemperatureUnit::Celsius.symbol(), "°C");
}

#[test]
fn icons_and_conditions() {
    assert_eq!(WeatherIcon::from_code(0), WeatherIcon::Clear);
    assert_eq!(WeatherIcon::from_code(82), WeatherIcon::Rain);
    assert_eq!(WeatherIcon::from_code(77), WeatherIcon::Snow);
    assert_eq!(WeatherIcon::from_code(4), WeatherIcon::Unknown);
    assert_eq!(wmo_condition(96), "Thunderstorm with hail");
    assert_eq!(wmo_condition(4), "Unknown");
    assert_eq!(WeatherIcon::Clear.asset_path(true), "status/moon.svg");
    assert_eq!(WeatherIcon::Clear.asset_at_hour(12), "status/sun.svg");
    assert_eq!(WeatherIcon::Clear.asset_at_hour(21), "status/moon.svg");
    assert_eq!(WeatherIcon::Fog.asset_path(false), "status/fog.svg");
}

#[test]
fn air_quality() {
    assert_eq!(aqi_label(0), "Good");
    assert_eq!(aqi_label(51), "Moderate");
    assert_eq!(aqi_label(150), "Unhealthy (sensitive)");
    assert_eq!(aqi_label(301), "Hazardous");
    let r = report_from_forecast(55, 3, Some(42), "Indy");
    assert_eq!(r.aqi_line(), "AQI 42 Good");
    assert_eq!(r.condition, "Overcast");
    assert_eq!(r.icon, WeatherIcon::Cloudy);
    let r = report_from_forecast(55, 3, None, "Indy");
    assert_eq!(r.aqi_label, "Unknown");
    assert_eq!(r.aqi_line(), "AQI unavailable");
}

#[test]
fn city_names() {
    let addr = CityAddress {
        city: None,
        town: Some("Carmel".to_string()),
        village: Some("V".to_string()),
        municipality: None,
        county: Some("Hamilton".to_string()),
    };
    assert_eq!(pick_city_name(Some("".to_string()), Some(addr.clone())), Some("Carmel".to_string()));
    assert_eq!(pick_city_name(Some("Fishers".to_string()), Some(addr)), Some("Fishers".to_string()));
    assert_eq!(pick_city_name(None, None), None);
    assert_eq!(city_or_nearby(None), "Nearby");
}

#[test]
fn city_sources() {
    let mut s = settings();
    let rec = CityCacheRecord { city: "Cached".to_string(), config_mtime: 7, looked_up_at: 1000 };
    match city_source(&s, Some(rec.clone()), true, 7, 2000) {
        CitySource::Cached(c) => assert_eq!(c, "Cached"),
        _ => panic!("expected the cached city"),
    }
    assert!(matches!(city_source(&s, Some(rec.clone()), true, 7, 4600), CitySource::LookUp));
    assert!(matches!(city_source(&s, Some(rec.clone()), false, 7, 2000), CitySource::LookUp));
    s.city = Some("Home".to_string());
    assert!(matches!(city_source(&s, Some(rec), true, 7, 2000), CitySource::Configured(_)));
}

#[test]
fn cache_round_trip() {
    let rep = report_from_forecast(40, 61, Some(120), "Indy");
    let rec = cache_record(&settings(), 9, &rep, 500);
    assert_eq!(rec.units, "fahrenheit");
    assert!(weather_cache_valid(&rec, true, &settings(), 9, Some(9)));
    let back = report_from_cache(rec.clone(), "");
    assert_eq!(back.city, "Indy");
    assert_eq!(back.icon, WeatherIcon::Rain);
    assert_eq!(report_from_cache(rec, "Carmel").city, "Carmel");
    let env = XdgEnv { home: Some("/h".to_string()), config_home: None, data_home: None, state_home: None, cache_home: None };
    assert_eq!(resolve_cache_path("cache/weather_data.json", &env), Some("/h/.cache/pi-smart-clock/weather_data.json".to_string()));
}

#[test]
fn truncation() {
    assert_eq!(truncate("Indianapolis", 18), "Indianapolis");
    assert_eq!(truncate("abcdef", 4), "abc…");
    assert_eq!(truncate("abc", 0), "…");
}

fn panel(report: Option<WeatherReport>) -> WeatherPanel {
    WeatherPanel::new(settings(), ConfigMeta { path: None, modified: None }, "Indianapolis".to_string(), report, 1000)
}

#[test]
fn weather_panel_text() {
    let p = panel(None);
    assert!(!p.has_data());
    assert_eq!(p.condition(), "Loading...");
    assert_eq!(p.humidity_line(), "Humidity --");
    assert_eq!(p.aqi_line(), "AQI --");
    assert_eq!(p.status_line(), "Waiting for data...");
    assert_eq!(p.icon(), WeatherIcon::Unknown);
    assert_eq!(p.panel_title(), "Indianapolis");
    let lines: Vec<String> = p.lines("--".to_string()).into_iter().map(|l| l.text).collect();
    assert_eq!(lines, vec!["--", "Loading...", "Humidity --", "AQI --", "Waiting for data..."]);
    let p = panel(Some(report_from_forecast(55, 0, Some(10), "A very long city name indeed")));
    assert_eq!(p.humidity_line(), "Humidity 55%");
    assert_eq!(p.status_line(), "");
    assert_eq!(p.panel_title(), "A very long city …");
    assert_eq!(p.lines("72°F".to_string()).len(), 4);
}

#[test]
fn weather_panel_refresh_cycle() {
    let mut p = panel(None);
    assert!(p.refresh_due(0, false));
    p.finish_refresh(Err("forecast request failed: timeout".to_string()), 5000);
    assert_eq!(p.status_line(), "forecast request failed: ti…");
    assert!(!p.refresh_due(5000 + 1_799_999, false));
    assert!(p.refresh_due(5000 + 1_800_000, false));
    assert!(p.refresh_due(5000 + 300_000, true));
    p.finish_refresh(Ok(report_from_forecast(60, 2, None, "Carmel")), 9000);
    assert_eq!(p.city_name, "Carmel");
    assert!(p.last_error.is_none());
    p.set_weather("Sunny".to_string());
    assert_eq!(p.condition(), "Sunny");
    p.apply_reloaded(settings(), ConfigMeta { path: None, modified: None }, "X".to_string(), None, 10);
    assert!(p.refresh_due(11, false));
}

#[test]
fn codes_without_icon_have_no_condition_name() {
    for code in 0..=120u16 {
        assert_eq!(WeatherIcon::from_code(code) == WeatherIcon::Unknown, wmo_condition(code) == "Unknown");
    }
}

#[test]
fn notes_accept_or_reject_the_configuration() {
    let lat = || WeatherNote::Latitude("39.5".to_string());
    let lon = || WeatherNote::Longitude("x86".to_string());
    let bad = || WeatherNote::Failed("unknown units: kelvin".to_string());
    assert_eq!(check_notes(&vec![], &vec![]), Ok(()));
    assert_eq!(check_notes(&vec![lat()], &vec![true]), Ok(()));
    assert_eq!(check_notes(&vec![lat()], &vec![]), Err("bad latitude: 39.5".to_string()));
    assert_eq!(
        check_notes(&vec![lat(), lon(), bad()], &vec![true, false, false]),
        Err("bad longitude: x86".to_string())
    );
    assert_eq!(
        check_notes(&vec![lat(), bad(), lon()], &vec![true, false, false]),
        Err("unknown units: kelvin".to_string())
    );
}
