use chrono::Datelike;
use pi_smart_clock::calendar::CivilDate;
use pi_smart_clock::modules::holidays::config::{
    config_changed, load_holidays_config_loaded, normalize_country, parse_holidays_config, ConfigMeta,
};
use pi_smart_clock::modules::holidays::{
    easter_sunday, format_holiday, holidays_for_year, holidays_supported_for, last_weekday, nth_weekday,
    victoria_day, HolidaysPanel,
};

fn date(year: i32, month: u32, day: u32) -> CivilDate {
    CivilDate { year, month, day }
}

#[test]
fn normalizes_variants() {
    assert_eq!(normalize_country("uk"), "GB");
    assert_eq!(normalize_country("United States"), "US");
    assert_eq!(normalize_country("de"), "DE");
}

#[test]
fn holidays_panel_computes_real_data() {
    let loaded = load_holidays_config_loaded(None, None, None);
    let now = chrono::Local::now().date_naive();
    let today = date(now.year(), now.month(), now.day());
    assert!(holidays_supported_for(&loaded.config.country, today.year));
    let panel = HolidaysPanel::new(loaded, today);
    let (title, _) = panel.title();
    assert!(title.to_lowercase().contains("holiday"), "title should mention holidays: {}", title);
    for line in panel.lines() {
        if !line.text.is_empty() {
            assert!(line.text.contains(" - "), "holiday line should contain ' - ': got '{}'", line.text);
        }
    }
}

#[test]
fn us_holidays_include_key_dates() {
    let list = holidays_for_year(2026, "US");
    let names: Vec<_> = list.iter().map(|(_, n)| *n).collect();
    assert!(names.iter().any(|n| n.contains("Juneteenth")));
    assert!(names.iter().any(|n| n.contains("Thanksgiving")));
    assert!(names.iter().any(|n| n.contains("Christmas")));
    assert!(names.iter().any(|n| n.contains("MLK")));
}

#[test]
fn us_dates_2026() {
    let list = holidays_for_year(2026, "US");
    let find = |name: &str| list.iter().find(|(_, n)| n.contains(name)).map(|(d, _)| *d);
    assert_eq!(find("MLK"), Some(date(2026, 1, 19)));
    assert_eq!(find("Thanksgiving"), Some(date(2026, 11, 26)));
    assert_eq!(find("Juneteenth"), Some(date(2026, 6, 19)));
    for w in list.windows(2) {
        let (a, b) = (w[0].0, w[1].0);
        assert!((a.month, a.day) < (b.month, b.day), "dates must be strictly increasing");
    }
}

#[test]
fn easter_dates() {
    assert_eq!(easter_sunday(2024), date(2024, 3, 31));
    assert_eq!(easter_sunday(2025), date(2025, 4, 20));
    assert_eq!(easter_sunday(2026), date(2026, 4, 5));
}

#[test]
fn weekday_rules() {
    assert_eq!(nth_weekday(2026, 1, 3, 0), Some(date(2026, 1, 19)));
    assert_eq!(nth_weekday(2026, 2, 5, 0), None);
    assert_eq!(nth_weekday(2026, 1, 0, 0), None);
    assert_eq!(nth_weekday(2026, 1, i32::MAX, 0), None);
    assert_eq!(nth_weekday(2026, 1, i32::MIN, 0), None);
    assert_eq!(last_weekday(2026, 5, 0), Some(date(2026, 5, 25)));
    assert_eq!(victoria_day(2026), Some(date(2026, 5, 18)));
    assert_eq!(victoria_day(2025), Some(date(2025, 5, 19)));
    assert_eq!(victoria_day(2024), Some(date(2024, 5, 20)));
}

#[test]
fn holiday_line_format() {
    assert_eq!(format_holiday(date(2026, 7, 4), "Independence Day"), "Jul 4 - Independence Day");
    assert_eq!(format_holiday(date(2026, 12, 25), "Christmas"), "Dec 25 - Christmas");
}

#[test]
fn holidays_config_parsing() {
    let cfg = parse_holidays_config("# comment\ncountry = canada\nmax_upcoming = 4\n");
    assert_eq!(cfg.country, "CA");
    assert_eq!(cfg.max_upcoming, 4);
    let cfg = parse_holidays_config("max = 0\nregion=\nfoo=bar\n");
    assert_eq!(cfg.country, "US");
    assert_eq!(cfg.max_upcoming, 6);
}

#[test]
fn config_change_detection() {
    let meta = ConfigMeta { path: Some("h.conf".to_string()), modified: Some(5) };
    assert!(!config_changed(&meta, Some(5)));
    assert!(config_changed(&meta, Some(6)));
    assert!(!config_changed(&meta, None));
    let none = ConfigMeta { path: None, modified: Some(5) };
    assert!(!config_changed(&none, Some(6)));
}

#[test]
fn panel_lists_upcoming_from_today() {
    let loaded = load_holidays_config_loaded(Some("h.conf".to_string()), None, Some("country=US\nmax=2\n"));
    let panel = HolidaysPanel::new(loaded, date(2026, 11, 1));
    let lines: Vec<String> = panel.lines().into_iter().map(|l| l.text).collect();
    assert_eq!(lines.len(), 2);
    assert!(lines[0].starts_with("Nov 11"));
    assert!(lines[1].starts_with("Nov 26"));
}

#[test]
fn panel_reports_its_configuration() {
    let loaded = load_holidays_config_loaded(Some("h.conf".to_string()), Some(42), Some("country = uk\n"));
    let mut panel = HolidaysPanel::new(loaded, date(2026, 1, 2));
    assert_eq!(panel.config().country, "GB");
    assert_eq!(panel.config_meta().modified, Some(42));
    assert_eq!(panel.title().0, "Holidays (UK)");
    panel.tick(None, date(2026, 12, 30));
    let lines: Vec<String> = panel.lines().into_iter().map(|l| l.text).collect();
    assert!(lines.is_empty(), "no holidays left in the year: {:?}", lines);
}

#[test]
fn gb_easter_holidays_2026() {
    let list = holidays_for_year(2026, "gb");
    let find = |name: &str| list.iter().find(|(_, n)| *n == name).map(|(d, _)| *d);
    assert_eq!(find("Good Friday"), Some(date(2026, 4, 3)));
    assert_eq!(find("Easter Monday"), Some(date(2026, 4, 6)));
    assert_eq!(find("Early May Bank Holiday"), Some(date(2026, 5, 4)));
}

#[test]
fn normalizing_twice_changes_nothing() {
    for name in ["uk", " United Kingdom ", "de", "prc", "Nowhere", "  us  ", "CHINA"] {
        let once = normalize_country(name);
        assert_eq!(normalize_country(&once), once);
    }
}
