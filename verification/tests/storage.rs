use pi_smart_clock::storage::embedded;
use pi_smart_clock::storage::linux::{
    copy_file, find_config, first_existing, home_dir, push_repo_fallback, read_path_candidates,
    repo_fallbacks, repo_path_candidates, resolve_logical_path, resolve_repo_path, xdg_cache_dir,
    xdg_config_dir, XdgEnv,
};
use pi_smart_clock::storage::logical::{alarms_backup, alert_photo, ALARMS_CSV, WEATHER_DATA_CACHE};
use pi_smart_clock::text::path_join;

fn home_only() -> XdgEnv {
    XdgEnv {
        home: Some("/home/clock".to_string()),
        config_home: None,
        data_home: None,
        state_home: None,
        cache_home: None,
    }
}

#[test]
fn maps_sd_alarms_to_local_share() {
    let path = resolve_logical_path(ALARMS_CSV, &home_only());
    assert!(path.contains(".local/share/pi-smart-clock/config/alarms.csv"));
}

#[test]
fn maps_cache_to_xdg_cache() {
    let path = resolve_logical_path(WEATHER_DATA_CACHE, &home_only());
    assert!(path.contains(".cache/pi-smart-clock/weather_data.json"));
}

#[test]
fn maps_alarm_backup_to_state() {
    let path = resolve_logical_path("/sd/config/alarms_20260101_120000.csv.bak", &home_only());
    assert!(path.contains(".local/state/pi-smart-clock/backups/"));
}

#[test]
fn logical_paths_map_exactly() {
    let env = home_only();
    assert_eq!(
        resolve_logical_path("/sd/config/alarms.csv", &env),
        "/home/clock/.local/share/pi-smart-clock/config/alarms.csv"
    );
    assert_eq!(
        resolve_logical_path("/sd/config/weather.conf", &env),
        "/home/clock/.config/pi-smart-clock/weather.conf"
    );
    assert_eq!(
        resolve_logical_path("/sd/alerts/photo_7.bmp", &env),
        "/home/clock/.local/share/pi-smart-clock/alerts/photo_7.bmp"
    );
    assert_eq!(
        resolve_logical_path("/sd/config/alarms_x.csv.bak", &env),
        "/home/clock/.local/state/pi-smart-clock/backups/alarms_x.csv.bak"
    );
    assert_eq!(resolve_logical_path("other/file.txt", &env), "other/file.txt");
}

#[test]
fn xdg_variables_take_precedence() {
    let env = XdgEnv {
        home: None,
        config_home: Some("/etc/xdg".to_string()),
        data_home: None,
        state_home: None,
        cache_home: Some("/var/cache/".to_string()),
    };
    assert_eq!(home_dir(&env), ".");
    assert_eq!(xdg_config_dir(&env), "/etc/xdg/pi-smart-clock");
    assert_eq!(xdg_cache_dir(&env), "/var/cache/pi-smart-clock");
    assert_eq!(
        resolve_logical_path("cache/weather_city.json", &env),
        "/var/cache/pi-smart-clock/weather_city.json"
    );
}

#[test]
fn path_join_follows_std() {
    assert_eq!(path_join("a", "b"), "a/b");
    assert_eq!(path_join("a/", "b"), "a/b");
    assert_eq!(path_join("a", "/b"), "/b");
    assert_eq!(path_join("", "b"), "b");
    assert_eq!(path_join("a", ""), "a/");
}

#[test]
fn repo_candidates_in_order() {
    assert_eq!(
        repo_path_candidates("config/x.conf", "/repo"),
        vec!["/repo/config/x.conf".to_string(), "config/x.conf".to_string()]
    );
    assert_eq!(
        repo_path_candidates("/abs/x", "/repo"),
        vec!["/abs/x".to_string(), "/abs/x".to_string(), "/abs/x".to_string()]
    );
    assert_eq!(
        resolve_repo_path("config/x.conf", "/repo", &vec![false, true]),
        Some("config/x.conf".to_string())
    );
    assert_eq!(resolve_repo_path("config/x.conf", "/repo", &vec![false]), None);
}

#[test]
fn first_existing_takes_first_flagged() {
    let c = vec!["a".to_string(), "b".to_string(), "c".to_string()];
    assert_eq!(first_existing(&c, &vec![false, true, true]), Some("b".to_string()));
    assert_eq!(first_existing(&c, &vec![]), None);
}

#[test]
fn read_candidates_skip_duplicates() {
    let env = home_only();
    let fallbacks = repo_fallbacks(ALARMS_CSV);
    assert_eq!(
        fallbacks,
        vec!["config/alarms.csv".to_string(), "config/alarms.csv.example".to_string()]
    );
    let paths = read_path_candidates(ALARMS_CSV, &env, "/repo", &vec![vec![true, false], vec![false, true]]);
    assert_eq!(
        paths,
        vec![
            "/home/clock/.local/share/pi-smart-clock/config/alarms.csv".to_string(),
            "/repo/config/alarms.csv".to_string(),
            "config/alarms.csv.example".to_string(),
        ]
    );
    let none_found = read_path_candidates(ALARMS_CSV, &env, "/repo", &vec![]);
    assert_eq!(none_found, vec!["/home/clock/.local/share/pi-smart-clock/config/alarms.csv".to_string()]);
    let other = read_path_candidates("/sd/other.txt", &env, "/repo", &vec![vec![true, true]]);
    assert_eq!(other.len(), 1);
    assert!(repo_fallbacks("/sd/other").is_empty());
}

#[test]
fn read_candidates_list_the_xdg_path_once() {
    let mut env = home_only();
    env.data_home = Some("/d".to_string());
    let paths = read_path_candidates(ALARMS_CSV, &env, "/d/pi-smart-clock", &vec![vec![true, false]]);
    assert_eq!(paths, vec!["/d/pi-smart-clock/config/alarms.csv".to_string()]);
}

#[test]
fn push_repo_fallback_adds_new_paths_once() {
    let mut paths = vec!["a".to_string()];
    push_repo_fallback(&mut paths, &Some("b".to_string()));
    push_repo_fallback(&mut paths, &Some("a".to_string()));
    push_repo_fallback(&mut paths, &None);
    assert_eq!(paths, vec!["a".to_string(), "b".to_string()]);
}

#[test]
fn push_repo_fallback_compares_paths_not_text() {
    let mut paths = vec!["/a/b".to_string()];
    push_repo_fallback(&mut paths, &Some("/a//b".to_string()));
    push_repo_fallback(&mut paths, &Some("/a/./b/".to_string()));
    assert_eq!(paths, vec!["/a/b".to_string()]);
    push_repo_fallback(&mut paths, &Some("a/b".to_string()));
    push_repo_fallback(&mut paths, &Some("./a/b".to_string()));
    assert_eq!(paths, vec!["/a/b".to_string(), "a/b".to_string(), "./a/b".to_string()]);
}

#[test]
fn read_candidates_treat_doubled_slashes_as_one_path() {
    let mut env = home_only();
    env.data_home = Some("/d".to_string());
    let paths = read_path_candidates(ALARMS_CSV, &env, "/d//pi-smart-clock", &vec![vec![true, false]]);
    assert_eq!(paths, vec!["/d/pi-smart-clock/config/alarms.csv".to_string()]);
}

#[test]
fn find_config_prefers_user_directory() {
    let env = home_only();
    assert_eq!(
        find_config("faces.conf", "faces.conf.example", &env, "/repo", &vec![true]),
        Some("/home/clock/.config/pi-smart-clock/faces.conf".to_string())
    );
    assert_eq!(
        find_config("faces.conf", "faces.conf.example", &env, "/repo", &vec![false, false, false, true, false]),
        Some("/repo/config/faces.conf.example".to_string())
    );
    assert_eq!(find_config("faces.conf", "faces.conf.example", &env, "/repo", &vec![]), None);
}

#[test]
fn copy_file_reports_missing_source() {
    match copy_file("/sd/config/alarms.csv", None) {
        Err(e) => assert_eq!(e, "copy source missing: /sd/config/alarms.csv"),
        Ok(_) => panic!("expected an error"),
    }
    assert_eq!(copy_file("x", Some(vec![1, 2, 3])).unwrap(), vec![1, 2, 3]);
}

#[test]
fn logical_names() {
    assert_eq!(alarms_backup("20260101_120000"), "/sd/config/alarms_20260101_120000.csv.bak");
    assert_eq!(alert_photo("42"), "/sd/alerts/photo_42.bmp");
}

#[test]
fn embedded_paths_live_on_the_card() {
    assert_eq!(embedded::resolve_logical_path("cache/weather_data.json"), "/sd/cache/weather_data.json");
    assert_eq!(embedded::resolve_logical_path("/sd/config/alarms.csv"), "/sd/config/alarms.csv");
}
