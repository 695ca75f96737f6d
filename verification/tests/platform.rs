use pi_smart_clock::modules::holidays::easter_sunday;
use pi_smart_clock::ota::updater::OtaUpdater;
use pi_smart_clock::platform::dvi_gfx::{
    color24, emit_scanline_rgb, fill_scanline_disc, isqrt, paint_thick_point, DviGfx, Rgb, Run,
    DISPLAY_WIDTH,
};
use pi_smart_clock::platform::linux_audio::{
    config_file_path_candidates, media_candidates_for, media_path_candidates, resolve_media_path,
    ChimeKind,
};
use pi_smart_clock::platform::rp2040::PicoDviPlatform;
use pi_smart_clock::runtime::mode::UiMode;
use pi_smart_clock::runtime::tick::{
    dispatch, overlay, reads_button_first, runs_chimes, shows_clock, ModeState, ModeTask,
};
use pi_smart_clock::time_util::WallTime;
use pi_smart_clock::timing::{Duration, Instant, TickCounter};
use pi_smart_clock::web::esp_web::WebServer;

const BLACK: Rgb = Rgb { r: 0, g: 0, b: 0 };
const WHITE: Rgb = Rgb { r: 255, g: 255, b: 255 };

fn pixels(runs: &[Run]) -> Vec<Rgb> {
    let mut out = Vec::new();
    for r in runs {
        for _ in 0..r.width {
            out.push(r.color);
        }
    }
    out
}

#[test]
fn integer_square_roots() {
    assert_eq!(isqrt(0), 0);
    assert_eq!(isqrt(-4), 0);
    assert_eq!(isqrt(1), 1);
    assert_eq!(isqrt(15), 3);
    assert_eq!(isqrt(16), 4);
    assert_eq!(isqrt(2_147_395_600), 46340);
}

#[test]
fn colours_split_into_channels() {
    assert_eq!(color24(0x1a2b3c), Rgb { r: 0x1a, g: 0x2b, b: 0x3c });
}

#[test]
fn disc_rows_cover_the_display() {
    let mut runs = Vec::new();
    fill_scanline_disc(&mut runs, 100, 320, 100, 50, WHITE, BLACK);
    assert_eq!(runs, vec![
        Run { width: 270, color: BLACK },
        Run { width: 100, color: WHITE },
        Run { width: 270, color: BLACK },
    ]);
    let mut runs = Vec::new();
    fill_scanline_disc(&mut runs, 0, 320, 100, 50, WHITE, BLACK);
    assert_eq!(runs, vec![Run { width: DISPLAY_WIDTH, color: BLACK }]);
    let mut runs = Vec::new();
    fill_scanline_disc(&mut runs, 100, 10, 100, 50, WHITE, BLACK);
    assert_eq!(runs, vec![Run { width: 60, color: WHITE }, Run { width: 580, color: BLACK }]);
    assert_eq!(pixels(&runs).len(), DISPLAY_WIDTH as usize);
}

#[test]
fn thick_points_are_at_least_one_pixel() {
    let mut runs = Vec::new();
    paint_thick_point(&mut runs, 100, WHITE, 0, BLACK);
    assert_eq!(runs, vec![
        Run { width: 100, color: BLACK },
        Run { width: 1, color: WHITE },
        Run { width: 540, color: BLACK },
    ]);
}

#[test]
fn image_rows_are_run_length_encoded() {
    let row = [1u8, 2, 3, 1, 2, 3, 9, 9, 9];
    let mut runs = Vec::new();
    emit_scanline_rgb(&mut runs, &row, 3, BLACK);
    let a = Rgb { r: 1, g: 2, b: 3 };
    let b = Rgb { r: 9, g: 9, b: 9 };
    assert_eq!(runs, vec![
        Run { width: 2, color: a },
        Run { width: 1, color: b },
        Run { width: 637, color: BLACK },
    ]);
    let mut runs = Vec::new();
    emit_scanline_rgb(&mut runs, &row[..8], 3, WHITE);
    assert_eq!(runs, vec![Run { width: DISPLAY_WIDTH, color: WHITE }]);
}

#[test]
fn dvi_background() {
    let mut g = DviGfx::new();
    assert_eq!(g.bg, 0);
    g.fill_rect(0, 0, 10, 10, 0x123456);
    assert_eq!(g.bg, 0x123456);
    g.clear(0xff);
    assert_eq!(g.bg, 0xff);
}

#[test]
fn pico_wall_clock() {
    let mut p = PicoDviPlatform::new();
    assert_eq!(p.get_current_time(), WallTime::new(7, 0, 0));
    assert_eq!(p.frame_time(), None);
    p.finish_boot();
    p.delay_ms(250);
    assert_eq!(p.get_current_time(), WallTime::new(7, 0, 1));
    p.delay_ms(61_000);
    assert_eq!(p.frame_time(), Some(WallTime::new(7, 1, 2)));
    assert_eq!(p.ticks.now(), Instant(61_250));
    assert_eq!(p.card_path("cache/x.json"), "/sd/cache/x.json");
    assert!(!p.is_linux());
    assert!(!p.is_tock());
    assert_eq!(p.fetch_weather(), Ok((68, "Sunny".to_string())));
}

#[test]
fn wall_time_from_seconds() {
    assert_eq!(WallTime::from_seconds(3661), WallTime::new(1, 1, 1));
    assert_eq!(WallTime::from_seconds(86400 + 59), WallTime::new(0, 0, 59));
}

#[test]
fn embedded_timing() {
    assert_eq!(Duration::from_secs(3).as_millis(), 3000);
    assert_eq!(Duration::from_secs(u64::MAX).as_millis(), u64::MAX);
    assert_eq!(Duration::from_millis(7).as_millis(), 7);
    assert_eq!(Instant(10).duration_since(Instant(4)), Duration(6));
    assert_eq!(Instant(4).duration_since(Instant(10)), Duration(0));
    assert_eq!(Instant(4).sub(Duration(10)), Instant(0));
    let mut t = TickCounter::new();
    t.advance_ms(5);
    t.advance_ms(u64::MAX);
    assert_eq!(t.now(), Instant(u64::MAX));
}

#[test]
fn tick_modes() {
    let mut s = ModeState::new();
    assert!(s.boot_step());
    assert_eq!(s.mode, UiMode::Clock);
    assert!(!s.boot_step());
    assert!(runs_chimes(s.mode) && reads_button_first(s.mode));
    s.clock_button(true);
    assert_eq!(s.mode, UiMode::Menu);
    assert_eq!(dispatch(s.mode), ModeTask::UpdateMenu);
    assert!(s.after_menu(true, false, false));
    assert_eq!(s.mode, UiMode::TimeSet);
    s.after_time_set(true);
    assert_eq!(s.mode, UiMode::TimeSet);
    s.after_time_set(false);
    assert_eq!(s.mode, UiMode::Menu);
    assert!(!s.after_menu(false, false, true));
    assert_eq!(s.mode, UiMode::Clock);
    s.ringing_alarm = Some(2);
    s.after_alarm_check(true);
    assert_eq!(s.mode, UiMode::Alarm);
    assert!(shows_clock(s.mode));
    s.after_button(true);
    assert_eq!(s.mode, UiMode::Clock);
    assert_eq!(s.ringing_alarm, None);
    assert_eq!(overlay(UiMode::About), Some(UiMode::About));
    assert_eq!(overlay(UiMode::Clock), None);
}

#[test]
fn web_routes() {
    let w = WebServer::new();
    assert!(w.enabled);
    assert!(w.handle_request("/").contains("Smart Clock"));
    assert_eq!(w.handle_request("/alarms"), "<h1>Alarms</h1><p>Alarm management coming soon...</p>");
    assert_eq!(w.handle_request("/nope"), "404 - Page not found");
    assert!(!OtaUpdater::new().enabled);
}

#[test]
fn chime_files() {
    assert_eq!(ChimeKind::Hour.default_path(), "sounds/bell.wav");
    assert_eq!(ChimeKind::Tick.default_path(), "sounds/tick.wav");
}

#[test]
fn media_search_uses_the_file_name() {
    let c = media_path_candidates("sounds/tick.wav", "/repo");
    assert_eq!(c, vec![
        "sounds/tick.wav".to_string(),
        "/repo/sounds/tick.wav".to_string(),
        "sounds/tick.wav".to_string(),
        "/repo/sounds/tick.wav".to_string(),
        "videos/tick.wav".to_string(),
        "/repo/videos/tick.wav".to_string(),
    ]);
    let bare = media_candidates_for("bell.wav", Some("bell.wav".to_string()), "/r");
    assert_eq!(bare[0], "sounds/bell.wav");
    assert_eq!(bare[2], "videos/bell.wav");
    assert_eq!(bare.len(), 10);
    assert!(media_path_candidates("", "/repo").is_empty());
    let abs = media_path_candidates("/media/a.wav", "/repo");
    assert_eq!(abs[0], "/media/a.wav");
    assert_eq!(abs[2], "/media/a.wav");
    assert_eq!(abs[3], "sounds/a.wav");
    let mut flags = vec![false; c.len()];
    flags[5] = true;
    assert_eq!(resolve_media_path("sounds/tick.wav", "/repo", &flags), Some("/repo/videos/tick.wav".to_string()));
    assert_eq!(config_file_path_candidates("a/x", "a/y", "/r").len(), 14);
}

#[test]
fn whole_ticks_boot_then_ring_then_silence() {
    let mut s = ModeState::new();
    assert!(s.boot_step());
    assert_eq!(s, ModeState { mode: UiMode::Clock, boot_done: true, ringing_alarm: None });
    // Second tick: an alarm starts ringing, no press, its entry exists.
    assert!(!s.boot_step());
    s.ringing_alarm = Some(2);
    s.clock_button(false);
    assert_eq!(dispatch(s.mode), ModeTask::CheckAlarm);
    s.after_alarm_check(true);
    assert_eq!(s.mode, UiMode::Alarm);
    // Third tick without a press stays on the alarm screen.
    assert!(!s.boot_step());
    assert_eq!(dispatch(s.mode), ModeTask::ReadButton);
    s.after_button(false);
    assert_eq!(s, ModeState { mode: UiMode::Alarm, boot_done: true, ringing_alarm: Some(2) });
    // A press silences it and returns to the clock.
    s.after_button(true);
    assert_eq!(s, ModeState { mode: UiMode::Clock, boot_done: true, ringing_alarm: None });
}

#[test]
fn easter_is_a_sunday_in_window() {
    for (y, m, d) in [(1583, 4, 10), (2000, 4, 23), (2008, 3, 23), (2011, 4, 24), (2285, 3, 22), (2038, 4, 25)] {
        let e = easter_sunday(y);
        assert_eq!((e.year, e.month, e.day), (y, m, d));
    }
}
