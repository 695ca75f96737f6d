use pi_smart_clock::modules::bar::{place_lines, tick_order, title_placement, upper_column, TextPlacement};
use pi_smart_clock::modules::bottom_module::{corner_icon, PanelLine};
use pi_smart_clock::modules::calendar::CalendarPanel;
use pi_smart_clock::modules::config::{
    load_bottom_slots_from, panel_config_candidates, parse_panel_config, resolve_panel_config,
    BottomSlotConfig, PanelConfigError,
};
use pi_smart_clock::modules::faces::config::{load_face_id_from, parse_faces_config};
use pi_smart_clock::modules::faces::svg::{bundled_face_path, resolve_face_path};
use pi_smart_clock::modules::faces::FaceId;
use pi_smart_clock::modules::kind::PanelKind;
use pi_smart_clock::modules::lunar::approx_chinese_new_year_gregorian;
use pi_smart_clock::modules::module_id::ModuleId;
use pi_smart_clock::modules::slot::BottomSlot;
use pi_smart_clock::modules::venus_pentagram::VenusMoonPentagramPanel;
use pi_smart_clock::modules::zodiac::{current_zodiac_sign, sign_at, ZodiacPanel};

#[test]
fn accepts_permuted_modules() {
    let slots = parse_panel_config("b_left=holidays\nb_mid=weather\nb_right=calendar\n").unwrap();
    assert_eq!(slots.left, ModuleId::Holidays);
    assert_eq!(slots.mid, ModuleId::Weather);
    assert_eq!(slots.right, ModuleId::Calendar);
}

#[test]
fn panel_config_errors() {
    match parse_panel_config("b_top=weather\n") {
        Err(e) => assert_eq!(e.describe("p.conf"), "unknown bottom slot 'b_top' in p.conf"),
        Ok(_) => panic!("expected an error"),
    }
    match parse_panel_config("b_left = radio\n") {
        Err(e) => assert_eq!(e.describe("p.conf"), "unknown module 'radio' for slot b_left in p.conf"),
        Ok(_) => panic!("expected an error"),
    }
    match parse_panel_config("# c\nnonsense\n") {
        Err(PanelConfigError::NotAPair) => {}
        _ => panic!("expected NotAPair"),
    }
    match parse_panel_config("b_mid=weather\n") {
        Err(e) => assert_eq!(e.describe("p.conf"), "missing slot assignment(s): b_left, b_right in p.conf"),
        Ok(_) => panic!("expected an error"),
    }
}

#[test]
fn panel_config_defaults() {
    let d = BottomSlotConfig::default();
    assert_eq!(d.module_for(BottomSlot::Left), ModuleId::Weather);
    assert_eq!(d.module_for(BottomSlot::Mid), ModuleId::Calendar);
    assert_eq!(d.module_for(BottomSlot::Right), ModuleId::Holidays);
    let s = load_bottom_slots_from(Some("broken"));
    assert_eq!(s.left, ModuleId::Weather);
    assert_eq!(load_bottom_slots_from(None).right, ModuleId::Holidays);
}

#[test]
fn panel_config_search_order() {
    let c = panel_config_candidates("/repo");
    assert_eq!(c[0], "config/panels.conf");
    assert_eq!(c[1], "/repo/config/panels.conf");
    assert_eq!(c[2], "sounds/panels.conf");
    assert_eq!(c[6], "config/panels.conf");
    let mut flags = vec![false; c.len()];
    flags[6] = true;
    assert_eq!(resolve_panel_config("/repo", &flags), Some("config/panels.conf".to_string()));
}

#[test]
fn names_round_trip() {
    for m in ModuleId::all() {
        assert_eq!(ModuleId::from_str(m.as_str()), Some(m));
    }
    for s in BottomSlot::all() {
        assert_eq!(BottomSlot::from_str(s.as_str()), Some(s));
    }
    for k in PanelKind::all() {
        assert_eq!(PanelKind::from_str(k.as_str()), Some(k));
    }
    assert_eq!(BottomSlot::Right.index(), 2);
}

#[test]
fn faces_config() {
    assert_eq!(parse_faces_config("f.conf", "# face\nFACE = Retro_Roman # mine\n").unwrap(), FaceId::RetroRoman);
    assert_eq!(parse_faces_config("f.conf", "face = default\n").unwrap(), FaceId::RetroRoman);
    assert_eq!(parse_faces_config("f.conf", "face = retro-roman\nface = cubist\n").unwrap_err(), "missing face= in f.conf");
    assert_eq!(parse_faces_config("f.conf", "other = 1\n").unwrap_err(), "missing face= in f.conf");
    assert_eq!(FaceId::parse("RETRO-ROMAN"), Some(FaceId::RetroRoman));
    assert_eq!(FaceId::parse("modern"), None);
    assert_eq!(FaceId::default().as_str(), "retro-roman");
    assert_eq!(FaceId::RetroRoman.asset_path(), "retro-roman/face.svg");
    assert_eq!(load_face_id_from(None), FaceId::RetroRoman);
    assert_eq!(load_face_id_from(Some(Err("x".to_string()))), FaceId::RetroRoman);
}

#[test]
fn face_artwork_paths() {
    assert_eq!(bundled_face_path("retro-roman/face.svg", "/repo"), "/repo/assets/faces/retro-roman/face.svg");
    assert_eq!(resolve_face_path("retro-roman/face.svg", "/repo", false), "retro-roman/face.svg");
    assert_eq!(resolve_face_path("retro-roman/face.svg", "/repo", true), "/repo/assets/faces/retro-roman/face.svg");
}

#[test]
fn calendar_panel_lines() {
    let p = CalendarPanel::new();
    let lines: Vec<String> = p.lines().into_iter().map(|l| l.text).collect();
    assert_eq!(lines, vec!["09:00 Team Sync", "11:30 Doctor", "15:00 Project Review"]);
    assert_eq!(p.title(), ("Calendar".to_string(), 0x88AAFF));
    assert_eq!(p.id(), ModuleId::Calendar);
}

#[test]
fn zodiac_signs() {
    assert_eq!(current_zodiac_sign(0), 0);
    assert_eq!(current_zodiac_sign(86400 * 30), 1);
    assert_eq!(current_zodiac_sign(86400 * 364), 0);
    assert_eq!(current_zodiac_sign(86400 * 365), 0);
    assert_eq!(sign_at(8).name, "Sagittarius");
    let mut p = ZodiacPanel::new(86400 * 61, "42");
    let lines: Vec<String> = p.lines().into_iter().map(|l| l.text).collect();
    assert_eq!(lines, vec!["♊ Gemini", "Venus: 42%", "Cycle info"]);
    assert_eq!(p.icon_path(), "zodiac/zodiac-gemini-symbolic.svg");
    p.tick(0, "7");
    let lines: Vec<String> = p.lines().into_iter().map(|l| l.text).collect();
    assert_eq!(lines, vec!["♈ Aries", "Venus cycle: 7%", "Cycle info"]);
    assert_eq!(p.title(), ("Zodiac".to_string(), 0xCC88FF));
}

#[test]
fn pentagram_panel() {
    let mut p = VenusMoonPentagramPanel::new();
    p.tick("63");
    let lines: Vec<String> = p.lines().into_iter().map(|l| l.text).collect();
    assert_eq!(lines, vec!["Venus-Moon", "Pentagram", "Pos: 63%"]);
    assert_eq!(p.title(), ("Pentagram".to_string(), 0xFFAA88));
}

#[test]
fn chinese_new_year_table() {
    assert_eq!(approx_chinese_new_year_gregorian(2025), (1, 29));
    assert_eq!(approx_chinese_new_year_gregorian(1999), (2, 10));
}

#[test]
fn panel_icon_box() {
    assert_eq!(corner_icon(0, 0, 240, 140), (240 - 112 - 6, (140 - 112) / 2, 112));
    assert_eq!(corner_icon(10, 20, 240, 90), (10 + 240 - 80 - 6, 20 + (90 - 80) / 2, 80));
    assert_eq!(corner_icon(0, 0, 240, 49), (240 - 80 - 6, -15, 80));
}

#[test]
fn bar_order_and_placement() {
    let slots = BottomSlotConfig { left: ModuleId::Holidays, mid: ModuleId::Weather, right: ModuleId::Calendar };
    assert_eq!(
        tick_order(&slots),
        vec![ModuleId::Holidays, ModuleId::Weather, ModuleId::Calendar, ModuleId::Lunar, ModuleId::Zodiac, ModuleId::Pentagram]
    );
    assert_eq!(upper_column(1), (ModuleId::Zodiac, BottomSlot::Mid));
    let t = title_placement(100, 500, 18);
    assert_eq!(t, TextPlacement { x: 110, y: 506, size_pt: 18 });
    let lines = vec![
        PanelLine { text: "72°F".to_string(), size_pt: 36 },
        PanelLine { text: "Clear".to_string(), size_pt: 0 },
    ];
    let p = place_lines(&lines, 100, 500, 24, 14);
    assert_eq!(p, vec![TextPlacement { x: 110, y: 540, size_pt: 36 }, TextPlacement { x: 110, y: 564, size_pt: 14 }]);
}

#[test]
fn face_names_round_trip() {
    let f = FaceId::default();
    assert_eq!(FaceId::parse(f.as_str()), Some(f));
}

#[test]
fn every_assignment_reads_back() {
    for a in ModuleId::all() {
        for b in ModuleId::all() {
            for c in ModuleId::all() {
                let text = format!("b_left={}\nb_mid={}\nb_right={}\n", a.as_str(), b.as_str(), c.as_str());
                let slots = parse_panel_config(&text).unwrap();
                assert_eq!((slots.left, slots.mid, slots.right), (a, b, c));
            }
        }
    }
}
