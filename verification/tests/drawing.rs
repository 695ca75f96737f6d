use pi_smart_clock::modules::faces::hand::{ivory_tint, numeral_tint, second_tint};
use pi_smart_clock::modules::faces::svg::center_raster;
use pi_smart_clock::modules::weather::icons::night_hour;
use pi_smart_clock::ota::progress::progress_bar;
use pi_smart_clock::platform::dvi_gfx::{clock_time_text, emit_scanline_rgb, even_width, hand_row, HandRow, Rgb};
use pi_smart_clock::platform::rp2040::delay_cycles;
use pi_smart_clock::platform::linux::{circle_squares, fill_size, NavKey, SdlInput, Square};

#[test]
fn raster_is_centred() {
    // A 2 by 1 image of two pixels placed in a 4 by 4 buffer.
    let data = vec![1u8, 2, 3, 4, 5, 6, 7, 8];
    let out = center_raster(&data, 2, 1, 4);
    assert_eq!(out.len(), 64);
    // Row offset (4 - 1) / 2 = 1, column offset (4 - 2) / 2 = 1.
    let start = (1 * 4 + 1) * 4;
    assert_eq!(&out[start..start + 8], &data[..]);
    assert_eq!(out.iter().filter(|b| **b != 0).count(), 8);
}

#[test]
fn raster_too_wide_wraps_as_copied() {
    // A 5 by 1 image does not fit a 4 wide buffer; it is copied from the
    // left edge of its row and runs on into the next row.
    let data: Vec<u8> = (1..=20).collect();
    let out = center_raster(&data, 5, 1, 4);
    let start = (1 * 4) * 4;
    assert_eq!(&out[start..start + 20], &data[..]);
}

#[test]
fn night_tints() {
    assert_eq!(ivory_tint(true), Some((220, 200, 170)));
    assert_eq!(ivory_tint(false), None);
    assert_eq!(second_tint(true), Some((255, 120, 64)));
    assert_eq!(numeral_tint(23), Some((255, 170, 51)));
    assert_eq!(numeral_tint(21), None);
    assert!(night_hour(5));
    assert!(night_hour(20));
    assert!(!night_hour(19));
}

#[test]
fn keys_drive_the_encoder() {
    let mut input = SdlInput::new();
    input.ingest_key(NavKey::Right, true);
    input.ingest_key(NavKey::Up, true);
    input.ingest_key(NavKey::Left, true);
    input.ingest_key(NavKey::Right, false);
    input.ingest_key(NavKey::Other, true);
    input.ingest_key(NavKey::Return, true);
    assert_eq!(input.read_rotary_delta(), 1);
    assert_eq!(input.read_rotary_delta(), 0);
    assert!(input.read_pushbutton());
    assert!(!input.read_pushbutton());
}

#[test]
fn fill_shapes() {
    assert_eq!(fill_size(0, -5), (1, 1));
    assert_eq!(fill_size(30, 4), (30, 4));
    assert_eq!(
        circle_squares(10, 20, 2),
        vec![Square { x: 8, y: 18, side: 4 }, Square { x: 9, y: 19, side: 2 }, Square { x: 10, y: 20, side: 0 }]
    );
    assert!(circle_squares(0, 0, -1).is_empty());
}

#[test]
fn status_text_and_widths() {
    assert_eq!(clock_time_text(7, 5, 9), "07:05:09");
    assert_eq!(clock_time_text(23, 59, 100), "23:59:100");
    assert_eq!(even_width(7), 8);
    assert_eq!(even_width(8), 8);
}

#[test]
fn encoded_row_decodes_to_the_row() {
    let row: Vec<u8> = vec![0, 0, 0, 0, 0, 0, 255, 0, 0, 0, 0, 0, 0, 0, 0];
    let mut runs = Vec::new();
    emit_scanline_rgb(&mut runs, &row, 5, Rgb { r: 1, g: 1, b: 1 });
    let mut decoded = Vec::new();
    for r in &runs[..runs.len() - 1] {
        assert!(r.width > 0);
        for _ in 0..r.width {
            decoded.push(r.color);
        }
    }
    let expected: Vec<Rgb> = row.chunks(3).map(|c| Rgb { r: c[0], g: c[1], b: c[2] }).collect();
    assert_eq!(decoded, expected);
    assert_eq!(runs.len(), 4);
    for w in runs.windows(2) {
        assert_ne!(w[0].color, w[1].color);
    }
}

#[test]
fn update_progress_bar() {
    assert_eq!(progress_bar(0), (0, "0%".to_string()));
    assert_eq!(progress_bar(37), (148, "37%".to_string()));
    assert_eq!(progress_bar(100), (400, "100%".to_string()));
}

#[test]
fn pico_delay_cycles() {
    assert_eq!(delay_cycles(1), 252_000);
    assert_eq!(delay_cycles(20_000), (20_000u64 * 252_000) as u32);
    assert_eq!(delay_cycles(u64::MAX), u32::MAX);
}

#[test]
fn hand_rows() {
    // A hand from (_, 100) up to (_, 40), three pixels thick.
    assert_eq!(hand_row(30, 100, 40, 3), HandRow::Skip);
    assert_eq!(hand_row(37, 100, 40, 3), HandRow::Crossing);
    assert_eq!(hand_row(70, 100, 40, 3), HandRow::Crossing);
    assert_eq!(hand_row(102, 100, 40, 3), HandRow::Crossing);
    assert_eq!(hand_row(104, 100, 40, 3), HandRow::Skip);
    // A short hand: both ends within the thickness.
    assert_eq!(hand_row(101, 100, 98, 3), HandRow::AtPivot);
    // A level hand.
    assert_eq!(hand_row(102, 100, 100, 3), HandRow::AtPivot);
}
