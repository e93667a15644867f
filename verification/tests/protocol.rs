use balance_board::calibration::Kilograms;
use balance_board::Corner;
use balance_board::{
    parse_report, parse_report_extension, Calibration, CalibrationError, ParseError, SensorQuad,
    WiimoteButtons,
};

// --- buttons ---------------------------------------------------------------

#[test]
fn nothing_pressed() {
    let b = WiimoteButtons::from_bytes(0, 0);
    assert!(!b.any_pressed());
    assert!(!b.balance_board_button());
    assert_eq!(b.raw(), 0);
}

#[test]
fn a_button_bit() {
    // A is byte 2 bit 3 = 0x08, packed little-endian: 0x0800.
    let b = WiimoteButtons::from_bytes(0x00, 0x08);
    assert!(b.a());
    assert!(b.any_pressed());
    assert!(b.balance_board_button());
    assert_eq!(b.raw(), 0x0800);
}

#[test]
fn dpad_bits_in_low_byte() {
    let b = WiimoteButtons::from_bytes(0x0F, 0x00);
    assert!(b.dpad_left() && b.dpad_right() && b.dpad_down() && b.dpad_up());
    assert!(!b.plus() && !b.a());
}

#[test]
fn plus_minus_home() {
    let b = WiimoteButtons::from_bytes(0x10, 0x80 | 0x10);
    assert!(b.plus());
    assert!(b.minus());
    assert!(b.home());
}

#[test]
fn balance_board_button_is_any_press() {
    for byte in 0x01..=0xFF {
        let b = WiimoteButtons::from_bytes(byte, 0);
        assert!(b.any_pressed());
        assert!(b.balance_board_button(), "low byte = {byte:#x}");
    }
}

#[test]
fn from_bytes_is_const() {
    let b = WiimoteButtons::from_bytes(0x10, 0x08);
    assert_eq!(b.raw(), 0x0810);
    assert!(b.plus());
    assert!(b.a());
}

#[test]
fn high_byte_buttons_map_to_their_bits() {
    let b = WiimoteButtons::from_bytes(0x00, 0x07);
    assert!(b.two() && b.one() && b.b());
    assert!(!b.a() && !b.minus() && !b.home());
    assert!(!b.dpad_left() && !b.plus());
    assert_eq!(b.raw(), 0x0700);
}

// --- reports ---------------------------------------------------------------

#[test]
fn parses_extension_big_endian() {
    let ext = [0x12, 0x34, 0x56, 0x78, 0x9A, 0xBC, 0xDE, 0xF0];
    let raw = parse_report_extension(&ext);
    assert_eq!(raw.top_right, 0x1234);
    assert_eq!(raw.bottom_right, 0x5678);
    assert_eq!(raw.top_left, 0x9ABC);
    assert_eq!(raw.bottom_left, 0xDEF0);
}

#[test]
fn parses_full_0x32_report() {
    let mut report = vec![0x32, 0x00, 0x00];
    report.extend_from_slice(&[0x10, 0x00, 0x20, 0x00, 0x30, 0x00, 0x40, 0x00]);
    let parsed = parse_report(&report).unwrap();
    assert_eq!(parsed.sensors.top_right, 0x1000);
    assert_eq!(parsed.sensors.bottom_right, 0x2000);
    assert_eq!(parsed.sensors.top_left, 0x3000);
    assert_eq!(parsed.sensors.bottom_left, 0x4000);
    assert_eq!(parsed.buttons.raw(), 0);
}

#[test]
fn parses_full_0x34_report_using_first_8_ext_bytes() {
    let mut report = vec![0x34, 0x00, 0x00];
    report.extend_from_slice(&[0xAA, 0xBB, 0xCC, 0xDD, 0xEE, 0xFF, 0x11, 0x22]);
    report.extend_from_slice(&[0; 11]);
    let parsed = parse_report(&report).unwrap();
    assert_eq!(parsed.sensors.top_right, 0xAABB);
    assert_eq!(parsed.sensors.bottom_left, 0x1122);
}

#[test]
fn parses_button_a_pressed() {
    let mut report = vec![0x32, 0x00, 0x08];
    report.extend_from_slice(&[0; 8]);
    let parsed = parse_report(&report).unwrap();
    assert!(parsed.buttons.a());
    assert!(parsed.buttons.balance_board_button());
}

#[test]
fn rejects_empty_report() {
    assert_eq!(parse_report(&[]), Err(ParseError::EmptyReport));
}

#[test]
fn rejects_unknown_report_id() {
    let report = [0xFF, 0, 0, 0, 0, 0, 0, 0, 0, 0, 0];
    assert_eq!(parse_report(&report), Err(ParseError::UnsupportedReportId(0xFF)));
}

#[test]
fn rejects_truncated_report() {
    let report = [0x32, 0x00, 0x00, 0x10, 0x00];
    assert_eq!(
        parse_report(&report),
        Err(ParseError::TruncatedReport { expected: 11, got: 5 })
    );
}

#[test]
fn truncated_0x34_report_needs_22_bytes() {
    let report = [0x34u8; 21];
    assert_eq!(
        parse_report(&report),
        Err(ParseError::TruncatedReport { expected: 22, got: 21 })
    );
}

#[test]
fn report_sensors_match_extension_payload() {
    let ext = [1, 2, 3, 4, 5, 6, 7, 8];
    let mut report = vec![0x32, 0x01, 0x80];
    report.extend_from_slice(&ext);
    let parsed = parse_report(&report).unwrap();
    assert_eq!(parsed.sensors, parse_report_extension(&ext));
    assert_eq!(parsed.buttons.raw(), 0x8001);
}

#[test]
fn parse_error_messages() {
    assert_eq!(ParseError::EmptyReport.message(), "HID report buffer was empty");
    assert_eq!(
        ParseError::UnsupportedReportId(0x0a).message(),
        "unsupported HID report id: 0x0a"
    );
    assert_eq!(
        ParseError::TruncatedReport { expected: 11, got: 5 }.message(),
        "HID report truncated: expected at least 11 bytes, got 5"
    );
    assert_eq!(
        CalibrationError::Nonmonotonic.message(),
        "calibration constants are not monotonically increasing (need kg0 < kg17 < kg34 per sensor)"
    );
}

// --- calibration -----------------------------------------------------------

fn uniform_calibration() -> Calibration {
    // Every sensor: 5000 raw at 0 kg, 10000 at 17 kg, 15000 at 34 kg.
    let pt = |v| SensorQuad { top_right: v, bottom_right: v, top_left: v, bottom_left: v };
    Calibration { kg0: pt(5000), kg17: pt(10000), kg34: pt(15000) }
}

fn uniform(v: u16) -> SensorQuad<u16> {
    SensorQuad { top_right: v, bottom_right: v, top_left: v, bottom_left: v }
}

fn kg(k: Kilograms) -> f32 {
    k.num as f32 / k.den as f32
}

fn total_kg(cal: &Calibration, raw: SensorQuad<u16>) -> f32 {
    let w = cal.calibrate_exact(raw);
    kg(w.top_right) + kg(w.bottom_right) + kg(w.top_left) + kg(w.bottom_left)
}

#[test]
fn calibrates_zero_load() {
    assert_eq!(total_kg(&uniform_calibration(), uniform(5000)), 0.0);
}

#[test]
fn calibrates_17kg_per_sensor_to_68kg_total() {
    assert!((total_kg(&uniform_calibration(), uniform(10000)) - 68.0).abs() < 0.001);
}

#[test]
fn calibrates_lower_segment_midpoint() {
    assert!((total_kg(&uniform_calibration(), uniform(7500)) - 34.0).abs() < 0.001);
}

#[test]
fn calibrates_upper_segment_midpoint() {
    assert!((total_kg(&uniform_calibration(), uniform(12500)) - 102.0).abs() < 0.001);
}

#[test]
fn clamps_below_zero_load() {
    assert_eq!(total_kg(&uniform_calibration(), uniform(0)), 0.0);
}

#[test]
fn extrapolates_above_34kg() {
    assert!((total_kg(&uniform_calibration(), uniform(20000)) - (4.0 * 51.0)).abs() < 0.001);
}

#[test]
fn reference_readings_give_reference_loads_exactly() {
    let bytes = [
        0x01, 0x00, 0x02, 0x00, 0x03, 0x00, 0x04, 0x00, 0x11, 0x00, 0x12, 0x00, 0x13, 0x00,
        0x14, 0x00, 0x21, 0x00, 0x22, 0x00, 0x23, 0x00, 0x24, 0x00,
    ];
    let cal = Calibration::from_eeprom(&bytes).unwrap();
    for (points, load) in [(cal.kg0, 0), (cal.kg17, 17), (cal.kg34, 34)] {
        let w = cal.calibrate_exact(points);
        for k in [w.top_right, w.bottom_right, w.top_left, w.bottom_left] {
            assert!(k.den > 0);
            assert_eq!(k.num, load * k.den);
        }
    }
}

#[test]
fn calibration_is_monotone_in_raw() {
    let cal = uniform_calibration();
    let mut last = -1.0f64;
    for raw in (0..=20000u16).step_by(250) {
        let k = cal.calibrate_exact(uniform(raw)).top_left;
        let v = k.num as f64 / k.den as f64;
        assert!(v >= last);
        last = v;
    }
}

#[test]
fn rejects_zeroed_eeprom() {
    let bad = [0u8; 24];
    assert_eq!(Calibration::from_eeprom(&bad), Err(CalibrationError::Nonmonotonic));
}

#[test]
fn rejects_one_flat_corner() {
    // Bottom-left reads the same at 17 kg and 34 kg.
    let bytes = [
        0x01, 0x00, 0x02, 0x00, 0x03, 0x00, 0x04, 0x00, 0x11, 0x00, 0x12, 0x00, 0x13, 0x00,
        0x14, 0x00, 0x21, 0x00, 0x22, 0x00, 0x23, 0x00, 0x14, 0x00,
    ];
    assert_eq!(Calibration::from_eeprom(&bytes), Err(CalibrationError::Nonmonotonic));
}

#[test]
fn parses_eeprom_layout_in_report_order() {
    let bytes = [
        0x01, 0x00, 0x02, 0x00, 0x03, 0x00, 0x04, 0x00, 0x11, 0x00, 0x12, 0x00, 0x13, 0x00,
        0x14, 0x00, 0x21, 0x00, 0x22, 0x00, 0x23, 0x00, 0x24, 0x00,
    ];
    let cal = Calibration::from_eeprom(&bytes).unwrap();
    assert_eq!(cal.kg0.top_right, 0x0100);
    assert_eq!(cal.kg0.bottom_left, 0x0400);
    assert_eq!(cal.kg17.bottom_right, 0x1200);
    assert_eq!(cal.kg34.top_left, 0x2300);
}

// --- sensor quads ----------------------------------------------------------

#[test]
fn quad_from_fn_and_map_keep_corners() {
    let q = SensorQuad::from_fn(|c| match c {
        Corner::TopRight => 1u16,
        Corner::BottomRight => 2,
        Corner::TopLeft => 3,
        Corner::BottomLeft => 4,
    });
    assert_eq!(q, SensorQuad { top_right: 1, bottom_right: 2, top_left: 3, bottom_left: 4 });
    let doubled = q.map(|v| u32::from(v) * 2);
    assert_eq!(doubled, SensorQuad { top_right: 2, bottom_right: 4, top_left: 6, bottom_left: 8 });
    let plus_one = q.map_ref(|v| *v + 1);
    assert_eq!(plus_one, SensorQuad { top_right: 2, bottom_right: 3, top_left: 4, bottom_left: 5 });
}
