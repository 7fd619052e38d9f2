use nlbn::altium_converter::AltiumConverter;
use nlbn::altium_symbol::{PinElectrical, PinOrientation};
use nlbn::altium_footprint::{PadShape, PadLayer};
use nlbn::convert::{Converter, KicadVersion, atan2_fx, sin_fx, cos_fx, isqrt};
use nlbn::layers::{map_layer, map_pad_layers_smd, map_pad_layers_tht};

#[test]
fn test_rotation_to_orientation() {
    let converter = AltiumConverter::new();
    assert!(matches!(converter.rotation_to_orientation(0), PinOrientation::Right));
    assert!(matches!(converter.rotation_to_orientation(90), PinOrientation::Up));
    assert!(matches!(converter.rotation_to_orientation(180), PinOrientation::Left));
    assert!(matches!(converter.rotation_to_orientation(270), PinOrientation::Down));
}

#[test]
fn test_guess_pin_electrical() {
    let converter = AltiumConverter::new();
    assert!(matches!(converter.guess_pin_electrical("VCC"), PinElectrical::Power));
    assert!(matches!(converter.guess_pin_electrical("GND"), PinElectrical::Power));
    assert!(matches!(converter.guess_pin_electrical("IN1"), PinElectrical::Input));
    assert!(matches!(converter.guess_pin_electrical("OUT1"), PinElectrical::Output));
    assert!(matches!(converter.guess_pin_electrical("PA0"), PinElectrical::IO));
    assert!(matches!(converter.guess_pin_electrical("GPIO1"), PinElectrical::IO));
}

#[test]
fn test_unit_conversion_schematic() {
    assert_eq!(1.0 * 100.0, 100.0);
    assert_eq!(10.0 * 100.0, 1000.0);
}

#[test]
fn test_unit_conversion_pcb() {
    let mm_to_mil = 39.3701;
    assert_eq!((1.0 * mm_to_mil * 100.0_f64).round() / 100.0, 39.37);
    assert_eq!((25.4 * mm_to_mil * 10.0_f64).round() / 10.0, 1000.0);
}

#[test]
fn test_pad_shape_codes() {
    assert_eq!(PadShape::Round.to_altium_code(), 0);
    assert_eq!(PadShape::Rectangle.to_altium_code(), 1);
    assert_eq!(PadShape::Octagonal.to_altium_code(), 2);
    assert_eq!(PadShape::RoundRect.to_altium_code(), 3);
}

#[test]
fn test_pad_layer_names() {
    assert_eq!(PadLayer::Top.to_altium_name(), "TOP");
    assert_eq!(PadLayer::Bottom.to_altium_name(), "BOTTOM");
    assert_eq!(PadLayer::MultiLayer.to_altium_name(), "MULTILAYER");
}

#[test]
fn test_pin_electrical_codes() {
    assert_eq!(PinElectrical::Input.to_altium_code(), 0);
    assert_eq!(PinElectrical::IO.to_altium_code(), 1);
    assert_eq!(PinElectrical::Output.to_altium_code(), 2);
    assert_eq!(PinElectrical::Power.to_altium_code(), 7);
}

#[test]
fn test_pin_orientation_codes() {
    assert_eq!(PinOrientation::Right.to_altium_code(), 0);
    assert_eq!(PinOrientation::Up.to_altium_code(), 1);
    assert_eq!(PinOrientation::Left.to_altium_code(), 2);
    assert_eq!(PinOrientation::Down.to_altium_code(), 3);
}

#[test]
fn test_map_layer() {
    assert_eq!(map_layer(1), "F.Cu");
    assert_eq!(map_layer(2), "B.Cu");
    assert_eq!(map_layer(3), "F.SilkS");
    assert_eq!(map_layer(13), "F.Fab");
}

#[test]
fn test_map_pad_layers_smd() {
    let layers = map_pad_layers_smd(1);
    assert_eq!(layers, vec!["F.Cu", "F.Paste", "F.Mask"]);

    let layers = map_pad_layers_smd(2);
    assert_eq!(layers, vec!["B.Cu", "B.Paste", "B.Mask"]);
}

#[test]
fn test_map_pad_layers_tht() {
    // a drilled pad lands on every copper and mask layer, whatever side
    // the source named
    let layers = map_pad_layers_tht(1);
    assert_eq!(layers, vec!["*.Cu", "*.Mask"]);

    let layers = map_pad_layers_tht(11);
    assert_eq!(layers, vec!["*.Cu", "*.Mask"]);
}

#[test]
fn test_px_to_mil() {
    let converter = Converter::new(KicadVersion::V6);
    assert_eq!(converter.px_to_mil(100000), 100);
    assert_eq!(converter.px_to_mil(55000), 55);
}

#[test]
fn test_px_to_mm() {
    let converter = Converter::new(KicadVersion::V6);
    let result = converter.px_to_mm(100000);
    assert!((result as f64 / 10000.0 - 2.54).abs() < 0.001);
}

#[test]
fn test_flip_y() {
    let converter = Converter::new(KicadVersion::V6);
    assert_eq!(converter.flip_y(100000), -100000);
    assert_eq!(converter.flip_y(-50000), 50000);
}

#[test]
fn test_deg_to_rad() {
    let converter = Converter::new(KicadVersion::V6);
    let result = converter.deg_to_rad(1800000);
    assert!((result as f64 / 10000.0 - std::f64::consts::PI).abs() < 0.001);
}

#[test]
fn flip_y_twice_is_identity() {
    let converter = Converter::new(KicadVersion::V6);
    for y in [0i64, 1, -1, 123456, -987654] {
        assert_eq!(converter.flip_y(converter.flip_y(y)), y);
    }
}

#[test]
fn rad_to_deg_inverts_deg_to_rad_approximately() {
    let converter = Converter::new(KicadVersion::V6);
    let rad = converter.deg_to_rad(900000);
    let back = converter.rad_to_deg(rad);
    assert!((back - 900000).abs() <= 2);
}

#[test]
fn bbox_of_points() {
    let converter = Converter::new(KicadVersion::V6);
    let pts = vec![(10i64, -5i64), (-3, 7), (4, 4)];
    let (min_x, min_y, max_x, max_y) = converter.calculate_bbox(&pts).unwrap();
    assert_eq!((min_x, min_y, max_x, max_y), (-3, -5, 10, 7));
    let empty: Vec<(i64, i64)> = Vec::new();
    assert!(converter.calculate_bbox(&empty).is_none());
}

#[test]
fn electrical_heuristic_more_names() {
    let converter = AltiumConverter::new();
    assert!(matches!(converter.guess_pin_electrical("VDD"), PinElectrical::Power));
    assert!(matches!(converter.guess_pin_electrical("A_IN"), PinElectrical::Input));
    assert!(matches!(converter.guess_pin_electrical("B_OUT"), PinElectrical::Output));
    assert!(matches!(converter.guess_pin_electrical("DATA"), PinElectrical::Passive));
}

#[test]
fn arc_center_of_a_semicircle() {
    let converter = Converter::new(KicadVersion::V6);
    // a half turn from (-10, 0) to (10, 0) with radius 10
    let r = converter
        .compute_arc_center((-100000, 0), (100000, 0), (100000, 100000), 0, false, true)
        .unwrap();
    let (cx, cy, theta1, theta2) = r;
    assert!((0..3600000).contains(&theta1));
    assert!((0..3600000).contains(&theta2));
    // the centre sits near the chord midpoint
    assert!(cx.abs() <= 20000);
    assert!(cy.abs() <= 20000);
    // the start angle points at the first endpoint: about 180 degrees
    assert!((theta1 - 1800000).abs() <= 20000);
}

#[test]
fn arc_center_rejects_degenerate_input() {
    let converter = Converter::new(KicadVersion::V6);
    assert!(converter
        .compute_arc_center((5, 5), (5, 5), (100000, 100000), 0, false, true)
        .is_err());
    assert!(converter
        .compute_arc_center((0, 0), (100000, 0), (0, 100000), 0, false, true)
        .is_err());
}

#[test]
fn arc_sweep_flag_flips_the_direction() {
    let converter = Converter::new(KicadVersion::V6);
    let up = converter
        .compute_arc_center((-100000, 0), (0, 100000), (100000, 100000), 0, false, true)
        .unwrap();
    let down = converter
        .compute_arc_center((-100000, 0), (0, 100000), (100000, 100000), 0, false, false)
        .unwrap();
    // one traversal runs one way round, the other the other way: the end
    // angles land on opposite sides of the shared start angle
    let d_up = (up.3 - up.2).rem_euclid(3600000);
    let d_down = (down.3 - down.2).rem_euclid(3600000);
    assert_eq!((d_up + d_down).rem_euclid(3600000), 0);
    assert_ne!(d_up, d_down);
}

#[test]
fn atan2_is_exact_on_the_axes() {
    assert_eq!(atan2_fx(0, 1000), 0);
    assert_eq!(atan2_fx(1000, 0), 900000);
    assert_eq!(atan2_fx(0, -1000), 1800000);
    assert_eq!(atan2_fx(-1000, 0), 2700000);
    let diag = atan2_fx(1000, 1000);
    assert!((diag - 450000).abs() <= 5000);
}

#[test]
fn integer_sine_hits_the_cardinal_points() {
    assert_eq!(sin_fx(0), 0);
    assert_eq!(sin_fx(900000), 10000);
    assert_eq!(sin_fx(1800000), 0);
    assert_eq!(sin_fx(2700000), -10000);
    assert_eq!(cos_fx(0), 10000);
    assert!((sin_fx(300000) as f64 / 10000.0 - 0.5).abs() < 0.01);
}

#[test]
fn isqrt_brackets_the_root() {
    assert_eq!(isqrt(0), 0);
    assert_eq!(isqrt(15), 3);
    assert_eq!(isqrt(16), 4);
    assert_eq!(isqrt(1_000_000_000_000), 1_000_000);
}

/// A chord below the grid resolution is not degenerate: the endpoints
/// differ and the radii are positive, so the conversion still succeeds,
/// with in-range angles.
#[test]
fn arc_center_accepts_a_sub_resolution_chord() {
    let converter = Converter::new(KicadVersion::V6);
    // 0.0001 px apart: far below the rotated grid, but not coincident
    let r = converter
        .compute_arc_center((1, 0), (0, 0), (10000, 10000), 0, false, true)
        .unwrap();
    assert!((0..3600000).contains(&r.2));
    assert!((0..3600000).contains(&r.3));
}
