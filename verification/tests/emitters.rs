use nlbn::kicad_symbol::{KiSymbol, KiPin, KiRectangle, PinType, PinStyle};
use nlbn::kicad_symbol_export::SymbolExporter;
use nlbn::kicad_footprint::{KiFootprint, KiPad, PadType, PadShape, Drill};
use nlbn::kicad_footprint_export::FootprintExporter;
use nlbn::convert::KicadVersion;
use nlbn::models::{EeSymbol, EePin, EeFootprint, EePad};
use nlbn::altium_converter::AltiumConverter;
use nlbn::altium_symbol::{SymbolExporter as AdSymbolExporter, escape_string};
use nlbn::altium_footprint::FootprintExporter as AdFootprintExporter;
use nlbn::pipeline::{convert_ee_symbol_to_ki, convert_ee_footprint_to_ki};

fn empty_ee_symbol() -> EeSymbol {
    EeSymbol {
        name: String::new(),
        prefix: "R".to_string(),
        pins: Vec::new(),
        rectangles: Vec::new(),
        circles: Vec::new(),
        ellipses: Vec::new(),
        arcs: Vec::new(),
        polylines: Vec::new(),
        polygons: Vec::new(),
        paths: Vec::new(),
        texts: Vec::new(),
    }
}

fn passive_pin(number: &str, x: i64, y: i64, rotation: i64) -> EePin {
    EePin {
        number: number.to_string(),
        name: number.to_string(),
        x,
        y,
        rotation,
        length: 100000,
        name_visible: true,
        number_visible: true,
        electric_type: "P".to_string(),
        dot: false,
        clock: false,
    }
}

/// A passive two-pin part: the reference sits 5.08 mm above the highest
/// pin, the value 5.08 mm below the lowest, and both pins come out as
/// `pin passive line` with the half-turned rotation.
#[test]
fn smd_resistor_symbol_v6() {
    let mut sym = empty_ee_symbol();
    sym.pins.push(passive_pin("1", -100000, 100000, 180));
    sym.pins.push(passive_pin("2", 200000, 100000, 0));
    let ki = convert_ee_symbol_to_ki(&sym, "R0402", "maker", "http://ds", "C1005", "jlc");
    let exporter = SymbolExporter::new(KicadVersion::V6);
    let out = exporter.export(&ki).unwrap();
    // pin Y flips to -10 px = -2.54 mm, so the bounds are both -2.54
    assert!(out.contains("  (symbol \"R0402\"\n"));
    assert!(out.contains("\"Reference\"\n      \"R\"\n      (id 0)\n      (at 0 2.54 0)"));
    assert!(out.contains("\"Value\"\n      \"R0402\"\n      (id 1)\n      (at 0 -7.62 0)"));
    assert!(out.contains("(pin passive line\n        (at -2.54 -2.54 0)"));
    assert!(out.contains("(pin passive line\n        (at 5.08 -2.54 180)"));
    assert!(out.contains("(length 2.54)"));
    assert!(out.contains("\"Manufacturer\"\n      \"maker\""));
    assert!(out.contains("\"LCSC Part\"\n      \"C1005\""));
    assert!(out.ends_with("    )\n  )\n"));
}

#[test]
fn symbol_v5_uses_mil_lines() {
    let mut sym = empty_ee_symbol();
    sym.pins.push(passive_pin("1", -100000, 0, 0));
    let ki = convert_ee_symbol_to_ki(&sym, "PART", "", "", "", "");
    let exporter = SymbolExporter::new(KicadVersion::V5);
    let out = exporter.export(&ki).unwrap();
    assert!(out.starts_with("DEF PART R 0 40 Y Y 1 F N\n"));
    assert!(out.contains("F0 \"R\" 0 0 50 H V C CNN\n"));
    assert!(out.contains("DRAW\n"));
    assert!(out.contains("X 1 1 -100 0 100 R 50 50 1 1 P\n"));
    assert!(out.ends_with("ENDDRAW\nENDDEF\n"));
}

#[test]
fn rectangle_flips_and_closes_corners() {
    let mut sym = empty_ee_symbol();
    sym.rectangles.push(nlbn::models::EeRectangle {
        x: 0,
        y: 0,
        width: 100000,
        height: 200000,
        stroke_width: 10000,
        fill: false,
    });
    let ki = convert_ee_symbol_to_ki(&sym, "X", "", "", "", "");
    assert_eq!(ki.rectangles[0].x1, 0);
    assert_eq!(ki.rectangles[0].y1, 0);
    assert_eq!(ki.rectangles[0].x2, 100000);
    assert_eq!(ki.rectangles[0].y2, -200000);
}

fn empty_ee_footprint() -> EeFootprint {
    EeFootprint {
        name: String::new(),
        pads: Vec::new(),
        tracks: Vec::new(),
        circles: Vec::new(),
        arcs: Vec::new(),
        rectangles: Vec::new(),
        texts: Vec::new(),
        holes: Vec::new(),
        vias: Vec::new(),
        svg_nodes: Vec::new(),
    }
}

fn pad(number: &str, shape: &str, x: i64, y: i64, w: i64, h: i64, layer: i64) -> EePad {
    EePad {
        number: number.to_string(),
        shape: shape.to_string(),
        x,
        y,
        width: w,
        height: h,
        rotation: 0,
        hole_radius: None,
        hole_length: None,
        points: String::new(),
        layer_id: layer,
    }
}

/// Two surface rectangle pads, 0.6 by 0.3, one millimetre to each side of
/// the origin on the front copper layer.
#[test]
fn smd_resistor_footprint_pads() {
    let mut fp = empty_ee_footprint();
    fp.pads.push(pad("1", "RECT", -10000, 0, 6000, 3000, 1));
    fp.pads.push(pad("2", "RECT", 10000, 0, 6000, 3000, 1));
    let ki = convert_ee_footprint_to_ki(&fp, "R0402");
    let out = FootprintExporter::new().export(&ki).unwrap();
    assert!(out.starts_with("(footprint \"R0402\" (version 20221018) (generator nlbn)\n"));
    assert!(out.contains(
        "  (pad \"1\" smd rect (at -1.0000 0.0000) (size 0.6000 0.3000) (layers \"F.Cu\" \"F.Paste\" \"F.Mask\"))\n"));
    assert!(out.contains(
        "  (pad \"2\" smd rect (at 1.0000 0.0000) (size 0.6000 0.3000) (layers \"F.Cu\" \"F.Paste\" \"F.Mask\"))\n"));
    assert!(out.contains("(fp_text reference \"REF**\" (at 0 0) (layer \"F.SilkS\")"));
    assert!(out.contains("(fp_text value \"R0402\" (at 0 2.5) (layer \"F.Fab\")"));
    assert!(out.contains("(model \"${KIPRJMOD}/nlbn.3dshapes/R0402.wrl\""));
    assert!(out.ends_with(")\n"));
}

/// A drilled pad: hole radius 0.4 on a 1.6 square pad gives a through-hole
/// circle with a 0.8 drill on every copper and mask layer, no paste.
#[test]
fn through_hole_pad_round_drill() {
    let mut fp = empty_ee_footprint();
    let mut p = pad("1", "ELLIPSE", 0, 0, 16000, 16000, 11);
    p.hole_radius = Some(4000);
    fp.pads.push(p);
    let ki = convert_ee_footprint_to_ki(&fp, "TH");
    assert!(matches!(ki.pads[0].pad_type, PadType::ThroughHole));
    assert!(matches!(ki.pads[0].shape, PadShape::Circle));
    let out = FootprintExporter::new().export(&ki).unwrap();
    assert!(out.contains(
        "  (pad \"1\" thru_hole circle (at 0.0000 0.0000) (size 1.6000 1.6000) (layers \"*.Cu\" \"*.Mask\") (drill 0.8000))\n"));
}

/// An oval drill: hole radius 0.3 with a 0.9 secondary axis.
#[test]
fn oval_drill_pad() {
    let mut fp = empty_ee_footprint();
    let mut p = pad("1", "OVAL", 0, 0, 16000, 9000, 11);
    p.hole_radius = Some(3000);
    p.hole_length = Some(9000);
    fp.pads.push(p);
    let ki = convert_ee_footprint_to_ki(&fp, "OV");
    let out = FootprintExporter::new().export(&ki).unwrap();
    assert!(out.contains("(drill oval 0.6000 0.9000)"));
}

#[test]
fn tracks_become_silkscreen_lines() {
    let mut fp = empty_ee_footprint();
    fp.tracks.push(nlbn::models::EeTrack {
        stroke_width: 5000,
        layer_id: 3,
        net: String::new(),
        points: "1 2 3 4 5 6".to_string(),
    });
    fp.tracks.push(nlbn::models::EeTrack {
        stroke_width: 5000,
        layer_id: 3,
        net: String::new(),
        points: "1 2".to_string(),
    });
    let ki = convert_ee_footprint_to_ki(&fp, "T");
    assert_eq!(ki.lines.len(), 1);
    assert_eq!(ki.lines[0].start_x, 10000);
    assert_eq!(ki.lines[0].end_y, 40000);
    assert_eq!(ki.lines[0].layer, "F.SilkS");
}

#[test]
fn footprint_circle_end_point_lies_on_the_circle() {
    let mut fp = empty_ee_footprint();
    fp.circles.push(nlbn::models::EeCircle {
        cx: 10000,
        cy: 20000,
        radius: 5000,
        stroke_width: 1000,
        fill: false,
    });
    let ki = convert_ee_footprint_to_ki(&fp, "C");
    assert_eq!(ki.circles[0].end_x, 15000);
    assert_eq!(ki.circles[0].end_y, 20000);
    let out = FootprintExporter::new().export(&ki).unwrap();
    assert!(out.contains("(fp_circle (center 1.0000 2.0000) (end 1.5000 2.0000)"));
}

#[test]
fn test_escape_string() {
    assert_eq!(escape_string("test|string"), "test\\|string");
    assert_eq!(escape_string("test\nstring"), "test string");
}

#[test]
fn test_simple_symbol_export() {
    let mut sym = empty_ee_symbol();
    sym.name = "TEST_COMPONENT".to_string();
    sym.pins.push(EePin {
        number: "1".to_string(),
        name: "VCC".to_string(),
        x: 0,
        y: 10000,
        rotation: 0,
        length: 100000,
        name_visible: true,
        number_visible: true,
        electric_type: String::new(),
        dot: false,
        clock: false,
    });
    sym.rectangles.push(nlbn::models::EeRectangle {
        x: 10000,
        y: -10000,
        width: 20000,
        height: 30000,
        stroke_width: 10000,
        fill: false,
    });
    let converter = AltiumConverter::new();
    let ad = converter.convert_symbol(&sym);
    let content = AdSymbolExporter::new().export(&ad);
    assert!(content.contains("|HEADER=Protel for Windows"));
    assert!(content.contains("|RECORD=1"));
    assert!(content.contains("|LIBREF=TEST_COMPONENT"));
    assert!(content.contains("|RECORD=41"));
    assert!(content.contains("|NAME=VCC"));
    assert!(content.contains("|DESIGNATOR=1"));
    assert!(content.contains("|RECORD=2"));
}

#[test]
fn test_simple_footprint_export() {
    let mut fp = empty_ee_footprint();
    fp.name = "TEST_QFN48".to_string();
    fp.pads.push(pad("1", "RECT", 100000, 100000, 15000, 60000, 1));
    fp.pads.push(pad("2", "RECT", 150000, 100000, 15000, 60000, 1));
    let converter = AltiumConverter::new();
    let ad = converter.convert_footprint(&fp, "test");
    let content = AdFootprintExporter::new().export(&ad);
    assert!(content.contains("|HEADER=Protel for Windows"));
    assert!(content.contains("|RECORD=2"));
    assert!(content.contains("|NAME=TEST_QFN48"));
    assert!(content.contains("|RECORD=3"));
    assert!(content.contains("|NAME=1"));
    assert!(content.contains("|LAYER=TOP"));
    assert!(content.contains("|RECORD=16"));
    assert!(content.contains("|MODELNAME=test.step"));
}

/// A power pin name drives the emitted `ELECTRICAL` code to 7.
#[test]
fn altium_vcc_pin_is_emitted_as_power() {
    let mut sym = empty_ee_symbol();
    sym.name = "U1".to_string();
    sym.pins.push(EePin {
        number: "1".to_string(),
        name: "VCC".to_string(),
        x: 0,
        y: 0,
        rotation: 0,
        length: 100000,
        name_visible: true,
        number_visible: true,
        electric_type: String::new(),
        dot: false,
        clock: false,
    });
    let ad = AltiumConverter::new().convert_symbol(&sym);
    let content = AdSymbolExporter::new().export(&ad);
    assert!(content.contains("|ELECTRICAL=7"));
}

/// The minted 3D-model identifier is a fresh 36-character UUID between
/// the braces of `MODELID`.
#[test]
fn altium_model_id_is_36_characters() {
    let mut fp = empty_ee_footprint();
    fp.name = "F".to_string();
    let ad = AltiumConverter::new().convert_footprint(&fp, "F");
    let content = AdFootprintExporter::new().export(&ad);
    let start = content.find("|MODELID={").unwrap() + "|MODELID={".len();
    let end = content[start..].find('}').unwrap();
    assert_eq!(end, 36);
    let again = AdFootprintExporter::new().export(&ad);
    let start2 = again.find("|MODELID={").unwrap() + "|MODELID={".len();
    assert_ne!(content[start..start + 36], again[start2..start2 + 36]);
}

#[test]
fn pin_codes_round_through_kicad_lexemes() {
    assert_eq!(PinType::from_easyeda("W").to_kicad_v6(), "power_in");
    assert_eq!(PinType::from_easyeda("w").to_kicad_v6(), "power_out");
    assert_eq!(PinType::from_easyeda("P").to_kicad_v5(), "P");
    assert_eq!(PinType::from_easyeda("zz").to_kicad_v6(), "unspecified");
    assert_eq!(PinStyle::Inverted.to_kicad_v6(), "inverted");
    assert_eq!(PinStyle::Line.to_kicad_v5(), "");
}

#[test]
fn direct_exporter_accepts_handwritten_symbol() {
    let sym = KiSymbol {
        name: "N".to_string(),
        reference: "U".to_string(),
        value: "N".to_string(),
        footprint: String::new(),
        datasheet: String::new(),
        manufacturer: String::new(),
        lcsc_id: String::new(),
        jlc_id: String::new(),
        pins: vec![KiPin {
            number: "1".to_string(),
            name: "A".to_string(),
            pin_type: PinType::Passive,
            style: PinStyle::Line,
            pos_x: 0,
            pos_y: 0,
            rotation: 0,
            length: 100000,
        }],
        rectangles: vec![KiRectangle {
            x1: 0,
            y1: 0,
            x2: 100000,
            y2: -100000,
            stroke_width: 10000,
            fill: true,
        }],
        circles: Vec::new(),
        arcs: Vec::new(),
        polylines: Vec::new(),
    };
    let out = SymbolExporter::new(KicadVersion::V6).export(&sym).unwrap();
    assert!(out.contains("(fill (type background))"));
    assert!(out.contains("(rectangle\n        (start 0.00 0.00)\n        (end 2.54 -2.54)"));
}

#[test]
fn direct_footprint_exporter_handles_drill_and_polygon_none() {
    let fp = KiFootprint {
        name: "D".to_string(),
        pads: vec![KiPad {
            number: "1".to_string(),
            pad_type: PadType::ThroughHole,
            shape: PadShape::Circle,
            pos_x: 0,
            pos_y: 0,
            size_x: 16000,
            size_y: 16000,
            rotation: 900000,
            layers: vec!["*.Cu".to_string(), "*.Mask".to_string()],
            drill: Some(Drill { diameter: 8000, width: None, offset_x: 0, offset_y: 0 }),
            polygon: None,
        }],
        tracks: Vec::new(),
        circles: Vec::new(),
        arcs: Vec::new(),
        texts: Vec::new(),
        lines: Vec::new(),
        model_3d: None,
    };
    let out = FootprintExporter::new().export(&fp).unwrap();
    assert!(out.contains("(at 0.0000 0.0000 90.0000)"));
    assert!(out.contains("(drill 0.8000)"));
    assert!(!out.contains("(model "));
}

/// The whole symbol path on raw records: scenario-style end to end.
#[test]
fn end_to_end_symbol_stream() {
    let records = vec![
        "LIB~0~0~x~gge1~0".to_string(),
        "P~show~P~1~-10~10~180~gge23^^0~0~0^^M 0,0 h -20~#880000^^1~-13~10~0~1~start".to_string(),
        "P~show~P~2~20~10~0~gge24^^0~0~0^^M 0,0 h 20~#880000^^1~23~10~0~2~start".to_string(),
    ];
    let out = nlbn::pipeline::convert_symbol(
        &records, "R0402", "", "", "", "", nlbn::convert::KicadVersion::V6).unwrap();
    assert!(out.contains("(pin passive line\n        (at -2.54 -2.54 0)"));
    assert!(out.contains("(pin passive line\n        (at 5.08 -2.54 180)"));
    assert!(out.contains("(length 5.08)"));
}

/// The whole footprint path on raw records.
#[test]
fn end_to_end_footprint_stream() {
    let records = vec![
        "PAD~RECT~-1~0~0.6~0.3~1~~1~0~~0~gge10~0".to_string(),
        "PAD~RECT~1~0~0.6~0.3~1~~2~0~~0~gge11~0".to_string(),
    ];
    let out = nlbn::pipeline::convert_footprint(&records, "R0402").unwrap();
    assert!(out.contains(
        "  (pad \"1\" smd rect (at -1.0000 0.0000) (size 0.6000 0.3000) (layers \"F.Cu\" \"F.Paste\" \"F.Mask\"))\n"));
    assert!(out.contains(
        "  (pad \"2\" smd rect (at 1.0000 0.0000) (size 0.6000 0.3000) (layers \"F.Cu\" \"F.Paste\" \"F.Mask\"))\n"));
}

fn named_pin(name: &str, letter: &str) -> EePin {
    EePin {
        number: "1".to_string(),
        name: name.to_string(),
        x: 0,
        y: 0,
        rotation: 0,
        length: 100000,
        name_visible: true,
        number_visible: true,
        electric_type: letter.to_string(),
        dot: false,
        clock: false,
    }
}

/// A known vendor electrical letter overrides the name heuristic; only an
/// absent or unknown letter falls back to the name.
#[test]
fn altium_letter_beats_name_heuristic() {
    let mut sym = empty_ee_symbol();
    sym.name = "U2".to_string();
    sym.pins.push(named_pin("VCC", "O"));
    let ad = AltiumConverter::new().convert_symbol(&sym);
    // the letter O names an output even though the pin is called VCC
    assert_eq!(ad.pins[0].electrical.to_altium_code(), 2);

    let mut sym2 = empty_ee_symbol();
    sym2.pins.push(named_pin("VCC", ""));
    let ad2 = AltiumConverter::new().convert_symbol(&sym2);
    assert_eq!(ad2.pins[0].electrical.to_altium_code(), 7);

    let mut sym3 = empty_ee_symbol();
    sym3.pins.push(named_pin("VCC", "T"));
    let ad3 = AltiumConverter::new().convert_symbol(&sym3);
    // a tri-state letter falls back to the passive code
    assert_eq!(ad3.pins[0].electrical.to_altium_code(), 4);
}

/// A drilled pad on a named front layer still lands on every copper and
/// mask layer.
#[test]
fn through_hole_pad_ignores_the_named_side() {
    let mut fp = empty_ee_footprint();
    let mut p = pad("1", "ELLIPSE", 0, 0, 16000, 16000, 1);
    p.hole_radius = Some(4000);
    fp.pads.push(p);
    let ki = convert_ee_footprint_to_ki(&fp, "TH1");
    let out = FootprintExporter::new().export(&ki).unwrap();
    assert!(out.contains("(layers \"*.Cu\" \"*.Mask\")"));
}
