use nlbn::svg::{parse_svg_path, SvgCommand};
use nlbn::lexer::{split_fields, join_fields, split_segments, split_whitespace_tokens};
use nlbn::num::{parse_fixed, parse_int, fmt_fix2, fmt_fix4, fmt_fix_trim, fmt_i64};
use nlbn::importer::{SymbolImporter, FootprintImporter};
use nlbn::pipeline::sanitize_component_name;

#[test]
fn test_parse_simple_path() {
    let path = "M 10,20 L 30,40 Z";
    let commands = parse_svg_path(path).unwrap();
    assert_eq!(commands.len(), 3);
}

#[test]
fn test_parse_arc() {
    let path = "M 0,0 A 10,10 0 0 1 20,20";
    let commands = parse_svg_path(path).unwrap();
    assert_eq!(commands.len(), 2);
}

#[test]
fn svg_path_values_are_scaled() {
    let commands = parse_svg_path("M 1.5,-2 L 0.25,3").unwrap();
    assert_eq!(commands[0], SvgCommand::MoveTo { x: 15000, y: -20000 });
    assert_eq!(commands[1], SvgCommand::LineTo { x: 2500, y: 30000 });
}

#[test]
fn svg_path_with_no_commands_is_rejected() {
    assert!(parse_svg_path("hello world").is_err());
    assert!(parse_svg_path("").is_err());
}

#[test]
fn lexing_round_trip_on_records() {
    for record in [
        "C~50~50~10~#880000~1~solid~none~gge44~0",
        "R~10~20~~~40~30~#880000~1~0~none~gge5~0",
        "PT~M 0,0 L 10,5 L 0,10 Z~#000000~1~~~gge9",
        "~~leading~and~trailing~~",
    ] {
        let fields = split_fields(record, '~');
        let rejoined = join_fields(&fields, "~");
        assert_eq!(rejoined, record);
    }
}

#[test]
fn segment_round_trip_on_pin_records() {
    let record = "P~show~0~1~-10~10~180~gge23^^M 0,0 h -20~#880000^^1~-13~10~0~VCC~start";
    let segments = split_segments(record);
    let rejoined = join_fields(&segments, "^^");
    assert_eq!(rejoined, record);
    assert_eq!(segments.len(), 3);
}

#[test]
fn whitespace_tokenizer_drops_blanks() {
    let toks = split_whitespace_tokens("  1.5  -2\t3 ");
    assert_eq!(toks, vec!["1.5", "-2", "3"]);
}

#[test]
fn decimal_parser_accepts_the_grammar() {
    assert_eq!(parse_fixed("12.5"), Some(125000));
    assert_eq!(parse_fixed("-0.25"), Some(-2500));
    assert_eq!(parse_fixed("100"), Some(1000000));
    assert_eq!(parse_fixed(".5"), Some(5000));
    assert_eq!(parse_fixed("7."), Some(70000));
    assert_eq!(parse_fixed(""), None);
    assert_eq!(parse_fixed("-"), None);
    assert_eq!(parse_fixed("1.2.3"), None);
    assert_eq!(parse_fixed("abc"), None);
    assert_eq!(parse_int("180"), Some(180));
    assert_eq!(parse_int("-90"), Some(-90));
    assert_eq!(parse_int("1.5"), None);
}

#[test]
fn decimal_formatting() {
    assert_eq!(fmt_fix2(25400), "2.54");
    assert_eq!(fmt_fix2(-150800), "-15.08");
    assert_eq!(fmt_fix4(6000), "0.6000");
    assert_eq!(fmt_fix_trim(1000000), "100");
    assert_eq!(fmt_fix_trim(1005000), "100.5");
    assert_eq!(fmt_fix_trim(1001234), "100.1234");
    assert_eq!(fmt_i64(-42), "-42");
}

#[test]
fn test_format_coord() {
    assert_eq!(fmt_fix_trim(1000000), "100");
    assert_eq!(fmt_fix_trim(1005000), "100.5");
    assert_eq!(fmt_fix_trim(1001234), "100.1234");
}

#[test]
fn circle_record_fill_semantics() {
    // fill field at index 7: empty and `none` stay unfilled, any other
    // non-empty string fills.
    let empty_fill = vec!["C~50~50~10~#880000~1~solid~~gge44~0".to_string()];
    let none_fill = vec!["C~50~50~10~#880000~1~solid~none~gge44~0".to_string()];
    let colored = vec!["C~50~50~10~#880000~1~solid~#112233~gge44~0".to_string()];
    let s1 = SymbolImporter::parse(&empty_fill).unwrap();
    let s2 = SymbolImporter::parse(&none_fill).unwrap();
    let s3 = SymbolImporter::parse(&colored).unwrap();
    assert_eq!(s1.circles.len(), 1);
    assert!(!s1.circles[0].fill);
    assert!(!s2.circles[0].fill);
    assert!(s3.circles[0].fill);
    assert_eq!(s3.circles[0].cx, 500000);
    assert_eq!(s3.circles[0].cy, 500000);
    assert_eq!(s3.circles[0].radius, 100000);
}

#[test]
fn closed_path_polygon_repeats_first_point_and_fills() {
    // a `PT` record whose path ends with `Z`
    let shapes = vec!["PT~M 0,0 L 10,5 L 0,10 Z~#000000~1~~~gge9".to_string()];
    let sym = SymbolImporter::parse(&shapes).unwrap();
    assert_eq!(sym.polygons.len(), 1);
    let poly = &sym.polygons[0];
    assert!(poly.fill);
    assert_eq!(
        poly.points,
        vec![(0, 0), (100000, 50000), (0, 100000), (0, 0)]
    );
    assert_eq!(poly.points.first(), poly.points.last());
}

#[test]
fn open_path_polygon_is_not_filled() {
    let shapes = vec!["PT~M 0,0 L 10,5 L 0,10~#000000~1~~~gge9".to_string()];
    let sym = SymbolImporter::parse(&shapes).unwrap();
    assert_eq!(sym.polygons.len(), 1);
    assert!(!sym.polygons[0].fill);
    assert_eq!(sym.polygons[0].points.len(), 3);
}

#[test]
fn pin_record_extracts_name_position_and_length() {
    let shapes = vec![
        "LIB~0~0~package`R0402`~gge1~0".to_string(),
        "P~show~0~1~-10~10~180~gge23^^0~-5~5^^M 0,0 h -20~#880000^^1~-13~10~0~VCC~start".to_string(),
    ];
    let sym = SymbolImporter::parse(&shapes).unwrap();
    assert_eq!(sym.pins.len(), 1);
    let pin = &sym.pins[0];
    assert_eq!(pin.number, "1");
    assert_eq!(pin.name, "VCC");
    assert_eq!(pin.x, -100000);
    assert_eq!(pin.y, 100000);
    assert_eq!(pin.rotation, 180);
    assert_eq!(pin.length, 200000);
    assert_eq!(pin.electric_type, "0");
    assert_eq!(sym.prefix, "U");
}

#[test]
fn pin_length_defaults_without_h_or_v() {
    let shapes = vec![
        "P~show~0~2~0~0~0~gge9^^0~0~0^^M 0,0 L 5,5~#880000^^1~3~0~0~DATA~start".to_string(),
    ];
    let sym = SymbolImporter::parse(&shapes).unwrap();
    assert_eq!(sym.pins[0].length, 1000000);
    assert_eq!(sym.pins[0].name, "DATA");
}

#[test]
fn malformed_records_are_dropped_not_fatal() {
    let shapes = vec![
        "C~bad~50~10".to_string(),
        "R~1".to_string(),
        "C~1~2~3~~~~fill~x~0".to_string(),
        "".to_string(),
        "UNKNOWN~1~2".to_string(),
    ];
    let sym = SymbolImporter::parse(&shapes).unwrap();
    assert_eq!(sym.circles.len(), 1);
    assert_eq!(sym.rectangles.len(), 0);
}

#[test]
fn lib_record_names_the_symbol() {
    let shapes = vec!["LIB~615~-3~package`C0603`~~~gge2~0".to_string()];
    let sym = SymbolImporter::parse(&shapes).unwrap();
    assert_eq!(sym.name, "package`C0603`");
}

#[test]
fn footprint_records_decode_pads_and_holes() {
    let shapes = vec![
        "PAD~OVAL~1~0~1.6~1.6~11~~1~0.4~~90~gge10~0".to_string(),
        "HOLE~5~6~0.75~gge11~0".to_string(),
        "VIA~1~2~3~net~0.5~gge12~0".to_string(),
        "TRACK~0.5~3~~1 2 3 4~gge13~0".to_string(),
    ];
    let fp = FootprintImporter::parse(&shapes).unwrap();
    assert_eq!(fp.pads.len(), 1);
    let pad = &fp.pads[0];
    assert_eq!(pad.shape, "OVAL");
    assert_eq!(pad.x, 10000);
    assert_eq!(pad.width, 16000);
    assert_eq!(pad.hole_radius, Some(4000));
    assert_eq!(pad.hole_length, None);
    assert_eq!(pad.rotation, 900000);
    assert_eq!(pad.number, "1");
    assert_eq!(pad.layer_id, 11);
    assert_eq!(fp.holes.len(), 1);
    assert_eq!(fp.holes[0].radius, 7500);
    assert_eq!(fp.vias.len(), 1);
    assert_eq!(fp.vias[0].net, "net");
    assert_eq!(fp.tracks.len(), 1);
    assert_eq!(fp.tracks[0].layer_id, 3);
}

#[test]
fn svg_arc_record_becomes_center_arcs() {
    let shapes = vec!["A~M 0,0 A 10,10 0 0 1 20,0~~#880000~1~0~gge5~0".to_string()];
    let sym = SymbolImporter::parse(&shapes).unwrap();
    assert_eq!(sym.arcs.len(), 1);
    let arc = &sym.arcs[0];
    // chord midpoint (10, 0), mean radius 10
    assert_eq!(arc.x, 100000);
    assert_eq!(arc.y, 0);
    assert_eq!(arc.radius, 100000);
    // angles normalized into a monotone sweep
    assert!(arc.start_angle >= 0);
    assert!(arc.end_angle >= arc.start_angle);
}

#[test]
fn traditional_arc_record() {
    let shapes = vec!["A~10~20~5~45~135~gge7~0".to_string()];
    let sym = SymbolImporter::parse(&shapes).unwrap();
    assert_eq!(sym.arcs.len(), 1);
    assert_eq!(sym.arcs[0].start_angle, 450000);
    assert_eq!(sym.arcs[0].end_angle, 1350000);
}

#[test]
fn sanitize_keeps_word_characters_and_collapses_runs() {
    assert_eq!(sanitize_component_name("R-0402_10k"), "R-0402_10k");
    assert_eq!(sanitize_component_name("  res!! name  "), "res_name");
    assert_eq!(sanitize_component_name("__x__"), "x");
    assert_eq!(sanitize_component_name("!!!"), "");
}

#[test]
fn obj_mesh_becomes_a_vrml_scene() {
    let exporter = nlbn::vrml::ModelExporter::new();
    let obj = "# a single face\nv 0.0 0.0 0.0\nv 1.0 0.0 0.0\nv 1.0 1.0 0.0\nv 0.0 1.0 0.0\nf 1/1/1 2/2/2 3/3/3 4/4/4\n";
    let wrl = exporter.obj_to_wrl(obj).unwrap();
    assert!(wrl.starts_with("#VRML V2.0 utf8\n"));
    assert!(wrl.contains("        0.0 0.0 0.0,\n"));
    assert!(wrl.contains("        1.0 1.0 0.0,\n"));
    // a quadrilateral fans into two triangles on the shared first vertex
    assert!(wrl.contains("        0, 1, 2, -1,\n"));
    assert!(wrl.contains("        0, 2, 3, -1,\n"));
    // with no materials named, one palette entry covers both faces
    assert!(wrl.contains("colorPerVertex FALSE"));
    assert_eq!(wrl.matches("        0.8 0.8 0.8,\n").count(), 1);
    assert!(wrl.ends_with("      ]\n    }\n  }\n}\n"));
}

/// `usemtl` lines partition the faces: each triangle keeps the index of
/// the material in force when its face was read.
#[test]
fn obj_materials_index_the_faces() {
    let exporter = nlbn::vrml::ModelExporter::new();
    let obj = "v 0 0 0\nv 1 0 0\nv 0 1 0\nusemtl red\nf 1 2 3\nusemtl blue\nf 3 2 1\nusemtl red\nf 2 3 1\n";
    let wrl = exporter.obj_to_wrl(obj).unwrap();
    let color_index = wrl.split("colorIndex [").nth(1).unwrap();
    let color_index = color_index.split(']').next().unwrap();
    assert_eq!(color_index.matches("        0,\n").count(), 2);
    assert_eq!(color_index.matches("        1,\n").count(), 1);
    // two materials, two palette entries
    assert_eq!(wrl.matches("        0.8 0.8 0.8,\n").count(), 2);
}

#[test]
fn obj_without_vertices_is_an_error() {
    let exporter = nlbn::vrml::ModelExporter::new();
    assert!(exporter.obj_to_wrl("usemtl red\n").is_err());
}

#[test]
fn obj_bad_face_lines_are_dropped() {
    let exporter = nlbn::vrml::ModelExporter::new();
    let obj = "v 0 0 0\nv 1 0 0\nv 0 1 0\nf 1 2 x\nf 1 2 3\n";
    let wrl = exporter.obj_to_wrl(obj).unwrap();
    assert_eq!(wrl.matches(", -1,\n").count(), 1);
}
