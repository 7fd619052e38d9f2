use nlbn::library::{LibraryManager, add_component, add_or_update_component,
    update_component_content};
use nlbn::pipeline::{ConversionOptions, ConversionResult, ComponentData, Model3dInfo,
    summarize_batch, progress_started, progress_finished, build_success_message,
    build_failure_message, symbol_wanted, footprint_wanted, model_wanted};
use nlbn::api::{parse_component_response, extract_3d_model_from_svgnode};

fn block(name: &str) -> String {
    format!(
        "  (symbol \"{}\"\n    (in_bom yes)\n    (on_board yes)\n    (symbol \"{}_0_1\"\n    )\n  )\n",
        name, name
    )
}

#[test]
fn fresh_library_gets_header_and_wrapper() {
    let data = block("R1");
    let content = add_component(None, &data);
    assert!(content.starts_with("(kicad_symbol_lib\n  (version 20211014)\n  (generator nlbn)\n"));
    assert!(content.contains("(symbol \"R1\""));
    assert!(content.ends_with(")\n"));
}

#[test]
fn v5_library_gets_legacy_header() {
    let content = add_component(None, "DEF R1 R 0 40 Y Y 1 F N\nENDDEF\n");
    assert!(content.starts_with("EESchema-LIBRARY Version 2.4\n#encoding utf-8\n"));
}

/// Adding then re-adding with overwrite leaves the file byte-equal; with
/// overwriting off the second call writes nothing.
#[test]
fn add_or_update_is_idempotent() {
    let data = block("R1");
    let (first, written) = add_or_update_component(None, "R1", &data, false);
    assert!(written);
    let first = first.unwrap();

    let (second, written2) = add_or_update_component(Some(&first), "R1", &data, false);
    assert!(!written2);
    assert!(second.is_none());

    let (third, written3) = add_or_update_component(Some(&first), "R1", &data, true);
    assert!(written3);
    assert_eq!(third.unwrap(), first);
}

#[test]
fn update_replaces_only_the_named_block() {
    let a = block("AAA");
    let b = block("BBB");
    let (lib1, _) = add_or_update_component(None, "AAA", &a, false);
    let lib1 = lib1.unwrap();
    let (lib2, _) = add_or_update_component(Some(&lib1), "BBB", &b, false);
    let lib2 = lib2.unwrap();
    assert_eq!(lib2.matches("(symbol \"AAA\"").count(), 1);
    assert_eq!(lib2.matches("(symbol \"BBB\"").count(), 1);

    let new_a = block("AAA").replace("(in_bom yes)", "(in_bom no)");
    let updated = update_component_content(&lib2, "AAA", &new_a).unwrap();
    assert!(updated.contains("(in_bom no)"));
    assert_eq!(updated.matches("(symbol \"AAA\"").count(), 1);
    assert_eq!(updated.matches("(symbol \"BBB\"").count(), 1);
    assert!(updated.contains("(symbol \"BBB\"\n    (in_bom yes)"));
}

/// Eight distinct components folded into one library: every block appears
/// exactly once and exactly one closing wrapper line remains.
#[test]
fn eight_distinct_components_one_wrapper() {
    let names = ["P1A", "P2A", "P3A", "P4A", "P5A", "P6A", "P7A", "P8A"];
    let mut lib: Option<String> = None;
    for name in names {
        let data = block(name);
        let (next, written) = add_or_update_component(lib.as_ref(), name, &data, false);
        assert!(written);
        lib = Some(next.unwrap());
    }
    let lib = lib.unwrap();
    for name in names {
        assert_eq!(lib.matches(&format!("(symbol \"{}\"", name)).count(), 1);
    }
    assert_eq!(lib.matches("(kicad_symbol_lib").count(), 1);
    assert!(lib.ends_with(")\n"));
    assert_eq!(lib.lines().filter(|l| *l == ")").count(), 1);
}

#[test]
fn update_of_missing_block_is_an_error() {
    let lib = add_component(None, &block("AAA"));
    assert!(update_component_content(&lib, "ZZZ", &block("ZZZ")).is_err());
}

#[test]
fn library_paths() {
    let lm = LibraryManager::new("/tmp/out");
    assert_eq!(lm.get_output_path(), "/tmp/out");
    assert_eq!(lm.get_symbol_lib_path(false), "/tmp/out/nlbn.kicad_sym");
    assert_eq!(lm.get_symbol_lib_path(true), "/tmp/out/nlbn.lib");
    assert_eq!(lm.footprint_file_path("R0402"), "/tmp/out/nlbn.pretty/R0402.kicad_mod");
    assert_eq!(lm.wrl_file_path("R0402"), "/tmp/out/nlbn.3dshapes/R0402.wrl");
    assert_eq!(lm.step_file_path("R0402"), "/tmp/out/nlbn.3dshapes/R0402.step");
    let lib = add_component(None, &block("X"));
    assert!(lm.component_exists(&lib, "X"));
    assert!(!lm.component_exists(&lib, "Y"));
}

fn result(id: &str, ok: bool) -> ConversionResult {
    ConversionResult {
        lcsc_id: id.to_string(),
        success: ok,
        message: String::new(),
        component_name: None,
        files_created: Vec::new(),
    }
}

#[test]
fn batch_summary_counts_add_up() {
    let results = vec![result("C1", true), result("C2", false), result("C3", true)];
    let batch = summarize_batch(results);
    assert_eq!(batch.total, 3);
    assert_eq!(batch.succeeded, 2);
    assert_eq!(batch.failed, 1);
    assert_eq!(batch.succeeded + batch.failed, batch.total);
    assert_eq!(batch.results.len(), 3);
}

#[test]
fn progress_statuses() {
    let start = progress_started(1, 8, "C100");
    assert_eq!(start.status, "converting");
    assert_eq!(start.current, 1);
    assert_eq!(start.total, 8);
    let done = progress_finished(1, 8, "C100", true);
    assert_eq!(done.status, "completed");
    let failed = progress_finished(2, 8, "C200", false);
    assert_eq!(failed.status, "failed");
}

#[test]
fn job_messages() {
    assert_eq!(
        build_success_message("C100", "R0402", false),
        "Successfully converted C100 to R0402"
    );
    assert_eq!(
        build_success_message("C100", "R0402", true),
        "Successfully converted C100 to R0402\nSkipped: Symbol (already exists) (enable overwrite to update)"
    );
    assert_eq!(build_failure_message("boom"), "Conversion failed: boom");
}

#[test]
fn artifact_gates_follow_options_and_data() {
    let mut options = ConversionOptions::default();
    let mut data = ComponentData {
        lcsc_id: "C1".to_string(),
        title: "T".to_string(),
        data_str: vec!["LIB~0~0~x".to_string()],
        bbox_x: 0,
        bbox_y: 0,
        package_detail: Vec::new(),
        package_bbox_x: 0,
        package_bbox_y: 0,
        model_3d: None,
        manufacturer: String::new(),
        datasheet: String::new(),
        jlc_id: String::new(),
    };
    assert!(symbol_wanted(&options, &data));
    assert!(!footprint_wanted(&options, &data));
    assert!(!model_wanted(&options, &data));
    data.model_3d = Some(Model3dInfo { uuid: "u".to_string(), title: "t".to_string() });
    assert!(model_wanted(&options, &data));
    options.convert_symbol = false;
    assert!(!symbol_wanted(&options, &data));
}

#[test]
fn component_response_is_decoded() {
    let body = r#"{
        "success": true,
        "result": {
            "title": "Res 10k",
            "dataStr": {
                "head": {"x": 400.5, "y": 300,
                    "c_para": {"BOM_Manufacturer": "Yageo",
                               "BOM_JLCPCB Part Class": "basic"}},
                "shape": ["LIB~0~0~x", "C~1~2~3~c~1~s~none~id~0"]
            },
            "lcsc": {"url": "http://datasheet"},
            "packageDetail": {
                "dataStr": {
                    "head": {"x": 10, "y": 20},
                    "shape": ["PAD~RECT~1~2~3~4~1~~1~0~~0~id~0"]
                }
            }
        }
    }"#;
    let data = parse_component_response(body, "C25804").unwrap();
    assert_eq!(data.lcsc_id, "C25804");
    assert_eq!(data.title, "Res 10k");
    assert_eq!(data.bbox_x, 4005000);
    assert_eq!(data.bbox_y, 3000000);
    assert_eq!(data.data_str.len(), 2);
    assert_eq!(data.manufacturer, "Yageo");
    assert_eq!(data.jlc_id, "basic");
    assert_eq!(data.datasheet, "http://datasheet");
    assert_eq!(data.package_detail.len(), 1);
    assert_eq!(data.package_bbox_x, 100000);
    assert!(data.model_3d.is_none());
}

#[test]
fn unsuccessful_response_is_component_not_found() {
    let body = r#"{"success": false}"#;
    let err = match parse_component_response(body, "C1") {
        Err(e) => e,
        Ok(_) => panic!("expected an error"),
    };
    assert!(err.message().contains("Component not found"));
    let err2 = match parse_component_response("not json", "C1") {
        Err(e) => e,
        Ok(_) => panic!("expected an error"),
    };
    assert!(err2.message().contains("Failed to parse JSON"));
    let err3 = match parse_component_response(r#"{"success": true}"#, "C1") {
        Err(e) => e,
        Ok(_) => panic!("expected an error"),
    };
    assert!(err3.message().contains("Missing result field"));
}

#[test]
fn svgnode_yields_the_3d_model() {
    let shapes = vec![
        "TRACK~1~3~~1 2 3 4~id~0".to_string(),
        "SVGNODE~{\"attrs\":{\"c_etype\":\"outline3D\",\"uuid\":\"abc-123\",\"title\":\"SOT-23\"}}".to_string(),
    ];
    let model = extract_3d_model_from_svgnode(&shapes).unwrap();
    assert_eq!(model.uuid, "abc-123");
    assert_eq!(model.title, "SOT-23");
    let none = extract_3d_model_from_svgnode(&vec![
        "SVGNODE~{\"attrs\":{\"c_etype\":\"other\"}}".to_string(),
    ]);
    assert!(none.is_none());
}

/// A v5 library that already holds the component is also a skip: the
/// exists check reads both dialects' markers.
#[test]
fn v5_add_or_update_skips_existing() {
    let data = "DEF R1 R 0 40 Y Y 1 F N\nDRAW\nENDDRAW\nENDDEF\n";
    let (first, written) = add_or_update_component(None, "R1", data, false);
    assert!(written);
    let first = first.unwrap();
    assert!(first.starts_with("EESchema-LIBRARY"));

    let (second, written2) = add_or_update_component(Some(&first), "R1", data, false);
    assert!(!written2);
    assert!(second.is_none());
    assert_eq!(first.matches("DEF R1 ").count(), 1);

    let (third, written3) = add_or_update_component(Some(&first), "R1", data, true);
    assert!(written3);
    let third = third.unwrap();
    assert_eq!(third.matches("DEF R1 ").count(), 1);
}
