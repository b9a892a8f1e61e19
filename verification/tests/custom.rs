use acadrust_dxf_bench::custom::{
    check_request, first_with_label, input_label, safe_stem, staging_dir_name, stem_name,
    FileKind,
};

#[test]
fn kind_from_extension_ignores_ascii_case() {
    assert_eq!(FileKind::from_extension("dxf"), Some(FileKind::Dxf));
    assert_eq!(FileKind::from_extension("DXF"), Some(FileKind::Dxf));
    assert_eq!(FileKind::from_extension("DxB"), Some(FileKind::Dxb));
    assert_eq!(FileKind::from_extension("dwg"), Some(FileKind::Dwg));
    assert_eq!(FileKind::from_extension("dwf"), None);
    assert_eq!(FileKind::from_extension(""), None);
    assert_eq!(FileKind::from_extension("dxf "), None);
}

#[test]
fn kind_from_path() {
    assert_eq!(FileKind::from_path("/data/plans/floor.dxf"), Ok(FileKind::Dxf));
    assert_eq!(FileKind::from_path("plans/Floor.DWG"), Ok(FileKind::Dwg));
    assert_eq!(FileKind::from_path("archive.v2.dxb"), Ok(FileKind::Dxb));
    assert_eq!(
        FileKind::from_path("notes.txt"),
        Err("unsupported input extension for notes.txt; use .dxf, .dxb, or .dwg".to_string())
    );
    assert_eq!(
        FileKind::from_path("drawing"),
        Err("unsupported input extension for drawing; use .dxf, .dxb, or .dwg".to_string())
    );
    assert!(FileKind::from_path(".dxf").is_err());
}

#[test]
fn kind_classify_by_given_extension() {
    assert_eq!(FileKind::classify(Some("DWG"), "x"), Ok(FileKind::Dwg));
    assert_eq!(
        FileKind::classify(None, "x"),
        Err("unsupported input extension for x; use .dxf, .dxb, or .dwg".to_string())
    );
}

#[test]
fn kind_names() {
    assert_eq!(FileKind::Dxf.label(), "DXF");
    assert_eq!(FileKind::Dxb.label(), "binary DXF");
    assert_eq!(FileKind::Dwg.label(), "DWG");
    assert_eq!(FileKind::Dxf.canonical_name(), "mixed.dxf");
    assert_eq!(FileKind::Dxb.canonical_name(), "binary_mixed.dxb");
    assert_eq!(FileKind::Dwg.canonical_name(), "mixed.dwg");
    assert_eq!(FileKind::Dxb.external_label(), "binary_mixed");
    assert_eq!(FileKind::Dwg.parse_category(), "dwg_parse");
    assert_eq!(FileKind::Dxf.write_category(), "write");
    assert_eq!(FileKind::Dxb.roundtrip_category(), "binary_roundtrip");
    assert_eq!(FileKind::Dwg.roundtrip_label(), "dwg_mixed_roundtrip");
    assert!(FileKind::Dxf.dxf_rs_supported());
    assert!(FileKind::Dxb.dxf_rs_supported());
    assert!(!FileKind::Dwg.dxf_rs_supported());
}

#[test]
fn staged_name_keeps_kind() {
    for kind in [FileKind::Dxf, FileKind::Dxb, FileKind::Dwg] {
        assert_eq!(FileKind::from_path(kind.canonical_name()), Ok(kind));
        assert_eq!(FileKind::from_extension(kind.extension()), Some(kind));
    }
}

#[test]
fn runner_names_follow_one_pattern() {
    for kind in [FileKind::Dxf, FileKind::Dxb, FileKind::Dwg] {
        assert_eq!(kind.roundtrip_label(), format!("{}_roundtrip", kind.external_label()));
        let prefix = kind.parse_category().strip_suffix("parse").unwrap();
        assert_eq!(kind.write_category(), format!("{prefix}write"));
        assert_eq!(kind.roundtrip_category(), format!("{prefix}roundtrip"));
    }
}

#[test]
fn kinds_have_distinct_names() {
    let kinds = [FileKind::Dxf, FileKind::Dxb, FileKind::Dwg];
    for a in kinds {
        for b in kinds {
            assert_eq!(a == b, a.parse_category() == b.parse_category());
            assert_eq!(a == b, a.canonical_name() == b.canonical_name());
            assert_eq!(a == b, a.label() == b.label());
        }
    }
}

#[test]
fn stems_are_sanitized() {
    assert_eq!(safe_stem("/data/my plan (v2).final.dxf"), "my_plan__v2__final");
    assert_eq!(safe_stem("Floor-1_a.dwg"), "Floor-1_a");
    assert_eq!(safe_stem("caf\u{e9}.dxf"), "caf_");
    assert_eq!(safe_stem(""), "input");
    assert_eq!(stem_name(None), "input");
    assert_eq!(stem_name(Some("a.b c")), "a_b_c");
}

#[test]
fn staging_directory_names() {
    assert_eq!(staging_dir_name(0, "plan"), "01_plan");
    assert_eq!(staging_dir_name(8, "x"), "09_x");
    assert_eq!(staging_dir_name(9, "x"), "10_x");
    assert_eq!(staging_dir_name(99, "y"), "100_y");
}

#[test]
fn staging_directories_distinct() {
    let a = staging_dir_name(0, "1_x");
    let b = staging_dir_name(10, "x");
    assert_eq!(a, "01_1_x");
    assert_eq!(b, "11_x");
    assert_ne!(a, b);
    let names: Vec<String> = (0..120).map(|i| staging_dir_name(i, "s")).collect();
    let mut sorted = names.clone();
    sorted.sort();
    sorted.dedup();
    assert_eq!(sorted.len(), names.len());
}

#[test]
fn input_labels() {
    assert_eq!(input_label("/tmp/a.dxb", FileKind::Dxb), "/tmp/a.dxb (binary DXF)");
}

#[test]
fn request_checks() {
    assert_eq!(check_request(2, 5), Ok(()));
    assert_eq!(
        check_request(2, 0),
        Err("iterations must be greater than zero".to_string())
    );
    assert_eq!(
        check_request(0, 0),
        Err("iterations must be greater than zero".to_string())
    );
    assert_eq!(
        check_request(0, 3),
        Err("at least one input file is required".to_string())
    );
}

#[test]
fn first_label_found() {
    let labels: Vec<String> = ["mixed", "lines", "mixed"].iter().map(|s| s.to_string()).collect();
    assert_eq!(first_with_label(&labels, "mixed"), Some(0));
    assert_eq!(first_with_label(&labels, "lines"), Some(1));
    assert_eq!(first_with_label(&labels, "arcs"), None);
    assert_eq!(first_with_label(&Vec::new(), "mixed"), None);
}

#[test]
fn kind_from_plain_names() {
    assert_eq!(FileKind::from_path("PLAN.DXF"), Ok(FileKind::Dxf));
    assert_eq!(FileKind::from_path("site.Dxb"), Ok(FileKind::Dxb));
    assert_eq!(
        FileKind::from_path("x.dxf.bak"),
        Err("unsupported input extension for x.dxf.bak; use .dxf, .dxb, or .dwg".to_string())
    );
    assert_eq!(
        FileKind::from_path(".dwg"),
        Err("unsupported input extension for .dwg; use .dxf, .dxb, or .dwg".to_string())
    );
}

#[test]
fn safe_stem_of_plain_names() {
    assert_eq!(safe_stem("PLAN.DXF"), "PLAN");
    assert_eq!(safe_stem("x.dxf.bak"), "x_dxf");
    assert_eq!(safe_stem(".hidden"), "_hidden");
    assert_eq!(safe_stem("noext"), "noext");
}

#[test]
fn safe_stem_is_settled() {
    for path in [
        "/data/my plan (v2).final.dxf",
        "Floor-1_a.dwg",
        "caf\u{e9}.dxf",
        "",
        ".hidden",
        "a/b/",
    ] {
        let stem = safe_stem(path);
        assert!(!stem.is_empty());
        assert!(stem
            .chars()
            .all(|c| c.is_ascii_alphanumeric() || c == '-' || c == '_'));
        assert_eq!(safe_stem(&stem), stem);
    }
}

#[test]
fn file_name_decides_for_paths_with_directories() {
    assert_eq!(FileKind::from_path("drawings/2024/PLAN.DxF"), Ok(FileKind::Dxf));
    assert_eq!(
        FileKind::from_path("dir.dxf/notes"),
        Err("unsupported input extension for dir.dxf/notes; use .dxf, .dxb, or .dwg".to_string())
    );
    assert_eq!(safe_stem("dir.v1/a.b.dwg"), "a_b");
    assert_eq!(safe_stem("/srv/cad/.profile"), "_profile");
}

#[test]
fn stems_of_edge_paths() {
    assert_eq!(safe_stem("dir/My File (v2).dxf"), "My_File__v2_");
    assert_eq!(safe_stem("caf\u{e9}.dxf"), "caf_");
    assert_eq!(safe_stem(".dxf"), "_dxf");
    assert_eq!(safe_stem("/"), "input");
}

#[test]
fn staged_copies_keep_their_kind() {
    for kind in [FileKind::Dxf, FileKind::Dxb, FileKind::Dwg] {
        for dir in ["", "staging/01_plan", "/tmp/run", "C:\\work\\02_site", "a.dwg\\b"] {
            let joined = std::path::Path::new(dir).join(kind.canonical_name());
            assert_eq!(FileKind::from_path(joined.to_str().unwrap()), Ok(kind));
            for sep in ["/", "\\"] {
                let path = format!("{dir}{sep}{}", kind.canonical_name());
                assert_eq!(FileKind::from_path(&path), Ok(kind));
            }
        }
    }
    assert_eq!(FileKind::from_path("a.dwg\\b/mixed.dxf"), Ok(FileKind::Dxf));
}
