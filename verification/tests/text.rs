use acadrust_dxf_bench::gui::{parse_iterations, run_request, scale_report_dir, section_to_show};
use acadrust_dxf_bench::generators::{resolve_scale, Scale};
use acadrust_dxf_bench::text::{
    ascii_lowercase, decimal, decimal2, parse_trimmed_usize, sanitize_stem,
};

#[test]
fn decimal_renders_like_format() {
    for n in [0u64, 7, 10, 42, 99, 100, 65_535, 1_000_000, u64::MAX] {
        assert_eq!(decimal(n), format!("{n}"));
        assert_eq!(decimal2(n), format!("{n:02}"));
    }
}

#[test]
fn sanitize_replaces_unsafe_characters() {
    assert_eq!(sanitize_stem("abc-XYZ_09"), "abc-XYZ_09");
    assert_eq!(sanitize_stem("a b.c/d"), "a_b_c_d");
    assert_eq!(sanitize_stem("\u{1F600}x"), "_x");
    assert_eq!(sanitize_stem(""), "");
}

#[test]
fn sanitize_is_idempotent() {
    for s in ["a b", "ü-ñ", "plain", "..", "tab\there"] {
        let once = sanitize_stem(s);
        assert_eq!(sanitize_stem(&once), once);
        assert_eq!(once.chars().count(), s.chars().count());
        assert!(once.chars().all(|c| c.is_ascii_alphanumeric() || c == '-' || c == '_'));
    }
}

#[test]
fn ascii_lowercase_like_std() {
    for s in ["DXF", "dXb", "ÄBC", "Mixed.DWG", ""] {
        assert_eq!(ascii_lowercase(s), s.to_ascii_lowercase());
    }
}

#[test]
fn trimmed_usize_like_std() {
    for s in [
        "5", " 5 ", "\t12\n", "+7", "-1", "", "  ", "abc", "1a", "0", "007",
        "18446744073709551615", "18446744073709551616", "\u{3000}9\u{2003}", "+", "1 2",
    ] {
        assert_eq!(parse_trimmed_usize(s), s.trim().parse::<usize>().ok(), "input {s:?}");
    }
}

#[test]
fn iterations_parse() {
    assert_eq!(parse_iterations("5"), Some(5));
    assert_eq!(parse_iterations("  12  "), Some(12));
    assert_eq!(parse_iterations("+3"), Some(3));
    assert_eq!(parse_iterations("0"), None);
    assert_eq!(parse_iterations("-2"), None);
    assert_eq!(parse_iterations("five"), None);
    assert_eq!(parse_iterations(""), None);
}

#[test]
fn iterations_roundtrip() {
    for n in [1usize, 5, 10, 123_456, usize::MAX] {
        assert_eq!(parse_iterations(&decimal(n as u64)), Some(n));
    }
}

#[test]
fn report_dirs() {
    assert_eq!(scale_report_dir("small"), "small_100");
    assert_eq!(scale_report_dir("medium"), "medium_1k");
    assert_eq!(scale_report_dir("large"), "large_10k");
    assert_eq!(scale_report_dir("huge"), "huge_100k");
    assert_eq!(scale_report_dir("extrahuge"), "extrahuge_1m");
    assert_eq!(scale_report_dir("unknown"), "large_10k");
}

#[test]
fn report_dir_matches_resolved_scale() {
    for name in ["small", "medium", "large", "huge", "extrahuge", "", "LARGE", "tiny"] {
        assert_eq!(scale_report_dir(name), resolve_scale(name).label());
    }
    for scale in Scale::all() {
        assert_eq!(scale_report_dir(scale.name()), scale.label());
    }
}

#[test]
fn run_requests() {
    let preset = run_request(" 3 ", "huge", 0).unwrap();
    assert_eq!(preset.iterations, 3);
    assert_eq!(preset.report_dir, "huge_100k");
    assert!(preset.preset);
    let unknown = run_request("5", "tiny", 0).unwrap();
    assert_eq!(unknown.report_dir, "large_10k");
    let custom = run_request("2", "small", 4).unwrap();
    assert_eq!(custom.iterations, 2);
    assert_eq!(custom.report_dir, "custom");
    assert!(!custom.preset);
    for text in ["0", "", "x", "-1"] {
        assert_eq!(
            run_request(text, "small", 0).err(),
            Some("Iterations must be a positive integer.".to_string())
        );
    }
}

#[test]
fn shown_section_stays_in_range() {
    assert_eq!(section_to_show(0, 3), 0);
    assert_eq!(section_to_show(2, 3), 2);
    assert_eq!(section_to_show(3, 3), 2);
    assert_eq!(section_to_show(usize::MAX, 1), 0);
}
