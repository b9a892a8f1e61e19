use acadrust_dxf_bench::generators::{
    all_variants, curve_entity, mixed_entity, mixed_layer, mixed_text,
    resolve_scale, solid_entity, MixedEntity, Scale, SolidEntity, Variant,
    POLYLINE_VERTICES,
};

#[test]
fn scale_counts_match_presets() {
    assert_eq!(Scale::Small.count(), 100);
    assert_eq!(Scale::Medium.count(), 1_000);
    assert_eq!(Scale::Large.count(), 10_000);
    assert_eq!(Scale::Huge.count(), 100_000);
    assert_eq!(Scale::ExtraHuge.count(), 1_000_000);
}

#[test]
fn scale_labels() {
    assert_eq!(Scale::Small.label(), "small_100");
    assert_eq!(Scale::Medium.label(), "medium_1k");
    assert_eq!(Scale::Large.label(), "large_10k");
    assert_eq!(Scale::Huge.label(), "huge_100k");
    assert_eq!(Scale::ExtraHuge.label(), "extrahuge_1m");
}

#[test]
fn scale_names_resolve_to_their_preset() {
    for scale in Scale::all() {
        assert_eq!(Scale::from_name(scale.name()), Some(scale));
        assert_eq!(resolve_scale(scale.name()), scale);
    }
    assert_eq!(Scale::all().len(), 5);
}

#[test]
fn unknown_scale_resolves_to_large() {
    assert_eq!(Scale::from_name("gigantic"), None);
    assert_eq!(Scale::from_name("Small"), None);
    assert_eq!(Scale::from_name(""), None);
    assert_eq!(resolve_scale("gigantic"), Scale::Large);
    assert_eq!(resolve_scale("small "), Scale::Large);
}

#[test]
fn scale_counts_increase() {
    let counts: Vec<usize> = Scale::all().into_iter().map(|s| s.count()).collect();
    for pair in counts.windows(2) {
        assert!(pair[0] < pair[1]);
    }
}

#[test]
fn scale_labels_distinct() {
    let all = Scale::all();
    for (i, a) in all.iter().enumerate() {
        for (j, b) in all.iter().enumerate() {
            assert_eq!(i == j, a.label() == b.label());
        }
    }
}

#[test]
fn polyline_counts() {
    assert_eq!(Scale::Small.polyline_count(), 2);
    assert_eq!(Scale::Medium.polyline_count(), 20);
    assert_eq!(Scale::Large.polyline_count(), 200);
    assert_eq!(Scale::Huge.polyline_count(), 2_000);
    assert_eq!(Scale::ExtraHuge.polyline_count(), 20_000);
    assert_eq!(POLYLINE_VERTICES, 50);
}

#[test]
fn mixed_layout_cycles_through_six_kinds() {
    let kinds: Vec<MixedEntity> = (0..8).map(mixed_entity).collect();
    assert_eq!(
        kinds,
        vec![
            MixedEntity::Line,
            MixedEntity::Circle,
            MixedEntity::Arc,
            MixedEntity::Ellipse,
            MixedEntity::Text,
            MixedEntity::Point,
            MixedEntity::Line,
            MixedEntity::Circle,
        ]
    );
    let lines = (0..100).filter(|&i| mixed_entity(i) == MixedEntity::Line).count();
    assert_eq!(lines, 17);
}

#[test]
fn mixed_layout_repeats() {
    for i in 0..50usize {
        assert_eq!(mixed_entity(i + 6), mixed_entity(i));
        assert_eq!(curve_entity(i + 4), curve_entity(i));
        assert_eq!(solid_entity(i + 2), solid_entity(i));
        assert_eq!(mixed_layer(i + 10), mixed_layer(i));
    }
}

#[test]
fn curve_and_solid_layouts() {
    let kinds: Vec<MixedEntity> = (0..5).map(curve_entity).collect();
    assert_eq!(
        kinds,
        vec![
            MixedEntity::Line,
            MixedEntity::Circle,
            MixedEntity::Arc,
            MixedEntity::Ellipse,
            MixedEntity::Line,
        ]
    );
    assert_eq!(solid_entity(0), SolidEntity::Line);
    assert_eq!(solid_entity(1), SolidEntity::Face);
    assert_eq!(solid_entity(10), SolidEntity::Line);
}

#[test]
fn mixed_names() {
    assert_eq!(mixed_layer(0), "Layer_0");
    assert_eq!(mixed_layer(13), "Layer_3");
    assert_eq!(mixed_layer(99_999), "Layer_9");
    assert_eq!(mixed_text(0), "Text entity #0");
    assert_eq!(mixed_text(4), "Text entity #4");
    assert_eq!(mixed_text(1_000_000), "Text entity #1000000");
}

#[test]
fn variants_are_labelled_in_order() {
    let variants = all_variants(Scale::Small, |v: Variant, s: Scale| {
        format!("{}:{}", v.label(), s.count()).into_bytes()
    });
    let labels: Vec<&str> = variants.iter().map(|(l, _)| *l).collect();
    assert_eq!(
        labels,
        vec![
            "lines_only",
            "circles_only",
            "arcs_only",
            "ellipses_only",
            "mixed",
            "polylines",
            "3d_entities",
        ]
    );
    for (label, data) in &variants {
        assert_eq!(data, &format!("{}:100", label).into_bytes());
    }
}

#[test]
fn variant_labels_distinct() {
    let all = Variant::all();
    for (i, a) in all.iter().enumerate() {
        for (j, b) in all.iter().enumerate() {
            assert_eq!(i == j, a.label() == b.label());
        }
    }
}
