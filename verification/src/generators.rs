//! Scale presets and the layout of the generated benchmark drawings.
//!
//! The drawings themselves hold random floating-point coordinates and are
//! built by the application; this module fixes how many entities of which
//! kind each drawing holds, and how they are named.
use vstd::prelude::*;
use vstd::string::StringExecFns;
use crate::text::{decimal, digit_char, spec_decimal, str_equal};

verus! {

// ---------------------------------------------------------------------------
// Scale presets
// ---------------------------------------------------------------------------

/// Entity-count presets for benchmarks.
#[derive(Clone, Copy, Debug, PartialEq, Eq, Structural)]
pub enum Scale {
    /// ~100 entities
    Small,
    /// ~1 000 entities
    Medium,
    /// ~10 000 entities
    Large,
    /// ~100 000 entities
    Huge,
    /// ~1 000 000 entities
    ExtraHuge,
}

impl Scale {
    /// Number of entities a drawing of this scale holds.
    pub open spec fn spec_count(self) -> nat {
        match self {
            Scale::Small => 100,
            Scale::Medium => 1_000,
            Scale::Large => 10_000,
            Scale::Huge => 100_000,
            Scale::ExtraHuge => 1_000_000,
        }
    }

    /// Name of the output directory (and report section) of this scale.
    pub open spec fn spec_label(self) -> Seq<char> {
        match self {
            Scale::Small => "small_100"@,
            Scale::Medium => "medium_1k"@,
            Scale::Large => "large_10k"@,
            Scale::Huge => "huge_100k"@,
            Scale::ExtraHuge => "extrahuge_1m"@,
        }
    }

    /// Preset name as given on the command line (`--scale`).
    pub open spec fn spec_name(self) -> Seq<char> {
        match self {
            Scale::Small => "small"@,
            Scale::Medium => "medium"@,
            Scale::Large => "large"@,
            Scale::Huge => "huge"@,
            Scale::ExtraHuge => "extrahuge"@,
        }
    }

    /// Number of lightweight polylines in the polyline drawing: one per 50
    /// entities of the scale, and at least one.
    pub open spec fn spec_polyline_count(self) -> nat {
        if self.spec_count() / 50 >= 1 {
            self.spec_count() / 50
        } else {
            1
        }
    }

    pub fn count(self) -> (n: usize)
        ensures
            n == self.spec_count(),
    {
        match self {
            Scale::Small => 100,
            Scale::Medium => 1_000,
            Scale::Large => 10_000,
            Scale::Huge => 100_000,
            Scale::ExtraHuge => 1_000_000,
        }
    }

    pub fn label(self) -> (s: &'static str)
        ensures
            s@ == self.spec_label(),
    {
        match self {
            Scale::Small => "small_100",
            Scale::Medium => "medium_1k",
            Scale::Large => "large_10k",
            Scale::Huge => "huge_100k",
            Scale::ExtraHuge => "extrahuge_1m",
        }
    }

    /// The preset name of this scale, as accepted by [`Scale::from_name`].
    pub fn name(self) -> (s: &'static str)
        ensures
            s@ == self.spec_name(),
    {
        match self {
            Scale::Small => "small",
            Scale::Medium => "medium",
            Scale::Large => "large",
            Scale::Huge => "huge",
            Scale::ExtraHuge => "extrahuge",
        }
    }

    /// Every preset, smallest first.
    pub fn all() -> (all: Vec<Scale>)
        ensures
            all@ == seq![Scale::Small, Scale::Medium, Scale::Large, Scale::Huge, Scale::ExtraHuge],
    {
        let all = vec![Scale::Small, Scale::Medium, Scale::Large, Scale::Huge, Scale::ExtraHuge];
        assert(all@ =~= seq![Scale::Small, Scale::Medium, Scale::Large, Scale::Huge, Scale::ExtraHuge]);
        all
    }

    /// The preset with the given name, if there is one.
    pub fn from_name(name: &str) -> (res: Option<Scale>)
        ensures
            res == spec_from_name(name@),
    {
        if str_equal(name, "small") {
            Some(Scale::Small)
        } else if str_equal(name, "medium") {
            Some(Scale::Medium)
        } else if str_equal(name, "large") {
            Some(Scale::Large)
        } else if str_equal(name, "huge") {
            Some(Scale::Huge)
        } else if str_equal(name, "extrahuge") {
            Some(Scale::ExtraHuge)
        } else {
            None
        }
    }

    /// Number of lightweight polylines in the polyline drawing.
    pub fn polyline_count(self) -> (n: usize)
        ensures
            n == self.spec_polyline_count(),
    {
        let per = self.count() / 50;
        if per >= 1 {
            per
        } else {
            1
        }
    }
}

/// The preset named `name`, if any.
pub open spec fn spec_from_name(name: Seq<char>) -> Option<Scale> {
    if name == "small"@ {
        Some(Scale::Small)
    } else if name == "medium"@ {
        Some(Scale::Medium)
    } else if name == "large"@ {
        Some(Scale::Large)
    } else if name == "huge"@ {
        Some(Scale::Huge)
    } else if name == "extrahuge"@ {
        Some(Scale::ExtraHuge)
    } else {
        None
    }
}

/// The preset named `name`, and `Large` for a name that is no preset.
pub open spec fn spec_resolve_scale(name: Seq<char>) -> Scale {
    match spec_from_name(name) {
        Some(scale) => scale,
        None => Scale::Large,
    }
}

/// The preset named `name`; an unknown name falls back to `Large` (the
/// caller reports it).
pub fn resolve_scale(name: &str) -> (scale: Scale)
    ensures
        scale == spec_resolve_scale(name@),
{
    match Scale::from_name(name) {
        Some(scale) => scale,
        None => Scale::Large,
    }
}

/// Each preset's name resolves to that preset.
pub proof fn lemma_name_resolves(scale: Scale)
    ensures
        spec_from_name(scale.spec_name()) == Some(scale),
        spec_resolve_scale(scale.spec_name()) == scale,
{
    reveal_strlit("small");
    reveal_strlit("medium");
    reveal_strlit("large");
    reveal_strlit("huge");
    reveal_strlit("extrahuge");
    assert("small"@[0] == 's');
    assert("medium"@[0] == 'm');
    assert("large"@[0] == 'l');
    assert("huge"@[0] == 'h');
    assert("extrahuge"@[0] == 'e');
}

/// Larger presets hold strictly more entities.
pub proof fn lemma_count_increases()
    ensures
        Scale::Small.spec_count() < Scale::Medium.spec_count(),
        Scale::Medium.spec_count() < Scale::Large.spec_count(),
        Scale::Large.spec_count() < Scale::Huge.spec_count(),
        Scale::Huge.spec_count() < Scale::ExtraHuge.spec_count(),
{
}

/// Distinct presets write to distinct output directories.
pub proof fn lemma_labels_distinct(a: Scale, b: Scale)
    requires
        a != b,
    ensures
        a.spec_label() != b.spec_label(),
{
    reveal_strlit("small_100");
    reveal_strlit("medium_1k");
    reveal_strlit("large_10k");
    reveal_strlit("huge_100k");
    reveal_strlit("extrahuge_1m");
    if a.spec_label() == b.spec_label() {
        match a {
            Scale::Small => assert(a.spec_label()[0] == 's'),
            Scale::Medium => assert(a.spec_label()[0] == 'm'),
            Scale::Large => assert(a.spec_label()[0] == 'l'),
            Scale::Huge => assert(a.spec_label()[0] == 'h'),
            Scale::ExtraHuge => assert(a.spec_label()[0] == 'e'),
        }
    }
}

// ---------------------------------------------------------------------------
// Drawing layout
// ---------------------------------------------------------------------------

/// Number of vertices of each lightweight polyline in the polyline drawing.
pub const POLYLINE_VERTICES: usize = 50;

/// Kind of an entity in the mixed drawings.
#[derive(Clone, Copy, Debug, PartialEq, Eq, Structural)]
pub enum MixedEntity {
    Line,
    Circle,
    Arc,
    Ellipse,
    Text,
    Point,
}

/// Kind of an entity in the 3D drawing.
#[derive(Clone, Copy, Debug, PartialEq, Eq, Structural)]
pub enum SolidEntity {
    /// A line whose end points have a Z coordinate.
    Line,
    /// A four-cornered 3D face.
    Face,
}

/// The `i`-th entity of the mixed DXF drawing: the six kinds in turn.
pub open spec fn spec_mixed_entity(i: nat) -> MixedEntity {
    let r = i % 6;
    if r == 0 {
        MixedEntity::Line
    } else if r == 1 {
        MixedEntity::Circle
    } else if r == 2 {
        MixedEntity::Arc
    } else if r == 3 {
        MixedEntity::Ellipse
    } else if r == 4 {
        MixedEntity::Text
    } else {
        MixedEntity::Point
    }
}

/// The `i`-th entity of the mixed drawings built for the write benchmarks:
/// line, circle, arc and ellipse in turn.
pub open spec fn spec_curve_entity(i: nat) -> MixedEntity {
    let r = i % 4;
    if r == 0 {
        MixedEntity::Line
    } else if r == 1 {
        MixedEntity::Circle
    } else if r == 2 {
        MixedEntity::Arc
    } else {
        MixedEntity::Ellipse
    }
}

/// The `i`-th entity of the 3D drawing: lines and faces in turn.
pub open spec fn spec_solid_entity(i: nat) -> SolidEntity {
    if i % 2 == 0 {
        SolidEntity::Line
    } else {
        SolidEntity::Face
    }
}

/// Layer of the `i`-th entity of the mixed drawing: ten layers in turn.
pub open spec fn spec_mixed_layer(i: nat) -> Seq<char> {
    "Layer_"@ + spec_decimal(i % 10)
}

/// Value of the text entity at position `i` of the mixed drawing.
pub open spec fn spec_mixed_text(i: nat) -> Seq<char> {
    "Text entity #"@ + spec_decimal(i)
}

pub fn mixed_entity(i: usize) -> (e: MixedEntity)
    ensures
        e == spec_mixed_entity(i as nat),
{
    let r = i % 6;
    if r == 0 {
        MixedEntity::Line
    } else if r == 1 {
        MixedEntity::Circle
    } else if r == 2 {
        MixedEntity::Arc
    } else if r == 3 {
        MixedEntity::Ellipse
    } else if r == 4 {
        MixedEntity::Text
    } else {
        MixedEntity::Point
    }
}

pub fn curve_entity(i: usize) -> (e: MixedEntity)
    ensures
        e == spec_curve_entity(i as nat),
{
    let r = i % 4;
    if r == 0 {
        MixedEntity::Line
    } else if r == 1 {
        MixedEntity::Circle
    } else if r == 2 {
        MixedEntity::Arc
    } else {
        MixedEntity::Ellipse
    }
}

pub fn solid_entity(i: usize) -> (e: SolidEntity)
    ensures
        e == spec_solid_entity(i as nat),
{
    if i % 2 == 0 {
        SolidEntity::Line
    } else {
        SolidEntity::Face
    }
}

pub fn mixed_layer(i: usize) -> (layer: String)
    ensures
        layer@ == spec_mixed_layer(i as nat),
{
    let mut layer = String::from_str("Layer_");
    let n = decimal((i % 10) as u64);
    layer.append(n.as_str());
    layer
}

pub fn mixed_text(i: usize) -> (value: String)
    ensures
        value@ == spec_mixed_text(i as nat),
{
    let mut value = String::from_str("Text entity #");
    let n = decimal(i as u64);
    value.append(n.as_str());
    value
}

/// The mixed drawings take the entity kinds in a fixed turn: the read
/// drawing line, circle, arc, ellipse, text, point; the write drawing line,
/// circle, arc, ellipse; the 3D drawing line, face. Two entities have the
/// same kind exactly when their positions agree modulo the turn's length.
pub proof fn lemma_mixed_turns(i: nat, j: nat)
    ensures
        spec_mixed_entity(i) == seq![
            MixedEntity::Line,
            MixedEntity::Circle,
            MixedEntity::Arc,
            MixedEntity::Ellipse,
            MixedEntity::Text,
            MixedEntity::Point,
        ][(i % 6) as int],
        spec_mixed_entity(i) == spec_mixed_entity(j) <==> i % 6 == j % 6,
        spec_curve_entity(i) == seq![
            MixedEntity::Line,
            MixedEntity::Circle,
            MixedEntity::Arc,
            MixedEntity::Ellipse,
        ][(i % 4) as int],
        spec_curve_entity(i) == spec_curve_entity(j) <==> i % 4 == j % 4,
        spec_solid_entity(i) == seq![SolidEntity::Line, SolidEntity::Face][(i % 2) as int],
        spec_solid_entity(i) == spec_solid_entity(j) <==> i % 2 == j % 2,
{
}

/// A polyline drawing holds one polyline per fifty entities of its preset,
/// and at least one.
pub proof fn lemma_polyline_count(scale: Scale)
    ensures
        scale.spec_polyline_count() >= 1,
        scale.spec_count() >= 50 ==> scale.spec_polyline_count() * 50 <= scale.spec_count()
            < (scale.spec_polyline_count() + 1) * 50,
        scale.spec_count() < 50 ==> scale.spec_polyline_count() == 1,
{
}

/// The layer of entity `i` is `Layer_` and the single digit `i % 10`:
/// entities share a layer exactly when their positions agree modulo ten, so
/// every ten consecutive entities lie on ten distinct layers.
pub proof fn lemma_mixed_layers(i: nat, j: nat)
    ensures
        spec_mixed_layer(i).len() == 7,
        spec_mixed_layer(i).take(6) == "Layer_"@,
        spec_mixed_layer(i)[6] == digit_char(i % 10),
        spec_mixed_layer(i) == spec_mixed_layer(j) <==> i % 10 == j % 10,
{
    reveal_strlit("Layer_");
    let a = spec_mixed_layer(i);
    let b = spec_mixed_layer(j);
    assert(spec_decimal(i % 10) == seq![digit_char(i % 10)]);
    assert(spec_decimal(j % 10) == seq![digit_char(j % 10)]);
    assert(a.take(6) =~= "Layer_"@);
    assert(a[6] == digit_char(i % 10));
    assert(b[6] == digit_char(j % 10));
    if a == b {
        assert((48 + i % 10) as char == (48 + j % 10) as char);
        assert(((48 + i % 10) as char) as int == 48 + i % 10);
        assert(((48 + j % 10) as char) as int == 48 + j % 10);
    }
}

/// The layout of the mixed drawing repeats every six entities.
pub proof fn lemma_mixed_period(i: nat)
    ensures
        spec_mixed_entity(i + 6) == spec_mixed_entity(i),
        spec_curve_entity(i + 4) == spec_curve_entity(i),
        spec_solid_entity(i + 2) == spec_solid_entity(i),
        spec_mixed_layer(i + 10) == spec_mixed_layer(i),
{
    assert((i + 6) % 6 == i % 6);
    assert((i + 4) % 4 == i % 4);
    assert((i + 2) % 2 == i % 2);
    assert((i + 10) % 10 == i % 10);
}

// ---------------------------------------------------------------------------
// Drawing variants
// ---------------------------------------------------------------------------

/// The ASCII DXF drawings generated for every scale.
#[derive(Clone, Copy, Debug, PartialEq, Eq, Structural)]
pub enum Variant {
    LinesOnly,
    CirclesOnly,
    ArcsOnly,
    EllipsesOnly,
    Mixed,
    Polylines,
    Entities3d,
}

/// The variants in the order they are generated.
pub open spec fn spec_variants() -> Seq<Variant> {
    seq![
        Variant::LinesOnly,
        Variant::CirclesOnly,
        Variant::ArcsOnly,
        Variant::EllipsesOnly,
        Variant::Mixed,
        Variant::Polylines,
        Variant::Entities3d,
    ]
}

impl Variant {
    /// Label of the variant, also the stem of its file name.
    pub open spec fn spec_label(self) -> Seq<char> {
        match self {
            Variant::LinesOnly => "lines_only"@,
            Variant::CirclesOnly => "circles_only"@,
            Variant::ArcsOnly => "arcs_only"@,
            Variant::EllipsesOnly => "ellipses_only"@,
            Variant::Mixed => "mixed"@,
            Variant::Polylines => "polylines"@,
            Variant::Entities3d => "3d_entities"@,
        }
    }

    pub fn label(self) -> (s: &'static str)
        ensures
            s@ == self.spec_label(),
    {
        match self {
            Variant::LinesOnly => "lines_only",
            Variant::CirclesOnly => "circles_only",
            Variant::ArcsOnly => "arcs_only",
            Variant::EllipsesOnly => "ellipses_only",
            Variant::Mixed => "mixed",
            Variant::Polylines => "polylines",
            Variant::Entities3d => "3d_entities",
        }
    }

    /// Every variant, in the order they are generated.
    pub fn all() -> (all: Vec<Variant>)
        ensures
            all@ == spec_variants(),
    {
        let all = vec![
            Variant::LinesOnly,
            Variant::CirclesOnly,
            Variant::ArcsOnly,
            Variant::EllipsesOnly,
            Variant::Mixed,
            Variant::Polylines,
            Variant::Entities3d,
        ];
        assert(all@ =~= spec_variants());
        all
    }
}

/// Returns all (label, data) pairs for a given scale (ASCII DXF): each
/// variant in turn, labelled, with the bytes that `generate` produces for it.
pub fn all_variants<F: Fn(Variant, Scale) -> Vec<u8>>(scale: Scale, generate: F) -> (res: Vec<
    (&'static str, Vec<u8>),
>)
    requires
        forall|v: Variant| call_requires(generate, (v, scale)),
    ensures
        res.len() == spec_variants().len(),
        forall|i: int|
            0 <= i < res.len() ==> {
                &&& (#[trigger] res[i]).0@ == spec_variants()[i].spec_label()
                &&& call_ensures(generate, (spec_variants()[i], scale), res[i].1)
            },
{
    let variants = Variant::all();
    let mut res: Vec<(&'static str, Vec<u8>)> = Vec::new();
    let mut i: usize = 0;
    while i < variants.len()
        invariant
            0 <= i <= variants.len(),
            variants@ == spec_variants(),
            forall|v: Variant| call_requires(generate, (v, scale)),
            res.len() == i,
            forall|j: int|
                0 <= j < i ==> {
                    &&& (#[trigger] res[j]).0@ == spec_variants()[j].spec_label()
                    &&& call_ensures(generate, (spec_variants()[j], scale), res[j].1)
                },
        decreases variants.len() - i,
    {
        let v = variants[i];
        let data = generate(v, scale);
        res.push((v.label(), data));
        i = i + 1;
    }
    res
}

/// Distinct variants have distinct labels, so their files do not collide.
pub proof fn lemma_variant_labels_distinct(a: Variant, b: Variant)
    requires
        a != b,
    ensures
        a.spec_label() != b.spec_label(),
{
    reveal_strlit("lines_only");
    reveal_strlit("circles_only");
    reveal_strlit("arcs_only");
    reveal_strlit("ellipses_only");
    reveal_strlit("mixed");
    reveal_strlit("polylines");
    reveal_strlit("3d_entities");
    assert("lines_only"@[0] == 'l');
    assert("circles_only"@[0] == 'c');
    assert("arcs_only"@[0] == 'a');
    assert("ellipses_only"@[0] == 'e');
    assert("mixed"@[0] == 'm');
    assert("polylines"@[0] == 'p');
    assert("3d_entities"@[0] == '3');
}

} // verus!
