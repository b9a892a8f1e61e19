//! Benchmarking user-provided files: which format an input is in, how it is
//! staged for the external runners, which of their results belong to it, and
//! the line of a runner's output that holds its results.
use vstd::prelude::*;
use vstd::string::StringExecFns;
use crate::text::{
    all_ascii_digits, ascii_lowercase, decimal2, digits_value, is_stem_char, lemma_decimal2_digits,
    lemma_decimal_digits, lemma_decimal2_prefix_injective, lemma_sanitize,
    sanitize_stem, spec_ascii_lowercase, spec_decimal2, spec_sanitize, str_equal,
};

verus! {

// ---------------------------------------------------------------------------
// Input formats
// ---------------------------------------------------------------------------

/// Format of a user-provided input file.
#[derive(Clone, Copy, Debug, PartialEq, Eq, Structural)]
pub enum FileKind {
    /// ASCII DXF (`.dxf`).
    Dxf,
    /// Binary DXF (`.dxb`).
    Dxb,
    /// DWG (`.dwg`).
    Dwg,
}

/// `t` occurs in `s` at some position.
pub open spec fn occurs_in(t: Seq<char>, s: Seq<char>) -> bool {
    exists|i: int| 0 <= i && i + t.len() <= s.len() && #[trigger] s.subrange(i, i + t.len()) == t
}

impl FileKind {
    /// File extension of the format, without the dot.
    pub open spec fn spec_extension(self) -> Seq<char> {
        match self {
            FileKind::Dxf => "dxf"@,
            FileKind::Dxb => "dxb"@,
            FileKind::Dwg => "dwg"@,
        }
    }

    pub open spec fn spec_label(self) -> Seq<char> {
        match self {
            FileKind::Dxf => "DXF"@,
            FileKind::Dxb => "binary DXF"@,
            FileKind::Dwg => "DWG"@,
        }
    }

    /// Name under which the input is staged for the external runners, which
    /// read the file of that name from the staging directory.
    pub open spec fn spec_canonical_name(self) -> Seq<char> {
        match self {
            FileKind::Dxf => "mixed.dxf"@,
            FileKind::Dxb => "binary_mixed.dxb"@,
            FileKind::Dwg => "mixed.dwg"@,
        }
    }

    /// Label of the external runners' parse and write results for the staged file.
    pub open spec fn spec_external_label(self) -> Seq<char> {
        match self {
            FileKind::Dxf => "mixed"@,
            FileKind::Dxb => "binary_mixed"@,
            FileKind::Dwg => "dwg_mixed"@,
        }
    }

    pub open spec fn spec_parse_category(self) -> Seq<char> {
        match self {
            FileKind::Dxf => "parse"@,
            FileKind::Dxb => "binary_parse"@,
            FileKind::Dwg => "dwg_parse"@,
        }
    }

    pub open spec fn spec_write_category(self) -> Seq<char> {
        match self {
            FileKind::Dxf => "write"@,
            FileKind::Dxb => "binary_write"@,
            FileKind::Dwg => "dwg_write"@,
        }
    }

    pub open spec fn spec_roundtrip_category(self) -> Seq<char> {
        match self {
            FileKind::Dxf => "roundtrip"@,
            FileKind::Dxb => "binary_roundtrip"@,
            FileKind::Dwg => "dwg_roundtrip"@,
        }
    }

    /// Label of the external runners' roundtrip result for the staged file.
    pub open spec fn spec_roundtrip_label(self) -> Seq<char> {
        match self {
            FileKind::Dxf => "mixed_roundtrip"@,
            FileKind::Dxb => "binary_mixed_roundtrip"@,
            FileKind::Dwg => "dwg_mixed_roundtrip"@,
        }
    }

    /// The prefix that the external runners put before their category names.
    pub open spec fn spec_category_prefix(self) -> Seq<char> {
        match self {
            FileKind::Dxf => Seq::empty(),
            FileKind::Dxb => "binary_"@,
            FileKind::Dwg => "dwg_"@,
        }
    }

    /// dxf-rs reads and writes DXF and binary DXF, but not DWG.
    pub open spec fn spec_dxf_rs_supported(self) -> bool {
        self != FileKind::Dwg
    }

    pub fn extension(self) -> (s: &'static str)
        ensures
            s@ == self.spec_extension(),
    {
        match self {
            FileKind::Dxf => "dxf",
            FileKind::Dxb => "dxb",
            FileKind::Dwg => "dwg",
        }
    }

    pub fn label(self) -> (s: &'static str)
        ensures
            s@ == self.spec_label(),
    {
        match self {
            FileKind::Dxf => "DXF",
            FileKind::Dxb => "binary DXF",
            FileKind::Dwg => "DWG",
        }
    }

    pub fn canonical_name(self) -> (s: &'static str)
        ensures
            s@ == self.spec_canonical_name(),
    {
        match self {
            FileKind::Dxf => "mixed.dxf",
            FileKind::Dxb => "binary_mixed.dxb",
            FileKind::Dwg => "mixed.dwg",
        }
    }

    pub fn external_label(self) -> (s: &'static str)
        ensures
            s@ == self.spec_external_label(),
    {
        match self {
            FileKind::Dxf => "mixed",
            FileKind::Dxb => "binary_mixed",
            FileKind::Dwg => "dwg_mixed",
        }
    }

    pub fn parse_category(self) -> (s: &'static str)
        ensures
            s@ == self.spec_parse_category(),
    {
        match self {
            FileKind::Dxf => "parse",
            FileKind::Dxb => "binary_parse",
            FileKind::Dwg => "dwg_parse",
        }
    }

    pub fn write_category(self) -> (s: &'static str)
        ensures
            s@ == self.spec_write_category(),
    {
        match self {
            FileKind::Dxf => "write",
            FileKind::Dxb => "binary_write",
            FileKind::Dwg => "dwg_write",
        }
    }

    pub fn roundtrip_category(self) -> (s: &'static str)
        ensures
            s@ == self.spec_roundtrip_category(),
    {
        match self {
            FileKind::Dxf => "roundtrip",
            FileKind::Dxb => "binary_roundtrip",
            FileKind::Dwg => "dwg_roundtrip",
        }
    }

    pub fn roundtrip_label(self) -> (s: &'static str)
        ensures
            s@ == self.spec_roundtrip_label(),
    {
        match self {
            FileKind::Dxf => "mixed_roundtrip",
            FileKind::Dxb => "binary_mixed_roundtrip",
            FileKind::Dwg => "dwg_mixed_roundtrip",
        }
    }

    /// Whether dxf-rs is timed on inputs of this format.
    pub fn dxf_rs_supported(self) -> (b: bool)
        ensures
            b == self.spec_dxf_rs_supported(),
    {
        match self {
            FileKind::Dwg => false,
            _ => true,
        }
    }

    /// The format whose extension is `ext`, ignoring ASCII case.
    pub fn from_extension(ext: &str) -> (kind: Option<FileKind>)
        ensures
            kind == spec_from_extension(ext@),
    {
        let lower = ascii_lowercase(ext);
        if str_equal(lower.as_str(), "dxf") {
            Some(FileKind::Dxf)
        } else if str_equal(lower.as_str(), "dxb") {
            Some(FileKind::Dxb)
        } else if str_equal(lower.as_str(), "dwg") {
            Some(FileKind::Dwg)
        } else {
            None
        }
    }

    /// The format of the file at `path`, given the extension that the
    /// platform's path rules find in it; an input in no known format is
    /// refused with a message that names it.
    pub fn classify(ext: Option<&str>, path: &str) -> (res: Result<FileKind, String>)
        ensures
            result_view(res) == spec_classify(
                match ext {
                    Some(e) => Some(e@),
                    None => None,
                },
                path@,
            ),
    {
        let found = match ext {
            Some(e) => FileKind::from_extension(e),
            None => FileKind::from_extension(""),
        };
        proof {
            reveal_strlit("");
            assert(""@ =~= Seq::<char>::empty());
        }
        match found {
            Some(kind) => Ok(kind),
            None => Err(unsupported_message(path)),
        }
    }

    /// The format of the file at `path`, by its extension (`.dxf`, `.dxb` or
    /// `.dwg`, in any ASCII case).
    pub fn from_path(path: &str) -> (res: Result<FileKind, String>)
        ensures
            exists|ext: Option<Seq<char>>|
                {
                    &&& (ext matches Some(e) ==> !e.contains('.') && occurs_in(seq!['.'] + e, path@))
                    &&& result_view(res) == spec_classify(ext, path@)
                },
        has_plain_file_name(path@) ==> result_view(res) == spec_classify(
            ext_of(file_name_of(path@)),
            path@,
        ),
        ends_in_dotted_name(path@) ==> result_view(res) == spec_classify(
            ext_of(final_part(path@)),
            path@,
        ),
        names_dotted_file(path@) ==> result_view(res) == spec_classify(
            ext_of(final_part(path@)),
            path@,
        ),
    {
        let ext = path_extension(path);
        let ghost ext_view = match &ext {
            Some(e) => Some(e@),
            None => None,
        };
        let res = match &ext {
            Some(e) => FileKind::classify(Some(e.as_str()), path),
            None => FileKind::classify(None, path),
        };
        assert(ext_view matches Some(e) ==> !e.contains('.') && occurs_in(seq!['.'] + e, path@));
        assert(result_view(res) == spec_classify(ext_view, path@));
        res
    }
}

/// The staged copy of an input is named after its format: its name ends in
/// `.` and the extension of the format, which names that format again.
pub proof fn lemma_staged_name_keeps_kind(kind: FileKind)
    ensures
        spec_from_extension(kind.spec_extension()) == Some(kind),
        !kind.spec_extension().contains('.'),
        kind.spec_canonical_name().len() > kind.spec_extension().len(),
        kind.spec_canonical_name().skip(
            kind.spec_canonical_name().len() - kind.spec_extension().len() - 1,
        ) == seq!['.'] + kind.spec_extension(),
{
    reveal_strlit("dxf");
    reveal_strlit("dxb");
    reveal_strlit("dwg");
    reveal_strlit("mixed.dxf");
    reveal_strlit("binary_mixed.dxb");
    reveal_strlit("mixed.dwg");
    let ext = kind.spec_extension();
    assert(spec_ascii_lowercase(ext) =~= ext);
    assert("dxf"@[2] == 'f');
    assert("dxb"@[2] == 'b');
    assert("dwg"@[1] == 'w');
    assert("dxf"@[1] == 'x');
    let name = kind.spec_canonical_name();
    assert(name.skip(name.len() - ext.len() - 1) =~= seq!['.'] + ext);
    if ext.contains('.') {
        let i = choose|i: int| 0 <= i < ext.len() && ext[i] == '.';
        assert(ext[i] != '.');
    }
}

/// The names under which the external runners report an input follow one
/// pattern: the categories are a format prefix before `parse`, `write` and
/// `roundtrip`, and the roundtrip label is the parse label followed by
/// `_roundtrip`.
pub proof fn lemma_runner_names(kind: FileKind)
    ensures
        kind.spec_parse_category() == kind.spec_category_prefix() + "parse"@,
        kind.spec_write_category() == kind.spec_category_prefix() + "write"@,
        kind.spec_roundtrip_category() == kind.spec_category_prefix() + "roundtrip"@,
        kind.spec_roundtrip_label() == kind.spec_external_label() + "_roundtrip"@,
{
    reveal_strlit("parse");
    reveal_strlit("write");
    reveal_strlit("roundtrip");
    reveal_strlit("_roundtrip");
    reveal_strlit("binary_");
    reveal_strlit("dwg_");
    reveal_strlit("binary_parse");
    reveal_strlit("binary_write");
    reveal_strlit("binary_roundtrip");
    reveal_strlit("dwg_parse");
    reveal_strlit("dwg_write");
    reveal_strlit("dwg_roundtrip");
    reveal_strlit("mixed");
    reveal_strlit("binary_mixed");
    reveal_strlit("dwg_mixed");
    reveal_strlit("mixed_roundtrip");
    reveal_strlit("binary_mixed_roundtrip");
    reveal_strlit("dwg_mixed_roundtrip");
    let p = kind.spec_category_prefix();
    assert(kind.spec_parse_category() =~= p + "parse"@);
    assert(kind.spec_write_category() =~= p + "write"@);
    assert(kind.spec_roundtrip_category() =~= p + "roundtrip"@);
    assert(kind.spec_roundtrip_label() =~= kind.spec_external_label() + "_roundtrip"@);
}

/// Distinct formats have distinct labels, staged names and result
/// categories, so results of one format are never read for another.
pub proof fn lemma_kinds_distinct(a: FileKind, b: FileKind)
    requires
        a != b,
    ensures
        a.spec_label() != b.spec_label(),
        a.spec_canonical_name() != b.spec_canonical_name(),
        a.spec_external_label() != b.spec_external_label(),
        a.spec_parse_category() != b.spec_parse_category(),
        a.spec_write_category() != b.spec_write_category(),
        a.spec_roundtrip_category() != b.spec_roundtrip_category(),
        a.spec_roundtrip_label() != b.spec_roundtrip_label(),
{
    lemma_runner_names(a);
    lemma_runner_names(b);
    reveal_strlit("DXF");
    reveal_strlit("binary DXF");
    reveal_strlit("DWG");
    reveal_strlit("mixed.dxf");
    reveal_strlit("binary_mixed.dxb");
    reveal_strlit("mixed.dwg");
    reveal_strlit("binary_");
    reveal_strlit("dwg_");
    reveal_strlit("mixed");
    reveal_strlit("binary_mixed");
    reveal_strlit("dwg_mixed");
    assert("DXF"@.len() == 3 && "DWG"@[1] == 'W' && "DXF"@[1] == 'X');
    assert("binary DXF"@.len() == 10);
    assert("mixed.dxf"@[8] == 'f' && "mixed.dwg"@[8] == 'g' && "binary_mixed.dxb"@.len() == 16);
    assert("mixed"@.len() == 5 && "binary_mixed"@.len() == 12 && "dwg_mixed"@.len() == 9);
    assert("binary_"@.len() == 7 && "dwg_"@.len() == 4);
    assert(FileKind::Dxf.spec_category_prefix().len() == 0);
    if a.spec_parse_category() == b.spec_parse_category() {
        assert((a.spec_category_prefix() + "parse"@).len() == a.spec_category_prefix().len() + "parse"@.len());
        assert((b.spec_category_prefix() + "parse"@).len() == b.spec_category_prefix().len() + "parse"@.len());
        assert(a.spec_category_prefix().len() == b.spec_category_prefix().len());
    }
    if a.spec_write_category() == b.spec_write_category() {
        assert((a.spec_category_prefix() + "write"@).len() == a.spec_category_prefix().len() + "write"@.len());
        assert((b.spec_category_prefix() + "write"@).len() == b.spec_category_prefix().len() + "write"@.len());
        assert(a.spec_category_prefix().len() == b.spec_category_prefix().len());
    }
    if a.spec_roundtrip_category() == b.spec_roundtrip_category() {
        assert((a.spec_category_prefix() + "roundtrip"@).len() == a.spec_category_prefix().len() + "roundtrip"@.len());
        assert((b.spec_category_prefix() + "roundtrip"@).len() == b.spec_category_prefix().len() + "roundtrip"@.len());
        assert(a.spec_category_prefix().len() == b.spec_category_prefix().len());
    }
    if a.spec_roundtrip_label() == b.spec_roundtrip_label() {
        assert((a.spec_external_label() + "_roundtrip"@).len() == a.spec_external_label().len() + "_roundtrip"@.len());
        assert((b.spec_external_label() + "_roundtrip"@).len() == b.spec_external_label().len() + "_roundtrip"@.len());
        assert(a.spec_external_label().len() == b.spec_external_label().len());
    }
}

/// The format named by extension `ext`, ignoring ASCII case.
pub open spec fn spec_from_extension(ext: Seq<char>) -> Option<FileKind> {
    let lower = spec_ascii_lowercase(ext);
    if lower == "dxf"@ {
        Some(FileKind::Dxf)
    } else if lower == "dxb"@ {
        Some(FileKind::Dxb)
    } else if lower == "dwg"@ {
        Some(FileKind::Dwg)
    } else {
        None
    }
}

/// An extension names a format exactly when, in ASCII lower case, it is
/// that format's extension; every other extension names none.
pub proof fn lemma_from_extension_exact(ext: Seq<char>, kind: FileKind)
    ensures
        spec_from_extension(ext) == Some(kind) <==> spec_ascii_lowercase(ext) == kind.spec_extension(),
        spec_from_extension(ext) is None <==> (spec_ascii_lowercase(ext) != FileKind::Dxf.spec_extension()
            && spec_ascii_lowercase(ext) != FileKind::Dxb.spec_extension()
            && spec_ascii_lowercase(ext) != FileKind::Dwg.spec_extension()),
{
    reveal_strlit("dxf");
    reveal_strlit("dxb");
    reveal_strlit("dwg");
    assert("dxf"@[2] == 'f');
    assert("dxb"@[2] == 'b');
    assert("dwg"@[1] == 'w');
    assert("dxf"@[1] == 'x');
}

/// The message that refuses the input at `path`.
pub open spec fn spec_unsupported_message(path: Seq<char>) -> Seq<char> {
    "unsupported input extension for "@ + path + "; use .dxf, .dxb, or .dwg"@
}

/// The format of an input with extension `ext` (none counts as empty), or
/// the message that refuses it.
pub open spec fn spec_classify(ext: Option<Seq<char>>, path: Seq<char>) -> Result<
    FileKind,
    Seq<char>,
> {
    let e = match ext {
        Some(e) => e,
        None => Seq::empty(),
    };
    match spec_from_extension(e) {
        Some(kind) => Ok(kind),
        None => Err(spec_unsupported_message(path)),
    }
}

/// A result with its error message taken by its view.
pub open spec fn result_view<T>(res: Result<T, String>) -> Result<T, Seq<char>> {
    match res {
        Ok(v) => Ok(v),
        Err(m) => Err(m@),
    }
}

fn unsupported_message(path: &str) -> (msg: String)
    ensures
        msg@ == spec_unsupported_message(path@),
{
    let mut msg = String::from_str("unsupported input extension for ");
    msg.append(path);
    msg.append("; use .dxf, .dxb, or .dwg");
    msg
}

/// A path that is a file name alone on every platform: not empty, no `/`,
/// `\` or `:` (so no separator and no prefix), and neither `.` nor `..`.
pub open spec fn is_plain_name(path: Seq<char>) -> bool {
    &&& path.len() > 0
    &&& !path.contains('/')
    &&& !path.contains('\\')
    &&& !path.contains(':')
    &&& path != seq!['.']
    &&& path != seq!['.', '.']
}

/// Position of the last `c` in `s`, or -1 when there is none.
pub open spec fn last_index(s: Seq<char>, c: char) -> int
    decreases s.len(),
{
    if s.len() == 0 {
        -1
    } else if s.last() == c {
        s.len() - 1
    } else {
        last_index(s.drop_last(), c)
    }
}

/// The extension of a file name: what follows its last `.`, unless that dot
/// is its first character or there is none.
pub open spec fn ext_of(name: Seq<char>) -> Option<Seq<char>> {
    let d = last_index(name, '.');
    if d > 0 {
        Some(name.skip(d + 1))
    } else {
        None
    }
}

/// The stem of a file name: what precedes its last `.`, or the whole name
/// when that dot is its first character or there is none.
pub open spec fn stem_of(name: Seq<char>) -> Seq<char> {
    let d = last_index(name, '.');
    if d > 0 {
        name.take(d)
    } else {
        name
    }
}

/// The last component of a path written with `/` separators: what follows
/// its last `/` (the whole path when it has none).
pub open spec fn file_name_of(path: Seq<char>) -> Seq<char> {
    path.skip(last_index(path, '/') + 1)
}

/// A path separator on some platform: `/` everywhere, `\` on Windows.
pub open spec fn is_separator(c: char) -> bool {
    c == '/' || c == '\\'
}

/// A path that begins with two separators: on Windows the start of a UNC,
/// device or verbatim prefix, which is no file name.
pub open spec fn starts_with_two_separators(path: Seq<char>) -> bool {
    path.len() >= 2 && is_separator(path[0]) && is_separator(path[1])
}

/// A path in which only `/` separates components, on every platform: it
/// holds no `\` and has no Windows prefix that begins with two separators.
pub open spec fn slash_separated(path: Seq<char>) -> bool {
    !path.contains('\\') && !starts_with_two_separators(path)
}

/// A path whose file name is the same on every platform: only `/`
/// separates its components, and what follows its last `/` is a plain name.
pub open spec fn has_plain_file_name(path: Seq<char>) -> bool {
    slash_separated(path) && is_plain_name(file_name_of(path))
}

/// Position of the last separator (`/` or `\`) in `path`, or -1.
pub open spec fn last_separator(path: Seq<char>) -> int {
    let a = last_index(path, '/');
    let b = last_index(path, '\\');
    if a > b {
        a
    } else {
        b
    }
}

/// What follows the last separator of `path` (the whole path when it has
/// none).
pub open spec fn final_part(path: Seq<char>) -> Seq<char> {
    path.skip(last_separator(path) + 1)
}

/// A path that ends, after its last separator, in a plain name with a `.`
/// past its first character, and has no prefix that begins with two
/// separators. On every platform that name ends the file name (the whole of
/// it where `\` separates, a tail of it where only `/` does), so the file
/// name's extension is the name's.
pub open spec fn ends_in_dotted_name(path: Seq<char>) -> bool {
    &&& !starts_with_two_separators(path)
    &&& is_plain_name(final_part(path))
    &&& last_index(final_part(path), '.') > 0
}

/// How many separators (`/` or `\`) `path` holds.
pub open spec fn separator_count(path: Seq<char>) -> nat
    decreases path.len(),
{
    if path.len() == 0 {
        0
    } else {
        separator_count(path.drop_last()) + if is_separator(path.last()) {
            1nat
        } else {
            0nat
        }
    }
}

/// How many `\` `path` holds.
pub open spec fn backslash_count(path: Seq<char>) -> nat
    decreases path.len(),
{
    if path.len() == 0 {
        0
    } else {
        backslash_count(path.drop_last()) + if path.last() == '\\' {
            1nat
        } else {
            0nat
        }
    }
}

/// A path that opens with the Windows verbatim prefix `\\?\`, after which
/// only `\` separates.
pub open spec fn opens_verbatim(path: Seq<char>) -> bool {
    &&& path.len() >= 4
    &&& path[0] == '\\'
    &&& path[1] == '\\'
    &&& path[2] == '?'
    &&& path[3] == '\\'
}

/// A path that opens with a verbatim disk prefix and its root: `\\?\`, a
/// drive letter, `:` and `\` (the form `canonicalize` gives on Windows).
pub open spec fn opens_verbatim_disk(path: Seq<char>) -> bool {
    &&& opens_verbatim(path)
    &&& path.len() >= 7
    &&& (('a' <= path[4] && path[4] <= 'z') || ('A' <= path[4] && path[4] <= 'Z'))
    &&& path[5] == ':'
    &&& path[6] == '\\'
}

/// A verbatim path that opens with `\\?\UNC\`, in any ASCII case.
pub open spec fn opens_verbatim_unc(path: Seq<char>) -> bool {
    &&& opens_verbatim(path)
    &&& path.len() >= 8
    &&& (path[4] == 'U' || path[4] == 'u')
    &&& (path[5] == 'N' || path[5] == 'n')
    &&& (path[6] == 'C' || path[6] == 'c')
    &&& path[7] == '\\'
}

/// A path whose last part, after its last separator, is a plain name with
/// a `.` past its first character, and lies past any Windows prefix: the
/// path does not begin with two separators; or it is verbatim and either
/// opens with a disk prefix and root, or holds six `\` (a verbatim prefix,
/// `\\?\UNC\server\share` at the longest, holds at most five), or does not
/// open with `\\?\UNC\` and holds four `\` (`\\?\` and one component hold
/// three); or it is not verbatim and holds four separators (a UNC
/// `\\server\share` or device `\\.\name` prefix holds at most three). On
/// every platform that name ends the file name, so the file name's
/// extension is the name's.
pub open spec fn names_dotted_file(path: Seq<char>) -> bool {
    &&& is_plain_name(final_part(path))
    &&& last_index(final_part(path), '.') > 0
    &&& {
        ||| !starts_with_two_separators(path)
        ||| (opens_verbatim(path) && {
            ||| opens_verbatim_disk(path)
            ||| backslash_count(path) >= 6
            ||| (!opens_verbatim_unc(path) && backslash_count(path) >= 4)
        })
        ||| (!opens_verbatim(path) && separator_count(path) >= 4)
    }
}

/// An optional string taken by its view.
pub open spec fn option_view(o: Option<String>) -> Option<Seq<char>> {
    match o {
        Some(s) => Some(s@),
        None => None,
    }
}

/// `Path::extension` of `path`, when it is valid UTF-8. How a path splits
/// into components is up to the platform's rules (`/` separates everywhere,
/// `\` on Windows too, and on Windows a path that begins with two
/// separators opens a UNC, device or verbatim prefix). Stated is what the
/// documentation gives on every platform: the extension is the part of the
/// file name after its final `.` (none when the name has no `.` or only a
/// leading one), so it holds no `.` and follows a `.` in `path`; in a path
/// that only `/` separates, the file name is what follows the last `/`
/// when that is a plain name; and a path that ends, after its last
/// separator, in a plain name with a `.` past its first character has that
/// name's extension, whichever of the two characters separates, when that
/// name lies past any Windows prefix (the documented forms: `\\?\` then a
/// component, `\\?\C:`, `\\?\UNC\server\share`, `\\.\name`,
/// `\\server\share`). For other paths, which component is the file name is
/// left unsaid.
#[verifier::external_body]
fn path_extension(path: &str) -> (ext: Option<String>)
    ensures
        ext matches Some(e) ==> !e@.contains('.') && occurs_in(seq!['.'] + e@, path@),
        has_plain_file_name(path@) ==> option_view(ext) == ext_of(file_name_of(path@)),
        ends_in_dotted_name(path@) ==> option_view(ext) == ext_of(final_part(path@)),
        names_dotted_file(path@) ==> option_view(ext) == ext_of(final_part(path@)),
{
    match std::path::Path::new(path).extension() {
        Some(e) => match e.to_str() {
            Some(s) => Some(s.to_string()),
            None => None,
        },
        None => None,
    }
}

/// `Path::file_stem` of `path`, when it is valid UTF-8. How a path splits
/// into components is up to the platform's rules (`/` separates everywhere,
/// `\` on Windows too, and on Windows a path that begins with two
/// separators opens a UNC, device or verbatim prefix). Stated is what the
/// documentation gives on every platform: a stem is a non-empty part of the
/// file name, so it occurs in `path`; in a path that only `/` separates it
/// holds no `/`, and the file name is what follows the last `/` when that
/// is a plain name, whose stem is the part before its final `.` (the whole
/// name when it has no `.` or only a leading one). For other paths, which
/// component is the file name is left unsaid.
#[verifier::external_body]
fn path_file_stem(path: &str) -> (stem: Option<String>)
    ensures
        stem matches Some(s) ==> s@.len() > 0 && occurs_in(s@, path@),
        slash_separated(path@) ==> (stem matches Some(s) ==> !s@.contains('/')),
        has_plain_file_name(path@) ==> option_view(stem) == Some(stem_of(file_name_of(path@))),
{
    match std::path::Path::new(path).file_stem() {
        Some(s) => match s.to_str() {
            Some(s) => Some(s.to_string()),
            None => None,
        },
        None => None,
    }
}

// ---------------------------------------------------------------------------
// Staging
// ---------------------------------------------------------------------------

/// The staging-directory part of a file stem (`input` when there is none).
pub open spec fn spec_stem_name(stem: Option<Seq<char>>) -> Seq<char> {
    match stem {
        Some(s) => spec_sanitize(s),
        None => spec_sanitize("input"@),
    }
}

/// The stem as it appears in a staging directory name.
pub fn stem_name(stem: Option<&str>) -> (name: String)
    ensures
        name@ == spec_stem_name(
            match stem {
                Some(s) => Some(s@),
                None => None,
            },
        ),
{
    match stem {
        Some(s) => sanitize_stem(s),
        None => sanitize_stem("input"),
    }
}

/// The file stem of `path` with every character that is not an ASCII
/// letter, digit, `-` or `_` replaced by `_`; `input` when the path has no
/// stem.
pub fn safe_stem(path: &str) -> (name: String)
    ensures
        exists|stem: Option<Seq<char>>|
            {
                &&& (stem matches Some(s) ==> s.len() > 0 && occurs_in(s, path@))
                &&& name@ == spec_stem_name(stem)
            },
        name@.len() > 0,
        forall|i: int| 0 <= i < name@.len() ==> is_stem_char(#[trigger] name@[i]),
        has_plain_file_name(path@) ==> name@ == spec_sanitize(stem_of(file_name_of(path@))),
        slash_separated(path@) && (forall|i: int| 0 <= i < path@.len() ==> path@[i] == '/')
            ==> name@ == spec_stem_name(None),
{
    let stem = path_file_stem(path);
    let ghost stem_view = match &stem {
        Some(s) => Some(s@),
        None => None,
    };
    let name = match &stem {
        Some(s) => stem_name(Some(s.as_str())),
        None => stem_name(None),
    };
    assert(stem_view matches Some(s) ==> s.len() > 0 && occurs_in(s, path@));
    assert(name@ == spec_stem_name(stem_view));
    proof {
        if slash_separated(path@) && (forall|i: int| 0 <= i < path@.len() ==> path@[i] == '/') {
            if let Some(s) = stem_view {
                let i = choose|i: int|
                    0 <= i && i + s.len() <= path@.len() && #[trigger] path@.subrange(i, i + s.len()) == s;
                assert(s[0] == path@[i]);
                assert(s.contains('/'));
            }
        }
        reveal_strlit("input");
        match stem_view {
            Some(s) => lemma_sanitize(s),
            None => lemma_sanitize("input"@),
        }
    }
    name
}

/// A text without `c` has no last `c`.
proof fn lemma_not_found(s: Seq<char>, c: char)
    requires
        !s.contains(c),
    ensures
        last_index(s, c) == -1,
    decreases s.len(),
{
    if s.len() > 0 {
        assert(s.last() == s[s.len() - 1]);
        assert forall|d: char| s.drop_last().contains(d) implies s.contains(d) by {
            let i = choose|i: int| 0 <= i < s.drop_last().len() && s.drop_last()[i] == d;
            assert(s[i] == d);
        }
        lemma_not_found(s.drop_last(), c);
    }
}

/// A staging stem is settled: a non-empty name of ASCII letters, digits,
/// `-` and `_` is a plain file name, its own file name and stem, and comes
/// out of sanitizing unchanged, so `safe_stem` gives it back as it is.
pub proof fn lemma_safe_stem_settles(name: Seq<char>)
    requires
        name.len() > 0,
        forall|i: int| 0 <= i < name.len() ==> is_stem_char(#[trigger] name[i]),
    ensures
        is_plain_name(name),
        has_plain_file_name(name),
        file_name_of(name) == name,
        stem_of(name) == name,
        spec_sanitize(stem_of(file_name_of(name))) == name,
{
    assert forall|c: char| name.contains(c) implies is_stem_char(c) by {
        let i = choose|i: int| 0 <= i < name.len() && name[i] == c;
        assert(is_stem_char(name[i]));
    }
    assert(!is_stem_char('.') && !is_stem_char('/') && !is_stem_char('\\') && !is_stem_char(':'));
    assert(name != seq!['.']) by {
        if name == seq!['.'] {
            assert(is_stem_char(name[0]));
        }
    }
    assert(name != seq!['.', '.']) by {
        if name == seq!['.', '.'] {
            assert(is_stem_char(name[0]));
        }
    }
    lemma_not_found(name, '.');
    lemma_not_found(name, '/');
    assert(file_name_of(name) =~= name);
    lemma_sanitize(name);
    assert(spec_sanitize(name) =~= name);
}

/// Where the last `c` stands is at most the end of the text, and holds `c`.
proof fn lemma_last_index_bound(s: Seq<char>, c: char)
    ensures
        -1 <= last_index(s, c) < s.len(),
        last_index(s, c) >= 0 ==> s[last_index(s, c)] == c,
    decreases s.len(),
{
    if s.len() > 0 && s.last() != c {
        lemma_last_index_bound(s.drop_last(), c);
    }
}

/// Appending text without `c` keeps the last `c` where it was.
proof fn lemma_last_index_append(s: Seq<char>, t: Seq<char>, c: char)
    requires
        !t.contains(c),
    ensures
        last_index(s + t, c) == last_index(s, c),
    decreases t.len(),
{
    if t.len() == 0 {
        assert(s + t =~= s);
    } else {
        assert((s + t).last() == t[t.len() - 1]);
        assert((s + t).drop_last() =~= s + t.drop_last());
        assert forall|d: char| t.drop_last().contains(d) implies t.contains(d) by {
            let i = choose|i: int| 0 <= i < t.drop_last().len() && t.drop_last()[i] == d;
            assert(t[i] == d);
        }
        lemma_last_index_append(s, t.drop_last(), c);
    }
}

/// The canonical name of a format is a plain name whose extension is that
/// of the format, so the staged copy of an input is classified as the
/// format of its source.
proof fn lemma_canonical_name_classified(kind: FileKind)
    ensures
        is_plain_name(kind.spec_canonical_name()),
        last_index(kind.spec_canonical_name(), '.') > 0,
        ext_of(kind.spec_canonical_name()) == Some(kind.spec_extension()),
        forall|path: Seq<char>|
            spec_classify(ext_of(kind.spec_canonical_name()), path) == Ok::<FileKind, Seq<char>>(kind),
{
    lemma_staged_name_keeps_kind(kind);
    reveal_strlit("dxf");
    reveal_strlit("dxb");
    reveal_strlit("dwg");
    reveal_strlit("mixed.dxf");
    reveal_strlit("binary_mixed.dxb");
    reveal_strlit("mixed.dwg");
    let name = kind.spec_canonical_name();
    let ext = kind.spec_extension();
    let d = name.len() - ext.len() - 1;
    assert(ext.len() == 3);
    assert(d > 0);
    assert(name =~= name.take(d).push('.') + ext) by {
        assert(name.skip(d) == seq!['.'] + ext);
        assert forall|i: int| 0 <= i < name.len() implies name[i] == (name.take(d).push('.') + ext)[i] by {
            if i >= d {
                assert(name[i] == name.skip(d)[i - d]);
            }
        }
    }
    lemma_last_index_append(name.take(d).push('.'), ext, '.');
    assert(name.take(d).push('.').last() == '.');
    assert(last_index(name, '.') == d);
    assert(name.skip(d + 1) =~= ext);
    assert(forall|i: int| 0 <= i < name.len() ==> name[i] != '/' && name[i] != '\\' && name[i] != ':');
    assert(name != seq!['.']);
    assert(name != seq!['.', '.']);
}

/// A staged copy keeps the format of its source: the canonical name of a
/// format, alone or after a directory and a separator (`/`, or `\` on
/// Windows), is classified as that format, unless the path opens with two
/// separators (a Windows UNC, device or verbatim prefix).
pub proof fn lemma_staged_copy_keeps_kind(dir: Seq<char>, sep: char, kind: FileKind)
    requires
        is_separator(sep),
        !starts_with_two_separators(dir + seq![sep] + kind.spec_canonical_name()),
    ensures
        ends_in_dotted_name(kind.spec_canonical_name()),
        spec_classify(
            ext_of(final_part(kind.spec_canonical_name())),
            kind.spec_canonical_name(),
        ) == Ok::<FileKind, Seq<char>>(kind),
        ends_in_dotted_name(dir + seq![sep] + kind.spec_canonical_name()),
        spec_classify(
            ext_of(final_part(dir + seq![sep] + kind.spec_canonical_name())),
            dir + seq![sep] + kind.spec_canonical_name(),
        ) == Ok::<FileKind, Seq<char>>(kind),
{
    let name = kind.spec_canonical_name();
    lemma_canonical_name_classified(kind);
    // the name alone
    lemma_not_found(name, '/');
    lemma_not_found(name, '\\');
    assert(final_part(name) =~= name);
    // after a directory
    let head = dir.push(sep);
    let path = dir + seq![sep] + name;
    assert(dir + seq![sep] =~= head);
    lemma_last_index_append(head, name, '/');
    lemma_last_index_append(head, name, '\\');
    lemma_last_index_bound(dir, '/');
    lemma_last_index_bound(dir, '\\');
    assert(head.drop_last() =~= dir);
    assert(head.last() == sep);
    assert(last_separator(path) == dir.len());
    assert(final_part(path) =~= name);
}

/// After a separator, a name without separators is the final part.
proof fn lemma_final_part_after(head: Seq<char>, sep: char, name: Seq<char>)
    requires
        is_separator(sep),
        !name.contains('/'),
        !name.contains('\\'),
    ensures
        final_part(head + seq![sep] + name) == name,
{
    let h = head.push(sep);
    let path = head + seq![sep] + name;
    assert(head + seq![sep] =~= h);
    lemma_last_index_append(h, name, '/');
    lemma_last_index_append(h, name, '\\');
    lemma_last_index_bound(head, '/');
    lemma_last_index_bound(head, '\\');
    assert(h.drop_last() =~= head);
    assert(h.last() == sep);
    assert(last_separator(path) == head.len());
    assert(final_part(path) =~= name);
}

/// Appending text never lowers the count of separators.
proof fn lemma_separator_count_grows(s: Seq<char>, t: Seq<char>)
    ensures
        separator_count(s + t) >= separator_count(s),
    decreases t.len(),
{
    if t.len() == 0 {
        assert(s + t =~= s);
    } else {
        assert((s + t).drop_last() =~= s + t.drop_last());
        lemma_separator_count_grows(s, t.drop_last());
    }
}

/// An input as `canonicalize` gives it on Windows (`\\?\`, a drive letter,
/// `:\`, any directories, `\` and a plain name with a `.` past its first
/// character) names that file: it is classified by the name's extension.
pub proof fn lemma_verbatim_input_named(drive: char, dir: Seq<char>, name: Seq<char>)
    requires
        ('a' <= drive && drive <= 'z') || ('A' <= drive && drive <= 'Z'),
        is_plain_name(name),
        last_index(name, '.') > 0,
    ensures
        names_dotted_file(seq!['\\', '\\', '?', '\\', drive, ':', '\\'] + dir + seq!['\\'] + name),
        final_part(seq!['\\', '\\', '?', '\\', drive, ':', '\\'] + dir + seq!['\\'] + name) == name,
        spec_classify(
            ext_of(final_part(seq!['\\', '\\', '?', '\\', drive, ':', '\\'] + dir + seq!['\\'] + name)),
            seq!['\\', '\\', '?', '\\', drive, ':', '\\'] + dir + seq!['\\'] + name,
        ) == spec_classify(
            ext_of(name),
            seq!['\\', '\\', '?', '\\', drive, ':', '\\'] + dir + seq!['\\'] + name,
        ),
{
    let head = seq!['\\', '\\', '?', '\\', drive, ':', '\\'] + dir;
    let path = head + seq!['\\'] + name;
    lemma_final_part_after(head, '\\', name);
    assert(path[0] == '\\' && path[1] == '\\' && path[2] == '?' && path[3] == '\\');
    assert(path[4] == drive && path[5] == ':' && path[6] == '\\');
    assert(opens_verbatim_disk(path));
}

/// An input behind a UNC or device prefix (two separators, not the
/// verbatim `\\?\`, at least three separators before the last one) names
/// the file after its last separator: it is classified by that name's
/// extension.
pub proof fn lemma_unc_input_named(head: Seq<char>, sep: char, name: Seq<char>)
    requires
        is_separator(sep),
        starts_with_two_separators(head),
        !opens_verbatim(head + seq![sep] + name),
        separator_count(head) >= 3,
        is_plain_name(name),
        last_index(name, '.') > 0,
    ensures
        names_dotted_file(head + seq![sep] + name),
        final_part(head + seq![sep] + name) == name,
        spec_classify(ext_of(final_part(head + seq![sep] + name)), head + seq![sep] + name)
            == spec_classify(ext_of(name), head + seq![sep] + name),
{
    let h = head.push(sep);
    let path = head + seq![sep] + name;
    assert(head + seq![sep] =~= h);
    lemma_final_part_after(head, sep, name);
    assert(h.drop_last() =~= head);
    assert(separator_count(h) == separator_count(head) + 1);
    lemma_separator_count_grows(h, name);
    assert(path[0] == head[0] && path[1] == head[1]);
}

/// Name of the staging directory of the input at (zero-based) `index`:
/// its one-based position, two digits at least, `_`, and its stem.
pub open spec fn spec_staging_dir_name(index: nat, stem: Seq<char>) -> Seq<char> {
    spec_decimal2(index + 1) + "_"@ + stem
}

pub fn staging_dir_name(index: usize, stem: &str) -> (name: String)
    requires
        index < usize::MAX,
    ensures
        name@ == spec_staging_dir_name(index as nat, stem@),
{
    let mut name = decimal2((index + 1) as u64);
    name.append("_");
    name.append(stem);
    name
}

/// A staging directory's name is the input's one-based position in at
/// least two decimal digits, `_`, and the stem, in that order.
pub proof fn lemma_staging_dir_parts(index: nat, stem: Seq<char>)
    ensures
        spec_staging_dir_name(index, stem).len() >= stem.len() + 3,
        spec_staging_dir_name(index, stem).skip(
            spec_staging_dir_name(index, stem).len() - stem.len(),
        ) == stem,
        spec_staging_dir_name(index, stem)[spec_staging_dir_name(index, stem).len() - stem.len()
            - 1] == '_',
        all_ascii_digits(
            spec_staging_dir_name(index, stem).take(
                spec_staging_dir_name(index, stem).len() - stem.len() - 1,
            ),
        ),
        digits_value(
            spec_staging_dir_name(index, stem).take(
                spec_staging_dir_name(index, stem).len() - stem.len() - 1,
            ),
        ) == index + 1,
{
    reveal_strlit("_");
    let d = spec_decimal2(index + 1);
    lemma_decimal2_digits(index + 1);
    if index + 1 >= 10 {
        lemma_decimal_digits((index + 1) / 10);
    }
    assert(d.len() >= 2);
    let name = spec_staging_dir_name(index, stem);
    assert(name =~= d + seq!['_'] + stem);
    assert(name.skip(name.len() - stem.len()) =~= stem);
    assert(name.take(name.len() - stem.len() - 1) =~= d);
}

/// Distinct inputs of a run are staged in distinct directories, whatever
/// their stems.
pub proof fn lemma_staging_dirs_distinct(i: nat, j: nat, s: Seq<char>, t: Seq<char>)
    requires
        i != j,
    ensures
        spec_staging_dir_name(i, s) != spec_staging_dir_name(j, t),
{
    reveal_strlit("_");
    assert("_"@ =~= seq!['_']);
    if spec_staging_dir_name(i, s) == spec_staging_dir_name(j, t) {
        lemma_decimal2_prefix_injective(i + 1, j + 1, s, t);
    }
}

/// Row label of an input in the report: its path and its format.
pub open spec fn spec_input_label(path: Seq<char>, kind: FileKind) -> Seq<char> {
    path + " ("@ + kind.spec_label() + ")"@
}

pub fn input_label(path: &str, kind: FileKind) -> (label: String)
    ensures
        label@ == spec_input_label(path@, kind),
{
    let mut label = String::from_str(path);
    label.append(" (");
    label.append(kind.label());
    label.append(")");
    label
}

/// Why a custom run is refused before any file is read.
pub open spec fn spec_check_request(path_count: nat, iterations: nat) -> Result<(), Seq<char>> {
    if iterations == 0 {
        Err("iterations must be greater than zero"@)
    } else if path_count == 0 {
        Err("at least one input file is required"@)
    } else {
        Ok(())
    }
}

/// A request is accepted exactly when it names at least one input and asks
/// for at least one iteration; a request without iterations is refused for
/// that first, one without inputs for the missing inputs.
pub proof fn lemma_check_request_accepts(path_count: nat, iterations: nat)
    ensures
        spec_check_request(path_count, iterations) is Ok <==> (path_count > 0 && iterations > 0),
        iterations == 0 ==> spec_check_request(path_count, iterations) == Err::<(), Seq<char>>(
            "iterations must be greater than zero"@,
        ),
        iterations > 0 && path_count == 0 ==> spec_check_request(path_count, iterations) == Err::<
            (),
            Seq<char>,
        >("at least one input file is required"@),
{
}

/// Refuses a custom run without iterations or without input files.
pub fn check_request(path_count: usize, iterations: usize) -> (res: Result<(), String>)
    ensures
        result_view(res) == spec_check_request(path_count as nat, iterations as nat),
{
    if iterations == 0 {
        Err(String::from_str("iterations must be greater than zero"))
    } else if path_count == 0 {
        Err(String::from_str("at least one input file is required"))
    } else {
        Ok(())
    }
}

/// Position of the first of `labels` that equals `label`: where a runner's
/// result for an input stands among the results of its category.
pub fn first_with_label(labels: &Vec<String>, label: &str) -> (found: Option<usize>)
    ensures
        found matches Some(i) ==> i < labels.len() && labels[i as int]@ == label@ && forall|j: int|
            0 <= j < i ==> (#[trigger] labels[j])@ != label@,
        found is None ==> forall|j: int| 0 <= j < labels.len() ==> (#[trigger] labels[j])@ != label@,
{
    let mut i: usize = 0;
    while i < labels.len()
        invariant
            0 <= i <= labels.len(),
            forall|j: int| 0 <= j < i ==> (#[trigger] labels[j])@ != label@,
        decreases labels.len() - i,
    {
        if str_equal(labels[i].as_str(), label) {
            return Some(i);
        }
        i = i + 1;
    }
    None
}

} // verus!
