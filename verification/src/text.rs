//! Text building blocks shared by the report, the generators and the
//! custom-file runner.
use vstd::prelude::*;
use vstd::string::StrSliceExecFns;
use vstd::string::StringExecFns;

verus! {

// ---------------------------------------------------------------------------
// Decimal numbers
// ---------------------------------------------------------------------------

/// The character of a decimal digit `d < 10`.
pub open spec fn digit_char(d: nat) -> char {
    (48 + d) as char
}

/// Decimal rendering of a natural number, most significant digit first.
pub open spec fn spec_decimal(n: nat) -> Seq<char>
    decreases n,
{
    if n < 10 {
        seq![digit_char(n)]
    } else {
        spec_decimal(n / 10).push(digit_char(n % 10))
    }
}

/// Decimal rendering padded with zeros to at least two digits (`{:02}`).
pub open spec fn spec_decimal2(n: nat) -> Seq<char> {
    if n < 10 {
        seq!['0'] + spec_decimal(n)
    } else {
        spec_decimal(n)
    }
}

/// `String::push`.
#[verifier::external_body]
pub(crate) fn push_char(s: &mut String, c: char)
    ensures
        final(s)@ == old(s)@.push(c),
{
    s.push(c)
}

/// `<str as PartialEq>::eq`.
#[verifier::external_body]
pub(crate) fn str_equal(a: &str, b: &str) -> (res: bool)
    ensures
        res == (a@ == b@),
{
    a == b
}

fn digit(d: u64) -> (c: char)
    requires
        d < 10,
    ensures
        c == digit_char(d as nat),
{
    let b: u8 = 48u8 + d as u8;
    b as char
}

/// Renders `n` in decimal, as `format!("{n}")` does.
pub fn decimal(n: u64) -> (s: String)
    ensures
        s@ == spec_decimal(n as nat),
    decreases n,
{
    if n < 10 {
        let mut s = String::new();
        push_char(&mut s, digit(n));
        s
    } else {
        let mut s = decimal(n / 10);
        push_char(&mut s, digit(n % 10));
        s
    }
}

/// Renders `n` in decimal with at least two digits, as `format!("{n:02}")` does.
pub fn decimal2(n: u64) -> (s: String)
    ensures
        s@ == spec_decimal2(n as nat),
{
    if n < 10 {
        let mut s = String::new();
        push_char(&mut s, '0');
        push_char(&mut s, digit(n));
        assert(s@ =~= seq!['0'] + spec_decimal(n as nat));
        s
    } else {
        decimal(n)
    }
}

// ---------------------------------------------------------------------------
// Bytes to text
// ---------------------------------------------------------------------------

/// What `String::from_utf8_lossy` makes of `bytes`.
pub uninterp spec fn spec_utf8_lossy(bytes: Seq<u8>) -> Seq<char>;

/// `String::from_utf8_lossy`, owned. Its result is a function of the bytes
/// alone; beyond naming it, stated is what its documentation gives: valid
/// UTF-8 is decoded as it is. How invalid sequences are replaced by U+FFFD is
/// left to the name.
#[verifier::external_body]
pub(crate) fn utf8_lossy(bytes: &[u8]) -> (text: String)
    ensures
        text@ == spec_utf8_lossy(bytes@),
        vstd::utf8::valid_utf8(bytes@) ==> text@ == vstd::utf8::decode_utf8(bytes@),
{
    String::from_utf8_lossy(bytes).into_owned()
}

// ---------------------------------------------------------------------------
// Joining and table rows
// ---------------------------------------------------------------------------

/// `parts` joined by `sep`.
pub open spec fn spec_join(parts: Seq<Seq<char>>, sep: Seq<char>) -> Seq<char>
    decreases parts.len(),
{
    if parts.len() == 0 {
        Seq::empty()
    } else if parts.len() == 1 {
        parts[0]
    } else {
        spec_join(parts.drop_last(), sep) + sep + parts.last()
    }
}

/// A Markdown table row: `| a | b | c |`.
pub open spec fn spec_table_row(cells: Seq<Seq<char>>) -> Seq<char> {
    "| "@ + spec_join(cells, " | "@) + " |"@
}

/// Joins `parts` with `sep` between them, as `[String]::join` does.
pub fn join(parts: &Vec<String>, sep: &str) -> (joined: String)
    ensures
        joined@ == spec_join(parts.deep_view(), sep@),
{
    let ghost all = parts.deep_view();
    let mut joined = String::new();
    let mut i: usize = 0;
    while i < parts.len()
        invariant
            0 <= i <= parts.len(),
            all == parts.deep_view(),
            joined@ == spec_join(all.take(i as int), sep@),
        decreases parts.len() - i,
    {
        assert(all.take(i + 1).drop_last() =~= all.take(i as int));
        if i > 0 {
            joined.append(sep);
        } else {
            assert(spec_join(all.take(0), sep@) =~= Seq::<char>::empty());
        }
        joined.append(parts[i].as_str());
        i = i + 1;
    }
    assert(all.take(parts.len() as int) =~= all);
    joined
}

/// Renders `cells` as a Markdown table row, without a line ending.
pub fn table_row(cells: &Vec<String>) -> (row: String)
    ensures
        row@ == spec_table_row(cells.deep_view()),
{
    let mut row = String::from_str("| ");
    let inner = join(cells, " | ");
    row.append(inner.as_str());
    row.append(" |");
    row
}

// ---------------------------------------------------------------------------
// File-name stems
// ---------------------------------------------------------------------------

/// Characters kept as they are in a staging directory name.
pub open spec fn is_stem_char(c: char) -> bool {
    ||| ('0' <= c && c <= '9')
    ||| ('a' <= c && c <= 'z')
    ||| ('A' <= c && c <= 'Z')
    ||| c == '-'
    ||| c == '_'
}

/// A character as it appears in a staging directory name.
pub open spec fn stem_char(c: char) -> char {
    if is_stem_char(c) {
        c
    } else {
        '_'
    }
}

/// A file stem with every character that is not an ASCII letter, digit, `-`
/// or `_` replaced by `_`.
pub open spec fn spec_sanitize(s: Seq<char>) -> Seq<char> {
    s.map_values(|c: char| stem_char(c))
}

/// Replaces each character of `s` that is not an ASCII letter, digit, `-` or
/// `_` with `_`.
pub fn sanitize_stem(s: &str) -> (res: String)
    ensures
        res@ == spec_sanitize(s@),
{
    let n = s.unicode_len();
    let mut res = String::new();
    let mut i: usize = 0;
    while i < n
        invariant
            0 <= i <= n,
            n == s@.len(),
            res@ == spec_sanitize(s@.take(i as int)),
        decreases n - i,
    {
        let c = s.get_char(i);
        let kept = ('0' <= c && c <= '9') || ('a' <= c && c <= 'z') || ('A' <= c && c <= 'Z')
            || c == '-' || c == '_';
        if kept {
            push_char(&mut res, c);
        } else {
            push_char(&mut res, '_');
        }
        assert(spec_sanitize(s@.take(i + 1)) =~= spec_sanitize(s@.take(i as int)).push(
            stem_char(c),
        ));
        i = i + 1;
    }
    assert(s@.take(n as int) =~= s@);
    res
}

// ---------------------------------------------------------------------------
// ASCII case folding
// ---------------------------------------------------------------------------

/// `char::to_ascii_lowercase`.
pub open spec fn lower_char(c: char) -> char {
    if 'A' <= c && c <= 'Z' {
        ((c as u32) + 32) as char
    } else {
        c
    }
}

/// `str::to_ascii_lowercase`.
pub open spec fn spec_ascii_lowercase(s: Seq<char>) -> Seq<char> {
    s.map_values(|c: char| lower_char(c))
}

fn lower(c: char) -> (l: char)
    ensures
        l == lower_char(c),
{
    if 'A' <= c && c <= 'Z' {
        let b: u8 = c as u8;
        (b + 32) as char
    } else {
        c
    }
}

/// Lower-cases the ASCII letters of `s`, as `str::to_ascii_lowercase` does.
pub fn ascii_lowercase(s: &str) -> (res: String)
    ensures
        res@ == spec_ascii_lowercase(s@),
{
    let n = s.unicode_len();
    let mut res = String::new();
    let mut i: usize = 0;
    while i < n
        invariant
            0 <= i <= n,
            n == s@.len(),
            res@ == spec_ascii_lowercase(s@.take(i as int)),
        decreases n - i,
    {
        let c = s.get_char(i);
        push_char(&mut res, lower(c));
        assert(spec_ascii_lowercase(s@.take(i + 1)) =~= spec_ascii_lowercase(
            s@.take(i as int),
        ).push(lower_char(c)));
        i = i + 1;
    }
    assert(s@.take(n as int) =~= s@);
    res
}

// ---------------------------------------------------------------------------
// Trimming and unsigned integers
// ---------------------------------------------------------------------------

/// The Unicode `White_Space` property, which `char::is_whitespace` and
/// `str::trim` use.
pub open spec fn is_white_space(c: char) -> bool {
    ||| ('\u{9}' <= c && c <= '\u{d}')
    ||| c == ' '
    ||| c == '\u{85}'
    ||| c == '\u{a0}'
    ||| c == '\u{1680}'
    ||| ('\u{2000}' <= c && c <= '\u{200a}')
    ||| c == '\u{2028}'
    ||| c == '\u{2029}'
    ||| c == '\u{202f}'
    ||| c == '\u{205f}'
    ||| c == '\u{3000}'
}

/// `s` without its leading white space.
pub open spec fn spec_trim_start(s: Seq<char>) -> Seq<char>
    decreases s.len(),
{
    if s.len() > 0 && is_white_space(s[0]) {
        spec_trim_start(s.drop_first())
    } else {
        s
    }
}

/// `s` without its trailing white space.
pub open spec fn spec_trim_end(s: Seq<char>) -> Seq<char>
    decreases s.len(),
{
    if s.len() > 0 && is_white_space(s.last()) {
        spec_trim_end(s.drop_last())
    } else {
        s
    }
}

/// `str::trim`.
pub open spec fn spec_trim(s: Seq<char>) -> Seq<char> {
    spec_trim_end(spec_trim_start(s))
}

pub open spec fn is_ascii_digit(c: char) -> bool {
    '0' <= c && c <= '9'
}

pub open spec fn all_ascii_digits(s: Seq<char>) -> bool {
    forall|i: int| 0 <= i < s.len() ==> #[trigger] is_ascii_digit(s[i])
}

/// The value of a string of decimal digits.
pub open spec fn digits_value(s: Seq<char>) -> nat
    decreases s.len(),
{
    if s.len() == 0 {
        0
    } else {
        digits_value(s.drop_last()) * 10 + ((s.last() as u32) - 48) as nat
    }
}

/// `<usize as FromStr>::from_str`: an optional `+`, then one or more ASCII
/// digits whose value fits in a `usize`.
pub open spec fn spec_parse_usize(s: Seq<char>) -> Option<nat> {
    let body = if s.len() > 0 && s[0] == '+' {
        s.drop_first()
    } else {
        s
    };
    if body.len() > 0 && all_ascii_digits(body) && digits_value(body) <= usize::MAX {
        Some(digits_value(body))
    } else {
        None
    }
}

fn white_space(c: char) -> (b: bool)
    ensures
        b == is_white_space(c),
{
    ('\u{9}' <= c && c <= '\u{d}') || c == ' ' || c == '\u{85}' || c == '\u{a0}' || c
        == '\u{1680}' || ('\u{2000}' <= c && c <= '\u{200a}') || c == '\u{2028}' || c
        == '\u{2029}' || c == '\u{202f}' || c == '\u{205f}' || c == '\u{3000}'
}

/// The bounds of `s` with its surrounding white space removed.
fn trim_bounds(s: &str) -> (bounds: (usize, usize))
    ensures
        bounds.0 <= bounds.1 <= s@.len(),
        spec_trim(s@) == s@.subrange(bounds.0 as int, bounds.1 as int),
{
    let n = s.unicode_len();
    let mut a: usize = 0;
    assert(s@.skip(0) =~= s@);
    while a < n && white_space(s.get_char(a))
        invariant
            0 <= a <= n,
            n == s@.len(),
            spec_trim_start(s@) == spec_trim_start(s@.skip(a as int)),
        decreases n - a,
    {
        assert(s@.skip(a as int).drop_first() =~= s@.skip(a + 1));
        a = a + 1;
    }
    let ghost t = s@.skip(a as int);
    assert(spec_trim_start(s@) == t);
    let mut b: usize = n;
    assert(t.take(n - a) =~= t);
    while b > a && white_space(s.get_char(b - 1))
        invariant
            a <= b <= n,
            n == s@.len(),
            t == s@.skip(a as int),
            spec_trim_end(t) == spec_trim_end(t.take(b - a)),
        decreases b,
    {
        assert(t.take(b - a).drop_last() =~= t.take(b - 1 - a));
        b = b - 1;
    }
    assert(t.take(n - a) =~= t);
    assert(t.take(b - a) =~= s@.subrange(a as int, b as int));
    (a, b)
}

proof fn lemma_digits_prefix_le(s: Seq<char>, j: int)
    requires
        0 <= j <= s.len(),
    ensures
        digits_value(s.take(j)) <= digits_value(s),
    decreases s.len() - j,
{
    if j < s.len() {
        lemma_digits_prefix_le(s, j + 1);
        assert(s.take(j + 1).drop_last() =~= s.take(j));
    } else {
        assert(s.take(j) =~= s);
    }
}

/// Parses the characters `s[from..to]` as `<usize as FromStr>::from_str` does.
fn parse_usize_range(s: &str, from: usize, to: usize) -> (res: Option<usize>)
    requires
        from <= to <= s@.len(),
    ensures
        res == (match spec_parse_usize(s@.subrange(from as int, to as int)) {
            Some(v) => Some(v as usize),
            None => None,
        }),
{
    let ghost whole = s@.subrange(from as int, to as int);
    let mut p = from;
    if p < to && s.get_char(p) == '+' {
        p = p + 1;
    }
    let ghost body = s@.subrange(p as int, to as int);
    assert(body =~= (if whole.len() > 0 && whole[0] == '+' {
        whole.drop_first()
    } else {
        whole
    }));
    if p == to {
        return None;
    }
    let mut v: usize = 0;
    let mut k = p;
    while k < to
        invariant
            p <= k <= to <= s@.len(),
            body == s@.subrange(p as int, to as int),
            body == (if whole.len() > 0 && whole[0] == '+' {
                whole.drop_first()
            } else {
                whole
            }),
            whole == s@.subrange(from as int, to as int),
            all_ascii_digits(body.take(k - p)),
            v as nat == digits_value(body.take(k - p)),
        decreases to - k,
    {
        let c = s.get_char(k);
        assert(c == body[k - p]);
        if !('0' <= c && c <= '9') {
            assert(!is_ascii_digit(body[k - p]));
            return None;
        }
        let d: usize = (c as u32 - 48u32) as usize;
        assert(body.take(k - p + 1).drop_last() =~= body.take(k - p));
        assert(digits_value(body.take(k - p + 1)) == digits_value(body.take(k - p)) * 10 + d);
        if v > (usize::MAX - d) / 10 {
            proof {
                if all_ascii_digits(body) {
                    lemma_digits_prefix_le(body, k - p + 1);
                }
            }
            return None;
        }
        v = v * 10 + d;
        assert(all_ascii_digits(body.take(k - p + 1))) by {
            assert forall|i: int| 0 <= i < body.take(k - p + 1).len() implies #[trigger] is_ascii_digit(
                body.take(k - p + 1)[i],
            ) by {
                if i < k - p {
                    assert(body.take(k - p + 1)[i] == body.take(k - p)[i]);
                }
            }
        }
        k = k + 1;
    }
    assert(body.take(to - p) =~= body);
    Some(v)
}

/// Parses `s` with its surrounding white space removed, as
/// `s.trim().parse::<usize>()` does.
pub fn parse_trimmed_usize(s: &str) -> (res: Option<usize>)
    ensures
        res == (match spec_parse_usize(spec_trim(s@)) {
            Some(v) => Some(v as usize),
            None => None,
        }),
{
    let (a, b) = trim_bounds(s);
    parse_usize_range(s, a, b)
}

/// Decimal renderings are non-empty strings of digits whose value is the
/// number rendered.
pub proof fn lemma_decimal_digits(n: nat)
    ensures
        spec_decimal(n).len() > 0,
        all_ascii_digits(spec_decimal(n)),
        digits_value(spec_decimal(n)) == n,
    decreases n,
{
    let d = spec_decimal(n);
    if n >= 10 {
        lemma_decimal_digits(n / 10);
        assert(d.drop_last() =~= spec_decimal(n / 10));
        assert((digit_char(n % 10) as u32) == 48 + n % 10);
        assert(n == (n / 10) * 10 + n % 10);
        assert(d.last() == digit_char(n % 10));
        assert forall|i: int| 0 <= i < d.len() implies #[trigger] is_ascii_digit(d[i]) by {
            if i < d.len() - 1 {
                assert(d[i] == spec_decimal(n / 10)[i]);
            }
        }
    } else {
        assert(d.drop_last() =~= Seq::<char>::empty());
        assert((digit_char(n) as u32) == 48 + n);
        assert(digits_value(d.drop_last()) == 0);
        assert(d.last() == digit_char(n));
    }
}

/// Two-digit renderings are non-empty strings of digits whose value is the
/// number rendered.
pub proof fn lemma_decimal2_digits(n: nat)
    ensures
        spec_decimal2(n).len() > 0,
        all_ascii_digits(spec_decimal2(n)),
        digits_value(spec_decimal2(n)) == n,
{
    lemma_decimal_digits(n);
    let d = spec_decimal2(n);
    if n < 10 {
        assert(d =~= seq!['0', digit_char(n)]);
        assert(d.drop_last() =~= seq!['0']);
        assert(seq!['0'].drop_last() =~= Seq::<char>::empty());
        assert(('0' as u32) == 48);
        assert((digit_char(n) as u32) == 48 + n);
        assert(seq!['0'].last() == '0');
        assert(digits_value(Seq::<char>::empty()) == 0);
        assert(digits_value(seq!['0']) == 0);
        assert(d.last() == digit_char(n));
    }
}

/// Distinct numbers have distinct renderings, even when a separator and
/// arbitrary text follow them.
pub proof fn lemma_decimal2_prefix_injective(a: nat, b: nat, s: Seq<char>, t: Seq<char>)
    requires
        spec_decimal2(a) + seq!['_'] + s == spec_decimal2(b) + seq!['_'] + t,
    ensures
        a == b,
{
    lemma_decimal2_digits(a);
    lemma_decimal2_digits(b);
    let x = spec_decimal2(a);
    let y = spec_decimal2(b);
    let whole = x + seq!['_'] + s;
    let other = y + seq!['_'] + t;
    assert(whole[x.len() as int] == '_');
    assert(other[y.len() as int] == '_');
    if x.len() < y.len() {
        assert(is_ascii_digit(y[x.len() as int]));
        assert(other[x.len() as int] == y[x.len() as int]);
    } else if y.len() < x.len() {
        assert(is_ascii_digit(x[y.len() as int]));
        assert(whole[y.len() as int] == x[y.len() as int]);
    } else {
        assert(x =~= whole.take(x.len() as int));
        assert(y =~= other.take(y.len() as int));
    }
}

/// Sanitizing keeps the length, yields only stem characters, keeps stem
/// characters where they are, and changes nothing a second time.
pub proof fn lemma_sanitize(s: Seq<char>)
    ensures
        spec_sanitize(s).len() == s.len(),
        forall|i: int| 0 <= i < s.len() ==> is_stem_char(#[trigger] spec_sanitize(s)[i]),
        forall|i: int| 0 <= i < s.len() && is_stem_char(s[i]) ==> #[trigger] spec_sanitize(s)[i] == s[i],
        spec_sanitize(spec_sanitize(s)) == spec_sanitize(s),
{
    assert(spec_sanitize(spec_sanitize(s)) =~= spec_sanitize(s));
}

} // verus!
