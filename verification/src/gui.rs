//! Decisions of the desktop front end: which iteration counts it accepts,
//! where a run leaves its report, and which report section it shows.
use vstd::prelude::*;
use vstd::string::StringExecFns;
use crate::generators::{spec_resolve_scale, Scale};
use crate::text::{
    all_ascii_digits, is_ascii_digit, lemma_decimal_digits, parse_trimmed_usize, spec_decimal, spec_parse_usize, spec_trim, str_equal,
};

verus! {

/// Directory, under the output root, of the report of a preset run: the
/// label of the preset that the command-line run resolves the same name to,
/// where that run writes it (a name that is no preset runs as `large`).
pub fn scale_report_dir(scale: &str) -> (dir: &'static str)
    ensures
        dir@ == spec_resolve_scale(scale@).spec_label(),
{
    proof {
        reveal_strlit("small");
        reveal_strlit("medium");
        reveal_strlit("large");
        reveal_strlit("huge");
        reveal_strlit("extrahuge");
        assert("small"@[0] == 's');
        assert("medium"@[0] == 'm');
        assert("large"@[0] == 'l');
        assert("huge"@[0] == 'h');
        assert("extrahuge"@[0] == 'e');
    }
    if str_equal(scale, "small") {
        "small_100"
    } else if str_equal(scale, "medium") {
        "medium_1k"
    } else if str_equal(scale, "huge") {
        "huge_100k"
    } else if str_equal(scale, "extrahuge") {
        "extrahuge_1m"
    } else {
        "large_10k"
    }
}

/// Iteration count typed into the front end: the text without surrounding
/// white space must be an unsigned integer, and not zero.
pub open spec fn spec_parse_iterations(text: Seq<char>) -> Option<nat> {
    match spec_parse_usize(spec_trim(text)) {
        Some(n) => if n > 0 {
            Some(n)
        } else {
            None
        },
        None => None,
    }
}

/// Reads the iteration count typed into the front end.
pub fn parse_iterations(text: &str) -> (n: Option<usize>)
    ensures
        n == (match spec_parse_iterations(text@) {
            Some(v) => Some(v as usize),
            None => None,
        }),
{
    match parse_trimmed_usize(text) {
        Some(n) => if n > 0 {
            Some(n)
        } else {
            None
        },
        None => None,
    }
}

proof fn lemma_digits_untrimmed(s: Seq<char>)
    requires
        all_ascii_digits(s),
    ensures
        spec_trim(s) == s,
{
    if s.len() > 0 {
        assert(is_ascii_digit(s[0]));
        assert(is_ascii_digit(s[s.len() - 1]));
    }
}

/// A count that the front end renders in decimal reads back as the same
/// count, both as `usize` and as an accepted iteration count.
pub proof fn lemma_iterations_roundtrip(n: nat)
    requires
        0 < n <= usize::MAX,
    ensures
        spec_parse_usize(spec_decimal(n)) == Some(n),
        spec_parse_iterations(spec_decimal(n)) == Some(n),
{
    lemma_decimal_digits(n);
    lemma_digits_untrimmed(spec_decimal(n));
    assert(is_ascii_digit(spec_decimal(n)[0]));
}

/// An accepted iteration count is never zero.
pub proof fn lemma_iterations_positive(text: Seq<char>)
    ensures
        spec_parse_iterations(text) matches Some(n) ==> n > 0,
{
}


/// A run that the front end starts: the iteration count, the directory of
/// its report under the output root, and whether it is a preset run (no
/// input files chosen) or a run on the chosen files.
pub struct RunRequest {
    pub iterations: usize,
    pub report_dir: String,
    pub preset: bool,
}

/// The message when the typed iteration count is refused.
pub open spec fn spec_iterations_refused() -> Seq<char> {
    "Iterations must be a positive integer."@
}

/// The run that the front end starts from the typed iteration count, the
/// chosen preset and the number of chosen input files; refused when the
/// count is not accepted.
pub fn run_request(iterations: &str, scale: &str, file_count: usize) -> (res: Result<RunRequest, String>)
    ensures
        spec_parse_iterations(iterations@) is None <==> res is Err,
        res matches Err(msg) ==> msg@ == spec_iterations_refused(),
        res matches Ok(req) ==> {
            &&& spec_parse_iterations(iterations@) == Some(req.iterations as nat)
            &&& req.preset == (file_count == 0)
            &&& req.report_dir@ == if file_count == 0 {
                spec_resolve_scale(scale@).spec_label()
            } else {
                "custom"@
            }
        },
{
    let n = match parse_iterations(iterations) {
        Some(n) => n,
        None => {
            return Err(String::from_str("Iterations must be a positive integer."));
        },
    };
    if file_count == 0 {
        Ok(RunRequest { iterations: n, report_dir: String::from_str(scale_report_dir(scale)), preset: true })
    } else {
        Ok(RunRequest { iterations: n, report_dir: String::from_str("custom"), preset: false })
    }
}

/// The report section that the front end shows: the one selected, or the
/// last one when the selection lies past the end (a new report may have
/// fewer sections).
pub fn section_to_show(selected: usize, count: usize) -> (shown: usize)
    requires
        count > 0,
    ensures
        shown < count,
        shown == if selected < count {
            selected
        } else {
            (count - 1) as usize
        },
{
    if selected < count {
        selected
    } else {
        count - 1
    }
}

} // verus!
