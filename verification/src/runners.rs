//! Output of the external benchmark runners (ACadSharp under .NET, ezdxf
//! under Python): the line that holds their JSON results, and the notes that
//! explain why no runner could be used.
use vstd::prelude::*;
use vstd::string::StringExecFns;
use crate::text::{join, spec_join, spec_utf8_lossy, utf8_lossy};

verus! {

/// A line of `out` starts at `s`: at the beginning or right after a `\n`.
pub open spec fn is_line_start(out: Seq<u8>, s: int) -> bool {
    s == 0 || (0 < s <= out.len() && out[s - 1] == 10u8)
}

/// A line that starts at `s` and opens with `{`: a runner's JSON results.
pub open spec fn opens_json(out: Seq<u8>, s: int) -> bool {
    is_line_start(out, s) && 0 <= s < out.len() && out[s] == 123u8
}

/// Where the line that starts at `s` ends: at the next `\n`, or at the end.
pub open spec fn line_end(out: Seq<u8>, s: int) -> int
    decreases out.len() - s,
{
    if s < 0 || s >= out.len() {
        out.len() as int
    } else if out[s] == 10u8 {
        s
    } else {
        line_end(out, s + 1)
    }
}

/// The line that starts at `s`, without its line ending (`\n` or `\r\n`),
/// as `str::lines` gives it.
pub open spec fn line_at(out: Seq<u8>, s: int) -> Seq<u8> {
    let e = line_end(out, s);
    if e < out.len() && e > s && out[e - 1] == 13u8 {
        out.subrange(s, e - 1)
    } else {
        out.subrange(s, e)
    }
}

/// The line of a runner's output that holds its JSON results: the last line
/// that opens with `{`. A runner that did not succeed has none.
pub fn runner_json_line(out: &[u8], success: bool) -> (line: Option<Vec<u8>>)
    ensures
        !success ==> line is None,
        success ==> (line is None <==> forall|s: int| !opens_json(out@, s)),
        line matches Some(l) ==> exists|s: int|
            {
                &&& opens_json(out@, s)
                &&& (forall|t: int| opens_json(out@, t) ==> t <= s)
                &&& l@ == line_at(out@, s)
            },
{
    if !success {
        return None;
    }
    let n = out.len();
    let mut s = n;
    let mut found = false;
    while s > 0
        invariant_except_break
            !found,
            s <= n,
            n == out@.len(),
            forall|t: int| s <= t ==> !opens_json(out@, t),
        ensures
            s <= n,
            n == out@.len(),
            found ==> s < n && opens_json(out@, s as int),
            found ==> forall|t: int| s < t ==> !opens_json(out@, t),
            !found ==> forall|t: int| 0 <= t ==> !opens_json(out@, t),
        decreases s,
    {
        let t = s - 1;
        if out[t] == 123u8 && (t == 0 || out[t - 1] == 10u8) {
            s = t;
            found = true;
            break;
        }
        s = t;
    }
    if !found {
        assert forall|t: int| !opens_json(out@, t) by {
            if t < 0 {
                assert(!is_line_start(out@, t) || !(0 <= t));
            }
        }
        return None;
    }
    let start = s;
    let mut e = start;
    while e < n && out[e] != 10u8
        invariant
            start <= e <= n,
            n == out@.len(),
            line_end(out@, start as int) == line_end(out@, e as int),
        decreases n - e,
    {
        e = e + 1;
    }
    let cut = if e < n && e > start && out[e - 1] == 13u8 {
        e - 1
    } else {
        e
    };
    let piece = vstd::slice::slice_subrange(out, start, cut);
    let line = vstd::slice::slice_to_vec(piece);
    assert(line@ == line_at(out@, start as int));
    Some(line)
}

/// The JSON results of a runner as text: its JSON line, decoded as
/// `String::from_utf8_lossy` does.
pub fn runner_json_text(out: &[u8], success: bool) -> (text: Option<String>)
    ensures
        match runner_json_line_spec(out@, success) {
            Some(line) => text matches Some(t) && t@ == spec_utf8_lossy(line),
            None => text is None,
        },
{
    match runner_json_line(out, success) {
        Some(line) => Some(utf8_lossy(line.as_slice())),
        None => None,
    }
}

/// The JSON line of a runner's output: the last line that opens with `{`;
/// none when the runner failed or printed no such line.
pub open spec fn runner_json_line_spec(out: Seq<u8>, success: bool) -> Option<Seq<u8>> {
    if success && exists|s: int| opens_json(out, s) {
        let s = choose|s: int| opens_json(out, s) && forall|t: int| opens_json(out, t) ==> t <= s;
        Some(line_at(out, s))
    } else {
        None
    }
}

/// Where the last line that starts at or before `s` starts.
pub open spec fn line_start_before(out: Seq<u8>, s: int) -> int
    decreases s,
{
    if s <= 0 {
        0
    } else if out[s - 1] == 10u8 {
        s
    } else {
        line_start_before(out, s - 1)
    }
}

/// The last line of `out`, as `str::lines().last()` gives it: the line that
/// starts at the last line start before the end.
pub fn last_line(out: &[u8]) -> (line: Option<Vec<u8>>)
    ensures
        line is None <==> out@.len() == 0,
        line matches Some(l) ==> exists|s: int|
            {
                &&& is_line_start(out@, s)
                &&& 0 <= s < out@.len()
                &&& (forall|t: int| is_line_start(out@, t) && t < out@.len() ==> t <= s)
                &&& l@ == line_at(out@, s)
            },
        line matches Some(l) ==> l@ == line_at(out@, line_start_before(out@, out@.len() - 1)),
{
    let n = out.len();
    if n == 0 {
        return None;
    }
    let mut s = n - 1;
    while s > 0 && out[s - 1] != 10u8
        invariant
            0 <= s < n,
            n == out@.len(),
            forall|t: int| s < t < n ==> !is_line_start(out@, t),
            line_start_before(out@, n - 1) == line_start_before(out@, s as int),
        decreases s,
    {
        s = s - 1;
    }
    let start = s;
    let mut e = start;
    while e < n && out[e] != 10u8
        invariant
            start <= e <= n,
            n == out@.len(),
            line_end(out@, start as int) == line_end(out@, e as int),
        decreases n - e,
    {
        e = e + 1;
    }
    let cut = if e < n && e > start && out[e - 1] == 13u8 {
        e - 1
    } else {
        e
    };
    let piece = vstd::slice::slice_subrange(out, start, cut);
    let line = vstd::slice::slice_to_vec(piece);
    assert(line@ == line_at(out@, start as int));
    Some(line)
}

/// A note on a runner that failed: its name, `: `, and the last line of
/// its standard error decoded as `String::from_utf8_lossy` does, or
/// `exited unsuccessfully` when it wrote nothing there.
pub open spec fn spec_failure_note(name: Seq<char>, stderr: Seq<u8>) -> Seq<char> {
    if stderr.len() == 0 {
        name + ": "@ + "exited unsuccessfully"@
    } else {
        name + ": "@ + spec_utf8_lossy(line_at(stderr, line_start_before(stderr, stderr.len() - 1)))
    }
}

/// A note on a runner that failed: its name and the last line of its
/// standard error (or `exited unsuccessfully` when it wrote nothing).
pub fn failure_note(name: &str, stderr: &[u8]) -> (note: String)
    ensures
        stderr@.len() == 0 ==> note@ == name@ + ": "@ + "exited unsuccessfully"@,
        stderr@.len() > 0 ==> exists|s: int|
            {
                &&& is_line_start(stderr@, s)
                &&& 0 <= s < stderr@.len()
                &&& (forall|t: int| is_line_start(stderr@, t) && t < stderr@.len() ==> t <= s)
                &&& note@ == name@ + ": "@ + spec_utf8_lossy(line_at(stderr@, s))
            },
        note@ == spec_failure_note(name@, stderr@),
{
    let mut note = String::from_str(name);
    note.append(": ");
    match last_line(stderr) {
        Some(line) => {
            let detail = utf8_lossy(line.as_slice());
            note.append(detail.as_str());
        },
        None => {
            note.append("exited unsuccessfully");
        },
    }
    note
}

/// The error when no runner could be used: the advice, then every failure
/// note, separated by `; `.
pub open spec fn spec_unavailable_message(advice: Seq<char>, failures: Seq<Seq<char>>) -> Seq<
    char,
> {
    advice + " Tried: "@ + spec_join(failures, "; "@)
}

pub fn unavailable_message(advice: &str, failures: &Vec<String>) -> (msg: String)
    ensures
        msg@ == spec_unavailable_message(advice@, failures.deep_view()),
{
    let mut msg = String::from_str(advice);
    msg.append(" Tried: ");
    let tried = join(failures, "; ");
    msg.append(tried.as_str());
    msg
}


// ---------------------------------------------------------------------------
// Choosing a runner
// ---------------------------------------------------------------------------

/// The program that a launch starts.
pub enum Program {
    /// The runner at this position of the list of runner paths.
    Runner(usize),
    /// The Python interpreter that the environment names (`EZDXF_PYTHON`).
    Configured,
    /// The interpreter at this position of the list of interpreter paths.
    Interpreter(usize),
    /// A command looked up on the search path.
    Command(String),
}

/// A program, by its view.
pub enum ProgramSpec {
    Runner(int),
    Configured,
    Interpreter(int),
    Command(Seq<char>),
}

impl DeepView for Program {
    type V = ProgramSpec;

    open spec fn deep_view(&self) -> ProgramSpec {
        match self {
            Program::Runner(i) => ProgramSpec::Runner(*i as int),
            Program::Configured => ProgramSpec::Configured,
            Program::Interpreter(i) => ProgramSpec::Interpreter(*i as int),
            Program::Command(c) => ProgramSpec::Command(c@),
        }
    }
}

/// One attempt at running a benchmark: the program, the arguments that come
/// before the common ones (the Python script when `with_script`, then
/// `--dir`, the directory, `--iterations` and the count), the name under
/// which a failure is reported, and whether that report quotes the last line
/// of the program's standard error.
pub struct Launch {
    pub program: Program,
    pub prefix: Vec<String>,
    pub name: String,
    pub with_script: bool,
    pub reads_stderr: bool,
}

/// A launch, by its view.
pub struct LaunchSpec {
    pub program: ProgramSpec,
    pub prefix: Seq<Seq<char>>,
    pub name: Seq<char>,
    pub with_script: bool,
    pub reads_stderr: bool,
}

impl DeepView for Launch {
    type V = LaunchSpec;

    open spec fn deep_view(&self) -> LaunchSpec {
        LaunchSpec {
            program: self.program.deep_view(),
            prefix: self.prefix.deep_view(),
            name: self.name@,
            with_script: self.with_script,
            reads_stderr: self.reads_stderr,
        }
    }
}

/// A packaged runner (`paths[i]`), started without a script; its failure
/// is reported without its standard error.
pub open spec fn runner_launch(i: int, name: Seq<char>) -> LaunchSpec {
    LaunchSpec {
        program: ProgramSpec::Runner(i),
        prefix: Seq::empty(),
        name,
        with_script: false,
        reads_stderr: false,
    }
}

/// A Python interpreter found on disk (`paths[i]`), started on the script.
pub open spec fn interpreter_launch(i: int, name: Seq<char>) -> LaunchSpec {
    LaunchSpec {
        program: ProgramSpec::Interpreter(i),
        prefix: Seq::empty(),
        name,
        with_script: true,
        reads_stderr: true,
    }
}

/// A command on the search path.
pub open spec fn command_launch(
    command: Seq<char>,
    prefix: Seq<Seq<char>>,
    name: Seq<char>,
    with_script: bool,
) -> LaunchSpec {
    LaunchSpec { program: ProgramSpec::Command(command), prefix, name, with_script, reads_stderr: true }
}

/// The launches of the first `n` of `paths` that are files, in order: each
/// path comes with its display name and whether it is a file.
pub open spec fn present_launches(paths: Seq<(Seq<char>, bool)>, n: int, interpreters: bool) -> Seq<
    LaunchSpec,
>
    decreases n,
{
    if n <= 0 {
        Seq::empty()
    } else {
        let rest = present_launches(paths, n - 1, interpreters);
        if paths[n - 1].1 {
            rest.push(
                if interpreters {
                    interpreter_launch(n - 1, paths[n - 1].0)
                } else {
                    runner_launch(n - 1, paths[n - 1].0)
                },
            )
        } else {
            rest
        }
    }
}

/// The position, in its list of paths, of a launch of a path that was found
/// (-1 for the other launches).
pub open spec fn launch_path(launch: LaunchSpec) -> int {
    match launch.program {
        ProgramSpec::Runner(i) => i,
        ProgramSpec::Interpreter(i) => i,
        _ => -1,
    }
}

/// Of the candidate paths, exactly those that are files are tried, each
/// once, under its display name and in the order of the list.
pub proof fn lemma_present_launches(paths: Seq<(Seq<char>, bool)>, n: int, interpreters: bool)
    requires
        0 <= n <= paths.len(),
    ensures
        forall|k: int|
            0 <= k < present_launches(paths, n, interpreters).len() ==> {
                let l = #[trigger] present_launches(paths, n, interpreters)[k];
                &&& 0 <= launch_path(l) < n
                &&& paths[launch_path(l)].1
                &&& l.name == paths[launch_path(l)].0
                &&& l == if interpreters {
                    interpreter_launch(launch_path(l), l.name)
                } else {
                    runner_launch(launch_path(l), l.name)
                }
            },
        forall|j: int, k: int|
            0 <= j < k < present_launches(paths, n, interpreters).len() ==> launch_path(
                #[trigger] present_launches(paths, n, interpreters)[j],
            ) < launch_path(#[trigger] present_launches(paths, n, interpreters)[k]),
        forall|i: int|
            0 <= i < n && #[trigger] paths[i].1 ==> exists|k: int|
                0 <= k < present_launches(paths, n, interpreters).len() && launch_path(
                    #[trigger] present_launches(paths, n, interpreters)[k],
                ) == i,
    decreases n,
{
    if n > 0 {
        lemma_present_launches(paths, n - 1, interpreters);
        let rest = present_launches(paths, n - 1, interpreters);
        let all = present_launches(paths, n, interpreters);
        if paths[n - 1].1 {
            assert(all == rest.push(all[rest.len() as int]));
            assert(launch_path(all[rest.len() as int]) == n - 1);
            assert forall|k: int| 0 <= k < rest.len() implies all[k] == rest[k] by {}
            assert forall|i: int| 0 <= i < n && #[trigger] paths[i].1 implies exists|k: int|
                0 <= k < all.len() && launch_path(#[trigger] all[k]) == i by {
                if i == n - 1 {
                    assert(launch_path(all[rest.len() as int]) == i);
                } else {
                    let k = choose|k: int| 0 <= k < rest.len() && launch_path(#[trigger] rest[k]) == i;
                    assert(all[k] == rest[k]);
                }
            }
        }
    }
}

/// The order in which the ezdxf benchmark looks for a Python runtime: the
/// packaged runners that exist, the interpreter that the environment names
/// (whether or not it exists), the interpreters found on disk, then the
/// Windows launcher `py -3` (on Windows only), `python` and `python3`.
pub open spec fn spec_ezdxf_plan(
    runners: Seq<(Seq<char>, bool)>,
    configured: Option<Seq<char>>,
    interpreters: Seq<(Seq<char>, bool)>,
    windows: bool,
) -> Seq<LaunchSpec> {
    present_launches(runners, runners.len() as int, false) + match configured {
        Some(name) => seq![
            LaunchSpec {
                program: ProgramSpec::Configured,
                prefix: Seq::empty(),
                name,
                with_script: true,
                reads_stderr: true,
            },
        ],
        None => Seq::empty(),
    } + present_launches(interpreters, interpreters.len() as int, true) + if windows {
        seq![command_launch("py"@, seq!["-3"@], "py -3"@, true)]
    } else {
        Seq::empty()
    } + seq![
        command_launch("python"@, Seq::empty(), "python"@, true),
        command_launch("python3"@, Seq::empty(), "python3"@, true),
    ]
}

/// The order in which the ACadSharp benchmark looks for a runner: the
/// packaged runners that exist, then `dotnet run` on the project.
pub open spec fn spec_acadsharp_plan(runners: Seq<(Seq<char>, bool)>) -> Seq<LaunchSpec> {
    present_launches(runners, runners.len() as int, false) + seq![
        command_launch(
            "dotnet"@,
            seq!["run"@, "-c"@, "Release"@, "--project"@, "acadsharp-bench"@, "--"@],
            "dotnet"@,
            false,
        ),
    ]
}

/// The stage of the search that a launch belongs to: packaged runners,
/// then the interpreter that the environment names, then interpreters found
/// on disk, then commands on the search path.
pub open spec fn launch_stage(launch: LaunchSpec) -> int {
    match launch.program {
        ProgramSpec::Runner(_) => 0,
        ProgramSpec::Configured => 1,
        ProgramSpec::Interpreter(_) => 2,
        ProgramSpec::Command(_) => 3,
    }
}

/// The ezdxf search goes through its stages in order, never back: packaged
/// runners first, then the configured interpreter (there exactly when the
/// environment names one, under that name), then the interpreters found on
/// disk; the commands on the search path come last, `py -3` (on Windows
/// only) right before `python`, and `python3` at the end.
pub proof fn lemma_ezdxf_plan_order(
    runners: Seq<(Seq<char>, bool)>,
    configured: Option<Seq<char>>,
    interpreters: Seq<(Seq<char>, bool)>,
    windows: bool,
)
    ensures
        forall|j: int, k: int|
            0 <= j < k < spec_ezdxf_plan(runners, configured, interpreters, windows).len()
                ==> launch_stage(
                #[trigger] spec_ezdxf_plan(runners, configured, interpreters, windows)[j],
            ) <= launch_stage(
                #[trigger] spec_ezdxf_plan(runners, configured, interpreters, windows)[k],
            ),
        spec_ezdxf_plan(runners, configured, interpreters, windows).len() >= if windows {
            3int
        } else {
            2int
        },
        spec_ezdxf_plan(runners, configured, interpreters, windows).last() == command_launch(
            "python3"@,
            Seq::empty(),
            "python3"@,
            true,
        ),
        spec_ezdxf_plan(runners, configured, interpreters, windows)[spec_ezdxf_plan(
            runners,
            configured,
            interpreters,
            windows,
        ).len() - 2] == command_launch("python"@, Seq::empty(), "python"@, true),
        windows ==> spec_ezdxf_plan(runners, configured, interpreters, windows)[spec_ezdxf_plan(
            runners,
            configured,
            interpreters,
            windows,
        ).len() - 3] == command_launch("py"@, seq!["-3"@], "py -3"@, true),
        forall|k: int|
            0 <= k < spec_ezdxf_plan(runners, configured, interpreters, windows).len() - (if windows {
                3int
            } else {
                2int
            }) ==> launch_stage(#[trigger] spec_ezdxf_plan(runners, configured, interpreters, windows)[k])
                < 3,
        forall|k: int|
            0 <= k < spec_ezdxf_plan(runners, configured, interpreters, windows).len()
                && (#[trigger] spec_ezdxf_plan(runners, configured, interpreters, windows)[k]).program
                == ProgramSpec::Configured ==> configured == Some(
                spec_ezdxf_plan(runners, configured, interpreters, windows)[k].name,
            ) && spec_ezdxf_plan(runners, configured, interpreters, windows)[k].with_script,
        configured is Some ==> exists|k: int|
            0 <= k < spec_ezdxf_plan(runners, configured, interpreters, windows).len()
                && (#[trigger] spec_ezdxf_plan(runners, configured, interpreters, windows)[k]).program
                == ProgramSpec::Configured,
{
    let a = present_launches(runners, runners.len() as int, false);
    let b = match configured {
        Some(name) => seq![
            LaunchSpec {
                program: ProgramSpec::Configured,
                prefix: Seq::empty(),
                name,
                with_script: true,
                reads_stderr: true,
            },
        ],
        None => Seq::empty(),
    };
    let c = present_launches(interpreters, interpreters.len() as int, true);
    let d = if windows {
        seq![command_launch("py"@, seq!["-3"@], "py -3"@, true)]
    } else {
        Seq::empty()
    };
    let e = seq![
        command_launch("python"@, Seq::empty(), "python"@, true),
        command_launch("python3"@, Seq::empty(), "python3"@, true),
    ];
    let plan = spec_ezdxf_plan(runners, configured, interpreters, windows);
    assert(plan == a + b + c + d + e);
    lemma_present_launches(runners, runners.len() as int, false);
    lemma_present_launches(interpreters, interpreters.len() as int, true);
    let na = a.len() as int;
    let nb = b.len() as int;
    let nc = c.len() as int;
    let nd = d.len() as int;
    assert forall|k: int| 0 <= k < plan.len() implies launch_stage(#[trigger] plan[k]) == if k < na {
        0int
    } else if k < na + nb {
        1int
    } else if k < na + nb + nc {
        2int
    } else {
        3int
    } by {
        if k < na {
            assert(plan[k] == a[k]);
        } else if k < na + nb {
            assert(plan[k] == b[k - na]);
        } else if k < na + nb + nc {
            assert(plan[k] == c[k - na - nb]);
        } else if k < na + nb + nc + nd {
            assert(plan[k] == d[k - na - nb - nc]);
        } else {
            assert(plan[k] == e[k - na - nb - nc - nd]);
        }
    }
    assert(plan.last() == e[1]);
    assert(plan[plan.len() - 2] == e[0]);
    if windows {
        assert(plan[plan.len() - 3] == d[0]);
    }
    if configured is Some {
        assert(plan[na].program == ProgramSpec::Configured);
    }
}

/// The ACadSharp search tries the packaged runners first, and `dotnet run`
/// on the project last, once.
pub proof fn lemma_acadsharp_plan_order(runners: Seq<(Seq<char>, bool)>)
    ensures
        spec_acadsharp_plan(runners).len() >= 1,
        spec_acadsharp_plan(runners).last() == command_launch(
            "dotnet"@,
            seq!["run"@, "-c"@, "Release"@, "--project"@, "acadsharp-bench"@, "--"@],
            "dotnet"@,
            false,
        ),
        forall|k: int|
            0 <= k < spec_acadsharp_plan(runners).len() - 1 ==> (#[trigger] spec_acadsharp_plan(
                runners,
            )[k]).program is Runner,
{
    let a = present_launches(runners, runners.len() as int, false);
    lemma_present_launches(runners, runners.len() as int, false);
    let plan = spec_acadsharp_plan(runners);
    assert forall|k: int| 0 <= k < plan.len() - 1 implies (#[trigger] plan[k]).program is Runner by {
        assert(plan[k] == a[k]);
    }
}

/// Appends the launches of the paths that are files.
fn push_present(plan: &mut Vec<Launch>, paths: &Vec<(String, bool)>, interpreters: bool)
    ensures
        final(plan).deep_view() == old(plan).deep_view() + present_launches(
            paths.deep_view(),
            paths.deep_view().len() as int,
            interpreters,
        ),
{
    let ghost start = plan.deep_view();
    let n = paths.len();
    let mut i: usize = 0;
    while i < n
        invariant
            i <= n,
            n == paths.len(),
            paths.deep_view().len() == n,
            plan.deep_view() == start + present_launches(paths.deep_view(), i as int, interpreters),
        decreases n - i,
    {
        let ghost before = plan.deep_view();
        assert(paths.deep_view()[i as int] == (paths[i as int].0@, paths[i as int].1));
        if paths[i].1 {
            let program = if interpreters {
                Program::Interpreter(i)
            } else {
                Program::Runner(i)
            };
            let launch = Launch {
                program,
                prefix: Vec::new(),
                name: paths[i].0.clone(),
                with_script: interpreters,
                reads_stderr: interpreters,
            };
            assert(launch.prefix.deep_view() =~= Seq::<Seq<char>>::empty());
            plan.push(launch);
            assert(plan.deep_view() =~= before.push(launch.deep_view()));
        }
        i = i + 1;
    }
}

/// A launch of a command on the search path.
fn command(program: &str, prefix: Vec<String>, name: &str, with_script: bool) -> (launch: Launch)
    ensures
        launch.deep_view() == command_launch(program@, prefix.deep_view(), name@, with_script),
{
    Launch {
        program: Program::Command(String::from_str(program)),
        prefix,
        name: String::from_str(name),
        with_script,
        reads_stderr: true,
    }
}

/// The launches that the ezdxf benchmark tries, in order. `runners` and
/// `interpreters` hold each candidate path's display name and whether it is
/// a file; `configured` is the display name of the interpreter that the
/// environment names.
pub fn ezdxf_plan(
    runners: &Vec<(String, bool)>,
    configured: Option<String>,
    interpreters: &Vec<(String, bool)>,
    windows: bool,
) -> (plan: Vec<Launch>)
    ensures
        plan.deep_view() == spec_ezdxf_plan(
            runners.deep_view(),
            configured.deep_view(),
            interpreters.deep_view(),
            windows,
        ),
{
    let mut plan: Vec<Launch> = Vec::new();
    assert(plan.deep_view() =~= Seq::<LaunchSpec>::empty());
    push_present(&mut plan, runners, false);
    let ghost after_runners = plan.deep_view();
    let ghost configured_view = configured.deep_view();
    match configured {
        Some(name) => {
            let launch = Launch {
                program: Program::Configured,
                prefix: Vec::new(),
                name,
                with_script: true,
                reads_stderr: true,
            };
            assert(launch.prefix.deep_view() =~= Seq::<Seq<char>>::empty());
            plan.push(launch);
            assert(plan.deep_view() =~= after_runners.push(launch.deep_view()));
        },
        None => {},
    }
    push_present(&mut plan, interpreters, true);
    let ghost after_found = plan.deep_view();
    if windows {
        let mut prefix: Vec<String> = Vec::new();
        prefix.push(String::from_str("-3"));
        assert(prefix.deep_view() =~= seq!["-3"@]);
        let launch = command("py", prefix, "py -3", true);
        plan.push(launch);
        assert(plan.deep_view() =~= after_found.push(launch.deep_view()));
    }
    let ghost after_launcher = plan.deep_view();
    let no_prefix: Vec<String> = Vec::new();
    assert(no_prefix.deep_view() =~= Seq::<Seq<char>>::empty());
    let python = command("python", no_prefix, "python", true);
    plan.push(python);
    let no_prefix: Vec<String> = Vec::new();
    assert(no_prefix.deep_view() =~= Seq::<Seq<char>>::empty());
    let python3 = command("python3", no_prefix, "python3", true);
    plan.push(python3);
    assert(plan.deep_view() =~= after_launcher.push(python.deep_view()).push(python3.deep_view()));
    plan
}

/// The launches that the ACadSharp benchmark tries, in order. `runners`
/// holds each candidate path's display name and whether it is a file.
pub fn acadsharp_plan(runners: &Vec<(String, bool)>) -> (plan: Vec<Launch>)
    ensures
        plan.deep_view() == spec_acadsharp_plan(runners.deep_view()),
{
    let mut plan: Vec<Launch> = Vec::new();
    assert(plan.deep_view() =~= Seq::<LaunchSpec>::empty());
    push_present(&mut plan, runners, false);
    let ghost after_runners = plan.deep_view();
    let mut prefix: Vec<String> = Vec::new();
    prefix.push(String::from_str("run"));
    prefix.push(String::from_str("-c"));
    prefix.push(String::from_str("Release"));
    prefix.push(String::from_str("--project"));
    prefix.push(String::from_str("acadsharp-bench"));
    prefix.push(String::from_str("--"));
    assert(prefix.deep_view() =~= seq!["run"@, "-c"@, "Release"@, "--project"@, "acadsharp-bench"@, "--"@]);
    let launch = command("dotnet", prefix, "dotnet", false);
    plan.push(launch);
    assert(plan.deep_view() =~= after_runners.push(launch.deep_view()));
    plan
}

/// What came of one launch.
pub enum Outcome {
    /// The program ran and exited successfully.
    Success,
    /// The program ran and failed; its standard error.
    Failed(Vec<u8>),
    /// The program could not be started; the error, as text.
    NotStarted(String),
}

/// What to do after a launch: stop (its output is the result), or go on
/// with the failure notes so far.
pub enum Step {
    Done,
    Continue(Vec<String>),
}

/// The note on a launch that failed.
pub open spec fn spec_failed_note(launch: LaunchSpec, stderr: Seq<u8>) -> Seq<char> {
    if launch.reads_stderr {
        spec_failure_note(launch.name, stderr)
    } else {
        launch.name + ": "@ + "exited unsuccessfully"@
    }
}

/// After a launch: a success ends the search; a failure adds its note to
/// the notes so far and the search goes on with the next launch.
pub fn after_attempt(failures: Vec<String>, launch: &Launch, outcome: &Outcome) -> (step: Step)
    ensures
        match outcome {
            Outcome::Success => step is Done,
            Outcome::Failed(stderr) => step matches Step::Continue(notes) && notes.deep_view()
                == failures.deep_view().push(spec_failed_note(launch.deep_view(), stderr@)),
            Outcome::NotStarted(error) => step matches Step::Continue(notes) && notes.deep_view()
                == failures.deep_view().push(launch.name@ + ": "@ + error@),
        },
{
    let ghost before = failures.deep_view();
    let mut failures = failures;
    let note = match outcome {
        Outcome::Success => {
            return Step::Done;
        },
        Outcome::Failed(stderr) => {
            if launch.reads_stderr {
                failure_note(launch.name.as_str(), stderr.as_slice())
            } else {
                let mut note = launch.name.clone();
                note.append(": ");
                note.append("exited unsuccessfully");
                note
            }
        },
        Outcome::NotStarted(error) => {
            let mut note = launch.name.clone();
            note.append(": ");
            note.append(error.as_str());
            note
        },
    };
    failures.push(note);
    assert(failures.deep_view() =~= before.push(note@));
    Step::Continue(failures)
}

} // verus!
