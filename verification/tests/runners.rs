use acadrust_dxf_bench::runners::{acadsharp_plan, after_attempt, ezdxf_plan, Launch, Outcome, Program, Step};
use acadrust_dxf_bench::runners::{
    failure_note, last_line, runner_json_line, runner_json_text, unavailable_message,
};
use acadrust_dxf_bench::text::join;

#[test]
fn runner_json_line_picks_last_json_line() {
    let out = b"Running...\n{\"parse\":[]}\nmore\r\n{\"write\":[{\"Label\":\"mixed\",\"Ms\":1.5}]}\r\ndone\n";
    assert_eq!(
        runner_json_line(out, true),
        Some(b"{\"write\":[{\"Label\":\"mixed\",\"Ms\":1.5}]}".to_vec())
    );
    assert_eq!(runner_json_line(out, false), None);
}

#[test]
fn runner_json_line_edge_cases() {
    assert_eq!(runner_json_line(b"", true), None);
    assert_eq!(runner_json_line(b"no json here\n", true), None);
    assert_eq!(runner_json_line(b" {indented}\n", true), None);
    assert_eq!(runner_json_line(b"{}", true), Some(b"{}".to_vec()));
    assert_eq!(runner_json_line(b"{a}\r", true), Some(b"{a}\r".to_vec()));
    assert_eq!(runner_json_line(b"x\n{b}\r\n", true), Some(b"{b}".to_vec()));
    assert_eq!(runner_json_line(b"{\n", true), Some(b"{".to_vec()));
    assert_eq!(
        runner_json_line(b"{\xff}\nlog\n", true),
        Some(b"{\xff}".to_vec())
    );
}

#[test]
fn runner_json_line_matches_str_lines() {
    let samples: [&[u8]; 5] = [
        b"a\n{1}\n{2}\nb",
        b"{x}\r\n\r\n{y}\r",
        b"\n\n{z}",
        b"{only}\n",
        b"log\r\n{q}\r\nlog\r\n",
    ];
    for out in samples {
        let text = String::from_utf8_lossy(out);
        let expected = text.lines().filter(|l| l.starts_with('{')).last().map(|l| l.as_bytes().to_vec());
        assert_eq!(runner_json_line(out, true), expected);
    }
}

#[test]
fn runner_json_text_decodes_lossily() {
    assert_eq!(runner_json_text(b"log\n{\"a\":1}\n", true), Some("{\"a\":1}".to_string()));
    assert_eq!(runner_json_text(b"{\xff}", true), Some("{\u{fffd}}".to_string()));
    assert_eq!(runner_json_text(b"{\"a\":1}", false), None);
    assert_eq!(runner_json_text(b"plain", true), None);
}

#[test]
fn last_lines_like_str_lines() {
    let samples: [&[u8]; 8] = [b"", b"a", b"a\n", b"a\nb", b"a\n\n", b"x\r\ny\r\n", b"\n", b"one\rtwo\r"];
    for out in samples {
        let text = String::from_utf8_lossy(out);
        let expected = text.lines().last().map(|l| l.as_bytes().to_vec());
        assert_eq!(last_line(out), expected, "input {out:?}");
    }
}

#[test]
fn failure_notes() {
    assert_eq!(failure_note("python", b""), "python: exited unsuccessfully");
    assert_eq!(
        failure_note("python3", b"Traceback\nModuleNotFoundError: No module named 'ezdxf'\n"),
        "python3: ModuleNotFoundError: No module named 'ezdxf'"
    );
    assert_eq!(failure_note("dotnet", b"error\r\n\r\n"), "dotnet: ");
}

#[test]
fn unavailable_messages() {
    let failures = vec!["python: exited unsuccessfully".to_string(), "python3: boom".to_string()];
    assert_eq!(
        unavailable_message("ezdxf runner unavailable.", &failures),
        "ezdxf runner unavailable. Tried: python: exited unsuccessfully; python3: boom"
    );
    assert_eq!(unavailable_message("x.", &Vec::new()), "x. Tried: ");
}

#[test]
fn joins_like_std() {
    let parts: Vec<String> = vec!["a".into(), "".into(), "c".into()];
    assert_eq!(join(&parts, "; "), parts.join("; "));
    assert_eq!(join(&Vec::new(), ", "), "");
    assert_eq!(join(&vec!["solo".to_string()], ", "), "solo");
}

fn names(plan: &[Launch]) -> Vec<&str> {
    plan.iter().map(|l| l.name.as_str()).collect()
}

#[test]
fn ezdxf_plan_tries_runtimes_in_order() {
    let runners = vec![
        ("r0".to_string(), false),
        ("r1".to_string(), true),
        ("r2".to_string(), true),
    ];
    let interpreters = vec![("i0".to_string(), true), ("i1".to_string(), false)];
    let plan = ezdxf_plan(&runners, Some("cfg".to_string()), &interpreters, false);
    assert_eq!(names(&plan), vec!["r1", "r2", "cfg", "i0", "python", "python3"]);
    assert!(matches!(plan[0].program, Program::Runner(1)));
    assert!(matches!(plan[1].program, Program::Runner(2)));
    assert!(matches!(plan[2].program, Program::Configured));
    assert!(matches!(plan[3].program, Program::Interpreter(0)));
    assert!(matches!(&plan[4].program, Program::Command(c) if c == "python"));
    assert!(matches!(&plan[5].program, Program::Command(c) if c == "python3"));
    let scripts: Vec<bool> = plan.iter().map(|l| l.with_script).collect();
    assert_eq!(scripts, vec![false, false, true, true, true, true]);
    let stderr: Vec<bool> = plan.iter().map(|l| l.reads_stderr).collect();
    assert_eq!(stderr, vec![false, false, true, true, true, true]);
    assert!(plan.iter().all(|l| l.prefix.is_empty()));
}

#[test]
fn ezdxf_plan_uses_the_windows_launcher() {
    let none: Vec<(String, bool)> = Vec::new();
    let absent = vec![("python/python.exe".to_string(), false)];
    let plan = ezdxf_plan(&none, None, &absent, true);
    assert_eq!(names(&plan), vec!["py -3", "python", "python3"]);
    assert!(matches!(&plan[0].program, Program::Command(c) if c == "py"));
    assert_eq!(plan[0].prefix, vec!["-3".to_string()]);
    assert!(plan[0].with_script);
    let plan = ezdxf_plan(&none, None, &none, false);
    assert_eq!(names(&plan), vec!["python", "python3"]);
}

#[test]
fn acadsharp_plan_prefers_packaged_runners() {
    let runners = vec![("a.exe".to_string(), true), ("b.exe".to_string(), false)];
    let plan = acadsharp_plan(&runners);
    assert_eq!(names(&plan), vec!["a.exe", "dotnet"]);
    assert!(matches!(plan[0].program, Program::Runner(0)));
    assert!(!plan[0].with_script && !plan[0].reads_stderr);
    assert!(matches!(&plan[1].program, Program::Command(c) if c == "dotnet"));
    assert_eq!(
        plan[1].prefix,
        vec!["run", "-c", "Release", "--project", "acadsharp-bench", "--"]
    );
    assert!(!plan[1].with_script && plan[1].reads_stderr);
    let plan = acadsharp_plan(&Vec::new());
    assert_eq!(names(&plan), vec!["dotnet"]);
}

#[test]
fn attempts_collect_failure_notes() {
    let plan = ezdxf_plan(
        &vec![("runner.exe".to_string(), true)],
        None,
        &Vec::new(),
        false,
    );
    let mut failures = Vec::new();
    let outcomes = [
        Outcome::Failed(b"some output\n".to_vec()),
        Outcome::Failed(b"Traceback\nModuleNotFoundError: No module named 'ezdxf'\r\n".to_vec()),
        Outcome::NotStarted("program not found".to_string()),
    ];
    for (launch, outcome) in plan.iter().zip(outcomes.iter()) {
        match after_attempt(failures, launch, outcome) {
            Step::Done => panic!("a failed launch ends the search"),
            Step::Continue(notes) => failures = notes,
        }
    }
    assert_eq!(
        failures,
        vec![
            "runner.exe: exited unsuccessfully".to_string(),
            "python: ModuleNotFoundError: No module named 'ezdxf'".to_string(),
            "python3: program not found".to_string(),
        ]
    );
    let silent = after_attempt(Vec::new(), &plan[1], &Outcome::Failed(Vec::new()));
    assert!(matches!(silent, Step::Continue(ref n) if n == &vec!["python: exited unsuccessfully".to_string()]));
    assert!(matches!(
        after_attempt(failures, &plan[2], &Outcome::Success),
        Step::Done
    ));
}
