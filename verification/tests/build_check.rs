//! Build-checked writes.

use cordyceps::build_check::{
    build_failed, combined_diagnostics, fold_verdict, BuildCheck, BuildCheckMiddleware, BuildRun,
    BuildStep, HookStep, MiddlewareDecision, ToolCall, ToolOutput, Verdict, BUILD_TIMEOUT_SECS,
};

fn check(program: &str) -> BuildCheck {
    BuildCheck {
        program: program.to_string(),
        args: vec![],
        trigger_suffix: ".rs".to_string(),
        timeout_secs: 30,
    }
}

fn call(name: &str, path: &str) -> ToolCall {
    ToolCall { name: name.to_string(), path: Some(path.to_string()) }
}

fn success(content: &str) -> ToolOutput {
    ToolOutput::Success { content: content.to_string() }
}

fn ran(exit_code: i32) -> BuildRun {
    BuildRun::Ran {
        timed_out: false,
        exit_code,
        stdout: String::new(),
        stderr: String::new(),
    }
}

/// What running `true` or `false` comes to.
fn run_of(program: &str) -> BuildRun {
    match program {
        "true" => ran(0),
        "false" => ran(1),
        _ => panic!("stands in for no build"),
    }
}

/// The verdict on a run, with the diagnostics uncut.
fn verdict_on(mw: &BuildCheckMiddleware, run: BuildRun) -> Verdict {
    let cmdline = mw.check.cmdline();
    match mw.run_build(&cmdline, run) {
        BuildStep::Settled { verdict } => verdict,
        BuildStep::Diagnose { diagnostics } => build_failed(&cmdline, &diagnostics),
    }
}

/// Runs the hook over a batch; `run` is called at most once, when a build is due.
fn hook(
    mw: &BuildCheckMiddleware,
    calls: &Vec<ToolCall>,
    results: &mut Vec<ToolOutput>,
    run: impl FnOnce() -> BuildRun,
) -> MiddlewareDecision {
    match mw.after_tool(calls, results) {
        HookStep::Continue => MiddlewareDecision::Continue,
        HookStep::Build { targets } => fold_verdict(&verdict_on(mw, run()), &targets, results),
    }
}

/// Fires the hook over a single successful `write_file` to a `.rs` path, with
/// `program` as the build command, and returns the rewritten output.
fn verdict_for(program: &str) -> ToolOutput {
    let mw = BuildCheckMiddleware::new(check(program));
    let calls = vec![call("write_file", "csv-task/src/lib.rs")];
    let mut results = vec![success("wrote 12 bytes")];
    let decision = hook(&mw, &calls, &mut results, || run_of(program));
    assert!(matches!(decision, MiddlewareDecision::ContinueWithModification));
    results.pop().unwrap()
}

#[test]
fn clean_build_appends_ok_and_keeps_success() {
    match verdict_for("true") {
        ToolOutput::Success { content } => {
            assert!(
                content.contains("wrote 12 bytes"),
                "the message of the write is lost: {content}"
            );
            assert!(content.contains("✓ build OK"), "missing build-OK line: {content}");
        }
        _ => panic!("a clean build must keep the write a Success"),
    }
}

#[test]
fn failed_build_rewrites_to_recoverable_error() {
    match verdict_for("false") {
        ToolOutput::Error { recoverable, .. } => {
            assert!(recoverable, "a build-failure error must be recoverable");
        }
        _ => panic!("a failed build must rewrite the write into an Error"),
    }
}

#[test]
fn non_source_write_is_untouched() {
    let mw = BuildCheckMiddleware::new(check("false"));
    let calls = vec![call("write_file", "notes.md")];
    let mut results = vec![success("wrote 3 bytes")];
    let decision = hook(&mw, &calls, &mut results, || panic!("nothing to build"));
    assert!(matches!(decision, MiddlewareDecision::Continue));
    match &results[0] {
        ToolOutput::Success { content } => assert_eq!(content, "wrote 3 bytes"),
        _ => panic!("a non-source write must be left untouched"),
    }
}

#[test]
fn one_build_serves_a_batch() {
    let mw = BuildCheckMiddleware::new(check("cargo"));
    assert_eq!(mw.name(), "build-check");
    let calls = vec![
        call("read_file", "a.rs"),
        call("write_file", "a.rs"),
        call("edit_file", "b.txt"),
        call("edit_file", "b.rs"),
        call("write_file", "c.rs"),
        ToolCall { name: "write_file".to_string(), path: None },
        call("write_file", "without-result.rs"),
    ];
    let mut results = vec![
        success("text"),
        success("wrote a"),
        success("edited txt"),
        success("edited b"),
        ToolOutput::Error { message: "denied".to_string(), recoverable: false },
        success("nowhere"),
    ];
    let decision = hook(&mw, &calls, &mut results, || BuildRun::Ran {
        timed_out: false,
        exit_code: 101,
        stdout: "ignored".to_string(),
        stderr: "\nerror: oops\n".to_string(),
    });
    assert_eq!(decision, MiddlewareDecision::ContinueWithModification);
    let body = "✗ BUILD FAILED — the project no longer compiles after this write. Do not \
                proceed. Fix the errors below with a SMALL, TARGETED edit_file (re-read the \
                exact lines first if unsure); do NOT rewrite the whole file.\n\n\
                $ cargo\nerror: oops";
    for (i, message) in [(1, "wrote a"), (3, "edited b")] {
        match &results[i] {
            ToolOutput::Error { message: m, recoverable } => {
                assert_eq!(m, &format!("{message}\n\n{body}"));
                assert!(recoverable);
            }
            _ => panic!("a failed build must rewrite the write into an Error"),
        }
    }
    for (i, content) in [(0, "text"), (2, "edited txt"), (5, "nowhere")] {
        assert!(matches!(&results[i], ToolOutput::Success { content: c } if c == content));
    }
    assert!(matches!(&results[4], ToolOutput::Error { message, recoverable: false } if message == "denied"));
}

#[test]
fn pending_calls_are_not_built() {
    let mw = BuildCheckMiddleware::new(check("cargo"));
    let calls = vec![call("write_file", "a.rs")];
    let step = mw.after_tool(&calls, &vec![ToolOutput::Pending]);
    assert!(matches!(step, HookStep::Continue));
}

fn note(run: BuildRun) -> String {
    let mw = BuildCheckMiddleware::new(check("make"));
    match verdict_on(&mw, run) {
        Verdict::Append(note) => note,
        Verdict::Fail(body) => panic!("{body}"),
    }
}

#[test]
fn what_is_not_the_models_doing_fails_no_write() {
    assert_eq!(
        note(BuildRun::SpawnFailed { message: "no such file".to_string() }),
        "[build-check skipped: `make` did not run — no such file]"
    );
    assert_eq!(
        note(BuildRun::Refused { detail: "Denied".to_string() }),
        "[build-check skipped: could not run `make`: Denied]"
    );
    let timed_out = BuildRun::Ran {
        timed_out: true,
        exit_code: 1,
        stdout: String::new(),
        stderr: String::new(),
    };
    assert_eq!(
        note(timed_out),
        "[build-check: `make` timed out after 30s — compilation not verified]"
    );
    assert_eq!(note(ran(-1)), "[build-check skipped: `make` killed]");
    assert_eq!(note(ran(0)), "✓ build OK — `make` compiles cleanly.");
}

#[test]
fn diagnostics_prefer_standard_error() {
    assert_eq!(combined_diagnostics(" err \n", "out"), "err");
    assert_eq!(combined_diagnostics(" \n", "\tout\n"), "out");
    assert_eq!(combined_diagnostics("", ""), "");
}

fn some(s: &str) -> Option<String> {
    Some(s.to_string())
}

#[test]
fn the_check_is_on_by_default() {
    let b = BuildCheck::from_env(None, None, None).unwrap();
    assert_eq!(b.program, "cargo");
    assert_eq!(
        b.args,
        vec!["check", "--all-targets", "--manifest-path", "csv-task/Cargo.toml"]
    );
    assert_eq!(b.trigger_suffix, ".rs");
    assert_eq!(b.timeout_secs, BUILD_TIMEOUT_SECS);
    assert_eq!(
        b.banner(),
        "`cargo check --all-targets --manifest-path csv-task/Cargo.toml` after every *.rs write (set CORDYCEPS_BUILD_CHECK=off to disable)"
    );
}

#[test]
fn the_check_can_be_switched_off() {
    for off in ["0", "off", "FALSE", " no ", "Off\n"] {
        assert!(BuildCheck::from_env(some(off), None, None).is_none());
    }
    for on in ["", "1", "on", "yes", "offf"] {
        assert!(BuildCheck::from_env(some(on), None, None).is_some());
    }
    for empty in ["", "  \t"] {
        assert!(BuildCheck::from_env(None, some(empty), None).is_none());
    }
}

#[test]
fn the_command_line_splits_back() {
    let b = BuildCheck::from_env(None, some("  go  build\t./... "), some(".go")).unwrap();
    assert_eq!(b.program, "go");
    assert_eq!(b.args, vec!["build", "./..."]);
    assert_eq!(b.cmdline(), "go build ./...");
    assert_eq!(b.banner(), "`go build ./...` after every *.go write (set CORDYCEPS_BUILD_CHECK=off to disable)");
    let again = BuildCheck::from_env(None, Some(b.cmdline()), None).unwrap();
    assert_eq!(again.program, b.program);
    assert_eq!(again.args, b.args);
    let bare = BuildCheck::from_env(None, some("make"), None).unwrap();
    assert_eq!(bare.cmdline(), "make");
}
