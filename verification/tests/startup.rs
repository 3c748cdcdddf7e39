//! Starting up.

use cordyceps::startup::{
    arg_value, banner_lines, context_window, exec_hardening, has_flag, reasoning_effort, start,
    usage_problem, Environment, ReasoningEffort, SessionFacts, Settings, Startup, USAGE,
};
use cordyceps::strategy::Strategy;

fn args(line: &str) -> Vec<String> {
    line.split(' ').map(str::to_string).collect()
}

fn nothing_set() -> Environment {
    Environment {
        model: None,
        base_url: None,
        context_window: None,
        reasoning: None,
        workspace: None,
    }
}

fn some(s: &str) -> Option<String> {
    Some(s.to_string())
}

fn settings(line: &str, env: Environment) -> Settings {
    match start(&args(line), env) {
        Startup::Run { settings } => settings,
        Startup::Usage { .. } => panic!("no settings"),
    }
}

#[test]
fn a_flag_brings_its_value() {
    let a = args("--model x --model y --strategy");
    assert_eq!(arg_value(&a, "--model"), some("x"));
    assert_eq!(arg_value(&a, "--strategy"), None);
    assert_eq!(arg_value(&a, "--workspace"), None);
    assert_eq!(arg_value(&vec![], "--model"), None);
    assert!(has_flag(&a, "--strategy"));
    assert!(!has_flag(&a, "-h"));
}

#[test]
fn the_strategy_is_required() {
    for line in ["", "--model x", "--strategy"] {
        let usage = start(&args(line), nothing_set());
        assert!(matches!(usage, Startup::Usage { problem: None }), "{line}");
    }
    for line in ["--help", "-h --strategy react", "--strategy nonsense --help"] {
        let usage = start(&args(line), nothing_set());
        assert!(matches!(usage, Startup::Usage { problem: None }), "{line}");
    }
    match start(&args("--strategy Climb"), nothing_set()) {
        Startup::Usage { problem: Some(problem) } => {
            assert_eq!(problem, "unknown strategy 'Climb'");
            assert_eq!(usage_problem(&problem), "error: unknown strategy 'Climb'\n");
        }
        _ => panic!("there is no such strategy"),
    }
    assert!(USAGE.starts_with("cordyceps agent — "));
    assert!(USAGE.contains("agent --strategy <react|plan-execute|hillclimb> [options]"));
    assert!(USAGE.ends_with("Esc aborts a running task; Ctrl-D quits."));
}

#[test]
fn everything_else_has_a_default() {
    let s = settings("--strategy react", nothing_set());
    assert_eq!(s.strategy, Strategy::React);
    assert_eq!(s.model_id, "gemma4:e4b");
    assert_eq!(s.base_url, None);
    assert_eq!(s.context_window, 256_000);
    assert_eq!(s.reasoning, Some(ReasoningEffort::Low));
    assert_eq!(s.workspace, None);
}

#[test]
fn arguments_go_before_the_environment() {
    let env = || Environment {
        model: some("env-model"),
        base_url: some("http://localhost"),
        context_window: some("1000"),
        reasoning: some("HIGH"),
        workspace: some("/env"),
    };
    let s = settings("--strategy plan", env());
    assert_eq!(s.model_id, "env-model");
    assert_eq!(s.base_url, some("http://localhost"));
    assert_eq!(s.context_window, 1000);
    assert_eq!(s.reasoning, Some(ReasoningEffort::High));
    assert_eq!(s.workspace, some("/env"));
    let s = settings(
        "--strategy hillclimb --model m --context-window nope --reasoning off --workspace /w",
        env(),
    );
    assert_eq!(s.strategy, Strategy::HillClimb);
    assert_eq!(s.model_id, "m");
    assert_eq!(s.context_window, 256_000);
    assert_eq!(s.reasoning, None);
    assert_eq!(s.workspace, some("/w"));
}

#[test]
fn reasoning_levels_have_names() {
    for off in ["off", "None", "FALSE", " 0 "] {
        assert_eq!(reasoning_effort(some(off)), None);
    }
    assert_eq!(reasoning_effort(some("low")), Some(ReasoningEffort::Low));
    assert_eq!(reasoning_effort(some("Med")), Some(ReasoningEffort::Medium));
    assert_eq!(reasoning_effort(some("medium")), Some(ReasoningEffort::Medium));
    assert_eq!(reasoning_effort(some("high\n")), Some(ReasoningEffort::High));
    assert_eq!(reasoning_effort(some("MAX")), Some(ReasoningEffort::Max));
    assert_eq!(reasoning_effort(some("hihg")), Some(ReasoningEffort::Low));
    assert_eq!(reasoning_effort(None), Some(ReasoningEffort::Low));
}

#[test]
fn a_window_that_is_no_number_is_the_default() {
    assert_eq!(context_window(some("8192")), 8192);
    assert_eq!(context_window(some(" 8192")), 256_000);
    assert_eq!(context_window(some("4294967296")), 256_000);
    assert_eq!(context_window(None), 256_000);
}

#[test]
fn commands_run_unattended() {
    let h = exec_hardening();
    assert!(h.close_stdin && h.kill_on_drop);
    let variables: Vec<(&str, &str)> =
        h.variables.iter().map(|(k, v)| (k.as_str(), v.as_str())).collect();
    assert_eq!(
        variables,
        vec![("CARGO_TERM_COLOR", "never"), ("GIT_TERMINAL_PROMPT", "0"), ("CI", "1")]
    );
}

fn facts(build_check: Option<String>) -> SessionFacts {
    SessionFacts {
        max_grants: 10,
        steps_per_grant: 25,
        compact_percent: "80".to_string(),
        compact_tokens: 204_800,
        workspace_root: "/w".to_string(),
        build_check,
        skills: 2,
    }
}

#[test]
fn the_banner_shows_the_session() {
    let s = settings("--strategy react", nothing_set());
    assert_eq!(
        banner_lines(&s, &facts(some("`make`"))),
        vec![
            "cordyceps agent — spore-core HillClimber harness",
            "model     : gemma4:e4b",
            "reasoning : low (requested → think:\"low\")",
            "          ↳ dropped on a non-thinking model (spore-core warns once on first request)",
            "strategy  : react — single-shot ReAct loop (≤25 steps) [baseline]",
            "auto-cont : up to 10 grants × 25 steps in-process when a step budget is spent (preset)",
            "context   : 256000 tokens (num_ctx sent to Ollama; compact at 80% → 204800 tokens)",
            "workspace : /w",
            "scoring   : climb on DEV (csv-task/tests/dev.rs); held-out blind scoreboard (csv-examiner/tests/heldout.rs) → .spore/cordyceps-ledger.tsv [fixture v2]",
            "tools     : read_file, write_file, edit_file, list_dir, grep, find_files, bash, load_skill, …",
            "build-chk : `make`",
            "skills    : 2 discovered — load with /<name>, or the agent loads via load_skill (/skills to list)",
            "Type a coding task and press enter. Esc aborts a running task; Ctrl-D quits.\n",
        ]
    );
}

#[test]
fn the_banner_without_reasoning_and_check() {
    let s = settings("--strategy react --reasoning off", nothing_set());
    let lines = banner_lines(&s, &facts(None));
    assert_eq!(lines.len(), 12);
    assert_eq!(
        lines[2],
        "reasoning : off (--reasoning low|medium|high|max or $SPORE_REASONING_EFFORT)"
    );
    assert_eq!(lines[9], "build-chk : off");
}
