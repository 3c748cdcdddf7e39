//! Starting up: the command line and the environment are resolved into settings,
//! or into the instructions where they name no strategy.

use vstd::prelude::*;

use crate::scoring;
use crate::strategy;
use crate::strategy::Strategy;
use crate::text;
use crate::text_laws;

verus! {

/// The context window, in tokens, where none is configured.
pub const DEFAULT_CONTEXT_WINDOW: u32 = 256_000;

/// The model where none is configured.
pub const DEFAULT_MODEL: &'static str = "gemma4:e4b";

/// The directory below the workspace root that the climb writes to.
pub const TASK_DIR: &'static str = "csv-task";

/// The usage instructions.
pub const USAGE: &'static str = "\
cordyceps agent — spore-core HillClimber harness (v0.0.1 keystone proof)

A coding agent that runs ONE loop strategy over a workspace. The strategy is
required and has no default, so the single-shot baselines and the climb are never
confused.

USAGE:
    agent --strategy <react|plan-execute|hillclimb> [options]

STRATEGIES:
    react          single-shot ReAct loop (think → act → observe)        [baseline]
    plan-execute   plan the task into a list, then execute each item      [baseline]
    hillclimb      propose → score → keep iff strictly better → revise    [the climb]
                   Each pass is scored by the held-out examiner: it runs
                   `csv-examiner`'s hidden RFC 4180 suite and maximizes the
                   passing fraction k/N. The proposer edits `csv-task/` and never
                   sees that suite, so the score can't be gamed.

OPTIONS:
    --strategy <name>     required; one of the three above
    --model <id>          Ollama model (default: gemma4:e4b, or $SPORE_OLLAMA_MODEL)
    --workspace <path>    workspace root the agent reads/writes (default: cwd)
    --context-window <n>  compaction window in tokens (default: 256000)
    --reasoning <level>   thinking effort: off|low|medium|high|max
                          (default: low; or $SPORE_REASONING_EFFORT)
    --help, -h            show this message

EXAMPLES (run from the cordyceps repo root):
    cargo run --manifest-path agent/Cargo.toml -- --strategy react
    cargo run --manifest-path agent/Cargo.toml -- --strategy plan-execute
    cargo run --manifest-path agent/Cargo.toml -- --strategy hillclimb

Then type a coding task at the `code>` prompt (e.g. the csv-task brief) and press
enter. Esc aborts a running task; Ctrl-D quits.";

/// How deeply the model is asked to reason.
#[derive(Clone, Copy, Debug, PartialEq, Eq, Structural)]
pub enum ReasoningEffort {
    Low,
    Medium,
    High,
    Max,
}

/// The reasoning effort where none is configured: bounded, because a model that
/// reasons at full depth may never come to act.
pub const DEFAULT_REASONING_EFFORT: ReasoningEffort = ReasoningEffort::Low;

/// The values of the environment variables that settings fall back on.
pub struct Environment {
    /// `SPORE_OLLAMA_MODEL`.
    pub model: Option<String>,
    /// `SPORE_OLLAMA_BASE_URL`.
    pub base_url: Option<String>,
    /// `SPORE_CONTEXT_WINDOW`.
    pub context_window: Option<String>,
    /// `SPORE_REASONING_EFFORT`.
    pub reasoning: Option<String>,
    /// `SPORE_WORKSPACE`.
    pub workspace: Option<String>,
}

/// What a session runs with.
pub struct Settings {
    pub strategy: Strategy,
    pub model_id: String,
    /// The model endpoint; the client's own default where not given.
    pub base_url: Option<String>,
    pub context_window: u32,
    /// `None` switches reasoning off.
    pub reasoning: Option<ReasoningEffort>,
    /// The workspace root; the current directory where not given.
    pub workspace: Option<String>,
}

/// What the program does when it is started.
pub enum Startup {
    /// Print the instructions, below the problem where there is one, and end.
    Usage { problem: Option<String> },
    Run { settings: Settings },
}

/// How the commands that the agent and the scorers spawn are run.
pub struct ExecHardening {
    /// No command can hang on a question.
    pub close_stdin: bool,
    /// An aborted run leaves no command behind.
    pub kill_on_drop: bool,
    /// Variables that are set for every command, with their values.
    pub variables: Vec<(String, String)>,
}

/// Whether a variable of a command's environment has this name and value.
pub open spec fn sets(variable: (String, String), name: Seq<char>, value: Seq<char>) -> bool {
    variable.0@ == name && variable.1@ == value
}

/// Commands run without a terminal to talk to.
pub fn exec_hardening() -> (r: ExecHardening)
    ensures
        r.close_stdin,
        r.kill_on_drop,
        r.variables@.len() == 3,
        sets(r.variables@[0], "CARGO_TERM_COLOR"@, "never"@),
        sets(r.variables@[1], "GIT_TERMINAL_PROMPT"@, "0"@),
        sets(r.variables@[2], "CI"@, "1"@),
{
    let mut variables: Vec<(String, String)> = Vec::new();
    variables.push(("CARGO_TERM_COLOR".to_owned(), "never".to_owned()));
    variables.push(("GIT_TERMINAL_PROMPT".to_owned(), "0".to_owned()));
    variables.push(("CI".to_owned(), "1".to_owned()));
    ExecHardening { close_stdin: true, kill_on_drop: true, variables }
}

/// Where `flag` first stands among the arguments from `i` on, or their end.
pub open spec fn flag_index(args: Seq<Seq<char>>, flag: Seq<char>, i: int) -> int
    decreases args.len() - i,
{
    if 0 <= i < args.len() && args[i] != flag {
        flag_index(args, flag, i + 1)
    } else {
        i
    }
}

/// The argument behind the first `flag`.
pub open spec fn flag_value(args: Seq<Seq<char>>, flag: Seq<char>) -> Option<Seq<char>> {
    let i = flag_index(args, flag, 0);
    if i + 1 < args.len() {
        Some(args[i + 1])
    } else {
        None
    }
}

/// The argument behind the first `flag`.
pub fn arg_value(args: &Vec<String>, flag: &str) -> (r: Option<String>)
    ensures
        r.deep_view() == flag_value(args.deep_view(), flag@),
{
    let mut i: usize = 0;
    while i < args.len() && !text::equal(args[i].as_str(), flag)
        invariant
            i <= args@.len(),
            flag_index(args.deep_view(), flag@, 0) == flag_index(
                args.deep_view(),
                flag@,
                i as int,
            ),
        decreases args@.len() - i,
    {
        assert(args.deep_view()[i as int] == args@[i as int]@);
        i += 1;
    }
    assert(i < args@.len() ==> args.deep_view()[i as int] == args@[i as int]@);
    if i < args.len() && i + 1 < args.len() {
        assert(args.deep_view()[i + 1] == args@[i + 1]@);
        Some(args[i + 1].clone())
    } else {
        None
    }
}

/// Whether `flag` is among the arguments.
pub fn has_flag(args: &Vec<String>, flag: &str) -> (r: bool)
    ensures
        r == args.deep_view().contains(flag@),
{
    let mut i: usize = 0;
    while i < args.len()
        invariant
            i <= args@.len(),
            forall|k: int| 0 <= k < i ==> args.deep_view()[k] != flag@,
        decreases args@.len() - i,
    {
        assert(args.deep_view()[i as int] == args@[i as int]@);
        if text::equal(args[i].as_str(), flag) {
            return true;
        }
        i += 1;
    }
    false
}

/// The first of two values that is there.
pub open spec fn either(a: Option<Seq<char>>, b: Option<Seq<char>>) -> Option<Seq<char>> {
    if a is Some {
        a
    } else {
        b
    }
}

fn first_of(a: Option<String>, b: Option<String>) -> (r: Option<String>)
    ensures
        r.deep_view() == either(a.deep_view(), b.deep_view()),
{
    match a {
        Some(value) => Some(value),
        None => b,
    }
}

/// The reasoning effort that a setting asks for. Where it is not set, or names no
/// level, it is the default.
pub open spec fn effort_named(setting: Option<Seq<char>>) -> Option<ReasoningEffort> {
    match setting {
        Some(value) => {
            let n = text::lowered(text::trimmed(value));
            if n == "off"@ || n == "none"@ || n == "false"@ || n == "0"@ {
                None
            } else if n == "medium"@ || n == "med"@ {
                Some(ReasoningEffort::Medium)
            } else if n == "high"@ {
                Some(ReasoningEffort::High)
            } else if n == "max"@ {
                Some(ReasoningEffort::Max)
            } else if n == "low"@ {
                Some(ReasoningEffort::Low)
            } else {
                Some(DEFAULT_REASONING_EFFORT)
            }
        },
        None => Some(DEFAULT_REASONING_EFFORT),
    }
}

/// Reads the reasoning effort setting.
pub fn reasoning_effort(setting: Option<String>) -> (r: Option<ReasoningEffort>)
    ensures
        r == effort_named(setting.deep_view()),
{
    match setting {
        Some(value) => {
            let trimmed: String = text::trim(value.as_str());
            let lower: String = text::to_ascii_lowercase(trimmed.as_str());
            let n: &str = lower.as_str();
            if text::equal(n, "off") || text::equal(n, "none") || text::equal(n, "false")
                || text::equal(n, "0") {
                None
            } else if text::equal(n, "medium") || text::equal(n, "med") {
                Some(ReasoningEffort::Medium)
            } else if text::equal(n, "high") {
                Some(ReasoningEffort::High)
            } else if text::equal(n, "max") {
                Some(ReasoningEffort::Max)
            } else if text::equal(n, "low") {
                Some(ReasoningEffort::Low)
            } else {
                Some(DEFAULT_REASONING_EFFORT)
            }
        },
        None => Some(DEFAULT_REASONING_EFFORT),
    }
}

/// The context window that a setting asks for, or the default where it is not set
/// or no number.
pub open spec fn window_of(setting: Option<Seq<char>>) -> u32 {
    match setting {
        Some(value) => match text::u32_value(value) {
            Some(n) => n,
            None => DEFAULT_CONTEXT_WINDOW,
        },
        None => DEFAULT_CONTEXT_WINDOW,
    }
}

/// Reads the context window setting.
pub fn context_window(setting: Option<String>) -> (r: u32)
    ensures
        r == window_of(setting.deep_view()),
{
    match setting {
        Some(value) => match text::parse_u32(value.as_str()) {
            Some(n) => n,
            None => DEFAULT_CONTEXT_WINDOW,
        },
        None => DEFAULT_CONTEXT_WINDOW,
    }
}

/// Whether the arguments ask for the instructions.
pub open spec fn asks_for_help(args: Seq<Seq<char>>) -> bool {
    args.contains("--help"@) || args.contains("-h"@)
}

/// Whether `s` are the settings for these arguments and this environment. An
/// argument goes before the environment.
pub open spec fn are_settings(s: Settings, args: Seq<Seq<char>>, env: Environment) -> bool {
    &&& flag_value(args, "--strategy"@) is Some
    &&& strategy::strategy_named(flag_value(args, "--strategy"@)->0) == Some(s.strategy)
    &&& s.model_id@ == match either(flag_value(args, "--model"@), env.model.deep_view()) {
        Some(model) => model,
        None => DEFAULT_MODEL@,
    }
    &&& s.base_url.deep_view() == env.base_url.deep_view()
    &&& s.context_window == window_of(
        either(flag_value(args, "--context-window"@), env.context_window.deep_view()),
    )
    &&& s.reasoning == effort_named(
        either(flag_value(args, "--reasoning"@), env.reasoning.deep_view()),
    )
    &&& s.workspace.deep_view() == either(
        flag_value(args, "--workspace"@),
        env.workspace.deep_view(),
    )
}

/// What the arguments and the environment come to. The strategy is required: a
/// baseline and a climb must never be confused.
pub fn start(args: &Vec<String>, env: Environment) -> (r: Startup)
    ensures
        ({
            let a = args.deep_view();
            let named = flag_value(a, "--strategy"@);
            match r {
                Startup::Run { settings } => !asks_for_help(a) && are_settings(settings, a, env),
                Startup::Usage { problem: None } => asks_for_help(a) || named is None,
                Startup::Usage { problem: Some(problem) } => {
                    &&& !asks_for_help(a)
                    &&& named is Some
                    &&& strategy::strategy_named(named->0) is None
                    &&& problem@ == "unknown strategy '"@ + named->0 + "'"@
                },
            }
        }),
{
    if has_flag(args, "--help") || has_flag(args, "-h") {
        return Startup::Usage { problem: None };
    }
    let chosen: Strategy = match arg_value(args, "--strategy") {
        Some(name) => match Strategy::parse(name.as_str()) {
            Some(s) => s,
            None => {
                let mut problem: String = "unknown strategy '".to_owned();
                problem.append(name.as_str());
                problem.append("'");
                return Startup::Usage { problem: Some(problem) };
            },
        },
        None => {
            return Startup::Usage { problem: None };
        },
    };
    let model_id: String = match first_of(arg_value(args, "--model"), env.model) {
        Some(model) => model,
        None => DEFAULT_MODEL.to_owned(),
    };
    let window: u32 = context_window(
        first_of(arg_value(args, "--context-window"), env.context_window),
    );
    let reasoning: Option<ReasoningEffort> = reasoning_effort(
        first_of(arg_value(args, "--reasoning"), env.reasoning),
    );
    let workspace: Option<String> = first_of(arg_value(args, "--workspace"), env.workspace);
    Startup::Run {
        settings: Settings {
            strategy: chosen,
            model_id,
            base_url: env.base_url,
            context_window: window,
            reasoning,
            workspace,
        },
    }
}

/// The line above the instructions that says what is wrong.
pub fn usage_problem(problem: &str) -> (r: String)
    ensures
        r@ == "error: "@ + problem@ + "\n"@,
{
    let mut r: String = "error: ".to_owned();
    r.append(problem);
    r.append("\n");
    r
}

/// The reasoning effort in words. It is a request: a model that cannot reason
/// drops it.
pub open spec fn effort_text(effort: Option<ReasoningEffort>) -> Seq<char> {
    match effort {
        Some(ReasoningEffort::Low) => "low (requested → think:\"low\")"@,
        Some(ReasoningEffort::Medium) => "medium (requested → think:\"medium\")"@,
        Some(ReasoningEffort::High) => "high (requested → think:\"high\")"@,
        Some(ReasoningEffort::Max) => "max (requested → think:\"max\")"@,
        None => "off (--reasoning low|medium|high|max or $SPORE_REASONING_EFFORT)"@,
    }
}

/// The reasoning effort in words.
pub fn effort_banner(effort: Option<ReasoningEffort>) -> (r: &'static str)
    ensures
        r@ == effort_text(effort),
{
    match effort {
        Some(ReasoningEffort::Low) => "low (requested → think:\"low\")",
        Some(ReasoningEffort::Medium) => "medium (requested → think:\"medium\")",
        Some(ReasoningEffort::High) => "high (requested → think:\"high\")",
        Some(ReasoningEffort::Max) => "max (requested → think:\"max\")",
        None => "off (--reasoning low|medium|high|max or $SPORE_REASONING_EFFORT)",
    }
}

/// What the banner shows besides the settings.
pub struct SessionFacts {
    /// How often the harness grants more steps, and how many each time.
    pub max_grants: u32,
    pub steps_per_grant: u32,
    /// Where compaction sets in, in percent of the window and in tokens.
    pub compact_percent: String,
    pub compact_tokens: u32,
    pub workspace_root: String,
    /// The build check's own banner, where it is active.
    pub build_check: Option<String>,
    pub skills: u64,
}

/// The lines of the startup banner.
pub open spec fn banner_text(s: Settings, f: SessionFacts) -> Seq<Seq<char>> {
    seq![
        "cordyceps agent — spore-core HillClimber harness"@,
        "model     : "@ + s.model_id@,
        "reasoning : "@ + effort_text(s.reasoning),
    ] + (if s.reasoning is Some {
        seq![
            "          ↳ dropped on a non-thinking model (spore-core warns once on first request)"@,
        ]
    } else {
        Seq::empty()
    }) + seq![
        "strategy  : "@ + s.strategy.banner_text(),
        "auto-cont : up to "@ + text::decimal(f.max_grants as nat) + " grants × "@ + text::decimal(
            f.steps_per_grant as nat,
        ) + " steps in-process when a step budget is spent (preset)"@,
        "context   : "@ + text::decimal(s.context_window as nat)
            + " tokens (num_ctx sent to Ollama; compact at "@ + f.compact_percent@ + "% → "@
            + text::decimal(f.compact_tokens as nat) + " tokens)"@,
        "workspace : "@ + f.workspace_root@,
        "scoring   : climb on DEV (csv-task/tests/dev.rs); held-out blind scoreboard (csv-examiner/tests/heldout.rs) → .spore/cordyceps-ledger.tsv [fixture "@
            + scoring::FIXTURE_VERSION@ + "]"@,
        "tools     : read_file, write_file, edit_file, list_dir, grep, find_files, bash, load_skill, …"@,
        "build-chk : "@ + match f.build_check {
            Some(check) => check@,
            None => "off"@,
        },
        "skills    : "@ + text::decimal(f.skills as nat)
            + " discovered — load with /<name>, or the agent loads via load_skill (/skills to list)"@,
        "Type a coding task and press enter. Esc aborts a running task; Ctrl-D quits.\n"@,
    ]
}

fn labelled(label: &str, value: &str) -> (r: String)
    ensures
        r@ == label@ + value@,
{
    let mut r: String = label.to_owned();
    r.append(value);
    r
}

/// The lines of the startup banner.
pub fn banner_lines(s: &Settings, f: &SessionFacts) -> (r: Vec<String>)
    ensures
        r.deep_view() == banner_text(*s, *f),
{
    let mut lines: Vec<String> = Vec::new();
    lines.push("cordyceps agent — spore-core HillClimber harness".to_owned());
    lines.push(labelled("model     : ", s.model_id.as_str()));
    lines.push(labelled("reasoning : ", effort_banner(s.reasoning)));
    if s.reasoning.is_some() {
        lines.push(
            "          ↳ dropped on a non-thinking model (spore-core warns once on first request)".to_owned(),
        );
    }
    let strategy_banner: String = s.strategy.banner();
    lines.push(labelled("strategy  : ", strategy_banner.as_str()));

    let grants: String = text::decimal_of(f.max_grants as u64);
    let steps: String = text::decimal_of(f.steps_per_grant as u64);
    let mut auto: String = labelled("auto-cont : up to ", grants.as_str());
    auto.append(" grants × ");
    auto.append(steps.as_str());
    auto.append(" steps in-process when a step budget is spent (preset)");
    lines.push(auto);

    let window: String = text::decimal_of(s.context_window as u64);
    let compact: String = text::decimal_of(f.compact_tokens as u64);
    let mut context: String = labelled("context   : ", window.as_str());
    context.append(" tokens (num_ctx sent to Ollama; compact at ");
    context.append(f.compact_percent.as_str());
    context.append("% → ");
    context.append(compact.as_str());
    context.append(" tokens)");
    lines.push(context);

    lines.push(labelled("workspace : ", f.workspace_root.as_str()));

    let mut scored: String = labelled(
        "scoring   : climb on DEV (csv-task/tests/dev.rs); held-out blind scoreboard (csv-examiner/tests/heldout.rs) → .spore/cordyceps-ledger.tsv [fixture ",
        scoring::FIXTURE_VERSION,
    );
    scored.append("]");
    lines.push(scored);

    lines.push(
        "tools     : read_file, write_file, edit_file, list_dir, grep, find_files, bash, load_skill, …".to_owned(),
    );
    let check: &str = match &f.build_check {
        Some(check) => check.as_str(),
        None => "off",
    };
    lines.push(labelled("build-chk : ", check));

    let count: String = text::decimal_of(f.skills);
    let mut skills: String = labelled("skills    : ", count.as_str());
    skills.append(
        " discovered — load with /<name>, or the agent loads via load_skill (/skills to list)",
    );
    lines.push(skills);
    lines.push(
        "Type a coding task and press enter. Esc aborts a running task; Ctrl-D quits.\n".to_owned(),
    );
    assert(lines.deep_view() =~= banner_text(*s, *f));
    lines
}

/// A flag's value is the argument behind the first place where the flag stands,
/// whatever stands around the two; a flag that does not stand there, or stands
/// last, has none.
pub proof fn law_flag_value_comes_behind_the_flag(
    before: Seq<Seq<char>>,
    flag: Seq<char>,
    value: Seq<char>,
    after: Seq<Seq<char>>,
)
    requires
        forall|i: int| 0 <= i < before.len() ==> #[trigger] before[i] != flag,
    ensures
        flag_value(before.push(flag).push(value) + after, flag) == Some(value),
        flag_value(before.push(flag), flag) is None,
        flag_value(before, flag) is None,
{
    lemma_flag_index(before.push(flag).push(value) + after, flag, 0, before.len() as int);
    lemma_flag_index(before.push(flag), flag, 0, before.len() as int);
    lemma_flag_index(before, flag, 0, before.len() as int);
}

proof fn lemma_flag_index(args: Seq<Seq<char>>, flag: Seq<char>, i: int, at: int)
    requires
        0 <= i <= at <= args.len(),
        forall|k: int| i <= k < at ==> #[trigger] args[k] != flag,
        at < args.len() ==> args[at] == flag,
    ensures
        flag_index(args, flag, i) == at,
    decreases at - i,
{
    if i < at {
        lemma_flag_index(args, flag, i + 1, at);
    }
}

/// Every `--help` or `-h` asks for the instructions, wherever it stands, and
/// nothing else does.
pub proof fn law_help_may_stand_anywhere(args: Seq<Seq<char>>)
    ensures
        asks_for_help(args) <==> exists|i: int|
            0 <= i < args.len() && (#[trigger] args[i] == "--help"@ || args[i] == "-h"@),
{
}

/// What is given first goes before what is given second, which counts only where
/// the first is missing.
pub proof fn law_the_first_goes_before(value: Seq<char>, other: Option<Seq<char>>)
    ensures
        either(Some(value), other) == Some(value),
        either(None, other) == other,
{
}

/// The window is used as it is set, whatever its size. It is the default where it
/// is not set, or set to something that is no number.
pub proof fn law_window_is_used_as_set(n: u32, other: Seq<char>)
    ensures
        window_of(Some(text::decimal(n as nat))) == n,
        window_of(None) == 256_000,
        (exists|i: int|
            0 <= i < other.len() && !(48 <= (#[trigger] other[i]) as u32 <= 57) && other[i] != '+')
            ==> window_of(Some(other)) == 256_000,
        other.len() == 0 ==> window_of(Some(other)) == 256_000,
        text::u32_value(other) matches Some(m) ==> window_of(Some(other)) == m,
        text::u32_value(other) is None ==> window_of(Some(other)) == 256_000,
{
    text::law_decimal_reads_back(n);
    text_laws::law_other_texts_are_no_numbers(other);
}

/// A reasoning level is set by its name, in any case and with any white space around
/// it; four words switch reasoning off. It is low where it is not set, or set to
/// anything else.
pub proof fn law_reasoning_levels(before: Seq<char>, word: Seq<char>, after: Seq<char>)
    requires
        text::blank(before),
        text::blank(after),
    ensures
        effort_named(None) == Some(ReasoningEffort::Low),
        effort_named(Some(before + word + after)) == effort_named(Some(word)),
        effort_named(Some(text::lowered(word))) == effort_named(Some(word)),
        text::lowered(word) == word && text_laws::is_tight(word) ==> {
            let effort = effort_named(Some(word));
            &&& effort is None <==> (word == "off"@ || word == "none"@ || word == "false"@ || word
                == "0"@)
            &&& effort == Some(ReasoningEffort::Medium) <==> (word == "medium"@ || word == "med"@)
            &&& effort == Some(ReasoningEffort::High) <==> word == "high"@
            &&& effort == Some(ReasoningEffort::Max) <==> word == "max"@
        },
{
    reveal_strlit("off");
    reveal_strlit("none");
    reveal_strlit("false");
    reveal_strlit("0");
    reveal_strlit("medium");
    reveal_strlit("med");
    reveal_strlit("high");
    reveal_strlit("max");
    text_laws::law_trimming_forgets_padding(before, word, after);
    text_laws::lemma_lowering_and_trimming(word);
    text_laws::lemma_lowering_and_trimming(text::trimmed(word));
    let none = Seq::<char>::empty();
    if text_laws::is_tight(word) {
        text_laws::law_trimming_takes_the_white_space_around(none, word, none);
        assert(none + word + none =~= word);
    }
    assert("med"@.len() != "high"@.len() && "med"@.len() != "medium"@.len());
    assert("max"@[1] != "med"@[1]);
    assert("off"@[0] != "med"@[0] && "off"@[0] != "max"@[0]);
    assert("none"@[0] != "high"@[0]);
}

/// What an argument says is what is set, though the environment says otherwise;
/// and what the environment says is set where no argument does. `s` are the
/// settings for the arguments `before`, `flag`, `value` and `after`.
pub proof fn law_arguments_go_before_the_environment(
    s: Settings,
    before: Seq<Seq<char>>,
    flag: Seq<char>,
    value: Seq<char>,
    after: Seq<Seq<char>>,
    env: Environment,
)
    requires
        forall|i: int| 0 <= i < before.len() ==> #[trigger] before[i] != flag,
        are_settings(s, before.push(flag).push(value) + after, env),
    ensures
        flag == "--model"@ ==> s.model_id@ == value,
        flag == "--workspace"@ ==> s.workspace.deep_view() == Some(value),
        flag == "--strategy"@ ==> strategy::strategy_named(value) == Some(s.strategy),
        flag == "--reasoning"@ ==> s.reasoning == effort_named(Some(value)),
        forall|n: u32|
            flag == "--context-window"@ && value == #[trigger] text::decimal(n as nat)
                ==> s.context_window == n,
{
    law_flag_value_comes_behind_the_flag(before, flag, value, after);
    assert forall|n: u32|
        flag == "--context-window"@ && value == #[trigger] text::decimal(
            n as nat,
        ) implies s.context_window == n by {
        law_window_is_used_as_set(n, value);
    }
}

/// Without an argument for it, a setting is what the environment says, and without
/// that the default.
pub proof fn law_environment_counts_without_an_argument(
    s: Settings,
    args: Seq<Seq<char>>,
    env: Environment,
)
    requires
        are_settings(s, args, env),
    ensures
        s.base_url.deep_view() == env.base_url.deep_view(),
        (forall|i: int| 0 <= i < args.len() ==> #[trigger] args[i] != "--model"@) ==> match env.model {
            Some(model) => s.model_id@ == model@,
            None => s.model_id@ == "gemma4:e4b"@,
        },
        (forall|i: int| 0 <= i < args.len() ==> #[trigger] args[i] != "--workspace"@)
            ==> s.workspace.deep_view() == env.workspace.deep_view(),
        (forall|i: int| 0 <= i < args.len() ==> #[trigger] args[i] != "--reasoning"@)
            ==> s.reasoning == effort_named(env.reasoning.deep_view()),
        (forall|i: int| 0 <= i < args.len() ==> #[trigger] args[i] != "--context-window"@)
            ==> match env.context_window {
            Some(window) => forall|n: u32|
                window@ == #[trigger] text::decimal(n as nat) ==> s.context_window == n,
            None => s.context_window == 256_000,
        },
{
    let none = Seq::<Seq<char>>::empty();
    let some = Seq::<char>::empty();
    if forall|i: int| 0 <= i < args.len() ==> #[trigger] args[i] != "--model"@ {
        law_flag_value_comes_behind_the_flag(args, "--model"@, some, none);
    }
    if forall|i: int| 0 <= i < args.len() ==> #[trigger] args[i] != "--workspace"@ {
        law_flag_value_comes_behind_the_flag(args, "--workspace"@, some, none);
    }
    if forall|i: int| 0 <= i < args.len() ==> #[trigger] args[i] != "--reasoning"@ {
        law_flag_value_comes_behind_the_flag(args, "--reasoning"@, some, none);
    }
    if forall|i: int| 0 <= i < args.len() ==> #[trigger] args[i] != "--context-window"@ {
        law_flag_value_comes_behind_the_flag(args, "--context-window"@, some, none);
        if let Some(window) = env.context_window {
            assert forall|n: u32| window@ == #[trigger] text::decimal(
                n as nat,
            ) implies s.context_window == n by {
                law_window_is_used_as_set(n, window@);
            }
        }
    }
}

/// The banner shows what the session runs with: each value as it is, on its own
/// line.
pub proof fn law_banner_shows_the_session(s: Settings, f: SessionFacts)
    ensures
        ({
            let lines = banner_text(s, f);
            let past: int = if s.reasoning is Some {
                4
            } else {
                3
            };
            &&& lines.len() == past + 9
            &&& lines[1] == "model     : "@ + s.model_id@
            &&& lines[2] == "reasoning : "@ + effort_text(s.reasoning)
            &&& lines[past] == "strategy  : "@ + s.strategy.banner_text()
            &&& lines[past + 1] == "auto-cont : up to "@ + text::decimal(f.max_grants as nat)
                + " grants × "@ + text::decimal(f.steps_per_grant as nat)
                + " steps in-process when a step budget is spent (preset)"@
            &&& lines[past + 2] == "context   : "@ + text::decimal(s.context_window as nat)
                + " tokens (num_ctx sent to Ollama; compact at "@ + f.compact_percent@ + "% → "@
                + text::decimal(f.compact_tokens as nat) + " tokens)"@
            &&& lines[past + 3] == "workspace : "@ + f.workspace_root@
            &&& f.build_check matches Some(check) ==> lines[past + 6] == "build-chk : "@ + check@
            &&& f.build_check is None ==> lines[past + 6] == "build-chk : "@ + "off"@
            &&& lines[past + 7] == "skills    : "@ + text::decimal(f.skills as nat)
                + " discovered — load with /<name>, or the agent loads via load_skill (/skills to list)"@
        }),
{
}

/// A variable that is set has the name and the value that it is said to have.
pub proof fn law_variables_are_set_as_said(
    variable: (String, String),
    name: Seq<char>,
    value: Seq<char>,
)
    ensures
        sets(variable, name, value) <==> variable.0@ == name && variable.1@ == value,
{
}

/// The banner calls a reasoning level by the name that sets it.
pub proof fn law_effort_is_shown_by_its_name(word: Seq<char>)
    requires
        word == "low"@ || word == "medium"@ || word == "high"@ || word == "max"@,
    ensures
        effort_text(effort_named(Some(word))) == word + " (requested → think:\""@ + word + "\")"@,
{
    reveal_strlit("low");
    reveal_strlit("medium");
    reveal_strlit("med");
    reveal_strlit("high");
    reveal_strlit("max");
    reveal_strlit("off");
    reveal_strlit("none");
    reveal_strlit("false");
    reveal_strlit("0");
    reveal_strlit(" (requested → think:\"");
    reveal_strlit("\")");
    reveal_strlit("low (requested → think:\"low\")");
    reveal_strlit("medium (requested → think:\"medium\")");
    reveal_strlit("high (requested → think:\"high\")");
    reveal_strlit("max (requested → think:\"max\")");
    let none = Seq::<char>::empty();
    assert(text_laws::is_tight(word));
    text_laws::law_trimming_takes_the_white_space_around(none, word, none);
    assert(none + word + none =~= word);
    assert(text::lowered(word) =~= word);
    assert("low"@[0] != "off"@[0] && "low"@[0] != "med"@[0] && "low"@[0] != "max"@[0]);
    assert("max"@[1] != "med"@[1] && "max"@[0] != "off"@[0]);
    assert("high"@[0] != "none"@[0]);
    assert(effort_text(effort_named(Some(word))) =~= word + " (requested → think:\""@ + word
        + "\")"@);
}

/// The directory that the climb is walled in to is the one whose tests drive it.
pub proof fn law_the_climb_writes_where_it_is_measured()
    ensures
        TASK_DIR@ + "/Cargo.toml"@ == "csv-task/Cargo.toml"@,
{
    reveal_strlit("csv-task");
    reveal_strlit("/Cargo.toml");
    reveal_strlit("csv-task/Cargo.toml");
    assert(TASK_DIR@ + "/Cargo.toml"@ =~= "csv-task/Cargo.toml"@);
}

} // verus!
