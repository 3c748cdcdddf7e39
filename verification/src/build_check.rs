//! Build-checked writes: after every batch of tool calls that wrote a source file
//! the project is built once, and what the build said is folded into the results
//! of those writes. A write that does not compile comes back as an error that the
//! model has to react to, though its bytes have landed.
//!
//! Running the build is left to the caller. The hook goes in three steps:
//! [`BuildCheckMiddleware::after_tool`] says whether a build is due,
//! [`BuildCheckMiddleware::run_build`] turns what came of it into a verdict, and
//! [`fold_verdict`] rewrites the results.

use vstd::prelude::*;

use crate::text;
use crate::text_laws;

verus! {

/// How long a build may take, in seconds, before it counts as not verified.
pub const BUILD_TIMEOUT_SECS: u64 = 120;

/// How many characters of compiler diagnostics are handed to the model at most.
pub const MAX_DIAG_CHARS: usize = 6000;

/// The build command line where none is configured.
pub const DEFAULT_BUILD_CMD: &'static str =
    "cargo check --all-targets --manifest-path csv-task/Cargo.toml";

/// The path suffix that triggers a build where none is configured.
pub const DEFAULT_BUILD_TRIGGER: &'static str = ".rs";

/// The configured build check.
#[derive(Clone)]
pub struct BuildCheck {
    /// Build program, e.g. `cargo`.
    pub program: String,
    /// Build arguments, e.g. `["build", "--manifest-path", "csv-task/Cargo.toml"]`.
    pub args: Vec<String>,
    /// Only writes to paths that end with this suffix trigger a build.
    pub trigger_suffix: String,
    /// How long the build may take, in seconds.
    pub timeout_secs: u64,
}

/// The words that switch the check off.
pub open spec fn is_off(word: Seq<char>) -> bool {
    word == "0"@ || word == "off"@ || word == "false"@ || word == "no"@
}

/// Whether the setting `CORDYCEPS_BUILD_CHECK` leaves the check on.
pub open spec fn check_enabled(setting: Option<Seq<char>>) -> bool {
    match setting {
        Some(value) => !is_off(text::lowered(text::trimmed(value))),
        None => true,
    }
}

/// The value of a setting, or what stands for it where it is not set.
pub open spec fn setting_or(setting: Option<Seq<char>>, default: Seq<char>) -> Seq<char> {
    match setting {
        Some(value) => value,
        None => default,
    }
}

/// A program and its arguments with single spaces between them.
pub open spec fn command_line(program: Seq<char>, args: Seq<Seq<char>>) -> Seq<char> {
    if args.len() == 0 {
        program
    } else {
        program + " "@ + text::joined(args, " "@)
    }
}

impl BuildCheck {
    /// Resolves the check from the values of `CORDYCEPS_BUILD_CHECK`,
    /// `CORDYCEPS_BUILD_CMD` and `CORDYCEPS_BUILD_TRIGGER`. `None` where it is
    /// switched off or the command line holds no word.
    pub fn from_env(
        check: Option<String>,
        cmd: Option<String>,
        trigger: Option<String>,
    ) -> (r: Option<BuildCheck>)
        ensures
            ({
                let words = text::words(setting_or(cmd.deep_view(), DEFAULT_BUILD_CMD@));
                match r {
                    Some(b) => {
                        &&& check_enabled(check.deep_view())
                        &&& words.len() > 0
                        &&& b.program@ == words[0]
                        &&& b.args.deep_view() == words.skip(1)
                        &&& b.trigger_suffix@ == setting_or(
                            trigger.deep_view(),
                            DEFAULT_BUILD_TRIGGER@,
                        )
                        &&& b.timeout_secs == BUILD_TIMEOUT_SECS
                    },
                    None => !check_enabled(check.deep_view()) || words.len() == 0,
                }
            }),
    {
        if let Some(value) = check {
            let trimmed: String = text::trim(value.as_str());
            let word: String = text::to_ascii_lowercase(trimmed.as_str());
            if text::equal(word.as_str(), "0") || text::equal(word.as_str(), "off")
                || text::equal(word.as_str(), "false") || text::equal(word.as_str(), "no") {
                return None;
            }
        }
        let cmdline: String = match cmd {
            Some(value) => value,
            None => DEFAULT_BUILD_CMD.to_owned(),
        };
        let mut args: Vec<String> = text::split_whitespace(cmdline.as_str());
        if args.len() == 0 {
            return None;
        }
        let ghost words = args.deep_view();
        let program: String = args.remove(0);
        assert(args.deep_view() =~= words.skip(1));
        let trigger_suffix: String = match trigger {
            Some(value) => value,
            None => DEFAULT_BUILD_TRIGGER.to_owned(),
        };
        Some(BuildCheck { program, args, trigger_suffix, timeout_secs: BUILD_TIMEOUT_SECS })
    }

    /// The command line, for echoing back to the model.
    pub fn cmdline(&self) -> (r: String)
        ensures
            r@ == command_line(self.program@, self.args.deep_view()),
    {
        let mut line: String = self.program.clone();
        if self.args.len() > 0 {
            line.append(" ");
            let args: String = text::join(&self.args, " ");
            line.append(args.as_str());
        }
        line
    }

    /// One line that describes the check, for the startup banner.
    pub fn banner(&self) -> (r: String)
        ensures
            r@ == "`"@ + command_line(self.program@, self.args.deep_view()) + "` after every *"@
                + self.trigger_suffix@ + " write (set CORDYCEPS_BUILD_CHECK=off to disable)"@,
    {
        let cmdline: String = self.cmdline();
        let mut line: String = "`".to_owned();
        line.append(cmdline.as_str());
        line.append("` after every *");
        line.append(self.trigger_suffix.as_str());
        line.append(" write (set CORDYCEPS_BUILD_CHECK=off to disable)");
        line
    }
}

/// The command line that a check echoes splits into the words that it was
/// configured with.
pub proof fn law_cmdline_splits_back(configured: Seq<char>)
    requires
        text::words(configured).len() > 0,
    ensures
        ({
            let words = text::words(configured);
            text::words(command_line(words[0], words.skip(1))) == words
        }),
{
    let words = text::words(configured);
    reveal_strlit(" ");
    assert(" "@ =~= seq![' ']);
    text::law_words_are_words(configured);
    text::law_joined_words_split_back(words);
    assert(seq![words[0]] + words.skip(1) =~= words);
    if words.len() > 1 {
        text::law_joined_in_two(seq![words[0]], words.skip(1), " "@);
        assert(text::joined(seq![words[0]], " "@) == words[0]);
    }
}

/// A tool call, as far as the check looks at it.
pub struct ToolCall {
    pub name: String,
    /// The `path` of the call's input, where that is a string.
    pub path: Option<String>,
}

/// What a tool call came to.
pub enum ToolOutput {
    Success { content: String },
    Error { message: String, recoverable: bool },
    /// Neither of the two: the call waits for somebody.
    Pending,
}

/// What the harness is to do after the hook.
#[derive(Debug, Clone, Copy, PartialEq, Eq, Structural)]
pub enum MiddlewareDecision {
    Continue,
    ContinueWithModification,
}

/// A write that the build is about: the place of its result in the batch, and the
/// message that it came with.
pub struct WriteTarget {
    pub index: usize,
    pub message: String,
}

/// What the hook does with a batch of results.
pub enum HookStep {
    /// No source file was written: nothing to build, nothing to change.
    Continue,
    /// Build the project once, and fold the verdict into these results.
    Build { targets: Vec<WriteTarget> },
}

/// What came of running the build command.
pub enum BuildRun {
    /// The command could not be launched.
    SpawnFailed { message: String },
    /// The sandbox did not run it for another reason.
    Refused { detail: String },
    /// It ran; an exit code of -1 stands for a kill by a signal.
    Ran { timed_out: bool, exit_code: i32, stdout: String, stderr: String },
}

/// What the build said, ready to fold into a write result.
pub enum Verdict {
    /// The write stays a success; this note is appended.
    Append(String),
    /// The compiler said no: the write becomes an error with this body.
    Fail(String),
}

/// What follows from a build run.
pub enum BuildStep {
    Settled { verdict: Verdict },
    /// The build failed. Cut these diagnostics to [`MAX_DIAG_CHARS`] characters and
    /// hand them to [`build_failed`].
    Diagnose { diagnostics: String },
}

/// Whether the build ran to its end and said no.
pub open spec fn says_no(run: BuildRun) -> bool {
    run matches BuildRun::Ran { timed_out, exit_code, .. } && !timed_out && exit_code != 0
        && exit_code != -1
}

/// Whether a call that came to `output` wrote a file that triggers a build.
pub open spec fn is_source_write(suffix: Seq<char>, call: ToolCall, output: ToolOutput) -> bool {
    &&& call.name@ == "write_file"@ || call.name@ == "edit_file"@
    &&& output is Success
    &&& text::has_suffix(setting_or(call.path.deep_view(), Seq::empty()), suffix)
}

/// Whether `targets` are the source writes of a batch, in order, with their
/// messages. A call without a result, or a result without a call, is none.
pub open spec fn are_targets(
    suffix: Seq<char>,
    calls: Seq<ToolCall>,
    results: Seq<ToolOutput>,
    targets: Seq<WriteTarget>,
) -> bool {
    &&& forall|a: int, b: int|
        0 <= a < b < targets.len() ==> (#[trigger] targets[a]).index < (#[trigger] targets[b]).index
    &&& forall|k: int|
        0 <= k < targets.len() ==> {
            let i = (#[trigger] targets[k]).index as int;
            &&& i < calls.len() && i < results.len()
            &&& is_source_write(suffix, calls[i], results[i])
            &&& results[i] matches ToolOutput::Success { content }
            &&& content@ == targets[k].message@
        }
    &&& forall|i: int|
        0 <= i < calls.len() && i < results.len() && #[trigger] is_source_write(
            suffix,
            calls[i],
            results[i],
        ) ==> has_target(targets, i)
}

/// Whether one of `targets` stands at `i`.
pub open spec fn has_target(targets: Seq<WriteTarget>, i: int) -> bool {
    exists|k: int| 0 <= k < targets.len() && (#[trigger] targets[k]).index == i
}

/// A write's message with the verdict on it: the message, a blank line, the note.
pub open spec fn with_note(message: Seq<char>, note: Seq<char>) -> Seq<char> {
    message + "\n\n"@ + note
}

/// Whether `output` is what a write that came with `message` becomes.
pub open spec fn is_folded(output: ToolOutput, message: Seq<char>, verdict: Verdict) -> bool {
    match verdict {
        Verdict::Append(note) => output matches ToolOutput::Success { content } && content@
            == with_note(message, note@),
        Verdict::Fail(body) => output matches ToolOutput::Error { message: m, recoverable } && m@
            == with_note(message, body@) && recoverable,
    }
}

/// Whether `after` is `before` with the verdict folded into each target, and
/// nothing else changed.
pub open spec fn are_folded(
    before: Seq<ToolOutput>,
    targets: Seq<WriteTarget>,
    verdict: Verdict,
    after: Seq<ToolOutput>,
) -> bool {
    &&& after.len() == before.len()
    &&& forall|k: int|
        0 <= k < targets.len() ==> is_folded(
            after[(#[trigger] targets[k]).index as int],
            targets[k].message@,
            verdict,
        )
    &&& forall|i: int|
        0 <= i < before.len() && !has_target(targets, i) ==> #[trigger] after[i] == before[i]
}

/// The hook that runs after each batch of tool calls.
pub struct BuildCheckMiddleware {
    pub check: BuildCheck,
}

impl BuildCheckMiddleware {
    pub fn new(check: BuildCheck) -> (r: BuildCheckMiddleware)
        ensures
            r.check == check,
    {
        BuildCheckMiddleware { check }
    }

    /// The name that the hook is registered under.
    pub fn name(&self) -> (r: &'static str)
        ensures
            r@ == "build-check"@,
    {
        "build-check"
    }

    /// Finds the writes of a batch that landed bytes in a source file. Only those
    /// make a build due, and a batch makes one due at most once.
    pub fn after_tool(&self, calls: &Vec<ToolCall>, results: &Vec<ToolOutput>) -> (r: HookStep)
        ensures
            match r {
                HookStep::Build { targets } => {
                    &&& targets@.len() > 0
                    &&& are_targets(self.check.trigger_suffix@, calls@, results@, targets@)
                },
                HookStep::Continue => forall|i: int|
                    0 <= i < calls@.len() && i < results@.len() ==> !#[trigger] is_source_write(
                        self.check.trigger_suffix@,
                        calls@[i],
                        results@[i],
                    ),
            },
    {
        let ghost suffix = self.check.trigger_suffix@;
        let mut targets: Vec<WriteTarget> = Vec::new();
        let mut i: usize = 0;
        while i < calls.len() && i < results.len()
            invariant
                i <= calls@.len(),
                i <= results@.len(),
                suffix == self.check.trigger_suffix@,
                forall|a: int, b: int|
                    0 <= a < b < targets@.len() ==> (#[trigger] targets@[a]).index < (
                    #[trigger] targets@[b]).index,
                forall|k: int|
                    0 <= k < targets@.len() ==> {
                        let j = (#[trigger] targets@[k]).index as int;
                        &&& j < i
                        &&& is_source_write(suffix, calls@[j], results@[j])
                        &&& results@[j] matches ToolOutput::Success { content }
                        &&& content@ == targets@[k].message@
                    },
                forall|j: int|
                    0 <= j < i && #[trigger] is_source_write(suffix, calls@[j], results@[j])
                        ==> has_target(targets@, j),
            decreases calls@.len() - i,
        {
            let ghost so_far = targets@;
            let name: &str = calls[i].name.as_str();
            if text::equal(name, "write_file") || text::equal(name, "edit_file") {
                if let ToolOutput::Success { content } = &results[i] {
                    let path: &str = match &calls[i].path {
                        Some(p) => p.as_str(),
                        None => "",
                    };
                    proof {
                        reveal_strlit("");
                        assert(""@ =~= Seq::empty());
                    }
                    if text::ends_with(path, self.check.trigger_suffix.as_str()) {
                        targets.push(WriteTarget { index: i, message: content.clone() });
                        assert(targets@[so_far.len() as int].index == i);
                    }
                }
            }
            assert forall|j: int|
                0 <= j < i + 1 && #[trigger] is_source_write(
                    suffix,
                    calls@[j],
                    results@[j],
                ) implies has_target(targets@, j) by {
                if j < i {
                    let k = choose|k: int|
                        0 <= k < so_far.len() && (#[trigger] so_far[k]).index == j;
                    assert(targets@[k].index == j);
                }
            }
            i += 1;
        }
        if targets.len() == 0 {
            HookStep::Continue
        } else {
            HookStep::Build { targets }
        }
    }

    /// Classifies what came of running the build command once. Only a build that
    /// ran to its end and said no counts against the write: a command that did not
    /// start, a timeout and a kill are not the model's doing.
    pub fn run_build(&self, cmdline: &str, run: BuildRun) -> (r: BuildStep)
        ensures
            r is Diagnose <==> says_no(run),
            match run {
                BuildRun::SpawnFailed { message } => {
                    &&& r matches BuildStep::Settled { verdict: Verdict::Append(note) }
                    &&& note@ == "[build-check skipped: `"@ + cmdline@ + "` did not run — "@
                        + message@ + "]"@
                },
                BuildRun::Refused { detail } => {
                    &&& r matches BuildStep::Settled { verdict: Verdict::Append(note) }
                    &&& note@ == "[build-check skipped: could not run `"@ + cmdline@ + "`: "@
                        + detail@ + "]"@
                },
                BuildRun::Ran { timed_out, exit_code, stdout, stderr } => if timed_out {
                    &&& r matches BuildStep::Settled { verdict: Verdict::Append(note) }
                    &&& note@ == "[build-check: `"@ + cmdline@ + "` timed out after "@
                        + text::decimal(self.check.timeout_secs as nat)
                        + "s — compilation not verified]"@
                } else if exit_code == -1 {
                    &&& r matches BuildStep::Settled { verdict: Verdict::Append(note) }
                    &&& note@ == "[build-check skipped: `"@ + cmdline@ + "` killed]"@
                } else if exit_code == 0 {
                    &&& r matches BuildStep::Settled { verdict: Verdict::Append(note) }
                    &&& note@ == "✓ build OK — `"@ + cmdline@ + "` compiles cleanly."@
                } else {
                    &&& r matches BuildStep::Diagnose { diagnostics }
                    &&& diagnostics@ == diagnostics_of(stderr@, stdout@)
                },
            },
    {
        let mut note: String = String::new();
        match run {
            BuildRun::SpawnFailed { message } => {
                note = "[build-check skipped: `".to_owned();
                note.append(cmdline);
                note.append("` did not run — ");
                note.append(message.as_str());
                note.append("]");
            },
            BuildRun::Refused { detail } => {
                note = "[build-check skipped: could not run `".to_owned();
                note.append(cmdline);
                note.append("`: ");
                note.append(detail.as_str());
                note.append("]");
            },
            BuildRun::Ran { timed_out, exit_code, stdout, stderr } => {
                if timed_out {
                    let secs: String = text::decimal_of(self.check.timeout_secs);
                    note = "[build-check: `".to_owned();
                    note.append(cmdline);
                    note.append("` timed out after ");
                    note.append(secs.as_str());
                    note.append("s — compilation not verified]");
                } else if exit_code == -1 {
                    note = "[build-check skipped: `".to_owned();
                    note.append(cmdline);
                    note.append("` killed]");
                } else if exit_code == 0 {
                    note = "✓ build OK — `".to_owned();
                    note.append(cmdline);
                    note.append("` compiles cleanly.");
                } else {
                    let diagnostics: String = combined_diagnostics(
                        stderr.as_str(),
                        stdout.as_str(),
                    );
                    return BuildStep::Diagnose { diagnostics };
                }
            },
        }
        BuildStep::Settled { verdict: Verdict::Append(note) }
    }
}

/// What the model is told about a build that failed.
pub open spec fn failure_body(cmdline: Seq<char>, diagnostics: Seq<char>) -> Seq<char> {
    "✗ BUILD FAILED — the project no longer compiles after this write. Do not proceed. Fix the errors below with a SMALL, TARGETED edit_file (re-read the exact lines first if unsure); do NOT rewrite the whole file.\n\n$ "@
        + cmdline + "\n"@ + diagnostics
}

/// The verdict on a build that failed with these diagnostics.
pub fn build_failed(cmdline: &str, diagnostics: &str) -> (r: Verdict)
    ensures
        r matches Verdict::Fail(body) && body@ == failure_body(cmdline@, diagnostics@),
{
    let mut body: String =
        "✗ BUILD FAILED — the project no longer compiles after this write. Do not proceed. Fix the errors below with a SMALL, TARGETED edit_file (re-read the exact lines first if unsure); do NOT rewrite the whole file.\n\n$ ".to_owned();
    body.append(cmdline);
    body.append("\n");
    body.append(diagnostics);
    Verdict::Fail(body)
}

/// What a build printed, without the white space around it: standard error, or
/// standard output where that is blank.
pub open spec fn diagnostics_of(stderr: Seq<char>, stdout: Seq<char>) -> Seq<char> {
    if text::blank(stderr) {
        text::trimmed(stdout)
    } else {
        text::trimmed(stderr)
    }
}

/// Prefers standard error, where compilers write diagnostics; falls back to
/// standard output where that is blank.
pub fn combined_diagnostics(stderr: &str, stdout: &str) -> (r: String)
    ensures
        r@ == diagnostics_of(stderr@, stdout@),
{
    if text::is_blank(stderr) {
        text::trim(stdout)
    } else {
        text::trim(stderr)
    }
}

/// Folds one verdict into each of the writes it is about. Every other result
/// stays as it is.
pub fn fold_verdict(
    verdict: &Verdict,
    targets: &Vec<WriteTarget>,
    results: &mut Vec<ToolOutput>,
) -> (r: MiddlewareDecision)
    requires
        forall|k: int|
            0 <= k < targets@.len() ==> (#[trigger] targets@[k]).index < old(results)@.len(),
        forall|a: int, b: int|
            0 <= a < b < targets@.len() ==> (#[trigger] targets@[a]).index < (
            #[trigger] targets@[b]).index,
    ensures
        r == MiddlewareDecision::ContinueWithModification,
        are_folded(old(results)@, targets@, *verdict, final(results)@),
{
    let ghost before = results@;
    let mut k: usize = 0;
    while k < targets.len()
        invariant
            k <= targets@.len(),
            results@.len() == before.len(),
            forall|a: int|
                0 <= a < targets@.len() ==> (#[trigger] targets@[a]).index < before.len(),
            forall|a: int, b: int|
                0 <= a < b < targets@.len() ==> (#[trigger] targets@[a]).index < (
                #[trigger] targets@[b]).index,
            forall|a: int|
                0 <= a < k ==> is_folded(
                    results@[(#[trigger] targets@[a]).index as int],
                    targets@[a].message@,
                    *verdict,
                ),
            forall|i: int|
                0 <= i < results@.len() && !has_target(targets@, i) ==> #[trigger] results@[i]
                    == before[i],
        decreases targets@.len() - k,
    {
        let mut content: String = targets[k].message.clone();
        content.append("\n\n");
        let output: ToolOutput = match verdict {
            Verdict::Append(note) => {
                content.append(note.as_str());
                ToolOutput::Success { content }
            },
            Verdict::Fail(body) => {
                content.append(body.as_str());
                ToolOutput::Error { message: content, recoverable: true }
            },
        };
        let at: usize = targets[k].index;
        assert(has_target(targets@, at as int));
        results.set(at, output);
        k += 1;
    }
    MiddlewareDecision::ContinueWithModification
}

/// The hook as a whole rewrites the results of the writes that landed in source
/// files, each by the same verdict and with its own message in front, and leaves
/// every other result alone.
pub proof fn law_hook_rewrites_source_writes_only(
    suffix: Seq<char>,
    calls: Seq<ToolCall>,
    before: Seq<ToolOutput>,
    targets: Seq<WriteTarget>,
    verdict: Verdict,
    after: Seq<ToolOutput>,
)
    requires
        are_targets(suffix, calls, before, targets),
        are_folded(before, targets, verdict, after),
    ensures
        after.len() == before.len(),
        forall|i: int|
            #![trigger after[i]]
            0 <= i < before.len() ==> if i < calls.len() && is_source_write(
                suffix,
                calls[i],
                before[i],
            ) {
                is_folded(after[i], before[i]->content@, verdict)
            } else {
                after[i] == before[i]
            },
{
    assert forall|i: int|
        #![trigger after[i]]
        0 <= i < before.len() implies if i < calls.len() && is_source_write(
        suffix,
        calls[i],
        before[i],
    ) {
        is_folded(after[i], before[i]->content@, verdict)
    } else {
        after[i] == before[i]
    } by {
        if i < calls.len() && is_source_write(suffix, calls[i], before[i]) {
            let k = choose|k: int| 0 <= k < targets.len() && (#[trigger] targets[k]).index == i;
            assert(is_folded(after[i], targets[k].message@, verdict));
        } else if has_target(targets, i) {
            let k = choose|k: int| 0 <= k < targets.len() && (#[trigger] targets[k]).index == i;
            assert(targets[k].index == i);
        }
    }
}

/// A write or an edit that succeeded makes a build due if its path is anything
/// with the suffix behind it. Nothing else does: not another tool, not a call that
/// failed or waits, not another path, and a call without a path only where the
/// suffix is empty.
pub proof fn law_source_writes_make_a_build_due(
    suffix: Seq<char>,
    call: ToolCall,
    output: ToolOutput,
)
    ensures
        forall|p: Seq<char>|
            call.path matches Some(path) && path@ == #[trigger] (p + suffix) && (call.name@
                == "write_file"@ || call.name@ == "edit_file"@) && output is Success
                ==> is_source_write(suffix, call, output),
        is_source_write(suffix, call, output) ==> {
            &&& call.name@ == "write_file"@ || call.name@ == "edit_file"@
            &&& output is Success
            &&& call.path matches Some(path) ==> exists|p: Seq<char>|
                path@ == #[trigger] (p + suffix)
            &&& call.path is None ==> suffix.len() == 0
        },
{
    if let Some(path) = call.path {
        text_laws::law_suffix(path@, suffix);
    } else {
        text_laws::law_suffix(Seq::empty(), suffix);
    }
}

/// What the hook as a whole leaves at place `i` of a batch. A write or an edit that
/// succeeded on a path with the suffix behind it gets a note below its message, or
/// becomes an error with the message and the body that the model can recover from.
/// Every other result stays as it was.
pub proof fn law_hook_acts_on_successful_source_writes(
    suffix: Seq<char>,
    calls: Seq<ToolCall>,
    before: Seq<ToolOutput>,
    targets: Seq<WriteTarget>,
    verdict: Verdict,
    after: Seq<ToolOutput>,
    i: int,
)
    requires
        are_targets(suffix, calls, before, targets),
        are_folded(before, targets, verdict, after),
        0 <= i < before.len(),
    ensures
        after.len() == before.len(),
        ({
            let is_write = i < calls.len() && (calls[i].name@ == "write_file"@ || calls[i].name@
                == "edit_file"@);
            let path = match calls[i].path {
                Some(path) => path@,
                None => Seq::empty(),
            };
            if is_write && exists|p: Seq<char>| path == #[trigger] (p + suffix) {
                match (before[i], verdict) {
                    (ToolOutput::Success { content }, Verdict::Append(note)) => {
                        &&& after[i] matches ToolOutput::Success { content: c }
                        &&& c@ == content@ + "\n\n"@ + note@
                    },
                    (ToolOutput::Success { content }, Verdict::Fail(body)) => {
                        &&& after[i] matches ToolOutput::Error { message, recoverable }
                        &&& message@ == content@ + "\n\n"@ + body@
                        &&& recoverable
                    },
                    _ => after[i] == before[i],
                }
            } else {
                after[i] == before[i]
            }
        }),
{
    if i < calls.len() {
        let path = match calls[i].path {
            Some(path) => path@,
            None => Seq::empty(),
        };
        text_laws::law_suffix(path, suffix);
    }
    if i < calls.len() && is_source_write(suffix, calls[i], before[i]) {
        let k = choose|k: int| 0 <= k < targets.len() && (#[trigger] targets[k]).index == i;
        assert(is_folded(after[i], targets[k].message@, verdict));
    } else if has_target(targets, i) {
        let k = choose|k: int| 0 <= k < targets.len() && (#[trigger] targets[k]).index == i;
        assert(targets[k].index == i);
    }
}

/// The targets are the places of the source writes, each once and in order, so the
/// one build of a batch is about all of them.
pub proof fn law_targets_are_the_source_writes(
    suffix: Seq<char>,
    calls: Seq<ToolCall>,
    results: Seq<ToolOutput>,
    targets: Seq<WriteTarget>,
    i: int,
)
    requires
        are_targets(suffix, calls, results, targets),
        0 <= i < calls.len(),
        i < results.len(),
        calls[i].name@ == "write_file"@ || calls[i].name@ == "edit_file"@,
        results[i] is Success,
        calls[i].path matches Some(path) && exists|p: Seq<char>| path@ == #[trigger] (p + suffix),
    ensures
        exists|k: int|
            0 <= k < targets.len() && (#[trigger] targets[k]).index == i && targets[k].message@
                == results[i]->content@,
        forall|a: int, b: int|
            0 <= a < targets.len() && 0 <= b < targets.len() && (#[trigger] targets[a]).index == (
            #[trigger] targets[b]).index ==> a == b,
        forall|a: int, b: int|
            0 <= a < b < targets.len() ==> (#[trigger] targets[a]).index < (
            #[trigger] targets[b]).index,
{
    law_source_writes_make_a_build_due(suffix, calls[i], results[i]);
    assert(has_target(targets, i));
}

/// A write with the verdict on it keeps its message in front. It is an error, and
/// one to recover from, exactly where the verdict is a failure.
pub proof fn law_folding_keeps_the_message(
    output: ToolOutput,
    message: Seq<char>,
    verdict: Verdict,
)
    requires
        is_folded(output, message, verdict),
    ensures
        output is Success <==> verdict is Append,
        output is Error <==> verdict is Fail,
        output is Error ==> output->recoverable,
        message.is_prefix_of(
            match output {
                ToolOutput::Success { content } => content@,
                ToolOutput::Error { message: m, .. } => m@,
                ToolOutput::Pending => Seq::empty(),
            },
        ),
{
    let note = match verdict {
        Verdict::Append(note) => note@,
        Verdict::Fail(body) => body@,
    };
    assert(message =~= with_note(message, note).subrange(0, message.len() as int));
}

/// A setting counts as it was set, though it be empty; the default stands in only
/// where it was not set.
pub proof fn law_what_is_set_counts(value: Seq<char>, default: Seq<char>)
    ensures
        setting_or(Some(value), default) == value,
        setting_or(None, default) == default,
{
}

/// The check is on unless it is switched off. The four words that do so count in
/// any case and with any white space around them; no other setting does.
pub proof fn law_only_four_words_switch_the_check_off(
    before: Seq<char>,
    word: Seq<char>,
    after: Seq<char>,
)
    requires
        text::blank(before),
        text::blank(after),
    ensures
        check_enabled(None),
        check_enabled(Some(before + word + after)) == check_enabled(Some(word)),
        check_enabled(Some(text::lowered(word))) == check_enabled(Some(word)),
        text::lowered(word) == word && text_laws::is_tight(word) ==> (!check_enabled(Some(word))
            <==> (word == "0"@ || word == "off"@ || word == "false"@ || word == "no"@)),
{
    text_laws::law_trimming_forgets_padding(before, word, after);
    text_laws::lemma_lowering_and_trimming(word);
    text_laws::lemma_lowering_and_trimming(text::trimmed(word));
    let none = Seq::<char>::empty();
    if text_laws::is_tight(word) {
        text_laws::law_trimming_takes_the_white_space_around(none, word, none);
        assert(none + word + none =~= word);
    }
}

/// A command line starts with the program, and each argument comes behind a space.
pub proof fn law_command_line_holds_each_argument(
    program: Seq<char>,
    args: Seq<Seq<char>>,
    arg: Seq<char>,
)
    ensures
        command_line(program, Seq::empty()) == program,
        command_line(program, args.push(arg)) == command_line(program, args) + seq![' '] + arg,
{
    reveal_strlit(" ");
    assert(" "@ =~= seq![' ']);
    text_laws::law_joining_appends(args, arg, " "@);
    if args.len() == 0 {
        assert(args.push(arg) =~= seq![arg]);
    }
    assert(command_line(program, args.push(arg)) =~= command_line(program, args) + seq![' ']
        + arg);
}

/// The diagnostics are what standard error shows, whatever standard output does;
/// where standard error shows nothing, they are what standard output shows.
pub proof fn law_diagnostics_prefer_standard_error(
    before: Seq<char>,
    shown: Seq<char>,
    after: Seq<char>,
    other: Seq<char>,
)
    requires
        text::blank(before),
        text::blank(after),
        text_laws::is_tight(shown),
    ensures
        shown.len() > 0 ==> diagnostics_of(before + shown + after, other) == shown,
        text::blank(other) ==> diagnostics_of(other, before + shown + after) == shown,
{
    text_laws::law_trimming_takes_the_white_space_around(before, shown, after);
    if shown.len() > 0 {
        let s = before + shown + after;
        assert(s[before.len() as int] == shown[0]);
        assert(!text::blank(s));
    }
}

/// What the model is told of a failed build ends in the command line and the
/// diagnostics, both as they are, below text that does not depend on them.
pub proof fn law_failures_show_command_and_diagnostics(
    cmdline: Seq<char>,
    diagnostics: Seq<char>,
)
    ensures
        ({
            let told = failure_body(Seq::empty(), Seq::empty()).drop_last();
            failure_body(cmdline, diagnostics) == told + cmdline + seq!['\n'] + diagnostics
        }),
{
    reveal_strlit("\n");
    let none = Seq::<char>::empty();
    let told = failure_body(none, none).drop_last();
    assert(failure_body(cmdline, diagnostics) =~= told + cmdline + seq!['\n'] + diagnostics);
}

/// A build has two minutes, and the model gets at most six thousand characters of
/// what it printed.
pub proof fn law_builds_are_limited()
    ensures
        BUILD_TIMEOUT_SECS == 2 * 60,
        MAX_DIAG_CHARS == 6 * 1000,
{
}

} // verus!
