//! System prompts, composed of fragments.
//!
//! One base prompt serves every strategy. The plan leaf replaces it with a prompt
//! of its own, the only one that asks for a plan in place of tool calls: a run
//! that ends at the first turn without a tool call must never be invited to
//! answer with a plan.

use vstd::prelude::*;

use crate::text;

verus! {

/// Opening: who the agent is and the tool palette. Shared by every prompt.
pub const PROMPT_INTRO: &'static str = "You are a coding agent working inside a sandboxed workspace directory. \
     Explore with list_dir, read_file, grep, and find_files; create and change files with \
     write_file and edit_file; run commands (builds, tests) with bash_command. Use `.` and \
     relative paths only.";

/// Act directive of the base prompt. A turn without a tool call ends the run, so
/// it never invites one.
pub const PROMPT_ACT_REACT: &'static str = "Act using tools — do not just describe what you would do. \
     A turn in which you call NO tool ends the run immediately, with whatever text you wrote taken \
     as your final answer — so never stop just to lay out a plan or list the steps you intend to \
     take; keep acting until you have run the tests and seen them pass.";

/// Act directive of the plan leaf, the one place that answers with a plan and no
/// tool calls.
pub const PROMPT_ACT_PLAN: &'static str = "Act using tools — do not just describe what you would do. \
     (The one exception: when you are asked to PRODUCE A PLAN, reply with the requested JSON plan \
     object directly, with no tool calls in that turn — make each task one concrete, \
     self-contained step, ordered so each builds on the previous.)";

/// The discipline of small, verified steps.
pub const PROMPT_VERIFY: &'static str = "Work in small, VERIFIED steps. Implement ONE change at a time, then \
     immediately verify it with bash_command: run the project's build and tests (e.g. `cargo \
     test`) and READ the output before continuing. Let the compiler and the failing tests drive \
     you — fix the specific error they report instead of guessing or rewriting from scratch. \
     Prefer edit_file to change only the lines that are wrong; do NOT rewrite a whole file you \
     have already written, which only reintroduces mistakes and truncates the output. Keep each \
     edit scoped to the step you are on.";

/// When the task is done.
pub const PROMPT_DONE: &'static str = "Do NOT declare the task done until you have run the tests and seen them \
     pass; then reply with a short summary of what you changed.";

/// How to keep the user in the loop.
pub const PROMPT_NARRATION: &'static str = "The user CANNOT see your reasoning or your tool calls — they only \
     see the messages you send with the `send_message` tool and your final reply. So keep the user \
     in the loop: before (or as) you act, call `send_message` with one short sentence saying what \
     you are about to do, e.g. \"Reading the Cargo.toml to find the entry point.\" Call \
     `send_message` in PARALLEL with the tool that does the work — emit both in the same turn — so \
     narration never costs an extra round trip. Keep each message to a single short sentence.";

/// How to load skills.
pub const PROMPT_SKILLS: &'static str = "You may have SKILLS available — reusable, named procedures listed \
     under AVAILABLE SKILLS in your context (each as `name: description`). When the user's request \
     matches a skill's description, call the `load_skill` tool with that skill's name BEFORE you \
     start, then follow the full procedure it injects. You can load more than one.";

/// What the base prompt says of the build check, where that is active.
pub const BUILD_CHECK_NOTE: &'static str = "Note: write_file and edit_file AUTOMATICALLY compile the project \
     after each source-file change and append the result — a write that does not compile comes \
     back as an ERROR with the exact compiler diagnostics. When that happens, STOP: fix that \
     specific error with a small edit_file before doing anything else; do not pile on more changes \
     or rewrite the file.";

/// Whether no `a` stands right before a `b` in `s`, for `a` from `lo` up to `hi`.
/// (Halving the range keeps the definition shallow.)
pub open spec fn pair_free(s: Seq<char>, a: char, b: char, lo: int, hi: int) -> bool
    decreases hi - lo,
{
    if hi <= lo {
        true
    } else if hi == lo + 1 {
        s[lo] != a || s[lo + 1] != b
    } else {
        let mid = (lo + hi) / 2;
        pair_free(s, a, b, lo, mid) && pair_free(s, a, b, mid, hi)
    }
}

/// Whether no `a` stands right before a `b` in `s`.
pub open spec fn lacks_pair(s: Seq<char>, a: char, b: char) -> bool {
    forall|i: int| 0 <= i < s.len() - 1 ==> (#[trigger] s[i] != a || s[i + 1] != b)
}

proof fn lemma_pair_free(s: Seq<char>, a: char, b: char, lo: int, hi: int)
    requires
        pair_free(s, a, b, lo, hi),
    ensures
        forall|i: int| lo <= i < hi ==> (#[trigger] s[i] != a || s[i + 1] != b),
    decreases hi - lo,
{
    if hi > lo + 1 {
        let mid = (lo + hi) / 2;
        lemma_pair_free(s, a, b, lo, mid);
        lemma_pair_free(s, a, b, mid, hi);
    }
}

pub(crate) proof fn lemma_intro_text()
    ensures
        PROMPT_INTRO@.len() == 262,
        PROMPT_INTRO@[0] == 'Y',
        PROMPT_INTRO@.last() == '.',
        lacks_pair(PROMPT_INTRO@, ' ', ' '),
        lacks_pair(PROMPT_INTRO@, 'D', 'U'),
{
    reveal_strlit("You are a coding agent working inside a sandboxed workspace directory. \
     Explore with list_dir, read_file, grep, and find_files; create and change files with \
     write_file and edit_file; run commands (builds, tests) with bash_command. Use `.` and \
     relative paths only.");
    let n = PROMPT_INTRO@.len() - 1;
    reveal_with_fuel(pair_free, 12);
    assert(pair_free(PROMPT_INTRO@, ' ', ' ', 0, 261));
    lemma_pair_free(PROMPT_INTRO@, ' ', ' ', 0, n);
    assert(pair_free(PROMPT_INTRO@, 'D', 'U', 0, 261));
    lemma_pair_free(PROMPT_INTRO@, 'D', 'U', 0, n);
}

pub(crate) proof fn lemma_act_react_text()
    ensures
        PROMPT_ACT_REACT@.len() == 310,
        PROMPT_ACT_REACT@[0] == 'A',
        PROMPT_ACT_REACT@.last() == '.',
        lacks_pair(PROMPT_ACT_REACT@, ' ', ' '),
        lacks_pair(PROMPT_ACT_REACT@, 'D', 'U'),
{
    reveal_strlit("Act using tools — do not just describe what you would do. \
     A turn in which you call NO tool ends the run immediately, with whatever text you wrote taken \
     as your final answer — so never stop just to lay out a plan or list the steps you intend to \
     take; keep acting until you have run the tests and seen them pass.");
    let n = PROMPT_ACT_REACT@.len() - 1;
    reveal_with_fuel(pair_free, 12);
    assert(pair_free(PROMPT_ACT_REACT@, ' ', ' ', 0, 309));
    lemma_pair_free(PROMPT_ACT_REACT@, ' ', ' ', 0, n);
    assert(pair_free(PROMPT_ACT_REACT@, 'D', 'U', 0, 309));
    lemma_pair_free(PROMPT_ACT_REACT@, 'D', 'U', 0, n);
}

pub(crate) proof fn lemma_act_plan_text()
    ensures
        PROMPT_ACT_PLAN@.len() == 292,
        PROMPT_ACT_PLAN@[0] == 'A',
        PROMPT_ACT_PLAN@.last() == ')',
        lacks_pair(PROMPT_ACT_PLAN@, ' ', ' '),
        PROMPT_ACT_PLAN@.subrange(100, 114) == "PRODUCE A PLAN"@,
{
    reveal_strlit("Act using tools — do not just describe what you would do. \
     (The one exception: when you are asked to PRODUCE A PLAN, reply with the requested JSON plan \
     object directly, with no tool calls in that turn — make each task one concrete, \
     self-contained step, ordered so each builds on the previous.)");
    let n = PROMPT_ACT_PLAN@.len() - 1;
    reveal_with_fuel(pair_free, 12);
    assert(pair_free(PROMPT_ACT_PLAN@, ' ', ' ', 0, 291));
    lemma_pair_free(PROMPT_ACT_PLAN@, ' ', ' ', 0, n);
    reveal_strlit("PRODUCE A PLAN");
    assert(PROMPT_ACT_PLAN@.subrange(100, 114) =~= "PRODUCE A PLAN"@);
}

pub(crate) proof fn lemma_verify_text()
    ensures
        PROMPT_VERIFY@.len() == 551,
        PROMPT_VERIFY@[0] == 'W',
        PROMPT_VERIFY@.last() == '.',
        lacks_pair(PROMPT_VERIFY@, ' ', ' '),
        lacks_pair(PROMPT_VERIFY@, 'D', 'U'),
{
    reveal_strlit("Work in small, VERIFIED steps. Implement ONE change at a time, then \
     immediately verify it with bash_command: run the project's build and tests (e.g. `cargo \
     test`) and READ the output before continuing. Let the compiler and the failing tests drive \
     you — fix the specific error they report instead of guessing or rewriting from scratch. \
     Prefer edit_file to change only the lines that are wrong; do NOT rewrite a whole file you \
     have already written, which only reintroduces mistakes and truncates the output. Keep each \
     edit scoped to the step you are on.");
    let n = PROMPT_VERIFY@.len() - 1;
    reveal_with_fuel(pair_free, 12);
    assert(pair_free(PROMPT_VERIFY@, ' ', ' ', 0, 550));
    lemma_pair_free(PROMPT_VERIFY@, ' ', ' ', 0, n);
    assert(pair_free(PROMPT_VERIFY@, 'D', 'U', 0, 550));
    lemma_pair_free(PROMPT_VERIFY@, 'D', 'U', 0, n);
}

pub(crate) proof fn lemma_done_text()
    ensures
        PROMPT_DONE@.len() == 130,
        PROMPT_DONE@[0] == 'D',
        PROMPT_DONE@.last() == '.',
        lacks_pair(PROMPT_DONE@, ' ', ' '),
        lacks_pair(PROMPT_DONE@, 'D', 'U'),
{
    reveal_strlit("Do NOT declare the task done until you have run the tests and seen them \
     pass; then reply with a short summary of what you changed.");
    let n = PROMPT_DONE@.len() - 1;
    reveal_with_fuel(pair_free, 12);
    assert(pair_free(PROMPT_DONE@, ' ', ' ', 0, 129));
    lemma_pair_free(PROMPT_DONE@, ' ', ' ', 0, n);
    assert(pair_free(PROMPT_DONE@, 'D', 'U', 0, 129));
    lemma_pair_free(PROMPT_DONE@, 'D', 'U', 0, n);
}

pub(crate) proof fn lemma_narration_text()
    ensures
        PROMPT_NARRATION@.len() == 516,
        PROMPT_NARRATION@[0] == 'T',
        PROMPT_NARRATION@.last() == '.',
        lacks_pair(PROMPT_NARRATION@, ' ', ' '),
        lacks_pair(PROMPT_NARRATION@, 'D', 'U'),
{
    reveal_strlit("The user CANNOT see your reasoning or your tool calls — they only \
     see the messages you send with the `send_message` tool and your final reply. So keep the user \
     in the loop: before (or as) you act, call `send_message` with one short sentence saying what \
     you are about to do, e.g. \"Reading the Cargo.toml to find the entry point.\" Call \
     `send_message` in PARALLEL with the tool that does the work — emit both in the same turn — so \
     narration never costs an extra round trip. Keep each message to a single short sentence.");
    let n = PROMPT_NARRATION@.len() - 1;
    reveal_with_fuel(pair_free, 12);
    assert(pair_free(PROMPT_NARRATION@, ' ', ' ', 0, 515));
    lemma_pair_free(PROMPT_NARRATION@, ' ', ' ', 0, n);
    assert(pair_free(PROMPT_NARRATION@, 'D', 'U', 0, 515));
    lemma_pair_free(PROMPT_NARRATION@, 'D', 'U', 0, n);
}

pub(crate) proof fn lemma_skills_text()
    ensures
        PROMPT_SKILLS@.len() == 329,
        PROMPT_SKILLS@[0] == 'Y',
        PROMPT_SKILLS@.last() == '.',
        lacks_pair(PROMPT_SKILLS@, ' ', ' '),
        lacks_pair(PROMPT_SKILLS@, 'D', 'U'),
{
    reveal_strlit("You may have SKILLS available — reusable, named procedures listed \
     under AVAILABLE SKILLS in your context (each as `name: description`). When the user's request \
     matches a skill's description, call the `load_skill` tool with that skill's name BEFORE you \
     start, then follow the full procedure it injects. You can load more than one.");
    let n = PROMPT_SKILLS@.len() - 1;
    reveal_with_fuel(pair_free, 12);
    assert(pair_free(PROMPT_SKILLS@, ' ', ' ', 0, 328));
    lemma_pair_free(PROMPT_SKILLS@, ' ', ' ', 0, n);
    assert(pair_free(PROMPT_SKILLS@, 'D', 'U', 0, 328));
    lemma_pair_free(PROMPT_SKILLS@, 'D', 'U', 0, n);
}

/// Composes a system prompt of ordered fragments. Blank fragments are dropped, so
/// an optional one can be pushed unconditionally.
pub struct PromptBuilder {
    pub fragments: Vec<String>,
}

/// The fragments after one more is pushed.
pub open spec fn pushed(fragments: Seq<Seq<char>>, fragment: Seq<char>) -> Seq<Seq<char>> {
    if text::blank(fragment) {
        fragments
    } else {
        fragments.push(fragment)
    }
}

impl PromptBuilder {
    pub fn new() -> (r: PromptBuilder)
        ensures
            r.fragments.deep_view() == Seq::<Seq<char>>::empty(),
    {
        let fragments: Vec<String> = Vec::new();
        assert(fragments.deep_view() =~= Seq::<Seq<char>>::empty());
        PromptBuilder { fragments }
    }

    /// Appends a fragment, unless it is blank.
    pub fn push(self, fragment: &str) -> (r: PromptBuilder)
        ensures
            r.fragments.deep_view() == pushed(self.fragments.deep_view(), fragment@),
    {
        let mut fragments: Vec<String> = self.fragments;
        if !text::is_blank(fragment) {
            let ghost before = fragments.deep_view();
            let owned: String = fragment.to_owned();
            fragments.push(owned);
            assert(fragments.deep_view() =~= before.push(fragment@));
        }
        PromptBuilder { fragments }
    }

    /// Joins the fragments with a single space.
    pub fn build(self) -> (r: String)
        ensures
            r@ == text::joined(self.fragments.deep_view(), " "@),
    {
        text::join(&self.fragments, " ")
    }
}

/// The fragments of the base prompt: the build note stands between the verify
/// discipline and the closing, where there is one.
pub open spec fn base_fragments(build_note: Seq<char>) -> Seq<Seq<char>> {
    pushed(seq![PROMPT_INTRO@, PROMPT_ACT_REACT@, PROMPT_VERIFY@], build_note) + seq![
        PROMPT_DONE@,
        PROMPT_NARRATION@,
        PROMPT_SKILLS@,
    ]
}

/// The base prompt.
pub open spec fn base_prompt(build_note: Seq<char>) -> Seq<char> {
    text::joined(base_fragments(build_note), " "@)
}

/// The prompt of the plan leaf.
pub open spec fn plan_prompt() -> Seq<char> {
    PROMPT_INTRO@ + " "@ + PROMPT_ACT_PLAN@
}

/// The base operating prompt, used by every strategy. `build_note` is what it
/// says of the build check; a blank one leaves no trace.
pub fn base_system_prompt(build_note: &str) -> (r: String)
    ensures
        r@ == base_prompt(build_note@),
{
    proof {
        lemma_intro_text();
        lemma_act_react_text();
        lemma_verify_text();
        lemma_done_text();
        lemma_narration_text();
        lemma_skills_text();
        assert(!text::is_white(PROMPT_INTRO@[0]));
        assert(!text::is_white(PROMPT_ACT_REACT@[0]));
        assert(!text::is_white(PROMPT_VERIFY@[0]));
        assert(!text::is_white(PROMPT_DONE@[0]));
        assert(!text::is_white(PROMPT_NARRATION@[0]));
        assert(!text::is_white(PROMPT_SKILLS@[0]));
    }
    let builder: PromptBuilder = PromptBuilder::new().push(PROMPT_INTRO).push(
        PROMPT_ACT_REACT,
    ).push(PROMPT_VERIFY).push(build_note).push(PROMPT_DONE).push(PROMPT_NARRATION).push(
        PROMPT_SKILLS,
    );
    proof {
        let three = Seq::<Seq<char>>::empty().push(PROMPT_INTRO@).push(PROMPT_ACT_REACT@).push(
            PROMPT_VERIFY@,
        );
        assert(three =~= seq![PROMPT_INTRO@, PROMPT_ACT_REACT@, PROMPT_VERIFY@]);
        assert(builder.fragments.deep_view() =~= base_fragments(build_note@));
    }
    builder.build()
}

/// The plan leaf's prompt. It replaces the base prompt for that leaf, so it stands
/// alone: the tool palette and the directive to answer with a plan.
pub fn plan_leaf_prompt() -> (r: String)
    ensures
        r@ == plan_prompt(),
{
    proof {
        lemma_intro_text();
        lemma_act_plan_text();
        assert(!text::is_white(PROMPT_INTRO@[0]));
        assert(!text::is_white(PROMPT_ACT_PLAN@[0]));
    }
    let builder: PromptBuilder = PromptBuilder::new().push(PROMPT_INTRO).push(PROMPT_ACT_PLAN);
    proof {
        let parts = builder.fragments.deep_view();
        assert(parts =~= seq![PROMPT_INTRO@, PROMPT_ACT_PLAN@]);
        assert(parts.drop_last() =~= seq![PROMPT_INTRO@]);
        assert(text::joined(seq![PROMPT_INTRO@], " "@) == PROMPT_INTRO@);
    }
    builder.build()
}

/// What the base prompt says of the build check.
pub fn build_note(check_active: bool) -> (r: &'static str)
    ensures
        r@ == if check_active {
            BUILD_CHECK_NOTE@
        } else {
            ""@
        },
{
    if check_active {
        BUILD_CHECK_NOTE
    } else {
        ""
    }
}

} // verus!
