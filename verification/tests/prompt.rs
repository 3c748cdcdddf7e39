//! System prompts.

use cordyceps::prompt::{
    base_system_prompt, build_note, plan_leaf_prompt, PromptBuilder, BUILD_CHECK_NOTE,
    PROMPT_ACT_PLAN, PROMPT_ACT_REACT, PROMPT_DONE, PROMPT_INTRO, PROMPT_NARRATION, PROMPT_SKILLS,
    PROMPT_VERIFY,
};

/// The "answer with a bare JSON plan" clause lives only on the plan leaf, never in
/// the base prompt, which drives every strategy and the execute phase.
#[test]
fn plan_clause_lives_only_on_the_plan_leaf() {
    assert!(
        !base_system_prompt("").contains("PRODUCE A PLAN"),
        "base prompt must not invite a bare-JSON-plan answer"
    );
    assert!(
        plan_leaf_prompt().contains("PRODUCE A PLAN"),
        "the plan leaf needs the JSON-plan clause"
    );
    // The plan leaf stands alone: it still introduces the tool palette, but carries
    // none of the clauses that are about execution.
    let plan = plan_leaf_prompt();
    assert!(plan.contains("sandboxed workspace"), "plan leaf keeps the intro");
    assert!(
        !plan.contains("Work in small, VERIFIED steps"),
        "plan leaf should not carry the execute-phase verify discipline"
    );
}

/// The build note is spliced in only when the per-write check is on, and
/// pushing an empty note leaves no dangling separator behind.
#[test]
fn build_note_is_conditional_and_leaves_no_double_space() {
    let without = base_system_prompt("");
    let with = base_system_prompt(BUILD_CHECK_NOTE);
    assert!(!without.contains("AUTOMATICALLY compile"));
    assert!(with.contains("AUTOMATICALLY compile"));
    assert!(!without.contains("  "), "empty fragment left a double space");
}

#[test]
fn the_base_prompt_is_its_fragments_in_order() {
    let fragments = [
        PROMPT_INTRO,
        PROMPT_ACT_REACT,
        PROMPT_VERIFY,
        BUILD_CHECK_NOTE,
        PROMPT_DONE,
        PROMPT_NARRATION,
        PROMPT_SKILLS,
    ];
    assert_eq!(base_system_prompt(BUILD_CHECK_NOTE), fragments.join(" "));
    assert!(!base_system_prompt(BUILD_CHECK_NOTE).contains("  "));
    assert_eq!(base_system_prompt(" \t\n"), base_system_prompt(""));
    assert_eq!(plan_leaf_prompt(), format!("{PROMPT_INTRO} {PROMPT_ACT_PLAN}"));
}

#[test]
fn the_note_follows_the_check() {
    assert_eq!(build_note(true), BUILD_CHECK_NOTE);
    assert_eq!(build_note(false), "");
}

#[test]
fn a_clause_in_the_note_shows() {
    assert!(base_system_prompt("please PRODUCE A PLAN now").contains("PRODUCE A PLAN"));
    assert!(!base_system_prompt("PRODUCE A").contains("PRODUCE A PLAN"));
}

#[test]
fn blank_fragments_leave_no_trace() {
    let prompt = PromptBuilder::new().push("").push("a").push(" \u{a0}").push("b c").push("\n").build();
    assert_eq!(prompt, "a b c");
    assert_eq!(PromptBuilder::new().build(), "");
}
