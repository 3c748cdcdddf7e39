//! The prompt loop.

use cordyceps::repl::{
    after_activation, chomp, parse_line, plan_lines, skill_lines, ReplCommand, SkillEntry,
    SkillStep,
};

fn shape(line: &str) -> String {
    match parse_line(line) {
        ReplCommand::Skip => "skip".to_string(),
        ReplCommand::Clear => "clear".to_string(),
        ReplCommand::ListSkills => "skills".to_string(),
        ReplCommand::Activate { name, inline } => format!("activate [{name}] [{inline}]"),
        ReplCommand::Prompt { prompt } => format!("prompt [{prompt}]"),
    }
}

#[test]
fn lines_lose_their_ends() {
    assert_eq!(chomp("a b \r\n"), "a b ");
    assert_eq!(chomp("a\n\r\n\n"), "a");
    assert_eq!(chomp("\n"), "");
    assert_eq!(chomp("a\nb"), "a\nb");
}

#[test]
fn lines_are_commands_or_tasks() {
    assert_eq!(shape(""), "skip");
    assert_eq!(shape(" \t"), "skip");
    assert_eq!(shape(" Clear "), "clear");
    assert_eq!(shape("clear it"), "prompt [clear it]");
    assert_eq!(shape("  fix the bug\n"), "prompt [fix the bug]");
    assert_eq!(shape("/skills"), "skills");
    assert_eq!(shape(" /SKILLS now"), "skills");
    assert_eq!(shape("/csv"), "activate [csv] []");
    assert_eq!(shape("/csv\t  parse it  all "), "activate [csv] [parse it  all]");
    assert_eq!(shape("/"), "activate [] []");
    assert_eq!(shape("/ x"), "activate [] [x]");
    assert_eq!(shape("//a"), "activate [/a] []");
}

#[test]
fn skills_load_and_run() {
    match after_activation("csv", String::new(), true) {
        SkillStep::Loaded { message } => {
            assert_eq!(message, "✓ loaded skill 'csv' — active for this conversation.\n");
        }
        _ => panic!("loaded"),
    }
    match after_activation("csv", "go".to_string(), true) {
        SkillStep::Run { message, prompt } => {
            assert_eq!(message, "✓ loaded skill 'csv' — active for this conversation.\n");
            assert_eq!(prompt, "go");
        }
        _ => panic!("run"),
    }
    match after_activation("cvs", "go".to_string(), false) {
        SkillStep::Unknown { message } => {
            assert_eq!(message, "unknown command '/cvs'. Try /skills to list available skills.\n");
        }
        _ => panic!("unknown"),
    }
}

fn entry(name: &str, description: &str) -> SkillEntry {
    SkillEntry { name: name.to_string(), description: description.to_string() }
}

#[test]
fn the_skill_list_marks_what_is_active() {
    let entries = vec![entry("a", "first"), entry("b", "second")];
    assert_eq!(
        skill_lines(&entries, &vec!["b".to_string()]),
        vec![
            "skills:",
            "  ○ loadable  a — first",
            "  ● active    b — second",
            "\nLoad one yourself with /<name>, or just describe your task and the agent loads what it needs.\n",
        ]
    );
    assert_eq!(
        skill_lines(&vec![], &vec![]),
        vec!["no skills found. Add one at skills/<name>/SKILL.md (next to this example) or .spore/skills/<name>/SKILL.md in your workspace, then restart.\n"]
    );
}

#[test]
fn plans_are_counted_from_one() {
    assert_eq!(
        plan_lines(&vec!["read".to_string(), "write".to_string()]),
        vec![
            "\x1b[1;97m📋 plan (2 task(s)):\x1b[0m\r\n",
            "\x1b[90m   1. read\x1b[0m\r\n",
            "\x1b[90m   2. write\x1b[0m\r\n",
        ]
    );
    assert_eq!(plan_lines(&vec![]), vec!["\x1b[1;97m📋 plan (0 task(s)):\x1b[0m\r\n"]);
}
