//! The live trace.

use cordyceps::trace::{truncate, Message, StreamEvent, Trace};

fn s(text: &str) -> String {
    text.to_string()
}

#[test]
fn observations_are_short_lines() {
    assert_eq!(truncate("abc", 3), "abc");
    assert_eq!(truncate("abcd", 3), "abc…");
    assert_eq!(truncate("a\nb\r\n", 10), "a b\r ");
    assert_eq!(truncate("日本語", 2), "日本…");
    assert_eq!(truncate("x", 0), "…");
    assert_eq!(truncate("", 0), "");
}

#[test]
fn reasoning_streams_on_one_line_until_something_else_prints() {
    let mut trace: Trace<u8> = Trace::new();
    let first = trace.on_event(StreamEvent::ReasoningDelta { content: s("a\nb") });
    assert_eq!(first, "\x1b[90m   reason · a\r\n            b");
    let second = trace.on_event(StreamEvent::ReasoningDelta { content: s("c") });
    assert_eq!(second, "c");
    assert_eq!(trace.on_event(StreamEvent::Other), "");
    assert!(trace.reason_open);
    let turn = trace.on_event(StreamEvent::TurnStart { turn: 3 });
    assert_eq!(turn, "\x1b[0m\r\n\x1b[90m   think · turn 3\x1b[0m\r\n");
    assert!(!trace.reason_open);
    let turn = trace.on_event(StreamEvent::TurnStart { turn: 4 });
    assert_eq!(turn, "\x1b[90m   think · turn 4\x1b[0m\r\n");
}

#[test]
fn flushing_is_safe_to_repeat() {
    let mut trace: Trace<u8> = Trace::new();
    assert_eq!(trace.flush_reason(), "");
    trace.on_event(StreamEvent::ReasoningDelta { content: s("hm") });
    assert_eq!(trace.flush_reason(), "\x1b[0m\r\n");
    assert_eq!(trace.flush_reason(), "");
    trace.on_event(StreamEvent::ReasoningDelta { content: s("hm") });
    assert_eq!(trace.on_event(StreamEvent::FinalResponse), "\x1b[0m\r\n");
    assert_eq!(trace.on_event(StreamEvent::FinalResponse), "");
}

#[test]
fn narration_is_the_header() {
    let mut trace: Trace<u8> = Trace::new();
    let text = trace.on_event(StreamEvent::UserMessage { content: s("Reading.") });
    assert_eq!(text, "\x1b[1;97m💬 Reading.\x1b[0m\r\n");
    assert!(trace.messages.is_empty());
}

#[test]
fn calls_and_results_are_shown_and_kept() {
    let mut trace: Trace<u8> = Trace::new();
    let act = trace.on_event(StreamEvent::ToolCall {
        call_id: s("c1"),
        name: s("bash"),
        args: 9,
        shown: s("{}"),
    });
    assert_eq!(act, "\x1b[90m   act → bash({})\x1b[0m\r\n");
    let long = "x\n".repeat(150);
    let obs = trace.on_event(StreamEvent::ToolResult {
        call_id: s("c1"),
        is_error: false,
        content: long.clone(),
    });
    assert_eq!(obs, format!("\x1b[90m   obs → {}…\x1b[0m\r\n", "x ".repeat(100)));
    let err = trace.on_event(StreamEvent::ToolResult {
        call_id: s("c2"),
        is_error: true,
        content: s("no"),
    });
    assert_eq!(err, "\x1b[31m   obs(err) → no\x1b[0m\r\n");
    let kept = trace.take_messages();
    assert_eq!(kept.len(), 3);
    assert!(matches!(&kept[0], Message::ToolCall { id, name, input: 9 } if id == "c1" && name == "bash"));
    assert!(matches!(&kept[1], Message::ToolResult { tool_use_id, content, is_error: false }
        if tool_use_id == "c1" && content == &long));
    assert!(matches!(&kept[2], Message::ToolResult { tool_use_id, content, is_error: true }
        if tool_use_id == "c2" && content == "no"));
    assert!(trace.messages.is_empty());
}

#[test]
fn an_attempt_starts_without_messages() {
    let mut trace: Trace<u8> = Trace::new();
    trace.on_event(StreamEvent::ToolResult { call_id: s("c"), is_error: false, content: s("") });
    trace.on_event(StreamEvent::ReasoningDelta { content: s("hm") });
    trace.clear_messages();
    assert!(trace.messages.is_empty());
    assert!(trace.reason_open);
}
