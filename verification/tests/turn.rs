//! Retries, aborted turns, and how a turn ends.

use cordyceps::trace::Message;
use cordyceps::turn::{
    abort_transcript, after_attempt, is_retryable_transport, settle, watch_step, AgentError,
    AttemptStep, HistoryUpdate, ModelError, Polled, Report, TurnOutcome, WatchStep,
};

fn provider(code: u16, message: &str) -> AgentError {
    AgentError::ModelError(ModelError::ProviderError {
        code,
        message: message.into(),
    })
}

#[test]
fn retries_the_mid_stream_decode_drop() {
    // A transient mid-stream interruption while draining the response body.
    assert!(is_retryable_transport(&AgentError::ModelError(
        ModelError::StreamInterrupted {
            message: "stream chunk error: error decoding response body".into(),
        }
    )));
}

#[test]
fn retries_transient_classes() {
    assert!(is_retryable_transport(&AgentError::ModelError(
        ModelError::Transport {
            message: "connection reset by peer".into(),
        }
    )));
    assert!(is_retryable_transport(&AgentError::ModelError(
        ModelError::StreamInterrupted {
            message: "stream chunk error".into(),
        }
    )));
    assert!(is_retryable_transport(&AgentError::ModelError(
        ModelError::Timeout
    )));
    assert!(is_retryable_transport(&AgentError::ModelError(
        ModelError::RateLimited { retry_after: None }
    )));
}

#[test]
fn does_not_retry_deterministic_failures() {
    assert!(!is_retryable_transport(&provider(
        0,
        "Model gemma4:26b does not support tool calling"
    )));
    assert!(!is_retryable_transport(&provider(404, "Model not found")));
    assert!(!is_retryable_transport(&provider(400, "bad request")));
    assert!(!is_retryable_transport(&provider(500, "server error")));
    assert!(!is_retryable_transport(&AgentError::ModelError(
        ModelError::ContextLimitExceeded {
            limit: 8192,
            actual: 9000,
        }
    )));
    assert!(!is_retryable_transport(&AgentError::ModelError(
        ModelError::BudgetExceeded {
            budget: 1000,
            used: 1200,
        }
    )));
    assert!(!is_retryable_transport(&AgentError::EmptyResponse));
    assert!(!is_retryable_transport(&AgentError::MalformedToolCall {
        tool_name: "bash".into(),
        reason: "no json".into(),
    }));
}

fn transient() -> Option<AgentError> {
    Some(AgentError::ModelError(ModelError::Timeout))
}

#[test]
fn retries_back_off_and_stop() {
    let mut waits = vec![];
    let mut attempt = 0;
    while let AttemptStep::Retry { wait_secs, notice } = after_attempt(attempt, &transient()) {
        assert_eq!(
            notice,
            format!(
                "\x1b[90m   … transient model error — retrying in {wait_secs}s (attempt {}/3)\x1b[0m",
                attempt + 1
            )
        );
        waits.push(wait_secs);
        attempt += 1;
    }
    assert_eq!(waits, vec![1, 2, 4]);
    assert_eq!(attempt, 3);
    assert!(matches!(after_attempt(u32::MAX, &transient()), AttemptStep::Settle));
}

#[test]
fn nothing_else_is_retried() {
    for attempt in 0..4 {
        assert!(matches!(after_attempt(attempt, &None), AttemptStep::Settle));
        let error = Some(provider(500, "server error"));
        assert!(matches!(after_attempt(attempt, &error), AttemptStep::Settle));
    }
}

fn call(id: &str) -> Message<u32> {
    Message::ToolCall { id: id.to_string(), name: "bash".to_string(), input: 1 }
}

fn result(id: &str) -> Message<u32> {
    Message::ToolResult {
        tool_use_id: id.to_string(),
        content: "ok".to_string(),
        is_error: false,
    }
}

fn shape(messages: &[Message<u32>]) -> Vec<String> {
    messages
        .iter()
        .map(|m| match m {
            Message::User { text } => format!("user {text}"),
            Message::ToolCall { id, .. } => format!("call {id}"),
            Message::ToolResult { tool_use_id, .. } => format!("result {tool_use_id}"),
        })
        .collect()
}

#[test]
fn an_aborted_turn_has_no_dangling_call() {
    let seen = vec![call("a"), result("a"), call("b"), call("c")];
    let turn = abort_transcript("go".to_string(), seen);
    assert_eq!(shape(&turn), vec!["user go", "call a", "result a"]);
    let twice = abort_transcript(
        "go".to_string(),
        vec![call("a"), result("a"), call("b"), result("b")],
    );
    assert_eq!(shape(&twice), vec!["user go", "call a", "result a", "call b", "result b"]);
    assert!(abort_transcript("go".to_string(), vec![call("a")]).is_empty());
    assert!(abort_transcript::<u32>("go".to_string(), vec![]).is_empty());
}

fn outcome(o: TurnOutcome<u8>) -> (Option<u8>, Vec<String>, Report) {
    let s = settle("go".to_string(), o, vec![call("a"), result("a"), call("b")]);
    let (state, added) = match s.history {
        HistoryUpdate::Keep => (None, vec![]),
        HistoryUpdate::Replace { state } => (Some(state), vec![]),
        HistoryUpdate::Append { messages } => (None, shape(&messages)),
    };
    (state, added, s.report)
}

#[test]
fn an_abort_appends_what_was_seen() {
    let (state, added, report) = outcome(TurnOutcome::Aborted);
    assert_eq!(state, None);
    assert_eq!(added, vec!["user go", "call a", "result a"]);
    assert!(matches!(report, Report::Stderr { line } if line == "\n(aborted — back to the prompt)\n"));
    let nothing = settle::<u8, u32>("go".to_string(), TurnOutcome::Aborted, vec![call("a")]);
    assert!(matches!(nothing.history, HistoryUpdate::Keep));
}

#[test]
fn a_finished_run_brings_its_own_state() {
    let (state, _, report) = outcome(TurnOutcome::Success {
        output: "done".to_string(),
        turns: 12,
        state: 7,
    });
    assert_eq!(state, Some(7));
    assert!(matches!(report, Report::Stdout { line } if line == "\nanswer (12 turn(s)): done\n"));

    let (state, _, report) = outcome(TurnOutcome::Failure {
        reason: "Budget".to_string(),
        state: 8,
    });
    assert_eq!(state, Some(8));
    assert!(matches!(report, Report::Stderr { line }
        if line == "\nrun did not finish: Budget\n  send another prompt to keep going (or `clear` to reset).\n"));

    let (state, _, report) = outcome(TurnOutcome::WaitingForHuman { state: 9 });
    assert_eq!(state, Some(9));
    assert!(matches!(report, Report::Stderr { line }
        if line == "\n⏸ run paused awaiting input — send another prompt to continue.\n"));

    let (state, _, report) = outcome(TurnOutcome::Paused { state: 10 });
    assert_eq!(state, Some(10));
    assert!(matches!(report, Report::Stderr { line }
        if line == "\n⏸ run paused (consult/escalate) — send another prompt to continue.\n"));
}

#[test]
fn only_escape_aborts() {
    assert_eq!(watch_step(Polled::Key { is_escape: true }), WatchStep::Abort);
    assert_eq!(watch_step(Polled::Key { is_escape: false }), WatchStep::PollAgain);
    assert_eq!(watch_step(Polled::OtherEvent), WatchStep::PollAgain);
    assert_eq!(watch_step(Polled::Idle), WatchStep::PollAgain);
    assert_eq!(watch_step(Polled::Failed), WatchStep::Rest);
}
