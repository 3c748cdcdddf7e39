//! One turn of the conversation: when a run that failed is tried again, what an
//! aborted run leaves behind, and what becomes of the conversation.

use vstd::prelude::*;

use crate::style;
use crate::text;
use crate::trace::Message;

verus! {

/// How often a turn that died on a transient error is tried again.
pub const MAX_TRANSPORT_RETRIES: u32 = 3;

/// An error of the model's endpoint.
pub enum ModelError {
    /// The connection failed.
    Transport { message: String },
    /// The response broke off.
    StreamInterrupted { message: String },
    Timeout,
    RateLimited { retry_after: Option<u64> },
    /// The endpoint answered with an error.
    ProviderError { code: u16, message: String },
    ContextLimitExceeded { limit: u64, actual: u64 },
    BudgetExceeded { budget: u64, used: u64 },
    Other { message: String },
}

/// An error that ends a run.
pub enum AgentError {
    ModelError(ModelError),
    EmptyResponse,
    MalformedToolCall { tool_name: String, reason: String },
    Other { message: String },
}

impl ModelError {
    /// Whether the error is transient.
    pub open spec fn is_transient(self) -> bool {
        self is Transport || self is StreamInterrupted || self is Timeout || self is RateLimited
    }

    /// Whether trying again may help.
    pub fn retryable(&self) -> (r: bool)
        ensures
            r == self.is_transient(),
    {
        match self {
            ModelError::Transport { .. } => true,
            ModelError::StreamInterrupted { .. } => true,
            ModelError::Timeout => true,
            ModelError::RateLimited { .. } => true,
            _ => false,
        }
    }
}

impl AgentError {
    /// Whether the error is a transient one of the model's endpoint.
    pub open spec fn is_transient(self) -> bool {
        self matches AgentError::ModelError(e) && e.is_transient()
    }
}

/// Whether an error is a transient hiccup of the transport. Anything else would
/// fail again in the same way.
pub fn is_retryable_transport(error: &AgentError) -> (r: bool)
    ensures
        r == error.is_transient(),
{
    match error {
        AgentError::ModelError(e) => e.retryable(),
        _ => false,
    }
}

/// How long to wait behind the attempt `attempt`, in seconds: it doubles each time.
pub open spec fn backoff_secs(attempt: nat) -> nat
    decreases attempt,
{
    if attempt == 0 {
        1
    } else {
        2 * backoff_secs((attempt - 1) as nat)
    }
}

/// What follows from an attempt at a turn.
pub enum AttemptStep {
    /// Print the notice, wait, and start the turn over.
    Retry { wait_secs: u64, notice: String },
    /// Take what came of it.
    Settle,
}

/// What to print before a retry.
pub open spec fn retry_notice(attempt: nat) -> Seq<char> {
    style::MUTED@ + "   … transient model error — retrying in "@ + text::decimal(
        backoff_secs(attempt),
    ) + "s (attempt "@ + text::decimal(attempt + 1) + "/"@ + text::decimal(
        MAX_TRANSPORT_RETRIES as nat,
    ) + ")"@ + style::RESET@
}

/// Whether a turn is tried again behind the attempt `attempt`, counted from zero.
pub open spec fn retries(attempt: nat, transient: bool) -> bool {
    attempt < MAX_TRANSPORT_RETRIES && transient
}

/// What follows from the attempt `attempt`, counted from zero, and the error that
/// ended it, if one did. Success, an abort, a pause and an error that would come
/// again are all taken as they are.
pub fn after_attempt(attempt: u32, error: &Option<AgentError>) -> (r: AttemptStep)
    ensures
        ({
            let transient = error is Some && error->0.is_transient();
            match r {
                AttemptStep::Retry { wait_secs, notice } => {
                    &&& retries(attempt as nat, transient)
                    &&& wait_secs == backoff_secs(attempt as nat)
                    &&& notice@ == retry_notice(attempt as nat)
                },
                AttemptStep::Settle => !retries(attempt as nat, transient),
            }
        }),
{
    let transient: bool = match error {
        Some(e) => is_retryable_transport(e),
        None => false,
    };
    if attempt >= MAX_TRANSPORT_RETRIES || !transient {
        return AttemptStep::Settle;
    }
    let mut wait_secs: u64 = 1;
    let mut k: u32 = 0;
    while k < attempt
        invariant
            k <= attempt < MAX_TRANSPORT_RETRIES,
            wait_secs == backoff_secs(k as nat),
        decreases attempt - k,
    {
        assert(wait_secs <= 4) by {
            reveal_with_fuel(backoff_secs, 3);
        }
        wait_secs = 2 * wait_secs;
        k += 1;
    }
    let wait: String = text::decimal_of(wait_secs);
    let number: String = text::decimal_of(attempt as u64 + 1);
    let limit: String = text::decimal_of(MAX_TRANSPORT_RETRIES as u64);
    let mut notice: String = style::MUTED.to_owned();
    notice.append("   … transient model error — retrying in ");
    notice.append(wait.as_str());
    notice.append("s (attempt ");
    notice.append(number.as_str());
    notice.append("/");
    notice.append(limit.as_str());
    notice.append(")");
    notice.append(style::RESET);
    AttemptStep::Retry { wait_secs, notice }
}

/// How many attempts a turn takes from `attempt` on, where `transient` tells how
/// each of them fails.
pub open spec fn attempts_from(transient: spec_fn(nat) -> bool, attempt: nat) -> nat
    decreases MAX_TRANSPORT_RETRIES - attempt,
{
    if retries(attempt, transient(attempt)) {
        1 + attempts_from(transient, attempt + 1)
    } else {
        1
    }
}

/// How long a turn waits in all from `attempt` on, in seconds.
pub open spec fn waits_from(transient: spec_fn(nat) -> bool, attempt: nat) -> nat
    decreases MAX_TRANSPORT_RETRIES - attempt,
{
    if retries(attempt, transient(attempt)) {
        backoff_secs(attempt) + waits_from(transient, attempt + 1)
    } else {
        0
    }
}

/// However a turn fails, it is tried at most four times and waits at most seven
/// seconds in all; where the first attempt does not fail on a transient error, it
/// is the only one.
pub proof fn law_retries_are_bounded(transient: spec_fn(nat) -> bool)
    ensures
        1 <= attempts_from(transient, 0) <= MAX_TRANSPORT_RETRIES + 1,
        waits_from(transient, 0) <= 7,
        !transient(0) ==> attempts_from(transient, 0) == 1 && waits_from(transient, 0) == 0,
{
    reveal_with_fuel(attempts_from, 5);
    reveal_with_fuel(waits_from, 5);
    reveal_with_fuel(backoff_secs, 4);
}

/// The messages without the tool calls at their end, which have no result.
pub open spec fn without_dangling_calls<A>(messages: Seq<Message<A>>) -> Seq<Message<A>>
    decreases messages.len(),
{
    if messages.len() > 0 && messages.last() is ToolCall {
        without_dangling_calls(messages.drop_last())
    } else {
        messages
    }
}

/// What an aborted turn adds to the conversation: the prompt and the messages that
/// came behind it, or nothing where there are none to keep.
pub open spec fn aborted_turn<A>(prompt: String, messages: Seq<Message<A>>) -> Seq<Message<A>> {
    let kept = without_dangling_calls(messages);
    if kept.len() == 0 {
        Seq::empty()
    } else {
        seq![Message::User { text: prompt }] + kept
    }
}

/// Reconstructs an aborted turn from the messages that were seen of it.
pub fn abort_transcript<A>(prompt: String, messages: Vec<Message<A>>) -> (r: Vec<Message<A>>)
    ensures
        r@ == aborted_turn(prompt, messages@),
{
    let mut kept: Vec<Message<A>> = messages;
    let mut ends_in_call: bool = ends_in_tool_call(&kept);
    while ends_in_call
        invariant
            without_dangling_calls(kept@) == without_dangling_calls(messages@),
            ends_in_call == (kept@.len() > 0 && kept@.last() is ToolCall),
        decreases kept@.len(),
    {
        let ghost before = kept@;
        kept.pop();
        assert(kept@ =~= before.drop_last());
        ends_in_call = ends_in_tool_call(&kept);
    }
    assert(kept@ == without_dangling_calls(messages@));
    let mut turn: Vec<Message<A>> = Vec::new();
    if kept.len() > 0 {
        let ghost tail = kept@;
        turn.push(Message::User { text: prompt });
        turn.append(&mut kept);
        assert(turn@ =~= seq![Message::User { text: prompt }] + tail);
    }
    turn
}

fn ends_in_tool_call<A>(messages: &Vec<Message<A>>) -> (r: bool)
    ensures
        r == (messages@.len() > 0 && messages@.last() is ToolCall),
{
    if messages.len() == 0 {
        return false;
    }
    match &messages[messages.len() - 1] {
        Message::ToolCall { .. } => true,
        _ => false,
    }
}

/// An aborted turn never ends in a tool call. It starts with the prompt and keeps
/// the messages that were seen, in order, up to the calls at the end.
pub proof fn law_aborted_turn_ends_in_no_call<A>(prompt: String, messages: Seq<Message<A>>)
    ensures
        ({
            let turn = aborted_turn(prompt, messages);
            let kept = turn.len() - 1;
            &&& turn.len() > 0 ==> {
                &&& turn[0] == Message::<A>::User { text: prompt }
                &&& !(turn.last() is ToolCall)
                &&& 0 < kept <= messages.len()
                &&& turn.skip(1) == messages.take(kept)
                &&& forall|k: int|
                    kept <= k < messages.len() ==> (#[trigger] messages[k]) is ToolCall
            }
            &&& turn.len() == 0 ==> forall|k: int|
                0 <= k < messages.len() ==> (#[trigger] messages[k]) is ToolCall
        }),
{
    lemma_without_dangling_calls(messages);
    let kept = without_dangling_calls(messages);
    if kept.len() > 0 {
        let turn = aborted_turn(prompt, messages);
        assert(turn.skip(1) =~= kept);
        assert(turn.last() == kept.last());
    }
}

/// Whether the message `k` is a tool call whose result comes behind it.
pub open spec fn is_answered<A>(messages: Seq<Message<A>>, k: int) -> bool {
    exists|j: int| k < j < messages.len() && #[trigger] answers(messages[j], messages[k])
}

/// Whether `result` is the result of the tool call `call`.
pub open spec fn answers<A>(result: Message<A>, call: Message<A>) -> bool {
    &&& result matches Message::ToolResult { tool_use_id, .. }
    &&& call matches Message::ToolCall { id, .. }
    &&& tool_use_id@ == id@
}

/// Whether the message `k` is a tool call with nothing but tool calls behind it.
pub open spec fn is_in_flight<A>(messages: Seq<Message<A>>, k: int) -> bool {
    forall|j: int| k <= j < messages.len() ==> (#[trigger] messages[j]) is ToolCall
}

/// An aborted turn holds no tool call without its result, which would make the next
/// request malformed, as long as only the calls in flight had none when it ended.
pub proof fn law_aborted_turn_has_no_dangling_call<A>(prompt: String, messages: Seq<Message<A>>)
    requires
        forall|k: int|
            0 <= k < messages.len() && (#[trigger] messages[k]) is ToolCall ==> is_answered(
                messages,
                k,
            ) || is_in_flight(messages, k),
    ensures
        ({
            let turn = aborted_turn(prompt, messages);
            forall|k: int|
                0 <= k < turn.len() && (#[trigger] turn[k]) is ToolCall ==> is_answered(turn, k)
        }),
{
    let turn = aborted_turn(prompt, messages);
    law_aborted_turn_ends_in_no_call(prompt, messages);
    assert forall|k: int| 0 <= k < turn.len() && (#[trigger] turn[k]) is ToolCall implies is_answered(
        turn,
        k,
    ) by {
        let kept = turn.len() - 1;
        assert forall|i: int| 0 < i < turn.len() implies #[trigger] turn[i] == messages[i - 1] by {
            assert(turn.skip(1)[i - 1] == messages.take(kept)[i - 1]);
        }
        assert(turn[k] == messages[k - 1]);
        assert(!is_in_flight(messages, k - 1)) by {
            assert(turn[kept] == messages[kept - 1]);
        }
        let j = choose|j: int|
            k - 1 < j < messages.len() && #[trigger] answers(messages[j], messages[k - 1]);
        assert(j < kept);
        assert(turn[j + 1] == messages[j]);
        assert(answers(turn[j + 1], turn[k]));
    }
}

proof fn lemma_without_dangling_calls<A>(messages: Seq<Message<A>>)
    ensures
        ({
            let kept = without_dangling_calls(messages);
            &&& kept.len() <= messages.len()
            &&& kept == messages.take(kept.len() as int)
            &&& kept.len() > 0 ==> !(kept.last() is ToolCall)
            &&& forall|k: int|
                kept.len() <= k < messages.len() ==> (#[trigger] messages[k]) is ToolCall
        }),
    decreases messages.len(),
{
    if messages.len() > 0 && messages.last() is ToolCall {
        let front = messages.drop_last();
        lemma_without_dangling_calls(front);
        let kept = without_dangling_calls(front);
        assert(front.take(kept.len() as int) =~= messages.take(kept.len() as int));
        assert forall|k: int| kept.len() <= k < messages.len() implies (
        #[trigger] messages[k]) is ToolCall by {
            if k < front.len() {
                assert(front[k] == messages[k]);
            }
        }
    } else {
        assert(messages.take(messages.len() as int) =~= messages);
    }
}

/// How a turn came out. `S` is the state of the conversation behind it.
pub enum TurnOutcome<S> {
    /// The user aborted it, and its state is lost.
    Aborted,
    Success { output: String, turns: u64, state: S },
    /// It did not finish. `reason` says why.
    Failure { reason: String, state: S },
    WaitingForHuman { state: S },
    /// It waits for a consultation or an escalation.
    Paused { state: S },
}

/// What becomes of the conversation.
pub enum HistoryUpdate<S, A> {
    Keep,
    Replace { state: S },
    /// Append these messages to the conversation so far.
    Append { messages: Vec<Message<A>> },
}

/// What to tell the user.
pub enum Report {
    /// On standard output.
    Stdout { line: String },
    /// On standard error.
    Stderr { line: String },
}

/// A turn that is over.
pub struct Settled<S, A> {
    pub history: HistoryUpdate<S, A>,
    pub report: Report,
}

/// The answer of a turn that succeeded.
pub open spec fn answer_text(turns: nat, output: Seq<char>) -> Seq<char> {
    "\nanswer ("@ + text::decimal(turns) + " turn(s)): "@ + output + "\n"@
}

/// What to say of a turn that did not finish.
pub open spec fn unfinished_text(reason: Seq<char>) -> Seq<char> {
    "\nrun did not finish: "@ + reason
        + "\n  send another prompt to keep going (or `clear` to reset).\n"@
}

/// Ends a turn. One that was aborted is put together again from `messages`, so
/// that the conversation can go on from it; any other brought its own state.
pub fn settle<S, A>(
    prompt: String,
    outcome: TurnOutcome<S>,
    messages: Vec<Message<A>>,
) -> (r: Settled<S, A>)
    ensures
        match outcome {
            TurnOutcome::Aborted => {
                &&& if aborted_turn(prompt, messages@).len() == 0 {
                    r.history is Keep
                } else {
                    r.history matches HistoryUpdate::Append { messages: m } && m@ == aborted_turn(
                        prompt,
                        messages@,
                    )
                }
                &&& r.report matches Report::Stderr { line }
                &&& line@ == "\n(aborted — back to the prompt)\n"@
            },
            TurnOutcome::Success { output, turns, state } => {
                &&& r.history == HistoryUpdate::<S, A>::Replace { state }
                &&& r.report matches Report::Stdout { line }
                &&& line@ == answer_text(turns as nat, output@)
            },
            TurnOutcome::Failure { reason, state } => {
                &&& r.history == HistoryUpdate::<S, A>::Replace { state }
                &&& r.report matches Report::Stderr { line }
                &&& line@ == unfinished_text(reason@)
            },
            TurnOutcome::WaitingForHuman { state } => {
                &&& r.history == HistoryUpdate::<S, A>::Replace { state }
                &&& r.report matches Report::Stderr { line }
                &&& line@
                    == "\n⏸ run paused awaiting input — send another prompt to continue.\n"@
            },
            TurnOutcome::Paused { state } => {
                &&& r.history == HistoryUpdate::<S, A>::Replace { state }
                &&& r.report matches Report::Stderr { line }
                &&& line@
                    == "\n⏸ run paused (consult/escalate) — send another prompt to continue.\n"@
            },
        },
{
    match outcome {
        TurnOutcome::Aborted => {
            let turn: Vec<Message<A>> = abort_transcript(prompt, messages);
            let history: HistoryUpdate<S, A> = if turn.len() == 0 {
                HistoryUpdate::Keep
            } else {
                HistoryUpdate::Append { messages: turn }
            };
            Settled {
                history,
                report: Report::Stderr { line: "\n(aborted — back to the prompt)\n".to_owned() },
            }
        },
        TurnOutcome::Success { output, turns, state } => {
            let count: String = text::decimal_of(turns);
            let mut line: String = "\nanswer (".to_owned();
            line.append(count.as_str());
            line.append(" turn(s)): ");
            line.append(output.as_str());
            line.append("\n");
            Settled { history: HistoryUpdate::Replace { state }, report: Report::Stdout { line } }
        },
        TurnOutcome::Failure { reason, state } => {
            let mut line: String = "\nrun did not finish: ".to_owned();
            line.append(reason.as_str());
            line.append("\n  send another prompt to keep going (or `clear` to reset).\n");
            Settled { history: HistoryUpdate::Replace { state }, report: Report::Stderr { line } }
        },
        TurnOutcome::WaitingForHuman { state } => Settled {
            history: HistoryUpdate::Replace { state },
            report: Report::Stderr {
                line: "\n⏸ run paused awaiting input — send another prompt to continue.\n".to_owned(),
            },
        },
        TurnOutcome::Paused { state } => Settled {
            history: HistoryUpdate::Replace { state },
            report: Report::Stderr {
                line: "\n⏸ run paused (consult/escalate) — send another prompt to continue.\n".to_owned(),
            },
        },
    }
}

/// What the key watcher got from polling the terminal once.
pub enum Polled {
    /// A key was pressed.
    Key { is_escape: bool },
    /// Something else happened, or reading it failed.
    OtherEvent,
    /// Nothing happened within the tick.
    Idle,
    /// Polling failed.
    Failed,
}

/// What the key watcher does next.
#[derive(Clone, Copy, Debug, PartialEq, Eq, Structural)]
pub enum WatchStep {
    /// Abort the run.
    Abort,
    PollAgain,
    /// Wait for a tick, then poll again.
    Rest,
}

/// Only the escape key aborts a run: a failure to poll is a hiccup, and never does.
pub fn watch_step(polled: Polled) -> (r: WatchStep)
    ensures
        r == match polled {
            Polled::Key { is_escape: true } => WatchStep::Abort,
            Polled::Failed => WatchStep::Rest,
            _ => WatchStep::PollAgain,
        },
{
    match polled {
        Polled::Key { is_escape } => if is_escape {
            WatchStep::Abort
        } else {
            WatchStep::PollAgain
        },
        Polled::OtherEvent => WatchStep::PollAgain,
        Polled::Idle => WatchStep::PollAgain,
        Polled::Failed => WatchStep::Rest,
    }
}

/// Which errors are worth another try depends on their kind alone, not on what they
/// say: the transport failed, the response broke off, it took too long, or there
/// were too many requests.
pub proof fn law_only_hiccups_are_transient(error: AgentError)
    ensures
        match error {
            AgentError::ModelError(ModelError::Transport { .. }) => error.is_transient(),
            AgentError::ModelError(ModelError::StreamInterrupted { .. }) => error.is_transient(),
            AgentError::ModelError(ModelError::Timeout) => error.is_transient(),
            AgentError::ModelError(ModelError::RateLimited { .. }) => error.is_transient(),
            AgentError::ModelError(ModelError::ProviderError { .. }) => !error.is_transient(),
            AgentError::ModelError(ModelError::ContextLimitExceeded { .. }) => {
                !error.is_transient()
            },
            AgentError::ModelError(ModelError::BudgetExceeded { .. }) => !error.is_transient(),
            AgentError::ModelError(ModelError::Other { .. }) => !error.is_transient(),
            AgentError::EmptyResponse => !error.is_transient(),
            AgentError::MalformedToolCall { .. } => !error.is_transient(),
            AgentError::Other { .. } => !error.is_transient(),
        },
{
}

/// A turn is tried again exactly behind its first three attempts, where those fail
/// on a transient error. The first wait is one second, and each is twice the one
/// before.
pub proof fn law_waits_double(attempt: nat, transient: bool)
    ensures
        retries(attempt, transient) <==> transient && attempt < 3,
        backoff_secs(0) == 1,
        backoff_secs(attempt + 1) == backoff_secs(attempt) + backoff_secs(attempt),
{
}

/// The notice of a retry tells how long it waits and which retry it is of how many.
pub proof fn law_notice_counts_from_one(attempt: nat)
    requires
        attempt < 3,
    ensures
        retry_notice(attempt) == style::MUTED@ + "   … transient model error — retrying in "@
            + text::decimal(backoff_secs(attempt)) + "s (attempt "@ + text::decimal(attempt + 1)
            + "/"@ + seq!['3'] + ")"@ + style::RESET@,
{
    assert(text::decimal(3) =~= seq!['3']);
}

/// A turn's answer, and the reason why one did not finish, are shown as they are, in
/// words that do not depend on them.
pub proof fn law_reports_show_the_outcome(turns: nat, output: Seq<char>, reason: Seq<char>)
    ensures
        answer_text(turns, output) == "\nanswer ("@ + text::decimal(turns) + " turn(s)): "@ + output
            + seq!['\n'],
        ({
            let plain = unfinished_text(Seq::empty());
            unfinished_text(reason) == plain.take(21) + reason + plain.skip(21)
        }),
{
    reveal_strlit("\n");
    reveal_strlit("\nrun did not finish: ");
    let plain = unfinished_text(Seq::empty());
    assert(answer_text(turns, output) =~= "\nanswer ("@ + text::decimal(turns) + " turn(s)): "@
        + output + seq!['\n']);
    assert(unfinished_text(reason) =~= plain.take(21) + reason + plain.skip(21));
}

} // verus!
