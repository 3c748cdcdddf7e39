//! The live trace of a run: what each stream event prints, and the messages of
//! the turn as they come by, kept for the case that the run is aborted and its own
//! state is lost.
//!
//! The run has the terminal in raw mode, so lines end in CRLF. Reasoning streams
//! in fragments on one open line; anything else that prints closes it first.

use vstd::prelude::*;

use crate::style;
use crate::text;
use crate::text_laws;

verus! {

/// How many characters of a tool result the trace shows.
pub const OBSERVATION_CHARS: usize = 200;

/// An event of the run. `A` is what the arguments of a tool call are made of.
pub enum StreamEvent<A> {
    /// The agent's narration.
    UserMessage { content: String },
    TurnStart { turn: u64 },
    /// A fragment of the model's reasoning.
    ReasoningDelta { content: String },
    /// `shown` is how the arguments print.
    ToolCall { call_id: String, name: String, args: A, shown: String },
    ToolResult { call_id: String, is_error: bool, content: String },
    FinalResponse,
    /// An event that the trace does not show.
    Other,
}

/// A message of a conversation.
pub enum Message<A> {
    User { text: String },
    ToolCall { id: String, name: String, input: A },
    ToolResult { tool_use_id: String, content: String, is_error: bool },
}

/// `s` on one line, cut behind `max` characters.
pub open spec fn shortened(s: Seq<char>, max: nat) -> Seq<char> {
    let line = text::replaced(s, '\n', " "@);
    if line.len() <= max {
        line
    } else {
        line.take(max as int) + "…"@
    }
}

/// Keeps observations readable: one line, at most `max` characters of it.
pub fn truncate(s: &str, max: usize) -> (r: String)
    ensures
        r@ == shortened(s@, max as nat),
{
    let line: String = text::replace(s, '\n', " ");
    let chars: Vec<char> = text::chars_of(line.as_str());
    if chars.len() <= max {
        return line;
    }
    let mut cut: String = text::string_of(&chars, 0, max);
    assert(cut@ =~= line@.take(max as int));
    cut.append("…");
    cut
}

/// What closes the reasoning line, if it is open.
pub open spec fn flush_text(open: bool) -> Seq<char> {
    if open {
        style::RESET@ + "\r\n"@
    } else {
        Seq::empty()
    }
}

/// A fragment of reasoning as it prints: its further lines are indented below the
/// first.
pub open spec fn fragment_text(content: Seq<char>) -> Seq<char> {
    text::replaced(content, '\n', "\r\n            "@)
}

/// What an event prints, `open` telling whether the reasoning line is open.
pub open spec fn event_text<A>(open: bool, event: StreamEvent<A>) -> Seq<char> {
    match event {
        StreamEvent::UserMessage { content } => flush_text(open) + style::HEADER@ + "💬 "@
            + content@ + style::RESET@ + "\r\n"@,
        StreamEvent::TurnStart { turn } => flush_text(open) + style::MUTED@ + "   think · turn "@
            + text::decimal(turn as nat) + style::RESET@ + "\r\n"@,
        StreamEvent::ReasoningDelta { content } => (if open {
            Seq::empty()
        } else {
            style::MUTED@ + "   reason · "@
        }) + fragment_text(content@),
        StreamEvent::ToolCall { call_id, name, args, shown } => flush_text(open) + style::MUTED@
            + "   act → "@ + name@ + "("@ + shown@ + ")"@ + style::RESET@ + "\r\n"@,
        StreamEvent::ToolResult { call_id, is_error, content } => flush_text(open) + (if is_error {
            style::ERR@
        } else {
            style::MUTED@
        }) + "   "@ + (if is_error {
            "obs(err)"@
        } else {
            "obs"@
        }) + " → "@ + shortened(content@, OBSERVATION_CHARS as nat) + style::RESET@ + "\r\n"@,
        StreamEvent::FinalResponse => flush_text(open),
        StreamEvent::Other => Seq::empty(),
    }
}

/// Whether the reasoning line is open behind an event.
pub open spec fn open_after<A>(open: bool, event: StreamEvent<A>) -> bool {
    match event {
        StreamEvent::ReasoningDelta { .. } => true,
        StreamEvent::Other => open,
        _ => false,
    }
}

/// The messages behind an event: tool calls and their results are kept, in order.
pub open spec fn messages_after<A>(messages: Seq<Message<A>>, event: StreamEvent<A>) -> Seq<
    Message<A>,
> {
    match event {
        StreamEvent::ToolCall { call_id, name, args, shown } => messages.push(
            Message::ToolCall { id: call_id, name, input: args },
        ),
        StreamEvent::ToolResult { call_id, is_error, content } => messages.push(
            Message::ToolResult { tool_use_id: call_id, content, is_error },
        ),
        _ => messages,
    }
}

/// The trace of a turn.
pub struct Trace<A> {
    pub reason_open: bool,
    pub messages: Vec<Message<A>>,
}

impl<A> Trace<A> {
    pub fn new() -> (r: Trace<A>)
        ensures
            !r.reason_open,
            r.messages@ == Seq::<Message<A>>::empty(),
    {
        Trace { reason_open: false, messages: Vec::new() }
    }

    /// Closes the reasoning line if it is open; what comes back is to be printed.
    pub fn flush_reason(&mut self) -> (r: String)
        ensures
            r@ == flush_text(old(self).reason_open),
            !final(self).reason_open,
            final(self).messages == old(self).messages,
    {
        let mut r: String = String::new();
        if self.reason_open {
            r.append(style::RESET);
            r.append("\r\n");
            assert(r@ =~= style::RESET@ + "\r\n"@);
        }
        self.reason_open = false;
        r
    }

    /// Starts over, so that nothing of an attempt that failed stays behind.
    pub fn clear_messages(&mut self)
        ensures
            final(self).messages@ == Seq::<Message<A>>::empty(),
            final(self).reason_open == old(self).reason_open,
    {
        self.messages = Vec::new();
    }

    /// Hands out the messages of the turn and keeps none.
    pub fn take_messages(&mut self) -> (r: Vec<Message<A>>)
        ensures
            r@ == old(self).messages@,
            final(self).messages@ == Seq::<Message<A>>::empty(),
            final(self).reason_open == old(self).reason_open,
    {
        let mut r: Vec<Message<A>> = Vec::new();
        std::mem::swap(&mut r, &mut self.messages);
        r
    }

    /// Takes an event in; what comes back is to be printed.
    pub fn on_event(&mut self, event: StreamEvent<A>) -> (r: String)
        ensures
            r@ == event_text(old(self).reason_open, event),
            final(self).reason_open == open_after(old(self).reason_open, event),
            final(self).messages@ == messages_after(old(self).messages@, event),
    {
        match event {
            StreamEvent::UserMessage { content } => {
                let mut r: String = self.flush_reason();
                r.append(style::HEADER);
                r.append("💬 ");
                r.append(content.as_str());
                r.append(style::RESET);
                r.append("\r\n");
                r
            },
            StreamEvent::TurnStart { turn } => {
                let number: String = text::decimal_of(turn);
                let mut r: String = self.flush_reason();
                r.append(style::MUTED);
                r.append("   think · turn ");
                r.append(number.as_str());
                r.append(style::RESET);
                r.append("\r\n");
                r
            },
            StreamEvent::ReasoningDelta { content } => {
                let fragment: String = text::replace(content.as_str(), '\n', "\r\n            ");
                let mut r: String = String::new();
                if !self.reason_open {
                    r.append(style::MUTED);
                    r.append("   reason · ");
                    assert(r@ =~= style::MUTED@ + "   reason · "@);
                }
                r.append(fragment.as_str());
                self.reason_open = true;
                r
            },
            StreamEvent::ToolCall { call_id, name, args, shown } => {
                let mut r: String = self.flush_reason();
                r.append(style::MUTED);
                r.append("   act → ");
                r.append(name.as_str());
                r.append("(");
                r.append(shown.as_str());
                r.append(")");
                r.append(style::RESET);
                r.append("\r\n");
                self.messages.push(Message::ToolCall { id: call_id, name, input: args });
                r
            },
            StreamEvent::ToolResult { call_id, is_error, content } => {
                let line: String = truncate(content.as_str(), OBSERVATION_CHARS);
                let color: &str = if is_error {
                    style::ERR
                } else {
                    style::MUTED
                };
                let tag: &str = if is_error {
                    "obs(err)"
                } else {
                    "obs"
                };
                let mut r: String = self.flush_reason();
                r.append(color);
                r.append("   ");
                r.append(tag);
                r.append(" → ");
                r.append(line.as_str());
                r.append(style::RESET);
                r.append("\r\n");
                self.messages.push(
                    Message::ToolResult { tool_use_id: call_id, content, is_error },
                );
                r
            },
            StreamEvent::FinalResponse => self.flush_reason(),
            StreamEvent::Other => String::new(),
        }
    }
}

/// The reasoning line behind a run of events that starts with it closed.
pub open spec fn open_after_all<A>(events: Seq<StreamEvent<A>>) -> bool
    decreases events.len(),
{
    if events.len() == 0 {
        false
    } else {
        open_after(open_after_all(events.drop_last()), events.last())
    }
}

/// The reasoning line is open exactly as long as nothing but unseen events has
/// come since a fragment.
pub proof fn law_only_a_fragment_leaves_the_line_open<A>(events: Seq<StreamEvent<A>>)
    ensures
        open_after_all(events) <==> exists|k: int|
            0 <= k < events.len() && (#[trigger] events[k]) is ReasoningDelta && forall|j: int|
                k < j < events.len() ==> (#[trigger] events[j]) is Other,
    decreases events.len(),
{
    if events.len() > 0 {
        let front = events.drop_last();
        law_only_a_fragment_leaves_the_line_open(front);
        if events.last() is ReasoningDelta {
            assert(events[events.len() - 1] is ReasoningDelta);
        } else if events.last() is Other {
            if open_after_all(front) {
                let k = choose|k: int|
                    0 <= k < front.len() && (#[trigger] front[k]) is ReasoningDelta && forall|
                        j: int,
                    |
                        k < j < front.len() ==> (#[trigger] front[j]) is Other;
                assert(events[k] is ReasoningDelta);
                assert forall|j: int| k < j < events.len() implies (
                #[trigger] events[j]) is Other by {
                    if j < front.len() {
                        assert(front[j] == events[j]);
                    }
                }
            }
            if exists|k: int|
                0 <= k < events.len() && (#[trigger] events[k]) is ReasoningDelta && forall|j: int|
                    k < j < events.len() ==> (#[trigger] events[j]) is Other {
                let k = choose|k: int|
                    0 <= k < events.len() && (#[trigger] events[k]) is ReasoningDelta && forall|
                        j: int,
                    |
                        k < j < events.len() ==> (#[trigger] events[j]) is Other;
                assert(front[k] is ReasoningDelta);
                assert forall|j: int| k < j < front.len() implies (
                #[trigger] front[j]) is Other by {
                    assert(front[j] == events[j]);
                }
            }
        } else {
            assert forall|k: int|
                0 <= k < events.len() && (#[trigger] events[k]) is ReasoningDelta implies !(forall|
                j: int,
            |
                k < j < events.len() ==> (#[trigger] events[j]) is Other) by {
                assert(!(events[events.len() - 1] is Other));
            }
        }
    }
}

/// What a closed line and an open one print differs in the flush alone: a line of
/// the trace never runs into the reasoning before it.
pub proof fn law_open_line_is_closed_first<A>(event: StreamEvent<A>)
    requires
        !(event is ReasoningDelta),
        !(event is Other),
    ensures
        event_text(true, event) == style::RESET@ + "\r\n"@ + event_text(false, event),
        !open_after(true, event),
{
    assert(event_text(true, event) =~= style::RESET@ + "\r\n"@ + event_text(false, event));
}

/// A fragment never moves down a line without moving back to its start: in what it
/// prints, a carriage return stands before each line feed.
pub proof fn law_fragments_do_not_stair_step(content: Seq<char>)
    ensures
        forall|i: int|
            0 <= i < fragment_text(content).len() && (#[trigger] fragment_text(content)[i]) == '\n'
                ==> i > 0 && fragment_text(content)[i - 1] == '\r',
    decreases content.len(),
{
    if content.len() > 0 {
        let front = content.drop_last();
        law_fragments_do_not_stair_step(front);
        reveal_strlit("\r\n            ");
        let before = fragment_text(front);
        let now = fragment_text(content);
        assert forall|i: int| 0 <= i < now.len() && (#[trigger] now[i]) == '\n' implies i > 0
            && now[i - 1] == '\r' by {
            if i < before.len() {
                assert(before[i] == now[i]);
                assert(now[i - 1] == before[i - 1]);
            } else if content.last() == '\n' {
                let part = "\r\n            "@;
                assert(now[i] == part[i - before.len()]);
                assert(i - before.len() == 1);
                assert(now[i - 1] == part[0]);
            }
        }
    }
}

/// An observation is one line, and at most one character longer than the limit.
pub proof fn law_observations_are_short_lines(s: Seq<char>, max: nat)
    ensures
        shortened(s, max).len() <= max + 1,
        forall|i: int|
            0 <= i < shortened(s, max).len() ==> (#[trigger] shortened(s, max)[i]) != '\n',
        s.len() <= max && (forall|i: int| 0 <= i < s.len() ==> (#[trigger] s[i]) != '\n')
            ==> shortened(s, max) == s,
{
    reveal_strlit(" ");
    reveal_strlit("…");
    assert(" "@ =~= seq![' ']);
    text::law_replacing_by_one(s, '\n', ' ');
    let line = text::replaced(s, '\n', " "@);
    assert forall|i: int| 0 <= i < line.len() implies (#[trigger] line[i]) != '\n' by {}
    let cut = shortened(s, max);
    assert forall|i: int| 0 <= i < cut.len() implies (#[trigger] cut[i]) != '\n' by {
        if i < line.len() && i < max {
            assert(cut[i] == line[i]);
        }
    }
    if forall|i: int| 0 <= i < s.len() ==> (#[trigger] s[i]) != '\n' {
        text::law_replacing_absent(s, '\n', " "@);
    }
}

/// An observation shows the text character by character, a space for each line
/// feed; where it is too long, the first characters of it and an ellipsis.
pub proof fn law_observations_show_the_text(s: Seq<char>, max: nat)
    ensures
        ({
            let shown = shortened(s, max);
            &&& s.len() <= max ==> shown.len() == s.len()
            &&& s.len() > max ==> shown.len() == max + 1 && shown[max as int] == '…'
            &&& forall|i: int|
                0 <= i < s.len() && i < max ==> (#[trigger] shown[i]) == if s[i] == '\n' {
                    ' '
                } else {
                    s[i]
                }
        }),
{
    reveal_strlit(" ");
    reveal_strlit("…");
    assert(" "@ =~= seq![' ']);
    text::law_replacing_by_one(s, '\n', ' ');
}

/// Reasoning prints the same however the model cuts it into fragments: nothing is
/// changed but that each line feed also goes back and indents the next line.
pub proof fn law_fragments_print_piece_by_piece(a: Seq<char>, b: Seq<char>)
    ensures
        fragment_text(a + b) == fragment_text(a) + fragment_text(b),
        fragment_text(seq!['\n']) == "\r\n            "@,
        (forall|i: int| 0 <= i < a.len() ==> (#[trigger] a[i]) != '\n') ==> fragment_text(a) == a,
{
    let to = "\r\n            "@;
    text_laws::law_replacing_goes_part_by_part(a, b, '\n', to);
    if forall|i: int| 0 <= i < a.len() ==> (#[trigger] a[i]) != '\n' {
        text::law_replacing_absent(a, '\n', to);
    }
}

/// Two fragments behind each other print what one fragment of both would.
pub proof fn law_fragments_run_together<A>(
    open: bool,
    first: StreamEvent<A>,
    second: StreamEvent<A>,
    both: StreamEvent<A>,
)
    requires
        first is ReasoningDelta,
        second is ReasoningDelta,
        both is ReasoningDelta,
        both->ReasoningDelta_content@ == first->ReasoningDelta_content@
            + second->ReasoningDelta_content@,
    ensures
        event_text(open, first) + event_text(open_after(open, first), second) == event_text(
            open,
            both,
        ),
        event_text(true, first) == fragment_text(first->ReasoningDelta_content@),
        event_text(false, first) == style::MUTED@ + "   reason · "@ + fragment_text(
            first->ReasoningDelta_content@,
        ),
{
    law_fragments_print_piece_by_piece(
        first->ReasoningDelta_content@,
        second->ReasoningDelta_content@,
    );
    assert(event_text(open, first) + event_text(open_after(open, first), second) =~= event_text(
        open,
        both,
    ));
    assert(event_text(true, first) =~= fragment_text(first->ReasoningDelta_content@));
}

/// What an event shows on a line of its own: narration as it is, the number of a
/// turn, a call with its name and arguments as they are, and an observation marked
/// as an error exactly where it is one. The other events show nothing.
pub proof fn law_events_show_what_they_carry<A>(event: StreamEvent<A>)
    ensures
        ({
            let line = event_text(false, event);
            let end = style::RESET@ + seq!['\r', '\n'];
            match event {
                StreamEvent::UserMessage { content } => line == style::HEADER@ + "💬 "@ + content@
                    + end,
                StreamEvent::TurnStart { turn } => line == style::MUTED@ + "   think · turn "@
                    + text::decimal(turn as nat) + end,
                StreamEvent::ToolCall { name, shown, .. } => line == style::MUTED@ + "   act → "@
                    + name@ + seq!['('] + shown@ + seq![')'] + end,
                StreamEvent::ToolResult { is_error: true, content, .. } => line == style::ERR@
                    + "   obs(err) → "@ + shortened(content@, 200) + end,
                StreamEvent::ToolResult { is_error: false, content, .. } => line == style::MUTED@
                    + "   obs → "@ + shortened(content@, 200) + end,
                StreamEvent::FinalResponse => line.len() == 0,
                StreamEvent::Other => line.len() == 0 && event_text(true, event).len() == 0,
                StreamEvent::ReasoningDelta { .. } => true,
            }
        }),
{
    reveal_strlit("\r\n");
    reveal_strlit("(");
    reveal_strlit(")");
    reveal_strlit("   obs(err) → ");
    reveal_strlit("   obs → ");
    reveal_strlit("   ");
    reveal_strlit("obs(err)");
    reveal_strlit("obs");
    reveal_strlit(" → ");
    let line = event_text(false, event);
    let end = style::RESET@ + seq!['\r', '\n'];
    match event {
        StreamEvent::UserMessage { content } => {
            assert(line =~= style::HEADER@ + "💬 "@ + content@ + end);
        },
        StreamEvent::TurnStart { turn } => {
            assert(line =~= style::MUTED@ + "   think · turn "@ + text::decimal(turn as nat) + end);
        },
        StreamEvent::ToolCall { name, shown, .. } => {
            assert(line =~= style::MUTED@ + "   act → "@ + name@ + seq!['('] + shown@ + seq![')']
                + end);
        },
        StreamEvent::ToolResult { is_error, content, .. } => {
            if is_error {
                assert(line =~= style::ERR@ + "   obs(err) → "@ + shortened(content@, 200) + end);
            } else {
                assert(line =~= style::MUTED@ + "   obs → "@ + shortened(content@, 200) + end);
            }
        },
        _ => {},
    }
}

/// The mirror of a turn holds each call and each result that came by, whole and in
/// order, and nothing else.
pub proof fn law_mirror_keeps_calls_and_results<A>(
    messages: Seq<Message<A>>,
    event: StreamEvent<A>,
)
    ensures
        ({
            let after = messages_after(messages, event);
            &&& messages.is_prefix_of(after)
            &&& match event {
                StreamEvent::ToolCall { call_id, name, args, .. } => {
                    &&& after.len() == messages.len() + 1
                    &&& after.last() matches Message::ToolCall { id, name: n, input }
                    &&& id == call_id && n == name && input == args
                },
                StreamEvent::ToolResult { call_id, is_error, content } => {
                    &&& after.len() == messages.len() + 1
                    &&& after.last() matches Message::ToolResult {
                        tool_use_id,
                        content: c,
                        is_error: e,
                    }
                    &&& tool_use_id == call_id && c == content && e == is_error
                },
                _ => after.len() == messages.len(),
            }
        }),
{
    let after = messages_after(messages, event);
    assert(messages =~= after.subrange(0, messages.len() as int));
}

} // verus!
