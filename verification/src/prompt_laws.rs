//! What holds of every prompt.

use vstd::prelude::*;

use crate::prompt;
use crate::text;
use crate::text_laws;

verus! {

/// Whether a text has no two spaces in a row and no space at either end.
pub open spec fn single_spaced(s: Seq<char>) -> bool {
    &&& prompt::lacks_pair(s, ' ', ' ')
    &&& s.len() > 0 ==> s[0] != ' ' && s.last() != ' '
}

proof fn lemma_joined_lacks_pair(parts: Seq<Seq<char>>, a: char, b: char)
    requires
        forall|k: int| 0 <= k < parts.len() ==> prompt::lacks_pair(#[trigger] parts[k], a, b),
        a != ' ',
        b != ' ',
    ensures
        prompt::lacks_pair(text::joined(parts, seq![' ']), a, b),
    decreases parts.len(),
{
    if parts.len() > 1 {
        let front = parts.drop_last();
        assert forall|k: int| 0 <= k < front.len() implies prompt::lacks_pair(
            #[trigger] front[k],
            a,
            b,
        ) by {
            assert(front[k] == parts[k]);
        }
        lemma_joined_lacks_pair(front, a, b);
        let head = text::joined(front, seq![' ']);
        let last = parts.last();
        let s = head + seq![' '] + last;
        assert(prompt::lacks_pair(parts[parts.len() - 1], a, b));
        assert forall|i: int| 0 <= i < s.len() - 1 implies (#[trigger] s[i] != a || s[i + 1]
            != b) by {
            if i < head.len() - 1 {
                assert(s[i] == head[i] && s[i + 1] == head[i + 1]);
            } else if i == head.len() - 1 {
                assert(s[i + 1] == ' ');
            } else if i == head.len() {
                assert(s[i] == ' ');
            } else {
                let j = i - head.len() - 1;
                assert(s[i] == last[j] && s[i + 1] == last[j + 1]);
            }
        }
    } else if parts.len() == 1 {
        assert(prompt::lacks_pair(parts[0], a, b));
    }
}

/// Fragments that are single-spaced, and not empty, make a prompt that is: joining
/// leaves no double space and no dangling separator.
pub proof fn law_joining_leaves_no_double_space(parts: Seq<Seq<char>>)
    requires
        forall|k: int|
            0 <= k < parts.len() ==> (#[trigger] parts[k]).len() > 0 && single_spaced(parts[k]),
    ensures
        single_spaced(text::joined(parts, " "@)),
{
    reveal_strlit(" ");
    assert(" "@ =~= seq![' ']);
    lemma_joined_single_spaced(parts);
}

proof fn lemma_joined_single_spaced(parts: Seq<Seq<char>>)
    requires
        forall|k: int|
            0 <= k < parts.len() ==> (#[trigger] parts[k]).len() > 0 && single_spaced(parts[k]),
    ensures
        single_spaced(text::joined(parts, seq![' '])),
        parts.len() > 0 ==> text::joined(parts, seq![' ']).len() > 0,
    decreases parts.len(),
{
    if parts.len() > 1 {
        let front = parts.drop_last();
        assert forall|k: int| 0 <= k < front.len() implies (#[trigger] front[k]).len() > 0
            && single_spaced(front[k]) by {
            assert(front[k] == parts[k]);
        }
        lemma_joined_single_spaced(front);
        let head = text::joined(front, seq![' ']);
        let last = parts.last();
        let s = head + seq![' '] + last;
        assert(parts[parts.len() - 1].len() > 0 && single_spaced(parts[parts.len() - 1]));
        assert forall|i: int| 0 <= i < s.len() - 1 implies (#[trigger] s[i] != ' ' || s[i + 1]
            != ' ') by {
            if i < head.len() - 1 {
                assert(s[i] == head[i] && s[i + 1] == head[i + 1]);
            } else if i == head.len() - 1 {
                assert(s[i] == head.last());
            } else if i == head.len() {
                assert(s[i + 1] == last[0]);
            } else {
                let j = i - head.len() - 1;
                assert(s[i] == last[j] && s[i + 1] == last[j + 1]);
            }
        }
        assert(s[0] == head[0]);
        assert(s.last() == last.last());
    } else if parts.len() == 1 {
        assert(parts[0].len() > 0 && single_spaced(parts[0]));
    }
}

/// The base prompt is single-spaced whenever the build note is, or is blank.
pub proof fn law_base_prompt_is_single_spaced(build_note: Seq<char>)
    requires
        text::blank(build_note) || single_spaced(build_note),
    ensures
        single_spaced(prompt::base_prompt(build_note)),
{
    prompt::lemma_intro_text();
    prompt::lemma_act_react_text();
    prompt::lemma_verify_text();
    prompt::lemma_done_text();
    prompt::lemma_narration_text();
    prompt::lemma_skills_text();
    law_joining_leaves_no_double_space(prompt::base_fragments(build_note));
}

/// Whether `part` stands in `s`.
pub open spec fn contains(s: Seq<char>, part: Seq<char>) -> bool {
    exists|i: int| #[trigger] stands_at(s, i, part)
}

/// Whether `part` stands in `s` at `i`.
pub open spec fn stands_at(s: Seq<char>, i: int, part: Seq<char>) -> bool {
    0 <= i && i + part.len() <= s.len() && s.subrange(i, i + part.len()) == part
}

proof fn lemma_stands_at(s: Seq<char>, i: int, part: Seq<char>, k: int)
    requires
        stands_at(s, i, part),
        0 <= k < part.len(),
    ensures
        s[i + k] == part[k],
{
    assert(s.subrange(i, i + part.len())[k] == part[k]);
}

/// The clause that asks for a plan in place of tool calls stands in the plan
/// leaf's prompt, and in the base prompt only if the build note brings it in.
pub proof fn law_plan_clause_lives_on_the_plan_leaf(build_note: Seq<char>)
    ensures
        contains(prompt::plan_prompt(), "PRODUCE A PLAN"@),
        contains(prompt::base_prompt(build_note), "PRODUCE A PLAN"@) <==> contains(
            build_note,
            "PRODUCE A PLAN"@,
        ),
{
    let clause = "PRODUCE A PLAN"@;
    reveal_strlit("PRODUCE A PLAN");
    reveal_strlit(" ");
    assert(" "@ =~= seq![' ']);
    prompt::lemma_intro_text();
    prompt::lemma_act_plan_text();
    prompt::lemma_act_react_text();
    prompt::lemma_verify_text();
    prompt::lemma_done_text();
    prompt::lemma_narration_text();
    prompt::lemma_skills_text();

    let plan = prompt::plan_prompt();
    let skip: int = prompt::PROMPT_INTRO@.len() + 1int;
    assert(stands_at(plan, skip + 100, clause)) by {
        assert(plan.subrange(skip + 100, skip + 114)
            =~= prompt::PROMPT_ACT_PLAN@.subrange(100, 114));
    }

    let front = seq![prompt::PROMPT_INTRO@, prompt::PROMPT_ACT_REACT@, prompt::PROMPT_VERIFY@];
    let back = seq![prompt::PROMPT_DONE@, prompt::PROMPT_NARRATION@, prompt::PROMPT_SKILLS@];
    lemma_joined_lacks_pair(front, 'D', 'U');
    lemma_joined_lacks_pair(back, 'D', 'U');
    let head = text::joined(front, seq![' ']);
    let tail = text::joined(back, seq![' ']);
    let base = prompt::base_prompt(build_note);
    lemma_joined_first(back);
    if text::blank(build_note) {
        lemma_joined_lacks_pair(front + back, 'D', 'U');
        if contains(base, clause) {
            let i = choose|i: int| #[trigger] stands_at(base, i, clause);
            lemma_stands_at(base, i, clause, 3);
            lemma_stands_at(base, i, clause, 4);
        }
        if contains(build_note, clause) {
            let i = choose|i: int| #[trigger] stands_at(build_note, i, clause);
            lemma_stands_at(build_note, i, clause, 0);
        }
    } else {
        assert(prompt::base_fragments(build_note) =~= front.push(build_note) + back);
        text::law_joined_in_two(front.push(build_note), back, seq![' ']);
        assert(front.push(build_note).drop_last() =~= front);
        assert(base =~= head + seq![' '] + build_note + seq![' '] + tail);
        lemma_clause_comes_from_the_note(head, build_note, tail);
    }
}

proof fn lemma_joined_first(parts: Seq<Seq<char>>)
    requires
        parts.len() > 0,
        parts[0].len() > 0,
    ensures
        text::joined(parts, seq![' ']).len() > 0,
        text::joined(parts, seq![' '])[0] == parts[0][0],
    decreases parts.len(),
{
    if parts.len() > 1 {
        lemma_joined_first(parts.drop_last());
    }
}

proof fn lemma_clause_comes_from_the_note(head: Seq<char>, note: Seq<char>, tail: Seq<char>)
    requires
        prompt::lacks_pair(head, 'D', 'U'),
        prompt::lacks_pair(tail, 'D', 'U'),
        tail.len() > 0,
        tail[0] == 'D',
    ensures
        contains(head + seq![' '] + note + seq![' '] + tail, "PRODUCE A PLAN"@) <==> contains(
            note,
            "PRODUCE A PLAN"@,
        ),
{
    let clause = "PRODUCE A PLAN"@;
    reveal_strlit("PRODUCE A PLAN");
    let base = head + seq![' '] + note + seq![' '] + tail;
    let from: int = head.len() + 1int;
    let to: int = from + note.len();
    assert(base[head.len() as int] == ' ');
    assert(base[to] == ' ');
    assert(base[to + 1] == 'D');
    if contains(base, clause) {
        let i = choose|i: int| #[trigger] stands_at(base, i, clause);
        assert forall|k: int| 0 <= k < 14 implies base[i + k] == #[trigger] clause[k] by {
            lemma_stands_at(base, i, clause, k);
        }
        assert(base[i + 3] == clause[3]);
        assert(base[i + 4] == clause[4]);
        if i + 4 < head.len() {
            assert(base[i + 3] == head[i + 3] && base[i + 4] == head[i + 4]);
        }
        if i + 3 > to {
            let j = i + 3 - to - 1;
            assert(base[i + 3] == tail[j] && base[i + 4] == tail[j + 1]);
        }
        assert(base[i + 0] == clause[0]);
        assert(base[i + 1] == clause[1]);
        assert(base[i + 2] == clause[2]);
        assert(from <= i);
        if i + 14 > to {
            let k = to - i;
            assert(base[i + k] == clause[k]);
            assert(k == 7 || k == 9);
            assert(base[i + (k + 1)] == clause[k + 1]);
        }
        assert(note.subrange(i - from, i - from + 14) =~= base.subrange(i, i + 14));
        assert(stands_at(note, i - from, clause));
    }
    if contains(note, clause) {
        let i = choose|i: int| #[trigger] stands_at(note, i, clause);
        assert(base.subrange(from + i, from + i + 14) =~= note.subrange(i, i + 14));
        assert(stands_at(base, from + i, clause));
    }
}

/// A fragment is put behind the others as it is, unless it is blank: then nothing
/// changes.
pub proof fn law_blank_fragments_leave_no_trace(fragments: Seq<Seq<char>>, fragment: Seq<char>)
    ensures
        (exists|i: int| 0 <= i < fragment.len() && !text::is_white(#[trigger] fragment[i]))
            ==> prompt::pushed(fragments, fragment) == fragments + seq![fragment],
        (forall|i: int| 0 <= i < fragment.len() ==> text::is_white(#[trigger] fragment[i]))
            ==> prompt::pushed(fragments, fragment) == fragments,
{
    assert(fragments.push(fragment) =~= fragments + seq![fragment]);
}

/// The base prompt is its six fragments in order, a space between each two. A build
/// note stands between the third and the fourth as it is, unless it is blank.
pub proof fn law_build_note_stands_in_the_middle(build_note: Seq<char>)
    ensures
        ({
            let sp = seq![' '];
            let head = prompt::PROMPT_INTRO@ + sp + prompt::PROMPT_ACT_REACT@ + sp
                + prompt::PROMPT_VERIFY@;
            let tail = prompt::PROMPT_DONE@ + sp + prompt::PROMPT_NARRATION@ + sp
                + prompt::PROMPT_SKILLS@;
            if text::blank(build_note) {
                prompt::base_prompt(build_note) == head + sp + tail
            } else {
                prompt::base_prompt(build_note) == head + sp + build_note + sp + tail
            }
        }),
{
    reveal_strlit(" ");
    let sp = seq![' '];
    assert(" "@ =~= sp);
    let front = seq![prompt::PROMPT_INTRO@, prompt::PROMPT_ACT_REACT@, prompt::PROMPT_VERIFY@];
    let back = seq![prompt::PROMPT_DONE@, prompt::PROMPT_NARRATION@, prompt::PROMPT_SKILLS@];
    let head = prompt::PROMPT_INTRO@ + sp + prompt::PROMPT_ACT_REACT@ + sp
        + prompt::PROMPT_VERIFY@;
    let tail = prompt::PROMPT_DONE@ + sp + prompt::PROMPT_NARRATION@ + sp + prompt::PROMPT_SKILLS@;
    lemma_three_joined(front[0], front[1], front[2]);
    lemma_three_joined(back[0], back[1], back[2]);
    assert(front =~= seq![front[0], front[1], front[2]]);
    assert(back =~= seq![back[0], back[1], back[2]]);
    if text::blank(build_note) {
        text::law_joined_in_two(front, back, sp);
        assert(prompt::base_prompt(build_note) =~= head + sp + tail);
    } else {
        text_laws::law_joining_appends(front, build_note, sp);
        text::law_joined_in_two(front.push(build_note), back, sp);
        assert(prompt::base_prompt(build_note) =~= head + sp + build_note + sp + tail);
    }
}

proof fn lemma_three_joined(a: Seq<char>, b: Seq<char>, c: Seq<char>)
    ensures
        text::joined(seq![a, b, c], seq![' ']) == a + seq![' '] + b + seq![' '] + c,
{
    let sp = seq![' '];
    text_laws::law_joining_appends(Seq::empty(), a, sp);
    text_laws::law_joining_appends(seq![a], b, sp);
    text_laws::law_joining_appends(seq![a, b], c, sp);
    assert(seq![a].push(b) =~= seq![a, b]);
    assert(seq![a, b].push(c) =~= seq![a, b, c]);
}

/// The plan leaf's prompt is the opening and the plan directive, a space between
/// them.
pub proof fn law_plan_prompt_stands_alone()
    ensures
        prompt::plan_prompt() == text::joined(
            seq![prompt::PROMPT_INTRO@, prompt::PROMPT_ACT_PLAN@],
            seq![' '],
        ),
{
    reveal_strlit(" ");
    assert(" "@ =~= seq![' ']);
    text_laws::law_joining_appends(Seq::empty(), prompt::PROMPT_INTRO@, seq![' ']);
    text_laws::law_joining_appends(
        seq![prompt::PROMPT_INTRO@],
        prompt::PROMPT_ACT_PLAN@,
        seq![' '],
    );
    assert(seq![prompt::PROMPT_INTRO@].push(prompt::PROMPT_ACT_PLAN@) =~= seq![
        prompt::PROMPT_INTRO@,
        prompt::PROMPT_ACT_PLAN@,
    ]);
}

} // verus!
