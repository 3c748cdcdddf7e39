//! The prompt loop: what a typed line asks for, and what is listed on request.

use vstd::prelude::*;

use crate::style;
use crate::text;
use crate::text_laws;

verus! {

/// `s` without the line feeds and carriage returns it ends with.
pub open spec fn chomped(s: Seq<char>) -> Seq<char>
    decreases s.len(),
{
    if s.len() > 0 && (s.last() == '\n' || s.last() == '\r') {
        chomped(s.drop_last())
    } else {
        s
    }
}

/// A line as it was read, without its line end.
pub fn chomp(line: &str) -> (r: String)
    ensures
        r@ == chomped(line@),
{
    let chars: Vec<char> = text::chars_of(line);
    let mut end: usize = chars.len();
    assert(line@.subrange(0, end as int) =~= line@);
    while end > 0 && (chars[end - 1] == '\n' || chars[end - 1] == '\r')
        invariant
            end <= chars@.len(),
            chars@ == line@,
            chomped(line@) == chomped(line@.subrange(0, end as int)),
        decreases end,
    {
        assert(line@.subrange(0, end as int).drop_last() =~= line@.subrange(0, end - 1));
        end -= 1;
    }
    text::string_of(&chars, 0, end)
}

/// What a typed line asks for.
pub enum ReplCommand {
    /// Nothing.
    Skip,
    /// Forget the conversation and the active skills.
    Clear,
    ListSkills,
    /// Load the skill `name`, then run `inline` unless that is empty.
    Activate { name: String, inline: String },
    /// Run the text as a task.
    Prompt { prompt: String },
}

/// What a typed line asks for, as text.
pub enum CommandText {
    Skip,
    Clear,
    ListSkills,
    Activate { name: Seq<char>, inline: Seq<char> },
    Prompt { prompt: Seq<char> },
}

impl View for ReplCommand {
    type V = CommandText;

    open spec fn view(&self) -> CommandText {
        match self {
            ReplCommand::Skip => CommandText::Skip,
            ReplCommand::Clear => CommandText::Clear,
            ReplCommand::ListSkills => CommandText::ListSkills,
            ReplCommand::Activate { name, inline } => CommandText::Activate {
                name: name@,
                inline: inline@,
            },
            ReplCommand::Prompt { prompt } => CommandText::Prompt { prompt: prompt@ },
        }
    }
}

/// What stands behind a slash: a name up to the first white space, then a task.
pub open spec fn slash_command(rest: Seq<char>) -> CommandText {
    let at = text::first_white(rest, 0);
    let name = rest.take(at);
    if text::lowered(name) == "skills"@ {
        CommandText::ListSkills
    } else {
        CommandText::Activate {
            name,
            inline: if at < rest.len() {
                text::trimmed(rest.skip(at + 1))
            } else {
                Seq::empty()
            },
        }
    }
}

/// What a typed line asks for. White space around it does not count.
pub open spec fn command_of(line: Seq<char>) -> CommandText {
    let t = text::trimmed(line);
    if t.len() == 0 {
        CommandText::Skip
    } else if text::lowered(t) == "clear"@ {
        CommandText::Clear
    } else if t[0] == '/' {
        slash_command(t.skip(1))
    } else {
        CommandText::Prompt { prompt: t }
    }
}

fn parse_slash(rest: &str) -> (r: ReplCommand)
    ensures
        r@ == slash_command(rest@),
{
    let (name, inline): (String, String) = match text::split_once_whitespace(rest) {
        Some((name, tail)) => (name, text::trim(tail.as_str())),
        None => (rest.to_owned(), String::new()),
    };
    proof {
        if text::first_white(rest@, 0) == rest@.len() {
            assert(rest@.take(rest@.len() as int) =~= rest@);
        }
    }
    let lower: String = text::to_ascii_lowercase(name.as_str());
    if text::equal(lower.as_str(), "skills") {
        ReplCommand::ListSkills
    } else {
        ReplCommand::Activate { name, inline }
    }
}

/// Reads a typed line.
pub fn parse_line(line: &str) -> (r: ReplCommand)
    ensures
        r@ == command_of(line@),
{
    let trimmed: String = text::trim(line);
    if trimmed.as_str().is_empty() {
        return ReplCommand::Skip;
    }
    let lower: String = text::to_ascii_lowercase(trimmed.as_str());
    if text::equal(lower.as_str(), "clear") {
        return ReplCommand::Clear;
    }
    let chars: Vec<char> = text::chars_of(trimmed.as_str());
    if chars[0] == '/' {
        let rest: String = text::string_of(&chars, 1, chars.len());
        assert(rest@ =~= trimmed@.skip(1));
        return parse_slash(rest.as_str());
    }
    ReplCommand::Prompt { prompt: trimmed }
}

/// What follows from asking for a skill.
pub enum SkillStep {
    /// There is no such skill: say so, and wait for the next line.
    Unknown { message: String },
    /// It is loaded: say so, and wait for the next line.
    Loaded { message: String },
    /// It is loaded: say so, and run the task that came with it.
    Run { message: String, prompt: String },
}

/// What to say of a skill that was loaded.
pub open spec fn loaded_text(name: Seq<char>) -> Seq<char> {
    "✓ loaded skill '"@ + name + "' — active for this conversation.\n"@
}

/// What to say of a skill that there is not.
pub open spec fn unknown_text(name: Seq<char>) -> Seq<char> {
    "unknown command '/"@ + name + "'. Try /skills to list available skills.\n"@
}

/// What follows from asking for the skill `name`, which was `found` or not.
pub fn after_activation(name: &str, inline: String, found: bool) -> (r: SkillStep)
    ensures
        match r {
            SkillStep::Unknown { message } => !found && message@ == unknown_text(name@),
            SkillStep::Loaded { message } => found && inline@.len() == 0 && message@ == loaded_text(
                name@,
            ),
            SkillStep::Run { message, prompt } => found && inline@.len() > 0 && message@
                == loaded_text(name@) && prompt == inline,
        },
{
    let mut message: String = String::new();
    if found {
        message = "✓ loaded skill '".to_owned();
        message.append(name);
        message.append("' — active for this conversation.\n");
        if inline.as_str().is_empty() {
            SkillStep::Loaded { message }
        } else {
            SkillStep::Run { message, prompt: inline }
        }
    } else {
        message = "unknown command '/".to_owned();
        message.append(name);
        message.append("'. Try /skills to list available skills.\n");
        SkillStep::Unknown { message }
    }
}

/// A skill as it is listed.
pub struct SkillEntry {
    pub name: String,
    pub description: String,
}

/// The line of one skill. A filled mark shows that it is active.
pub open spec fn skill_line(entry: SkillEntry, active: Seq<Seq<char>>) -> Seq<char> {
    "  "@ + (if active.contains(entry.name@) {
        "● active  "@
    } else {
        "○ loadable"@
    }) + "  "@ + entry.name@ + " — "@ + entry.description@
}

/// The lines of the skill list.
pub open spec fn skills_text(entries: Seq<SkillEntry>, active: Seq<Seq<char>>) -> Seq<Seq<char>> {
    if entries.len() == 0 {
        seq![
            "no skills found. Add one at skills/<name>/SKILL.md (next to this example) or .spore/skills/<name>/SKILL.md in your workspace, then restart.\n"@,
        ]
    } else {
        seq!["skills:"@] + entries.map_values(|e: SkillEntry| skill_line(e, active)) + seq![
            "\nLoad one yourself with /<name>, or just describe your task and the agent loads what it needs.\n"@,
        ]
    }
}

fn is_listed(names: &Vec<String>, name: &str) -> (r: bool)
    ensures
        r == names.deep_view().contains(name@),
{
    let mut i: usize = 0;
    while i < names.len()
        invariant
            i <= names@.len(),
            forall|k: int| 0 <= k < i ==> names.deep_view()[k] != name@,
        decreases names@.len() - i,
    {
        assert(names.deep_view()[i as int] == names@[i as int]@);
        if text::equal(names[i].as_str(), name) {
            return true;
        }
        i += 1;
    }
    false
}

/// The lines of the skill list.
pub fn skill_lines(entries: &Vec<SkillEntry>, active: &Vec<String>) -> (r: Vec<String>)
    ensures
        r.deep_view() == skills_text(entries@, active.deep_view()),
{
    let mut lines: Vec<String> = Vec::new();
    if entries.len() == 0 {
        lines.push(
            "no skills found. Add one at skills/<name>/SKILL.md (next to this example) or .spore/skills/<name>/SKILL.md in your workspace, then restart.\n".to_owned(),
        );
        assert(lines.deep_view() =~= skills_text(entries@, active.deep_view()));
        return lines;
    }
    lines.push("skills:".to_owned());
    let ghost f = |e: SkillEntry| skill_line(e, active.deep_view());
    assert(lines.deep_view() =~= seq!["skills:"@] + entries@.take(0).map_values(f));
    let mut i: usize = 0;
    while i < entries.len()
        invariant
            i <= entries@.len(),
            f == |e: SkillEntry| skill_line(e, active.deep_view()),
            lines.deep_view() == seq!["skills:"@] + entries@.take(i as int).map_values(f),
        decreases entries@.len() - i,
    {
        let ghost before = lines.deep_view();
        let mark: &str = if is_listed(active, entries[i].name.as_str()) {
            "● active  "
        } else {
            "○ loadable"
        };
        let mut line: String = "  ".to_owned();
        line.append(mark);
        line.append("  ");
        line.append(entries[i].name.as_str());
        line.append(" — ");
        line.append(entries[i].description.as_str());
        assert(line@ == f(entries@[i as int]));
        lines.push(line);
        i += 1;
        assert(lines.deep_view() =~= before.push(line@));
        assert(lines.deep_view() =~= seq!["skills:"@] + entries@.take(i as int).map_values(f));
    }
    let ghost before = lines.deep_view();
    lines.push(
        "\nLoad one yourself with /<name>, or just describe your task and the agent loads what it needs.\n".to_owned(),
    );
    assert(entries@.take(i as int) =~= entries@);
    assert(lines.deep_view() =~= skills_text(entries@, active.deep_view()));
    lines
}

/// The line of one task of a plan.
pub open spec fn plan_line(k: int, task: String) -> Seq<char> {
    style::MUTED@ + "   "@ + text::decimal((k + 1) as nat) + ". "@ + task@ + style::RESET@
        + "\r\n"@
}

/// The lines that announce a plan: a header, then its tasks, counted from one.
pub open spec fn plan_text(tasks: Seq<String>) -> Seq<Seq<char>> {
    seq![
        style::HEADER@ + "📋 plan ("@ + text::decimal(tasks.len()) + " task(s)):"@ + style::RESET@
            + "\r\n"@,
    ] + tasks.map(|k: int, task: String| plan_line(k, task))
}

/// The lines that announce a plan.
pub fn plan_lines(tasks: &Vec<String>) -> (r: Vec<String>)
    ensures
        r.deep_view() == plan_text(tasks@),
{
    let count: String = text::decimal_of(tasks.len() as u64);
    let mut header: String = style::HEADER.to_owned();
    header.append("📋 plan (");
    header.append(count.as_str());
    header.append(" task(s)):");
    header.append(style::RESET);
    header.append("\r\n");
    let ghost first = seq![header@];
    let mut lines: Vec<String> = Vec::new();
    lines.push(header);
    let ghost f = |k: int, task: String| plan_line(k, task);
    assert(lines.deep_view() =~= first + tasks@.take(0).map(f));
    let mut i: usize = 0;
    while i < tasks.len()
        invariant
            i <= tasks@.len(),
            f == |k: int, task: String| plan_line(k, task),
            lines.deep_view() == first + tasks@.take(i as int).map(f),
        decreases tasks@.len() - i,
    {
        let ghost before = lines.deep_view();
        let number: String = text::decimal_of(i as u64 + 1);
        let mut line: String = style::MUTED.to_owned();
        line.append("   ");
        line.append(number.as_str());
        line.append(". ");
        line.append(tasks[i].as_str());
        line.append(style::RESET);
        line.append("\r\n");
        assert(line@ == f(i as int, tasks@[i as int]));
        lines.push(line);
        i += 1;
        assert(lines.deep_view() =~= before.push(line@));
        assert(lines.deep_view() =~= first + tasks@.take(i as int).map(f));
    }
    assert(tasks@.take(i as int) =~= tasks@);
    lines
}

/// White space around a line makes no difference to what it asks for.
pub proof fn law_white_space_around_a_line_does_not_count(line: Seq<char>)
    ensures
        command_of(text::trimmed(line)) == command_of(line),
{
    text::law_trimming_twice(line);
}

/// A task that is run is never blank, and never a slash command or `clear`.
pub proof fn law_tasks_are_tasks(line: Seq<char>)
    ensures
        command_of(line) matches CommandText::Prompt { prompt } ==> {
            &&& !text::blank(prompt)
            &&& prompt[0] != '/'
            &&& text::lowered(prompt) != "clear"@
        },
{
    let t = text::trimmed(line);
    text::law_trimming_twice(line);
    text::law_blank_trims_to_nothing(t);
}

/// A line is taken as it was read, but for the line ends behind it.
pub proof fn law_chomping_takes_line_ends_only(line: Seq<char>, ends: Seq<char>)
    requires
        line.len() > 0 ==> line[line.len() - 1] != '\n' && line[line.len() - 1] != '\r',
        forall|i: int| 0 <= i < ends.len() ==> #[trigger] ends[i] == '\n' || ends[i] == '\r',
    ensures
        chomped(line + ends) == line,
    decreases ends.len(),
{
    if ends.len() > 0 {
        let front = ends.drop_last();
        assert forall|i: int| 0 <= i < front.len() implies #[trigger] front[i] == '\n' || front[i]
            == '\r' by {
            assert(front[i] == ends[i]);
        }
        law_chomping_takes_line_ends_only(line, front);
        assert((line + ends).last() == ends[ends.len() - 1]);
        assert((line + ends).drop_last() =~= line + front);
    } else {
        assert(line + ends =~= line);
    }
}

/// White space before and behind a line makes no difference, and a line of nothing
/// else asks for nothing.
pub proof fn law_lines_may_be_padded(before: Seq<char>, line: Seq<char>, after: Seq<char>)
    requires
        text::blank(before),
        text::blank(after),
    ensures
        command_of(before + line + after) == command_of(line),
        command_of(before) == CommandText::Skip,
{
    text_laws::law_trimming_forgets_padding(before, line, after);
    text::law_blank_trims_to_nothing(before);
}

proof fn lemma_tight_line(line: Seq<char>)
    requires
        text_laws::is_tight(line),
    ensures
        text::trimmed(line) == line,
{
    let none = Seq::<char>::empty();
    text_laws::law_trimming_takes_the_white_space_around(none, line, none);
    assert(none + line + none =~= line);
}

/// A task is handed on as it was typed, character for character: any line that is
/// not blank, does not start with a slash and is not `clear` in some case.
pub proof fn law_tasks_are_handed_on_as_typed(
    before: Seq<char>,
    task: Seq<char>,
    after: Seq<char>,
)
    requires
        text::blank(before),
        text::blank(after),
        text_laws::is_tight(task),
        task.len() > 0,
        task[0] != '/',
        text::lowered(task) != seq!['c', 'l', 'e', 'a', 'r'],
    ensures
        command_of(before + task + after) == (CommandText::Prompt { prompt: task }),
{
    reveal_strlit("clear");
    assert("clear"@ =~= seq!['c', 'l', 'e', 'a', 'r']);
    law_lines_may_be_padded(before, task, after);
    lemma_tight_line(task);
}

/// A line clears the conversation exactly where it is the word `clear`, in any case.
pub proof fn law_clear_in_any_case(line: Seq<char>)
    requires
        text_laws::is_tight(line),
    ensures
        command_of(line) == CommandText::Clear <==> text::lowered(line) == seq![
            'c',
            'l',
            'e',
            'a',
            'r',
        ],
{
    reveal_strlit("clear");
    assert("clear"@ =~= seq!['c', 'l', 'e', 'a', 'r']);
    lemma_tight_line(line);
}

/// A slash, a name and a task ask for the skill of that name and then for the task,
/// both as they were typed; without a task there is none. `skills`, in any case,
/// lists the skills instead.
pub proof fn law_slash_commands(
    name: Seq<char>,
    c: char,
    before: Seq<char>,
    task: Seq<char>,
    after: Seq<char>,
)
    requires
        forall|i: int| 0 <= i < name.len() ==> !text::is_white(#[trigger] name[i]),
        text::is_white(c),
        text::blank(before),
        text_laws::is_tight(task),
        task.len() > 0,
        text::blank(after),
    ensures
        ({
            let alone = seq!['/'] + name;
            let with_task = seq!['/'] + (name.push(c) + (before + task + after));
            if text::lowered(name) == seq!['s', 'k', 'i', 'l', 'l', 's'] {
                &&& command_of(alone) == CommandText::ListSkills
                &&& command_of(with_task) == CommandText::ListSkills
            } else {
                &&& command_of(alone) == (CommandText::Activate { name, inline: Seq::empty() })
                &&& command_of(with_task) == (CommandText::Activate { name, inline: task })
            }
        }),
{
    reveal_strlit("skills");
    reveal_strlit("clear");
    assert("skills"@ =~= seq!['s', 'k', 'i', 'l', 'l', 's']);
    let alone = seq!['/'] + name;
    assert(text_laws::is_tight(alone));
    lemma_tight_line(alone);
    assert(alone.skip(1) =~= name);
    assert(text::lowered(alone)[0] == '/');
    text_laws::law_first_white_space(name, c, before + task + after);
    assert(name.take(name.len() as int) =~= name);

    let rest = name.push(c) + (before + task);
    let line = seq!['/'] + rest;
    assert(line.last() == task.last());
    assert(text_laws::is_tight(line));
    lemma_tight_line(line);
    assert(line.skip(1) =~= rest);
    assert(text::lowered(line)[0] == '/');
    text_laws::law_first_white_space(name, c, before + task);
    assert(rest.take(name.len() as int) =~= name);
    assert(rest.skip(name.len() + 1int) =~= before + task);
    let none = Seq::<char>::empty();
    text_laws::law_trimming_takes_the_white_space_around(before, task, none);
    assert(before + task + none =~= before + task);

    law_lines_may_be_padded(none, line, after);
    assert(none + line + after =~= seq!['/'] + (name.push(c) + (before + task + after)));
}

/// The skill list has one line for each skill, in order, with its own name and
/// description as they are and its own mark: filled exactly where the skill is
/// among the active ones.
pub proof fn law_skill_list_shows_each_skill(
    entries: Seq<SkillEntry>,
    active: Seq<Seq<char>>,
    i: int,
)
    requires
        0 <= i < entries.len(),
    ensures
        skills_text(entries, active).len() == entries.len() + 2,
        ({
            let shown = entries[i].name@ + " — "@ + entries[i].description@;
            let line = skills_text(entries, active)[i + 1];
            if exists|k: int| 0 <= k < active.len() && #[trigger] active[k] == entries[i].name@ {
                line == "  ● active    "@ + shown
            } else {
                line == "  ○ loadable  "@ + shown
            }
        }),
{
    reveal_strlit("  ● active    ");
    reveal_strlit("  ○ loadable  ");
    reveal_strlit("● active  ");
    reveal_strlit("○ loadable");
    reveal_strlit("  ");
    let shown = entries[i].name@ + " — "@ + entries[i].description@;
    let line = skills_text(entries, active)[i + 1];
    assert(line == skill_line(entries[i], active));
    if active.contains(entries[i].name@) {
        assert(line =~= "  ● active    "@ + shown);
    } else {
        assert(line =~= "  ○ loadable  "@ + shown);
    }
}

/// The announcement of a plan has one line for each task, in order, with its number
/// counted from one and the task as it is; the header tells how many there are.
pub proof fn law_plan_shows_each_task(tasks: Seq<String>, i: int)
    requires
        0 <= i < tasks.len(),
    ensures
        plan_text(tasks).len() == tasks.len() + 1,
        plan_text(tasks)[i + 1] == style::MUTED@ + "   "@ + text::decimal((i + 1) as nat) + ". "@
            + tasks[i]@ + style::RESET@ + "\r\n"@,
        plan_text(tasks)[0] == style::HEADER@ + "📋 plan ("@ + text::decimal(tasks.len())
            + " task(s)):"@ + style::RESET@ + "\r\n"@,
{
}

/// What is said of a skill names it as it was typed, in words that do not depend on
/// it.
pub proof fn law_answers_name_the_skill(name: Seq<char>)
    ensures
        ({
            let loaded = loaded_text(Seq::empty());
            let unknown = unknown_text(Seq::empty());
            &&& loaded_text(name) == loaded.take(16) + name + loaded.skip(16)
            &&& unknown_text(name) == unknown.take(18) + name + unknown.skip(18)
        }),
{
    reveal_strlit("✓ loaded skill '");
    reveal_strlit("unknown command '/");
    let loaded = loaded_text(Seq::empty());
    let unknown = unknown_text(Seq::empty());
    assert(loaded_text(name) =~= loaded.take(16) + name + loaded.skip(16));
    assert(unknown_text(name) =~= unknown.take(18) + name + unknown.skip(18));
}

/// The view of a command hides nothing of it: two commands that look the same hold
/// the same texts.
pub proof fn law_commands_are_seen_as_they_are(command: ReplCommand)
    ensures
        command@ is Skip <==> command is Skip,
        command@ is Clear <==> command is Clear,
        command@ is ListSkills <==> command is ListSkills,
        command matches ReplCommand::Activate { name, inline } ==> command@ == (
        CommandText::Activate { name: name@, inline: inline@ }),
        command matches ReplCommand::Prompt { prompt } ==> command@ == (CommandText::Prompt {
            prompt: prompt@,
        }),
{
}

} // verus!
