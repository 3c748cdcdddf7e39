//! Scoring. Two disjoint test sets are measured: the visible one drives the climb,
//! the held-out one is the blind scoreboard and never feeds the loop. Reading both
//! is what shows a climb that games its score.

use vstd::prelude::*;

use crate::strategy::Strategy;
use crate::style;
use crate::text;
use crate::text_laws;

verus! {

/// How long a test run may take, in seconds.
pub const EXAMINER_TIMEOUT_SECS: u64 = 180;

/// Version of the two test sets. Scores compare only within one version.
pub const FIXTURE_VERSION: &'static str = "v2";

/// The first line of a ledger.
pub const LEDGER_HEADER: &'static str = "fixture\tstrategy\tdev\theld_out\theld_out_value\n";

/// How to measure the passing fraction of one test target.
pub struct PassRateEvaluator {
    pub command: String,
    pub args: Vec<String>,
    pub timeout_secs: u64,
    /// Finds the number of tests that passed in what the command prints.
    pub pass_pattern: String,
    /// Finds the number of tests in what the command prints.
    pub total_pattern: String,
    /// Where to run the command; the workspace root where not given.
    pub working_dir: Option<String>,
}

/// Whether `e` runs exactly the one test target of a manifest, at the workspace
/// root.
pub open spec fn measures(e: PassRateEvaluator, manifest: Seq<char>, target: Seq<char>) -> bool {
    &&& e.command@ == "cargo"@
    &&& e.args.deep_view() == seq![
        "test"@,
        "--manifest-path"@,
        manifest,
        "--test"@,
        target,
    ]
    &&& e.timeout_secs == EXAMINER_TIMEOUT_SECS
    &&& e.pass_pattern@ == "(\\d+) passed"@
    &&& e.total_pattern@ == "running (\\d+) tests"@
    &&& e.working_dir is None
}

/// Measures one test target, so that the output holds one count of each kind.
pub fn pass_rate_evaluator(manifest: &str, test_target: &str) -> (r: PassRateEvaluator)
    ensures
        measures(r, manifest@, test_target@),
{
    let mut args: Vec<String> = Vec::new();
    args.push("test".to_owned());
    args.push("--manifest-path".to_owned());
    args.push(manifest.to_owned());
    args.push("--test".to_owned());
    args.push(test_target.to_owned());
    assert(args.deep_view() =~= seq![
        "test"@,
        "--manifest-path"@,
        manifest@,
        "--test"@,
        test_target@,
    ]);
    PassRateEvaluator {
        command: "cargo".to_owned(),
        args,
        timeout_secs: EXAMINER_TIMEOUT_SECS,
        pass_pattern: "(\\d+) passed".to_owned(),
        total_pattern: "running (\\d+) tests".to_owned(),
        working_dir: None,
    }
}

/// The visible test set, which drives the climb.
pub fn dev_evaluator() -> (r: PassRateEvaluator)
    ensures
        measures(r, "csv-task/Cargo.toml"@, "dev"@),
{
    pass_rate_evaluator("csv-task/Cargo.toml", "dev")
}

/// The hidden test set, the blind scoreboard.
pub fn heldout_evaluator() -> (r: PassRateEvaluator)
    ensures
        measures(r, "csv-examiner/Cargo.toml"@, "heldout"@),
{
    pass_rate_evaluator("csv-examiner/Cargo.toml", "heldout")
}

/// What a measurement came to.
pub enum Measurement {
    /// The counts that were found, as text.
    Scored { pass: Option<String>, total: Option<String> },
    Failed,
}

/// A count, or a question mark where there is none.
pub open spec fn count_text(count: Option<Seq<char>>) -> Seq<char> {
    match count {
        Some(c) => c,
        None => "?"@,
    }
}

/// A measurement as passed/total.
pub open spec fn fraction_text(m: Measurement) -> Seq<char> {
    match m {
        Measurement::Scored { pass, total } => count_text(pass.deep_view()) + "/"@ + count_text(
            total.deep_view(),
        ),
        Measurement::Failed => "err"@,
    }
}

/// Renders a measurement as passed/total.
pub fn render_fraction(m: &Measurement) -> (r: String)
    ensures
        r@ == fraction_text(*m),
{
    match m {
        Measurement::Scored { pass, total } => {
            let mut r: String = match pass {
                Some(p) => p.clone(),
                None => "?".to_owned(),
            };
            r.append("/");
            match total {
                Some(t) => {
                    r.append(t.as_str());
                },
                None => {
                    r.append("?");
                },
            }
            r
        },
        Measurement::Failed => "err".to_owned(),
    }
}

/// The scoreboard line of a run. `held_value` is the held-out score as a number.
pub fn scoreboard_line(held: &str, held_value: &str, dev: &str) -> (r: String)
    ensures
        r@ == style::HEADER@ + "🎯 held-out "@ + held@ + " = "@ + held_value@
            + " (blind — the proof number)   [dev "@ + dev@ + ", fixture "@ + FIXTURE_VERSION@
            + "]"@ + style::RESET@,
{
    let mut r: String = style::HEADER.to_owned();
    r.append("🎯 held-out ");
    r.append(held);
    r.append(" = ");
    r.append(held_value);
    r.append(" (blind — the proof number)   [dev ");
    r.append(dev);
    r.append(", fixture ");
    r.append(FIXTURE_VERSION);
    r.append("]");
    r.append(style::RESET);
    r
}

/// What to print where the held-out set could not be measured.
pub fn heldout_failure_line(error: &str) -> (r: String)
    ensures
        r@ == style::ERR@ + "🎯 could not evaluate held-out ("@ + error@
            + "). Run from the cordyceps repo root so csv-examiner/ is reachable."@ + style::RESET@,
{
    let mut r: String = style::ERR.to_owned();
    r.append("🎯 could not evaluate held-out (");
    r.append(error);
    r.append("). Run from the cordyceps repo root so csv-examiner/ is reachable.");
    r.append(style::RESET);
    r
}

/// The columns of a ledger row.
pub open spec fn row_columns(
    strategy: Strategy,
    dev: Seq<char>,
    held: Seq<char>,
    held_value: Seq<char>,
) -> Seq<Seq<char>> {
    seq![FIXTURE_VERSION@, strategy.key_text(), dev, held, held_value]
}

/// A ledger row: its columns with tabs between them, and a line feed.
pub open spec fn row_text(
    strategy: Strategy,
    dev: Seq<char>,
    held: Seq<char>,
    held_value: Seq<char>,
) -> Seq<char> {
    text::joined(row_columns(strategy, dev, held, held_value), "\t"@) + "\n"@
}

/// What to append to the ledger for one run: the header where the ledger is new,
/// then the row.
pub fn ledger_lines(
    is_new: bool,
    strategy: Strategy,
    dev: &str,
    held: &str,
    held_value: &str,
) -> (r: Vec<String>)
    ensures
        r.deep_view() == if is_new {
            seq![LEDGER_HEADER@, row_text(strategy, dev@, held@, held_value@)]
        } else {
            seq![row_text(strategy, dev@, held@, held_value@)]
        },
{
    let mut columns: Vec<String> = Vec::new();
    columns.push(FIXTURE_VERSION.to_owned());
    columns.push(strategy.key().to_owned());
    columns.push(dev.to_owned());
    columns.push(held.to_owned());
    columns.push(held_value.to_owned());
    assert(columns.deep_view() =~= row_columns(strategy, dev@, held@, held_value@));
    let mut row: String = text::join(&columns, "\t");
    row.append("\n");
    let mut lines: Vec<String> = Vec::new();
    if is_new {
        lines.push(LEDGER_HEADER.to_owned());
    }
    lines.push(row);
    assert(lines.deep_view() =~= if is_new {
        seq![LEDGER_HEADER@, row_text(strategy, dev@, held@, held_value@)]
    } else {
        seq![row_text(strategy, dev@, held@, held_value@)]
    });
    lines
}

/// The two sets are measured by different commands.
pub proof fn law_the_sets_are_measured_apart(dev: PassRateEvaluator, held: PassRateEvaluator)
    requires
        measures(dev, "csv-task/Cargo.toml"@, "dev"@),
        measures(held, "csv-examiner/Cargo.toml"@, "heldout"@),
    ensures
        dev.args.deep_view()[2] != held.args.deep_view()[2],
        dev.args.deep_view()[4] != held.args.deep_view()[4],
{
    reveal_strlit("csv-task/Cargo.toml");
    reveal_strlit("csv-examiner/Cargo.toml");
    reveal_strlit("dev");
    reveal_strlit("heldout");
    assert("csv-task/Cargo.toml"@.len() != "csv-examiner/Cargo.toml"@.len());
    assert("dev"@.len() != "heldout"@.len());
}

spec fn without_tabs(s: Seq<char>) -> bool {
    forall|i: int| 0 <= i < s.len() ==> #[trigger] s[i] != '\t'
}

/// A ledger row gives back the columns that it was written with, as long as none
/// of the scores holds a tab.
pub proof fn law_ledger_row_gives_back_its_columns(
    strategy: Strategy,
    dev: Seq<char>,
    held: Seq<char>,
    held_value: Seq<char>,
)
    requires
        forall|i: int| 0 <= i < dev.len() ==> #[trigger] dev[i] != '\t',
        forall|i: int| 0 <= i < held.len() ==> #[trigger] held[i] != '\t',
        forall|i: int| 0 <= i < held_value.len() ==> #[trigger] held_value[i] != '\t',
    ensures
        ({
            let row = row_text(strategy, dev, held, held_value);
            &&& row.last() == '\n'
            &&& text::pieces(row.drop_last(), '\t') == row_columns(
                strategy,
                dev,
                held,
                held_value,
            )
        }),
{
    reveal_strlit("\t");
    reveal_strlit("\n");
    assert("\t"@ =~= seq!['\t']);
    reveal_strlit("v2");
    reveal_strlit("react");
    reveal_strlit("plan-execute");
    reveal_strlit("hillclimb");
    let columns = row_columns(strategy, dev, held, held_value);
    assert(without_tabs(columns[0]));
    assert(without_tabs(columns[1]));
    assert forall|k: int, i: int|
        0 <= k < columns.len() && 0 <= i < columns[k].len() implies #[trigger] columns[k][i]
        != '\t' by {
        assert(k == 0 || k == 1 || k == 2 || k == 3 || k == 4);
    }
    text::law_joined_parts_come_apart(columns, '\t');
    let row = row_text(strategy, dev, held, held_value);
    assert(row.drop_last() =~= text::joined(columns, "\t"@));
}

/// The counts of a measurement are shown as they were found, with a slash between
/// them, and a question mark stands only for a count that was not found.
pub proof fn law_fraction_shows_the_counts(m: Measurement)
    ensures
        m matches Measurement::Scored { pass: Some(p), total: Some(t) } ==> fraction_text(m) == p@
            + seq!['/'] + t@,
        m matches Measurement::Scored { pass: Some(p), total: None } ==> fraction_text(m) == p@
            + seq!['/', '?'],
        m matches Measurement::Scored { pass: None, total: Some(t) } ==> fraction_text(m) == seq![
            '?',
            '/',
        ] + t@,
        m matches Measurement::Scored { pass: None, total: None } ==> fraction_text(m) == seq![
            '?',
            '/',
            '?',
        ],
        m is Failed ==> fraction_text(m) == seq!['e', 'r', 'r'],
{
    reveal_strlit("/");
    reveal_strlit("?");
    reveal_strlit("err");
    assert("/"@ =~= seq!['/']);
    if let Measurement::Scored { pass, total } = m {
        let shown = fraction_text(m);
        match (pass, total) {
            (Some(p), Some(t)) => {
                assert(shown =~= p@ + seq!['/'] + t@);
            },
            (Some(p), None) => {
                assert(shown =~= p@ + seq!['/', '?']);
            },
            (None, Some(t)) => {
                assert(shown =~= seq!['?', '/'] + t@);
            },
            (None, None) => {
                assert(shown =~= seq!['?', '/', '?']);
            },
        }
    } else {
        assert(fraction_text(m) =~= seq!['e', 'r', 'r']);
    }
}

/// Splitting a fraction at the slash gives back exactly the two counts, and it is
/// never taken for a failure.
pub proof fn law_fraction_gives_back_its_counts(pass: String, total: String)
    requires
        forall|i: int| 0 <= i < pass@.len() ==> #[trigger] pass@[i] != '/',
        forall|i: int| 0 <= i < total@.len() ==> #[trigger] total@[i] != '/',
    ensures
        ({
            let shown = fraction_text(
                Measurement::Scored { pass: Some(pass), total: Some(total) },
            );
            &&& text::pieces(shown, '/') == seq![pass@, total@]
            &&& shown != fraction_text(Measurement::Failed)
        }),
{
    let m = Measurement::Scored { pass: Some(pass), total: Some(total) };
    law_fraction_shows_the_counts(m);
    law_fraction_shows_the_counts(Measurement::Failed);
    let parts = seq![pass@, total@];
    assert forall|k: int, i: int|
        0 <= k < parts.len() && 0 <= i < parts[k].len() implies #[trigger] parts[k][i] != '/' by {
        assert(k == 0 || k == 1);
    }
    text::law_joined_parts_come_apart(parts, '/');
    text_laws::law_joining_appends(seq![pass@], total@, seq!['/']);
    text_laws::law_joining_appends(Seq::empty(), pass@, seq!['/']);
    assert(seq![pass@].push(total@) =~= parts);
    assert(fraction_text(m)[pass@.len() as int] == '/');
}

/// A ledger row is the fixture version, the strategy's key and the three scores as
/// they are, in this order, with a tab between each two and a line feed behind.
pub proof fn law_ledger_row_holds_the_scores(
    strategy: Strategy,
    dev: Seq<char>,
    held: Seq<char>,
    held_value: Seq<char>,
)
    ensures
        ({
            let tab = seq!['\t'];
            row_text(strategy, dev, held, held_value) == seq!['v', '2'] + tab + strategy.key_text()
                + tab + dev + tab + held + tab + held_value + seq!['\n']
        }),
{
    reveal_strlit("v2");
    reveal_strlit("\t");
    reveal_strlit("\n");
    let tab = seq!['\t'];
    assert("\t"@ =~= tab);
    assert("\n"@ =~= seq!['\n']);
    assert("v2"@ =~= seq!['v', '2']);
    let v = "v2"@;
    let key = strategy.key_text();
    text_laws::law_joining_appends(Seq::empty(), v, tab);
    text_laws::law_joining_appends(seq![v], key, tab);
    text_laws::law_joining_appends(seq![v, key], dev, tab);
    text_laws::law_joining_appends(seq![v, key, dev], held, tab);
    text_laws::law_joining_appends(seq![v, key, dev, held], held_value, tab);
    assert(seq![v].push(key) =~= seq![v, key]);
    assert(seq![v, key].push(dev) =~= seq![v, key, dev]);
    assert(seq![v, key, dev].push(held) =~= seq![v, key, dev, held]);
    assert(seq![v, key, dev, held].push(held_value) =~= row_columns(
        strategy,
        dev,
        held,
        held_value,
    ));
}

/// The header of a ledger names as many columns as a row has.
pub proof fn law_header_names_each_column()
    ensures
        LEDGER_HEADER@.last() == '\n',
        text::pieces(LEDGER_HEADER@.drop_last(), '\t') == seq![
            "fixture"@,
            "strategy"@,
            "dev"@,
            "held_out"@,
            "held_out_value"@,
        ],
{
    reveal_strlit("fixture\tstrategy\tdev\theld_out\theld_out_value\n");
    reveal_strlit("fixture");
    reveal_strlit("strategy");
    reveal_strlit("dev");
    reveal_strlit("held_out");
    reveal_strlit("held_out_value");
    let tab = seq!['\t'];
    let names = seq!["fixture"@, "strategy"@, "dev"@, "held_out"@, "held_out_value"@];
    text_laws::law_joining_appends(Seq::empty(), names[0], tab);
    text_laws::law_joining_appends(names.take(1), names[1], tab);
    text_laws::law_joining_appends(names.take(2), names[2], tab);
    text_laws::law_joining_appends(names.take(3), names[3], tab);
    text_laws::law_joining_appends(names.take(4), names[4], tab);
    assert(names.take(1) =~= seq![names[0]]);
    assert(names.take(1).push(names[1]) =~= names.take(2));
    assert(names.take(2).push(names[2]) =~= names.take(3));
    assert(names.take(3).push(names[3]) =~= names.take(4));
    assert(names.take(4).push(names[4]) =~= names);
    assert(LEDGER_HEADER@.drop_last() =~= text::joined(names, tab));
    assert forall|k: int, i: int|
        0 <= k < names.len() && 0 <= i < names[k].len() implies #[trigger] names[k][i]
        != '\t' by {
        assert(without_tabs(names[0]));
        assert(without_tabs(names[1]));
        assert(without_tabs(names[2]));
        assert(without_tabs(names[3]));
        assert(without_tabs(names[4]));
        assert(k == 0 || k == 1 || k == 2 || k == 3 || k == 4);
    }
    text::law_joined_parts_come_apart(names, '\t');
}

/// A test set is measured by the command line that tests its manifest's one
/// target, whatever the two are called.
pub proof fn law_sets_are_measured_by_their_own_command(
    e: PassRateEvaluator,
    manifest: Seq<char>,
    target: Seq<char>,
)
    requires
        measures(e, manifest, target),
    ensures
        e.command@ == "cargo"@,
        text::joined(e.args.deep_view(), seq![' ']) == "test --manifest-path "@ + manifest
            + " --test "@ + target,
        e.working_dir is None,
        e.timeout_secs == 3 * 60,
        e.pass_pattern@ == "(\\d+) passed"@,
        e.total_pattern@ == "running (\\d+) tests"@,
{
    reveal_strlit("test --manifest-path ");
    reveal_strlit("test");
    reveal_strlit("--manifest-path");
    reveal_strlit(" --test ");
    reveal_strlit("--test");
    let sp = seq![' '];
    let a = e.args.deep_view();
    text_laws::law_joining_appends(Seq::empty(), a[0], sp);
    text_laws::law_joining_appends(a.take(1), a[1], sp);
    text_laws::law_joining_appends(a.take(2), a[2], sp);
    text_laws::law_joining_appends(a.take(3), a[3], sp);
    text_laws::law_joining_appends(a.take(4), a[4], sp);
    assert(a.take(1) =~= seq![a[0]]);
    assert(a.take(1).push(a[1]) =~= a.take(2));
    assert(a.take(2).push(a[2]) =~= a.take(3));
    assert(a.take(3).push(a[3]) =~= a.take(4));
    assert(a.take(4).push(a[4]) =~= a);
    assert(text::joined(a, sp) =~= "test --manifest-path "@ + manifest + " --test "@ + target);
}

} // verus!
