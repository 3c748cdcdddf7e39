//! Scoring and the ledger.

use cordyceps::scoring::{
    dev_evaluator, heldout_evaluator, heldout_failure_line, ledger_lines, render_fraction,
    scoreboard_line, Measurement, LEDGER_HEADER,
};
use cordyceps::strategy::Strategy;

#[test]
fn the_two_sets_run_one_target_each() {
    let dev = dev_evaluator();
    assert_eq!(dev.command, "cargo");
    assert_eq!(
        dev.args,
        vec!["test", "--manifest-path", "csv-task/Cargo.toml", "--test", "dev"]
    );
    assert_eq!(dev.timeout_secs, 180);
    assert_eq!(dev.pass_pattern, r"(\d+) passed");
    assert_eq!(dev.total_pattern, r"running (\d+) tests");
    assert!(dev.working_dir.is_none());
    let held = heldout_evaluator();
    assert_eq!(
        held.args,
        vec!["test", "--manifest-path", "csv-examiner/Cargo.toml", "--test", "heldout"]
    );
    assert_ne!(dev.args, held.args);
}

#[test]
fn fractions_render() {
    let scored = |p: Option<&str>, t: Option<&str>| {
        render_fraction(&Measurement::Scored {
            pass: p.map(str::to_string),
            total: t.map(str::to_string),
        })
    };
    assert_eq!(scored(Some("12"), Some("15")), "12/15");
    assert_eq!(scored(None, Some("15")), "?/15");
    assert_eq!(scored(Some("12"), None), "12/?");
    assert_eq!(render_fraction(&Measurement::Failed), "err");
}

#[test]
fn a_new_ledger_starts_with_its_header() {
    let lines = ledger_lines(true, Strategy::HillClimb, "9/10", "12/15", "0.8000");
    assert_eq!(
        lines,
        vec![
            "fixture\tstrategy\tdev\theld_out\theld_out_value\n",
            "v2\thillclimb\t9/10\t12/15\t0.8000\n"
        ]
    );
    let lines = ledger_lines(false, Strategy::React, "0/10", "err", "NaN");
    assert_eq!(lines, vec!["v2\treact\t0/10\terr\tNaN\n"]);
}

#[test]
fn rows_have_the_columns_of_the_header() {
    let row = ledger_lines(false, Strategy::PlanExecute, "1/10", "2/15", "0.1333").remove(0);
    let columns: Vec<&str> = row.trim_end_matches('\n').split('\t').collect();
    assert_eq!(columns, vec!["v2", "plan-execute", "1/10", "2/15", "0.1333"]);
    assert_eq!(LEDGER_HEADER.split('\t').count(), columns.len());
}

#[test]
fn the_scoreboard_shows_both_scores() {
    assert_eq!(
        scoreboard_line("12/15", "0.800", "9/10"),
        "\x1b[1;97m🎯 held-out 12/15 = 0.800 (blind — the proof number)   [dev 9/10, fixture v2]\x1b[0m"
    );
    assert_eq!(
        heldout_failure_line("timed out"),
        "\x1b[31m🎯 could not evaluate held-out (timed out). Run from the cordyceps repo root so csv-examiner/ is reachable.\x1b[0m"
    );
}
