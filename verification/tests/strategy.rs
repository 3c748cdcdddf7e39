//! Loop strategies.

use cordyceps::prompt::plan_leaf_prompt;
use cordyceps::strategy::{
    hillclimb_strategy, plan_execute_strategy, BudgetExhaustedBehavior, BudgetPolicy, LoopStrategy,
    ReactConfig, Strategy, HILLCLIMB_MAX_STAGNATION, MAX_STEPS, PLAN_STEPS,
};

const ALL: [Strategy; 3] = [Strategy::React, Strategy::PlanExecute, Strategy::HillClimb];

#[test]
fn keys_parse_back() {
    for s in ALL {
        assert_eq!(Strategy::parse(s.key()), Some(s));
    }
    assert_eq!(Strategy::React.key(), "react");
    assert_eq!(Strategy::PlanExecute.key(), "plan-execute");
    assert_eq!(Strategy::HillClimb.key(), "hillclimb");
}

#[test]
fn obvious_spellings_are_tolerated() {
    for name in ["react", " ReAct ", "REACT\n"] {
        assert_eq!(Strategy::parse(name), Some(Strategy::React));
    }
    for name in ["plan-execute", "plan_execute", "PlanExecute", "Plan", "PLAN_EXECUTE"] {
        assert_eq!(Strategy::parse(name), Some(Strategy::PlanExecute));
    }
    for name in ["hillclimb", "hill_climb", "Hill-Climb", "HillClimbing"] {
        assert_eq!(Strategy::parse(name), Some(Strategy::HillClimb));
    }
    for name in ["", "climb", "plan execute", "re-act", "hill--climb"] {
        assert_eq!(Strategy::parse(name), None);
    }
}

#[test]
fn banners_show_the_limits() {
    assert_eq!(Strategy::React.banner(), "react — single-shot ReAct loop (≤25 steps) [baseline]");
    assert_eq!(
        Strategy::PlanExecute.banner(),
        "plan-execute — plan (≤12) → execute (≤25/task) [baseline]"
    );
    assert_eq!(
        Strategy::HillClimb.banner(),
        "hillclimb — propose(plan-execute) → score → keep iff better, ≤3 stagnant passes [the climb]"
    );
}

fn is_loop(c: &ReactConfig, steps: u32, system_prompt: Option<String>) -> bool {
    c.budget == BudgetPolicy::PerLoop { value: steps }
        && c.behavior == BudgetExhaustedBehavior::Escalate
        && c.agent == ""
        && c.toolset == ""
        && c.output.is_none()
        && c.system_prompt == system_prompt
}

fn plans_then_executes(l: &LoopStrategy) -> bool {
    match l {
        LoopStrategy::PlanExecute { plan, execute, plan_model, behavior } => {
            is_loop(plan, PLAN_STEPS, Some(plan_leaf_prompt()))
                && is_loop(execute, MAX_STEPS, None)
                && plan_model.is_none()
                && *behavior == BudgetExhaustedBehavior::Escalate
        }
        _ => false,
    }
}

#[test]
fn only_the_plan_runs_under_its_own_prompt() {
    match Strategy::React.loop_strategy() {
        LoopStrategy::React(c) => assert!(is_loop(&c, 25, None)),
        _ => panic!("a single loop"),
    }
    assert!(plans_then_executes(&Strategy::PlanExecute.loop_strategy()));
    assert!(plans_then_executes(&plan_execute_strategy()));
}

#[test]
fn the_climb_keeps_what_is_strictly_better() {
    for l in [Strategy::HillClimb.loop_strategy(), hillclimb_strategy()] {
        match l {
            LoopStrategy::HillClimbing {
                inner,
                maximize,
                max_stagnation,
                revert_on_no_improvement,
                min_improvement_delta,
                evaluator,
                behavior,
            } => {
                assert!(plans_then_executes(&inner));
                assert!(maximize);
                assert_eq!(max_stagnation, HILLCLIMB_MAX_STAGNATION);
                assert!(revert_on_no_improvement);
                assert_eq!(min_improvement_delta, 0);
                assert_eq!(evaluator, "");
                assert_eq!(behavior, BudgetExhaustedBehavior::Escalate);
            }
            _ => panic!("a climb"),
        }
    }
}

#[test]
fn only_the_climb_is_walled_in() {
    assert!(Strategy::HillClimb.walls_writes(true));
    assert!(!Strategy::HillClimb.walls_writes(false));
    assert!(!Strategy::React.walls_writes(true));
    assert!(!Strategy::PlanExecute.walls_writes(true));
}
