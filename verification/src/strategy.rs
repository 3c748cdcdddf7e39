//! The loop strategies: two single-shot baselines, and the climb that is measured
//! against them.

use vstd::prelude::*;

use crate::prompt;
use crate::text;
use crate::text_laws;

verus! {

/// Steps that a task of the execute phase may take.
pub const MAX_STEPS: u32 = 25;

/// Steps that the plan phase may take.
pub const PLAN_STEPS: u32 = 12;

/// How many passes in a row without improvement end the climb.
pub const HILLCLIMB_MAX_STAGNATION: u32 = 3;

/// The strategy that a whole session runs. There is no default one.
#[derive(Clone, Copy, Debug, PartialEq, Eq, Structural)]
pub enum Strategy {
    React,
    PlanExecute,
    HillClimb,
}

/// A strategy's name as it is looked up: in lower case, with dashes, without
/// white space around it.
pub open spec fn normal_name(name: Seq<char>) -> Seq<char> {
    text::replaced(text::lowered(text::trimmed(name)), '_', "-"@)
}

/// The strategy that goes by a name.
pub open spec fn strategy_named(name: Seq<char>) -> Option<Strategy> {
    let n = normal_name(name);
    if n == "react"@ {
        Some(Strategy::React)
    } else if n == "plan-execute"@ || n == "planexecute"@ || n == "plan"@ {
        Some(Strategy::PlanExecute)
    } else if n == "hillclimb"@ || n == "hill-climb"@ || n == "hillclimbing"@ {
        Some(Strategy::HillClimb)
    } else {
        None
    }
}

/// What a loop may spend.
#[derive(Clone, Copy, Debug, PartialEq, Eq, Structural)]
pub enum BudgetPolicy {
    /// So many steps each time the loop is run.
    PerLoop { value: u32 },
}

/// What follows when a budget is spent.
#[derive(Clone, Copy, Debug, PartialEq, Eq, Structural)]
pub enum BudgetExhaustedBehavior {
    /// The harness decides whether to grant more.
    Escalate,
}

/// A loop that calls tools until the model answers, or its budget is spent.
pub struct ReactConfig {
    pub budget: BudgetPolicy,
    pub behavior: BudgetExhaustedBehavior,
    /// Names an agent of the harness; empty for the default one.
    pub agent: String,
    /// Names a set of tools of the harness; empty for the default one.
    pub toolset: String,
    /// Names the schema of the answer; without one every answer is accepted.
    pub output: Option<String>,
    /// Replaces the base prompt for this loop.
    pub system_prompt: Option<String>,
}

/// What the harness runs for a task.
pub enum LoopStrategy {
    React(ReactConfig),
    /// Plans the task into a list, then executes each item.
    PlanExecute {
        plan: ReactConfig,
        execute: ReactConfig,
        /// Names a model for the plan phase in place of the session's own.
        plan_model: Option<String>,
        behavior: BudgetExhaustedBehavior,
    },
    /// Runs the inner strategy again and again, scores what it left behind, and
    /// keeps a pass only if it beats the best so far by more than the delta.
    HillClimbing {
        inner: Box<LoopStrategy>,
        maximize: bool,
        max_stagnation: u32,
        revert_on_no_improvement: bool,
        /// In thousandths of the score.
        min_improvement_delta: u32,
        /// Names an evaluator of the harness; empty for the default one.
        evaluator: String,
        behavior: BudgetExhaustedBehavior,
    },
}

/// Whether a loop runs the default agent with the default tools for this many
/// steps, escalates when they are spent, accepts every answer, and replaces the
/// base prompt by this one, if by any.
pub open spec fn is_loop(c: ReactConfig, steps: u32, system_prompt: Option<Seq<char>>) -> bool {
    &&& c.budget == BudgetPolicy::PerLoop { value: steps }
    &&& c.behavior == BudgetExhaustedBehavior::Escalate
    &&& c.agent@ == ""@
    &&& c.toolset@ == ""@
    &&& c.output is None
    &&& c.system_prompt.deep_view() == system_prompt
}

/// Whether a strategy is the single-shot loop under the base prompt.
pub open spec fn is_react(l: LoopStrategy) -> bool {
    l matches LoopStrategy::React(c) && is_loop(c, MAX_STEPS, None)
}

/// Whether a strategy plans under the plan leaf's prompt and executes under the
/// base prompt, with the session's model for both, and escalates when it is spent.
pub open spec fn is_plan_execute(l: LoopStrategy) -> bool {
    &&& l matches LoopStrategy::PlanExecute { plan, execute, plan_model, behavior }
    &&& is_loop(plan, PLAN_STEPS, Some(prompt::plan_prompt()))
    &&& is_loop(execute, MAX_STEPS, None)
    &&& plan_model is None
    &&& behavior == BudgetExhaustedBehavior::Escalate
}

/// Whether a strategy climbs: any strict improvement of the default evaluator's
/// score is kept, a pass that brings none is reverted, and a spent budget escalates.
pub open spec fn is_hillclimb(l: LoopStrategy) -> bool {
    &&& l matches LoopStrategy::HillClimbing {
        inner,
        maximize,
        max_stagnation,
        revert_on_no_improvement,
        min_improvement_delta,
        evaluator,
        behavior,
    }
    &&& is_plan_execute(*inner)
    &&& maximize
    &&& max_stagnation == HILLCLIMB_MAX_STAGNATION
    &&& revert_on_no_improvement
    &&& min_improvement_delta == 0
    &&& evaluator@ == ""@
    &&& behavior == BudgetExhaustedBehavior::Escalate
}

impl ReactConfig {
    /// A loop of this many steps under the base prompt, with the defaults of the
    /// harness for everything else.
    pub fn per_loop(steps: u32) -> (r: ReactConfig)
        ensures
            is_loop(r, steps, None),
    {
        ReactConfig {
            budget: BudgetPolicy::PerLoop { value: steps },
            behavior: BudgetExhaustedBehavior::Escalate,
            agent: "".to_owned(),
            toolset: "".to_owned(),
            output: None,
            system_prompt: None,
        }
    }
}

impl Strategy {
    /// Looks a strategy up by name, tolerating a few obvious spellings.
    pub fn parse(s: &str) -> (r: Option<Strategy>)
        ensures
            r == strategy_named(s@),
    {
        let trimmed: String = text::trim(s);
        let lower: String = text::to_ascii_lowercase(trimmed.as_str());
        let name: String = text::replace(lower.as_str(), '_', "-");
        let n: &str = name.as_str();
        if text::equal(n, "react") {
            Some(Strategy::React)
        } else if text::equal(n, "plan-execute") || text::equal(n, "planexecute") || text::equal(
            n,
            "plan",
        ) {
            Some(Strategy::PlanExecute)
        } else if text::equal(n, "hillclimb") || text::equal(n, "hill-climb") || text::equal(
            n,
            "hillclimbing",
        ) {
            Some(Strategy::HillClimb)
        } else {
            None
        }
    }

    /// The strategy's key in the ledger.
    pub open spec fn key_text(self) -> Seq<char> {
        match self {
            Strategy::React => "react"@,
            Strategy::PlanExecute => "plan-execute"@,
            Strategy::HillClimb => "hillclimb"@,
        }
    }

    /// Stable lower-case key for the ledger.
    pub fn key(self) -> (r: &'static str)
        ensures
            r@ == self.key_text(),
    {
        match self {
            Strategy::React => "react",
            Strategy::PlanExecute => "plan-execute",
            Strategy::HillClimb => "hillclimb",
        }
    }

    /// One-line description for the startup banner.
    pub open spec fn banner_text(self) -> Seq<char> {
        match self {
            Strategy::React => "react — single-shot ReAct loop (≤"@ + text::decimal(
                MAX_STEPS as nat,
            ) + " steps) [baseline]"@,
            Strategy::PlanExecute => "plan-execute — plan (≤"@ + text::decimal(
                PLAN_STEPS as nat,
            ) + ") → execute (≤"@ + text::decimal(MAX_STEPS as nat) + "/task) [baseline]"@,
            Strategy::HillClimb =>
                "hillclimb — propose(plan-execute) → score → keep iff better, ≤"@
                + text::decimal(HILLCLIMB_MAX_STAGNATION as nat)
                + " stagnant passes [the climb]"@,
        }
    }

    /// One-line description for the startup banner.
    pub fn banner(self) -> (r: String)
        ensures
            r@ == self.banner_text(),
    {
        let max_steps: String = text::decimal_of(MAX_STEPS as u64);
        let plan_steps: String = text::decimal_of(PLAN_STEPS as u64);
        let stagnation: String = text::decimal_of(HILLCLIMB_MAX_STAGNATION as u64);
        let mut line: String = String::new();
        match self {
            Strategy::React => {
                line = "react — single-shot ReAct loop (≤".to_owned();
                line.append(max_steps.as_str());
                line.append(" steps) [baseline]");
            },
            Strategy::PlanExecute => {
                line = "plan-execute — plan (≤".to_owned();
                line.append(plan_steps.as_str());
                line.append(") → execute (≤");
                line.append(max_steps.as_str());
                line.append("/task) [baseline]");
            },
            Strategy::HillClimb => {
                line =
                "hillclimb — propose(plan-execute) → score → keep iff better, ≤".to_owned();
                line.append(stagnation.as_str());
                line.append(" stagnant passes [the climb]");
            },
        }
        line
    }

    /// Whether `l` is what this strategy runs.
    pub open spec fn runs(self, l: LoopStrategy) -> bool {
        match self {
            Strategy::React => is_react(l),
            Strategy::PlanExecute => is_plan_execute(l),
            Strategy::HillClimb => is_hillclimb(l),
        }
    }

    /// What the harness runs for a task under this strategy.
    pub fn loop_strategy(self) -> (r: LoopStrategy)
        ensures
            self.runs(r),
    {
        match self {
            Strategy::React => LoopStrategy::React(ReactConfig::per_loop(MAX_STEPS)),
            Strategy::PlanExecute => plan_execute_strategy(),
            Strategy::HillClimb => hillclimb_strategy(),
        }
    }

    /// Whether the agent may write to the task directory only. The climb is walled
    /// in, so that its score cannot be gamed; a workspace without a task directory
    /// has nothing to wall in to.
    pub fn walls_writes(self, task_dir_exists: bool) -> (r: bool)
        ensures
            r == (self == Strategy::HillClimb && task_dir_exists),
    {
        match self {
            Strategy::HillClimb => task_dir_exists,
            _ => false,
        }
    }
}

/// Plan first, in a few steps and under the plan leaf's own prompt; then execute
/// each task of the plan as a loop of its own.
pub fn plan_execute_strategy() -> (r: LoopStrategy)
    ensures
        is_plan_execute(r),
{
    LoopStrategy::PlanExecute {
        plan: ReactConfig {
            budget: BudgetPolicy::PerLoop { value: PLAN_STEPS },
            behavior: BudgetExhaustedBehavior::Escalate,
            agent: "".to_owned(),
            toolset: "".to_owned(),
            output: None,
            system_prompt: Some(prompt::plan_leaf_prompt()),
        },
        execute: ReactConfig::per_loop(MAX_STEPS),
        plan_model: None,
        behavior: BudgetExhaustedBehavior::Escalate,
    }
}

/// The climb: plan and execute, score, keep only what is strictly better.
pub fn hillclimb_strategy() -> (r: LoopStrategy)
    ensures
        is_hillclimb(r),
{
    LoopStrategy::HillClimbing {
        inner: Box::new(plan_execute_strategy()),
        maximize: true,
        max_stagnation: HILLCLIMB_MAX_STAGNATION,
        revert_on_no_improvement: true,
        min_improvement_delta: 0,
        evaluator: "".to_owned(),
        behavior: BudgetExhaustedBehavior::Escalate,
    }
}

/// Whether every loop of a strategy, other than one that plans, runs under the
/// base prompt.
pub open spec fn executes_under_base_prompt(l: LoopStrategy) -> bool
    decreases l,
{
    match l {
        LoopStrategy::React(c) => c.system_prompt is None,
        LoopStrategy::PlanExecute { execute, .. } => execute.system_prompt is None,
        LoopStrategy::HillClimbing { inner, .. } => executes_under_base_prompt(*inner),
    }
}

/// Whatever the strategy, only a plan loop replaces the base prompt: what it asks
/// for leaks neither into the execute phase nor into a single-shot run.
pub proof fn law_only_planning_replaces_the_prompt(s: Strategy, l: LoopStrategy)
    requires
        s.runs(l),
    ensures
        executes_under_base_prompt(l),
{
    reveal_with_fuel(executes_under_base_prompt, 2);
}

/// A strategy's key names it.
pub proof fn law_key_parses_back(s: Strategy)
    ensures
        strategy_named(s.key_text()) == Some(s),
{
    reveal_strlit("react");
    reveal_strlit("plan-execute");
    reveal_strlit("planexecute");
    reveal_strlit("plan");
    reveal_strlit("hillclimb");
    reveal_strlit("hill-climb");
    reveal_strlit("hillclimbing");
    let k = s.key_text();
    assert(text::trimmed(k) == k);
    assert(text::lowered(k) =~= k);
    text::law_replacing_absent(k, '_', "-"@);
    match s {
        Strategy::React => {},
        Strategy::PlanExecute => {
            assert(k.len() != "react"@.len());
        },
        Strategy::HillClimb => {
            assert(k.len() != "react"@.len());
            assert(k.len() != "plan-execute"@.len());
            assert(k.len() != "planexecute"@.len());
            assert(k.len() != "plan"@.len());
        },
    }
}

/// Case, and the choice between dashes and underscores, make no difference to
/// which strategy a name stands for.
pub proof fn law_spelling_does_not_matter(name: Seq<char>)
    ensures
        strategy_named(text::lowered(name)) == strategy_named(name),
        strategy_named(text::replaced(name, '_', "-"@)) == strategy_named(name),
{
    let low = |c: char| text::lower(c);
    let dash = |c: char|
        if c == '_' {
            '-'
        } else {
            c
        };
    reveal_strlit("-");
    assert("-"@ =~= seq!['-']);
    text::law_trimming_commutes(name, low);
    text::law_trimming_commutes(name, dash);
    text::law_replacing_by_one(name, '_', '-');
    let t = text::trimmed(name);
    assert(text::lowered(text::lowered(t)) =~= text::lowered(t));
    text::law_replacing_by_one(text::lowered(t), '_', '-');
    text::law_replacing_by_one(text::lowered(t.map_values(dash)), '_', '-');
    assert(text::lowered(t.map_values(dash)).map_values(dash) =~= text::lowered(t).map_values(
        dash,
    ));
}

/// White space around a strategy's name does not count, and written in lower case
/// and with dashes the names are these and no others.
pub proof fn law_strategies_go_by_these_names(
    before: Seq<char>,
    name: Seq<char>,
    after: Seq<char>,
)
    requires
        text::blank(before),
        text::blank(after),
    ensures
        strategy_named(before + name + after) == strategy_named(name),
        text_laws::is_tight(name) && text::lowered(name) == name && (forall|i: int|
            0 <= i < name.len() ==> #[trigger] name[i] != '_') ==> {
            let found = strategy_named(name);
            &&& found == Some(Strategy::React) <==> name == "react"@
            &&& found == Some(Strategy::PlanExecute) <==> (name == "plan-execute"@ || name
                == "planexecute"@ || name == "plan"@)
            &&& found == Some(Strategy::HillClimb) <==> (name == "hillclimb"@ || name
                == "hill-climb"@ || name == "hillclimbing"@)
        },
{
    reveal_strlit("react");
    reveal_strlit("plan-execute");
    reveal_strlit("planexecute");
    reveal_strlit("plan");
    reveal_strlit("hillclimb");
    reveal_strlit("hill-climb");
    reveal_strlit("hillclimbing");
    text_laws::law_trimming_forgets_padding(before, name, after);
    let none = Seq::<char>::empty();
    if text_laws::is_tight(name) && text::lowered(name) == name && (forall|i: int|
        0 <= i < name.len() ==> #[trigger] name[i] != '_') {
        text_laws::law_trimming_takes_the_white_space_around(none, name, none);
        assert(none + name + none =~= name);
        text::law_replacing_absent(name, '_', "-"@);
        assert("react"@[0] != "plan"@[0] && "react"@[0] != "hillclimb"@[0]);
        assert("plan-execute"@[0] != "hillclimbing"@[0]);
        assert("planexecute"@[0] != "hillclimb"@[0]);
    }
}

/// A loop has exactly the steps and the prompt that it was made with, and no name of
/// an agent, of tools or of a schema: those are the harness's own.
pub proof fn law_loops_have_their_own_steps(
    c: ReactConfig,
    steps: u32,
    system_prompt: Option<Seq<char>>,
)
    requires
        is_loop(c, steps, system_prompt),
    ensures
        c.budget matches BudgetPolicy::PerLoop { value } && value == steps,
        c.agent@.len() == 0,
        c.toolset@.len() == 0,
        c.output is None,
        system_prompt is None ==> c.system_prompt is None,
        system_prompt matches Some(p) ==> (c.system_prompt matches Some(q) && q@ == p),
{
    reveal_strlit("");
}

/// The climb plans and executes as the baseline does, within the same steps, so the
/// two differ in the climbing alone.
pub proof fn law_the_climb_climbs_the_baseline(climb: LoopStrategy, baseline: LoopStrategy)
    requires
        Strategy::HillClimb.runs(climb),
        Strategy::PlanExecute.runs(baseline),
    ensures
        climb matches LoopStrategy::HillClimbing {
            inner,
            maximize: true,
            max_stagnation: 3,
            revert_on_no_improvement: true,
            min_improvement_delta: 0,
            ..
        } && Strategy::PlanExecute.runs(*inner),
        baseline matches LoopStrategy::PlanExecute { plan, execute, plan_model: None, .. } && {
            &&& plan.budget == (BudgetPolicy::PerLoop { value: 12 })
            &&& execute.budget == (BudgetPolicy::PerLoop { value: 25 })
            &&& plan.system_prompt.deep_view() == Some(prompt::plan_prompt())
            &&& execute.system_prompt is None
        },
{
}

} // verus!
