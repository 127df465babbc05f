//! Turning a goal into an execution plan: a demonstration plan when no
//! provider key is set, the provider's steps when it answers, and a one-step
//! shell plan when asking it fails.
use vstd::prelude::*;
use crate::ai::llm::{LlmConfig, PlanStep};
use crate::kernel::dag::{ExecutionPlan, TaskNode, TaskNodeView};
use crate::text::{owned, views};

verus! {

/// The tasks of a plan as plain values.
pub open spec fn plan_views(p: ExecutionPlan) -> Seq<TaskNodeView> {
    p.steps@.map_values(|t: TaskNode| t@)
}

/// A task as plain values.
pub open spec fn task(id: Seq<char>, tool: Seq<char>, input: Seq<char>, deps: Seq<Seq<char>>) -> TaskNodeView {
    TaskNodeView { id, tool, input, depends_on: deps }
}

/// The demonstration plan: fetch a page, analyse syntax, and combine both
/// in a WebAssembly analyser.
pub open spec fn demo_tasks() -> Seq<TaskNodeView> {
    seq![
        task("t1"@, "browser"@, "https://rust.org"@, Seq::empty()),
        task("t2"@, "lsp"@, "Analyze syntax"@, Seq::empty()),
        task("t3"@, "wasm:analyzer"@, "Process t1 & t2"@, seq!["t1"@, "t2"@]),
    ]
}

/// The plan used when asking the provider fails: run the task in a shell.
pub open spec fn fallback_tasks(t: Seq<char>) -> Seq<TaskNodeView> {
    seq![task("t1"@, "shell"@, t, Seq::empty())]
}

/// The steps as tasks.
pub open spec fn step_views(s: Seq<PlanStep>) -> Seq<TaskNodeView> {
    s.map_values(|p: PlanStep| task(p.id@, p.tool@, p.input@, views(p.depends_on@)))
}

fn node(id: &str, tool: &str, input: &str, deps: Vec<String>) -> (t: TaskNode)
    ensures
        t@ == task(id@, tool@, input@, views(deps@)),
{
    TaskNode { id: owned(id), tool: owned(tool), input: owned(input), depends_on: deps }
}

/// The planner.
pub struct PlanningEngine {
    config: LlmConfig,
}

impl PlanningEngine {
    /// A planner using the provider settings `config`.
    pub fn new(config: LlmConfig) -> (e: PlanningEngine)
        ensures
            e.config_view() == config,
    {
        PlanningEngine { config }
    }

    /// The provider settings.
    pub closed spec fn config_view(&self) -> LlmConfig {
        self.config
    }

    /// The provider settings.
    pub fn config(&self) -> (c: &LlmConfig)
        ensures
            *c == self.config_view(),
    {
        &self.config
    }

    /// Whether the provider is asked at all: only with an API key.
    pub fn asks_provider(&self) -> (b: bool)
        ensures
            b == (self.config_view().api_key@.len() > 0),
    {
        self.config.has_api_key()
    }

    /// The demonstration plan for `goal_id`.
    pub fn demo_plan(goal_id: &str) -> (p: ExecutionPlan)
        ensures
            p.goal_id@ == goal_id@,
            plan_views(p) == demo_tasks(),
    {
        let deps = vec![owned("t1"), owned("t2")];
        assert(views(deps@) =~= seq!["t1"@, "t2"@]);
        let none1: Vec<String> = Vec::new();
        let none2: Vec<String> = Vec::new();
        assert(views(none1@) =~= Seq::<Seq<char>>::empty());
        assert(views(none2@) =~= Seq::<Seq<char>>::empty());
        let steps = vec![
            node("t1", "browser", "https://rust.org", none1),
            node("t2", "lsp", "Analyze syntax", none2),
            node("t3", "wasm:analyzer", "Process t1 & t2", deps),
        ];
        let p = ExecutionPlan { goal_id: owned(goal_id), steps };
        assert(plan_views(p) =~= demo_tasks());
        p
    }

    /// The one-step shell plan for `goal_id` running `task_text`.
    pub fn fallback_plan(goal_id: &str, task_text: &str) -> (p: ExecutionPlan)
        ensures
            p.goal_id@ == goal_id@,
            plan_views(p) == fallback_tasks(task_text@),
    {
        let none: Vec<String> = Vec::new();
        assert(views(none@) =~= Seq::<Seq<char>>::empty());
        let steps = vec![node("t1", "shell", task_text, none)];
        let p = ExecutionPlan { goal_id: owned(goal_id), steps };
        assert(plan_views(p) =~= fallback_tasks(task_text@));
        p
    }

    /// The plan made of the provider's steps, in order.
    pub fn plan_from_steps(goal_id: &str, steps: Vec<PlanStep>) -> (p: ExecutionPlan)
        ensures
            p.goal_id@ == goal_id@,
            plan_views(p) == step_views(steps@),
    {
        let mut nodes: Vec<TaskNode> = Vec::new();
        let mut i: usize = 0;
        while i < steps.len()
            invariant
                i <= steps@.len(),
                nodes@.map_values(|t: TaskNode| t@) == step_views(steps@.take(i as int)),
            decreases steps@.len() - i,
        {
            let s = &steps[i];
            let t = TaskNode {
                id: s.id.clone(),
                tool: s.tool.clone(),
                input: s.input.clone(),
                depends_on: crate::kernel::dag::clone_strings(&s.depends_on),
            };
            let ghost before = nodes@.map_values(|t: TaskNode| t@);
            nodes.push(t);
            assert(nodes@.map_values(|t: TaskNode| t@) =~= before.push(t@));
            assert(step_views(steps@.take(i + 1)) =~= step_views(steps@.take(i as int)).push(
                task(s.id@, s.tool@, s.input@, views(s.depends_on@)),
            ));
            i = i + 1;
        }
        assert(steps@.take(i as int) =~= steps@);
        ExecutionPlan { goal_id: owned(goal_id), steps: nodes }
    }

    /// The plan for goal `goal_id` with text `task_text`: without an API key
    /// the demonstration plan; with one, the provider's steps when it
    /// answered with steps, else the one-step shell plan. `reply` is the
    /// provider's answer, or `None` when it could not be asked.
    pub fn generate_plan(&self, goal_id: &str, task_text: &str, reply: Option<Result<Vec<PlanStep>, String>>) -> (p:
        ExecutionPlan)
        ensures
            p.goal_id@ == goal_id@,
            plan_views(p) == if self.config_view().api_key@.len() == 0 {
                demo_tasks()
            } else {
                match reply {
                    Some(Ok(steps)) => step_views(steps@),
                    _ => fallback_tasks(task_text@),
                }
            },
    {
        if !self.asks_provider() {
            Self::demo_plan(goal_id)
        } else {
            match reply {
                Some(r) => Self::plan_from_reply(goal_id, task_text, r),
                None => Self::fallback_plan(goal_id, task_text),
            }
        }
    }

    /// The plan for goal `goal_id` with text `task_text` once the provider
    /// was asked: its steps when it answered with steps, else the shell plan.
    pub fn plan_from_reply(goal_id: &str, task_text: &str, reply: Result<Vec<PlanStep>, String>) -> (p:
        ExecutionPlan)
        ensures
            p.goal_id@ == goal_id@,
            plan_views(p) == match reply {
                Ok(steps) => step_views(steps@),
                Err(_) => fallback_tasks(task_text@),
            },
    {
        match reply {
            Ok(steps) => Self::plan_from_steps(goal_id, steps),
            Err(_) => Self::fallback_plan(goal_id, task_text),
        }
    }
}

} // verus!
