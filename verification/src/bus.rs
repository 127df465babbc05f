//! The system events that components exchange over the event bus.
use vstd::prelude::*;
use crate::kernel::dag::{ExecutionPlan, TaskNodeView};
use crate::text::{lowercase, owned, push_str, string_of, to_lowercase};

verus! {

/// An event on the bus.
#[derive(Debug, Clone)]
pub enum SystemEvent {
    SystemBoot(String),
    GoalCreated { id: String, task: String },
    PlanCreated { goal_id: String, plan: ExecutionPlan },
    TaskDispatched { task_id: String, tool: String, input: String },
    TaskCompleted { task_id: String, result: String },
    TaskFailed { task_id: String, error: String },
    GoalCompleted { id: String, result: String },
    GoalFailed { id: String, reason: String },
    Log { level: String, source: String, message: String },
    DaemonStatus { daemon: String, status: String },
}

/// An event as plain values.
pub enum SystemEventView {
    SystemBoot(Seq<char>),
    GoalCreated { id: Seq<char>, task: Seq<char> },
    PlanCreated { goal_id: Seq<char>, plan_goal_id: Seq<char>, steps: Seq<TaskNodeView> },
    TaskDispatched { task_id: Seq<char>, tool: Seq<char>, input: Seq<char> },
    TaskCompleted { task_id: Seq<char>, result: Seq<char> },
    TaskFailed { task_id: Seq<char>, error: Seq<char> },
    GoalCompleted { id: Seq<char>, result: Seq<char> },
    GoalFailed { id: Seq<char>, reason: Seq<char> },
    Log { level: Seq<char>, source: Seq<char>, message: Seq<char> },
    DaemonStatus { daemon: Seq<char>, status: Seq<char> },
}

impl View for SystemEvent {
    type V = SystemEventView;

    open spec fn view(&self) -> SystemEventView {
        match self {
            SystemEvent::SystemBoot(s) => SystemEventView::SystemBoot(s@),
            SystemEvent::GoalCreated { id, task } => SystemEventView::GoalCreated { id: id@, task: task@ },
            SystemEvent::PlanCreated { goal_id, plan } => SystemEventView::PlanCreated {
                goal_id: goal_id@,
                plan_goal_id: plan.goal_id@,
                steps: plan.steps.deep_view(),
            },
            SystemEvent::TaskDispatched { task_id, tool, input } => SystemEventView::TaskDispatched {
                task_id: task_id@,
                tool: tool@,
                input: input@,
            },
            SystemEvent::TaskCompleted { task_id, result } => SystemEventView::TaskCompleted {
                task_id: task_id@,
                result: result@,
            },
            SystemEvent::TaskFailed { task_id, error } => SystemEventView::TaskFailed {
                task_id: task_id@,
                error: error@,
            },
            SystemEvent::GoalCompleted { id, result } => SystemEventView::GoalCompleted {
                id: id@,
                result: result@,
            },
            SystemEvent::GoalFailed { id, reason } => SystemEventView::GoalFailed {
                id: id@,
                reason: reason@,
            },
            SystemEvent::Log { level, source, message } => SystemEventView::Log {
                level: level@,
                source: source@,
                message: message@,
            },
            SystemEvent::DaemonStatus { daemon, status } => SystemEventView::DaemonStatus {
                daemon: daemon@,
                status: status@,
            },
        }
    }
}

impl DeepView for SystemEvent {
    type V = SystemEventView;

    open spec fn deep_view(&self) -> SystemEventView {
        self@
    }
}

/// The name of an event's kind.
pub open spec fn event_name(e: SystemEventView) -> Seq<char> {
    match e {
        SystemEventView::SystemBoot(_) => "SystemBoot"@,
        SystemEventView::GoalCreated { .. } => "GoalCreated"@,
        SystemEventView::PlanCreated { .. } => "PlanCreated"@,
        SystemEventView::TaskDispatched { .. } => "TaskDispatched"@,
        SystemEventView::TaskCompleted { .. } => "TaskCompleted"@,
        SystemEventView::TaskFailed { .. } => "TaskFailed"@,
        SystemEventView::GoalCompleted { .. } => "GoalCompleted"@,
        SystemEventView::GoalFailed { .. } => "GoalFailed"@,
        SystemEventView::Log { .. } => "Log"@,
        SystemEventView::DaemonStatus { .. } => "DaemonStatus"@,
    }
}

impl SystemEvent {
    /// The name of the event's kind.
    pub fn name(&self) -> (r: &'static str)
        ensures
            r@ == event_name(self@),
    {
        match self {
            SystemEvent::SystemBoot(_) => "SystemBoot",
            SystemEvent::GoalCreated { .. } => "GoalCreated",
            SystemEvent::PlanCreated { .. } => "PlanCreated",
            SystemEvent::TaskDispatched { .. } => "TaskDispatched",
            SystemEvent::TaskCompleted { .. } => "TaskCompleted",
            SystemEvent::TaskFailed { .. } => "TaskFailed",
            SystemEvent::GoalCompleted { .. } => "GoalCompleted",
            SystemEvent::GoalFailed { .. } => "GoalFailed",
            SystemEvent::Log { .. } => "Log",
            SystemEvent::DaemonStatus { .. } => "DaemonStatus",
        }
    }

    /// The task an event dispatches, as its id, tool and input; `None` for
    /// any other kind of event, which task actors pass over.
    pub fn dispatched_task(&self) -> (r: Option<(String, String, String)>)
        ensures
            match self@ {
                SystemEventView::TaskDispatched { task_id, tool, input } => r matches Some((a, b, c))
                    && a@ == task_id && b@ == tool && c@ == input,
                _ => r is None,
            },
    {
        match self {
            SystemEvent::TaskDispatched { task_id, tool, input } => Some((task_id.clone(), tool.clone(), input.clone())),
            _ => None,
        }
    }

    /// The messaging subject an event is published under: `antos.events.` and
    /// the lower-cased kind name.
    pub fn to_subject(&self) -> (r: String)
        ensures
            r@ == "antos.events."@ + lowercase(event_name(self@)),
    {
        let lower = to_lowercase(self.name());
        let mut v: Vec<char> = Vec::new();
        push_str(&mut v, "antos.events.");
        push_str(&mut v, lower.as_str());
        string_of(v.as_slice())
    }
}

/// The subject prefix of all events.
pub open spec fn subject_root() -> Seq<char> {
    "antos.events"@
}

/// The subject that subscribes to every event: the prefix and `.>`.
pub fn all_events_subject() -> (r: String)
    ensures
        r@ == subject_root() + ".>"@,
{
    proof {
        reveal_strlit("antos.events.>");
        reveal_strlit("antos.events");
        reveal_strlit(".>");
        assert("antos.events.>"@ =~= subject_root() + ".>"@);
    }
    owned("antos.events.>")
}

/// The subject that subscribes to one kind of event, named in any case.
pub fn event_kind_subject(event_type: &str) -> (r: String)
    ensures
        r@ == subject_root() + "."@ + lowercase(event_type@),
{
    let lower = to_lowercase(event_type);
    let mut v: Vec<char> = Vec::new();
    push_str(&mut v, "antos.events.");
    push_str(&mut v, lower.as_str());
    proof {
        reveal_strlit("antos.events.");
        reveal_strlit("antos.events");
        reveal_strlit(".");
        assert("antos.events."@ =~= subject_root() + "."@);
    }
    string_of(v.as_slice())
}

} // verus!
