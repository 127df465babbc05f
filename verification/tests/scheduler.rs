use ant::bus::SystemEvent;
use ant::kernel::dag::{validate_and_sort, CycleError, DagState, ExecutionPlan, TaskNode, TaskStatus};
use ant::kernel::scheduler::CoreScheduler;

fn node(id: &str, deps: &[&str]) -> TaskNode {
    TaskNode { id: id.into(), tool: "shell".into(), input: format!("run {}", id), depends_on: deps.iter().map(|d| d.to_string()).collect() }
}

fn plan(goal: &str, nodes: Vec<TaskNode>) -> ExecutionPlan {
    ExecutionPlan { goal_id: goal.into(), steps: nodes }
}

#[test]
fn topological_order_respects_dependencies() {
    let tasks = vec![node("c", &["a", "b"]), node("a", &[]), node("b", &["a"])];
    let order = validate_and_sort(&tasks).unwrap();
    assert_eq!(order, vec!["a".to_string(), "b".to_string(), "c".to_string()]);
}

#[test]
fn cycles_are_detected() {
    let tasks = vec![node("a", &["c"]), node("b", &["a"]), node("c", &["b"]), node("d", &[])];
    let err = validate_and_sort(&tasks).unwrap_err();
    let mut cycle = err.cycle.clone();
    cycle.sort();
    assert_eq!(cycle, vec!["a".to_string(), "b".to_string(), "c".to_string()]);
    assert!(DagState::new(plan("G", vec![node("x", &["x"])])).is_err());
}

#[test]
fn ready_tasks_start_in_order() {
    let mut dag = DagState::new(plan("G", vec![node("a", &[]), node("b", &["a"]), node("c", &[])])).unwrap();
    let ready: Vec<String> = dag.get_ready_tasks().iter().map(|t| t.id.clone()).collect();
    assert_eq!(ready, vec!["a".to_string(), "c".to_string()]);
    let started = dag.start_ready();
    assert_eq!(started.len(), 2);
    assert!(dag.start_ready().is_empty());
    dag.update_status(&"a".to_string(), TaskStatus::Completed("ok".into())).unwrap();
    let ready: Vec<String> = dag.get_ready_tasks().iter().map(|t| t.id.clone()).collect();
    assert_eq!(ready, vec!["b".to_string()]);
    assert!(dag.update_status(&"zz".to_string(), TaskStatus::Running).is_err());
    assert!(!dag.is_terminal());
    let stats = dag.stats();
    assert_eq!((stats.total, stats.completed, stats.running, stats.pending), (3, 1, 1, 1));
}

#[test]
fn scheduler_runs_a_goal_to_completion() {
    let mut s = CoreScheduler::new();
    let events = s.handle_goal("G-1".into(), plan("G-1", vec![node("t1", &[]), node("t2", &["t1"])])).unwrap();
    assert_eq!(events.len(), 2);
    assert!(matches!(&events[0], SystemEvent::PlanCreated { goal_id, .. } if goal_id == "G-1"));
    assert!(matches!(&events[1], SystemEvent::TaskDispatched { task_id, input, .. } if task_id == "t1" && input == "run t1"));
    assert_eq!(s.active_count(), 1);
    let events = s.handle_done("t1".into(), "r1".into());
    assert!(matches!(&events[0], SystemEvent::TaskDispatched { task_id, .. } if task_id == "t2"));
    let events = s.handle_done("t2".into(), "r2".into());
    assert!(matches!(&events[0], SystemEvent::GoalCompleted { id, result } if id == "G-1" && result == "Done"));
    assert_eq!(s.active_count(), 0);
    assert!(s.handle_done("t2".into(), "again".into()).is_empty());
}

#[test]
fn scheduler_fails_a_goal_on_task_failure() {
    let mut s = CoreScheduler::new();
    s.handle_goal("G-2".into(), plan("G-2", vec![node("a", &[]), node("b", &["a"])])).unwrap();
    let events = s.handle_fail("a".into(), "boom".into());
    assert!(matches!(&events[0], SystemEvent::GoalFailed { id, reason } if id == "G-2" && reason == "Task a failed: boom"));
    assert_eq!(s.active_count(), 0);
    assert!(s.handle_goal("G-3".into(), plan("G-3", vec![node("a", &["b"]), node("b", &["a"])])).is_err());
    assert_eq!(s.active_count(), 0);
}

#[test]
fn cycle_error_message() {
    let e = CycleError { cycle: vec!["a".to_string(), "b".to_string()] };
    assert_eq!(e.message(), "Cycle detected: a -> b");
    assert_eq!(CycleError { cycle: vec![] }.message(), "Cycle detected: ");
}
