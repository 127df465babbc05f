use ant::bus::SystemEvent;
use ant::cli::{goals_url, shutdown_url, tail_lines};
use ant::metrics::{metric_update, MetricUpdate, MetricsState, TaskClock};
use ant::sys::audit_logger::AuditLogger;
use ant::tools::dummy_actors::{analyze_code, browser_simulation, lsp_handles, shell_handles};

#[test]
fn metrics_follow_events() {
    let e = SystemEvent::TaskDispatched { task_id: "t".into(), tool: "x".into(), input: "i".into() };
    assert!(matches!(metric_update(&e), MetricUpdate::TaskDispatched(t) if t == "t"));
    let g = SystemEvent::GoalFailed { id: "g".into(), reason: "r".into() };
    assert!(matches!(metric_update(&g), MetricUpdate::GoalClosed));
    assert!(matches!(metric_update(&SystemEvent::SystemBoot("v".into())), MetricUpdate::Unchanged));
    let mut c = TaskClock::new();
    c.start("t", 100);
    c.start("t", 150);
    assert_eq!(c.finish("t"), Some(150));
    assert_eq!(c.finish("t"), None);
}

#[test]
fn cli_addresses_and_tail() {
    assert_eq!(goals_url("http://h:9090"), "http://h:9090/api/v1/goals");
    assert_eq!(shutdown_url("http://h", true), "http://h/admin/shutdown?force=true");
    assert_eq!(shutdown_url("http://h", false), "http://h/admin/shutdown");
    assert_eq!(tail_lines("a\nb\nc\n", 2), vec!["b".to_string(), "c".to_string()]);
    assert_eq!(tail_lines("a", 5), vec!["a".to_string()]);
}

#[test]
fn audit_records() {
    let e = SystemEvent::Log { level: "INFO".into(), source: "Git".into(), message: "m".into() };
    assert_eq!(AuditLogger::record_fields(&e), ("Log", "Git".to_string()));
    let g = SystemEvent::GoalCreated { id: "g".into(), task: "t".into() };
    assert_eq!(AuditLogger::record_fields(&g), ("GoalCreated", "system".to_string()));
}

#[test]
fn stand_in_actors() {
    assert!(lsp_handles("review"));
    assert!(shell_handles("exec"));
    assert!(browser_simulation("u").starts_with("Browser simulation for: u\n\nNote:"));
    let a = analyze_code("unsafe { x.unwrap() }");
    assert!(a.starts_with("Code Analysis:\n⚠️ Warning: unsafe code detected\n⚠️ Suggestion:"));
    assert!(a.contains("ℹ️ Info: No function definitions found"));
    assert!(a.ends_with("\n\nCode preview:\nunsafe { x.unwrap() }"));
    assert_eq!(analyze_code("fn main() {}"), "Code Analysis:\n✅ No issues found\n\nCode preview:\nfn main() {}");
}

#[test]
fn metrics_count_a_sequence_of_events() {
    let disp = |id: &str| SystemEvent::TaskDispatched { task_id: id.into(), tool: "x".into(), input: "i".into() };
    let done = |id: &str| SystemEvent::TaskCompleted { task_id: id.into(), result: "ok".into() };
    let mut m = MetricsState::new();
    assert_eq!(m.apply(&disp("a"), 100), None);
    assert_eq!(m.apply(&disp("b"), 150), None);
    assert_eq!(m.apply(&done("a"), 400), Some(300));
    assert_eq!(m.apply(&done("a"), 500), None);
    assert_eq!(m.apply(&done("zz"), 500), None);
    m.apply(&SystemEvent::TaskFailed { task_id: "b".into(), error: "e".into() }, 600);
    m.apply(&SystemEvent::GoalCreated { id: "G".into(), task: "t".into() }, 600);
    m.apply(&SystemEvent::GoalCreated { id: "H".into(), task: "t".into() }, 600);
    m.apply(&SystemEvent::GoalFailed { id: "G".into(), reason: "r".into() }, 600);
    m.apply(&SystemEvent::SystemBoot("v".into()), 700);
    assert_eq!(m.events_seen(), 10);
    assert_eq!(m.tasks_total(), 2);
    assert_eq!(m.tasks_completed(), 1);
    assert_eq!(m.tasks_failed(), 1);
    assert_eq!(m.goals(), (2, 1));
}

#[test]
fn metrics_from_a_list_of_events() {
    let events = vec![
        SystemEvent::TaskDispatched { task_id: "a".into(), tool: "x".into(), input: "i".into() },
        SystemEvent::TaskCompleted { task_id: "a".into(), result: "r".into() },
        SystemEvent::TaskCompleted { task_id: "b".into(), result: "r".into() },
        SystemEvent::GoalCreated { id: "G".into(), task: "t".into() },
        SystemEvent::GoalCompleted { id: "G".into(), result: "r".into() },
    ];
    let m = MetricsState::from_events(&events);
    assert_eq!(m.events_seen(), 5);
    assert_eq!(m.tasks_total(), 1);
    assert_eq!(m.tasks_completed(), 1);
    assert_eq!(m.tasks_failed(), 0);
    assert_eq!(m.goals(), (1, 1));
}
