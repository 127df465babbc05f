use ant::bus::SystemEvent;

#[test]
fn test_system_event_names() {
    assert_eq!(SystemEvent::SystemBoot("".into()).name(), "SystemBoot");
    assert_eq!(SystemEvent::GoalCreated { id: "".into(), task: "".into() }.name(), "GoalCreated");
    assert_eq!(SystemEvent::TaskCompleted { task_id: "".into(), result: "".into() }.name(), "TaskCompleted");
    assert_eq!(SystemEvent::TaskFailed { task_id: "".into(), error: "".into() }.name(), "TaskFailed");
}

#[test]
fn subjects_are_lower_case_names() {
    let e = SystemEvent::TaskDispatched { task_id: "t".into(), tool: "x".into(), input: "i".into() };
    assert_eq!(e.to_subject(), "antos.events.taskdispatched");
    let d = SystemEvent::DaemonStatus { daemon: "d".into(), status: "s".into() };
    assert_eq!(d.to_subject(), "antos.events.daemonstatus");
}

#[test]
fn dispatched_task_is_taken_from_dispatch_events_only() {
    let ev = SystemEvent::TaskDispatched { task_id: "t1".into(), tool: "lsp".into(), input: "fn main() {}".into() };
    assert_eq!(ev.dispatched_task(), Some(("t1".to_string(), "lsp".to_string(), "fn main() {}".to_string())));
    let log = SystemEvent::Log { level: "INFO".into(), source: "Git".into(), message: "Git actor started".into() };
    assert_eq!(log.dispatched_task(), None);
    assert_eq!(SystemEvent::SystemBoot("v".into()).dispatched_task(), None);
}
