use ant::bus::SystemEvent;
use ant::sys::supervisor::{DaemonOutcome, DaemonSupervision, RestartPolicy};

const SHORT: u128 = 1_000_000_000;
const LONG: u128 = 6_000_000_000;

#[test]
fn backoff_doubles_up_to_a_minute() {
    let mut s = DaemonSupervision::new("d", RestartPolicy::Always);
    let mut delays = Vec::new();
    for _ in 0..8 {
        let a = s.finish(DaemonOutcome::Stopped, SHORT);
        delays.push(a.restart_after.unwrap());
    }
    assert_eq!(delays, vec![1, 2, 4, 8, 16, 32, 60, 60]);
    assert_eq!(s.backoff(), 60);
}

#[test]
fn long_run_resets_backoff() {
    let mut s = DaemonSupervision::new("d", RestartPolicy::OnFailure);
    s.finish(DaemonOutcome::Panicked, SHORT);
    s.finish(DaemonOutcome::Panicked, SHORT);
    assert_eq!(s.backoff(), 4);
    let a = s.finish(DaemonOutcome::Crashed("boom".into()), LONG);
    assert_eq!(a.restart_after, Some(1));
    assert_eq!(s.backoff(), 2);
}

#[test]
fn policies_decide_restart() {
    let mut never = DaemonSupervision::new("d", RestartPolicy::Never);
    assert_eq!(never.finish(DaemonOutcome::Crashed("e".into()), SHORT).restart_after, None);
    let mut on_failure = DaemonSupervision::new("d", RestartPolicy::OnFailure);
    assert_eq!(on_failure.finish(DaemonOutcome::Stopped, SHORT).restart_after, None);
    assert_eq!(on_failure.finish(DaemonOutcome::Panicked, SHORT).restart_after, Some(1));
}

#[test]
fn exit_events_report_outcome() {
    let mut s = DaemonSupervision::new("Audit", RestartPolicy::Always);
    match s.start() {
        SystemEvent::DaemonStatus { daemon, status } => {
            assert_eq!(daemon, "Audit");
            assert_eq!(status, "STARTING");
        }
        _ => panic!("expected DaemonStatus"),
    }
    let a = s.finish(DaemonOutcome::Crashed("disk full".into()), SHORT);
    assert_eq!(a.events.len(), 2);
    match &a.events[0] {
        SystemEvent::Log { level, source, message } => {
            assert_eq!(level, "ERROR");
            assert_eq!(source, "Audit");
            assert_eq!(message, "disk full");
        }
        _ => panic!("expected Log"),
    }
    assert!(matches!(&a.events[1], SystemEvent::DaemonStatus { status, .. } if status == "CRASHED"));
    let p = s.finish(DaemonOutcome::Panicked, SHORT);
    assert!(matches!(&p.events[0], SystemEvent::Log { level, message, .. } if level == "CRIT" && message == "PANIC"));
    assert!(matches!(&p.events[1], SystemEvent::DaemonStatus { status, .. } if status == "PANICKED"));
    let q = s.finish(DaemonOutcome::Stopped, SHORT);
    assert_eq!(q.events.len(), 1);
    assert!(matches!(&q.events[0], SystemEvent::DaemonStatus { status, .. } if status == "STOPPED"));
}
