//! The audit log: every bus event is recorded with its kind and source.
//! Writing the records happens outside.
use vstd::prelude::*;
use crate::bus::{event_name, SystemEvent, SystemEventView};
use crate::text::owned;

verus! {

/// The audit logger.
pub struct AuditLogger;

/// The source recorded for an event: a log's source, a daemon's name, or
/// `system`.
pub open spec fn event_source(e: SystemEventView) -> Seq<char> {
    match e {
        SystemEventView::Log { source, .. } => source,
        SystemEventView::DaemonStatus { daemon, .. } => daemon,
        _ => "system"@,
    }
}

impl AuditLogger {
    /// The kind and source recorded for an event.
    pub fn record_fields(event: &SystemEvent) -> (r: (&'static str, String))
        ensures
            r.0@ == event_name(event@),
            r.1@ == event_source(event@),
    {
        let source = match event {
            SystemEvent::Log { source, .. } => source.clone(),
            SystemEvent::DaemonStatus { daemon, .. } => daemon.clone(),
            _ => owned("system"),
        };
        (event.name(), source)
    }
}

} // verus!
