//! Supervision of long-running daemons: when a finished daemon is started
//! again, after how long, and which events report it.
//!
//! The supervision loop itself (spawning the daemon, awaiting it, sleeping)
//! runs outside; each turn it hands the outcome of one run to
//! [`DaemonSupervision::finish`] and performs the action it returns.
use vstd::prelude::*;
use crate::bus::{SystemEvent, SystemEventView};
use crate::text::owned;
use vstd::arithmetic::power2::pow2;

verus! {

/// When a daemon is started again after it ends.
#[derive(Debug, Clone, Copy, PartialEq, Eq, Structural)]
pub enum RestartPolicy {
    /// After every end.
    Always,
    /// After an error or a panic, not after a clean stop.
    OnFailure,
    /// Never.
    Never,
}

/// How one run of a daemon ended.
pub enum DaemonOutcome {
    /// It returned without error.
    Stopped,
    /// It returned an error, with its message.
    Crashed(String),
    /// Its task panicked.
    Panicked,
}

/// How one run of a daemon ended, as plain values.
pub enum DaemonOutcomeView {
    Stopped,
    Crashed(Seq<char>),
    Panicked,
}

impl View for DaemonOutcome {
    type V = DaemonOutcomeView;

    open spec fn view(&self) -> DaemonOutcomeView {
        match self {
            DaemonOutcome::Stopped => DaemonOutcomeView::Stopped,
            DaemonOutcome::Crashed(m) => DaemonOutcomeView::Crashed(m@),
            DaemonOutcome::Panicked => DaemonOutcomeView::Panicked,
        }
    }
}

/// The supervisor of daemons.
pub struct Supervisor;

/// The longest pause between two runs, in seconds.
pub const MAX_BACKOFF_SECS: u64 = 60;

/// A run longer than this, in nanoseconds, resets the pause to one second.
pub const HEALTHY_RUN_NANOS: u128 = 5_000_000_000;

/// Whether a daemon under `policy` is started again after `outcome`.
pub open spec fn restarts(policy: RestartPolicy, outcome: DaemonOutcomeView) -> bool {
    match outcome {
        DaemonOutcomeView::Stopped => policy == RestartPolicy::Always,
        _ => policy != RestartPolicy::Never,
    }
}

/// The pause that follows one of `delay` seconds.
pub open spec fn doubled(delay: u64) -> u64 {
    if 2 * delay < MAX_BACKOFF_SECS {
        (2 * delay) as u64
    } else {
        MAX_BACKOFF_SECS
    }
}

/// The pause before the next start, given the current one and how long the
/// run lasted.
pub open spec fn delay_after(backoff: u64, elapsed_nanos: u128) -> u64 {
    if elapsed_nanos > HEALTHY_RUN_NANOS {
        1
    } else {
        backoff
    }
}

/// The events reporting the end of a run of the daemon `name`.
pub open spec fn exit_events(name: Seq<char>, outcome: DaemonOutcomeView) -> Seq<SystemEventView> {
    match outcome {
        DaemonOutcomeView::Stopped => seq![
            SystemEventView::DaemonStatus { daemon: name, status: "STOPPED"@ },
        ],
        DaemonOutcomeView::Crashed(m) => seq![
            SystemEventView::Log { level: "ERROR"@, source: name, message: m },
            SystemEventView::DaemonStatus { daemon: name, status: "CRASHED"@ },
        ],
        DaemonOutcomeView::Panicked => seq![
            SystemEventView::Log { level: "CRIT"@, source: name, message: "PANIC"@ },
            SystemEventView::DaemonStatus { daemon: name, status: "PANICKED"@ },
        ],
    }
}

/// The event reporting that the daemon `name` starts.
pub open spec fn starting_event(name: Seq<char>) -> SystemEventView {
    SystemEventView::DaemonStatus { daemon: name, status: "STARTING"@ }
}

/// What the supervision loop does after a run.
pub struct SupervisorAction {
    /// The events to emit, in order.
    pub events: Vec<SystemEvent>,
    /// The pause in seconds before the next start, or `None` to stop
    /// supervising.
    pub restart_after: Option<u64>,
}

/// The supervision of one daemon.
pub struct DaemonSupervision {
    name: String,
    policy: RestartPolicy,
    backoff: u64,
}

impl DaemonSupervision {
    /// The daemon's name.
    pub closed spec fn name_view(&self) -> Seq<char> {
        self.name@
    }

    /// The restart policy.
    pub closed spec fn policy_view(&self) -> RestartPolicy {
        self.policy
    }

    /// The pause, in seconds, before the next start after a short run.
    pub closed spec fn backoff_view(&self) -> u64 {
        self.backoff
    }

    /// The pause stays between one second and the maximum.
    pub closed spec fn wf(&self) -> bool {
        1 <= self.backoff <= MAX_BACKOFF_SECS
    }

    /// Supervision of the daemon `name` under `policy`, with a pause of one second.
    pub fn new(name: &str, policy: RestartPolicy) -> (r: DaemonSupervision)
        ensures
            r.wf(),
            r.name_view() == name@,
            r.policy_view() == policy,
            r.backoff_view() == 1,
    {
        DaemonSupervision { name: owned(name), policy, backoff: 1 }
    }

    /// The current pause in seconds.
    pub fn backoff(&self) -> (r: u64)
        ensures
            r == self.backoff_view(),
    {
        self.backoff
    }

    /// The event reporting that the daemon starts.
    pub fn start(&self) -> (e: SystemEvent)
        ensures
            e@ == starting_event(self.name_view()),
    {
        SystemEvent::DaemonStatus { daemon: self.name.clone(), status: owned("STARTING") }
    }

    /// Decides what follows a run of the daemon that ended with `outcome`
    /// after `elapsed_nanos` nanoseconds.
    ///
    /// A run longer than five seconds resets the pause to one second. The
    /// events report the end; if the policy restarts the daemon, the loop
    /// sleeps for the pause and the pause then doubles, up to a minute.
    pub fn finish(&mut self, outcome: DaemonOutcome, elapsed_nanos: u128) -> (a: SupervisorAction)
        requires
            old(self).wf(),
        ensures
            final(self).wf(),
            final(self).name_view() == old(self).name_view(),
            final(self).policy_view() == old(self).policy_view(),
            a.events@.map_values(|e: SystemEvent| e@) == exit_events(old(self).name_view(), outcome@),
            ({
                let delay = delay_after(old(self).backoff_view(), elapsed_nanos);
                if restarts(old(self).policy_view(), outcome@) {
                    &&& a.restart_after == Some(delay)
                    &&& final(self).backoff_view() == doubled(delay)
                } else {
                    &&& a.restart_after.is_none()
                    &&& final(self).backoff_view() == delay
                }
            }),
    {
        if elapsed_nanos > HEALTHY_RUN_NANOS {
            self.backoff = 1;
        }
        let ghost o = outcome@;
        let mut events: Vec<SystemEvent> = Vec::new();
        let restart = match outcome {
            DaemonOutcome::Stopped => {
                events.push(
                    SystemEvent::DaemonStatus { daemon: self.name.clone(), status: owned("STOPPED") },
                );
                self.policy == RestartPolicy::Always
            },
            DaemonOutcome::Crashed(message) => {
                events.push(
                    SystemEvent::Log {
                        level: owned("ERROR"),
                        source: self.name.clone(),
                        message,
                    },
                );
                events.push(
                    SystemEvent::DaemonStatus { daemon: self.name.clone(), status: owned("CRASHED") },
                );
                self.policy != RestartPolicy::Never
            },
            DaemonOutcome::Panicked => {
                events.push(
                    SystemEvent::Log {
                        level: owned("CRIT"),
                        source: self.name.clone(),
                        message: owned("PANIC"),
                    },
                );
                events.push(
                    SystemEvent::DaemonStatus { daemon: self.name.clone(), status: owned("PANICKED") },
                );
                self.policy != RestartPolicy::Never
            },
        };
        assert(events@.map_values(|e: SystemEvent| e@) =~= exit_events(self.name@, o));
        if !restart {
            return SupervisorAction { events, restart_after: None };
        }
        let delay = self.backoff;
        self.backoff = if delay * 2 < MAX_BACKOFF_SECS {
            delay * 2
        } else {
            MAX_BACKOFF_SECS
        };
        SupervisorAction { events, restart_after: Some(delay) }
    }
}

/// The pause after `n` consecutive short runs that were each followed by a
/// restart, starting from a fresh supervision.
pub open spec fn pause_after_short_runs(n: nat) -> u64
    decreases n,
{
    if n == 0 {
        1
    } else {
        doubled(pause_after_short_runs((n - 1) as nat))
    }
}

/// Exponential backoff: after `n` consecutive short runs the pause is
/// `2^n` seconds, up to a minute (1, 2, 4, 8, 16, 32, 60, 60, ...).
pub proof fn lemma_exponential_backoff(n: nat)
    ensures
        pause_after_short_runs(n) == (if n < 6 { pow2(n) as int } else { 60int }),
        1 <= pause_after_short_runs(n) <= MAX_BACKOFF_SECS,
    decreases n,
{
    vstd::arithmetic::power2::lemma2_to64();
    if n > 0 {
        lemma_exponential_backoff((n - 1) as nat);
    }
}

/// Restart policies: `Always` restarts after every end, `Never` after none,
/// `OnFailure` after crashes and panics but not after a clean stop.
pub proof fn lemma_restart_policies(o: DaemonOutcomeView)
    ensures
        restarts(RestartPolicy::Always, o),
        !restarts(RestartPolicy::Never, o),
        restarts(RestartPolicy::OnFailure, o) <==> !(o is Stopped),
{
}

} // verus!
