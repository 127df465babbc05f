//! What each bus event does to the task and goal metrics, and the clock of
//! running tasks from which their durations are measured. Exporting the
//! metrics happens outside.
use vstd::prelude::*;
use crate::bus::{SystemEvent, SystemEventView};
use crate::text_map::TextMap;

verus! {

/// The change an event makes to the metrics.
#[derive(Debug, Clone)]
pub enum MetricUpdate {
    /// One more task dispatched; its clock starts.
    TaskDispatched(String),
    /// A task completed; counted, with its duration, if its start is known.
    TaskCompleted(String),
    /// One more task failed.
    TaskFailed,
    /// One more active goal.
    GoalOpened,
    /// One fewer active goal.
    GoalClosed,
    /// No change.
    Unchanged,
}

/// The change an event makes, as plain values.
pub enum MetricUpdateView {
    TaskDispatched(Seq<char>),
    TaskCompleted(Seq<char>),
    TaskFailed,
    GoalOpened,
    GoalClosed,
    Unchanged,
}

impl View for MetricUpdate {
    type V = MetricUpdateView;

    open spec fn view(&self) -> MetricUpdateView {
        match self {
            MetricUpdate::TaskDispatched(t) => MetricUpdateView::TaskDispatched(t@),
            MetricUpdate::TaskCompleted(t) => MetricUpdateView::TaskCompleted(t@),
            MetricUpdate::TaskFailed => MetricUpdateView::TaskFailed,
            MetricUpdate::GoalOpened => MetricUpdateView::GoalOpened,
            MetricUpdate::GoalClosed => MetricUpdateView::GoalClosed,
            MetricUpdate::Unchanged => MetricUpdateView::Unchanged,
        }
    }
}

/// The change an event makes to the metrics.
pub open spec fn update_of(e: SystemEventView) -> MetricUpdateView {
    match e {
        SystemEventView::TaskDispatched { task_id, .. } => MetricUpdateView::TaskDispatched(task_id),
        SystemEventView::TaskCompleted { task_id, .. } => MetricUpdateView::TaskCompleted(task_id),
        SystemEventView::TaskFailed { .. } => MetricUpdateView::TaskFailed,
        SystemEventView::GoalCreated { .. } => MetricUpdateView::GoalOpened,
        SystemEventView::GoalCompleted { .. } | SystemEventView::GoalFailed { .. } => MetricUpdateView::GoalClosed,
        _ => MetricUpdateView::Unchanged,
    }
}

/// The change an event makes to the metrics.
pub fn metric_update(e: &SystemEvent) -> (u: MetricUpdate)
    ensures
        u@ == update_of(e@),
{
    match e {
        SystemEvent::TaskDispatched { task_id, .. } => MetricUpdate::TaskDispatched(task_id.clone()),
        SystemEvent::TaskCompleted { task_id, .. } => MetricUpdate::TaskCompleted(task_id.clone()),
        SystemEvent::TaskFailed { .. } => MetricUpdate::TaskFailed,
        SystemEvent::GoalCreated { .. } => MetricUpdate::GoalOpened,
        SystemEvent::GoalCompleted { .. } | SystemEvent::GoalFailed { .. } => MetricUpdate::GoalClosed,
        _ => MetricUpdate::Unchanged,
    }
}

/// The start times of running tasks, by task id.
pub struct TaskClock {
    starts: TextMap<u64>,
}

impl TaskClock {
    /// The ids of running tasks.
    pub closed spec fn running(&self) -> Seq<Seq<char>> {
        self.starts.key_seq()
    }

    /// Their start times, in the order of their ids.
    pub closed spec fn start_times(&self) -> Seq<u64> {
        self.starts.val_seq()
    }

    pub closed spec fn wf(&self) -> bool {
        self.starts.wf()
    }

    /// The ids of running tasks, as a set.
    pub open spec fn running_set(&self) -> Set<Seq<char>> {
        Set::new(|k: Seq<char>| self.running().contains(k))
    }

    /// No task running.
    pub fn new() -> (c: TaskClock)
        ensures
            c.wf(),
            c.running().len() == 0,
    {
        TaskClock { starts: TextMap::new() }
    }

    /// Starts (or restarts) the clock of `task_id` at `now`.
    pub fn start(&mut self, task_id: &str, now: u64)
        requires
            old(self).wf(),
        ensures
            final(self).wf(),
            final(self).running().contains(task_id@),
            final(self).running_set() == old(self).running_set().insert(task_id@),
            exists|i: int|
                0 <= i < final(self).running().len() && #[trigger] final(self).running()[i] == task_id@
                    && final(self).start_times()[i] == now,
    {
        proof {
            self.starts.lemma_wf();
        }
        let ghost k0 = self.starts.key_seq();
        let ghost v0 = self.starts.val_seq();
        self.starts.insert(crate::text::owned(task_id), now);
        proof {
            self.starts.lemma_wf();
            if k0.contains(task_id@) {
                let j = choose|j: int|
                    0 <= j < k0.len() && #[trigger] k0[j] == task_id@ && self.starts.key_seq() == k0
                        && self.starts.val_seq() == v0.update(j, now);
                assert(self.running()[j] == task_id@);
            } else {
                assert(self.running()[k0.len() as int] == task_id@);
            }
            assert forall|k: Seq<char>| #[trigger] self.running().contains(k) == (k0.contains(k) || k == task_id@) by {
                if !k0.contains(task_id@) {
                    assert(self.running() == k0.push(task_id@));
                    if k0.contains(k) {
                        let i = choose|i: int| 0 <= i < k0.len() && k0[i] == k;
                        assert(self.running()[i] == k);
                    }
                    if self.running().contains(k) {
                        let i = choose|i: int| 0 <= i < self.running().len() && self.running()[i] == k;
                        if i < k0.len() {
                            assert(k0[i] == k);
                        }
                    }
                }
            }
            assert(self.running_set() =~= old(self).running_set().insert(task_id@));
        }
    }

    /// Stops the clock of `task_id`: its start time, if it was running.
    pub fn finish(&mut self, task_id: &str) -> (r: Option<u64>)
        requires
            old(self).wf(),
        ensures
            final(self).wf(),
            !final(self).running().contains(task_id@),
            final(self).running_set() == old(self).running_set().remove(task_id@),
            match r {
                Some(t) => exists|i: int|
                    0 <= i < old(self).running().len() && #[trigger] old(self).running()[i] == task_id@
                        && old(self).start_times()[i] == t,
                None => !old(self).running().contains(task_id@),
            },
    {
        proof {
            self.starts.lemma_wf();
        }
        let start = match self.starts.get(task_id) {
            Some(t) => Some(*t),
            None => None,
        };
        let removed = self.starts.remove(task_id);
        proof {
            self.starts.lemma_wf();
            assert forall|x: int| 0 <= x < self.running().len() implies self.running()[x] != task_id@ by {
                if removed {
                    let i = choose|i: int|
                        0 <= i < old(self).running().len() && #[trigger] old(self).running()[i] == task_id@
                            && self.running() == old(self).running().remove(i)
                            && self.start_times() == old(self).start_times().remove(i);
                    let x0 = if x < i { x } else { x + 1 };
                    assert(self.running()[x] == old(self).running()[x0]);
                    assert(x0 != i);
                }
            }
            assert forall|k: Seq<char>| #[trigger] self.running().contains(k) == (old(self).running().contains(k) && k != task_id@) by {
                if removed {
                    let i = choose|i: int|
                        0 <= i < old(self).running().len() && #[trigger] old(self).running()[i] == task_id@
                            && self.running() == old(self).running().remove(i)
                            && self.start_times() == old(self).start_times().remove(i);
                    if self.running().contains(k) {
                        let x = choose|x: int| 0 <= x < self.running().len() && self.running()[x] == k;
                        let x0 = if x < i { x } else { x + 1 };
                        assert(old(self).running()[x0] == k);
                    }
                    if old(self).running().contains(k) && k != task_id@ {
                        let x0 = choose|x: int| 0 <= x < old(self).running().len() && old(self).running()[x] == k;
                        assert(x0 != i);
                        let x = if x0 < i { x0 } else { x0 - 1 };
                        assert(self.running()[x] == k);
                    }
                }
            }
            assert(self.running_set() =~= old(self).running_set().remove(task_id@));
        }
        start
    }
}


/// A number for each kind of change.
pub open spec fn update_kind(u: MetricUpdateView) -> nat {
    match u {
        MetricUpdateView::TaskDispatched(_) => 0,
        MetricUpdateView::TaskCompleted(_) => 1,
        MetricUpdateView::TaskFailed => 2,
        MetricUpdateView::GoalOpened => 3,
        MetricUpdateView::GoalClosed => 4,
        MetricUpdateView::Unchanged => 5,
    }
}

/// How many of the changes `us` are of kind `k`.
pub open spec fn kind_count(us: Seq<MetricUpdateView>, k: nat) -> nat
    decreases us.len(),
{
    if us.len() == 0 {
        0
    } else {
        kind_count(us.drop_last(), k) + if update_kind(us.last()) == k {
            1nat
        } else {
            0nat
        }
    }
}

/// The tasks running after the changes `us`: dispatched and not completed since.
pub open spec fn running_after(us: Seq<MetricUpdateView>) -> Set<Seq<char>>
    decreases us.len(),
{
    if us.len() == 0 {
        Set::empty()
    } else {
        let r = running_after(us.drop_last());
        match us.last() {
            MetricUpdateView::TaskDispatched(id) => r.insert(id),
            MetricUpdateView::TaskCompleted(id) => r.remove(id),
            _ => r,
        }
    }
}

/// How many of the changes `us` complete a task that was running.
pub open spec fn completed_after(us: Seq<MetricUpdateView>) -> nat
    decreases us.len(),
{
    if us.len() == 0 {
        0
    } else {
        completed_after(us.drop_last()) + match us.last() {
            MetricUpdateView::TaskCompleted(id) => if running_after(us.drop_last()).contains(id) {
                1nat
            } else {
                0nat
            },
            _ => 0nat,
        }
    }
}

proof fn lemma_counts_bounded(us: Seq<MetricUpdateView>)
    ensures
        forall|k: nat| #[trigger] kind_count(us, k) <= us.len(),
        completed_after(us) <= us.len(),
    decreases us.len(),
{
    if us.len() > 0 {
        lemma_counts_bounded(us.drop_last());
        assert forall|k: nat| #[trigger] kind_count(us, k) <= us.len() by {
            assert(kind_count(us.drop_last(), k) <= us.drop_last().len());
        }
    }
}

/// The task and goal counters kept from the events of the bus.
pub struct MetricsState {
    tasks_total: u64,
    tasks_completed: u64,
    tasks_failed: u64,
    goals_opened: u64,
    goals_closed: u64,
    events: u64,
    clock: TaskClock,
    seen: Ghost<Seq<MetricUpdateView>>,
}

impl MetricsState {
    /// The changes of the events taken in so far, in order.
    pub closed spec fn seen(&self) -> Seq<MetricUpdateView> {
        self.seen@
    }

    /// The counters are those of the changes taken in: dispatched tasks,
    /// tasks completed while running, failed tasks, opened and closed goals;
    /// the clock runs exactly the tasks dispatched and not yet completed.
    pub closed spec fn wf(&self) -> bool {
        &&& self.clock.wf()
        &&& self.events == self.seen@.len()
        &&& self.tasks_total == kind_count(self.seen@, 0)
        &&& self.tasks_completed == completed_after(self.seen@)
        &&& self.tasks_failed == kind_count(self.seen@, 2)
        &&& self.goals_opened == kind_count(self.seen@, 3)
        &&& self.goals_closed == kind_count(self.seen@, 4)
        &&& self.clock.running_set() == running_after(self.seen@)
    }

    /// No event taken in.
    pub fn new() -> (m: MetricsState)
        ensures
            m.wf(),
            m.seen().len() == 0,
    {
        let m = MetricsState {
            tasks_total: 0,
            tasks_completed: 0,
            tasks_failed: 0,
            goals_opened: 0,
            goals_closed: 0,
            events: 0,
            clock: TaskClock::new(),
            seen: Ghost(Seq::empty()),
        };
        assert(m.clock.running_set() =~= Set::<Seq<char>>::empty());
        m
    }

    /// How many events were taken in.
    pub fn events_seen(&self) -> (n: u64)
        requires
            self.wf(),
        ensures
            n == self.seen().len(),
    {
        self.events
    }

    /// Tasks dispatched.
    pub fn tasks_total(&self) -> (n: u64)
        requires
            self.wf(),
        ensures
            n == kind_count(self.seen(), 0),
    {
        self.tasks_total
    }

    /// Tasks completed while running.
    pub fn tasks_completed(&self) -> (n: u64)
        requires
            self.wf(),
        ensures
            n == completed_after(self.seen()),
    {
        self.tasks_completed
    }

    /// Tasks failed.
    pub fn tasks_failed(&self) -> (n: u64)
        requires
            self.wf(),
        ensures
            n == kind_count(self.seen(), 2),
    {
        self.tasks_failed
    }

    /// Goals opened and goals closed; the active goals are their difference.
    pub fn goals(&self) -> (r: (u64, u64))
        requires
            self.wf(),
        ensures
            r.0 == kind_count(self.seen(), 3),
            r.1 == kind_count(self.seen(), 4),
    {
        (self.goals_opened, self.goals_closed)
    }

    /// Takes in an event that arrived at time `now`; for a completed task
    /// that was running, its duration in the clock's unit.
    pub fn apply(&mut self, e: &SystemEvent, now: u64) -> (duration: Option<u64>)
        requires
            old(self).wf(),
            old(self).seen().len() < u64::MAX,
        ensures
            final(self).wf(),
            final(self).seen() == old(self).seen().push(update_of(e@)),
            duration is Some <==> (update_of(e@) matches MetricUpdateView::TaskCompleted(id)
                && running_after(old(self).seen()).contains(id)),
    {
        proof {
            lemma_counts_bounded(self.seen@);
            assert(kind_count(self.seen@, 0) <= self.seen@.len());
            assert(kind_count(self.seen@, 2) <= self.seen@.len());
            assert(kind_count(self.seen@, 3) <= self.seen@.len());
            assert(kind_count(self.seen@, 4) <= self.seen@.len());
        }
        let u = metric_update(e);
        let ghost s0 = self.seen@;
        let ghost s1 = s0.push(u@);
        assert(s1.drop_last() =~= s0);
        let mut duration: Option<u64> = None;
        match u {
            MetricUpdate::TaskDispatched(id) => {
                self.tasks_total = self.tasks_total + 1;
                self.clock.start(id.as_str(), now);
            },
            MetricUpdate::TaskCompleted(id) => {
                let was = self.clock.finish(id.as_str());
                match was {
                    Some(start) => {
                        self.tasks_completed = self.tasks_completed + 1;
                        duration = Some(if now >= start { now - start } else { 0 });
                    },
                    None => {},
                }
            },
            MetricUpdate::TaskFailed => {
                self.tasks_failed = self.tasks_failed + 1;
            },
            MetricUpdate::GoalOpened => {
                self.goals_opened = self.goals_opened + 1;
            },
            MetricUpdate::GoalClosed => {
                self.goals_closed = self.goals_closed + 1;
            },
            MetricUpdate::Unchanged => {},
        }
        self.events = self.events + 1;
        self.seen = Ghost(s1);
        proof {
            assert(self.clock.running_set() =~= running_after(s1));
        }
        duration
    }
}


/// The changes a sequence of events makes, in order.
pub open spec fn updates_of(es: Seq<SystemEventView>) -> Seq<MetricUpdateView> {
    es.map_values(|e: SystemEventView| update_of(e))
}

impl MetricsState {
    /// The counters after the events `events`, taken in order from none.
    pub fn from_events(events: &Vec<SystemEvent>) -> (m: MetricsState)
        requires
            events@.len() < u64::MAX,
        ensures
            m.wf(),
            m.seen() == updates_of(events@.map_values(|e: SystemEvent| e@)),
    {
        let mut m = MetricsState::new();
        let ghost ev = events@.map_values(|e: SystemEvent| e@);
        let mut i: usize = 0;
        while i < events.len()
            invariant
                i <= events@.len() < u64::MAX,
                m.wf(),
                ev == events@.map_values(|e: SystemEvent| e@),
                m.seen() == updates_of(ev.take(i as int)),
            decreases events@.len() - i,
        {
            let _ = m.apply(&events[i], 0);
            assert(updates_of(ev.take(i + 1)) =~= updates_of(ev.take(i as int)).push(update_of(events@[i as int]@)));
            i = i + 1;
        }
        assert(ev.take(i as int) =~= ev);
        m
    }
}

} // verus!
