//! The scheduler's decisions: which tasks to dispatch when a goal's plan
//! arrives, and what follows a task's completion or failure. The event loop
//! that feeds it and publishes what it returns runs outside.
use vstd::prelude::*;
use crate::bus::{SystemEvent, SystemEventView};
use crate::kernel::dag::{
    has_id, index_of_id, is_acyclic, is_blocked_set, is_final, is_ready, is_topological_order, plan_tasks,
    ready_from, CycleError, DagState, ExecutionPlan, TaskNode, TaskNodeView, TaskStatus, TaskStatusView,
};
use crate::text::{owned, push_str, string_of, views};

verus! {

/// The goals in progress, each with its task graph.
pub struct CoreScheduler {
    goal_ids: Vec<String>,
    dags: Vec<DagState>,
}

/// The dispatch events for the given tasks, in order.
pub open spec fn dispatch_events(ready: Seq<TaskNodeView>) -> Seq<SystemEventView> {
    ready.map_values(
        |t: TaskNodeView|
            SystemEventView::TaskDispatched { task_id: t.id, tool: t.tool, input: t.input },
    )
}

/// The statuses after every task ready under `st` has been started.
pub open spec fn started(tasks: Seq<TaskNodeView>, st: Seq<TaskStatusView>) -> Seq<TaskStatusView> {
    Seq::new(
        st.len(),
        |j: int|
            if is_ready(tasks, st, j) {
                TaskStatusView::Running
            } else {
                st[j]
            },
    )
}

/// `after` is `before` with statuses `st`.
pub open spec fn same_graph_with(before: DagState, after: DagState, st: Seq<TaskStatusView>) -> bool {
    &&& after.wf()
    &&& after.task_views() == before.task_views()
    &&& after.goal_view() == before.goal_view()
    &&& after.order_view() == before.order_view()
    &&& after.status_views() == st
}

/// The index of the first goal whose graph has a task named `tid` (the number
/// of goals when none has).
pub open spec fn first_with_task(dags: Seq<DagState>, tid: Seq<char>, i: int) -> int
    decreases dags.len() - i,
{
    if i < 0 || i >= dags.len() {
        dags.len() as int
    } else if has_id(dags[i].task_views(), tid) {
        i
    } else {
        first_with_task(dags, tid, i + 1)
    }
}

proof fn lemma_first_with_task_range(dags: Seq<DagState>, tid: Seq<char>, i: int)
    requires
        0 <= i <= dags.len(),
    ensures
        i <= first_with_task(dags, tid, i) <= dags.len(),
        first_with_task(dags, tid, i) < dags.len() ==> has_id(
            dags[first_with_task(dags, tid, i)].task_views(),
            tid,
        ),
    decreases dags.len() - i,
{
    if i < dags.len() {
        lemma_first_with_task_range(dags, tid, i + 1);
    }
}

/// The statuses of `d` after task `tid` takes status `s`.
pub open spec fn with_status(d: DagState, tid: Seq<char>, s: TaskStatusView) -> Seq<TaskStatusView> {
    d.status_views().update(index_of_id(d.task_views(), tid), s)
}

impl CoreScheduler {
    pub closed spec fn goals(self) -> Seq<Seq<char>> {
        views(self.goal_ids@)
    }

    pub closed spec fn graphs(self) -> Seq<DagState> {
        self.dags@
    }

    /// One graph per goal, each consistent, goals distinct.
    pub closed spec fn wf(self) -> bool {
        &&& self.goal_ids@.len() == self.dags@.len()
        &&& views(self.goal_ids@).no_duplicates()
        &&& forall|i: int| 0 <= i < self.dags@.len() ==> #[trigger] self.dags@[i].wf()
    }

    pub proof fn lemma_wf(self)
        requires
            self.wf(),
        ensures
            self.goals().len() == self.graphs().len(),
            self.goals().no_duplicates(),
            forall|i: int| 0 <= i < self.graphs().len() ==> #[trigger] self.graphs()[i].wf(),
    {
    }

    /// No goal in progress.
    pub fn new() -> (r: CoreScheduler)
        ensures
            r.wf(),
            r.goals().len() == 0,
    {
        CoreScheduler { goal_ids: Vec::new(), dags: Vec::new() }
    }

    /// The number of goals in progress.
    pub fn active_count(&self) -> (r: usize)
        requires
            self.wf(),
        ensures
            r == self.goals().len(),
    {
        self.goal_ids.len()
    }

    fn find_goal(&self, gid: &String) -> (r: Option<usize>)
        requires
            self.wf(),
        ensures
            r matches Some(i) ==> i < self.goals().len() && self.goals()[i as int] == gid@,
            r is None ==> !self.goals().contains(gid@),
    {
        let mut i: usize = 0;
        while i < self.goal_ids.len()
            invariant
                i <= self.goal_ids@.len(),
                forall|k: int| 0 <= k < i ==> self.goal_ids@[k]@ != gid@,
            decreases self.goal_ids@.len() - i,
        {
            if self.goal_ids[i] == *gid {
                return Some(i);
            }
            i = i + 1;
        }
        assert forall|k: int| 0 <= k < self.goals().len() implies self.goals()[k] != gid@ by {
            assert(self.goals()[k] == self.goal_ids@[k]@);
        }
        None
    }

    /// The first goal whose graph has task `tid`.
    fn find_task_owner(&self, tid: &String) -> (r: usize)
        requires
            self.wf(),
        ensures
            r == first_with_task(self.graphs(), tid@, 0),
            r <= self.graphs().len(),
            r < self.graphs().len() ==> has_id(self.graphs()[r as int].task_views(), tid@),
    {
        proof {
            lemma_first_with_task_range(self.dags@, tid@, 0);
        }
        let mut i: usize = 0;
        while i < self.dags.len()
            invariant
                i <= self.dags@.len(),
                first_with_task(self.dags@, tid@, 0) == first_with_task(self.dags@, tid@, i as int),
            decreases self.dags@.len() - i,
        {
            if self.dags[i].has_task(tid) {
                return i;
            }
            i = i + 1;
        }
        i
    }

    /// Takes a goal's plan: builds and validates its graph, registers it (in
    /// place of an earlier graph of the same goal), starts the tasks that are
    /// ready and returns the plan event followed by their dispatch events.
    /// A plan with a dependency cycle is refused and changes nothing.
    pub fn handle_goal(&mut self, gid: String, plan: ExecutionPlan) -> (r: Result<Vec<SystemEvent>, CycleError>)
        requires
            old(self).wf(),
        ensures
            final(self).wf(),
            r is Err <==> !is_acyclic(plan_tasks(plan.steps.deep_view())),
            r matches Err(e) ==> is_blocked_set(plan_tasks(plan.steps.deep_view()), views(e.cycle@))
                && final(self).goals() == old(self).goals() && final(self).graphs() == old(self).graphs(),
            r matches Ok(events) ==> {
                let tv = plan_tasks(plan.steps.deep_view());
                let st0 = Seq::new(tv.len(), |j: int| TaskStatusView::Pending);
                &&& events.deep_view() == seq![SystemEventView::PlanCreated { goal_id: gid@, plan_goal_id: plan.goal_id@, steps: tv }]
                    + dispatch_events(ready_from(tv, st0, 0))
                &&& exists|i: int| {
                    &&& 0 <= i < final(self).goals().len()
                    &&& final(self).goals()[i] == gid@
                    &&& final(self).graphs()[i].task_views() == tv
                    &&& final(self).graphs()[i].goal_view() == plan.goal_id@
                    &&& final(self).graphs()[i].status_views() == started(tv, st0)
                    &&& is_topological_order(tv, final(self).graphs()[i].order_view())
                    &&& if old(self).goals().contains(gid@) {
                        &&& final(self).goals() == old(self).goals()
                        &&& final(self).graphs() == old(self).graphs().update(i, final(self).graphs()[i])
                    } else {
                        &&& final(self).goals() == old(self).goals().push(gid@)
                        &&& final(self).graphs() == old(self).graphs().push(final(self).graphs()[i])
                    }
                }
            },
    {
        let ghost tv = plan_tasks(plan.steps.deep_view());
        let mut dag = match DagState::new(plan) {
            Ok(d) => d,
            Err(e) => {
                return Err(e);
            },
        };
        proof {
            dag.lemma_wf();
        }
        let ghost st0 = dag.status_views();
        assert(st0 =~= Seq::new(tv.len(), |j: int| TaskStatusView::Pending));
        let mut steps: Vec<TaskNode> = Vec::new();
        let mut k: usize = 0;
        while k < dag.tasks().len()
            invariant
                k <= dag.task_views().len(),
                steps.deep_view() == dag.task_views().take(k as int),
            decreases dag.task_views().len() - k,
        {
            let ghost before = steps.deep_view();
            let c = dag.tasks()[k].copy();
            assert(c@ == dag.task_views()[k as int]);
            steps.push(c);
            assert(steps.deep_view() =~= before.push(c@));
            assert(dag.task_views().take(k + 1) =~= dag.task_views().take(k as int).push(c@));
            k = k + 1;
            assert(steps.deep_view() =~= dag.task_views().take(k as int));
        }
        assert(dag.task_views().take(dag.task_views().len() as int) =~= dag.task_views());
        let plan_goal = dag.goal_id().clone();
        let ready = dag.start_ready();
        assert(dag.status_views() =~= started(tv, st0));
        let mut events: Vec<SystemEvent> = Vec::new();
        events.push(SystemEvent::PlanCreated { goal_id: gid.clone(), plan: ExecutionPlan { goal_id: plan_goal, steps } });
        let ghost first = events.deep_view();
        let mut q: usize = 0;
        while q < ready.len()
            invariant
                q <= ready@.len(),
                events.deep_view() == first + dispatch_events(ready.deep_view().take(q as int)),
            decreases ready@.len() - q,
        {
            let t = &ready[q];
            let ghost before = events.deep_view();
            let ghost tvq = ready.deep_view()[q as int];
            assert(t@ == tvq);
            let e = SystemEvent::TaskDispatched { task_id: t.id.clone(), tool: t.tool.clone(), input: t.input.clone() };
            assert(e@ == SystemEventView::TaskDispatched { task_id: tvq.id, tool: tvq.tool, input: tvq.input });
            events.push(e);
            assert(events.deep_view() =~= before.push(e@));
            assert(ready.deep_view().take(q + 1) =~= ready.deep_view().take(q as int).push(tvq));
            assert(dispatch_events(ready.deep_view().take(q + 1)) =~= dispatch_events(ready.deep_view().take(q as int)).push(e@));
            q = q + 1;
            assert(events.deep_view() =~= first + dispatch_events(ready.deep_view().take(q as int)));
        }
        assert(ready.deep_view().take(ready@.len() as int) =~= ready.deep_view());
        match self.find_goal(&gid) {
            Some(i) => {
                let ghost old_dags = self.dags@;
                self.dags.set(i, dag);
                proof {
                    assert(self.graphs() == old_dags.update(i as int, self.graphs()[i as int]));
                    assert forall|x: int| 0 <= x < self.dags@.len() implies #[trigger] self.dags@[x].wf() by {
                        if x != i {
                            assert(self.dags@[x] == old_dags[x]);
                        }
                    }
                    assert(self.goals()[i as int] == gid@);
                }
            },
            None => {
                let ghost old_goals = self.goals();
                self.goal_ids.push(gid);
                self.dags.push(dag);
                proof {
                    assert(self.goals() =~= old_goals.push(gid@));
                    let i = self.goals().len() - 1;
                    assert(self.goals()[i] == gid@);
                    assert forall|x: int| 0 <= x < self.dags@.len() implies #[trigger] self.dags@[x].wf() by {}
                    assert forall|a: int, b: int| 0 <= a < b < self.goals().len() implies self.goals()[a] != self.goals()[b] by {
                        if b == i {
                            assert(old_goals.contains(old_goals[a]));
                        }
                    }
                }
            },
        }
        Ok(events)
    }

    /// Records that task `tid` completed with `res`, in the first goal that has
    /// such a task. When all of that goal's tasks have ended the goal is
    /// retired with a completion event (a failure event if any task failed);
    /// otherwise the tasks that became ready are started and dispatched.
    /// An unknown task changes nothing.
    pub fn handle_done(&mut self, tid: String, res: String) -> (r: Vec<SystemEvent>)
        requires
            old(self).wf(),
        ensures
            final(self).wf(),
            ({
                let i = first_with_task(old(self).graphs(), tid@, 0);
                let n = old(self).graphs().len();
                if i == n {
                    &&& final(self).goals() == old(self).goals()
                    &&& final(self).graphs() == old(self).graphs()
                    &&& r.deep_view() == Seq::<SystemEventView>::empty()
                } else {
                    let d = old(self).graphs()[i];
                    let st1 = with_status(d, tid@, TaskStatusView::Completed(res@));
                    if forall|j: int| 0 <= j < st1.len() ==> is_final(#[trigger] st1[j]) {
                        &&& final(self).goals() == old(self).goals().remove(i)
                        &&& final(self).graphs() == old(self).graphs().remove(i)
                        &&& r.deep_view() == seq![
                            if exists|j: int| 0 <= j < st1.len() && #[trigger] st1[j] is Failed {
                                SystemEventView::GoalFailed { id: old(self).goals()[i], reason: "Tasks failed"@ }
                            } else {
                                SystemEventView::GoalCompleted { id: old(self).goals()[i], result: "Done"@ }
                            },
                        ]
                    } else {
                        &&& final(self).goals() == old(self).goals()
                        &&& final(self).graphs().len() == n
                        &&& forall|q: int| 0 <= q < n && q != i ==> #[trigger] final(self).graphs()[q] == old(self).graphs()[q]
                        &&& same_graph_with(d, final(self).graphs()[i], started(d.task_views(), st1))
                        &&& r.deep_view() == dispatch_events(ready_from(d.task_views(), st1, 0))
                    }
                }
            }),
    {
        let i = self.find_task_owner(&tid);
        if i == self.dags.len() {
            return Vec::new();
        }
        let ghost old_goals = self.goals();
        let ghost old_dags = self.dags@;
        let mut d = self.dags.remove(i);
        let gid = self.goal_ids.remove(i);
        assert(self.goals() =~= old_goals.remove(i as int));
        assert(gid@ == old_goals[i as int]);
        assert(d.wf());
        let ghost d0 = d;
        let _ = d.update_status(&tid, TaskStatus::Completed(res));
        let ghost st1 = d.status_views();
        let mut events: Vec<SystemEvent> = Vec::new();
        if d.is_terminal() {
            let e = if d.any_failed() {
                SystemEvent::GoalFailed { id: gid, reason: owned("Tasks failed") }
            } else {
                SystemEvent::GoalCompleted { id: gid, result: owned("Done") }
            };
            events.push(e);
            proof {
                reveal_strlit("Tasks failed");
                reveal_strlit("Done");
                assert forall|x: int| 0 <= x < self.dags@.len() implies #[trigger] self.dags@[x].wf() by {
                    if x < i {
                        assert(self.dags@[x] == old_dags[x]);
                    } else {
                        assert(self.dags@[x] == old_dags[x + 1]);
                    }
                }
                assert forall|a: int, b: int| 0 <= a < b < self.goals().len() implies self.goals()[a] != self.goals()[b] by {
                    let a0 = if a < i { a } else { a + 1 };
                    let b0 = if b < i { b } else { b + 1 };
                    assert(self.goals()[a] == old_goals[a0]);
                    assert(self.goals()[b] == old_goals[b0]);
                }
                assert(events.deep_view() =~= seq![e@]);
            }
            events
        } else {
            let ready = d.start_ready();
            let ghost ready_v = ready.deep_view();
            self.dags.insert(i, d);
            self.goal_ids.insert(i, gid);
            proof {
                assert(self.goals() =~= old_goals);
                assert forall|q: int| 0 <= q < old_dags.len() && q != i implies #[trigger] self.dags@[q] == old_dags[q] by {}
                assert forall|x: int| 0 <= x < self.dags@.len() implies #[trigger] self.dags@[x].wf() by {
                    if x != i {
                        assert(self.dags@[x] == old_dags[x]);
                    }
                }
                assert(self.dags@[i as int].status_views() =~= started(d0.task_views(), st1));
            }
            let mut q: usize = 0;
            while q < ready.len()
                invariant
                    q <= ready@.len(),
                    ready_v == ready.deep_view(),
                    events.deep_view() == dispatch_events(ready_v.take(q as int)),
                decreases ready@.len() - q,
            {
                let t = &ready[q];
                let ghost before = events.deep_view();
                let ghost tvq = ready_v[q as int];
                assert(t@ == tvq);
                let e = SystemEvent::TaskDispatched { task_id: t.id.clone(), tool: t.tool.clone(), input: t.input.clone() };
                assert(e@ == SystemEventView::TaskDispatched { task_id: tvq.id, tool: tvq.tool, input: tvq.input });
                events.push(e);
                assert(events.deep_view() =~= before.push(e@));
                assert(ready_v.take(q + 1) =~= ready_v.take(q as int).push(tvq));
                assert(dispatch_events(ready_v.take(q + 1)) =~= dispatch_events(ready_v.take(q as int)).push(e@));
                q = q + 1;
            }
            assert(ready_v.take(ready@.len() as int) =~= ready_v);
            events
        }
    }

    /// Records that task `tid` failed with `err`, in the first goal that has
    /// such a task: the task is marked failed, the goal's pending tasks are
    /// cancelled, the goal is retired and a failure event names the task and
    /// the error. An unknown task changes nothing.
    pub fn handle_fail(&mut self, tid: String, err: String) -> (r: Vec<SystemEvent>)
        requires
            old(self).wf(),
        ensures
            final(self).wf(),
            ({
                let i = first_with_task(old(self).graphs(), tid@, 0);
                if i == old(self).graphs().len() {
                    &&& final(self).goals() == old(self).goals()
                    &&& final(self).graphs() == old(self).graphs()
                    &&& r.deep_view() == Seq::<SystemEventView>::empty()
                } else {
                    &&& final(self).goals() == old(self).goals().remove(i)
                    &&& final(self).graphs() == old(self).graphs().remove(i)
                    &&& r.deep_view() == seq![
                        SystemEventView::GoalFailed {
                            id: old(self).goals()[i],
                            reason: "Task "@ + tid@ + " failed: "@ + err@,
                        },
                    ]
                }
            }),
    {
        let i = self.find_task_owner(&tid);
        if i == self.dags.len() {
            return Vec::new();
        }
        let ghost old_goals = self.goals();
        let ghost old_dags = self.dags@;
        let mut d = self.dags.remove(i);
        let gid = self.goal_ids.remove(i);
        assert(self.goals() =~= old_goals.remove(i as int));
        assert(gid@ == old_goals[i as int]);
        let mut reason: Vec<char> = Vec::new();
        push_str(&mut reason, "Task ");
        push_str(&mut reason, tid.as_str());
        push_str(&mut reason, " failed: ");
        push_str(&mut reason, err.as_str());
        let _ = d.update_status(&tid, TaskStatus::Failed(err));
        d.cancel_pending();
        let mut events: Vec<SystemEvent> = Vec::new();
        let e = SystemEvent::GoalFailed { id: gid, reason: string_of(reason.as_slice()) };
        events.push(e);
        proof {
            assert forall|x: int| 0 <= x < self.dags@.len() implies #[trigger] self.dags@[x].wf() by {
                if x < i {
                    assert(self.dags@[x] == old_dags[x]);
                } else {
                    assert(self.dags@[x] == old_dags[x + 1]);
                }
            }
            assert forall|a: int, b: int| 0 <= a < b < self.goals().len() implies self.goals()[a] != self.goals()[b] by {
                let a0 = if a < i { a } else { a + 1 };
                let b0 = if b < i { b } else { b + 1 };
                assert(self.goals()[a] == old_goals[a0]);
                assert(self.goals()[b] == old_goals[b0]);
            }
            assert(events.deep_view() =~= seq![e@]);
        }
        events
    }
}

} // verus!
