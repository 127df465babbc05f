//! Task graphs: validation with cycle detection, topological order and
//! the status bookkeeping of one goal's tasks.
use vstd::prelude::*;
use crate::text::{concat2, join, join_strings, views};

verus! {

/// One step of an execution plan.
#[derive(Debug, Clone)]
pub struct TaskNode {
    pub id: String,
    pub tool: String,
    pub input: String,
    pub depends_on: Vec<String>,
}

/// The plan produced for a goal.
#[derive(Debug, Clone)]
pub struct ExecutionPlan {
    pub goal_id: String,
    pub steps: Vec<TaskNode>,
}

/// The state of one task.
#[derive(Debug, Clone)]
pub enum TaskStatus {
    Pending,
    Running,
    Completed(String),
    Failed(String),
    Cancelled,
}

/// The graph has a dependency cycle; `cycle` lists the tasks that could not be ordered.
#[derive(Debug, Clone)]
pub struct CycleError {
    pub cycle: Vec<String>,
}

/// A task as plain values.
pub struct TaskNodeView {
    pub id: Seq<char>,
    pub tool: Seq<char>,
    pub input: Seq<char>,
    pub depends_on: Seq<Seq<char>>,
}

impl View for TaskNode {
    type V = TaskNodeView;

    open spec fn view(&self) -> TaskNodeView {
        TaskNodeView {
            id: self.id@,
            tool: self.tool@,
            input: self.input@,
            depends_on: views(self.depends_on@),
        }
    }
}

impl DeepView for TaskNode {
    type V = TaskNodeView;

    open spec fn deep_view(&self) -> TaskNodeView {
        self@
    }
}

/// A status as plain values.
pub enum TaskStatusView {
    Pending,
    Running,
    Completed(Seq<char>),
    Failed(Seq<char>),
    Cancelled,
}

impl View for TaskStatus {
    type V = TaskStatusView;

    open spec fn view(&self) -> TaskStatusView {
        match self {
            TaskStatus::Pending => TaskStatusView::Pending,
            TaskStatus::Running => TaskStatusView::Running,
            TaskStatus::Completed(s) => TaskStatusView::Completed(s@),
            TaskStatus::Failed(s) => TaskStatusView::Failed(s@),
            TaskStatus::Cancelled => TaskStatusView::Cancelled,
        }
    }
}

impl DeepView for TaskStatus {
    type V = TaskStatusView;

    open spec fn deep_view(&self) -> TaskStatusView {
        self@
    }
}

/// A copy of a list of strings.
pub fn clone_strings(v: &Vec<String>) -> (r: Vec<String>)
    ensures
        r@ == v@,
{
    let mut r: Vec<String> = Vec::new();
    let mut i: usize = 0;
    while i < v.len()
        invariant
            i <= v@.len(),
            r@ == v@.take(i as int),
        decreases v@.len() - i,
    {
        r.push(v[i].clone());
        i = i + 1;
        assert(r@ =~= v@.take(i as int));
    }
    assert(v@.take(v@.len() as int) =~= v@);
    r
}

impl CycleError {
    /// The error's message: the tasks that could not be ordered, joined by arrows.
    pub fn message(&self) -> (r: String)
        ensures
            r@ == "Cycle detected: "@ + join(views(self.cycle@), " -> "@),
    {
        let tasks = join_strings(&self.cycle, " -> ");
        concat2("Cycle detected: ", tasks.as_str())
    }
}

impl TaskNode {
    /// A field-by-field copy.
    pub fn copy(&self) -> (r: TaskNode)
        ensures
            r@ == self@,
    {
        TaskNode {
            id: self.id.clone(),
            tool: self.tool.clone(),
            input: self.input.clone(),
            depends_on: clone_strings(&self.depends_on),
        }
    }
}

impl TaskStatus {
    pub fn copy(&self) -> (r: TaskStatus)
        ensures
            r@ == self@,
    {
        match self {
            TaskStatus::Pending => TaskStatus::Pending,
            TaskStatus::Running => TaskStatus::Running,
            TaskStatus::Completed(s) => TaskStatus::Completed(s.clone()),
            TaskStatus::Failed(s) => TaskStatus::Failed(s.clone()),
            TaskStatus::Cancelled => TaskStatus::Cancelled,
        }
    }
}

/// The identifiers of the tasks, in order.
pub open spec fn ids(tasks: Seq<TaskNodeView>) -> Seq<Seq<char>> {
    tasks.map_values(|t: TaskNodeView| t.id)
}

/// Some task has identifier `d`.
pub open spec fn has_id(tasks: Seq<TaskNodeView>, d: Seq<char>) -> bool {
    ids(tasks).contains(d)
}

/// `order` lists every task exactly once, and each task after all of its
/// dependencies that name a task of the graph (dependencies on unknown
/// identifiers impose no order).
pub open spec fn is_topological_order(tasks: Seq<TaskNodeView>, order: Seq<Seq<char>>) -> bool {
    &&& order.no_duplicates()
    &&& forall|q: int| 0 <= q < order.len() ==> has_id(tasks, #[trigger] order[q])
    &&& forall|j: int| 0 <= j < tasks.len() ==> order.contains(#[trigger] tasks[j].id)
    &&& forall|q: int, j: int, k: int|
        #![trigger order[q], tasks[j].depends_on[k]]
        0 <= q < order.len() && 0 <= j < tasks.len() && tasks[j].id == order[q] && 0 <= k
            < tasks[j].depends_on.len() && has_id(tasks, tasks[j].depends_on[k]) ==> order.take(q).contains(
            tasks[j].depends_on[k],
        )
}

/// Some ordering of the tasks respects all their dependencies.
pub open spec fn is_acyclic(tasks: Seq<TaskNodeView>) -> bool {
    exists|order: Seq<Seq<char>>| is_topological_order(tasks, order)
}

/// `cycle` is exactly the set of tasks that no ordering can place: each of
/// them depends on another one of them, and every other task depends only on
/// tasks outside it.
pub open spec fn is_blocked_set(tasks: Seq<TaskNodeView>, cycle: Seq<Seq<char>>) -> bool {
    &&& cycle.len() > 0
    &&& cycle.no_duplicates()
    &&& forall|q: int| 0 <= q < cycle.len() ==> has_id(tasks, #[trigger] cycle[q])
    &&& forall|j: int|
        0 <= j < tasks.len() && cycle.contains(#[trigger] tasks[j].id) ==> exists|k: int|
            0 <= k < tasks[j].depends_on.len() && cycle.contains(#[trigger] tasks[j].depends_on[k])
    &&& forall|j: int, k: int|
        0 <= j < tasks.len() && !cycle.contains(#[trigger] tasks[j].id) && 0 <= k
            < tasks[j].depends_on.len() && has_id(tasks, #[trigger] tasks[j].depends_on[k])
            ==> !cycle.contains(tasks[j].depends_on[k])
}

/// The index of the task named `id`.
fn find_task(tasks: &Vec<TaskNode>, id: &String) -> (r: Option<usize>)
    ensures
        r matches Some(i) ==> i < tasks@.len() && tasks.deep_view()[i as int].id == id@,
        r is None ==> !has_id(tasks.deep_view(), id@),
{
    let mut i: usize = 0;
    while i < tasks.len()
        invariant
            i <= tasks@.len(),
            forall|k: int| 0 <= k < i ==> tasks@[k].id@ != id@,
        decreases tasks@.len() - i,
    {
        if tasks[i].id == *id {
            return Some(i);
        }
        i = i + 1;
    }
    assert forall|k: int| 0 <= k < ids(tasks.deep_view()).len() implies ids(tasks.deep_view())[k] != id@ by {}
    None
}


/// Indices of the tasks each task depends on: entry `i` is in row `j` exactly
/// when a dependency listed by task `j` names task `i`.
fn dependency_indices(tasks: &Vec<TaskNode>) -> (deps: Vec<Vec<usize>>)
    requires
        ids(tasks.deep_view()).no_duplicates(),
    ensures
        deps@.len() == tasks@.len(),
        forall|j: int, i: usize|
            0 <= j < deps@.len() ==> (#[trigger] deps@[j]@.contains(i) <==> (i < tasks@.len()
                && tasks.deep_view()[j].depends_on.contains(tasks.deep_view()[i as int].id))),
{
    let ghost tv = tasks.deep_view();
    let n = tasks.len();
    let mut deps: Vec<Vec<usize>> = Vec::new();
    let mut j: usize = 0;
    while j < n
        invariant
            n == tasks@.len(),
            tv == tasks.deep_view(),
            ids(tv).no_duplicates(),
            j <= n,
            deps@.len() == j,
            forall|j2: int, i: usize|
                0 <= j2 < j ==> (#[trigger] deps@[j2]@.contains(i) <==> (i < n
                    && tv[j2].depends_on.contains(tv[i as int].id))),
        decreases n - j,
    {
        let mut row: Vec<usize> = Vec::new();
        let mut k: usize = 0;
        let m = tasks[j].depends_on.len();
        let ghost dj = tv[j as int].depends_on;
        assert(dj == views(tasks@[j as int].depends_on@));
        while k < m
            invariant
                n == tasks@.len(),
                tv == tasks.deep_view(),
                ids(tv).no_duplicates(),
                j < n,
                m == tasks@[j as int].depends_on@.len(),
                dj == tv[j as int].depends_on,
                dj == views(tasks@[j as int].depends_on@),
                k <= m,
                forall|i: usize|
                    #[trigger] row@.contains(i) <==> (i < n && dj.take(k as int).contains(
                        tv[i as int].id,
                    )),
            decreases m - k,
        {
            let ghost d = dj[k as int];
            let ghost t1 = dj.take(k + 1);
            assert(t1 =~= dj.take(k as int).push(d));
            match find_task(tasks, &tasks[j].depends_on[k]) {
                Some(i) => {
                    let ghost old_row = row@;
                    row.push(i);
                    proof {
                        assert forall|i2: usize|
                            #[trigger] row@.contains(i2) <==> (i2 < n && t1.contains(
                                tv[i2 as int].id,
                            )) by {
                            if row@.contains(i2) {
                                if i2 != i {
                                    let w = choose|w: int| 0 <= w < row@.len() && row@[w] == i2;
                                    assert(old_row[w] == i2);
                                    assert(old_row.contains(i2));
                                    let pre = dj.take(k as int);
                                    assert(pre.contains(tv[i2 as int].id));
                                    let w3 = choose|w3: int| 0 <= w3 < pre.len() && pre[w3] == tv[i2 as int].id;
                                    assert(t1[w3] == tv[i2 as int].id);
                                } else {
                                    assert(t1[k as int] == d);
                                    assert(d == tasks@[j as int].depends_on@[k as int]@);
                                }
                            }
                            if i2 < n && t1.contains(tv[i2 as int].id) {
                                if tv[i2 as int].id == d {
                                    assert(ids(tv)[i2 as int] == ids(tv)[i as int]);
                                    assert(i2 == i);
                                    assert(row@[row@.len() - 1] == i);
                                } else {
                                    let w = choose|w: int|
                                        0 <= w < t1.len() && t1[w]
                                            == tv[i2 as int].id;
                                    assert(dj.take(k as int)[w] == tv[i2 as int].id);
                                    assert(old_row.contains(i2));
                                    let w2 = choose|w2: int|
                                        0 <= w2 < old_row.len() && old_row[w2] == i2;
                                    assert(row@[w2] == i2);
                                }
                            }
                        }
                    }
                },
                None => {
                    proof {
                        assert forall|i2: usize|
                            #[trigger] row@.contains(i2) <==> (i2 < n && t1.contains(
                                tv[i2 as int].id,
                            )) by {
                            if i2 < n && t1.contains(tv[i2 as int].id) {
                                if tv[i2 as int].id == d {
                                    assert(ids(tv)[i2 as int] == d);
                                    assert(has_id(tv, d));
                                } else {
                                    let w = choose|w: int|
                                        0 <= w < t1.len() && t1[w]
                                            == tv[i2 as int].id;
                                    assert(dj.take(k as int)[w] == tv[i2 as int].id);
                                }
                            }
                        }
                    }
                },
            }
            k = k + 1;
        }
        assert(dj.take(m as int) =~= dj);
        deps.push(row);
        j = j + 1;
    }
    deps
}

/// Whether every index in `row` is marked in `placed`.
fn all_marked(row: &Vec<usize>, placed: &Vec<bool>) -> (b: bool)
    requires
        forall|m: int| 0 <= m < row@.len() ==> row@[m] < placed@.len(),
    ensures
        b == (forall|i: usize| #[trigger] row@.contains(i) ==> placed@[i as int]),
{
    let mut m: usize = 0;
    while m < row.len()
        invariant
            m <= row@.len(),
            forall|m2: int| 0 <= m2 < row@.len() ==> row@[m2] < placed@.len(),
            forall|m2: int| 0 <= m2 < m ==> placed@[row@[m2] as int],
        decreases row@.len() - m,
    {
        if !placed[row[m]] {
            assert(row@.contains(row@[m as int]));
            return false;
        }
        m = m + 1;
    }
    true
}

/// Tasks with no unplaced-dependency witness cannot stay on a blocked set:
/// every position of a valid order holds a task outside it.
proof fn lemma_order_avoids_blocked(
    tasks: Seq<TaskNodeView>,
    cycle: Seq<Seq<char>>,
    order: Seq<Seq<char>>,
    p: int,
)
    requires
        is_blocked_set(tasks, cycle),
        is_topological_order(tasks, order),
        0 <= p <= order.len(),
    ensures
        forall|r: int| 0 <= r < p ==> !cycle.contains(#[trigger] order[r]),
    decreases p,
{
    if p > 0 {
        lemma_order_avoids_blocked(tasks, cycle, order, p - 1);
        let x = order[p - 1];
        if cycle.contains(x) {
            assert(has_id(tasks, x));
            let j = choose|j: int| 0 <= j < ids(tasks).len() && ids(tasks)[j] == x;
            assert(tasks[j].id == x);
            assert(cycle.contains(tasks[j].id));
            let k = choose|k: int|
                0 <= k < tasks[j].depends_on.len() && cycle.contains(#[trigger] tasks[j].depends_on[k]);
            let d = tasks[j].depends_on[k];
            let c = choose|c: int| 0 <= c < cycle.len() && cycle[c] == d;
            assert(has_id(tasks, cycle[c]));
            let pre = order.take(p - 1);
            assert(pre.contains(d));
            let r = choose|r: int| 0 <= r < pre.len() && pre[r] == d;
            assert(order[r] == d);
            assert(!cycle.contains(order[r]));
        }
    }
}

/// A blocked set rules out every topological order.
pub proof fn lemma_blocked_not_acyclic(tasks: Seq<TaskNodeView>, cycle: Seq<Seq<char>>)
    requires
        is_blocked_set(tasks, cycle),
    ensures
        !is_acyclic(tasks),
{
    assert forall|order: Seq<Seq<char>>| !is_topological_order(tasks, order) by {
        if is_topological_order(tasks, order) {
            lemma_order_avoids_blocked(tasks, cycle, order, order.len() as int);
            let x = cycle[0];
            assert(has_id(tasks, x));
            let j = choose|j: int| 0 <= j < ids(tasks).len() && ids(tasks)[j] == x;
            assert(order.contains(tasks[j].id));
            let r = choose|r: int| 0 <= r < order.len() && order[r] == tasks[j].id;
            assert(cycle.contains(order[r]));
        }
    }
}


/// Topological ordering by Kahn's algorithm (tasks with no unplaced
/// dependency are placed first-in, first-out). Fails with the tasks that
/// could not be placed when the graph has a cycle.
pub fn validate_and_sort(tasks: &Vec<TaskNode>) -> (r: Result<Vec<String>, CycleError>)
    requires
        ids(tasks.deep_view()).no_duplicates(),
    ensures
        r matches Ok(order) ==> is_topological_order(tasks.deep_view(), views(order@)),
        r matches Err(e) ==> is_blocked_set(tasks.deep_view(), views(e.cycle@)),
        r is Err <==> !is_acyclic(tasks.deep_view()),
{
    let ghost tv = tasks.deep_view();
    let n = tasks.len();
    let deps = dependency_indices(tasks);
    let mut queue: Vec<usize> = Vec::new();
    let mut inq: Vec<bool> = Vec::new();
    let mut placed: Vec<bool> = Vec::new();
    let mut j: usize = 0;
    while j < n
        invariant
            n == tasks@.len(),
            deps@.len() == n,
            j <= n,
            inq@.len() == j,
            placed@.len() == j,
            forall|x: int| 0 <= x < queue@.len() ==> queue@[x] < j,
            queue@.no_duplicates(),
            forall|x: int| 0 <= x < j ==> !placed@[x],
            forall|x: usize| x < j ==> (inq@[x as int] == #[trigger] queue@.contains(x)),
            forall|x: usize| x < j ==> (inq@[x as int] == (deps@[x as int]@.len() == 0)),
        decreases n - j,
    {
        let ghost old_q = queue@;
        if deps[j].len() == 0 {
            queue.push(j);
            inq.push(true);
        } else {
            inq.push(false);
        }
        placed.push(false);
        proof {
            assert forall|x: usize| x < j + 1 implies (inq@[x as int] == #[trigger] queue@.contains(x)) by {
                if old_q.contains(x) {
                    let w = choose|w: int| 0 <= w < old_q.len() && old_q[w] == x;
                    assert(queue@[w] == x);
                }
                if queue@.contains(x) {
                    let w = choose|w: int| 0 <= w < queue@.len() && queue@[w] == x;
                    if w < old_q.len() {
                        assert(old_q[w] == x);
                    }
                }
                if x == j && deps@[j as int]@.len() == 0 {
                    assert(queue@[queue@.len() - 1] == j);
                }
            }
        }
        j = j + 1;
    }
    proof {
        assert forall|p: int, i: usize|
            0 <= p < queue@.len() && #[trigger] deps@[queue@[p] as int]@.contains(i) implies queue@.take(
                p,
            ).contains(i) && queue@.take(0).contains(i) by {
            assert(queue@.contains(queue@[p]));
            assert(inq@[queue@[p] as int]);
        }
        assert forall|x: usize|
            x < n && !inq@[x as int] implies exists|i: usize|
                #[trigger] deps@[x as int]@.contains(i) && !placed@[i as int] by {
            let i = deps@[x as int]@[0];
            assert(deps@[x as int]@.contains(i));
            assert(tv[x as int].depends_on.contains(tv[i as int].id));
        }
        assert forall|x: usize| x < n implies (placed@[x as int] == #[trigger] queue@.take(0).contains(x)) by {}
    }
    let mut head: usize = 0;
    while head < queue.len()
        invariant
            n == tasks@.len(),
            tv == tasks.deep_view(),
            ids(tv).no_duplicates(),
            deps@.len() == n,
            forall|j2: int, i: usize|
                0 <= j2 < deps@.len() ==> (#[trigger] deps@[j2]@.contains(i) <==> (i < n
                    && tv[j2].depends_on.contains(tv[i as int].id))),
            inq@.len() == n,
            placed@.len() == n,
            head <= queue@.len(),
            forall|x: int| 0 <= x < queue@.len() ==> queue@[x] < n,
            queue@.no_duplicates(),
            forall|x: usize| x < n ==> (inq@[x as int] == #[trigger] queue@.contains(x)),
            forall|x: usize| x < n ==> (placed@[x as int] == #[trigger] queue@.take(head as int).contains(x)),
            forall|p: int, i: usize|
                0 <= p < queue@.len() && #[trigger] deps@[queue@[p] as int]@.contains(i) ==> queue@.take(
                    p,
                ).contains(i) && queue@.take(head as int).contains(i),
            forall|x: usize|
                x < n && !inq@[x as int] ==> exists|i: usize|
                    #[trigger] deps@[x as int]@.contains(i) && !placed@[i as int],
        decreases n - head,
    {
        proof {
            if queue@.len() > n {
                lemma_distinct_bounded(queue@, n as int);
            }
        }
        let i0 = queue[head];
        let ghost old_take = queue@.take(head as int);
        placed.set(i0, true);
        head = head + 1;
        proof {
            assert(queue@.take(head as int) =~= old_take.push(i0));
            assert forall|x: usize| x < n implies (placed@[x as int] == #[trigger] queue@.take(head as int).contains(x)) by {
                let nt = queue@.take(head as int);
                if x == i0 {
                    assert(nt[head - 1] == i0);
                } else {
                    if old_take.contains(x) {
                        let w = choose|w: int| 0 <= w < old_take.len() && old_take[w] == x;
                        assert(nt[w] == x);
                    }
                    if nt.contains(x) {
                        let w = choose|w: int| 0 <= w < nt.len() && nt[w] == x;
                        assert(old_take[w] == x);
                    }
                }
            }
            assert forall|p: int, i: usize|
                0 <= p < queue@.len() && #[trigger] deps@[queue@[p] as int]@.contains(i) implies queue@.take(
                    p,
                ).contains(i) && queue@.take(head as int).contains(i) by {
                assert(old_take.contains(i));
                let w = choose|w: int| 0 <= w < old_take.len() && old_take[w] == i;
                assert(queue@.take(head as int)[w] == i);
            }
        }
        let mut jj: usize = 0;
        while jj < n
            invariant
                n == tasks@.len(),
                tv == tasks.deep_view(),
                deps@.len() == n,
                forall|j2: int, i: usize|
                    0 <= j2 < deps@.len() ==> (#[trigger] deps@[j2]@.contains(i) <==> (i < n
                        && tv[j2].depends_on.contains(tv[i as int].id))),
                inq@.len() == n,
                placed@.len() == n,
                0 < head <= queue@.len(),
                jj <= n,
                forall|x: int| 0 <= x < queue@.len() ==> queue@[x] < n,
                queue@.no_duplicates(),
                forall|x: usize| x < n ==> (inq@[x as int] == #[trigger] queue@.contains(x)),
                forall|x: usize| x < n ==> (placed@[x as int] == #[trigger] queue@.take(head as int).contains(x)),
                forall|p: int, i: usize|
                    0 <= p < queue@.len() && #[trigger] deps@[queue@[p] as int]@.contains(i) ==> queue@.take(
                        p,
                    ).contains(i) && queue@.take(head as int).contains(i),
                forall|x: usize|
                    x < jj && !inq@[x as int] ==> exists|i: usize|
                        #[trigger] deps@[x as int]@.contains(i) && !placed@[i as int],
            decreases n - jj,
        {
            if !inq[jj] {
                proof {
                    assert forall|m: int| 0 <= m < deps@[jj as int]@.len() implies deps@[jj as int]@[m] < placed@.len() by {
                        assert(deps@[jj as int]@.contains(deps@[jj as int]@[m]));
                    }
                }
                if all_marked(&deps[jj], &placed) {
                    let ghost old_q = queue@;
                    assert(!old_q.contains(jj));
                    queue.push(jj);
                    inq.set(jj, true);
                    proof {
                        assert(queue@.take(head as int) =~= old_q.take(head as int));
                        assert forall|a: int, b: int| 0 <= a < b < queue@.len() implies queue@[a] != queue@[b] by {
                            if b == queue@.len() - 1 {
                                assert(old_q[a] == queue@[a]);
                            }
                        }
                        assert forall|x: usize| x < n implies (inq@[x as int] == #[trigger] queue@.contains(x)) by {
                            if old_q.contains(x) {
                                let w = choose|w: int| 0 <= w < old_q.len() && old_q[w] == x;
                                assert(queue@[w] == x);
                            }
                            if queue@.contains(x) && x != jj {
                                let w = choose|w: int| 0 <= w < queue@.len() && queue@[w] == x;
                                assert(old_q[w] == x);
                            }
                            if x == jj {
                                assert(queue@[queue@.len() - 1] == jj);
                            }
                        }
                        assert forall|p: int, i: usize|
                            0 <= p < queue@.len() && #[trigger] deps@[queue@[p] as int]@.contains(i) implies queue@.take(
                                p,
                            ).contains(i) && queue@.take(head as int).contains(i) by {
                            if p < old_q.len() {
                                assert(queue@.take(p) =~= old_q.take(p));
                                assert(old_q[p] == queue@[p]);
                            } else {
                                assert(placed@[i as int]);
                                assert(queue@.take(head as int).contains(i));
                                let w = choose|w: int| 0 <= w < queue@.take(head as int).len() && queue@.take(head as int)[w] == i;
                                assert(queue@.take(p)[w] == i);
                            }
                        }
                    }
                }
            }
            jj = jj + 1;
        }
    }
    proof {
        assert(queue@.take(head as int) =~= queue@);
    }
    let mut all_in = true;
    let mut k: usize = 0;
    while k < n
        invariant
            n == inq@.len(),
            k <= n,
            all_in == (forall|x: int| 0 <= x < k ==> inq@[x]),
        decreases n - k,
    {
        if !inq[k] {
            all_in = false;
        }
        k = k + 1;
    }
    if all_in {
        let mut order: Vec<String> = Vec::new();
        let mut p: usize = 0;
        while p < queue.len()
            invariant
                n == tasks@.len(),
                tv == tasks.deep_view(),
                forall|x: int| 0 <= x < queue@.len() ==> queue@[x] < n,
                p <= queue@.len(),
                views(order@) == queue@.take(p as int).map_values(|i: usize| tv[i as int].id),
            decreases queue@.len() - p,
        {
            let ghost before = views(order@);
            let id = tasks[queue[p]].id.clone();
            assert(id@ == tv[queue@[p as int] as int].id);
            order.push(id);
            assert(views(order@) =~= before.push(id@));
            assert(queue@.take(p + 1) =~= queue@.take(p as int).push(queue@[p as int]));
            p = p + 1;
            assert(views(order@) =~= queue@.take(p as int).map_values(|i: usize| tv[i as int].id));
        }
        proof {
            assert(queue@.take(queue@.len() as int) =~= queue@);
            lemma_order_is_topological(tv, deps@.map_values(|r: Vec<usize>| r@), queue@, views(order@));
        }
        Ok(order)
    } else {
        let mut cycle: Vec<String> = Vec::new();
        let ghost mut picked: Seq<usize> = Seq::empty();
        let mut x: usize = 0;
        while x < n
            invariant
                n == tasks@.len(),
                tv == tasks.deep_view(),
                inq@.len() == n,
                x <= n,
                forall|w: int| 0 <= w < picked.len() ==> picked[w] < x && !inq@[picked[w] as int],
                forall|w1: int, w2: int| 0 <= w1 < w2 < picked.len() ==> picked[w1] < picked[w2],
                forall|y: usize| y < x && !inq@[y as int] ==> #[trigger] picked.contains(y),
                views(cycle@) == picked.map_values(|i: usize| tv[i as int].id),
            decreases n - x,
        {
            let ghost old_p = picked;
            if !inq[x] {
                let ghost before = views(cycle@);
                let id = tasks[x].id.clone();
                assert(id@ == tv[x as int].id);
                cycle.push(id);
                assert(views(cycle@) =~= before.push(id@));
                proof {
                    picked = picked.push(x);
                }
                assert(views(cycle@) =~= picked.map_values(|i: usize| tv[i as int].id));
            }
            proof {
                assert forall|y: usize| y < x + 1 && !inq@[y as int] implies #[trigger] picked.contains(y) by {
                    if y == x {
                        assert(picked[picked.len() - 1] == x);
                    } else {
                        assert(old_p.contains(y));
                        let w = choose|w: int| 0 <= w < old_p.len() && old_p[w] == y;
                        assert(picked[w] == y);
                    }
                }
            }
            x = x + 1;
        }
        proof {
            let dv = deps@.map_values(|r: Vec<usize>| r@);
            assert forall|p: int, i: usize|
                0 <= p < queue@.len() && #[trigger] dv[queue@[p] as int].contains(i) implies queue@.take(p).contains(i) by {
                assert(dv[queue@[p] as int] == deps@[queue@[p] as int]@);
                assert(deps@[queue@[p] as int]@.contains(i));
            }
            assert forall|x2: usize| x2 < n && !inq@[x2 as int] implies exists|i: usize|
                #[trigger] dv[x2 as int].contains(i) && !queue@.contains(i) by {
                let i = choose|i: usize| #[trigger] deps@[x2 as int]@.contains(i) && !placed@[i as int];
                assert(dv[x2 as int].contains(i));
                assert(tv[x2 as int].depends_on.contains(tv[i as int].id));
                assert(!queue@.take(head as int).contains(i));
            }
            lemma_stuck_is_blocked(tv, deps@.map_values(|r: Vec<usize>| r@), queue@, inq@, picked, views(cycle@));
            lemma_blocked_not_acyclic(tv, views(cycle@));
        }
        Err(CycleError { cycle })
    }
}

/// More than `n` distinct indices cannot all lie below `n`.
proof fn lemma_distinct_bounded(s: Seq<usize>, n: int)
    requires
        s.no_duplicates(),
        forall|x: int| 0 <= x < s.len() ==> s[x] < n,
        n >= 0,
    ensures
        s.len() <= n,
{
    let f = |x: usize| x as int;
    let st = s.to_set();
    s.unique_seq_to_set();
    let full = Set::new(|x: usize| x < n);
    assert(st.subset_of(full));
    lemma_bounded_set_len(n);
    vstd::set_lib::lemma_len_subset(st, full);
}

proof fn lemma_bounded_set_len(n: int)
    requires
        n >= 0,
    ensures
        Set::new(|x: usize| x < n).finite(),
        Set::new(|x: usize| x < n).len() <= n,
    decreases n,
{
    if n == 0 {
        assert(Set::new(|x: usize| x < n) =~= Set::empty());
    } else {
        lemma_bounded_set_len(n - 1);
        let small = Set::new(|x: usize| x < n - 1);
        if n - 1 <= usize::MAX {
            let big = small.insert((n - 1) as usize);
            assert(Set::new(|x: usize| x < n) =~= big);
        } else {
            assert(Set::new(|x: usize| x < n) =~= small);
        }
    }
}

/// The queue of an exhausted run, all tasks placed, read as identifiers, is a topological order.
proof fn lemma_order_is_topological(
    tv: Seq<TaskNodeView>,
    deps: Seq<Seq<usize>>,
    queue: Seq<usize>,
    order: Seq<Seq<char>>,
)
    requires
        tv.len() <= usize::MAX,
        ids(tv).no_duplicates(),
        deps.len() == tv.len(),
        forall|j2: int, i: usize|
            0 <= j2 < deps.len() ==> (#[trigger] deps[j2].contains(i) <==> (i < tv.len()
                && tv[j2].depends_on.contains(tv[i as int].id))),
        forall|x: int| 0 <= x < queue.len() ==> queue[x] < tv.len(),
        queue.no_duplicates(),
        forall|x: usize| x < tv.len() ==> #[trigger] queue.contains(x),
        forall|p: int, i: usize|
            0 <= p < queue.len() && #[trigger] deps[queue[p] as int].contains(i) ==> queue.take(p).contains(i),
        order == queue.map_values(|i: usize| tv[i as int].id),
    ensures
        is_topological_order(tv, order),
{
    assert forall|a: int, b: int| 0 <= a < order.len() && 0 <= b < order.len() && a != b implies order[a] != order[b] by {
        assert(queue[a] != queue[b]);
        assert(ids(tv)[queue[a] as int] != ids(tv)[queue[b] as int]);
    }
    assert forall|q: int| 0 <= q < order.len() implies has_id(tv, #[trigger] order[q]) by {
        assert(ids(tv)[queue[q] as int] == order[q]);
    }
    assert forall|j: int| 0 <= j < tv.len() implies order.contains(#[trigger] tv[j].id) by {
        assert(queue.contains(j as usize));
        let w = choose|w: int| 0 <= w < queue.len() && queue[w] == j as usize;
        assert(order[w] == tv[queue[w] as int].id);
    }
    assert forall|q: int, j: int, k: int|
        #![trigger order[q], tv[j].depends_on[k]]
        0 <= q < order.len() && 0 <= j < tv.len() && tv[j].id == order[q] && 0 <= k
            < tv[j].depends_on.len() && has_id(tv, tv[j].depends_on[k]) implies order.take(q).contains(
        tv[j].depends_on[k],
    ) by {
        let qj = queue[q];
        assert(ids(tv)[qj as int] == ids(tv)[j]);
        assert(qj as int == j);
        let d = tv[j].depends_on[k];
        let i = choose|i: int| 0 <= i < ids(tv).len() && ids(tv)[i] == d;
        assert(tv[j].depends_on.contains(tv[i].id));
        assert(deps[j].contains(i as usize));
        let pre = queue.take(q);
        assert(pre.contains(i as usize));
        let w = choose|w: int| 0 <= w < pre.len() && pre[w] == i as usize;
        assert(order.take(q)[w] == d);
    }
}

/// The identifiers of the tasks left out of an exhausted run form a blocked set.
proof fn lemma_stuck_is_blocked(
    tv: Seq<TaskNodeView>,
    deps: Seq<Seq<usize>>,
    queue: Seq<usize>,
    inq: Seq<bool>,
    picked: Seq<usize>,
    cycle: Seq<Seq<char>>,
)
    requires
        tv.len() <= usize::MAX,
        ids(tv).no_duplicates(),
        deps.len() == tv.len(),
        inq.len() == tv.len(),
        forall|j2: int, i: usize|
            0 <= j2 < deps.len() ==> (#[trigger] deps[j2].contains(i) <==> (i < tv.len()
                && tv[j2].depends_on.contains(tv[i as int].id))),
        forall|x: int| 0 <= x < queue.len() ==> queue[x] < tv.len(),
        forall|x: usize| x < tv.len() ==> (inq[x as int] == #[trigger] queue.contains(x)),
        forall|p: int, i: usize|
            0 <= p < queue.len() && #[trigger] deps[queue[p] as int].contains(i) ==> queue.take(p).contains(i),
        forall|x: usize|
            x < tv.len() && !inq[x as int] ==> exists|i: usize|
                #[trigger] deps[x as int].contains(i) && !queue.contains(i),
        exists|y: int| 0 <= y < tv.len() && !inq[y],
        forall|w: int| 0 <= w < picked.len() ==> picked[w] < tv.len() && !inq[picked[w] as int],
        forall|w1: int, w2: int| 0 <= w1 < w2 < picked.len() ==> picked[w1] < picked[w2],
        forall|y: usize| y < tv.len() && !inq[y as int] ==> #[trigger] picked.contains(y),
        cycle == picked.map_values(|i: usize| tv[i as int].id),
    ensures
        is_blocked_set(tv, cycle),
{
    let y = choose|y: int| 0 <= y < tv.len() && !inq[y];
    assert(picked.contains(y as usize));
    assert(cycle.len() > 0);
    assert forall|a: int, b: int| 0 <= a < cycle.len() && 0 <= b < cycle.len() && a != b implies cycle[a] != cycle[b] by {
        assert(picked[a] != picked[b]);
        assert(ids(tv)[picked[a] as int] != ids(tv)[picked[b] as int]);
    }
    assert forall|q: int| 0 <= q < cycle.len() implies has_id(tv, #[trigger] cycle[q]) by {
        assert(ids(tv)[picked[q] as int] == cycle[q]);
    }
    // A task named in the cycle is unplaced, and so is one of its dependencies.
    assert forall|j: int|
        0 <= j < tv.len() && cycle.contains(#[trigger] tv[j].id) implies exists|k: int|
            0 <= k < tv[j].depends_on.len() && cycle.contains(#[trigger] tv[j].depends_on[k]) by {
        let c = choose|c: int| 0 <= c < cycle.len() && cycle[c] == tv[j].id;
        let pj = picked[c];
        assert(ids(tv)[pj as int] == ids(tv)[j]);
        assert(pj as int == j);
        assert(!inq[j]);
        let i = choose|i: usize| #[trigger] deps[j].contains(i) && !queue.contains(i);
        assert(tv[j].depends_on.contains(tv[i as int].id));
        let k = choose|k: int| 0 <= k < tv[j].depends_on.len() && tv[j].depends_on[k] == tv[i as int].id;
        assert(!inq[i as int]);
        assert(picked.contains(i));
        let w = choose|w: int| 0 <= w < picked.len() && picked[w] == i;
        assert(cycle[w] == tv[i as int].id);
        assert(cycle.contains(tv[j].depends_on[k]));
    }
    assert forall|j: int, k: int|
        0 <= j < tv.len() && !cycle.contains(#[trigger] tv[j].id) && 0 <= k
            < tv[j].depends_on.len() && has_id(tv, #[trigger] tv[j].depends_on[k])
            implies !cycle.contains(tv[j].depends_on[k]) by {
        if inq[j] == false {
            assert(picked.contains(j as usize));
            let w = choose|w: int| 0 <= w < picked.len() && picked[w] == j as usize;
            assert(cycle[w] == tv[j].id);
        }
        assert(queue.contains(j as usize));
        let p = choose|p: int| 0 <= p < queue.len() && queue[p] == j as usize;
        let d = tv[j].depends_on[k];
        let i = choose|i: int| 0 <= i < ids(tv).len() && ids(tv)[i] == d;
        assert(tv[j].depends_on.contains(tv[i].id));
        assert(deps[j].contains(i as usize));
        let pre = queue.take(p);
        assert(pre.contains(i as usize));
        let w = choose|w: int| 0 <= w < pre.len() && pre[w] == i as usize;
        assert(queue.contains(i as usize));
        assert(inq[i]);
        if cycle.contains(d) {
            let c = choose|c: int| 0 <= c < cycle.len() && cycle[c] == d;
            assert(ids(tv)[picked[c] as int] == ids(tv)[i]);
            assert(!inq[picked[c] as int]);
        }
    }
}


/// Task counts by status.
#[derive(Debug, Clone, Copy)]
pub struct DagStats {
    pub total: usize,
    pub pending: u32,
    pub running: u32,
    pub completed: u32,
    pub failed: u32,
    pub cancelled: u32,
}

/// Errors of status updates.
#[derive(Debug)]
pub enum DagError {
    TaskNotFound(String),
}

/// The tasks of one goal, their statuses and a validated execution order.
pub struct DagState {
    tasks: Vec<TaskNode>,
    statuses: Vec<TaskStatus>,
    goal_id: String,
    execution_order: Vec<String>,
}

/// The steps that no later step redefines: one task per identifier, the last
/// definition winning, in order of appearance.
pub open spec fn last_wins(s: Seq<TaskNodeView>, i: int) -> Seq<TaskNodeView>
    decreases s.len() - i,
{
    if i < 0 || i >= s.len() {
        Seq::empty()
    } else if exists|k: int| i < k < s.len() && s[k].id == s[i].id {
        last_wins(s, i + 1)
    } else {
        seq![s[i]] + last_wins(s, i + 1)
    }
}

/// The graph of a plan: its steps with repeated identifiers resolved to their last definition.
pub open spec fn plan_tasks(steps: Seq<TaskNodeView>) -> Seq<TaskNodeView> {
    last_wins(steps, 0)
}

proof fn lemma_last_wins_origin(s: Seq<TaskNodeView>, i: int)
    requires
        0 <= i <= s.len(),
    ensures
        forall|q: int|
            0 <= q < last_wins(s, i).len() ==> exists|k: int|
                i <= k < s.len() && #[trigger] last_wins(s, i)[q] == s[k] && !(exists|k2: int|
                    k < k2 < s.len() && s[k2].id == s[k].id),
        ids(last_wins(s, i)).no_duplicates(),
    decreases s.len() - i,
{
    if i < s.len() {
        lemma_last_wins_origin(s, i + 1);
        let rest = last_wins(s, i + 1);
        if !(exists|k: int| i < k < s.len() && s[k].id == s[i].id) {
            let full = last_wins(s, i);
            assert(full == seq![s[i]] + rest);
            assert forall|q: int| 0 <= q < full.len() implies exists|k: int|
                i <= k < s.len() && #[trigger] full[q] == s[k] && !(exists|k2: int|
                    k < k2 < s.len() && s[k2].id == s[k].id) by {
                if q > 0 {
                    assert(full[q] == rest[q - 1]);
                }
            }
            assert forall|a: int, b: int| 0 <= a < ids(full).len() && 0 <= b < ids(full).len() && a != b
                implies ids(full)[a] != ids(full)[b] by {
                if a == 0 || b == 0 {
                    let o = if a == 0 { b } else { a };
                    assert(full[o] == rest[o - 1]);
                    let k = choose|k: int|
                        i + 1 <= k < s.len() && #[trigger] rest[o - 1] == s[k] && !(exists|k2: int|
                            k < k2 < s.len() && s[k2].id == s[k].id);
                    assert(s[k].id != s[i].id);
                } else {
                    assert(ids(full)[a] == ids(rest)[a - 1]);
                    assert(ids(full)[b] == ids(rest)[b - 1]);
                }
            }
        } else {
            assert forall|q: int| 0 <= q < last_wins(s, i).len() implies exists|k: int|
                i <= k < s.len() && #[trigger] last_wins(s, i)[q] == s[k] && !(exists|k2: int|
                    k < k2 < s.len() && s[k2].id == s[k].id) by {
                assert(last_wins(s, i)[q] == rest[q]);
            }
        }
    }
}

/// Whether every dependency of task `j` names a task whose status is `Completed`.
pub open spec fn deps_completed(
    tasks: Seq<TaskNodeView>,
    statuses: Seq<TaskStatusView>,
    j: int,
) -> bool {
    forall|k: int|
        #![trigger tasks[j].depends_on[k]]
        0 <= k < tasks[j].depends_on.len() ==> exists|i: int|
            #![trigger tasks[i]]
            0 <= i < tasks.len() && tasks[i].id == tasks[j].depends_on[k] && statuses[i] is Completed
}

/// Task `j` is pending and all of its dependencies have completed.
pub open spec fn is_ready(tasks: Seq<TaskNodeView>, statuses: Seq<TaskStatusView>, j: int) -> bool {
    statuses[j] is Pending && deps_completed(tasks, statuses, j)
}

/// The ready tasks from index `i` on, in order.
pub open spec fn ready_from(tasks: Seq<TaskNodeView>, statuses: Seq<TaskStatusView>, i: int) -> Seq<
    TaskNodeView,
>
    decreases tasks.len() - i,
{
    if i < 0 || i >= tasks.len() {
        Seq::empty()
    } else if is_ready(tasks, statuses, i) {
        seq![tasks[i]] + ready_from(tasks, statuses, i + 1)
    } else {
        ready_from(tasks, statuses, i + 1)
    }
}

proof fn lemma_deps_completed_transfer(
    tv: Seq<TaskNodeView>,
    a: Seq<TaskStatusView>,
    b: Seq<TaskStatusView>,
    j: int,
)
    requires
        a.len() == b.len(),
        tv.len() == a.len(),
        0 <= j < a.len(),
        forall|k: int| #![trigger a[k]] #![trigger b[k]] 0 <= k < a.len() && a[k] is Completed ==> b[k] is Completed,
        deps_completed(tv, a, j),
    ensures
        deps_completed(tv, b, j),
{
    assert forall|k: int| #![trigger tv[j].depends_on[k]] 0 <= k < tv[j].depends_on.len() implies exists|i: int|
        #![trigger tv[i]] 0 <= i < tv.len() && tv[i].id == tv[j].depends_on[k] && b[i] is Completed by {
        let i = choose|i: int| 0 <= i < tv.len() && tv[i].id == tv[j].depends_on[k] && a[i] is Completed;
        assert(b[i] is Completed);
        assert(tv[i].id == tv[j].depends_on[k]);
    }
}

proof fn lemma_ready_stable(
    tv: Seq<TaskNodeView>,
    st: Seq<TaskStatusView>,
    st0: Seq<TaskStatusView>,
    j: int,
)
    requires
        st.len() == st0.len(),
        0 <= j < st.len(),
        st[j] == st0[j],
        forall|k: int| #![trigger st[k]] #![trigger st0[k]] 0 <= k < st.len() ==> (st[k] is Completed <==> st0[k] is Completed),
        tv.len() == st.len(),
    ensures
        is_ready(tv, st, j) == is_ready(tv, st0, j),
{
    if deps_completed(tv, st0, j) {
        lemma_deps_completed_transfer(tv, st0, st, j);
    }
    if deps_completed(tv, st, j) {
        lemma_deps_completed_transfer(tv, st, st0, j);
    }
}

/// A status that no longer changes.
pub open spec fn is_final(s: TaskStatusView) -> bool {
    s is Completed || s is Failed || s is Cancelled
}

/// The position of the task named `id` (the only one, identifiers being distinct).
pub open spec fn index_of_id(tasks: Seq<TaskNodeView>, id: Seq<char>) -> int {
    choose|i: int| 0 <= i < tasks.len() && tasks[i].id == id
}

/// How many statuses satisfy `f`.
pub open spec fn count_where(s: Seq<TaskStatusView>, f: spec_fn(TaskStatusView) -> bool) -> nat
    decreases s.len(),
{
    if s.len() == 0 {
        0
    } else {
        count_where(s.drop_last(), f) + if f(s.last()) {
            1nat
        } else {
            0nat
        }
    }
}

impl DagState {
    /// The tasks, each once.
    pub closed spec fn task_views(self) -> Seq<TaskNodeView> {
        self.tasks.deep_view()
    }

    /// The status of each task, position by position.
    pub closed spec fn status_views(self) -> Seq<TaskStatusView> {
        self.statuses.deep_view()
    }

    /// The goal this graph belongs to.
    pub closed spec fn goal_view(self) -> Seq<char> {
        self.goal_id@
    }

    /// The validated execution order, as identifiers.
    pub closed spec fn order_view(self) -> Seq<Seq<char>> {
        views(self.execution_order@)
    }

    pub fn goal_id(&self) -> (r: &String)
        ensures
            r@ == self.goal_view(),
    {
        &self.goal_id
    }

    pub fn execution_order(&self) -> (r: &Vec<String>)
        ensures
            views(r@) == self.order_view(),
    {
        &self.execution_order
    }

    /// The tasks, in graph order.
    pub fn tasks(&self) -> (r: &Vec<TaskNode>)
        ensures
            r.deep_view() == self.task_views(),
    {
        &self.tasks
    }

    /// The statuses, position by position with `tasks()`.
    pub fn statuses(&self) -> (r: &Vec<TaskStatus>)
        ensures
            r.deep_view() == self.status_views(),
    {
        &self.statuses
    }

    /// Internal consistency: one status per task, distinct identifiers.
    pub closed spec fn wf(self) -> bool {
        &&& self.tasks@.len() == self.statuses@.len()
        &&& ids(self.tasks.deep_view()).no_duplicates()
    }

    pub proof fn lemma_wf(self)
        requires
            self.wf(),
        ensures
            self.task_views().len() == self.status_views().len(),
            ids(self.task_views()).no_duplicates(),
    {
    }

    /// Builds the graph of a plan and orders it; fails when the graph has a cycle.
    pub fn new(plan: ExecutionPlan) -> (r: Result<DagState, CycleError>)
        ensures
            r matches Ok(d) ==> {
                &&& d.wf()
                &&& d.task_views() == plan_tasks(plan.steps.deep_view())
                &&& forall|j: int| 0 <= j < d.status_views().len() ==> #[trigger] d.status_views()[j] is Pending
                &&& d.goal_view() == plan.goal_id@
                &&& is_topological_order(d.task_views(), d.order_view())
            },
            r matches Err(e) ==> is_blocked_set(plan_tasks(plan.steps.deep_view()), views(e.cycle@)),
            r is Err <==> !is_acyclic(plan_tasks(plan.steps.deep_view())),
    {
        let ghost sv = plan.steps.deep_view();
        let n = plan.steps.len();
        let mut tasks: Vec<TaskNode> = Vec::new();
        let mut statuses: Vec<TaskStatus> = Vec::new();
        let mut i: usize = 0;
        while i < n
            invariant
                n == plan.steps@.len(),
                sv == plan.steps.deep_view(),
                i <= n,
                tasks.deep_view() + last_wins(sv, i as int) == last_wins(sv, 0),
                statuses@.len() == tasks@.len(),
                forall|j: int| 0 <= j < statuses@.len() ==> #[trigger] statuses.deep_view()[j] is Pending,
            decreases n - i,
        {
            let mut later = false;
            let mut k: usize = i + 1;
            while k < n
                invariant
                    n == plan.steps@.len(),
                    sv == plan.steps.deep_view(),
                    i < k <= n,
                    later == (exists|k2: int| i < k2 < k && sv[k2].id == sv[i as int].id),
                decreases n - k,
            {
                if plan.steps[k].id == plan.steps[i].id {
                    later = true;
                }
                proof {
                    if sv[k as int].id == sv[i as int].id {
                        assert(i < k < k + 1 && sv[k as int].id == sv[i as int].id);
                    }
                }
                k = k + 1;
            }
            if !later {
                let ghost before = tasks.deep_view();
                let ghost sb = statuses.deep_view();
                tasks.push(plan.steps[i].copy());
                statuses.push(TaskStatus::Pending);
                assert(statuses.deep_view() =~= sb.push(TaskStatusView::Pending));
                assert(tasks.deep_view() =~= before.push(sv[i as int]));
                assert(tasks.deep_view() + last_wins(sv, i + 1) =~= before + last_wins(sv, i as int));
                assert(statuses.deep_view()[statuses@.len() - 1] is Pending);
            }

            i = i + 1;
        }
        assert(tasks.deep_view() =~= last_wins(sv, 0));
        proof {
            lemma_last_wins_origin(sv, 0);
        }
        match validate_and_sort(&tasks) {
            Ok(order) => Ok(DagState { tasks, statuses, goal_id: plan.goal_id, execution_order: order }),
            Err(e) => Err(e),
        }
    }

    /// Whether a task is named `id`.
    pub fn has_task(&self, id: &String) -> (b: bool)
        ensures
            b == has_id(self.task_views(), id@),
    {
        let r = find_task(&self.tasks, id);
        proof {
            if let Some(i) = r {
                assert(ids(self.tasks.deep_view())[i as int] == id@);
            }
        }
        r.is_some()
    }

    /// Whether task `j` is ready to run.
    fn task_is_ready(&self, j: usize) -> (b: bool)
        requires
            self.wf(),
            j < self.task_views().len(),
        ensures
            b == is_ready(self.task_views(), self.status_views(), j as int),
    {
        let ghost tv = self.tasks.deep_view();
        let ghost st = self.statuses.deep_view();
        let n = self.tasks.len();
        let mut ok = match self.statuses[j] {
            TaskStatus::Pending => true,
            _ => false,
        };
        let m = self.tasks[j].depends_on.len();
        let mut k: usize = 0;
        assert(tv[j as int].depends_on == views(self.tasks@[j as int].depends_on@));
        while ok && k < m
            invariant
                n == self.tasks@.len(),
                n == self.statuses@.len(),
                tv == self.tasks.deep_view(),
                st == self.statuses.deep_view(),
                ids(tv).no_duplicates(),
                j < n,
                m == tv[j as int].depends_on.len(),
                tv[j as int].depends_on == views(self.tasks@[j as int].depends_on@),
                k <= m,
                ok ==> st[j as int] is Pending,
                ok ==> forall|k2: int|
                    0 <= k2 < k ==> exists|i: int|
                        0 <= i < tv.len() && tv[i].id == #[trigger] tv[j as int].depends_on[k2]
                            && st[i] is Completed,
                !ok ==> !is_ready(tv, st, j as int),
            decreases m - k,
        {
            match find_task(&self.tasks, &self.tasks[j].depends_on[k]) {
                Some(i) => {
                    match self.statuses[i] {
                        TaskStatus::Completed(_) => {},
                        _ => {
                            proof {
                                let d = tv[j as int].depends_on[k as int];
                                assert forall|i2: int|
                                    0 <= i2 < tv.len() && tv[i2].id == d implies !(st[i2] is Completed) by {
                                    assert(ids(tv)[i2] == ids(tv)[i as int]);
                                }
                            }
                            ok = false;
                        },
                    }
                },
                None => {
                    proof {
                        let d = tv[j as int].depends_on[k as int];
                        assert forall|i2: int| 0 <= i2 < tv.len() implies tv[i2].id != d by {
                            assert(ids(tv)[i2] == tv[i2].id);
                        }
                    }
                    ok = false;
                },
            }
            k = k + 1;
        }
        ok
    }

    /// The tasks that are pending and whose dependencies have all completed, in task order.
    pub fn get_ready_tasks(&self) -> (r: Vec<TaskNode>)
        requires
            self.wf(),
        ensures
            r.deep_view() == ready_from(self.task_views(), self.status_views(), 0),
    {
        let ghost tv = self.tasks.deep_view();
        let ghost st = self.statuses.deep_view();
        let n = self.tasks.len();
        let mut r: Vec<TaskNode> = Vec::new();
        let mut j: usize = 0;
        while j < n
            invariant
                n == self.tasks@.len(),
                n == self.statuses@.len(),
                tv == self.tasks.deep_view(),
                st == self.statuses.deep_view(),
                ids(tv).no_duplicates(),
                j <= n,
                r.deep_view() + ready_from(tv, st, j as int) == ready_from(tv, st, 0),
            decreases n - j,
        {
            let ok = self.task_is_ready(j);
            if ok {
                let ghost before = r.deep_view();
                r.push(self.tasks[j].copy());
                assert(r.deep_view() =~= before.push(tv[j as int]));
                assert(r.deep_view() + ready_from(tv, st, j + 1) =~= before + ready_from(tv, st, j as int));
            }
            j = j + 1;
        }
        assert(r.deep_view() =~= ready_from(tv, st, 0));
        r
    }

    /// Marks every ready task as running and returns those tasks, in task order.
    pub fn start_ready(&mut self) -> (r: Vec<TaskNode>)
        requires
            old(self).wf(),
        ensures
            final(self).wf(),
            final(self).task_views() == old(self).task_views(),
            final(self).goal_view() == old(self).goal_view(),
            final(self).order_view() == old(self).order_view(),
            r.deep_view() == ready_from(old(self).task_views(), old(self).status_views(), 0),
            final(self).status_views().len() == old(self).status_views().len(),
            forall|j: int|
                0 <= j < old(self).status_views().len() ==> #[trigger] final(self).status_views()[j] == if is_ready(
                    old(self).task_views(),
                    old(self).status_views(),
                    j,
                ) {
                    TaskStatusView::Running
                } else {
                    old(self).status_views()[j]
                },
    {
        let r = self.get_ready_tasks();
        let ghost tv = self.tasks.deep_view();
        let ghost st0 = self.statuses.deep_view();
        let ghost t0 = self.tasks;
        let ghost g0 = self.goal_id;
        let ghost o0 = self.execution_order;
        let n = self.tasks.len();
        let mut j: usize = 0;
        while j < n
            invariant
                self.tasks == t0,
                self.goal_id == g0,
                self.execution_order == o0,
                tv == self.tasks.deep_view(),
                n == self.tasks@.len(),
                self.tasks@.len() == self.statuses@.len(),
                ids(tv).no_duplicates(),
                st0.len() == n,
                j <= n,
                forall|k: int| j <= k < n ==> #[trigger] self.statuses.deep_view()[k] == st0[k],
                forall|k: int|
                    0 <= k < j ==> #[trigger] self.statuses.deep_view()[k] == if is_ready(tv, st0, k) {
                        TaskStatusView::Running
                    } else {
                        st0[k]
                    },
                forall|k: int| 0 <= k < n ==> (#[trigger] self.statuses.deep_view()[k] is Completed <==> st0[k] is Completed),
            decreases n - j,
        {
            proof {
                lemma_ready_stable(tv, self.statuses.deep_view(), st0, j as int);
            }
            if self.task_is_ready(j) {
                let ghost before = self.statuses.deep_view();
                self.statuses.set(j, TaskStatus::Running);
                assert(self.statuses.deep_view() =~= before.update(j as int, TaskStatusView::Running));
            }
            j = j + 1;
        }
        r
    }

    /// Sets the status of task `id`; fails when no task has that identifier.
    pub fn update_status(&mut self, id: &String, status: TaskStatus) -> (r: Result<(), DagError>)
        requires
            old(self).wf(),
        ensures
            final(self).wf(),
            final(self).task_views() == old(self).task_views(),
            final(self).goal_view() == old(self).goal_view(),
            final(self).order_view() == old(self).order_view(),
            r is Ok <==> has_id(old(self).task_views(), id@),
            r matches Err(DagError::TaskNotFound(t)) ==> t@ == id@,
            r is Ok ==> exists|i: int|
                0 <= i < old(self).task_views().len() && old(self).task_views()[i].id == id@
                    && final(self).status_views() == old(self).status_views().update(i, status@),
            r is Ok ==> final(self).status_views() == old(self).status_views().update(
                index_of_id(old(self).task_views(), id@),
                status@,
            ),
            r is Err ==> final(self).status_views() == old(self).status_views(),
    {
        match find_task(&self.tasks, id) {
            Some(i) => {
                let ghost before = self.statuses.deep_view();
                assert(ids(self.tasks.deep_view())[i as int] == id@);
                self.statuses.set(i, status);
                assert(self.statuses.deep_view() =~= before.update(i as int, status@));
                assert(self.status_views() == old(self).status_views().update(i as int, status@));
                assert(old(self).task_views()[i as int].id == id@);
                let ghost c = index_of_id(old(self).task_views(), id@);
                assert(0 <= c < old(self).task_views().len() && old(self).task_views()[c].id == id@);
                assert(ids(old(self).task_views())[c] == ids(old(self).task_views())[i as int]);
                Ok(())
            },
            None => Err(DagError::TaskNotFound(id.clone())),
        }
    }

    /// Whether every task has completed, failed or been cancelled.
    pub fn is_terminal(&self) -> (b: bool)
        requires
            self.wf(),
        ensures
            b == (forall|j: int| 0 <= j < self.status_views().len() ==> is_final(#[trigger] self.status_views()[j])),
    {
        let mut j: usize = 0;
        while j < self.statuses.len()
            invariant
                j <= self.statuses@.len(),
                forall|k: int| 0 <= k < j ==> is_final(#[trigger] self.statuses.deep_view()[k]),
            decreases self.statuses@.len() - j,
        {
            match self.statuses[j] {
                TaskStatus::Pending | TaskStatus::Running => {
                    assert(!is_final(self.status_views()[j as int]));
                    return false;
                },
                _ => {},
            }
            j = j + 1;
        }
        true
    }

    /// Counts of tasks by status.
    pub fn stats(&self) -> (r: DagStats)
        requires
            self.wf(),
            self.status_views().len() <= u32::MAX,
        ensures
            r.total == self.status_views().len(),
            r.pending == count_where(self.status_views(), |s: TaskStatusView| s is Pending),
            r.running == count_where(self.status_views(), |s: TaskStatusView| s is Running),
            r.completed == count_where(self.status_views(), |s: TaskStatusView| s is Completed),
            r.failed == count_where(self.status_views(), |s: TaskStatusView| s is Failed),
            r.cancelled == count_where(self.status_views(), |s: TaskStatusView| s is Cancelled),
            r.pending + r.running + r.completed + r.failed + r.cancelled == r.total,
    {
        let ghost st = self.statuses.deep_view();
        let mut p: u32 = 0;
        let mut ru: u32 = 0;
        let mut c: u32 = 0;
        let mut f: u32 = 0;
        let mut x: u32 = 0;
        let mut j: usize = 0;
        while j < self.statuses.len()
            invariant
                st == self.statuses.deep_view(),
                st.len() <= u32::MAX,
                j <= st.len(),
                p == count_where(st.take(j as int), |s: TaskStatusView| s is Pending),
                ru == count_where(st.take(j as int), |s: TaskStatusView| s is Running),
                c == count_where(st.take(j as int), |s: TaskStatusView| s is Completed),
                f == count_where(st.take(j as int), |s: TaskStatusView| s is Failed),
                x == count_where(st.take(j as int), |s: TaskStatusView| s is Cancelled),
                p + ru + c + f + x == j,
            decreases st.len() - j,
        {
            assert(st.take(j + 1).drop_last() =~= st.take(j as int));
            match self.statuses[j] {
                TaskStatus::Pending => p = p + 1,
                TaskStatus::Running => ru = ru + 1,
                TaskStatus::Completed(_) => c = c + 1,
                TaskStatus::Failed(_) => f = f + 1,
                TaskStatus::Cancelled => x = x + 1,
            }
            j = j + 1;
        }
        assert(st.take(st.len() as int) =~= st);
        DagStats { total: self.statuses.len(), pending: p, running: ru, completed: c, failed: f, cancelled: x }
    }

    /// Whether some task has failed.
    pub fn any_failed(&self) -> (b: bool)
        ensures
            b == (exists|j: int| 0 <= j < self.status_views().len() && #[trigger] self.status_views()[j] is Failed),
    {
        let mut j: usize = 0;
        while j < self.statuses.len()
            invariant
                j <= self.statuses@.len(),
                forall|k: int| 0 <= k < j ==> !(#[trigger] self.statuses.deep_view()[k] is Failed),
            decreases self.statuses@.len() - j,
        {
            match self.statuses[j] {
                TaskStatus::Failed(_) => {
                    assert(self.status_views()[j as int] is Failed);
                    return true;
                },
                _ => {},
            }
            j = j + 1;
        }
        assert forall|k: int| 0 <= k < self.status_views().len() implies !(#[trigger] self.status_views()[k] is Failed) by {
            assert(!(self.statuses.deep_view()[k] is Failed));
        }
        false
    }

    /// Turns every pending task into a cancelled one.
    pub fn cancel_pending(&mut self)
        requires
            old(self).wf(),
        ensures
            final(self).wf(),
            final(self).task_views() == old(self).task_views(),
            final(self).goal_view() == old(self).goal_view(),
            final(self).order_view() == old(self).order_view(),
            final(self).status_views().len() == old(self).status_views().len(),
            forall|j: int|
                0 <= j < old(self).status_views().len() ==> #[trigger] final(self).status_views()[j] == if old(
                    self,
                ).status_views()[j] is Pending {
                    TaskStatusView::Cancelled
                } else {
                    old(self).status_views()[j]
                },
    {
        let ghost st0 = self.statuses.deep_view();
        let ghost t0 = self.tasks;
        let ghost g0 = self.goal_id;
        let ghost o0 = self.execution_order;
        let mut j: usize = 0;
        while j < self.statuses.len()
            invariant
                self.tasks == t0,
                self.goal_id == g0,
                self.execution_order == o0,
                self.tasks@.len() == self.statuses@.len(),
                ids(self.tasks.deep_view()).no_duplicates(),
                self.statuses@.len() == st0.len(),
                j <= st0.len(),
                forall|k: int| j <= k < st0.len() ==> #[trigger] self.statuses.deep_view()[k] == st0[k],
                forall|k: int|
                    0 <= k < j ==> #[trigger] self.statuses.deep_view()[k] == if st0[k] is Pending {
                        TaskStatusView::Cancelled
                    } else {
                        st0[k]
                    },
            decreases st0.len() - j,
        {
            let pending = match self.statuses[j] {
                TaskStatus::Pending => true,
                _ => false,
            };
            assert(self.statuses.deep_view()[j as int] == self.statuses@[j as int]@);
            assert(pending == (st0[j as int] is Pending));
            let ghost before = self.statuses.deep_view();
            if pending {
                self.statuses.set(j, TaskStatus::Cancelled);
                assert(self.statuses.deep_view() =~= before.update(j as int, TaskStatusView::Cancelled));
            }
            j = j + 1;
        }
    }
}

} // verus!
