//! The interactive graph editor: where task nodes sit on screen, which node
//! a click hits, dragging a node, and drawing a new dependency between two
//! nodes.
use vstd::prelude::*;
use crate::text::{chars_of, push_all, push_str, same_text, string_of, take_chars, views};

verus! {

/// Where a node sits on screen.
#[derive(Debug, Clone)]
pub struct DagNodePosition {
    pub id: String,
    pub x: u16,
    pub y: u16,
    pub width: u16,
    pub height: u16,
}

/// The ids of the placed nodes.
pub open spec fn node_ids(ns: Seq<DagNodePosition>) -> Seq<Seq<char>> {
    ns.map_values(|n: DagNodePosition| n.id@)
}

/// Whether the cell at `row`, `col` lies on the node, borders included.
pub open spec fn hits(n: DagNodePosition, row: u16, col: u16) -> bool {
    n.x <= col && col <= n.x + n.width && n.y <= row && row <= n.y + n.height
}

/// An optional text as plain values.
pub open spec fn opt_text(o: Option<String>) -> Option<Seq<char>> {
    match o {
        Some(s) => Some(s@),
        None => None,
    }
}

/// Index of the first node hit by the cell, if any.
pub open spec fn first_hit(ns: Seq<DagNodePosition>, row: u16, col: u16) -> Option<int>
    decreases ns.len(),
{
    if ns.len() == 0 {
        None
    } else {
        match first_hit(ns.drop_last(), row, col) {
            Some(i) => Some(i),
            None => if hits(ns.last(), row, col) {
                Some(ns.len() - 1)
            } else {
                None
            },
        }
    }
}

/// Where the `k`-th node placed by [`DagEditorState::initialize_positions`]
/// goes: three to a row, 35 columns apart from column 5, rows 10 apart from row 3.
pub open spec fn slot(k: nat) -> (u16, u16) {
    ((5 + 35 * (k % 3)) as u16, (3 + 10 * (k / 3)) as u16)
}

/// The ids among `ids` that are not in `known`, each once, in order.
pub open spec fn fresh_ids(known: Seq<Seq<char>>, ids: Seq<Seq<char>>) -> Seq<Seq<char>>
    decreases ids.len(),
{
    if ids.len() == 0 {
        Seq::empty()
    } else {
        let p = fresh_ids(known, ids.drop_last());
        if known.contains(ids.last()) || p.contains(ids.last()) {
            p
        } else {
            p.push(ids.last())
        }
    }
}

/// The editor's state.
#[derive(Debug, Clone)]
pub struct DagEditorState {
    pub nodes: Vec<DagNodePosition>,
    pub selected_node: Option<String>,
    pub dragging_node: Option<String>,
    pub drag_offset_x: u16,
    pub drag_offset_y: u16,
    /// The node a new dependency is drawn from.
    pub adding_dependency: Option<String>,
    /// The zoom, in percent.
    pub zoom_percent: u32,
    pub pan_x: i32,
    pub pan_y: i32,
}

/// An editing command.
#[derive(Debug, Clone)]
pub enum DagEditorCommand {
    SelectNode(String),
    MoveNode(String, u16, u16),
    AddDependency { from: String, to: String },
    RemoveDependency { from: String, to: String },
    DeleteNode(String),
    /// No command.
    NoOp,
}

impl DagEditorState {
    /// An editor with no node placed, nothing selected, at full size.
    pub fn new() -> (s: DagEditorState)
        ensures
            s.nodes@.len() == 0,
            s.selected_node is None,
            s.dragging_node is None,
            s.adding_dependency is None,
            s.drag_offset_x == 0 && s.drag_offset_y == 0,
            s.zoom_percent == 100,
            s.pan_x == 0 && s.pan_y == 0,
    {
        DagEditorState {
            nodes: Vec::new(),
            selected_node: None,
            dragging_node: None,
            drag_offset_x: 0,
            drag_offset_y: 0,
            adding_dependency: None,
            zoom_percent: 100,
            pan_x: 0,
            pan_y: 0,
        }
    }

    /// Index of the first node with id `id`.
    pub fn find(&self, id: &str) -> (r: Option<usize>)
        ensures
            match r {
                Some(i) => first_index_of(node_ids(self.nodes@), id@) == Some(i as int) && i < self.nodes@.len(),
                None => first_index_of(node_ids(self.nodes@), id@) is None,
            },
            r is None <==> !node_ids(self.nodes@).contains(id@),
    {
        proof {
            lemma_first_index_of(node_ids(self.nodes@), id@);
        }
        let ghost ids = node_ids(self.nodes@);
        let mut i: usize = 0;
        while i < self.nodes.len()
            invariant
                i <= self.nodes@.len(),
                ids == node_ids(self.nodes@),
                first_index_of(ids.take(i as int), id@) is None,
                forall|k: int| 0 <= k < i ==> ids[k] != id@,
            decreases self.nodes@.len() - i,
        {
            assert(ids[i as int] == self.nodes@[i as int].id@);
            assert(ids.take(i + 1).drop_last() =~= ids.take(i as int));
            if same_text(self.nodes[i].id.as_str(), id) {
                proof {
                    lemma_first_index_prefix(ids, id@, (i + 1) as nat);
                }
                return Some(i);
            }
            i = i + 1;
        }
        assert(ids.take(i as int) =~= ids);
        None
    }

    /// Places the tasks `ids` that have no place yet, in order, each once:
    /// three to a row, 35 columns apart from column 5, rows 10 apart from row 3.
    pub fn initialize_positions(&mut self, ids: &Vec<String>)
        requires
            ids@.len() <= 19000,
        ensures
            ({
                let fresh = fresh_ids(node_ids(old(self).nodes@), views(ids@));
                &&& final(self).nodes@.len() == old(self).nodes@.len() + fresh.len()
                &&& final(self).nodes@.take(old(self).nodes@.len() as int) == old(self).nodes@
                &&& forall|k: int|
                    0 <= k < fresh.len() ==> {
                        let n = #[trigger] final(self).nodes@[old(self).nodes@.len() + k];
                        &&& n.id@ == fresh[k]
                        &&& (n.x, n.y) == slot(k as nat)
                        &&& n.width == 30
                        &&& n.height == 5
                    }
            }),
            final(self).selected_node == old(self).selected_node,
            final(self).dragging_node == old(self).dragging_node,
            final(self).adding_dependency == old(self).adding_dependency,
    {
        let ghost old_nodes = self.nodes@;
        let ghost known = node_ids(old_nodes);
        let mut x: u16 = 5;
        let mut y: u16 = 3;
        let mut placed: usize = 0;
        let mut i: usize = 0;
        while i < ids.len()
            invariant
                i <= ids@.len() <= 19000,
                known == node_ids(old_nodes),
                placed == fresh_ids(known, views(ids@).take(i as int)).len(),
                placed <= i,
                (x, y) == slot(placed as nat),
                self.nodes@.len() == old_nodes.len() + placed,
                self.nodes@.take(old_nodes.len() as int) == old_nodes,
                node_ids(self.nodes@) == known + fresh_ids(known, views(ids@).take(i as int)),
                forall|k: int|
                    0 <= k < placed ==> {
                        let n = #[trigger] self.nodes@[old_nodes.len() + k];
                        &&& (n.x, n.y) == slot(k as nat)
                        &&& n.width == 30
                        &&& n.height == 5
                    },
                self.selected_node == old(self).selected_node,
                self.dragging_node == old(self).dragging_node,
                self.adding_dependency == old(self).adding_dependency,
            decreases ids@.len() - i,
        {
            let ghost before = fresh_ids(known, views(ids@).take(i as int));
            let ghost id = views(ids@)[i as int];
            assert(views(ids@).take(i + 1).drop_last() =~= views(ids@).take(i as int));
            assert(views(ids@).take(i + 1).last() == id);
            assert(id == ids@[i as int]@);
            let present = self.find(ids[i].as_str());
            proof {
                assert(node_ids(self.nodes@).contains(id) <==> (known.contains(id) || before.contains(id))) by {
                    if node_ids(self.nodes@).contains(id) {
                        let j = choose|j: int| 0 <= j < node_ids(self.nodes@).len() && node_ids(self.nodes@)[j] == id;
                        if j < known.len() {
                            assert(known[j] == id);
                        } else {
                            assert(before[j - known.len()] == id);
                        }
                    }
                    if known.contains(id) {
                        let j = choose|j: int| 0 <= j < known.len() && known[j] == id;
                        assert(node_ids(self.nodes@)[j] == id);
                    }
                    if before.contains(id) {
                        let j = choose|j: int| 0 <= j < before.len() && before[j] == id;
                        assert(node_ids(self.nodes@)[known.len() + j] == id);
                    }
                }
            }
            if present.is_none() {
                let ghost nodes0 = self.nodes@;
                self.nodes.push(DagNodePosition { id: ids[i].clone(), x, y, width: 30, height: 5 });
                proof {
                    assert(node_ids(self.nodes@) =~= node_ids(nodes0).push(id));
                    assert(self.nodes@.take(old_nodes.len() as int) =~= nodes0.take(old_nodes.len() as int));
                    assert(slot(placed as nat) == (x, y));
                }
                assert(placed as nat / 3 <= 6333) by {
                    assert(placed < 19000);
                }
                if x > 65 {
                    x = 5;
                    y = y + 10;
                } else {
                    x = x + 35;
                }
                placed = placed + 1;
                proof {
                    let p = (placed - 1) as nat;
                    if p % 3 == 2 {
                        assert(placed as nat % 3 == 0 && placed as nat / 3 == p / 3 + 1);
                    } else {
                        assert(placed as nat % 3 == p % 3 + 1 && placed as nat / 3 == p / 3);
                    }
                }
            } else {
                assert(fresh_ids(known, views(ids@).take(i + 1)) == before);
            }
            i = i + 1;
        }
        assert(views(ids@).take(ids@.len() as int) =~= views(ids@));
        proof {
            let fresh = fresh_ids(known, views(ids@));
            assert forall|k: int| 0 <= k < fresh.len() implies #[trigger] self.nodes@[old_nodes.len() + k].id@ == fresh[k] by {
                assert(node_ids(self.nodes@)[old_nodes.len() + k] == fresh[k]);
            }
        }
    }

    /// A mouse press at `row`, `col`: the first node hit becomes selected and
    /// starts being dragged, held at the offset of the press inside it; a
    /// press on no node clears both.
    pub fn handle_mouse_press(&mut self, row: u16, col: u16) -> (r: Option<String>)
        ensures
            match first_hit(old(self).nodes@, row, col) {
                Some(i) => {
                    let n = old(self).nodes@[i];
                    &&& opt_text(r) == Some(n.id@)
                    &&& opt_text(final(self).selected_node) == Some(n.id@)
                    &&& opt_text(final(self).dragging_node) == Some(n.id@)
                    &&& final(self).drag_offset_x == col - n.x
                    &&& final(self).drag_offset_y == row - n.y
                },
                None => {
                    &&& r is None
                    &&& final(self).selected_node is None
                    &&& final(self).dragging_node is None
                    &&& final(self).drag_offset_x == old(self).drag_offset_x
                    &&& final(self).drag_offset_y == old(self).drag_offset_y
                },
            },
            final(self).nodes == old(self).nodes,
            final(self).adding_dependency == old(self).adding_dependency,
    {
        proof {
            lemma_first_hit(self.nodes@, row, col);
        }
        match self.get_node_index_at(row, col) {
            Some(i) => {
                let id = self.nodes[i].id.clone();
                self.selected_node = Some(id.clone());
                self.dragging_node = Some(id.clone());
                self.drag_offset_x = col - self.nodes[i].x;
                self.drag_offset_y = row - self.nodes[i].y;
                Some(id)
            },
            None => {
                self.selected_node = None;
                self.dragging_node = None;
                None
            },
        }
    }

    /// Index of the first node hit by the cell.
    pub fn get_node_index_at(&self, row: u16, col: u16) -> (r: Option<usize>)
        ensures
            match r {
                Some(i) => first_hit(self.nodes@, row, col) == Some(i as int) && i < self.nodes@.len(),
                None => first_hit(self.nodes@, row, col) is None,
            },
    {
        proof {
            lemma_first_hit(self.nodes@, row, col);
        }
        let mut i: usize = 0;
        while i < self.nodes.len()
            invariant
                i <= self.nodes@.len(),
                first_hit(self.nodes@.take(i as int), row, col) is None,
            decreases self.nodes@.len() - i,
        {
            let n = &self.nodes[i];
            let inside = col >= n.x && (col as u32) <= (n.x as u32) + (n.width as u32) && row >= n.y
                && (row as u32) <= (n.y as u32) + (n.height as u32);
            assert(self.nodes@.take(i + 1).drop_last() =~= self.nodes@.take(i as int));
            if inside {
                proof {
                    lemma_first_hit_prefix(self.nodes@, row, col, (i + 1) as nat);
                }
                return Some(i);
            }
            i = i + 1;
        }
        assert(self.nodes@.take(i as int) =~= self.nodes@);
        None
    }

    /// The id of the first node hit by the cell.
    pub fn get_node_at(&self, row: u16, col: u16) -> (r: Option<&String>)
        ensures
            match first_hit(self.nodes@, row, col) {
                Some(i) => 0 <= i < self.nodes@.len() && r == Some(&self.nodes@[i].id),
                None => r is None,
            },
    {
        proof {
            lemma_first_hit(self.nodes@, row, col);
        }
        match self.get_node_index_at(row, col) {
            Some(i) => Some(&self.nodes[i].id),
            None => None,
        }
    }

    /// Dragging to `row`, `col`: the dragged node moves so that the press
    /// offset stays under the pointer, stopping at the screen's edge.
    pub fn handle_mouse_drag(&mut self, row: u16, col: u16)
        ensures
            final(self).nodes@.len() == old(self).nodes@.len(),
            match old(self).dragging_node {
                Some(d) => match first_index_of(node_ids(old(self).nodes@), d@) {
                    Some(i) => {
                        &&& 0 <= i < old(self).nodes@.len()
                        &&& final(self).nodes@ == old(self).nodes@.update(
                            i,
                            DagNodePosition {
                                x: if col >= old(self).drag_offset_x { (col - old(self).drag_offset_x) as u16 } else { 0 },
                                y: if row >= old(self).drag_offset_y { (row - old(self).drag_offset_y) as u16 } else { 0 },
                                ..old(self).nodes@[i]
                            },
                        )
                    },
                    None => final(self).nodes@ == old(self).nodes@,
                },
                None => final(self).nodes@ == old(self).nodes@,
            },
            final(self).selected_node == old(self).selected_node,
            final(self).dragging_node == old(self).dragging_node,
            final(self).adding_dependency == old(self).adding_dependency,
            final(self).drag_offset_x == old(self).drag_offset_x,
            final(self).drag_offset_y == old(self).drag_offset_y,
    {
        let found = match &self.dragging_node {
            Some(d) => self.find(d.as_str()),
            None => None,
        };
        match found {
            Some(i) => {
                let nx = col.saturating_sub(self.drag_offset_x);
                let ny = row.saturating_sub(self.drag_offset_y);
                let n = DagNodePosition {
                    id: self.nodes[i].id.clone(),
                    x: nx,
                    y: ny,
                    width: self.nodes[i].width,
                    height: self.nodes[i].height,
                };
                self.nodes.set(i, n);
            },
            None => {},
        }
    }

    /// Releasing the mouse ends any drag.
    pub fn handle_mouse_release(&mut self)
        ensures
            *final(self) == (DagEditorState { dragging_node: None, ..*old(self) }),
    {
        self.dragging_node = None;
    }

    /// Starts drawing a dependency from the node `node_id`.
    pub fn start_adding_dependency(&mut self, node_id: String)
        ensures
            final(self).adding_dependency == Some(node_id),
            final(self).nodes == old(self).nodes,
            final(self).selected_node == old(self).selected_node,
            final(self).dragging_node == old(self).dragging_node,
    {
        self.adding_dependency = Some(node_id);
    }

    /// Ends drawing a dependency at `target_id`: yields the pair (source,
    /// target) when a source was chosen and differs from the target. The
    /// drawing ends either way.
    pub fn finish_adding_dependency(&mut self, target_id: String) -> (r: Option<(String, String)>)
        ensures
            final(self).adding_dependency is None,
            match old(self).adding_dependency {
                Some(s) => if s@ != target_id@ {
                    r matches Some(p) && p.0@ == s@ && p.1@ == target_id@
                } else {
                    r is None
                },
                None => r is None,
            },
            final(self).nodes == old(self).nodes,
            final(self).selected_node == old(self).selected_node,
            final(self).dragging_node == old(self).dragging_node,
    {
        let r = match &self.adding_dependency {
            Some(s) => if !same_text(s.as_str(), target_id.as_str()) {
                Some((s.clone(), target_id))
            } else {
                None
            },
            None => None,
        };
        self.adding_dependency = None;
        r
    }
}

/// Index of the first occurrence of `x`.
pub open spec fn first_index_of(s: Seq<Seq<char>>, x: Seq<char>) -> Option<int>
    decreases s.len(),
{
    if s.len() == 0 {
        None
    } else {
        match first_index_of(s.drop_last(), x) {
            Some(i) => Some(i),
            None => if s.last() == x {
                Some(s.len() - 1)
            } else {
                None
            },
        }
    }
}

proof fn lemma_first_index_of(s: Seq<Seq<char>>, x: Seq<char>)
    ensures
        match first_index_of(s, x) {
            Some(i) => 0 <= i < s.len() && s[i] == x,
            None => !s.contains(x),
        },
    decreases s.len(),
{
    if s.len() > 0 {
        lemma_first_index_of(s.drop_last(), x);
        if first_index_of(s.drop_last(), x) is None && s.last() != x {
            assert forall|j: int| 0 <= j < s.len() implies s[j] != x by {
                if j < s.len() - 1 {
                    assert(s.drop_last()[j] == s[j]);
                }
            }
        }
    }
}

proof fn lemma_first_hit(ns: Seq<DagNodePosition>, row: u16, col: u16)
    ensures
        match first_hit(ns, row, col) {
            Some(i) => 0 <= i < ns.len() && hits(ns[i], row, col),
            None => forall|j: int| 0 <= j < ns.len() ==> !hits(#[trigger] ns[j], row, col),
        },
    decreases ns.len(),
{
    if ns.len() > 0 {
        lemma_first_hit(ns.drop_last(), row, col);
        if first_hit(ns.drop_last(), row, col) is None && !hits(ns.last(), row, col) {
            assert forall|j: int| 0 <= j < ns.len() implies !hits(#[trigger] ns[j], row, col) by {
                if j < ns.len() - 1 {
                    assert(ns.drop_last()[j] == ns[j]);
                }
            }
        }
    }
}

proof fn lemma_first_index_prefix(s: Seq<Seq<char>>, x: Seq<char>, k: nat)
    requires
        0 < k <= s.len(),
        first_index_of(s.take(k - 1), x) is None,
        s[k - 1] == x,
    ensures
        first_index_of(s, x) == Some(k - 1),
    decreases s.len(),
{
    assert(s.take(k as int).drop_last() =~= s.take(k - 1));
    if k == s.len() {
        assert(s.take(k as int) =~= s);
    } else {
        assert(s.drop_last().take(k - 1) =~= s.take(k - 1));
        lemma_first_index_prefix(s.drop_last(), x, k);
    }
}

proof fn lemma_first_hit_prefix(ns: Seq<DagNodePosition>, row: u16, col: u16, k: nat)
    requires
        0 < k <= ns.len(),
        first_hit(ns.take(k - 1), row, col) is None,
        hits(ns[k - 1], row, col),
    ensures
        first_hit(ns, row, col) == Some(k - 1),
    decreases ns.len(),
{
    assert(ns.take(k as int).drop_last() =~= ns.take(k - 1));
    assert(ns.take(k as int).last() == ns[k - 1]);
    if k == ns.len() {
        assert(ns.take(k as int) =~= ns);
    } else {
        assert(ns.drop_last().take(k - 1) =~= ns.take(k - 1));
        assert(ns.drop_last()[k - 1] == ns[k - 1]);
        lemma_first_hit_prefix(ns.drop_last(), row, col, k);
    }
}


/// How many characters of a task's input a node shows.
pub const PREVIEW_CHARS: usize = 25;

/// The input as a node shows it: whole when it has at most 25 characters,
/// else its first 25 characters and `...`.
pub fn node_preview(input: &str) -> (r: String)
    ensures
        r@ == if input@.len() > PREVIEW_CHARS {
            input@.take(PREVIEW_CHARS as int) + "..."@
        } else {
            input@
        },
{
    let c = chars_of(input);
    if c.len() > PREVIEW_CHARS {
        let head = take_chars(c.as_slice(), PREVIEW_CHARS);
        let mut v: Vec<char> = Vec::new();
        push_all(&mut v, head.as_slice());
        push_str(&mut v, "...");
        string_of(v.as_slice())
    } else {
        string_of(c.as_slice())
    }
}

/// The mark a node shows for a task status of the task table.
pub open spec fn status_mark(status: Seq<char>) -> Seq<char> {
    if status == "DONE"@ {
        "✓"@
    } else if status == "FAILED"@ {
        "✗"@
    } else if status == "RUNNING"@ {
        "⟳"@
    } else {
        "○"@
    }
}

/// The mark a node shows for a task status of the task table.
pub fn node_mark(status: &str) -> (r: &'static str)
    ensures
        r@ == status_mark(status@),
{
    if same_text(status, "DONE") {
        "✓"
    } else if same_text(status, "FAILED") {
        "✗"
    } else if same_text(status, "RUNNING") {
        "⟳"
    } else {
        "○"
    }
}

} // verus!
