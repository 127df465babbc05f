//! The state of the terminal dashboard and how it changes: with each bus
//! event, each key, each mouse action and each palette action. Drawing and
//! reading the terminal happen outside.
use vstd::prelude::*;
use crate::bus::{SystemEvent, SystemEventView};
use crate::text::{
    ascii_lower, chars_of, concat2, decimal, first_chars, is_ascii_text, owned, push_decimal, push_str, same_text,
    string_of, take_chars, views,
};
use crate::text_map::TextMap;
use crate::ui::command_palette::{tab_index, CommandAction, CommandActionView, CommandPalette};
use crate::ui::dag_editor::DagEditorState;
use crate::ui::theme::{other, theme_of, ThemeManager, ThemeType};

verus! {

/// A tab of the interface.
#[derive(Debug, Clone, Copy, PartialEq, Eq, Structural)]
pub enum Tab {
    Dashboard,
    Memory,
    Graph,
    Logs,
    Agents,
    Git,
    Help,
}

/// The tabs in display order.
pub open spec fn all_tabs() -> Seq<Tab> {
    seq![Tab::Dashboard, Tab::Memory, Tab::Graph, Tab::Logs, Tab::Agents, Tab::Git, Tab::Help]
}

/// The position of a tab in display order.
pub open spec fn tab_position(t: Tab) -> nat {
    match t {
        Tab::Dashboard => 0,
        Tab::Memory => 1,
        Tab::Graph => 2,
        Tab::Logs => 3,
        Tab::Agents => 4,
        Tab::Git => 5,
        Tab::Help => 6,
    }
}

/// The name of a tab, as `Debug` writes it.
pub open spec fn tab_name(t: Tab) -> Seq<char> {
    match t {
        Tab::Dashboard => "Dashboard"@,
        Tab::Memory => "Memory"@,
        Tab::Graph => "Graph"@,
        Tab::Logs => "Logs"@,
        Tab::Agents => "Agents"@,
        Tab::Git => "Git"@,
        Tab::Help => "Help"@,
    }
}

/// The name of a theme kind, as `Debug` writes it.
pub open spec fn theme_name(t: ThemeType) -> Seq<char> {
    match t {
        ThemeType::Dark => "Dark"@,
        ThemeType::Light => "Light"@,
    }
}

/// The titles of the tabs, in display order.
pub open spec fn tab_titles() -> Seq<Seq<char>> {
    seq![
        "📊 Dashboard"@, "🧠 Memory"@, "📈 Graph"@, "📜 Logs"@, "🤖 Agents"@, "🔗 Git"@, "❓ Help"@,
    ]
}

impl Tab {
    /// The titles of the tabs, in display order.
    pub fn titles() -> (r: Vec<&'static str>)
        ensures
            r@.map_values(|s: &str| s@) == tab_titles(),
    {
        let r = vec!["📊 Dashboard", "🧠 Memory", "📈 Graph", "📜 Logs", "🤖 Agents", "🔗 Git", "❓ Help"];
        assert(r@.map_values(|s: &str| s@) =~= tab_titles());
        r
    }

    /// The tabs in display order.
    pub fn all() -> (r: Vec<Tab>)
        ensures
            r@ == all_tabs(),
    {
        let r = vec![Tab::Dashboard, Tab::Memory, Tab::Graph, Tab::Logs, Tab::Agents, Tab::Git, Tab::Help];
        assert(r@ =~= all_tabs());
        r
    }

    /// The position of the tab in display order.
    pub fn position(self) -> (i: usize)
        ensures
            i == tab_position(self),
    {
        match self {
            Tab::Dashboard => 0,
            Tab::Memory => 1,
            Tab::Graph => 2,
            Tab::Logs => 3,
            Tab::Agents => 4,
            Tab::Git => 5,
            Tab::Help => 6,
        }
    }

    /// The tab at position `i` in display order.
    pub fn at(i: usize) -> (t: Tab)
        requires
            i < 7,
        ensures
            t == all_tabs()[i as int],
    {
        let tabs = Tab::all();
        tabs[i]
    }

    /// The tab after this one, the first after the last.
    pub fn next(self) -> (t: Tab)
        ensures
            t == all_tabs()[((tab_position(self) + 1) % 7) as int],
    {
        Tab::at((self.position() + 1) % 7)
    }

    /// The tab before this one, the last before the first.
    pub fn prev(self) -> (t: Tab)
        ensures
            t == all_tabs()[((tab_position(self) + 6) % 7) as int],
    {
        Tab::at((self.position() + 6) % 7)
    }

    /// The name of the tab.
    pub fn name(self) -> (s: &'static str)
        ensures
            s@ == tab_name(self),
    {
        match self {
            Tab::Dashboard => "Dashboard",
            Tab::Memory => "Memory",
            Tab::Graph => "Graph",
            Tab::Logs => "Logs",
            Tab::Agents => "Agents",
            Tab::Git => "Git",
            Tab::Help => "Help",
        }
    }
}

/// Going to the next tab and back returns to the tab; seven steps go round.
pub proof fn lemma_tab_cycle(t: Tab)
    ensures
        all_tabs()[tab_position(t) as int] == t,
        ({
            let n = all_tabs()[((tab_position(t) + 1) % 7) as int];
            all_tabs()[((tab_position(n) + 6) % 7) as int] == t
        }),
{
}

/// A `:tab` argument naming a tab opens that tab: the tab's name in lower
/// case, or its position in display order counted from 1 as one digit,
/// selects its position; the name is plain ASCII.
pub proof fn lemma_tab_arguments(t: Tab)
    ensures
        is_ascii_text(tab_name(t)),
        tab_index(ascii_lower(tab_name(t))) == Some(tab_position(t)),
        tab_index(decimal(tab_position(t) + 1)) == Some(tab_position(t)),
        all_tabs()[tab_position(t) as int] == t,
{
    lemma_tab_index_values();
    reveal_strlit("Dashboard");
    reveal_strlit("dashboard");
    reveal_strlit("Memory");
    reveal_strlit("memory");
    reveal_strlit("Graph");
    reveal_strlit("graph");
    reveal_strlit("Logs");
    reveal_strlit("logs");
    reveal_strlit("Agents");
    reveal_strlit("agents");
    reveal_strlit("Git");
    reveal_strlit("git");
    reveal_strlit("Help");
    reveal_strlit("help");
    reveal_strlit("1");
    reveal_strlit("2");
    reveal_strlit("3");
    reveal_strlit("4");
    reveal_strlit("5");
    reveal_strlit("6");
    reveal_strlit("7");
    match t {
        Tab::Dashboard => {
            assert(ascii_lower("Dashboard"@) =~= "dashboard"@);
            assert(decimal(1) =~= "1"@);
        },
        Tab::Memory => {
            assert(ascii_lower("Memory"@) =~= "memory"@);
            assert(decimal(2) =~= "2"@);
        },
        Tab::Graph => {
            assert(ascii_lower("Graph"@) =~= "graph"@);
            assert(decimal(3) =~= "3"@);
        },
        Tab::Logs => {
            assert(ascii_lower("Logs"@) =~= "logs"@);
            assert(decimal(4) =~= "4"@);
        },
        Tab::Agents => {
            assert(ascii_lower("Agents"@) =~= "agents"@);
            assert(decimal(5) =~= "5"@);
        },
        Tab::Git => {
            assert(ascii_lower("Git"@) =~= "git"@);
            assert(decimal(6) =~= "6"@);
        },
        Tab::Help => {
            assert(ascii_lower("Help"@) =~= "help"@);
            assert(decimal(7) =~= "7"@);
        },
    }
}

/// What `tab_index` gives on each tab's lower-case name and on each digit.
proof fn lemma_tab_index_values()
    ensures
        tab_index("1"@) == Some(0nat),
        tab_index("dashboard"@) == Some(0nat),
        tab_index("2"@) == Some(1nat),
        tab_index("memory"@) == Some(1nat),
        tab_index("3"@) == Some(2nat),
        tab_index("graph"@) == Some(2nat),
        tab_index("4"@) == Some(3nat),
        tab_index("logs"@) == Some(3nat),
        tab_index("5"@) == Some(4nat),
        tab_index("agents"@) == Some(4nat),
        tab_index("6"@) == Some(5nat),
        tab_index("git"@) == Some(5nat),
        tab_index("7"@) == Some(6nat),
        tab_index("help"@) == Some(6nat),
{
    reveal_strlit("1");
    reveal_strlit("2");
    reveal_strlit("3");
    reveal_strlit("4");
    reveal_strlit("5");
    reveal_strlit("6");
    reveal_strlit("7");
    reveal_strlit("dashboard");
    reveal_strlit("memory");
    reveal_strlit("graph");
    reveal_strlit("logs");
    reveal_strlit("agents");
    reveal_strlit("git");
    reveal_strlit("help");
    assert("1"@.len() == 1 && "1"@[0] == '1');
    assert("2"@.len() == 1 && "2"@[0] == '2');
    assert("3"@.len() == 1 && "3"@[0] == '3');
    assert("4"@.len() == 1 && "4"@[0] == '4');
    assert("5"@.len() == 1 && "5"@[0] == '5');
    assert("6"@.len() == 1 && "6"@[0] == '6');
    assert("7"@.len() == 1 && "7"@[0] == '7');
    assert("dashboard"@.len() == 9 && "dashboard"@[0] == 'd');
    assert("memory"@.len() == 6 && "memory"@[0] == 'm');
    assert("graph"@.len() == 5 && "graph"@[0] == 'g');
    assert("logs"@.len() == 4 && "logs"@[0] == 'l');
    assert("agents"@.len() == 6 && "agents"@[0] == 'a');
    assert("git"@.len() == 3 && "git"@[0] == 'g');
    assert("help"@.len() == 4 && "help"@[0] == 'h');
}

/// A goal as the dashboard lists it.
#[derive(Debug, Clone)]
pub struct GoalInfo {
    pub id: String,
    pub task: String,
    pub status: String,
    pub created_at: String,
}

/// The git state shown on the git tab.
#[derive(Debug, Clone)]
pub struct GitStatusInfo {
    pub branch: String,
    pub changes: usize,
    pub is_clean: bool,
}

/// An agent as the agents tab shows it.
#[derive(Debug, Clone)]
pub struct AgentStatusInfo {
    pub name: String,
    pub available: bool,
    pub version: Option<String>,
}

/// The most log lines kept.
pub const MAX_LOG_LINES: usize = 200;

/// The most characters of a task result kept.
pub const RESULT_PREVIEW_CHARS: usize = 50;

/// The dashboard's state.
pub struct DashboardState {
    /// Per task id: the tool, the status, the input, then any result or error.
    pub dags: TextMap<Vec<String>>,
    /// Per daemon: its last status.
    pub daemons: TextMap<String>,
    pub logs: Vec<String>,
    pub goals: Vec<GoalInfo>,
    pub input_text: String,
    pub chat_history: Vec<String>,
    pub memory_search_query: String,
    pub ram_mb: u64,
    pub active_tab: Tab,
    pub scroll_offset: usize,
    pub memory_selected: usize,
    pub log_selected: usize,
    pub git_status: Option<GitStatusInfo>,
    pub agents_status: Vec<AgentStatusInfo>,
    pub show_memory_panel: bool,
    pub memory_search_mode: bool,
    pub theme_manager: ThemeManager,
    pub dag_editor_state: DagEditorState,
    pub command_palette: CommandPalette,
}

/// The greeting that opens the chat.
pub open spec fn greeting() -> Seq<char> {
    "🦀 ANT OS v0.9.0: Система готова. Введите команду."@
}

/// The goal statuses as plain values.
pub open spec fn goal_statuses(gs: Seq<GoalInfo>) -> Seq<Seq<char>> {
    gs.map_values(|g: GoalInfo| g.status@)
}

/// Index of the first goal with id `id`.
pub open spec fn first_goal(gs: Seq<GoalInfo>, id: Seq<char>) -> Option<int>
    decreases gs.len(),
{
    if gs.len() == 0 {
        None
    } else {
        match first_goal(gs.drop_last(), id) {
            Some(i) => Some(i),
            None => if gs.last().id@ == id {
                Some(gs.len() - 1)
            } else {
                None
            },
        }
    }
}

/// The log line of a `Log` event at time `clock`.
pub open spec fn log_line(clock: Seq<char>, level: Seq<char>, source: Seq<char>, message: Seq<char>) -> Seq<char> {
    "["@ + clock + "] ["@ + level + "] "@ + source + ": "@ + message
}

impl DashboardState {
    /// The task table is consistent and each task has its tool, status and
    /// input; the palette is consistent; the log holds at most 200 lines.
    pub open spec fn wf(&self) -> bool {
        &&& self.dags.wf()
        &&& self.daemons.wf()
        &&& forall|i: int| 0 <= i < self.dags.val_seq().len() ==> #[trigger] self.dags.val_seq()[i]@.len() >= 3
        &&& self.command_palette.wf()
        &&& self.logs@.len() <= MAX_LOG_LINES
    }

    /// The start state: no tasks, goals or logs, the greeting in the chat, the
    /// dashboard tab, the dark theme, the palette closed.
    pub fn new() -> (s: DashboardState)
        ensures
            s.wf(),
            s.dags.key_seq().len() == 0,
            s.daemons.key_seq().len() == 0,
            s.logs@.len() == 0,
            s.goals@.len() == 0,
            s.input_text@ == Seq::<char>::empty(),
            views(s.chat_history@) == seq![greeting()],
            s.active_tab == Tab::Dashboard,
            s.scroll_offset == 0,
            s.memory_selected == 0,
            s.log_selected == 0,
            !s.show_memory_panel,
            !s.memory_search_mode,
            s.theme_manager.theme() == crate::ui::theme::dark_theme(),
            !s.command_palette.visible,
    {
        let chat = vec![owned("🦀 ANT OS v0.9.0: Система готова. Введите команду.")];
        assert(views(chat@) =~= seq![greeting()]);
        DashboardState {
            dags: TextMap::new(),
            daemons: TextMap::new(),
            logs: Vec::new(),
            goals: Vec::new(),
            input_text: String::new(),
            chat_history: chat,
            memory_search_query: String::new(),
            ram_mb: 0,
            active_tab: Tab::Dashboard,
            scroll_offset: 0,
            memory_selected: 0,
            log_selected: 0,
            git_status: None,
            agents_status: Vec::new(),
            show_memory_panel: false,
            memory_search_mode: false,
            theme_manager: ThemeManager::new(),
            dag_editor_state: DagEditorState::new(),
            command_palette: CommandPalette::new(),
        }
    }

    /// Index of the first goal with id `id`.
    fn find_goal(&self, id: &str) -> (r: Option<usize>)
        ensures
            match r {
                Some(i) => first_goal(self.goals@, id@) == Some(i as int) && i < self.goals@.len(),
                None => first_goal(self.goals@, id@) is None,
            },
    {
        let mut i: usize = 0;
        while i < self.goals.len()
            invariant
                i <= self.goals@.len(),
                first_goal(self.goals@.take(i as int), id@) is None,
            decreases self.goals@.len() - i,
        {
            assert(self.goals@.take(i + 1).drop_last() =~= self.goals@.take(i as int));
            if same_text(self.goals[i].id.as_str(), id) {
                proof {
                    lemma_first_goal_prefix(self.goals@, id@, (i + 1) as nat);
                }
                return Some(i);
            }
            i = i + 1;
        }
        assert(self.goals@.take(i as int) =~= self.goals@);
        None
    }

    /// Sets the status of the first goal with id `id`, if any.
    fn set_goal_status(&mut self, id: &str, status: &str)
        ensures
            match first_goal(old(self).goals@, id@) {
                Some(i) => {
                    &&& final(self).goals@.len() == old(self).goals@.len()
                    &&& goal_statuses(final(self).goals@) == goal_statuses(old(self).goals@).update(i, status@)
                    &&& forall|j: int| 0 <= j < old(self).goals@.len() ==> {
                        &&& (#[trigger] final(self).goals@[j]).id == old(self).goals@[j].id
                        &&& final(self).goals@[j].task == old(self).goals@[j].task
                        &&& final(self).goals@[j].created_at == old(self).goals@[j].created_at
                    }
                },
                None => final(self).goals == old(self).goals,
            },
            final(self).dags == old(self).dags,
            final(self).daemons == old(self).daemons,
            final(self).logs == old(self).logs,
            final(self).command_palette == old(self).command_palette,
            final(self).input_text == old(self).input_text,
            final(self).active_tab == old(self).active_tab,
    {
        match self.find_goal(id) {
            Some(i) => {
                let g = GoalInfo {
                    id: self.goals[i].id.clone(),
                    task: self.goals[i].task.clone(),
                    status: owned(status),
                    created_at: self.goals[i].created_at.clone(),
                };
                let ghost g0 = self.goals@;
                self.goals.set(i, g);
                assert(goal_statuses(self.goals@) =~= goal_statuses(g0).update(i as int, status@));
            },
            None => {},
        }
    }

    /// Takes in a bus event that arrived at time `clock`: daemon statuses are
    /// recorded, log events become log lines (the oldest dropped past 200),
    /// dispatched tasks enter the task table as running, finished tasks are
    /// marked done (with the first 50 characters of the result) or failed
    /// (with the error), new goals are listed as planning, finished goals
    /// marked completed or failed.
    pub fn apply_event(&mut self, ev: &SystemEvent, clock: &str)
        requires
            old(self).wf(),
        ensures
            final(self).wf(),
            final(self).command_palette == old(self).command_palette,
            final(self).input_text == old(self).input_text,
            final(self).active_tab == old(self).active_tab,
            match ev@ {
                SystemEventView::DaemonStatus { daemon, status } => {
                    &&& final(self).daemons.key_seq() == (if old(self).daemons.key_seq().contains(daemon) {
                        old(self).daemons.key_seq()
                    } else {
                        old(self).daemons.key_seq().push(daemon)
                    })
                    &&& exists|i: int|
                        0 <= i < final(self).daemons.key_seq().len() && #[trigger] final(self).daemons.key_seq()[i]
                            == daemon && final(self).daemons.val_seq()[i]@ == status
                    &&& forall|i: int|
                        0 <= i < old(self).daemons.key_seq().len() && old(self).daemons.key_seq()[i] != daemon
                            ==> #[trigger] final(self).daemons.val_seq()[i] == old(self).daemons.val_seq()[i]
                    &&& final(self).dags == old(self).dags
                    &&& final(self).logs == old(self).logs
                    &&& final(self).goals == old(self).goals
                },
                SystemEventView::Log { level, source, message } => {
                    let added = views(old(self).logs@).push(log_line(clock@, level, source, message));
                    &&& views(final(self).logs@) == (if added.len() > MAX_LOG_LINES {
                        added.skip(1)
                    } else {
                        added
                    })
                    &&& final(self).dags == old(self).dags
                    &&& final(self).daemons == old(self).daemons
                    &&& final(self).goals == old(self).goals
                },
                SystemEventView::TaskDispatched { task_id, tool, input } => {
                    &&& final(self).dags.key_seq() == (if old(self).dags.key_seq().contains(task_id) {
                        old(self).dags.key_seq()
                    } else {
                        old(self).dags.key_seq().push(task_id)
                    })
                    &&& exists|i: int|
                        0 <= i < final(self).dags.key_seq().len() && #[trigger] final(self).dags.key_seq()[i]
                            == task_id && views(final(self).dags.val_seq()[i]@) == seq![tool, "RUNNING"@, input]
                    &&& forall|i: int|
                        0 <= i < old(self).dags.key_seq().len() && old(self).dags.key_seq()[i] != task_id
                            ==> #[trigger] final(self).dags.val_seq()[i] == old(self).dags.val_seq()[i]
                    &&& final(self).logs == old(self).logs
                    &&& final(self).daemons == old(self).daemons
                    &&& final(self).goals == old(self).goals
                },
                SystemEventView::TaskCompleted { task_id, result } => {
                    &&& final(self).dags.key_seq() == old(self).dags.key_seq()
                    &&& forall|i: int|
                        0 <= i < old(self).dags.key_seq().len() ==> #[trigger] views(final(self).dags.val_seq()[i]@)
                            == if old(self).dags.key_seq()[i] == task_id {
                            views(old(self).dags.val_seq()[i]@).update(1, "DONE"@).push(
                                first_chars(result, RESULT_PREVIEW_CHARS as int),
                            )
                        } else {
                            views(old(self).dags.val_seq()[i]@)
                        }
                    &&& final(self).logs == old(self).logs
                    &&& final(self).daemons == old(self).daemons
                    &&& final(self).goals == old(self).goals
                },
                SystemEventView::TaskFailed { task_id, error } => {
                    &&& final(self).dags.key_seq() == old(self).dags.key_seq()
                    &&& forall|i: int|
                        0 <= i < old(self).dags.key_seq().len() ==> #[trigger] views(final(self).dags.val_seq()[i]@)
                            == if old(self).dags.key_seq()[i] == task_id {
                            views(old(self).dags.val_seq()[i]@).update(1, "FAILED"@).push(error)
                        } else {
                            views(old(self).dags.val_seq()[i]@)
                        }
                    &&& final(self).logs == old(self).logs
                    &&& final(self).daemons == old(self).daemons
                    &&& final(self).goals == old(self).goals
                },
                SystemEventView::GoalCreated { id, task } => {
                    &&& final(self).goals@.len() == old(self).goals@.len() + 1
                    &&& final(self).goals@.drop_last() == old(self).goals@
                    &&& final(self).goals@.last().id@ == id
                    &&& final(self).goals@.last().task@ == task
                    &&& final(self).goals@.last().status@ == "PLANNING"@
                    &&& final(self).goals@.last().created_at@ == clock@
                    &&& final(self).dags == old(self).dags
                    &&& final(self).logs == old(self).logs
                    &&& final(self).daemons == old(self).daemons
                },
                SystemEventView::GoalCompleted { id, .. } => {
                    &&& match first_goal(old(self).goals@, id) {
                        Some(i) => goal_statuses(final(self).goals@) == goal_statuses(old(self).goals@).update(
                            i,
                            "COMPLETED"@,
                        ),
                        None => final(self).goals == old(self).goals,
                    }
                    &&& final(self).goals@.len() == old(self).goals@.len()
                    &&& final(self).dags == old(self).dags
                    &&& final(self).logs == old(self).logs
                    &&& final(self).daemons == old(self).daemons
                },
                SystemEventView::GoalFailed { id, .. } => {
                    &&& match first_goal(old(self).goals@, id) {
                        Some(i) => goal_statuses(final(self).goals@) == goal_statuses(old(self).goals@).update(
                            i,
                            "FAILED"@,
                        ),
                        None => final(self).goals == old(self).goals,
                    }
                    &&& final(self).goals@.len() == old(self).goals@.len()
                    &&& final(self).dags == old(self).dags
                    &&& final(self).logs == old(self).logs
                    &&& final(self).daemons == old(self).daemons
                },
                _ => {
                    &&& final(self).dags == old(self).dags
                    &&& final(self).logs == old(self).logs
                    &&& final(self).daemons == old(self).daemons
                    &&& final(self).goals == old(self).goals
                },
            },
    {
        proof {
            self.dags.lemma_wf();
            self.daemons.lemma_wf();
        }
        match ev {
            SystemEvent::DaemonStatus { daemon, status } => {
                let ghost k0 = self.daemons.key_seq();
                let ghost v0 = self.daemons.val_seq();
                let st = status.clone();
                self.daemons.insert(daemon.clone(), st);
                proof {
                    self.daemons.lemma_wf();
                    if k0.contains(daemon@) {
                        let j = choose|j: int|
                            0 <= j < k0.len() && #[trigger] k0[j] == daemon@ && self.daemons.key_seq() == k0
                                && self.daemons.val_seq() == v0.update(j, st);
                        assert(self.daemons.key_seq()[j] == daemon@ && self.daemons.val_seq()[j]@ == status@);
                    } else {
                        let j = k0.len() as int;
                        assert(self.daemons.key_seq()[j] == daemon@ && self.daemons.val_seq()[j]@ == status@);
                    }
                }
            },
            SystemEvent::Log { level, source, message } => {
                let mut v: Vec<char> = Vec::new();
                push_str(&mut v, "[");
                push_str(&mut v, clock);
                push_str(&mut v, "] [");
                push_str(&mut v, level.as_str());
                push_str(&mut v, "] ");
                push_str(&mut v, source.as_str());
                push_str(&mut v, ": ");
                push_str(&mut v, message.as_str());
                let line = string_of(v.as_slice());
                let ghost l0 = views(self.logs@);
                self.logs.push(line);
                assert(views(self.logs@) =~= l0.push(line@));
                if self.logs.len() > MAX_LOG_LINES {
                    let ghost l1 = self.logs@;
                    self.logs.remove(0);
                    assert(views(self.logs@) =~= views(l1).skip(1));
                }
            },
            SystemEvent::TaskDispatched { task_id, tool, input } => {
                let row = vec![tool.clone(), owned("RUNNING"), input.clone()];
                assert(views(row@) =~= seq![tool@, "RUNNING"@, input@]);
                let ghost v0 = self.dags.val_seq();
                let ghost k0 = self.dags.key_seq();
                let ghost rv = row;
                self.dags.insert(task_id.clone(), row);
                proof {
                    self.dags.lemma_wf();
                    if k0.contains(task_id@) {
                        let j = choose|j: int|
                            0 <= j < k0.len() && #[trigger] k0[j] == task_id@ && self.dags.key_seq() == k0
                                && self.dags.val_seq() == v0.update(j, rv);
                        assert(self.dags.key_seq()[j] == task_id@ && views(self.dags.val_seq()[j]@) == seq![tool@, "RUNNING"@, input@]);
                    } else {
                        let j = k0.len() as int;
                        assert(self.dags.key_seq()[j] == task_id@ && views(self.dags.val_seq()[j]@) == seq![tool@, "RUNNING"@, input@]);
                    }
                    assert forall|i: int| 0 <= i < self.dags.val_seq().len() implies #[trigger] self.dags.val_seq()[i]@.len()
                        >= 3 by {
                        if i < v0.len() && self.dags.val_seq()[i] == v0[i] {
                        }
                    }
                }
            },
            SystemEvent::TaskCompleted { task_id, result } => {
                let preview = take_chars(chars_of(result.as_str()).as_slice(), RESULT_PREVIEW_CHARS);
                let p = string_of(preview.as_slice());
                self.update_task(task_id.as_str(), "DONE", p);
            },
            SystemEvent::TaskFailed { task_id, error } => {
                self.update_task(task_id.as_str(), "FAILED", error.clone());
            },
            SystemEvent::GoalCreated { id, task } => {
                self.goals.push(
                    GoalInfo {
                        id: id.clone(),
                        task: task.clone(),
                        status: owned("PLANNING"),
                        created_at: owned(clock),
                    },
                );
            },
            SystemEvent::GoalCompleted { id, .. } => {
                self.set_goal_status(id.as_str(), "COMPLETED");
            },
            SystemEvent::GoalFailed { id, .. } => {
                self.set_goal_status(id.as_str(), "FAILED");
            },
            _ => {},
        }
    }

    /// Marks the task `task_id`, if listed, with `status` and appends `detail`.
    fn update_task(&mut self, task_id: &str, status: &str, detail: String)
        requires
            old(self).wf(),
        ensures
            final(self).wf(),
            final(self).dags.key_seq() == old(self).dags.key_seq(),
            forall|i: int|
                0 <= i < old(self).dags.key_seq().len() ==> #[trigger] views(final(self).dags.val_seq()[i]@) == if old(self).dags.key_seq()[i] == task_id@ {
                    views(old(self).dags.val_seq()[i]@).update(1, status@).push(detail@)
                } else {
                    views(old(self).dags.val_seq()[i]@)
                },
            final(self).logs == old(self).logs,
            final(self).daemons == old(self).daemons,
            final(self).goals == old(self).goals,
            final(self).command_palette == old(self).command_palette,
            final(self).input_text == old(self).input_text,
            final(self).active_tab == old(self).active_tab,
    {
        proof {
            self.dags.lemma_wf();
        }
        match self.dags.index_of(task_id) {
            Some(i) => {
                let old_row = self.dags.value_at(i);
                let ghost r0 = views(old_row@);
                let mut row: Vec<String> = Vec::new();
                let mut k: usize = 0;
                while k < old_row.len()
                    invariant
                        k <= old_row@.len(),
                        r0 == views(old_row@),
                        views(row@) == r0.take(k as int),
                    decreases old_row@.len() - k,
                {
                    let ghost b = views(row@);
                    row.push(old_row[k].clone());
                    assert(views(row@) =~= b.push(old_row@[k as int]@));
                    assert(r0.take(k + 1) =~= r0.take(k as int).push(r0[k as int]));
                    k = k + 1;
                }
                assert(r0.take(k as int) =~= r0);
                let ghost r1 = views(row@);
                row.set(1, owned(status));
                assert(views(row@) =~= r1.update(1, status@));
                let ghost r2 = views(row@);
                row.push(detail);
                assert(views(row@) =~= r2.push(detail@));
                let ghost v0 = self.dags.val_seq();
                let ghost ks = self.dags.key_seq();
                self.dags.set_at(i, row);
                proof {
                    self.dags.lemma_wf();
                    assert forall|j: int| 0 <= j < ks.len() implies #[trigger] views(self.dags.val_seq()[j]@) == if ks[j]
                        == task_id@ {
                        views(v0[j]@).update(1, status@).push(detail@)
                    } else {
                        views(v0[j]@)
                    } by {
                        if j != i {
                            assert(ks[j] != ks[i as int] || j == i);
                        }
                    }
                }
            },
            None => {
                assert forall|j: int| 0 <= j < self.dags.key_seq().len() implies self.dags.key_seq()[j] != task_id@ by {
                    if self.dags.key_seq()[j] == task_id@ {
                        assert(self.dags.key_seq().contains(task_id@));
                    }
                }
            },
        }
    }
}

proof fn lemma_first_goal_prefix(gs: Seq<GoalInfo>, id: Seq<char>, k: nat)
    requires
        0 < k <= gs.len(),
        first_goal(gs.take(k - 1), id) is None,
        gs[k - 1].id@ == id,
    ensures
        first_goal(gs, id) == Some(k - 1),
    decreases gs.len(),
{
    assert(gs.take(k as int).drop_last() =~= gs.take(k - 1));
    if k == gs.len() {
        assert(gs.take(k as int) =~= gs);
    } else {
        assert(gs.drop_last().take(k - 1) =~= gs.take(k - 1));
        lemma_first_goal_prefix(gs.drop_last(), id, k);
    }
}

/// The events as plain values.
pub open spec fn event_views(es: Seq<SystemEvent>) -> Seq<SystemEventView> {
    es.map_values(|e: SystemEvent| e@)
}

/// How many of the statuses equal `s`.
pub open spec fn count_status(st: Seq<Seq<char>>, s: Seq<char>) -> nat
    decreases st.len(),
{
    if st.len() == 0 {
        0
    } else {
        count_status(st.drop_last(), s) + if st.last() == s {
            1nat
        } else {
            0nat
        }
    }
}

/// How many of the statuses are neither `COMPLETED` nor `FAILED`.
pub open spec fn count_active(st: Seq<Seq<char>>) -> nat
    decreases st.len(),
{
    if st.len() == 0 {
        0
    } else {
        count_active(st.drop_last()) + if st.last() != "COMPLETED"@ && st.last() != "FAILED"@ {
            1nat
        } else {
            0nat
        }
    }
}

/// The status line of the chat.
pub open spec fn status_text(active: nat, completed: nat, failed: nat) -> Seq<char> {
    "📊 Status: Active: "@ + decimal(active) + ", Completed: "@ + decimal(completed) + ", Failed: "@ + decimal(
        failed,
    )
}

/// The id given to a goal submitted at time `clock`.
pub open spec fn goal_id_at(clock: Seq<char>) -> Seq<char> {
    "G-"@ + clock
}

/// `after` is `before` with a new chat history.
pub open spec fn only_chat(before: DashboardState, after: DashboardState) -> bool {
    after == DashboardState { chat_history: after.chat_history, ..before }
}

/// `after` is `before` with a new chat history and one more chat line.
pub open spec fn chat_says(before: DashboardState, after: DashboardState, line: Seq<char>) -> bool {
    views(after.chat_history@) == views(before.chat_history@).push(line)
}

/// What a palette action does to the dashboard state and which events it emits.
pub open spec fn action_applied(
    before: DashboardState,
    after: DashboardState,
    a: CommandActionView,
    clock: Seq<char>,
    events: Seq<SystemEventView>,
) -> bool {
    match a {
        CommandActionView::SubmitGoal { task } => {
            &&& chat_says(before, after, "⚡ Submit: "@ + task)
            &&& only_chat(before, after)
            &&& events == seq![SystemEventView::GoalCreated { id: goal_id_at(clock), task }]
        },
        CommandActionView::KillGoal { goal_id } => {
            &&& chat_says(before, after, "🛑 Kill: "@ + goal_id)
            &&& only_chat(before, after)
            &&& events == seq![SystemEventView::GoalFailed { id: goal_id, reason: "Killed by user"@ }]
        },
        CommandActionView::RetryTask { task_id } => {
            &&& chat_says(before, after, "🔄 Retry: "@ + task_id)
            &&& after == DashboardState { chat_history: after.chat_history, dags: after.dags, ..before }
            &&& after.dags.key_seq() == before.dags.key_seq()
            &&& if before.dags.key_seq().contains(task_id) {
                exists|i: int|
                    0 <= i < before.dags.key_seq().len() && #[trigger] before.dags.key_seq()[i] == task_id && {
                        let row = views(before.dags.val_seq()[i]@);
                        &&& views(after.dags.val_seq()[i]@) == row.update(1, "PENDING"@)
                        &&& (forall|j: int|
                            0 <= j < before.dags.val_seq().len() && j != i ==> #[trigger] after.dags.val_seq()[j]
                                == before.dags.val_seq()[j])
                        &&& events == seq![
                            SystemEventView::TaskDispatched { task_id, tool: row[0], input: row[2] },
                        ]
                    }
            } else {
                &&& after.dags == before.dags
                &&& events == Seq::<SystemEventView>::empty()
            }
        },
        CommandActionView::ShowTaskLogs { task_id } => {
            &&& chat_says(before, after, "📜 Logs for: "@ + task_id)
            &&& after == DashboardState {
                chat_history: after.chat_history,
                active_tab: Tab::Logs,
                scroll_offset: 0,
                ..before
            }
            &&& events == Seq::<SystemEventView>::empty()
        },
        CommandActionView::ToggleTheme => {
            let t = other(before.theme_manager.theme().theme_type);
            &&& after.theme_manager.theme() == theme_of(t)
            &&& after.theme_manager.available() == before.theme_manager.available()
            &&& chat_says(before, after, "🎨 Theme: "@ + theme_name(t))
            &&& after == DashboardState {
                chat_history: after.chat_history,
                theme_manager: after.theme_manager,
                ..before
            }
            &&& events == Seq::<SystemEventView>::empty()
        },
        CommandActionView::ShowHelp => {
            &&& after == DashboardState { active_tab: Tab::Help, ..before }
            &&& events == Seq::<SystemEventView>::empty()
        },
        CommandActionView::Quit => {
            &&& chat_says(before, after, "👋 Goodbye!"@)
            &&& only_chat(before, after)
            &&& events == seq![SystemEventView::SystemBoot("Shutdown requested"@)]
        },
        CommandActionView::SwitchTab { tab } => {
            &&& if tab < 7 {
                &&& chat_says(before, after, "📑 Tab: "@ + tab_name(all_tabs()[tab as int]))
                &&& after == DashboardState {
                    chat_history: after.chat_history,
                    active_tab: all_tabs()[tab as int],
                    ..before
                }
            } else {
                after == before
            }
            &&& events == Seq::<SystemEventView>::empty()
        },
        CommandActionView::ClearLogs => {
            &&& after.logs@.len() == 0
            &&& chat_says(before, after, "🗑️ Logs cleared"@)
            &&& after == DashboardState { chat_history: after.chat_history, logs: after.logs, ..before }
            &&& events == Seq::<SystemEventView>::empty()
        },
        CommandActionView::ShowStatus => {
            let st = goal_statuses(before.goals@);
            &&& chat_says(
                before,
                after,
                status_text(count_active(st), count_status(st, "COMPLETED"@), count_status(st, "FAILED"@)),
            )
            &&& only_chat(before, after)
            &&& events == Seq::<SystemEventView>::empty()
        },
        CommandActionView::RestartDaemon { daemon } => {
            &&& chat_says(before, after, "🔄 Restart daemon: "@ + daemon)
            &&& only_chat(before, after)
            &&& events == seq![SystemEventView::DaemonStatus { daemon, status: "RESTARTING"@ }]
        },
    }
}

/// The palette actions that change the view: showing a task's logs opens the
/// Logs tab at the top and adds one chat line, showing help opens the Help
/// tab, switching to a tab in range opens that tab; every other action leaves
/// the open tab as it was. None of these emits an event.
pub proof fn lemma_palette_actions_open_tabs(
    before: DashboardState,
    after: DashboardState,
    a: CommandActionView,
    clock: Seq<char>,
    events: Seq<SystemEventView>,
)
    requires
        action_applied(before, after, a, clock, events),
    ensures
        a is ShowTaskLogs ==> {
            &&& after.active_tab == Tab::Logs
            &&& after.scroll_offset == 0
            &&& after.chat_history@.len() == before.chat_history@.len() + 1
            &&& events.len() == 0
        },
        a is ShowHelp ==> after.active_tab == Tab::Help && events.len() == 0,
        a matches CommandActionView::SwitchTab { tab } ==> (tab < 7 ==> after.active_tab == all_tabs()[tab as int]
            && events.len() == 0),
        !(a is ShowTaskLogs || a is ShowHelp || a is SwitchTab) ==> after.active_tab == before.active_tab,
        a matches CommandActionView::SwitchTab { tab } ==> (tab >= 7 ==> after == before),
{
    if a is ShowTaskLogs {
        assert(views(after.chat_history@).len() == views(before.chat_history@).len() + 1);
    }
}

impl DashboardState {
    /// Adds a line to the chat.
    fn say(&mut self, line: String)
        ensures
            chat_says(*old(self), *final(self), line@),
            only_chat(*old(self), *final(self)),
    {
        let ghost c0 = views(self.chat_history@);
        self.chat_history.push(line);
        assert(views(self.chat_history@) =~= c0.push(line@));
    }

    /// The goals counted: neither completed nor failed, completed, failed.
    pub fn goal_counts(&self) -> (r: (u64, u64, u64))
        requires
            self.goals@.len() < u64::MAX,
        ensures
            r.0 == count_active(goal_statuses(self.goals@)),
            r.1 == count_status(goal_statuses(self.goals@), "COMPLETED"@),
            r.2 == count_status(goal_statuses(self.goals@), "FAILED"@),
    {
        let ghost st = goal_statuses(self.goals@);
        let mut a: u64 = 0;
        let mut c: u64 = 0;
        let mut f: u64 = 0;
        let mut i: usize = 0;
        while i < self.goals.len()
            invariant
                i <= self.goals@.len() < u64::MAX,
                st == goal_statuses(self.goals@),
                a == count_active(st.take(i as int)),
                c == count_status(st.take(i as int), "COMPLETED"@),
                f == count_status(st.take(i as int), "FAILED"@),
                a <= i && c <= i && f <= i,
            decreases self.goals@.len() - i,
        {
            let s = self.goals[i].status.as_str();
            assert(st.take(i + 1).drop_last() =~= st.take(i as int));
            assert(st.take(i + 1).last() == self.goals@[i as int].status@);
            let done = same_text(s, "COMPLETED");
            let failed = same_text(s, "FAILED");
            if !done && !failed {
                a = a + 1;
            }
            if done {
                c = c + 1;
            }
            if failed {
                f = f + 1;
            }
            i = i + 1;
        }
        assert(st.take(i as int) =~= st);
        (a, c, f)
    }

    /// Carries out a palette action submitted at time `clock`; yields the
    /// events to emit.
    pub fn handle_command_action(&mut self, action: CommandAction, clock: &str) -> (events: Vec<SystemEvent>)
        requires
            old(self).wf(),
            old(self).goals@.len() < u64::MAX,
        ensures
            final(self).wf(),
            action_applied(*old(self), *final(self), action@, clock@, event_views(events@)),
            action@ is ShowTaskLogs ==> final(self).active_tab == Tab::Logs && final(self).scroll_offset == 0,
            action@ is ShowHelp ==> final(self).active_tab == Tab::Help,
            action@ matches CommandActionView::SwitchTab { tab } ==> (tab < 7 ==> final(self).active_tab
                == all_tabs()[tab as int]),
    {
        let ghost a = action@;
        match action {
            CommandAction::SubmitGoal { task } => {
                self.say(concat2("⚡ Submit: ", task.as_str()));
                let e = SystemEvent::GoalCreated { id: concat2("G-", clock), task };
                let v = vec![e];
                assert(event_views(v@) =~= seq![e@]);
                v
            },
            CommandAction::KillGoal { goal_id } => {
                self.say(concat2("🛑 Kill: ", goal_id.as_str()));
                let e = SystemEvent::GoalFailed { id: goal_id, reason: owned("Killed by user") };
                let v = vec![e];
                assert(event_views(v@) =~= seq![e@]);
                v
            },
            CommandAction::RetryTask { task_id } => {
                self.say(concat2("🔄 Retry: ", task_id.as_str()));
                let ghost mid = *self;
                proof {
                    self.dags.lemma_wf();
                }
                match self.dags.index_of(task_id.as_str()) {
                    Some(i) => {
                        let old_row = self.dags.value_at(i);
                        let ghost r0 = views(old_row@);
                        assert(r0.len() >= 3);
                        let tool = old_row[0].clone();
                        let input = old_row[2].clone();
                        let mut row: Vec<String> = Vec::new();
                        let mut k: usize = 0;
                        while k < old_row.len()
                            invariant
                                k <= old_row@.len(),
                                r0 == views(old_row@),
                                views(row@) == r0.take(k as int),
                            decreases old_row@.len() - k,
                        {
                            let ghost b = views(row@);
                            row.push(old_row[k].clone());
                            assert(views(row@) =~= b.push(old_row@[k as int]@));
                            assert(r0.take(k + 1) =~= r0.take(k as int).push(r0[k as int]));
                            k = k + 1;
                        }
                        assert(r0.take(k as int) =~= r0);
                        let ghost r1 = views(row@);
                        row.set(1, owned("PENDING"));
                        assert(views(row@) =~= r1.update(1, "PENDING"@));
                        let ghost v0 = self.dags.val_seq();
                        self.dags.set_at(i, row);
                        proof {
                            self.dags.lemma_wf();
                            assert forall|j: int| 0 <= j < self.dags.val_seq().len() implies #[trigger] self.dags.val_seq()[j]@.len() >= 3 by {
                                if j != i {
                                    assert(self.dags.val_seq()[j] == v0[j]);
                                }
                            }
                        }
                        let e = SystemEvent::TaskDispatched { task_id, tool, input };
                        let v = vec![e];
                        assert(event_views(v@) =~= seq![e@]);
                        proof {
                            assert(old(self).dags.key_seq()[i as int] == task_id@);
                        }
                        v
                    },
                    None => {
                        let v: Vec<SystemEvent> = Vec::new();
                        assert(event_views(v@) =~= Seq::<SystemEventView>::empty());
                        v
                    },
                }
            },
            CommandAction::ShowTaskLogs { task_id } => {
                self.say(concat2("📜 Logs for: ", task_id.as_str()));
                self.active_tab = Tab::Logs;
                self.scroll_offset = 0;
                let v: Vec<SystemEvent> = Vec::new();
                assert(event_views(v@) =~= Seq::<SystemEventView>::empty());
                v
            },
            CommandAction::ToggleTheme => {
                self.theme_manager.toggle();
                let t = self.theme_manager.get_theme().theme_type;
                let name = match t {
                    ThemeType::Dark => "Dark",
                    ThemeType::Light => "Light",
                };
                self.say(concat2("🎨 Theme: ", name));
                let v: Vec<SystemEvent> = Vec::new();
                assert(event_views(v@) =~= Seq::<SystemEventView>::empty());
                v
            },
            CommandAction::ShowHelp => {
                self.active_tab = Tab::Help;
                let v: Vec<SystemEvent> = Vec::new();
                assert(event_views(v@) =~= Seq::<SystemEventView>::empty());
                v
            },
            CommandAction::Quit => {
                self.say(owned("👋 Goodbye!"));
                let e = SystemEvent::SystemBoot(owned("Shutdown requested"));
                let v = vec![e];
                assert(event_views(v@) =~= seq![e@]);
                v
            },
            CommandAction::SwitchTab { tab } => {
                if tab < 7 {
                    let t = Tab::at(tab);
                    self.active_tab = t;
                    self.say(concat2("📑 Tab: ", t.name()));
                }
                let v: Vec<SystemEvent> = Vec::new();
                assert(event_views(v@) =~= Seq::<SystemEventView>::empty());
                v
            },
            CommandAction::ClearLogs => {
                self.logs = Vec::new();
                self.say(owned("🗑️ Logs cleared"));
                let v: Vec<SystemEvent> = Vec::new();
                assert(event_views(v@) =~= Seq::<SystemEventView>::empty());
                v
            },
            CommandAction::ShowStatus => {
                let (a, c, f) = self.goal_counts();
                let mut t: Vec<char> = Vec::new();
                push_str(&mut t, "📊 Status: Active: ");
                push_decimal(&mut t, a);
                push_str(&mut t, ", Completed: ");
                push_decimal(&mut t, c);
                push_str(&mut t, ", Failed: ");
                push_decimal(&mut t, f);
                self.say(string_of(t.as_slice()));
                let v: Vec<SystemEvent> = Vec::new();
                assert(event_views(v@) =~= Seq::<SystemEventView>::empty());
                v
            },
            CommandAction::RestartDaemon { daemon } => {
                self.say(concat2("🔄 Restart daemon: ", daemon.as_str()));
                let e = SystemEvent::DaemonStatus { daemon, status: owned("RESTARTING") };
                let v = vec![e];
                assert(event_views(v@) =~= seq![e@]);
                v
            },
        }
    }
}

/// A key the dashboard reacts to.
#[derive(Debug, Clone, Copy, PartialEq, Eq, Structural)]
pub enum KeyInput {
    Char(char),
    Enter,
    Up,
    Down,
    Esc,
    Tab,
    BackTab,
    Backspace,
    Delete,
    /// Any other key.
    Other,
}

/// What a key does, given the state it arrives in.
#[derive(Debug, Clone, Copy, PartialEq, Eq, Structural)]
pub enum KeyEffect {
    Nothing,
    Quit,
    TogglePalette,
    PaletteExecute,
    SubmitInput,
    ToggleMemoryPanel,
    ToggleTheme,
    StartSearch,
    ShowDashboard,
    ClearSelection,
    PaletteUp,
    MemoryUp,
    ScrollUp,
    PaletteDown,
    MemoryDown,
    ScrollDown,
    PaletteClose,
    EndSearch,
    PaletteComplete,
    NextTab,
    PrevTab,
    PalettePush(char),
    QueryPush(char),
    InputPush(char),
    PalettePop,
    QueryPop,
    InputPop,
}

/// What `key` does in state `s`. The first matching rule wins: `:` on an
/// empty input line outside search toggles the palette; `q` or Esc on an
/// empty input line with the palette closed quits; Enter runs the palette
/// or submits the input line; `m`, `t` and `r` (palette closed) toggle the
/// memory panel, toggle the theme and start a memory search; `d` and Delete
/// on an empty line (palette closed) show the dashboard and clear the graph
/// selection; arrows move in the palette, the search results or the
/// scrolled view; Esc closes the palette or ends the search; Tab completes
/// in the palette or moves to the next tab; other characters and Backspace
/// edit the palette, the search query or the input line.
pub open spec fn key_effect(s: DashboardState, key: KeyInput) -> KeyEffect {
    let empty_line = s.input_text@.len() == 0;
    let palette = s.command_palette.visible;
    let search = s.memory_search_mode;
    match key {
        KeyInput::Char(c) => {
            if c == ':' && empty_line && !search {
                KeyEffect::TogglePalette
            } else if c == 'q' && empty_line && !palette {
                KeyEffect::Quit
            } else if c == 'm' {
                if !palette {
                    KeyEffect::ToggleMemoryPanel
                } else {
                    KeyEffect::Nothing
                }
            } else if c == 't' {
                if !palette {
                    KeyEffect::ToggleTheme
                } else {
                    KeyEffect::Nothing
                }
            } else if c == 'r' {
                if !palette {
                    KeyEffect::StartSearch
                } else {
                    KeyEffect::Nothing
                }
            } else if c == 'd' && empty_line && !palette {
                KeyEffect::ShowDashboard
            } else if palette {
                KeyEffect::PalettePush(c)
            } else if search {
                KeyEffect::QueryPush(c)
            } else {
                KeyEffect::InputPush(c)
            }
        },
        KeyInput::Esc => {
            if empty_line && !palette {
                KeyEffect::Quit
            } else if palette {
                KeyEffect::PaletteClose
            } else {
                KeyEffect::EndSearch
            }
        },
        KeyInput::Enter => {
            if palette {
                KeyEffect::PaletteExecute
            } else if !empty_line {
                KeyEffect::SubmitInput
            } else {
                KeyEffect::Nothing
            }
        },
        KeyInput::Delete => {
            if empty_line && !palette {
                KeyEffect::ClearSelection
            } else {
                KeyEffect::Nothing
            }
        },
        KeyInput::Up => {
            if palette {
                KeyEffect::PaletteUp
            } else if search {
                KeyEffect::MemoryUp
            } else {
                KeyEffect::ScrollUp
            }
        },
        KeyInput::Down => {
            if palette {
                KeyEffect::PaletteDown
            } else if search {
                KeyEffect::MemoryDown
            } else {
                KeyEffect::ScrollDown
            }
        },
        KeyInput::Tab => {
            if palette {
                KeyEffect::PaletteComplete
            } else if empty_line && !search {
                KeyEffect::NextTab
            } else {
                KeyEffect::Nothing
            }
        },
        KeyInput::BackTab => {
            if empty_line && !search && !palette {
                KeyEffect::PrevTab
            } else {
                KeyEffect::Nothing
            }
        },
        KeyInput::Backspace => {
            if palette {
                KeyEffect::PalettePop
            } else if search {
                KeyEffect::QueryPop
            } else {
                KeyEffect::InputPop
            }
        },
        KeyInput::Other => KeyEffect::Nothing,
    }
}

/// A text with its last character removed, if it has one.
pub open spec fn pop_text(t: Seq<char>) -> Seq<char> {
    if t.len() > 0 {
        t.drop_last()
    } else {
        t
    }
}

/// `after` is `before` with another palette.
pub open spec fn only_palette(before: DashboardState, after: DashboardState) -> bool {
    after == DashboardState { command_palette: after.command_palette, ..before }
}

/// The palette `b` is `a` with the typed text `input`, filtered anew, the
/// first entry selected.
pub open spec fn palette_retyped(a: CommandPalette, b: CommandPalette, input: Seq<char>) -> bool {
    &&& b.visible == a.visible
    &&& b.commands == a.commands
    &&& b.input@ == input
    &&& b.filtered@ == crate::ui::command_palette::filter_result(
        crate::ui::command_palette::command_views(a.commands@),
        input,
    )
    &&& b.selected == 0
}

/// What the effect `e` does to the state, and whether it quits and which
/// events it emits.
pub open spec fn effect_applied(
    before: DashboardState,
    after: DashboardState,
    e: KeyEffect,
    clock: Seq<char>,
    quit: bool,
    events: Seq<SystemEventView>,
) -> bool {
    &&& quit == (e == KeyEffect::Quit)
    &&& e != KeyEffect::PaletteExecute && e != KeyEffect::SubmitInput ==> events == Seq::<SystemEventView>::empty()
    &&& match e {
        KeyEffect::Nothing | KeyEffect::Quit => after == before,
        KeyEffect::TogglePalette => {
            let (a, b) = (before.command_palette, after.command_palette);
            &&& only_palette(before, after)
            &&& b.visible == !a.visible
            &&& b.input@ == Seq::<char>::empty()
            &&& b.commands == a.commands
            &&& a.visible ==> b.filtered == a.filtered && b.selected == a.selected
            &&& !a.visible ==> b.filtered@ == crate::ui::command_palette::filter_result(
                crate::ui::command_palette::command_views(a.commands@),
                Seq::empty(),
            ) && b.selected == 0
        },
        KeyEffect::PaletteExecute => {
            let (a, b) = (before.command_palette, after.command_palette);
            &&& b.commands == a.commands
            &&& b.filtered == a.filtered
            &&& b.selected == a.selected
            &&& match crate::ui::command_palette::palette_action(
                crate::ui::command_palette::command_views(a.commands@),
                a.filtered@,
                a.selected as int,
                a.input@,
            ) {
                Some(act) => {
                    &&& !b.visible
                    &&& b.input@ == Seq::<char>::empty()
                    &&& action_applied(
                        DashboardState { command_palette: b, ..before },
                        after,
                        act,
                        clock,
                        events,
                    )
                },
                None => {
                    &&& after == before
                    &&& events == Seq::<SystemEventView>::empty()
                },
            }
        },
        KeyEffect::SubmitInput => {
            &&& chat_says(before, after, "🧑\u{200d}💻: "@ + before.input_text@)
            &&& after.input_text@ == Seq::<char>::empty()
            &&& after == DashboardState {
                chat_history: after.chat_history,
                input_text: after.input_text,
                scroll_offset: 0,
                ..before
            }
            &&& events == seq![
                SystemEventView::GoalCreated { id: goal_id_at(clock), task: before.input_text@ },
            ]
        },
        KeyEffect::ToggleMemoryPanel => after == DashboardState {
            show_memory_panel: !before.show_memory_panel,
            ..before
        },
        KeyEffect::ToggleTheme => {
            &&& after.theme_manager.theme() == theme_of(other(before.theme_manager.theme().theme_type))
            &&& after.theme_manager.available() == before.theme_manager.available()
            &&& after == DashboardState { theme_manager: after.theme_manager, ..before }
        },
        KeyEffect::StartSearch => after == DashboardState { memory_search_mode: true, ..before },
        KeyEffect::ShowDashboard => after == DashboardState { active_tab: Tab::Dashboard, ..before },
        KeyEffect::ClearSelection => after == DashboardState {
            dag_editor_state: DagEditorState { selected_node: None, ..before.dag_editor_state },
            ..before
        },
        KeyEffect::PaletteUp => after == DashboardState {
            command_palette: CommandPalette {
                selected: if before.command_palette.selected > 0 {
                    (before.command_palette.selected - 1) as usize
                } else {
                    0
                },
                ..before.command_palette
            },
            ..before
        },
        KeyEffect::PaletteDown => after == DashboardState {
            command_palette: CommandPalette {
                selected: if before.command_palette.selected + 1 < before.command_palette.filtered@.len() {
                    (before.command_palette.selected + 1) as usize
                } else {
                    before.command_palette.selected
                },
                ..before.command_palette
            },
            ..before
        },
        KeyEffect::MemoryUp => after == DashboardState {
            memory_selected: if before.memory_selected > 0 {
                (before.memory_selected - 1) as usize
            } else {
                0
            },
            ..before
        },
        KeyEffect::MemoryDown => after == DashboardState {
            memory_selected: (before.memory_selected + 1) as usize,
            ..before
        },
        KeyEffect::ScrollUp => after == DashboardState {
            scroll_offset: if before.scroll_offset > 0 {
                (before.scroll_offset - 1) as usize
            } else {
                0
            },
            ..before
        },
        KeyEffect::ScrollDown => after == DashboardState {
            scroll_offset: (before.scroll_offset + 1) as usize,
            ..before
        },
        KeyEffect::PaletteClose => {
            let (a, b) = (before.command_palette, after.command_palette);
            &&& only_palette(before, after)
            &&& !b.visible
            &&& b.input@ == Seq::<char>::empty()
            &&& b.commands == a.commands
            &&& b.filtered == a.filtered
            &&& b.selected == a.selected
        },
        KeyEffect::EndSearch => after == DashboardState { memory_search_mode: false, ..before },
        KeyEffect::PaletteComplete => {
            let a = before.command_palette;
            let name = crate::ui::command_palette::command_views(a.commands@)[a.filtered@[a.selected as int] as int].name;
            &&& only_palette(before, after)
            &&& after.command_palette.input@ == ":"@ + name + " "@
            &&& after.command_palette.filtered@ == crate::ui::command_palette::filter_result(
                crate::ui::command_palette::command_views(a.commands@),
                ":"@ + name + " "@,
            )
            &&& after.command_palette.visible == a.visible
            &&& after.command_palette.commands == a.commands
            &&& after.command_palette.selected == if a.selected < after.command_palette.filtered@.len() {
                a.selected
            } else {
                0
            }
        },
        KeyEffect::NextTab => after == DashboardState {
            active_tab: all_tabs()[((tab_position(before.active_tab) + 1) % 7) as int],
            ..before
        },
        KeyEffect::PrevTab => after == DashboardState {
            active_tab: all_tabs()[((tab_position(before.active_tab) + 6) % 7) as int],
            ..before
        },
        KeyEffect::PalettePush(c) => {
            &&& only_palette(before, after)
            &&& palette_retyped(before.command_palette, after.command_palette, before.command_palette.input@.push(c))
        },
        KeyEffect::PalettePop => {
            &&& only_palette(before, after)
            &&& palette_retyped(before.command_palette, after.command_palette, pop_text(before.command_palette.input@))
        },
        KeyEffect::QueryPush(c) => {
            &&& after.memory_search_query@ == before.memory_search_query@.push(c)
            &&& after == DashboardState { memory_search_query: after.memory_search_query, ..before }
        },
        KeyEffect::QueryPop => {
            &&& after.memory_search_query@ == pop_text(before.memory_search_query@)
            &&& after == DashboardState { memory_search_query: after.memory_search_query, ..before }
        },
        KeyEffect::InputPush(c) => {
            &&& after.input_text@ == before.input_text@.push(c)
            &&& after == DashboardState { input_text: after.input_text, ..before }
        },
        KeyEffect::InputPop => {
            &&& after.input_text@ == pop_text(before.input_text@)
            &&& after == DashboardState { input_text: after.input_text, ..before }
        },
    }
}

/// What the interface loop does after a key.
pub struct UiOutcome {
    /// Whether to leave the interface.
    pub quit: bool,
    /// The events to emit, in order.
    pub events: Vec<SystemEvent>,
}

/// A text with its last character removed, if it has one.
fn pop_string(t: &String) -> (r: String)
    ensures
        r@ == pop_text(t@),
{
    let mut v = chars_of(t.as_str());
    if v.len() > 0 {
        v.pop();
    }
    string_of(v.as_slice())
}

/// A text with a character added.
fn push_string(t: &String, c: char) -> (r: String)
    ensures
        r@ == t@.push(c),
{
    let mut v = chars_of(t.as_str());
    v.push(c);
    string_of(v.as_slice())
}

impl DashboardState {
    /// What `key` does in this state.
    pub fn classify_key(&self, key: KeyInput) -> (e: KeyEffect)
        ensures
            e == key_effect(*self, key),
    {
        let empty_line = self.input_text.as_str().is_empty();
        let palette = self.command_palette.visible;
        let search = self.memory_search_mode;
        match key {
            KeyInput::Char(c) => {
                if c == ':' && empty_line && !search {
                    KeyEffect::TogglePalette
                } else if c == 'q' && empty_line && !palette {
                    KeyEffect::Quit
                } else if c == 'm' {
                    if !palette {
                        KeyEffect::ToggleMemoryPanel
                    } else {
                        KeyEffect::Nothing
                    }
                } else if c == 't' {
                    if !palette {
                        KeyEffect::ToggleTheme
                    } else {
                        KeyEffect::Nothing
                    }
                } else if c == 'r' {
                    if !palette {
                        KeyEffect::StartSearch
                    } else {
                        KeyEffect::Nothing
                    }
                } else if c == 'd' && empty_line && !palette {
                    KeyEffect::ShowDashboard
                } else if palette {
                    KeyEffect::PalettePush(c)
                } else if search {
                    KeyEffect::QueryPush(c)
                } else {
                    KeyEffect::InputPush(c)
                }
            },
            KeyInput::Esc => {
                if empty_line && !palette {
                    KeyEffect::Quit
                } else if palette {
                    KeyEffect::PaletteClose
                } else {
                    KeyEffect::EndSearch
                }
            },
            KeyInput::Enter => {
                if palette {
                    KeyEffect::PaletteExecute
                } else if !empty_line {
                    KeyEffect::SubmitInput
                } else {
                    KeyEffect::Nothing
                }
            },
            KeyInput::Delete => {
                if empty_line && !palette {
                    KeyEffect::ClearSelection
                } else {
                    KeyEffect::Nothing
                }
            },
            KeyInput::Up => {
                if palette {
                    KeyEffect::PaletteUp
                } else if search {
                    KeyEffect::MemoryUp
                } else {
                    KeyEffect::ScrollUp
                }
            },
            KeyInput::Down => {
                if palette {
                    KeyEffect::PaletteDown
                } else if search {
                    KeyEffect::MemoryDown
                } else {
                    KeyEffect::ScrollDown
                }
            },
            KeyInput::Tab => {
                if palette {
                    KeyEffect::PaletteComplete
                } else if empty_line && !search {
                    KeyEffect::NextTab
                } else {
                    KeyEffect::Nothing
                }
            },
            KeyInput::BackTab => {
                if empty_line && !search && !palette {
                    KeyEffect::PrevTab
                } else {
                    KeyEffect::Nothing
                }
            },
            KeyInput::Backspace => {
                if palette {
                    KeyEffect::PalettePop
                } else if search {
                    KeyEffect::QueryPop
                } else {
                    KeyEffect::InputPop
                }
            },
            KeyInput::Other => KeyEffect::Nothing,
        }
    }

    /// Carries out `effect` at time `clock`.
    pub fn apply_key_effect(&mut self, effect: KeyEffect, clock: &str) -> (o: UiOutcome)
        requires
            old(self).wf(),
            old(self).goals@.len() < u64::MAX,
            old(self).memory_selected < usize::MAX,
            old(self).scroll_offset < usize::MAX,
        ensures
            final(self).wf(),
            effect_applied(*old(self), *final(self), effect, clock@, o.quit, event_views(o.events@)),
    {
        let none: Vec<SystemEvent> = Vec::new();
        assert(event_views(none@) =~= Seq::<SystemEventView>::empty());
        match effect {
            KeyEffect::Nothing => UiOutcome { quit: false, events: none },
            KeyEffect::Quit => UiOutcome { quit: true, events: none },
            KeyEffect::TogglePalette => {
                self.command_palette.toggle();
                UiOutcome { quit: false, events: none }
            },
            KeyEffect::PaletteExecute => {
                let ghost before = *self;
                match self.command_palette.execute() {
                    Some(action) => {
                        let events = self.handle_command_action(action, clock);
                        UiOutcome { quit: false, events }
                    },
                    None => UiOutcome { quit: false, events: none },
                }
            },
            KeyEffect::SubmitInput => {
                let cmd = self.input_text.clone();
                self.say(concat2("🧑\u{200d}💻: ", cmd.as_str()));
                let e = SystemEvent::GoalCreated { id: concat2("G-", clock), task: cmd };
                self.input_text = String::new();
                self.scroll_offset = 0;
                let v = vec![e];
                assert(event_views(v@) =~= seq![e@]);
                UiOutcome { quit: false, events: v }
            },
            KeyEffect::ToggleMemoryPanel => {
                self.show_memory_panel = !self.show_memory_panel;
                UiOutcome { quit: false, events: none }
            },
            KeyEffect::ToggleTheme => {
                self.theme_manager.toggle();
                UiOutcome { quit: false, events: none }
            },
            KeyEffect::StartSearch => {
                self.memory_search_mode = true;
                UiOutcome { quit: false, events: none }
            },
            KeyEffect::ShowDashboard => {
                self.active_tab = Tab::Dashboard;
                UiOutcome { quit: false, events: none }
            },
            KeyEffect::ClearSelection => {
                self.dag_editor_state.selected_node = None;
                UiOutcome { quit: false, events: none }
            },
            KeyEffect::PaletteUp => {
                self.command_palette.move_up();
                UiOutcome { quit: false, events: none }
            },
            KeyEffect::PaletteDown => {
                self.command_palette.move_down();
                UiOutcome { quit: false, events: none }
            },
            KeyEffect::MemoryUp => {
                if self.memory_selected > 0 {
                    self.memory_selected = self.memory_selected - 1;
                }
                UiOutcome { quit: false, events: none }
            },
            KeyEffect::MemoryDown => {
                self.memory_selected = self.memory_selected + 1;
                UiOutcome { quit: false, events: none }
            },
            KeyEffect::ScrollUp => {
                if self.scroll_offset > 0 {
                    self.scroll_offset = self.scroll_offset - 1;
                }
                UiOutcome { quit: false, events: none }
            },
            KeyEffect::ScrollDown => {
                self.scroll_offset = self.scroll_offset + 1;
                UiOutcome { quit: false, events: none }
            },
            KeyEffect::PaletteClose => {
                self.command_palette.close();
                UiOutcome { quit: false, events: none }
            },
            KeyEffect::EndSearch => {
                self.memory_search_mode = false;
                UiOutcome { quit: false, events: none }
            },
            KeyEffect::PaletteComplete => {
                let i = self.command_palette.filtered[self.command_palette.selected];
                proof {
                    assert(crate::ui::command_palette::command_views(self.command_palette.commands@)[i as int]
                        == self.command_palette.commands@[i as int]@);
                }
                let t = crate::text::concat3(":", self.command_palette.commands[i].name.as_str(), " ");
                self.command_palette.input = t;
                self.command_palette.filter();
                if self.command_palette.selected >= self.command_palette.filtered.len() {
                    self.command_palette.selected = 0;
                }
                UiOutcome { quit: false, events: none }
            },
            KeyEffect::NextTab => {
                self.active_tab = self.active_tab.next();
                UiOutcome { quit: false, events: none }
            },
            KeyEffect::PrevTab => {
                self.active_tab = self.active_tab.prev();
                UiOutcome { quit: false, events: none }
            },
            KeyEffect::PalettePush(c) => {
                self.command_palette.push_char(c);
                UiOutcome { quit: false, events: none }
            },
            KeyEffect::PalettePop => {
                self.command_palette.pop_char();
                UiOutcome { quit: false, events: none }
            },
            KeyEffect::QueryPush(c) => {
                self.memory_search_query = push_string(&self.memory_search_query, c);
                UiOutcome { quit: false, events: none }
            },
            KeyEffect::QueryPop => {
                self.memory_search_query = pop_string(&self.memory_search_query);
                UiOutcome { quit: false, events: none }
            },
            KeyEffect::InputPush(c) => {
                self.input_text = push_string(&self.input_text, c);
                UiOutcome { quit: false, events: none }
            },
            KeyEffect::InputPop => {
                self.input_text = pop_string(&self.input_text);
                UiOutcome { quit: false, events: none }
            },
        }
    }

    /// Reacts to `key` pressed at time `clock`.
    pub fn handle_key(&mut self, key: KeyInput, clock: &str) -> (o: UiOutcome)
        requires
            old(self).wf(),
            old(self).goals@.len() < u64::MAX,
            old(self).memory_selected < usize::MAX,
            old(self).scroll_offset < usize::MAX,
        ensures
            final(self).wf(),
            effect_applied(*old(self), *final(self), key_effect(*old(self), key), clock@, o.quit, event_views(o.events@)),
    {
        let e = self.classify_key(key);
        self.apply_key_effect(e, clock)
    }
}

/// A mouse action the dashboard reacts to, at a screen cell.
#[derive(Debug, Clone, Copy, PartialEq, Eq, Structural)]
pub enum MouseInput {
    LeftDown { row: u16, col: u16 },
    LeftDrag { row: u16, col: u16 },
    LeftUp,
    ScrollDown,
    ScrollUp,
    /// Any other mouse action.
    Other,
}

/// `after` is `before` with another graph editor.
pub open spec fn only_editor(before: DashboardState, after: DashboardState) -> bool {
    after == DashboardState { dag_editor_state: after.dag_editor_state, ..before }
}

impl DashboardState {
    /// Reacts to a mouse action: on the dashboard tab with the palette
    /// closed, the left button selects, drags and releases graph nodes; the
    /// wheel scrolls whenever the palette is closed.
    pub fn handle_mouse(&mut self, m: MouseInput)
        requires
            old(self).scroll_offset < usize::MAX,
        ensures
            ({
                let editing = old(self).active_tab == Tab::Dashboard && !old(self).command_palette.visible;
                match m {
                    MouseInput::LeftDown { row, col } => if editing {
                        &&& only_editor(*old(self), *final(self))
                        &&& final(self).dag_editor_state.nodes == old(self).dag_editor_state.nodes
                        &&& (final(self).dag_editor_state.selected_node is Some <==> crate::ui::dag_editor::first_hit(
                            old(self).dag_editor_state.nodes@,
                            row,
                            col,
                        ) is Some)
                    } else {
                        *final(self) == *old(self)
                    },
                    MouseInput::LeftDrag { .. } => if editing {
                        &&& only_editor(*old(self), *final(self))
                        &&& final(self).dag_editor_state.dragging_node == old(self).dag_editor_state.dragging_node
                        &&& final(self).dag_editor_state.selected_node == old(self).dag_editor_state.selected_node
                    } else {
                        *final(self) == *old(self)
                    },
                    MouseInput::LeftUp => if editing {
                        &&& only_editor(*old(self), *final(self))
                        &&& final(self).dag_editor_state == (DagEditorState {
                            dragging_node: None,
                            ..old(self).dag_editor_state
                        })
                    } else {
                        *final(self) == *old(self)
                    },
                    MouseInput::ScrollDown => *final(self) == if !old(self).command_palette.visible {
                        DashboardState { scroll_offset: (old(self).scroll_offset + 1) as usize, ..*old(self) }
                    } else {
                        *old(self)
                    },
                    MouseInput::ScrollUp => *final(self) == if !old(self).command_palette.visible
                        && old(self).scroll_offset > 0 {
                        DashboardState { scroll_offset: (old(self).scroll_offset - 1) as usize, ..*old(self) }
                    } else {
                        *old(self)
                    },
                    MouseInput::Other => *final(self) == *old(self),
                }
            }),
    {
        let editing = self.active_tab == Tab::Dashboard && !self.command_palette.visible;
        match m {
            MouseInput::LeftDown { row, col } => {
                if editing {
                    let _ = self.dag_editor_state.handle_mouse_press(row, col);
                }
            },
            MouseInput::LeftDrag { row, col } => {
                if editing {
                    self.dag_editor_state.handle_mouse_drag(row, col);
                }
            },
            MouseInput::LeftUp => {
                if editing {
                    self.dag_editor_state.handle_mouse_release();
                }
            },
            MouseInput::ScrollDown => {
                if !self.command_palette.visible {
                    self.scroll_offset = self.scroll_offset + 1;
                }
            },
            MouseInput::ScrollUp => {
                if !self.command_palette.visible && self.scroll_offset > 0 {
                    self.scroll_offset = self.scroll_offset - 1;
                }
            },
            MouseInput::Other => {},
        }
    }

    /// How many daemons report `RUNNING`, and how many there are.
    pub fn daemon_counts(&self) -> (r: (usize, usize))
        requires
            self.daemons.wf(),
        ensures
            r.0 == count_status(self.daemons.val_seq().map_values(|s: String| s@), "RUNNING"@),
            r.1 == self.daemons.key_seq().len(),
    {
        proof {
            self.daemons.lemma_wf();
        }
        let n = self.daemons.len();
        let ghost st = self.daemons.val_seq().map_values(|s: String| s@);
        let mut running: usize = 0;
        let mut i: usize = 0;
        while i < n
            invariant
                n == self.daemons.key_seq().len() == self.daemons.val_seq().len(),
                self.daemons.wf(),
                st == self.daemons.val_seq().map_values(|s: String| s@),
                i <= n,
                running <= i,
                running == count_status(st.take(i as int), "RUNNING"@),
            decreases n - i,
        {
            assert(st.take(i + 1).drop_last() =~= st.take(i as int));
            let v = self.daemons.value_at(i);
            assert(st.take(i + 1).last() == v@);
            if same_text(v.as_str(), "RUNNING") {
                running = running + 1;
            }
            i = i + 1;
        }
        assert(st.take(i as int) =~= st);
        (running, n)
    }
}

/// With an empty input line, the palette closed and no memory search, Tab
/// moves to the next of the seven tabs and no event is sent; BackTab then
/// returns to the state Tab left.
pub proof fn lemma_tab_then_backtab(
    s: DashboardState,
    t: DashboardState,
    u: DashboardState,
    clock: Seq<char>,
    q1: bool,
    e1: Seq<SystemEventView>,
    q2: bool,
    e2: Seq<SystemEventView>,
)
    requires
        s.input_text@.len() == 0,
        !s.command_palette.visible,
        !s.memory_search_mode,
        effect_applied(s, t, key_effect(s, KeyInput::Tab), clock, q1, e1),
        effect_applied(t, u, key_effect(t, KeyInput::BackTab), clock, q2, e2),
    ensures
        t.active_tab == all_tabs()[((tab_position(s.active_tab) + 1) % 7) as int],
        u == s,
        !q1 && !q2 && e1.len() == 0 && e2.len() == 0,
{
    lemma_tab_cycle(s.active_tab);
    assert(key_effect(s, KeyInput::Tab) == KeyEffect::NextTab);
    assert(key_effect(t, KeyInput::BackTab) == KeyEffect::PrevTab);
}

/// The log never grows past 200 lines: adding a line to a log of at most
/// 200 lines, and dropping the oldest when there are more, keeps it so.
pub proof fn lemma_log_cap(logs: Seq<Seq<char>>, line: Seq<char>)
    requires
        logs.len() <= MAX_LOG_LINES,
    ensures
        ({
            let added = logs.push(line);
            let kept = if added.len() > MAX_LOG_LINES {
                added.skip(1)
            } else {
                added
            };
            kept.len() <= MAX_LOG_LINES && kept.last() == line
        }),
{
}

} // verus!
