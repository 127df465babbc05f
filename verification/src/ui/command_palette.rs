//! The command palette of the terminal interface: its commands, the
//! filtering of the list as the user types, the selection, and the parsing
//! of typed commands into actions.
use vstd::prelude::*;
use crate::text::{
    ascii_lower, chars_of, contains, has_infix, has_prefix, is_ascii_text, join, join_strings, lowercase, owned,
    split_words, same_text,
    starts_with, string_of, to_lowercase, trim, trim_chars, views, words,
};

verus! {

/// What a palette command does.
#[derive(Debug, Clone)]
pub enum CommandAction {
    /// Submit a new goal.
    SubmitGoal { task: String },
    /// Stop a goal.
    KillGoal { goal_id: String },
    /// Run a failed task again.
    RetryTask { task_id: String },
    /// Show a task's logs.
    ShowTaskLogs { task_id: String },
    /// Switch between the dark and light theme.
    ToggleTheme,
    /// Show the help.
    ShowHelp,
    /// Leave the program.
    Quit,
    /// Switch to a tab, by index.
    SwitchTab { tab: usize },
    /// Clear the logs.
    ClearLogs,
    /// Show the system status.
    ShowStatus,
    /// Restart a daemon.
    RestartDaemon { daemon: String },
}

/// An action as plain values.
pub enum CommandActionView {
    SubmitGoal { task: Seq<char> },
    KillGoal { goal_id: Seq<char> },
    RetryTask { task_id: Seq<char> },
    ShowTaskLogs { task_id: Seq<char> },
    ToggleTheme,
    ShowHelp,
    Quit,
    SwitchTab { tab: nat },
    ClearLogs,
    ShowStatus,
    RestartDaemon { daemon: Seq<char> },
}

impl View for CommandAction {
    type V = CommandActionView;

    open spec fn view(&self) -> CommandActionView {
        match self {
            CommandAction::SubmitGoal { task } => CommandActionView::SubmitGoal { task: task@ },
            CommandAction::KillGoal { goal_id } => CommandActionView::KillGoal { goal_id: goal_id@ },
            CommandAction::RetryTask { task_id } => CommandActionView::RetryTask { task_id: task_id@ },
            CommandAction::ShowTaskLogs { task_id } => CommandActionView::ShowTaskLogs { task_id: task_id@ },
            CommandAction::ToggleTheme => CommandActionView::ToggleTheme,
            CommandAction::ShowHelp => CommandActionView::ShowHelp,
            CommandAction::Quit => CommandActionView::Quit,
            CommandAction::SwitchTab { tab } => CommandActionView::SwitchTab { tab: *tab as nat },
            CommandAction::ClearLogs => CommandActionView::ClearLogs,
            CommandAction::ShowStatus => CommandActionView::ShowStatus,
            CommandAction::RestartDaemon { daemon } => CommandActionView::RestartDaemon { daemon: daemon@ },
        }
    }
}

/// An optional action as plain values.
pub open spec fn action_view(a: Option<CommandAction>) -> Option<CommandActionView> {
    match a {
        Some(x) => Some(x@),
        None => None,
    }
}

/// A palette command.
#[derive(Debug, Clone)]
pub struct Command {
    pub name: String,
    pub description: String,
    pub usage: String,
    pub action: CommandAction,
    pub aliases: Vec<String>,
}

/// A command as plain values.
pub struct CommandView {
    pub name: Seq<char>,
    pub description: Seq<char>,
    pub usage: Seq<char>,
    pub action: CommandActionView,
    pub aliases: Seq<Seq<char>>,
}

impl View for Command {
    type V = CommandView;

    open spec fn view(&self) -> CommandView {
        CommandView {
            name: self.name@,
            description: self.description@,
            usage: self.usage@,
            action: self.action@,
            aliases: views(self.aliases@),
        }
    }
}

/// The commands as plain values.
pub open spec fn command_views(cs: Seq<Command>) -> Seq<CommandView> {
    cs.map_values(|c: Command| c@)
}

/// The palette's commands.
pub open spec fn default_commands() -> Seq<CommandView> {
    seq![
        CommandView {
            name: "submit"@,
            description: "Отправить новую задачу (goal)"@,
            usage: ":submit \"Описание задачи\" [--priority N]"@,
            action: CommandActionView::SubmitGoal { task: Seq::empty() },
            aliases: seq!["s"@, "new"@, "goal"@],
        },
        CommandView {
            name: "kill"@,
            description: "Убить цель/задачу"@,
            usage: ":kill <goal_id|task_id>"@,
            action: CommandActionView::KillGoal { goal_id: Seq::empty() },
            aliases: seq!["k"@, "stop"@, "cancel"@],
        },
        CommandView {
            name: "retry"@,
            description: "Повторить неудачную задачу"@,
            usage: ":retry <task_id>"@,
            action: CommandActionView::RetryTask { task_id: Seq::empty() },
            aliases: seq!["r"@, "repeat"@],
        },
        CommandView {
            name: "logs"@,
            description: "Показать логи задачи"@,
            usage: ":logs <task_id>"@,
            action: CommandActionView::ShowTaskLogs { task_id: Seq::empty() },
            aliases: seq!["l"@, "log"@],
        },
        CommandView {
            name: "theme"@,
            description: "Переключить тему (dark/light)"@,
            usage: ":theme [dark|light]"@,
            action: CommandActionView::ToggleTheme,
            aliases: seq!["t"@],
        },
        CommandView {
            name: "help"@,
            description: "Показать справку по командам"@,
            usage: ":help [command]"@,
            action: CommandActionView::ShowHelp,
            aliases: seq!["h"@, "?"@],
        },
        CommandView {
            name: "quit"@,
            description: "Выйти из ANT OS"@,
            usage: ":quit"@,
            action: CommandActionView::Quit,
            aliases: seq!["q"@, "exit"@],
        },
        CommandView {
            name: "tab"@,
            description: "Переключить вкладку"@,
            usage: ":tab <1-7|dashboard|memory|graph|logs|agents|git|help>"@,
            action: CommandActionView::SwitchTab { tab: 0 },
            aliases: Seq::empty(),
        },
        CommandView {
            name: "clear-logs"@,
            description: "Очистить логи"@,
            usage: ":clear-logs"@,
            action: CommandActionView::ClearLogs,
            aliases: seq!["cl"@],
        },
        CommandView {
            name: "status"@,
            description: "Показать статус системы"@,
            usage: ":status"@,
            action: CommandActionView::ShowStatus,
            aliases: seq!["st"@],
        },
        CommandView {
            name: "restart"@,
            description: "Перезапустить демона"@,
            usage: ":restart <daemon_name>"@,
            action: CommandActionView::RestartDaemon { daemon: Seq::empty() },
            aliases: Seq::empty(),
        },    ]
}

fn command(name: &str, description: &str, usage: &str, action: CommandAction, aliases: Vec<String>) -> (c: Command)
    ensures
        c@ == (CommandView {
            name: name@,
            description: description@,
            usage: usage@,
            action: action@,
            aliases: views(aliases@),
        }),
{
    Command { name: owned(name), description: owned(description), usage: owned(usage), action, aliases }
}

/// The palette's commands.
pub fn default_command_list() -> (r: Vec<Command>)
    ensures
        command_views(r@) == default_commands(),
{
    proof {
        assert(views(Seq::<String>::empty()) =~= Seq::<Seq<char>>::empty());
    }
    let r = vec![
            command("submit", "Отправить новую задачу (goal)", ":submit \"Описание задачи\" [--priority N]", CommandAction::SubmitGoal { task: String::new() }, vec![owned("s"), owned("new"), owned("goal")]),
            command("kill", "Убить цель/задачу", ":kill <goal_id|task_id>", CommandAction::KillGoal { goal_id: String::new() }, vec![owned("k"), owned("stop"), owned("cancel")]),
            command("retry", "Повторить неудачную задачу", ":retry <task_id>", CommandAction::RetryTask { task_id: String::new() }, vec![owned("r"), owned("repeat")]),
            command("logs", "Показать логи задачи", ":logs <task_id>", CommandAction::ShowTaskLogs { task_id: String::new() }, vec![owned("l"), owned("log")]),
            command("theme", "Переключить тему (dark/light)", ":theme [dark|light]", CommandAction::ToggleTheme, vec![owned("t")]),
            command("help", "Показать справку по командам", ":help [command]", CommandAction::ShowHelp, vec![owned("h"), owned("?")]),
            command("quit", "Выйти из ANT OS", ":quit", CommandAction::Quit, vec![owned("q"), owned("exit")]),
            command("tab", "Переключить вкладку", ":tab <1-7|dashboard|memory|graph|logs|agents|git|help>", CommandAction::SwitchTab { tab: 0 }, vec![]),
            command("clear-logs", "Очистить логи", ":clear-logs", CommandAction::ClearLogs, vec![owned("cl")]),
            command("status", "Показать статус системы", ":status", CommandAction::ShowStatus, vec![owned("st")]),
            command("restart", "Перезапустить демона", ":restart <daemon_name>", CommandAction::RestartDaemon { daemon: String::new() }, vec![]),    ];
    proof {
        let ghost vs = command_views(r@);
        assert forall|i: int| 0 <= i < 11 implies #[trigger] vs[i] == default_commands()[i] by {
            assert(vs[i].aliases =~= default_commands()[i].aliases);
        }
        assert(vs =~= default_commands());
    }
    r
}

/// The tab that a `:tab` argument names, by number or name.
pub open spec fn tab_index(a: Seq<char>) -> Option<nat> {
    if a == "1"@ || a == "dashboard"@ {
        Some(0)
    } else if a == "2"@ || a == "memory"@ {
        Some(1)
    } else if a == "3"@ || a == "graph"@ {
        Some(2)
    } else if a == "4"@ || a == "logs"@ {
        Some(3)
    } else if a == "5"@ || a == "agents"@ {
        Some(4)
    } else if a == "6"@ || a == "git"@ {
        Some(5)
    } else if a == "7"@ || a == "help"@ {
        Some(6)
    } else {
        None
    }
}

/// The action of a command typed by name (or alias) with its arguments;
/// `None` for an unknown name or missing argument.
pub open spec fn direct_command(cmd: Seq<char>, args: Seq<Seq<char>>) -> Option<CommandActionView> {
    if cmd == "submit"@ || cmd == "s"@ || cmd == "new"@ || cmd == "goal"@ {
        if args.len() == 0 {
            None
        } else {
            Some(CommandActionView::SubmitGoal { task: join(args, " "@) })
        }
    } else if cmd == "kill"@ || cmd == "k"@ || cmd == "stop"@ || cmd == "cancel"@ {
        if args.len() == 0 {
            None
        } else {
            Some(CommandActionView::KillGoal { goal_id: args[0] })
        }
    } else if cmd == "retry"@ || cmd == "r"@ || cmd == "repeat"@ {
        if args.len() == 0 {
            None
        } else {
            Some(CommandActionView::RetryTask { task_id: args[0] })
        }
    } else if cmd == "logs"@ || cmd == "l"@ || cmd == "log"@ {
        if args.len() == 0 {
            None
        } else {
            Some(CommandActionView::ShowTaskLogs { task_id: args[0] })
        }
    } else if cmd == "theme"@ || cmd == "t"@ {
        Some(CommandActionView::ToggleTheme)
    } else if cmd == "help"@ || cmd == "h"@ || cmd == "?"@ {
        Some(CommandActionView::ShowHelp)
    } else if cmd == "quit"@ || cmd == "q"@ || cmd == "exit"@ {
        Some(CommandActionView::Quit)
    } else if cmd == "tab"@ {
        if args.len() == 0 {
            None
        } else {
            match tab_index(lowercase(args[0])) {
                Some(t) => Some(CommandActionView::SwitchTab { tab: t }),
                None => None,
            }
        }
    } else if cmd == "clear-logs"@ || cmd == "cl"@ {
        Some(CommandActionView::ClearLogs)
    } else if cmd == "status"@ || cmd == "st"@ {
        Some(CommandActionView::ShowStatus)
    } else if cmd == "restart"@ {
        if args.len() == 0 {
            None
        } else {
            Some(CommandActionView::RestartDaemon { daemon: args[0] })
        }
    } else {
        None
    }
}

/// The kind of an action, one number per variant.
pub open spec fn action_kind(a: CommandActionView) -> nat {
    match a {
        CommandActionView::SubmitGoal { .. } => 0,
        CommandActionView::KillGoal { .. } => 1,
        CommandActionView::RetryTask { .. } => 2,
        CommandActionView::ShowTaskLogs { .. } => 3,
        CommandActionView::ToggleTheme => 4,
        CommandActionView::ShowHelp => 5,
        CommandActionView::Quit => 6,
        CommandActionView::SwitchTab { .. } => 7,
        CommandActionView::ClearLogs => 8,
        CommandActionView::ShowStatus => 9,
        CommandActionView::RestartDaemon { .. } => 10,
    }
}

/// Every command the palette lists is accepted by its name and by each of
/// its aliases, given an argument, and yields an action of its own kind; a
/// `:tab` argument must name a tab (after lower-casing).
pub proof fn lemma_listed_names_accepted(i: int, n: Seq<char>, args: Seq<Seq<char>>)
    requires
        0 <= i < default_commands().len(),
        n == default_commands()[i].name || default_commands()[i].aliases.contains(n),
        args.len() > 0,
        default_commands()[i].name == "tab"@ ==> tab_index(lowercase(args[0])) is Some,
    ensures
        direct_command(n, args) matches Some(a) && action_kind(a) == action_kind(default_commands()[i].action),
{
    reveal_strlit(" ");
    reveal_strlit("?");
    reveal_strlit("cancel");
    reveal_strlit("cl");
    reveal_strlit("clear-logs");
    reveal_strlit("exit");
    reveal_strlit("goal");
    reveal_strlit("h");
    reveal_strlit("help");
    reveal_strlit("k");
    reveal_strlit("kill");
    reveal_strlit("l");
    reveal_strlit("log");
    reveal_strlit("logs");
    reveal_strlit("new");
    reveal_strlit("q");
    reveal_strlit("quit");
    reveal_strlit("r");
    reveal_strlit("repeat");
    reveal_strlit("restart");
    reveal_strlit("retry");
    reveal_strlit("s");
    reveal_strlit("st");
    reveal_strlit("status");
    reveal_strlit("stop");
    reveal_strlit("submit");
    reveal_strlit("t");
    reveal_strlit("tab");
    reveal_strlit("theme");
    if i == 0 {
        assert(default_commands()[i].name == "submit"@);
        assert(action_kind(default_commands()[i].action) == 0);
        let al = default_commands()[i].aliases;
        assert(al.len() == 3);
        if n != "submit"@ {
            assert(al.contains(n));
            assert(al[0] == "s"@);
            assert(al[1] == "new"@);
            assert(al[2] == "goal"@);
            let j = choose|j: int| 0 <= j < al.len() && al[j] == n;
            assert(n == "submit"@ || n == "s"@ || n == "new"@ || n == "goal"@);
        }
        if n == "submit"@ {
            assert(direct_command("submit"@, args) matches Some(a) && action_kind(a) == 0);
        }
        if n == "s"@ {
            assert(direct_command("s"@, args) matches Some(a) && action_kind(a) == 0);
        }
        if n == "new"@ {
            assert(direct_command("new"@, args) matches Some(a) && action_kind(a) == 0);
        }
        if n == "goal"@ {
            assert(direct_command("goal"@, args) matches Some(a) && action_kind(a) == 0);
        }
    }
    if i == 1 {
        assert(default_commands()[i].name == "kill"@);
        assert(action_kind(default_commands()[i].action) == 1);
        let al = default_commands()[i].aliases;
        assert(al.len() == 3);
        if n != "kill"@ {
            assert(al.contains(n));
            assert(al[0] == "k"@);
            assert(al[1] == "stop"@);
            assert(al[2] == "cancel"@);
            let j = choose|j: int| 0 <= j < al.len() && al[j] == n;
            assert(n == "kill"@ || n == "k"@ || n == "stop"@ || n == "cancel"@);
        }
        if n == "kill"@ {
            assert("kill"@.len() != "submit"@.len());
            assert("kill"@.len() != "s"@.len());
            assert("kill"@.len() != "new"@.len());
            assert("kill"@[0] != "goal"@[0]);
            assert(direct_command("kill"@, args) matches Some(a) && action_kind(a) == 1);
        }
        if n == "k"@ {
            assert("k"@.len() != "submit"@.len());
            assert("k"@.len() != "new"@.len());
            assert("k"@.len() != "goal"@.len());
            assert("k"@[0] != "s"@[0]);
            assert(direct_command("k"@, args) matches Some(a) && action_kind(a) == 1);
        }
        if n == "stop"@ {
            assert("stop"@.len() != "submit"@.len());
            assert("stop"@.len() != "s"@.len());
            assert("stop"@.len() != "new"@.len());
            assert("stop"@[0] != "goal"@[0]);
            assert(direct_command("stop"@, args) matches Some(a) && action_kind(a) == 1);
        }
        if n == "cancel"@ {
            assert("cancel"@.len() != "s"@.len());
            assert("cancel"@.len() != "new"@.len());
            assert("cancel"@.len() != "goal"@.len());
            assert("cancel"@[0] != "submit"@[0]);
            assert(direct_command("cancel"@, args) matches Some(a) && action_kind(a) == 1);
        }
    }
    if i == 2 {
        assert(default_commands()[i].name == "retry"@);
        assert(action_kind(default_commands()[i].action) == 2);
        let al = default_commands()[i].aliases;
        assert(al.len() == 2);
        if n != "retry"@ {
            assert(al.contains(n));
            assert(al[0] == "r"@);
            assert(al[1] == "repeat"@);
            let j = choose|j: int| 0 <= j < al.len() && al[j] == n;
            assert(n == "retry"@ || n == "r"@ || n == "repeat"@);
        }
        if n == "retry"@ {
            assert("retry"@.len() != "submit"@.len());
            assert("retry"@.len() != "s"@.len());
            assert("retry"@.len() != "new"@.len());
            assert("retry"@.len() != "goal"@.len());
            assert("retry"@.len() != "kill"@.len());
            assert("retry"@.len() != "k"@.len());
            assert("retry"@.len() != "stop"@.len());
            assert("retry"@.len() != "cancel"@.len());
            assert(direct_command("retry"@, args) matches Some(a) && action_kind(a) == 2);
        }
        if n == "r"@ {
            assert("r"@.len() != "submit"@.len());
            assert("r"@.len() != "new"@.len());
            assert("r"@.len() != "goal"@.len());
            assert("r"@.len() != "kill"@.len());
            assert("r"@.len() != "stop"@.len());
            assert("r"@.len() != "cancel"@.len());
            assert("r"@[0] != "s"@[0]);
            assert("r"@[0] != "k"@[0]);
            assert(direct_command("r"@, args) matches Some(a) && action_kind(a) == 2);
        }
        if n == "repeat"@ {
            assert("repeat"@.len() != "s"@.len());
            assert("repeat"@.len() != "new"@.len());
            assert("repeat"@.len() != "goal"@.len());
            assert("repeat"@.len() != "kill"@.len());
            assert("repeat"@.len() != "k"@.len());
            assert("repeat"@.len() != "stop"@.len());
            assert("repeat"@[0] != "submit"@[0]);
            assert("repeat"@[0] != "cancel"@[0]);
            assert(direct_command("repeat"@, args) matches Some(a) && action_kind(a) == 2);
        }
    }
    if i == 3 {
        assert(default_commands()[i].name == "logs"@);
        assert(action_kind(default_commands()[i].action) == 3);
        let al = default_commands()[i].aliases;
        assert(al.len() == 2);
        if n != "logs"@ {
            assert(al.contains(n));
            assert(al[0] == "l"@);
            assert(al[1] == "log"@);
            let j = choose|j: int| 0 <= j < al.len() && al[j] == n;
            assert(n == "logs"@ || n == "l"@ || n == "log"@);
        }
        if n == "logs"@ {
            assert("logs"@.len() != "submit"@.len());
            assert("logs"@.len() != "s"@.len());
            assert("logs"@.len() != "new"@.len());
            assert("logs"@.len() != "k"@.len());
            assert("logs"@.len() != "cancel"@.len());
            assert("logs"@.len() != "retry"@.len());
            assert("logs"@.len() != "r"@.len());
            assert("logs"@.len() != "repeat"@.len());
            assert("logs"@[0] != "goal"@[0]);
            assert("logs"@[0] != "kill"@[0]);
            assert("logs"@[0] != "stop"@[0]);
            assert(direct_command("logs"@, args) matches Some(a) && action_kind(a) == 3);
        }
        if n == "l"@ {
            assert("l"@.len() != "submit"@.len());
            assert("l"@.len() != "new"@.len());
            assert("l"@.len() != "goal"@.len());
            assert("l"@.len() != "kill"@.len());
            assert("l"@.len() != "stop"@.len());
            assert("l"@.len() != "cancel"@.len());
            assert("l"@.len() != "retry"@.len());
            assert("l"@.len() != "repeat"@.len());
            assert("l"@[0] != "s"@[0]);
            assert("l"@[0] != "k"@[0]);
            assert("l"@[0] != "r"@[0]);
            assert(direct_command("l"@, args) matches Some(a) && action_kind(a) == 3);
        }
        if n == "log"@ {
            assert("log"@.len() != "submit"@.len());
            assert("log"@.len() != "s"@.len());
            assert("log"@.len() != "goal"@.len());
            assert("log"@.len() != "kill"@.len());
            assert("log"@.len() != "k"@.len());
            assert("log"@.len() != "stop"@.len());
            assert("log"@.len() != "cancel"@.len());
            assert("log"@.len() != "retry"@.len());
            assert("log"@.len() != "r"@.len());
            assert("log"@.len() != "repeat"@.len());
            assert("log"@[0] != "new"@[0]);
            assert(direct_command("log"@, args) matches Some(a) && action_kind(a) == 3);
        }
    }
    if i == 4 {
        assert(default_commands()[i].name == "theme"@);
        assert(action_kind(default_commands()[i].action) == 4);
        let al = default_commands()[i].aliases;
        assert(al.len() == 1);
        if n != "theme"@ {
            assert(al.contains(n));
            assert(al[0] == "t"@);
            let j = choose|j: int| 0 <= j < al.len() && al[j] == n;
            assert(n == "theme"@ || n == "t"@);
        }
        if n == "theme"@ {
            assert("theme"@.len() != "submit"@.len());
            assert("theme"@.len() != "s"@.len());
            assert("theme"@.len() != "new"@.len());
            assert("theme"@.len() != "goal"@.len());
            assert("theme"@.len() != "kill"@.len());
            assert("theme"@.len() != "k"@.len());
            assert("theme"@.len() != "stop"@.len());
            assert("theme"@.len() != "cancel"@.len());
            assert("theme"@.len() != "r"@.len());
            assert("theme"@.len() != "repeat"@.len());
            assert("theme"@.len() != "logs"@.len());
            assert("theme"@.len() != "l"@.len());
            assert("theme"@.len() != "log"@.len());
            assert("theme"@[0] != "retry"@[0]);
            assert(direct_command("theme"@, args) matches Some(a) && action_kind(a) == 4);
        }
        if n == "t"@ {
            assert("t"@.len() != "submit"@.len());
            assert("t"@.len() != "new"@.len());
            assert("t"@.len() != "goal"@.len());
            assert("t"@.len() != "kill"@.len());
            assert("t"@.len() != "stop"@.len());
            assert("t"@.len() != "cancel"@.len());
            assert("t"@.len() != "retry"@.len());
            assert("t"@.len() != "repeat"@.len());
            assert("t"@.len() != "logs"@.len());
            assert("t"@.len() != "log"@.len());
            assert("t"@[0] != "s"@[0]);
            assert("t"@[0] != "k"@[0]);
            assert("t"@[0] != "r"@[0]);
            assert("t"@[0] != "l"@[0]);
            assert(direct_command("t"@, args) matches Some(a) && action_kind(a) == 4);
        }
    }
    if i == 5 {
        assert(default_commands()[i].name == "help"@);
        assert(action_kind(default_commands()[i].action) == 5);
        let al = default_commands()[i].aliases;
        assert(al.len() == 2);
        if n != "help"@ {
            assert(al.contains(n));
            assert(al[0] == "h"@);
            assert(al[1] == "?"@);
            let j = choose|j: int| 0 <= j < al.len() && al[j] == n;
            assert(n == "help"@ || n == "h"@ || n == "?"@);
        }
        if n == "help"@ {
            assert("help"@.len() != "submit"@.len());
            assert("help"@.len() != "s"@.len());
            assert("help"@.len() != "new"@.len());
            assert("help"@.len() != "k"@.len());
            assert("help"@.len() != "cancel"@.len());
            assert("help"@.len() != "retry"@.len());
            assert("help"@.len() != "r"@.len());
            assert("help"@.len() != "repeat"@.len());
            assert("help"@.len() != "l"@.len());
            assert("help"@.len() != "log"@.len());
            assert("help"@.len() != "theme"@.len());
            assert("help"@.len() != "t"@.len());
            assert("help"@[0] != "goal"@[0]);
            assert("help"@[0] != "kill"@[0]);
            assert("help"@[0] != "stop"@[0]);
            assert("help"@[0] != "logs"@[0]);
            assert(direct_command("help"@, args) matches Some(a) && action_kind(a) == 5);
        }
        if n == "h"@ {
            assert("h"@.len() != "submit"@.len());
            assert("h"@.len() != "new"@.len());
            assert("h"@.len() != "goal"@.len());
            assert("h"@.len() != "kill"@.len());
            assert("h"@.len() != "stop"@.len());
            assert("h"@.len() != "cancel"@.len());
            assert("h"@.len() != "retry"@.len());
            assert("h"@.len() != "repeat"@.len());
            assert("h"@.len() != "logs"@.len());
            assert("h"@.len() != "log"@.len());
            assert("h"@.len() != "theme"@.len());
            assert("h"@[0] != "s"@[0]);
            assert("h"@[0] != "k"@[0]);
            assert("h"@[0] != "r"@[0]);
            assert("h"@[0] != "l"@[0]);
            assert("h"@[0] != "t"@[0]);
            assert(direct_command("h"@, args) matches Some(a) && action_kind(a) == 5);
        }
        if n == "?"@ {
            assert("?"@.len() != "submit"@.len());
            assert("?"@.len() != "new"@.len());
            assert("?"@.len() != "goal"@.len());
            assert("?"@.len() != "kill"@.len());
            assert("?"@.len() != "stop"@.len());
            assert("?"@.len() != "cancel"@.len());
            assert("?"@.len() != "retry"@.len());
            assert("?"@.len() != "repeat"@.len());
            assert("?"@.len() != "logs"@.len());
            assert("?"@.len() != "log"@.len());
            assert("?"@.len() != "theme"@.len());
            assert("?"@[0] != "s"@[0]);
            assert("?"@[0] != "k"@[0]);
            assert("?"@[0] != "r"@[0]);
            assert("?"@[0] != "l"@[0]);
            assert("?"@[0] != "t"@[0]);
            assert(direct_command("?"@, args) matches Some(a) && action_kind(a) == 5);
        }
    }
    if i == 6 {
        assert(default_commands()[i].name == "quit"@);
        assert(action_kind(default_commands()[i].action) == 6);
        let al = default_commands()[i].aliases;
        assert(al.len() == 2);
        if n != "quit"@ {
            assert(al.contains(n));
            assert(al[0] == "q"@);
            assert(al[1] == "exit"@);
            let j = choose|j: int| 0 <= j < al.len() && al[j] == n;
            assert(n == "quit"@ || n == "q"@ || n == "exit"@);
        }
        if n == "quit"@ {
            assert("quit"@.len() != "submit"@.len());
            assert("quit"@.len() != "s"@.len());
            assert("quit"@.len() != "new"@.len());
            assert("quit"@.len() != "k"@.len());
            assert("quit"@.len() != "cancel"@.len());
            assert("quit"@.len() != "retry"@.len());
            assert("quit"@.len() != "r"@.len());
            assert("quit"@.len() != "repeat"@.len());
            assert("quit"@.len() != "l"@.len());
            assert("quit"@.len() != "log"@.len());
            assert("quit"@.len() != "theme"@.len());
            assert("quit"@.len() != "t"@.len());
            assert("quit"@.len() != "h"@.len());
            assert("quit"@.len() != "?"@.len());
            assert("quit"@[0] != "goal"@[0]);
            assert("quit"@[0] != "kill"@[0]);
            assert("quit"@[0] != "stop"@[0]);
            assert("quit"@[0] != "logs"@[0]);
            assert("quit"@[0] != "help"@[0]);
            assert(direct_command("quit"@, args) matches Some(a) && action_kind(a) == 6);
        }
        if n == "q"@ {
            assert("q"@.len() != "submit"@.len());
            assert("q"@.len() != "new"@.len());
            assert("q"@.len() != "goal"@.len());
            assert("q"@.len() != "kill"@.len());
            assert("q"@.len() != "stop"@.len());
            assert("q"@.len() != "cancel"@.len());
            assert("q"@.len() != "retry"@.len());
            assert("q"@.len() != "repeat"@.len());
            assert("q"@.len() != "logs"@.len());
            assert("q"@.len() != "log"@.len());
            assert("q"@.len() != "theme"@.len());
            assert("q"@.len() != "help"@.len());
            assert("q"@[0] != "s"@[0]);
            assert("q"@[0] != "k"@[0]);
            assert("q"@[0] != "r"@[0]);
            assert("q"@[0] != "l"@[0]);
            assert("q"@[0] != "t"@[0]);
            assert("q"@[0] != "h"@[0]);
            assert("q"@[0] != "?"@[0]);
            assert(direct_command("q"@, args) matches Some(a) && action_kind(a) == 6);
        }
        if n == "exit"@ {
            assert("exit"@.len() != "submit"@.len());
            assert("exit"@.len() != "s"@.len());
            assert("exit"@.len() != "new"@.len());
            assert("exit"@.len() != "k"@.len());
            assert("exit"@.len() != "cancel"@.len());
            assert("exit"@.len() != "retry"@.len());
            assert("exit"@.len() != "r"@.len());
            assert("exit"@.len() != "repeat"@.len());
            assert("exit"@.len() != "l"@.len());
            assert("exit"@.len() != "log"@.len());
            assert("exit"@.len() != "theme"@.len());
            assert("exit"@.len() != "t"@.len());
            assert("exit"@.len() != "h"@.len());
            assert("exit"@.len() != "?"@.len());
            assert("exit"@[0] != "goal"@[0]);
            assert("exit"@[0] != "kill"@[0]);
            assert("exit"@[0] != "stop"@[0]);
            assert("exit"@[0] != "logs"@[0]);
            assert("exit"@[0] != "help"@[0]);
            assert(direct_command("exit"@, args) matches Some(a) && action_kind(a) == 6);
        }
    }
    if i == 7 {
        assert(default_commands()[i].name == "tab"@);
        assert(action_kind(default_commands()[i].action) == 7);
        let al = default_commands()[i].aliases;
        assert(al.len() == 0);
        if n != "tab"@ {
            assert(al.contains(n));

            let j = choose|j: int| 0 <= j < al.len() && al[j] == n;
            assert(n == "tab"@);
        }
        if n == "tab"@ {
            assert("tab"@.len() != "submit"@.len());
            assert("tab"@.len() != "s"@.len());
            assert("tab"@.len() != "goal"@.len());
            assert("tab"@.len() != "kill"@.len());
            assert("tab"@.len() != "k"@.len());
            assert("tab"@.len() != "stop"@.len());
            assert("tab"@.len() != "cancel"@.len());
            assert("tab"@.len() != "retry"@.len());
            assert("tab"@.len() != "r"@.len());
            assert("tab"@.len() != "repeat"@.len());
            assert("tab"@.len() != "logs"@.len());
            assert("tab"@.len() != "l"@.len());
            assert("tab"@.len() != "theme"@.len());
            assert("tab"@.len() != "t"@.len());
            assert("tab"@.len() != "help"@.len());
            assert("tab"@.len() != "h"@.len());
            assert("tab"@.len() != "?"@.len());
            assert("tab"@.len() != "quit"@.len());
            assert("tab"@.len() != "q"@.len());
            assert("tab"@.len() != "exit"@.len());
            assert("tab"@[0] != "new"@[0]);
            assert("tab"@[0] != "log"@[0]);
            assert(direct_command("tab"@, args) matches Some(a) && action_kind(a) == 7);
        }
    }
    if i == 8 {
        assert(default_commands()[i].name == "clear-logs"@);
        assert(action_kind(default_commands()[i].action) == 8);
        let al = default_commands()[i].aliases;
        assert(al.len() == 1);
        if n != "clear-logs"@ {
            assert(al.contains(n));
            assert(al[0] == "cl"@);
            let j = choose|j: int| 0 <= j < al.len() && al[j] == n;
            assert(n == "clear-logs"@ || n == "cl"@);
        }
        if n == "clear-logs"@ {
            assert("clear-logs"@.len() != "submit"@.len());
            assert("clear-logs"@.len() != "s"@.len());
            assert("clear-logs"@.len() != "new"@.len());
            assert("clear-logs"@.len() != "goal"@.len());
            assert("clear-logs"@.len() != "kill"@.len());
            assert("clear-logs"@.len() != "k"@.len());
            assert("clear-logs"@.len() != "stop"@.len());
            assert("clear-logs"@.len() != "cancel"@.len());
            assert("clear-logs"@.len() != "retry"@.len());
            assert("clear-logs"@.len() != "r"@.len());
            assert("clear-logs"@.len() != "repeat"@.len());
            assert("clear-logs"@.len() != "logs"@.len());
            assert("clear-logs"@.len() != "l"@.len());
            assert("clear-logs"@.len() != "log"@.len());
            assert("clear-logs"@.len() != "theme"@.len());
            assert("clear-logs"@.len() != "t"@.len());
            assert("clear-logs"@.len() != "help"@.len());
            assert("clear-logs"@.len() != "h"@.len());
            assert("clear-logs"@.len() != "?"@.len());
            assert("clear-logs"@.len() != "quit"@.len());
            assert("clear-logs"@.len() != "q"@.len());
            assert("clear-logs"@.len() != "exit"@.len());
            assert("clear-logs"@.len() != "tab"@.len());
            assert(direct_command("clear-logs"@, args) matches Some(a) && action_kind(a) == 8);
        }
        if n == "cl"@ {
            assert("cl"@.len() != "submit"@.len());
            assert("cl"@.len() != "s"@.len());
            assert("cl"@.len() != "new"@.len());
            assert("cl"@.len() != "goal"@.len());
            assert("cl"@.len() != "kill"@.len());
            assert("cl"@.len() != "k"@.len());
            assert("cl"@.len() != "stop"@.len());
            assert("cl"@.len() != "cancel"@.len());
            assert("cl"@.len() != "retry"@.len());
            assert("cl"@.len() != "r"@.len());
            assert("cl"@.len() != "repeat"@.len());
            assert("cl"@.len() != "logs"@.len());
            assert("cl"@.len() != "l"@.len());
            assert("cl"@.len() != "log"@.len());
            assert("cl"@.len() != "theme"@.len());
            assert("cl"@.len() != "t"@.len());
            assert("cl"@.len() != "help"@.len());
            assert("cl"@.len() != "h"@.len());
            assert("cl"@.len() != "?"@.len());
            assert("cl"@.len() != "quit"@.len());
            assert("cl"@.len() != "q"@.len());
            assert("cl"@.len() != "exit"@.len());
            assert("cl"@.len() != "tab"@.len());
            assert(direct_command("cl"@, args) matches Some(a) && action_kind(a) == 8);
        }
    }
    if i == 9 {
        assert(default_commands()[i].name == "status"@);
        assert(action_kind(default_commands()[i].action) == 9);
        let al = default_commands()[i].aliases;
        assert(al.len() == 1);
        if n != "status"@ {
            assert(al.contains(n));
            assert(al[0] == "st"@);
            let j = choose|j: int| 0 <= j < al.len() && al[j] == n;
            assert(n == "status"@ || n == "st"@);
        }
        if n == "status"@ {
            assert("status"@.len() != "s"@.len());
            assert("status"@.len() != "new"@.len());
            assert("status"@.len() != "goal"@.len());
            assert("status"@.len() != "kill"@.len());
            assert("status"@.len() != "k"@.len());
            assert("status"@.len() != "stop"@.len());
            assert("status"@.len() != "retry"@.len());
            assert("status"@.len() != "r"@.len());
            assert("status"@.len() != "logs"@.len());
            assert("status"@.len() != "l"@.len());
            assert("status"@.len() != "log"@.len());
            assert("status"@.len() != "theme"@.len());
            assert("status"@.len() != "t"@.len());
            assert("status"@.len() != "help"@.len());
            assert("status"@.len() != "h"@.len());
            assert("status"@.len() != "?"@.len());
            assert("status"@.len() != "quit"@.len());
            assert("status"@.len() != "q"@.len());
            assert("status"@.len() != "exit"@.len());
            assert("status"@.len() != "tab"@.len());
            assert("status"@.len() != "clear-logs"@.len());
            assert("status"@.len() != "cl"@.len());
            assert("status"@[1] != "submit"@[1]);
            assert("status"@[0] != "cancel"@[0]);
            assert("status"@[0] != "repeat"@[0]);
            assert(direct_command("status"@, args) matches Some(a) && action_kind(a) == 9);
        }
        if n == "st"@ {
            assert("st"@.len() != "submit"@.len());
            assert("st"@.len() != "s"@.len());
            assert("st"@.len() != "new"@.len());
            assert("st"@.len() != "goal"@.len());
            assert("st"@.len() != "kill"@.len());
            assert("st"@.len() != "k"@.len());
            assert("st"@.len() != "stop"@.len());
            assert("st"@.len() != "cancel"@.len());
            assert("st"@.len() != "retry"@.len());
            assert("st"@.len() != "r"@.len());
            assert("st"@.len() != "repeat"@.len());
            assert("st"@.len() != "logs"@.len());
            assert("st"@.len() != "l"@.len());
            assert("st"@.len() != "log"@.len());
            assert("st"@.len() != "theme"@.len());
            assert("st"@.len() != "t"@.len());
            assert("st"@.len() != "help"@.len());
            assert("st"@.len() != "h"@.len());
            assert("st"@.len() != "?"@.len());
            assert("st"@.len() != "quit"@.len());
            assert("st"@.len() != "q"@.len());
            assert("st"@.len() != "exit"@.len());
            assert("st"@.len() != "tab"@.len());
            assert("st"@.len() != "clear-logs"@.len());
            assert("st"@[0] != "cl"@[0]);
            assert(direct_command("st"@, args) matches Some(a) && action_kind(a) == 9);
        }
    }
    if i == 10 {
        assert(default_commands()[i].name == "restart"@);
        assert(action_kind(default_commands()[i].action) == 10);
        let al = default_commands()[i].aliases;
        assert(al.len() == 0);
        if n != "restart"@ {
            assert(al.contains(n));

            let j = choose|j: int| 0 <= j < al.len() && al[j] == n;
            assert(n == "restart"@);
        }
        if n == "restart"@ {
            assert("restart"@.len() != "submit"@.len());
            assert("restart"@.len() != "s"@.len());
            assert("restart"@.len() != "new"@.len());
            assert("restart"@.len() != "goal"@.len());
            assert("restart"@.len() != "kill"@.len());
            assert("restart"@.len() != "k"@.len());
            assert("restart"@.len() != "stop"@.len());
            assert("restart"@.len() != "cancel"@.len());
            assert("restart"@.len() != "retry"@.len());
            assert("restart"@.len() != "r"@.len());
            assert("restart"@.len() != "repeat"@.len());
            assert("restart"@.len() != "logs"@.len());
            assert("restart"@.len() != "l"@.len());
            assert("restart"@.len() != "log"@.len());
            assert("restart"@.len() != "theme"@.len());
            assert("restart"@.len() != "t"@.len());
            assert("restart"@.len() != "help"@.len());
            assert("restart"@.len() != "h"@.len());
            assert("restart"@.len() != "?"@.len());
            assert("restart"@.len() != "quit"@.len());
            assert("restart"@.len() != "q"@.len());
            assert("restart"@.len() != "exit"@.len());
            assert("restart"@.len() != "tab"@.len());
            assert("restart"@.len() != "clear-logs"@.len());
            assert("restart"@.len() != "cl"@.len());
            assert("restart"@.len() != "status"@.len());
            assert("restart"@.len() != "st"@.len());
            assert(direct_command("restart"@, args) matches Some(a) && action_kind(a) == 10);
        }
    }
}

/// `:tab 1` (or any ASCII digit from 1 to 7) names a tab: lower-casing leaves
/// digits unchanged.
pub proof fn lemma_tab_digits(d: Seq<char>)
    requires
        d.len() == 1,
        '1' <= d[0] && d[0] <= '7',
    ensures
        is_ascii_text(d),
        tab_index(ascii_lower(d)) is Some,
{
    reveal_strlit("1");
    reveal_strlit("2");
    reveal_strlit("3");
    reveal_strlit("4");
    reveal_strlit("5");
    reveal_strlit("6");
    reveal_strlit("7");
    assert(ascii_lower(d) =~= d);
    assert(d =~= seq![d[0]]);
    let c = d[0];
    if c == '1' { assert(d =~= "1"@); }
    else if c == '2' { assert(d =~= "2"@); }
    else if c == '3' { assert(d =~= "3"@); }
    else if c == '4' { assert(d =~= "4"@); }
    else if c == '5' { assert(d =~= "5"@); }
    else if c == '6' { assert(d =~= "6"@); }
    else { assert(d =~= "7"@); }
}

/// `tab` is none of the other command names or aliases.
proof fn lemma_tab_is_its_own_name()
    ensures
        "tab"@ != "submit"@,
        "tab"@ != "s"@,
        "tab"@ != "new"@,
        "tab"@ != "goal"@,
        "tab"@ != "kill"@,
        "tab"@ != "k"@,
        "tab"@ != "stop"@,
        "tab"@ != "cancel"@,
        "tab"@ != "retry"@,
        "tab"@ != "r"@,
        "tab"@ != "repeat"@,
        "tab"@ != "logs"@,
        "tab"@ != "l"@,
        "tab"@ != "log"@,
        "tab"@ != "theme"@,
        "tab"@ != "t"@,
        "tab"@ != "help"@,
        "tab"@ != "h"@,
        "tab"@ != "?"@,
        "tab"@ != "quit"@,
        "tab"@ != "q"@,
        "tab"@ != "exit"@,
        "tab"@ != "clear-logs"@,
        "tab"@ != "cl"@,
        "tab"@ != "status"@,
        "tab"@ != "st"@,
        "tab"@ != "restart"@,
{
    reveal_strlit("submit");
    reveal_strlit("s");
    reveal_strlit("new");
    reveal_strlit("goal");
    reveal_strlit("kill");
    reveal_strlit("k");
    reveal_strlit("stop");
    reveal_strlit("cancel");
    reveal_strlit("retry");
    reveal_strlit("r");
    reveal_strlit("repeat");
    reveal_strlit("logs");
    reveal_strlit("l");
    reveal_strlit("log");
    reveal_strlit("theme");
    reveal_strlit("t");
    reveal_strlit("help");
    reveal_strlit("h");
    reveal_strlit("?");
    reveal_strlit("quit");
    reveal_strlit("q");
    reveal_strlit("exit");
    reveal_strlit("clear-logs");
    reveal_strlit("cl");
    reveal_strlit("status");
    reveal_strlit("st");
    reveal_strlit("restart");
    reveal_strlit("tab");
    assert("tab"@.len() != "submit"@.len());
    assert("tab"@.len() != "s"@.len());
    assert("tab"@[0] != "new"@[0]);
    assert("tab"@.len() != "goal"@.len());
    assert("tab"@.len() != "kill"@.len());
    assert("tab"@.len() != "k"@.len());
    assert("tab"@.len() != "stop"@.len());
    assert("tab"@.len() != "cancel"@.len());
    assert("tab"@.len() != "retry"@.len());
    assert("tab"@.len() != "r"@.len());
    assert("tab"@.len() != "repeat"@.len());
    assert("tab"@.len() != "logs"@.len());
    assert("tab"@.len() != "l"@.len());
    assert("tab"@[0] != "log"@[0]);
    assert("tab"@.len() != "theme"@.len());
    assert("tab"@.len() != "t"@.len());
    assert("tab"@.len() != "help"@.len());
    assert("tab"@.len() != "h"@.len());
    assert("tab"@.len() != "?"@.len());
    assert("tab"@.len() != "quit"@.len());
    assert("tab"@.len() != "q"@.len());
    assert("tab"@.len() != "exit"@.len());
    assert("tab"@.len() != "clear-logs"@.len());
    assert("tab"@.len() != "cl"@.len());
    assert("tab"@.len() != "status"@.len());
    assert("tab"@.len() != "st"@.len());
    assert("tab"@.len() != "restart"@.len());
}

/// The action that typed text asks for: `:name args` calls a command
/// directly (the name lower-cased), any other non-blank text submits itself,
/// trimmed, as a goal.
pub open spec fn input_action(input: Seq<char>) -> Option<CommandActionView> {
    let t = trim(input);
    if t.len() == 0 {
        None
    } else if t[0] == ':' {
        let parts = words(t.skip(1));
        if parts.len() == 0 {
            None
        } else {
            direct_command(lowercase(parts[0]), parts.skip(1))
        }
    } else {
        Some(CommandActionView::SubmitGoal { task: t })
    }
}

fn is_one_of2(s: &str, a: &str, b: &str) -> (r: bool)
    ensures
        r == (s@ == a@ || s@ == b@),
{
    same_text(s, a) || same_text(s, b)
}

fn is_one_of3(s: &str, a: &str, b: &str, c: &str) -> (r: bool)
    ensures
        r == (s@ == a@ || s@ == b@ || s@ == c@),
{
    same_text(s, a) || same_text(s, b) || same_text(s, c)
}

fn is_one_of4(s: &str, a: &str, b: &str, c: &str, d: &str) -> (r: bool)
    ensures
        r == (s@ == a@ || s@ == b@ || s@ == c@ || s@ == d@),
{
    same_text(s, a) || same_text(s, b) || same_text(s, c) || same_text(s, d)
}

/// The tab that a `:tab` argument names.
pub fn parse_tab(a: &str) -> (r: Option<usize>)
    ensures
        match r {
            Some(t) => tab_index(a@) == Some(t as nat),
            None => tab_index(a@) is None,
        },
{
    if is_one_of2(a, "1", "dashboard") {
        Some(0)
    } else if is_one_of2(a, "2", "memory") {
        Some(1)
    } else if is_one_of2(a, "3", "graph") {
        Some(2)
    } else if is_one_of2(a, "4", "logs") {
        Some(3)
    } else if is_one_of2(a, "5", "agents") {
        Some(4)
    } else if is_one_of2(a, "6", "git") {
        Some(5)
    } else if is_one_of2(a, "7", "help") {
        Some(6)
    } else {
        None
    }
}

/// The action of a command typed by name with its arguments.
pub fn parse_direct_command(cmd: &str, args: &Vec<String>) -> (r: Option<CommandAction>)
    ensures
        action_view(r) == direct_command(cmd@, views(args@)),
        cmd@ == "tab"@ && args@.len() > 0 && is_ascii_text(args@[0]@) ==> action_view(r) == match tab_index(
            ascii_lower(args@[0]@),
        ) {
            Some(t) => Some(CommandActionView::SwitchTab { tab: t }),
            None => None,
        },
{
    let ghost a = views(args@);
    if args.len() > 0 {
        assert(a[0] == args@[0]@);
    }
    proof {
        lemma_tab_is_its_own_name();
    }
    if is_one_of4(cmd, "submit", "s", "new", "goal") {
        if args.len() == 0 {
            return None;
        }
        Some(CommandAction::SubmitGoal { task: join_strings(args, " ") })
    } else if is_one_of4(cmd, "kill", "k", "stop", "cancel") {
        if args.len() == 0 {
            return None;
        }
        Some(CommandAction::KillGoal { goal_id: args[0].clone() })
    } else if is_one_of3(cmd, "retry", "r", "repeat") {
        if args.len() == 0 {
            return None;
        }
        Some(CommandAction::RetryTask { task_id: args[0].clone() })
    } else if is_one_of3(cmd, "logs", "l", "log") {
        if args.len() == 0 {
            return None;
        }
        Some(CommandAction::ShowTaskLogs { task_id: args[0].clone() })
    } else if is_one_of2(cmd, "theme", "t") {
        Some(CommandAction::ToggleTheme)
    } else if is_one_of3(cmd, "help", "h", "?") {
        Some(CommandAction::ShowHelp)
    } else if is_one_of3(cmd, "quit", "q", "exit") {
        Some(CommandAction::Quit)
    } else if same_text(cmd, "tab") {
        if args.len() == 0 {
            return None;
        }
        let lower = to_lowercase(args[0].as_str());
        match parse_tab(lower.as_str()) {
            Some(tab) => Some(CommandAction::SwitchTab { tab }),
            None => None,
        }
    } else if is_one_of2(cmd, "clear-logs", "cl") {
        Some(CommandAction::ClearLogs)
    } else if is_one_of2(cmd, "status", "st") {
        Some(CommandAction::ShowStatus)
    } else if same_text(cmd, "restart") {
        if args.len() == 0 {
            return None;
        }
        Some(CommandAction::RestartDaemon { daemon: args[0].clone() })
    } else {
        None
    }
}

/// The action that typed text asks for.
pub fn parse_input(input: &str) -> (r: Option<CommandAction>)
    ensures
        action_view(r) == input_action(input@),
{
    let ic = chars_of(input);
    let t = trim_chars(ic.as_slice());
    if t.len() == 0 {
        return None;
    }
    if t[0] == ':' {
        let mut rest: Vec<char> = Vec::new();
        let mut k: usize = 1;
        while k < t.len()
            invariant
                1 <= k <= t@.len(),
                rest@ == t@.subrange(1, k as int),
            decreases t@.len() - k,
        {
            rest.push(t[k]);
            k = k + 1;
        }
        assert(rest@ =~= t@.skip(1));
        let parts = split_words(rest.as_slice());
        if parts.len() == 0 {
            return None;
        }
        let name = to_lowercase(parts[0].as_str());
        assert(views(parts@)[0] == parts@[0]@);
        let mut args: Vec<String> = Vec::new();
        let mut i: usize = 1;
        while i < parts.len()
            invariant
                1 <= i <= parts@.len(),
                views(args@) == views(parts@).subrange(1, i as int),
            decreases parts@.len() - i,
        {
            let ghost before = views(args@);
            args.push(parts[i].clone());
            assert(views(args@) =~= before.push(parts@[i as int]@));
            assert(views(parts@).subrange(1, i + 1) =~= views(parts@).subrange(1, i as int).push(parts@[i as int]@));
            i = i + 1;
        }
        assert(views(parts@).subrange(1, parts@.len() as int) =~= views(parts@).skip(1));
        parse_direct_command(name.as_str(), &args)
    } else {
        Some(CommandAction::SubmitGoal { task: string_of(t.as_slice()) })
    }
}

/// Whether a command matches a query: after a `:`, the name or an alias must
/// begin with the rest; otherwise the name, the lower-cased description or
/// an alias must contain the query.
pub open spec fn command_matches(c: CommandView, q: Seq<char>) -> bool {
    if q.len() > 0 && q[0] == ':' {
        let cq = q.skip(1);
        has_prefix(c.name, cq) || exists|j: int| 0 <= j < c.aliases.len() && has_prefix(#[trigger] c.aliases[j], cq)
    } else {
        has_infix(c.name, q) || has_infix(lowercase(c.description), q) || exists|j: int|
            0 <= j < c.aliases.len() && has_infix(#[trigger] c.aliases[j], q)
    }
}

/// The indices, in order, of the first `k` commands that match `q`.
pub open spec fn matching(cmds: Seq<CommandView>, q: Seq<char>, k: nat) -> Seq<usize>
    decreases k,
{
    if k == 0 {
        Seq::empty()
    } else {
        let p = matching(cmds, q, (k - 1) as nat);
        if command_matches(cmds[k - 1], q) {
            p.push((k - 1) as usize)
        } else {
            p
        }
    }
}

/// The indices `0..n`.
pub open spec fn all_indices(n: nat) -> Seq<usize> {
    Seq::new(n, |i: int| i as usize)
}

/// The commands listed for typed text: all of them for blank text or when
/// none matches, else those matching the trimmed, lower-cased text.
pub open spec fn filter_result(cmds: Seq<CommandView>, input: Seq<char>) -> Seq<usize> {
    let q = lowercase(trim(input));
    if q.len() == 0 {
        all_indices(cmds.len())
    } else {
        let m = matching(cmds, q, cmds.len());
        if m.len() == 0 {
            all_indices(cmds.len())
        } else {
            m
        }
    }
}

proof fn lemma_matching_bounds(cmds: Seq<CommandView>, q: Seq<char>, k: nat)
    requires
        k <= cmds.len(),
    ensures
        forall|i: int| 0 <= i < matching(cmds, q, k).len() ==> #[trigger] matching(cmds, q, k)[i] < k,
        matching(cmds, q, k).len() <= k,
    decreases k,
{
    if k > 0 {
        lemma_matching_bounds(cmds, q, (k - 1) as nat);
    }
}

/// Whether the command matches the query.
fn matches_query(c: &Command, q: &[char]) -> (b: bool)
    ensures
        b == command_matches(c@, q@),
{
    let name = chars_of(c.name.as_str());
    if q.len() > 0 && q[0] == ':' {
        let mut cq: Vec<char> = Vec::new();
        let mut k: usize = 1;
        while k < q.len()
            invariant
                1 <= k <= q@.len(),
                cq@ == q@.subrange(1, k as int),
            decreases q@.len() - k,
        {
            cq.push(q[k]);
            k = k + 1;
        }
        assert(cq@ =~= q@.skip(1));
        if starts_with(name.as_slice(), cq.as_slice()) {
            return true;
        }
        let mut j: usize = 0;
        while j < c.aliases.len()
            invariant
                j <= c.aliases@.len(),
                q@.len() > 0,
                q@[0] == ':',
                cq@ == q@.skip(1),
                forall|x: int| 0 <= x < j ==> !has_prefix(#[trigger] views(c.aliases@)[x], cq@),
            decreases c.aliases@.len() - j,
        {
            let a = chars_of(c.aliases[j].as_str());
            assert(views(c.aliases@)[j as int] == c.aliases@[j as int]@);
            if starts_with(a.as_slice(), cq.as_slice()) {
                assert(has_prefix(c@.aliases[j as int], cq@));
                return true;
            }
            j = j + 1;
        }
        false
    } else {
        if contains(name.as_slice(), q) {
            return true;
        }
        let d = to_lowercase(c.description.as_str());
        let dc = chars_of(d.as_str());
        if contains(dc.as_slice(), q) {
            return true;
        }
        let mut j: usize = 0;
        while j < c.aliases.len()
            invariant
                j <= c.aliases@.len(),
                !(q@.len() > 0 && q@[0] == ':'),
                forall|x: int| 0 <= x < j ==> !has_infix(#[trigger] views(c.aliases@)[x], q@),
            decreases c.aliases@.len() - j,
        {
            let a = chars_of(c.aliases[j].as_str());
            assert(views(c.aliases@)[j as int] == c.aliases@[j as int]@);
            if contains(a.as_slice(), q) {
                assert(has_infix(c@.aliases[j as int], q@));
                return true;
            }
            j = j + 1;
        }
        false
    }
}

/// The indices `0..n`.
fn index_range(n: usize) -> (r: Vec<usize>)
    ensures
        r@ == all_indices(n as nat),
{
    let mut r: Vec<usize> = Vec::new();
    let mut i: usize = 0;
    while i < n
        invariant
            i <= n,
            r@ == all_indices(i as nat),
        decreases n - i,
    {
        r.push(i);
        i = i + 1;
        assert(r@ =~= all_indices(i as nat));
    }
    r
}

/// The commands listed for typed text.
pub fn filter_commands(commands: &Vec<Command>, input: &str) -> (r: Vec<usize>)
    ensures
        r@ == filter_result(command_views(commands@), input@),
{
    let ic = chars_of(input);
    let t = trim_chars(ic.as_slice());
    let ts = string_of(t.as_slice());
    let q = to_lowercase(ts.as_str());
    let qc = chars_of(q.as_str());
    let n = commands.len();
    if qc.len() == 0 {
        return index_range(n);
    }
    let ghost cv = command_views(commands@);
    let mut m: Vec<usize> = Vec::new();
    let mut i: usize = 0;
    while i < n
        invariant
            n == commands@.len(),
            cv == command_views(commands@),
            i <= n,
            m@ == matching(cv, qc@, i as nat),
        decreases n - i,
    {
        assert(cv[i as int] == commands@[i as int]@);
        if matches_query(&commands[i], qc.as_slice()) {
            m.push(i);
        }
        i = i + 1;
    }
    if m.len() == 0 {
        index_range(n)
    } else {
        m
    }
}

/// The action that executing the palette yields: typed text is parsed;
/// with nothing typed, the selected command runs without arguments.
pub open spec fn palette_action(cmds: Seq<CommandView>, filtered: Seq<usize>, selected: int, input: Seq<char>) -> Option<
    CommandActionView,
> {
    if trim(input).len() > 0 {
        input_action(input)
    } else {
        direct_command(cmds[filtered[selected] as int].name, Seq::empty())
    }
}

/// The command palette.
pub struct CommandPalette {
    pub visible: bool,
    pub input: String,
    pub commands: Vec<Command>,
    /// Indices into `commands` of the listed commands.
    pub filtered: Vec<usize>,
    /// Position of the selected command in the list.
    pub selected: usize,
}

impl CommandPalette {
    /// The list is never empty, lists existing commands, and the selection
    /// lies in it.
    pub open spec fn wf(&self) -> bool {
        &&& self.commands@.len() > 0
        &&& self.filtered@.len() > 0
        &&& forall|i: int| 0 <= i < self.filtered@.len() ==> #[trigger] self.filtered@[i] < self.commands@.len()
        &&& self.selected < self.filtered@.len()
    }

    /// The filtered list is never empty and lists existing commands only.
    pub proof fn lemma_filter_wf(cmds: Seq<CommandView>, input: Seq<char>)
        requires
            cmds.len() > 0,
        ensures
            filter_result(cmds, input).len() > 0,
            forall|i: int| 0 <= i < filter_result(cmds, input).len() ==> #[trigger] filter_result(cmds, input)[i] < cmds.len(),
    {
        lemma_matching_bounds(cmds, lowercase(trim(input)), cmds.len());
    }

    /// A closed palette listing all its commands, the first one selected.
    pub fn new() -> (p: CommandPalette)
        ensures
            p.wf(),
            !p.visible,
            p.input@ == Seq::<char>::empty(),
            command_views(p.commands@) == default_commands(),
            p.filtered@ == all_indices(default_commands().len()),
            p.selected == 0,
    {
        let commands = default_command_list();
        assert(commands@.len() == command_views(commands@).len());
        let filtered = index_range(commands.len());
        CommandPalette { visible: false, input: String::new(), commands, filtered, selected: 0 }
    }

    /// Lists the commands matching the typed text.
    pub fn filter(&mut self)
        requires
            old(self).commands@.len() > 0,
        ensures
            final(self).filtered@ == filter_result(command_views(old(self).commands@), old(self).input@),
            final(self).filtered@.len() > 0,
            forall|i: int| 0 <= i < final(self).filtered@.len() ==> #[trigger] final(self).filtered@[i] < final(self).commands@.len(),
            final(self).commands == old(self).commands,
            final(self).input == old(self).input,
            final(self).visible == old(self).visible,
            final(self).selected == old(self).selected,
    {
        proof {
            Self::lemma_filter_wf(command_views(self.commands@), self.input@);
        }
        self.filtered = filter_commands(&self.commands, self.input.as_str());
    }

    /// Opens the palette with nothing typed and the first command selected.
    pub fn open(&mut self)
        requires
            old(self).wf(),
        ensures
            final(self).wf(),
            final(self).visible,
            final(self).input@ == Seq::<char>::empty(),
            final(self).commands == old(self).commands,
            final(self).filtered@ == filter_result(command_views(old(self).commands@), Seq::empty()),
            final(self).selected == 0,
    {
        self.visible = true;
        self.input = String::new();
        self.filter();
        self.selected = 0;
    }

    /// Closes the palette and clears the typed text.
    pub fn close(&mut self)
        requires
            old(self).wf(),
        ensures
            final(self).wf(),
            !final(self).visible,
            final(self).input@ == Seq::<char>::empty(),
            final(self).commands == old(self).commands,
            final(self).filtered == old(self).filtered,
            final(self).selected == old(self).selected,
    {
        self.visible = false;
        self.input = String::new();
    }

    /// Opens a closed palette, closes an open one.
    pub fn toggle(&mut self)
        requires
            old(self).wf(),
        ensures
            final(self).wf(),
            final(self).visible == !old(self).visible,
            final(self).input@ == Seq::<char>::empty(),
            final(self).commands == old(self).commands,
            old(self).visible ==> final(self).filtered == old(self).filtered && final(self).selected == old(self).selected,
            !old(self).visible ==> final(self).filtered@ == filter_result(command_views(old(self).commands@), Seq::empty())
                && final(self).selected == 0,
    {
        if self.visible {
            self.close();
        } else {
            self.open();
        }
    }

    /// Types a character: the list is filtered anew and its first entry selected.
    pub fn push_char(&mut self, c: char)
        requires
            old(self).wf(),
        ensures
            final(self).wf(),
            final(self).input@ == old(self).input@.push(c),
            final(self).visible == old(self).visible,
            final(self).commands == old(self).commands,
            final(self).filtered@ == filter_result(command_views(old(self).commands@), old(self).input@.push(c)),
            final(self).selected == 0,
    {
        let mut v = chars_of(self.input.as_str());
        v.push(c);
        self.input = string_of(v.as_slice());
        self.filter();
        self.selected = 0;
    }

    /// Deletes the last typed character, if any: the list is filtered anew
    /// and its first entry selected.
    pub fn pop_char(&mut self)
        requires
            old(self).wf(),
        ensures
            final(self).wf(),
            final(self).input@ == (if old(self).input@.len() > 0 {
                old(self).input@.drop_last()
            } else {
                old(self).input@
            }),
            final(self).visible == old(self).visible,
            final(self).commands == old(self).commands,
            final(self).filtered@ == filter_result(command_views(old(self).commands@), final(self).input@),
            final(self).selected == 0,
    {
        let mut v = chars_of(self.input.as_str());
        if v.len() > 0 {
            v.pop();
        }
        self.input = string_of(v.as_slice());
        self.filter();
        self.selected = 0;
    }

    /// Moves the selection up, unless it is at the top.
    pub fn move_up(&mut self)
        requires
            old(self).wf(),
        ensures
            final(self).wf(),
            final(self).selected == (if old(self).selected > 0 {
                old(self).selected - 1
            } else {
                0
            }),
            final(self).visible == old(self).visible,
            final(self).input == old(self).input,
            final(self).commands == old(self).commands,
            final(self).filtered == old(self).filtered,
    {
        if self.selected > 0 {
            self.selected = self.selected - 1;
        }
    }

    /// Moves the selection down, unless it is at the bottom.
    pub fn move_down(&mut self)
        requires
            old(self).wf(),
        ensures
            final(self).wf(),
            final(self).selected == (if old(self).selected + 1 < old(self).filtered@.len() {
                old(self).selected + 1
            } else {
                old(self).selected as int
            }),
            final(self).visible == old(self).visible,
            final(self).input == old(self).input,
            final(self).commands == old(self).commands,
            final(self).filtered == old(self).filtered,
    {
        let n = self.filtered.len();
        if self.selected < n - 1 {
            self.selected = self.selected + 1;
        }
    }

    /// The selected command.
    pub fn selected_command(&self) -> (c: Option<&Command>)
        requires
            self.wf(),
        ensures
            c == Some(&self.commands@[self.filtered@[self.selected as int] as int]),
    {
        let i = self.filtered[self.selected];
        Some(&self.commands[i])
    }

    /// Runs the palette: yields the action of the typed text, or of the
    /// selected command when nothing is typed, and closes the palette when
    /// there is one.
    pub fn execute(&mut self) -> (a: Option<CommandAction>)
        requires
            old(self).wf(),
        ensures
            final(self).wf(),
            action_view(a) == palette_action(
                command_views(old(self).commands@),
                old(self).filtered@,
                old(self).selected as int,
                old(self).input@,
            ),
            a is Some ==> !final(self).visible && final(self).input@ == Seq::<char>::empty(),
            a is None ==> final(self).visible == old(self).visible && final(self).input == old(self).input,
            final(self).commands == old(self).commands,
            final(self).filtered == old(self).filtered,
            final(self).selected == old(self).selected,
    {
        let ic = chars_of(self.input.as_str());
        let t = trim_chars(ic.as_slice());
        let action = if t.len() > 0 {
            parse_input(self.input.as_str())
        } else {
            let i = self.filtered[self.selected];
            assert(command_views(self.commands@)[i as int] == self.commands@[i as int]@);
            let none: Vec<String> = Vec::new();
            assert(views(none@) =~= Seq::<Seq<char>>::empty());
            parse_direct_command(self.commands[i].name.as_str(), &none)
        };
        if action.is_some() {
            self.close();
        }
        action
    }
}

} // verus!
