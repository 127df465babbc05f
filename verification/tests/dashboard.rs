use ant::bus::SystemEvent;
use ant::ui::command_palette::CommandAction;
use ant::ui::dashboard::{DashboardState, KeyEffect, KeyInput, MouseInput, Tab};
use ant::ui::theme::ThemeType;

#[test]
fn tabs_titles_and_cycle() {
    assert_eq!(Tab::titles().len(), 7);
    assert_eq!(Tab::titles()[0], "📊 Dashboard");
    assert_eq!(Tab::all()[3], Tab::Logs);
    assert_eq!(Tab::Help.next(), Tab::Dashboard);
    assert_eq!(Tab::Dashboard.prev(), Tab::Help);
    assert_eq!(Tab::Git.next().prev(), Tab::Git);
}

#[test]
fn events_update_tables() {
    let mut s = DashboardState::new();
    s.apply_event(&SystemEvent::TaskDispatched { task_id: "t1".into(), tool: "shell".into(), input: "ls".into() }, "10:00:00");
    s.apply_event(&SystemEvent::TaskCompleted { task_id: "t1".into(), result: "x".repeat(80) }, "10:00:01");
    let row = s.dags.get("t1").unwrap();
    assert_eq!(row[0], "shell");
    assert_eq!(row[1], "DONE");
    assert_eq!(row[3].chars().count(), 50);
    s.apply_event(&SystemEvent::DaemonStatus { daemon: "d".into(), status: "RUNNING".into() }, "t");
    s.apply_event(&SystemEvent::DaemonStatus { daemon: "d".into(), status: "STOPPED".into() }, "t");
    assert_eq!(s.daemons.get("d"), Some(&"STOPPED".to_string()));
    assert_eq!(s.daemon_counts(), (0, 1));
}

#[test]
fn log_keeps_last_200_lines() {
    let mut s = DashboardState::new();
    for i in 0..205 {
        s.apply_event(&SystemEvent::Log { level: "INFO".into(), source: "x".into(), message: format!("m{}", i) }, "12:00:00");
    }
    assert_eq!(s.logs.len(), 200);
    assert_eq!(s.logs[0], "[12:00:00] [INFO] x: m5");
    assert_eq!(s.logs[199], "[12:00:00] [INFO] x: m204");
}

#[test]
fn goals_are_tracked_and_counted() {
    let mut s = DashboardState::new();
    s.apply_event(&SystemEvent::GoalCreated { id: "G-1".into(), task: "a".into() }, "09:00:00");
    s.apply_event(&SystemEvent::GoalCreated { id: "G-2".into(), task: "b".into() }, "09:00:01");
    s.apply_event(&SystemEvent::GoalCreated { id: "G-3".into(), task: "c".into() }, "09:00:02");
    s.apply_event(&SystemEvent::GoalCompleted { id: "G-1".into(), result: "ok".into() }, "t");
    s.apply_event(&SystemEvent::GoalFailed { id: "G-2".into(), reason: "no".into() }, "t");
    assert_eq!(s.goals[0].status, "COMPLETED");
    assert_eq!(s.goals[2].status, "PLANNING");
    assert_eq!(s.goals[2].created_at, "09:00:02");
    assert_eq!(s.goal_counts(), (1, 1, 1));
    s.handle_command_action(CommandAction::ShowStatus, "t");
    assert_eq!(s.chat_history.last().unwrap(), "📊 Status: Active: 1, Completed: 1, Failed: 1");
}

#[test]
fn keys_edit_input_and_submit() {
    let mut s = DashboardState::new();
    assert_eq!(s.classify_key(KeyInput::Char('h')), KeyEffect::InputPush('h'));
    s.handle_key(KeyInput::Char('h'), "t");
    s.handle_key(KeyInput::Char('i'), "t");
    assert_eq!(s.input_text, "hi");
    s.handle_key(KeyInput::Backspace, "t");
    assert_eq!(s.input_text, "h");
    let o = s.handle_key(KeyInput::Enter, "101112");
    assert!(!o.quit);
    assert_eq!(s.input_text, "");
    assert!(matches!(&o.events[0], SystemEvent::GoalCreated { id, task } if id == "G-101112" && task == "h"));
    assert_eq!(s.chat_history.last().unwrap(), "🧑\u{200d}💻: h");
}

#[test]
fn keys_switch_tabs_and_quit() {
    let mut s = DashboardState::new();
    s.handle_key(KeyInput::Tab, "t");
    assert_eq!(s.active_tab, Tab::Memory);
    s.handle_key(KeyInput::BackTab, "t");
    s.handle_key(KeyInput::BackTab, "t");
    assert_eq!(s.active_tab, Tab::Help);
    s.handle_key(KeyInput::Char('d'), "t");
    assert_eq!(s.active_tab, Tab::Dashboard);
    assert!(s.handle_key(KeyInput::Char('q'), "t").quit);
    assert!(s.handle_key(KeyInput::Esc, "t").quit);
    s.handle_key(KeyInput::Char('x'), "t");
    assert!(!s.handle_key(KeyInput::Char('q'), "t").quit);
    assert_eq!(s.input_text, "xq");
}

#[test]
fn palette_keys() {
    let mut s = DashboardState::new();
    s.handle_key(KeyInput::Char(':'), "t");
    assert!(s.command_palette.visible);
    for c in "fix".chars() {
        s.handle_key(KeyInput::Char(c), "t");
    }
    assert_eq!(s.command_palette.input, "fix");
    let o = s.handle_key(KeyInput::Enter, "235959");
    assert!(!s.command_palette.visible);
    assert!(matches!(&o.events[0], SystemEvent::GoalCreated { id, task } if id == "G-235959" && task == "fix"));
    assert_eq!(s.chat_history.last().unwrap(), "⚡ Submit: fix");
    s.handle_key(KeyInput::Char(':'), "t");
    s.handle_key(KeyInput::Char(':'), "t");
    assert!(!s.command_palette.visible);
    s.handle_key(KeyInput::Char(':'), "t");
    s.handle_key(KeyInput::Tab, "t");
    assert_eq!(s.command_palette.input, ":submit ");
    s.handle_key(KeyInput::Esc, "t");
    assert!(!s.command_palette.visible);
}

#[test]
fn theme_and_panels() {
    let mut s = DashboardState::new();
    s.handle_key(KeyInput::Char('t'), "t");
    assert_eq!(s.theme_manager.get_theme().theme_type, ThemeType::Light);
    s.handle_key(KeyInput::Char('m'), "t");
    assert!(s.show_memory_panel);
    s.handle_key(KeyInput::Char('r'), "t");
    assert!(s.memory_search_mode);
    s.handle_key(KeyInput::Char('z'), "t");
    assert_eq!(s.memory_search_query, "z");
    s.handle_key(KeyInput::Down, "t");
    assert_eq!(s.memory_selected, 1);
    assert!(s.handle_key(KeyInput::Esc, "t").quit);
    let mut u = DashboardState::new();
    u.handle_key(KeyInput::Char('a'), "t");
    u.handle_key(KeyInput::Char('r'), "t");
    assert!(u.memory_search_mode);
    assert!(!u.handle_key(KeyInput::Esc, "t").quit);
    assert!(!u.memory_search_mode);
}

#[test]
fn command_actions_emit_events() {
    let mut s = DashboardState::new();
    let e = s.handle_command_action(CommandAction::KillGoal { goal_id: "G-9".into() }, "t");
    assert!(matches!(&e[0], SystemEvent::GoalFailed { id, reason } if id == "G-9" && reason == "Killed by user"));
    let e = s.handle_command_action(CommandAction::Quit, "t");
    assert!(matches!(&e[0], SystemEvent::SystemBoot(m) if m == "Shutdown requested"));
    s.apply_event(&SystemEvent::TaskDispatched { task_id: "t1".into(), tool: "lsp".into(), input: "code".into() }, "t");
    let e = s.handle_command_action(CommandAction::RetryTask { task_id: "t1".into() }, "t");
    assert!(matches!(&e[0], SystemEvent::TaskDispatched { tool, input, .. } if tool == "lsp" && input == "code"));
    assert_eq!(s.dags.get("t1").unwrap()[1], "PENDING");
    let e = s.handle_command_action(CommandAction::RetryTask { task_id: "zz".into() }, "t");
    assert!(e.is_empty());
    s.handle_command_action(CommandAction::ClearLogs, "t");
    assert!(s.logs.is_empty());
    let e = s.handle_command_action(CommandAction::SwitchTab { tab: 9 }, "t");
    assert!(e.is_empty());
}

#[test]
fn mouse_scrolls() {
    let mut s = DashboardState::new();
    s.handle_mouse(MouseInput::ScrollDown);
    s.handle_mouse(MouseInput::ScrollDown);
    s.handle_mouse(MouseInput::ScrollUp);
    assert_eq!(s.scroll_offset, 1);
    s.handle_mouse(MouseInput::LeftDown { row: 1, col: 1 });
    assert!(s.dag_editor_state.selected_node.is_none());
}
