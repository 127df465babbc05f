use ant::ui::command_palette::{filter_commands, parse_direct_command, parse_input, CommandAction, CommandPalette};

#[test]
fn palette_starts_closed_listing_everything() {
    let p = CommandPalette::new();
    assert!(!p.visible);
    assert_eq!(p.commands.len(), 11);
    assert_eq!(p.filtered, (0..11).collect::<Vec<usize>>());
    assert_eq!(p.selected, 0);
}

#[test]
fn colon_prefix_matches_names_and_aliases() {
    let p = CommandPalette::new();
    let f = filter_commands(&p.commands, ":k");
    let names: Vec<&str> = f.iter().map(|&i| p.commands[i].name.as_str()).collect();
    assert_eq!(names, vec!["kill"]);
    let f = filter_commands(&p.commands, ":st");
    let names: Vec<&str> = f.iter().map(|&i| p.commands[i].name.as_str()).collect();
    assert_eq!(names, vec!["kill", "status"]);
}

#[test]
fn no_match_lists_everything() {
    let p = CommandPalette::new();
    assert_eq!(filter_commands(&p.commands, "zzzz").len(), 11);
    assert_eq!(filter_commands(&p.commands, "   ").len(), 11);
}

#[test]
fn typing_filters_and_resets_selection() {
    let mut p = CommandPalette::new();
    p.open();
    p.move_down();
    p.move_down();
    assert_eq!(p.selected, 2);
    p.push_char(':');
    p.push_char('q');
    assert_eq!(p.input, ":q");
    assert_eq!(p.selected, 0);
    assert_eq!(p.selected_command().unwrap().name, "quit");
    p.pop_char();
    assert_eq!(p.input, ":");
}

#[test]
fn selection_stays_in_list() {
    let mut p = CommandPalette::new();
    p.move_up();
    assert_eq!(p.selected, 0);
    for _ in 0..20 {
        p.move_down();
    }
    assert_eq!(p.selected, 10);
}

#[test]
fn direct_commands() {
    let args = |v: &[&str]| v.iter().map(|s| s.to_string()).collect::<Vec<String>>();
    assert!(matches!(parse_direct_command("submit", &args(&["a", "b"])), Some(CommandAction::SubmitGoal { task }) if task == "a b"));
    assert!(parse_direct_command("kill", &args(&[])).is_none());
    assert!(matches!(parse_direct_command("k", &args(&["G-1"])), Some(CommandAction::KillGoal { goal_id }) if goal_id == "G-1"));
    assert!(matches!(parse_direct_command("tab", &args(&["Logs"])), Some(CommandAction::SwitchTab { tab: 3 })));
    assert!(matches!(parse_direct_command("tab", &args(&["7"])), Some(CommandAction::SwitchTab { tab: 6 })));
    assert!(parse_direct_command("tab", &args(&["9"])).is_none());
    assert!(matches!(parse_direct_command("?", &args(&[])), Some(CommandAction::ShowHelp)));
    assert!(parse_direct_command("bogus", &args(&[])).is_none());
}

#[test]
fn typed_input() {
    assert!(parse_input("   ").is_none());
    assert!(matches!(parse_input(" :QUIT "), Some(CommandAction::Quit)));
    assert!(matches!(parse_input("build a site"), Some(CommandAction::SubmitGoal { task }) if task == "build a site"));
    assert!(parse_input(":").is_none());
}

#[test]
fn execute_closes_on_action() {
    let mut p = CommandPalette::new();
    p.open();
    for c in ":theme".chars() {
        p.push_char(c);
    }
    assert!(matches!(p.execute(), Some(CommandAction::ToggleTheme)));
    assert!(!p.visible);
    assert_eq!(p.input, "");
    let mut q = CommandPalette::new();
    q.open();
    assert!(q.execute().is_none());
    assert!(q.visible);
    q.toggle();
    assert!(!q.visible);
}
