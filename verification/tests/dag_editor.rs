use ant::ui::dag_editor::{node_mark, node_preview, DagEditorState};

fn ids(v: &[&str]) -> Vec<String> {
    v.iter().map(|s| s.to_string()).collect()
}

#[test]
fn nodes_are_laid_out_three_per_row() {
    let mut e = DagEditorState::new();
    e.initialize_positions(&ids(&["a", "b", "c", "d", "a"]));
    assert_eq!(e.nodes.len(), 4);
    let pos: Vec<(u16, u16)> = e.nodes.iter().map(|n| (n.x, n.y)).collect();
    assert_eq!(pos, vec![(5, 3), (40, 3), (75, 3), (5, 13)]);
    e.initialize_positions(&ids(&["b", "e"]));
    assert_eq!(e.nodes.len(), 5);
    assert_eq!((e.nodes[4].x, e.nodes[4].y), (5, 3));
}

#[test]
fn press_drag_release() {
    let mut e = DagEditorState::new();
    e.initialize_positions(&ids(&["a", "b"]));
    assert_eq!(e.handle_mouse_press(5, 45), Some("b".to_string()));
    assert_eq!(e.selected_node, Some("b".to_string()));
    assert_eq!((e.drag_offset_x, e.drag_offset_y), (5, 2));
    e.handle_mouse_drag(20, 60);
    assert_eq!((e.nodes[1].x, e.nodes[1].y), (55, 18));
    e.handle_mouse_drag(0, 0);
    assert_eq!((e.nodes[1].x, e.nodes[1].y), (0, 0));
    e.handle_mouse_release();
    assert!(e.dragging_node.is_none());
    assert_eq!(e.handle_mouse_press(60, 200), None);
    assert!(e.selected_node.is_none());
}

#[test]
fn hit_test_includes_borders() {
    let mut e = DagEditorState::new();
    e.initialize_positions(&ids(&["a"]));
    assert_eq!(e.get_node_at(3, 5), Some(&"a".to_string()));
    assert_eq!(e.get_node_at(8, 35), Some(&"a".to_string()));
    assert_eq!(e.get_node_at(9, 35), None);
}

#[test]
fn dependencies_need_distinct_ends() {
    let mut e = DagEditorState::new();
    e.start_adding_dependency("a".into());
    assert_eq!(e.finish_adding_dependency("b".into()), Some(("a".to_string(), "b".to_string())));
    assert!(e.adding_dependency.is_none());
    e.start_adding_dependency("a".into());
    assert_eq!(e.finish_adding_dependency("a".into()), None);
    assert_eq!(e.finish_adding_dependency("a".into()), None);
}

#[test]
fn node_preview_and_mark() {
    assert_eq!(node_preview("short input"), "short input");
    assert_eq!(node_preview("abcdefghijklmnopqrstuvwxy"), "abcdefghijklmnopqrstuvwxy");
    assert_eq!(node_preview("abcdefghijklmnopqrstuvwxyz"), "abcdefghijklmnopqrstuvwxy...");
    assert_eq!(node_preview("ёёёёёёёёёёёёёёёёёёёёёёёёёё"), "ёёёёёёёёёёёёёёёёёёёёёёёёё...");
    assert_eq!(node_mark("DONE"), "✓");
    assert_eq!(node_mark("FAILED"), "✗");
    assert_eq!(node_mark("RUNNING"), "⟳");
    assert_eq!(node_mark("PENDING"), "○");
}
