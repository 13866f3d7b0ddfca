use fluxway_core::config::Config;
use fluxway_core::window::WindowId;
use fluxway_core::workspace::{Workspace, WorkspaceId};

#[test]
fn workspace_test_workspace_creation() {
    let ws = Workspace::new(WorkspaceId(1), "1".to_string());
    assert_eq!(ws.name, "1");
    assert_eq!(ws.number, Some(1));
    assert!(ws.is_empty());
}

#[test]
fn workspace_test_workspace_windows() {
    let config = Config::default();
    let mut ws = Workspace::new(WorkspaceId(1), "1".to_string());
    let w1 = WindowId(100);
    let w2 = WindowId(101);

    ws.add_window(w1, &config);
    ws.add_window(w2, &config);
    assert_eq!(ws.window_count(), 2);
    assert!(ws.contains(w1));
    assert!(ws.contains(w2));

    ws.remove_window(w1);
    assert_eq!(ws.window_count(), 1);
    assert!(!ws.contains(w1));
}

#[test]
fn workspace_test_focus_stack() {
    let config = Config::default();
    let mut ws = Workspace::new(WorkspaceId(1), "1".to_string());
    let w1 = WindowId(100);
    let w2 = WindowId(101);

    ws.add_window(w1, &config);
    ws.add_window(w2, &config);
    assert_eq!(ws.focused_window(), Some(w2));

    ws.focus_window(w1);
    assert_eq!(ws.focused_window(), Some(w1));
}

#[test]
fn named_workspace_has_no_number() {
    let ws = Workspace::new(WorkspaceId(7), "web".to_string());
    assert_eq!(ws.number, None);
    let ws = Workspace::new(WorkspaceId(8), "+12".to_string());
    assert_eq!(ws.number, Some(12));
}

#[test]
fn float_and_tile_move_between_lists() {
    let config = Config::default();
    let mut ws = Workspace::new(WorkspaceId(1), "1".to_string());
    let w = WindowId(5);
    ws.add_window(w, &config);
    ws.float_window(w);
    assert!(ws.tiled_windows.is_empty());
    assert_eq!(ws.floating_windows, vec![w]);
    assert!(ws.layout.root.is_none());
    ws.tile_window(w, &config);
    assert_eq!(ws.tiled_windows, vec![w]);
    assert!(ws.floating_windows.is_empty());
    assert_eq!(ws.windows(), vec![w]);
}
