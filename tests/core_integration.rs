use fluxway_core::config::Config;
use fluxway_core::event::{CoreAction, CoreEvent};
use fluxway_core::input::{Command, Toggle, WorkspaceTarget};
use fluxway_core::state::Geometry;
use fluxway_core::window::WindowState;
use fluxway_core::workspace::WorkspaceId;
use fluxway_core::Core;

/// A core with default config and a 1920x1080 output.
fn test_core() -> Core {
    let config = Config::default();
    let mut core = Core::new(config);
    core.handle_event(CoreEvent::OutputAdded {
        id: 1,
        name: "test-output".into(),
        geometry: Geometry::new(0, 0, 1920, 1080),
    });
    core
}

/// Map a synthetic window and return its id.
fn map_window(core: &mut Core, app_id: &str, title: &str) -> fluxway_core::WindowId {
    let id = core.next_window_id();
    core.handle_event(CoreEvent::WindowMapped {
        id,
        app_id: Some(app_id.into()),
        title: Some(title.into()),
        pid: None,
        initial_geometry: Some(Geometry::new(0, 0, 800, 600)),
        is_xwayland: false,
    });
    id
}

fn workspace_key(core: &Core, n: usize) -> WorkspaceId {
    WorkspaceId(*core.state.workspaces.keys().nth(n).unwrap())
}

#[test]
fn workspace_switching_changes_focus_and_actions() {
    let mut core = test_core();
    let w1 = map_window(&mut core, "term", "Terminal");
    assert_eq!(core.focused_window(), Some(w1));

    let actions = core.exec(Command::Workspace(WorkspaceTarget::Number(2)));
    assert!(
        actions.iter().any(|a| matches!(a, CoreAction::WorkspaceChanged { .. })),
        "Expected WorkspaceChanged action, got: {actions:?}"
    );
    let ws2_id = workspace_key(&core, 1);
    assert_eq!(core.focused_workspace(), Some(ws2_id));
    assert_ne!(core.focused_workspace(), Some(workspace_key(&core, 0)));
}

#[test]
fn focus_movement_across_tiled_windows() {
    let mut core = test_core();
    let w1 = map_window(&mut core, "app1", "App 1");
    let w2 = map_window(&mut core, "app2", "App 2");
    let w3 = map_window(&mut core, "app3", "App 3");
    assert_eq!(core.focused_window(), Some(w3));

    assert_eq!(core.state.window(w1).unwrap().workspace, core.state.window(w2).unwrap().workspace);
    assert_eq!(core.state.window(w2).unwrap().workspace, core.state.window(w3).unwrap().workspace);

    assert!(core.state.window(w1).unwrap().is_tiled());
    assert!(core.state.window(w2).unwrap().is_tiled());
    assert!(core.state.window(w3).unwrap().is_tiled());

    let tick_actions = core.tick();
    let geo_actions: Vec<_> = tick_actions
        .iter()
        .filter(|a| matches!(a, CoreAction::SetWindowGeometry { .. }))
        .collect();
    assert!(
        geo_actions.len() >= 3,
        "Expected geometry for 3 windows, got {} actions: {geo_actions:?}",
        geo_actions.len()
    );
}

#[test]
fn toggle_floating_preserves_geometry_and_focus() {
    let mut core = test_core();
    let w1 = map_window(&mut core, "editor", "Editor");
    assert_eq!(core.focused_window(), Some(w1));

    let actions = core.exec(Command::Floating(Toggle::Switch));
    assert!(
        actions.iter().any(|a| matches!(a, CoreAction::SetFloating { id, floating: true } if *id == w1)),
        "Expected SetFloating(true) for {w1:?}, got: {actions:?}"
    );
    assert!(
        core.state.window(w1).unwrap().state.contains(WindowState::FLOATING),
        "Window should be floating"
    );
    assert_eq!(core.focused_window(), Some(w1));

    let actions = core.exec(Command::Floating(Toggle::Switch));
    assert!(
        actions.iter().any(|a| matches!(a, CoreAction::SetFloating { id, floating: false } if *id == w1)),
        "Expected SetFloating(false) for {w1:?}, got: {actions:?}"
    );
    assert!(
        !core.state.window(w1).unwrap().state.contains(WindowState::FLOATING),
        "Window should not be floating"
    );
    assert_eq!(core.focused_window(), Some(w1));
}

#[test]
fn scratchpad_send_and_toggle() {
    let mut core = test_core();
    let _w1 = map_window(&mut core, "term", "Terminal");
    let w2 = map_window(&mut core, "browser", "Browser");
    assert_eq!(core.focused_window(), Some(w2));

    core.exec(Command::MoveToScratchpad);
    assert!(core.state.scratchpad.contains(&w2), "Window should be in scratchpad");
    assert!(
        core.state.window(w2).unwrap().state.contains(WindowState::HIDDEN),
        "Scratchpad window should be hidden"
    );

    let actions = core.exec(Command::ScratchpadShow);
    assert!(
        actions.iter().any(|a| matches!(a, CoreAction::SetFocus { id: Some(id) } if *id == w2)),
        "Expected SetFocus for scratchpad window"
    );
}

#[test]
fn marks_set_and_focus() {
    let mut core = test_core();
    let w1 = map_window(&mut core, "editor", "Editor");
    let w2 = map_window(&mut core, "term", "Terminal");
    assert_eq!(core.focused_window(), Some(w2));

    core.handle_event(CoreEvent::FocusRequested { id: w1 });
    assert_eq!(core.focused_window(), Some(w1));

    core.exec(Command::Mark("a".into()));
    assert_eq!(core.state.mark("a"), Some(w1));

    core.handle_event(CoreEvent::FocusRequested { id: w2 });
    assert_eq!(core.focused_window(), Some(w2));

    let actions = core.exec(Command::GotoMark("a".into()));
    assert_eq!(core.focused_window(), Some(w1));
    assert!(
        actions.iter().any(|a| matches!(a, CoreAction::SetFocus { id: Some(id) } if *id == w1)),
        "Expected SetFocus for marked window"
    );
}

#[test]
fn window_unmap_cleans_state() {
    let mut core = test_core();
    let w1 = map_window(&mut core, "app", "App");
    core.exec(Command::Mark("x".into()));
    assert_eq!(core.state.mark("x"), Some(w1));

    let actions = core.handle_event(CoreEvent::WindowUnmapped { id: w1 });
    assert!(core.state.window(w1).is_none());
    assert!(core.state.mark("x").is_none());
    assert!(
        actions.iter().any(|a| matches!(a, CoreAction::SetFocus { .. })),
        "Expected SetFocus action after unmap"
    );
}

#[test]
fn exit_command_sets_flag_and_emits_action() {
    let mut core = test_core();
    let actions = core.exec(Command::Exit);
    assert!(core.should_exit);
    assert!(actions.iter().any(|a| matches!(a, CoreAction::Exit)), "Expected Exit action");
}

#[test]
fn move_window_to_workspace() {
    let mut core = test_core();
    let w1 = map_window(&mut core, "app", "App");
    let ws1 = workspace_key(&core, 0);
    let ws3 = workspace_key(&core, 2);

    assert_eq!(core.state.window(w1).unwrap().workspace, Some(ws1));
    core.exec(Command::MoveToWorkspace(WorkspaceTarget::Number(3)));
    assert_eq!(core.state.window(w1).unwrap().workspace, Some(ws3));
    assert!(core.state.workspace(ws3).unwrap().contains(w1));
    assert!(!core.state.workspace(ws1).unwrap().contains(w1));
}

#[test]
fn invariants_hold_after_mixed_operations() {
    let mut core = test_core();
    let w1 = map_window(&mut core, "a", "A");
    let w2 = map_window(&mut core, "b", "B");
    let w3 = map_window(&mut core, "c", "C");

    core.exec(Command::Workspace(WorkspaceTarget::Number(2)));
    let _w4 = map_window(&mut core, "d", "D");
    core.exec(Command::MoveToWorkspace(WorkspaceTarget::Number(3)));

    core.exec(Command::Workspace(WorkspaceTarget::Number(1)));
    core.handle_event(CoreEvent::FocusRequested { id: w1 });
    core.exec(Command::Floating(Toggle::Switch));

    core.exec(Command::Mark("m1".into()));
    core.handle_event(CoreEvent::FocusRequested { id: w2 });
    core.exec(Command::Mark("m2".into()));

    core.handle_event(CoreEvent::FocusRequested { id: w3 });
    core.exec(Command::MoveToScratchpad);

    core.handle_event(CoreEvent::WindowUnmapped { id: w2 });

    core.state.validate_invariants().expect("Invariants should hold");
}
