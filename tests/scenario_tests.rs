use fluxway_core::config::Config;
use fluxway_core::event::{CoreAction, CoreEvent};
use fluxway_core::input::{Command, Modifiers, Toggle, WorkspaceTarget};
use fluxway_core::invariants::InvariantError;
use fluxway_core::state::Geometry;
use fluxway_core::window::WindowState;
use fluxway_core::workspace::WorkspaceId;
use fluxway_core::{Core, WindowId};

fn core_with_output() -> Core {
    let mut core = Core::new(Config::default());
    core.handle_event(CoreEvent::OutputAdded { id: 1, name: "out".into(), geometry: Geometry::new(0, 0, 1920, 1080) });
    core
}

fn map(core: &mut Core) -> WindowId {
    let id = core.next_window_id();
    core.handle_event(CoreEvent::WindowMapped {
        id,
        app_id: None,
        title: None,
        pid: None,
        initial_geometry: Some(Geometry::new(0, 0, 400, 300)),
        is_xwayland: false,
    });
    id
}

#[test]
fn switching_workspace_reports_change() {
    let mut core = core_with_output();
    let _w1 = map(&mut core);
    let actions = core.exec(Command::Workspace(WorkspaceTarget::Number(2)));
    assert_eq!(actions[0], CoreAction::WorkspaceChanged { active: Some(WorkspaceId(2)) });
    assert_ne!(core.focused_workspace(), Some(WorkspaceId(1)));
}

#[test]
fn three_windows_then_tick() {
    let mut core = core_with_output();
    let _ = map(&mut core);
    let _ = map(&mut core);
    let w3 = map(&mut core);
    assert_eq!(core.focused_window(), Some(w3));
    let actions = core.tick();
    let n = actions.iter().filter(|a| matches!(a, CoreAction::SetWindowGeometry { .. })).count();
    assert!(n >= 3);
    assert!(core.tick().is_empty());
}

#[test]
fn floating_twice_restores() {
    let mut core = core_with_output();
    let w1 = map(&mut core);
    let a = core.exec(Command::Floating(Toggle::Switch));
    assert!(a.contains(&CoreAction::SetFloating { id: w1, floating: true }));
    let a = core.exec(Command::Floating(Toggle::Switch));
    assert!(a.contains(&CoreAction::SetFloating { id: w1, floating: false }));
    assert_eq!(core.focused_window(), Some(w1));
    assert!(core.state.window(w1).unwrap().is_tiled());
    assert!(core.exec(Command::Floating(Toggle::Disable)).is_empty());
}

#[test]
fn goto_mark_focuses_marked_window() {
    let mut core = core_with_output();
    let w1 = map(&mut core);
    core.exec(Command::Mark("a".into()));
    let w2 = map(&mut core);
    core.handle_event(CoreEvent::FocusRequested { id: w2 });
    let actions = core.exec(Command::GotoMark("a".into()));
    assert_eq!(core.focused_window(), Some(w1));
    assert_eq!(actions.iter().filter(|a| **a == CoreAction::SetFocus { id: Some(w1) }).count(), 1);
}

#[test]
fn unmapping_marked_window_drops_mark_and_restores_focus() {
    let mut core = core_with_output();
    let w1 = map(&mut core);
    let w2 = map(&mut core);
    core.exec(Command::Mark("b".into()));
    let actions = core.handle_event(CoreEvent::WindowUnmapped { id: w2 });
    assert!(core.state.mark("b").is_none());
    assert_eq!(actions[0], CoreAction::SetFocus { id: Some(w1) });
    assert_eq!(core.focused_window(), Some(w1));
    let actions = core.handle_event(CoreEvent::WindowUnmapped { id: w1 });
    assert_eq!(actions[0], CoreAction::SetFocus { id: None });
}

#[test]
fn commands_without_focus_do_nothing() {
    let mut core = core_with_output();
    assert!(core.exec(Command::Kill).is_empty());
    assert!(core.exec(Command::Floating(Toggle::Switch)).is_empty());
    assert!(core.exec(Command::Workspace(WorkspaceTarget::BackAndForth)).is_empty());
    assert!(core.exec(Command::Workspace(WorkspaceTarget::Number(11))).is_empty());
    assert_eq!(core.exec(Command::Exec("foot".into())), vec![CoreAction::SpawnProcess { command: "foot".into() }]);
    assert_eq!(core.exec(Command::Reload), vec![CoreAction::ReloadConfig]);
}

#[test]
fn workspace_next_and_prev_wrap() {
    let mut core = core_with_output();
    core.exec(Command::Workspace(WorkspaceTarget::Number(10)));
    assert_eq!(core.focused_workspace(), Some(WorkspaceId(10)));
    core.exec(Command::Workspace(WorkspaceTarget::Next));
    assert_eq!(core.focused_workspace(), Some(WorkspaceId(1)));
    core.exec(Command::Workspace(WorkspaceTarget::Prev));
    assert_eq!(core.focused_workspace(), Some(WorkspaceId(10)));
    core.exec(Command::Workspace(WorkspaceTarget::Name("3".into())));
    assert_eq!(core.focused_workspace(), Some(WorkspaceId(3)));
}

#[test]
fn grab_move_and_resize_follow_pointer() {
    let mut core = core_with_output();
    let w = map(&mut core);
    core.exec(Command::Floating(Toggle::Enable));
    core.handle_event(CoreEvent::WindowCommit { id: w, new_geometry_hint: Some(Geometry::new(100, 100, 300, 300)) });
    let mut mods = Modifiers::empty();
    mods.insert(Modifiers::SUPER);
    core.input_manager.set_modifiers(mods);
    core.handle_event(CoreEvent::PointerMotion { x: 150, y: 150 });
    core.handle_event(CoreEvent::PointerButton { button: 272, pressed: true });
    let a = core.handle_event(CoreEvent::PointerMotion { x: 170, y: 140 });
    assert_eq!(a, vec![CoreAction::SetWindowGeometry { id: w, x: 120, y: 90, w: 300, h: 300 }]);
    core.handle_event(CoreEvent::PointerButton { button: 272, pressed: false });
    assert!(core.state.grabbed_window.is_none());
    // Right button near the bottom-right corner resizes.
    core.handle_event(CoreEvent::PointerMotion { x: 400, y: 370 });
    core.handle_event(CoreEvent::PointerButton { button: 273, pressed: true });
    let a = core.handle_event(CoreEvent::PointerMotion { x: 100, y: 380 });
    assert_eq!(a, vec![CoreAction::SetWindowGeometry { id: w, x: 120, y: 90, w: 100, h: 310 }]);
    core.handle_event(CoreEvent::PointerButton { button: 273, pressed: false });
    // A right press in the centre third starts no grab.
    core.handle_event(CoreEvent::PointerMotion { x: 170, y: 240 });
    core.handle_event(CoreEvent::PointerButton { button: 273, pressed: true });
    assert!(core.state.grabbed_window.is_none());
}

#[test]
fn validator_reports_scratchpad_conflict_and_dangling_mark() {
    let mut core = core_with_output();
    let w = map(&mut core);
    core.exec(Command::MoveToScratchpad);
    assert!(core.state.validate_invariants().is_ok());
    core.exec(Command::ScratchpadShow);
    assert!(matches!(
        core.state.validate_invariants(),
        Err(InvariantError::WindowInBothWorkspaceAndScratchpad(x)) if x == w
    ));
    let mut core = core_with_output();
    core.state.set_mark("ghost".into(), WindowId(77));
    assert!(matches!(core.state.validate_invariants(), Err(InvariantError::MarkPointsToMissing(m)) if m == "ghost"));
    let mut core = core_with_output();
    core.state.focus.focused_window = Some(WindowId(9));
    assert!(matches!(core.state.validate_invariants(), Err(InvariantError::FocusedWindowMissing(x)) if x == WindowId(9)));
    let mut core = core_with_output();
    core.state.focus.focused_workspace = Some(WorkspaceId(99));
    assert!(matches!(core.state.validate_invariants(), Err(InvariantError::FocusedWorkspaceOutOfRange)));
}

#[test]
fn sticky_and_fullscreen_on_focused_window() {
    let mut core = core_with_output();
    let w = map(&mut core);
    core.exec(Command::Sticky(Toggle::Enable));
    assert!(core.state.window(w).unwrap().state.contains(WindowState::STICKY));
    let a = core.exec(Command::Fullscreen(Toggle::Switch));
    assert_eq!(a, vec![CoreAction::SetWindowGeometry { id: w, x: 0, y: 0, w: 1920, h: 1080 }]);
    core.exec(Command::Unmark(None));
    assert!(core.state.marks.is_empty());
}

#[test]
fn fullscreen_uses_first_output_until_it_is_removed() {
    let mut core = Core::new(Config::default());
    core.handle_event(CoreEvent::OutputAdded { id: 7, name: "small".into(), geometry: Geometry::new(0, 0, 1280, 720) });
    let w = map(&mut core);
    let a = core.exec(Command::Fullscreen(Toggle::Enable));
    assert_eq!(a, vec![CoreAction::SetWindowGeometry { id: w, x: 0, y: 0, w: 1280, h: 720 }]);
    core.exec(Command::Fullscreen(Toggle::Disable));
    assert!(core.handle_event(CoreEvent::OutputRemoved { id: 7 }).is_empty());
    let a = core.exec(Command::Fullscreen(Toggle::Enable));
    assert_eq!(a, vec![CoreAction::SetWindowGeometry { id: w, x: 0, y: 0, w: 1920, h: 1080 }]);
}

#[test]
fn workspace_geometry_follows_first_output() {
    let core = core_with_output();
    let ws = core.state.workspace(WorkspaceId(4)).unwrap();
    assert_eq!(ws.work_area, Geometry::new(0, 0, 1920, 1080));
    assert_eq!(core.state.workspaces.len(), 10);
}

#[test]
fn scratchpad_window_stays_hidden_through_tick() {
    let mut core = core_with_output();
    let _w1 = map(&mut core);
    let w2 = map(&mut core);
    core.exec(Command::MoveToScratchpad);
    core.exec(Command::Kill);
    core.tick();
    assert!(core.state.window(w2).unwrap().state.contains(WindowState::HIDDEN));
    assert!(core.state.validate_invariants().is_ok());
    // Switching away and back keeps it hidden too.
    core.exec(Command::Workspace(WorkspaceTarget::Number(2)));
    core.exec(Command::Workspace(WorkspaceTarget::Number(1)));
    core.tick();
    assert!(core.state.window(w2).unwrap().state.contains(WindowState::HIDDEN));
    assert!(core.state.validate_invariants().is_ok());
    // Showing it from the scratchpad makes it visible.
    core.exec(Command::ScratchpadShow);
    assert!(!core.state.window(w2).unwrap().state.contains(WindowState::HIDDEN));
    // Showing again takes it back.
    let a = core.exec(Command::ScratchpadShow);
    assert!(a.is_empty());
    assert!(core.state.window(w2).unwrap().state.contains(WindowState::HIDDEN));
}

#[test]
fn goto_mark_on_other_workspace_reports_switch() {
    let mut core = core_with_output();
    let w1 = map(&mut core);
    core.exec(Command::Mark("m".into()));
    core.exec(Command::Workspace(WorkspaceTarget::Number(3)));
    let actions = core.exec(Command::GotoMark("m".into()));
    assert_eq!(
        actions,
        vec![CoreAction::WorkspaceChanged { active: Some(WorkspaceId(1)) }, CoreAction::SetFocus { id: Some(w1) }]
    );
}

#[test]
fn pointer_focus_follows_mouse() {
    let mut core = core_with_output();
    let w1 = map(&mut core);
    let w2 = map(&mut core);
    core.handle_event(CoreEvent::FocusRequested { id: w1 });
    // Both windows keep their mapped geometry; the later one is on top.
    let a = core.handle_event(CoreEvent::PointerMotion { x: 5, y: 5 });
    assert_eq!(a, vec![CoreAction::SetFocus { id: Some(w2) }]);
    assert!(core.handle_event(CoreEvent::PointerMotion { x: 6, y: 6 }).is_empty());
    assert!(core.handle_event(CoreEvent::PointerMotion { x: 900, y: 900 }).is_empty());
    assert_eq!(core.state.pointer_position, (900, 900));
}
