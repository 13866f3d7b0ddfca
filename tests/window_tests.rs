use fluxway_core::state::Geometry;
use fluxway_core::window::{BorderStyle, SizeHints, Window, WindowCriteria, WindowId, WindowState, WindowType};

#[test]
fn window_test_window_state_flags() {
    let mut window = Window::new(WindowId(1), "test".into(), "Test Window".into());
    assert!(!window.is_focused());
    window.state.insert(WindowState::FOCUSED);
    assert!(window.is_focused());
    window.state.insert(WindowState::FLOATING);
    assert!(!window.is_tiled());
}

#[test]
fn window_test_size_hints() {
    let hints = SizeHints {
        min_width: Some(100),
        min_height: Some(100),
        max_width: Some(500),
        max_height: Some(500),
        ..SizeHints::none()
    };
    assert_eq!(hints.constrain(50, 50), (100, 100));
    assert_eq!(hints.constrain(1000, 1000), (500, 500));
    assert_eq!(hints.constrain(200, 300), (200, 300));
}

#[test]
fn window_test_window_criteria() {
    let window = Window::new(WindowId(1), "firefox".into(), "Mozilla Firefox".into());
    let criteria = WindowCriteria::new().app_id("firefox");
    assert!(criteria.matches(&window));
    let criteria = WindowCriteria::new().app_id("chrome");
    assert!(!criteria.matches(&window));
}

#[test]
fn size_hints_snap_to_increments() {
    let hints = SizeHints { base_width: Some(10), width_increment: Some(7), base_height: Some(5), height_increment: Some(0), ..SizeHints::none() };
    assert_eq!(hints.constrain(30, 42), (24, 42));
    assert_eq!(hints.constrain(4, 3), (10, 3));
}

#[test]
fn criteria_title_substring_and_flags() {
    let mut window = Window::new(WindowId(2), "kitty".into(), "vim main.rs".into());
    assert!(WindowCriteria::new().title("main").matches(&window));
    assert!(!WindowCriteria::new().title("emacs").matches(&window));
    let mut c = WindowCriteria::new();
    c.floating = Some(true);
    assert!(!c.matches(&window));
    window.toggle_floating();
    assert!(c.matches(&window));
    window.marks.push("m".into());
    let mut c = WindowCriteria::new();
    c.con_mark = Some("m".into());
    assert!(c.matches(&window));
    c.window_type = Some(WindowType::Dialog);
    assert!(!c.matches(&window));
}

#[test]
fn should_float_by_type_parent_or_modal() {
    let mut w = Window::new(WindowId(3), "a".into(), "b".into());
    assert!(!w.should_float());
    w.window_type = WindowType::Dialog;
    assert!(w.should_float());
    w.window_type = WindowType::Normal;
    w.parent = Some(WindowId(1));
    assert!(w.should_float());
    w.parent = None;
    w.state.insert(WindowState::MODAL);
    assert!(w.should_float());
}

#[test]
fn fullscreen_saves_and_restores_geometry() {
    let mut w = Window::new(WindowId(4), "a".into(), "b".into());
    w.geometry = Geometry::new(10, 20, 300, 200);
    w.set_fullscreen(true, Geometry::new(0, 0, 1920, 1080));
    assert_eq!(w.geometry, Geometry::new(0, 0, 1920, 1080));
    assert_eq!(w.border_width(), 0);
    w.set_fullscreen(false, Geometry::new(0, 0, 1920, 1080));
    assert_eq!(w.geometry, Geometry::new(10, 20, 300, 200));
    assert_eq!(w.border_width(), 2);
    w.border = BorderStyle::NoBorder;
    assert_eq!(w.border_width(), 0);
}

#[test]
fn geometry_contains_and_intersects() {
    let g = Geometry::new(0, 0, 100, 50);
    assert!(g.contains(0, 0));
    assert!(g.contains(99, 49));
    assert!(!g.contains(100, 10));
    assert!(g.intersects(Geometry::new(99, 49, 10, 10)));
    assert!(!g.intersects(Geometry::new(100, 0, 10, 10)));
}
