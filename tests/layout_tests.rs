use fluxway_core::config::Config;
use fluxway_core::layout::{Container, Direction, LayoutMode, LayoutNode, LayoutTree, SplitDirection, MIN_RATIO, RATIO_SCALE};
use fluxway_core::state::Geometry;
use fluxway_core::window::WindowId;

#[test]
fn layout_test_container_add_child() {
    let mut container = Container::new_split(1, SplitDirection::Horizontal);
    container.add_child(LayoutNode::Window(WindowId(1)));
    container.add_child(LayoutNode::Window(WindowId(2)));
    assert_eq!(container.children.len(), 2);
    assert_eq!(container.ratios.len(), 2);
    assert!((container.ratios[0] as f64 / RATIO_SCALE as f64 - 0.5).abs() < 0.001);
}

#[test]
fn layout_test_layout_tree_add_window() {
    let mut tree = LayoutTree::new();
    let config = Config::default();
    tree.add_window(WindowId(1), &config);
    tree.add_window(WindowId(2), &config);
    assert!(tree.root.is_some());
    let root = &tree.containers[tree.find_container(tree.root.unwrap()).unwrap()];
    assert_eq!(root.children.len(), 2);
}

fn tree_with(n: u64) -> LayoutTree {
    let mut tree = LayoutTree::new();
    let config = Config::default();
    for i in 1..=n {
        tree.add_window(WindowId(i), &config);
    }
    tree
}

#[test]
fn split_layout_tiles_area_exactly() {
    let mut tree = tree_with(3);
    tree.calculate_layout(Geometry::new(0, 0, 1000, 500), 0);
    let gs: Vec<Geometry> = (1..=3).map(|i| tree.window_geometry(WindowId(i)).unwrap()).collect();
    // Gap 4 between children; first at 0, last ends at 1000.
    assert_eq!(gs[0].x, 0);
    assert_eq!(gs[1].x, gs[0].x + gs[0].width as i32 + 4);
    assert_eq!(gs[2].x, gs[1].x + gs[1].width as i32 + 4);
    assert_eq!(gs[2].x + gs[2].width as i32, 1000);
    assert_eq!(gs[0].width, 330);
    for g in &gs {
        assert_eq!(g.y, 0);
        assert_eq!(g.height, 500);
    }
    let sum: u64 = tree.containers[0].ratios.iter().map(|r| *r as u64).sum();
    assert_eq!(sum, RATIO_SCALE as u64);
}

#[test]
fn layout_twice_gives_same_geometry() {
    let mut tree = tree_with(4);
    let area = Geometry::new(10, 20, 1920, 1080);
    tree.calculate_layout(area, 8);
    let first = tree.window_geometries.clone();
    tree.calculate_layout(area, 8);
    assert_eq!(first, tree.window_geometries);
}

#[test]
fn outer_gap_shrinks_area() {
    let mut tree = tree_with(1);
    tree.calculate_layout(Geometry::new(0, 0, 100, 100), 10);
    assert_eq!(tree.window_geometry(WindowId(1)), Some(Geometry::new(10, 10, 80, 80)));
}

#[test]
fn resize_clamps_at_floor_on_both_sides() {
    let mut c = Container::new_split(1, SplitDirection::Horizontal);
    c.add_child(LayoutNode::Window(WindowId(1)));
    c.add_child(LayoutNode::Window(WindowId(2)));
    c.resize_child(0, 10_000_000);
    assert_eq!(c.ratios[1], MIN_RATIO);
    assert_eq!(c.ratios[0], RATIO_SCALE - MIN_RATIO);
    c.resize_child(0, -10_000_000);
    assert_eq!(c.ratios[0], MIN_RATIO);
    assert_eq!(c.ratios[1], RATIO_SCALE - MIN_RATIO);
    c.resize_child(0, 100_000);
    assert_eq!(c.ratios[0], MIN_RATIO + 100_000);
    c.resize_child(1, 5);
    assert_eq!(c.ratios[0] + c.ratios[1], RATIO_SCALE);
}

#[test]
fn remove_window_prunes_empty_root() {
    let mut tree = tree_with(2);
    tree.remove_window(WindowId(1));
    assert_eq!(tree.containers[0].children.len(), 1);
    tree.remove_window(WindowId(2));
    assert!(tree.root.is_none());
    assert!(tree.containers.is_empty());
}

#[test]
fn tabbed_lays_out_only_focused_child() {
    let mut tree = tree_with(2);
    tree.containers[0].layout = LayoutMode::Tabbed;
    tree.calculate_layout(Geometry::new(0, 0, 800, 600), 0);
    assert_eq!(tree.window_geometries.len(), 1);
    assert_eq!(tree.window_geometry(WindowId(2)), Some(Geometry::new(0, 24, 800, 576)));
    tree.containers[0].layout = LayoutMode::Stacked;
    tree.calculate_layout(Geometry::new(0, 0, 800, 600), 0);
    assert_eq!(tree.window_geometry(WindowId(2)), Some(Geometry::new(0, 48, 800, 552)));
}

#[test]
fn focus_direction_wraps() {
    let mut tree = tree_with(3);
    assert_eq!(tree.focus_direction(Direction::Right), Some(WindowId(1)));
    assert_eq!(tree.focus_direction(Direction::Left), Some(WindowId(3)));
    assert_eq!(Direction::Left.opposite(), Direction::Right);
    assert!(Direction::Up.is_vertical());
    assert!(!Direction::Up.is_horizontal());
    tree.toggle_split();
    assert_eq!(tree.containers[0].split_direction, SplitDirection::Vertical);
    assert_eq!(SplitDirection::Vertical.toggle(), SplitDirection::Horizontal);
}
