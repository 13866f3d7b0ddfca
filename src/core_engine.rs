//! The engine: turns backend events and commands into state changes and
//! an ordered list of actions for the backend.
use vstd::prelude::*;

use crate::config::{Config, FocusFollowsMouse};
use crate::event::{CoreAction, CoreEvent};
use crate::input::{command_text_post, superseded, Command, InputManager, KeyBinding, Modifiers, Toggle, WorkspaceTarget};
use crate::layout::{laid_out, lookup_geometry};
use crate::state::{GrabOperation, GrabbedWindow, Geometry, Output, ResizeEdges, State};
use crate::tables::{key_index, output_entries, output_table_first, output_table_insert, output_table_remove, workspace_table_at, workspace_table_len};
use crate::text::str_eq;
use crate::window::{index_of, Window, WindowId, WindowState};
use crate::workspace::WorkspaceId;

verus! {

/// Linux input-event code of the left button.
pub const BUTTON_LEFT: u32 = 272;
/// Linux input-event code of the right button.
pub const BUTTON_RIGHT: u32 = 273;
/// Linux input-event code of the middle button.
pub const BUTTON_MIDDLE: u32 = 274;
/// The smallest width or height an interactive resize leaves.
pub const MIN_GRAB_SIZE: i64 = 100;

/// The engine. Backends drive it through `handle_event`, `exec` and `tick`
/// and apply the returned actions in order.
pub struct Core {
    pub state: State,
    pub input_manager: InputManager,
    /// Windows currently shown from the scratchpad.
    pub scratchpad_visible: Vec<WindowId>,
    /// The next window id to hand out.
    pub next_wid: u64,
    pub should_exit: bool,
}

/// A geometry action for each tiled window that has a layout rectangle.
pub open spec fn geometry_actions(tiled: Seq<WindowId>, entries: Seq<(WindowId, Geometry)>) -> Seq<CoreAction>
    decreases tiled.len(),
{
    if tiled.len() == 0 {
        Seq::empty()
    } else {
        let prev = geometry_actions(tiled.drop_last(), entries);
        match lookup_geometry(entries, tiled.last()) {
            Some(g) => prev.push(CoreAction::SetWindowGeometry { id: tiled.last(), x: g.x, y: g.y, w: g.width, h: g.height }),
            None => prev,
        }
    }
}

/// The value clamped into the range of `i32`.
pub open spec fn clamp_i32(v: int) -> i32 {
    (if v < i32::MIN { i32::MIN as int } else if v > i32::MAX { i32::MAX as int } else { v }) as i32
}

/// The value clamped into the range of `u32`.
pub open spec fn clamp_u32(v: int) -> u32 {
    (if v < 0 { 0 } else if v > u32::MAX { u32::MAX as int } else { v }) as u32
}

fn clamp_to_i32(v: i64) -> (r: i32)
    ensures
        r == clamp_i32(v as int),
{
    if v < i32::MIN as i64 {
        i32::MIN
    } else if v > i32::MAX as i64 {
        i32::MAX
    } else {
        v as i32
    }
}

fn clamp_to_u32(v: i64) -> (r: u32)
    ensures
        r == clamp_u32(v as int),
{
    if v < 0 {
        0
    } else if v > u32::MAX as i64 {
        u32::MAX
    } else {
        v as u32
    }
}

/// The geometry of a grabbed window after the pointer moved by `(dx, dy)`
/// from where the grab started: computed from the initial geometry alone.
pub open spec fn grab_geometry(g: GrabbedWindow, dx: int, dy: int) -> Geometry {
    let init = g.initial_geometry;
    match g.operation {
        GrabOperation::Move => Geometry { x: clamp_i32(init.x + dx), y: clamp_i32(init.y + dy), ..init },
        GrabOperation::Resize => {
            let w1: int = if g.edges.has(ResizeEdges::RIGHT) {
                if init.width + dx >= MIN_GRAB_SIZE { init.width + dx } else { MIN_GRAB_SIZE as int }
            } else {
                init.width as int
            };
            let h1: int = if g.edges.has(ResizeEdges::BOTTOM) {
                if init.height + dy >= MIN_GRAB_SIZE { init.height + dy } else { MIN_GRAB_SIZE as int }
            } else {
                init.height as int
            };
            let (x2, w2): (int, int) = if g.edges.has(ResizeEdges::LEFT) {
                let nw: int = if init.width - dx >= MIN_GRAB_SIZE { init.width - dx } else { MIN_GRAB_SIZE as int };
                (init.x + (init.width - nw), nw)
            } else {
                (init.x as int, w1)
            };
            let (y2, h2): (int, int) = if g.edges.has(ResizeEdges::TOP) {
                let nh: int = if init.height - dy >= MIN_GRAB_SIZE { init.height - dy } else { MIN_GRAB_SIZE as int };
                (init.y + (init.height - nh), nh)
            } else {
                (init.y as int, h1)
            };
            Geometry { x: clamp_i32(x2), y: clamp_i32(y2), width: clamp_u32(w2), height: clamp_u32(h2) }
        },
    }
}

fn compute_grab_geometry(g: GrabbedWindow, dx: i64, dy: i64) -> (r: Geometry)
    requires
        -0x1_0000_0000 <= dx <= 0x1_0000_0000,
        -0x1_0000_0000 <= dy <= 0x1_0000_0000,
    ensures
        r == grab_geometry(g, dx as int, dy as int),
{
    let init = g.initial_geometry;
    match g.operation {
        GrabOperation::Move => Geometry {
            x: clamp_to_i32(init.x as i64 + dx),
            y: clamp_to_i32(init.y as i64 + dy),
            width: init.width,
            height: init.height,
        },
        GrabOperation::Resize => {
            let iw = init.width as i64;
            let ih = init.height as i64;
            let w1: i64 = if g.edges.contains(ResizeEdges::RIGHT) {
                if iw + dx >= MIN_GRAB_SIZE { iw + dx } else { MIN_GRAB_SIZE }
            } else {
                iw
            };
            let h1: i64 = if g.edges.contains(ResizeEdges::BOTTOM) {
                if ih + dy >= MIN_GRAB_SIZE { ih + dy } else { MIN_GRAB_SIZE }
            } else {
                ih
            };
            let (x2, w2): (i64, i64) = if g.edges.contains(ResizeEdges::LEFT) {
                let nw: i64 = if iw - dx >= MIN_GRAB_SIZE { iw - dx } else { MIN_GRAB_SIZE };
                (init.x as i64 + (iw - nw), nw)
            } else {
                (init.x as i64, w1)
            };
            let (y2, h2): (i64, i64) = if g.edges.contains(ResizeEdges::TOP) {
                let nh: i64 = if ih - dy >= MIN_GRAB_SIZE { ih - dy } else { MIN_GRAB_SIZE };
                (init.y as i64 + (ih - nh), nh)
            } else {
                (init.y as i64, h1)
            };
            Geometry { x: clamp_to_i32(x2), y: clamp_to_i32(y2), width: clamp_to_u32(w2), height: clamp_to_u32(h2) }
        },
    }
}

/// A press with the super modifier over a window starts a grab from the
/// pointer position: the left button moves, the right and middle buttons
/// resize from the edge under the pointer; other buttons do nothing.
pub open spec fn grab_post(c0: &Core, c1: &Core, button: u32, pressed: bool, r: Seq<CoreAction>) -> bool {
    let (px, py) = c0.state.pointer_position;
    match c0.state.spec_window_at(px as int, py as int) {
        Some(w) => (pressed && c0.input_manager.modifiers.has(Modifiers::SUPER) && c0.state.has_window(w)) ==> {
            let geo = c0.state.win(w).geometry;
            if button == BUTTON_LEFT {
                c1.state.grabbed_window == Some(GrabbedWindow {
                    window_id: w,
                    initial_geometry: geo,
                    initial_pointer: (px, py),
                    operation: GrabOperation::Move,
                    edges: ResizeEdges { bits: 0 },
                }) && r.len() == 0
            } else if button == BUTTON_RIGHT || button == BUTTON_MIDDLE {
                match spec_edge_from_point(px as int, py as int, geo) {
                    Some(edge) => c1.state.grabbed_window == Some(GrabbedWindow {
                        window_id: w,
                        initial_geometry: geo,
                        initial_pointer: (px, py),
                        operation: GrabOperation::Resize,
                        edges: ResizeEdges { bits: spec_edge_bits(edge) },
                    }) && r.len() == 0,
                    None => c1.state.grabbed_window == c0.state.grabbed_window && r.len() == 0
                        && c1.state == c0.state,
                }
            } else {
                r.len() == 0 && c1.state == c0.state
            }
        },
        None => true,
    }
}

/// Resize edge for interactive resizing.
#[derive(Debug, Clone, Copy, PartialEq, Eq, Structural)]
pub enum ResizeEdge {
    Top,
    Bottom,
    Left,
    Right,
    TopLeft,
    TopRight,
    BottomLeft,
    BottomRight,
}

/// The edge a click at `(px, py)` grabs: the window is cut in thirds each
/// way; outer thirds are edges and corners, the centre grabs nothing.
pub open spec fn spec_edge_from_point(px: int, py: int, g: Geometry) -> Option<ResizeEdge> {
    let x = px - g.x;
    let y = py - g.y;
    let left = 3 * x < g.width;
    let right = 3 * x > 2 * g.width;
    let top = 3 * y < g.height;
    let bottom = 3 * y > 2 * g.height;
    if left && top {
        Some(ResizeEdge::TopLeft)
    } else if right && top {
        Some(ResizeEdge::TopRight)
    } else if left && bottom {
        Some(ResizeEdge::BottomLeft)
    } else if right && bottom {
        Some(ResizeEdge::BottomRight)
    } else if left {
        Some(ResizeEdge::Left)
    } else if right {
        Some(ResizeEdge::Right)
    } else if top {
        Some(ResizeEdge::Top)
    } else if bottom {
        Some(ResizeEdge::Bottom)
    } else {
        None
    }
}

pub open spec fn spec_edge_bits(e: ResizeEdge) -> u8 {
    match e {
        ResizeEdge::Top => ResizeEdges::TOP,
        ResizeEdge::Bottom => ResizeEdges::BOTTOM,
        ResizeEdge::Left => ResizeEdges::LEFT,
        ResizeEdge::Right => ResizeEdges::RIGHT,
        ResizeEdge::TopLeft => 0x5,
        ResizeEdge::TopRight => 0x9,
        ResizeEdge::BottomLeft => 0x6,
        ResizeEdge::BottomRight => 0xa,
    }
}

impl ResizeEdge {
    /// The edge grabbed by a click at `(px, py)` on a window of geometry `geo`;
    /// none in the centre third.
    pub fn from_point(px: i32, py: i32, geo: &Geometry) -> (r: Option<Self>)
        ensures
            r == spec_edge_from_point(px as int, py as int, *geo),
    {
        let x = px as i64 - geo.x as i64;
        let y = py as i64 - geo.y as i64;
        let w = geo.width as i64;
        let h = geo.height as i64;
        let left = 3 * x < w;
        let right = 3 * x > 2 * w;
        let top = 3 * y < h;
        let bottom = 3 * y > 2 * h;
        if left && top {
            Some(ResizeEdge::TopLeft)
        } else if right && top {
            Some(ResizeEdge::TopRight)
        } else if left && bottom {
            Some(ResizeEdge::BottomLeft)
        } else if right && bottom {
            Some(ResizeEdge::BottomRight)
        } else if left {
            Some(ResizeEdge::Left)
        } else if right {
            Some(ResizeEdge::Right)
        } else if top {
            Some(ResizeEdge::Top)
        } else if bottom {
            Some(ResizeEdge::Bottom)
        } else {
            None
        }
    }

    /// The edge set: one bit per side, two for a corner.
    pub fn to_edges(self) -> (r: ResizeEdges)
        ensures
            r.bits == spec_edge_bits(self),
    {
        proof {
            assert(1u8 | 4u8 == 5u8) by (bit_vector);
            assert(1u8 | 8u8 == 9u8) by (bit_vector);
            assert(2u8 | 4u8 == 6u8) by (bit_vector);
            assert(2u8 | 8u8 == 10u8) by (bit_vector);
        }
        match self {
            ResizeEdge::Top => ResizeEdges::from_bits(ResizeEdges::TOP),
            ResizeEdge::Bottom => ResizeEdges::from_bits(ResizeEdges::BOTTOM),
            ResizeEdge::Left => ResizeEdges::from_bits(ResizeEdges::LEFT),
            ResizeEdge::Right => ResizeEdges::from_bits(ResizeEdges::RIGHT),
            ResizeEdge::TopLeft => ResizeEdges::from_bits(ResizeEdges::TOP | ResizeEdges::LEFT),
            ResizeEdge::TopRight => ResizeEdges::from_bits(ResizeEdges::TOP | ResizeEdges::RIGHT),
            ResizeEdge::BottomLeft => ResizeEdges::from_bits(ResizeEdges::BOTTOM | ResizeEdges::LEFT),
            ResizeEdge::BottomRight => ResizeEdges::from_bits(ResizeEdges::BOTTOM | ResizeEdges::RIGHT),
        }
    }
}

/// Index of the first workspace entry, from `i` on, with this name.
pub open spec fn first_named(es: Seq<(u32, crate::workspace::Workspace)>, name: Seq<char>, i: int) -> Option<int>
    decreases es.len() - i,
{
    if i < 0 || i >= es.len() {
        None
    } else if es[i].1.name@ == name {
        Some(i)
    } else {
        first_named(es, name, i + 1)
    }
}

impl State {
    /// The workspace a target names: next and previous walk the workspace
    /// order with wrap-around, a number is a 1-based position, a name is
    /// looked up, and back-and-forth names none.
    pub open spec fn spec_resolve(&self, target: WorkspaceTarget) -> Option<WorkspaceId> {
        let es = self.ws_entries();
        let n = es.len() as int;
        let cur: int = match self.focus.focused_workspace {
            Some(c) => match self.ws_index(c) {
                Some(i) => i,
                None => 0,
            },
            None => 0,
        };
        match target {
            WorkspaceTarget::Next | WorkspaceTarget::NextOnOutput => if n == 0 {
                None
            } else if self.focus.focused_workspace is Some {
                Some(WorkspaceId(es[(cur + 1) % n].0))
            } else {
                Some(WorkspaceId(es[0].0))
            },
            WorkspaceTarget::Prev | WorkspaceTarget::PrevOnOutput => if n == 0 {
                None
            } else if self.focus.focused_workspace is Some {
                Some(WorkspaceId(es[if cur == 0 { n - 1 } else { cur - 1 }].0))
            } else {
                Some(WorkspaceId(es[n - 1].0))
            },
            WorkspaceTarget::Number(num) => {
                let k: int = if num == 0 { 0 } else { num - 1 };
                if k < n { Some(WorkspaceId(es[k].0)) } else { None }
            },
            WorkspaceTarget::Name(name) => match first_named(es, name@, 0) {
                Some(i) => Some(WorkspaceId(es[i].0)),
                None => None,
            },
            WorkspaceTarget::BackAndForth => None,
        }
    }
}

/// What a floating command does: the focused window's floating flag is
/// set, cleared or flipped, a `SetFloating` action reports a change, and the
/// focus stays where it was.
pub open spec fn floating_post(c0: &Core, c1: &Core, t: Toggle, r: Seq<CoreAction>) -> bool {
    &&& c1.state.focus == c0.state.focus
    &&& match c0.state.focus.focused_window {
        Some(w) if c0.state.has_window(w) => {
            let was = c0.state.win(w).state.has(WindowState::FLOATING);
            let now = match t {
                Toggle::Enable => true,
                Toggle::Disable => false,
                Toggle::Switch => !was,
            };
            &&& c1.state.has_window(w)
            &&& c1.state.win(w).state.has(WindowState::FLOATING) == now
            &&& c1.state.win(w).workspace == c0.state.win(w).workspace
            &&& was != now ==> r.len() >= 1 && r[0] == (CoreAction::SetFloating { id: w, floating: now })
            &&& was == now ==> r.len() == 0
            &&& c1.state.ws_entries().len() == c0.state.ws_entries().len()
            &&& forall|j: int| 0 <= j < c0.state.ws_entries().len()
                ==> (#[trigger] c1.state.ws_entries()[j]).0 == c0.state.ws_entries()[j].0
            &&& match c0.state.win(w).workspace {
                Some(ws) => match c0.state.ws_index(ws) {
                    Some(k) => {
                        let t0 = c0.state.ws_entries()[k].1.tiled_windows@;
                        let f0 = c0.state.ws_entries()[k].1.floating_windows@;
                        let t1 = c1.state.ws_entries()[k].1.tiled_windows@;
                        let f1 = c1.state.ws_entries()[k].1.floating_windows@;
                        if was == now {
                            t1 == t0 && f1 == f0
                        } else if now {
                            list_move(t0, f0, t1, f1, w)
                        } else {
                            list_move(f0, t0, f1, t1, w)
                        }
                    },
                    None => true,
                },
                None => true,
            }
        },
        _ => r.len() == 0 && c1.state == c0.state,
    }
}

/// `w` moves from list `a` (its first occurrence) to the end of list `b`;
/// both stay when `a` does not hold it.
pub open spec fn list_move(a: Seq<WindowId>, b: Seq<WindowId>, a1: Seq<WindowId>, b1: Seq<WindowId>, w: WindowId) -> bool {
    match crate::workspace::index_spec(a, w) {
        Some(p) => a1 == a.remove(p) && b1 == b.push(w),
        None => a1 == a && b1 == b,
    }
}

/// `w` occurs at most once in the list.
pub open spec fn at_most_once(s: Seq<WindowId>, w: WindowId) -> bool {
    forall|i: int, j: int| 0 <= i < s.len() && 0 <= j < s.len() && s[i] == w && s[j] == w ==> i == j
}

proof fn lemma_move_there_and_back(a: Seq<WindowId>, b: Seq<WindowId>, a1: Seq<WindowId>, b1: Seq<WindowId>,
    a2: Seq<WindowId>, b2: Seq<WindowId>, w: WindowId)
    requires
        a.contains(w),
        !b.contains(w),
        at_most_once(a, w),
        list_move(a, b, a1, b1, w),
        list_move(b1, a1, b2, a2, w),
    ensures
        a2.contains(w),
        !b2.contains(w),
{
    let p = crate::workspace::index_spec(a, w)->0;
    assert(a[p] == w);
    assert(!a1.contains(w)) by {
        if a1.contains(w) {
            let j = choose|j: int| 0 <= j < a1.len() && a1[j] == w;
            let j0 = if j < p { j } else { j + 1 };
            assert(a[j0] == w);
        }
    }
    assert(b1[b1.len() - 1] == w);
    assert(b1.contains(w));
    let q = crate::workspace::index_spec(b1, w)->0;
    assert(q == b.len()) by {
        if q < b.len() {
            assert(b[q] == w);
        }
    }
    assert(b2 =~= b);
    assert(a2[a2.len() - 1] == w);
}

/// Toggling floating twice on the focused window restores its floating
/// state and leaves the focus on the same window.
pub proof fn lemma_floating_round_trip(c0: &Core, c1: &Core, c2: &Core, r1: Seq<CoreAction>, r2: Seq<CoreAction>)
    requires
        floating_post(c0, c1, Toggle::Switch, r1),
        floating_post(c1, c2, Toggle::Switch, r2),
        c0.state.wf(),
        c1.state.wf(),
        c2.state.wf(),
    ensures
        c2.state.focus == c0.state.focus,
        match c0.state.focus.focused_window {
            Some(w) => c0.state.has_window(w) ==> {
                &&& c2.state.has_window(w)
                &&& c2.state.win(w).state.has(WindowState::FLOATING) == c0.state.win(w).state.has(WindowState::FLOATING)
                &&& match c0.state.win(w).workspace {
                    Some(ws) => match c0.state.ws_index(ws) {
                        Some(k) => {
                            let t0 = c0.state.ws_entries()[k].1.tiled_windows@;
                            let f0 = c0.state.ws_entries()[k].1.floating_windows@;
                            let fl = c0.state.win(w).state.has(WindowState::FLOATING);
                            (f0.contains(w) == fl && t0.contains(w) == !fl && at_most_once(t0, w) && at_most_once(f0, w))
                                ==> c2.state.ws_entries()[k].1.tiled_windows@.contains(w) == t0.contains(w)
                                && c2.state.ws_entries()[k].1.floating_windows@.contains(w) == f0.contains(w)
                        },
                        None => true,
                    },
                    None => true,
                }
            },
            None => true,
        },
{
    if let Some(w) = c0.state.focus.focused_window {
        if c0.state.has_window(w) {
            if let Some(ws) = c0.state.win(w).workspace {
                if let Some(k) = c0.state.ws_index(ws) {
                    crate::tables::lemma_key_index_at(c0.state.ws_entries(), k);
                    crate::tables::lemma_key_index_at(c1.state.ws_entries(), k);
                    assert(c0.state.ws_entries()[k].0 == ws.0);
                    assert(c1.state.ws_index(ws) == Some(k));
                    let t0 = c0.state.ws_entries()[k].1.tiled_windows@;
                    let f0 = c0.state.ws_entries()[k].1.floating_windows@;
                    let t1 = c1.state.ws_entries()[k].1.tiled_windows@;
                    let f1 = c1.state.ws_entries()[k].1.floating_windows@;
                    let t2 = c2.state.ws_entries()[k].1.tiled_windows@;
                    let f2 = c2.state.ws_entries()[k].1.floating_windows@;
                    let fl = c0.state.win(w).state.has(WindowState::FLOATING);
                    if f0.contains(w) == fl && t0.contains(w) == !fl && at_most_once(t0, w) && at_most_once(f0, w) {
                        if fl {
                            lemma_move_there_and_back(f0, t0, f1, t1, f2, t2, w);
                        } else {
                            lemma_move_there_and_back(t0, f0, t1, f1, t2, f2, w);
                        }
                    }
                }
            }
        }
    }
}

/// What mapping a window does to the store: it joins the focused workspace
/// (the first one when none is focused) as a tiled window, last in the
/// tiling order, not floating; that workspace becomes the focused one;
/// marks and the other workspaces' lists stay.
pub open spec fn mapped_post(c0: &Core, c1: &Core, id: WindowId) -> bool {
    let target = match c0.state.focus.focused_workspace {
        Some(w) => w,
        None => c0.state.ws_entries()[0].1.id,
    };
    &&& c1.state.marks == c0.state.marks
    &&& c1.state.win(id).workspace == Some(target)
    &&& !c1.state.win(id).state.has(WindowState::FLOATING)
    &&& c1.state.focus.focused_workspace == Some(target)
    &&& c1.state.ws_entries().len() == c0.state.ws_entries().len()
    &&& forall|j: int| 0 <= j < c0.state.ws_entries().len() ==> (#[trigger] c1.state.ws_entries()[j]).0
        == c0.state.ws_entries()[j].0 && c1.state.ws_entries()[j].1.id == c0.state.ws_entries()[j].1.id
    &&& match c0.state.ws_index(target) {
        Some(k) => {
            &&& c1.state.ws_entries()[k].1.tiled_windows@ == c0.state.ws_entries()[k].1.tiled_windows@.push(id)
            &&& c1.state.ws_entries()[k].1.floating_windows@ == c0.state.ws_entries()[k].1.floating_windows@
            &&& c1.state.ws_entries()[k].1.focus_stack@ == c0.state.ws_entries()[k].1.focus_stack@.push(id)
            &&& forall|j: int| 0 <= j < c0.state.ws_entries().len() && j != k
                ==> (#[trigger] c1.state.ws_entries()[j]).1.tiled_windows == c0.state.ws_entries()[j].1.tiled_windows
                && c1.state.ws_entries()[j].1.floating_windows == c0.state.ws_entries()[j].1.floating_windows
                && c1.state.ws_entries()[j].1.focus_stack == c0.state.ws_entries()[j].1.focus_stack
        },
        None => c1.state.lists_kept(&c0.state),
    }
}

/// Pointer motion with no grab: with focus-follows-mouse on, the window
/// under the pointer takes the focus when it does not have it; otherwise
/// nothing but the pointer position changes.
pub open spec fn follow_post(c0: &Core, c1: &Core, x: i32, y: i32, r: Seq<CoreAction>) -> bool {
    let under = c0.state.spec_window_at(x as int, y as int);
    if c0.state.config.general.focus_follows_mouse != FocusFollowsMouse::No && under is Some
        && c0.state.focus.focused_window != under {
        &&& c1.state.focus.focused_window == under
        &&& r == seq![CoreAction::SetFocus { id: under }]
        &&& c1.state.workspaces == c0.state.workspaces
        &&& c1.state.marks == c0.state.marks
    } else {
        r.len() == 0 && c1.state == (State { pointer_position: (x, y), ..c0.state })
    }
}

proof fn lemma_topmost_exists(st: &State, list: Seq<WindowId>, x: int, y: int)
    ensures
        st.topmost_hit(list, x, y) matches Some(w) ==> st.has_window(w),
    decreases list.len(),
{
    if list.len() > 0 {
        lemma_topmost_exists(st, list.drop_last(), x, y);
    }
}

/// The window under a point exists.
proof fn lemma_hit_exists(st: &State, x: int, y: int)
    ensures
        st.spec_window_at(x, y) matches Some(w) ==> st.has_window(w),
{
    if let Some(id) = st.focus.focused_workspace {
        if st.has_workspace(id) {
            lemma_topmost_exists(st, st.ws(id).floating_windows@, x, y);
            lemma_topmost_exists(st, st.ws(id).tiled_windows@, x, y);
        }
    }
}

/// After a visibility pass no window is in scratchpad conflict unless it
/// is shown from the scratchpad.
pub proof fn lemma_visibility_pass_scratch_ok(c0: &Core, c1: &Core)
    requires
        visibility_post(c0, c1),
        c1.state.scratchpad == c0.state.scratchpad,
        c1.scratchpad_visible == c0.scratchpad_visible,
    ensures
        c1.state.scratch_ok(c1.scratchpad_visible@),
{
    assert forall|i: int| 0 <= i < c1.state.windows@.len() && #[trigger] c1.state.scratch_conflict(i)
        implies c1.scratchpad_visible@.contains(c1.state.windows@[i].id) by {
        let w = c1.state.windows@[i];
        assert(w.id == c0.state.windows@[i].id);
        assert(w.state.has(WindowState::HIDDEN) == !spec_shown(c0, c0.state.windows@[i]));
    }
}

/// A relayout keeps the scratchpad rule.
proof fn lemma_relayout_keeps_scratch(c0: &Core, c1: &Core)
    requires
        c0.wf(),
        c1.wf(),
        c1.state.windows == c0.state.windows,
        c1.state.scratchpad == c0.state.scratchpad,
        c1.scratchpad_visible == c0.scratchpad_visible,
        c1.state.lists_kept(&c0.state),
        c0.state.scratch_ok(c0.scratchpad_visible@),
    ensures
        c1.state.scratch_ok(c1.scratchpad_visible@),
{
    crate::invariants::lemma_conflicts_kept(&c0.state, &c1.state);
}

/// Commands that change no window, scratchpad or workspace list.
pub open spec fn leaves_windows(c: Command) -> bool {
    c is Exec || c is ExecAlways || c is Kill || c is Reload || c is Exit || c is Restart || c is Mode
        || c is Mark || c is Unmark || c is Unknown || c is Split || c is Layout || c is Resize || c is Gaps
        || c is Bar || c is Focus || c is Move
}

/// What a command does to the scratchpad rule: commands that end with a
/// visibility pass (a workspace switch, a move to a workspace, showing the
/// scratchpad) establish it; commands that leave the windows alone, and
/// going to a mark, keep it.
pub open spec fn scratch_post(c0: &Core, c1: &Core, cmd: Command) -> bool {
    let ok0 = c0.state.scratch_ok(c0.scratchpad_visible@);
    let ok1 = c1.state.scratch_ok(c1.scratchpad_visible@);
    &&& leaves_windows(cmd) ==> (ok0 ==> ok1)
    &&& match cmd {
        Command::Workspace(t) => c0.state.spec_resolve(t) is Some ==> ok1,
        Command::MoveToWorkspace(t) => c0.state.focus.focused_window is Some && c0.state.spec_resolve(t) is Some ==> ok1,
        Command::ScratchpadShow => c0.state.scratchpad@.len() > 0 ==> ok1,
        Command::GotoMark(_) => ok0 ==> ok1,
        _ => true,
    }
}

/// Whether the visibility pass shows window `w`: a window in the scratchpad
/// that is not shown from it stays hidden (the scratchpad overrides);
/// otherwise it is shown when on the focused workspace, shown from the
/// scratchpad, or sticky.
pub open spec fn spec_shown(c: &Core, w: Window) -> bool {
    if c.state.scratchpad@.contains(w.id) && !c.scratchpad_visible@.contains(w.id) {
        false
    } else {
        w.workspace == c.state.focus.focused_workspace || c.scratchpad_visible@.contains(w.id)
            || w.state.has(WindowState::STICKY)
    }
}

/// After a visibility pass: the windows keep ids, workspaces and geometry;
/// each is hidden exactly when `spec_shown` does not show it; its other
/// flags stay.
pub open spec fn visibility_post(c0: &Core, c1: &Core) -> bool {
    &&& c1.state.same_windows(&c0.state)
    &&& forall|j: int| 0 <= j < c1.state.windows@.len() ==> ({
        let w = #[trigger] c1.state.windows@[j];
        let show = spec_shown(c0, c0.state.windows@[j]);
        w.state.has(WindowState::HIDDEN) == !show
            && w.state.has(WindowState::FLOATING) == c0.state.windows@[j].state.has(WindowState::FLOATING)
            && w.state.has(WindowState::FOCUSED) == c0.state.windows@[j].state.has(WindowState::FOCUSED)
    })
}

impl Core {
    pub open spec fn wf(&self) -> bool {
        self.state.wf() && self.input_manager.wf()
    }

    /// A new engine over the given configuration, with its key bindings loaded.
    pub fn new(config: Config) -> (r: Self)
        ensures
            r.wf(),
            r.state.inv(),
            r.state.ws_entries().len() == 10,
            forall|i: int| 0 <= i < 10 ==> (#[trigger] r.state.ws_entries()[i]).0 == i + 1
                && r.state.ws_entries()[i].1.id == WorkspaceId((i + 1) as u32),
            r.state.windows@.len() == 0,
            r.state.marks@.len() == 0 && r.state.scratchpad@.len() == 0,
            r.scratchpad_visible@.len() == 0,
            r.state.focus.focused_window is None,
            r.state.focus.focused_workspace is None,
            !r.should_exit,
            r.next_wid == 1,
    {
        let mut input_manager = InputManager::new();
        input_manager.load_bindings(config.bindings.as_slice());
        let state = State::new(config);
        Core { state, input_manager, scratchpad_visible: Vec::new(), next_wid: 1, should_exit: false }
    }

    /// A fresh window id: ids are handed out in increasing order, never twice.
    pub fn next_window_id(&mut self) -> (r: WindowId)
        requires
            old(self).next_wid < u64::MAX,
        ensures
            r == WindowId(old(self).next_wid),
            final(self).next_wid == old(self).next_wid + 1,
            final(self).state == old(self).state,
            final(self).input_manager == old(self).input_manager,
            final(self).should_exit == old(self).should_exit,
    {
        let id = WindowId(self.next_wid);
        self.next_wid = self.next_wid + 1;
        id
    }

    /// The focused workspace.
    pub fn focused_workspace(&self) -> (r: Option<WorkspaceId>)
        ensures
            r == self.state.focus.focused_workspace,
    {
        self.state.focus.focused_workspace
    }

    /// The focused window.
    pub fn focused_window(&self) -> (r: Option<WindowId>)
        ensures
            r == self.state.focus.focused_window,
    {
        self.state.focus.focused_window
    }

    /// Lay out the focused workspace and emit one geometry action per tiled
    /// window, in tiling order.
    fn relayout_actions(&mut self) -> (r: Vec<CoreAction>)
        requires
            old(self).wf(),
        ensures
            final(self).wf(),
            old(self).state.inv() ==> final(self).state.inv(),
            final(self).state.windows == old(self).state.windows,
            final(self).state.focus == old(self).state.focus,
            final(self).state.marks == old(self).state.marks,
            final(self).state.scratchpad == old(self).state.scratchpad,
            final(self).state.layout_dirty == old(self).state.layout_dirty,
            final(self).state.grabbed_window == old(self).state.grabbed_window,
            final(self).state.pointer_position == old(self).state.pointer_position,
            final(self).state.config == old(self).state.config,
            final(self).input_manager == old(self).input_manager,
            final(self).should_exit == old(self).should_exit,
            final(self).next_wid == old(self).next_wid,
            final(self).scratchpad_visible == old(self).scratchpad_visible,
            final(self).state.outputs == old(self).state.outputs,
            final(self).state.lists_kept(&old(self).state),
            forall|id: WorkspaceId| final(self).state.has_workspace(id) == old(self).state.has_workspace(id),
            final(self).state.ws_entries().len() == old(self).state.ws_entries().len(),
            forall|k: int| 0 <= k < old(self).state.ws_entries().len()
                ==> (#[trigger] final(self).state.ws_entries()[k]).1.work_area == old(self).state.ws_entries()[k].1.work_area,
            match old(self).state.focus.focused_workspace {
                Some(id) => match old(self).state.ws_index(id) {
                    Some(k) => r@ == geometry_actions(
                        final(self).state.ws_entries()[k].1.tiled_windows@,
                        final(self).state.ws_entries()[k].1.layout.window_geometries@,
                    ) && laid_out(
                        old(self).state.ws_entries()[k].1.layout,
                        final(self).state.ws_entries()[k].1.layout,
                        old(self).state.ws_entries()[k].1.work_area,
                        old(self).state.config.gaps.outer,
                    ),
                    None => r@.len() == 0,
                },
                None => r@.len() == 0,
            },
    {
        let mut actions: Vec<CoreAction> = Vec::new();
        let ws_id = match self.state.focus.focused_workspace {
            Some(id) => id,
            None => {
                return actions;
            },
        };
        let k = match self.state.find_workspace_index(ws_id) {
            Some(k) => k,
            None => {
                return actions;
            },
        };
        let outer_gap = self.state.config.gaps.outer;
        self.state.layout_workspace(k, outer_gap);
        let ws = workspace_table_at(&self.state.workspaces, k);
        let mut i: usize = 0;
        while i < ws.tiled_windows.len()
            invariant
                i <= ws.tiled_windows@.len(),
                actions@ == geometry_actions(ws.tiled_windows@.subrange(0, i as int), ws.layout.window_geometries@),
            decreases ws.tiled_windows@.len() - i,
        {
            let wid = ws.tiled_windows[i];
            assert(ws.tiled_windows@.subrange(0, i + 1).drop_last() =~= ws.tiled_windows@.subrange(0, i as int));
            if let Some(g) = ws.window_geometry(wid) {
                actions.push(CoreAction::SetWindowGeometry { id: wid, x: g.x, y: g.y, w: g.width, h: g.height });
            }
            i = i + 1;
        }
        assert(ws.tiled_windows@.subrange(0, i as int) =~= ws.tiled_windows@);
        actions
    }

    /// Recompute the hidden flag of every window from `spec_shown`.
    fn update_window_visibility(&mut self)
        requires
            old(self).wf(),
        ensures
            final(self).wf(),
            old(self).state.inv() ==> final(self).state.inv(),
            final(self).state.same_windows(&old(self).state),
            final(self).state.workspaces == old(self).state.workspaces,
            final(self).state.focus == old(self).state.focus,
            final(self).state.marks == old(self).state.marks,
            final(self).state.scratchpad == old(self).state.scratchpad,
            final(self).state.layout_dirty == old(self).state.layout_dirty,
            final(self).state.grabbed_window == old(self).state.grabbed_window,
            final(self).state.config == old(self).state.config,
            final(self).input_manager == old(self).input_manager,
            final(self).scratchpad_visible == old(self).scratchpad_visible,
            final(self).should_exit == old(self).should_exit,
            final(self).next_wid == old(self).next_wid,
            forall|j: int| 0 <= j < final(self).state.windows@.len() ==> ({
                let w = #[trigger] final(self).state.windows@[j];
                let show = spec_shown(old(self), old(self).state.windows@[j]);
                w.state.has(WindowState::HIDDEN) == !show
                    && w.state.has(WindowState::FLOATING) == old(self).state.windows@[j].state.has(WindowState::FLOATING)
                    && w.state.has(WindowState::FOCUSED) == old(self).state.windows@[j].state.has(WindowState::FOCUSED)
            }),
    {
        let current = self.state.focus.focused_workspace;
        let n = self.state.windows.len();
        let mut i: usize = 0;
        while i < n
            invariant
                self.wf(),
                n == self.state.windows@.len(),
                i <= n,
                old(self).state.inv() ==> self.state.inv(),
                self.state.same_windows(&old(self).state),
                self.state.workspaces == old(self).state.workspaces,
                self.state.focus == old(self).state.focus,
                self.state.marks == old(self).state.marks,
                self.state.scratchpad == old(self).state.scratchpad,
                self.state.layout_dirty == old(self).state.layout_dirty,
                self.state.grabbed_window == old(self).state.grabbed_window,
                self.state.config == old(self).state.config,
                self.input_manager == old(self).input_manager,
                self.scratchpad_visible == old(self).scratchpad_visible,
                self.should_exit == old(self).should_exit,
                self.next_wid == old(self).next_wid,
                current == old(self).state.focus.focused_workspace,
                forall|j: int| i <= j < n ==> self.state.windows@[j] == old(self).state.windows@[j],
                forall|j: int| 0 <= j < i ==> ({
                    let w = #[trigger] self.state.windows@[j];
                    let show = spec_shown(old(self), old(self).state.windows@[j]);
                    w.state.has(WindowState::HIDDEN) == !show
                        && w.state.has(WindowState::FLOATING) == old(self).state.windows@[j].state.has(WindowState::FLOATING)
                        && w.state.has(WindowState::FOCUSED) == old(self).state.windows@[j].state.has(WindowState::FOCUSED)
                }),
            decreases n - i,
        {
            let w = &self.state.windows[i];
            let wid = w.id;
            let shown_from_scratchpad = index_of(&self.scratchpad_visible, wid).is_some();
            let show = if index_of(&self.state.scratchpad, wid).is_some() && !shown_from_scratchpad {
                false
            } else {
                w.workspace == current || shown_from_scratchpad || w.state.contains(WindowState::STICKY)
            };
            let ghost b = w.state.bits;
            let ghost s0 = self.state;
            self.state.set_window_flag(i, WindowState::HIDDEN, !show);
            proof {
                State::lemma_window_replaced(&s0, &self.state, i as int);
                assert((b | 8u32) & 8u32 == 8u32) by (bit_vector);
                assert((b & !8u32) & 8u32 != 8u32) by (bit_vector);
                assert(((b | 8u32) & 16u32 == 16u32) == (b & 16u32 == 16u32)) by (bit_vector);
                assert(((b & !8u32) & 16u32 == 16u32) == (b & 16u32 == 16u32)) by (bit_vector);
                assert(((b | 8u32) & 1u32 == 1u32) == (b & 1u32 == 1u32)) by (bit_vector);
                assert(((b & !8u32) & 1u32 == 1u32) == (b & 1u32 == 1u32)) by (bit_vector);
                assert(self.state.same_windows(&old(self).state));
            }
            i = i + 1;
        }
    }

    /// Resolve a workspace target against the workspace order.
    fn resolve_workspace_target(&self, target: &WorkspaceTarget) -> (r: Option<WorkspaceId>)
        requires
            self.wf(),
        ensures
            r == self.state.spec_resolve(*target),
            r matches Some(id) ==> self.state.has_workspace(id),
    {
        let es = &self.state.workspaces;
        let n = workspace_table_len(es);
        let cur: usize = match self.state.focus.focused_workspace {
            Some(c) => match self.state.find_workspace_index(c) {
                Some(i) => i,
                None => 0,
            },
            None => 0,
        };
        proof {
            assert forall|k: int| 0 <= k < n implies self.state.has_workspace(WorkspaceId(#[trigger] self.state.ws_entries()[k].0)) by {
                self.state.lemma_ws_index(k);
            }
        }
        match target {
            WorkspaceTarget::Next | WorkspaceTarget::NextOnOutput => {
                if self.state.focus.focused_workspace.is_some() {
                    Some(workspace_table_at(es, (cur + 1) % n).id)
                } else {
                    Some(workspace_table_at(es, 0).id)
                }
            },
            WorkspaceTarget::Prev | WorkspaceTarget::PrevOnOutput => {
                if self.state.focus.focused_workspace.is_some() {
                    let k = if cur == 0 { n - 1 } else { cur - 1 };
                    Some(workspace_table_at(es, k).id)
                } else {
                    Some(workspace_table_at(es, n - 1).id)
                }
            },
            WorkspaceTarget::Number(num) => {
                let k: usize = if *num == 0 { 0 } else { (*num - 1) as usize };
                if k < n {
                    Some(workspace_table_at(es, k).id)
                } else {
                    None
                }
            },
            WorkspaceTarget::Name(name) => {
                let mut i: usize = 0;
                while i < n
                    invariant
                        self.wf(),
                        *es == self.state.workspaces,
                        *target == WorkspaceTarget::Name(*name),
                        n == self.state.ws_entries().len(),
                        i <= n,
                        first_named(self.state.ws_entries(), name@, 0) == first_named(self.state.ws_entries(), name@, i as int),
                    decreases n - i,
                {
                    let ws = workspace_table_at(es, i);
                    if str_eq(ws.name.as_str(), name.as_str()) {
                        assert(self.state.ws_entries()[i as int].0 == ws.id.0);
                        assert(self.state.ws_entries()[i as int].1.name@ == name@);
                        assert(first_named(self.state.ws_entries(), name@, i as int) == Some(i as int));
                        return Some(ws.id);
                    }
                    i = i + 1;
                }
                None
            },
            WorkspaceTarget::BackAndForth => None,
        }
    }

    fn on_window_mapped(
        &mut self,
        id: WindowId,
        app_id: Option<String>,
        title: Option<String>,
        pid: Option<u32>,
        initial_geometry: Option<Geometry>,
        is_xwayland: bool,
    ) -> (r: Vec<CoreAction>)
        requires
            old(self).wf(),
        ensures
            final(self).wf(),
            old(self).state.inv() ==> final(self).state.inv(),
            final(self).state.has_window(id),
            final(self).state.focus.focused_window == Some(id),
            r@.len() >= 1,
            r@[0] == (CoreAction::SetFocus { id: Some(id) }),
            final(self).state.layout_dirty,
            mapped_post(old(self), final(self), id),
            final(self).should_exit == old(self).should_exit,
            final(self).next_wid == old(self).next_wid,
    {
        let app = match app_id {
            Some(a) => a,
            None => String::new(),
        };
        let t = match title {
            Some(t) => t,
            None => String::new(),
        };
        let mut window = Window::new(id, app, t);
        window.pid = pid;
        window.is_xwayland = is_xwayland;
        if let Some(geo) = initial_geometry {
            window.geometry = geo;
        }
        proof {
            assert(0u32 & 0x400u32 != 0x400u32) by (bit_vector);
            assert(0u32 & 0x10u32 != 0x10u32) by (bit_vector);
            assert(crate::window::single_bit(0x10u32)) by (bit_vector);
        }
        if window.should_float() {
            window.state.insert(WindowState::FLOATING);
        }
        let ghost wg = window;
        let added = self.state.add_window(window);
        let ghost s1 = self.state;
        self.state.focus_window(added);
        proof {
            let idx = s1.window_index(id)->0;
            crate::state::lemma_find_window(s1.windows@, id, 0);
            assert(s1.win(id).workspace == self.state.win(id).workspace);
            assert(s1.win(id).state.has(WindowState::FLOATING) == self.state.win(id).state.has(WindowState::FLOATING));
        }
        let mut actions: Vec<CoreAction> = Vec::new();
        actions.push(CoreAction::SetFocus { id: Some(added) });
        let mut rest = self.relayout_actions();
        actions.append(&mut rest);
        actions
    }

    fn on_window_unmapped(&mut self, id: WindowId) -> (r: Vec<CoreAction>)
        requires
            old(self).wf(),
        ensures
            final(self).wf(),
            old(self).state.inv() ==> final(self).state.inv(),
            !old(self).state.has_window(id) ==> r@.len() == 0 && final(self).state == old(self).state,
            old(self).state.has_window(id) ==> {
                &&& !final(self).state.has_window(id)
                &&& r@.len() >= 1
                &&& r@[0] == (CoreAction::SetFocus { id: final(self).state.focus.focused_window })
                &&& forall|j: int| 0 <= j < final(self).state.marks@.len() ==> (#[trigger] final(self).state.marks@[j]).1 != id
                &&& forall|j: int| 0 <= j < old(self).state.marks@.len() && (#[trigger] old(self).state.marks@[j]).1 != id
                    ==> final(self).state.marks@.contains(old(self).state.marks@[j])
                &&& final(self).state.marks@ == old(self).state.marks@.filter(crate::state::mark_not_on(id))
            },
            final(self).should_exit == old(self).should_exit,
            final(self).next_wid == old(self).next_wid,
    {
        let mut actions: Vec<CoreAction> = Vec::new();
        if self.state.remove_window(id).is_some() {
            actions.push(CoreAction::SetFocus { id: self.state.focus.focused_window });
            let mut rest = self.relayout_actions();
            actions.append(&mut rest);
        }
        actions
    }

    fn on_window_commit(&mut self, id: WindowId, new_geometry_hint: Option<Geometry>) -> (r: Vec<CoreAction>)
        requires
            old(self).wf(),
        ensures
            final(self).wf(),
            old(self).state.inv() ==> final(self).state.inv(),
            final(self).state.focus == old(self).state.focus,
            ({
                let applies = new_geometry_hint is Some && old(self).state.has_window(id)
                    && old(self).state.win(id).state.has(WindowState::FLOATING);
                &&& applies ==> r@ == seq![CoreAction::SetWindowGeometry {
                    id,
                    x: new_geometry_hint->0.x,
                    y: new_geometry_hint->0.y,
                    w: new_geometry_hint->0.width,
                    h: new_geometry_hint->0.height,
                }]
                &&& applies ==> ({
                    let g = new_geometry_hint->0;
                    let h = old(self).state.win(id).size_hints;
                    let ng = final(self).state.win(id).geometry;
                    &&& ng.x == g.x && ng.y == g.y
                    &&& ng.width as int == crate::window::constrain_dim(g.width, h.min_width, h.max_width, h.base_width, h.width_increment)
                    &&& ng.height as int == crate::window::constrain_dim(g.height, h.min_height, h.max_height, h.base_height, h.height_increment)
                })
                &&& !applies ==> r@.len() == 0 && final(self).state == old(self).state
            }),
            final(self).should_exit == old(self).should_exit,
            final(self).next_wid == old(self).next_wid,
    {
        if let Some(geo) = new_geometry_hint {
            if let Some(i) = self.state.find_window_index(id) {
                if self.state.windows[i].state.contains(WindowState::FLOATING) {
                    self.state.apply_window_geometry(i, geo);
                    let mut v: Vec<CoreAction> = Vec::new();
                    v.push(CoreAction::SetWindowGeometry { id, x: geo.x, y: geo.y, w: geo.width, h: geo.height });
                    return v;
                }
            }
        }
        Vec::new()
    }

    fn on_focus_requested(&mut self, id: WindowId) -> (r: Vec<CoreAction>)
        requires
            old(self).wf(),
        ensures
            final(self).wf(),
            old(self).state.inv() ==> final(self).state.inv(),
            old(self).state.has_window(id) ==> final(self).state.focus.focused_window == Some(id)
                && r@ == seq![CoreAction::SetFocus { id: Some(id) }]
                && final(self).state.workspaces == old(self).state.workspaces
                && final(self).state.marks == old(self).state.marks,
            !old(self).state.has_window(id) ==> r@.len() == 0 && final(self).state == old(self).state,
            final(self).should_exit == old(self).should_exit,
            final(self).next_wid == old(self).next_wid,
            final(self).scratchpad_visible == old(self).scratchpad_visible,
            old(self).state.scratch_ok(old(self).scratchpad_visible@) ==> final(self).state.scratch_ok(final(self).scratchpad_visible@),
    {
        if self.state.find_window_index(id).is_some() {
            self.state.focus_window(id);
            proof {
                crate::invariants::lemma_conflicts_kept_flags(&old(self).state, &self.state);
            }
            let mut v: Vec<CoreAction> = Vec::new();
            v.push(CoreAction::SetFocus { id: Some(id) });
            v
        } else {
            Vec::new()
        }
    }

    fn on_output_added(&mut self, id: u64, name: String, geometry: Geometry) -> (r: Vec<CoreAction>)
        requires
            old(self).wf(),
        ensures
            final(self).wf(),
            old(self).state.inv() ==> final(self).state.inv(),
            final(self).state.focus == old(self).state.focus,
            final(self).state.windows == old(self).state.windows,
            final(self).should_exit == old(self).should_exit,
            final(self).next_wid == old(self).next_wid,
            geometry.fits() ==> forall|k: int| 0 <= k < old(self).state.ws_entries().len()
                && old(self).state.ws_entries()[k].1.geometry == (Geometry { x: 0, y: 0, width: 0, height: 0 })
                ==> (#[trigger] final(self).state.ws_entries()[k]).1.work_area == geometry,
            final(self).state.marks == old(self).state.marks,
            final(self).state.lists_kept(&old(self).state),
            final(self).state.scratchpad == old(self).state.scratchpad,
            final(self).scratchpad_visible == old(self).scratchpad_visible,
            old(self).state.scratch_ok(old(self).scratchpad_visible@) ==> final(self).state.scratch_ok(final(self).scratchpad_visible@),
            match key_index(output_entries(final(self).state.outputs), id) {
                Some(i) => output_entries(final(self).state.outputs)[i].1.geometry == geometry,
                None => false,
            },
    {
        let output = Output {
            id,
            name,
            geometry,
            refresh_rate: 60000,
            workspaces: Vec::new(),
            active_workspace: None,
        };
        output_table_insert(&mut self.state.outputs, id, output);
        proof {
            let es = output_entries(self.state.outputs);
            match key_index(output_entries(old(self).state.outputs), id) {
                Some(i) => {
                    crate::tables::lemma_key_index_at(es, i);
                },
                None => {
                    crate::tables::lemma_key_index_at(es, es.len() - 1);
                },
            }
        }
        let ghost outs = self.state.outputs;
        if geometry.x as i64 + geometry.width as i64 <= i32::MAX as i64 && geometry.y as i64 + geometry.height as i64
            <= i32::MAX as i64 {
            let n = workspace_table_len(&self.state.workspaces);
            let mut k: usize = 0;
            while k < n
                invariant
                    self.wf(),
                    geometry.fits(),
                    n == self.state.ws_entries().len(),
                    n == old(self).state.ws_entries().len(),
                    k <= n,
                    old(self).state.inv() ==> self.state.inv(),
                    self.state.focus == old(self).state.focus,
                    self.state.windows == old(self).state.windows,
                    self.should_exit == old(self).should_exit,
                    self.next_wid == old(self).next_wid,
                    forall|j: int| k <= j < n ==> self.state.ws_entries()[j] == old(self).state.ws_entries()[j],
                    self.state.outputs == outs,
                    self.state.marks == old(self).state.marks,
                    self.state.lists_kept(&old(self).state),
                    self.state.scratchpad == old(self).state.scratchpad,
                    self.scratchpad_visible == old(self).scratchpad_visible,
                    forall|j: int| 0 <= j < k && old(self).state.ws_entries()[j].1.geometry
                        == (Geometry { x: 0, y: 0, width: 0, height: 0 })
                        ==> (#[trigger] self.state.ws_entries()[j]).1.work_area == geometry,
                decreases n - k,
            {
                let g = workspace_table_at(&self.state.workspaces, k).geometry;
                if g.x == 0 && g.y == 0 && g.width == 0 && g.height == 0 {
                    self.state.set_workspace_geometry(k, geometry);
                }
                k = k + 1;
            }
        }
        let ghost c1 = *self;
        let r = self.relayout_actions();
        proof {
            crate::invariants::lemma_conflicts_kept(&old(self).state, &c1.state);
            crate::invariants::lemma_conflicts_kept(&c1.state, &self.state);
        }
        r
    }

    fn on_output_removed(&mut self, id: u64) -> (r: Vec<CoreAction>)
        requires
            old(self).wf(),
        ensures
            final(self).wf(),
            old(self).state.inv() ==> final(self).state.inv(),
            r@.len() == 0,
            key_index(output_entries(final(self).state.outputs), id) is None,
            final(self).state.scratchpad == old(self).state.scratchpad,
            final(self).scratchpad_visible == old(self).scratchpad_visible,
            old(self).state.scratch_ok(old(self).scratchpad_visible@) ==> final(self).state.scratch_ok(final(self).scratchpad_visible@),
            final(self).state.workspaces == old(self).state.workspaces,
            final(self).state.marks == old(self).state.marks,
            final(self).state.focus == old(self).state.focus,
            final(self).state.windows == old(self).state.windows,
            final(self).should_exit == old(self).should_exit,
            final(self).next_wid == old(self).next_wid,
    {
        output_table_remove(&mut self.state.outputs, id);
        proof {
            crate::invariants::lemma_conflicts_kept(&old(self).state, &self.state);
            let e0 = output_entries(old(self).state.outputs);
            let e1 = output_entries(self.state.outputs);
            if let Some(i) = key_index(e0, id) {
                assert forall|j: int| 0 <= j < e1.len() implies e1[j].0 != id by {
                    let j0 = if j < i { j } else { j + 1 };
                    assert(e1[j] == e0[j0]);
                    assert(e0[i].0 == id);
                }
            }
        }
        Vec::new()
    }

    fn on_pointer_motion(&mut self, x: i32, y: i32) -> (r: Vec<CoreAction>)
        requires
            old(self).wf(),
        ensures
            final(self).wf(),
            old(self).state.inv() ==> final(self).state.inv(),
            final(self).state.pointer_position == (x, y),
            final(self).state.grabbed_window == old(self).state.grabbed_window,
            match old(self).state.grabbed_window {
                Some(g) => old(self).state.has_window(g.window_id) ==> {
                    let geo = grab_geometry(g, x - g.initial_pointer.0, y - g.initial_pointer.1);
                    &&& final(self).state.win(g.window_id).geometry == geo
                    &&& r@ == seq![CoreAction::SetWindowGeometry { id: g.window_id, x: geo.x, y: geo.y, w: geo.width, h: geo.height }]
                },
                None => follow_post(old(self), final(self), x, y, r@),
            },
            final(self).should_exit == old(self).should_exit,
            final(self).next_wid == old(self).next_wid,
            final(self).scratchpad_visible == old(self).scratchpad_visible,
            old(self).state.scratch_ok(old(self).scratchpad_visible@) ==> final(self).state.scratch_ok(final(self).scratchpad_visible@),
    {
        let under = self.state.window_at(x, y);
        self.state.pointer_position = (x, y);
        let mut actions: Vec<CoreAction> = Vec::new();
        if let Some(grab) = self.state.grabbed_window {
            let dx = x as i64 - grab.initial_pointer.0 as i64;
            let dy = y as i64 - grab.initial_pointer.1 as i64;
            let wid = grab.window_id;
            if let Some(i) = self.state.find_window_index(wid) {
                let geo = compute_grab_geometry(grab, dx, dy);
                self.state.set_window_geometry(i, geo);
                proof {
                    crate::invariants::lemma_conflicts_kept_flags(&old(self).state, &self.state);
                }
                actions.push(CoreAction::SetWindowGeometry { id: wid, x: geo.x, y: geo.y, w: geo.width, h: geo.height });
                return actions;
            }
        }
        let ffm = match self.state.config.general.focus_follows_mouse {
            FocusFollowsMouse::Yes | FocusFollowsMouse::Always => true,
            FocusFollowsMouse::No => false,
        };
        if ffm && self.state.grabbed_window.is_none() {
            if let Some(window_id) = under {
                if self.state.focus.focused_window != Some(window_id) {
                    let ghost s1 = self.state;
                    proof {
                        assert(self.state.has_window(window_id)) by {
                            lemma_hit_exists(&old(self).state, x as int, y as int);
                            assert(self.state.windows == old(self).state.windows);
                        }
                    }
                    self.state.focus_window(window_id);
                    proof {
                        crate::invariants::lemma_conflicts_kept_flags(&s1, &self.state);
                        crate::invariants::lemma_conflicts_kept_flags(&old(self).state, &s1);
                    }
                    actions.push(CoreAction::SetFocus { id: Some(window_id) });
                }
            }
        }
        proof {
            crate::invariants::lemma_conflicts_kept_flags(&old(self).state, &self.state);
        }
        actions
    }

    fn on_pointer_button(&mut self, button: u32, pressed: bool) -> (r: Vec<CoreAction>)
        requires
            old(self).wf(),
        ensures
            final(self).wf(),
            old(self).state.inv() ==> final(self).state.inv(),
            !pressed ==> final(self).state.grabbed_window is None && r@.len() == 0,
            grab_post(old(self), final(self), button, pressed, r@),
            final(self).should_exit == old(self).should_exit,
            final(self).next_wid == old(self).next_wid,
    {
        let mut actions: Vec<CoreAction> = Vec::new();
        let (px, py) = self.state.pointer_position;
        if pressed && self.input_manager.modifiers.contains(Modifiers::SUPER) {
            if let Some(window_id) = self.state.window_at(px, py) {
                if let Some(i) = self.state.find_window_index(window_id) {
                    let geo = self.state.windows[i].geometry;
                    let (operation, edges) = if button == BUTTON_LEFT {
                        (GrabOperation::Move, ResizeEdges::empty())
                    } else if button == BUTTON_RIGHT || button == BUTTON_MIDDLE {
                        match ResizeEdge::from_point(px, py, &geo) {
                            Some(edge) => (GrabOperation::Resize, edge.to_edges()),
                            None => {
                                return actions;
                            },
                        }
                    } else {
                        return actions;
                    };
                    self.state.grabbed_window = Some(GrabbedWindow {
                        window_id,
                        initial_geometry: geo,
                        initial_pointer: (px, py),
                        operation,
                        edges,
                    });
                }
            }
        }
        if !pressed {
            self.state.grabbed_window = None;
        }
        if pressed && button == BUTTON_LEFT && self.state.grabbed_window.is_none() {
            if let Some(window_id) = self.state.window_at(px, py) {
                self.state.focus_window(window_id);
                actions.push(CoreAction::SetFocus { id: Some(window_id) });
            }
        }
        actions
    }

    fn on_tick(&mut self) -> (r: Vec<CoreAction>)
        requires
            old(self).wf(),
        ensures
            final(self).wf(),
            old(self).state.inv() ==> final(self).state.inv(),
            !final(self).state.layout_dirty,
            !old(self).state.layout_dirty ==> r@.len() == 0 && final(self).state == old(self).state,
            old(self).state.layout_dirty ==> match old(self).state.focus.focused_workspace {
                Some(id) => match old(self).state.ws_index(id) {
                    Some(k) => r@ == geometry_actions(
                        final(self).state.ws_entries()[k].1.tiled_windows@,
                        final(self).state.ws_entries()[k].1.layout.window_geometries@,
                    ) && final(self).state.ws_entries()[k].1.tiled_windows == old(self).state.ws_entries()[k].1.tiled_windows
                    && laid_out(
                        old(self).state.ws_entries()[k].1.layout,
                        final(self).state.ws_entries()[k].1.layout,
                        old(self).state.ws_entries()[k].1.work_area,
                        old(self).state.config.gaps.outer,
                    ),
                    None => r@.len() == 0,
                },
                None => r@.len() == 0,
            },
            final(self).state.focus == old(self).state.focus,
            final(self).should_exit == old(self).should_exit,
            final(self).next_wid == old(self).next_wid,
            old(self).state.layout_dirty ==> visibility_post(old(self), final(self)),
            old(self).state.layout_dirty ==> final(self).state.scratch_ok(final(self).scratchpad_visible@),
            final(self).state.scratchpad == old(self).state.scratchpad,
            final(self).scratchpad_visible == old(self).scratchpad_visible,
    {
        if self.state.needs_layout() {
            let actions = self.relayout_actions();
            self.state.layout_dirty = false;
            let ghost c1 = *self;
            self.update_window_visibility();
            proof {
                lemma_visibility_pass_scratch_ok(&c1, self);
            }
            actions
        } else {
            Vec::new()
        }
    }

    /// Process one backend event; returns the actions to apply, in order.
    pub fn handle_event(&mut self, event: CoreEvent) -> (r: Vec<CoreAction>)
        requires
            old(self).wf(),
        ensures
            final(self).wf(),
            old(self).state.inv() ==> final(self).state.inv(),
            final(self).should_exit == old(self).should_exit,
            final(self).next_wid == old(self).next_wid,
            (event is OutputAdded || event is OutputRemoved || event is Tick || event is FocusRequested
                || event is PointerMotion)
                && old(self).state.scratch_ok(old(self).scratchpad_visible@)
                ==> final(self).state.scratch_ok(final(self).scratchpad_visible@),
            match event {
                CoreEvent::WindowMapped { id, .. } => final(self).state.focus.focused_window == Some(id)
                    && final(self).state.has_window(id) && r@.len() >= 1 && r@[0] == (CoreAction::SetFocus { id: Some(id) })
                    && final(self).state.layout_dirty && mapped_post(old(self), final(self), id),
                CoreEvent::WindowUnmapped { id } => !final(self).state.has_window(id)
                    && (old(self).state.has_window(id) ==> r@.len() >= 1
                        && r@[0] == (CoreAction::SetFocus { id: final(self).state.focus.focused_window })
                        && (forall|j: int| 0 <= j < final(self).state.marks@.len() ==> (#[trigger] final(self).state.marks@[j]).1 != id)
                        && (forall|j: int| 0 <= j < old(self).state.marks@.len() && (#[trigger] old(self).state.marks@[j]).1 != id
                            ==> final(self).state.marks@.contains(old(self).state.marks@[j]))
                        && final(self).state.marks@ == old(self).state.marks@.filter(crate::state::mark_not_on(id)))
                    && (!old(self).state.has_window(id) ==> r@.len() == 0 && final(self).state == old(self).state),
                CoreEvent::FocusRequested { id } => (old(self).state.has_window(id)
                    ==> final(self).state.focus.focused_window == Some(id) && r@ == seq![CoreAction::SetFocus { id: Some(id) }]
                    && final(self).state.workspaces == old(self).state.workspaces
                    && final(self).state.marks == old(self).state.marks)
                    && (!old(self).state.has_window(id) ==> r@.len() == 0 && final(self).state == old(self).state),
                CoreEvent::WindowCommit { id, new_geometry_hint } => final(self).state.focus == old(self).state.focus
                    && if new_geometry_hint is Some && old(self).state.has_window(id)
                    && old(self).state.win(id).state.has(WindowState::FLOATING) {
                    r@ == seq![CoreAction::SetWindowGeometry {
                        id,
                        x: new_geometry_hint->0.x,
                        y: new_geometry_hint->0.y,
                        w: new_geometry_hint->0.width,
                        h: new_geometry_hint->0.height,
                    }] && ({
                        let g = new_geometry_hint->0;
                        let h = old(self).state.win(id).size_hints;
                        let ng = final(self).state.win(id).geometry;
                        &&& ng.x == g.x && ng.y == g.y
                        &&& ng.width as int == crate::window::constrain_dim(g.width, h.min_width, h.max_width, h.base_width, h.width_increment)
                        &&& ng.height as int == crate::window::constrain_dim(g.height, h.min_height, h.max_height, h.base_height, h.height_increment)
                    })
                } else {
                    r@.len() == 0 && final(self).state == old(self).state
                },
                CoreEvent::OutputAdded { id, geometry, .. } => final(self).state.focus == old(self).state.focus
                    && final(self).state.windows == old(self).state.windows
                    && final(self).state.marks == old(self).state.marks
                    && final(self).state.lists_kept(&old(self).state)
                    && (match key_index(output_entries(final(self).state.outputs), id) {
                        Some(i) => output_entries(final(self).state.outputs)[i].1.geometry == geometry,
                        None => false,
                    })
                    && (geometry.fits() ==> forall|k: int| 0 <= k < old(self).state.ws_entries().len()
                    && old(self).state.ws_entries()[k].1.geometry == (Geometry { x: 0, y: 0, width: 0, height: 0 })
                    ==> (#[trigger] final(self).state.ws_entries()[k]).1.work_area == geometry),
                CoreEvent::OutputRemoved { id } => r@.len() == 0 && final(self).state.focus == old(self).state.focus
                    && final(self).state.windows == old(self).state.windows
                    && final(self).state.workspaces == old(self).state.workspaces
                    && final(self).state.marks == old(self).state.marks
                    && key_index(output_entries(final(self).state.outputs), id) is None,
                CoreEvent::PointerMotion { x, y } => final(self).state.pointer_position == (x, y)
                    && match old(self).state.grabbed_window {
                    Some(g) => old(self).state.has_window(g.window_id) ==> {
                        let geo = grab_geometry(g, x - g.initial_pointer.0, y - g.initial_pointer.1);
                        &&& final(self).state.win(g.window_id).geometry == geo
                        &&& r@ == seq![CoreAction::SetWindowGeometry { id: g.window_id, x: geo.x, y: geo.y, w: geo.width, h: geo.height }]
                    },
                    None => follow_post(old(self), final(self), x, y, r@),
                },
                CoreEvent::PointerButton { button, pressed } => (!pressed ==> final(self).state.grabbed_window is None)
                    && grab_post(old(self), final(self), button, pressed, r@),
                CoreEvent::Tick => !final(self).state.layout_dirty
                    && (old(self).state.layout_dirty ==> visibility_post(old(self), final(self)))
                    && (old(self).state.layout_dirty ==> final(self).state.scratch_ok(final(self).scratchpad_visible@))
                    && (old(self).state.layout_dirty ==> match old(self).state.focus.focused_workspace {
                        Some(id) => match old(self).state.ws_index(id) {
                            Some(k) => r@ == geometry_actions(
                                final(self).state.ws_entries()[k].1.tiled_windows@,
                                final(self).state.ws_entries()[k].1.layout.window_geometries@,
                            ) && final(self).state.ws_entries()[k].1.tiled_windows == old(self).state.ws_entries()[k].1.tiled_windows
                            && laid_out(
                                old(self).state.ws_entries()[k].1.layout,
                                final(self).state.ws_entries()[k].1.layout,
                                old(self).state.ws_entries()[k].1.work_area,
                                old(self).state.config.gaps.outer,
                            ),
                            None => r@.len() == 0,
                        },
                        None => r@.len() == 0,
                    })
                    && (!old(self).state.layout_dirty ==> r@.len() == 0 && final(self).state == old(self).state),
            },
    {
        match event {
            CoreEvent::WindowMapped { id, app_id, title, pid, initial_geometry, is_xwayland } => {
                self.on_window_mapped(id, app_id, title, pid, initial_geometry, is_xwayland)
            },
            CoreEvent::WindowUnmapped { id } => self.on_window_unmapped(id),
            CoreEvent::WindowCommit { id, new_geometry_hint } => self.on_window_commit(id, new_geometry_hint),
            CoreEvent::FocusRequested { id } => self.on_focus_requested(id),
            CoreEvent::OutputAdded { id, name, geometry } => self.on_output_added(id, name, geometry),
            CoreEvent::OutputRemoved { id } => self.on_output_removed(id),
            CoreEvent::PointerMotion { x, y } => self.on_pointer_motion(x, y),
            CoreEvent::PointerButton { button, pressed } => self.on_pointer_button(button, pressed),
            CoreEvent::Tick => self.on_tick(),
        }
    }

    /// Run one tick: relayout and visibility, only when the layout is dirty.
    pub fn tick(&mut self) -> (r: Vec<CoreAction>)
        requires
            old(self).wf(),
        ensures
            final(self).wf(),
            old(self).state.inv() ==> final(self).state.inv(),
            !final(self).state.layout_dirty,
            !old(self).state.layout_dirty ==> r@.len() == 0 && final(self).state == old(self).state,
            old(self).state.layout_dirty ==> match old(self).state.focus.focused_workspace {
                Some(id) => match old(self).state.ws_index(id) {
                    Some(k) => r@ == geometry_actions(
                        final(self).state.ws_entries()[k].1.tiled_windows@,
                        final(self).state.ws_entries()[k].1.layout.window_geometries@,
                    ) && final(self).state.ws_entries()[k].1.tiled_windows == old(self).state.ws_entries()[k].1.tiled_windows
                    && laid_out(
                        old(self).state.ws_entries()[k].1.layout,
                        final(self).state.ws_entries()[k].1.layout,
                        old(self).state.ws_entries()[k].1.work_area,
                        old(self).state.config.gaps.outer,
                    ),
                    None => r@.len() == 0,
                },
                None => r@.len() == 0,
            },
            final(self).state.focus == old(self).state.focus,
            final(self).should_exit == old(self).should_exit,
            final(self).next_wid == old(self).next_wid,
            old(self).state.layout_dirty ==> visibility_post(old(self), final(self)),
            old(self).state.layout_dirty ==> final(self).state.scratch_ok(final(self).scratchpad_visible@),
            final(self).state.scratchpad == old(self).state.scratchpad,
            final(self).scratchpad_visible == old(self).scratchpad_visible,
    {
        self.on_tick()
    }

    /// Reload configuration: the new configuration replaces the old one, its
    /// key bindings are loaded, and the layout is marked dirty.
    pub fn reload_config(&mut self, config: Config)
        requires
            old(self).wf(),
        ensures
            final(self).wf(),
            old(self).state.inv() ==> final(self).state.inv(),
            final(self).state.config == config,
            final(self).state == (State { config: final(self).state.config, layout_dirty: true, ..old(self).state }),
            final(self).next_wid == old(self).next_wid,
            final(self).should_exit == old(self).should_exit,
            final(self).input_manager.current_mode == old(self).input_manager.current_mode,
            forall|n: Seq<char>| old(self).input_manager.has_mode(n) ==> final(self).input_manager.has_mode(n),
            forall|i: int| 0 <= i < config.bindings@.len() && #[trigger] KeyBinding::parse_ok(config.bindings@[i].keys@)
                && !superseded(config.bindings@, i, config.bindings@.len() as int) ==> match final(self).input_manager.bound(
                config.bindings@[i].mode@,
                KeyBinding::spec_parse(config.bindings@[i].keys@),
            ) {
                Some(c) => command_text_post(c, config.bindings@[i].command@),
                None => false,
            },
    {
        self.input_manager.load_bindings(config.bindings.as_slice());
        self.state.config = config;
        self.state.layout_dirty = true;
    }

    /// Set, clear or flip a flag of the focused window; true when it was done.
    fn toggle_flag_of_focused(&mut self, flag: u32, toggle: Toggle) -> (r: Option<(WindowId, bool, bool)>)
        requires
            old(self).wf(),
            crate::window::single_bit(flag),
        ensures
            final(self).wf(),
            old(self).state.inv() ==> final(self).state.inv(),
            final(self).state.focus == old(self).state.focus,
            final(self).state.workspaces == old(self).state.workspaces,
            final(self).state.marks == old(self).state.marks,
            final(self).state.same_windows(&old(self).state),
            final(self).state.layout_dirty == old(self).state.layout_dirty,
            final(self).should_exit == old(self).should_exit,
            final(self).next_wid == old(self).next_wid,
            final(self).input_manager == old(self).input_manager,
            final(self).scratchpad_visible == old(self).scratchpad_visible,
            forall|id: WindowId| final(self).state.has_window(id) == old(self).state.has_window(id),
            forall|id: WindowId| final(self).state.window_index(id) == old(self).state.window_index(id),
            match old(self).state.focus.focused_window {
                Some(w) if old(self).state.has_window(w) => {
                    let was = old(self).state.win(w).state.has(flag);
                    let now = match toggle {
                        Toggle::Enable => true,
                        Toggle::Disable => false,
                        Toggle::Switch => !was,
                    };
                    &&& r == Some((w, was, now))
                    &&& final(self).state.win(w).state.has(flag) == now
                    &&& forall|g: u32| crate::window::single_bit(g) && g != flag
                        ==> (#[trigger] final(self).state.win(w).state.has(g)) == old(self).state.win(w).state.has(g)
                },
                _ => r is None && final(self).state == old(self).state,
            },
    {
        let wid = match self.state.focus.focused_window {
            Some(w) => w,
            None => {
                return None;
            },
        };
        let i = match self.state.find_window_index(wid) {
            Some(i) => i,
            None => {
                return None;
            },
        };
        let was = self.state.windows[i].state.contains(flag);
        let now = match toggle {
            Toggle::Enable => true,
            Toggle::Disable => false,
            Toggle::Switch => !was,
        };
        let ghost s0 = self.state;
        let ghost b = s0.windows@[i as int].state.bits;
        self.state.set_window_flag(i, flag, now);
        proof {
            State::lemma_window_replaced(&s0, &self.state, i as int);
            crate::window::lemma_flag_ops(b, flag, flag);
            assert forall|g: u32| crate::window::single_bit(g) && g != flag
                implies (#[trigger] self.state.win(wid).state.has(g)) == s0.win(wid).state.has(g) by {
                crate::window::lemma_flag_ops(b, flag, g);
            }
            assert(self.state.same_windows(&s0));
        }
        Some((wid, was, now))
    }

    /// Float, tile or flip the focused window, moving it between its
    /// workspace's tiled and floating lists; focus does not change.
    fn cmd_floating(&mut self, toggle: Toggle) -> (r: Vec<CoreAction>)
        requires
            old(self).wf(),
        ensures
            final(self).wf(),
            old(self).state.inv() ==> final(self).state.inv(),
            final(self).should_exit == old(self).should_exit,
            final(self).next_wid == old(self).next_wid,
            floating_post(old(self), final(self), toggle, r@),
    {
        let mut actions: Vec<CoreAction> = Vec::new();
        proof {
            assert(0x10u32 != 0 && 0x10u32 & ((0x10u32 - 1) as u32) == 0) by (bit_vector);
        }
        let (wid, was, now) = match self.toggle_flag_of_focused(WindowState::FLOATING, toggle) {
            Some(t) => t,
            None => {
                return actions;
            },
        };
        let ghost s1 = self.state;
        proof {
            crate::state::lemma_find_window(old(self).state.windows@, wid, 0);
            assert(s1.win(wid).workspace == old(self).state.win(wid).workspace);
        }
        if was != now {
            actions.push(CoreAction::SetFloating { id: wid, floating: now });
            if let Some(i) = self.state.find_window_index(wid) {
                if let Some(ws_id) = self.state.windows[i].workspace {
                    if let Some(k) = self.state.find_workspace_index(ws_id) {
                        proof {
                            assert(old(self).state.ws_index(ws_id) == Some(k as int));
                        }
                        if now {
                            self.state.float_in_workspace(k, wid);
                        } else {
                            self.state.tile_in_workspace(k, wid);
                        }
                    }
                }
            }
            self.state.layout_dirty = true;
            let ghost s2 = self.state;
            let mut rest = self.relayout_actions();
            proof {
                assert(self.state.windows == s2.windows);
                assert forall|j: int| 0 <= j < s2.ws_entries().len() implies
                    self.state.ws_entries()[j].1.tiled_windows@ == s2.ws_entries()[j].1.tiled_windows@
                    && self.state.ws_entries()[j].1.floating_windows@ == s2.ws_entries()[j].1.floating_windows@
                    && (#[trigger] self.state.ws_entries()[j]).0 == s2.ws_entries()[j].0 by {
                }
            }
            actions.append(&mut rest);
        }
        actions
    }

    /// Enter, leave or flip fullscreen for the focused window, on the first
    /// output (1920x1080 at the origin when there is none).
    fn cmd_fullscreen(&mut self, toggle: Toggle) -> (r: Vec<CoreAction>)
        requires
            old(self).wf(),
        ensures
            final(self).wf(),
            old(self).state.inv() ==> final(self).state.inv(),
            final(self).state.focus == old(self).state.focus,
            final(self).should_exit == old(self).should_exit,
            final(self).next_wid == old(self).next_wid,
            match old(self).state.focus.focused_window {
                Some(w) if old(self).state.has_window(w) => r@.len() == 1 && (r@[0] matches CoreAction::SetWindowGeometry { id, .. } && id == w),
                _ => r@.len() == 0 && final(self).state == old(self).state,
            },
    {
        let wid = match self.state.focus.focused_window {
            Some(w) => w,
            None => {
                return Vec::new();
            },
        };
        let i = match self.state.find_window_index(wid) {
            Some(i) => i,
            None => {
                return Vec::new();
            },
        };
        let enable = match toggle {
            Toggle::Enable => true,
            Toggle::Disable => false,
            Toggle::Switch => !self.state.windows[i].state.contains(WindowState::FULLSCREEN),
        };
        let output_geo = match output_table_first(&self.state.outputs) {
            Some(o) => o.geometry,
            None => Geometry::new(0, 0, 1920, 1080),
        };
        self.state.set_window_fullscreen(i, enable, output_geo);
        let g = self.state.windows[i].geometry;
        let mut v: Vec<CoreAction> = Vec::new();
        v.push(CoreAction::SetWindowGeometry { id: wid, x: g.x, y: g.y, w: g.width, h: g.height });
        v
    }

    /// Switch to the targeted workspace: report the change and the new focus,
    /// then lay out.
    fn cmd_switch_workspace(&mut self, target: WorkspaceTarget) -> (r: Vec<CoreAction>)
        requires
            old(self).wf(),
        ensures
            final(self).wf(),
            old(self).state.inv() ==> final(self).state.inv(),
            final(self).should_exit == old(self).should_exit,
            final(self).next_wid == old(self).next_wid,
            match old(self).state.spec_resolve(target) {
                Some(id) => {
                    &&& r@.len() >= 2
                    &&& r@[0] == (CoreAction::WorkspaceChanged { active: Some(id) })
                    &&& r@[1] == (CoreAction::SetFocus { id: final(self).state.focus.focused_window })
                    &&& final(self).state.layout_dirty
                    &&& {
                        let top = old(self).state.ws(id).focus_stack@;
                        if top.len() > 0 && old(self).state.has_window(top.last()) {
                            final(self).state.focus.focused_window == Some(top.last())
                                && final(self).state.focus.focused_workspace == match old(self).state.win(top.last()).workspace {
                                    Some(w) => Some(w),
                                    None => Some(id),
                                }
                        } else {
                            final(self).state.focus.focused_workspace == Some(id)
                                && final(self).state.focus.focused_window == old(self).state.focus.focused_window
                        }
                    }
                    &&& final(self).state.lists_kept(&old(self).state)
                    &&& final(self).state.marks == old(self).state.marks
                    &&& final(self).state.scratchpad == old(self).state.scratchpad
                    &&& final(self).state.scratch_ok(final(self).scratchpad_visible@)
                },
                None => r@.len() == 0 && final(self).state == old(self).state,
            },
    {
        match self.resolve_workspace_target(&target) {
            Some(id) => {
                self.state.switch_workspace(id);
                let ghost c1 = *self;
                self.update_window_visibility();
                proof {
                    lemma_visibility_pass_scratch_ok(&c1, self);
                }
                let mut actions: Vec<CoreAction> = Vec::new();
                actions.push(CoreAction::WorkspaceChanged { active: Some(id) });
                actions.push(CoreAction::SetFocus { id: self.state.focus.focused_window });
                let ghost c2 = *self;
                let mut rest = self.relayout_actions();
                proof {
                    lemma_relayout_keeps_scratch(&c2, self);
                }
                actions.append(&mut rest);
                actions
            },
            None => Vec::new(),
        }
    }

    /// Move the focused window to the targeted workspace (as a tiled window).
    fn cmd_move_to_workspace(&mut self, target: WorkspaceTarget) -> (r: Vec<CoreAction>)
        requires
            old(self).wf(),
        ensures
            final(self).wf(),
            old(self).state.inv() ==> final(self).state.inv(),
            final(self).state.focus == old(self).state.focus,
            final(self).should_exit == old(self).should_exit,
            final(self).next_wid == old(self).next_wid,
            match (old(self).state.focus.focused_window, old(self).state.spec_resolve(target)) {
                (Some(w), Some(id)) => (old(self).state.has_window(w) ==> final(self).state.win(w).workspace == Some(id))
                    && final(self).state.scratch_ok(final(self).scratchpad_visible@),
                _ => r@.len() == 0 && final(self).state == old(self).state,
            },
    {
        let wid = match self.state.focus.focused_window {
            Some(w) => w,
            None => {
                return Vec::new();
            },
        };
        let ws_id = match self.resolve_workspace_target(&target) {
            Some(id) => id,
            None => {
                return Vec::new();
            },
        };
        self.state.move_window_to_workspace(wid, ws_id);
        let ghost s1 = self.state;
        let ghost c1 = *self;
        self.update_window_visibility();
        proof {
            lemma_visibility_pass_scratch_ok(&c1, self);
        }
        let ghost c2 = *self;
        let r = self.relayout_actions();
        proof {
            lemma_relayout_keeps_scratch(&c2, self);
        }
        proof {
            crate::state::lemma_find_window_same(s1.windows@, self.state.windows@, wid, 0);
            crate::state::lemma_find_window(s1.windows@, wid, 0);
            if s1.has_window(wid) {
                let i = s1.window_index(wid)->0;
                assert(self.state.window_index(wid) == Some(i));
                assert(self.state.windows@[i].workspace == s1.windows@[i].workspace);
            }
        }
        r
    }

    /// Show the first scratchpad window (focusing it) or hide it again.
    fn cmd_toggle_scratchpad(&mut self) -> (r: Vec<CoreAction>)
        requires
            old(self).wf(),
        ensures
            final(self).wf(),
            old(self).state.inv() ==> final(self).state.inv(),
            final(self).should_exit == old(self).should_exit,
            final(self).next_wid == old(self).next_wid,
            old(self).state.scratchpad@.len() == 0 ==> r@.len() == 0 && final(self).state == old(self).state,
            old(self).state.scratchpad@.len() > 0 && !old(self).scratchpad_visible@.contains(old(self).state.scratchpad@[0])
                && old(self).state.has_window(old(self).state.scratchpad@[0])
                ==> r@ == seq![CoreAction::SetFocus { id: Some(old(self).state.scratchpad@[0]) }]
                    && final(self).state.focus.focused_window == Some(old(self).state.scratchpad@[0]),
            old(self).state.scratchpad@.len() > 0 ==> final(self).state.scratch_ok(final(self).scratchpad_visible@),
            old(self).state.scratchpad@.len() > 0 ==> {
                let w = old(self).state.scratchpad@[0];
                &&& old(self).scratchpad_visible@.contains(w) ==> r@.len() == 0
                    && final(self).scratchpad_visible@ == old(self).scratchpad_visible@.filter(crate::window::other_than(w))
                    && final(self).state.focus == old(self).state.focus
                &&& !old(self).scratchpad_visible@.contains(w) ==> final(self).scratchpad_visible@
                    == old(self).scratchpad_visible@.push(w)
            },
    {
        let mut actions: Vec<CoreAction> = Vec::new();
        if self.state.scratchpad.len() == 0 {
            return actions;
        }
        let wid = self.state.scratchpad[0];
        if let Some(pos) = index_of(&self.scratchpad_visible, wid) {
            crate::window::remove_id(&mut self.scratchpad_visible, wid);
        } else {
            self.scratchpad_visible.push(wid);
            self.state.focus_window(wid);
            actions.push(CoreAction::SetFocus { id: Some(wid) });
        }
        let ghost c1 = *self;
        self.update_window_visibility();
        proof {
            lemma_visibility_pass_scratch_ok(&c1, self);
        }
        actions
    }

    /// Execute a command (from a binding, IPC, ...); returns the actions to
    /// apply, in order. Commands that need a focused window do nothing
    /// without one.
    pub fn exec(&mut self, command: Command) -> (r: Vec<CoreAction>)
        requires
            old(self).wf(),
        ensures
            final(self).wf(),
            old(self).state.inv() ==> final(self).state.inv(),
            final(self).next_wid == old(self).next_wid,
            final(self).should_exit == (old(self).should_exit || command is Exit),
            scratch_post(old(self), final(self), command),
            match command {
                Command::Exec(c) => r@ == seq![CoreAction::SpawnProcess { command: c }] && final(self).state == old(self).state,
                Command::ExecAlways(c) => r@ == seq![CoreAction::SpawnProcess { command: c }] && final(self).state == old(self).state,
                Command::Kill => final(self).state == old(self).state && r@ == match old(self).state.focus.focused_window {
                    Some(w) => seq![CoreAction::RequestClose { id: w }],
                    None => Seq::<CoreAction>::empty(),
                },
                Command::Reload => r@ == seq![CoreAction::ReloadConfig] && final(self).state == old(self).state,
                Command::Exit => r@ == seq![CoreAction::Exit] && final(self).state == old(self).state,
                Command::Restart => r@.len() == 0 && final(self).state == old(self).state,
                Command::Floating(t) => floating_post(old(self), final(self), t, r@),
                Command::Sticky(t) => r@.len() == 0 && final(self).state.focus == old(self).state.focus
                    && match old(self).state.focus.focused_window {
                    Some(w) if old(self).state.has_window(w) => final(self).state.win(w).state.has(WindowState::STICKY)
                        == match t {
                        Toggle::Enable => true,
                        Toggle::Disable => false,
                        Toggle::Switch => !old(self).state.win(w).state.has(WindowState::STICKY),
                    },
                    _ => final(self).state == old(self).state,
                },
                Command::Workspace(t) => match old(self).state.spec_resolve(t) {
                    Some(id) => r@.len() >= 2 && r@[0] == (CoreAction::WorkspaceChanged { active: Some(id) })
                        && r@[1] == (CoreAction::SetFocus { id: final(self).state.focus.focused_window })
                        && ({
                            let top = old(self).state.ws(id).focus_stack@;
                            if top.len() > 0 && old(self).state.has_window(top.last()) {
                                final(self).state.focus.focused_window == Some(top.last())
                                    && final(self).state.focus.focused_workspace == match old(self).state.win(top.last()).workspace {
                                        Some(w) => Some(w),
                                        None => Some(id),
                                    }
                            } else {
                                final(self).state.focus.focused_workspace == Some(id)
                                    && final(self).state.focus.focused_window == old(self).state.focus.focused_window
                            }
                        })
                        && final(self).state.lists_kept(&old(self).state)
                        && final(self).state.marks == old(self).state.marks
                        && final(self).state.scratchpad == old(self).state.scratchpad,
                    None => r@.len() == 0 && final(self).state == old(self).state,
                },
                Command::MoveToWorkspace(t) => final(self).state.focus == old(self).state.focus
                    && match (old(self).state.focus.focused_window, old(self).state.spec_resolve(t)) {
                    (Some(w), Some(id)) => old(self).state.has_window(w) ==> final(self).state.win(w).workspace == Some(id),
                    _ => r@.len() == 0 && final(self).state == old(self).state,
                },
                Command::MoveToScratchpad => final(self).state.focus == old(self).state.focus
                    && match old(self).state.focus.focused_window {
                    Some(w) => final(self).state.scratchpad@.contains(w) == !old(self).state.scratchpad@.contains(w)
                        && (old(self).state.has_window(w) ==> final(self).state.win(w).state.has(WindowState::HIDDEN)
                        == !old(self).state.scratchpad@.contains(w)),
                    None => r@.len() == 0 && final(self).state == old(self).state,
                },
                Command::Mark(m) => r@.len() == 0 && match old(self).state.focus.focused_window {
                    Some(w) => final(self).state.mark_target(m@) == Some(w),
                    None => final(self).state == old(self).state,
                },
                Command::Unmark(m) => r@.len() == 0 && match m {
                    Some(name) => final(self).state.mark_target(name@) is None
                        && forall|n: Seq<char>| n != name@ ==> final(self).state.mark_target(n) == old(self).state.mark_target(n),
                    None => final(self).state.marks@.len() == 0,
                },
                Command::GotoMark(m) => r@ == (if final(self).state.focus.focused_workspace != old(self).state.focus.focused_workspace {
                    seq![
                        CoreAction::WorkspaceChanged { active: final(self).state.focus.focused_workspace },
                        CoreAction::SetFocus { id: final(self).state.focus.focused_window },
                    ]
                } else {
                    seq![CoreAction::SetFocus { id: final(self).state.focus.focused_window }]
                })
                    && final(self).state.marks == old(self).state.marks
                    && match old(self).state.mark_target(m@) {
                        Some(w) => old(self).state.has_window(w) ==> final(self).state.focus.focused_window == Some(w),
                        None => true,
                    },
                Command::Mode(name) => r@.len() == 0 && final(self).state == old(self).state
                    && (old(self).input_manager.has_mode(name@) ==> final(self).input_manager.current_mode@ == name@),
                Command::Fullscreen(_) => final(self).state.focus == old(self).state.focus
                    && match old(self).state.focus.focused_window {
                    Some(w) if old(self).state.has_window(w) => r@.len() == 1
                        && (r@[0] matches CoreAction::SetWindowGeometry { id, .. } && id == w),
                    _ => r@.len() == 0 && final(self).state == old(self).state,
                },
                Command::ScratchpadShow => (old(self).state.scratchpad@.len() == 0 ==> r@.len() == 0
                    && final(self).state == old(self).state)
                    && (old(self).state.scratchpad@.len() > 0
                    && !old(self).scratchpad_visible@.contains(old(self).state.scratchpad@[0])
                    && old(self).state.has_window(old(self).state.scratchpad@[0])
                    ==> r@ == seq![CoreAction::SetFocus { id: Some(old(self).state.scratchpad@[0]) }]
                    && final(self).state.focus.focused_window == Some(old(self).state.scratchpad@[0])),
                Command::Unknown(_) | Command::Split(_) | Command::Layout(_) | Command::Resize(_, _)
                | Command::Gaps(_) | Command::Bar(_) | Command::Focus(_) | Command::Move(_) => r@.len() == 0
                    && final(self).state == old(self).state,
            },
    {
        self.execute_command(command)
    }

    fn execute_command(&mut self, command: Command) -> (r: Vec<CoreAction>)
        requires
            old(self).wf(),
        ensures
            final(self).wf(),
            old(self).state.inv() ==> final(self).state.inv(),
            final(self).next_wid == old(self).next_wid,
            final(self).should_exit == (old(self).should_exit || command is Exit),
            scratch_post(old(self), final(self), command),
            match command {
                Command::Exec(c) => r@ == seq![CoreAction::SpawnProcess { command: c }] && final(self).state == old(self).state,
                Command::ExecAlways(c) => r@ == seq![CoreAction::SpawnProcess { command: c }] && final(self).state == old(self).state,
                Command::Kill => final(self).state == old(self).state && r@ == match old(self).state.focus.focused_window {
                    Some(w) => seq![CoreAction::RequestClose { id: w }],
                    None => Seq::<CoreAction>::empty(),
                },
                Command::Reload => r@ == seq![CoreAction::ReloadConfig] && final(self).state == old(self).state,
                Command::Exit => r@ == seq![CoreAction::Exit] && final(self).state == old(self).state,
                Command::Restart => r@.len() == 0 && final(self).state == old(self).state,
                Command::Floating(t) => floating_post(old(self), final(self), t, r@),
                Command::Sticky(t) => r@.len() == 0 && final(self).state.focus == old(self).state.focus
                    && match old(self).state.focus.focused_window {
                    Some(w) if old(self).state.has_window(w) => final(self).state.win(w).state.has(WindowState::STICKY)
                        == match t {
                        Toggle::Enable => true,
                        Toggle::Disable => false,
                        Toggle::Switch => !old(self).state.win(w).state.has(WindowState::STICKY),
                    },
                    _ => final(self).state == old(self).state,
                },
                Command::Workspace(t) => match old(self).state.spec_resolve(t) {
                    Some(id) => r@.len() >= 2 && r@[0] == (CoreAction::WorkspaceChanged { active: Some(id) })
                        && r@[1] == (CoreAction::SetFocus { id: final(self).state.focus.focused_window })
                        && ({
                            let top = old(self).state.ws(id).focus_stack@;
                            if top.len() > 0 && old(self).state.has_window(top.last()) {
                                final(self).state.focus.focused_window == Some(top.last())
                                    && final(self).state.focus.focused_workspace == match old(self).state.win(top.last()).workspace {
                                        Some(w) => Some(w),
                                        None => Some(id),
                                    }
                            } else {
                                final(self).state.focus.focused_workspace == Some(id)
                                    && final(self).state.focus.focused_window == old(self).state.focus.focused_window
                            }
                        })
                        && final(self).state.lists_kept(&old(self).state)
                        && final(self).state.marks == old(self).state.marks
                        && final(self).state.scratchpad == old(self).state.scratchpad,
                    None => r@.len() == 0 && final(self).state == old(self).state,
                },
                Command::MoveToWorkspace(t) => final(self).state.focus == old(self).state.focus
                    && match (old(self).state.focus.focused_window, old(self).state.spec_resolve(t)) {
                    (Some(w), Some(id)) => old(self).state.has_window(w) ==> final(self).state.win(w).workspace == Some(id),
                    _ => r@.len() == 0 && final(self).state == old(self).state,
                },
                Command::MoveToScratchpad => final(self).state.focus == old(self).state.focus
                    && match old(self).state.focus.focused_window {
                    Some(w) => final(self).state.scratchpad@.contains(w) == !old(self).state.scratchpad@.contains(w)
                        && (old(self).state.has_window(w) ==> final(self).state.win(w).state.has(WindowState::HIDDEN)
                        == !old(self).state.scratchpad@.contains(w)),
                    None => r@.len() == 0 && final(self).state == old(self).state,
                },
                Command::Mark(m) => r@.len() == 0 && match old(self).state.focus.focused_window {
                    Some(w) => final(self).state.mark_target(m@) == Some(w),
                    None => final(self).state == old(self).state,
                },
                Command::Unmark(m) => r@.len() == 0 && match m {
                    Some(name) => final(self).state.mark_target(name@) is None
                        && forall|n: Seq<char>| n != name@ ==> final(self).state.mark_target(n) == old(self).state.mark_target(n),
                    None => final(self).state.marks@.len() == 0,
                },
                Command::GotoMark(m) => r@ == (if final(self).state.focus.focused_workspace != old(self).state.focus.focused_workspace {
                    seq![
                        CoreAction::WorkspaceChanged { active: final(self).state.focus.focused_workspace },
                        CoreAction::SetFocus { id: final(self).state.focus.focused_window },
                    ]
                } else {
                    seq![CoreAction::SetFocus { id: final(self).state.focus.focused_window }]
                })
                    && final(self).state.marks == old(self).state.marks
                    && match old(self).state.mark_target(m@) {
                        Some(w) => old(self).state.has_window(w) ==> final(self).state.focus.focused_window == Some(w),
                        None => true,
                    },
                Command::Mode(name) => r@.len() == 0 && final(self).state == old(self).state
                    && (old(self).input_manager.has_mode(name@) ==> final(self).input_manager.current_mode@ == name@),
                Command::Fullscreen(_) => final(self).state.focus == old(self).state.focus
                    && match old(self).state.focus.focused_window {
                    Some(w) if old(self).state.has_window(w) => r@.len() == 1
                        && (r@[0] matches CoreAction::SetWindowGeometry { id, .. } && id == w),
                    _ => r@.len() == 0 && final(self).state == old(self).state,
                },
                Command::ScratchpadShow => (old(self).state.scratchpad@.len() == 0 ==> r@.len() == 0
                    && final(self).state == old(self).state)
                    && (old(self).state.scratchpad@.len() > 0
                    && !old(self).scratchpad_visible@.contains(old(self).state.scratchpad@[0])
                    && old(self).state.has_window(old(self).state.scratchpad@[0])
                    ==> r@ == seq![CoreAction::SetFocus { id: Some(old(self).state.scratchpad@[0]) }]
                    && final(self).state.focus.focused_window == Some(old(self).state.scratchpad@[0])),
                Command::Unknown(_) | Command::Split(_) | Command::Layout(_) | Command::Resize(_, _)
                | Command::Gaps(_) | Command::Bar(_) | Command::Focus(_) | Command::Move(_) => r@.len() == 0
                    && final(self).state == old(self).state,
            },
    {
        let mut actions: Vec<CoreAction> = Vec::new();
        match command {
            Command::Exec(cmd) | Command::ExecAlways(cmd) => {
                actions.push(CoreAction::SpawnProcess { command: cmd });
            },
            Command::Kill => {
                if let Some(wid) = self.state.focus.focused_window {
                    actions.push(CoreAction::RequestClose { id: wid });
                }
            },
            Command::Floating(toggle) => {
                actions = self.cmd_floating(toggle);
            },
            Command::Fullscreen(toggle) => {
                actions = self.cmd_fullscreen(toggle);
            },
            Command::Sticky(toggle) => {
                proof {
                    assert(0x20u32 != 0 && 0x20u32 & ((0x20u32 - 1) as u32) == 0) by (bit_vector);
                }
                self.toggle_flag_of_focused(WindowState::STICKY, toggle);
            },
            Command::Workspace(target) => {
                actions = self.cmd_switch_workspace(target);
            },
            Command::MoveToWorkspace(target) => {
                actions = self.cmd_move_to_workspace(target);
            },
            Command::ScratchpadShow => {
                actions = self.cmd_toggle_scratchpad();
            },
            Command::MoveToScratchpad => {
                if let Some(wid) = self.state.focus.focused_window {
                    self.state.toggle_scratchpad(wid);
                    let ghost s1 = self.state;
                    actions = self.relayout_actions();
                    proof {
                        crate::state::lemma_find_window(s1.windows@, wid, 0);
                    }
                }
            },
            Command::Mark(mark) => {
                if let Some(wid) = self.state.focus.focused_window {
                    self.state.set_mark(mark, wid);
                }
            },
            Command::GotoMark(mark) => {
                let prev_ws = self.state.focus.focused_workspace;
                self.state.goto_mark(mark.as_str());
                if self.state.focus.focused_workspace != prev_ws {
                    actions.push(CoreAction::WorkspaceChanged { active: self.state.focus.focused_workspace });
                }
                actions.push(CoreAction::SetFocus { id: self.state.focus.focused_window });
            },
            Command::Unmark(mark) => {
                match mark {
                    Some(m) => self.state.remove_mark(m.as_str()),
                    None => self.state.clear_marks(),
                }
            },
            Command::Reload => {
                actions.push(CoreAction::ReloadConfig);
            },
            Command::Restart => {},
            Command::Exit => {
                self.should_exit = true;
                actions.push(CoreAction::Exit);
            },
            Command::Mode(mode_name) => {
                self.input_manager.set_mode(mode_name.as_str());
            },
            Command::Focus(_) | Command::Move(_) | Command::Split(_) | Command::Layout(_) | Command::Resize(_, _)
            | Command::Gaps(_) | Command::Bar(_) | Command::Unknown(_) => {},
        }
        proof {
            if leaves_windows(command) {
                crate::invariants::lemma_conflicts_kept(&old(self).state, &self.state);
            }
            if command is GotoMark {
                crate::invariants::lemma_conflicts_kept_flags(&old(self).state, &self.state);
            }
        }
        actions
    }
}

} // verus!
