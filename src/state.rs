//! Core state: geometry, focus bookkeeping and the aggregate store.
use vstd::prelude::*;

use indexmap::IndexMap;

use crate::config::Config;
use crate::text::str_eq;
use crate::tables::{
    key_index, keys_unique, output_entries, workspace_entries, workspace_table_at,
    workspace_table_at_mut, workspace_table_len, workspace_table_new, workspace_table_push,
};
use crate::window::{index_of, other_than, remove_id, Window, WindowId, WindowState};
use crate::workspace::{Workspace, WorkspaceId};

verus! {

/// Geometry of a rectangular region.
#[derive(Debug, Clone, Copy, PartialEq, Eq, Default)]
pub struct Geometry {
    pub x: i32,
    pub y: i32,
    pub width: u32,
    pub height: u32,
}

impl Geometry {
    /// The right edge, as a mathematical integer.
    pub open spec fn right(self) -> int {
        self.x + self.width
    }

    /// The bottom edge, as a mathematical integer.
    pub open spec fn bottom(self) -> int {
        self.y + self.height
    }

    /// Both far edges are representable as `i32` coordinates.
    pub open spec fn fits(self) -> bool {
        self.right() <= i32::MAX && self.bottom() <= i32::MAX
    }

    pub open spec fn spec_contains(self, x: int, y: int) -> bool {
        self.x <= x < self.right() && self.y <= y < self.bottom()
    }

    pub open spec fn spec_intersects(self, other: Geometry) -> bool {
        self.x < other.right() && self.right() > other.x && self.y < other.bottom()
            && self.bottom() > other.y
    }

    pub fn new(x: i32, y: i32, width: u32, height: u32) -> (r: Self)
        ensures
            r == (Geometry { x, y, width, height }),
    {
        Geometry { x, y, width, height }
    }

    /// Whether the point lies inside the rectangle (right and bottom edges excluded).
    pub fn contains(self, x: i32, y: i32) -> (r: bool)
        ensures
            r == self.spec_contains(x as int, y as int),
    {
        let right = self.x as i64 + self.width as i64;
        let bottom = self.y as i64 + self.height as i64;
        x >= self.x && (x as i64) < right && y >= self.y && (y as i64) < bottom
    }

    /// Whether the half-open extents overlap strictly on both axes: each
    /// rectangle starts before the other ends (an empty rectangle lying inside
    /// another counts as intersecting).
    pub fn intersects(self, other: Self) -> (r: bool)
        ensures
            r == self.spec_intersects(other),
    {
        let sr = self.x as i64 + self.width as i64;
        let sb = self.y as i64 + self.height as i64;
        let or = other.x as i64 + other.width as i64;
        let ob = other.y as i64 + other.height as i64;
        (self.x as i64) < or && sr > other.x as i64 && (self.y as i64) < ob && sb > other.y as i64
    }
}

/// Output (monitor) information.
#[derive(Debug, Clone)]
pub struct Output {
    pub id: u64,
    pub name: String,
    pub geometry: Geometry,
    pub refresh_rate: u32,
    pub workspaces: Vec<WorkspaceId>,
    pub active_workspace: Option<WorkspaceId>,
}

/// The bound on the focus history.
pub const FOCUS_HISTORY_LIMIT: usize = 100;

/// Focus tracking.
#[derive(Debug, Clone)]
pub struct FocusState {
    pub focused_window: Option<WindowId>,
    pub previous_window: Option<WindowId>,
    pub focused_workspace: Option<WorkspaceId>,
    /// Previously focused windows, most recent last, at most 100.
    pub focus_history: Vec<WindowId>,
}

impl FocusState {
    pub fn new() -> (r: Self)
        ensures
            r.focused_window is None && r.previous_window is None && r.focused_workspace is None,
            r.focus_history@.len() == 0,
    {
        FocusState { focused_window: None, previous_window: None, focused_workspace: None, focus_history: Vec::new() }
    }

    /// Focus a window: the one focused before moves to the top of the
    /// history (once), and the history keeps its 100 most recent entries.
    pub fn set_focused(&mut self, window_id: WindowId)
        requires
            old(self).focus_history@.len() <= FOCUS_HISTORY_LIMIT,
        ensures
            final(self).focus_history@.len() <= FOCUS_HISTORY_LIMIT,
            final(self).focused_workspace == old(self).focused_workspace,
            final(self).focused_window == Some(window_id),
            old(self).focused_window == Some(window_id) ==> *final(self) == *old(self),
            old(self).focused_window is None ==> *final(self) == (FocusState { focused_window: Some(window_id), previous_window: None, ..*old(self) }),
            match old(self).focused_window {
                Some(prev) => prev != window_id ==> {
                    let h = old(self).focus_history@.filter(other_than(prev)).push(prev);
                    &&& final(self).previous_window == Some(prev)
                    &&& final(self).focus_history@ == if h.len() > FOCUS_HISTORY_LIMIT { h.drop_first() } else { h }
                },
                None => true,
            },
    {
        if self.focused_window != Some(window_id) {
            self.previous_window = self.focused_window;
            if let Some(prev) = self.focused_window {
                proof {
                    broadcast use vstd::seq_lib::group_filter_ensures;
                }
                remove_id(&mut self.focus_history, prev);
                self.focus_history.push(prev);
                if self.focus_history.len() > FOCUS_HISTORY_LIMIT {
                    self.focus_history.remove(0);
                }
            }
            self.focused_window = Some(window_id);
        }
    }

    /// Clear the focus, remembering what was focused.
    pub fn clear_focused(&mut self)
        ensures
            final(self).previous_window == old(self).focused_window,
            final(self).focused_window is None,
            final(self).focused_workspace == old(self).focused_workspace,
            final(self).focus_history == old(self).focus_history,
    {
        self.previous_window = self.focused_window;
        self.focused_window = None;
    }
}

/// The interactive operation of a pointer grab.
#[derive(Debug, Clone, Copy, PartialEq, Eq, Structural)]
pub enum GrabOperation {
    Move,
    Resize,
}

/// The edges that a resize grab moves, as a bitmask.
#[derive(Debug, Clone, Copy, PartialEq, Eq, Structural)]
pub struct ResizeEdges {
    pub bits: u8,
}

impl ResizeEdges {
    pub const TOP: u8 = 0x1;
    pub const BOTTOM: u8 = 0x2;
    pub const LEFT: u8 = 0x4;
    pub const RIGHT: u8 = 0x8;

    pub open spec fn has(self, edge: u8) -> bool {
        self.bits & edge == edge
    }

    pub fn empty() -> (r: Self)
        ensures
            r.bits == 0,
    {
        ResizeEdges { bits: 0 }
    }

    pub fn from_bits(bits: u8) -> (r: Self)
        ensures
            r.bits == bits,
    {
        ResizeEdges { bits }
    }

    pub fn contains(&self, edge: u8) -> (r: bool)
        ensures
            r == self.has(edge),
    {
        self.bits & edge == edge
    }
}

/// State of a window move or resize in progress.
#[derive(Debug, Clone, Copy)]
pub struct GrabbedWindow {
    pub window_id: WindowId,
    pub initial_geometry: Geometry,
    pub initial_pointer: (i32, i32),
    pub operation: GrabOperation,
    pub edges: ResizeEdges,
}

/// Index of the first window with this id, searching from `i`.
pub open spec fn find_window(ws: Seq<Window>, id: WindowId, i: int) -> Option<int>
    decreases ws.len() - i,
{
    if i < 0 || i >= ws.len() {
        None
    } else if ws[i].id == id {
        Some(i)
    } else {
        find_window(ws, id, i + 1)
    }
}

pub proof fn lemma_find_window(ws: Seq<Window>, id: WindowId, i: int)
    requires
        0 <= i,
    ensures
        match find_window(ws, id, i) {
            Some(k) => i <= k < ws.len() && ws[k].id == id && forall|j: int| i <= j < k ==> ws[j].id != id,
            None => forall|j: int| i <= j < ws.len() ==> ws[j].id != id,
        },
    decreases ws.len() - i,
{
    if i < ws.len() && ws[i].id != id {
        lemma_find_window(ws, id, i + 1);
    }
}

/// Index of the mark with this name.
pub open spec fn find_mark(ms: Seq<(String, WindowId)>, name: Seq<char>) -> Option<int> {
    if exists|i: int| 0 <= i < ms.len() && ms[i].0@ == name {
        Some(choose|i: int| 0 <= i < ms.len() && ms[i].0@ == name)
    } else {
        None
    }
}

/// The central store.
pub struct State {
    pub config: Config,
    /// All windows, in order of creation; ids are unique.
    pub windows: Vec<Window>,
    pub workspaces: IndexMap<u32, Workspace>,
    pub outputs: IndexMap<u64, Output>,
    pub focus: FocusState,
    pub scratchpad: Vec<WindowId>,
    /// Mark name to window; names are unique.
    pub marks: Vec<(String, WindowId)>,
    pub running: bool,
    pub layout_dirty: bool,
    pub pointer_position: (i32, i32),
    pub grabbed_window: Option<GrabbedWindow>,
}

impl State {
    pub open spec fn ws_entries(&self) -> Seq<(u32, Workspace)> {
        workspace_entries(self.workspaces)
    }

    pub open spec fn window_index(&self, id: WindowId) -> Option<int> {
        find_window(self.windows@, id, 0)
    }

    pub open spec fn has_window(&self, id: WindowId) -> bool {
        exists|i: int| 0 <= i < self.windows@.len() && self.windows@[i].id == id
    }

    pub open spec fn ws_index(&self, id: WorkspaceId) -> Option<int> {
        key_index(self.ws_entries(), id.0)
    }

    pub open spec fn has_workspace(&self, id: WorkspaceId) -> bool {
        exists|i: int| 0 <= i < self.ws_entries().len() && self.ws_entries()[i].0 == id.0
    }

    /// The window with this id.
    pub open spec fn win(&self, id: WindowId) -> Window
        recommends
            self.has_window(id),
    {
        self.windows@[self.window_index(id)->0]
    }

    /// The workspace with this id.
    pub open spec fn ws(&self, id: WorkspaceId) -> Workspace
        recommends
            self.has_workspace(id),
    {
        self.ws_entries()[self.ws_index(id)->0].1
    }

    pub open spec fn mark_target(&self, name: Seq<char>) -> Option<WindowId> {
        match find_mark(self.marks@, name) {
            Some(i) => Some(self.marks@[i].1),
            None => None,
        }
    }

    /// Structural well-formedness: the workspace table is keyed by each
    /// workspace's own id, keys and window ids and mark names are unique,
    /// every workspace is well formed, and the focus history is bounded.
    pub open spec fn wf(&self) -> bool {
        &&& self.ws_entries().len() >= 1
        &&& keys_unique(self.ws_entries())
        &&& forall|i: int| 0 <= i < self.ws_entries().len() ==> {
            &&& (#[trigger] self.ws_entries()[i]).0 == self.ws_entries()[i].1.id.0
            &&& self.ws_entries()[i].1.wf()
        }
        &&& keys_unique(output_entries(self.outputs))
        &&& forall|i: int, j: int| 0 <= i < self.windows@.len() && 0 <= j < self.windows@.len() && i != j
            ==> self.windows@[i].id != self.windows@[j].id
        &&& forall|i: int, j: int| 0 <= i < self.marks@.len() && 0 <= j < self.marks@.len() && i != j
            ==> self.marks@[i].0@ != self.marks@[j].0@
        &&& self.focus.focus_history@.len() <= FOCUS_HISTORY_LIMIT
        &&& no_dups(self.scratchpad@)
    }

    /// The consistency conditions checked by the invariant validator.
    pub open spec fn inv(&self) -> bool {
        &&& (self.focus.focused_window matches Some(w) ==> self.has_window(w))
        &&& (self.focus.focused_workspace matches Some(ws) ==> self.has_workspace(ws))
        &&& forall|i: int| 0 <= i < self.marks@.len() ==> self.has_window(#[trigger] self.marks@[i].1)
        &&& forall|i: int| 0 <= i < self.windows@.len() ==> match (#[trigger] self.windows@[i]).workspace {
            Some(ws) => self.has_workspace(ws),
            None => true,
        }
    }

    /// The windows keep ids, workspaces and hidden flags, and the scratchpad
    /// and the workspace table stay: nothing the scratchpad rule reads moves.
    pub open spec fn vis_same(&self, other: &State) -> bool {
        &&& self.windows@.len() == other.windows@.len()
        &&& forall|j: int| 0 <= j < other.windows@.len() ==> {
            &&& (#[trigger] self.windows@[j]).id == other.windows@[j].id
            &&& self.windows@[j].workspace == other.windows@[j].workspace
            &&& self.windows@[j].state.has(WindowState::HIDDEN) == other.windows@[j].state.has(WindowState::HIDDEN)
        }
        &&& self.scratchpad == other.scratchpad
        &&& self.workspaces == other.workspaces
    }

    /// The windows keep their ids, workspaces and geometry (flags may change).
    pub open spec fn same_windows(&self, other: &State) -> bool {
        &&& self.windows@.len() == other.windows@.len()
        &&& forall|i: int| 0 <= i < self.windows@.len() ==> {
            &&& (#[trigger] self.windows@[i]).id == other.windows@[i].id
            &&& self.windows@[i].workspace == other.windows@[i].workspace
            &&& self.windows@[i].geometry == other.windows@[i].geometry
        }
    }

    pub proof fn lemma_ws_index(&self, i: int)
        requires
            self.wf(),
            0 <= i < self.ws_entries().len(),
        ensures
            self.ws_index(self.ws_entries()[i].1.id) == Some(i),
            self.has_workspace(self.ws_entries()[i].1.id),
    {
        let s = self.ws_entries();
        let k = s[i].0;
        assert(s[i].0 == k);
        let c = choose|j: int| 0 <= j < s.len() && s[j].0 == k;
        assert(c == i);
    }

    /// The ten default workspaces, named "1" to "10"; nothing focused.
    pub fn new(config: Config) -> (r: Self)
        ensures
            r.wf(),
            r.inv(),
            r.ws_entries().len() == 10,
            forall|i: int| 0 <= i < 10 ==> (#[trigger] r.ws_entries()[i]).0 == i + 1
                && r.ws_entries()[i].1.id == WorkspaceId((i + 1) as u32),
            r.windows@.len() == 0,
            r.focus.focused_window is None && r.focus.focused_workspace is None,
            r.focus.previous_window is None && r.focus.focus_history@.len() == 0,
            r.scratchpad@.len() == 0,
            r.marks@.len() == 0,
            r.running,
            !r.layout_dirty,
            r.grabbed_window is None,
            r.pointer_position == (0i32, 0i32),
    {
        let mut workspaces = workspace_table_new();
        let mut i: u32 = 1;
        while i <= 10
            invariant
                1 <= i <= 11,
                workspace_entries(workspaces).len() == i - 1,
                forall|j: int| 0 <= j < i - 1 ==> {
                    &&& (#[trigger] workspace_entries(workspaces)[j]).0 == j + 1
                    &&& workspace_entries(workspaces)[j].1.id.0 == j + 1
                    &&& workspace_entries(workspaces)[j].1.wf()
                },
            decreases 11 - i,
        {
            let ws = Workspace::new(WorkspaceId(i), workspace_name(i));
            workspace_table_push(&mut workspaces, i, ws);
            i = i + 1;
        }
        let r = State {
            config,
            windows: Vec::new(),
            workspaces,
            outputs: crate::tables::output_table_new(),
            focus: FocusState::new(),
            scratchpad: Vec::new(),
            marks: Vec::new(),
            running: true,
            layout_dirty: false,
            pointer_position: (0, 0),
            grabbed_window: None,
        };
        r
    }

    /// Position of the window with this id.
    pub fn find_window_index(&self, id: WindowId) -> (r: Option<usize>)
        ensures
            r == match self.window_index(id) {
                Some(i) => Some(i as usize),
                None => None::<usize>,
            },
            r matches Some(i) ==> i < self.windows@.len() && self.windows@[i as int].id == id
                && self.window_index(id) == Some(i as int),
            r is None <==> !self.has_window(id),
    {
        proof {
            lemma_find_window(self.windows@, id, 0);
        }
        let mut i: usize = 0;
        while i < self.windows.len()
            invariant
                i <= self.windows@.len(),
                find_window(self.windows@, id, 0) == find_window(self.windows@, id, i as int),
                forall|j: int| 0 <= j < i ==> self.windows@[j].id != id,
            decreases self.windows@.len() - i,
        {
            if self.windows[i].id == id {
                assert(find_window(self.windows@, id, i as int) == Some(i as int));
                return Some(i);
            }
            i = i + 1;
        }
        None
    }

    /// Position of the workspace with this id in the table.
    pub fn find_workspace_index(&self, id: WorkspaceId) -> (r: Option<usize>)
        requires
            self.wf(),
        ensures
            r == match self.ws_index(id) {
                Some(i) => Some(i as usize),
                None => None::<usize>,
            },
            r matches Some(i) ==> i < self.ws_entries().len() && self.ws_entries()[i as int].1.id == id
                && self.ws_index(id) == Some(i as int),
            r is None <==> !self.has_workspace(id),
    {
        let n = workspace_table_len(&self.workspaces);
        let mut i: usize = 0;
        while i < n
            invariant
                self.wf(),
                n == self.ws_entries().len(),
                i <= n,
                forall|j: int| 0 <= j < i ==> self.ws_entries()[j].0 != id.0,
            decreases n - i,
        {
            if workspace_table_at(&self.workspaces, i).id == id {
                proof {
                    self.lemma_ws_index(i as int);
                }
                return Some(i);
            }
            i = i + 1;
        }
        None
    }

    pub fn window(&self, id: WindowId) -> (r: Option<&Window>)
        ensures
            r == match self.window_index(id) {
                Some(i) => Some(&self.windows@[i]),
                None => None::<&Window>,
            },
    {
        match self.find_window_index(id) {
            Some(i) => Some(&self.windows[i]),
            None => None,
        }
    }

    pub fn workspace(&self, id: WorkspaceId) -> (r: Option<&Workspace>)
        requires
            self.wf(),
        ensures
            r == match self.ws_index(id) {
                Some(i) => Some(&self.ws_entries()[i].1),
                None => None::<&Workspace>,
            },
    {
        match self.find_workspace_index(id) {
            Some(i) => Some(workspace_table_at(&self.workspaces, i)),
            None => None,
        }
    }

    /// The focus restored when window `gone` disappears: the most recent
    /// entry of the history that is another existing window.
    pub open spec fn restore_target(&self, gone: WindowId, history: Seq<WindowId>) -> Option<WindowId>
        decreases history.len(),
    {
        if history.len() == 0 {
            None
        } else if history.last() != gone && self.has_window(history.last()) {
            Some(history.last())
        } else {
            self.restore_target(gone, history.drop_last())
        }
    }

    /// The window a mark names.
    pub fn mark(&self, name: &str) -> (r: Option<WindowId>)
        requires
            self.wf(),
        ensures
            r == self.mark_target(name@),
    {
        match self.find_mark_index(name) {
            Some(i) => {
                proof {
                    let c = choose|j: int| 0 <= j < self.marks@.len() && self.marks@[j].0@ == name@;
                    assert(c == i);
                }
                Some(self.marks[i].1)
            },
            None => None,
        }
    }

    /// Position of the mark with this name.
    pub fn find_mark_index(&self, name: &str) -> (r: Option<usize>)
        ensures
            match r {
                Some(i) => i < self.marks@.len() && self.marks@[i as int].0@ == name@,
                None => forall|j: int| 0 <= j < self.marks@.len() ==> self.marks@[j].0@ != name@,
            },
    {
        let mut i: usize = 0;
        while i < self.marks.len()
            invariant
                i <= self.marks@.len(),
                forall|j: int| 0 <= j < i ==> self.marks@[j].0@ != name@,
            decreases self.marks@.len() - i,
        {
            if str_eq(self.marks[i].0.as_str(), name) {
                return Some(i);
            }
            i = i + 1;
        }
        None
    }

    /// Set or clear a flag of the window at a position.
    pub fn set_window_flag(&mut self, i: usize, flag: u32, on: bool)
        requires
            old(self).wf(),
            i < old(self).windows@.len(),
        ensures
            final(self).wf(),
            final(self).windows@.len() == old(self).windows@.len(),
            forall|j: int| 0 <= j < old(self).windows@.len() && j != i ==> final(self).windows@[j] == old(self).windows@[j],
            final(self).windows@[i as int] == (Window {
                state: WindowState {
                    bits: if on { old(self).windows@[i as int].state.bits | flag } else { old(self).windows@[i as int].state.bits & !flag },
                },
                ..old(self).windows@[i as int]
            }),
            final(self).workspaces == old(self).workspaces,
            final(self).outputs == old(self).outputs,
            final(self).focus == old(self).focus,
            final(self).marks == old(self).marks,
            final(self).scratchpad == old(self).scratchpad,
            final(self).layout_dirty == old(self).layout_dirty,
            final(self).grabbed_window == old(self).grabbed_window,
            final(self).pointer_position == old(self).pointer_position,
            final(self).config == old(self).config,
            final(self).running == old(self).running,
    {
        let ghost before = self.windows@;
        let mut w = self.windows.remove(i);
        if on {
            w.state.insert(flag);
        } else {
            w.state.remove(flag);
        }
        let ghost wg = w;
        self.windows.insert(i, w);
        assert(self.windows@ =~= before.update(i as int, wg));
    }

    /// Focus a window that exists: clear the flag on the window focused
    /// before, record the focus change, flag the new one, and switch the
    /// focused workspace to the window's own.
    #[verifier::rlimit(80)]
    pub fn focus_window(&mut self, window_id: WindowId)
        requires
            old(self).wf(),
        ensures
            final(self).wf(),
            !old(self).has_window(window_id) ==> *final(self) == *old(self),
            forall|id: WindowId| final(self).has_window(id) == old(self).has_window(id),
            final(self).windows@.len() == old(self).windows@.len(),
            forall|j: int| 0 <= j < old(self).windows@.len() ==> (#[trigger] final(self).windows@[j]).state.has(WindowState::HIDDEN)
                == old(self).windows@[j].state.has(WindowState::HIDDEN),
            final(self).vis_same(old(self)),
            old(self).has_window(window_id) ==> {
                &&& final(self).focus.focused_window == Some(window_id)
                &&& final(self).focus.focused_workspace == match old(self).win(window_id).workspace {
                    Some(ws) => Some(ws),
                    None => old(self).focus.focused_workspace,
                }
                &&& final(self).same_windows(old(self))
                &&& final(self).window_index(window_id) == old(self).window_index(window_id)
                &&& final(self).win(window_id).state.has(WindowState::FOCUSED)
                &&& forall|g: u32| crate::window::single_bit(g) && g != WindowState::FOCUSED
                    ==> (#[trigger] final(self).win(window_id).state.has(g)) == old(self).win(window_id).state.has(g)
                &&& match old(self).focus.focused_window {
                    Some(p) => p != window_id ==> {
                        let h = old(self).focus.focus_history@.filter(other_than(p)).push(p);
                        &&& final(self).focus.previous_window == Some(p)
                        &&& final(self).focus.focus_history@ == if h.len() > FOCUS_HISTORY_LIMIT { h.drop_first() } else { h }
                        &&& old(self).has_window(p) ==> !final(self).win(p).state.has(WindowState::FOCUSED)
                    },
                    None => final(self).focus.previous_window is None
                        && final(self).focus.focus_history == old(self).focus.focus_history,
                }
                &&& old(self).focus.focused_window == Some(window_id) ==> final(self).focus.previous_window
                    == old(self).focus.previous_window && final(self).focus.focus_history == old(self).focus.focus_history
                &&& final(self).workspaces == old(self).workspaces
                &&& final(self).marks == old(self).marks
                &&& final(self).scratchpad == old(self).scratchpad
                &&& final(self).layout_dirty == old(self).layout_dirty
                &&& final(self).grabbed_window == old(self).grabbed_window
                &&& final(self).outputs == old(self).outputs
                &&& final(self).config == old(self).config
                &&& final(self).pointer_position == old(self).pointer_position
            },
            old(self).inv() ==> final(self).inv(),
    {
        let i = match self.find_window_index(window_id) {
            Some(i) => i,
            None => {
                return;
            },
        };
        let ghost s0 = *self;
        if let Some(current) = self.focus.focused_window {
            if let Some(c) = self.find_window_index(current) {
                self.set_window_flag(c, WindowState::FOCUSED, false);
            }
        }
        let ghost s1 = *self;
        self.focus.set_focused(window_id);
        self.set_window_flag(i, WindowState::FOCUSED, true);
        proof {
            let b = s1.windows@[i as int].state.bits;
            let b0 = s0.windows@[i as int].state.bits;
            assert((b | 1u32) & 1u32 == 1u32) by (bit_vector);
            assert(crate::window::single_bit(1u32)) by (bit_vector);
            assert(b == b0 || b == b0 & !1u32);
            assert forall|g: u32| crate::window::single_bit(g) && g != WindowState::FOCUSED
                implies ((b | 1u32) & g == g) == (b0 & g == g) by {
                crate::window::lemma_flag_ops(b, 1u32, g);
                crate::window::lemma_flag_ops(b0, 1u32, g);
            }
            assert(crate::window::single_bit(8u32)) by (bit_vector);
            assert forall|j: int| 0 <= j < self.windows@.len() implies (#[trigger] self.windows@[j]).state.has(WindowState::HIDDEN)
                == s0.windows@[j].state.has(WindowState::HIDDEN) by {
                let bj0 = s0.windows@[j].state.bits;
                let bj1 = s1.windows@[j].state.bits;
                crate::window::lemma_flag_ops(bj0, 1u32, 8u32);
                crate::window::lemma_flag_ops(bj1, 1u32, 8u32);
            }
            if let Some(p) = s0.focus.focused_window {
                if p != window_id && s0.has_window(p) {
                    let c = s0.window_index(p)->0;
                    lemma_find_window(s0.windows@, p, 0);
                    let bc = s0.windows@[c].state.bits;
                    crate::window::lemma_flag_ops(bc, 1u32, 1u32);
                    assert(c != i);
                    assert(s1.windows@[c].state.bits == bc & !1u32);
                    assert(self.windows@[c] == s1.windows@[c]);
                    lemma_find_window_same(s0.windows@, self.windows@, p, 0);
                    assert(self.window_index(p) == Some(c));
                }
            }
        }
        if let Some(ws_id) = self.windows[i].workspace {
            self.focus.focused_workspace = Some(ws_id);
        }
        proof {
            lemma_find_window(s0.windows@, window_id, 0);
            lemma_find_window(self.windows@, window_id, 0);
            assert(self.same_windows(&s0));
            assert(find_window(self.windows@, window_id, 0) == Some(i as int)) by {
                lemma_find_window(self.windows@, window_id, 0);
                let k = find_window(self.windows@, window_id, 0);
                if k != Some(i as int) {
                    assert(self.windows@[i as int].id == window_id);
                }
            }
            assert forall|id: WindowId| s0.has_window(id) == self.has_window(id) by {
                if s0.has_window(id) {
                    let j = choose|j: int| 0 <= j < s0.windows@.len() && s0.windows@[j].id == id;
                    assert(self.windows@[j].id == id);
                }
                if self.has_window(id) {
                    let j = choose|j: int| 0 <= j < self.windows@.len() && self.windows@[j].id == id;
                    assert(s0.windows@[j].id == id);
                }
            }
            if s0.inv() {
                assert forall|j: int| 0 <= j < self.windows@.len() implies match (#[trigger] self.windows@[j]).workspace {
                    Some(ws) => self.has_workspace(ws),
                    None => true,
                } by {
                    assert(self.windows@[j].workspace == s0.windows@[j].workspace);
                    assert(self.ws_entries() == s0.ws_entries());
                    let w0 = s0.windows@[j];
                    if let Some(ws) = w0.workspace {
                        assert(s0.has_workspace(ws));
                    }
                }
                assert(self.focus.focused_workspace matches Some(ws) ==> self.has_workspace(ws));
            }
        }
    }

    /// The focused window.
    pub fn focused_window(&self) -> (r: Option<&Window>)
        ensures
            r == match self.focus.focused_window {
                Some(id) => match self.window_index(id) {
                    Some(i) => Some(&self.windows@[i]),
                    None => None::<&Window>,
                },
                None => None::<&Window>,
            },
    {
        match self.focus.focused_window {
            Some(id) => self.window(id),
            None => None,
        }
    }

    /// The focused workspace.
    pub fn focused_workspace(&self) -> (r: Option<&Workspace>)
        requires
            self.wf(),
        ensures
            r == match self.focus.focused_workspace {
                Some(id) => match self.ws_index(id) {
                    Some(i) => Some(&self.ws_entries()[i].1),
                    None => None::<&Workspace>,
                },
                None => None::<&Workspace>,
            },
    {
        match self.focus.focused_workspace {
            Some(id) => self.workspace(id),
            None => None,
        }
    }

    pub fn mark_layout_dirty(&mut self)
        ensures
            *final(self) == (State { layout_dirty: true, ..*old(self) }),
    {
        self.layout_dirty = true;
    }

    pub fn needs_layout(&self) -> (r: bool)
        ensures
            r == self.layout_dirty,
    {
        self.layout_dirty
    }

    /// The workspace table keeps its keys, ids and window lists.
    pub open spec fn lists_kept(&self, other: &State) -> bool {
        &&& self.ws_entries().len() == other.ws_entries().len()
        &&& forall|j: int| 0 <= j < self.ws_entries().len() ==> {
            &&& (#[trigger] self.ws_entries()[j]).0 == other.ws_entries()[j].0
            &&& self.ws_entries()[j].1.id == other.ws_entries()[j].1.id
            &&& self.ws_entries()[j].1.tiled_windows == other.ws_entries()[j].1.tiled_windows
            &&& self.ws_entries()[j].1.floating_windows == other.ws_entries()[j].1.floating_windows
            &&& self.ws_entries()[j].1.focus_stack == other.ws_entries()[j].1.focus_stack
        }
    }

    /// The workspace table differs from `other`'s at most at position `k`,
    /// whose key and id stay.
    pub open spec fn ws_frame(&self, other: &State, k: int) -> bool {
        &&& self.ws_entries().len() == other.ws_entries().len()
        &&& forall|j: int| 0 <= j < self.ws_entries().len() && j != k ==> self.ws_entries()[j] == other.ws_entries()[j]
        &&& 0 <= k < self.ws_entries().len() ==> {
            &&& self.ws_entries()[k].0 == other.ws_entries()[k].0
            &&& self.ws_entries()[k].1.id == other.ws_entries()[k].1.id
        }
    }

    proof fn lemma_ws_frame_keys(&self, other: &State, k: int)
        requires
            self.ws_frame(other, k),
        ensures
            forall|id: WorkspaceId| self.has_workspace(id) == other.has_workspace(id),
    {
        assert forall|id: WorkspaceId| self.has_workspace(id) == other.has_workspace(id) by {
            if self.has_workspace(id) {
                let j = choose|j: int| 0 <= j < self.ws_entries().len() && self.ws_entries()[j].0 == id.0;
                assert(other.ws_entries()[j].0 == id.0);
            }
            if other.has_workspace(id) {
                let j = choose|j: int| 0 <= j < other.ws_entries().len() && other.ws_entries()[j].0 == id.0;
                assert(self.ws_entries()[j].0 == id.0);
            }
        }
    }

    /// Add a window to the focused workspace (the first one when none is
    /// focused) as a tiled window, and mark the layout dirty.
    pub fn add_window(&mut self, window: Window) -> (r: WindowId)
        requires
            old(self).wf(),
        ensures
            final(self).wf(),
            r == window.id,
            final(self).has_window(window.id),
            ({
                let target = match old(self).focus.focused_workspace {
                    Some(w) => w,
                    None => old(self).ws_entries()[0].1.id,
                };
                &&& final(self).windows@ == match old(self).window_index(window.id) {
                    Some(i) => old(self).windows@.update(i, Window { workspace: Some(target), ..window }),
                    None => old(self).windows@.push(Window { workspace: Some(target), ..window }),
                }
                &&& final(self).win(window.id) == (Window { workspace: Some(target), ..window })
                &&& match old(self).ws_index(target) {
                    Some(k) => {
                        &&& final(self).ws_frame(old(self), k)
                        &&& final(self).ws_entries()[k].1.tiled_windows@ == old(self).ws_entries()[k].1.tiled_windows@.push(window.id)
                        &&& final(self).ws_entries()[k].1.focus_stack@ == old(self).ws_entries()[k].1.focus_stack@.push(window.id)
                        &&& final(self).ws_entries()[k].1.floating_windows@ == old(self).ws_entries()[k].1.floating_windows@
                    },
                    None => final(self).workspaces == old(self).workspaces,
                }
            }),
            final(self).layout_dirty,
            final(self).focus == old(self).focus,
            final(self).marks == old(self).marks,
            final(self).scratchpad == old(self).scratchpad,
            final(self).grabbed_window == old(self).grabbed_window,
            final(self).outputs == old(self).outputs,
            final(self).config == old(self).config,
            final(self).pointer_position == old(self).pointer_position,
            old(self).inv() ==> final(self).inv(),
    {
        let id = window.id;
        let ws_id = match self.focus.focused_workspace {
            Some(w) => w,
            None => workspace_table_at(&self.workspaces, 0).id,
        };
        let mut window = window;
        window.workspace = Some(ws_id);
        let ghost s0 = *self;
        let ghost wg = window;
        if let Some(k) = self.find_workspace_index(ws_id) {
            let ws = workspace_table_at_mut(&mut self.workspaces, k);
            ws.add_window(id, &self.config);
            proof {
                assert forall|i: int| 0 <= i < self.ws_entries().len() implies {
                    &&& (#[trigger] self.ws_entries()[i]).0 == self.ws_entries()[i].1.id.0
                    &&& self.ws_entries()[i].1.wf()
                } by {
                    if i != k {
                        assert(self.ws_entries()[i] == s0.ws_entries()[i]);
                    }
                }
                assert(keys_unique(self.ws_entries()));
            }
        }
        match self.find_window_index(id) {
            Some(i) => {
                self.windows.set(i, window);
            },
            None => {
                self.windows.push(window);
            },
        }
        self.layout_dirty = true;
        proof {
            lemma_find_window(s0.windows@, id, 0);
            match s0.window_index(id) {
                Some(i) => {
                    assert(self.windows@[i].id == id);
                    lemma_find_window_same(s0.windows@, self.windows@, id, 0);
                },
                None => {
                    assert(self.windows@[self.windows@.len() - 1].id == id);
                    lemma_find_window(self.windows@, id, 0);
                    assert(self.window_index(id) == Some(self.windows@.len() - 1));
                },
            }
            if s0.focus.focused_workspace is None {
                s0.lemma_ws_index(0);
            }
            if let Some(k) = s0.ws_index(ws_id) {
                self.lemma_ws_frame_keys(&s0, k);
            }
            assert forall|x: WindowId| s0.has_window(x) implies self.has_window(x) by {
                let j = choose|j: int| 0 <= j < s0.windows@.len() && s0.windows@[j].id == x;
                assert(self.windows@[j].id == x);
            }
            if s0.inv() {
                assert(s0.has_workspace(ws_id));
                assert forall|j: int| 0 <= j < self.windows@.len() implies match (#[trigger] self.windows@[j]).workspace {
                    Some(ws) => self.has_workspace(ws),
                    None => true,
                } by {
                    if j < s0.windows@.len() && self.windows@[j].id != id {
                        let w0 = s0.windows@[j];
                        assert(self.windows@[j] == w0);
                        if let Some(ws) = w0.workspace {
                            assert(s0.has_workspace(ws));
                        }
                    }
                }
                assert forall|j: int| 0 <= j < self.marks@.len() implies self.has_window(#[trigger] self.marks@[j].1) by {
                    assert(s0.has_window(s0.marks@[j].1));
                }
            }
        }
        id
    }

    /// Give workspace `k` a geometry; its work area follows.
    pub fn set_workspace_geometry(&mut self, k: usize, geometry: Geometry)
        requires
            old(self).wf(),
            k < old(self).ws_entries().len(),
            geometry.fits(),
        ensures
            final(self).wf(),
            final(self).ws_frame(old(self), k as int),
            final(self).ws_entries()[k as int].1.work_area == geometry,
            final(self).ws_entries()[k as int].1.geometry == geometry,
            final(self).ws_entries()[k as int].1.tiled_windows == old(self).ws_entries()[k as int].1.tiled_windows,
            final(self).ws_entries()[k as int].1.focus_stack == old(self).ws_entries()[k as int].1.focus_stack,
            final(self).ws_entries()[k as int].1.floating_windows == old(self).ws_entries()[k as int].1.floating_windows,
            final(self).windows == old(self).windows,
            final(self).focus == old(self).focus,
            final(self).marks == old(self).marks,
            final(self).scratchpad == old(self).scratchpad,
            final(self).layout_dirty == old(self).layout_dirty,
            final(self).grabbed_window == old(self).grabbed_window,
            final(self).outputs == old(self).outputs,
            final(self).config == old(self).config,
            final(self).pointer_position == old(self).pointer_position,
            old(self).inv() ==> final(self).inv(),
    {
        let ghost s0 = *self;
        let ws = workspace_table_at_mut(&mut self.workspaces, k);
        ws.set_geometry(geometry);
        proof {
            assert forall|i: int| 0 <= i < self.ws_entries().len() implies {
                &&& (#[trigger] self.ws_entries()[i]).0 == self.ws_entries()[i].1.id.0
                &&& self.ws_entries()[i].1.wf()
            } by {
                if i != k {
                    assert(self.ws_entries()[i] == s0.ws_entries()[i]);
                }
            }
            assert(keys_unique(self.ws_entries()));
            self.lemma_ws_frame_keys(&s0, k as int);
            if s0.inv() {
                assert forall|j: int| 0 <= j < self.windows@.len() implies match (#[trigger] self.windows@[j]).workspace {
                    Some(ws) => self.has_workspace(ws),
                    None => true,
                } by {
                    let w0 = s0.windows@[j];
                    if let Some(ws) = w0.workspace {
                        assert(s0.has_workspace(ws));
                    }
                }
            }
        }
    }

    /// Changing one well-formed workspace in place keeps the table well formed.
    proof fn lemma_ws_update_wf(&self, s0: &State, k: int)
        requires
            s0.wf(),
            0 <= k < s0.ws_entries().len(),
            self.ws_entries() == s0.ws_entries().update(k, (s0.ws_entries()[k].0, self.ws_entries()[k].1)),
            self.ws_entries()[k].1.id == s0.ws_entries()[k].1.id,
            self.ws_entries()[k].1.wf(),
            self.outputs == s0.outputs,
        ensures
            self.ws_frame(s0, k),
            self.ws_entries().len() >= 1,
            keys_unique(self.ws_entries()),
            keys_unique(output_entries(self.outputs)),
            forall|i: int| 0 <= i < self.ws_entries().len() ==> {
                &&& (#[trigger] self.ws_entries()[i]).0 == self.ws_entries()[i].1.id.0
                &&& self.ws_entries()[i].1.wf()
            },
            forall|id: WorkspaceId| self.has_workspace(id) == s0.has_workspace(id),
    {
        assert forall|i: int| 0 <= i < self.ws_entries().len() implies {
            &&& (#[trigger] self.ws_entries()[i]).0 == self.ws_entries()[i].1.id.0
            &&& self.ws_entries()[i].1.wf()
        } by {
            if i != k {
                assert(self.ws_entries()[i] == s0.ws_entries()[i]);
            }
        }
        self.lemma_ws_frame_keys(s0, k);
    }

    /// Drop every mark that names `id`.
    fn remove_marks_of(&mut self, id: WindowId)
        requires
            old(self).wf(),
        ensures
            final(self).wf(),
            forall|j: int| 0 <= j < final(self).marks@.len() ==> (#[trigger] final(self).marks@[j]).1 != id,
            forall|j: int| 0 <= j < final(self).marks@.len() ==> old(self).marks@.contains(#[trigger] final(self).marks@[j]),
            forall|j: int| 0 <= j < old(self).marks@.len() && (#[trigger] old(self).marks@[j]).1 != id
                ==> final(self).marks@.contains(old(self).marks@[j]),
            *final(self) == (State { marks: final(self).marks, ..*old(self) }),
            final(self).marks@ == old(self).marks@.filter(mark_not_on(id)),
    {
        let ghost m0 = self.marks@;
        let mut out: Vec<(String, WindowId)> = Vec::new();
        let ghost mut idx: Seq<int> = Seq::empty();
        let mut i: usize = 0;
        let n = self.marks.len();
        while i < n
            invariant
                n == m0.len(),
                m0 == self.marks@,
                i <= n,
                out@.len() == idx.len(),
                forall|a: int| 0 <= a < idx.len() ==> 0 <= #[trigger] idx[a] < i && out@[a] == m0[idx[a]],
                forall|a: int, b: int| 0 <= a < b < idx.len() ==> idx[a] < idx[b],
                forall|a: int| 0 <= a < out@.len() ==> (#[trigger] out@[a]).1 != id,
                forall|j: int| 0 <= j < i && (#[trigger] m0[j]).1 != id ==> out@.contains(m0[j]),
                out@ == m0.subrange(0, i as int).filter(mark_not_on(id)),
            decreases n - i,
        {
            proof {
                m0.subrange(0, i as int).lemma_filter_push(m0[i as int], mark_not_on(id));
                assert(m0.subrange(0, i as int).push(m0[i as int]) =~= m0.subrange(0, i + 1));
            }
            let (name, w) = &self.marks[i];
            if *w != id {
                let ghost out0 = out@;
                out.push((name.clone(), *w));
                proof {
                    idx = idx.push(i as int);
                    assert(out@[out@.len() - 1] == m0[i as int]);
                    assert forall|j: int| 0 <= j < i + 1 && (#[trigger] m0[j]).1 != id implies out@.contains(m0[j]) by {
                        if j < i {
                            assert(out0.contains(m0[j]));
                            let a = choose|a: int| 0 <= a < out0.len() && out0[a] == m0[j];
                            assert(out@[a] == m0[j]);
                        } else {
                            assert(out@[out@.len() - 1] == m0[j]);
                        }
                    }
                }
            }
            i = i + 1;
        }
        proof {
            assert(m0.subrange(0, i as int) =~= m0);
            assert forall|a: int, b: int| 0 <= a < out@.len() && 0 <= b < out@.len() && a != b
                implies out@[a].0@ != out@[b].0@ by {
                if a < b {
                    assert(idx[a] < idx[b]);
                } else {
                    assert(idx[b] < idx[a]);
                }
            }
            assert forall|j: int| 0 <= j < out@.len() implies m0.contains(#[trigger] out@[j]) by {
                assert(m0[idx[j]] == out@[j]);
            }
        }
        self.marks = out;
    }

    /// Remove a window: detach it from its workspace, restore the focus from
    /// the history when it was focused, and purge it from the history, the
    /// scratchpad and the marks. `None` when no such window exists.
    pub fn remove_window(&mut self, window_id: WindowId) -> (r: Option<Window>)
        requires
            old(self).wf(),
        ensures
            final(self).wf(),
            !old(self).has_window(window_id) ==> r is None && *final(self) == *old(self),
            old(self).has_window(window_id) ==> {
                &&& r == Some(old(self).win(window_id))
                &&& final(self).windows@ == old(self).windows@.remove(old(self).window_index(window_id)->0)
                &&& !final(self).has_window(window_id)
                &&& final(self).layout_dirty
                &&& final(self).focus.focused_workspace == old(self).focus.focused_workspace
                &&& (old(self).focus.focused_window != Some(window_id)
                    ==> final(self).focus.focused_window == old(self).focus.focused_window)
                &&& (old(self).focus.focused_window == Some(window_id)
                    ==> (final(self).focus.focused_window matches Some(f) ==> final(self).has_window(f)))
                &&& (old(self).focus.focused_window == Some(window_id) ==> final(self).focus.focused_window
                    == old(self).restore_target(window_id, old(self).focus.focus_history@))
                &&& !final(self).focus.focus_history@.contains(window_id)
                &&& !final(self).scratchpad@.contains(window_id)
                &&& forall|j: int| 0 <= j < final(self).marks@.len() ==> (#[trigger] final(self).marks@[j]).1 != window_id
                &&& forall|j: int| 0 <= j < old(self).marks@.len() && (#[trigger] old(self).marks@[j]).1 != window_id
                    ==> final(self).marks@.contains(old(self).marks@[j])
                &&& final(self).marks@ == old(self).marks@.filter(mark_not_on(window_id))
                &&& match old(self).win(window_id).workspace {
                    Some(ws) => match old(self).ws_index(ws) {
                        Some(k) => final(self).ws_frame(old(self), k)
                            && !final(self).ws_entries()[k].1.spec_contains(window_id)
                            && !final(self).ws_entries()[k].1.focus_stack@.contains(window_id),
                        None => final(self).workspaces == old(self).workspaces,
                    },
                    None => final(self).workspaces == old(self).workspaces,
                }
            },
            old(self).inv() ==> final(self).inv(),
    {
        let i = match self.find_window_index(window_id) {
            Some(i) => i,
            None => {
                return None;
            },
        };
        let ghost s0 = *self;
        let window = self.windows.remove(i);
        proof {
            assert forall|x: WindowId| x != window_id implies self.has_window(x) == s0.has_window(x) by {
                if s0.has_window(x) {
                    let j = choose|j: int| 0 <= j < s0.windows@.len() && s0.windows@[j].id == x;
                    if j < i {
                        assert(self.windows@[j].id == x);
                    } else {
                        assert(self.windows@[j - 1].id == x);
                    }
                }
            }
            assert(!self.has_window(window_id));
        }
        let ghost s1 = *self;
        if let Some(ws_id) = window.workspace {
            if let Some(k) = self.find_workspace_index(ws_id) {
                let ws = workspace_table_at_mut(&mut self.workspaces, k);
                ws.remove_window(window_id);
                proof {
                    self.lemma_ws_update_wf(&s1, k as int);
                }
            }
        }
        let ghost s2 = *self;
        if self.focus.focused_window == Some(window_id) {
            self.focus.clear_focused();
            while self.focus.focus_history.len() > 0
                invariant_except_break
                    self.focus.focused_window is None,
                invariant
                    self.wf(),
                    !self.has_window(window_id),
                    self.windows == s2.windows,
                    self.workspaces == s2.workspaces,
                    self.marks == s2.marks,
                    self.scratchpad == s2.scratchpad,
                    self.outputs == s2.outputs,
                    self.focus.focused_window matches Some(f) ==> self.has_window(f),
                    self.focus.focused_workspace == s2.focus.focused_workspace,
                    self.focus.focused_window is None ==> s0.restore_target(window_id, s0.focus.focus_history@)
                        == s0.restore_target(window_id, self.focus.focus_history@),
                    self.focus.focused_window is Some ==> self.focus.focused_window
                        == s0.restore_target(window_id, s0.focus.focus_history@),
                    forall|x: WindowId| self.has_window(x) == (s0.has_window(x) && x != window_id),
                ensures
                    self.focus.focused_window is None ==> self.focus.focus_history@.len() == 0,
                decreases self.focus.focus_history@.len(),
            {
                let ghost h0 = self.focus.focus_history@;
                let next = self.focus.focus_history.pop().unwrap();
                proof {
                    assert(h0.drop_last() =~= self.focus.focus_history@);
                    assert(h0.last() == next);
                }
                if self.find_window_index(next).is_some() {
                    proof {
                        assert(s0.has_window(next) && next != window_id);
                        assert(s0.restore_target(window_id, h0) == Some(next));
                    }
                    self.focus.focused_window = Some(next);
                    break;
                }
            }
            proof {
                if self.focus.focused_window is None {
                    assert(self.focus.focus_history@.len() == 0);
                    assert(s0.restore_target(window_id, self.focus.focus_history@) is None);
                }
            }
        }
        remove_id(&mut self.focus.focus_history, window_id);
        proof {
            broadcast use vstd::seq_lib::group_filter_ensures;
        }
        if let Some(pos) = index_of(&self.scratchpad, window_id) {
            let ghost sp = self.scratchpad@;
            self.scratchpad.remove(pos);
            proof {
                lemma_no_dups_remove(sp, pos as int);
            }
        }
        assert(self.marks@ == s0.marks@);
        self.remove_marks_of(window_id);
        self.layout_dirty = true;
        proof {
            if s0.inv() {
                assert forall|j: int| 0 <= j < self.marks@.len() implies self.has_window(#[trigger] self.marks@[j].1) by {
                    let m = self.marks@[j];
                    assert(s0.marks@.contains(m));
                    let a = choose|a: int| 0 <= a < s0.marks@.len() && s0.marks@[a] == m;
                    assert(s0.has_window(s0.marks@[a].1));
                }
                assert forall|j: int| 0 <= j < self.windows@.len() implies match (#[trigger] self.windows@[j]).workspace {
                    Some(ws) => self.has_workspace(ws),
                    None => true,
                } by {
                    let w = self.windows@[j];
                    let j0 = if j < i { j } else { j + 1 };
                    assert(s0.windows@[j0] == w);
                    if let Some(ws) = w.workspace {
                        assert(s0.has_workspace(ws));
                        assert(s1.has_workspace(ws));
                    }
                }
            }
        }
        Some(window)
    }

    /// Make a workspace the focused one and focus its most recently focused
    /// window, if any; the layout becomes dirty. Unknown workspaces are ignored.
    pub fn switch_workspace(&mut self, workspace_id: WorkspaceId)
        requires
            old(self).wf(),
        ensures
            final(self).wf(),
            !old(self).has_workspace(workspace_id) ==> *final(self) == *old(self),
            final(self).vis_same(old(self)),
            old(self).has_workspace(workspace_id) ==> {
                let top = old(self).ws(workspace_id).focus_stack@;
                &&& final(self).layout_dirty
                &&& final(self).workspaces == old(self).workspaces
                &&& final(self).marks == old(self).marks
                &&& final(self).scratchpad == old(self).scratchpad
                &&& final(self).same_windows(old(self))
                &&& if top.len() > 0 && old(self).has_window(top.last()) {
                    &&& final(self).focus.focused_window == Some(top.last())
                    &&& final(self).win(top.last()).state.has(WindowState::FOCUSED)
                    &&& final(self).focus.focused_workspace == match old(self).win(top.last()).workspace {
                        Some(w) => Some(w),
                        None => Some(workspace_id),
                    }
                } else {
                    &&& final(self).focus.focused_window == old(self).focus.focused_window
                    &&& final(self).focus.focused_workspace == Some(workspace_id)
                }
            },
            old(self).inv() ==> final(self).inv(),
    {
        let k = match self.find_workspace_index(workspace_id) {
            Some(k) => k,
            None => {
                return;
            },
        };
        proof {
            self.lemma_ws_index(k as int);
        }
        self.focus.focused_workspace = Some(workspace_id);
        let ghost s1 = *self;
        let ws = workspace_table_at(&self.workspaces, k);
        if let Some(window_id) = ws.focused_window() {
            self.focus_window(window_id);
        }
        self.layout_dirty = true;
        proof {
            assert forall|x: WindowId| s1.has_window(x) ==> self.has_window(x) by {
                if s1.has_window(x) {
                    let j = choose|j: int| 0 <= j < s1.windows@.len() && s1.windows@[j].id == x;
                    assert(self.windows@[j].id == x);
                }
            }
        }
    }

    /// Move a window to another workspace; it re-enters the destination as
    /// a tiled window whatever it was before. Unknown windows are ignored.
    pub fn move_window_to_workspace(&mut self, window_id: WindowId, target_workspace: WorkspaceId)
        requires
            old(self).wf(),
        ensures
            final(self).wf(),
            !old(self).has_window(window_id) || !old(self).has_workspace(target_workspace) ==> *final(self) == *old(self),
            old(self).has_window(window_id) && old(self).has_workspace(target_workspace) ==> {
                &&& final(self).has_window(window_id)
                &&& final(self).win(window_id).workspace == Some(target_workspace)
                &&& final(self).layout_dirty
                &&& final(self).focus == old(self).focus
                &&& final(self).marks == old(self).marks
                &&& final(self).scratchpad == old(self).scratchpad
                &&& final(self).windows@.len() == old(self).windows@.len()
                &&& forall|j: int| 0 <= j < old(self).windows@.len() ==> (#[trigger] final(self).windows@[j]).id == old(self).windows@[j].id
                &&& final(self).ws(target_workspace).tiled_windows@.len() > 0
                &&& final(self).ws(target_workspace).tiled_windows@.last() == window_id
                &&& !final(self).ws(target_workspace).floating_windows@.contains(window_id)
                &&& final(self).ws(target_workspace).focus_stack@.last() == window_id
                &&& match old(self).win(window_id).workspace {
                    Some(src) => old(self).has_workspace(src) && src != target_workspace ==> {
                        &&& !final(self).ws(src).spec_contains(window_id)
                        &&& !final(self).ws(src).focus_stack@.contains(window_id)
                    },
                    None => true,
                }
            },
            forall|ws: WorkspaceId| #[trigger] final(self).has_workspace(ws) == old(self).has_workspace(ws),
            old(self).inv() ==> final(self).inv(),
    {
        let i = match self.find_window_index(window_id) {
            Some(i) => i,
            None => {
                return;
            },
        };
        let kd = match self.find_workspace_index(target_workspace) {
            Some(k) => k,
            None => {
                return;
            },
        };
        let ghost s0 = *self;
        let old_workspace = self.windows[i].workspace;
        let ghost before = self.windows@;
        let mut w = self.windows.remove(i);
        w.workspace = Some(target_workspace);
        let ghost wg = w;
        self.windows.insert(i, w);
        assert(self.windows@ =~= before.update(i as int, wg));
        proof {
            assert(self.window_index(window_id) == Some(i as int)) by {
                lemma_find_window(self.windows@, window_id, 0);
                lemma_find_window(s0.windows@, window_id, 0);
                assert(self.windows@[i as int].id == window_id);
            }
        }
        let ghost s1 = *self;
        let mut ks: usize = kd;
        if let Some(old_ws_id) = old_workspace {
            if old_ws_id != target_workspace {
                if let Some(k) = self.find_workspace_index(old_ws_id) {
                    ks = k;
                    let ws = workspace_table_at_mut(&mut self.workspaces, k);
                    ws.remove_window(window_id);
                    proof {
                        self.lemma_ws_update_wf(&s1, k as int);
                        self.lemma_ws_index(k as int);
                    }
                }
            }
        }
        let ghost s2 = *self;
        let ws = workspace_table_at_mut(&mut self.workspaces, kd);
        ws.remove_window(window_id);
        ws.add_window(window_id, &self.config);
        proof {
            self.lemma_ws_update_wf(&s2, kd as int);
            self.lemma_ws_index(kd as int);
            let d = self.ws_entries()[kd as int].1;
            assert(d.tiled_windows@[d.tiled_windows@.len() - 1] == window_id);
            assert(d.floating_windows@.contains(window_id) ==> d.spec_contains(window_id));
            if ks != kd {
                self.lemma_ws_index(ks as int);
                assert(self.ws_entries()[ks as int] == s2.ws_entries()[ks as int]);
            }
        }
        self.layout_dirty = true;
        proof {
            assert(forall|ws: WorkspaceId| #[trigger] self.has_workspace(ws) == s0.has_workspace(ws));
            if let Some(src) = s0.win(window_id).workspace {
                if s0.has_workspace(src) && src != target_workspace {
                    assert(old_workspace == Some(src));
                    s0.lemma_ws_index(s0.ws_index(src)->0);
                    assert(ks != kd);
                    self.lemma_ws_index(ks as int);
                }
            }
            assert forall|x: WindowId| s0.has_window(x) == self.has_window(x) by {
                if s0.has_window(x) {
                    let j = choose|j: int| 0 <= j < s0.windows@.len() && s0.windows@[j].id == x;
                    assert(self.windows@[j].id == x);
                }
                if self.has_window(x) {
                    let j = choose|j: int| 0 <= j < self.windows@.len() && self.windows@[j].id == x;
                    assert(s0.windows@[j].id == x);
                }
            }
            if s0.inv() {
                assert forall|j: int| 0 <= j < self.windows@.len() implies match (#[trigger] self.windows@[j]).workspace {
                    Some(ws) => self.has_workspace(ws),
                    None => true,
                } by {
                    if j != i {
                        let w0 = s0.windows@[j];
                        assert(self.windows@[j] == w0);
                        if let Some(ws) = w0.workspace {
                            assert(s0.has_workspace(ws));
                        }
                    }
                }
                assert forall|j: int| 0 <= j < self.marks@.len() implies self.has_window(#[trigger] self.marks@[j].1) by {
                    assert(s0.has_window(s0.marks@[j].1));
                }
            }
        }
    }

    /// The topmost visible window of `list` (last first) that contains the point.
    pub open spec fn topmost_hit(&self, list: Seq<WindowId>, x: int, y: int) -> Option<WindowId>
        decreases list.len(),
    {
        if list.len() == 0 {
            None
        } else {
            let w = list.last();
            if self.has_window(w) && !self.win(w).state.has(WindowState::HIDDEN)
                && self.win(w).geometry.spec_contains(x, y) {
                Some(w)
            } else {
                self.topmost_hit(list.drop_last(), x, y)
            }
        }
    }

    /// The window under a point of the focused workspace: floating windows
    /// first, then tiled ones, each topmost first; hidden windows are skipped.
    pub open spec fn spec_window_at(&self, x: int, y: int) -> Option<WindowId> {
        match self.focus.focused_workspace {
            Some(id) => if self.has_workspace(id) {
                match self.topmost_hit(self.ws(id).floating_windows@, x, y) {
                    Some(w) => Some(w),
                    None => self.topmost_hit(self.ws(id).tiled_windows@, x, y),
                }
            } else {
                None
            },
            None => None,
        }
    }

    fn hit_in(&self, list: &Vec<WindowId>, x: i32, y: i32) -> (r: Option<WindowId>)
        ensures
            r == self.topmost_hit(list@, x as int, y as int),
    {
        let mut k: usize = list.len();
        assert(list@.subrange(0, k as int) =~= list@);
        while k > 0
            invariant
                k <= list@.len(),
                self.topmost_hit(list@, x as int, y as int) == self.topmost_hit(list@.subrange(0, k as int), x as int, y as int),
            decreases k,
        {
            let w = list[k - 1];
            assert(list@.subrange(0, k as int).drop_last() =~= list@.subrange(0, k - 1));
            if let Some(i) = self.find_window_index(w) {
                let win = &self.windows[i];
                if !win.state.contains(WindowState::HIDDEN) && win.geometry.contains(x, y) {
                    return Some(w);
                }
            }
            k = k - 1;
        }
        None
    }

    /// Hit-test a point on the focused workspace.
    pub fn window_at(&self, x: i32, y: i32) -> (r: Option<WindowId>)
        requires
            self.wf(),
        ensures
            r == self.spec_window_at(x as int, y as int),
    {
        let id = match self.focus.focused_workspace {
            Some(id) => id,
            None => {
                return None;
            },
        };
        let k = match self.find_workspace_index(id) {
            Some(k) => k,
            None => {
                return None;
            },
        };
        let ws = workspace_table_at(&self.workspaces, k);
        match self.hit_in(&ws.floating_windows, x, y) {
            Some(w) => Some(w),
            None => self.hit_in(&ws.tiled_windows, x, y),
        }
    }

    /// Put a window into the scratchpad (hidden) or take it out (shown).
    pub fn toggle_scratchpad(&mut self, window_id: WindowId)
        requires
            old(self).wf(),
        ensures
            final(self).wf(),
            final(self).layout_dirty,
            old(self).scratchpad@.contains(window_id) ==> exists|p: int| 0 <= p < old(self).scratchpad@.len()
                && old(self).scratchpad@[p] == window_id && final(self).scratchpad@ == old(self).scratchpad@.remove(p),
            !old(self).scratchpad@.contains(window_id) ==> final(self).scratchpad@ == old(self).scratchpad@.push(window_id),
            final(self).scratchpad@.contains(window_id) == !old(self).scratchpad@.contains(window_id),
            forall|x: WindowId| x != window_id ==> (#[trigger] final(self).scratchpad@.contains(x)) == old(self).scratchpad@.contains(x),
            old(self).has_window(window_id) ==> final(self).win(window_id).state.has(WindowState::HIDDEN)
                == !old(self).scratchpad@.contains(window_id),
            final(self).same_windows(old(self)),
            final(self).focus == old(self).focus,
            final(self).marks == old(self).marks,
            final(self).workspaces == old(self).workspaces,
            old(self).inv() ==> final(self).inv(),
    {
        let ghost s0 = *self;
        match index_of(&self.scratchpad, window_id) {
            Some(pos) => {
                let ghost sp = self.scratchpad@;
                self.scratchpad.remove(pos);
                proof {
                    lemma_no_dups_remove(sp, pos as int);
                }
                if let Some(i) = self.find_window_index(window_id) {
                    self.set_window_flag(i, WindowState::HIDDEN, false);
                    proof {
                        let b = s0.windows@[i as int].state.bits;
                        assert((b & !8u32) & 8u32 != 8u32) by (bit_vector);
                    }
                }
            },
            None => {
                let ghost sp = self.scratchpad@;
                self.scratchpad.push(window_id);
                proof {
                    lemma_no_dups_push(sp, window_id);
                }
                if let Some(i) = self.find_window_index(window_id) {
                    self.set_window_flag(i, WindowState::HIDDEN, true);
                    proof {
                        let b = s0.windows@[i as int].state.bits;
                        assert((b | 8u32) & 8u32 == 8u32) by (bit_vector);
                    }
                }
            },
        }
        self.layout_dirty = true;
        proof {
            lemma_find_window(s0.windows@, window_id, 0);
            lemma_find_window(self.windows@, window_id, 0);
            assert forall|x: WindowId| s0.has_window(x) == self.has_window(x) by {
                if s0.has_window(x) {
                    let j = choose|j: int| 0 <= j < s0.windows@.len() && s0.windows@[j].id == x;
                    assert(self.windows@[j].id == x);
                }
                if self.has_window(x) {
                    let j = choose|j: int| 0 <= j < self.windows@.len() && self.windows@[j].id == x;
                    assert(s0.windows@[j].id == x);
                }
            }
            if s0.inv() {
                assert(self.ws_entries() == s0.ws_entries());
                assert forall|j: int| 0 <= j < self.windows@.len() implies match (#[trigger] self.windows@[j]).workspace {
                    Some(ws) => self.has_workspace(ws),
                    None => true,
                } by {
                    let w0 = s0.windows@[j];
                    assert(self.windows@[j].workspace == w0.workspace);
                    if let Some(ws) = w0.workspace {
                        assert(s0.has_workspace(ws));
                    }
                }
                assert forall|j: int| 0 <= j < self.marks@.len() implies self.has_window(#[trigger] self.marks@[j].1) by {
                    assert(s0.has_window(s0.marks@[j].1));
                }
            }
        }
    }

    /// Name a window with a mark, replacing the mark's previous target.
    pub fn set_mark(&mut self, mark: String, window_id: WindowId)
        requires
            old(self).wf(),
        ensures
            final(self).wf(),
            final(self).mark_target(mark@) == Some(window_id),
            forall|n: Seq<char>| n != mark@ ==> final(self).mark_target(n) == old(self).mark_target(n),
            *final(self) == (State { marks: final(self).marks, ..*old(self) }),
            old(self).inv() && old(self).has_window(window_id) ==> final(self).inv(),
    {
        let ghost m0 = self.marks@;
        let ghost name = mark@;
        let found = self.find_mark_index(mark.as_str());
        let i: usize = match found {
            Some(i) => i,
            None => self.marks.len(),
        };
        if i < self.marks.len() {
            self.marks.set(i, (mark, window_id));
        } else {
            self.marks.push((mark, window_id));
        }
        proof {
            let ms = self.marks@;
            assert(ms[i as int].0@ == name);
            assert forall|n: Seq<char>| #[trigger] find_mark(ms, n) is Some <==> find_mark(m0, n) is Some || n == name by {
                if find_mark(m0, n) is Some {
                    let j = choose|j: int| 0 <= j < m0.len() && m0[j].0@ == n;
                    assert(ms[j].0@ == n);
                }
                if find_mark(ms, n) is Some && n != name {
                    let j = choose|j: int| 0 <= j < ms.len() && ms[j].0@ == n;
                    assert(m0[j].0@ == n);
                }
            }
            assert(find_mark(ms, name) == Some(i as int));
            assert forall|n: Seq<char>| n != name implies self.mark_target(n) == old(self).mark_target(n) by {
                if find_mark(m0, n) is Some {
                    let j = find_mark(m0, n)->0;
                    let j2 = find_mark(ms, n)->0;
                    assert(ms[j].0@ == n);
                    assert(j == j2);
                }
            }
        }
    }

    /// Remove a mark by name.
    pub fn remove_mark(&mut self, name: &str)
        requires
            old(self).wf(),
        ensures
            final(self).wf(),
            final(self).mark_target(name@) is None,
            forall|n: Seq<char>| n != name@ ==> final(self).mark_target(n) == old(self).mark_target(n),
            *final(self) == (State { marks: final(self).marks, ..*old(self) }),
            old(self).inv() ==> final(self).inv(),
    {
        let ghost m0 = self.marks@;
        let i: usize = match self.find_mark_index(name) {
            Some(i) => i,
            None => self.marks.len(),
        };
        if i < self.marks.len() {
            self.marks.remove(i);
            proof {
                let ms = self.marks@;
                assert forall|a: int, b: int| 0 <= a < ms.len() && 0 <= b < ms.len() && a != b implies ms[a].0@ != ms[b].0@ by {
                    let a0 = if a < i { a } else { a + 1 };
                    let b0 = if b < i { b } else { b + 1 };
                    assert(ms[a] == m0[a0]);
                    assert(ms[b] == m0[b0]);
                }
                assert forall|n: Seq<char>| n != name@ implies self.mark_target(n) == old(self).mark_target(n) by {
                    if find_mark(m0, n) is Some {
                        let j = find_mark(m0, n)->0;
                        let j1 = if j < i { j } else { j - 1 };
                        assert(ms[j1].0@ == n);
                        let j2 = find_mark(ms, n)->0;
                        let j3 = if j2 < i { j2 } else { j2 + 1 };
                        assert(m0[j3] == ms[j2]);
                    }
                    if find_mark(ms, n) is Some {
                        let j2 = choose|j: int| 0 <= j < ms.len() && ms[j].0@ == n;
                        let j3 = if j2 < i { j2 } else { j2 + 1 };
                        assert(m0[j3].0@ == n);
                    }
                }
                assert(find_mark(ms, name@) is None) by {
                    if exists|j: int| 0 <= j < ms.len() && ms[j].0@ == name@ {
                        let j2 = choose|j: int| 0 <= j < ms.len() && ms[j].0@ == name@;
                        let j3 = if j2 < i { j2 } else { j2 + 1 };
                        assert(m0[j3].0@ == name@);
                    }
                }
                if old(self).inv() {
                    assert forall|j: int| 0 <= j < ms.len() implies self.has_window(#[trigger] ms[j].1) by {
                        let j3 = if j < i { j } else { j + 1 };
                        assert(ms[j] == m0[j3]);
                        assert(old(self).has_window(m0[j3].1));
                    }
                }
            }
        }
    }

    /// Remove every mark.
    pub fn clear_marks(&mut self)
        requires
            old(self).wf(),
        ensures
            final(self).wf(),
            final(self).marks@.len() == 0,
            *final(self) == (State { marks: final(self).marks, ..*old(self) }),
            old(self).inv() ==> final(self).inv(),
    {
        self.marks = Vec::new();
    }

    /// Focus the window a mark names, switching to its workspace if needed.
    pub fn goto_mark(&mut self, mark: &str)
        requires
            old(self).wf(),
        ensures
            final(self).wf(),
            old(self).mark_target(mark@) is None ==> *final(self) == *old(self),
            old(self).mark_target(mark@) matches Some(w) ==> (old(self).has_window(w)
                ==> final(self).focus.focused_window == Some(w)),
            final(self).marks == old(self).marks,
            final(self).vis_same(old(self)),
            old(self).inv() ==> final(self).inv(),
    {
        let target = self.mark(mark);
        if let Some(window_id) = target {
            self.focus_window(window_id);
            if let Some(i) = self.find_window_index(window_id) {
                if let Some(ws_id) = self.windows[i].workspace {
                    if self.focus.focused_workspace != Some(ws_id) {
                        self.switch_workspace(ws_id);
                    }
                }
            }
        }
    }

    /// Replacing a window by one with the same id and workspace keeps the
    /// state well formed and consistent.
    pub proof fn lemma_window_replaced(s0: &State, s1: &State, i: int)
        requires
            s0.wf(),
            0 <= i < s0.windows@.len(),
            s1.windows@.len() == s0.windows@.len(),
            forall|j: int| 0 <= j < s0.windows@.len() && j != i ==> s1.windows@[j] == s0.windows@[j],
            s1.windows@[i].id == s0.windows@[i].id,
            s1.windows@[i].workspace == s0.windows@[i].workspace,
            s1.workspaces == s0.workspaces,
            s1.outputs == s0.outputs,
            s1.focus == s0.focus,
            s1.marks == s0.marks,
            s1.scratchpad == s0.scratchpad,
        ensures
            s1.wf(),
            s0.inv() ==> s1.inv(),
            s1.same_windows(s0) || s1.windows@[i].geometry != s0.windows@[i].geometry,
            forall|id: WindowId| s1.has_window(id) == s0.has_window(id),
            forall|id: WindowId| s1.window_index(id) == s0.window_index(id),
    {
        assert forall|id: WindowId| s1.has_window(id) == s0.has_window(id) by {
            if s0.has_window(id) {
                let j = choose|j: int| 0 <= j < s0.windows@.len() && s0.windows@[j].id == id;
                assert(s1.windows@[j].id == id);
            }
            if s1.has_window(id) {
                let j = choose|j: int| 0 <= j < s1.windows@.len() && s1.windows@[j].id == id;
                assert(s0.windows@[j].id == id);
            }
        }
        assert forall|id: WindowId| s1.window_index(id) == s0.window_index(id) by {
            lemma_find_window(s0.windows@, id, 0);
            lemma_find_window(s1.windows@, id, 0);
            lemma_find_window_same(s0.windows@, s1.windows@, id, 0);
        }
        if s0.inv() {
            assert forall|j: int| 0 <= j < s1.windows@.len() implies match (#[trigger] s1.windows@[j]).workspace {
                Some(ws) => s1.has_workspace(ws),
                None => true,
            } by {
                let w0 = s0.windows@[j];
                assert(s1.ws_entries() == s0.ws_entries());
                assert(s1.windows@[j].workspace == w0.workspace);
                if let Some(ws) = w0.workspace {
                    assert(s0.has_workspace(ws));
                }
            }
            assert forall|j: int| 0 <= j < s1.marks@.len() implies s1.has_window(#[trigger] s1.marks@[j].1) by {
                assert(s0.has_window(s0.marks@[j].1));
            }
        }
    }

    /// Give the window at a position a new geometry as it is.
    pub fn set_window_geometry(&mut self, i: usize, g: Geometry)
        requires
            old(self).wf(),
            i < old(self).windows@.len(),
        ensures
            final(self).wf(),
            old(self).inv() ==> final(self).inv(),
            final(self).windows@ == old(self).windows@.update(i as int, Window { geometry: g, ..old(self).windows@[i as int] }),
            *final(self) == (State { windows: final(self).windows, ..*old(self) }),
            forall|id: WindowId| final(self).has_window(id) == old(self).has_window(id),
            forall|id: WindowId| final(self).window_index(id) == old(self).window_index(id),
    {
        let ghost s0 = *self;
        let ghost before = self.windows@;
        let mut w = self.windows.remove(i);
        w.geometry = g;
        let ghost wg = w;
        self.windows.insert(i, w);
        assert(self.windows@ =~= before.update(i as int, wg));
        proof {
            State::lemma_window_replaced(&s0, self, i as int);
        }
    }

    /// Give the window at a position a new geometry, constrained by its hints.
    pub fn apply_window_geometry(&mut self, i: usize, g: Geometry)
        requires
            old(self).wf(),
            i < old(self).windows@.len(),
        ensures
            final(self).wf(),
            old(self).inv() ==> final(self).inv(),
            final(self).windows@.len() == old(self).windows@.len(),
            forall|j: int| 0 <= j < old(self).windows@.len() && j != i ==> final(self).windows@[j] == old(self).windows@[j],
            final(self).windows@[i as int].geometry.x == g.x && final(self).windows@[i as int].geometry.y == g.y,
            ({
                let h = old(self).windows@[i as int].size_hints;
                &&& final(self).windows@[i as int].geometry.width as int == crate::window::constrain_dim(
                    g.width, h.min_width, h.max_width, h.base_width, h.width_increment)
                &&& final(self).windows@[i as int].geometry.height as int == crate::window::constrain_dim(
                    g.height, h.min_height, h.max_height, h.base_height, h.height_increment)
            }),
            final(self).windows@[i as int].id == old(self).windows@[i as int].id,
            final(self).windows@[i as int].state == old(self).windows@[i as int].state,
            final(self).windows@[i as int].workspace == old(self).windows@[i as int].workspace,
            *final(self) == (State { windows: final(self).windows, ..*old(self) }),
            forall|id: WindowId| final(self).has_window(id) == old(self).has_window(id),
            forall|id: WindowId| final(self).window_index(id) == old(self).window_index(id),
    {
        let ghost s0 = *self;
        let ghost before = self.windows@;
        let mut w = self.windows.remove(i);
        w.set_geometry(g);
        let ghost wg = w;
        self.windows.insert(i, w);
        assert(self.windows@ =~= before.update(i as int, wg));
        proof {
            State::lemma_window_replaced(&s0, self, i as int);
        }
    }

    /// Enter or leave fullscreen for the window at a position.
    pub fn set_window_fullscreen(&mut self, i: usize, enable: bool, output_geometry: Geometry)
        requires
            old(self).wf(),
            i < old(self).windows@.len(),
        ensures
            final(self).wf(),
            old(self).inv() ==> final(self).inv(),
            final(self).windows@.len() == old(self).windows@.len(),
            forall|j: int| 0 <= j < old(self).windows@.len() && j != i ==> final(self).windows@[j] == old(self).windows@[j],
            final(self).windows@[i as int].id == old(self).windows@[i as int].id,
            final(self).windows@[i as int].workspace == old(self).windows@[i as int].workspace,
            enable && !old(self).windows@[i as int].state.has(WindowState::FULLSCREEN)
                ==> final(self).windows@[i as int].geometry == output_geometry,
            *final(self) == (State { windows: final(self).windows, ..*old(self) }),
            forall|id: WindowId| final(self).has_window(id) == old(self).has_window(id),
            forall|id: WindowId| final(self).window_index(id) == old(self).window_index(id),
    {
        let ghost s0 = *self;
        let ghost before = self.windows@;
        let mut w = self.windows.remove(i);
        w.set_fullscreen(enable, output_geometry);
        let ghost wg = w;
        self.windows.insert(i, w);
        assert(self.windows@ =~= before.update(i as int, wg));
        proof {
            State::lemma_window_replaced(&s0, self, i as int);
        }
    }

    /// Move a window from the tiled to the floating list of workspace `k`.
    pub fn float_in_workspace(&mut self, k: usize, window_id: WindowId)
        requires
            old(self).wf(),
            k < old(self).ws_entries().len(),
        ensures
            final(self).wf(),
            old(self).inv() ==> final(self).inv(),
            final(self).ws_frame(old(self), k as int),
            final(self).ws_entries()[k as int].1.focus_stack == old(self).ws_entries()[k as int].1.focus_stack,
            final(self).ws_entries()[k as int].1.work_area == old(self).ws_entries()[k as int].1.work_area,
            match crate::workspace::index_spec(old(self).ws_entries()[k as int].1.tiled_windows@, window_id) {
                Some(p) => final(self).ws_entries()[k as int].1.tiled_windows@
                    == old(self).ws_entries()[k as int].1.tiled_windows@.remove(p)
                    && final(self).ws_entries()[k as int].1.floating_windows@
                    == old(self).ws_entries()[k as int].1.floating_windows@.push(window_id),
                None => final(self).ws_entries()[k as int].1 == old(self).ws_entries()[k as int].1,
            },
            *final(self) == (State { workspaces: final(self).workspaces, ..*old(self) }),
    {
        let ghost s0 = *self;
        let ws = workspace_table_at_mut(&mut self.workspaces, k);
        ws.float_window(window_id);
        proof {
            self.lemma_ws_update_wf(&s0, k as int);
            lemma_inv_same_windows(&s0, self);
        }
    }

    /// Move a window from the floating to the tiled list of workspace `k`.
    pub fn tile_in_workspace(&mut self, k: usize, window_id: WindowId)
        requires
            old(self).wf(),
            k < old(self).ws_entries().len(),
        ensures
            final(self).wf(),
            old(self).inv() ==> final(self).inv(),
            final(self).ws_frame(old(self), k as int),
            final(self).ws_entries()[k as int].1.focus_stack == old(self).ws_entries()[k as int].1.focus_stack,
            final(self).ws_entries()[k as int].1.work_area == old(self).ws_entries()[k as int].1.work_area,
            match crate::workspace::index_spec(old(self).ws_entries()[k as int].1.floating_windows@, window_id) {
                Some(p) => final(self).ws_entries()[k as int].1.floating_windows@
                    == old(self).ws_entries()[k as int].1.floating_windows@.remove(p)
                    && final(self).ws_entries()[k as int].1.tiled_windows@
                    == old(self).ws_entries()[k as int].1.tiled_windows@.push(window_id),
                None => final(self).ws_entries()[k as int].1 == old(self).ws_entries()[k as int].1,
            },
            *final(self) == (State { workspaces: final(self).workspaces, ..*old(self) }),
    {
        let ghost s0 = *self;
        let ws = workspace_table_at_mut(&mut self.workspaces, k);
        ws.tile_window(window_id, &self.config);
        proof {
            self.lemma_ws_update_wf(&s0, k as int);
            lemma_inv_same_windows(&s0, self);
        }
    }

    /// Lay out workspace `k` inside its work area.
    pub fn layout_workspace(&mut self, k: usize, outer_gap: u32)
        requires
            old(self).wf(),
            k < old(self).ws_entries().len(),
        ensures
            final(self).wf(),
            old(self).inv() ==> final(self).inv(),
            final(self).ws_frame(old(self), k as int),
            crate::layout::laid_out(old(self).ws_entries()[k as int].1.layout, final(self).ws_entries()[k as int].1.layout,
                old(self).ws_entries()[k as int].1.work_area, outer_gap),
            final(self).ws_entries()[k as int].1.tiled_windows == old(self).ws_entries()[k as int].1.tiled_windows,
            final(self).ws_entries()[k as int].1.focus_stack == old(self).ws_entries()[k as int].1.focus_stack,
            final(self).ws_entries()[k as int].1.work_area == old(self).ws_entries()[k as int].1.work_area,
            final(self).ws_entries()[k as int].1.floating_windows == old(self).ws_entries()[k as int].1.floating_windows,
            *final(self) == (State { workspaces: final(self).workspaces, ..*old(self) }),
    {
        let ghost s0 = *self;
        let ws = workspace_table_at_mut(&mut self.workspaces, k);
        ws.calculate_layout(outer_gap);
        proof {
            self.lemma_ws_update_wf(&s0, k as int);
            lemma_inv_same_windows(&s0, self);
        }
    }
}

/// A state that differs only in its workspace lists (same workspace ids)
/// keeps the invariants.
proof fn lemma_inv_same_windows(s0: &State, s1: &State)
    requires
        s1.windows == s0.windows,
        s1.marks == s0.marks,
        s1.focus == s0.focus,
        forall|id: WorkspaceId| s1.has_workspace(id) == s0.has_workspace(id),
    ensures
        s0.inv() ==> s1.inv(),
{
    if s0.inv() {
        assert forall|j: int| 0 <= j < s1.windows@.len() implies match (#[trigger] s1.windows@[j]).workspace {
            Some(ws) => s1.has_workspace(ws),
            None => true,
        } by {
            let w0 = s0.windows@[j];
            if let Some(ws) = w0.workspace {
                assert(s0.has_workspace(ws));
            }
        }
        assert forall|j: int| 0 <= j < s1.marks@.len() implies s1.has_window(#[trigger] s1.marks@[j].1) by {
            assert(s0.has_window(s0.marks@[j].1));
        }
    }
}

pub proof fn lemma_find_window_same(a: Seq<Window>, b: Seq<Window>, id: WindowId, i: int)
    requires
        0 <= i,
        a.len() == b.len(),
        forall|j: int| 0 <= j < a.len() ==> a[j].id == b[j].id,
    ensures
        find_window(a, id, i) == find_window(b, id, i),
    decreases a.len() - i,
{
    if i < a.len() {
        lemma_find_window_same(a, b, id, i + 1);
    }
}

/// The predicate "the mark names a window other than `id`".
pub open spec fn mark_not_on(id: WindowId) -> spec_fn((String, WindowId)) -> bool {
    |m: (String, WindowId)| m.1 != id
}

/// No id occurs twice.
pub open spec fn no_dups(s: Seq<WindowId>) -> bool {
    forall|i: int, j: int| 0 <= i < s.len() && 0 <= j < s.len() && i != j ==> s[i] != s[j]
}

/// Removing a position keeps a list free of duplicates; the removed id is
/// gone and every other id stays.
pub proof fn lemma_no_dups_remove(s: Seq<WindowId>, p: int)
    requires
        no_dups(s),
        0 <= p < s.len(),
    ensures
        no_dups(s.remove(p)),
        !s.remove(p).contains(s[p]),
        forall|x: WindowId| x != s[p] ==> (#[trigger] s.remove(p).contains(x)) == s.contains(x),
{
    let r = s.remove(p);
    assert forall|a: int, b: int| 0 <= a < r.len() && 0 <= b < r.len() && a != b implies r[a] != r[b] by {
        let a0 = if a < p { a } else { a + 1 };
        let b0 = if b < p { b } else { b + 1 };
        assert(r[a] == s[a0] && r[b] == s[b0]);
    }
    assert(!r.contains(s[p])) by {
        if r.contains(s[p]) {
            let a = choose|a: int| 0 <= a < r.len() && r[a] == s[p];
            let a0 = if a < p { a } else { a + 1 };
            assert(r[a] == s[a0]);
        }
    }
    assert forall|x: WindowId| x != s[p] implies (#[trigger] r.contains(x)) == s.contains(x) by {
        if s.contains(x) {
            let a = choose|a: int| 0 <= a < s.len() && s[a] == x;
            if a < p {
                assert(r[a] == x);
            } else {
                assert(a != p);
                assert(r[a - 1] == x);
            }
        }
        if r.contains(x) {
            let a = choose|a: int| 0 <= a < r.len() && r[a] == x;
            let a0 = if a < p { a } else { a + 1 };
            assert(s[a0] == x);
        }
    }
}

/// Appending an absent id keeps a list free of duplicates.
pub proof fn lemma_no_dups_push(s: Seq<WindowId>, x: WindowId)
    requires
        no_dups(s),
        !s.contains(x),
    ensures
        no_dups(s.push(x)),
        s.push(x).contains(x),
        forall|y: WindowId| y != x ==> (#[trigger] s.push(x).contains(y)) == s.contains(y),
{
    let r = s.push(x);
    assert(r[s.len() as int] == x);
    assert forall|a: int, b: int| 0 <= a < r.len() && 0 <= b < r.len() && a != b implies r[a] != r[b] by {
        if a < s.len() && b == s.len() {
            assert(s[a] != x);
        }
        if b < s.len() && a == s.len() {
            assert(s[b] != x);
        }
    }
    assert forall|y: WindowId| y != x implies (#[trigger] r.contains(y)) == s.contains(y) by {
        if s.contains(y) {
            let a = choose|a: int| 0 <= a < s.len() && s[a] == y;
            assert(r[a] == y);
        }
        if r.contains(y) {
            let a = choose|a: int| 0 <= a < r.len() && r[a] == y;
            assert(a < s.len());
        }
    }
}

/// The decimal name of a default workspace.
pub open spec fn default_workspace_name(i: u32) -> Seq<char> {
    if i == 10 {
        seq!['1', '0']
    } else {
        seq![('0' as u8 + i) as char]
    }
}

fn workspace_name(i: u32) -> (r: String)
    requires
        1 <= i <= 10,
{
    match i {
        1 => "1".to_owned(),
        2 => "2".to_owned(),
        3 => "3".to_owned(),
        4 => "4".to_owned(),
        5 => "5".to_owned(),
        6 => "6".to_owned(),
        7 => "7".to_owned(),
        8 => "8".to_owned(),
        9 => "9".to_owned(),
        _ => "10".to_owned(),
    }

}

} // verus!
