//! Workspaces: per-desktop window membership, tiling order and focus stack.
use vstd::prelude::*;

use crate::config::Config;
use crate::layout::{laid_out, lookup_geometry, LayoutTree};
use crate::state::Geometry;
use crate::text::{parse_u32, spec_parse_u32};
use crate::window::{index_of, other_than, remove_id, WindowId};

verus! {

/// Unique identifier for workspaces.
#[derive(Debug, Clone, Copy, PartialEq, Eq, Hash, Structural)]
pub struct WorkspaceId(pub u32);

/// A virtual workspace (desktop).
#[derive(Debug)]
pub struct Workspace {
    pub id: WorkspaceId,
    pub name: String,
    pub number: Option<u32>,
    pub output: Option<String>,
    pub layout: LayoutTree,
    pub tiled_windows: Vec<WindowId>,
    pub floating_windows: Vec<WindowId>,
    pub fullscreen_window: Option<WindowId>,
    /// Most recently focused last.
    pub focus_stack: Vec<WindowId>,
    pub visible: bool,
    pub urgent: bool,
    pub geometry: Geometry,
    pub work_area: Geometry,
}

impl Workspace {
    pub open spec fn wf(&self) -> bool {
        &&& self.layout.wf()
        &&& self.work_area.fits()
    }

    pub open spec fn spec_contains(&self, w: WindowId) -> bool {
        self.tiled_windows@.contains(w) || self.floating_windows@.contains(w)
    }

    /// An empty workspace; a decimal name also gives its number.
    pub fn new(id: WorkspaceId, name: String) -> (r: Self)
        ensures
            r.wf(),
            r.id == id,
            r.name@ == name@,
            r.number == spec_parse_u32(name@),
            r.output is None,
            r.layout.containers@.len() == 0 && r.layout.root is None,
            r.tiled_windows@.len() == 0,
            r.floating_windows@.len() == 0,
            r.fullscreen_window is None,
            r.focus_stack@.len() == 0,
            !r.visible && !r.urgent,
            r.geometry == (Geometry { x: 0, y: 0, width: 0, height: 0 }),
            r.work_area == (Geometry { x: 0, y: 0, width: 0, height: 0 }),
    {
        let number = parse_u32(name.as_str());
        Workspace {
            id,
            name,
            number,
            output: None,
            layout: LayoutTree::new(),
            tiled_windows: Vec::new(),
            floating_windows: Vec::new(),
            fullscreen_window: None,
            focus_stack: Vec::new(),
            visible: false,
            urgent: false,
            geometry: Geometry::new(0, 0, 0, 0),
            work_area: Geometry::new(0, 0, 0, 0),
        }
    }

    /// Add a tiled window: appended to the tiling order, inserted in the
    /// layout tree, pushed on the focus stack.
    pub fn add_window(&mut self, window_id: WindowId, config: &Config)
        requires
            old(self).wf(),
        ensures
            final(self).wf(),
            final(self).id == old(self).id,
            final(self).tiled_windows@ == old(self).tiled_windows@.push(window_id),
            final(self).floating_windows@ == old(self).floating_windows@,
            final(self).focus_stack@ == old(self).focus_stack@.push(window_id),
            final(self).fullscreen_window == old(self).fullscreen_window,
            final(self).name@ == old(self).name@,
            final(self).work_area == old(self).work_area,
    {
        self.tiled_windows.push(window_id);
        self.layout.add_window(window_id, config);
        self.focus_stack.push(window_id);
    }

    /// Add a floating window: appended to the stacking order and focus stack.
    pub fn add_floating_window(&mut self, window_id: WindowId)
        requires
            old(self).wf(),
        ensures
            final(self).wf(),
            final(self).id == old(self).id,
            final(self).tiled_windows@ == old(self).tiled_windows@,
            final(self).floating_windows@ == old(self).floating_windows@.push(window_id),
            final(self).focus_stack@ == old(self).focus_stack@.push(window_id),
            final(self).fullscreen_window == old(self).fullscreen_window,
            final(self).name@ == old(self).name@,
            final(self).work_area == old(self).work_area,
            final(self).layout == old(self).layout,
    {
        self.floating_windows.push(window_id);
        self.focus_stack.push(window_id);
    }

    /// Remove a window from every list of the workspace and from its layout.
    pub fn remove_window(&mut self, window_id: WindowId)
        requires
            old(self).wf(),
        ensures
            final(self).wf(),
            final(self).id == old(self).id,
            final(self).tiled_windows@ == old(self).tiled_windows@.filter(other_than(window_id)),
            final(self).floating_windows@ == old(self).floating_windows@.filter(other_than(window_id)),
            final(self).focus_stack@ == old(self).focus_stack@.filter(other_than(window_id)),
            !final(self).spec_contains(window_id),
            forall|x: WindowId| x != window_id ==> (final(self).spec_contains(x) == old(self).spec_contains(x)),
            forall|x: WindowId| final(self).focus_stack@.contains(x) <==> (old(self).focus_stack@.contains(x) && x != window_id),
            final(self).fullscreen_window == if old(self).fullscreen_window == Some(window_id) {
                None
            } else {
                old(self).fullscreen_window
            },
            final(self).name@ == old(self).name@,
            final(self).work_area == old(self).work_area,
    {
        remove_id(&mut self.tiled_windows, window_id);
        self.layout.remove_window(window_id);
        remove_id(&mut self.floating_windows, window_id);
        remove_id(&mut self.focus_stack, window_id);
        if self.fullscreen_window == Some(window_id) {
            self.fullscreen_window = None;
        }
    }

    /// Move a tiled window to the floating list, taking it out of the layout.
    pub fn float_window(&mut self, window_id: WindowId)
        requires
            old(self).wf(),
        ensures
            final(self).wf(),
            final(self).id == old(self).id,
            final(self).focus_stack == old(self).focus_stack,
            final(self).fullscreen_window == old(self).fullscreen_window,
            final(self).name@ == old(self).name@,
            final(self).work_area == old(self).work_area,
            match index_spec(old(self).tiled_windows@, window_id) {
                Some(p) => final(self).tiled_windows@ == old(self).tiled_windows@.remove(p)
                    && final(self).floating_windows@ == old(self).floating_windows@.push(window_id),
                None => *final(self) == *old(self),
            },
    {
        if let Some(pos) = index_of(&self.tiled_windows, window_id) {
            self.tiled_windows.remove(pos);
            self.layout.remove_window(window_id);
            self.floating_windows.push(window_id);
        }
    }

    /// Move a floating window back to the tiling order and into the layout.
    pub fn tile_window(&mut self, window_id: WindowId, config: &Config)
        requires
            old(self).wf(),
        ensures
            final(self).wf(),
            final(self).id == old(self).id,
            final(self).focus_stack == old(self).focus_stack,
            final(self).fullscreen_window == old(self).fullscreen_window,
            final(self).name@ == old(self).name@,
            final(self).work_area == old(self).work_area,
            match index_spec(old(self).floating_windows@, window_id) {
                Some(p) => final(self).floating_windows@ == old(self).floating_windows@.remove(p)
                    && final(self).tiled_windows@ == old(self).tiled_windows@.push(window_id),
                None => *final(self) == *old(self),
            },
    {
        if let Some(pos) = index_of(&self.floating_windows, window_id) {
            self.floating_windows.remove(pos);
            self.tiled_windows.push(window_id);
            self.layout.add_window(window_id, config);
        }
    }

    /// Tiled windows, then floating ones.
    pub fn windows(&self) -> (r: Vec<WindowId>)
        ensures
            r@ == self.tiled_windows@ + self.floating_windows@,
    {
        let mut out: Vec<WindowId> = Vec::new();
        let mut i: usize = 0;
        while i < self.tiled_windows.len()
            invariant
                i <= self.tiled_windows@.len(),
                out@ == self.tiled_windows@.subrange(0, i as int),
            decreases self.tiled_windows@.len() - i,
        {
            out.push(self.tiled_windows[i]);
            i = i + 1;
        }
        let mut j: usize = 0;
        while j < self.floating_windows.len()
            invariant
                j <= self.floating_windows@.len(),
                out@ == self.tiled_windows@ + self.floating_windows@.subrange(0, j as int),
            decreases self.floating_windows@.len() - j,
        {
            out.push(self.floating_windows[j]);
            j = j + 1;
        }
        assert(self.floating_windows@.subrange(0, j as int) =~= self.floating_windows@);
        out
    }

    pub fn window_count(&self) -> (r: usize)
        requires
            self.tiled_windows@.len() + self.floating_windows@.len() <= usize::MAX,
        ensures
            r == self.tiled_windows@.len() + self.floating_windows@.len(),
    {
        self.tiled_windows.len() + self.floating_windows.len()
    }

    pub fn is_empty(&self) -> (r: bool)
        ensures
            r == (self.tiled_windows@.len() == 0 && self.floating_windows@.len() == 0),
    {
        self.tiled_windows.len() == 0 && self.floating_windows.len() == 0
    }

    pub fn contains(&self, window_id: WindowId) -> (r: bool)
        ensures
            r == self.spec_contains(window_id),
    {
        index_of(&self.tiled_windows, window_id).is_some() || index_of(&self.floating_windows, window_id).is_some()
    }

    /// The most recently focused window.
    pub fn focused_window(&self) -> (r: Option<WindowId>)
        ensures
            r == if self.focus_stack@.len() > 0 { Some(self.focus_stack@.last()) } else { None },
    {
        let n = self.focus_stack.len();
        if n > 0 {
            Some(self.focus_stack[n - 1])
        } else {
            None
        }
    }

    /// Put a window on top of the focus stack.
    pub fn focus_window(&mut self, window_id: WindowId)
        requires
            old(self).wf(),
        ensures
            final(self).wf(),
            final(self).focus_stack@ == old(self).focus_stack@.filter(other_than(window_id)).push(window_id),
            final(self).id == old(self).id,
            final(self).tiled_windows == old(self).tiled_windows,
            final(self).floating_windows == old(self).floating_windows,
            final(self).layout == old(self).layout,
            final(self).work_area == old(self).work_area,
            final(self).name@ == old(self).name@,
    {
        remove_id(&mut self.focus_stack, window_id);
        self.focus_stack.push(window_id);
    }

    /// Lay out the tiled windows in the work area.
    pub fn calculate_layout(&mut self, outer_gap: u32)
        requires
            old(self).wf(),
        ensures
            final(self).wf(),
            laid_out(old(self).layout, final(self).layout, old(self).work_area, outer_gap),
            final(self).id == old(self).id,
            final(self).tiled_windows == old(self).tiled_windows,
            final(self).floating_windows == old(self).floating_windows,
            final(self).focus_stack == old(self).focus_stack,
            final(self).work_area == old(self).work_area,
            final(self).name@ == old(self).name@,
    {
        let area = self.work_area;
        self.layout.calculate_layout(area, outer_gap);
    }

    /// The rectangle the last layout pass gave a window.
    pub fn window_geometry(&self, window_id: WindowId) -> (r: Option<Geometry>)
        ensures
            r == lookup_geometry(self.layout.window_geometries@, window_id),
    {
        self.layout.window_geometry(window_id)
    }

    /// Set the workspace's geometry; the work area follows it.
    pub fn set_geometry(&mut self, geometry: Geometry)
        requires
            old(self).wf(),
            geometry.fits(),
        ensures
            final(self).wf(),
            final(self).geometry == geometry,
            final(self).work_area == geometry,
            final(self).id == old(self).id,
            final(self).tiled_windows == old(self).tiled_windows,
            final(self).floating_windows == old(self).floating_windows,
            final(self).focus_stack == old(self).focus_stack,
            final(self).layout == old(self).layout,
            final(self).name@ == old(self).name@,
    {
        self.geometry = geometry;
        self.work_area = geometry;
    }
}

/// Index of the first occurrence of `w`.
pub open spec fn index_spec(s: Seq<WindowId>, w: WindowId) -> Option<int> {
    if s.contains(w) {
        Some(choose|i: int| 0 <= i < s.len() && s[i] == w && forall|j: int| 0 <= j < i ==> s[j] != w)
    } else {
        None
    }
}

} // verus!
