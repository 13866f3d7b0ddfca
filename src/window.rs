//! Window model: identifiers, state flags, size constraints and rule matching.
use vstd::prelude::*;

use crate::state::Geometry;
use crate::text::{seq_has_infix, str_contains};
use crate::workspace::WorkspaceId;

verus! {

/// Unique, opaque identifier for a managed window.
#[derive(Debug, Clone, Copy, PartialEq, Eq, Hash, Structural)]
pub struct WindowId(pub u64);

/// Window state flags, held as a bitmask over the named single-bit constants.
#[derive(Debug, Clone, Copy, PartialEq, Eq, Hash, Structural)]
pub struct WindowState {
    pub bits: u32,
}

/// The bit is a single set bit.
pub open spec fn single_bit(f: u32) -> bool {
    f != 0 && f & ((f - 1) as u32) == 0
}

/// Setting and clearing a single flag touches no other single flag.
pub proof fn lemma_flag_ops(b: u32, f: u32, g: u32)
    requires
        single_bit(f),
        single_bit(g),
    ensures
        (b | f) & f == f,
        (b & !f) & f != f,
        f != g ==> (((b | f) & g == g) == (b & g == g)),
        f != g ==> (((b & !f) & g == g) == (b & g == g)),
{
    assert((b | f) & f == f) by (bit_vector);
    assert(f != 0 ==> (b & !f) & f != f) by (bit_vector);
    assert(f != 0 && g != 0 && f & ((f - 1) as u32) == 0 && g & ((g - 1) as u32) == 0 && f != g ==> (((b | f) & g
        == g) == (b & g == g))) by (bit_vector);
    assert(f != 0 && g != 0 && f & ((f - 1) as u32) == 0 && g & ((g - 1) as u32) == 0 && f != g ==> (((b & !f)
        & g == g) == (b & g == g))) by (bit_vector);
}

impl WindowState {
    pub const FOCUSED: u32 = 0x1;
    pub const FULLSCREEN: u32 = 0x2;
    pub const MAXIMIZED: u32 = 0x4;
    pub const HIDDEN: u32 = 0x8;
    pub const FLOATING: u32 = 0x10;
    pub const STICKY: u32 = 0x20;
    pub const URGENT: u32 = 0x40;
    pub const MOVING: u32 = 0x80;
    pub const RESIZING: u32 = 0x100;
    pub const DIALOG: u32 = 0x200;
    pub const MODAL: u32 = 0x400;

    /// Every bit of `flag` is set.
    pub open spec fn has(self, flag: u32) -> bool {
        self.bits & flag == flag
    }

    pub fn empty() -> (r: Self)
        ensures
            r.bits == 0,
    {
        WindowState { bits: 0 }
    }

    pub fn contains(&self, flag: u32) -> (r: bool)
        ensures
            r == self.has(flag),
    {
        self.bits & flag == flag
    }

    pub fn insert(&mut self, flag: u32)
        ensures
            final(self).bits == old(self).bits | flag,
    {
        self.bits = self.bits | flag;
    }

    pub fn remove(&mut self, flag: u32)
        ensures
            final(self).bits == old(self).bits & !flag,
    {
        self.bits = self.bits & !flag;
    }
}

/// Window type hints.
#[derive(Debug, Clone, Copy, PartialEq, Eq, Structural)]
pub enum WindowType {
    Normal,
    Dialog,
    Utility,
    Toolbar,
    Splash,
    Menu,
    DropdownMenu,
    PopupMenu,
    Tooltip,
    Notification,
    Dock,
    Desktop,
}

/// Border style.
#[derive(Debug, Clone, Copy, PartialEq, Eq, Structural)]
pub enum BorderStyle {
    Normal,
    Pixel(u32),
    NoBorder,
}

/// Window size constraints.
#[derive(Debug, Clone, Copy)]
pub struct SizeHints {
    pub min_width: Option<u32>,
    pub min_height: Option<u32>,
    pub max_width: Option<u32>,
    pub max_height: Option<u32>,
    pub base_width: Option<u32>,
    pub base_height: Option<u32>,
    pub width_increment: Option<u32>,
    pub height_increment: Option<u32>,
    pub aspect_ratio: Option<(u32, u32)>,
}

/// One dimension constrained: raised to the minimum, lowered to the maximum,
/// then snapped down onto the grid `base + k * inc` (never below `base`).
pub open spec fn constrain_dim(
    v: u32,
    min: Option<u32>,
    max: Option<u32>,
    base: Option<u32>,
    inc: Option<u32>,
) -> int {
    let a: int = match min {
        Some(m) => if v >= m { v as int } else { m as int },
        None => v as int,
    };
    let b: int = match max {
        Some(m) => if a <= m { a } else { m as int },
        None => a,
    };
    match (base, inc) {
        (Some(bs), Some(i)) => if i > 0 {
            let d: int = if b >= bs { b - bs } else { 0 };
            bs + (d / (i as int)) * (i as int)
        } else {
            b
        },
        _ => b,
    }
}

fn constrain_one(v: u32, min: Option<u32>, max: Option<u32>, base: Option<u32>, inc: Option<u32>) -> (r: u32)
    ensures
        r as int == constrain_dim(v, min, max, base, inc),
{
    let mut w = v;
    if let Some(m) = min {
        if w < m {
            w = m;
        }
    }
    if let Some(m) = max {
        if w > m {
            w = m;
        }
    }
    if let (Some(bs), Some(i)) = (base, inc) {
        if i > 0 {
            let d: u32 = if w >= bs { w - bs } else { 0 };
            let steps: u32 = d / i;
            proof {
                assert((d as int / i as int) * (i as int) <= d as int) by (nonlinear_arith)
                    requires i > 0, d >= 0;
            }
            w = bs + steps * i;
        }
    }
    w
}

impl SizeHints {
    /// No constraint at all.
    pub open spec fn spec_none() -> Self {
        SizeHints {
            min_width: None,
            min_height: None,
            max_width: None,
            max_height: None,
            base_width: None,
            base_height: None,
            width_increment: None,
            height_increment: None,
            aspect_ratio: None,
        }
    }

    pub fn none() -> (r: Self)
        ensures
            r == Self::spec_none(),
    {
        SizeHints {
            min_width: None,
            min_height: None,
            max_width: None,
            max_height: None,
            base_width: None,
            base_height: None,
            width_increment: None,
            height_increment: None,
            aspect_ratio: None,
        }
    }

    /// Constrain a size to these hints.
    pub fn constrain(&self, width: u32, height: u32) -> (r: (u32, u32))
        ensures
            r.0 as int == constrain_dim(width, self.min_width, self.max_width, self.base_width, self.width_increment),
            r.1 as int == constrain_dim(height, self.min_height, self.max_height, self.base_height, self.height_increment),
    {
        let w = constrain_one(width, self.min_width, self.max_width, self.base_width, self.width_increment);
        let h = constrain_one(height, self.min_height, self.max_height, self.base_height, self.height_increment);
        (w, h)
    }
}

/// A managed window.
#[derive(Debug, Clone)]
pub struct Window {
    pub id: WindowId,
    pub title: String,
    pub app_id: String,
    pub class: String,
    pub geometry: Geometry,
    pub saved_geometry: Option<Geometry>,
    pub state: WindowState,
    pub window_type: WindowType,
    pub border: BorderStyle,
    pub size_hints: SizeHints,
    pub workspace: Option<WorkspaceId>,
    pub pid: Option<u32>,
    pub marks: Vec<String>,
    pub parent: Option<WindowId>,
    pub children: Vec<WindowId>,
    pub is_xwayland: bool,
}

/// Window types that float by default.
pub open spec fn floats_by_type(t: WindowType) -> bool {
    t is Dialog || t is Utility || t is Splash || t is Menu || t is PopupMenu || t is Tooltip
        || t is Notification
}

impl Window {
    pub open spec fn spec_should_float(&self) -> bool {
        floats_by_type(self.window_type) || self.parent is Some || self.state.has(WindowState::MODAL)
    }

    pub open spec fn spec_is_tiled(&self) -> bool {
        !self.state.has(WindowState::FLOATING) && !self.state.has(WindowState::FULLSCREEN)
    }

    /// A fresh window: no flags, normal type, 2 px border, no hints, no workspace.
    pub fn new(id: WindowId, app_id: String, title: String) -> (r: Self)
        ensures
            r.id == id,
            r.app_id@ == app_id@,
            r.title@ == title@,
            r.class@.len() == 0,
            r.geometry == (Geometry { x: 0, y: 0, width: 0, height: 0 }),
            r.saved_geometry is None,
            r.state.bits == 0,
            r.window_type == WindowType::Normal,
            r.border == BorderStyle::Pixel(2),
            r.size_hints == SizeHints::spec_none(),
            r.workspace is None,
            r.pid is None,
            r.marks@.len() == 0,
            r.parent is None,
            r.children@.len() == 0,
            !r.is_xwayland,
    {
        Window {
            id,
            title,
            app_id,
            class: String::new(),
            geometry: Geometry::new(0, 0, 0, 0),
            saved_geometry: None,
            state: WindowState::empty(),
            window_type: WindowType::Normal,
            border: BorderStyle::Pixel(2),
            size_hints: SizeHints::none(),
            workspace: None,
            pid: None,
            marks: Vec::new(),
            parent: None,
            children: Vec::new(),
            is_xwayland: false,
        }
    }

    /// Whether the window should float by default.
    pub fn should_float(&self) -> (r: bool)
        ensures
            r == self.spec_should_float(),
    {
        let by_type = match self.window_type {
            WindowType::Dialog | WindowType::Utility | WindowType::Splash | WindowType::Menu
            | WindowType::PopupMenu | WindowType::Tooltip | WindowType::Notification => true,
            _ => false,
        };
        by_type || self.parent.is_some() || self.state.contains(WindowState::MODAL)
    }

    /// Toggle the floating flag.
    pub fn toggle_floating(&mut self)
        ensures
            final(self).state.has(WindowState::FLOATING) == !old(self).state.has(WindowState::FLOATING),
            final(self).state.bits == old(self).state.bits ^ WindowState::FLOATING,
            final(self).id == old(self).id,
            final(self).workspace == old(self).workspace,
            final(self).geometry == old(self).geometry,
    {
        let b = self.state.bits;
        if self.state.contains(WindowState::FLOATING) {
            self.state.remove(WindowState::FLOATING);
            assert(b & 0x10 == 0x10 ==> b & !0x10u32 == b ^ 0x10) by (bit_vector);
            assert((b & !0x10u32) & 0x10 != 0x10) by (bit_vector);
        } else {
            self.state.insert(WindowState::FLOATING);
            assert(b & 0x10 != 0x10 ==> b | 0x10 == b ^ 0x10) by (bit_vector);
            assert((b | 0x10) & 0x10 == 0x10) by (bit_vector);
        }
    }

    /// Enter or leave fullscreen, saving and restoring the previous geometry.
    pub fn set_fullscreen(&mut self, fullscreen: bool, output_geometry: Geometry)
        ensures
            final(self).id == old(self).id,
            final(self).workspace == old(self).workspace,
            fullscreen && !old(self).state.has(WindowState::FULLSCREEN) ==> {
                &&& final(self).saved_geometry == Some(old(self).geometry)
                &&& final(self).geometry == output_geometry
                &&& final(self).state.bits == old(self).state.bits | WindowState::FULLSCREEN
            },
            !fullscreen && old(self).state.has(WindowState::FULLSCREEN) ==> {
                &&& final(self).saved_geometry is None
                &&& final(self).geometry == match old(self).saved_geometry {
                    Some(g) => g,
                    None => old(self).geometry,
                }
                &&& final(self).state.bits == old(self).state.bits & !WindowState::FULLSCREEN
            },
            fullscreen == old(self).state.has(WindowState::FULLSCREEN) ==> *final(self) == *old(self),
    {
        let is_full = self.state.contains(WindowState::FULLSCREEN);
        if fullscreen && !is_full {
            self.saved_geometry = Some(self.geometry);
            self.geometry = output_geometry;
            self.state.insert(WindowState::FULLSCREEN);
        } else if !fullscreen && is_full {
            if let Some(saved) = self.saved_geometry.take() {
                self.geometry = saved;
            }
            self.state.remove(WindowState::FULLSCREEN);
        }
    }

    pub fn is_visible(&self) -> (r: bool)
        ensures
            r == !self.state.has(WindowState::HIDDEN),
    {
        !self.state.contains(WindowState::HIDDEN)
    }

    pub fn is_tiled(&self) -> (r: bool)
        ensures
            r == self.spec_is_tiled(),
    {
        !self.state.contains(WindowState::FLOATING) && !self.state.contains(WindowState::FULLSCREEN)
    }

    pub fn is_focused(&self) -> (r: bool)
        ensures
            r == self.state.has(WindowState::FOCUSED),
    {
        self.state.contains(WindowState::FOCUSED)
    }

    /// Set the geometry, with the size constrained by the window's size hints.
    pub fn set_geometry(&mut self, geometry: Geometry)
        ensures
            final(self).geometry.x == geometry.x,
            final(self).geometry.y == geometry.y,
            final(self).geometry.width as int == constrain_dim(geometry.width, old(self).size_hints.min_width,
                old(self).size_hints.max_width, old(self).size_hints.base_width, old(self).size_hints.width_increment),
            final(self).geometry.height as int == constrain_dim(geometry.height, old(self).size_hints.min_height,
                old(self).size_hints.max_height, old(self).size_hints.base_height, old(self).size_hints.height_increment),
            final(self).id == old(self).id,
            final(self).state == old(self).state,
            final(self).workspace == old(self).workspace,
    {
        let (w, h) = self.size_hints.constrain(geometry.width, geometry.height);
        self.geometry = Geometry::new(geometry.x, geometry.y, w, h);
    }

    /// Effective border width: none in fullscreen, else by border style.
    pub fn border_width(&self) -> (r: u32)
        ensures
            r == if self.state.has(WindowState::FULLSCREEN) {
                0
            } else {
                match self.border {
                    BorderStyle::NoBorder => 0,
                    BorderStyle::Pixel(w) => w,
                    BorderStyle::Normal => 2,
                }
            },
    {
        if self.state.contains(WindowState::FULLSCREEN) {
            return 0;
        }
        match self.border {
            BorderStyle::NoBorder => 0,
            BorderStyle::Pixel(w) => w,
            BorderStyle::Normal => 2,
        }
    }
}

/// Window matching criteria (for rules).
#[derive(Debug, Clone)]
pub struct WindowCriteria {
    pub app_id: Option<String>,
    pub class: Option<String>,
    pub title: Option<String>,
    pub title_regex: Option<String>,
    pub window_type: Option<WindowType>,
    pub floating: Option<bool>,
    pub tiling: Option<bool>,
    pub urgent: Option<bool>,
    pub focused: Option<bool>,
    pub workspace: Option<String>,
    pub con_mark: Option<String>,
}

/// The text criterion, if given, occurs in the value.
pub open spec fn text_matches(c: Option<String>, value: Seq<char>) -> bool {
    match c {
        Some(s) => seq_has_infix(value, s@),
        None => true,
    }
}

/// The flag criterion, if given, equals the flag.
pub open spec fn flag_matches(c: Option<bool>, value: bool) -> bool {
    match c {
        Some(b) => b == value,
        None => true,
    }
}

/// Some mark of the list equals `m`.
pub open spec fn has_mark(marks: Seq<String>, m: Seq<char>) -> bool {
    exists|i: int| 0 <= i < marks.len() && #[trigger] marks[i]@ == m
}

fn marks_contain(marks: &Vec<String>, m: &String) -> (r: bool)
    ensures
        r == has_mark(marks@, m@),
{
    let mut i: usize = 0;
    while i < marks.len()
        invariant
            i <= marks@.len(),
            forall|j: int| 0 <= j < i ==> marks@[j]@ != m@,
        decreases marks@.len() - i,
    {
        if marks[i] == *m {
            return true;
        }
        i = i + 1;
    }
    false
}

impl WindowCriteria {
    pub open spec fn spec_matches(&self, w: &Window) -> bool {
        &&& text_matches(self.app_id, w.app_id@)
        &&& text_matches(self.class, w.class@)
        &&& text_matches(self.title, w.title@)
        &&& match self.window_type {
            Some(t) => w.window_type == t,
            None => true,
        }
        &&& flag_matches(self.floating, w.state.has(WindowState::FLOATING))
        &&& flag_matches(self.urgent, w.state.has(WindowState::URGENT))
        &&& flag_matches(self.focused, w.state.has(WindowState::FOCUSED))
        &&& match self.con_mark {
            Some(m) => has_mark(w.marks@, m@),
            None => true,
        }
    }

    /// Criteria that match every window.
    pub fn new() -> (r: Self)
        ensures
            r.app_id is None && r.class is None && r.title is None && r.title_regex is None,
            r.window_type is None && r.floating is None && r.tiling is None,
            r.urgent is None && r.focused is None && r.workspace is None && r.con_mark is None,
    {
        WindowCriteria {
            app_id: None,
            class: None,
            title: None,
            title_regex: None,
            window_type: None,
            floating: None,
            tiling: None,
            urgent: None,
            focused: None,
            workspace: None,
            con_mark: None,
        }
    }

    /// The same criteria, with the app id criterion set.
    pub fn app_id(self, app_id: &str) -> (r: Self)
        ensures
            r.app_id matches Some(s) && s@ == app_id@,
            r.class == self.class && r.title == self.title && r.title_regex == self.title_regex,
            r.window_type == self.window_type && r.floating == self.floating && r.tiling == self.tiling,
            r.urgent == self.urgent && r.focused == self.focused && r.workspace == self.workspace,
            r.con_mark == self.con_mark,
    {
        let mut c = self;
        c.app_id = Some(app_id.to_owned());
        c
    }

    /// The same criteria, with the title criterion set.
    pub fn title(self, title: &str) -> (r: Self)
        ensures
            r.title matches Some(s) && s@ == title@,
            r.class == self.class && r.app_id == self.app_id && r.title_regex == self.title_regex,
            r.window_type == self.window_type && r.floating == self.floating && r.tiling == self.tiling,
            r.urgent == self.urgent && r.focused == self.focused && r.workspace == self.workspace,
            r.con_mark == self.con_mark,
    {
        let mut c = self;
        c.title = Some(title.to_owned());
        c
    }

    /// Whether a window matches every criterion that is given.
    pub fn matches(&self, window: &Window) -> (r: bool)
        ensures
            r == self.spec_matches(window),
    {
        if let Some(app_id) = &self.app_id {
            if !str_contains(window.app_id.as_str(), app_id.as_str()) {
                return false;
            }
        }
        if let Some(class) = &self.class {
            if !str_contains(window.class.as_str(), class.as_str()) {
                return false;
            }
        }
        if let Some(title) = &self.title {
            if !str_contains(window.title.as_str(), title.as_str()) {
                return false;
            }
        }
        if let Some(t) = self.window_type {
            if window.window_type != t {
                return false;
            }
        }
        if let Some(f) = self.floating {
            if window.state.contains(WindowState::FLOATING) != f {
                return false;
            }
        }
        if let Some(u) = self.urgent {
            if window.state.contains(WindowState::URGENT) != u {
                return false;
            }
        }
        if let Some(f) = self.focused {
            if window.state.contains(WindowState::FOCUSED) != f {
                return false;
            }
        }
        if let Some(m) = &self.con_mark {
            if !marks_contain(&window.marks, m) {
                return false;
            }
        }
        true
    }
}

/// The predicate "differs from `id`".
pub open spec fn other_than(id: WindowId) -> spec_fn(WindowId) -> bool {
    |x: WindowId| x != id
}

/// Drop every occurrence of `id`, keeping the order of the rest.
pub fn remove_id(v: &mut Vec<WindowId>, id: WindowId)
    ensures
        final(v)@ == old(v)@.filter(other_than(id)),
        forall|x: WindowId| final(v)@.contains(x) <==> (old(v)@.contains(x) && x != id),
{
    let mut out: Vec<WindowId> = Vec::new();
    let mut i: usize = 0;
    while i < v.len()
        invariant
            i <= v@.len(),
            *v == *old(v),
            out@ == v@.subrange(0, i as int).filter(other_than(id)),
        decreases v@.len() - i,
    {
        let x = v[i];
        proof {
            v@.subrange(0, i as int).lemma_filter_push(x, other_than(id));
            assert(v@.subrange(0, i as int).push(x) =~= v@.subrange(0, i + 1));
        }
        if x != id {
            out.push(x);
        }
        i = i + 1;
    }
    assert(v@.subrange(0, i as int) =~= v@);
    proof {
        broadcast use vstd::seq_lib::group_filter_ensures;
        assert forall|x: WindowId| out@.contains(x) <==> (old(v)@.contains(x) && x != id) by {
            if out@.contains(x) {
                let k = choose|k: int| 0 <= k < out@.len() && out@[k] == x;
                assert(other_than(id)(out@[k]));
                old(v)@.lemma_filter_contains_rev(other_than(id), x);
            }
            if old(v)@.contains(x) && x != id {
                let k = choose|k: int| 0 <= k < old(v)@.len() && old(v)@[k] == x;
                old(v)@.lemma_filter_contains(other_than(id), k);
            }
        }
    }
    *v = out;
}

/// Index of the first occurrence of `id`.
pub fn index_of(v: &Vec<WindowId>, id: WindowId) -> (r: Option<usize>)
    ensures
        match r {
            Some(i) => i < v@.len() && v@[i as int] == id && forall|j: int| 0 <= j < i ==> v@[j] != id,
            None => !v@.contains(id),
        },
{
    let mut i: usize = 0;
    while i < v.len()
        invariant
            i <= v@.len(),
            forall|j: int| 0 <= j < i ==> v@[j] != id,
        decreases v@.len() - i,
    {
        if v[i] == id {
            return Some(i);
        }
        i = i + 1;
    }
    None
}

} // verus!
