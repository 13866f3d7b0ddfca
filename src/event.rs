//! Events the backend sends to the engine, and actions it gets back.
use vstd::prelude::*;

use crate::state::Geometry;
use crate::window::WindowId;
use crate::workspace::WorkspaceId;

verus! {

/// Events that a backend sends to the engine. Pointer coordinates are whole
/// pixels in the global coordinate space.
#[derive(Debug, Clone)]
pub enum CoreEvent {
    /// A new window has been mapped.
    WindowMapped {
        id: WindowId,
        app_id: Option<String>,
        title: Option<String>,
        pid: Option<u32>,
        initial_geometry: Option<Geometry>,
        is_xwayland: bool,
    },
    /// A window has been unmapped (closed or destroyed).
    WindowUnmapped { id: WindowId },
    /// A window committed new state (for example, resized itself).
    WindowCommit { id: WindowId, new_geometry_hint: Option<Geometry> },
    /// A window asks for focus.
    FocusRequested { id: WindowId },
    /// An output was connected.
    OutputAdded { id: u64, name: String, geometry: Geometry },
    /// An output was disconnected.
    OutputRemoved { id: u64 },
    /// The pointer moved to an absolute position.
    PointerMotion { x: i32, y: i32 },
    /// A pointer button was pressed or released (Linux event codes).
    PointerButton { button: u32, pressed: bool },
    /// Frame tick: drives relayout and visibility updates.
    Tick,
}

/// Actions that the engine returns for the backend to apply, in order.
#[derive(Debug, Clone, PartialEq, Eq)]
pub enum CoreAction {
    /// Set the geometry (position and size) of a window.
    SetWindowGeometry { id: WindowId, x: i32, y: i32, w: u32, h: u32 },
    /// Set keyboard focus to a window, or clear it.
    SetFocus { id: Option<WindowId> },
    /// Ask the window to close.
    RequestClose { id: WindowId },
    /// A window's floating state changed.
    SetFloating { id: WindowId, floating: bool },
    /// The active workspace changed.
    WorkspaceChanged { active: Option<WorkspaceId> },
    /// Spawn a child process.
    SpawnProcess { command: String },
    /// Reload the configuration.
    ReloadConfig,
    /// Exit the compositor.
    Exit,
}

} // verus!
