//! Protocol-agnostic window manager engine.
//!
//! The crate owns all window, workspace, layout, focus and binding state and
//! turns backend events and textual commands into an ordered list of actions
//! that a display backend applies.
use vstd::prelude::*;

pub mod atoms;
pub mod config;
pub mod core_engine;
pub mod event;
pub mod frame;
pub mod invariants;
pub mod ipc;
pub mod input;
pub mod layout;
pub mod session;
pub mod state;
pub mod tables;
pub mod text;
pub mod window;
pub mod workspace;

pub use core_engine::{Core, ResizeEdge};
pub use event::{CoreAction, CoreEvent};
pub use input::Command;
pub use state::Geometry;
pub use window::WindowId;
pub use workspace::WorkspaceId;
