//! Names of the X11 atoms the compatibility layer uses.
use vstd::prelude::*;

verus! {

pub const WM_PROTOCOLS: &'static str = "WM_PROTOCOLS";
pub const WM_DELETE_WINDOW: &'static str = "WM_DELETE_WINDOW";
pub const WM_STATE: &'static str = "WM_STATE";
pub const WM_CLASS: &'static str = "WM_CLASS";
pub const WM_NAME: &'static str = "WM_NAME";
pub const NET_SUPPORTED: &'static str = "_NET_SUPPORTED";
pub const NET_WM_NAME: &'static str = "_NET_WM_NAME";
pub const NET_WM_STATE: &'static str = "_NET_WM_STATE";
pub const NET_WM_STATE_FULLSCREEN: &'static str = "_NET_WM_STATE_FULLSCREEN";
pub const NET_WM_STATE_MAXIMIZED_VERT: &'static str = "_NET_WM_STATE_MAXIMIZED_VERT";
pub const NET_WM_STATE_MAXIMIZED_HORZ: &'static str = "_NET_WM_STATE_MAXIMIZED_HORZ";
pub const NET_WM_STATE_HIDDEN: &'static str = "_NET_WM_STATE_HIDDEN";
pub const NET_WM_WINDOW_TYPE: &'static str = "_NET_WM_WINDOW_TYPE";
pub const NET_WM_WINDOW_TYPE_NORMAL: &'static str = "_NET_WM_WINDOW_TYPE_NORMAL";
pub const NET_WM_WINDOW_TYPE_DIALOG: &'static str = "_NET_WM_WINDOW_TYPE_DIALOG";
pub const NET_ACTIVE_WINDOW: &'static str = "_NET_ACTIVE_WINDOW";
pub const NET_CURRENT_DESKTOP: &'static str = "_NET_CURRENT_DESKTOP";

} // verus!
