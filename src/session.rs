//! Which display session the compositor runs under.
use vstd::prelude::*;

verus! {

/// Kind of display session.
#[derive(Debug, Clone, Copy, PartialEq, Eq, Structural)]
pub enum SessionType {
    Wayland,
    X11,
    Tty,
}

/// Kind of display backend.
#[derive(Debug, Clone, Copy, PartialEq, Eq, Structural)]
pub enum BackendType {
    Wayland,
    WaylandWithXWayland,
    X11Native,
}

/// Errors of a display backend.
#[derive(Debug, Clone)]
pub enum BackendError {
    ConnectionFailed(String),
    X11Error(String),
    WaylandError(String),
    FeatureNotAvailable(String),
}

/// The session kind from which display variables are set: a Wayland display
/// wins, else an X display, else a text console.
pub fn detect_session_type(wayland_display_set: bool, x_display_set: bool) -> (r: SessionType)
    ensures
        r == if wayland_display_set {
            SessionType::Wayland
        } else if x_display_set {
            SessionType::X11
        } else {
            SessionType::Tty
        },
{
    if wayland_display_set {
        SessionType::Wayland
    } else if x_display_set {
        SessionType::X11
    } else {
        SessionType::Tty
    }
}

impl SessionType {
    /// The display name of the session kind.
    pub fn name(self) -> (r: &'static str)
        ensures
            r@ == match self {
                SessionType::Wayland => "Wayland"@,
                SessionType::X11 => "X11"@,
                SessionType::Tty => "TTY"@,
            },
    {
        match self {
            SessionType::Wayland => "Wayland",
            SessionType::X11 => "X11",
            SessionType::Tty => "TTY",
        }
    }
}

/// The X11 backend (a stub: it only identifies itself).
#[derive(Debug)]
pub struct X11Backend {
    pub initialized: bool,
}

impl X11Backend {
    pub fn new() -> (r: Result<X11Backend, BackendError>)
        ensures
            r matches Ok(b) && !b.initialized,
    {
        Ok(X11Backend { initialized: false })
    }
}

} // verus!
