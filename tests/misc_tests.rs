use fluxway_core::atoms;
use fluxway_core::config::{default_bindings, Config};
use fluxway_core::frame::FrameScheduler;
use fluxway_core::ipc::{parse_header, CommandResult, FrameError, IpcMessage, MessageType};
use fluxway_core::session::{detect_session_type, SessionType};
use fluxway_core::state::{Geometry, ResizeEdges};
use fluxway_core::ResizeEdge;

#[test]
fn test_resize_edge_from_point() {
    let geo = Geometry::new(0, 0, 300, 300);
    // The centre third grabs no edge.
    assert_eq!(ResizeEdge::from_point(150, 150, &geo), None);
    assert_eq!(ResizeEdge::from_point(50, 50, &geo), Some(ResizeEdge::TopLeft));
    assert_eq!(ResizeEdge::from_point(250, 250, &geo), Some(ResizeEdge::BottomRight));
}

#[test]
fn test_resize_edge_to_edges() {
    assert_eq!(ResizeEdge::Top.to_edges(), ResizeEdges::from_bits(ResizeEdges::TOP));
    assert_eq!(ResizeEdge::TopLeft.to_edges(), ResizeEdges::from_bits(ResizeEdges::TOP | ResizeEdges::LEFT));
    assert_eq!(ResizeEdge::BottomRight.to_edges(), ResizeEdges::from_bits(ResizeEdges::BOTTOM | ResizeEdges::RIGHT));
}

#[test]
fn resize_edge_sides() {
    let geo = Geometry::new(100, 100, 300, 300);
    assert_eq!(ResizeEdge::from_point(110, 250, &geo), Some(ResizeEdge::Left));
    assert_eq!(ResizeEdge::from_point(390, 250, &geo), Some(ResizeEdge::Right));
    assert_eq!(ResizeEdge::from_point(250, 110, &geo), Some(ResizeEdge::Top));
    assert_eq!(ResizeEdge::from_point(250, 390, &geo), Some(ResizeEdge::Bottom));
    assert_eq!(ResizeEdge::from_point(390, 110, &geo), Some(ResizeEdge::TopRight));
}

#[test]
fn test_default_config() {
    let config = Config::default();
    assert!(config.gaps.inner == 4);
    assert!(!config.bindings.is_empty());
    assert_eq!(default_bindings().len(), 45);
    assert_eq!(config.bindings[0].keys, "Mod4+Return");
}

#[test]
fn test_ipc_message_serialization() {
    let message = IpcMessage::new(MessageType::RunCommand, "kill");
    let bytes = message.to_bytes();
    assert_eq!(&bytes[0..6], b"i3-ipc");
    assert_eq!(u32::from_le_bytes(bytes[6..10].try_into().unwrap()), 4);
    assert_eq!(u32::from_le_bytes(bytes[10..14].try_into().unwrap()), 0);
    assert_eq!(&bytes[14..], b"kill");
}

#[test]
fn test_command_result() {
    let success = CommandResult::success();
    assert!(success.success);
    let error = CommandResult::error("test error");
    assert!(!error.success);
    assert_eq!(error.error.as_deref(), Some("test error"));
    let pe = CommandResult::parse_error("bad");
    assert_eq!(pe.parse_error, Some(true));
}

#[test]
fn header_round_trip_and_errors() {
    let bytes = IpcMessage::new(MessageType::GetSeats, "{}").to_bytes();
    assert_eq!(parse_header(&bytes), Ok((2, MessageType::GetSeats)));
    assert_eq!(parse_header(&bytes[..10]), Err(FrameError::Truncated));
    let mut bad = bytes.clone();
    bad[0] = b'x';
    assert_eq!(parse_header(&bad), Err(FrameError::BadMagic));
    let mut unknown = bytes.clone();
    unknown[10] = 50;
    assert_eq!(parse_header(&unknown), Err(FrameError::UnknownType(50)));
    assert_eq!(MessageType::from_u32(101), Some(MessageType::GetSeats));
    assert_eq!(MessageType::from_u32(13), None);
}

#[test]
fn test_frame_scheduler() {
    let scheduler = FrameScheduler::new(60, false, 0);
    assert!(scheduler.time_to_next_frame() > 0);
}

#[test]
fn frame_scheduler_accumulates() {
    let mut s = FrameScheduler::new(50, true, 1_000);
    assert_eq!(s.target_duration, 20_000_000);
    assert!(!s.should_render(11_001_000));
    assert_eq!(s.time_to_next_frame(), 9_000_000);
    s.frame_complete(11_001_000);
    assert!(s.should_render(21_001_000));
    assert_eq!(s.time_to_next_frame(), 20_000_000);
}

#[test]
fn test_session_detection() {
    let session = detect_session_type(false, false);
    println!("Detected session type: {}", session.name());
    assert_eq!(detect_session_type(true, true), SessionType::Wayland);
    assert_eq!(detect_session_type(false, true), SessionType::X11);
    assert_eq!(session, SessionType::Tty);
}

#[test]
fn test_atom_names() {
    assert_eq!(atoms::WM_PROTOCOLS, "WM_PROTOCOLS");
    assert_eq!(atoms::NET_WM_STATE_FULLSCREEN, "_NET_WM_STATE_FULLSCREEN");
}
