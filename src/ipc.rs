//! Framing of the IPC messages that external tools exchange with the
//! compositor: a 6-byte magic, the payload length and the message type as
//! little-endian 32-bit integers, then the UTF-8 payload.
use vstd::prelude::*;
use vstd::string::StringSliceAdditionalSpecFns;
use vstd::utf8::encode_utf8;

verus! {

/// IPC message types.
#[derive(Debug, Clone, Copy, PartialEq, Eq, Structural)]
pub enum MessageType {
    RunCommand,
    GetWorkspaces,
    Subscribe,
    GetOutputs,
    GetTree,
    GetMarks,
    GetBarConfig,
    GetVersion,
    GetBindingModes,
    GetConfig,
    Tick,
    Sync,
    GetBindingState,
    GetInputs,
    GetSeats,
}

/// The wire code of a message type.
pub open spec fn spec_code(t: MessageType) -> u32 {
    match t {
        MessageType::RunCommand => 0,
        MessageType::GetWorkspaces => 1,
        MessageType::Subscribe => 2,
        MessageType::GetOutputs => 3,
        MessageType::GetTree => 4,
        MessageType::GetMarks => 5,
        MessageType::GetBarConfig => 6,
        MessageType::GetVersion => 7,
        MessageType::GetBindingModes => 8,
        MessageType::GetConfig => 9,
        MessageType::Tick => 10,
        MessageType::Sync => 11,
        MessageType::GetBindingState => 12,
        MessageType::GetInputs => 100,
        MessageType::GetSeats => 101,
    }
}

impl MessageType {
    /// The wire code of this message type.
    pub fn code(self) -> (r: u32)
        ensures
            r == spec_code(self),
    {
        match self {
            MessageType::RunCommand => 0,
            MessageType::GetWorkspaces => 1,
            MessageType::Subscribe => 2,
            MessageType::GetOutputs => 3,
            MessageType::GetTree => 4,
            MessageType::GetMarks => 5,
            MessageType::GetBarConfig => 6,
            MessageType::GetVersion => 7,
            MessageType::GetBindingModes => 8,
            MessageType::GetConfig => 9,
            MessageType::Tick => 10,
            MessageType::Sync => 11,
            MessageType::GetBindingState => 12,
            MessageType::GetInputs => 100,
            MessageType::GetSeats => 101,
        }
    }

    /// The message type with this wire code.
    pub fn from_u32(value: u32) -> (r: Option<Self>)
        ensures
            match r {
                Some(t) => spec_code(t) == value,
                None => forall|t: MessageType| spec_code(t) != value,
            },
    {
        match value {
            0 => Some(MessageType::RunCommand),
            1 => Some(MessageType::GetWorkspaces),
            2 => Some(MessageType::Subscribe),
            3 => Some(MessageType::GetOutputs),
            4 => Some(MessageType::GetTree),
            5 => Some(MessageType::GetMarks),
            6 => Some(MessageType::GetBarConfig),
            7 => Some(MessageType::GetVersion),
            8 => Some(MessageType::GetBindingModes),
            9 => Some(MessageType::GetConfig),
            10 => Some(MessageType::Tick),
            11 => Some(MessageType::Sync),
            12 => Some(MessageType::GetBindingState),
            100 => Some(MessageType::GetInputs),
            101 => Some(MessageType::GetSeats),
            _ => None,
        }
    }
}

/// Events a client can subscribe to.
#[derive(Debug, Clone, Copy, PartialEq, Eq, Hash, Structural)]
pub enum EventType {
    Workspace,
    Output,
    Mode,
    Window,
    BarConfigUpdate,
    Binding,
    Shutdown,
    Tick,
    BarStateUpdate,
    Input,
}

/// The magic that starts every message: "i3-ipc".
pub open spec fn magic() -> Seq<u8> {
    seq![0x69u8, 0x33u8, 0x2du8, 0x69u8, 0x70u8, 0x63u8]
}

/// Little-endian bytes of a 32-bit value.
pub open spec fn le_bytes(v: u32) -> Seq<u8> {
    seq![(v % 256) as u8, ((v / 256) % 256) as u8, ((v / 65536) % 256) as u8, (v / 16777216) as u8]
}

/// Little-endian value of four bytes.
pub open spec fn le_value(b: Seq<u8>) -> u32 {
    (b[0] + 256 * b[1] + 65536 * b[2] + 16777216 * b[3]) as u32
}

/// A whole frame: magic, payload length, type code, payload.
pub open spec fn frame(t: MessageType, payload: Seq<u8>) -> Seq<u8> {
    magic() + le_bytes(payload.len() as u32) + le_bytes(spec_code(t)) + payload
}

/// An IPC message.
#[derive(Debug, Clone)]
pub struct IpcMessage {
    pub message_type: MessageType,
    pub payload: String,
}

fn push_le(out: &mut Vec<u8>, v: u32)
    ensures
        final(out)@ == old(out)@ + le_bytes(v),
{
    out.push((v % 256) as u8);
    out.push(((v / 256) % 256) as u8);
    out.push(((v / 65536) % 256) as u8);
    out.push((v / 16777216) as u8);
    assert(final(out)@ =~= old(out)@ + le_bytes(v));
}

impl IpcMessage {
    pub fn new(message_type: MessageType, payload: &str) -> (r: Self)
        ensures
            r.message_type == message_type,
            r.payload@ == payload@,
    {
        IpcMessage { message_type, payload: payload.to_owned() }
    }

    /// The message as a frame: magic, payload length, type code, then the
    /// payload's UTF-8 bytes.
    pub fn to_bytes(&self) -> (r: Vec<u8>)
        ensures
            encode_utf8(self.payload@).len() <= u32::MAX ==> r@ == frame(self.message_type, encode_utf8(self.payload@)),
            r@.len() >= 14,
            r@.len() - 14 <= u32::MAX ==> r@ == frame(self.message_type, r@.subrange(14, r@.len() as int)),
    {
        let text = self.payload.as_str();
        let payload = text.as_bytes();
        assert(payload@ == encode_utf8(self.payload@));
        if payload.len() <= 4294967295 {
            let r = frame_bytes(self.message_type, payload);
            assert(r@.subrange(14, r@.len() as int) =~= payload@);
            r
        } else {
            let r = frame_bytes(self.message_type, &[]);
            r
        }
    }
}

/// The frame of a message type and payload bytes.
pub fn frame_bytes(message_type: MessageType, payload: &[u8]) -> (r: Vec<u8>)
    requires
        payload@.len() <= u32::MAX,
    ensures
        r@ == frame(message_type, payload@),
{
    let mut out: Vec<u8> = Vec::new();
    out.push(0x69);
    out.push(0x33);
    out.push(0x2d);
    out.push(0x69);
    out.push(0x70);
    out.push(0x63);
    assert(out@ =~= magic());
    push_le(&mut out, payload.len() as u32);
    push_le(&mut out, message_type.code());
    let ghost head = out@;
    let mut i: usize = 0;
    while i < payload.len()
        invariant
            i <= payload@.len(),
            out@ == head + payload@.subrange(0, i as int),
        decreases payload@.len() - i,
    {
        out.push(payload[i]);
        assert(payload@.subrange(0, i + 1) =~= payload@.subrange(0, i as int).push(payload@[i as int]));
        i = i + 1;
    }
    assert(payload@.subrange(0, i as int) =~= payload@);
    out
}

/// Why a frame header was refused.
#[derive(Debug, Clone, Copy, PartialEq, Eq, Structural)]
pub enum FrameError {
    /// Fewer than the 14 header bytes.
    Truncated,
    /// The first six bytes are not the magic.
    BadMagic,
    /// The type code names no message type.
    UnknownType(u32),
}

/// Read a frame header: the payload length and the message type.
pub fn parse_header(bytes: &[u8]) -> (r: Result<(u32, MessageType), FrameError>)
    ensures
        bytes@.len() < 14 ==> r == Err::<(u32, MessageType), FrameError>(FrameError::Truncated),
        bytes@.len() >= 14 && bytes@.subrange(0, 6) != magic() ==> r == Err::<(u32, MessageType), FrameError>(
            FrameError::BadMagic,
        ),
        bytes@.len() >= 14 && bytes@.subrange(0, 6) == magic() ==> {
            let len = le_value(bytes@.subrange(6, 10));
            let code = le_value(bytes@.subrange(10, 14));
            match r {
                Ok((l, t)) => l == len && spec_code(t) == code,
                Err(e) => e == FrameError::UnknownType(code) && forall|t: MessageType| spec_code(t) != code,
            }
        },
{
    if bytes.len() < 14 {
        return Err(FrameError::Truncated);
    }
    if !(bytes[0] == 0x69 && bytes[1] == 0x33 && bytes[2] == 0x2d && bytes[3] == 0x69 && bytes[4] == 0x70
        && bytes[5] == 0x63) {
        proof {
            if bytes@.subrange(0, 6) == magic() {
                assert(bytes@.subrange(0, 6)[0] == bytes@[0]);
                assert(bytes@.subrange(0, 6)[1] == bytes@[1]);
                assert(bytes@.subrange(0, 6)[2] == bytes@[2]);
                assert(bytes@.subrange(0, 6)[3] == bytes@[3]);
                assert(bytes@.subrange(0, 6)[4] == bytes@[4]);
                assert(bytes@.subrange(0, 6)[5] == bytes@[5]);
            }
        }
        return Err(FrameError::BadMagic);
    }
    assert(bytes@.subrange(0, 6) =~= magic());
    let len = (bytes[6] as u64 + 256 * bytes[7] as u64 + 65536 * bytes[8] as u64 + 16777216 * bytes[9] as u64) as u32;
    let code = (bytes[10] as u64 + 256 * bytes[11] as u64 + 65536 * bytes[12] as u64 + 16777216 * bytes[13] as u64) as u32;
    assert(len == le_value(bytes@.subrange(6, 10)));
    assert(code == le_value(bytes@.subrange(10, 14)));
    match MessageType::from_u32(code) {
        Some(t) => Ok((len, t)),
        None => Err(FrameError::UnknownType(code)),
    }
}

/// The result of a command, as reported to a client.
#[derive(Debug, Clone)]
pub struct CommandResult {
    pub success: bool,
    pub parse_error: Option<bool>,
    pub error: Option<String>,
}

impl CommandResult {
    pub fn success() -> (r: Self)
        ensures
            r.success && r.parse_error is None && r.error is None,
    {
        CommandResult { success: true, parse_error: None, error: None }
    }

    pub fn error(msg: &str) -> (r: Self)
        ensures
            !r.success && r.parse_error is None,
            r.error matches Some(e) && e@ == msg@,
    {
        CommandResult { success: false, parse_error: None, error: Some(msg.to_owned()) }
    }

    pub fn parse_error(msg: &str) -> (r: Self)
        ensures
            !r.success && r.parse_error == Some(true),
            r.error matches Some(e) && e@ == msg@,
    {
        CommandResult { success: false, parse_error: Some(true), error: Some(msg.to_owned()) }
    }
}

} // verus!
