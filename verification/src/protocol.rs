//! The relay's wire protocol: message types, control messages, binary payloads and frames.

pub mod frame;
pub mod handshake;
pub mod message;
pub mod payload;

pub use frame::{decode_frame, encode_frame, encode_raw, frame_header_size, Frame, FrameView};
pub use message::Message;
pub use payload::{
    BinaryMessageCodec, CompressedIncrementalX11DataMessage, CompressedX11DataMessage, IncrementalChunk,
    IncrementalX11DataMessage, X11DataMessage,
};

use vstd::prelude::*;

use crate::compress::CompressionAlgo;
use crate::error::Rx11Error;
use crate::text::{spec_decimal, spec_hex_byte};
use crate::types::{
    auth_fields_valid, protocol_error, utf8_len, validate_auth_fields, ConnectionId, DisplayNumber,
    SessionId, Token, MAX_AUTH_DATA_LEN, MAX_AUTH_NAME_LEN,
};

verus! {

pub const PROTOCOL_VERSION: u32 = 3;
pub const MAGIC_BYTES: [u8; 4] = [0x52u8, 0x58u8, 0x31u8, 0x31u8];
pub const DEFAULT_RELAY_PORT: u16 = 7000;
pub const DEFAULT_X11_PORT: u16 = 6000;
pub const MAX_FRAME_SIZE: usize = 16777216;
pub const FRAME_HEADER_SIZE: usize = 9;

/// The kind of a frame, as carried in its header byte.
#[derive(Debug, Clone, Copy, PartialEq, Eq, Structural)]
pub enum MessageType {
    Hello,
    HelloAck,
    AuthRequest,
    AuthResponse,
    SessionCreate,
    SessionAck,
    SessionDestroy,
    SessionResume,
    SessionAutoCreate,
    DataX11,
    CompressedDataX11,
    IncrementalDataX11,
    CompressedIncrementalDataX11,
    X11Connect,
    X11Disconnect,
    Heartbeat,
    HeartbeatAck,
    FlowControl,
    Error,
}

/// The header byte of each message type.
pub open spec fn message_type_code(t: MessageType) -> u8 {
    match t {
        MessageType::Hello => 0x01,
        MessageType::HelloAck => 0x02,
        MessageType::AuthRequest => 0x03,
        MessageType::AuthResponse => 0x04,
        MessageType::SessionCreate => 0x10,
        MessageType::SessionAck => 0x11,
        MessageType::SessionDestroy => 0x12,
        MessageType::SessionResume => 0x13,
        MessageType::SessionAutoCreate => 0x14,
        MessageType::DataX11 => 0x20,
        MessageType::CompressedDataX11 => 0x21,
        MessageType::IncrementalDataX11 => 0x24,
        MessageType::CompressedIncrementalDataX11 => 0x25,
        MessageType::X11Connect => 0x22,
        MessageType::X11Disconnect => 0x23,
        MessageType::Heartbeat => 0x30,
        MessageType::HeartbeatAck => 0x31,
        MessageType::FlowControl => 0x40,
        MessageType::Error => 0xFF,
    }
}

/// The message type that a header byte names, if any.
pub open spec fn message_type_of_code(b: u8) -> Option<MessageType> {
    if b == 0x01 {
        Some(MessageType::Hello)
    } else if b == 0x02 {
        Some(MessageType::HelloAck)
    } else if b == 0x03 {
        Some(MessageType::AuthRequest)
    } else if b == 0x04 {
        Some(MessageType::AuthResponse)
    } else if b == 0x10 {
        Some(MessageType::SessionCreate)
    } else if b == 0x11 {
        Some(MessageType::SessionAck)
    } else if b == 0x12 {
        Some(MessageType::SessionDestroy)
    } else if b == 0x13 {
        Some(MessageType::SessionResume)
    } else if b == 0x14 {
        Some(MessageType::SessionAutoCreate)
    } else if b == 0x20 {
        Some(MessageType::DataX11)
    } else if b == 0x21 {
        Some(MessageType::CompressedDataX11)
    } else if b == 0x24 {
        Some(MessageType::IncrementalDataX11)
    } else if b == 0x25 {
        Some(MessageType::CompressedIncrementalDataX11)
    } else if b == 0x22 {
        Some(MessageType::X11Connect)
    } else if b == 0x23 {
        Some(MessageType::X11Disconnect)
    } else if b == 0x30 {
        Some(MessageType::Heartbeat)
    } else if b == 0x31 {
        Some(MessageType::HeartbeatAck)
    } else if b == 0x40 {
        Some(MessageType::FlowControl)
    } else if b == 0xFF {
        Some(MessageType::Error)
    } else {
        None
    }
}

/// The name of each message type.
pub open spec fn message_type_name(t: MessageType) -> Seq<char> {
    match t {
        MessageType::Hello => "Hello"@,
        MessageType::HelloAck => "HelloAck"@,
        MessageType::AuthRequest => "AuthRequest"@,
        MessageType::AuthResponse => "AuthResponse"@,
        MessageType::SessionCreate => "SessionCreate"@,
        MessageType::SessionAck => "SessionAck"@,
        MessageType::SessionDestroy => "SessionDestroy"@,
        MessageType::SessionResume => "SessionResume"@,
        MessageType::SessionAutoCreate => "SessionAutoCreate"@,
        MessageType::DataX11 => "DataX11"@,
        MessageType::CompressedDataX11 => "CompressedDataX11"@,
        MessageType::IncrementalDataX11 => "IncrementalDataX11"@,
        MessageType::CompressedIncrementalDataX11 => "CompressedIncrementalDataX11"@,
        MessageType::X11Connect => "X11Connect"@,
        MessageType::X11Disconnect => "X11Disconnect"@,
        MessageType::Heartbeat => "Heartbeat"@,
        MessageType::HeartbeatAck => "HeartbeatAck"@,
        MessageType::FlowControl => "FlowControl"@,
        MessageType::Error => "Error"@,
    }
}

/// Message types whose payload is a JSON-encoded control message.
pub open spec fn is_control_type(t: MessageType) -> bool {
    match t {
        MessageType::DataX11
        | MessageType::CompressedDataX11
        | MessageType::IncrementalDataX11
        | MessageType::CompressedIncrementalDataX11
        | MessageType::Heartbeat
        | MessageType::HeartbeatAck => false,
        _ => true,
    }
}

/// Every message type has the header byte of the protocol's table, and that byte names
/// it: the table is fixed, not merely some code that decoding inverts.
pub proof fn lemma_message_type_table()
    ensures
        message_type_code(MessageType::Hello) == 0x01 && message_type_of_code(0x01) == Some(MessageType::Hello),
        message_type_code(MessageType::HelloAck) == 0x02 && message_type_of_code(0x02) == Some(MessageType::HelloAck),
        message_type_code(MessageType::AuthRequest) == 0x03 && message_type_of_code(0x03) == Some(
            MessageType::AuthRequest,
        ),
        message_type_code(MessageType::AuthResponse) == 0x04 && message_type_of_code(0x04) == Some(
            MessageType::AuthResponse,
        ),
        message_type_code(MessageType::SessionCreate) == 0x10 && message_type_of_code(0x10) == Some(
            MessageType::SessionCreate,
        ),
        message_type_code(MessageType::SessionAck) == 0x11 && message_type_of_code(0x11) == Some(
            MessageType::SessionAck,
        ),
        message_type_code(MessageType::SessionDestroy) == 0x12 && message_type_of_code(0x12) == Some(
            MessageType::SessionDestroy,
        ),
        message_type_code(MessageType::SessionResume) == 0x13 && message_type_of_code(0x13) == Some(
            MessageType::SessionResume,
        ),
        message_type_code(MessageType::SessionAutoCreate) == 0x14 && message_type_of_code(0x14) == Some(
            MessageType::SessionAutoCreate,
        ),
        message_type_code(MessageType::DataX11) == 0x20 && message_type_of_code(0x20) == Some(MessageType::DataX11),
        message_type_code(MessageType::CompressedDataX11) == 0x21 && message_type_of_code(0x21) == Some(
            MessageType::CompressedDataX11,
        ),
        message_type_code(MessageType::X11Connect) == 0x22 && message_type_of_code(0x22) == Some(
            MessageType::X11Connect,
        ),
        message_type_code(MessageType::X11Disconnect) == 0x23 && message_type_of_code(0x23) == Some(
            MessageType::X11Disconnect,
        ),
        message_type_code(MessageType::IncrementalDataX11) == 0x24 && message_type_of_code(0x24) == Some(
            MessageType::IncrementalDataX11,
        ),
        message_type_code(MessageType::CompressedIncrementalDataX11) == 0x25 && message_type_of_code(0x25) == Some(
            MessageType::CompressedIncrementalDataX11,
        ),
        message_type_code(MessageType::Heartbeat) == 0x30 && message_type_of_code(0x30) == Some(
            MessageType::Heartbeat,
        ),
        message_type_code(MessageType::HeartbeatAck) == 0x31 && message_type_of_code(0x31) == Some(
            MessageType::HeartbeatAck,
        ),
        message_type_code(MessageType::FlowControl) == 0x40 && message_type_of_code(0x40) == Some(
            MessageType::FlowControl,
        ),
        message_type_code(MessageType::Error) == 0xFF && message_type_of_code(0xFF) == Some(MessageType::Error),
        forall|b: u8| #![trigger message_type_of_code(b)]
            !(0x01 <= b <= 0x04 || 0x10 <= b <= 0x14 || 0x20 <= b <= 0x25 || b == 0x30 || b == 0x31 || b == 0x40
                || b == 0xFF) ==> message_type_of_code(b) is None,
{
}

/// The error text for a header byte that names no message type.
pub open spec fn unknown_type_message(b: u8) -> Seq<char> {
    "Unknown message type: 0x"@ + spec_hex_byte(b)
}

impl MessageType {
    /// The message type named by a header byte; an unknown byte is a protocol error.
    pub fn try_from(value: u8) -> (r: Result<MessageType, Rx11Error>)
        ensures
            match message_type_of_code(value) {
                Some(t) => r == Ok::<MessageType, Rx11Error>(t),
                None => r matches Err(Rx11Error::Protocol(m)) && m@ == unknown_type_message(value),
            },
    {
        match value {
            0x01 => Ok(MessageType::Hello),
            0x02 => Ok(MessageType::HelloAck),
            0x03 => Ok(MessageType::AuthRequest),
            0x04 => Ok(MessageType::AuthResponse),
            0x10 => Ok(MessageType::SessionCreate),
            0x11 => Ok(MessageType::SessionAck),
            0x12 => Ok(MessageType::SessionDestroy),
            0x13 => Ok(MessageType::SessionResume),
            0x14 => Ok(MessageType::SessionAutoCreate),
            0x20 => Ok(MessageType::DataX11),
            0x21 => Ok(MessageType::CompressedDataX11),
            0x24 => Ok(MessageType::IncrementalDataX11),
            0x25 => Ok(MessageType::CompressedIncrementalDataX11),
            0x22 => Ok(MessageType::X11Connect),
            0x23 => Ok(MessageType::X11Disconnect),
            0x30 => Ok(MessageType::Heartbeat),
            0x31 => Ok(MessageType::HeartbeatAck),
            0x40 => Ok(MessageType::FlowControl),
            0xFF => Ok(MessageType::Error),
            _ => Err(crate::types::error_with_hex("Unknown message type: 0x", value)),
        }
    }

    /// The header byte of this message type.
    pub fn as_u8(self) -> (b: u8)
        ensures
            b == message_type_code(self),
    {
        match self {
            MessageType::Hello => 0x01,
            MessageType::HelloAck => 0x02,
            MessageType::AuthRequest => 0x03,
            MessageType::AuthResponse => 0x04,
            MessageType::SessionCreate => 0x10,
            MessageType::SessionAck => 0x11,
            MessageType::SessionDestroy => 0x12,
            MessageType::SessionResume => 0x13,
            MessageType::SessionAutoCreate => 0x14,
            MessageType::DataX11 => 0x20,
            MessageType::CompressedDataX11 => 0x21,
            MessageType::IncrementalDataX11 => 0x24,
            MessageType::CompressedIncrementalDataX11 => 0x25,
            MessageType::X11Connect => 0x22,
            MessageType::X11Disconnect => 0x23,
            MessageType::Heartbeat => 0x30,
            MessageType::HeartbeatAck => 0x31,
            MessageType::FlowControl => 0x40,
            MessageType::Error => 0xFF,
        }
    }

    /// The name of this message type.
    pub fn name(self) -> (s: &'static str)
        ensures
            s@ == message_type_name(self),
    {
        match self {
            MessageType::Hello => "Hello",
            MessageType::HelloAck => "HelloAck",
            MessageType::AuthRequest => "AuthRequest",
            MessageType::AuthResponse => "AuthResponse",
            MessageType::SessionCreate => "SessionCreate",
            MessageType::SessionAck => "SessionAck",
            MessageType::SessionDestroy => "SessionDestroy",
            MessageType::SessionResume => "SessionResume",
            MessageType::SessionAutoCreate => "SessionAutoCreate",
            MessageType::DataX11 => "DataX11",
            MessageType::CompressedDataX11 => "CompressedDataX11",
            MessageType::IncrementalDataX11 => "IncrementalDataX11",
            MessageType::CompressedIncrementalDataX11 => "CompressedIncrementalDataX11",
            MessageType::X11Connect => "X11Connect",
            MessageType::X11Disconnect => "X11Disconnect",
            MessageType::Heartbeat => "Heartbeat",
            MessageType::HeartbeatAck => "HeartbeatAck",
            MessageType::FlowControl => "FlowControl",
            MessageType::Error => "Error",
        }
    }

    /// The name of this message type, as an owned string.
    pub fn to_string(&self) -> (s: String)
        ensures
            s@ == message_type_name(*self),
    {
        self.name().to_owned()
    }

    pub fn is_control(self) -> (r: bool)
        ensures
            r == is_control_type(self),
    {
        match self {
            MessageType::DataX11
            | MessageType::CompressedDataX11
            | MessageType::IncrementalDataX11
            | MessageType::CompressedIncrementalDataX11
            | MessageType::Heartbeat
            | MessageType::HeartbeatAck => false,
            _ => true,
        }
    }
}

/// Every message type's header byte names that message type again.
pub proof fn lemma_message_type_code_roundtrip(t: MessageType)
    ensures
        message_type_of_code(message_type_code(t)) == Some(t),
{
}

/// A header byte that names a message type is that message type's byte.
pub proof fn lemma_message_type_code_unique(b: u8)
    ensures
        message_type_of_code(b) matches Some(t) ==> message_type_code(t) == b,
{
}

/// Which side of the relay a peer says it is.
#[derive(Debug, Clone, Copy, PartialEq, Eq, Structural)]
pub enum ConnectionMode {
    Server,
    Client,
}

#[derive(Debug, Clone)]
pub struct HelloMessage {
    pub version: u32,
    pub mode: ConnectionMode,
    pub resume_session_id: Option<SessionId>,
    pub compression_algos: Vec<CompressionAlgo>,
}

/// The algorithms a peer offers when its hello does not list any.
pub fn default_compression_algos() -> (v: Vec<CompressionAlgo>)
    ensures
        v@ == seq![CompressionAlgo::Zstd, CompressionAlgo::Lz4, CompressionAlgo::Zlib],
{
    CompressionAlgo::all()
}

#[derive(Debug, Clone)]
pub struct HelloAckMessage {
    pub version: u32,
    pub session_id: SessionId,
    pub success: bool,
    pub error_msg: Option<String>,
    pub compression: Option<CompressionAlgo>,
}

#[derive(Debug, Clone)]
pub struct AuthRequestMessage {
    pub token: Token,
}

#[derive(Debug, Clone)]
pub struct AuthResponseMessage {
    pub success: bool,
    pub error_msg: Option<String>,
}

#[derive(Debug, Clone)]
pub struct SessionCreateMessage {
    pub display: DisplayNumber,
    pub auth_name: String,
    pub auth_data: Vec<u8>,
}

#[derive(Debug, Clone)]
pub struct SessionAckMessage {
    pub display: DisplayNumber,
    pub success: bool,
    pub error_msg: Option<String>,
    pub session_id: Option<SessionId>,
}

#[derive(Debug, Clone, Copy)]
pub struct SessionDestroyMessage {
    pub display: DisplayNumber,
}

#[derive(Debug, Clone)]
pub struct SessionResumeMessage {
    pub session_id: SessionId,
}

#[derive(Debug, Clone)]
pub struct SessionAutoCreateMessage {
    pub auth_name: String,
    pub auth_data: Vec<u8>,
}

#[derive(Debug, Clone)]
pub struct ErrorMessage {
    pub code: u32,
    pub message: String,
}

#[derive(Debug, Clone, Copy)]
pub struct X11ConnectMessage {
    pub display: DisplayNumber,
    pub connection_id: ConnectionId,
}

#[derive(Debug, Clone, Copy)]
pub struct X11DisconnectMessage {
    pub display: DisplayNumber,
    pub connection_id: ConnectionId,
}

#[derive(Debug, Clone, Copy, PartialEq, Eq, Structural)]
pub enum FlowControlAction {
    Pause,
    Resume,
}

#[derive(Debug, Clone, Copy)]
pub struct FlowControlMessage {
    pub action: FlowControlAction,
    pub connection_id: Option<ConnectionId>,
}

/// A session-create request is accepted only with authorization fields of bounded size.
pub fn validate_session_create(msg: &SessionCreateMessage) -> (r: Result<(), Rx11Error>)
    ensures
        r is Ok <==> auth_fields_valid(msg.auth_name@, msg.auth_data@),
        utf8_len(msg.auth_name@) > MAX_AUTH_NAME_LEN ==> (r matches Err(e) && e matches Rx11Error::Protocol(m)
            && m@ == "auth_name too long: "@ + spec_decimal(utf8_len(msg.auth_name@)) + " bytes (max 256)"@),
        utf8_len(msg.auth_name@) <= MAX_AUTH_NAME_LEN && msg.auth_data@.len() > MAX_AUTH_DATA_LEN ==> (r matches Err(
            e,
        ) && e matches Rx11Error::Protocol(m) && m@ == "auth_data too long: "@ + spec_decimal(
            msg.auth_data@.len(),
        ) + " bytes (max 4096)"@),
{
    validate_auth_fields(msg.auth_name.as_str(), msg.auth_data.as_slice())
}

/// An auto-create request is accepted only with authorization fields of bounded size.
pub fn validate_session_auto_create(msg: &SessionAutoCreateMessage) -> (r: Result<(), Rx11Error>)
    ensures
        r is Ok <==> auth_fields_valid(msg.auth_name@, msg.auth_data@),
        utf8_len(msg.auth_name@) > MAX_AUTH_NAME_LEN ==> (r matches Err(e) && e matches Rx11Error::Protocol(m)
            && m@ == "auth_name too long: "@ + spec_decimal(utf8_len(msg.auth_name@)) + " bytes (max 256)"@),
        utf8_len(msg.auth_name@) <= MAX_AUTH_NAME_LEN && msg.auth_data@.len() > MAX_AUTH_DATA_LEN ==> (r matches Err(
            e,
        ) && e matches Rx11Error::Protocol(m) && m@ == "auth_data too long: "@ + spec_decimal(
            msg.auth_data@.len(),
        ) + " bytes (max 4096)"@),
{
    validate_auth_fields(msg.auth_name.as_str(), msg.auth_data.as_slice())
}

/// What a completed handshake established.
#[derive(Debug, Clone)]
pub struct HandshakeResult {
    pub session_id: SessionId,
    pub compression: Option<CompressionAlgo>,
    pub resume_session_id: Option<SessionId>,
}

} // verus!
