//! Messages: frames with their control payloads decoded.
//!
//! A control frame carries its message as JSON; a `Message` holds that message decoded.
//! Binary and empty frames carry the same data either way.

use vstd::prelude::*;
use vstd::std_specs::convert::FromSpecImpl;

use crate::protocol::frame::Frame;
use crate::protocol::payload::{
    CompressedIncrementalX11DataMessage, CompressedX11DataMessage, IncrementalX11DataMessage,
    X11DataMessage,
};
use crate::protocol::{
    AuthRequestMessage, AuthResponseMessage, ErrorMessage, FlowControlMessage, HelloAckMessage,
    HelloMessage, MessageType, SessionAckMessage, SessionAutoCreateMessage, SessionCreateMessage,
    SessionDestroyMessage, SessionResumeMessage, X11ConnectMessage, X11DisconnectMessage,
};

verus! {

/// One message of the relay protocol.
#[derive(Debug, Clone)]
pub enum Message {
    Hello(HelloMessage),
    HelloAck(HelloAckMessage),
    AuthRequest(AuthRequestMessage),
    AuthResponse(AuthResponseMessage),
    SessionCreate(SessionCreateMessage),
    SessionAck(SessionAckMessage),
    SessionDestroy(SessionDestroyMessage),
    SessionResume(SessionResumeMessage),
    SessionAutoCreate(SessionAutoCreateMessage),
    X11Connect(X11ConnectMessage),
    X11Disconnect(X11DisconnectMessage),
    FlowControl(FlowControlMessage),
    Error(ErrorMessage),
    DataX11(X11DataMessage),
    CompressedDataX11(CompressedX11DataMessage),
    IncrementalDataX11(IncrementalX11DataMessage),
    CompressedIncrementalDataX11(CompressedIncrementalX11DataMessage),
    Heartbeat,
    HeartbeatAck,
}

/// The message type of a message.
pub open spec fn message_type_of(m: Message) -> MessageType {
    match m {
        Message::Hello(_) => MessageType::Hello,
        Message::HelloAck(_) => MessageType::HelloAck,
        Message::AuthRequest(_) => MessageType::AuthRequest,
        Message::AuthResponse(_) => MessageType::AuthResponse,
        Message::SessionCreate(_) => MessageType::SessionCreate,
        Message::SessionAck(_) => MessageType::SessionAck,
        Message::SessionDestroy(_) => MessageType::SessionDestroy,
        Message::SessionResume(_) => MessageType::SessionResume,
        Message::SessionAutoCreate(_) => MessageType::SessionAutoCreate,
        Message::X11Connect(_) => MessageType::X11Connect,
        Message::X11Disconnect(_) => MessageType::X11Disconnect,
        Message::FlowControl(_) => MessageType::FlowControl,
        Message::Error(_) => MessageType::Error,
        Message::DataX11(_) => MessageType::DataX11,
        Message::CompressedDataX11(_) => MessageType::CompressedDataX11,
        Message::IncrementalDataX11(_) => MessageType::IncrementalDataX11,
        Message::CompressedIncrementalDataX11(_) => MessageType::CompressedIncrementalDataX11,
        Message::Heartbeat => MessageType::Heartbeat,
        Message::HeartbeatAck => MessageType::HeartbeatAck,
    }
}

impl Message {
    pub fn msg_type(&self) -> (t: MessageType)
        ensures
            t == message_type_of(*self),
    {
        match self {
            Message::Hello(_) => MessageType::Hello,
            Message::HelloAck(_) => MessageType::HelloAck,
            Message::AuthRequest(_) => MessageType::AuthRequest,
            Message::AuthResponse(_) => MessageType::AuthResponse,
            Message::SessionCreate(_) => MessageType::SessionCreate,
            Message::SessionAck(_) => MessageType::SessionAck,
            Message::SessionDestroy(_) => MessageType::SessionDestroy,
            Message::SessionResume(_) => MessageType::SessionResume,
            Message::SessionAutoCreate(_) => MessageType::SessionAutoCreate,
            Message::X11Connect(_) => MessageType::X11Connect,
            Message::X11Disconnect(_) => MessageType::X11Disconnect,
            Message::FlowControl(_) => MessageType::FlowControl,
            Message::Error(_) => MessageType::Error,
            Message::DataX11(_) => MessageType::DataX11,
            Message::CompressedDataX11(_) => MessageType::CompressedDataX11,
            Message::IncrementalDataX11(_) => MessageType::IncrementalDataX11,
            Message::CompressedIncrementalDataX11(_) => MessageType::CompressedIncrementalDataX11,
            Message::Heartbeat => MessageType::Heartbeat,
            Message::HeartbeatAck => MessageType::HeartbeatAck,
        }
    }

    /// The message of a binary or empty frame; a control frame is handed back with its
    /// type and JSON payload, for its message to be decoded.
    pub fn from_frame(frame: Frame) -> (r: Result<Message, (MessageType, Vec<u8>)>)
        ensures
            match frame {
                Frame::Control(t, p) => r matches Err((u, q)) && u == t && q@ == p@,
                Frame::DataX11(m) => r == Ok::<Message, (MessageType, Vec<u8>)>(Message::DataX11(m)),
                Frame::CompressedDataX11(m) => r == Ok::<Message, (MessageType, Vec<u8>)>(
                    Message::CompressedDataX11(m),
                ),
                Frame::IncrementalDataX11(m) => r == Ok::<Message, (MessageType, Vec<u8>)>(
                    Message::IncrementalDataX11(m),
                ),
                Frame::CompressedIncrementalDataX11(m) => r == Ok::<Message, (MessageType, Vec<u8>)>(
                    Message::CompressedIncrementalDataX11(m),
                ),
                Frame::Heartbeat => r == Ok::<Message, (MessageType, Vec<u8>)>(Message::Heartbeat),
                Frame::HeartbeatAck => r == Ok::<Message, (MessageType, Vec<u8>)>(Message::HeartbeatAck),
            },
    {
        match frame {
            Frame::Control(t, p) => Err((t, p)),
            Frame::DataX11(m) => Ok(Message::DataX11(m)),
            Frame::CompressedDataX11(m) => Ok(Message::CompressedDataX11(m)),
            Frame::IncrementalDataX11(m) => Ok(Message::IncrementalDataX11(m)),
            Frame::CompressedIncrementalDataX11(m) => Ok(Message::CompressedIncrementalDataX11(m)),
            Frame::Heartbeat => Ok(Message::Heartbeat),
            Frame::HeartbeatAck => Ok(Message::HeartbeatAck),
        }
    }

    /// The frame of a binary or empty message; a control message is handed back, for its
    /// payload to be encoded as JSON.
    pub fn into_frame(self) -> (r: Result<Frame, Message>)
        ensures
            match self {
                Message::DataX11(m) => r == Ok::<Frame, Message>(Frame::DataX11(m)),
                Message::CompressedDataX11(m) => r == Ok::<Frame, Message>(Frame::CompressedDataX11(m)),
                Message::IncrementalDataX11(m) => r == Ok::<Frame, Message>(Frame::IncrementalDataX11(m)),
                Message::CompressedIncrementalDataX11(m) => r == Ok::<Frame, Message>(
                    Frame::CompressedIncrementalDataX11(m),
                ),
                Message::Heartbeat => r == Ok::<Frame, Message>(Frame::Heartbeat),
                Message::HeartbeatAck => r == Ok::<Frame, Message>(Frame::HeartbeatAck),
                _ => r == Err::<Frame, Message>(self),
            },
    {
        match self {
            Message::DataX11(m) => Ok(Frame::DataX11(m)),
            Message::CompressedDataX11(m) => Ok(Frame::CompressedDataX11(m)),
            Message::IncrementalDataX11(m) => Ok(Frame::IncrementalDataX11(m)),
            Message::CompressedIncrementalDataX11(m) => Ok(Frame::CompressedIncrementalDataX11(m)),
            Message::Heartbeat => Ok(Frame::Heartbeat),
            Message::HeartbeatAck => Ok(Frame::HeartbeatAck),
            other => Err(other),
        }
    }
}

} // verus!

verus! {

impl From<HelloMessage> for Message {
    fn from(m: HelloMessage) -> (r: Message) {
        Message::Hello(m)
    }
}

impl FromSpecImpl<HelloMessage> for Message {
    open spec fn obeys_from_spec() -> bool {
        true
    }

    open spec fn from_spec(m: HelloMessage) -> Message {
        Message::Hello(m)
    }
}

impl From<HelloAckMessage> for Message {
    fn from(m: HelloAckMessage) -> (r: Message) {
        Message::HelloAck(m)
    }
}

impl FromSpecImpl<HelloAckMessage> for Message {
    open spec fn obeys_from_spec() -> bool {
        true
    }

    open spec fn from_spec(m: HelloAckMessage) -> Message {
        Message::HelloAck(m)
    }
}

impl From<AuthRequestMessage> for Message {
    fn from(m: AuthRequestMessage) -> (r: Message) {
        Message::AuthRequest(m)
    }
}

impl FromSpecImpl<AuthRequestMessage> for Message {
    open spec fn obeys_from_spec() -> bool {
        true
    }

    open spec fn from_spec(m: AuthRequestMessage) -> Message {
        Message::AuthRequest(m)
    }
}

impl From<AuthResponseMessage> for Message {
    fn from(m: AuthResponseMessage) -> (r: Message) {
        Message::AuthResponse(m)
    }
}

impl FromSpecImpl<AuthResponseMessage> for Message {
    open spec fn obeys_from_spec() -> bool {
        true
    }

    open spec fn from_spec(m: AuthResponseMessage) -> Message {
        Message::AuthResponse(m)
    }
}

impl From<SessionCreateMessage> for Message {
    fn from(m: SessionCreateMessage) -> (r: Message) {
        Message::SessionCreate(m)
    }
}

impl FromSpecImpl<SessionCreateMessage> for Message {
    open spec fn obeys_from_spec() -> bool {
        true
    }

    open spec fn from_spec(m: SessionCreateMessage) -> Message {
        Message::SessionCreate(m)
    }
}

impl From<SessionAckMessage> for Message {
    fn from(m: SessionAckMessage) -> (r: Message) {
        Message::SessionAck(m)
    }
}

impl FromSpecImpl<SessionAckMessage> for Message {
    open spec fn obeys_from_spec() -> bool {
        true
    }

    open spec fn from_spec(m: SessionAckMessage) -> Message {
        Message::SessionAck(m)
    }
}

impl From<SessionDestroyMessage> for Message {
    fn from(m: SessionDestroyMessage) -> (r: Message) {
        Message::SessionDestroy(m)
    }
}

impl FromSpecImpl<SessionDestroyMessage> for Message {
    open spec fn obeys_from_spec() -> bool {
        true
    }

    open spec fn from_spec(m: SessionDestroyMessage) -> Message {
        Message::SessionDestroy(m)
    }
}

impl From<SessionResumeMessage> for Message {
    fn from(m: SessionResumeMessage) -> (r: Message) {
        Message::SessionResume(m)
    }
}

impl FromSpecImpl<SessionResumeMessage> for Message {
    open spec fn obeys_from_spec() -> bool {
        true
    }

    open spec fn from_spec(m: SessionResumeMessage) -> Message {
        Message::SessionResume(m)
    }
}

impl From<SessionAutoCreateMessage> for Message {
    fn from(m: SessionAutoCreateMessage) -> (r: Message) {
        Message::SessionAutoCreate(m)
    }
}

impl FromSpecImpl<SessionAutoCreateMessage> for Message {
    open spec fn obeys_from_spec() -> bool {
        true
    }

    open spec fn from_spec(m: SessionAutoCreateMessage) -> Message {
        Message::SessionAutoCreate(m)
    }
}

impl From<X11ConnectMessage> for Message {
    fn from(m: X11ConnectMessage) -> (r: Message) {
        Message::X11Connect(m)
    }
}

impl FromSpecImpl<X11ConnectMessage> for Message {
    open spec fn obeys_from_spec() -> bool {
        true
    }

    open spec fn from_spec(m: X11ConnectMessage) -> Message {
        Message::X11Connect(m)
    }
}

impl From<X11DisconnectMessage> for Message {
    fn from(m: X11DisconnectMessage) -> (r: Message) {
        Message::X11Disconnect(m)
    }
}

impl FromSpecImpl<X11DisconnectMessage> for Message {
    open spec fn obeys_from_spec() -> bool {
        true
    }

    open spec fn from_spec(m: X11DisconnectMessage) -> Message {
        Message::X11Disconnect(m)
    }
}

impl From<FlowControlMessage> for Message {
    fn from(m: FlowControlMessage) -> (r: Message) {
        Message::FlowControl(m)
    }
}

impl FromSpecImpl<FlowControlMessage> for Message {
    open spec fn obeys_from_spec() -> bool {
        true
    }

    open spec fn from_spec(m: FlowControlMessage) -> Message {
        Message::FlowControl(m)
    }
}

impl From<ErrorMessage> for Message {
    fn from(m: ErrorMessage) -> (r: Message) {
        Message::Error(m)
    }
}

impl FromSpecImpl<ErrorMessage> for Message {
    open spec fn obeys_from_spec() -> bool {
        true
    }

    open spec fn from_spec(m: ErrorMessage) -> Message {
        Message::Error(m)
    }
}

impl From<X11DataMessage> for Message {
    fn from(m: X11DataMessage) -> (r: Message) {
        Message::DataX11(m)
    }
}

impl FromSpecImpl<X11DataMessage> for Message {
    open spec fn obeys_from_spec() -> bool {
        true
    }

    open spec fn from_spec(m: X11DataMessage) -> Message {
        Message::DataX11(m)
    }
}

impl From<CompressedX11DataMessage> for Message {
    fn from(m: CompressedX11DataMessage) -> (r: Message) {
        Message::CompressedDataX11(m)
    }
}

impl FromSpecImpl<CompressedX11DataMessage> for Message {
    open spec fn obeys_from_spec() -> bool {
        true
    }

    open spec fn from_spec(m: CompressedX11DataMessage) -> Message {
        Message::CompressedDataX11(m)
    }
}

impl From<IncrementalX11DataMessage> for Message {
    fn from(m: IncrementalX11DataMessage) -> (r: Message) {
        Message::IncrementalDataX11(m)
    }
}

impl FromSpecImpl<IncrementalX11DataMessage> for Message {
    open spec fn obeys_from_spec() -> bool {
        true
    }

    open spec fn from_spec(m: IncrementalX11DataMessage) -> Message {
        Message::IncrementalDataX11(m)
    }
}

impl From<CompressedIncrementalX11DataMessage> for Message {
    fn from(m: CompressedIncrementalX11DataMessage) -> (r: Message) {
        Message::CompressedIncrementalDataX11(m)
    }
}

impl FromSpecImpl<CompressedIncrementalX11DataMessage> for Message {
    open spec fn obeys_from_spec() -> bool {
        true
    }

    open spec fn from_spec(m: CompressedIncrementalX11DataMessage) -> Message {
        Message::CompressedIncrementalDataX11(m)
    }
}

} // verus!
