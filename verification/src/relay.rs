//! The relay server's decisions: what it does with each message from its client and
//! with each event of the X11 connections on the client's displays.
//!
//! The caller runs the loop: it receives, performs the action decided here, and sends
//! what is to be sent.

use vstd::prelude::*;

use crate::compress::{
    decompress_frame_data, maybe_incremental_or_compress_frame, spec_decompress,
    spec_maybe_compress_frame, CompressionAlgo,
};
use crate::config::ServerDefaults;
use crate::error::{error_text, Rx11Error};
use crate::incremental::{spec_compute_incremental, ConnectionDataCache};
use crate::protocol::frame::{Frame, FrameView};
use crate::protocol::message::Message;
use crate::protocol::{
    SessionAckMessage, SessionAutoCreateMessage, SessionCreateMessage, SessionResumeMessage,
    X11ConnectMessage, X11DisconnectMessage,
};
use crate::session::{owns, owns_conn, spec_unregister, Session, SessionTable};
use crate::types::{ConnectionId, DisplayNumber};

verus! {

/// What the relay does with a message from its client.
pub enum ServerAction {
    /// Create a session on the requested display and answer with a session ack.
    CreateSession(SessionCreateMessage),
    /// Create a session on the lowest free display and answer with a session ack.
    CreateSessionAuto(SessionAutoCreateMessage),
    /// Resume the session with the given id for this client and answer with a session ack.
    ResumeSession(SessionResumeMessage),
    /// Destroy this client's session on the display.
    DestroySession(DisplayNumber),
    /// Hand the bytes to the X11 connection.
    Deliver(ConnectionId, Vec<u8>),
    /// The client answered a heartbeat: its deadline starts again.
    ResetHeartbeat,
    /// Nothing to do.
    Ignore,
}

/// Decides what the relay does with a message from the client `client_id`.
///
/// Sessions and data reach only what the client owns: a request to destroy a session on
/// a display that is not the client's, and X11 data for a connection on such a display,
/// are ignored. Compressed data is decompressed with the negotiated algorithm, and
/// dropped where none was negotiated or it does not decompress to its stated length.
pub fn server_on_message(
    table: &SessionTable,
    client_id: &str,
    compression: Option<CompressionAlgo>,
    msg: Message,
) -> (a: ServerAction)
    requires
        table.wf(),
    ensures
        match msg {
            Message::SessionCreate(m) => a == ServerAction::CreateSession(m),
            Message::SessionAutoCreate(m) => a == ServerAction::CreateSessionAuto(m),
            Message::SessionResume(m) => a == ServerAction::ResumeSession(m),
            Message::SessionDestroy(m) => if owns(table@, m.display.0, client_id@) {
                a == ServerAction::DestroySession(m.display)
            } else {
                a is Ignore
            },
            Message::DataX11(m) => if owns_conn(table@, m.connection_id.0, client_id@) {
                a matches ServerAction::Deliver(c, d) && c == m.connection_id && d@ == m.data@
            } else {
                a is Ignore
            },
            Message::CompressedDataX11(m) => if owns_conn(table@, m.connection_id.0, client_id@) {
                match compression {
                    None => a is Ignore,
                    Some(algo) => match spec_decompress(algo, m.data@, m.original_len as int) {
                        Some(d) => a matches ServerAction::Deliver(c, v) && c == m.connection_id && v@ == d,
                        None => a is Ignore,
                    },
                }
            } else {
                a is Ignore
            },
            Message::HeartbeatAck => a is ResetHeartbeat,
            _ => a is Ignore,
        },
{
    match msg {
        Message::SessionCreate(m) => ServerAction::CreateSession(m),
        Message::SessionAutoCreate(m) => ServerAction::CreateSessionAuto(m),
        Message::SessionResume(m) => ServerAction::ResumeSession(m),
        Message::SessionDestroy(m) => {
            if table.owns_session(m.display, client_id) {
                ServerAction::DestroySession(m.display)
            } else {
                ServerAction::Ignore
            }
        },
        Message::DataX11(m) => {
            if table.owns_connection(m.connection_id, client_id) {
                ServerAction::Deliver(m.connection_id, m.data)
            } else {
                ServerAction::Ignore
            }
        },
        Message::CompressedDataX11(m) => {
            if !table.owns_connection(m.connection_id, client_id) {
                return ServerAction::Ignore;
            }
            match compression {
                None => ServerAction::Ignore,
                Some(algo) => match decompress_frame_data(&m, algo) {
                    Some(d) => ServerAction::Deliver(m.connection_id, d),
                    None => ServerAction::Ignore,
                },
            }
        },
        Message::HeartbeatAck => ServerAction::ResetHeartbeat,
        _ => ServerAction::Ignore,
    }
}

/// The relay answers a session request with the session made or resumed, and whether to
/// route the display's X11 events to this client: yes exactly for a session it got.
/// A refusal carries the error's text and the unspecified display.
pub fn session_ack(result: &Result<Session, Rx11Error>) -> (r: (SessionAckMessage, Option<DisplayNumber>))
    ensures
        match result {
            Ok(s) => {
                &&& r.0.display == s.display
                &&& r.0.success
                &&& r.0.error_msg is None
                &&& r.0.session_id matches Some(id) && id@ == s.id@
                &&& r.1 == Some(s.display)
            },
            Err(e) => {
                &&& r.0.display == DisplayNumber::unspecified_spec()
                &&& !r.0.success
                &&& r.0.error_msg matches Some(m) && m@ == error_text(*e)
                &&& r.0.session_id is None
                &&& r.1 is None
            },
        },
{
    match result {
        Ok(s) => (
            SessionAckMessage {
                display: s.display,
                success: true,
                error_msg: None,
                session_id: Some(crate::types::SessionId(s.id.to_string())),
            },
            Some(s.display),
        ),
        Err(e) => (
            SessionAckMessage {
                display: DisplayNumber::unspecified(),
                success: false,
                error_msg: Some(e.to_string()),
                session_id: None,
            },
            None,
        ),
    }
}

/// An event of an X11 connection on one of the client's displays.
pub enum X11ConnToRelay {
    Connected { display: DisplayNumber, connection_id: ConnectionId },
    Data { display: DisplayNumber, connection_id: ConnectionId, data: Vec<u8> },
    Disconnected { display: DisplayNumber, connection_id: ConnectionId },
}

/// What the relay sends to an X11 connection.
pub enum X11RelayToConn {
    Data(Vec<u8>),
    Close,
}

/// The message of a frame that carries X11 data.
fn data_message(f: Frame) -> (m: Message)
    requires
        !(f is Control),
    ensures
        match f {
            Frame::DataX11(d) => m == Message::DataX11(d),
            Frame::CompressedDataX11(d) => m == Message::CompressedDataX11(d),
            Frame::IncrementalDataX11(d) => m == Message::IncrementalDataX11(d),
            Frame::CompressedIncrementalDataX11(d) => m == Message::CompressedIncrementalDataX11(d),
            Frame::Heartbeat => m == Message::Heartbeat,
            Frame::HeartbeatAck => m == Message::HeartbeatAck,
            Frame::Control(_, _) => false,
        },
{
    match f {
        Frame::DataX11(d) => Message::DataX11(d),
        Frame::CompressedDataX11(d) => Message::CompressedDataX11(d),
        Frame::IncrementalDataX11(d) => Message::IncrementalDataX11(d),
        Frame::CompressedIncrementalDataX11(d) => Message::CompressedIncrementalDataX11(d),
        Frame::Heartbeat => Message::Heartbeat,
        Frame::HeartbeatAck => Message::HeartbeatAck,
        Frame::Control(_, _) => {
            proof {
                assert(false);
            }
            Message::Heartbeat
        },
    }
}

/// The frame view that carries a message of X11 data, as `data_message` builds it.
pub open spec fn data_frame_view(m: Message) -> Option<FrameView> {
    match m {
        Message::DataX11(d) => Some(FrameView::DataX11(d@)),
        Message::CompressedDataX11(d) => Some(FrameView::CompressedDataX11(d@)),
        Message::IncrementalDataX11(d) => Some(FrameView::IncrementalDataX11(d@)),
        Message::CompressedIncrementalDataX11(d) => Some(FrameView::CompressedIncrementalDataX11(d@)),
        _ => None,
    }
}

/// Decides what the relay sends its client for an event of an X11 connection, `None`
/// where the events have ended and the relay stops. A new connection is announced; data
/// goes out as an incremental update where one is worth it, else compressed where that
/// pays, else plain, with sequence number 0; a closed connection is forgotten, by the
/// session table and by the cache, and announced.
pub fn server_on_x11_event(
    table: &mut SessionTable,
    cache: &mut ConnectionDataCache,
    compression: Option<CompressionAlgo>,
    event: Option<X11ConnToRelay>,
) -> (r: Option<Message>)
    requires
        old(table).wf(),
        old(cache)@.chunk_size > 0,
    ensures
        final(table).wf(),
        final(cache)@.chunk_size == old(cache)@.chunk_size,
        match event {
            None => r is None && final(table)@ == old(table)@ && final(cache)@ == old(cache)@,
            Some(X11ConnToRelay::Connected { display, connection_id }) => {
                &&& r matches Some(Message::X11Connect(m)) && m.display == display && m.connection_id
                    == connection_id
                &&& final(table)@ == old(table)@
                &&& final(cache)@ == old(cache)@
            },
            Some(X11ConnToRelay::Data { display, connection_id, data }) => {
                &&& final(table)@ == old(table)@
                &&& final(cache)@.entries == old(cache)@.entries.insert(connection_id.0, (0u32, data@))
                &&& r matches Some(m) && data_frame_view(m) == Some(
                    match spec_compute_incremental(old(cache)@, connection_id.0, 0, data@) {
                        Some(inc) => FrameView::IncrementalDataX11(inc),
                        None => spec_maybe_compress_frame(connection_id.0, 0, data@, compression),
                    },
                )
            },
            Some(X11ConnToRelay::Disconnected { display, connection_id }) => {
                &&& r matches Some(Message::X11Disconnect(m)) && m.display == display && m.connection_id
                    == connection_id
                &&& final(table)@ == spec_unregister(old(table)@, connection_id.0)
                &&& final(cache)@.entries == old(cache)@.entries.remove(connection_id.0)
            },
        },
{
    match event {
        None => None,
        Some(X11ConnToRelay::Connected { display, connection_id }) => Some(
            Message::X11Connect(X11ConnectMessage { display, connection_id }),
        ),
        Some(X11ConnToRelay::Data { display, connection_id, data }) => {
            let f = maybe_incremental_or_compress_frame(connection_id, 0, data, compression, Some(cache));
            Some(data_message(f))
        },
        Some(X11ConnToRelay::Disconnected { display, connection_id }) => {
            table.unregister_x11_connection(connection_id);
            cache.clear_connection(connection_id);
            Some(Message::X11Disconnect(X11DisconnectMessage { display, connection_id }))
        },
    }
}

/// Whether the server takes on a client, counting it: no more than `MAX_CONNECTIONS`
/// clients are served at once.
pub fn accepts_connection(count_with_new: usize) -> (r: bool)
    ensures
        r == (count_with_new <= ServerDefaults::MAX_CONNECTIONS),
{
    count_with_new <= ServerDefaults::MAX_CONNECTIONS
}

/// How long, in milliseconds, the relay waits for its client to answer a heartbeat.
pub open spec fn heartbeat_timeout_ms() -> nat {
    ServerDefaults::HEARTBEAT_TIMEOUT_SECS as nat * 1000
}

/// The deadline set by an answer at `now_ms`: the timeout later, saturating.
pub open spec fn spec_deadline_after(now_ms: u64) -> u64 {
    if now_ms + heartbeat_timeout_ms() > u64::MAX {
        u64::MAX
    } else {
        (now_ms + heartbeat_timeout_ms()) as u64
    }
}

/// What the relay does when its heartbeat timer fires.
#[derive(Debug, Clone, Copy, PartialEq, Eq, Structural)]
pub enum LivenessAction {
    /// The deadline has not passed: keep serving the client.
    KeepWaiting,
    /// No answer came before the deadline: drop the client.
    Disconnect,
}

/// The time, in milliseconds since the relay took on its client, by which the client
/// must next answer a heartbeat.
pub struct HeartbeatDeadline {
    deadline_ms: u64,
}

impl HeartbeatDeadline {
    pub closed spec fn deadline_spec(&self) -> u64 {
        self.deadline_ms
    }

    /// The deadline for a client taken on at `now_ms`.
    pub fn new(now_ms: u64) -> (h: HeartbeatDeadline)
        ensures
            h.deadline_spec() == spec_deadline_after(now_ms),
    {
        HeartbeatDeadline { deadline_ms: deadline_after(now_ms) }
    }

    /// The deadline, in milliseconds since the client was taken on.
    pub fn deadline_ms(&self) -> (d: u64)
        ensures
            d == self.deadline_spec(),
    {
        self.deadline_ms
    }

    /// The client answered a heartbeat at `now_ms`: its deadline starts again from then.
    pub fn on_answer(&mut self, now_ms: u64)
        ensures
            final(self).deadline_spec() == spec_deadline_after(now_ms),
    {
        self.deadline_ms = deadline_after(now_ms);
    }

    /// The timer fired at `now_ms`: the client is dropped exactly when the deadline has come.
    pub fn on_timer(&self, now_ms: u64) -> (a: LivenessAction)
        ensures
            a == (if now_ms >= self.deadline_spec() {
                LivenessAction::Disconnect
            } else {
                LivenessAction::KeepWaiting
            }),
    {
        if now_ms >= self.deadline_ms {
            LivenessAction::Disconnect
        } else {
            LivenessAction::KeepWaiting
        }
    }
}

fn deadline_after(now_ms: u64) -> (d: u64)
    ensures
        d == spec_deadline_after(now_ms),
{
    let timeout: u64 = ServerDefaults::HEARTBEAT_TIMEOUT_SECS * 1000;
    if now_ms > u64::MAX - timeout {
        u64::MAX
    } else {
        now_ms + timeout
    }
}

/// A client that answers a heartbeat is kept for the whole timeout after its answer, and
/// dropped at the first timer at or after the timeout with no answer since.
pub proof fn lemma_answer_keeps_client_for_timeout(answer_ms: u64, now_ms: u64)
    requires
        answer_ms + heartbeat_timeout_ms() <= u64::MAX,
    ensures
        (now_ms >= spec_deadline_after(answer_ms)) <==> now_ms >= answer_ms + heartbeat_timeout_ms(),
{
}

} // verus!
