//! The client's decisions: how it asks for a session, what it does with each message
//! from the relay, what it sends for data from the local X server, and when and after
//! how long it reconnects.
//!
//! The caller runs the connection: it connects, sends and receives, and performs the
//! action decided here.

use vstd::prelude::*;

use crate::auth::generate_display_cookie;
use crate::compress::{spec_compress, spec_decompress, spec_maybe_compress_frame, CompressionAlgo};
use crate::config::ClientDefaults;
use crate::error::{spec_is_retriable, Rx11Error};
use crate::incremental::{apply_safe, is_apply_safe, spec_apply_incremental, ConnectionDataCache};
use crate::protocol::handshake::reason_text;
use crate::protocol::message::Message;
use crate::protocol::payload::{CompressedX11DataMessage, X11DataMessage};
use crate::protocol::{
    SessionAckMessage, SessionAutoCreateMessage, SessionCreateMessage, SessionDestroyMessage,
};
use crate::relay::data_frame_view;
use crate::stats::{same_compression, same_incremental, wrap_add, ConnectionStats};
use crate::text::spec_decimal;
use crate::types::{ConnectionId, DisplayNumber, SessionId, MAX_DISPLAY_NUMBER};

verus! {

/// The name of the X11 authorization protocol of the cookies the client makes.
pub const AUTH_PROTOCOL_NAME: &'static str = "MIT-MAGIC-COOKIE-1";

/// The client of a relay: where the relay and the local X server are, the token, the
/// display wanted, and how it reconnects.
pub struct LocalConnector {
    relay_addr: String,
    auth_token: String,
    local_x11_addr: String,
    display: Option<u16>,
    auto_display: bool,
    max_retries: u32,
    retry_base_delay_ms: u64,
    retry_max_delay_ms: u64,
}

/// How many times the base delay is doubled before reconnect number `attempt`: none
/// before the first (attempts are counted from 1), one more for each later one, and at
/// most ten.
pub open spec fn backoff_shift(attempt: u32) -> u32 {
    if attempt <= 1 {
        0
    } else if attempt - 1 < 10 {
        (attempt - 1) as u32
    } else {
        10
    }
}

/// The delay before reconnect number `attempt`, before jitter: the base delay for the
/// first reconnect, doubled for each later one (at most ten times), saturating, and capped
/// at the longest delay.
pub open spec fn spec_backoff_cap(base_ms: u64, max_ms: u64, attempt: u32) -> u64 {
    let shift: u32 = backoff_shift(attempt);
    let factor: u64 = 1u64 << shift;
    let raw: int = base_ms * factor;
    let backoff: u64 = if raw > u64::MAX { u64::MAX } else { raw as u64 };
    if backoff < max_ms { backoff } else { max_ms }
}

/// The delay with jitter added, capped at the longest delay.
pub open spec fn spec_backoff_delay(base_ms: u64, max_ms: u64, attempt: u32, jitter: u64) -> u64 {
    let capped = spec_backoff_cap(base_ms, max_ms, attempt);
    let sum: int = capped + jitter;
    if sum < max_ms { sum as u64 } else { max_ms }
}

/// A random number from 0 to `max`, from `rand::random_range` over `0..=max`.
///
/// Trusted: the number lies in the range; which one it is is left open.
#[verifier::external_body]
fn random_up_to(max: u64) -> (r: u64)
    ensures
        r <= max,
{
    rand::random_range(0..=max)
}

impl LocalConnector {
    /// A client that reconnects up to ten times, after a delay of one second before the
    /// first reconnect, doubled for each later one, and never more than thirty seconds.
    pub fn new(
        relay_addr: String,
        auth_token: String,
        local_x11_addr: String,
        display: Option<u16>,
        auto_display: bool,
    ) -> (c: LocalConnector)
        ensures
            c.relay_addr_spec() == relay_addr@,
            c.auth_token_spec() == auth_token@,
            c.local_x11_addr_spec() == local_x11_addr@,
            c.display_spec() == display,
            c.auto_display_spec() == auto_display,
            c.max_retries_spec() == 10,
            c.retry_base_delay_ms_spec() == 1000,
            c.retry_max_delay_ms_spec() == 30000,
    {
        LocalConnector {
            relay_addr,
            auth_token,
            local_x11_addr,
            display,
            auto_display,
            max_retries: ClientDefaults::MAX_RETRIES,
            retry_base_delay_ms: ClientDefaults::RETRY_BASE_DELAY_SECS * 1000,
            retry_max_delay_ms: ClientDefaults::RETRY_MAX_DELAY_SECS * 1000,
        }
    }

    pub closed spec fn relay_addr_spec(&self) -> Seq<char> {
        self.relay_addr@
    }

    pub closed spec fn auth_token_spec(&self) -> Seq<char> {
        self.auth_token@
    }

    pub closed spec fn local_x11_addr_spec(&self) -> Seq<char> {
        self.local_x11_addr@
    }

    pub closed spec fn display_spec(&self) -> Option<u16> {
        self.display
    }

    pub closed spec fn auto_display_spec(&self) -> bool {
        self.auto_display
    }

    pub closed spec fn max_retries_spec(&self) -> u32 {
        self.max_retries
    }

    pub closed spec fn retry_base_delay_ms_spec(&self) -> u64 {
        self.retry_base_delay_ms
    }

    pub closed spec fn retry_max_delay_ms_spec(&self) -> u64 {
        self.retry_max_delay_ms
    }

    pub fn relay_addr(&self) -> (s: &str)
        ensures
            s@ == self.relay_addr_spec(),
    {
        self.relay_addr.as_str()
    }

    pub fn auth_token(&self) -> (s: &str)
        ensures
            s@ == self.auth_token_spec(),
    {
        self.auth_token.as_str()
    }

    pub fn local_x11_addr(&self) -> (s: &str)
        ensures
            s@ == self.local_x11_addr_spec(),
    {
        self.local_x11_addr.as_str()
    }

    pub fn display(&self) -> (d: Option<u16>)
        ensures
            d == self.display_spec(),
    {
        self.display
    }

    /// The delay before reconnect number `attempt`, before jitter.
    pub fn backoff_cap_ms(&self, attempt: u32) -> (r: u64)
        ensures
            r == spec_backoff_cap(self.retry_base_delay_ms_spec(), self.retry_max_delay_ms_spec(), attempt),
            r <= self.retry_max_delay_ms_spec(),
    {
        let shift: u32 = if attempt <= 1 {
            0
        } else if attempt - 1 < 10 {
            attempt - 1
        } else {
            10
        };
        let factor: u64 = 1u64 << shift;
        assert(factor >= 1) by (bit_vector)
            requires
                factor == 1u64 << shift,
                shift <= 10,
        ;
        let backoff: u64 = if self.retry_base_delay_ms > u64::MAX / factor {
            proof {
                assert(self.retry_base_delay_ms * factor > u64::MAX) by (nonlinear_arith)
                    requires
                        self.retry_base_delay_ms > u64::MAX / factor,
                        factor >= 1,
                ;
            }
            u64::MAX
        } else {
            proof {
                assert(self.retry_base_delay_ms * factor <= u64::MAX) by (nonlinear_arith)
                    requires
                        self.retry_base_delay_ms <= u64::MAX / factor,
                        factor >= 1,
                ;
            }
            self.retry_base_delay_ms * factor
        };
        if backoff < self.retry_max_delay_ms {
            backoff
        } else {
            self.retry_max_delay_ms
        }
    }

    /// The delay before reconnect number `attempt`, in milliseconds, with `jitter` added:
    /// never more than the longest delay.
    pub fn backoff_delay_ms(&self, attempt: u32, jitter: u64) -> (r: u64)
        ensures
            r == spec_backoff_delay(self.retry_base_delay_ms_spec(), self.retry_max_delay_ms_spec(), attempt, jitter),
    {
        let capped = self.backoff_cap_ms(attempt);
        let sum = capped as u128 + jitter as u128;
        if sum < self.retry_max_delay_ms as u128 {
            sum as u64
        } else {
            self.retry_max_delay_ms
        }
    }

    /// The delay before reconnect number `attempt`, in milliseconds: the capped delay plus
    /// a random jitter of up to a quarter of it, and never more than the longest delay.
    pub fn calculate_backoff(&self, attempt: u32) -> (r: u64)
        ensures
            exists|j: u64| #![trigger spec_backoff_delay(self.retry_base_delay_ms_spec(), self.retry_max_delay_ms_spec(), attempt, j)]
                j <= spec_backoff_cap(self.retry_base_delay_ms_spec(), self.retry_max_delay_ms_spec(), attempt) / 4
                && r == spec_backoff_delay(self.retry_base_delay_ms_spec(), self.retry_max_delay_ms_spec(), attempt, j),
    {
        let capped = self.backoff_cap_ms(attempt);
        let jitter = random_up_to(capped / 4);
        self.backoff_delay_ms(attempt, jitter)
    }

    /// After a failed connection, the number of the next attempt, or `None` where the
    /// client gives up: after an error that is not transient, or when all retries are spent.
    pub fn next_attempt(&self, err: &Rx11Error, attempt: u32) -> (r: Option<u32>)
        ensures
            r == (if !spec_is_retriable(*err) || attempt >= self.max_retries_spec() {
                None
            } else {
                Some((attempt + 1) as u32)
            }),
    {
        if !err.is_retriable() {
            return None;
        }
        if attempt >= self.max_retries {
            return None;
        }
        Some(attempt + 1)
    }

    /// The request for a session, with the given authorization cookie: a request for any
    /// display where the client lets the server choose, else for the display asked for
    /// (0 if none), which must be 0 to 255.
    pub fn session_request_with_cookie(&self, cookie: Vec<u8>) -> (r: Result<Message, Rx11Error>)
        ensures
            self.auto_display_spec() ==> (r matches Ok(Message::SessionAutoCreate(m))
                && m.auth_name@ == AUTH_PROTOCOL_NAME@ && m.auth_data@ == cookie@),
            !self.auto_display_spec() ==> ({
                let d = match self.display_spec() {
                    Some(d) => d,
                    None => 0,
                };
                &&& d <= MAX_DISPLAY_NUMBER ==> (r matches Ok(Message::SessionCreate(m)) && m.display.0 == d
                    && m.auth_name@ == AUTH_PROTOCOL_NAME@ && m.auth_data@ == cookie@)
                &&& d > MAX_DISPLAY_NUMBER ==> (r matches Err(e) && e matches Rx11Error::Protocol(m) && m@
                    == "Display number must be 0-255, got "@ + spec_decimal(d as nat))
            }),
    {
        if self.auto_display {
            return Ok(
                Message::SessionAutoCreate(
                    SessionAutoCreateMessage { auth_name: AUTH_PROTOCOL_NAME.to_owned(), auth_data: cookie },
                ),
            );
        }
        let disp: u16 = match self.display {
            Some(d) => d,
            None => 0,
        };
        match DisplayNumber::new(disp) {
            Ok(d) => Ok(
                Message::SessionCreate(
                    SessionCreateMessage {
                        display: d,
                        auth_name: AUTH_PROTOCOL_NAME.to_owned(),
                        auth_data: cookie,
                    },
                ),
            ),
            Err(e) => Err(e),
        }
    }

    /// The request for a session, with a fresh random cookie of 16 bytes.
    pub fn session_request(&self) -> (r: Result<Message, Rx11Error>)
        ensures
            r matches Ok(Message::SessionAutoCreate(m)) ==> m.auth_data@.len() == 16,
            r matches Ok(Message::SessionCreate(m)) ==> m.auth_data@.len() == 16,
            r is Ok <==> (self.auto_display_spec() || match self.display_spec() {
                Some(d) => d <= MAX_DISPLAY_NUMBER,
                None => true,
            }),
    {
        let cookie = generate_display_cookie();
        self.session_request_with_cookie(cookie)
    }
}

/// The display and session id that the relay's answer to a session request gives, or
/// the error where it refused or gave no session id.
pub fn session_ack_outcome(ack: &SessionAckMessage) -> (r: Result<(DisplayNumber, SessionId), Rx11Error>)
    ensures
        !ack.success ==> (r matches Err(e) && e matches Rx11Error::Protocol(m) && m@ == "Session create failed: "@
            + reason_text(ack.error_msg)),
        ack.success && ack.session_id is None ==> (r matches Err(e) && e matches Rx11Error::Protocol(m) && m@
            == "Missing session_id"@),
        ack.success && ack.session_id is Some ==> (r matches Ok((d, id)) && d == ack.display && id@
            == ack.session_id->0@),
{
    if !ack.success {
        let mut m = "Session create failed: ".to_owned();
        match &ack.error_msg {
            Some(e) => m.append(e.as_str()),
            None => m.append("unknown error"),
        }
        return Err(Rx11Error::Protocol(m));
    }
    match &ack.session_id {
        Some(id) => Ok((ack.display, SessionId(id.to_string()))),
        None => Err(crate::types::protocol_error("Missing session_id")),
    }
}

/// What the relay's answer to a resume request means.
pub enum ResumeOutcome {
    /// The session was resumed on this display, under this id where the answer gives one.
    Resumed(DisplayNumber, Option<SessionId>),
    /// The session is gone: the client asks for a new one.
    CreateNew,
}

pub fn resume_outcome(ack: &SessionAckMessage) -> (r: ResumeOutcome)
    ensures
        ack.success ==> (r matches ResumeOutcome::Resumed(d, id) && d == ack.display && match ack.session_id {
            Some(s) => id matches Some(t) && t@ == s@,
            None => id is None,
        }),
        !ack.success ==> r is CreateNew,
{
    if !ack.success {
        return ResumeOutcome::CreateNew;
    }
    let id = match &ack.session_id {
        Some(s) => Some(SessionId(s.to_string())),
        None => None,
    };
    ResumeOutcome::Resumed(ack.display, id)
}

/// The message the client sends when it shuts down: the destruction of its session.
pub fn shutdown_message(display: DisplayNumber) -> (m: Message)
    ensures
        m == Message::SessionDestroy(SessionDestroyMessage { display }),
{
    Message::SessionDestroy(SessionDestroyMessage { display })
}

/// What the client does with a message from the relay.
pub enum ClientAction {
    /// Connect to the local X server for a new X11 connection.
    OpenLocal(DisplayNumber, ConnectionId),
    /// Write the bytes to the local X11 connection.
    Deliver(ConnectionId, Vec<u8>),
    /// Close the local X11 connection.
    CloseLocal(ConnectionId),
    /// Send the message to the relay.
    Reply(Message),
    /// End the session.
    Stop,
    /// Nothing to do.
    Ignore,
}

/// The statistics after `n` bytes were received: the byte counts go up, nothing else changes.
pub open spec fn received(a: ConnectionStats, b: ConnectionStats, n: u64) -> bool {
    &&& b.total_bytes_received == wrap_add(a.total_bytes_received, n)
    &&& b.period_bytes_received == wrap_add(a.period_bytes_received, n)
    &&& b.total_bytes_sent == a.total_bytes_sent
    &&& b.period_bytes_sent == a.period_bytes_sent
    &&& b.x11_connections_active == a.x11_connections_active
    &&& same_compression(b, a)
    &&& same_incremental(b, a)
}

/// The statistics after one more X11 connection opened.
pub open spec fn connection_opened(a: ConnectionStats, b: ConnectionStats) -> bool {
    &&& b.x11_connections_active == if a.x11_connections_active == u32::MAX {
        0
    } else {
        (a.x11_connections_active + 1) as u32
    }
    &&& b.total_bytes_received == a.total_bytes_received
    &&& b.period_bytes_received == a.period_bytes_received
    &&& b.total_bytes_sent == a.total_bytes_sent
    &&& b.period_bytes_sent == a.period_bytes_sent
    &&& same_compression(b, a)
    &&& same_incremental(b, a)
}

/// Decides what the client does with a message from the relay, and counts it.
///
/// A new X11 connection is opened locally and counted; data is written to its local
/// connection and its bytes counted, compressed data after decompression with the
/// negotiated algorithm, and an incremental update after it is applied to the data last
/// received for the connection. `last_received` keeps, for each connection, the data last
/// written to it, against which the relay computes its updates; data that cannot be
/// written (no algorithm negotiated, not decompressible to its stated length, an update
/// that is malformed or has no matching base) is dropped and forgets that data, so that
/// no later update is applied to a stale base. A heartbeat is answered; the end of the
/// session, or an error from the relay, ends it.
pub fn client_on_message(
    compression: Option<CompressionAlgo>,
    stats: &mut ConnectionStats,
    last_received: &mut ConnectionDataCache,
    msg: Message,
) -> (a: ClientAction)
    ensures
        final(last_received)@.chunk_size == old(last_received)@.chunk_size,
        match msg {
            Message::X11Connect(m) => a == ClientAction::OpenLocal(m.display, m.connection_id)
                && connection_opened(*old(stats), *final(stats))
                && final(last_received)@ == old(last_received)@,
            Message::DataX11(m) => (a matches ClientAction::Deliver(c, d) && c == m.connection_id && d@ == m.data@)
                && received(*old(stats), *final(stats), m.data@.len() as u64)
                && final(last_received)@.entries == old(last_received)@.entries.insert(m.connection_id.0, (m.sequence_id, m.data@)),
            Message::CompressedDataX11(m) => match compression {
                None => a is Ignore && *final(stats) == *old(stats)
                    && final(last_received)@.entries == old(last_received)@.entries.remove(m.connection_id.0),
                Some(algo) => match spec_decompress(algo, m.data@, m.original_len as int) {
                    Some(d) => (a matches ClientAction::Deliver(c, v) && c == m.connection_id && v@ == d)
                        && received(*old(stats), *final(stats), d.len() as u64)
                        && final(last_received)@.entries == old(last_received)@.entries.insert(m.connection_id.0, (m.sequence_id, d)),
                    None => a is Ignore && *final(stats) == *old(stats)
                        && final(last_received)@.entries == old(last_received)@.entries.remove(m.connection_id.0),
                },
            },
            Message::IncrementalDataX11(m) => if !apply_safe(m@) {
                a is Ignore && *final(stats) == *old(stats)
                    && final(last_received)@.entries == old(last_received)@.entries.remove(m.connection_id.0)
            } else {
                match spec_apply_incremental(old(last_received)@, m@) {
                    Some(d) => (a matches ClientAction::Deliver(c, v) && c == m.connection_id && v@ == d)
                        && received(*old(stats), *final(stats), d.len() as u64)
                        && final(last_received)@.entries == old(last_received)@.entries.insert(m.connection_id.0, (m.sequence_id, d)),
                    None => a is Ignore && *final(stats) == *old(stats)
                        && final(last_received)@.entries == old(last_received)@.entries.remove(m.connection_id.0),
                }
            },
            Message::Heartbeat => a == ClientAction::Reply(Message::HeartbeatAck) && *final(stats) == *old(stats)
                && final(last_received)@ == old(last_received)@,
            Message::SessionDestroy(_) => a is Stop && *final(stats) == *old(stats) && final(last_received)@ == old(last_received)@,
            Message::Error(_) => a is Stop && *final(stats) == *old(stats) && final(last_received)@ == old(last_received)@,
            Message::X11Disconnect(m) => a == ClientAction::CloseLocal(m.connection_id) && *final(stats)
                == *old(stats)
                && final(last_received)@.entries == old(last_received)@.entries.remove(m.connection_id.0),
            _ => a is Ignore && *final(stats) == *old(stats) && final(last_received)@ == old(last_received)@,
        },
{
    match msg {
        Message::X11Connect(m) => {
            stats.inc_x11_connections();
            ClientAction::OpenLocal(m.display, m.connection_id)
        },
        Message::DataX11(m) => {
            stats.add_bytes_received(m.data.len() as u64);
            last_received.update_cache(m.connection_id, m.sequence_id, m.data.as_slice());
            ClientAction::Deliver(m.connection_id, m.data)
        },
        Message::CompressedDataX11(m) => {
            let algo = match compression {
                Some(a) => a,
                None => {
                    last_received.clear_connection(m.connection_id);
                    return ClientAction::Ignore;
                },
            };
            match crate::compress::decompress_frame_data(&m, algo) {
                Some(d) => {
                    stats.add_bytes_received(d.len() as u64);
                    last_received.update_cache(m.connection_id, m.sequence_id, d.as_slice());
                    ClientAction::Deliver(m.connection_id, d)
                },
                None => {
                    last_received.clear_connection(m.connection_id);
                    ClientAction::Ignore
                },
            }
        },
        Message::IncrementalDataX11(m) => {
            if !is_apply_safe(&m) {
                last_received.clear_connection(m.connection_id);
                return ClientAction::Ignore;
            }
            match last_received.apply_incremental(&m) {
                Some(d) => {
                    stats.add_bytes_received(d.len() as u64);
                    ClientAction::Deliver(m.connection_id, d)
                },
                None => {
                    last_received.clear_connection(m.connection_id);
                    ClientAction::Ignore
                },
            }
        },
        Message::Heartbeat => ClientAction::Reply(Message::HeartbeatAck),
        Message::SessionDestroy(_) => ClientAction::Stop,
        Message::Error(_) => ClientAction::Stop,
        Message::X11Disconnect(m) => {
            last_received.clear_connection(m.connection_id);
            ClientAction::CloseLocal(m.connection_id)
        },
        _ => ClientAction::Ignore,
    }
}

/// The message that carries data read from the local X server: compressed where an
/// algorithm was negotiated and compression pays, counting the bytes it saved; plain
/// otherwise.
pub fn client_data_message(
    connection_id: ConnectionId,
    sequence_id: u32,
    data: Vec<u8>,
    compression: Option<CompressionAlgo>,
    stats: &mut ConnectionStats,
) -> (m: Message)
    ensures
        data_frame_view(m) == Some(spec_maybe_compress_frame(connection_id.0, sequence_id, data@, compression)),
        match compression {
            Some(algo) => match spec_compress(algo, data@) {
                Some(c) => {
                    &&& final(stats).total_compression_saved == wrap_add(
                        old(stats).total_compression_saved,
                        (data@.len() - c.len()) as u64,
                    )
                    &&& final(stats).total_compression_frames == wrap_add(old(stats).total_compression_frames, 1)
                    &&& final(stats).period_compression_saved == wrap_add(
                        old(stats).period_compression_saved,
                        (data@.len() - c.len()) as u64,
                    )
                    &&& final(stats).period_compression_frames == wrap_add(old(stats).period_compression_frames, 1)
                },
                None => *final(stats) == *old(stats),
            },
            None => *final(stats) == *old(stats),
        },
{
    if let Some(algo) = compression {
        if let Some(compressed) = algo.compress_to_bytes(data.as_slice()) {
            proof {
                crate::compress::lemma_compress_shrinks(algo, data@);
            }
            let saved = (data.len() - compressed.len()) as u64;
            stats.add_compression_saved(saved);
            return Message::CompressedDataX11(
                CompressedX11DataMessage {
                    connection_id,
                    sequence_id,
                    original_len: data.len(),
                    data: compressed,
                },
            );
        }
    }
    Message::DataX11(X11DataMessage { connection_id, sequence_id, data })
}

/// The size of the next read from an X11 socket: the buffer doubles after each read,
/// up to `max`.
pub fn next_read_buf_size(len: usize, max: usize) -> (r: usize)
    ensures
        len < max ==> r == (if 2 * len < max { 2 * len } else { max as int }),
        len >= max ==> r == len,
{
    if len < max {
        if len < max - len {
            len * 2
        } else {
            max
        }
    } else {
        len
    }
}

/// How a tunnel's health checks stand: the failures in a row so far.
pub struct TunnelHealth {
    consecutive_failures: u32,
}

impl TunnelHealth {
    pub closed spec fn failures(&self) -> u32 {
        self.consecutive_failures
    }

    pub fn new() -> (h: TunnelHealth)
        ensures
            h.failures() == 0,
    {
        TunnelHealth { consecutive_failures: 0 }
    }

    /// Records one check, and says whether the tunnel is now dead: it failed as many
    /// times in a row as `MAX_CONSECUTIVE_FAILURES`. A check that passes clears the count.
    pub fn record(&mut self, healthy: bool) -> (dead: bool)
        ensures
            healthy ==> final(self).failures() == 0 && !dead,
            !healthy ==> final(self).failures() == (if old(self).failures() == u32::MAX {
                u32::MAX
            } else {
                (old(self).failures() + 1) as u32
            }) && dead == (final(self).failures() >= crate::config::SshDefaults::MAX_CONSECUTIVE_FAILURES),
    {
        if healthy {
            self.consecutive_failures = 0;
            return false;
        }
        if self.consecutive_failures < u32::MAX {
            self.consecutive_failures = self.consecutive_failures + 1;
        }
        self.consecutive_failures >= crate::config::SshDefaults::MAX_CONSECUTIVE_FAILURES
    }
}

} // verus!

verus! {

/// The delay before a reconnect never exceeds the longest delay, and is at least the
/// delay before jitter.
pub proof fn lemma_backoff_bounded(base: u64, max: u64, attempt: u32, jitter: u64)
    ensures
        spec_backoff_cap(base, max, attempt) <= max,
        spec_backoff_delay(base, max, attempt, jitter) <= max,
        spec_backoff_cap(base, max, attempt) <= spec_backoff_delay(base, max, attempt, jitter),
{
}

/// The first reconnect waits the base delay (capped at the longest delay) before jitter.
pub proof fn lemma_backoff_starts_at_base(base: u64, max: u64)
    ensures
        spec_backoff_cap(base, max, 1) == (if base < max { base } else { max }),
{
    let f: u64 = 1u64 << backoff_shift(1);
    assert(backoff_shift(1) == 0);
    assert(f == 1) by (bit_vector)
        requires
            f == 1u64 << 0u32,
    ;
    assert(base * f == base);
}

/// Before jitter, the delay doubles from one reconnect to the next until it reaches the
/// longest delay (from the first reconnect to the eleventh, with a base delay small enough
/// not to saturate).
pub proof fn lemma_backoff_doubles(base: u64, max: u64, attempt: u32)
    requires
        1 <= attempt < 11,
        base <= u64::MAX / 1024,
    ensures
        spec_backoff_cap(base, max, (attempt + 1) as u32) == (if 2 * spec_backoff_cap(base, max, attempt) < max {
            2 * spec_backoff_cap(base, max, attempt)
        } else {
            max as int
        }),
{
    let a = backoff_shift(attempt);
    let b = backoff_shift((attempt + 1) as u32);
    let fa: u64 = 1u64 << a;
    let fb: u64 = 1u64 << b;
    assert(b == a + 1 && a < 10);
    assert(fb == 2 * fa && fa <= 512 && fa >= 1) by (bit_vector)
        requires
            fa == 1u64 << a,
            fb == 1u64 << b,
            b == a + 1,
            a < 10,
    ;
    assert(base * fa <= u64::MAX && base * fb <= u64::MAX && base * fb == 2 * (base * fa)) by (nonlinear_arith)
        requires
            fb == 2 * fa,
            fa <= 512,
            base <= u64::MAX / 1024,
    ;
}

/// Whether the client lets the server choose the display: unless turned off, where no
/// display is asked for on the command line or in the configuration.
pub fn auto_display(auto: Option<bool>, display: Option<u16>, config_display: Option<u16>) -> (r: bool)
    ensures
        r == (match auto {
            Some(b) => b,
            None => true,
        } && display is None && config_display is None),
{
    let on = match auto {
        Some(b) => b,
        None => true,
    };
    on && display.is_none() && config_display.is_none()
}

} // verus!
