//! Defaults of the relay server, the client, the SSH tunnel and the buffers. Durations
//! are in seconds.

use vstd::prelude::*;

verus! {

/// Defaults of the relay server.
pub struct ServerDefaults;

/// Defaults of the client.
pub struct ClientDefaults;

/// Defaults of the SSH tunnel.
pub struct SshDefaults;

/// Sizes of channels and read buffers.
pub struct BufferDefaults;

impl ServerDefaults {
    /// How often the server sends a heartbeat.
    pub const HEARTBEAT_INTERVAL_SECS: u64 = 30;
    /// How long the server waits for a heartbeat's answer before it drops the client.
    pub const HEARTBEAT_TIMEOUT_SECS: u64 = 90;
    /// How many clients the server serves at once.
    pub const MAX_CONNECTIONS: usize = 256;
    /// How long each step of the handshake may take.
    pub const HANDSHAKE_TIMEOUT_SECS: u64 = 30;
    /// How long a session is kept after its client leaves.
    pub const SESSION_GRACE_PERIOD_SECS: u64 = 60;
    /// How many X11 connections may be open on one display.
    pub const MAX_X11_CONNECTIONS_PER_DISPLAY: usize = 64;
}

impl ClientDefaults {
    /// How long the client waits for a frame from the relay.
    pub const READ_TIMEOUT_SECS: u64 = 100;
    /// How long the client waits for the TCP connection to the relay.
    pub const TCP_CONNECT_TIMEOUT_SECS: u64 = 30;
    /// How many times the client reconnects before it gives up.
    pub const MAX_RETRIES: u32 = 10;
    /// The delay before the first reconnect, doubled for each one after.
    pub const RETRY_BASE_DELAY_SECS: u64 = 1;
    /// The longest delay before a reconnect.
    pub const RETRY_MAX_DELAY_SECS: u64 = 30;
}

impl SshDefaults {
    /// How often the tunnel is checked.
    pub const HEALTH_CHECK_INTERVAL_SECS: u64 = 10;
    /// How long one check may take.
    pub const HEALTH_CHECK_TIMEOUT_SECS: u64 = 5;
    /// After this many failed checks in a row the tunnel counts as dead.
    pub const MAX_CONSECUTIVE_FAILURES: u32 = 3;
    /// The SSH port.
    pub const DEFAULT_PORT: u16 = 22;
}

impl BufferDefaults {
    /// Capacity of the channels between the relay and the X11 connections.
    pub const CHANNEL_BUFFER: usize = 2048;
    /// Capacity of the channel of outgoing frames.
    pub const OUTBOUND_CHANNEL: usize = 2048;
    /// The size of the first read from an X11 socket.
    pub const INITIAL_READ_BUF: usize = 65536;
    /// The largest read from an X11 socket.
    pub const MAX_READ_BUF: usize = 262144;
}

} // verus!
