//! Remote X11 forwarding: the verified core of the relay protocol.

pub mod auth;
pub mod client;
pub mod codec;
pub mod compress;
pub mod config;
pub mod error;
pub mod incremental;
pub mod protocol;
pub mod relay;
pub mod session;
pub mod stats;
pub mod text;
pub mod transport;
pub mod tunnel;
pub mod types;
