//! A two-party TCP reverse tunnel: the multiplexing protocol core.
//!
//! The wire between client and server carries length-prefixed frames whose
//! payloads are obfuscated with a repeating-key XOR. Each frame's payload
//! begins with a four-byte big-endian connection id; ids `0` and `1` are
//! reserved for keep-alive and close notifications, child connections start
//! at id `10`. This crate holds the framing codec, the auth exchange, the
//! per-tunnel connection table and the demultiplexing state machines; the
//! sockets and timers that drive them live outside.

use vstd::prelude::*;

pub mod auth;
pub mod bytes;
pub mod client;
pub mod codec;
pub mod config;
pub mod conn;
pub mod frame;
pub mod pump;
pub mod server;

pub use codec::xor;
pub use codec::EncReader;
pub use codec::EncWriter;
pub use config::ClientConfig;
pub use config::ServerConfig;
pub use config::TcpTunnelClientConfig;
pub use config::TcpTunnelServerConfig;

verus! {

/// Connection id of keep-alive frames.
pub const PING_ID: u32 = 0;

/// Connection id of close-notification frames.
pub const CLOSE_ID: u32 = 1;

/// First id handed to an accepted child connection; ids below this are
/// reserved for the protocol.
pub const CONNECTION_ID_START: u32 = 10;

/// Seconds between the keep-alive frames the server writes; a failed
/// keep-alive write tears the tunnel down.
pub const KEEPALIVE_SECS: u64 = 20;

} // verus!
