//! Broker that serves a terminal program to remote clients over WebSocket:
//! admission and reconnect of sessions under caps, single-use reconnect
//! tokens, authentication, the message protocol, the replay buffer of
//! terminal output and the decisions of each connection. The `dashboard`
//! module holds the pure logic of the terminal program it serves.

mod clock;

pub mod auth;
pub mod config;
pub mod connection;
pub mod dashboard;
pub mod error_codes;
pub mod input_class;
pub mod protocol;
pub mod pty;
pub mod ring;
pub mod session;
pub mod text;

pub use auth::{authenticate, parse_auth_param, parse_reconnect_params, AuthError, AuthResult};
pub use config::{Config, TestMode};
pub use protocol::{ClientMessage, ServerMessage, TerminalSize};
pub use pty::{PtySpawnError, PtyTaskError};
pub use ring::{OutputFrame, PushResult, RingBuffer, RingMetrics};
pub use session::{
    CleanupStats, ClientIp, PtySession, SessionError, SessionManager, SessionMetrics, SessionState,
};
