//! The server: who may connect, who is connected, and where packets go.

pub mod handshake;
pub mod laws;
pub mod peers;
pub mod rate;
pub mod sessions;
pub mod setup;
pub mod traffic;

pub use handshake::ServerError;
pub use peers::PeerTable;
pub use rate::RateLimit;
pub use sessions::{LiveSession, State};
pub use setup::Setup;
pub use traffic::{Downlink, Received, Uplink};
