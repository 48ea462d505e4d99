//! Noise_IK sessions, packet framing and replay protection.
//!
//! Wire format (data):
//!   `[session_index: u32 LE][nonce: u64 LE][ciphertext…]`
//!
//! Handshake:
//!   init     → `[1][Noise…]`
//!   response → `[2][session_index: u32 LE][Noise…]`

pub mod error;
pub mod handshake;
pub mod keys;
pub mod noise;
pub mod replay;
pub mod session;

pub use error::{CryptoError, NoiseProblem};
pub use handshake::{HandshakeInitiator, HandshakeResponder};
pub use keys::{generate_keypair, public_from_private, random_session_index};
pub use noise::{MAX_MESSAGE, NOISE_PARAMS};
pub use replay::ReplayWindow;
pub use session::{Session, MAX_PAYLOAD};
