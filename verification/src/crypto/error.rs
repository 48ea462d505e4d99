//! Why a session or a handshake refuses to go on.

use crate::text;
use vstd::prelude::*;

verus! {

/// What the Noise layer finds wrong with a handshake.
#[derive(Debug, Clone, Copy, PartialEq, Eq, Structural)]
pub enum NoiseProblem {
    /// A message that is too long or too short, or a buffer that is too small.
    Input,
    /// A message that does not decrypt.
    Decrypt,
    /// The other side is to write.
    NotTurnToWrite,
    /// This side is to write.
    NotTurnToRead,
    /// Both messages were exchanged already.
    AlreadyFinished,
    /// Anything else.
    Other,
}

impl NoiseProblem {
    /// The message of the problem.
    pub open spec fn shown(self) -> Seq<char> {
        match self {
            NoiseProblem::Input => "input error"@,
            NoiseProblem::Decrypt => "decrypt error"@,
            NoiseProblem::NotTurnToWrite => "state error: NotTurnToWrite"@,
            NoiseProblem::NotTurnToRead => "state error: NotTurnToRead"@,
            NoiseProblem::AlreadyFinished => "state error: HandshakeAlreadyFinished"@,
            NoiseProblem::Other => "noise error"@,
        }
    }

    /// The message of the problem.
    pub fn message(&self) -> (r: String)
        ensures
            r@ == self.shown(),
    {
        match self {
            NoiseProblem::Input => "input error".to_owned(),
            NoiseProblem::Decrypt => "decrypt error".to_owned(),
            NoiseProblem::NotTurnToWrite => "state error: NotTurnToWrite".to_owned(),
            NoiseProblem::NotTurnToRead => "state error: NotTurnToRead".to_owned(),
            NoiseProblem::AlreadyFinished => "state error: HandshakeAlreadyFinished".to_owned(),
            NoiseProblem::Other => "noise error".to_owned(),
        }
    }
}

/// Why a session or a handshake refuses to go on.
#[derive(Debug, Clone, Copy, PartialEq, Eq, Structural)]
pub enum CryptoError {
    /// The plaintext is longer than one Noise message can carry.
    PayloadTooLarge(usize),
    /// The packet does not fit into the output buffer.
    OutputTooSmall,
    /// A data packet without room for its header and tag.
    PacketTooShort,
    /// A data packet of another session.
    IndexMismatch,
    /// A nonce that was seen before or is too old to tell.
    Replayed(u64),
    /// No room for the message type.
    EmptyBuffer,
    /// Not an opening message.
    NotInit,
    /// Not a response.
    NotResponse,
    /// A response without a session index.
    ResponseTooShort,
    /// The Noise layer did not seal a packet.
    NoiseEncrypt,
    /// The Noise layer did not open a packet.
    NoiseDecrypt,
    /// The Noise layer refused a step of a handshake.
    Noise(NoiseProblem),
}

impl CryptoError {
    /// The message of the error.
    pub open spec fn shown(self) -> Seq<char> {
        match self {
            CryptoError::PayloadTooLarge(n) => "payload too large: "@ + text::decimal(n as nat),
            CryptoError::OutputTooSmall => "encrypt output buffer too small"@,
            CryptoError::PacketTooShort => "data packet too short"@,
            CryptoError::IndexMismatch => "session index mismatch"@,
            CryptoError::Replayed(n) => "replayed or stale nonce "@ + text::decimal(n as nat),
            CryptoError::EmptyBuffer => "empty buffer"@,
            CryptoError::NotInit => "expected handshake init (type 1)"@,
            CryptoError::NotResponse => "expected handshake response (type 2)"@,
            CryptoError::ResponseTooShort => "handshake response too short"@,
            CryptoError::NoiseEncrypt => "noise encrypt"@,
            CryptoError::NoiseDecrypt => "noise decrypt"@,
            CryptoError::Noise(problem) => problem.shown(),
        }
    }

    /// The message of the error.
    pub fn message(&self) -> (r: String)
        ensures
            r@ == self.shown(),
    {
        match self {
            CryptoError::PayloadTooLarge(n) => {
                let mut out: String = "payload too large: ".to_owned();
                text::push_decimal(&mut out, *n as u64);
                out
            },
            CryptoError::OutputTooSmall => "encrypt output buffer too small".to_owned(),
            CryptoError::PacketTooShort => "data packet too short".to_owned(),
            CryptoError::IndexMismatch => "session index mismatch".to_owned(),
            CryptoError::Replayed(n) => {
                let mut out: String = "replayed or stale nonce ".to_owned();
                text::push_decimal(&mut out, *n);
                out
            },
            CryptoError::EmptyBuffer => "empty buffer".to_owned(),
            CryptoError::NotInit => "expected handshake init (type 1)".to_owned(),
            CryptoError::NotResponse => "expected handshake response (type 2)".to_owned(),
            CryptoError::ResponseTooShort => "handshake response too short".to_owned(),
            CryptoError::NoiseEncrypt => "noise encrypt".to_owned(),
            CryptoError::NoiseDecrypt => "noise decrypt".to_owned(),
            CryptoError::Noise(problem) => problem.message(),
        }
    }
}

} // verus!
