//! Static keys and session indices.

use super::error::CryptoError;
use super::noise;
use super::noise::NOISE_PARAMS;
use crate::wire;
use vstd::prelude::*;

verus! {

/// The parameters of the protocol.
pub(crate) fn params() -> (p: snow::params::NoiseParams)
    ensures
        noise::params_name(p) == NOISE_PARAMS@,
{
    noise::parse_params(NOISE_PARAMS)
}

/// 32 bytes as an array.
pub(crate) fn key_array(bytes: &[u8]) -> (key: [u8; 32])
    requires
        bytes@.len() == 32,
    ensures
        key@ == bytes@,
{
    let mut key: [u8; 32] = [0u8; 32];
    let mut i: usize = 0;
    while i < 32
        invariant
            i <= 32,
            bytes@.len() == 32,
            forall|j: int| 0 <= j < i ==> key@[j] == bytes@[j],
        decreases 32 - i,
    {
        key[i] = bytes[i];
        i = i + 1;
    }
    assert(key@ =~= bytes@);
    key
}

/// A fresh private key and its public key.
pub fn generate_keypair() -> (r: Result<([u8; 32], [u8; 32]), CryptoError>)
    ensures
        r is Ok,
        r matches Ok((private, public)) ==> public@ == noise::x25519_public(private@),
{
    match noise::generate(params()) {
        Ok((private, public)) => Ok((key_array(&private), key_array(&public))),
        Err(e) => Err(CryptoError::Noise(noise::problem(&e))),
    }
}

/// The public key of `private`.
pub fn public_from_private(private: &[u8; 32]) -> (public: [u8; 32])
    ensures
        public@ == noise::x25519_public(private@),
{
    noise::derive_public(private)
}

/// A session index never starts a data packet with the type byte of a
/// handshake message.
pub open spec fn index_is_data(index: u32) -> bool {
    index % 256 != 1 && index % 256 != 2
}

/// The session index that a random number gives.
pub open spec fn index_from(drawn: u32) -> u32 {
    if drawn % 256 == 1 || drawn % 256 == 2 {
        (drawn - drawn % 256) as u32
    } else {
        drawn
    }
}

/// A session index is one whose first byte on the wire is no handshake type.
pub proof fn law_index_is_no_handshake_type(index: u32)
    ensures
        index_is_data(index) <==> wire::u32_le(index)[0] != 1 && wire::u32_le(index)[0] != 2,
{
}

/// A random number gives a session index that differs from it in the lowest
/// byte at most, and only where that byte is a handshake type.
pub proof fn law_drawn_index_is_kept(drawn: u32)
    ensures
        wire::u32_le(index_from(drawn))[0] != 1,
        wire::u32_le(index_from(drawn))[0] != 2,
        wire::u32_le(index_from(drawn)).skip(1) == wire::u32_le(drawn).skip(1),
        wire::u32_le(drawn)[0] != 1 && wire::u32_le(drawn)[0] != 2 ==> index_from(drawn) == drawn,
{
    let x = index_from(drawn);
    assert(x / 256 == drawn / 256);
    assert(wire::u32_le(x).skip(1) =~= wire::u32_le(drawn).skip(1));
}

/// The session index that four random bytes give; a low byte that would read
/// as a handshake type is cleared.
pub fn session_index_from(bytes: [u8; 32]) -> (index: u32)
    ensures
        index_is_data(index),
        index == index_from(wire::u32_of_le(bytes@) as u32),
        ({
            let drawn = wire::u32_of_le(bytes@);
            if drawn % 256 == 1 || drawn % 256 == 2 {
                index == drawn - drawn % 256
            } else {
                index == drawn
            }
        }),
{
    let drawn: u32 = wire::get_u32(&bytes);
    if drawn % 256 == 1 || drawn % 256 == 2 {
        drawn - drawn % 256
    } else {
        drawn
    }
}

/// A random session index.
pub fn random_session_index() -> (index: u32)
    ensures
        index_is_data(index),
{
    match generate_keypair() {
        Ok((throwaway, _)) => session_index_from(throwaway),
        Err(_) => 0,
    }
}

} // verus!
