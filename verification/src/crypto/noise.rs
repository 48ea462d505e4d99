//! What is taken on trust from `snow` and `x25519_dalek`, and the words in
//! which the rest of the crate speaks of it.

use super::error::NoiseProblem;
use vstd::prelude::*;

verus! {

/// The protocol that both sides of a tunnel speak.
pub const NOISE_PARAMS: &'static str = "Noise_IK_25519_ChaChaPoly_BLAKE2s";

/// Longest Noise message.
pub const MAX_MESSAGE: usize = 65535;

/// Bytes that the authentication tag adds to a plaintext.
pub const TAG_LEN: usize = 16;

/// Length of the initiator's message with an empty payload: the ephemeral key,
/// the sealed static key and the sealed payload.
pub const INIT_LEN: usize = 96;

/// Length of the responder's message with an empty payload: the ephemeral key
/// and the sealed payload.
pub const RESPONSE_LEN: usize = 48;

/// What a running handshake knows.
#[verifier::ext_equal]
pub struct NoiseHandshake {
    /// The state runs the protocol `NOISE_PARAMS`.
    pub ik: bool,
    pub initiator: bool,
    /// Own static private key.
    pub private: Seq<u8>,
    /// Own ephemeral private key, once a message was written with it.
    pub ephemeral: Option<Seq<u8>>,
    /// Static public key of the other side, once known.
    pub remote: Option<Seq<u8>>,
    /// The messages exchanged so far, in order.
    pub messages: Seq<Seq<u8>>,
}

/// What an established transport knows.
#[verifier::ext_equal]
pub struct NoiseTransport {
    /// Both directions are keyed and usable.
    pub two_way: bool,
    pub send_key: Seq<u8>,
    pub recv_key: Seq<u8>,
    /// Nonce of the next message sent.
    pub send_nonce: u64,
    /// Nonce with which the next message is opened.
    pub recv_nonce: u64,
    pub remote: Option<Seq<u8>>,
}

#[verifier::external_type_specification]
#[verifier::external_body]
pub struct ExHandshakeState(snow::HandshakeState);

#[verifier::external_type_specification]
#[verifier::external_body]
pub struct ExTransportState(snow::TransportState);

#[verifier::external_type_specification]
#[verifier::external_body]
pub struct ExSnowError(snow::Error);

#[verifier::external_type_specification]
#[verifier::external_body]
pub struct ExNoiseParams(snow::params::NoiseParams);

/// The protocol name that parsed parameters carry.
pub uninterp spec fn params_name(params: snow::params::NoiseParams) -> Seq<char>;

/// What a `snow::HandshakeState` holds.
pub uninterp spec fn handshake_state(state: snow::HandshakeState) -> NoiseHandshake;

/// What a `snow::TransportState` holds.
pub uninterp spec fn transport_state(state: snow::TransportState) -> NoiseTransport;

/// What a `snow::Error` complains of.
pub uninterp spec fn noise_problem(e: snow::Error) -> NoiseProblem;

/// The X25519 public key of a private key.
pub uninterp spec fn x25519_public(private: Seq<u8>) -> Seq<u8>;

/// The opening message of the initiator with these static and ephemeral private
/// keys, for the responder with the given public key.
pub uninterp spec fn ik_opening(
    private: Seq<u8>,
    ephemeral: Seq<u8>,
    responder: Seq<u8>,
) -> Seq<u8>;

/// The initiator's static public key that an opening message carries to the
/// responder with the given private key; `None` where that responder refuses
/// the message.
pub uninterp spec fn ik_init_static(private: Seq<u8>, opening: Seq<u8>) -> Option<Seq<u8>>;

/// The response of the responder with these static and ephemeral private keys
/// to an opening message that it has taken.
pub uninterp spec fn ik_response(
    private: Seq<u8>,
    ephemeral: Seq<u8>,
    opening: Seq<u8>,
) -> Seq<u8>;

/// Whether the initiator with these static and ephemeral private keys takes
/// `response` as the answer of `responder` to its opening message.
pub uninterp spec fn ik_response_accepted(
    private: Seq<u8>,
    ephemeral: Seq<u8>,
    responder: Seq<u8>,
    opening: Seq<u8>,
    response: Seq<u8>,
) -> bool;

/// The transport keys that a side computes at the end of a handshake from its
/// own private keys, the other side's static public key and the two messages:
/// the initiator's sending key and the responder's.
pub uninterp spec fn ik_keys(
    initiator: bool,
    private: Seq<u8>,
    ephemeral: Seq<u8>,
    remote: Seq<u8>,
    opening: Seq<u8>,
    response: Seq<u8>,
) -> (Seq<u8>, Seq<u8>);

/// ChaCha20-Poly1305 with an empty associated text.
pub uninterp spec fn noise_seal(key: Seq<u8>, nonce: u64, plaintext: Seq<u8>) -> Seq<u8>;

/// The plaintext of a sealed message, `None` where authentication fails.
pub uninterp spec fn noise_open(key: Seq<u8>, nonce: u64, sealed: Seq<u8>) -> Option<Seq<u8>>;

/// Tells the variants of `snow::Error` apart, as far as a handshake gives them.
#[verifier::external_body]
pub(crate) fn problem(e: &snow::Error) -> (r: NoiseProblem)
    ensures
        r == noise_problem(*e),
{
    match e {
        snow::Error::Input => NoiseProblem::Input,
        snow::Error::Decrypt => NoiseProblem::Decrypt,
        snow::Error::State(snow::error::StateProblem::NotTurnToWrite) => NoiseProblem::NotTurnToWrite,
        snow::Error::State(snow::error::StateProblem::NotTurnToRead) => NoiseProblem::NotTurnToRead,
        snow::Error::State(snow::error::StateProblem::HandshakeAlreadyFinished) => {
            NoiseProblem::AlreadyFinished
        },
        _ => NoiseProblem::Other,
    }
}

/// Parses a protocol name (`NoiseParams::from_str`). Stated only for the
/// protocol of this crate, which `snow` supports; the parameters then carry
/// that name.
#[verifier::external_body]
pub(crate) fn parse_params(name: &str) -> (params: snow::params::NoiseParams)
    requires
        name@ == NOISE_PARAMS@,
    ensures
        params_name(params) == name@,
{
    name.parse().expect("static noise params")
}

/// A fresh key pair (`snow::Builder::generate_keypair`): 32 bytes of operating
/// system randomness and their X25519 public key. The call fails only where a
/// primitive is missing, and the default resolver has all of this protocol. It
/// does not return where the operating system has no randomness.
#[verifier::external_body]
pub(crate) fn generate(params: snow::params::NoiseParams) -> (r: Result<(Vec<u8>, Vec<u8>), snow::Error>)
    requires
        params_name(params) == NOISE_PARAMS@,
    ensures
        r is Ok,
        r matches Ok(pair) ==> pair.0@.len() == 32 && pair.1@.len() == 32 && pair.1@ == x25519_public(
            pair.0@,
        ),
{
    snow::Builder::new(params).generate_keypair().map(|kp| (kp.private, kp.public))
}

/// The public key of `private`, as `x25519_dalek::PublicKey::from` derives it.
#[verifier::external_body]
pub(crate) fn derive_public(private: &[u8; 32]) -> (public: [u8; 32])
    ensures
        public@ == x25519_public(private@),
{
    *x25519_dalek::PublicKey::from(&x25519_dalek::StaticSecret::from(*private)).as_bytes()
}

/// An initiator that knows the responder's key (`snow::Builder` with
/// `local_private_key`, `remote_public_key` and `build_initiator`). With both
/// keys given and every primitive at hand the build does not fail.
#[verifier::external_body]
pub(crate) fn build_initiator(
    params: snow::params::NoiseParams,
    private: &[u8; 32],
    remote: &[u8; 32],
) -> (r: Result<snow::HandshakeState, snow::Error>)
    requires
        params_name(params) == NOISE_PARAMS@,
    ensures
        r is Ok,
        r matches Ok(state) ==> handshake_state(state) == (NoiseHandshake {
            ik: true,
            initiator: true,
            private: private@,
            ephemeral: None,
            remote: Some(remote@),
            messages: Seq::empty(),
        }),
{
    snow::Builder::new(params)
        .local_private_key(private)
        .remote_public_key(remote)
        .build_initiator()
}

/// A responder (`snow::Builder` with `local_private_key` and
/// `build_responder`). With its key given and every primitive at hand the
/// build does not fail.
#[verifier::external_body]
pub(crate) fn build_responder(
    params: snow::params::NoiseParams,
    private: &[u8; 32],
) -> (r: Result<snow::HandshakeState, snow::Error>)
    requires
        params_name(params) == NOISE_PARAMS@,
    ensures
        r is Ok,
        r matches Ok(state) ==> handshake_state(state) == (NoiseHandshake {
            ik: true,
            initiator: false,
            private: private@,
            ephemeral: None,
            remote: None,
            messages: Seq::empty(),
        }),
{
    snow::Builder::new(params).local_private_key(private).build_responder()
}

impl NoiseHandshake {
    /// Own static public key.
    pub open spec fn local(self) -> Seq<u8> {
        x25519_public(self.private)
    }

    /// The last message, if there was one, came from the other side.
    pub open spec fn has_turn(self) -> bool {
        if self.initiator {
            self.messages.len() != 1
        } else {
            self.messages.len() == 1
        }
    }

    /// It is this side's turn to write, and there is something left to write.
    pub open spec fn writes_next(self) -> bool {
        self.has_turn() && self.messages.len() < 2
    }

    /// Why nothing is written, where nothing is.
    pub open spec fn write_problem(self) -> NoiseProblem {
        if !self.has_turn() {
            NoiseProblem::NotTurnToWrite
        } else if self.messages.len() >= 2 {
            NoiseProblem::AlreadyFinished
        } else {
            NoiseProblem::Input
        }
    }

    /// Why `message` is refused, where it is. An opening holds an ephemeral key
    /// and a sealed static key at least, a response an ephemeral key.
    pub open spec fn read_problem(self, message: Seq<u8>) -> NoiseProblem {
        if message.len() > MAX_MESSAGE {
            NoiseProblem::Input
        } else if self.has_turn() {
            NoiseProblem::NotTurnToRead
        } else if self.messages.len() >= 2 {
            NoiseProblem::AlreadyFinished
        } else if message.len() < if self.initiator { 32nat } else { 80nat } {
            NoiseProblem::Input
        } else {
            NoiseProblem::Decrypt
        }
    }

    /// Length of the message that this side writes.
    pub open spec fn message_len(self) -> nat {
        if self.initiator {
            INIT_LEN as nat
        } else {
            RESPONSE_LEN as nat
        }
    }

    /// This side takes `message` as the other side's next one.
    pub open spec fn accepts(self, message: Seq<u8>) -> bool {
        &&& message.len() <= MAX_MESSAGE
        &&& if self.initiator {
            &&& self.messages.len() == 1
            &&& self.remote matches Some(remote)
            &&& self.ephemeral matches Some(ephemeral)
            &&& ik_response_accepted(
                self.private,
                ephemeral,
                remote,
                self.messages[0],
                message,
            )
        } else {
            &&& self.messages.len() == 0
            &&& ik_init_static(self.private, message) is Some
        }
    }

    /// The state after a message was exchanged.
    pub open spec fn exchanged(self, message: Seq<u8>) -> NoiseHandshake {
        NoiseHandshake { messages: self.messages.push(message), ..self }
    }

    /// The transport keys of this side, once both messages were exchanged.
    pub open spec fn keys(self) -> (Seq<u8>, Seq<u8>) {
        ik_keys(
            self.initiator,
            self.private,
            self.ephemeral->0,
            self.remote->0,
            self.messages[0],
            self.messages[1],
        )
    }
}

/// `HandshakeState::write_message` with an empty payload. It succeeds where it
/// is this side's turn and the message fits. The message is that of a fresh
/// ephemeral key; which key it is, is not said. An opening is taken by every
/// responder whose public key it was written for, and shows it the initiator's
/// key. A response is taken by every initiator that wrote the opening for this
/// responder, and both then compute the same transport keys. A buffer that
/// holds the sealed static key but not its tag makes the call panic and is left
/// out. A failure tells whether it was the turn, the end or the room.
pub assume_specification[ snow::HandshakeState::write_message ](
    state: &mut snow::HandshakeState,
    payload: &[u8],
    message: &mut [u8],
) -> (r: Result<usize, snow::Error>)
    requires
        handshake_state(*old(state)).ik,
        payload@.len() == 0,
        !(64 <= old(message)@.len() < 80),
    ensures
        final(message)@.len() == old(message)@.len(),
        r is Ok <==> handshake_state(*old(state)).writes_next() && old(message)@.len()
            >= handshake_state(*old(state)).message_len(),
        r matches Ok(n) ==> {
            let before = handshake_state(*old(state));
            let after = handshake_state(*final(state));
            let written = final(message)@.take(n as int);
            &&& n == before.message_len()
            &&& final(message)@.skip(n as int) == old(message)@.skip(n as int)
            &&& after == (NoiseHandshake {
                ephemeral: after.ephemeral,
                ..before.exchanged(written)
            })
            &&& after.ephemeral matches Some(own) && own.len() == 32
        },
        r is Ok && handshake_state(*old(state)).initiator ==> {
            let after = handshake_state(*final(state));
            let written = final(message)@.take(INIT_LEN as int);
            &&& written == ik_opening(after.private, after.ephemeral->0, after.remote->0)
            &&& forall|k: Seq<u8>|
                k.len() == 32 && x25519_public(k) == after.remote->0 ==> #[trigger] ik_init_static(
                    k,
                    written,
                ) == Some(after.local())
        },
        r is Ok && !handshake_state(*old(state)).initiator ==> {
            let after = handshake_state(*final(state));
            let opening = after.messages[0];
            let written = final(message)@.take(RESPONSE_LEN as int);
            &&& written == ik_response(after.private, after.ephemeral->0, opening)
            &&& forall|p: Seq<u8>, e: Seq<u8>|
                p.len() == 32 && e.len() == 32 && opening == #[trigger] ik_opening(
                    p,
                    e,
                    after.local(),
                ) ==> {
                    &&& ik_response_accepted(p, e, after.local(), opening, written)
                    &&& ik_keys(true, p, e, after.local(), opening, written) == ik_keys(
                        false,
                        after.private,
                        after.ephemeral->0,
                        after.remote->0,
                        opening,
                        written,
                    )
                }
        },
        r matches Err(e) ==> {
            &&& handshake_state(*final(state)) == handshake_state(*old(state))
            &&& noise_problem(e) == handshake_state(*old(state)).write_problem()
        },
;

/// `HandshakeState::read_message`, with room for any payload. It succeeds
/// exactly on the messages that this side accepts next, which its own private
/// keys, the key of the other side and the messages so far decide. A failure
/// tells whether it was the turn, the end, the length or the decryption. Nothing
/// is said of the payload, nor of the state after a refusal.
pub assume_specification[ snow::HandshakeState::read_message ](
    state: &mut snow::HandshakeState,
    message: &[u8],
    payload: &mut [u8],
) -> (r: Result<usize, snow::Error>)
    requires
        handshake_state(*old(state)).ik,
        old(payload)@.len() >= MAX_MESSAGE,
    ensures
        final(payload)@.len() == old(payload)@.len(),
        r is Ok <==> handshake_state(*old(state)).accepts(message@),
        r is Ok ==> {
            let before = handshake_state(*old(state));
            handshake_state(*final(state)) == (NoiseHandshake {
                remote: if before.initiator {
                    before.remote
                } else {
                    ik_init_static(before.private, message@)
                },
                ..before.exchanged(message@)
            })
        },
        r matches Err(e) ==> noise_problem(e) == handshake_state(*old(state)).read_problem(message@),
;

/// `HandshakeState::into_transport_mode`: possible once both messages were
/// exchanged; the keys are those that this side computes and the nonces start
/// at zero.
pub assume_specification[ snow::HandshakeState::into_transport_mode ](
    state: snow::HandshakeState,
) -> (r: Result<snow::TransportState, snow::Error>)
    requires
        handshake_state(state).ik,
    ensures
        r is Ok <==> handshake_state(state).messages.len() == 2,
        r matches Ok(transport) ==> {
            let done = handshake_state(state);
            let keys = done.keys();
            transport_state(transport) == (NoiseTransport {
                two_way: true,
                send_key: if done.initiator { keys.0 } else { keys.1 },
                recv_key: if done.initiator { keys.1 } else { keys.0 },
                send_nonce: 0,
                recv_nonce: 0,
                remote: done.remote,
            })
        },
;

/// `TransportState::write_message`: seals the payload under the sending key and
/// nonce at the front of `message` and steps the nonce. It fails where the
/// message would be too long, where it does not fit, and at the last nonce.
/// What was sealed opens to the payload again.
pub assume_specification[ snow::TransportState::write_message ](
    state: &mut snow::TransportState,
    payload: &[u8],
    message: &mut [u8],
) -> (r: Result<usize, snow::Error>)
    requires
        transport_state(*old(state)).two_way,
    ensures
        final(message)@.len() == old(message)@.len(),
        r is Ok <==> payload@.len() + TAG_LEN <= MAX_MESSAGE && payload@.len() + TAG_LEN
            <= old(message)@.len() && transport_state(*old(state)).send_nonce < u64::MAX,
        r matches Ok(n) ==> {
            let before = transport_state(*old(state));
            let sealed = noise_seal(before.send_key, before.send_nonce, payload@);
            &&& n == payload@.len() + TAG_LEN
            &&& sealed.len() == n
            &&& final(message)@ == sealed + old(message)@.skip(n as int)
            &&& noise_open(before.send_key, before.send_nonce, sealed) == Some(payload@)
            &&& transport_state(*final(state)) == (NoiseTransport {
                send_nonce: (before.send_nonce + 1) as u64,
                ..before
            })
        },
        r is Err ==> final(message)@ == old(message)@ && transport_state(*final(state)) == transport_state(
            *old(state),
        ),
;

/// `TransportState::set_receiving_nonce`.
pub assume_specification[ snow::TransportState::set_receiving_nonce ](
    state: &mut snow::TransportState,
    nonce: u64,
)
    ensures
        transport_state(*final(state)) == (NoiseTransport {
            recv_nonce: nonce,
            ..transport_state(*old(state))
        }),
;

/// `TransportState::read_message`: opens `payload` under the receiving key and
/// nonce to the front of `message` and steps the nonce. It fails on a message
/// that is too long or shorter than a tag, where the plaintext does not fit, at
/// the last nonce, and where authentication fails; what it leaves in `message`
/// then is not said.
pub assume_specification[ snow::TransportState::read_message ](
    state: &mut snow::TransportState,
    payload: &[u8],
    message: &mut [u8],
) -> (r: Result<usize, snow::Error>)
    requires
        transport_state(*old(state)).two_way,
    ensures
        final(message)@.len() == old(message)@.len(),
        r is Ok <==> {
            let before = transport_state(*old(state));
            &&& TAG_LEN <= payload@.len() <= MAX_MESSAGE
            &&& payload@.len() - TAG_LEN <= old(message)@.len()
            &&& before.recv_nonce < u64::MAX
            &&& noise_open(before.recv_key, before.recv_nonce, payload@) is Some
        },
        r matches Ok(n) ==> {
            let before = transport_state(*old(state));
            let opened = noise_open(before.recv_key, before.recv_nonce, payload@)->0;
            &&& n == payload@.len() - TAG_LEN
            &&& opened.len() == n
            &&& final(message)@ == opened + old(message)@.skip(n as int)
            &&& transport_state(*final(state)) == (NoiseTransport {
                recv_nonce: (before.recv_nonce + 1) as u64,
                ..before
            })
        },
        r is Err ==> transport_state(*final(state)) == transport_state(*old(state)),
;

/// The other side's static key (`TransportState::get_remote_static`), 32 bytes
/// where it is known.
#[verifier::external_body]
pub(crate) fn remote_static(state: &snow::TransportState) -> (r: Option<Vec<u8>>)
    requires
        transport_state(*state).two_way,
    ensures
        r is Some <==> transport_state(*state).remote is Some,
        r matches Some(key) ==> transport_state(*state).remote == Some(key@) && key@.len() == 32,
{
    state.get_remote_static().map(|key| key.to_vec())
}

} // verus!
