//! The two sides of the Noise_IK handshake.

use super::error::CryptoError;
use super::keys;
use super::noise;
use super::noise::{NoiseHandshake, INIT_LEN, MAX_MESSAGE, RESPONSE_LEN};
use super::replay::WindowView;
use super::session;
use super::session::{Session, SessionView};
use crate::wire;
use vstd::prelude::*;

verus! {

/// Type byte of an opening message.
pub const TYPE_INIT: u8 = 1;

/// Type byte of a response.
pub const TYPE_RESPONSE: u8 = 2;

/// Type byte and session index in front of the responder's Noise message.
pub const RESPONSE_HEADER: usize = 5;

/// The opening datagram that carries a Noise message.
pub open spec fn init_datagram(message: Seq<u8>) -> Seq<u8> {
    seq![TYPE_INIT] + message
}

/// The response datagram that carries a session index and a Noise message.
pub open spec fn response_datagram(index: u32, message: Seq<u8>) -> Seq<u8> {
    seq![TYPE_RESPONSE] + wire::u32_le(index) + message
}

/// Session index of a response datagram.
pub open spec fn response_index(datagram: Seq<u8>) -> nat {
    wire::u32_of_le(datagram.skip(1))
}

/// Noise message of a response datagram.
pub open spec fn response_message(datagram: Seq<u8>) -> Seq<u8> {
    datagram.skip(RESPONSE_HEADER as int)
}

/// An initiator before it has written anything.
pub open spec fn new_initiator(private: Seq<u8>, remote: Seq<u8>) -> NoiseHandshake {
    NoiseHandshake {
        ik: true,
        initiator: true,
        private,
        ephemeral: None,
        remote: Some(remote),
        messages: Seq::empty(),
    }
}

/// A responder before it has read anything.
pub open spec fn new_responder(private: Seq<u8>) -> NoiseHandshake {
    NoiseHandshake {
        ik: true,
        initiator: false,
        private,
        ephemeral: None,
        remote: None,
        messages: Seq::empty(),
    }
}

/// The session that a finished handshake establishes.
pub open spec fn established(done: NoiseHandshake, index: u32) -> SessionView {
    let keys = done.keys();
    SessionView {
        index,
        send_key: if done.initiator { keys.0 } else { keys.1 },
        recv_key: if done.initiator { keys.1 } else { keys.0 },
        send_nonce: 0,
        window: WindowView::empty(session::session_window()),
        remote: done.remote,
    }
}

/// The responder after it has taken the Noise message of an opening datagram.
pub open spec fn taken(responder: NoiseHandshake, message: Seq<u8>) -> NoiseHandshake {
    NoiseHandshake {
        remote: noise::ik_init_static(responder.private, message),
        ..responder.exchanged(message)
    }
}

/// Why an initiator refuses a response, if it does.
pub open spec fn response_error(initiator: NoiseHandshake, datagram: Seq<u8>) -> Option<CryptoError> {
    if datagram.len() == 0 || datagram[0] != TYPE_RESPONSE {
        Some(CryptoError::NotResponse)
    } else if datagram.len() < RESPONSE_HEADER {
        Some(CryptoError::ResponseTooShort)
    } else if !initiator.accepts(response_message(datagram)) {
        Some(CryptoError::Noise(initiator.read_problem(response_message(datagram))))
    } else {
        None
    }
}

/// Why a responder refuses an opening datagram, if it does.
pub open spec fn init_error(responder: NoiseHandshake, datagram: Seq<u8>) -> Option<CryptoError> {
    if datagram.len() == 0 || datagram[0] != TYPE_INIT {
        Some(CryptoError::NotInit)
    } else if !responder.accepts(datagram.skip(1)) {
        Some(CryptoError::Noise(responder.read_problem(datagram.skip(1))))
    } else {
        None
    }
}

/// The responder after it has taken an opening message and answered with
/// `response` under the given ephemeral key.
pub open spec fn completed(
    responder: NoiseHandshake,
    opening: Seq<u8>,
    ephemeral: Seq<u8>,
    response: Seq<u8>,
) -> NoiseHandshake {
    NoiseHandshake {
        ephemeral: Some(ephemeral),
        ..taken(responder, opening).exchanged(response)
    }
}

/// Whether `datagram` is the opening datagram that `initiator` has written for
/// the party whose key it knows. Everyone with a private key of that public key
/// takes it and learns the initiator's public key.
pub open spec fn opens_with(initiator: NoiseHandshake, datagram: Seq<u8>) -> bool {
    &&& datagram.len() == 1 + INIT_LEN
    &&& datagram == init_datagram(datagram.skip(1))
    &&& initiator.messages == seq![datagram.skip(1)]
    &&& initiator.ephemeral is Some
    &&& initiator.ephemeral->0.len() == 32
    &&& datagram.skip(1) == noise::ik_opening(
        initiator.private,
        initiator.ephemeral->0,
        initiator.remote->0,
    )
    &&& forall|k: Seq<u8>|
        k.len() == 32 && noise::x25519_public(k) == initiator.remote->0
            ==> #[trigger] noise::ik_init_static(k, datagram.skip(1)) == Some(initiator.local())
}

/// Whether `initiator` is the client with the given private key after it has
/// opened a handshake with `datagram` to the server that owns `remote`.
pub open spec fn opened(
    private: Seq<u8>,
    remote: Seq<u8>,
    initiator: NoiseHandshake,
    datagram: Seq<u8>,
) -> bool {
    &&& initiator == (NoiseHandshake {
        ephemeral: initiator.ephemeral,
        ..new_initiator(private, remote).exchanged(datagram.skip(1))
    })
    &&& opens_with(initiator, datagram)
}

/// Whether `datagram` is the response under `index` of a responder that has
/// completed the handshake. Every initiator that wrote the opening message for
/// it takes the response and computes the same keys.
pub open spec fn responds_with(done: NoiseHandshake, index: u32, datagram: Seq<u8>) -> bool {
    let response = response_message(datagram);
    &&& datagram.len() == RESPONSE_HEADER + RESPONSE_LEN
    &&& datagram == response_datagram(index, response)
    &&& done.ephemeral is Some
    &&& done.ephemeral->0.len() == 32
    &&& response == noise::ik_response(done.private, done.ephemeral->0, done.messages[0])
    &&& forall|p: Seq<u8>, e: Seq<u8>|
        p.len() == 32 && e.len() == 32 && done.messages[0] == #[trigger] noise::ik_opening(
            p,
            e,
            done.local(),
        ) ==> {
            &&& noise::ik_response_accepted(p, e, done.local(), done.messages[0], response)
            &&& noise::ik_keys(true, p, e, done.local(), done.messages[0], response)
                == done.keys()
        }
}

/// Whether `session` is the one under `index` that `responder` enters, with
/// some ephemeral key, when it answers an opening datagram with `response`.
pub open spec fn grants(
    responder: NoiseHandshake,
    opening: Seq<u8>,
    index: u32,
    response: Seq<u8>,
    session: SessionView,
) -> bool {
    exists|e: Seq<u8>|
        {
            let done = #[trigger] completed(
                responder,
                opening.skip(1),
                e,
                response_message(response),
            );
            &&& responds_with(done, index, response)
            &&& session == established(done, index)
        }
}

/// The client's side of a handshake.
pub struct HandshakeInitiator {
    state: snow::HandshakeState,
}

impl View for HandshakeInitiator {
    type V = NoiseHandshake;

    closed spec fn view(&self) -> NoiseHandshake {
        noise::handshake_state(self.state)
    }
}

impl HandshakeInitiator {
    /// An initiator of the protocol that knows whom it talks to.
    pub open spec fn wf(self) -> bool {
        self@.ik && self@.initiator && self@.remote is Some
    }

    /// Starts a handshake with the server that owns `server_public`.
    pub fn new(private: &[u8; 32], server_public: &[u8; 32]) -> (r: Result<Self, CryptoError>)
        ensures
            r is Ok,
            r matches Ok(init) ==> init.wf() && init@ == new_initiator(private@, server_public@),
    {
        match noise::build_initiator(keys::params(), private, server_public) {
            Ok(state) => Ok(HandshakeInitiator { state }),
            Err(e) => Err(CryptoError::Noise(noise::problem(&e))),
        }
    }

    /// Writes the opening datagram to the front of `out` and returns its
    /// length. Buffers in which the sealed key fits but not its tag are left
    /// out.
    pub fn write_init(&mut self, out: &mut [u8]) -> (r: Result<usize, CryptoError>)
        requires
            old(self).wf(),
            !(65 <= old(out)@.len() < 81),
        ensures
            final(self).wf(),
            final(out)@.len() == old(out)@.len(),
            if old(out)@.len() == 0 {
                r == Err::<usize, CryptoError>(CryptoError::EmptyBuffer) && final(self)@ == old(self)@
            } else if old(self)@.messages.len() != 0 || old(out)@.len() < 1 + INIT_LEN {
                r == Err::<usize, CryptoError>(CryptoError::Noise(old(self)@.write_problem()))
                    && final(self)@ == old(self)@
            } else {
                let datagram = final(out)@.take(1 + INIT_LEN);
                &&& r == Ok::<usize, CryptoError>((1 + INIT_LEN) as usize)
                &&& opens_with(final(self)@, datagram)
                &&& final(out)@.skip(1 + INIT_LEN) == old(out)@.skip(1 + INIT_LEN)
                &&& final(self)@ == (NoiseHandshake {
                    ephemeral: final(self)@.ephemeral,
                    ..old(self)@.exchanged(datagram.skip(1))
                })
            },
    {
        if out.len() == 0 {
            return Err(CryptoError::EmptyBuffer);
        }
        let ghost out0 = out@;
        let (kind, body) = out.split_at_mut(1);
        kind[0] = TYPE_INIT;
        let empty: [u8; 0] = [];
        match self.state.write_message(&empty, body) {
            Ok(n) => {
                proof {
                    let datagram = out@.take(1 + INIT_LEN);
                    assert(out@.skip(1) =~= body@);
                    assert(datagram.skip(1) =~= body@.take(n as int));
                    assert(datagram =~= init_datagram(datagram.skip(1)));
                    assert(out@.skip(1 + INIT_LEN) =~= body@.skip(n as int));
                    assert(out0.skip(1 + INIT_LEN) =~= out0.skip(1).skip(n as int));
                    assert(self@.messages =~= seq![datagram.skip(1)]);
                }
                Ok(1 + n)
            },
            Err(e) => Err(CryptoError::Noise(noise::problem(&e))),
        }
    }

    /// Takes the response and enters transport mode.
    pub fn finish(self, msg: &[u8]) -> (r: Result<Session, CryptoError>)
        requires
            self.wf(),
        ensures
            match response_error(self@, msg@) {
                Some(e) => r == Err::<Session, CryptoError>(e),
                None => {
                    &&& r matches Ok(session)
                    &&& session.wf()
                    &&& session.index == response_index(msg@)
                    &&& session@ == established(
                        self@.exchanged(response_message(msg@)),
                        response_index(msg@) as u32,
                    )
                },
            },
    {
        if msg.len() == 0 || msg[0] != TYPE_RESPONSE {
            return Err(CryptoError::NotResponse);
        }
        if msg.len() < RESPONSE_HEADER {
            return Err(CryptoError::ResponseTooShort);
        }
        let (_, rest) = msg.split_at(1);
        let index: u32 = wire::get_u32(rest);
        let (_, message) = msg.split_at(RESPONSE_HEADER);
        proof {
            assert(rest@ =~= msg@.skip(1));
            assert(message@ =~= response_message(msg@));
        }
        let mut state = self.state;
        let mut payload: Vec<u8> = vec![0u8; MAX_MESSAGE];
        if let Err(e) = state.read_message(message, &mut payload) {
            return Err(CryptoError::Noise(noise::problem(&e)));
        }
        match state.into_transport_mode() {
            Ok(transport) => Ok(Session::from_transport(index, transport)),
            Err(e) => Err(CryptoError::Noise(noise::problem(&e))),
        }
    }
}

/// The server's side of a handshake.
pub struct HandshakeResponder {
    state: snow::HandshakeState,
}

impl View for HandshakeResponder {
    type V = NoiseHandshake;

    closed spec fn view(&self) -> NoiseHandshake {
        noise::handshake_state(self.state)
    }
}

impl HandshakeResponder {
    /// A responder of the protocol that has read nothing yet.
    pub open spec fn wf(self) -> bool {
        self@.ik && !self@.initiator && self@.messages.len() == 0
    }

    /// Waits for an opening message.
    pub fn new(private: &[u8; 32]) -> (r: Result<Self, CryptoError>)
        ensures
            r is Ok,
            r matches Ok(resp) ==> resp.wf() && resp@ == new_responder(private@),
    {
        match noise::build_responder(keys::params(), private) {
            Ok(state) => Ok(HandshakeResponder { state }),
            Err(e) => Err(CryptoError::Noise(noise::problem(&e))),
        }
    }

    /// Takes an opening datagram, produces the response that hands out `index`,
    /// and enters transport mode.
    pub fn finish(self, msg: &[u8], index: u32) -> (r: Result<(Session, Vec<u8>), CryptoError>)
        requires
            self.wf(),
        ensures
            match init_error(self@, msg@) {
                Some(e) => r == Err::<(Session, Vec<u8>), CryptoError>(e),
                None => {
                    &&& r matches Ok((session, response))
                    &&& session.wf()
                    &&& session.index == index
                    &&& grants(self@, msg@, index, response@, session@)
                },
            },
    {
        if msg.len() == 0 || msg[0] != TYPE_INIT {
            return Err(CryptoError::NotInit);
        }
        let (_, message) = msg.split_at(1);
        assert(message@ =~= msg@.skip(1));
        let mut state = self.state;
        let mut payload: Vec<u8> = vec![0u8; MAX_MESSAGE];
        if let Err(e) = state.read_message(message, &mut payload) {
            return Err(CryptoError::Noise(noise::problem(&e)));
        }
        let mut body: Vec<u8> = vec![0u8; 128];
        let empty: [u8; 0] = [];
        match state.write_message(&empty, &mut body) {
            Ok(n) => {
                let mut response: Vec<u8> = vec![0u8; RESPONSE_HEADER];
                response[0] = TYPE_RESPONSE;
                let (_, field) = response.as_mut_slice().split_at_mut(1);
                wire::put_u32(field, index);
                body.truncate(n);
                let ghost head = response@;
                let ghost sealed = body@;
                response.append(&mut body);
                proof {
                    assert(head =~= seq![TYPE_RESPONSE] + wire::u32_le(index));
                    assert(response_message(response@) =~= sealed);
                }
                let ghost done = noise::handshake_state(state);
                proof {
                    let opening = msg@.skip(1);
                    assert(done.messages =~= seq![opening, sealed]);
                    assert(done =~= completed(self@, opening, done.ephemeral->0, sealed));
                }
                match state.into_transport_mode() {
                    Ok(transport) => Ok((Session::from_transport(index, transport), response)),
                    Err(e) => Err(CryptoError::Noise(noise::problem(&e))),
                }
            },
            Err(e) => Err(CryptoError::Noise(noise::problem(&e))),
        }
    }
}

/// A handshake between a client and the server whose key it knows succeeds, and
/// both ends come out paired: the server accepts the opening datagram and
/// learns the client's key, the client accepts the response, and the two
/// sessions share their index and, crosswise, their keys. Both start at nonce
/// zero with nothing received.
pub proof fn law_handshake_pairs_sessions(
    client_private: Seq<u8>,
    server_private: Seq<u8>,
    initiator: NoiseHandshake,
    opening: Seq<u8>,
    index: u32,
    response: Seq<u8>,
    server: SessionView,
)
    requires
        client_private.len() == 32,
        server_private.len() == 32,
        opened(client_private, noise::x25519_public(server_private), initiator, opening),
        grants(new_responder(server_private), opening, index, response, server),
    ensures
        init_error(new_responder(server_private), opening) is None,
        response_error(initiator, response) is None,
        ({
            let client = established(
                initiator.exchanged(response_message(response)),
                response_index(response) as u32,
            );
            &&& client.paired(server)
            &&& server.paired(client)
            &&& server.remote == Some(noise::x25519_public(client_private))
            &&& client.remote == Some(noise::x25519_public(server_private))
            &&& client.send_nonce == 0 && server.send_nonce == 0
            &&& client.window == WindowView::empty(session::session_window())
            &&& server.window == WindowView::empty(session::session_window())
        }),
{
    let m1 = opening.skip(1);
    let m2 = response_message(response);
    let responder = new_responder(server_private);
    let e = choose|e: Seq<u8>|
        {
            let done = #[trigger] completed(responder, m1, e, m2);
            &&& responds_with(done, index, response)
            &&& server == established(done, index)
        };
    let done = completed(responder, m1, e, m2);
    wire::law_u32_le_roundtrip(index);
    assert(response.skip(1).take(4) =~= wire::u32_le(index));
    assert(initiator.exchanged(m2).messages =~= seq![m1, m2]);
    assert(done.messages =~= seq![m1, m2]);
    assert(noise::ik_init_static(server_private, m1) == Some(initiator.local()));
    assert(done.messages[0] == noise::ik_opening(
        initiator.private,
        initiator.ephemeral->0,
        done.local(),
    ));
}

/// How handshake datagrams look: an opening is the byte one and the Noise
/// message, a response the byte two, four bytes of session index and the Noise
/// message; both are read as they are written.
pub proof fn law_handshake_layout(index: u32, message: Seq<u8>)
    ensures
        init_datagram(message).len() == 1 + message.len(),
        init_datagram(message)[0] == 1,
        init_datagram(message).skip(1) == message,
        response_datagram(index, message).len() == 5 + message.len(),
        response_datagram(index, message)[0] == 2,
        response_datagram(index, message).subrange(1, 5) == wire::u32_le(index),
        response_datagram(index, message).skip(5) == message,
        response_index(response_datagram(index, message)) == index,
        response_message(response_datagram(index, message)) == message,
{
    let datagram = response_datagram(index, message);
    wire::law_u32_le_roundtrip(index);
    assert(init_datagram(message).skip(1) =~= message);
    assert(datagram.subrange(1, 5) =~= wire::u32_le(index));
    assert(datagram.skip(5) =~= message);
    assert(datagram.skip(1).take(4) =~= wire::u32_le(index));
}

/// What a responder takes: a datagram that starts with the byte one and carries
/// a Noise message that shows it a static key; any other is refused.
pub proof fn law_openings_are_taken(private: Seq<u8>, datagram: Seq<u8>)
    ensures
        init_error(new_responder(private), datagram) is None <==> {
            &&& 1 <= datagram.len() <= 1 + 65535
            &&& datagram[0] == 1
            &&& noise::ik_init_static(private, datagram.skip(1)) is Some
        },
        datagram.len() == 0 || datagram[0] != 1 ==> init_error(new_responder(private), datagram)
            == Some(CryptoError::NotInit),
        taken(new_responder(private), datagram.skip(1)).remote == noise::ik_init_static(
            private,
            datagram.skip(1),
        ),
{
}

/// What an initiator that has sent its opening takes: a datagram that starts
/// with the byte two and carries a session index and the Noise message that
/// answers it; any other is refused.
pub proof fn law_responses_are_taken(
    private: Seq<u8>,
    remote: Seq<u8>,
    initiator: NoiseHandshake,
    opening: Seq<u8>,
    datagram: Seq<u8>,
)
    requires
        opened(private, remote, initiator, opening),
    ensures
        response_error(initiator, datagram) is None <==> {
            &&& 5 <= datagram.len() <= 5 + 65535
            &&& datagram[0] == 2
            &&& noise::ik_response_accepted(
                private,
                initiator.ephemeral->0,
                remote,
                opening.skip(1),
                datagram.skip(5),
            )
        },
        datagram.len() == 0 || datagram[0] != 2 ==> response_error(initiator, datagram) == Some(
            CryptoError::NotResponse,
        ),
        1 <= datagram.len() < 5 && datagram[0] == 2 ==> response_error(initiator, datagram) == Some(
            CryptoError::ResponseTooShort,
        ),
{
}

} // verus!
