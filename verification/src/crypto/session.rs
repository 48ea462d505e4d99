//! Established sessions.

use super::error::CryptoError;
use super::noise;
use super::noise::{MAX_MESSAGE, TAG_LEN};
use super::replay::{ReplayWindow, WindowView};
use crate::wire;
use vstd::prelude::*;

verus! {

/// Longest plaintext: one Noise message less its tag.
pub const MAX_PAYLOAD: usize = 65519;

/// Session index and nonce in front of every ciphertext.
pub const HEADER_LEN: usize = 12;

/// Words of the replay window of a session: 1024 nonces.
pub const SESSION_WINDOW_WORDS: u16 = 16;

/// Nonces that a session looks back over.
pub open spec fn session_window() -> nat {
    64 * SESSION_WINDOW_WORDS as nat
}

/// What a session holds.
#[verifier::ext_equal]
pub struct SessionView {
    pub index: u32,
    pub send_key: Seq<u8>,
    pub recv_key: Seq<u8>,
    /// Nonce of the next packet.
    pub send_nonce: u64,
    /// Nonces received.
    pub window: WindowView,
    /// Static public key of the other side.
    pub remote: Option<Seq<u8>>,
}

/// The packet that carries `sealed`.
pub open spec fn data_packet(index: u32, nonce: u64, sealed: Seq<u8>) -> Seq<u8> {
    wire::u32_le(index) + wire::u64_le(nonce) + sealed
}

/// Session index of a data packet.
pub open spec fn packet_index(packet: Seq<u8>) -> nat {
    wire::u32_of_le(packet)
}

/// Nonce of a data packet.
pub open spec fn packet_nonce(packet: Seq<u8>) -> nat {
    wire::u64_of_le(packet.skip(4))
}

/// Ciphertext of a data packet.
pub open spec fn packet_sealed(packet: Seq<u8>) -> Seq<u8> {
    packet.skip(HEADER_LEN as int)
}

/// A data packet carries its index, nonce and ciphertext.
pub proof fn law_packet_fields(index: u32, nonce: u64, sealed: Seq<u8>)
    ensures
        data_packet(index, nonce, sealed).len() == HEADER_LEN + sealed.len(),
        packet_index(data_packet(index, nonce, sealed)) == index,
        packet_nonce(data_packet(index, nonce, sealed)) == nonce,
        packet_sealed(data_packet(index, nonce, sealed)) == sealed,
{
    let p = data_packet(index, nonce, sealed);
    wire::law_u32_le_roundtrip(index);
    wire::law_u64_le_roundtrip(nonce);
    assert(p.skip(4).take(8) =~= wire::u64_le(nonce));
    assert(p.skip(4).skip(4).take(4) =~= wire::u64_le(nonce).skip(4));
    assert(p.skip(12) =~= sealed);
}

impl SessionView {
    /// Why `plaintext` cannot be sent with `room` bytes of output, if it cannot.
    pub open spec fn send_error(self, plaintext: Seq<u8>, room: nat) -> Option<CryptoError> {
        if plaintext.len() > MAX_PAYLOAD {
            Some(CryptoError::PayloadTooLarge(plaintext.len() as usize))
        } else if room < HEADER_LEN + plaintext.len() + TAG_LEN {
            Some(CryptoError::OutputTooSmall)
        } else if self.send_nonce == u64::MAX {
            Some(CryptoError::NoiseEncrypt)
        } else {
            None
        }
    }

    /// The packet that carries `plaintext`.
    pub open spec fn packet(self, plaintext: Seq<u8>) -> Seq<u8> {
        data_packet(
            self.index,
            self.send_nonce,
            noise::noise_seal(self.send_key, self.send_nonce, plaintext),
        )
    }

    /// `packet` was written for `plaintext` and opens to it again.
    pub open spec fn wrote(self, plaintext: Seq<u8>, packet: Seq<u8>) -> bool {
        &&& packet == self.packet(plaintext)
        &&& packet.len() == HEADER_LEN + plaintext.len() + TAG_LEN
        &&& noise::noise_open(self.send_key, self.send_nonce, packet_sealed(packet)) == Some(
            plaintext,
        )
    }

    /// The session after one packet was sent.
    pub open spec fn sent(self) -> SessionView {
        SessionView { send_nonce: (self.send_nonce + 1) as u64, ..self }
    }

    /// Why `packet` is refused before it is opened, if it is.
    pub open spec fn refuses(self, packet: Seq<u8>) -> Option<CryptoError> {
        if packet.len() < HEADER_LEN + TAG_LEN {
            Some(CryptoError::PacketTooShort)
        } else if packet_index(packet) != self.index {
            Some(CryptoError::IndexMismatch)
        } else if !self.window.fresh(packet_nonce(packet)) {
            Some(CryptoError::Replayed(packet_nonce(packet) as u64))
        } else {
            None
        }
    }

    /// The plaintext of `packet`, where it opens.
    pub open spec fn opens(self, packet: Seq<u8>) -> Option<Seq<u8>> {
        if packet_nonce(packet) < u64::MAX && packet_sealed(packet).len() <= MAX_MESSAGE {
            noise::noise_open(self.recv_key, packet_nonce(packet) as u64, packet_sealed(packet))
        } else {
            None
        }
    }

    /// The plaintext that `packet` delivers into `room` bytes, or why it
    /// delivers none.
    pub open spec fn delivers(self, packet: Seq<u8>, room: nat) -> Result<Seq<u8>, CryptoError> {
        match self.refuses(packet) {
            Some(e) => Err(e),
            None => match self.opens(packet) {
                Some(plaintext) => if packet.len() - HEADER_LEN - TAG_LEN <= room {
                    Ok(plaintext)
                } else {
                    Err(CryptoError::NoiseDecrypt)
                },
                None => Err(CryptoError::NoiseDecrypt),
            },
        }
    }

    /// The session after `packet` was offered to it: a packet that was not
    /// refused has used up its nonce.
    pub open spec fn offered(self, packet: Seq<u8>) -> SessionView {
        if self.refuses(packet) is Some {
            self
        } else {
            SessionView { window: self.window.record(packet_nonce(packet)), ..self }
        }
    }

    /// `self` and `other` are the two ends of one session.
    pub open spec fn paired(self, other: SessionView) -> bool {
        &&& self.index == other.index
        &&& self.send_key == other.recv_key
        &&& self.recv_key == other.send_key
    }
}

/// The keys and counters of a session.
pub struct Channel {
    transport: snow::TransportState,
    /// Local sending counter; kept in lockstep with the transport.
    send_nonce: u64,
    replay: ReplayWindow,
}

/// What a channel holds.
#[verifier::ext_equal]
pub struct ChannelView {
    pub send_key: Seq<u8>,
    pub recv_key: Seq<u8>,
    /// Nonce of the next packet.
    pub send_nonce: u64,
    /// Nonces received.
    pub window: WindowView,
    /// Static public key of the other side.
    pub remote: Option<Seq<u8>>,
}

impl View for Channel {
    type V = ChannelView;

    closed spec fn view(&self) -> ChannelView {
        let t = noise::transport_state(self.transport);
        ChannelView {
            send_key: t.send_key,
            recv_key: t.recv_key,
            send_nonce: self.send_nonce,
            window: self.replay@,
            remote: t.remote,
        }
    }
}

impl Channel {
    /// The transport works both ways and counts as the channel does.
    pub closed spec fn wf(self) -> bool {
        &&& noise::transport_state(self.transport).two_way
        &&& noise::transport_state(self.transport).send_nonce == self.send_nonce
        &&& self.replay@.wf()
    }
}

/// One end of an established tunnel.
pub struct Session {
    pub index: u32,
    pub channel: Channel,
}

impl View for Session {
    type V = SessionView;

    open spec fn view(&self) -> SessionView {
        SessionView {
            index: self.index,
            send_key: self.channel@.send_key,
            recv_key: self.channel@.recv_key,
            send_nonce: self.channel@.send_nonce,
            window: self.channel@.window,
            remote: self.channel@.remote,
        }
    }
}

impl Session {
    /// The channel is in working order.
    pub open spec fn wf(self) -> bool {
        self.channel.wf()
    }

    /// The index that data packets of this session carry.
    pub fn index(&self) -> (index: u32)
        ensures
            index == self@.index,
            index == self.index,
    {
        self.index
    }

    pub(crate) fn from_transport(index: u32, transport: snow::TransportState) -> (s: Self)
        requires
            noise::transport_state(transport).two_way,
            noise::transport_state(transport).send_nonce == 0,
        ensures
            s.wf(),
            s.index == index,
            s@ == (SessionView {
                index,
                send_key: noise::transport_state(transport).send_key,
                recv_key: noise::transport_state(transport).recv_key,
                send_nonce: 0,
                window: WindowView::empty(session_window()),
                remote: noise::transport_state(transport).remote,
            }),
    {
        let channel = Channel {
            transport,
            send_nonce: 0,
            replay: ReplayWindow::with_words(SESSION_WINDOW_WORDS),
        };
        Session { index, channel }
    }

    /// Seals `plaintext` into a data packet at the front of `out` and returns
    /// its length.
    pub fn encrypt(&mut self, plaintext: &[u8], out: &mut [u8]) -> (r: Result<usize, CryptoError>)
        requires
            old(self).wf(),
        ensures
            final(self).wf(),
            final(self).index == old(self).index,
            final(out)@.len() == old(out)@.len(),
            match old(self)@.send_error(plaintext@, old(out)@.len()) {
                None => {
                    let packet = old(self)@.packet(plaintext@);
                    &&& r == Ok::<usize, CryptoError>(packet.len() as usize)
                    &&& old(self)@.wrote(plaintext@, packet)
                    &&& final(out)@ == packet + old(out)@.skip(packet.len() as int)
                    &&& final(self)@ == old(self)@.sent()
                },
                Some(e) => {
                    &&& r == Err::<usize, CryptoError>(e)
                    &&& final(self)@ == old(self)@
                    &&& e != CryptoError::NoiseEncrypt ==> final(out)@ == old(out)@
                },
            },
    {
        if plaintext.len() > MAX_PAYLOAD {
            return Err(CryptoError::PayloadTooLarge(plaintext.len()));
        }
        if out.len() < HEADER_LEN + plaintext.len() + TAG_LEN {
            return Err(CryptoError::OutputTooSmall);
        }
        let ghost out0 = out@;
        let ghost before = *self;
        let nonce: u64 = self.channel.send_nonce;
        let (head, tail) = out.split_at_mut(HEADER_LEN);
        let (head_index, head_nonce) = head.split_at_mut(4);
        wire::put_u32(head_index, self.index);
        wire::put_u64(head_nonce, nonce);
        match self.channel.transport.write_message(plaintext, tail) {
            Ok(n) => {
                self.channel.send_nonce = self.channel.send_nonce.wrapping_add(1);
                proof {
                    let sealed = noise::noise_seal(before@.send_key, nonce, plaintext@);
                    law_packet_fields(self.index, nonce, sealed);
                    wire::law_u32_le_roundtrip(self.index);
                    wire::law_u64_le_roundtrip(nonce);
                    assert(out@ =~= before@.packet(plaintext@) + out0.skip((HEADER_LEN + n) as int));
                }
                Ok(HEADER_LEN + n)
            },
            Err(_) => Err(CryptoError::NoiseEncrypt),
        }
    }

    /// Opens a data packet to the front of `out` and returns the length of the
    /// plaintext. The nonce counts as used once the packet is past the replay
    /// window.
    pub fn decrypt(&mut self, packet: &[u8], out: &mut [u8]) -> (r: Result<usize, CryptoError>)
        requires
            old(self).wf(),
        ensures
            final(self).wf(),
            final(self).index == old(self).index,
            final(self)@ == old(self)@.offered(packet@),
            final(out)@.len() == old(out)@.len(),
            match old(self)@.delivers(packet@, old(out)@.len()) {
                Ok(plaintext) => {
                    &&& r == Ok::<usize, CryptoError>(plaintext.len() as usize)
                    &&& plaintext.len() == packet@.len() - HEADER_LEN - TAG_LEN
                    &&& final(out)@ == plaintext + old(out)@.skip(plaintext.len() as int)
                },
                Err(e) => r == Err::<usize, CryptoError>(e) && (e
                    != CryptoError::NoiseDecrypt ==> final(out)@ == old(out)@),
            },
    {
        if packet.len() < HEADER_LEN + TAG_LEN {
            return Err(CryptoError::PacketTooShort);
        }
        let index: u32 = wire::get_u32(packet);
        if index != self.index {
            return Err(CryptoError::IndexMismatch);
        }
        let (head, sealed) = packet.split_at(HEADER_LEN);
        let (_, head_nonce) = head.split_at(4);
        let nonce: u64 = wire::get_u64(head_nonce);
        proof {
            assert(sealed@ =~= packet_sealed(packet@));
            assert(head_nonce@.take(4) =~= packet@.skip(4).take(4));
            assert(head_nonce@.skip(4).take(4) =~= packet@.skip(4).skip(4).take(4));
            assert(nonce == packet_nonce(packet@));
        }
        if !self.channel.replay.check_and_update(nonce) {
            return Err(CryptoError::Replayed(nonce));
        }
        self.channel.transport.set_receiving_nonce(nonce);
        match self.channel.transport.read_message(sealed, out) {
            Ok(n) => Ok(n),
            Err(_) => Err(CryptoError::NoiseDecrypt),
        }
    }

    /// Remote static public key (available after the handshake).
    pub fn remote_static(&self) -> (r: Option<[u8; 32]>)
        requires
            self.wf(),
        ensures
            match r {
                Some(key) => self@.remote == Some(key@),
                None => self@.remote is None,
            },
    {
        match noise::remote_static(&self.channel.transport) {
            Some(key) => Some(super::keys::key_array(&key)),
            None => None,
        }
    }
}

/// What one end of a session sends, the other end receives: a packet that
/// `sender` wrote delivers its plaintext at the paired `receiver`, as long as
/// its nonce is fresh there and the plaintext fits.
pub proof fn law_sent_packet_is_delivered(
    sender: SessionView,
    receiver: SessionView,
    plaintext: Seq<u8>,
    packet: Seq<u8>,
    room: nat,
)
    requires
        sender.paired(receiver),
        sender.send_error(plaintext, packet.len()) is None,
        sender.wrote(plaintext, packet),
        receiver.window.fresh(sender.send_nonce as nat),
        room >= plaintext.len(),
    ensures
        receiver.delivers(packet, room) == Ok::<Seq<u8>, CryptoError>(plaintext),
{
    law_packet_fields(
        sender.index,
        sender.send_nonce,
        noise::noise_seal(sender.send_key, sender.send_nonce, plaintext),
    );
}

/// The session after `n` packets were sent.
pub open spec fn sent_times(session: SessionView, n: nat) -> SessionView
    decreases n,
{
    if n == 0 {
        session
    } else {
        sent_times(session, (n - 1) as nat).sent()
    }
}

/// No two packets of a session are sealed under one nonce: nonces count up, and
/// nothing is sealed at the last one.
pub proof fn law_nonces_are_never_reused(session: SessionView, i: nat, j: nat)
    requires
        i < j,
        session.send_nonce + j <= u64::MAX,
    ensures
        sent_times(session, i).send_nonce == session.send_nonce + i,
        sent_times(session, i).send_nonce != sent_times(session, j).send_nonce,
        sent_times(session, i).send_key == sent_times(session, j).send_key,
        forall|plaintext: Seq<u8>, room: nat|
            sent_times(session, j).send_nonce == u64::MAX ==> #[trigger] sent_times(
                session,
                j,
            ).send_error(plaintext, room) is Some,
{
    lemma_sent_times(session, i);
    lemma_sent_times(session, j);
}

proof fn lemma_sent_times(session: SessionView, n: nat)
    requires
        session.send_nonce + n <= u64::MAX,
    ensures
        sent_times(session, n) == (SessionView {
            send_nonce: (session.send_nonce + n) as u64,
            ..session
        }),
    decreases n,
{
    if n > 0 {
        lemma_sent_times(session, (n - 1) as nat);
    }
}

/// A packet of another session is refused.
pub proof fn law_foreign_packet_is_refused(
    receiver: SessionView,
    index: u32,
    nonce: u64,
    sealed: Seq<u8>,
)
    requires
        index != receiver.index,
        sealed.len() >= TAG_LEN,
    ensures
        receiver.refuses(data_packet(index, nonce, sealed)) == Some(CryptoError::IndexMismatch),
        receiver.offered(data_packet(index, nonce, sealed)) == receiver,
{
    law_packet_fields(index, nonce, sealed);
}

/// A packet is delivered at most once: after it was offered, whatever was
/// offered in between, it is refused.
pub proof fn law_packet_delivered_once(receiver: SessionView, packet: Seq<u8>, between: Seq<Seq<u8>>)
    requires
        receiver.window.wf(),
        receiver.refuses(packet) is None,
    ensures
        offered_all(receiver.offered(packet), between).refuses(packet) == Some(
            CryptoError::Replayed(packet_nonce(packet) as u64),
        ),
    decreases between.len(),
{
    lemma_offered_window(receiver.offered(packet), between);
    super::replay::law_recorded_stays_refused(
        receiver.window,
        packet_nonce(packet),
        passed_nonces(receiver.offered(packet), between),
    );
}

/// The session after packets were offered to it in turn.
pub open spec fn offered_all(session: SessionView, packets: Seq<Seq<u8>>) -> SessionView
    decreases packets.len(),
{
    if packets.len() == 0 {
        session
    } else {
        offered_all(session, packets.drop_last()).offered(packets.last())
    }
}

/// The nonces of the packets that reach the replay window.
spec fn passed_nonces(session: SessionView, packets: Seq<Seq<u8>>) -> Seq<nat>
    decreases packets.len(),
{
    if packets.len() == 0 {
        Seq::empty()
    } else {
        let front = passed_nonces(session, packets.drop_last());
        if offered_all(session, packets.drop_last()).refuses(packets.last()) is None {
            front.push(packet_nonce(packets.last()))
        } else {
            front
        }
    }
}

proof fn lemma_offered_window(session: SessionView, packets: Seq<Seq<u8>>)
    ensures
        offered_all(session, packets).window == super::replay::offer_all(
            session.window,
            passed_nonces(session, packets),
        ),
        offered_all(session, packets).index == session.index,
    decreases packets.len(),
{
    if packets.len() > 0 {
        lemma_offered_window(session, packets.drop_last());
        let front = passed_nonces(session, packets.drop_last());
        let n = packet_nonce(packets.last());
        assert(front.push(n).drop_last() =~= front);
    }
}

/// A session can send whenever it should: what keeps a packet from being sealed
/// is its length, the room for it, or that all nonces are used up.
pub proof fn law_session_can_send(session: SessionView, plaintext: Seq<u8>, room: nat)
    ensures
        session.send_error(plaintext, room) is None <==> plaintext.len() <= 65519 && room >= 12
            + plaintext.len() + 16 && session.send_nonce < u64::MAX,
        plaintext.len() > 65519 ==> session.send_error(plaintext, room) == Some(
            CryptoError::PayloadTooLarge(plaintext.len() as usize),
        ),
        plaintext.len() <= 65519 && room < 28 + plaintext.len() ==> session.send_error(
            plaintext,
            room,
        ) == Some(CryptoError::OutputTooSmall),
        plaintext.len() <= 65519 && room >= 28 + plaintext.len() && session.send_nonce == u64::MAX
            ==> session.send_error(plaintext, room) == Some(CryptoError::NoiseEncrypt),
{
}

/// Sending goes on for as long as there are nonces: however many packets were
/// sent, the next one is sealed, under the next nonce.
pub proof fn law_sending_goes_on(session: SessionView, n: nat, plaintext: Seq<u8>, room: nat)
    requires
        session.send_nonce + n < u64::MAX,
        plaintext.len() <= 65519,
        room >= 12 + plaintext.len() + 16,
    ensures
        sent_times(session, n).send_error(plaintext, room) is None,
        sent_times(session, n).send_nonce == session.send_nonce + n,
        sent_times(session, n).index == session.index,
        sent_times(session, n).send_key == session.send_key,
        sent_times(session, n).recv_key == session.recv_key,
        sent_times(session, n).window == session.window,
        sent_times(session, n).remote == session.remote,
{
    lemma_sent_times(session, n);
}

/// Where the parts of a data packet stand: four bytes of index, eight of nonce,
/// then the ciphertext, sealed under the session's key and nonce.
pub proof fn law_packet_layout(session: SessionView, plaintext: Seq<u8>)
    ensures
        ({
            let packet = session.packet(plaintext);
            let sealed = noise::noise_seal(session.send_key, session.send_nonce, plaintext);
            &&& packet.len() == 12 + sealed.len()
            &&& packet.take(4) == wire::u32_le(session.index)
            &&& packet.subrange(4, 12) == wire::u64_le(session.send_nonce)
            &&& packet.skip(12) == sealed
        }),
{
    let packet = session.packet(plaintext);
    let sealed = noise::noise_seal(session.send_key, session.send_nonce, plaintext);
    law_packet_fields(session.index, session.send_nonce, sealed);
    assert(packet.take(4) =~= wire::u32_le(session.index));
    assert(packet.subrange(4, 12) =~= wire::u64_le(session.send_nonce));
    assert(packet.skip(12) =~= sealed);
}

/// Where the fields of a packet are read: the index in its first four bytes, the
/// nonce in the next eight.
proof fn lemma_packet_reads(packet: Seq<u8>)
    requires
        packet.len() >= 12,
    ensures
        packet_index(packet) == wire::u32_of_le(packet.take(4)),
        packet_nonce(packet) == wire::u64_of_le(packet.subrange(4, 12)),
        packet_sealed(packet) == packet.skip(12),
{
    let nonce = packet.subrange(4, 12);
    let rest = packet.skip(4);
    assert(rest[0] == nonce[0] && rest[1] == nonce[1] && rest[2] == nonce[2] && rest[3] == nonce[3]);
    assert(rest.skip(4)[0] == nonce.skip(4)[0] && rest.skip(4)[1] == nonce.skip(4)[1]
        && rest.skip(4)[2] == nonce.skip(4)[2] && rest.skip(4)[3] == nonce.skip(4)[3]);
}

/// What a session accepts: a packet with its index, a fresh nonce that is not
/// the last, and a ciphertext of the other end, if the plaintext fits; nothing
/// else is refused, and nothing else is accepted.
pub proof fn law_genuine_packets_are_accepted(receiver: SessionView, packet: Seq<u8>, room: nat)
    ensures
        receiver.delivers(packet, room) is Ok <==> {
            let nonce = wire::u64_of_le(packet.subrange(4, 12));
            &&& 28 <= packet.len() <= 12 + 65535
            &&& wire::u32_of_le(packet.take(4)) == receiver.index
            &&& receiver.window.fresh(nonce)
            &&& nonce < u64::MAX
            &&& noise::noise_open(receiver.recv_key, nonce as u64, packet.skip(12)) is Some
            &&& packet.len() - 28 <= room
        },
        receiver.delivers(packet, room) matches Ok(plaintext) ==> Some(plaintext)
            == noise::noise_open(
            receiver.recv_key,
            wire::u64_of_le(packet.subrange(4, 12)) as u64,
            packet.skip(12),
        ),
{
    if packet.len() >= 12 {
        lemma_packet_reads(packet);
    }
}

/// Why a packet is not accepted: it is too short, of another session, or its
/// nonce is used up or too old, in this order; else the Noise layer refused it.
pub proof fn law_refusals_are_named(receiver: SessionView, packet: Seq<u8>, room: nat)
    requires
        receiver.delivers(packet, room) is Err,
    ensures
        ({
            let nonce = wire::u64_of_le(packet.subrange(4, 12));
            receiver.delivers(packet, room)->Err_0 == if packet.len() < 28 {
                CryptoError::PacketTooShort
            } else if wire::u32_of_le(packet.take(4)) != receiver.index {
                CryptoError::IndexMismatch
            } else if !receiver.window.fresh(nonce) {
                CryptoError::Replayed(nonce as u64)
            } else {
                CryptoError::NoiseDecrypt
            }
        }),
{
    if packet.len() >= 12 {
        lemma_packet_reads(packet);
    }
}

/// What a packet changes at its receiver: nothing but the window, which notes
/// the nonce of a packet of this session that is long enough.
pub proof fn law_receiving_notes_the_nonce(receiver: SessionView, packet: Seq<u8>)
    ensures
        receiver.offered(packet) == (SessionView {
            window: if packet.len() >= 28 && wire::u32_of_le(packet.take(4)) == receiver.index {
                receiver.window.offer(wire::u64_of_le(packet.subrange(4, 12)))
            } else {
                receiver.window
            },
            ..receiver
        }),
{
    if packet.len() >= 12 {
        lemma_packet_reads(packet);
    }
}

/// A session looks back over 1024 nonces.
pub proof fn law_session_window_width()
    ensures
        session_window() == 1024,
        MAX_PAYLOAD == 65519,
{
}

/// Whether `packets` are what a session wrote for `plains`, one after the other.
pub open spec fn wrote_all(
    sender: SessionView,
    plains: Seq<Seq<u8>>,
    packets: Seq<Seq<u8>>,
) -> bool {
    &&& plains.len() == packets.len()
    &&& sender.send_nonce + packets.len() <= u64::MAX
    &&& forall|i: int|
        0 <= i < packets.len() ==> (#[trigger] plains[i]).len() <= 65519 && sent_times(
            sender,
            i as nat,
        ).wrote(plains[i], packets[i])
}

proof fn lemma_wrote_nonce(
    sender: SessionView,
    receiver: SessionView,
    plains: Seq<Seq<u8>>,
    packets: Seq<Seq<u8>>,
    i: int,
)
    requires
        wrote_all(sender, plains, packets),
        sender.paired(receiver),
        0 <= i < packets.len(),
    ensures
        packets[i].len() >= 28,
        packet_index(packets[i]) == receiver.index,
        packet_nonce(packets[i]) == sender.send_nonce + i,
        sent_times(sender, i as nat).paired(receiver),
        sent_times(sender, i as nat).send_nonce == sender.send_nonce + i,
        sent_times(sender, i as nat).send_error(plains[i], packets[i].len()) is None,
{
    lemma_sent_times(sender, i as nat);
    let s = sent_times(sender, i as nat);
    assert(plains[i].len() <= 65519);
    law_packet_fields(s.index, s.send_nonce, noise::noise_seal(s.send_key, s.send_nonce, plains[i]));
}

/// Everything that one end sends arrives at the other, in order and each packet
/// once: however many packets were received before, the next one delivers its
/// plaintext.
pub proof fn law_stream_is_delivered(
    sender: SessionView,
    receiver: SessionView,
    plains: Seq<Seq<u8>>,
    packets: Seq<Seq<u8>>,
    i: int,
    room: nat,
)
    requires
        wrote_all(sender, plains, packets),
        sender.paired(receiver),
        receiver.window.wf(),
        forall|k: nat| k >= sender.send_nonce ==> #[trigger] receiver.window.fresh(k),
        0 <= i < packets.len(),
        room >= plains[i].len(),
    ensures
        offered_all(receiver, packets.take(i)).delivers(packets[i], room) == Ok::<
            Seq<u8>,
            CryptoError,
        >(plains[i]),
{
    lemma_stream(sender, receiver, plains, packets, i);
    lemma_wrote_nonce(sender, receiver, plains, packets, i);
    let then = offered_all(receiver, packets.take(i));
    assert(then.window.fresh((sender.send_nonce + i) as nat));
    law_sent_packet_is_delivered(sent_times(sender, i as nat), then, plains[i], packets[i], room);
}

proof fn lemma_stream(
    sender: SessionView,
    receiver: SessionView,
    plains: Seq<Seq<u8>>,
    packets: Seq<Seq<u8>>,
    n: int,
)
    requires
        wrote_all(sender, plains, packets),
        sender.paired(receiver),
        receiver.window.wf(),
        forall|k: nat| k >= sender.send_nonce ==> #[trigger] receiver.window.fresh(k),
        0 <= n <= packets.len(),
    ensures
        ({
            let then = offered_all(receiver, packets.take(n));
            &&& then == (SessionView { window: then.window, ..receiver })
            &&& then.window.wf()
            &&& forall|k: nat| k >= sender.send_nonce + n ==> #[trigger] then.window.fresh(k)
        }),
    decreases n,
{
    if n > 0 {
        lemma_stream(sender, receiver, plains, packets, n - 1);
        assert(packets.take(n).drop_last() =~= packets.take(n - 1));
        assert(packets.take(n).last() == packets[n - 1]);
        let before = offered_all(receiver, packets.take(n - 1));
        lemma_wrote_nonce(sender, receiver, plains, packets, n - 1);
        let m = (sender.send_nonce + n - 1) as nat;
        assert(before.window.fresh(m));
        let then = offered_all(receiver, packets.take(n));
        assert(then.window == before.window.record(m));
        assert forall|k: nat| k >= sender.send_nonce + n implies #[trigger] then.window.fresh(k) by {
            assert(before.window.fresh(k));
            super::replay::law_recording_refuses_no_other(before.window, m, k);
        }
    } else {
        assert(packets.take(0) =~= Seq::empty());
    }
}

/// Packets may overtake each other: in whatever order they arrive, each of them
/// delivers its plaintext, as long as none is a whole window behind one that
/// came before.
pub proof fn law_reordered_packets_are_delivered(
    sender: SessionView,
    receiver: SessionView,
    plains: Seq<Seq<u8>>,
    packets: Seq<Seq<u8>>,
    order: Seq<nat>,
    i: int,
    room: nat,
)
    requires
        wrote_all(sender, plains, packets),
        sender.paired(receiver),
        sender.send_nonce == 0,
        receiver.window == WindowView::empty(session_window()),
        forall|a: int| 0 <= a < order.len() ==> #[trigger] order[a] < packets.len(),
        forall|a: int, b: int| 0 <= a < b < order.len() ==> order[a] != order[b],
        forall|a: int, b: int| 0 <= a < b < order.len() ==> order[a] - order[b] < 1024,
        0 <= i < order.len(),
        room >= plains[order[i] as int].len(),
    ensures
        offered_all(
            receiver,
            Seq::new(i as nat, |a: int| packets[order[a] as int]),
        ).delivers(packets[order[i] as int], room) == Ok::<Seq<u8>, CryptoError>(
            plains[order[i] as int],
        ),
{
    let arrived = Seq::new(i as nat, |a: int| packets[order[a] as int]);
    lemma_arrivals(sender, receiver, plains, packets, order, i);
    super::replay::law_reordered_nonces_accepted(1024, order, i);
    let k = order[i] as int;
    lemma_wrote_nonce(sender, receiver, plains, packets, k);
    law_sent_packet_is_delivered(
        sent_times(sender, k as nat),
        offered_all(receiver, arrived),
        plains[k],
        packets[k],
        room,
    );
}

proof fn lemma_arrivals(
    sender: SessionView,
    receiver: SessionView,
    plains: Seq<Seq<u8>>,
    packets: Seq<Seq<u8>>,
    order: Seq<nat>,
    n: int,
)
    requires
        wrote_all(sender, plains, packets),
        sender.paired(receiver),
        sender.send_nonce == 0,
        forall|a: int| 0 <= a < order.len() ==> #[trigger] order[a] < packets.len(),
        0 <= n <= order.len(),
    ensures
        ({
            let then = offered_all(
                receiver,
                Seq::new(n as nat, |a: int| packets[order[a] as int]),
            );
            &&& then == (SessionView { window: then.window, ..receiver })
            &&& then.window == super::replay::offer_all(receiver.window, order.take(n))
        }),
    decreases n,
{
    let arrived = Seq::new(n as nat, |a: int| packets[order[a] as int]);
    if n > 0 {
        lemma_arrivals(sender, receiver, plains, packets, order, n - 1);
        let k = order[n - 1] as int;
        lemma_wrote_nonce(sender, receiver, plains, packets, k);
        assert(arrived.drop_last() =~= Seq::new(
            (n - 1) as nat,
            |a: int| packets[order[a] as int],
        ));
        assert(order.take(n).drop_last() =~= order.take(n - 1));
    }
}

} // verus!
