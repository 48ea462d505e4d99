//! Packets between the UDP socket and the TUN device.

use super::handshake as greeting;
use super::handshake::ServerError;
use super::sessions;
use super::sessions::{ServerView, State};
use crate::crypto::error::CryptoError;
use crate::crypto::handshake::TYPE_INIT;
use crate::crypto::session;
use crate::crypto::session::HEADER_LEN;
use crate::net::{Ipv4Addr, SocketAddr};
use crate::packet;
use crate::stats;
use crate::stats::RuntimeStats;
use crate::wire;
use vstd::prelude::*;

verus! {

/// What a datagram from a peer calls for.
#[derive(Debug, Clone, Copy, PartialEq, Eq, Structural)]
pub enum Downlink {
    /// Nothing.
    Ignore,
    /// No session has this index.
    UnknownSession(u32),
    /// The packet did not open.
    Unopened(CryptoError),
    /// The peer is alive.
    Keepalive,
    /// The packet inside is not IPv4.
    NotIpv4,
    /// The packet inside claims a source that is not the peer's.
    Spoofed(Ipv4Addr),
    /// The first bytes of the plaintext, this many, go to the TUN device.
    Deliver(usize),
}

/// What a datagram calls for.
#[derive(Debug)]
pub enum Received {
    /// This response goes back.
    Respond(Vec<u8>),
    /// The handshake is refused.
    Rejected(ServerError),
    /// It belongs to a session, or to none.
    Data(Downlink),
}

/// What a packet from the TUN device calls for.
#[derive(Debug)]
pub enum Uplink {
    /// Nothing.
    Ignore,
    /// The packet could not be sealed.
    Unsealed(CryptoError),
    /// The first bytes of the datagram, this many, go to a peer.
    Send(usize, SocketAddr),
}

/// Whether a datagram opens a handshake.
pub open spec fn is_init(datagram: Seq<u8>) -> bool {
    datagram.len() > 0 && datagram[0] == TYPE_INIT
}

/// The fate of a plaintext that a session with the tunnel address `allowed`
/// received.
pub open spec fn sorted(plaintext: Seq<u8>, allowed: Ipv4Addr) -> Downlink {
    if plaintext.len() == 0 {
        Downlink::Keepalive
    } else if !packet::has_ipv4_header(plaintext) {
        Downlink::NotIpv4
    } else if packet::source(plaintext) != allowed {
        Downlink::Spoofed(packet::source(plaintext))
    } else {
        Downlink::Deliver(plaintext.len() as usize)
    }
}

impl ServerView {
    /// What a datagram that opens no handshake calls for, with `room` bytes for
    /// the plaintext.
    pub open spec fn routes(self, enabled: bool, datagram: Seq<u8>, room: nat) -> Downlink {
        let index = session::packet_index(datagram) as u32;
        if !enabled || datagram.len() < HEADER_LEN {
            Downlink::Ignore
        } else if !self.sessions.contains_key(index) {
            Downlink::UnknownSession(index)
        } else {
            match self.sessions[index].session.delivers(datagram, room) {
                Err(e) => Downlink::Unopened(e),
                Ok(plaintext) => sorted(plaintext, self.sessions[index].tunnel_ip),
            }
        }
    }

    /// The plaintext that such a datagram delivers.
    pub open spec fn plaintext(self, datagram: Seq<u8>, room: nat) -> Seq<u8> {
        self.sessions[session::packet_index(datagram) as u32].session.delivers(datagram, room)->Ok_0
    }

    /// The server after such a datagram from `src`.
    pub open spec fn routed(
        self,
        enabled: bool,
        datagram: Seq<u8>,
        room: nat,
        src: SocketAddr,
        now: u64,
    ) -> ServerView {
        let index = session::packet_index(datagram) as u32;
        match self.routes(enabled, datagram, room) {
            Downlink::Ignore | Downlink::UnknownSession(_) => self,
            Downlink::Unopened(_) => self.misheard(index, datagram),
            _ => self.heard(index, datagram, src, now),
        }
    }
}

/// The statistics after a datagram that called for `fate`. A delivered packet
/// is counted once it is written.
pub open spec fn downlink_stats(before: RuntimeStats, fate: Downlink, now_ms: u64) -> RuntimeStats {
    match fate {
        Downlink::Unopened(_) => RuntimeStats {
            decrypt_errors: stats::counted(before.decrypt_errors, 1),
            ..before
        },
        Downlink::Keepalive => RuntimeStats { last_activity_ms: now_ms, ..before },
        Downlink::NotIpv4 | Downlink::Spoofed(_) => RuntimeStats {
            policy_drops: stats::counted(before.policy_drops, 1),
            ..before
        },
        _ => before,
    }
}

/// What is said and counted of a handshake that ended with `reply`.
pub open spec fn reported(
    before: RuntimeStats,
    after: RuntimeStats,
    reply: Result<Vec<u8>, ServerError>,
    r: Received,
) -> bool {
    match reply {
        Ok(response) => r == Received::Respond(response) && after == before,
        Err(e) => r == Received::Rejected(e) && after == (RuntimeStats {
            handshakes_fail: stats::counted(before.handshakes_fail, 1),
            ..before
        }),
    }
}

/// Sorts a plaintext that a session with the tunnel address `allowed` received.
pub fn sort_plaintext(plaintext: &[u8], allowed: Ipv4Addr) -> (r: Downlink)
    ensures
        r == sorted(plaintext@, allowed),
{
    if plaintext.len() == 0 {
        return Downlink::Keepalive;
    }
    match packet::ipv4_src(plaintext) {
        None => Downlink::NotIpv4,
        Some(src) => if src == allowed {
            Downlink::Deliver(plaintext.len())
        } else {
            Downlink::Spoofed(src)
        },
    }
}

impl State {
    /// Takes a datagram that opens no handshake. Where it is to be delivered,
    /// its plaintext stands at the front of `plain`.
    pub fn handle_datagram(
        &mut self,
        datagram: &[u8],
        src: &SocketAddr,
        plain: &mut [u8],
        stats: &mut RuntimeStats,
        now: u64,
        now_ms: u64,
    ) -> (r: Downlink)
        requires
            old(self).wf(),
        ensures
            final(self).wf(),
            final(plain)@.len() == old(plain)@.len(),
            r == old(self)@.routes(old(stats).enabled, datagram@, old(plain)@.len()),
            final(self)@ == old(self)@.routed(
                old(stats).enabled,
                datagram@,
                old(plain)@.len(),
                *src,
                now,
            ),
            *final(stats) == downlink_stats(*old(stats), r, now_ms),
            r matches Downlink::Deliver(len) ==> len <= final(plain)@.len() && final(plain)@.take(
                len as int,
            ) == old(self)@.plaintext(datagram@, old(plain)@.len()),
    {
        if !stats.is_enabled() {
            return Downlink::Ignore;
        }
        if datagram.len() < HEADER_LEN {
            return Downlink::Ignore;
        }
        let index: u32 = wire::get_u32(datagram);
        let (outcome, allowed): (Result<usize, CryptoError>, Ipv4Addr) = match self.open_packet(
            index,
            datagram,
            src,
            plain,
            now,
        ) {
            Some(outcome) => outcome,
            None => {
                return Downlink::UnknownSession(index);
            },
        };
        match outcome {
            Err(e) => {
                stats.record_decrypt_err();
                Downlink::Unopened(e)
            },
            Ok(len) => {
                let room: usize = plain.len();
                assert(len <= room);
                let (opened, _) = plain.split_at(len);
                assert(opened@ =~= old(self)@.plaintext(datagram@, old(plain)@.len()));
                let fate: Downlink = sort_plaintext(opened, allowed);
                match fate {
                    Downlink::Keepalive => stats.touch_activity(now_ms),
                    Downlink::NotIpv4 | Downlink::Spoofed(_) => stats.record_policy_drop(),
                    _ => {},
                }
                fate
            },
        }
    }

    /// Takes a datagram from the UDP socket.
    pub fn receive(
        &mut self,
        private: &[u8; 32],
        datagram: &[u8],
        src: &SocketAddr,
        plain: &mut [u8],
        stats: &mut RuntimeStats,
        now: u64,
        now_ms: u64,
    ) -> (r: Received)
        requires
            old(self).wf(),
        ensures
            final(self).wf(),
            final(plain)@.len() == old(plain)@.len(),
            !is_init(datagram@) ==> {
                let fate = old(self)@.routes(old(stats).enabled, datagram@, old(plain)@.len());
                &&& r == Received::Data(fate)
                &&& final(self)@ == old(self)@.routed(
                    old(stats).enabled,
                    datagram@,
                    old(plain)@.len(),
                    *src,
                    now,
                )
                &&& *final(stats) == downlink_stats(*old(stats), fate, now_ms)
                &&& fate matches Downlink::Deliver(len) ==> len <= final(plain)@.len()
                    && final(plain)@.take(len as int) == old(self)@.plaintext(
                    datagram@,
                    old(plain)@.len(),
                )
            },
            is_init(datagram@) ==> {
                &&& final(plain)@ == old(plain)@
                &&& exists|counted: RuntimeStats, reply: Result<Vec<u8>, ServerError>|
                    {
                        &&& #[trigger] greeting::handled(
                            old(self)@,
                            final(self)@,
                            *old(stats),
                            counted,
                            private@,
                            datagram@,
                            *src,
                            now,
                            now_ms,
                            reply,
                        )
                        &&& reported(counted, *final(stats), reply, r)
                    }
            },
    {
        if datagram.len() > 0 && datagram[0] == TYPE_INIT {
            match self.handle_handshake(private, datagram, src, stats, now, now_ms) {
                Ok(response) => Received::Respond(response),
                Err(e) => {
                    stats.record_handshake_fail();
                    Received::Rejected(e)
                },
            }
        } else {
            Received::Data(self.handle_datagram(datagram, src, plain, stats, now, now_ms))
        }
    }

    /// Takes a packet from the TUN device. Where it is to be sent, the datagram
    /// stands at the front of `wire`; it is counted once it is sent.
    pub fn handle_packet(
        &mut self,
        plain: &[u8],
        wire: &mut [u8],
        stats: &mut RuntimeStats,
        now: u64,
    ) -> (r: Uplink)
        requires
            old(self).wf(),
        ensures
            final(self).wf(),
            final(wire)@.len() == old(wire)@.len(),
            r matches Uplink::Send(_, to) ==> old(self)@.endpoint_for(
                old(stats).enabled,
                plain@,
            ) == Some(to),
            match old(self)@.target(old(stats).enabled, plain@) {
                None => {
                    &&& r == Uplink::Ignore
                    &&& final(self)@ == old(self)@
                    &&& *final(stats) == *old(stats)
                },
                Some(index) => {
                    let live = old(self)@.sessions[index];
                    match live.session.send_error(plain@, old(wire)@.len()) {
                        Some(e) => {
                            &&& r == Uplink::Unsealed(e)
                            &&& final(self)@ == old(self)@
                            &&& *final(stats) == (RuntimeStats {
                                encrypt_errors: stats::counted(old(stats).encrypt_errors, 1),
                                ..*old(stats)
                            })
                        },
                        None => {
                            let sealed = live.session.packet(plain@);
                            &&& r == Uplink::Send(sealed.len() as usize, live.peer_addr)
                            &&& live.session.wrote(plain@, sealed)
                            &&& final(wire)@ == sealed + old(wire)@.skip(sealed.len() as int)
                            &&& final(self)@ == old(self)@.spoke(index, now)
                            &&& *final(stats) == *old(stats)
                        },
                    }
                },
            },
    {
        if !stats.is_enabled() {
            return Uplink::Ignore;
        }
        let dst: Ipv4Addr = match packet::ipv4_dst(plain) {
            Some(dst) => dst,
            None => {
                return Uplink::Ignore;
            },
        };
        match self.seal_packet(dst, plain, wire, now) {
            None => Uplink::Ignore,
            Some(Ok((len, peer))) => Uplink::Send(len, peer),
            Some(Err(e)) => {
                stats.record_encrypt_err();
                Uplink::Unsealed(e)
            },
        }
    }
}

impl ServerView {
    /// Where a packet from the TUN device is sent, if it is sent.
    pub open spec fn endpoint_for(self, enabled: bool, plain: Seq<u8>) -> Option<SocketAddr> {
        match self.target(enabled, plain) {
            Some(index) => Some(self.sessions[index].peer_addr),
            None => None,
        }
    }

    /// The session that a packet from the TUN device is for, if the data plane
    /// is on and there is one.
    pub open spec fn target(self, enabled: bool, plain: Seq<u8>) -> Option<u32> {
        if enabled && packet::has_ipv4_header(plain) {
            sessions::session_for(self.sessions, packet::destination(plain))
        } else {
            None
        }
    }
}

} // verus!
