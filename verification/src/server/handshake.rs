//! Handshakes of peers with the server.

use super::sessions;
use super::sessions::{LiveSession, LiveView, ServerView, State};
use crate::crypto::error::CryptoError;
use crate::crypto::handshake;
use crate::crypto::handshake::HandshakeResponder;
use crate::crypto::keys;
use crate::crypto::session::{Session, SessionView};
use crate::net::{Ipv4Addr, SocketAddr};
use crate::stats;
use crate::stats::RuntimeStats;
use vstd::prelude::*;

verus! {

/// Why a handshake is refused.
#[derive(Debug, PartialEq, Eq)]
pub enum ServerError {
    /// Too many handshakes from the address of this endpoint.
    RateLimited(SocketAddr),
    /// Every session index is in use.
    NoFreeIndex,
    /// The handshake itself failed.
    Crypto(CryptoError),
    /// The handshake revealed no static key.
    NoRemoteStatic,
    /// No peer is configured with the key that this endpoint has shown.
    UnknownPeer(SocketAddr),
    /// Another session took the index in the meantime.
    IndexCollision,
}

impl ServerError {
    /// The message of the error.
    pub open spec fn shown(self) -> Seq<char> {
        match self {
            ServerError::RateLimited(src) => "handshake rate limited from "@ + src.host_shown(),
            ServerError::NoFreeIndex => "no free session index"@,
            ServerError::Crypto(e) => e.shown(),
            ServerError::NoRemoteStatic => "missing remote static after IK"@,
            ServerError::UnknownPeer(src) => "unknown peer public key from "@ + src.shown(),
            ServerError::IndexCollision => "session index collision; retry handshake"@,
        }
    }

    /// The message of the error.
    pub fn message(&self) -> (r: String)
        ensures
            r@ == self.shown(),
    {
        match self {
            ServerError::RateLimited(src) => {
                let mut out: String = "handshake rate limited from ".to_owned();
                out.append(src.host_text().as_str());
                out
            },
            ServerError::NoFreeIndex => "no free session index".to_owned(),
            ServerError::Crypto(e) => e.message(),
            ServerError::NoRemoteStatic => "missing remote static after IK".to_owned(),
            ServerError::UnknownPeer(src) => {
                let mut out: String = "unknown peer public key from ".to_owned();
                out.append(src.to_text().as_str());
                out
            },
            ServerError::IndexCollision => "session index collision; retry handshake".to_owned(),
        }
    }
}

/// Whom an opening datagram from `src` is from, by tunnel address, or why it is
/// refused.
pub open spec fn greets(
    peers: Map<Seq<u8>, Ipv4Addr>,
    private: Seq<u8>,
    datagram: Seq<u8>,
    src: SocketAddr,
) -> Result<Ipv4Addr, ServerError> {
    let responder = handshake::new_responder(private);
    match handshake::init_error(responder, datagram) {
        Some(e) => Err(ServerError::Crypto(e)),
        None => {
            let key = handshake::taken(responder, datagram.skip(1)).remote->0;
            if peers.contains_key(key) {
                Ok(peers[key])
            } else {
                Err(ServerError::UnknownPeer(src))
            }
        },
    }
}

/// A session that was established just now with the peer at `src`.
pub open spec fn new_session(
    session: SessionView,
    src: SocketAddr,
    ip: Ipv4Addr,
    now: u64,
) -> LiveView {
    LiveView { session, peer_addr: src, tunnel_ip: ip, last_seen: now, established: now }
}

/// Whether the statistics `after` show the sessions of `server` and one more
/// handshake than `before`.
pub open spec fn counts_handshake(
    before: RuntimeStats,
    after: RuntimeStats,
    server: ServerView,
    now: u64,
    now_ms: u64,
) -> bool {
    &&& sessions::lists(after.peers@, server.sessions, now)
    &&& after == (RuntimeStats {
        active_sessions: server.sessions.dom().len() as u64,
        peers: after.peers,
        handshakes_ok: stats::counted(before.handshakes_ok, 1),
        last_activity_ms: now_ms,
        ..before
    })
}

/// What answering the opening `datagram` with the session index `index` does.
pub open spec fn answered(
    before: ServerView,
    after: ServerView,
    stats_before: RuntimeStats,
    stats_after: RuntimeStats,
    private: Seq<u8>,
    datagram: Seq<u8>,
    index: u32,
    src: SocketAddr,
    now: u64,
    now_ms: u64,
    r: Result<Vec<u8>, ServerError>,
) -> bool {
    match greets(before.peers, private, datagram, src) {
        Err(e) => {
            &&& r == Err::<Vec<u8>, ServerError>(e)
            &&& after == before
            &&& stats_after == stats_before
        },
        Ok(ip) => {
            let rest = sessions::without(before.sessions, ip);
            if rest.contains_key(index) {
                &&& r == Err::<Vec<u8>, ServerError>(ServerError::IndexCollision)
                &&& after == (ServerView { sessions: rest, ..before })
                &&& stats_after == stats_before
            } else {
                &&& r matches Ok(response)
                &&& handshake::grants(
                    handshake::new_responder(private),
                    datagram,
                    index,
                    response@,
                    after.sessions[index].session,
                )
                &&& after == (ServerView {
                    sessions: rest.insert(
                        index,
                        new_session(after.sessions[index].session, src, ip, now),
                    ),
                    ..before
                })
                &&& counts_handshake(stats_before, stats_after, after, now, now_ms)
            }
        },
    }
}

/// What taking the opening `datagram` does, whatever session index is drawn.
pub open spec fn handled(
    before: ServerView,
    after: ServerView,
    stats_before: RuntimeStats,
    stats_after: RuntimeStats,
    private: Seq<u8>,
    datagram: Seq<u8>,
    src: SocketAddr,
    now: u64,
    now_ms: u64,
    r: Result<Vec<u8>, ServerError>,
) -> bool {
    let judged = ServerView { rate: before.rate.judged(src.host(), now), ..before };
    if !before.rate.allows(src.host(), now) {
        &&& r == Err::<Vec<u8>, ServerError>(ServerError::RateLimited(src))
        &&& after == judged
        &&& stats_after == stats_before
    } else if sessions::is_full(before.sessions) {
        &&& r == Err::<Vec<u8>, ServerError>(ServerError::NoFreeIndex)
        &&& after == judged
        &&& stats_after == stats_before
    } else {
        exists|index: u32|
            sessions::is_free(before.sessions, index) && #[trigger] answered(
                judged,
                after,
                stats_before,
                stats_after,
                private,
                datagram,
                index,
                src,
                now,
                now_ms,
                r,
            )
    }
}

impl State {
    /// Answers an opening datagram under the session index `index`. A peer that
    /// connects again takes the place of its earlier session.
    pub fn answer(
        &mut self,
        private: &[u8; 32],
        datagram: &[u8],
        src: &SocketAddr,
        index: u32,
        stats: &mut RuntimeStats,
        now: u64,
        now_ms: u64,
    ) -> (r: Result<Vec<u8>, ServerError>)
        requires
            old(self).wf(),
            keys::index_is_data(index),
        ensures
            final(self).wf(),
            answered(
                old(self)@,
                final(self)@,
                *old(stats),
                *final(stats),
                private@,
                datagram@,
                index,
                *src,
                now,
                now_ms,
                r,
            ),
    {
        let responder: HandshakeResponder = match HandshakeResponder::new(private) {
            Ok(responder) => responder,
            Err(e) => {
                return Err(ServerError::Crypto(e));
            },
        };
        let (session, response): (Session, Vec<u8>) = match responder.finish(datagram, index) {
            Ok(done) => done,
            Err(e) => {
                return Err(ServerError::Crypto(e));
            },
        };
        let key: [u8; 32] = match session.remote_static() {
            Some(key) => key,
            None => {
                return Err(ServerError::NoRemoteStatic);
            },
        };
        let ip: Ipv4Addr = match self.allowed_ip(&key) {
            Some(ip) => ip,
            None => {
                return Err(ServerError::UnknownPeer(src.clone()));
            },
        };
        self.drop_tunnel(ip);
        if self.has_index(index) {
            return Err(ServerError::IndexCollision);
        }
        self.add(
            LiveSession {
                session,
                peer_addr: src.clone(),
                tunnel_ip: ip,
                last_seen: now,
                established: now,
            },
        );
        stats.set_sessions(self.session_count());
        stats.set_peers(self.peer_snapshots(now));
        stats.record_handshake_ok(now_ms);
        Ok(response)
    }

    /// Takes an opening datagram: judges it by the rate limit, draws a session
    /// index and answers.
    pub fn handle_handshake(
        &mut self,
        private: &[u8; 32],
        datagram: &[u8],
        src: &SocketAddr,
        stats: &mut RuntimeStats,
        now: u64,
        now_ms: u64,
    ) -> (r: Result<Vec<u8>, ServerError>)
        requires
            old(self).wf(),
        ensures
            final(self).wf(),
            handled(
                old(self)@,
                final(self)@,
                *old(stats),
                *final(stats),
                private@,
                datagram@,
                *src,
                now,
                now_ms,
                r,
            ),
    {
        if !self.judge(src, now) {
            return Err(ServerError::RateLimited(src.clone()));
        }
        match self.alloc_index() {
            Some(index) => self.answer(private, datagram, src, index, stats, now, now_ms),
            None => Err(ServerError::NoFreeIndex),
        }
    }
}

} // verus!
