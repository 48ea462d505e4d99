//! The sessions of the connected peers.

use super::peers::PeerTable;
use super::rate::{RateLimit, RateView};
use crate::crypto::error::CryptoError;
use crate::crypto::keys;
use crate::crypto::keys::random_session_index;
use crate::crypto::session::{Session, SessionView};
use crate::net;
use crate::net::{Ipv4Addr, SocketAddr};
use crate::stats::{PeerSnapshot, RuntimeStats};
use crate::time;
use std::collections::HashMap;
use vstd::prelude::*;
use vstd::std_specs::hash::*;

verus! {

broadcast use group_hash_axioms;

/// How often another session index is drawn before the free ones are looked
/// through.
pub const INDEX_DRAWS: u32 = 1024;

/// A connected peer. Times are points on the monotonic clock.
pub struct LiveSession {
    pub session: Session,
    pub peer_addr: SocketAddr,
    pub tunnel_ip: Ipv4Addr,
    pub last_seen: u64,
    pub established: u64,
}

/// What a connected peer is.
#[verifier::ext_equal]
pub struct LiveView {
    pub session: SessionView,
    pub peer_addr: SocketAddr,
    pub tunnel_ip: Ipv4Addr,
    pub last_seen: u64,
    pub established: u64,
}

impl View for LiveSession {
    type V = LiveView;

    open spec fn view(&self) -> LiveView {
        LiveView {
            session: self.session@,
            peer_addr: self.peer_addr,
            tunnel_ip: self.tunnel_ip,
            last_seen: self.last_seen,
            established: self.established,
        }
    }
}

/// What the server holds: its sessions by index, the peers that may connect,
/// and the handshakes that were opened lately.
#[verifier::ext_equal]
pub struct ServerView {
    pub sessions: Map<u32, LiveView>,
    pub peers: Map<Seq<u8>, Ipv4Addr>,
    pub rate: RateView,
}

/// The sessions of other tunnel addresses.
pub open spec fn without(sessions: Map<u32, LiveView>, ip: Ipv4Addr) -> Map<u32, LiveView> {
    Map::new(
        |i: u32| sessions.contains_key(i) && sessions[i].tunnel_ip != ip,
        |i: u32| sessions[i],
    )
}

/// The index of the session of a tunnel address, if there is one.
pub open spec fn session_for(sessions: Map<u32, LiveView>, ip: Ipv4Addr) -> Option<u32> {
    if exists|i: u32| #[trigger] sessions.contains_key(i) && sessions[i].tunnel_ip == ip {
        Some(choose|i: u32| #[trigger] sessions.contains_key(i) && sessions[i].tunnel_ip == ip)
    } else {
        None
    }
}

/// Whether a session may be given this index: it makes no data packet look like
/// a handshake, and no session has it.
pub open spec fn is_free(sessions: Map<u32, LiveView>, index: u32) -> bool {
    keys::index_is_data(index) && !sessions.contains_key(index)
}

/// Whether no index is left for another session.
pub open spec fn is_full(sessions: Map<u32, LiveView>) -> bool {
    forall|index: u32| !#[trigger] is_free(sessions, index)
}

/// Whether `live` has been idle for more than `secs` seconds.
pub open spec fn is_stale(live: LiveView, secs: u64, now: u64) -> bool {
    time::elapsed_ns(now, live.last_seen) > time::seconds(secs)
}

/// The sessions that are not stale.
pub open spec fn unstale(sessions: Map<u32, LiveView>, secs: u64, now: u64) -> Map<u32, LiveView> {
    Map::new(
        |i: u32| sessions.contains_key(i) && !is_stale(sessions[i], secs, now),
        |i: u32| sessions[i],
    )
}

/// The idle time that is granted: what is configured, at least thirty seconds.
pub open spec fn idle_limit(configured: u64) -> u64 {
    if configured < 30 {
        30
    } else {
        configured
    }
}

/// Whether `p` shows the session `live`.
pub open spec fn shows(p: PeerSnapshot, live: LiveView, now: u64) -> bool {
    &&& p.tunnel_ip@ == live.tunnel_ip.dotted()
    &&& p.endpoint@ == live.peer_addr.shown()
    &&& p.session_index == live.session.index
    &&& p.last_handshake_ago_secs == time::elapsed_ns(now, live.established) / time::NANOS as nat
    &&& p.idle_secs == time::elapsed_ns(now, live.last_seen) / time::NANOS as nat
}

/// Whether `list` shows every session once, in some order.
pub open spec fn lists(list: Seq<PeerSnapshot>, sessions: Map<u32, LiveView>, now: u64) -> bool {
    &&& list.len() == sessions.dom().len()
    &&& forall|i: int|
        0 <= i < list.len() ==> {
            &&& sessions.contains_key((#[trigger] list[i]).session_index)
            &&& shows(list[i], sessions[list[i].session_index], now)
        }
    &&& forall|i: int, j: int|
        0 <= i < j < list.len() ==> (#[trigger] list[i]).session_index != (
        #[trigger] list[j]).session_index
    &&& forall|index: u32| #[trigger]
        sessions.contains_key(index) ==> exists|i: int|
            0 <= i < list.len() && (#[trigger] list[i]).session_index == index
}

impl ServerView {
    /// Sessions are filed under their own index, no index makes a data packet
    /// look like a handshake, and no two sessions share a tunnel address.
    pub open spec fn wf(self) -> bool {
        &&& self.sessions.dom().finite()
        &&& forall|i: u32| #[trigger]
            self.sessions.contains_key(i) ==> self.sessions[i].session.index == i
        &&& forall|i: u32| #[trigger] self.sessions.contains_key(i) ==> keys::index_is_data(i)
        &&& forall|i: u32, j: u32|
            #![trigger self.sessions.contains_key(i), self.sessions.contains_key(j)]
            self.sessions.contains_key(i) && self.sessions.contains_key(j)
                && self.sessions[i].tunnel_ip == self.sessions[j].tunnel_ip ==> i == j
    }
}

impl ServerView {
    /// The server after the session `index` opened `packet`, which came from
    /// `src`.
    pub open spec fn heard(self, index: u32, packet: Seq<u8>, src: SocketAddr, now: u64) -> ServerView {
        let live = self.sessions[index];
        ServerView {
            sessions: self.sessions.insert(
                index,
                LiveView {
                    session: live.session.offered(packet),
                    peer_addr: src,
                    last_seen: now,
                    ..live
                },
            ),
            ..self
        }
    }

    /// The server after the session `index` could not open `packet`.
    pub open spec fn misheard(self, index: u32, packet: Seq<u8>) -> ServerView {
        let live = self.sessions[index];
        ServerView {
            sessions: self.sessions.insert(
                index,
                LiveView { session: live.session.offered(packet), ..live },
            ),
            ..self
        }
    }

    /// The server after the session `index` sealed a packet.
    pub open spec fn spoke(self, index: u32, now: u64) -> ServerView {
        let live = self.sessions[index];
        ServerView {
            sessions: self.sessions.insert(
                index,
                LiveView { session: live.session.sent(), last_seen: now, ..live },
            ),
            ..self
        }
    }
}

/// The connected peers, by session index and by tunnel address.
pub struct State {
    by_index: HashMap<u32, LiveSession>,
    by_ip: HashMap<u32, u32>,
    peers: PeerTable,
    rate: RateLimit,
}

impl View for State {
    type V = ServerView;

    closed spec fn view(&self) -> ServerView {
        ServerView {
            sessions: self.by_index@.map_values(|live: LiveSession| live@),
            peers: self.peers@,
            rate: self.rate@,
        }
    }
}

impl State {
    /// Both maps agree, and every session is in working order.
    pub closed spec fn wf(self) -> bool {
        &&& self.rate.wf()
        &&& forall|i: u32| #[trigger]
            self.by_index@.contains_key(i) ==> {
                let live = self.by_index@[i];
                &&& keys::index_is_data(i)
                &&& live.session.wf()
                &&& live.session@.index == i
                &&& self.by_ip@.contains_key(live.tunnel_ip.bits() as u32)
                &&& self.by_ip@[live.tunnel_ip.bits() as u32] == i
            }
        &&& forall|b: u32| #[trigger]
            self.by_ip@.contains_key(b) ==> {
                &&& self.by_index@.contains_key(self.by_ip@[b])
                &&& self.by_index@[self.by_ip@[b]].tunnel_ip.bits() == b
            }
    }

    /// A server in working order files sessions under their own index, under no
    /// index that would make their packets look like handshakes, and has at
    /// most one session for each tunnel address.
    pub proof fn law_one_session_per_tunnel_ip(self)
        requires
            self.wf(),
        ensures
            self@.wf(),
    {
        let m = self@.sessions;
        assert(m.dom() =~= self.by_index@.dom());
        assert forall|i: u32, j: u32|
            #![trigger m.contains_key(i), m.contains_key(j)]
            m.contains_key(i) && m.contains_key(j) && m[i].tunnel_ip == m[j].tunnel_ip implies i
            == j by {
            assert(self.by_index@.contains_key(i));
            assert(self.by_index@.contains_key(j));
        }
        assert forall|i: u32| #[trigger] m.contains_key(i) implies m[i].session.index == i
            && keys::index_is_data(i) by {
            assert(self.by_index@.contains_key(i));
        }
    }

    /// A server without sessions.
    pub fn new(peers: PeerTable, rate: RateLimit) -> (r: Self)
        requires
            rate.wf(),
        ensures
            r.wf(),
            r@ == (ServerView { sessions: Map::empty(), peers: peers@, rate: rate@ }),
    {
        let r = State { by_index: HashMap::new(), by_ip: HashMap::new(), peers, rate };
        assert(r@.sessions =~= Map::empty());
        r
    }

    /// How many sessions there are.
    pub fn session_count(&self) -> (r: u64)
        ensures
            r == self@.sessions.dom().len(),
    {
        assert(self@.sessions.dom() =~= self.by_index@.dom());
        self.by_index.len() as u64
    }

    /// Draws a session index that is not in use. Where draw after draw is taken,
    /// the first free index after the last draw is used. `None` only where no
    /// index is free.
    pub fn alloc_index(&self) -> (r: Option<u32>)
        ensures
            match r {
                Some(index) => is_free(self@.sessions, index),
                None => is_full(self@.sessions),
            },
    {
        let mut last: u32 = random_session_index();
        let mut left: u32 = INDEX_DRAWS;
        while left > 0 && self.by_index.contains_key(&last)
            invariant
                keys::index_is_data(last),
            decreases left,
        {
            last = random_session_index();
            left -= 1;
        }
        if !self.by_index.contains_key(&last) {
            return Some(last);
        }
        match self.free_between(last as u64, 0x1_0000_0000) {
            Some(index) => Some(index),
            None => self.free_between(0, last as u64),
        }
    }

    /// The first free session index from `from` up to but without `to`.
    fn free_between(&self, from: u64, to: u64) -> (r: Option<u32>)
        requires
            from <= to <= 0x1_0000_0000,
        ensures
            match r {
                Some(index) => from <= index < to && is_free(self@.sessions, index),
                None => forall|i: u32| from <= i < to ==> !#[trigger] is_free(self@.sessions, i),
            },
    {
        let mut at: u64 = from;
        while at < to
            invariant
                from <= at <= to <= 0x1_0000_0000,
                forall|i: u32| from <= i < at ==> !#[trigger] is_free(self@.sessions, i),
            decreases to - at,
        {
            let index: u32 = at as u32;
            if index % 256 != 1 && index % 256 != 2 && !self.by_index.contains_key(&index) {
                return Some(index);
            }
            assert(!is_free(self@.sessions, index));
            at += 1;
        }
        None
    }

    /// The connected peers for the status.
    pub fn peer_snapshots(&self, now: u64) -> (r: Vec<PeerSnapshot>)
        requires
            self.wf(),
        ensures
            lists(r@, self@.sessions, now),
    {
        let mut out: Vec<PeerSnapshot> = Vec::new();
        for kv in it: self.by_index.iter()
            invariant
                self.wf(),
                out@.len() == it.index(),
                forall|i: int| #![trigger out@[i]]
                    0 <= i < out@.len() ==> {
                        &&& out@[i].session_index == *it.seq()[i].0
                        &&& shows(out@[i], it.seq()[i].1@, now)
                    },
        {
            let (index, live) = kv;
            assert(self.by_index@.contains_key(*index));
            assert(self.by_index@[*index] == *live);
            out.push(
                PeerSnapshot {
                    tunnel_ip: live.tunnel_ip.to_text(),
                    endpoint: live.peer_addr.to_text(),
                    session_index: live.session.index(),
                    last_handshake_ago_secs: time::elapsed_secs(now, live.established),
                    idle_secs: time::elapsed_secs(now, live.last_seen),
                },
            );
        }
        proof {
            let seq = vstd::std_specs::iter::IteratorSpec::remaining(
                &spec_hash_map_iter(&self.by_index),
            );
            let m = self@.sessions;
            assert(m.dom() =~= self.by_index@.dom());
            assert forall|i: int| 0 <= i < out@.len() implies {
                &&& m.contains_key((#[trigger] out@[i]).session_index)
                &&& shows(out@[i], m[out@[i].session_index], now)
            } by {
                assert(self.by_index@.contains_key(*seq[i].0));
                assert(self.by_index@[*seq[i].0] == *seq[i].1);
            }
            assert forall|i: int, j: int| 0 <= i < j < out@.len() implies (
            #[trigger] out@[i]).session_index != (#[trigger] out@[j]).session_index by {
                assert(self.by_index@[*seq[i].0] == *seq[i].1);
                assert(self.by_index@[*seq[j].0] == *seq[j].1);
                assert(seq[i] != seq[j]);
            }
            assert forall|index: u32| #[trigger] m.contains_key(index) implies exists|i: int|
                0 <= i < out@.len() && (#[trigger] out@[i]).session_index == index by {
                assert(self.by_index@.contains_key(index));
                assert(seq.contains((&index, &self.by_index@[index])));
                let i = choose|i: int| 0 <= i < seq.len() && seq[i] == (&index, &self.by_index@[index]);
                assert(out@[i].session_index == index);
            }
        }
        out
    }

    /// The tunnel address of the peer with this public key.
    pub fn allowed_ip(&self, public_key: &[u8; 32]) -> (r: Option<Ipv4Addr>)
        ensures
            r == if self@.peers.contains_key(public_key@) {
                Some(self@.peers[public_key@])
            } else {
                None
            },
    {
        self.peers.get(public_key)
    }

    /// Whether a session has this index.
    pub fn has_index(&self, index: u32) -> (r: bool)
        ensures
            r == self@.sessions.contains_key(index),
    {
        self.by_index.contains_key(&index)
    }

    /// Judges a handshake by the rate limit.
    pub fn judge(&mut self, addr: &SocketAddr, now: u64) -> (r: bool)
        requires
            old(self).wf(),
        ensures
            final(self).wf(),
            r == old(self)@.rate.allows(addr.host(), now),
            final(self)@ == (ServerView {
                rate: old(self)@.rate.judged(addr.host(), now),
                ..old(self)@
            }),
    {
        self.rate.allow(addr.ip(), now)
    }

    /// Ends the session of a tunnel address.
    pub fn drop_tunnel(&mut self, ip: Ipv4Addr)
        requires
            old(self).wf(),
        ensures
            final(self).wf(),
            final(self)@ == (ServerView {
                sessions: without(old(self)@.sessions, ip),
                ..old(self)@
            }),
    {
        let ghost before = *self;
        let bits: u32 = ip.to_bits();
        if let Some(index) = self.by_ip.remove(&bits) {
            self.by_index.remove(&index);
        }
        proof {
            assert forall|i: u32| #[trigger] before.by_index@.contains_key(i) implies (
            before.by_index@[i].tunnel_ip == ip <==> before.by_ip@.contains_key(bits)
                && before.by_ip@[bits] == i) by {
                if before.by_index@[i].tunnel_ip.bits() == bits {
                    net::law_bits_are_injective(before.by_index@[i].tunnel_ip, ip);
                }
            }
            assert(self@.sessions =~= without(before@.sessions, ip));
        }
    }

    /// Files a new session, whose index and tunnel address are free.
    pub fn add(&mut self, live: LiveSession)
        requires
            old(self).wf(),
            live.session.wf(),
            keys::index_is_data(live@.session.index),
            !old(self)@.sessions.contains_key(live@.session.index),
            forall|i: u32| #[trigger]
                old(self)@.sessions.contains_key(i) ==> old(self)@.sessions[i].tunnel_ip
                    != live.tunnel_ip,
        ensures
            final(self).wf(),
            final(self)@ == (ServerView {
                sessions: old(self)@.sessions.insert(live@.session.index, live@),
                ..old(self)@
            }),
    {
        let ghost before = *self;
        let ghost view = live@;
        let index: u32 = live.session.index();
        let bits: u32 = live.tunnel_ip.to_bits();
        proof {
            assert forall|i: u32| #[trigger] before.by_index@.contains_key(i) implies
                before.by_index@[i].tunnel_ip.bits() != bits by {
                assert(before@.sessions.contains_key(i));
                if before.by_index@[i].tunnel_ip.bits() == bits {
                    net::law_bits_are_injective(before.by_index@[i].tunnel_ip, live.tunnel_ip);
                }
            }
            assert(!before.by_index@.contains_key(index));
        }
        self.by_ip.insert(bits, index);
        self.by_index.insert(index, live);
        proof {
            assert(self@.sessions =~= before@.sessions.insert(index, view));
        }
    }

    /// Ends the sessions that have been idle for longer than `idle_secs`, at
    /// least thirty, and forgets old handshakes. Returns what was ended.
    pub fn reap(&mut self, idle_secs: u64, now: u64) -> (r: Vec<(u32, Ipv4Addr)>)
        requires
            old(self).wf(),
        ensures
            final(self).wf(),
            final(self)@ == (ServerView {
                sessions: unstale(old(self)@.sessions, idle_limit(idle_secs), now),
                rate: old(self)@.rate.collected(now),
                ..old(self)@
            }),
            forall|e: (u32, Ipv4Addr)| #[trigger]
                r@.contains(e) <==> {
                    &&& old(self)@.sessions.contains_key(e.0)
                    &&& is_stale(old(self)@.sessions[e.0], idle_limit(idle_secs), now)
                    &&& e.1 == old(self)@.sessions[e.0].tunnel_ip
                },
            forall|i: int, j: int|
                0 <= i < j < r@.len() ==> (#[trigger] r@[i]).0 != (#[trigger] r@[j]).0,
    {
        self.rate.gc(now);
        let limit: u64 = if idle_secs < 30 {
            30
        } else {
            idle_secs
        };
        let ghost before = *self;
        let stale: Vec<(u32, Ipv4Addr)> = self.stale(limit, now);
        let mut i: usize = 0;
        while i < stale.len()
            invariant
                i <= stale@.len(),
                self.wf(),
                before.wf(),
                self@.peers == before@.peers,
                self@.rate == before@.rate,
                forall|k: int|
                    0 <= k < stale@.len() ==> before@.sessions.contains_key((#[trigger] stale@[k]).0)
                        && stale@[k].1 == before@.sessions[stale@[k].0].tunnel_ip,
                self@.sessions == Map::new(
                    |x: u32|
                        before@.sessions.contains_key(x) && forall|k: int|
                            0 <= k < i ==> (#[trigger] stale@[k]).0 != x,
                    |x: u32| before@.sessions[x],
                ),
            decreases stale@.len() - i,
        {
            let (index, ip) = stale[i];
            let ghost mid = *self;
            self.expire(index, ip);
            i += 1;
            proof {
                let want = Map::new(
                    |x: u32|
                        before@.sessions.contains_key(x) && forall|k: int|
                            0 <= k < i ==> (#[trigger] stale@[k]).0 != x,
                    |x: u32| before@.sessions[x],
                );
                assert forall|x: u32| self@.sessions.contains_key(x) <==> #[trigger] want.contains_key(x) by {
                    if self@.sessions.contains_key(x) {
                        assert(mid@.sessions.contains_key(x));
                    }
                    if want.contains_key(x) {
                        assert(stale@[i - 1].0 != x);
                        assert(mid@.sessions.contains_key(x));
                    }
                }
                assert(self@.sessions =~= want);
            }
        }
        proof {
            let kept = unstale(before@.sessions, limit, now);
            assert forall|x: u32| self@.sessions.contains_key(x) <==> #[trigger] kept.contains_key(x) by {
                if before@.sessions.contains_key(x) {
                    let e = (x, before@.sessions[x].tunnel_ip);
                    if is_stale(before@.sessions[x], limit, now) {
                        assert(stale@.contains(e));
                        let k = choose|k: int| 0 <= k < stale@.len() && stale@[k] == e;
                        assert(stale@[k].0 == x);
                    } else {
                        assert forall|k: int| 0 <= k < i implies (#[trigger] stale@[k]).0 != x by {
                            assert(stale@.contains(stale@[k]));
                        }
                    }
                }
            }
            assert(self@.sessions =~= kept);
        }
        stale
    }

    /// Ends idle sessions and shows what is left in the statistics.
    pub fn reap_and_report(&mut self, idle_secs: u64, stats: &mut RuntimeStats, now: u64) -> (r: Vec<
        (u32, Ipv4Addr),
    >)
        requires
            old(self).wf(),
        ensures
            final(self).wf(),
            final(self)@ == (ServerView {
                sessions: unstale(old(self)@.sessions, idle_limit(idle_secs), now),
                rate: old(self)@.rate.collected(now),
                ..old(self)@
            }),
            forall|e: (u32, Ipv4Addr)| #[trigger]
                r@.contains(e) <==> {
                    &&& old(self)@.sessions.contains_key(e.0)
                    &&& is_stale(old(self)@.sessions[e.0], idle_limit(idle_secs), now)
                    &&& e.1 == old(self)@.sessions[e.0].tunnel_ip
                },
            forall|i: int, j: int|
                0 <= i < j < r@.len() ==> (#[trigger] r@[i]).0 != (#[trigger] r@[j]).0,
            lists(final(stats).peers@, final(self)@.sessions, now),
            *final(stats) == (RuntimeStats {
                active_sessions: final(self)@.sessions.dom().len() as u64,
                peers: final(stats).peers,
                ..*old(stats)
            }),
    {
        let dead: Vec<(u32, Ipv4Addr)> = self.reap(idle_secs, now);
        stats.set_sessions(self.session_count());
        stats.set_peers(self.peer_snapshots(now));
        dead
    }

    /// The sessions that have been idle for too long.
    fn stale(&self, limit: u64, now: u64) -> (r: Vec<(u32, Ipv4Addr)>)
        ensures
            forall|e: (u32, Ipv4Addr)| #[trigger]
                r@.contains(e) <==> {
                    &&& self@.sessions.contains_key(e.0)
                    &&& is_stale(self@.sessions[e.0], limit, now)
                    &&& e.1 == self@.sessions[e.0].tunnel_ip
                },
            forall|k: int|
                0 <= k < r@.len() ==> self@.sessions.contains_key((#[trigger] r@[k]).0) && r@[k].1
                    == self@.sessions[r@[k].0].tunnel_ip,
            forall|i: int, j: int|
                0 <= i < j < r@.len() ==> (#[trigger] r@[i]).0 != (#[trigger] r@[j]).0,
    {
        let mut out: Vec<(u32, Ipv4Addr)> = Vec::new();
        let ghost mut seen: Seq<(&u32, &LiveSession)> = Seq::empty();
        let ghost mut from: Seq<int> = Seq::empty();
        for kv in it: self.by_index.iter()
            invariant
                seen == it.seq().take(it.index()),
                from.len() == out@.len(),
                forall|k: int|
                    0 <= k < from.len() ==> 0 <= #[trigger] from[k] < seen.len() && *seen[from[k]].0
                        == out@[k].0,
                forall|i: int, j: int| 0 <= i < j < from.len() ==> from[i] < from[j],
                forall|e: (u32, Ipv4Addr)| #[trigger]
                    out@.contains(e) <==> exists|k: int|
                        0 <= k < seen.len() && *(#[trigger] seen[k]).0 == e.0 && is_stale(
                            seen[k].1@,
                            limit,
                            now,
                        ) && e.1 == seen[k].1.tunnel_ip,
        {
            let (index, live) = kv;
            let ghost before = out@;
            let ghost some = seen;
            proof {
                seen = seen.push(kv);
                assert(seen =~= it.seq().take(it.index() + 1));
            }
            if time::exceeds(time::elapsed(now, live.last_seen), limit) {
                let e: (u32, Ipv4Addr) = (*index, live.tunnel_ip);
                out.push(e);
                proof {
                    from = from.push(seen.len() - 1);
                }
                assert(forall|x: (u32, Ipv4Addr)|
                    #![trigger out@.contains(x)]
                    out@.contains(x) <==> before.contains(x) || x == e) by {
                    assert(out@[out@.len() - 1] == e);
                    assert forall|x: (u32, Ipv4Addr)| before.contains(x) implies #[trigger] out@.contains(x) by {
                        let k = choose|k: int| 0 <= k < before.len() && before[k] == x;
                        assert(out@[k] == x);
                    }
                }
            }
            proof {
                assert forall|e: (u32, Ipv4Addr)| #[trigger] out@.contains(e) <==> exists|k: int|
                    0 <= k < seen.len() && *(#[trigger] seen[k]).0 == e.0 && is_stale(seen[k].1@, limit, now)
                        && e.1 == seen[k].1.tunnel_ip by {
                    let last = seen.len() - 1;
                    assert(seen[last] == kv);
                    if before.contains(e) {
                        let k = choose|k: int|
                            0 <= k < some.len() && *(#[trigger] some[k]).0 == e.0 && is_stale(some[k].1@, limit, now)
                                && e.1 == some[k].1.tunnel_ip;
                        assert(seen[k] == some[k]);
                    }
                    if exists|k: int|
                        0 <= k < seen.len() && *(#[trigger] seen[k]).0 == e.0 && is_stale(seen[k].1@, limit, now)
                            && e.1 == seen[k].1.tunnel_ip {
                        let k = choose|k: int|
                            0 <= k < seen.len() && *(#[trigger] seen[k]).0 == e.0 && is_stale(seen[k].1@, limit, now)
                                && e.1 == seen[k].1.tunnel_ip;
                        if k < last {
                            assert(some[k] == seen[k]);
                        }
                    }
                }
            }
        }
        proof {
            let seq = vstd::std_specs::iter::IteratorSpec::remaining(
                &spec_hash_map_iter(&self.by_index),
            );
            let m = self@.sessions;
            assert(seen =~= seq);
            assert forall|e: (u32, Ipv4Addr)| #[trigger] out@.contains(e) <==> {
                &&& m.contains_key(e.0)
                &&& is_stale(m[e.0], limit, now)
                &&& e.1 == m[e.0].tunnel_ip
            } by {
                if out@.contains(e) {
                    let k = choose|k: int|
                        0 <= k < seen.len() && *(#[trigger] seen[k]).0 == e.0 && is_stale(seen[k].1@, limit, now)
                            && e.1 == seen[k].1.tunnel_ip;
                    assert(self.by_index@.contains_key(*seq[k].0));
                    assert(self.by_index@[*seq[k].0] == *seq[k].1);
                }
                if m.contains_key(e.0) && is_stale(m[e.0], limit, now) && e.1 == m[e.0].tunnel_ip {
                    assert(self.by_index@.contains_key(e.0));
                    assert(seq.contains((&e.0, &self.by_index@[e.0])));
                    let k = choose|k: int| 0 <= k < seq.len() && seq[k] == (&e.0, &self.by_index@[e.0]);
                    assert(*seen[k].0 == e.0);
                }
            }
            assert forall|k: int| 0 <= k < out@.len() implies m.contains_key((#[trigger] out@[k]).0) && out@[k].1
                == m[out@[k].0].tunnel_ip by {
                assert(out@.contains(out@[k]));
            }
            assert forall|i: int, j: int| 0 <= i < j < out@.len() implies (#[trigger] out@[i]).0 != (
            #[trigger] out@[j]).0 by {
                let a = from[i];
                let b = from[j];
                assert(self.by_index@[*seq[a].0] == *seq[a].1);
                assert(self.by_index@[*seq[b].0] == *seq[b].1);
                assert(seq[a] != seq[b]);
            }
        }
        out
    }

    /// Ends the session `index` of the tunnel address `ip`.
    fn expire(&mut self, index: u32, ip: Ipv4Addr)
        requires
            old(self).wf(),
            old(self)@.sessions.contains_key(index) ==> old(self)@.sessions[index].tunnel_ip == ip,
        ensures
            final(self).wf(),
            final(self)@ == (ServerView {
                sessions: old(self)@.sessions.remove(index),
                ..old(self)@
            }),
    {
        let ghost before = *self;
        let bits: u32 = ip.to_bits();
        self.by_index.remove(&index);
        let filed: bool = match self.by_ip.get(&bits) {
            Some(i) => *i == index,
            None => false,
        };
        if filed {
            self.by_ip.remove(&bits);
        }
        proof {
            if before.by_index@.contains_key(index) {
                assert(before@.sessions.contains_key(index));
            }
            assert(self@.sessions =~= before@.sessions.remove(index));
        }
    }

    /// Opens a data packet of the session `index` to the front of `plain`. The
    /// peer's endpoint moves to `src` only where the packet opens. `None` where
    /// there is no such session; else the tunnel address of the session beside
    /// the outcome.
    pub fn open_packet(
        &mut self,
        index: u32,
        packet: &[u8],
        src: &SocketAddr,
        plain: &mut [u8],
        now: u64,
    ) -> (r: Option<(Result<usize, CryptoError>, Ipv4Addr)>)
        requires
            old(self).wf(),
        ensures
            final(self).wf(),
            final(plain)@.len() == old(plain)@.len(),
            !old(self)@.sessions.contains_key(index) ==> r is None && final(self)@ == old(self)@
                && final(plain)@ == old(plain)@,
            old(self)@.sessions.contains_key(index) ==> {
                let live = old(self)@.sessions[index];
                match live.session.delivers(packet@, old(plain)@.len()) {
                    Ok(opened) => {
                        &&& r == Some((Ok::<usize, CryptoError>(opened.len() as usize), live.tunnel_ip))
                        &&& opened.len() <= old(plain)@.len()
                        &&& final(plain)@ == opened + old(plain)@.skip(opened.len() as int)
                        &&& final(self)@ == old(self)@.heard(index, packet@, *src, now)
                    },
                    Err(e) => {
                        &&& r == Some((Err::<usize, CryptoError>(e), live.tunnel_ip))
                        &&& final(self)@ == old(self)@.misheard(index, packet@)
                    },
                }
            },
    {
        let ghost before = *self;
        let mut live: LiveSession = match self.by_index.remove(&index) {
            Some(live) => live,
            None => {
                assert(self@.sessions =~= before@.sessions);
                return None;
            },
        };
        assert(before.by_index@.contains_key(index));
        let ip: Ipv4Addr = live.tunnel_ip;
        let r: Result<usize, CryptoError> = live.session.decrypt(packet, plain);
        if r.is_ok() {
            live.peer_addr = src.clone();
            live.last_seen = now;
        }
        self.by_index.insert(index, live);
        proof {
            if r is Ok {
                assert(self@.sessions =~= before@.heard(index, packet@, *src, now).sessions);
            } else {
                assert(self@.sessions =~= before@.misheard(index, packet@).sessions);
            }
        }
        Some((r, ip))
    }

    /// Seals a packet for a tunnel address to the front of `wire`, and says
    /// where to send it. `None` where the address has no session.
    pub fn seal_packet(
        &mut self,
        ip: Ipv4Addr,
        packet: &[u8],
        wire: &mut [u8],
        now: u64,
    ) -> (r: Option<Result<(usize, SocketAddr), CryptoError>>)
        requires
            old(self).wf(),
        ensures
            final(self).wf(),
            final(wire)@.len() == old(wire)@.len(),
            match session_for(old(self)@.sessions, ip) {
                None => r is None && final(self)@ == old(self)@ && final(wire)@ == old(wire)@,
                Some(index) => {
                    let live = old(self)@.sessions[index];
                    match live.session.send_error(packet@, old(wire)@.len()) {
                        None => {
                            let sealed = live.session.packet(packet@);
                            &&& r == Some(
                                Ok::<(usize, SocketAddr), CryptoError>(
                                    (sealed.len() as usize, live.peer_addr),
                                ),
                            )
                            &&& live.session.wrote(packet@, sealed)
                            &&& final(wire)@ == sealed + old(wire)@.skip(sealed.len() as int)
                            &&& final(self)@ == old(self)@.spoke(index, now)
                        },
                        Some(e) => {
                            &&& r == Some(Err::<(usize, SocketAddr), CryptoError>(e))
                            &&& final(self)@ == old(self)@
                        },
                    }
                },
            },
    {
        let ghost before = *self;
        let bits: u32 = ip.to_bits();
        let index: u32 = match self.by_ip.get(&bits) {
            Some(index) => *index,
            None => {
                proof {
                    assert forall|i: u32| #[trigger] before@.sessions.contains_key(i) implies
                        before@.sessions[i].tunnel_ip != ip by {
                        assert(before.by_index@.contains_key(i));
                    }
                }
                return None;
            },
        };
        proof {
            self.law_one_session_per_tunnel_ip();
            assert(before.by_index@.contains_key(index));
            net::law_bits_are_injective(before.by_index@[index].tunnel_ip, ip);
            assert(before@.sessions.contains_key(index) && before@.sessions[index].tunnel_ip == ip);
            assert(session_for(before@.sessions, ip) == Some(index));
        }
        let mut live: LiveSession = match self.by_index.remove(&index) {
            Some(live) => live,
            None => {
                return None;
            },
        };
        let peer: SocketAddr = live.peer_addr.clone();
        let r: Result<usize, CryptoError> = live.session.encrypt(packet, wire);
        if r.is_ok() {
            live.last_seen = now;
        }
        self.by_index.insert(index, live);
        proof {
            if r is Ok {
                assert(self@.sessions =~= before@.spoke(index, now).sessions);
            } else {
                assert(self@.sessions =~= before@.sessions);
            }
        }
        match r {
            Ok(len) => Some(Ok((len, peer))),
            Err(e) => Some(Err(e)),
        }
    }
}

} // verus!
