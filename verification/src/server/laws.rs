//! What the server keeps, whatever arrives.

use super::handshake;
use super::handshake::ServerError;
use super::sessions;
use super::sessions::{LiveView, ServerView};
use super::traffic;
use super::traffic::Downlink;
use crate::crypto::error::CryptoError;
use crate::crypto::handshake as noise_handshake;
use crate::crypto::keys;
use crate::crypto::noise;
use crate::crypto::noise::NoiseHandshake;
use crate::crypto::session;
use crate::crypto::session::{SessionView, HEADER_LEN};
use crate::net::{Ipv4Addr, SocketAddr};
use crate::packet;
use crate::stats::{PeerSnapshot, RuntimeStats};
use crate::wire;
use vstd::prelude::*;

verus! {

/// A packet goes to the TUN device only with the tunnel address of its session
/// as its source.
pub proof fn law_delivered_source_is_the_peers(
    server: ServerView,
    enabled: bool,
    datagram: Seq<u8>,
    room: nat,
)
    requires
        server.routes(enabled, datagram, room) is Deliver,
    ensures
        ({
            let plaintext = server.plaintext(datagram, room);
            let live = server.sessions[session::packet_index(datagram) as u32];
            &&& server.sessions.contains_key(session::packet_index(datagram) as u32)
            &&& packet::has_ipv4_header(plaintext)
            &&& packet::source(plaintext) == live.tunnel_ip
        }),
{
}

/// The endpoint of a session moves only to the source of a packet that the
/// session opened.
pub proof fn law_endpoint_moves_only_after_opening(
    server: ServerView,
    enabled: bool,
    datagram: Seq<u8>,
    room: nat,
    src: SocketAddr,
    now: u64,
    index: u32,
)
    requires
        server.sessions.contains_key(index),
    ensures
        ({
            let after = server.routed(enabled, datagram, room, src, now);
            &&& after.sessions.contains_key(index)
            &&& after.sessions[index].tunnel_ip == server.sessions[index].tunnel_ip
            &&& after.sessions[index].peer_addr != server.sessions[index].peer_addr ==> {
                &&& index == session::packet_index(datagram) as u32
                &&& server.sessions[index].session.delivers(datagram, room) is Ok
                &&& after.sessions[index].peer_addr == src
            }
        }),
{
}

/// A peer may roam: what a datagram does to the sessions does not depend on
/// where it comes from, but for the endpoint of the session that opens it.
pub proof fn law_peers_may_roam(
    server: ServerView,
    enabled: bool,
    datagram: Seq<u8>,
    room: nat,
    src: SocketAddr,
    other: SocketAddr,
    now: u64,
    index: u32,
)
    ensures
        ({
            let after = server.routed(enabled, datagram, room, src, now).sessions;
            let elsewhere = server.routed(enabled, datagram, room, other, now).sessions;
            &&& after.contains_key(index) == elsewhere.contains_key(index)
            &&& after.contains_key(index) ==> after[index] == (LiveView {
                peer_addr: after[index].peer_addr,
                ..elsewhere[index]
            })
            &&& server.sessions.contains_key(index) && index != session::packet_index(datagram)
                ==> after[index] == server.sessions[index]
        }),
{
}

/// While the data plane is off, data from either side is dropped and changes
/// nothing.
pub proof fn law_off_drops_data(
    server: ServerView,
    datagram: Seq<u8>,
    room: nat,
    src: SocketAddr,
    now: u64,
    plain: Seq<u8>,
)
    ensures
        server.routes(false, datagram, room) == Downlink::Ignore,
        server.routed(false, datagram, room, src, now) == server,
        server.target(false, plain) is None,
{
}

/// Datagrams and packets keep sessions under their own index and tunnel
/// addresses apart.
pub proof fn law_traffic_keeps_order(
    server: ServerView,
    enabled: bool,
    datagram: Seq<u8>,
    room: nat,
    src: SocketAddr,
    now: u64,
    index: u32,
)
    requires
        server.wf(),
    ensures
        server.routed(enabled, datagram, room, src, now).wf(),
        server.sessions.contains_key(index) ==> server.spoke(index, now).wf(),
{
    let after = server.routed(enabled, datagram, room, src, now);
    assert(after.sessions.dom() =~= server.sessions.dom());
    if server.sessions.contains_key(index) {
        assert(server.spoke(index, now).sessions.dom() =~= server.sessions.dom());
    }
}

/// A datagram that was opened once is refused from then on, wherever it comes
/// from.
pub proof fn law_datagram_opens_once(
    server: ServerView,
    datagram: Seq<u8>,
    room: nat,
    src: SocketAddr,
    now: u64,
    again_room: nat,
)
    requires
        server.sessions.contains_key(session::packet_index(datagram) as u32),
        server.sessions[session::packet_index(datagram) as u32].session.window.wf(),
        datagram.len() >= HEADER_LEN,
        !(server.routes(true, datagram, room) is Unopened),
    ensures
        server.routed(true, datagram, room, src, now).routes(true, datagram, again_room)
            == Downlink::Unopened(
            CryptoError::Replayed(session::packet_nonce(datagram) as u64),
        ),
{
    let live = server.sessions[session::packet_index(datagram) as u32];
    session::law_packet_delivered_once(live.session, datagram, Seq::empty());
}

/// A session index that is drawn never makes a data packet look like a
/// handshake.
pub proof fn law_data_is_no_handshake(index: u32, nonce: u64, sealed: Seq<u8>)
    requires
        keys::index_is_data(index),
    ensures
        !traffic::is_init(session::data_packet(index, nonce, sealed)),
{
    let p = session::data_packet(index, nonce, sealed);
    assert(p[0] == wire::u32_le(index)[0]);
}

/// A peer that connects again replaces its own session and no other.
pub proof fn law_reconnect_replaces_own_session(
    before: ServerView,
    after: ServerView,
    stats_before: RuntimeStats,
    stats_after: RuntimeStats,
    private: Seq<u8>,
    datagram: Seq<u8>,
    index: u32,
    src: SocketAddr,
    now: u64,
    now_ms: u64,
    r: Result<Vec<u8>, ServerError>,
    other: u32,
)
    requires
        handshake::answered(
            before,
            after,
            stats_before,
            stats_after,
            private,
            datagram,
            index,
            src,
            now,
            now_ms,
            r,
        ),
        r is Ok,
    ensures
        ({
            let ip = handshake::greets(before.peers, private, datagram, src)->Ok_0;
            &&& after.sessions.contains_key(index)
            &&& after.sessions[index].tunnel_ip == ip
            &&& after.sessions.contains_key(other) && after.sessions[other].tunnel_ip == ip ==> other
                == index
            &&& before.sessions.contains_key(other) && before.sessions[other].tunnel_ip != ip ==> {
                &&& after.sessions.contains_key(other)
                &&& after.sessions[other] == before.sessions[other]
            }
        }),
{
}

/// A peer is known by its key: the opening of a configured client is taken for
/// the tunnel address configured with its public key, and that of any other
/// client is refused.
pub proof fn law_peers_are_known_by_key(
    peers: Map<Seq<u8>, Ipv4Addr>,
    client_private: Seq<u8>,
    server_private: Seq<u8>,
    initiator: NoiseHandshake,
    opening: Seq<u8>,
    src: SocketAddr,
)
    requires
        server_private.len() == 32,
        noise_handshake::opened(
            client_private,
            noise::x25519_public(server_private),
            initiator,
            opening,
        ),
    ensures
        handshake::greets(peers, server_private, opening, src) == if peers.contains_key(
            noise::x25519_public(client_private),
        ) {
            Ok(peers[noise::x25519_public(client_private)])
        } else {
            Err(ServerError::UnknownPeer(src))
        },
{
    assert(noise::ik_init_static(server_private, opening.skip(1)) == Some(initiator.local()));
}

/// A configured client that the server answers is connected: it takes the
/// response, the two ends are paired, with fresh nonces both ways, and the
/// server has filed its end under the client's tunnel address.
pub proof fn law_answered_client_is_connected(
    before: ServerView,
    after: ServerView,
    stats_before: RuntimeStats,
    stats_after: RuntimeStats,
    client_private: Seq<u8>,
    server_private: Seq<u8>,
    initiator: NoiseHandshake,
    opening: Seq<u8>,
    index: u32,
    src: SocketAddr,
    now: u64,
    now_ms: u64,
    response: Vec<u8>,
)
    requires
        client_private.len() == 32,
        server_private.len() == 32,
        noise_handshake::opened(
            client_private,
            noise::x25519_public(server_private),
            initiator,
            opening,
        ),
        handshake::answered(
            before,
            after,
            stats_before,
            stats_after,
            server_private,
            opening,
            index,
            src,
            now,
            now_ms,
            Ok(response),
        ),
    ensures
        noise_handshake::response_error(initiator, response@) is None,
        ({
            let client = noise_handshake::established(
                initiator.exchanged(noise_handshake::response_message(response@)),
                noise_handshake::response_index(response@) as u32,
            );
            let live = after.sessions[index];
            &&& before.peers.contains_key(noise::x25519_public(client_private))
            &&& after.sessions.contains_key(index)
            &&& live.tunnel_ip == before.peers[noise::x25519_public(client_private)]
            &&& client.paired(live.session)
            &&& live.session.paired(client)
            &&& live.session.window.fresh(client.send_nonce as nat)
            &&& client.window.fresh(live.session.send_nonce as nat)
        }),
{
    law_peers_are_known_by_key(
        before.peers,
        client_private,
        server_private,
        initiator,
        opening,
        src,
    );
    noise_handshake::law_handshake_pairs_sessions(
        client_private,
        server_private,
        initiator,
        opening,
        index,
        response@,
        after.sessions[index].session,
    );
}

/// What the other end of a live session wrote is never taken for a handshake:
/// it is looked up by its index and opened, as long as its nonce is fresh, and
/// what was inside decides its fate.
pub proof fn law_session_packet_is_opened(
    server: ServerView,
    client: SessionView,
    index: u32,
    plaintext: Seq<u8>,
    datagram: Seq<u8>,
    room: nat,
)
    requires
        server.wf(),
        server.sessions.contains_key(index),
        client.paired(server.sessions[index].session),
        client.send_error(plaintext, datagram.len()) is None,
        client.wrote(plaintext, datagram),
        server.sessions[index].session.window.fresh(client.send_nonce as nat),
        room >= plaintext.len(),
    ensures
        !traffic::is_init(datagram),
        session::packet_index(datagram) == index,
        server.routes(true, datagram, room) == traffic::sorted(
            plaintext,
            server.sessions[index].tunnel_ip,
        ),
        server.plaintext(datagram, room) == plaintext,
{
    let sealed = noise::noise_seal(client.send_key, client.send_nonce, plaintext);
    session::law_sent_packet_is_delivered(
        client,
        server.sessions[index].session,
        plaintext,
        datagram,
        room,
    );
    session::law_packet_fields(client.index, client.send_nonce, sealed);
    law_data_is_no_handshake(client.index, client.send_nonce, sealed);
}

/// What a client sends through the tunnel arrives: a packet that the other end
/// of a live session wrote, with a nonce that is fresh and from its own tunnel
/// address, is no handshake, and goes to the TUN device. No failure is counted.
pub proof fn law_client_packet_is_delivered(
    server: ServerView,
    client: SessionView,
    index: u32,
    plaintext: Seq<u8>,
    datagram: Seq<u8>,
    room: nat,
    stats: RuntimeStats,
    now_ms: u64,
)
    requires
        server.wf(),
        server.sessions.contains_key(index),
        client.paired(server.sessions[index].session),
        client.send_error(plaintext, datagram.len()) is None,
        client.wrote(plaintext, datagram),
        server.sessions[index].session.window.fresh(client.send_nonce as nat),
        packet::has_ipv4_header(plaintext),
        packet::source(plaintext) == server.sessions[index].tunnel_ip,
        room >= plaintext.len(),
    ensures
        !traffic::is_init(datagram),
        server.routes(true, datagram, room) == Downlink::Deliver(plaintext.len() as usize),
        server.plaintext(datagram, room) == plaintext,
        traffic::downlink_stats(stats, server.routes(true, datagram, room), now_ms) == stats,
{
    law_session_packet_is_opened(server, client, index, plaintext, datagram, room);
}

/// What the server sends to a tunnel address arrives at the peer: a packet for
/// the address of a live session is sealed for that session, and the other end
/// opens it, as long as the nonce is fresh there.
pub proof fn law_tun_packet_reaches_the_peer(
    server: ServerView,
    client: SessionView,
    index: u32,
    plaintext: Seq<u8>,
    datagram: Seq<u8>,
    room: nat,
)
    requires
        server.wf(),
        server.sessions.contains_key(index),
        server.sessions[index].session.paired(client),
        packet::has_ipv4_header(plaintext),
        packet::destination(plaintext) == server.sessions[index].tunnel_ip,
        server.sessions[index].session.send_error(plaintext, datagram.len()) is None,
        server.sessions[index].session.wrote(plaintext, datagram),
        client.window.fresh(server.sessions[index].session.send_nonce as nat),
        room >= plaintext.len(),
    ensures
        server.target(true, plaintext) == Some(index),
        client.delivers(datagram, room) == Ok::<Seq<u8>, CryptoError>(plaintext),
{
    session::law_sent_packet_is_delivered(
        server.sessions[index].session,
        client,
        plaintext,
        datagram,
        room,
    );
    let ip = server.sessions[index].tunnel_ip;
    assert(server.sessions.contains_key(index) && server.sessions[index].tunnel_ip == ip);
}

/// A configured peer that may connect does connect: where the rate limit allows
/// it and some index is free, the opening that a client with a configured key
/// wrote to this server is answered, whatever and however many sessions there
/// are. Its session is filed under a new index and its tunnel address, and the
/// sessions of all others stay as they are.
pub proof fn law_configured_peer_connects(
    before: ServerView,
    after: ServerView,
    stats_before: RuntimeStats,
    stats_after: RuntimeStats,
    client_private: Seq<u8>,
    server_private: Seq<u8>,
    initiator: NoiseHandshake,
    opening: Seq<u8>,
    src: SocketAddr,
    now: u64,
    now_ms: u64,
    r: Result<Vec<u8>, ServerError>,
    free: u32,
)
    requires
        server_private.len() == 32,
        handshake::handled(
            before,
            after,
            stats_before,
            stats_after,
            server_private,
            opening,
            src,
            now,
            now_ms,
            r,
        ),
        noise_handshake::opened(
            client_private,
            noise::x25519_public(server_private),
            initiator,
            opening,
        ),
        before.rate.allows(src.host(), now),
        before.peers.contains_key(noise::x25519_public(client_private)),
        free % 256 != 1,
        free % 256 != 2,
        !before.sessions.contains_key(free),
    ensures
        r is Ok,
        ({
            let ip = before.peers[noise::x25519_public(client_private)];
            &&& exists|index: u32|
                {
                    &&& #[trigger] after.sessions.contains_key(index)
                    &&& !before.sessions.contains_key(index)
                    &&& after.sessions[index].session.index == index
                    &&& after.sessions[index].tunnel_ip == ip
                    &&& after.sessions[index].peer_addr == src
                    &&& after.sessions[index].last_seen == now
                    &&& after.sessions[index].established == now
                    &&& forall|i: u32| #[trigger]
                        after.sessions.contains_key(i) && i != index
                            ==> after.sessions[i].tunnel_ip != ip
                }
            &&& forall|i: u32| #[trigger]
                before.sessions.contains_key(i) && before.sessions[i].tunnel_ip != ip
                    ==> after.sessions.contains_key(i) && after.sessions[i] == before.sessions[i]
            &&& forall|i: u32| #[trigger]
                after.sessions.contains_key(i) && after.sessions[i].tunnel_ip != ip
                    ==> before.sessions.contains_key(i) && after.sessions[i] == before.sessions[i]
        }),
        after.peers == before.peers,
        stats_after.handshakes_fail == stats_before.handshakes_fail,
        stats_before.handshakes_ok < u64::MAX ==> stats_after.handshakes_ok
            == stats_before.handshakes_ok + 1,
        stats_after.active_sessions == after.sessions.dom().len() as u64,
{
    law_peers_are_known_by_key(
        before.peers,
        client_private,
        server_private,
        initiator,
        opening,
        src,
    );
    assert(sessions::is_free(before.sessions, free));
    let judged = ServerView { rate: before.rate.judged(src.host(), now), ..before };
    let index = choose|index: u32|
        sessions::is_free(before.sessions, index) && #[trigger] handshake::answered(
            judged,
            after,
            stats_before,
            stats_after,
            server_private,
            opening,
            index,
            src,
            now,
            now_ms,
            r,
        );
    assert(after.sessions.contains_key(index));
}

/// The same of one index: a known peer is refused exactly where another peer's
/// session has the index, and no session is lost by it but the peer's own.
pub proof fn law_only_a_taken_index_is_refused(
    before: ServerView,
    after: ServerView,
    stats_before: RuntimeStats,
    stats_after: RuntimeStats,
    private: Seq<u8>,
    datagram: Seq<u8>,
    index: u32,
    src: SocketAddr,
    now: u64,
    now_ms: u64,
    r: Result<Vec<u8>, ServerError>,
    key: Seq<u8>,
)
    requires
        handshake::answered(
            before,
            after,
            stats_before,
            stats_after,
            private,
            datagram,
            index,
            src,
            now,
            now_ms,
            r,
        ),
        1 <= datagram.len() <= 1 + 65535,
        datagram[0] == 1,
        noise::ik_init_static(private, datagram.skip(1)) == Some(key),
        before.peers.contains_key(key),
    ensures
        r is Err <==> before.sessions.contains_key(index) && before.sessions[index].tunnel_ip
            != before.peers[key],
        r is Err ==> r->Err_0 == ServerError::IndexCollision,
        r is Ok ==> after.sessions.contains_key(index) && after.sessions[index].tunnel_ip
            == before.peers[key],
        forall|i: u32| #[trigger]
            before.sessions.contains_key(i) && before.sessions[i].tunnel_ip != before.peers[key]
                ==> after.sessions.contains_key(i) && after.sessions[i] == before.sessions[i],
{
}

/// Who is let in, and why others are not: an opening is answered only where the
/// rate limit allows it and it shows the key of a configured peer. One that is
/// refused changes neither the sessions nor the counters, and the refusal names
/// the first thing that is wrong.
pub proof fn law_refused_openings_change_nothing(
    before: ServerView,
    after: ServerView,
    stats_before: RuntimeStats,
    stats_after: RuntimeStats,
    private: Seq<u8>,
    datagram: Seq<u8>,
    src: SocketAddr,
    now: u64,
    now_ms: u64,
    r: Result<Vec<u8>, ServerError>,
)
    requires
        handshake::handled(
            before,
            after,
            stats_before,
            stats_after,
            private,
            datagram,
            src,
            now,
            now_ms,
            r,
        ),
    ensures
        after.peers == before.peers,
        after.rate == before.rate.judged(src.host(), now),
        r is Ok ==> {
            &&& before.rate.allows(src.host(), now)
            &&& datagram.len() >= 1 && datagram[0] == 1
            &&& noise::ik_init_static(private, datagram.skip(1)) matches Some(key)
            &&& before.peers.contains_key(key)
        },
        r is Err ==> after.sessions == before.sessions && stats_after == stats_before,
        !before.rate.allows(src.host(), now) <==> r == Err::<Vec<u8>, ServerError>(
            ServerError::RateLimited(src),
        ),
        r == Err::<Vec<u8>, ServerError>(ServerError::UnknownPeer(src)) ==> {
            &&& noise::ik_init_static(private, datagram.skip(1)) matches Some(key)
            &&& !before.peers.contains_key(key)
        },
        r == Err::<Vec<u8>, ServerError>(ServerError::NoFreeIndex) ==> forall|i: u32|
            i % 256 != 1 && i % 256 != 2 ==> #[trigger] before.sessions.contains_key(i),
{
    if r == Err::<Vec<u8>, ServerError>(ServerError::NoFreeIndex) {
        assert forall|i: u32| i % 256 != 1 && i % 256 != 2 implies #[trigger] before.sessions.contains_key(
            i,
        ) by {
            assert(!sessions::is_free(before.sessions, i));
        }
    }
}

/// Roaming follows the peer: after a datagram that its session opened, the
/// endpoint of that session is where the datagram came from, whatever it was
/// before, and the next packet to its tunnel address is sent there. No other
/// session is touched.
pub proof fn law_roaming_follows_the_peer(
    server: ServerView,
    datagram: Seq<u8>,
    room: nat,
    src: SocketAddr,
    now: u64,
    index: u32,
    plain: Seq<u8>,
)
    requires
        server.wf(),
        server.sessions.contains_key(index),
        datagram.len() >= 12,
        wire::u32_of_le(datagram.take(4)) == index,
        server.sessions[index].session.delivers(datagram, room) is Ok,
        plain.len() >= 20,
        plain[0] / 16 == 4,
        plain.subrange(16, 20) == seq![
            server.sessions[index].tunnel_ip.a,
            server.sessions[index].tunnel_ip.b,
            server.sessions[index].tunnel_ip.c,
            server.sessions[index].tunnel_ip.d,
        ],
    ensures
        ({
            let after = server.routed(true, datagram, room, src, now);
            &&& after.sessions.contains_key(index)
            &&& after.sessions[index].peer_addr == src
            &&& after.sessions[index].last_seen == now
            &&& after.endpoint_for(true, plain) == Some(src)
            &&& forall|i: u32| i != index ==> {
                &&& #[trigger] after.sessions.contains_key(i) == server.sessions.contains_key(i)
                &&& server.sessions.contains_key(i) ==> after.sessions[i] == server.sessions[i]
            }
        }),
{
    let after = server.routed(true, datagram, room, src, now);
    assert(session::packet_index(datagram) == index);
    law_traffic_keeps_order(server, true, datagram, room, src, now, index);
    law_packets_find_their_session(after, plain, index);
}

/// A packet from the TUN device is for the session whose tunnel address it is
/// sent to, and no other; one that is not IPv4, or for no such address, is for
/// none.
pub proof fn law_packets_find_their_session(server: ServerView, plain: Seq<u8>, index: u32)
    requires
        server.wf(),
    ensures
        server.target(true, plain) == Some(index) <==> {
            &&& plain.len() >= 20
            &&& plain[0] / 16 == 4
            &&& server.sessions.contains_key(index)
            &&& plain.subrange(16, 20) == seq![
                server.sessions[index].tunnel_ip.a,
                server.sessions[index].tunnel_ip.b,
                server.sessions[index].tunnel_ip.c,
                server.sessions[index].tunnel_ip.d,
            ]
        },
        server.target(true, plain) == Some(index) ==> server.endpoint_for(true, plain) == Some(
            server.sessions[index].peer_addr,
        ),
        server.target(false, plain) is None,
{
    if plain.len() >= 20 {
        let d = plain.subrange(16, 20);
        let to = packet::destination(plain);
        assert(d =~= seq![plain[16], plain[17], plain[18], plain[19]]);
        assert(d[0] == plain[16] && d[1] == plain[17] && d[2] == plain[18] && d[3] == plain[19]);
        if server.sessions.contains_key(index) {
            let ip = server.sessions[index].tunnel_ip;
            let want = seq![ip.a, ip.b, ip.c, ip.d];
            assert(want[0] == ip.a && want[1] == ip.b && want[2] == ip.c && want[3] == ip.d);
            assert(d == want <==> to == ip);
        }
        let found = sessions::session_for(server.sessions, to);
        if server.sessions.contains_key(index) && server.sessions[index].tunnel_ip == to {
            assert(found is Some);
        }
    }
}

/// What a datagram that opens no handshake calls for: nothing while the data
/// plane is off or where it has no header, a session that has its index, that
/// the session opens it, and then what is inside.
pub proof fn law_datagrams_are_judged_in_order(
    server: ServerView,
    enabled: bool,
    datagram: Seq<u8>,
    room: nat,
)
    ensures
        ({
            let fate = server.routes(enabled, datagram, room);
            let index = wire::u32_of_le(datagram.take(4)) as u32;
            let live = server.sessions[index];
            &&& fate == Downlink::Ignore <==> !enabled || datagram.len() < 12
            &&& enabled && datagram.len() >= 12 && !server.sessions.contains_key(index) ==> fate
                == Downlink::UnknownSession(index)
            &&& enabled && datagram.len() >= 12 && server.sessions.contains_key(index) ==> match live.session.delivers(
                datagram,
                room,
            ) {
                Err(e) => fate == Downlink::Unopened(e),
                Ok(plaintext) => {
                    &&& fate == traffic::sorted(plaintext, live.tunnel_ip)
                    &&& server.plaintext(datagram, room) == plaintext
                },
            }
        }),
{
    if datagram.len() >= 12 {
        assert(session::packet_index(datagram) == wire::u32_of_le(datagram.take(4)));
    }
}

/// What is inside decides: nothing is a sign of life, an IPv4 packet from the
/// peer's own tunnel address is delivered whole, one from another address is
/// dropped as spoofed, and anything else is dropped.
pub proof fn law_inner_source_decides(plaintext: Seq<u8>, allowed: Ipv4Addr)
    requires
        plaintext.len() <= usize::MAX,
    ensures
        traffic::sorted(plaintext, allowed) == Downlink::Keepalive <==> plaintext.len() == 0,
        traffic::sorted(plaintext, allowed) == Downlink::Deliver(plaintext.len() as usize) <==> {
            &&& plaintext.len() >= 20
            &&& plaintext[0] / 16 == 4
            &&& plaintext.subrange(12, 16) == seq![allowed.a, allowed.b, allowed.c, allowed.d]
        },
        traffic::sorted(plaintext, allowed) is Deliver ==> traffic::sorted(plaintext, allowed)
            == Downlink::Deliver(plaintext.len() as usize),
        traffic::sorted(plaintext, allowed) == Downlink::NotIpv4 <==> plaintext.len() > 0 && (
        plaintext.len() < 20 || plaintext[0] / 16 != 4),
        traffic::sorted(plaintext, allowed) matches Downlink::Spoofed(claimed) ==> claimed
            != allowed && plaintext.subrange(12, 16) == seq![
            claimed.a,
            claimed.b,
            claimed.c,
            claimed.d,
        ],
{
    if plaintext.len() >= 20 {
        let s = plaintext.subrange(12, 16);
        let want = seq![allowed.a, allowed.b, allowed.c, allowed.d];
        assert(s =~= seq![plaintext[12], plaintext[13], plaintext[14], plaintext[15]]);
        assert(s[0] == plaintext[12] && s[1] == plaintext[13] && s[2] == plaintext[14] && s[3]
            == plaintext[15]);
        assert(want[0] == allowed.a && want[1] == allowed.b && want[2] == allowed.c && want[3]
            == allowed.d);
    }
}

/// What a datagram changes at the server: a packet that its session opened moves
/// the endpoint and the time of that session, one that it did not open changes
/// its window at most, and one of no session changes nothing.
pub proof fn law_datagrams_change_one_session(
    server: ServerView,
    datagram: Seq<u8>,
    room: nat,
    src: SocketAddr,
    now: u64,
    other: u32,
)
    requires
        datagram.len() >= 12,
    ensures
        ({
            let index = wire::u32_of_le(datagram.take(4)) as u32;
            let after = server.routed(true, datagram, room, src, now);
            let live = server.sessions[index];
            &&& after.peers == server.peers
            &&& after.rate == server.rate
            &&& !server.sessions.contains_key(index) ==> after == server
            &&& server.sessions.contains_key(index) ==> {
                &&& after.sessions.contains_key(index)
                &&& after.sessions[index].session == live.session.offered(datagram)
                &&& after.sessions[index].tunnel_ip == live.tunnel_ip
                &&& after.sessions[index].established == live.established
                &&& live.session.delivers(datagram, room) is Ok ==> after.sessions[index].peer_addr
                    == src && after.sessions[index].last_seen == now
                &&& live.session.delivers(datagram, room) is Err
                    ==> after.sessions[index].peer_addr == live.peer_addr
                    && after.sessions[index].last_seen == live.last_seen
            }
            &&& other != index ==> after.sessions.contains_key(other)
                == server.sessions.contains_key(other) && (server.sessions.contains_key(other)
                ==> after.sessions[other] == server.sessions[other])
        }),
{
    assert(session::packet_index(datagram) == wire::u32_of_le(datagram.take(4)));
}

/// What sending to a peer changes at the server: the nonce and the time of that
/// session, and nothing else; the endpoint stays where it is.
pub proof fn law_sending_changes_one_session(
    server: ServerView,
    index: u32,
    now: u64,
    other: u32,
)
    requires
        server.sessions.contains_key(index),
        server.sessions[index].session.send_nonce < u64::MAX,
    ensures
        ({
            let after = server.spoke(index, now);
            let live = server.sessions[index];
            &&& after.peers == server.peers
            &&& after.rate == server.rate
            &&& after.sessions.contains_key(index)
            &&& after.sessions[index].session.send_nonce == live.session.send_nonce + 1
            &&& after.sessions[index].session.send_key == live.session.send_key
            &&& after.sessions[index].session.recv_key == live.session.recv_key
            &&& after.sessions[index].session.index == live.session.index
            &&& after.sessions[index].session.window == live.session.window
            &&& after.sessions[index].peer_addr == live.peer_addr
            &&& after.sessions[index].tunnel_ip == live.tunnel_ip
            &&& after.sessions[index].established == live.established
            &&& after.sessions[index].last_seen == now
            &&& other != index ==> after.sessions.contains_key(other)
                == server.sessions.contains_key(other) && (server.sessions.contains_key(other)
                ==> after.sessions[other] == server.sessions[other])
        }),
{
}

/// What is counted of a datagram: a packet that did not open is one error more,
/// a packet that the policy refused is one drop more, a sign of life moves the
/// time of the last activity, and nothing else is touched.
pub proof fn law_dropped_packets_are_counted(before: RuntimeStats, fate: Downlink, now_ms: u64)
    requires
        before.decrypt_errors < u64::MAX,
        before.policy_drops < u64::MAX,
    ensures
        ({
            let after = traffic::downlink_stats(before, fate, now_ms);
            &&& after == (RuntimeStats {
                decrypt_errors: after.decrypt_errors,
                policy_drops: after.policy_drops,
                last_activity_ms: after.last_activity_ms,
                ..before
            })
            &&& after.decrypt_errors == before.decrypt_errors + if fate is Unopened {
                1int
            } else {
                0
            }
            &&& after.policy_drops == before.policy_drops + if fate is NotIpv4 || fate is Spoofed {
                1int
            } else {
                0
            }
            &&& after.last_activity_ms == if fate is Keepalive {
                now_ms
            } else {
                before.last_activity_ms
            }
        }),
{
}

/// A handshake that was refused is one failure more, and the refusal is passed
/// on; the response of one that was not is sent.
pub proof fn law_refused_handshakes_are_counted(
    before: RuntimeStats,
    after: RuntimeStats,
    reply: Result<Vec<u8>, ServerError>,
    r: traffic::Received,
)
    requires
        traffic::reported(before, after, reply, r),
        before.handshakes_fail < u64::MAX,
    ensures
        after.handshakes_fail == before.handshakes_fail + if reply is Err {
            1int
        } else {
            0
        },
        after == (RuntimeStats { handshakes_fail: after.handshakes_fail, ..before }),
        reply matches Ok(response) ==> r == traffic::Received::Respond(response),
        reply matches Err(e) ==> r == traffic::Received::Rejected(e),
{
}

/// A handshake is opened by the byte one.
pub proof fn law_openings_start_with_one(datagram: Seq<u8>)
    ensures
        traffic::is_init(datagram) <==> datagram.len() >= 1 && datagram[0] == 1,
{
}

/// A session ends exactly when nothing was heard from it, or sent to it, for
/// longer than is granted, which is what is configured but thirty seconds at
/// least; the others stay as they are.
pub proof fn law_idle_sessions_end(
    all: Map<u32, LiveView>,
    configured: u64,
    now: u64,
    index: u32,
)
    requires
        all.contains_key(index),
    ensures
        ({
            let granted: nat = if configured >= 30 {
                configured as nat
            } else {
                30
            };
            let left = sessions::unstale(all, sessions::idle_limit(configured), now);
            &&& left.contains_key(index) <==> all[index].last_seen + granted * 1_000_000_000 >= now
            &&& left.contains_key(index) ==> left[index] == all[index]
        }),
        forall|i: u32| #[trigger]
            sessions::unstale(all, sessions::idle_limit(configured), now).contains_key(i)
                ==> all.contains_key(i),
{
}

/// The status shows each session as it is: its tunnel address, its endpoint, its
/// index, and the whole seconds since its handshake and since it was last in
/// use.
pub proof fn law_status_shows_sessions(
    list: Seq<PeerSnapshot>,
    all: Map<u32, LiveView>,
    now: u64,
    index: u32,
)
    requires
        sessions::lists(list, all, now),
        all.contains_key(index),
        all[index].session.index == index,
        all[index].last_seen <= now,
        all[index].established <= now,
    ensures
        list.len() == all.dom().len(),
        exists|i: int|
            {
                &&& 0 <= i < list.len()
                &&& (#[trigger] list[i]).session_index == index
                &&& list[i].tunnel_ip@ == all[index].tunnel_ip.dotted()
                &&& list[i].endpoint@ == all[index].peer_addr.shown()
                &&& list[i].idle_secs == (now - all[index].last_seen) / 1_000_000_000
                &&& list[i].last_handshake_ago_secs == (now - all[index].established)
                    / 1_000_000_000
            },
{
    let i = choose|i: int| 0 <= i < list.len() && (#[trigger] list[i]).session_index == index;
    assert(sessions::shows(list[i], all[list[i].session_index], now));
}

/// An index may be drawn for a new session exactly where no session has it and
/// its first byte on the wire is no handshake type.
pub proof fn law_free_indices(all: Map<u32, LiveView>, index: u32)
    ensures
        sessions::is_free(all, index) <==> !all.contains_key(index) && wire::u32_le(index)[0] != 1
            && wire::u32_le(index)[0] != 2,
        sessions::is_free(all, index) ==> !sessions::is_full(all),
{
}

} // verus!
