use soulvpn::config::{encode_key, ConfigError, PeerConfig, ServerConfig};
use soulvpn::crypto::{
    generate_keypair, CryptoError, HandshakeInitiator, HandshakeResponder, NoiseProblem, Session,
};
use soulvpn::net::{IpAddr, Ipv4Addr, SocketAddr};
use soulvpn::packet::ipv4_src;
use soulvpn::server::traffic::sort_plaintext;
use soulvpn::server::{
    Downlink, PeerTable, RateLimit, Received, ServerError, Setup, State, Uplink,
};
use soulvpn::stats::{Role, RuntimeStats};

const SEC: u64 = 1_000_000_000;

fn addr(last: u8, port: u16) -> SocketAddr {
    SocketAddr::V4 { ip: Ipv4Addr::new(192, 0, 2, last), port }
}

fn stats() -> RuntimeStats {
    RuntimeStats::new(
        Role::Server,
        "0.0.0.0:51820".to_string(),
        "10.66.66.1/24".to_string(),
        "soulvpn0".to_string(),
        0,
        0,
    )
}

fn ip_packet(src: [u8; 4], dst: [u8; 4], tail: &[u8]) -> Vec<u8> {
    let mut p = vec![0u8; 20];
    p[0] = 0x45;
    p[12..16].copy_from_slice(&src);
    p[16..20].copy_from_slice(&dst);
    p.extend_from_slice(tail);
    p
}

struct Net {
    private: [u8; 32],
    public: [u8; 32],
    clients: Vec<[u8; 32]>,
    state: State,
    stats: RuntimeStats,
}

fn net(clients: u8) -> Net {
    let (private, public) = generate_keypair().unwrap();
    let mut peers = PeerTable::new();
    let mut keys: Vec<[u8; 32]> = Vec::new();
    for i in 0..clients {
        let (cli_priv, cli_pub) = generate_keypair().unwrap();
        peers.insert(cli_pub, Ipv4Addr::new(10, 66, 66, 2 + i));
        keys.push(cli_priv);
    }
    let state = State::new(peers, RateLimit::new(100, 10));
    Net { private, public, clients: keys, state, stats: stats() }
}

impl Net {
    fn open(&self, client: usize) -> (HandshakeInitiator, Vec<u8>) {
        let mut init = HandshakeInitiator::new(&self.clients[client], &self.public).unwrap();
        let mut buf = [0u8; 256];
        let n = init.write_init(&mut buf).unwrap();
        (init, buf[..n].to_vec())
    }

    fn connect(&mut self, client: usize, src: &SocketAddr, now: u64) -> Session {
        let (init, opening) = self.open(client);
        let private = self.private;
        let mut plain = vec![0u8; 2048];
        match self.state.receive(&private, &opening, src, &mut plain, &mut self.stats, now, 1) {
            Received::Respond(response) => init.finish(&response).unwrap(),
            _ => panic!("no response"),
        }
    }

    fn receive(&mut self, datagram: &[u8], src: &SocketAddr, now: u64) -> (Downlink, Vec<u8>) {
        let private = self.private;
        let mut plain = vec![0u8; 2048];
        match self.state.receive(&private, datagram, src, &mut plain, &mut self.stats, now, 2) {
            Received::Data(fate) => (fate, plain),
            _ => panic!("taken for a handshake"),
        }
    }
}

fn seal(session: &mut Session, plain: &[u8]) -> Vec<u8> {
    let mut out = vec![0u8; 4096];
    let n = session.encrypt(plain, &mut out).unwrap();
    out.truncate(n);
    out
}

#[test]
fn policy_requires_matching_source() {
    // Unit-level: simulate allowed check logic.
    let allowed = Ipv4Addr::new(10, 66, 66, 2);
    let mut pkt = [0u8; 20];
    pkt[0] = 0x45;
    pkt[12..16].copy_from_slice(&[10, 66, 66, 2]);
    pkt[16..20].copy_from_slice(&[8, 8, 8, 8]);
    assert_eq!(ipv4_src(&pkt), Some(allowed));
    assert_eq!(sort_plaintext(&pkt, allowed), Downlink::Deliver(20));
    pkt[12..16].copy_from_slice(&[10, 66, 66, 3]);
    assert_ne!(ipv4_src(&pkt), Some(allowed));
    assert_eq!(
        sort_plaintext(&pkt, allowed),
        Downlink::Spoofed(Ipv4Addr::new(10, 66, 66, 3))
    );
}

#[test]
fn endpoint_only_after_valid_session_crypto() {
    // Ensure decrypt failure path is the one that must not update addr.
    let (srv_priv, srv_pub) = generate_keypair().unwrap();
    let (cli_priv, _) = generate_keypair().unwrap();
    let mut init = HandshakeInitiator::new(&cli_priv, &srv_pub).unwrap();
    let mut buf = [0u8; 256];
    let n = init.write_init(&mut buf).unwrap();
    let resp = HandshakeResponder::new(&srv_priv).unwrap();
    let (mut srv, response) = resp.finish(&buf[..n], 42).unwrap();
    let mut cli = init.finish(&response).unwrap();
    let mut enc = [0u8; 128];
    let en = cli.encrypt(b"x", &mut enc).unwrap();
    // Corrupt ciphertext
    enc[en - 1] ^= 0xff;
    let mut out = [0u8; 128];
    assert!(srv.decrypt(&enc[..en], &mut out).is_err());
}

#[test]
fn endpoint_moves_with_valid_packets_only() {
    let mut net = net(1);
    let home = addr(1, 1000);
    let away = addr(2, 2000);
    let mut session = net.connect(0, &home, 0);
    let shown = |net: &Net| net.state.peer_snapshots(0)[0].endpoint.clone();
    assert_eq!(shown(&net), "192.0.2.1:1000");

    let mut forged = seal(&mut session, &ip_packet([10, 66, 66, 2], [8, 8, 8, 8], b"a"));
    let last = forged.len() - 1;
    forged[last] ^= 1;
    let (fate, _) = net.receive(&forged, &away, 1);
    assert_eq!(fate, Downlink::Unopened(CryptoError::NoiseDecrypt));
    assert_eq!(net.stats.decrypt_errors, 1);
    assert_eq!(shown(&net), "192.0.2.1:1000");

    let good = seal(&mut session, &ip_packet([10, 66, 66, 2], [8, 8, 8, 8], b"a"));
    let (fate, plain) = net.receive(&good, &away, 2);
    assert_eq!(fate, Downlink::Deliver(21));
    assert_eq!(&plain[..21], &ip_packet([10, 66, 66, 2], [8, 8, 8, 8], b"a")[..]);
    assert_eq!(shown(&net), "192.0.2.2:2000");

    // The same datagram again.
    let (fate, _) = net.receive(&good, &home, 3);
    assert_eq!(fate, Downlink::Unopened(CryptoError::Replayed(1)));
    assert_eq!(shown(&net), "192.0.2.2:2000");
}

#[test]
fn policy_drops_are_counted() {
    let mut net = net(1);
    let src = addr(1, 1);
    let mut session = net.connect(0, &src, 0);
    let spoofed = seal(&mut session, &ip_packet([10, 66, 66, 9], [8, 8, 8, 8], b""));
    let (fate, _) = net.receive(&spoofed, &src, 1);
    assert_eq!(fate, Downlink::Spoofed(Ipv4Addr::new(10, 66, 66, 9)));
    let junk = seal(&mut session, b"not an ip packet");
    assert_eq!(net.receive(&junk, &src, 1).0, Downlink::NotIpv4);
    assert_eq!(net.stats.policy_drops, 2);
    assert_eq!(net.stats.decrypt_errors, 0);
}

#[test]
fn keepalives_are_noticed() {
    let mut net = net(1);
    let src = addr(1, 1);
    let mut session = net.connect(0, &src, 0);
    net.stats.last_activity_ms = 0;
    let alive = seal(&mut session, b"");
    assert_eq!(net.receive(&alive, &src, 5 * SEC).0, Downlink::Keepalive);
    assert_eq!(net.stats.last_activity_ms, 2);
    assert_eq!(net.state.peer_snapshots(7 * SEC)[0].idle_secs, 2);
    assert_eq!(net.state.peer_snapshots(7 * SEC)[0].last_handshake_ago_secs, 7);
}

#[test]
fn odd_datagrams() {
    let mut net = net(1);
    let src = addr(1, 1);
    assert_eq!(net.receive(&[], &src, 0).0, Downlink::Ignore);
    assert_eq!(net.receive(&[9; 11], &src, 0).0, Downlink::Ignore);
    assert_eq!(net.receive(&[9; 12], &src, 0).0, Downlink::UnknownSession(0x0909_0909));
    let private = net.private;
    let mut plain = vec![0u8; 64];
    let reply = net.state.receive(&private, &[1, 2, 3], &src, &mut plain, &mut net.stats, 0, 0);
    let problem = CryptoError::Noise(NoiseProblem::Input);
    assert!(matches!(reply, Received::Rejected(ServerError::Crypto(e)) if e == problem));
    assert_eq!(net.stats.handshakes_fail, 1);
}

#[test]
fn off_drops_data_but_takes_handshakes() {
    let mut net = net(1);
    let src = addr(1, 1);
    let mut session = net.connect(0, &src, 0);
    net.stats.set_enabled(false, 0);
    let packet = seal(&mut session, &ip_packet([10, 66, 66, 2], [8, 8, 8, 8], b""));
    assert_eq!(net.receive(&packet, &addr(9, 9), 1).0, Downlink::Ignore);
    assert_eq!(net.state.peer_snapshots(0)[0].endpoint, "192.0.2.1:1");
    let out = ip_packet([8, 8, 8, 8], [10, 66, 66, 2], b"");
    let mut wire = vec![0u8; 2048];
    assert!(matches!(
        net.state.handle_packet(&out, &mut wire, &mut net.stats, 1),
        Uplink::Ignore
    ));
    net.connect(0, &src, 2);
    assert_eq!(net.stats.handshakes_ok, 2);
}

#[test]
fn packets_go_to_their_peer() {
    let mut net = net(2);
    let a = addr(1, 1);
    let b = addr(2, 2);
    let mut first = net.connect(0, &a, 0);
    let mut second = net.connect(1, &b, 0);
    assert_eq!(net.state.session_count(), 2);
    assert_eq!(net.stats.active_sessions, 2);
    assert_eq!(net.stats.peers.len(), 2);

    let mut wire = vec![0u8; 2048];
    let packet = ip_packet([8, 8, 8, 8], [10, 66, 66, 3], b"hi");
    match net.state.handle_packet(&packet, &mut wire, &mut net.stats, SEC) {
        Uplink::Send(len, to) => {
            assert_eq!(to.to_text(), "192.0.2.2:2");
            let mut plain = [0u8; 64];
            assert_eq!(second.decrypt(&wire[..len], &mut plain), Ok(22));
            assert_eq!(&plain[..22], &packet[..]);
            assert!(first.decrypt(&wire[..len], &mut plain).is_err());
        }
        _ => panic!("not sent"),
    }
    let nobody = ip_packet([8, 8, 8, 8], [10, 66, 66, 99], b"");
    assert!(matches!(
        net.state.handle_packet(&nobody, &mut wire, &mut net.stats, SEC),
        Uplink::Ignore
    ));
    assert!(matches!(
        net.state.handle_packet(b"junk", &mut wire, &mut net.stats, SEC),
        Uplink::Ignore
    ));
    let mut short = [0u8; 40];
    assert!(matches!(
        net.state.handle_packet(&packet, &mut short, &mut net.stats, SEC),
        Uplink::Unsealed(CryptoError::OutputTooSmall)
    ));
    assert_eq!(net.stats.encrypt_errors, 1);
}

#[test]
fn reconnecting_replaces_the_session() {
    let mut net = net(2);
    let src = addr(1, 1);
    let mut old = net.connect(0, &src, 0);
    let mut other = net.connect(1, &src, 0);
    let mut new = net.connect(0, &src, 1);
    assert_eq!(net.state.session_count(), 2);
    let stale = seal(&mut old, b"");
    assert_eq!(net.receive(&stale, &src, 2).0, Downlink::UnknownSession(old.index));
    let alive = seal(&mut other, b"");
    assert_eq!(net.receive(&alive, &src, 2).0, Downlink::Keepalive);
    let alive = seal(&mut new, b"");
    assert_eq!(net.receive(&alive, &src, 2).0, Downlink::Keepalive);
}

#[test]
fn unknown_peers_are_refused() {
    let mut net = net(1);
    let (stranger, _) = generate_keypair().unwrap();
    net.clients.push(stranger);
    let (_, opening) = net.open(1);
    let private = net.private;
    let r = net.state.handle_handshake(&private, &opening, &addr(1, 1), &mut net.stats, 0, 0);
    assert_eq!(r, Err(ServerError::UnknownPeer(addr(1, 1))));
    assert_eq!(net.state.session_count(), 0);
}

#[test]
fn index_collisions_are_refused() {
    let mut net = net(2);
    let src = addr(1, 1);
    let private = net.private;
    let (_, opening) = net.open(0);
    assert!(net.state.answer(&private, &opening, &src, 40, &mut net.stats, 0, 0).is_ok());
    let (_, opening) = net.open(1);
    let r = net.state.answer(&private, &opening, &src, 40, &mut net.stats, 0, 0);
    assert_eq!(r, Err(ServerError::IndexCollision));
    assert_eq!(net.state.session_count(), 1);
    // The peer's own old session is no obstacle.
    let (_, opening) = net.open(0);
    assert!(net.state.answer(&private, &opening, &src, 40, &mut net.stats, 0, 0).is_ok());
    assert_eq!(net.state.session_count(), 1);
    assert!(net.state.has_index(40));
    let drawn = net.state.alloc_index().unwrap();
    assert_ne!(drawn, 40);
    assert!(drawn & 0xff != 1 && drawn & 0xff != 2);
}

#[test]
fn handshakes_are_rate_limited() {
    let mut net = net(1);
    net.state = {
        let mut peers = PeerTable::new();
        let (_, public) = generate_keypair().unwrap();
        peers.insert(public, Ipv4Addr::new(10, 66, 66, 2));
        State::new(peers, RateLimit::new(2, 10))
    };
    let private = net.private;
    let (_, opening) = net.open(0);
    let mut ask = |src: &SocketAddr, now: u64| {
        net.state.handle_handshake(&private, &opening, src, &mut net.stats, now, 0).err()
    };
    assert_eq!(ask(&addr(1, 1), 0), Some(ServerError::UnknownPeer(addr(1, 1))));
    assert_eq!(ask(&addr(1, 2), SEC), Some(ServerError::UnknownPeer(addr(1, 2))));
    assert_eq!(ask(&addr(1, 3), 2 * SEC), Some(ServerError::RateLimited(addr(1, 3))));
    assert_eq!(ask(&addr(2, 1), 2 * SEC), Some(ServerError::UnknownPeer(addr(2, 1))));
    assert_eq!(ask(&addr(1, 1), 10 * SEC - 1), Some(ServerError::RateLimited(addr(1, 1))));
    assert_eq!(ask(&addr(1, 1), 10 * SEC), Some(ServerError::UnknownPeer(addr(1, 1))));
    assert_eq!(ask(&addr(1, 1), 10 * SEC), Some(ServerError::RateLimited(addr(1, 1))));
}

#[test]
fn rate_limit_counts_per_window() {
    let v4 = IpAddr::V4(Ipv4Addr::new(1, 2, 3, 4));
    let v6 = IpAddr::V6(0x0102_0304);
    let mut rate = RateLimit::new(0, 0); // one per second
    assert!(rate.allow(v4, 0));
    assert!(!rate.allow(v4, SEC - 1));
    assert!(rate.allow(v6, SEC - 1));
    assert!(rate.allow(v4, SEC));
    // Forgetting what is old changes nothing.
    rate.gc(SEC + 1);
    assert!(!rate.allow(v4, 2 * SEC - 1));
    assert!(!rate.allow(v6, 2 * SEC - 2));
    rate.gc(10 * SEC);
    assert!(rate.allow(v4, 10 * SEC));
    assert!(rate.allow(v6, 10 * SEC));
    // A clock that goes back.
    assert!(!rate.allow(v4, 0));
}

#[test]
fn idle_sessions_end() {
    let mut net = net(2);
    let src = addr(1, 1);
    let idle = net.connect(0, &src, 0);
    let mut busy = net.connect(1, &src, 0);
    let alive = seal(&mut busy, b"");
    net.receive(&alive, &src, 40 * SEC);
    assert!(net.state.reap(5, 30 * SEC).is_empty()); // thirty seconds at least
    let ended = net.state.reap(5, 31 * SEC);
    assert_eq!(ended, vec![(idle.index, Ipv4Addr::new(10, 66, 66, 2))]);
    assert_eq!(net.state.session_count(), 1);
    assert!(net.state.has_index(busy.index));
    assert!(net.state.reap(60, 100 * SEC).is_empty());
    assert_eq!(net.state.reap(60, 101 * SEC).len(), 1);
}

#[test]
fn reaping_refreshes_the_status() {
    let mut net = net(2);
    let near = addr(1, 1000);
    net.connect(0, &near, 0);
    net.connect(1, &addr(2, 1000), 50 * SEC);
    assert_eq!(net.stats.active_sessions, 2);
    let ended = net.state.reap_and_report(60, &mut net.stats, 61 * SEC);
    assert_eq!(ended.len(), 1);
    assert_eq!(net.stats.active_sessions, 1);
    assert_eq!(net.stats.peers.len(), 1);
    assert_eq!(net.stats.peers[0].idle_secs, 11);
    assert!(net.state.reap_and_report(60, &mut net.stats, 70 * SEC).is_empty());
    assert_eq!(net.stats.peers[0].idle_secs, 20);
}

#[test]
fn later_packets_arrive_too() {
    let mut net = net(1);
    let src = addr(1, 1000);
    let mut client = net.connect(0, &src, 0);
    let plain = ip_packet([10, 66, 66, 2], [10, 66, 66, 1], b"data");
    let wires: Vec<Vec<u8>> = (0..5).map(|_| seal(&mut client, &plain)).collect();
    for i in [0, 4, 2, 1, 3] {
        let (fate, opened) = net.receive(&wires[i], &src, 0);
        assert_eq!(fate, Downlink::Deliver(plain.len()));
        assert_eq!(opened[..plain.len()], plain[..]);
    }
    assert_eq!(net.stats.handshakes_fail, 0);
    assert!(matches!(net.receive(&wires[2], &src, 0).0, Downlink::Unopened(_)));
}

#[test]
fn peers_by_key() {
    let mut peers = PeerTable::new();
    assert_eq!(peers.get(&[1; 32]), None);
    peers.insert([1; 32], Ipv4Addr::new(1, 1, 1, 1));
    peers.insert([2; 32], Ipv4Addr::new(2, 2, 2, 2));
    peers.insert([1; 32], Ipv4Addr::new(3, 3, 3, 3));
    assert_eq!(peers.get(&[1; 32]), Some(Ipv4Addr::new(3, 3, 3, 3)));
    assert_eq!(peers.get(&[2; 32]), Some(Ipv4Addr::new(2, 2, 2, 2)));
    assert_eq!(peers.get(&[3; 32]), None);
}

fn config(address: &str, mode: &str, peers: Vec<PeerConfig>) -> ServerConfig {
    ServerConfig {
        listen: addr(1, 51820),
        private_key: None,
        private_key_file: None,
        address: address.to_string(),
        mtu: 1400,
        nat: false,
        control_mode: mode.to_string(),
        session_idle_secs: 180,
        handshake_rate_limit: 1,
        handshake_rate_window_secs: 10,
        peers,
    }
}

#[test]
fn setup_reads_the_configuration() {
    let peer = |key: &str, ip: &str| PeerConfig {
        public_key: key.to_string(),
        allowed_ip: ip.to_string(),
    };
    let key = encode_key(&[3; 32]);
    let cfg = config("10.66.66.1/24", "0660", vec![peer(&key, "10.66.66.2/32")]);
    let setup = Setup::new(&cfg, &None).ok().unwrap();
    assert_eq!(setup.address, Ipv4Addr::new(10, 66, 66, 1));
    assert_eq!((setup.prefix, setup.control_mode), (24, 0o660));
    assert_eq!(setup.state.allowed_ip(&[3; 32]), Some(Ipv4Addr::new(10, 66, 66, 2)));
    assert_eq!(setup.state.session_count(), 0);

    let error = |cfg: ServerConfig| Setup::new(&cfg, &None).err();
    let good = || vec![peer(&key, "10.66.66.2")];
    assert_eq!(error(config("10.66.66.1", "x", good())), Some(ConfigError::NotCidr));
    assert_eq!(error(config("10.66.66.1/24", "x", good())), Some(ConfigError::BadMode));
    let bad_key = vec![peer(&key, "10.66.66.2"), peer("AAAA", "bad"), peer("!", "bad")];
    assert_eq!(
        error(config("10.66.66.1/24", "0600", bad_key)),
        Some(ConfigError::KeyLength(3))
    );
    let bad_ip = vec![peer(&key, "bad")];
    assert_eq!(error(config("10.66.66.1/24", "0600", bad_ip)), Some(ConfigError::BadIpv4));
}

#[test]
fn server_messages() {
    let v6 = || SocketAddr::V6 {
        addr: 1,
        port: 9,
        shown: "[::1]:9".to_string(),
        host: "::1".to_string(),
    };
    let v4 = || SocketAddr::V4 { ip: Ipv4Addr::new(203, 0, 113, 5), port: 4000 };
    assert_eq!(
        ServerError::RateLimited(v4()).message(),
        "handshake rate limited from 203.0.113.5"
    );
    assert_eq!(ServerError::RateLimited(v6()).message(), "handshake rate limited from ::1");
    assert_eq!(ServerError::NoFreeIndex.message(), "no free session index");
    let problem = CryptoError::Noise(NoiseProblem::Decrypt);
    assert_eq!(ServerError::Crypto(problem).message(), "decrypt error");
    assert_eq!(ServerError::NoRemoteStatic.message(), "missing remote static after IK");
    assert_eq!(
        ServerError::UnknownPeer(v4()).message(),
        "unknown peer public key from 203.0.113.5:4000"
    );
    assert_eq!(
        ServerError::UnknownPeer(v6()).message(),
        "unknown peer public key from [::1]:9"
    );
    assert_eq!(
        ServerError::IndexCollision.message(),
        "session index collision; retry handshake"
    );
}
