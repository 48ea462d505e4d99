use soulvpn::client::{Dial, DialStep, Downlink, SessionSlot, Timers, Uplink, Upkeep, ATTEMPTS};
use soulvpn::crypto::{generate_keypair, CryptoError, HandshakeResponder, Session};
use soulvpn::stats::{Role, RuntimeStats};

const SEC: u64 = 1_000_000_000;

fn stats() -> RuntimeStats {
    RuntimeStats::new(
        Role::Client,
        "192.0.2.1:51820".to_string(),
        "10.66.66.2/24".to_string(),
        "soulvpn".to_string(),
        0,
        0,
    )
}

fn dial() -> ([u8; 32], Dial, Vec<u8>) {
    let (srv_priv, srv_pub) = generate_keypair().unwrap();
    let (cli_priv, _) = generate_keypair().unwrap();
    let (dial, opening) = Dial::start(&cli_priv, &srv_pub).ok().unwrap();
    (srv_priv, dial, opening)
}

fn connect() -> (Session, Session) {
    let (srv_priv, dial, opening) = dial();
    let responder = HandshakeResponder::new(&srv_priv).unwrap();
    let (srv, response) = responder.finish(&opening, 8).unwrap();
    match dial.step(Some(response)) {
        Ok(DialStep::Connected(session)) => (session, srv),
        _ => panic!("not connected"),
    }
}

fn timers() -> Timers {
    Timers { keepalive_secs: 25, rekey_secs: 120, reconnect_timeout_secs: 45 }
}

#[test]
fn dial_gives_up_after_ten_attempts() {
    let (srv_priv, mut dial, first) = dial();
    assert_eq!(first.len(), 97);
    let mut openings = 1;
    let junk = [None, Some(vec![2, 0, 0, 0, 0]), Some(Vec::new()), Some(first.clone())];
    let mut last = first;
    for i in 0..100 {
        match dial.step(junk[i % junk.len()].clone()) {
            Ok(DialStep::Again(next, opening)) => {
                assert_ne!(opening, last);
                dial = next;
                last = opening;
                openings += 1;
            }
            Ok(DialStep::GaveUp) => {
                assert_eq!(openings, ATTEMPTS);
                assert_eq!(openings, 10);
                let responder = HandshakeResponder::new(&srv_priv).unwrap();
                assert!(responder.finish(&last, 1).is_ok());
                return;
            }
            _ => panic!("connected to nobody"),
        }
    }
    panic!("never gave up");
}

#[test]
fn dial_connects_on_a_later_attempt() {
    let (srv_priv, dial, _) = dial();
    let (dial, opening) = match dial.step(None) {
        Ok(DialStep::Again(dial, opening)) => (dial, opening),
        _ => panic!("no second attempt"),
    };
    let responder = HandshakeResponder::new(&srv_priv).unwrap();
    let (_, response) = responder.finish(&opening, 8).unwrap();
    assert!(matches!(dial.step(Some(response)), Ok(DialStep::Connected(s)) if s.index == 8));
}

#[test]
fn packets_go_both_ways() {
    let (cli, mut srv) = connect();
    let mut slot = SessionSlot::new(cli, 0);
    let mut stats = stats();
    let mut wire = vec![0u8; 256];
    let len = match slot.handle_packet(b"out", &mut wire, &mut stats, 3) {
        Uplink::Send(len) => len,
        _ => panic!("not sent"),
    };
    assert_eq!(slot.last_tx, 3);
    let mut plain = vec![0u8; 256];
    assert_eq!(srv.decrypt(&wire[..len], &mut plain), Ok(3));
    assert_eq!(&plain[..3], b"out");

    let n = srv.encrypt(b"back", &mut wire).unwrap();
    let fate = slot.handle_datagram(&wire[..n], &mut plain, &mut stats, 5, 9);
    assert_eq!(fate, Downlink::Deliver(4));
    assert_eq!(&plain[..4], b"back");
    assert_eq!(slot.last_rx, 5);
    let fate = slot.handle_datagram(&wire[..n], &mut plain, &mut stats, 6, 9);
    assert_eq!(fate, Downlink::Unopened(CryptoError::Replayed(0)));
    assert_eq!(slot.last_rx, 5);
    assert_eq!(stats.decrypt_errors, 1);

    let n = srv.encrypt(b"", &mut wire).unwrap();
    let fate = slot.handle_datagram(&wire[..n], &mut plain, &mut stats, 7, 9);
    assert_eq!(fate, Downlink::Keepalive);
    assert_eq!((slot.last_rx, stats.last_activity_ms), (7, 9));

    let mut short = [0u8; 30];
    let fate = slot.handle_packet(b"out", &mut short, &mut stats, 8);
    assert_eq!(fate, Uplink::Unsealed(CryptoError::OutputTooSmall));
    assert_eq!(stats.encrypt_errors, 1);
}

#[test]
fn off_drops_everything() {
    let (cli, mut srv) = connect();
    let mut slot = SessionSlot::new(cli, 0);
    let mut stats = stats();
    stats.set_enabled(false, 0);
    let mut wire = vec![0u8; 256];
    assert_eq!(slot.handle_packet(b"out", &mut wire, &mut stats, 3), Uplink::Ignore);
    let n = srv.encrypt(b"back", &mut wire).unwrap();
    let mut plain = vec![0u8; 256];
    let fate = slot.handle_datagram(&wire[..n], &mut plain, &mut stats, 5, 9);
    assert_eq!(fate, Downlink::Ignore);
    assert_eq!((slot.last_tx, slot.last_rx), (0, 0));
    assert_eq!(slot.upkeep(&timers(), false, 1000 * SEC), Upkeep::Nothing);
}

#[test]
fn upkeep_goes_by_the_clock() {
    let (cli, _) = connect();
    let mut slot = SessionSlot::new(cli, 0);
    let t = timers();
    assert_eq!(slot.upkeep(&t, true, 0), Upkeep::Nothing);
    assert_eq!(slot.upkeep(&t, true, 25 * SEC - 1), Upkeep::Nothing);
    assert_eq!(slot.upkeep(&t, true, 25 * SEC), Upkeep::Keepalive);
    slot.last_tx = 20 * SEC;
    assert_eq!(slot.upkeep(&t, true, 25 * SEC), Upkeep::Nothing);
    assert_eq!(slot.upkeep(&t, true, 45 * SEC), Upkeep::Reconnect);
    slot.last_rx = 110 * SEC;
    slot.last_tx = 110 * SEC;
    assert_eq!(slot.upkeep(&t, true, 119 * SEC), Upkeep::Nothing);
    assert_eq!(slot.upkeep(&t, true, 120 * SEC), Upkeep::Rekey);
    slot.last_rx = 0;
    assert_eq!(slot.upkeep(&t, true, 120 * SEC), Upkeep::Reconnect);
    let never = Timers { keepalive_secs: 0, rekey_secs: 0, reconnect_timeout_secs: 1 };
    slot.last_rx = 111 * SEC;
    assert_eq!(slot.upkeep(&never, true, 120 * SEC), Upkeep::Nothing);
    assert_eq!(slot.upkeep(&never, true, 121 * SEC), Upkeep::Reconnect); // ten seconds at least
}

#[test]
fn keepalive_is_an_empty_packet() {
    let (cli, mut srv) = connect();
    let mut slot = SessionSlot::new(cli, 0);
    let mut wire = [0u8; 64];
    assert_eq!(slot.keepalive(&mut wire, 4), Ok(28));
    assert_eq!(slot.last_tx, 4);
    let mut plain = [0u8; 64];
    assert_eq!(srv.decrypt(&wire[..28], &mut plain), Ok(0));
    assert_eq!(slot.keepalive(&mut [0u8; 27], 5), Err(CryptoError::OutputTooSmall));
    assert_eq!(slot.last_tx, 4);
}

#[test]
fn renewal_is_counted() {
    let (cli, _) = connect();
    let mut slot = SessionSlot::new(cli, 0);
    let mut stats = stats();
    slot.renew(None, Upkeep::Rekey, &mut stats, 50, 1);
    assert_eq!((stats.handshakes_fail, slot.established), (1, 0));
    let (next, _) = connect();
    slot.renew(Some(next), Upkeep::Rekey, &mut stats, 60, 2);
    assert_eq!((slot.established, slot.last_rx, slot.last_tx), (60, 60, 60));
    assert_eq!((stats.handshakes_ok, stats.reconnects, stats.last_activity_ms), (1, 0, 2));
    let (next, _) = connect();
    slot.renew(Some(next), Upkeep::Reconnect, &mut stats, 70, 3);
    assert_eq!((stats.handshakes_ok, stats.reconnects), (2, 1));
}
