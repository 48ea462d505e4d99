use soulvpn::crypto::keys::session_index_from;
use soulvpn::crypto::{
    generate_keypair, public_from_private, random_session_index, CryptoError, HandshakeInitiator,
    HandshakeResponder, NoiseProblem, ReplayWindow, Session, MAX_PAYLOAD,
};

fn connect(index: u32) -> (Session, Session) {
    let (srv_priv, srv_pub) = generate_keypair().unwrap();
    let (cli_priv, _) = generate_keypair().unwrap();
    let mut init = HandshakeInitiator::new(&cli_priv, &srv_pub).unwrap();
    let mut buf = [0u8; 256];
    let n = init.write_init(&mut buf).unwrap();
    let resp = HandshakeResponder::new(&srv_priv).unwrap();
    let (srv, response) = resp.finish(&buf[..n], index).unwrap();
    let cli = init.finish(&response).unwrap();
    (cli, srv)
}

#[test]
fn handshake_roundtrip() {
    let (srv_priv, srv_pub) = generate_keypair().unwrap();
    let (cli_priv, _cli_pub) = generate_keypair().unwrap();

    let mut init = HandshakeInitiator::new(&cli_priv, &srv_pub).unwrap();
    let mut buf = [0u8; 256];
    let n = init.write_init(&mut buf).unwrap();
    let init_msg = buf[..n].to_vec();

    let resp = HandshakeResponder::new(&srv_priv).unwrap();
    let (mut srv_sess, response) = resp.finish(&init_msg, random_session_index()).unwrap();

    let mut cli_sess = init.finish(&response).unwrap();
    assert_eq!(cli_sess.index, srv_sess.index);

    let plain = b"hello over noise";
    let mut enc = [0u8; 256];
    let en = cli_sess.encrypt(plain, &mut enc).unwrap();
    let mut dec = [0u8; 256];
    let dn = srv_sess.decrypt(&enc[..en], &mut dec).unwrap();
    assert_eq!(&dec[..dn], plain);

    // reverse direction
    let en = srv_sess.encrypt(b"pong", &mut enc).unwrap();
    let dn = cli_sess.decrypt(&enc[..en], &mut dec).unwrap();
    assert_eq!(&dec[..dn], b"pong");
}

#[test]
fn replay_window_rejects_duplicates() {
    let mut w = ReplayWindow::default();
    assert!(w.check_and_update(0));
    assert!(!w.check_and_update(0));
    assert!(w.check_and_update(5));
    assert!(w.check_and_update(3));
    assert!(!w.check_and_update(3));
    assert!(w.check_and_update(70)); // far ahead
    assert!(!w.check_and_update(5)); // outside window
}

#[test]
fn public_from_private_matches_noise() {
    let (privk, pubk) = generate_keypair().unwrap();
    assert_eq!(public_from_private(&privk), pubk);
}

#[test]
fn public_key_of_known_scalar() {
    // RFC 7748, section 6.1.
    let private = [
        0x77, 0x07, 0x6d, 0x0a, 0x73, 0x18, 0xa5, 0x7d, 0x3c, 0x16, 0xc1, 0x72, 0x51, 0xb2, 0x66,
        0x45, 0xdf, 0x4c, 0x2f, 0x87, 0xeb, 0xc0, 0x99, 0x2a, 0xb1, 0x77, 0xfb, 0xa5, 0x1d, 0xb9,
        0x2c, 0x2a,
    ];
    let public = [
        0x85, 0x20, 0xf0, 0x09, 0x89, 0x30, 0xa7, 0x54, 0x74, 0x8b, 0x7d, 0xdc, 0xb4, 0x3e, 0xf7,
        0x5a, 0x0d, 0xbf, 0x3a, 0x0d, 0x26, 0x38, 0x1a, 0xf4, 0xeb, 0xa4, 0xa9, 0x8e, 0xaa, 0x9b,
        0x4e, 0x6a,
    ];
    assert_eq!(public_from_private(&private), public);
}

#[test]
fn replay_window_edges() {
    let mut w = ReplayWindow::default();
    assert!(w.check_and_update(63));
    assert!(w.check_and_update(0)); // last nonce that is covered
    assert!(!w.check_and_update(0));
    assert!(w.check_and_update(64));
    assert!(!w.check_and_update(0)); // has left the window
    assert!(w.check_and_update(u64::MAX));
    assert!(!w.check_and_update(u64::MAX));
    assert!(w.check_and_update(u64::MAX - 63));
    assert!(!w.check_and_update(u64::MAX - 64));
}

#[test]
fn session_window_covers_1024_nonces() {
    let (mut cli, mut srv) = connect(9);
    let mut packets: Vec<Vec<u8>> = Vec::new();
    for _ in 0..1026 {
        let mut enc = [0u8; 64];
        let n = cli.encrypt(b"p", &mut enc).unwrap();
        packets.push(enc[..n].to_vec());
    }
    let mut out = [0u8; 64];
    assert_eq!(srv.decrypt(&packets[1024], &mut out), Ok(1));
    assert_eq!(srv.decrypt(&packets[1], &mut out), Ok(1)); // 1023 behind
    assert_eq!(srv.decrypt(&packets[0], &mut out), Err(CryptoError::Replayed(0))); // 1024 behind
    assert_eq!(srv.decrypt(&packets[500], &mut out), Ok(1));
    assert_eq!(srv.decrypt(&packets[500], &mut out), Err(CryptoError::Replayed(500)));
    assert_eq!(srv.decrypt(&packets[1025], &mut out), Ok(1));
}

#[test]
fn data_packets_are_framed() {
    let (mut cli, _srv) = connect(0x0403_0200);
    let mut enc = [0u8; 64];
    let n = cli.encrypt(b"abc", &mut enc).unwrap();
    assert_eq!(n, 12 + 3 + 16);
    assert_eq!(&enc[..12], &[0x00, 0x02, 0x03, 0x04, 0, 0, 0, 0, 0, 0, 0, 0]);
    cli.encrypt(b"abc", &mut enc).unwrap();
    assert_eq!(&enc[4..12], &[1, 0, 0, 0, 0, 0, 0, 0]);
}

#[test]
fn encrypt_errors() {
    let (mut cli, _srv) = connect(3);
    let big = vec![0u8; MAX_PAYLOAD + 1];
    let mut out = vec![0u8; 70000];
    assert_eq!(cli.encrypt(&big, &mut out), Err(CryptoError::PayloadTooLarge(65520)));
    let mut small = [0u8; 28];
    assert_eq!(cli.encrypt(b"x", &mut small), Err(CryptoError::OutputTooSmall));
    assert_eq!(cli.encrypt(b"", &mut small), Ok(28));
    assert_eq!(cli.encrypt(&big[..MAX_PAYLOAD], &mut out), Ok(12 + 65535));
}

#[test]
fn decrypt_errors() {
    let (mut cli, mut srv) = connect(0x30);
    let mut enc = [0u8; 64];
    let n = cli.encrypt(b"hello", &mut enc).unwrap();
    let mut out = [0u8; 64];
    assert_eq!(srv.decrypt(&enc[..27], &mut out), Err(CryptoError::PacketTooShort));
    let mut foreign = enc;
    foreign[0] ^= 0xff;
    assert_eq!(srv.decrypt(&foreign[..n], &mut out), Err(CryptoError::IndexMismatch));
    let mut forged = enc;
    forged[n - 1] ^= 1;
    assert_eq!(srv.decrypt(&forged[..n], &mut out), Err(CryptoError::NoiseDecrypt));
    // The forged packet has used up its nonce.
    assert_eq!(srv.decrypt(&enc[..n], &mut out), Err(CryptoError::Replayed(0)));
    let n = cli.encrypt(b"again", &mut enc).unwrap();
    assert_eq!(srv.decrypt(&enc[..n], &mut out), Ok(5));
    assert_eq!(&out[..5], b"again");
}

#[test]
fn packets_arrive_out_of_order() {
    let (mut cli, mut srv) = connect(77);
    let mut first = [0u8; 64];
    let mut second = [0u8; 64];
    let a = cli.encrypt(b"first", &mut first).unwrap();
    let b = cli.encrypt(b"second", &mut second).unwrap();
    let mut out = [0u8; 64];
    assert_eq!(srv.decrypt(&second[..b], &mut out), Ok(6));
    assert_eq!(&out[..6], b"second");
    assert_eq!(srv.decrypt(&first[..a], &mut out), Ok(5));
    assert_eq!(&out[..5], b"first");
}

#[test]
fn handshake_messages_have_their_shape() {
    let (srv_priv, srv_pub) = generate_keypair().unwrap();
    let (cli_priv, _) = generate_keypair().unwrap();
    let mut init = HandshakeInitiator::new(&cli_priv, &srv_pub).unwrap();
    let mut buf = [7u8; 256];
    assert_eq!(init.write_init(&mut buf), Ok(97));
    assert_eq!(buf[0], 1);
    assert_eq!(buf[97], 7);
    let resp = HandshakeResponder::new(&srv_priv).unwrap();
    let (_, response) = resp.finish(&buf[..97], 0xa1b2_c3d4).unwrap();
    assert_eq!(response.len(), 53);
    assert_eq!(&response[..5], &[2, 0xd4, 0xc3, 0xb2, 0xa1]);
}

#[test]
fn handshake_reveals_both_keys() {
    let (srv_priv, srv_pub) = generate_keypair().unwrap();
    let (cli_priv, cli_pub) = generate_keypair().unwrap();
    let mut init = HandshakeInitiator::new(&cli_priv, &srv_pub).unwrap();
    let mut buf = [0u8; 97];
    let n = init.write_init(&mut buf).unwrap();
    let (srv, response) = HandshakeResponder::new(&srv_priv).unwrap().finish(&buf[..n], 5).unwrap();
    let cli = init.finish(&response).unwrap();
    assert_eq!(srv.remote_static(), Some(cli_pub));
    assert_eq!(cli.remote_static(), Some(srv_pub));
    assert_eq!(srv.index(), 5);
    assert_eq!(cli.index(), 5);
}

#[test]
fn handshake_errors() {
    let (srv_priv, srv_pub) = generate_keypair().unwrap();
    let (cli_priv, _) = generate_keypair().unwrap();
    let mut init = HandshakeInitiator::new(&cli_priv, &srv_pub).unwrap();
    assert_eq!(init.write_init(&mut []), Err(CryptoError::EmptyBuffer));
    let mut short = [0u8; 96];
    assert_eq!(init.write_init(&mut short), Err(CryptoError::Noise(NoiseProblem::Input)));
    let mut buf = [0u8; 256];
    assert_eq!(init.write_init(&mut buf), Ok(97));
    let again = init.write_init(&mut buf);
    assert_eq!(again, Err(CryptoError::Noise(NoiseProblem::NotTurnToWrite)));
    assert_eq!(again.unwrap_err().message(), "state error: NotTurnToWrite");
    let early = HandshakeInitiator::new(&cli_priv, &srv_pub).unwrap();
    assert_eq!(
        early.finish(&[2; 53]).err(),
        Some(CryptoError::Noise(NoiseProblem::NotTurnToRead))
    );

    let finish = |msg: &[u8]| HandshakeResponder::new(&srv_priv).unwrap().finish(msg, 1).err();
    assert_eq!(finish(&[]), Some(CryptoError::NotInit));
    assert_eq!(finish(&[2, 0, 0]), Some(CryptoError::NotInit));
    assert_eq!(finish(&[1, 0, 0]), Some(CryptoError::Noise(NoiseProblem::Input)));
    assert_eq!(finish(&[1; 80]), Some(CryptoError::Noise(NoiseProblem::Input)));
    assert_eq!(finish(&[1; 81]), Some(CryptoError::Noise(NoiseProblem::Decrypt)));
    assert_eq!(finish(&[1; 97]), Some(CryptoError::Noise(NoiseProblem::Decrypt)));
    assert_eq!(finish(&vec![1; 65536]), Some(CryptoError::Noise(NoiseProblem::Decrypt)));
    assert_eq!(finish(&vec![1; 65537]), Some(CryptoError::Noise(NoiseProblem::Input)));

    let open = || {
        let mut init = HandshakeInitiator::new(&cli_priv, &srv_pub).unwrap();
        let mut buf = [0u8; 256];
        let n = init.write_init(&mut buf).unwrap();
        (init, buf[..n].to_vec())
    };
    assert_eq!(open().0.finish(&[]).err(), Some(CryptoError::NotResponse));
    assert_eq!(open().0.finish(&[1, 2, 3, 4, 5]).err(), Some(CryptoError::NotResponse));
    assert_eq!(open().0.finish(&[2, 0, 0]).err(), Some(CryptoError::ResponseTooShort));
    assert_eq!(open().0.finish(&[2, 0, 0, 0, 0, 9]).err(), Some(CryptoError::Noise(NoiseProblem::Input)));
    assert_eq!(open().0.finish(&[2; 36]).err(), Some(CryptoError::Noise(NoiseProblem::Input)));
    assert_eq!(open().0.finish(&[2; 37]).err(), Some(CryptoError::Noise(NoiseProblem::Decrypt)));
    // The answer to another opening.
    let (first, _) = open();
    let (_, other) = open();
    let (_, response) = HandshakeResponder::new(&srv_priv).unwrap().finish(&other, 1).unwrap();
    assert_eq!(first.finish(&response).err(), Some(CryptoError::Noise(NoiseProblem::Decrypt)));
}

#[test]
fn opening_for_another_server_is_refused() {
    let (_, srv_pub) = generate_keypair().unwrap();
    let (other_priv, _) = generate_keypair().unwrap();
    let (cli_priv, _) = generate_keypair().unwrap();
    let mut init = HandshakeInitiator::new(&cli_priv, &srv_pub).unwrap();
    let mut buf = [0u8; 256];
    let n = init.write_init(&mut buf).unwrap();
    let resp = HandshakeResponder::new(&other_priv).unwrap();
    assert_eq!(resp.finish(&buf[..n], 1).err(), Some(CryptoError::Noise(NoiseProblem::Decrypt)));
}

#[test]
fn keys_and_indices_differ() {
    let (a, _) = generate_keypair().unwrap();
    let (b, _) = generate_keypair().unwrap();
    assert_ne!(a, b);
    let mut drawn: Vec<u32> = Vec::new();
    for _ in 0..64 {
        let index = random_session_index();
        assert_ne!(index & 0xff, 1);
        assert_ne!(index & 0xff, 2);
        drawn.push(index);
    }
    drawn.sort();
    drawn.dedup();
    assert!(drawn.len() > 60);
}

#[test]
fn session_index_avoids_handshake_types() {
    let mut bytes = [0u8; 32];
    bytes[0] = 1;
    bytes[1] = 0xbb;
    assert_eq!(session_index_from(bytes), 0xbb00);
    bytes[0] = 2;
    assert_eq!(session_index_from(bytes), 0xbb00);
    bytes[0] = 3;
    bytes[3] = 0xff;
    assert_eq!(session_index_from(bytes), 0xff00_bb03);
}

#[test]
fn crypto_messages() {
    assert_eq!(CryptoError::PayloadTooLarge(65520).message(), "payload too large: 65520");
    assert_eq!(CryptoError::OutputTooSmall.message(), "encrypt output buffer too small");
    assert_eq!(CryptoError::PacketTooShort.message(), "data packet too short");
    assert_eq!(CryptoError::IndexMismatch.message(), "session index mismatch");
    assert_eq!(CryptoError::Replayed(12).message(), "replayed or stale nonce 12");
    assert_eq!(CryptoError::EmptyBuffer.message(), "empty buffer");
    assert_eq!(CryptoError::NotInit.message(), "expected handshake init (type 1)");
    assert_eq!(CryptoError::NotResponse.message(), "expected handshake response (type 2)");
    assert_eq!(CryptoError::ResponseTooShort.message(), "handshake response too short");
    assert_eq!(CryptoError::NoiseEncrypt.message(), "noise encrypt");
    assert_eq!(CryptoError::NoiseDecrypt.message(), "noise decrypt");
    let shown = |problem: NoiseProblem| CryptoError::Noise(problem).message();
    assert_eq!(shown(NoiseProblem::Input), "input error");
    assert_eq!(shown(NoiseProblem::Decrypt), "decrypt error");
    assert_eq!(shown(NoiseProblem::NotTurnToRead), "state error: NotTurnToRead");
    assert_eq!(
        shown(NoiseProblem::AlreadyFinished),
        "state error: HandshakeAlreadyFinished"
    );
    assert_eq!(shown(NoiseProblem::Other), "noise error");
}
