use soulvpn::cli::{control_socket, default_filter, switch_report, Verb};
use soulvpn::monitor::{
    gauge_label, polls, session_lines, switch_op, title_process, title_role, title_state,
    traffic_lines, Dashboard, History, Key, KeyAction,
};
use soulvpn::stats::{
    format_bytes, format_duration, format_rate, PeerSnapshot, Role, RuntimeStats, StatusSnapshot,
};

const SEC: u64 = 1_000_000_000;

fn sample() -> RuntimeStats {
    RuntimeStats::new(
        Role::Client,
        "1.2.3.4:51820".to_string(),
        "10.66.66.2/24".to_string(),
        "soulvpn".to_string(),
        10 * SEC,
        1000,
    )
}

fn reference_bytes(n: u64) -> String {
    const UNITS: [&str; 5] = ["B", "KiB", "MiB", "GiB", "TiB"];
    let mut v = n as f64;
    let mut i = 0;
    while v >= 1024.0 && i < UNITS.len() - 1 {
        v /= 1024.0;
        i += 1;
    }
    if i == 0 {
        format!("{n} B")
    } else {
        format!("{v:.2} {}", UNITS[i])
    }
}

#[test]
fn sizes() {
    assert_eq!(format_bytes(0), "0 B");
    assert_eq!(format_bytes(1023), "1023 B");
    assert_eq!(format_bytes(1024), "1.00 KiB");
    assert_eq!(format_bytes(1536), "1.50 KiB");
    assert_eq!(format_bytes(1024 * 1024 - 1), "1024.00 KiB");
    assert_eq!(format_bytes(1 << 40), "1.00 TiB");
    assert_eq!(format_bytes(u64::MAX), "16777216.00 TiB");
    assert_eq!(format_rate(2048), "2.00 KiB/s");
}

#[test]
fn sizes_match_floating_point() {
    let mut n: u64 = 1;
    for _ in 0..20000 {
        n = n.wrapping_mul(6364136223846793005).wrapping_add(1442695040888963407);
        for shift in [0, 7, 13, 20, 24, 31, 40, 47, 53] {
            let v = n >> shift;
            assert_eq!(format_bytes(v), reference_bytes(v));
        }
    }
    // Halves of a hundredth, and numbers beyond 53 bits.
    for k in 0..4096u64 {
        for v in [1024 + k, (1 << 20) + k * 5242, (1 << 53) + k, u64::MAX - k, (1 << 63) + k * 512] {
            assert_eq!(format_bytes(v), reference_bytes(v));
        }
    }
}

#[test]
fn durations() {
    assert_eq!(format_duration(0), "0s");
    assert_eq!(format_duration(59), "59s");
    assert_eq!(format_duration(60), "1m00s");
    assert_eq!(format_duration(3599), "59m59s");
    assert_eq!(format_duration(3600), "1h00m00s");
    assert_eq!(format_duration(90061), "25h01m01s");
}

#[test]
fn counters() {
    let mut s = sample();
    assert!(s.is_enabled());
    s.record_tx(100, 2000);
    s.record_rx(50, 3000);
    s.record_encrypt_err();
    s.record_decrypt_err();
    s.record_policy_drop();
    s.record_handshake_ok(4000);
    s.record_handshake_fail();
    s.record_reconnect();
    s.set_sessions(3);
    assert_eq!(s.last_activity_ms, 4000);
    s.touch_activity(5000);
    let snap = s.snapshot(75 * SEC, 42);
    assert_eq!(snap.uptime_secs, 65);
    assert_eq!((snap.tx_packets, snap.tx_bytes), (1, 100));
    assert_eq!((snap.rx_packets, snap.rx_bytes), (1, 50));
    assert_eq!((snap.encrypt_errors, snap.decrypt_errors, snap.policy_drops), (1, 1, 1));
    assert_eq!((snap.handshakes_ok, snap.handshakes_fail, snap.reconnects), (1, 1, 1));
    assert_eq!((snap.active_sessions, snap.last_activity_ms, snap.pid), (3, 5000, 42));
    assert_eq!(snap.endpoint, "1.2.3.4:51820");
    assert_eq!(snap.address, "10.66.66.2/24");
    assert_eq!(snap.tun_name, "soulvpn");
    assert!(snap.peers.is_empty());
    s.set_enabled(false, 6000);
    assert!(!s.is_enabled());
    assert_eq!(s.last_activity_ms, 6000);
    s.tx_bytes = u64::MAX;
    s.record_tx(2, 0);
    assert_eq!(s.tx_bytes, 1);
}

fn snapshot() -> StatusSnapshot {
    let mut s = sample();
    s.record_tx(2048, 2000);
    s.record_rx(10, 3000);
    s.snapshot(75 * SEC, 7)
}

#[test]
fn human_text() {
    let snap = snapshot();
    assert_eq!(
        snap.format_human(65_500),
        "soulvpn Client  [ON ]  pid 7\n\
         endpoint   1.2.3.4:51820\n\
         address    10.66.66.2/24\n\
         tun        soulvpn\n\
         uptime     1m05s\n\
         sessions   0\n\
         tx         1 pkts  2.00 KiB\n\
         rx         1 pkts  10 B\n\
         handshakes ok=0  fail=0  reconnects=0\n\
         errors     encrypt=0  decrypt=0  policy=0\n\
         last act   1m02s ago"
    );
}

#[test]
fn human_text_with_peers() {
    let mut s = sample();
    s.role = Role::Server;
    s.enabled = false;
    let peer = |ip: &str, index: u32| PeerSnapshot {
        tunnel_ip: ip.to_string(),
        endpoint: "5.6.7.8:9".to_string(),
        session_index: index,
        last_handshake_ago_secs: 12,
        idle_secs: 3,
    };
    s.set_peers(vec![peer("10.66.66.2", 77), peer("10.66.66.3", 78)]);
    let text = s.snapshot(10 * SEC, 1).format_human(0);
    assert!(text.starts_with("soulvpn Server  [OFF]  pid 1\n"));
    assert!(text.ends_with(
        "last act   0s ago\npeers:\n  \
         10.66.66.2  via 5.6.7.8:9  idx=77  hs=12s ago  idle=3s\n  \
         10.66.66.3  via 5.6.7.8:9  idx=78  hs=12s ago  idle=3s\n"
    ));
}

#[test]
fn history_keeps_sixty() {
    let mut h = History::new();
    assert_eq!(h.rates, vec![0; 60]);
    for i in 1..=61 {
        h.push(i);
    }
    assert_eq!(h.rates.len(), 60);
    assert_eq!(h.rates[0], 2);
    assert_eq!(h.rates[59], 61);
}

#[test]
fn dashboard_keys() {
    let mut d = Dashboard::new(snapshot());
    assert_eq!(d.on_key(Key::Char('q')), KeyAction::Quit);
    assert_eq!(d.on_key(Key::Esc), KeyAction::Quit);
    assert_eq!(d.on_key(Key::Char('o')), KeyAction::Switch(true));
    assert_eq!(d.on_key(Key::Char('f')), KeyAction::Switch(false));
    assert_eq!(d.on_key(Key::Char(' ')), KeyAction::Toggle(false));
    assert_eq!(d.on_key(Key::Char('r')), KeyAction::Refresh);
    assert_eq!(d.on_key(Key::Char('x')), KeyAction::Ignore);
    assert_eq!(d.on_key(Key::Other), KeyAction::Ignore);
    d.snap.enabled = false;
    assert_eq!(d.on_key(Key::Char(' ')), KeyAction::Toggle(true));
    assert_eq!(switch_op(true), "on");
    assert_eq!(switch_op(false), "off");
}

#[test]
fn dashboard_answers() {
    let mut d = Dashboard::new(snapshot());
    assert_eq!(d.footer(), " q quit · space toggle · o on · f off · r refresh ");
    d.on_status(Err("gone".to_string()));
    assert_eq!(d.footer(), " error: gone ");
    d.on_switched(KeyAction::Switch(false), Ok(snapshot()));
    assert_eq!(d.footer(), " tunnel disabled ");
    d.on_switched(KeyAction::Toggle(false), Ok(snapshot()));
    assert_eq!(d.footer(), " tunnel enabled ");
    d.on_switched(KeyAction::Switch(true), Err("no".to_string()));
    assert_eq!(d.footer(), " error: no ");
    d.on_status(Ok(snapshot()));
    assert_eq!(d.footer(), " tunnel enabled ");
    d.on_refresh();
    assert_eq!(d.footer(), " refresh ");
}

#[test]
fn dashboard_lines() {
    let snap = snapshot();
    assert_eq!(title_role(Role::Client), "CLIENT");
    assert_eq!(title_role(Role::Server), "SERVER");
    assert_eq!(title_state(true), " ON ");
    assert_eq!(title_state(false), " OFF ");
    assert_eq!(title_process(&snap), "  pid 7  tun soulvpn");
    assert_eq!(
        session_lines(&snap),
        vec![
            "endpoint   1.2.3.4:51820",
            "address    10.66.66.2/24",
            "uptime     1m05s",
            "sessions   0",
            "handshakes ok=0  fail=0",
            "errors     encrypt=0  decrypt=0",
        ]
    );
    assert_eq!(traffic_lines(5, 2048, 1), vec!["5 pkts", "2.00 KiB", "1 B/s"]);
    assert_eq!(gauge_label(1024, 5), "↑ 1.00 KiB/s  ↓ 5 B/s");
}

#[test]
fn command_line() {
    assert_eq!(default_filter(Verb::Server), "info");
    assert_eq!(default_filter(Verb::Client), "info");
    for verb in [Verb::Genkey, Verb::Pubkey, Verb::Status, Verb::On, Verb::Off, Verb::Monitor] {
        assert_eq!(default_filter(verb), "warn");
    }
    assert_eq!(control_socket(None, None), "/run/soulvpn/control.sock");
    assert_eq!(control_socket(None, Some("e".to_string())), "e");
    assert_eq!(control_socket(Some("a".to_string()), Some("e".to_string())), "a");
    let mut snap = snapshot();
    assert_eq!(switch_report(true, &snap), "enabled  [ON]  tx=1 rx=1");
    snap.enabled = false;
    assert_eq!(switch_report(false, &snap), "disabled  [OFF]  tx=1 rx=1");
}

#[test]
fn dashboard_polls_twice_a_second() {
    assert!(polls(None, 0));
    assert!(!polls(Some(SEC), SEC));
    assert!(!polls(Some(SEC), SEC + SEC / 2 - 1));
    assert!(polls(Some(SEC), SEC + SEC / 2));
    assert!(!polls(Some(2 * SEC), SEC));
}
