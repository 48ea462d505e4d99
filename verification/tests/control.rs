use soulvpn::control::{
    encode_frame, ends_daemon, frame_len, handle_request, read_response, ControlError, Request, Response,
    DEFAULT_CONTROL_SOCKET,
};
use soulvpn::stats::{Role, RuntimeStats, StatusSnapshot};

fn sample() -> RuntimeStats {
    RuntimeStats::new(
        Role::Client,
        "1.2.3.4:51820".to_string(),
        "10.66.66.2/24".to_string(),
        "soulvpn".to_string(),
        0,
        0,
    )
}

fn request(
    stats: &mut RuntimeStats,
    op: &str,
    hook: &mut Vec<bool>,
) -> Result<StatusSnapshot, ControlError> {
    let (resp, told) = handle_request(&Request { op: op.to_string() }, stats, 0, 1, 2);
    if let Some(on) = told {
        hook.push(on);
    }
    read_response(resp)
}

#[test]
fn status_on_off_roundtrip() {
    let mut stats = sample();
    stats.record_tx(100, 0);
    stats.record_rx(50, 0);
    let mut calls: Vec<bool> = Vec::new();

    let snap = request(&mut stats, "status", &mut calls).unwrap();
    assert!(snap.enabled);
    assert_eq!(snap.tx_packets, 1);
    assert_eq!(snap.rx_packets, 1);
    assert_eq!(snap.role, Role::Client);

    let snap = request(&mut stats, "off", &mut calls).unwrap();
    assert!(!snap.enabled);
    assert!(!stats.is_enabled());
    assert_eq!(calls.len(), 1);
    assert_eq!(calls.last(), Some(&false));

    // Idempotent: already off → no second hook call.
    let snap = request(&mut stats, "off", &mut calls).unwrap();
    assert!(!snap.enabled);
    assert_eq!(calls.len(), 1);

    let snap = request(&mut stats, "on", &mut calls).unwrap();
    assert!(snap.enabled);
    assert!(stats.is_enabled());
    assert_eq!(calls.len(), 2);
    assert_eq!(calls.last(), Some(&true));
}

#[test]
fn unknown_ops_are_refused() {
    let mut stats = sample();
    let mut calls: Vec<bool> = Vec::new();
    let err = request(&mut stats, "reboot", &mut calls).unwrap_err();
    assert_eq!(err.message(), "unknown op: reboot");
    assert!(calls.is_empty());
    assert!(stats.is_enabled());
}

#[test]
fn quit_is_granted() {
    let mut stats = sample();
    let mut calls: Vec<bool> = Vec::new();
    let snap = request(&mut stats, "quit", &mut calls).unwrap();
    assert!(snap.enabled);
    assert_eq!(snap.pid, 2);
    assert!(calls.is_empty());
    let (resp, told) = handle_request(&Request { op: "quit".to_string() }, &mut stats, 0, 1, 2);
    assert!(resp.ok && told.is_none());
    assert_eq!((resp.error, resp.message), (None, None));
    assert_eq!(stats.last_activity_ms, sample().last_activity_ms);
    let asks = |op: &str| ends_daemon(&Request { op: op.to_string() });
    assert!(asks("quit"));
    assert!(!asks("off") && !asks("status") && !asks("quit "));
}

#[test]
fn responses_say_what_was_done() {
    let mut stats = sample();
    let ask = |op: &str, stats: &mut RuntimeStats| {
        handle_request(&Request { op: op.to_string() }, stats, 0, 0, 0).0
    };
    assert_eq!(ask("status", &mut stats).message, None);
    assert_eq!(ask("off", &mut stats).message, Some("disabled".to_string()));
    assert_eq!(ask("on", &mut stats).message, Some("enabled".to_string()));
    let refused = ask("", &mut stats);
    assert!(!refused.ok);
    assert!(refused.status.is_none());
    assert_eq!(refused.error, Some("unknown op: ".to_string()));
}

#[test]
fn bad_responses() {
    let none = Response { ok: false, status: None, error: None, message: None };
    assert_eq!(read_response(none).unwrap_err().message(), "control request failed");
    let empty = Response { ok: true, status: None, error: None, message: None };
    assert_eq!(
        read_response(empty).unwrap_err().message(),
        "control response missing status payload"
    );
}

#[test]
fn frames_read_back() {
    let body = b"{\"op\":\"status\"}";
    let frame = encode_frame(body);
    assert_eq!(&frame[..4], &[15, 0, 0, 0]);
    assert_eq!(&frame[4..], body);
    let header = [frame[0], frame[1], frame[2], frame[3]];
    assert_eq!(frame_len(&header).unwrap(), body.len());
    assert_eq!(frame_len(&[0, 0, 16, 0]).unwrap(), 1 << 20);
}

#[test]
fn bad_frames() {
    let err = frame_len(&[0, 0, 0, 0]).unwrap_err();
    assert_eq!(err.message(), "invalid control frame length 0");
    let err = frame_len(&[1, 0, 16, 0]).unwrap_err();
    assert_eq!(err.message(), "invalid control frame length 1048577");
    assert_eq!(DEFAULT_CONTROL_SOCKET, "/run/soulvpn/control.sock");
}
