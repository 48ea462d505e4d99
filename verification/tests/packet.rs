use soulvpn::net::Ipv4Addr;
use soulvpn::packet::{ipv4_dst, ipv4_src, is_ipv4};

fn sample_packet(src: [u8; 4], dst: [u8; 4]) -> [u8; 20] {
    let mut p = [0u8; 20];
    p[0] = 0x45; // v4, ihl=5
    p[12..16].copy_from_slice(&src);
    p[16..20].copy_from_slice(&dst);
    p
}

#[test]
fn parses_src_dst() {
    let p = sample_packet([10, 66, 66, 2], [1, 2, 3, 4]);
    assert_eq!(ipv4_src(&p), Some(Ipv4Addr::new(10, 66, 66, 2)));
    assert_eq!(ipv4_dst(&p), Some(Ipv4Addr::new(1, 2, 3, 4)));
}

#[test]
fn rejects_non_v4() {
    let mut p = sample_packet([1, 1, 1, 1], [2, 2, 2, 2]);
    p[0] = 0x60;
    assert!(ipv4_src(&p).is_none());
}

#[test]
fn short_packets_are_not_ipv4() {
    let p = sample_packet([1, 1, 1, 1], [2, 2, 2, 2]);
    assert!(is_ipv4(&p));
    assert!(!is_ipv4(&p[..19]));
    assert!(!is_ipv4(&[]));
    assert_eq!(ipv4_dst(&p[..19]), None);
    let mut q = p;
    q[0] = 0x4f;
    assert!(is_ipv4(&q));
    q[0] = 0x3f;
    assert!(!is_ipv4(&q));
}
