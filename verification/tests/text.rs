use soulvpn::net::{IpAddr, Ipv4Addr, SocketAddr};
use soulvpn::text::{find_char, has_two_dots, parse_number, same, split_words, to_decimal, trim};
use soulvpn::time::{elapsed, elapsed_secs, exceeds, lasts, NANOS};
use soulvpn::wire::{get_u32, get_u64, put_u32, put_u64};

#[test]
fn decimals() {
    for n in [0u64, 9, 10, 99, 100, 12345, u64::MAX] {
        assert_eq!(to_decimal(n), n.to_string());
    }
    for n in [0u32, 7, 10, 4096, 65535] {
        assert_eq!(parse_number(&to_decimal(n as u64), 10, u32::MAX), Some(n));
    }
}

#[test]
fn numbers() {
    assert_eq!(parse_number("24", 10, 255), Some(24));
    assert_eq!(parse_number("+24", 10, 255), Some(24));
    assert_eq!(parse_number("0024", 10, 255), Some(24));
    assert_eq!(parse_number("255", 10, 255), Some(255));
    assert_eq!(parse_number("256", 10, 255), None);
    assert_eq!(parse_number("4294967296", 10, u32::MAX), None);
    assert_eq!(parse_number("99999999999999999999", 10, u32::MAX), None);
    assert_eq!(parse_number("", 10, 255), None);
    assert_eq!(parse_number("+", 10, 255), None);
    assert_eq!(parse_number("-1", 10, 255), None);
    assert_eq!(parse_number("++1", 10, 255), None);
    assert_eq!(parse_number("1a", 10, 255), None);
    assert_eq!(parse_number("0660", 8, 511), Some(0o660));
    assert_eq!(parse_number("0680", 8, 511), None);
}

#[test]
fn trims_like_std() {
    for s in ["", "  ", " a b ", "\t\n x\r\n", "x", "\u{a0}y\u{3000}", "\u{200b}z\u{200b}", "\u{85}k"] {
        assert_eq!(trim(s), s.trim());
    }
}

#[test]
fn splits_like_std() {
    for s in ["", "  ", "a", " default via 192.168.1.1  dev eth0\n", "a\u{2003}b\u{1680}c", "x\ty"] {
        let want: Vec<String> = s.split_whitespace().map(|w| w.to_string()).collect();
        assert_eq!(split_words(s), want);
    }
}

#[test]
fn searches() {
    assert_eq!(find_char("a/b/c", '/', 0), Some(1));
    assert_eq!(find_char("a/b/c", '/', 2), Some(3));
    assert_eq!(find_char("a/b/c", '/', 4), None);
    assert_eq!(find_char("a/b/c", '/', 99), None);
    assert!(has_two_dots("a..b"));
    assert!(has_two_dots(".."));
    assert!(!has_two_dots("a.b.c"));
    assert!(!has_two_dots(""));
    assert!(same("via", "via"));
    assert!(!same("via", "dev"));
}

#[test]
fn addresses_read_back() {
    for ip in [
        Ipv4Addr::new(0, 0, 0, 0),
        Ipv4Addr::new(10, 66, 66, 1),
        Ipv4Addr::new(255, 255, 255, 255),
        Ipv4Addr::new(1, 20, 100, 209),
    ] {
        assert_eq!(Ipv4Addr::parse(&ip.to_text()), Some(ip));
        assert_eq!(Ipv4Addr::from_bits(ip.to_bits()), ip);
    }
    assert_eq!(Ipv4Addr::new(1, 2, 3, 4).to_bits(), 0x0102_0304);
    assert_eq!(Ipv4Addr::new(10, 66, 66, 2).to_text(), "10.66.66.2");
}

#[test]
fn bad_addresses() {
    for s in [
        "", "1", "1.2.3", "1.2.3.4.5", "1.2.3.256", "01.2.3.4", "1.2.3.04", "1..3.4", " 1.2.3.4",
        "1.2.3.4 ", "+1.2.3.4", "a.b.c.d", "1.2.3.4000", "1.2.3.", ".1.2.3", "00.0.0.0",
    ] {
        assert_eq!(Ipv4Addr::parse(s), None);
    }
}

#[test]
fn endpoints() {
    let v4 = SocketAddr::V4 { ip: Ipv4Addr::new(1, 2, 3, 4), port: 51820 };
    assert_eq!(v4.to_text(), "1.2.3.4:51820");
    assert_eq!(v4.ip(), IpAddr::V4(Ipv4Addr::new(1, 2, 3, 4)));
    assert_eq!(v4.host_text(), "1.2.3.4");
    let v6 = SocketAddr::V6 {
        addr: 1,
        port: 9,
        shown: "[::1]:9".to_string(),
        host: "::1".to_string(),
    };
    assert_eq!(v6.to_text(), "[::1]:9");
    assert_eq!(v6.host_text(), "::1");
    assert_eq!(v6.clone(), v6);
    assert_eq!(v6.clone().ip(), IpAddr::V6(1));
}

#[test]
fn clocks() {
    assert_eq!(elapsed(10, 4), 6);
    assert_eq!(elapsed(4, 10), 0);
    assert_eq!(elapsed_secs(5 * NANOS - 1, 0), 4);
    assert!(lasts(2 * NANOS, 2));
    assert!(!lasts(2 * NANOS - 1, 2));
    assert!(!exceeds(2 * NANOS, 2));
    assert!(exceeds(2 * NANOS + 1, 2));
    assert!(!lasts(u64::MAX, u64::MAX));
}

#[test]
fn little_endian() {
    let mut buf = [9u8; 10];
    put_u32(&mut buf, 0x0102_0304);
    assert_eq!(&buf[..5], &[4, 3, 2, 1, 9]);
    assert_eq!(get_u32(&buf), 0x0102_0304);
    put_u64(&mut buf, 0x0102_0304_0506_0708);
    assert_eq!(&buf[..9], &[8, 7, 6, 5, 4, 3, 2, 1, 9]);
    assert_eq!(get_u64(&buf), 0x0102_0304_0506_0708);
}
