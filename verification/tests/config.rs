use soulvpn::cli::pubkey;
use soulvpn::client::read_settings;
use soulvpn::config::{
    check_key_file, control_mode, decode_key, default_control_mode, default_handshake_rate_limit,
    default_handshake_rate_window_secs, default_keepalive_secs, default_mtu,
    default_reconnect_timeout_secs, default_rekey_secs, default_session_idle_secs, default_true,
    encode_key, key_file_names, key_from_bytes, key_from_file,
    key_source, parse_cidr, parse_ipv4, parse_mode, ClientConfig, ConfigError, KeySource,
    PeerConfig, ServerConfig,
};
use soulvpn::crypto::generate_keypair;
use soulvpn::net::{Ipv4Addr, SocketAddr};

fn endpoint() -> SocketAddr {
    SocketAddr::V4 { ip: Ipv4Addr::new(0, 0, 0, 0), port: 51820 }
}

fn server(peers: Vec<PeerConfig>) -> ServerConfig {
    ServerConfig {
        listen: endpoint(),
        private_key: None,
        private_key_file: None,
        address: "10.66.66.1/24".to_string(),
        mtu: 1400,
        nat: false,
        control_mode: "0600".to_string(),
        session_idle_secs: 180,
        handshake_rate_limit: 10,
        handshake_rate_window_secs: 10,
        peers,
    }
}

fn client(address: &str, mode: &str) -> ClientConfig {
    ClientConfig {
        endpoint: endpoint(),
        private_key: None,
        private_key_file: None,
        server_public_key: None,
        server_public_key_file: None,
        address: address.to_string(),
        mtu: 1400,
        redirect_all: true,
        kill_switch: false,
        disable_ipv6: false,
        dns: Vec::new(),
        control_mode: mode.to_string(),
        keepalive_secs: 25,
        rekey_secs: 120,
        reconnect_timeout_secs: 45,
    }
}

#[test]
fn keys_read_back() {
    let key = [0x5au8; 32];
    let text = encode_key(&key);
    assert_eq!(text, "WlpaWlpaWlpaWlpaWlpaWlpaWlpaWlpaWlpaWlpaWlo=");
    assert_eq!(decode_key(&text), Ok(key));
    assert_eq!(decode_key(&format!("  {text}\r\n")), Ok(key));
    let (private, _) = generate_keypair().unwrap();
    assert_eq!(decode_key(&encode_key(&private)), Ok(private));
}

#[test]
fn bad_keys() {
    assert_eq!(decode_key("not base64!"), Err(ConfigError::BadBase64));
    assert_eq!(decode_key("WlpaWlpaWlpaWlpaWlpaWlpaWlpaWlpaWlpaWlpaWlo"), Err(ConfigError::BadBase64));
    // The unused bits of the last digit must be zero: a key has one text.
    assert_eq!(decode_key("WlpaWlpaWlpaWlpaWlpaWlpaWlpaWlpaWlpaWlpaWlp="), Err(ConfigError::BadBase64));
    assert_eq!(decode_key("AAAA"), Err(ConfigError::KeyLength(3)));
    assert_eq!(decode_key(""), Err(ConfigError::KeyLength(0)));
    assert_eq!(key_from_bytes(&[1; 31]), Err(ConfigError::KeyLength(31)));
    assert_eq!(key_from_bytes(&[1; 32]), Ok([1; 32]));
}

#[test]
fn key_files_must_be_private() {
    let text = encode_key(&[7u8; 32]);
    assert_eq!(check_key_file(0o600), Ok(()));
    assert_eq!(check_key_file(0o100400), Ok(()));
    assert_eq!(check_key_file(0o640), Err(ConfigError::LooseKeyFile(0o640)));
    assert_eq!(check_key_file(0o700), Err(ConfigError::LooseKeyFile(0o700)));
    // The content of a loose file is not decoded.
    assert_eq!(key_from_file(0o644, "junk!"), Err(ConfigError::LooseKeyFile(0o644)));
    assert_eq!(key_from_file(0o600, &text), Ok([7u8; 32]));
    assert_eq!(key_from_file(0o100600, &text), Ok([7u8; 32]));
    assert_eq!(key_from_file(0o400, &text), Ok([7u8; 32]));
    assert_eq!(key_from_file(0o640, &text), Err(ConfigError::LooseKeyFile(0o640)));
    assert_eq!(key_from_file(0o604, &text), Err(ConfigError::LooseKeyFile(0o604)));
    assert_eq!(key_from_file(0o644, "junk"), Err(ConfigError::LooseKeyFile(0o644)));
    assert_eq!(key_from_file(0o600, "junk!"), Err(ConfigError::BadBase64));
}

#[test]
fn key_sources() {
    let a = Some("inline".to_string());
    let b = Some("path".to_string());
    assert!(matches!(key_source(&a, &b), Ok(KeySource::Inline(k)) if k == "inline"));
    assert!(matches!(key_source(&None, &b), Ok(KeySource::File(p)) if p == "path"));
    assert!(matches!(key_source(&None, &None), Err(ConfigError::NoKey)));
}

#[test]
fn cidr() {
    assert_eq!(parse_cidr("10.66.66.1/24"), Ok((Ipv4Addr::new(10, 66, 66, 1), 24)));
    assert_eq!(parse_cidr("10.66.66.1/0"), Ok((Ipv4Addr::new(10, 66, 66, 1), 0)));
    assert_eq!(parse_cidr("10.66.66.1/+032"), Ok((Ipv4Addr::new(10, 66, 66, 1), 32)));
    assert_eq!(parse_cidr("10.66.66.1"), Err(ConfigError::NotCidr));
    assert_eq!(parse_cidr("10.66.66/24"), Err(ConfigError::BadCidrAddress));
    assert_eq!(parse_cidr("/24"), Err(ConfigError::BadCidrAddress));
    assert_eq!(parse_cidr("10.66.66.1/x"), Err(ConfigError::BadPrefix));
    assert_eq!(parse_cidr("10.66.66.1/256"), Err(ConfigError::BadPrefix));
    assert_eq!(parse_cidr("10.66.66.1/24/8"), Err(ConfigError::BadPrefix));
    assert_eq!(parse_cidr("10.66.66.1/33"), Err(ConfigError::PrefixTooLong));
}

#[test]
fn bare_addresses() {
    assert_eq!(parse_ipv4("10.66.66.2"), Ok(Ipv4Addr::new(10, 66, 66, 2)));
    assert_eq!(parse_ipv4("10.66.66.2/32"), Ok(Ipv4Addr::new(10, 66, 66, 2)));
    assert_eq!(parse_ipv4("10.66.66.2/anything"), Ok(Ipv4Addr::new(10, 66, 66, 2)));
    assert_eq!(parse_ipv4("/32"), Err(ConfigError::BadIpv4));
    assert_eq!(parse_ipv4("host"), Err(ConfigError::BadIpv4));
}

#[test]
fn modes() {
    assert_eq!(parse_mode("0600"), Ok(0o600));
    assert_eq!(parse_mode("660"), Ok(0o660));
    assert_eq!(parse_mode("777"), Ok(0o777));
    assert_eq!(parse_mode("1000"), Err(ConfigError::BadMode));
    assert_eq!(parse_mode("0o600"), Err(ConfigError::BadMode));
    assert_eq!(parse_mode("rw"), Err(ConfigError::BadMode));
    assert_eq!(control_mode(&Some("0660".to_string()), "0600"), Ok(0o660));
    assert_eq!(control_mode(&None, "0600"), Ok(0o600));
    assert_eq!(control_mode(&Some("9".to_string()), "0600"), Err(ConfigError::BadMode));
}

#[test]
fn server_needs_peers() {
    assert!(matches!(ServerConfig::load(server(Vec::new())), Err(ConfigError::NoPeers)));
    let peer = PeerConfig { public_key: "k".to_string(), allowed_ip: "10.66.66.2".to_string() };
    let cfg = ServerConfig::load(server(vec![peer])).unwrap();
    assert_eq!(cfg.peers.len(), 1);
    assert_eq!(cfg.peers[0].allowed_ip, "10.66.66.2");
}

#[test]
fn client_settings() {
    let ok = read_settings(&client("10.66.66.2/24", "0640"), &None);
    assert_eq!(ok, Ok((Ipv4Addr::new(10, 66, 66, 2), 24, 0o640)));
    let env = Some("0600".to_string());
    assert_eq!(read_settings(&client("10.66.66.2/24", "0640"), &env).unwrap().2, 0o600);
    assert_eq!(read_settings(&client("10.66.66.2", "bad"), &None), Err(ConfigError::NotCidr));
    assert_eq!(read_settings(&client("10.66.66.2/24", "bad"), &None), Err(ConfigError::BadMode));
}

#[test]
fn defaults() {
    assert_eq!(default_mtu(), 1400);
    assert!(default_true());
    assert_eq!(default_control_mode(), "0600");
    assert_eq!(default_rekey_secs(), 120);
    assert_eq!(default_reconnect_timeout_secs(), 45);
    assert_eq!(default_keepalive_secs(), 25);
    assert_eq!(default_session_idle_secs(), 180);
    assert_eq!(default_handshake_rate_limit(), 10);
    assert_eq!(default_handshake_rate_window_secs(), 10);
}

#[test]
fn key_names() {
    assert_eq!(
        key_file_names("server"),
        Ok(("server.priv".to_string(), "server.pub".to_string()))
    );
    assert_eq!(key_file_names("a/b"), Err(ConfigError::BadKeyName));
    assert_eq!(key_file_names("..x"), Err(ConfigError::BadKeyName));
    assert!(key_file_names("v1.2").is_ok());
}

#[test]
fn pubkey_of_genkey() {
    let (private, public) = generate_keypair().unwrap();
    assert_eq!(pubkey(&format!("{}\n", encode_key(&private))), Ok(encode_key(&public)));
    assert_eq!(pubkey("AAAA"), Err(ConfigError::KeyLength(3)));
}

#[test]
fn config_messages() {
    assert_eq!(ConfigError::NoPeers.message(), "server config must list at least one peer");
    assert_eq!(ConfigError::BadBase64.message(), "base64-decode key");
    assert_eq!(ConfigError::KeyLength(31).message(), "key must be 32 bytes, got 31");
    assert_eq!(ConfigError::NotCidr.message(), "address must be CIDR, e.g. 10.66.66.1/24");
    assert_eq!(ConfigError::BadCidrAddress.message(), "parse IPv4 address");
    assert_eq!(ConfigError::BadPrefix.message(), "parse prefix length");
    assert_eq!(ConfigError::PrefixTooLong.message(), "prefix length must be <= 32");
    assert_eq!(ConfigError::BadIpv4.message(), "parse IPv4");
    assert_eq!(ConfigError::BadMode.message(), "mode must be octal, e.g. 0600");
    assert_eq!(ConfigError::NoKey.message(), "set the key or the key file");
    assert_eq!(ConfigError::LooseKeyFile(0o644).message(), "key file must be mode 0600 or tighter");
    assert_eq!(ConfigError::BadKeyName.message(), "invalid key name");
}
