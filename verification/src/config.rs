//! Configuration values, keys and addresses in text form.

use crate::crypto::keys;
use crate::net;
use crate::net::{Ipv4Addr, SocketAddr};
use crate::text;
use vstd::prelude::*;

verus! {

/// Why a configuration or one of its values is refused.
#[derive(Debug, Clone, Copy, PartialEq, Eq, Structural)]
pub enum ConfigError {
    /// A server without peers.
    NoPeers,
    /// A key that is not base64.
    BadBase64,
    /// A key of the wrong length.
    KeyLength(usize),
    /// An address without a prefix length.
    NotCidr,
    /// The address part is no IPv4 address.
    BadCidrAddress,
    /// The prefix length is no number up to 255.
    BadPrefix,
    /// The prefix length is above 32.
    PrefixTooLong,
    /// A bare address that is no IPv4 address.
    BadIpv4,
    /// A file mode that is not octal or above 0777.
    BadMode,
    /// Neither a key nor a key file.
    NoKey,
    /// A key file that others may read or write, with its mode.
    LooseKeyFile(u32),
    /// A name that would leave the key directory.
    BadKeyName,
}

/// A peer of the server.
#[derive(Debug, Clone)]
pub struct PeerConfig {
    /// Base64 X25519 public key of the peer.
    pub public_key: String,
    /// Tunnel IP assigned to this peer, e.g. 10.66.66.2.
    pub allowed_ip: String,
}

/// The server's configuration.
#[derive(Debug, Clone)]
pub struct ServerConfig {
    pub listen: SocketAddr,
    /// Base64 X25519 private key.
    pub private_key: Option<String>,
    /// File that holds the private key.
    pub private_key_file: Option<String>,
    /// TUN address, e.g. 10.66.66.1/24.
    pub address: String,
    pub mtu: u16,
    /// Enable IP forwarding + MASQUERADE on the default egress iface.
    pub nat: bool,
    /// Octal mode of the control socket.
    pub control_mode: String,
    /// Seconds of silence after which a session ends.
    pub session_idle_secs: u64,
    /// Handshakes that one address may open within the window.
    pub handshake_rate_limit: u32,
    /// Length of that window in seconds.
    pub handshake_rate_window_secs: u64,
    pub peers: Vec<PeerConfig>,
}

/// The client's configuration.
#[derive(Debug, Clone)]
pub struct ClientConfig {
    pub endpoint: SocketAddr,
    /// Base64 X25519 private key.
    pub private_key: Option<String>,
    /// File that holds the private key.
    pub private_key_file: Option<String>,
    /// Base64 X25519 public key of the server.
    pub server_public_key: Option<String>,
    /// File that holds the server's public key.
    pub server_public_key_file: Option<String>,
    /// Client TUN address, e.g. 10.66.66.2/24.
    pub address: String,
    pub mtu: u16,
    /// Install full-tunnel routes (0.0.0.0/1 + 128.0.0.0/1 via TUN).
    pub redirect_all: bool,
    /// Block other egress while the tunnel is enabled.
    pub kill_switch: bool,
    /// Blackhole IPv6 while the client runs.
    pub disable_ipv6: bool,
    /// Name servers to use while the client runs.
    pub dns: Vec<String>,
    /// Octal mode of the control socket.
    pub control_mode: String,
    /// Seconds without traffic before a keepalive; zero for none.
    pub keepalive_secs: u64,
    /// Seconds before a session is replaced; zero for never.
    pub rekey_secs: u64,
    /// Seconds of silence before the client connects anew.
    pub reconnect_timeout_secs: u64,
}

/// Where a key comes from.
#[derive(Debug)]
pub enum KeySource {
    /// The key itself, in base64.
    Inline(String),
    /// The path of a file that holds it.
    File(String),
}

/// The MTU of a configuration that names none.
pub fn default_mtu() -> (r: u16)
    ensures
        r == 1400,
{
    1400
}

/// The value of a switch that is on unless a configuration says otherwise.
pub fn default_true() -> (r: bool)
    ensures
        r,
{
    true
}

/// The mode of the control socket in a configuration that names none.
pub fn default_control_mode() -> (r: String)
    ensures
        r@ == "0600"@,
{
    "0600".to_owned()
}

/// Seconds before a session is replaced, unless a configuration says otherwise.
pub fn default_rekey_secs() -> (r: u64)
    ensures
        r == 120,
{
    120
}

/// Seconds of silence before the client connects anew, unless a configuration
/// says otherwise.
pub fn default_reconnect_timeout_secs() -> (r: u64)
    ensures
        r == 45,
{
    45
}

/// Seconds without traffic before a keepalive, unless a configuration says
/// otherwise.
pub fn default_keepalive_secs() -> (r: u64)
    ensures
        r == 25,
{
    25
}

/// Seconds of silence after which the server ends a session, unless a
/// configuration says otherwise.
pub fn default_session_idle_secs() -> (r: u64)
    ensures
        r == 180,
{
    180
}

/// Handshakes that one address may open within the window, unless a
/// configuration says otherwise.
pub fn default_handshake_rate_limit() -> (r: u32)
    ensures
        r == 10,
{
    10
}

/// Length of that window in seconds, unless a configuration says otherwise.
pub fn default_handshake_rate_window_secs() -> (r: u64)
    ensures
        r == 10,
{
    10
}

impl ServerConfig {
    /// Takes a configuration as it was read, if it lists a peer.
    pub fn load(parsed: ServerConfig) -> (r: Result<ServerConfig, ConfigError>)
        ensures
            r == if parsed.peers@.len() == 0 {
                Err(ConfigError::NoPeers)
            } else {
                Ok(parsed)
            },
            r == loaded(parsed),
    {
        if parsed.peers.len() == 0 {
            return Err(ConfigError::NoPeers);
        }
        Ok(parsed)
    }
}

/// Where a key comes from: the value itself, else the file.
pub fn key_source(inline: &Option<String>, file: &Option<String>) -> (r: Result<
    KeySource,
    ConfigError,
>)
    ensures
        r == match (*inline, *file) {
            (Some(key), _) => Ok(KeySource::Inline(key)),
            (None, Some(path)) => Ok(KeySource::File(path)),
            (None, None) => Err(ConfigError::NoKey),
        },
        r == chosen_source(*inline, *file),
{
    match (inline, file) {
        (Some(key), _) => Ok(KeySource::Inline(key.clone())),
        (None, Some(path)) => Ok(KeySource::File(path.clone())),
        (None, None) => Err(ConfigError::NoKey),
    }
}

/// Whether a file of this mode is for its owner alone, to read and write at
/// most.
pub open spec fn is_private_mode(mode: u32) -> bool {
    mode & 0o177 == 0
}

/// Judges the mode of a private key file: one that others may use, or that is
/// executable, is refused.
pub fn check_key_file(mode: u32) -> (r: Result<(), ConfigError>)
    ensures
        r == if is_private_mode(mode) {
            Ok(())
        } else {
            Err(ConfigError::LooseKeyFile(mode))
        },
{
    if mode & 0o177 != 0 {
        return Err(ConfigError::LooseKeyFile(mode));
    }
    Ok(())
}

/// The private key in a key file of this mode; the content of a file that
/// others may use, or that is executable, is not decoded.
pub fn key_from_file(mode: u32, content: &str) -> (r: Result<[u8; 32], ConfigError>)
    ensures
        keyed(r) == if is_private_mode(mode) {
            read_key(content@)
        } else {
            Err(ConfigError::LooseKeyFile(mode))
        },
{
    match check_key_file(mode) {
        Ok(()) => decode_key(content),
        Err(e) => Err(e),
    }
}

/// What the base64 text `s` decodes to in the standard alphabet with padding.
pub uninterp spec fn base64_decoded(s: Seq<char>) -> Option<Seq<u8>>;

/// The base64 text of `bytes` in the standard alphabet with padding.
pub uninterp spec fn base64_encoded(bytes: Seq<u8>) -> Seq<char>;

/// Whether `c` is a letter, a digit, `+`, `/` or `=`.
pub open spec fn is_base64_char(c: char) -> bool {
    ||| 'A' <= c <= 'Z'
    ||| 'a' <= c <= 'z'
    ||| '0' <= c <= '9'
    ||| c == '+'
    ||| c == '/'
    ||| c == '='
}

/// Why a text is not base64.
#[verifier::external_type_specification]
#[verifier::external_body]
pub struct ExDecodeError(base64::DecodeError);

/// `base64::Engine::decode` on the engine `STANDARD`. It succeeds on the texts
/// that are base64, padding required and unused bits zero, and depends on the
/// text alone; the bytes encode to the same text again.
#[verifier::external_body]
fn b64_decode(s: &str) -> (r: Result<Vec<u8>, base64::DecodeError>)
    ensures
        match r {
            Ok(bytes) => base64_decoded(s@) == Some(bytes@) && base64_encoded(bytes@) == s@,
            Err(_) => base64_decoded(s@) is None,
        },
{
    base64::Engine::decode(&base64::engine::general_purpose::STANDARD, s)
}

/// `base64::Engine::encode` on the engine `STANDARD`, for a key. The text holds
/// characters of the alphabet and padding only, and decodes to the key again.
#[verifier::external_body]
fn b64_encode(key: &[u8; 32]) -> (r: String)
    ensures
        r@ == base64_encoded(key@),
        forall|i: int| 0 <= i < r@.len() ==> is_base64_char(#[trigger] r@[i]),
        base64_decoded(r@) == Some(key@),
{
    base64::Engine::encode(&base64::engine::general_purpose::STANDARD, key)
}

/// A key by its bytes, or why it is none.
pub open spec fn keyed(r: Result<[u8; 32], ConfigError>) -> Result<Seq<u8>, ConfigError> {
    match r {
        Ok(key) => Ok(key@),
        Err(e) => Err(e),
    }
}

/// What taking `bytes` for a key gives.
pub open spec fn key_of(bytes: Seq<u8>) -> Result<Seq<u8>, ConfigError> {
    if bytes.len() == 32 {
        Ok(bytes)
    } else {
        Err(ConfigError::KeyLength(bytes.len() as usize))
    }
}

/// What decoding a key gives; blanks around it are left out.
pub open spec fn read_key(s: Seq<char>) -> Result<Seq<u8>, ConfigError> {
    match base64_decoded(text::trimmed(s)) {
        None => Err(ConfigError::BadBase64),
        Some(bytes) => key_of(bytes),
    }
}

/// A key of 32 bytes.
pub fn key_from_bytes(bytes: &[u8]) -> (r: Result<[u8; 32], ConfigError>)
    ensures
        keyed(r) == key_of(bytes@),
{
    if bytes.len() != 32 {
        return Err(ConfigError::KeyLength(bytes.len()));
    }
    Ok(keys::key_array(bytes))
}

/// Decode a 32-byte key from standard base64. A key has one text only, but for
/// blanks around it.
pub fn decode_key(s: &str) -> (r: Result<[u8; 32], ConfigError>)
    ensures
        keyed(r) == read_key(s@),
        r matches Ok(key) ==> base64_encoded(key@) == text::trimmed(s@),
{
    match b64_decode(text::trim(s)) {
        Ok(bytes) => key_from_bytes(&bytes),
        Err(_) => Err(ConfigError::BadBase64),
    }
}

/// The standard base64 of a key. It decodes to the key again, with any blanks
/// around it.
pub fn encode_key(key: &[u8; 32]) -> (r: String)
    ensures
        r@ == base64_encoded(key@),
        read_key(r@) == Ok::<Seq<u8>, ConfigError>(key@),
        forall|s: Seq<char>| #[trigger]
            text::trimmed(s) == r@ ==> read_key(s) == Ok::<Seq<u8>, ConfigError>(key@),
{
    let r: String = b64_encode(key);
    proof {
        lemma_base64_is_trimmed(r@);
    }
    r
}

/// Base64 text has no blanks to trim.
proof fn lemma_base64_is_trimmed(s: Seq<char>)
    requires
        forall|i: int| 0 <= i < s.len() ==> is_base64_char(#[trigger] s[i]),
    ensures
        text::trimmed(s) == s,
{
    if s.len() > 0 {
        assert(is_base64_char(s[0]));
        assert(is_base64_char(s[s.len() - 1]));
    }
}

/// What reading an address with a prefix length gives.
pub open spec fn read_cidr(s: Seq<char>) -> Result<(Ipv4Addr, u8), ConfigError> {
    let slash = text::first_at(s, '/') as int;
    let prefix = s.skip(slash + 1);
    if slash >= s.len() {
        Err(ConfigError::NotCidr)
    } else {
        match net::read_dotted(s.take(slash)) {
            None => Err(ConfigError::BadCidrAddress),
            Some(ip) => if !text::is_number(prefix, 10) || text::number_value(prefix, 10) > 255 {
                Err(ConfigError::BadPrefix)
            } else if text::number_value(prefix, 10) > 32 {
                Err(ConfigError::PrefixTooLong)
            } else {
                Ok((ip, text::number_value(prefix, 10) as u8))
            },
        }
    }
}

/// What reading a bare address gives; anything after a slash is left out.
pub open spec fn read_ipv4(s: Seq<char>) -> Result<Ipv4Addr, ConfigError> {
    match net::read_dotted(s.take(text::first_at(s, '/') as int)) {
        None => Err(ConfigError::BadIpv4),
        Some(ip) => Ok(ip),
    }
}

/// Split "10.66.66.1/24" into (ip, prefix).
pub fn parse_cidr(s: &str) -> (r: Result<(Ipv4Addr, u8), ConfigError>)
    ensures
        r == read_cidr(s@),
{
    let len: usize = s.unicode_len();
    let slash: usize = match text::find_first(s, '/') {
        Some(i) => i,
        None => {
            return Err(ConfigError::NotCidr);
        },
    };
    let host: &str = s.substring_char(0, slash);
    let tail: &str = s.substring_char(slash + 1, len);
    proof {
        assert(host@ =~= s@.take(slash as int));
        assert(tail@ =~= s@.skip(slash + 1));
    }
    let ip: Ipv4Addr = match Ipv4Addr::parse(host) {
        Some(ip) => ip,
        None => {
            return Err(ConfigError::BadCidrAddress);
        },
    };
    let prefix: u32 = match text::parse_number(tail, 10, 255) {
        Some(n) => n,
        None => {
            return Err(ConfigError::BadPrefix);
        },
    };
    if prefix > 32 {
        return Err(ConfigError::PrefixTooLong);
    }
    Ok((ip, prefix as u8))
}

/// Extract bare IPv4 from "10.66.66.2" or "10.66.66.2/32".
pub fn parse_ipv4(s: &str) -> (r: Result<Ipv4Addr, ConfigError>)
    ensures
        r == read_ipv4(s@),
{
    let end: usize = match text::find_first(s, '/') {
        Some(i) => i,
        None => s.unicode_len(),
    };
    let host: &str = s.substring_char(0, end);
    assert(host@ =~= s@.take(end as int));
    match Ipv4Addr::parse(host) {
        Some(ip) => Ok(ip),
        None => Err(ConfigError::BadIpv4),
    }
}

/// An address that is written with its prefix length is read back.
pub proof fn law_cidr_reads_back(ip: Ipv4Addr, prefix: u8)
    requires
        prefix <= 32,
    ensures
        read_cidr(ip.dotted() + "/"@ + text::decimal(prefix as nat)) == Ok::<
            (Ipv4Addr, u8),
            ConfigError,
        >((ip, prefix)),
{
    let host = ip.dotted();
    let tail = text::decimal(prefix as nat);
    let s = host + "/"@ + tail;
    reveal_strlit("/");
    net::lemma_dotted_chars(ip);
    assert forall|k: int| 0 <= k < host.len() implies #[trigger] s[k] != '/' by {
        assert(s[k] == host[k]);
    }
    text::lemma_first_at(s, '/', host.len() as int);
    assert(s.take(host.len() as int) =~= host);
    assert(s.skip(host.len() as int + 1) =~= tail);
    net::law_dotted_reads_back(ip);
    text::law_decimal_reads_back(prefix as nat);
}

/// A bare address is read back, and so is one with a prefix length.
pub proof fn law_ipv4_reads_back(ip: Ipv4Addr, tail: Seq<char>)
    ensures
        read_ipv4(ip.dotted()) == Ok::<Ipv4Addr, ConfigError>(ip),
        read_ipv4(ip.dotted() + "/"@ + tail) == Ok::<Ipv4Addr, ConfigError>(ip),
{
    let host = ip.dotted();
    let s = host + "/"@ + tail;
    reveal_strlit("/");
    net::lemma_dotted_chars(ip);
    assert forall|k: int| 0 <= k < host.len() implies #[trigger] s[k] != '/' by {
        assert(s[k] == host[k]);
    }
    text::lemma_first_at(s, '/', host.len() as int);
    text::lemma_first_at(host, '/', host.len() as int);
    assert(s.take(host.len() as int) =~= host);
    assert(host.take(host.len() as int) =~= host);
    net::law_dotted_reads_back(ip);
}

/// What reading an octal file mode gives.
pub open spec fn read_mode(s: Seq<char>) -> Result<u32, ConfigError> {
    if text::is_number(s, 8) && text::number_value(s, 8) <= 0o777 {
        Ok(text::number_value(s, 8) as u32)
    } else {
        Err(ConfigError::BadMode)
    }
}

/// Read a file mode such as "0660".
pub fn parse_mode(s: &str) -> (r: Result<u32, ConfigError>)
    ensures
        r == read_mode(s@),
{
    match text::parse_number(s, 8, 0o777) {
        Some(mode) => Ok(mode),
        None => Err(ConfigError::BadMode),
    }
}

/// The mode of the control socket: the environment's, else the configured one.
pub open spec fn chosen_mode(env: Option<String>, configured: Seq<char>) -> Result<u32, ConfigError> {
    match env {
        Some(mode) => read_mode(mode@),
        None => read_mode(configured),
    }
}

/// The mode of the control socket: the environment's, else the configured one.
pub fn control_mode(env: &Option<String>, configured: &str) -> (r: Result<u32, ConfigError>)
    ensures
        r == chosen_mode(*env, configured@),
{
    match env {
        Some(mode) => parse_mode(mode.as_str()),
        None => parse_mode(configured),
    }
}

/// Whether a key of this name stays in the key directory.
pub open spec fn is_key_name(name: Seq<char>) -> bool {
    text::first_at(name, '/') == name.len() && !text::occurs(seq!['.', '.'], name)
}

/// The names of the files that hold a private key and its public key.
pub fn key_file_names(name: &str) -> (r: Result<(String, String), ConfigError>)
    ensures
        if is_key_name(name@) {
            r matches Ok((private, public)) && private@ == name@ + ".priv"@ && public@ == name@
                + ".pub"@
        } else {
            r == Err::<(String, String), ConfigError>(ConfigError::BadKeyName)
        },
{
    if text::find_first(name, '/').is_some() || text::has_two_dots(name) {
        return Err(ConfigError::BadKeyName);
    }
    Ok((name.to_owned().concat(".priv"), name.to_owned().concat(".pub")))
}

impl ConfigError {
    /// The message of the error.
    pub open spec fn shown(self) -> Seq<char> {
        match self {
            ConfigError::NoPeers => "server config must list at least one peer"@,
            ConfigError::BadBase64 => "base64-decode key"@,
            ConfigError::KeyLength(n) => "key must be 32 bytes, got "@ + text::decimal(n as nat),
            ConfigError::NotCidr => "address must be CIDR, e.g. 10.66.66.1/24"@,
            ConfigError::BadCidrAddress => "parse IPv4 address"@,
            ConfigError::BadPrefix => "parse prefix length"@,
            ConfigError::PrefixTooLong => "prefix length must be <= 32"@,
            ConfigError::BadIpv4 => "parse IPv4"@,
            ConfigError::BadMode => "mode must be octal, e.g. 0600"@,
            ConfigError::NoKey => "set the key or the key file"@,
            ConfigError::LooseKeyFile(_) => "key file must be mode 0600 or tighter"@,
            ConfigError::BadKeyName => "invalid key name"@,
        }
    }

    /// The message of the error.
    pub fn message(&self) -> (r: String)
        ensures
            r@ == self.shown(),
    {
        match self {
            ConfigError::NoPeers => "server config must list at least one peer".to_owned(),
            ConfigError::BadBase64 => "base64-decode key".to_owned(),
            ConfigError::KeyLength(n) => {
                let mut out: String = "key must be 32 bytes, got ".to_owned();
                text::push_decimal(&mut out, *n as u64);
                out
            },
            ConfigError::NotCidr => "address must be CIDR, e.g. 10.66.66.1/24".to_owned(),
            ConfigError::BadCidrAddress => "parse IPv4 address".to_owned(),
            ConfigError::BadPrefix => "parse prefix length".to_owned(),
            ConfigError::PrefixTooLong => "prefix length must be <= 32".to_owned(),
            ConfigError::BadIpv4 => "parse IPv4".to_owned(),
            ConfigError::BadMode => "mode must be octal, e.g. 0600".to_owned(),
            ConfigError::NoKey => "set the key or the key file".to_owned(),
            ConfigError::LooseKeyFile(_) => "key file must be mode 0600 or tighter".to_owned(),
            ConfigError::BadKeyName => "invalid key name".to_owned(),
        }
    }
}

/// A key file is for its owner alone where none of the seven lowest bits of its
/// mode is set.
pub proof fn law_key_files_are_private(mode: u32)
    ensures
        is_private_mode(mode) <==> mode % 128 == 0,
{
    assert((mode & 0o177 == 0) == (mode % 128 == 0)) by (bit_vector);
}

/// A key is 32 bytes, the ones that the text without its outer blanks decodes
/// to; another length is refused with that length, and what does not decode as
/// no base64.
pub proof fn law_keys_have_32_bytes(s: Seq<char>)
    ensures
        ({
            let decoded = base64_decoded(text::trimmed(s));
            &&& decoded is None <==> read_key(s) == Err::<Seq<u8>, ConfigError>(
                ConfigError::BadBase64,
            )
            &&& decoded matches Some(bytes) ==> (read_key(s) is Ok <==> bytes.len() == 32)
            &&& read_key(s) matches Ok(key) ==> decoded == Some(key) && key.len() == 32
            &&& decoded matches Some(bytes) ==> bytes.len() != 32 ==> read_key(s) == Err::<
                Seq<u8>,
                ConfigError,
            >(ConfigError::KeyLength(bytes.len() as usize))
        }),
{
}

/// What stands after the slash of a network decides, whatever the address: a
/// number up to 32 is its prefix length, a larger one up to 255 is too long, and
/// all else is no prefix length.
pub proof fn law_prefix_lengths(ip: Ipv4Addr, tail: Seq<char>)
    ensures
        read_cidr(ip.dotted() + "/"@ + tail) == if !text::is_number(tail, 10) || text::number_value(
            tail,
            10,
        ) > 255 {
            Err(ConfigError::BadPrefix)
        } else if text::number_value(tail, 10) > 32 {
            Err(ConfigError::PrefixTooLong)
        } else {
            Ok((ip, text::number_value(tail, 10) as u8))
        },
{
    let host = ip.dotted();
    let s = host + "/"@ + tail;
    reveal_strlit("/");
    net::lemma_dotted_chars(ip);
    assert forall|k: int| 0 <= k < host.len() implies #[trigger] s[k] != '/' by {
        assert(s[k] == host[k]);
    }
    text::lemma_first_at(s, '/', host.len() as int);
    assert(s.take(host.len() as int) =~= host);
    assert(s.skip(host.len() as int + 1) =~= tail);
    net::law_dotted_reads_back(ip);
}

/// Only a dotted address, a slash and a number up to 32 is read as a network,
/// and only a text without a slash is refused as none.
pub proof fn law_networks_are_written_so(s: Seq<char>)
    ensures
        read_cidr(s) matches Ok((ip, prefix)) ==> {
            let tail = s.skip(ip.dotted().len() as int + 1);
            &&& prefix <= 32
            &&& s == ip.dotted() + seq!['/'] + tail
            &&& text::is_number(tail, 10)
            &&& text::number_value(tail, 10) == prefix
        },
        read_cidr(s) == Err::<(Ipv4Addr, u8), ConfigError>(ConfigError::NotCidr) <==> !s.contains(
            '/',
        ),
        read_ipv4(s) matches Ok(ip) ==> s == ip.dotted() || s.take(ip.dotted().len() as int + 1)
            == ip.dotted() + seq!['/'],
{
    lemma_slash(s);
    let slash = text::first_at(s, '/') as int;
    let host = s.take(slash);
    if net::read_dotted(host) is Some {
        let ip = net::read_dotted(host)->0;
        assert(host == ip.dotted());
        assert(host.len() == slash);
        if slash < s.len() {
            assert(s =~= host + seq!['/'] + s.skip(slash + 1));
            assert(s.take(slash + 1) =~= host + seq!['/']);
        } else {
            assert(host =~= s);
        }
    }
}

/// The first slash, if there is one.
proof fn lemma_slash(s: Seq<char>)
    ensures
        text::first_at(s, '/') <= s.len(),
        text::first_at(s, '/') < s.len() ==> s[text::first_at(s, '/') as int] == '/',
        text::first_at(s, '/') < s.len() <==> s.contains('/'),
    decreases s.len(),
{
    if s.len() > 0 && s[0] != '/' {
        let rest = s.skip(1);
        lemma_slash(rest);
        if s.contains('/') {
            let i = choose|i: int| 0 <= i < s.len() && s[i] == '/';
            assert(rest[i - 1] == '/');
        }
        if rest.contains('/') {
            let i = choose|i: int| 0 <= i < rest.len() && rest[i] == '/';
            assert(s[i + 1] == '/');
        }
    } else if s.len() > 0 {
        assert(s[0] == '/');
    }
}

/// Three octal digits are a file mode, the first for the owner; more than nine
/// bits, or what is no octal number, is refused.
pub proof fn law_modes_are_octal(a: nat, b: nat, c: nat, s: Seq<char>)
    requires
        a < 8,
        b < 8,
        c < 8,
    ensures
        read_mode(seq![(48 + a) as char, (48 + b) as char, (48 + c) as char]) == Ok::<
            u32,
            ConfigError,
        >((a * 64 + b * 8 + c) as u32),
        read_mode(s) is Ok <==> text::is_number(s, 8) && text::number_value(s, 8) < 512,
        read_mode(s) matches Ok(mode) ==> mode == text::number_value(s, 8),
        read_mode(s) matches Err(e) ==> e == ConfigError::BadMode,
{
    let x = (48 + a) as char;
    let y = (48 + b) as char;
    let z = (48 + c) as char;
    let t = seq![x, y, z];
    text::law_digits_count_by_place(Seq::empty(), a, 8);
    text::law_digits_count_by_place(seq![x], b, 8);
    text::law_digits_count_by_place(seq![x, y], c, 8);
    assert(Seq::empty().push(x) =~= seq![x]);
    assert(seq![x].push(y) =~= seq![x, y]);
    assert(seq![x, y].push(z) =~= t);
    text::law_numbers_are_digits(t, 8);
}

/// The environment's mode goes before the configured one, and is not passed
/// over where it is wrong.
pub proof fn law_environment_goes_first(env: Option<String>, configured: Seq<char>)
    ensures
        env matches Some(mode) ==> chosen_mode(env, configured) == read_mode(mode@),
        env is None ==> chosen_mode(env, configured) == read_mode(configured),
{
}

/// A key name stays in its directory: it holds no slash, and no two dots in a
/// row.
pub proof fn law_key_names_stay_inside(name: Seq<char>)
    ensures
        is_key_name(name) <==> !name.contains('/') && forall|i: int|
            #![trigger name[i]]
            0 <= i < name.len() - 1 ==> !(name[i] == '.' && name[i + 1] == '.'),
{
    lemma_slash(name);
    let pair = seq!['.', '.'];
    if text::occurs(pair, name) {
        let i = choose|i: int|
            0 <= i && i + pair.len() <= name.len() && #[trigger] name.subrange(i, i + pair.len())
                == pair;
        assert(name.subrange(i, i + 2)[0] == name[i] && name.subrange(i, i + 2)[1] == name[i + 1]);
    }
    assert forall|i: int|
        #![trigger name[i]]
        0 <= i < name.len() - 1 && name[i] == '.' && name[i + 1] == '.' implies text::occurs(
        pair,
        name,
    ) by {
        assert(name.subrange(i, i + pair.len()) =~= pair);
    }
}

/// What loading a configuration that was read gives.
pub open spec fn loaded(parsed: ServerConfig) -> Result<ServerConfig, ConfigError> {
    if parsed.peers@.len() > 0 {
        Ok(parsed)
    } else {
        Err(ConfigError::NoPeers)
    }
}

/// A configuration is taken as it is, however many peers it lists, and refused
/// only where it lists none.
pub proof fn law_configurations_with_peers_are_loaded(parsed: ServerConfig)
    ensures
        loaded(parsed) is Ok <==> parsed.peers@.len() >= 1,
        loaded(parsed) matches Ok(cfg) ==> cfg == parsed,
        loaded(parsed) matches Err(e) ==> e == ConfigError::NoPeers,
{
}

/// Where a key comes from.
pub open spec fn chosen_source(inline: Option<String>, file: Option<String>) -> Result<
    KeySource,
    ConfigError,
> {
    match inline {
        Some(key) => Ok(KeySource::Inline(key)),
        None => match file {
            Some(path) => Ok(KeySource::File(path)),
            None => Err(ConfigError::NoKey),
        },
    }
}

/// A key that is given is used, and the file only without one; where both are
/// missing there is none.
pub proof fn law_given_key_goes_first(inline: Option<String>, file: Option<String>)
    ensures
        inline matches Some(key) ==> chosen_source(inline, file) == Ok::<KeySource, ConfigError>(
            KeySource::Inline(key),
        ),
        inline is None ==> (file matches Some(path) ==> chosen_source(inline, file) == Ok::<
            KeySource,
            ConfigError,
        >(KeySource::File(path))),
        chosen_source(inline, file) is Err <==> inline is None && file is None,
        chosen_source(inline, file) matches Err(e) ==> e == ConfigError::NoKey,
{
}

} // verus!
