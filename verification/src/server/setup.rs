//! What the server makes of its configuration.

use super::peers::PeerTable;
use super::rate::RateLimit;
use super::sessions::State;
use crate::config;
use crate::config::{ConfigError, PeerConfig, ServerConfig};
use crate::net::{IpAddr, Ipv4Addr};
use vstd::prelude::*;

verus! {

/// The configured peers by public key, the later of two with one key, or the
/// first error.
pub open spec fn read_peers(peers: Seq<PeerConfig>) -> Result<Map<Seq<u8>, Ipv4Addr>, ConfigError>
    decreases peers.len(),
{
    if peers.len() == 0 {
        Ok(Map::empty())
    } else {
        let last = peers.last();
        match read_peers(peers.drop_last()) {
            Err(e) => Err(e),
            Ok(table) => match config::read_key(last.public_key@) {
                Err(e) => Err(e),
                Ok(key) => match config::read_ipv4(last.allowed_ip@) {
                    Err(e) => Err(e),
                    Ok(ip) => Ok(table.insert(key, ip)),
                },
            },
        }
    }
}

/// An error among the first peers is the error of all.
proof fn lemma_first_error(peers: Seq<PeerConfig>, n: int)
    requires
        0 <= n <= peers.len(),
        read_peers(peers.take(n)) is Err,
    ensures
        read_peers(peers) == read_peers(peers.take(n)),
    decreases peers.len(),
{
    if n == peers.len() {
        assert(peers.take(n) =~= peers);
    } else {
        assert(peers.drop_last().take(n) =~= peers.take(n));
        lemma_first_error(peers.drop_last(), n);
    }
}

/// The table of the configured peers.
pub fn load_peers(peers: &Vec<PeerConfig>) -> (r: Result<PeerTable, ConfigError>)
    ensures
        match r {
            Ok(table) => read_peers(peers@) == Ok::<Map<Seq<u8>, Ipv4Addr>, ConfigError>(table@),
            Err(e) => read_peers(peers@) == Err::<Map<Seq<u8>, Ipv4Addr>, ConfigError>(e),
        },
{
    let mut table: PeerTable = PeerTable::new();
    let mut i: usize = 0;
    while i < peers.len()
        invariant
            i <= peers@.len(),
            read_peers(peers@.take(i as int)) == Ok::<Map<Seq<u8>, Ipv4Addr>, ConfigError>(table@),
        decreases peers@.len() - i,
    {
        let peer: &PeerConfig = &peers[i];
        assert(peers@.take(i + 1).drop_last() =~= peers@.take(i as int));
        let key: [u8; 32] = match config::decode_key(peer.public_key.as_str()) {
            Ok(key) => key,
            Err(e) => {
                proof {
                    lemma_first_error(peers@, i + 1);
                }
                return Err(e);
            },
        };
        let ip: Ipv4Addr = match config::parse_ipv4(peer.allowed_ip.as_str()) {
            Ok(ip) => ip,
            Err(e) => {
                proof {
                    lemma_first_error(peers@, i + 1);
                }
                return Err(e);
            },
        };
        table.insert(key, ip);
        i += 1;
    }
    assert(peers@.take(i as int) =~= peers@);
    Ok(table)
}

/// What the server starts with.
pub struct Setup {
    /// Address of the TUN device.
    pub address: Ipv4Addr,
    /// Prefix length of the tunnel network.
    pub prefix: u8,
    /// Mode of the control socket.
    pub control_mode: u32,
    /// The peers, none of them connected.
    pub state: State,
}

impl Setup {
    /// Reads what a configuration holds as text: the address, the mode of the
    /// control socket (the environment's before the configured one), and the
    /// peers, in this order.
    pub fn new(cfg: &ServerConfig, env_mode: &Option<String>) -> (r: Result<Setup, ConfigError>)
        ensures
            match config::read_cidr(cfg.address@) {
                Err(e) => r == Err::<Setup, ConfigError>(e),
                Ok((address, prefix)) => match config::chosen_mode(*env_mode, cfg.control_mode@) {
                    Err(e) => r == Err::<Setup, ConfigError>(e),
                    Ok(mode) => match read_peers(cfg.peers@) {
                        Err(e) => r == Err::<Setup, ConfigError>(e),
                        Ok(peers) => {
                            &&& r matches Ok(setup)
                            &&& setup.address == address
                            &&& setup.prefix == prefix
                            &&& prefix <= 32
                            &&& setup.control_mode == mode
                            &&& setup.state.wf()
                            &&& setup.state@.sessions.dom().len() == 0
                            &&& setup.state@.peers == peers
                            &&& setup.state@.rate.max == at_least_one(
                                cfg.handshake_rate_limit as u64,
                            )
                            &&& setup.state@.rate.window_secs == at_least_one(
                                cfg.handshake_rate_window_secs,
                            )
                            &&& forall|ip: IpAddr| #[trigger]
                                setup.state@.rate.hits[ip] == Seq::<u64>::empty()
                        },
                    },
                },
            },
            sets_up(*cfg, *env_mode, r),
    {
        let (address, prefix): (Ipv4Addr, u8) = match config::parse_cidr(cfg.address.as_str()) {
            Ok(cidr) => cidr,
            Err(e) => {
                return Err(e);
            },
        };
        let control_mode: u32 = match config::control_mode(env_mode, cfg.control_mode.as_str()) {
            Ok(mode) => mode,
            Err(e) => {
                return Err(e);
            },
        };
        let peers: PeerTable = match load_peers(&cfg.peers) {
            Ok(peers) => peers,
            Err(e) => {
                return Err(e);
            },
        };
        let rate: RateLimit = RateLimit::new(
            cfg.handshake_rate_limit,
            cfg.handshake_rate_window_secs,
        );
        Ok(Setup { address, prefix, control_mode, state: State::new(peers, rate) })
    }
}

/// Whether `r` is what the server makes of a configuration.
pub open spec fn sets_up(
    cfg: ServerConfig,
    env_mode: Option<String>,
    r: Result<Setup, ConfigError>,
) -> bool {
    let cidr = config::read_cidr(cfg.address@);
    let mode = config::chosen_mode(env_mode, cfg.control_mode@);
    let peers = read_peers(cfg.peers@);
    match r {
        Ok(setup) => {
            &&& cidr == Ok::<(Ipv4Addr, u8), ConfigError>((setup.address, setup.prefix))
            &&& mode == Ok::<u32, ConfigError>(setup.control_mode)
            &&& peers == Ok::<Map<Seq<u8>, Ipv4Addr>, ConfigError>(setup.state@.peers)
            &&& setup.state@.sessions.dom().len() == 0
            &&& setup.state@.rate.max == at_least_one(cfg.handshake_rate_limit as u64)
            &&& setup.state@.rate.window_secs == at_least_one(cfg.handshake_rate_window_secs)
        },
        Err(e) => if cidr is Err {
            cidr->Err_0 == e
        } else if mode is Err {
            mode->Err_0 == e
        } else {
            peers is Err && peers->Err_0 == e
        },
    }
}

/// `n`, or one in place of zero.
pub open spec fn at_least_one(n: u64) -> u64 {
    if n == 0 {
        1
    } else {
        n
    }
}

/// Every configured peer is known: where the peers can be read, each of them has
/// the address configured with its key, unless a later one has the same key; and
/// every key that is known is that of a configured peer.
pub proof fn law_every_peer_is_known(peers: Seq<PeerConfig>, i: int, key: Seq<u8>)
    requires
        read_peers(peers) is Ok,
        0 <= i < peers.len(),
    ensures
        ({
            let table = read_peers(peers)->Ok_0;
            let own = config::read_key(peers[i].public_key@);
            &&& own is Ok
            &&& config::read_ipv4(peers[i].allowed_ip@) is Ok
            &&& table.contains_key(own->Ok_0)
            &&& (forall|j: int|
                i < j < peers.len() ==> config::read_key((#[trigger] peers[j]).public_key@) != own)
                ==> table[own->Ok_0] == config::read_ipv4(peers[i].allowed_ip@)->Ok_0
            &&& table.contains_key(key) ==> exists|j: int|
                0 <= j < peers.len() && config::read_key((#[trigger] peers[j]).public_key@) == Ok::<
                    Seq<u8>,
                    ConfigError,
                >(key) && config::read_ipv4(peers[j].allowed_ip@) == Ok::<Ipv4Addr, ConfigError>(
                    table[key],
                )
        }),
    decreases peers.len(),
{
    let table = read_peers(peers)->Ok_0;
    let front = peers.drop_last();
    let last = peers.len() - 1;
    assert(peers[last] == peers.last());
    if i < last {
        law_every_peer_is_known(front, i, key);
        assert(front[i] == peers[i]);
        let own = config::read_key(peers[i].public_key@);
        if forall|j: int|
            i < j < peers.len() ==> config::read_key((#[trigger] peers[j]).public_key@) != own {
            assert(config::read_key(peers[last].public_key@) != own);
            assert forall|j: int| i < j < front.len() implies config::read_key(
                (#[trigger] front[j]).public_key@,
            ) != own by {
                assert(front[j] == peers[j]);
            }
        }
    } else if front.len() > 0 {
        law_every_peer_is_known(front, 0, key);
    }
    if table.contains_key(key) && config::read_key(peers.last().public_key@) != Ok::<
        Seq<u8>,
        ConfigError,
    >(key) {
        let before = read_peers(front)->Ok_0;
        assert(before.contains_key(key));
        let j = choose|j: int|
            0 <= j < front.len() && config::read_key((#[trigger] front[j]).public_key@) == Ok::<
                Seq<u8>,
                ConfigError,
            >(key) && config::read_ipv4(front[j].allowed_ip@) == Ok::<Ipv4Addr, ConfigError>(
                before[key],
            );
        assert(peers[j] == front[j]);
    }
}

/// Peers are refused only for a key or an address that cannot be read, and for
/// the first of these.
pub proof fn law_peers_are_refused_for_a_reason(peers: Seq<PeerConfig>)
    ensures
        read_peers(peers) is Ok <==> forall|i: int|
            0 <= i < peers.len() ==> config::read_key((#[trigger] peers[i]).public_key@) is Ok
                && config::read_ipv4(peers[i].allowed_ip@) is Ok,
        read_peers(peers) matches Err(e) ==> exists|i: int|
            {
                &&& 0 <= i < peers.len()
                &&& read_peers(peers.take(i)) is Ok
                &&& match config::read_key((#[trigger] peers[i]).public_key@) {
                    Err(bad) => e == bad,
                    Ok(_) => config::read_ipv4(peers[i].allowed_ip@) == Err::<Ipv4Addr, ConfigError>(
                        e,
                    ),
                }
            },
    decreases peers.len(),
{
    if peers.len() > 0 {
        let front = peers.drop_last();
        let last = peers.len() - 1;
        law_peers_are_refused_for_a_reason(front);
        assert(peers[last] == peers.last());
        assert(peers.take(last) =~= front);
        assert forall|i: int| 0 <= i < front.len() implies #[trigger] front[i] == peers[i] by {}
        if read_peers(front) is Ok {
            assert forall|i: int| 0 <= i < last implies config::read_key(
                (#[trigger] peers[i]).public_key@,
            ) is Ok && config::read_ipv4(peers[i].allowed_ip@) is Ok by {
                assert(front[i] == peers[i]);
            }
        } else {
            let e = read_peers(front)->Err_0;
            let i = choose|i: int|
                {
                    &&& 0 <= i < front.len()
                    &&& read_peers(front.take(i)) is Ok
                    &&& match config::read_key((#[trigger] front[i]).public_key@) {
                        Err(bad) => e == bad,
                        Ok(_) => config::read_ipv4(front[i].allowed_ip@) == Err::<
                            Ipv4Addr,
                            ConfigError,
                        >(e),
                    }
                };
            assert(front.take(i) =~= peers.take(i));
            assert(front[i] == peers[i]);
        }
    }
}

/// Only zero is replaced, by one.
pub proof fn law_at_least_one(n: u64)
    ensures
        n >= 1 ==> at_least_one(n) == n,
        at_least_one(0) == 1,
{
}

/// A server starts with what its configuration says: the network, the mode of
/// the control socket, each peer, and the limits as they are configured where
/// they are not zero; and it is refused only for a value that cannot be read.
pub proof fn law_server_starts_as_configured(
    cfg: ServerConfig,
    env_mode: Option<String>,
    r: Result<Setup, ConfigError>,
    i: int,
    key: Seq<u8>,
    ip: Ipv4Addr,
)
    requires
        sets_up(cfg, env_mode, r),
        0 <= i < cfg.peers@.len(),
        config::read_key(cfg.peers@[i].public_key@) == Ok::<Seq<u8>, ConfigError>(key),
        config::read_ipv4(cfg.peers@[i].allowed_ip@) == Ok::<Ipv4Addr, ConfigError>(ip),
        forall|j: int|
            i < j < cfg.peers@.len() ==> config::read_key(
                (#[trigger] cfg.peers@[j]).public_key@,
            ) != Ok::<Seq<u8>, ConfigError>(key),
    ensures
        r is Ok <==> {
            &&& config::read_cidr(cfg.address@) is Ok
            &&& config::chosen_mode(env_mode, cfg.control_mode@) is Ok
            &&& read_peers(cfg.peers@) is Ok
        },
        r matches Ok(setup) ==> {
            &&& setup.state@.peers.contains_key(key)
            &&& setup.state@.peers[key] == ip
            &&& setup.prefix <= 32
            &&& setup.control_mode < 512
            &&& cfg.handshake_rate_limit > 0 ==> setup.state@.rate.max == cfg.handshake_rate_limit
            &&& cfg.handshake_rate_window_secs > 0 ==> setup.state@.rate.window_secs
                == cfg.handshake_rate_window_secs
            &&& setup.state@.rate.max >= 1 && setup.state@.rate.window_secs >= 1
        },
{
    if r is Ok {
        law_every_peer_is_known(cfg.peers@, i, key);
    }
}

} // verus!
