# soulvpn

System-wide VPN: Noise_IK (`Noise_IK_25519_ChaChaPoly_BLAKE2s`) over UDP into a
Linux TUN device. The logic is a Verus library: its functions carry contracts
that Verus proves. What it takes from other crates it reaches through a few
declarations, in `src/crypto/noise.rs` and `src/config.rs`, whose contracts are
not proved but believed.

## Layout

- `src/crypto/` – keys, handshake, sessions, packet framing, replay window.
  `noise.rs` holds what is taken on trust from `snow` and `x25519-dalek`.
- `src/server/` – peers, sessions, rate limit, handshakes and traffic of the
  server; `laws.rs` states what holds of them together.
- `src/client.rs` – connecting, upkeep and traffic of the client.
- `src/route/` – changes of routes, NAT, kill switch and name servers, as
  scripts of commands; `laws.rs` states what every run of a script keeps.
- `src/control.rs`, `src/stats.rs`, `src/monitor.rs`, `src/cli.rs` – control
  socket protocol, statistics and their texts, dashboard, command line.
- `src/config.rs` – configuration values; base64 is taken on trust there.
- `src/net.rs`, `src/packet.rs`, `src/tun_dev.rs`, `src/text.rs`, `src/time.rs`,
  `src/wire.rs` – addresses, IPv4 headers, netmasks, text, clocks, integers.
- `app/` – the program around the library: sockets, devices, files, terminal.
- `tests/` – tests on concrete values, with the real cryptography.

Times are arguments: nanoseconds of a monotonic clock, and milliseconds of the
wall clock where the status shows them. Whoever calls the library reads the
clocks.

## Control socket

A request is a frame: its length (u32 LE), then JSON.

| Op | Effect |
|----|--------|
| `status` | none |
| `off` | data is dropped; the client removes its routes and the kill switch |
| `on` | data flows again; the client puts its routes back, and the kill switch where it is configured |
| `quit` | the daemon answers and ends |

## Protocol

| Field | Layout |
|-------|--------|
| Handshake init | `1`, Noise message |
| Handshake response | `2`, session index (u32 LE), Noise message |
| Data | session index (u32 LE), nonce (u64 LE), ciphertext; empty plaintext = keepalive |

A session index is random and never starts a packet with a handshake type. The
endpoint of a peer moves only with a packet that opens, and the source inside
must be the peer's tunnel address. A session looks back over 1024 nonces.
