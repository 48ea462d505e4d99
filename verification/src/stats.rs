//! Runtime statistics, the enable flag, and their text for people.

use crate::text;
use crate::time;
use vstd::prelude::*;

verus! {

/// Which end of the tunnel a process is.
#[derive(Debug, Clone, Copy, PartialEq, Eq, Structural)]
pub enum Role {
    Client,
    Server,
}

impl Role {
    /// The name of the role.
    pub open spec fn name(self) -> Seq<char> {
        match self {
            Role::Client => "Client"@,
            Role::Server => "Server"@,
        }
    }

    /// The name of the role.
    pub fn to_text(self) -> (r: String)
        ensures
            r@ == self.name(),
    {
        match self {
            Role::Client => "Client".to_owned(),
            Role::Server => "Server".to_owned(),
        }
    }
}

/// A connected peer as the status shows it.
#[derive(Debug)]
pub struct PeerSnapshot {
    pub tunnel_ip: String,
    pub endpoint: String,
    pub session_index: u32,
    pub last_handshake_ago_secs: u64,
    pub idle_secs: u64,
}

impl Clone for PeerSnapshot {
    fn clone(&self) -> (r: Self)
        ensures
            r == *self,
    {
        PeerSnapshot {
            tunnel_ip: self.tunnel_ip.clone(),
            endpoint: self.endpoint.clone(),
            session_index: self.session_index,
            last_handshake_ago_secs: self.last_handshake_ago_secs,
            idle_secs: self.idle_secs,
        }
    }
}

/// What a running process counts. `started` is a point on the monotonic clock,
/// `last_activity_ms` one on the wall clock. Counters wrap around.
#[derive(Debug)]
pub struct RuntimeStats {
    pub role: Role,
    pub started: u64,
    pub endpoint: String,
    pub address: String,
    pub tun_name: String,
    pub enabled: bool,
    pub tx_packets: u64,
    pub rx_packets: u64,
    pub tx_bytes: u64,
    pub rx_bytes: u64,
    pub encrypt_errors: u64,
    pub decrypt_errors: u64,
    pub policy_drops: u64,
    pub handshakes_ok: u64,
    pub handshakes_fail: u64,
    pub reconnects: u64,
    pub active_sessions: u64,
    pub last_activity_ms: u64,
    pub peers: Vec<PeerSnapshot>,
}

/// `x + y` on a counter that wraps around.
pub open spec fn counted(x: u64, y: u64) -> u64 {
    if x + y > u64::MAX {
        (x + y - 0x1_0000_0000_0000_0000) as u64
    } else {
        (x + y) as u64
    }
}

impl RuntimeStats {
    /// The statistics after a packet was sent.
    pub open spec fn sent(self, bytes: u64, now_ms: u64) -> RuntimeStats {
        RuntimeStats {
            tx_packets: counted(self.tx_packets, 1),
            tx_bytes: counted(self.tx_bytes, bytes),
            last_activity_ms: now_ms,
            ..self
        }
    }

    /// The statistics after a packet was received.
    pub open spec fn received(self, bytes: u64, now_ms: u64) -> RuntimeStats {
        RuntimeStats {
            rx_packets: counted(self.rx_packets, 1),
            rx_bytes: counted(self.rx_bytes, bytes),
            last_activity_ms: now_ms,
            ..self
        }
    }

    /// Statistics of a process that starts now, enabled.
    pub fn new(
        role: Role,
        endpoint: String,
        address: String,
        tun_name: String,
        started: u64,
        now_ms: u64,
    ) -> (r: Self)
        ensures
            r.peers@.len() == 0,
            r == (RuntimeStats {
                role,
                started,
                endpoint,
                address,
                tun_name,
                enabled: true,
                tx_packets: 0,
                rx_packets: 0,
                tx_bytes: 0,
                rx_bytes: 0,
                encrypt_errors: 0,
                decrypt_errors: 0,
                policy_drops: 0,
                handshakes_ok: 0,
                handshakes_fail: 0,
                reconnects: 0,
                active_sessions: 0,
                last_activity_ms: now_ms,
                peers: r.peers,
            }),
    {
        RuntimeStats {
            role,
            started,
            endpoint,
            address,
            tun_name,
            enabled: true,
            tx_packets: 0,
            rx_packets: 0,
            tx_bytes: 0,
            rx_bytes: 0,
            encrypt_errors: 0,
            decrypt_errors: 0,
            policy_drops: 0,
            handshakes_ok: 0,
            handshakes_fail: 0,
            reconnects: 0,
            active_sessions: 0,
            last_activity_ms: now_ms,
            peers: Vec::new(),
        }
    }

    /// Whether the data plane is enabled.
    pub fn is_enabled(&self) -> (r: bool)
        ensures
            r == self.enabled,
    {
        self.enabled
    }

    /// Enables or disables the data plane.
    pub fn set_enabled(&mut self, on: bool, now_ms: u64)
        ensures
            *final(self) == (RuntimeStats {
                enabled: on,
                last_activity_ms: now_ms,
                ..*old(self)
            }),
    {
        self.enabled = on;
        self.touch(now_ms);
    }

    /// Counts a packet that was sent.
    pub fn record_tx(&mut self, bytes: u64, now_ms: u64)
        ensures
            *final(self) == (RuntimeStats {
                tx_packets: counted(old(self).tx_packets, 1),
                tx_bytes: counted(old(self).tx_bytes, bytes),
                last_activity_ms: now_ms,
                ..*old(self)
            }),
            *final(self) == old(self).sent(bytes, now_ms),
    {
        self.tx_packets = self.tx_packets.wrapping_add(1);
        self.tx_bytes = self.tx_bytes.wrapping_add(bytes);
        self.touch(now_ms);
    }

    /// Counts a packet that was received.
    pub fn record_rx(&mut self, bytes: u64, now_ms: u64)
        ensures
            *final(self) == (RuntimeStats {
                rx_packets: counted(old(self).rx_packets, 1),
                rx_bytes: counted(old(self).rx_bytes, bytes),
                last_activity_ms: now_ms,
                ..*old(self)
            }),
            *final(self) == old(self).received(bytes, now_ms),
    {
        self.rx_packets = self.rx_packets.wrapping_add(1);
        self.rx_bytes = self.rx_bytes.wrapping_add(bytes);
        self.touch(now_ms);
    }

    /// Mark liveness without counting traffic (keepalives).
    pub fn touch_activity(&mut self, now_ms: u64)
        ensures
            *final(self) == (RuntimeStats { last_activity_ms: now_ms, ..*old(self) }),
    {
        self.touch(now_ms);
    }

    /// Counts a packet that could not be sealed.
    pub fn record_encrypt_err(&mut self)
        ensures
            *final(self) == (RuntimeStats {
                encrypt_errors: counted(old(self).encrypt_errors, 1),
                ..*old(self)
            }),
    {
        self.encrypt_errors = self.encrypt_errors.wrapping_add(1);
    }

    /// Counts a packet that could not be opened.
    pub fn record_decrypt_err(&mut self)
        ensures
            *final(self) == (RuntimeStats {
                decrypt_errors: counted(old(self).decrypt_errors, 1),
                ..*old(self)
            }),
    {
        self.decrypt_errors = self.decrypt_errors.wrapping_add(1);
    }

    /// Counts a packet that the policy refused.
    pub fn record_policy_drop(&mut self)
        ensures
            *final(self) == (RuntimeStats {
                policy_drops: counted(old(self).policy_drops, 1),
                ..*old(self)
            }),
    {
        self.policy_drops = self.policy_drops.wrapping_add(1);
    }

    /// Counts a handshake that succeeded.
    pub fn record_handshake_ok(&mut self, now_ms: u64)
        ensures
            *final(self) == (RuntimeStats {
                handshakes_ok: counted(old(self).handshakes_ok, 1),
                last_activity_ms: now_ms,
                ..*old(self)
            }),
    {
        self.handshakes_ok = self.handshakes_ok.wrapping_add(1);
        self.touch(now_ms);
    }

    /// Counts a handshake that failed.
    pub fn record_handshake_fail(&mut self)
        ensures
            *final(self) == (RuntimeStats {
                handshakes_fail: counted(old(self).handshakes_fail, 1),
                ..*old(self)
            }),
    {
        self.handshakes_fail = self.handshakes_fail.wrapping_add(1);
    }

    /// Counts a reconnect.
    pub fn record_reconnect(&mut self)
        ensures
            *final(self) == (RuntimeStats {
                reconnects: counted(old(self).reconnects, 1),
                ..*old(self)
            }),
    {
        self.reconnects = self.reconnects.wrapping_add(1);
    }

    /// Sets the number of sessions.
    pub fn set_sessions(&mut self, n: u64)
        ensures
            *final(self) == (RuntimeStats { active_sessions: n, ..*old(self) }),
    {
        self.active_sessions = n;
    }

    /// Sets the connected peers.
    pub fn set_peers(&mut self, peers: Vec<PeerSnapshot>)
        ensures
            *final(self) == (RuntimeStats { peers, ..*old(self) }),
    {
        self.peers = peers;
    }

    /// Marks liveness.
    fn touch(&mut self, now_ms: u64)
        ensures
            *final(self) == (RuntimeStats { last_activity_ms: now_ms, ..*old(self) }),
    {
        self.last_activity_ms = now_ms;
    }

    /// Whether `r` shows the statistics at the monotonic time `now` of the
    /// process `pid`.
    pub open spec fn shown_as(self, r: StatusSnapshot, now: u64, pid: u32) -> bool {
        &&& r.peers@ == self.peers@
        &&& r == (StatusSnapshot {
            role: self.role,
            enabled: self.enabled,
            uptime_secs: (time::elapsed_ns(now, self.started) / time::NANOS as nat) as u64,
            tx_packets: self.tx_packets,
            rx_packets: self.rx_packets,
            tx_bytes: self.tx_bytes,
            rx_bytes: self.rx_bytes,
            encrypt_errors: self.encrypt_errors,
            decrypt_errors: self.decrypt_errors,
            policy_drops: self.policy_drops,
            handshakes_ok: self.handshakes_ok,
            handshakes_fail: self.handshakes_fail,
            reconnects: self.reconnects,
            active_sessions: self.active_sessions,
            last_activity_ms: self.last_activity_ms,
            endpoint: self.endpoint,
            address: self.address,
            tun_name: self.tun_name,
            pid,
            peers: r.peers,
        })
    }

    /// The statistics at the monotonic time `now` of the process `pid`.
    pub fn snapshot(&self, now: u64, pid: u32) -> (r: StatusSnapshot)
        ensures
            self.shown_as(r, now, pid),
    {
        let peers: Vec<PeerSnapshot> = self.peers.clone();
        assert(peers@ =~= self.peers@);
        StatusSnapshot {
            role: self.role,
            enabled: self.enabled,
            uptime_secs: time::elapsed_secs(now, self.started),
            tx_packets: self.tx_packets,
            rx_packets: self.rx_packets,
            tx_bytes: self.tx_bytes,
            rx_bytes: self.rx_bytes,
            encrypt_errors: self.encrypt_errors,
            decrypt_errors: self.decrypt_errors,
            policy_drops: self.policy_drops,
            handshakes_ok: self.handshakes_ok,
            handshakes_fail: self.handshakes_fail,
            reconnects: self.reconnects,
            active_sessions: self.active_sessions,
            last_activity_ms: self.last_activity_ms,
            endpoint: self.endpoint.clone(),
            address: self.address.clone(),
            tun_name: self.tun_name.clone(),
            pid,
            peers,
        }
    }
}

/// The statistics at one moment.
#[derive(Debug, Clone)]
pub struct StatusSnapshot {
    pub role: Role,
    pub enabled: bool,
    pub uptime_secs: u64,
    pub tx_packets: u64,
    pub rx_packets: u64,
    pub tx_bytes: u64,
    pub rx_bytes: u64,
    pub encrypt_errors: u64,
    pub decrypt_errors: u64,
    pub policy_drops: u64,
    pub handshakes_ok: u64,
    pub handshakes_fail: u64,
    pub reconnects: u64,
    pub active_sessions: u64,
    pub last_activity_ms: u64,
    pub endpoint: String,
    pub address: String,
    pub tun_name: String,
    pub pid: u32,
    pub peers: Vec<PeerSnapshot>,
}

/// The line of one peer.
pub open spec fn peer_line(p: PeerSnapshot) -> Seq<char> {
    "  "@ + p.tunnel_ip@ + "  via "@ + p.endpoint@ + "  idx="@ + text::decimal(p.session_index as nat)
        + "  hs="@ + text::decimal(p.last_handshake_ago_secs as nat) + "s ago  idle="@
        + text::decimal(p.idle_secs as nat) + "s\n"@
}

/// The lines of all peers.
pub open spec fn peer_lines(peers: Seq<PeerSnapshot>) -> Seq<char>
    decreases peers.len(),
{
    if peers.len() == 0 {
        Seq::empty()
    } else {
        peer_lines(peers.drop_last()) + peer_line(peers.last())
    }
}

/// Milliseconds from `since` to `now`, none where `since` lies ahead.
pub open spec fn ms_since(now_ms: u64, since_ms: u64) -> nat {
    if since_ms <= now_ms {
        (now_ms - since_ms) as nat
    } else {
        0
    }
}

impl StatusSnapshot {
    /// The text without the peers.
    pub open spec fn summary(self, now_ms: u64) -> Seq<char> {
        "soulvpn "@ + self.role.name() + "  ["@ + (if self.enabled {
            "ON "@
        } else {
            "OFF"@
        }) + "]  pid "@ + text::decimal(self.pid as nat) + "\nendpoint   "@ + self.endpoint@
            + "\naddress    "@ + self.address@ + "\ntun        "@ + self.tun_name@
            + "\nuptime     "@ + duration_text(self.uptime_secs as nat) + "\nsessions   "@
            + text::decimal(self.active_sessions as nat) + "\ntx         "@ + text::decimal(
            self.tx_packets as nat,
        ) + " pkts  "@ + bytes_text(self.tx_bytes as nat) + "\nrx         "@ + text::decimal(
            self.rx_packets as nat,
        ) + " pkts  "@ + bytes_text(self.rx_bytes as nat) + "\nhandshakes ok="@ + text::decimal(
            self.handshakes_ok as nat,
        ) + "  fail="@ + text::decimal(self.handshakes_fail as nat) + "  reconnects="@
            + text::decimal(self.reconnects as nat) + "\nerrors     encrypt="@ + text::decimal(
            self.encrypt_errors as nat,
        ) + "  decrypt="@ + text::decimal(self.decrypt_errors as nat) + "  policy="@
            + text::decimal(self.policy_drops as nat) + "\nlast act   "@ + duration_text(
            ms_since(now_ms, self.last_activity_ms) / 1000,
        ) + " ago"@
    }

    /// The whole text.
    pub open spec fn human(self, now_ms: u64) -> Seq<char> {
        if self.peers@.len() == 0 {
            self.summary(now_ms)
        } else {
            self.summary(now_ms) + "\npeers:\n"@ + peer_lines(self.peers@)
        }
    }

    /// The status as text, at the wall clock time `now_ms`.
    pub fn format_human(&self, now_ms: u64) -> (r: String)
        ensures
            r@ == self.human(now_ms),
    {
        let mut out: String = "soulvpn ".to_owned();
        out.append(self.role.to_text().as_str());
        out.append("  [");
        out.append(
            if self.enabled {
                "ON "
            } else {
                "OFF"
            },
        );
        out.append("]  pid ");
        text::push_decimal(&mut out, self.pid as u64);
        out.append("\nendpoint   ");
        out.append(self.endpoint.as_str());
        out.append("\naddress    ");
        out.append(self.address.as_str());
        out.append("\ntun        ");
        out.append(self.tun_name.as_str());
        out.append("\nuptime     ");
        out.append(format_duration(self.uptime_secs).as_str());
        out.append("\nsessions   ");
        text::push_decimal(&mut out, self.active_sessions);
        out.append("\ntx         ");
        text::push_decimal(&mut out, self.tx_packets);
        out.append(" pkts  ");
        out.append(format_bytes(self.tx_bytes).as_str());
        out.append("\nrx         ");
        text::push_decimal(&mut out, self.rx_packets);
        out.append(" pkts  ");
        out.append(format_bytes(self.rx_bytes).as_str());
        out.append("\nhandshakes ok=");
        text::push_decimal(&mut out, self.handshakes_ok);
        out.append("  fail=");
        text::push_decimal(&mut out, self.handshakes_fail);
        out.append("  reconnects=");
        text::push_decimal(&mut out, self.reconnects);
        out.append("\nerrors     encrypt=");
        text::push_decimal(&mut out, self.encrypt_errors);
        out.append("  decrypt=");
        text::push_decimal(&mut out, self.decrypt_errors);
        out.append("  policy=");
        text::push_decimal(&mut out, self.policy_drops);
        out.append("\nlast act   ");
        let ago_ms: u64 = now_ms.saturating_sub(self.last_activity_ms);
        out.append(format_duration(ago_ms / 1000).as_str());
        out.append(" ago");
        assert(out@ == self.summary(now_ms));
        if self.peers.len() == 0 {
            return out;
        }
        out.append("\npeers:\n");
        let ghost head = out@;
        let mut i: usize = 0;
        assert(head + peer_lines(self.peers@.take(0)) =~= head);
        while i < self.peers.len()
            invariant
                i <= self.peers@.len(),
                out@ == head + peer_lines(self.peers@.take(i as int)),
            decreases self.peers@.len() - i,
        {
            let p: &PeerSnapshot = &self.peers[i];
            let line: String = format_peer(p);
            proof {
                let some = self.peers@.take(i + 1);
                assert(some.drop_last() =~= self.peers@.take(i as int));
                assert(head + peer_lines(self.peers@.take(i as int)) + peer_line(*p) =~= head + (
                peer_lines(self.peers@.take(i as int)) + peer_line(*p)));
            }
            out.append(line.as_str());
            i += 1;
        }
        assert(self.peers@.take(i as int) =~= self.peers@);
        out
    }
}

/// The line of one peer.
fn format_peer(p: &PeerSnapshot) -> (r: String)
    ensures
        r@ == peer_line(*p),
{
    let mut out: String = "  ".to_owned();
    out.append(p.tunnel_ip.as_str());
    out.append("  via ");
    out.append(p.endpoint.as_str());
    out.append("  idx=");
    text::push_decimal(&mut out, p.session_index as u64);
    out.append("  hs=");
    text::push_decimal(&mut out, p.last_handshake_ago_secs);
    out.append("s ago  idle=");
    text::push_decimal(&mut out, p.idle_secs);
    out.append("s\n");
    out
}

/// `n / d`, rounded to the nearest integer, halves to the even one.
pub open spec fn nearest(n: nat, d: nat) -> nat {
    if 2 * (n % d) > d || (2 * (n % d) == d && n / d % 2 == 1) {
        n / d + 1
    } else {
        n / d
    }
}

/// The distance of the neighbours of `n` among the numbers of 53 significant
/// bits.
pub open spec fn spacing(n: nat) -> nat
    decreases n,
{
    if n < 0x20_0000_0000_0000 {
        1
    } else {
        2 * spacing(n / 2)
    }
}

/// `n` rounded to 53 significant bits, as a double holds it.
pub open spec fn as_double(n: nat) -> nat {
    nearest(n, spacing(n)) * spacing(n)
}

/// How many steps of 1024 bring a size below 1024, up to four.
pub open spec fn unit_of(v: nat) -> nat {
    if v < 0x400 {
        0
    } else if v < 0x10_0000 {
        1
    } else if v < 0x4000_0000 {
        2
    } else if v < 0x100_0000_0000 {
        3
    } else {
        4
    }
}

/// Bytes in a unit.
pub open spec fn unit_size(unit: nat) -> nat {
    if unit == 0 {
        1
    } else if unit == 1 {
        0x400
    } else if unit == 2 {
        0x10_0000
    } else if unit == 3 {
        0x4000_0000
    } else {
        0x100_0000_0000
    }
}

/// Name of a unit.
pub open spec fn unit_name(unit: nat) -> Seq<char> {
    if unit == 0 {
        "B"@
    } else if unit == 1 {
        "KiB"@
    } else if unit == 2 {
        "MiB"@
    } else if unit == 3 {
        "GiB"@
    } else {
        "TiB"@
    }
}

/// A size in the largest unit that it fills, with two decimals above bytes.
pub open spec fn bytes_text(n: nat) -> Seq<char> {
    let unit = unit_of(as_double(n));
    let hundredths = nearest(as_double(n) * 100, unit_size(unit));
    if unit == 0 {
        text::decimal(n) + " B"@
    } else {
        text::decimal(hundredths / 100) + "."@ + text::two_digits(hundredths % 100) + " "@
            + unit_name(unit)
    }
}

/// `n / d`, rounded to the nearest integer, halves to the even one.
fn round_div(n: u128, d: u128) -> (r: u128)
    requires
        0 < d < 0x1_0000_0000_0000_0000,
    ensures
        r == nearest(n as nat, d as nat),
        n / d <= r <= n / d + 1,
{
    let q: u128 = n / d;
    let rest: u128 = n % d;
    proof {
        if d == 1 {
            assert(n % d == 0);
        } else {
            assert(n / d <= n / 2) by (nonlinear_arith)
                requires
                    d >= 2,
            ;
        }
    }
    if 2 * rest > d || (2 * rest == d && q % 2 == 1) {
        q + 1
    } else {
        q
    }
}

/// `n` rounded to 53 significant bits.
fn to_double(n: u64) -> (r: u128)
    ensures
        r == as_double(n as nat),
        r <= 0x20_0000_0000_0000 * 0x1000,
        n < 0x20_0000_0000_0000 ==> r == n,
{
    let mut rest: u64 = n;
    let mut step: u64 = 1;
    assert(n as nat / 1 == n);
    while rest >= 0x20_0000_0000_0000
        invariant
            spacing(n as nat) == step * spacing(rest as nat),
            rest == n as nat / step as nat,
            1 <= step <= 0x1000,
            n < 0x20_0000_0000_0000 ==> step == 1,
        decreases rest,
    {
        proof {
            let half = spacing(rest as nat / 2);
            assert(step * (2 * half) == (2 * step) * half) by (nonlinear_arith);
            vstd::arithmetic::div_mod::lemma_div_denominator(n as int, step as int, 2);
            assert(step < 0x800) by (nonlinear_arith)
                requires
                    n as nat / step as nat >= 0x20_0000_0000_0000,
                    n <= 0xffff_ffff_ffff_ffff,
                    step >= 1,
            ;
        }
        rest = rest / 2;
        step = step * 2;
    }
    assert(step * spacing(rest as nat) == step) by (nonlinear_arith)
        requires
            spacing(rest as nat) == 1,
    ;
    let q: u128 = round_div(n as u128, step as u128);
    proof {
        assert(q * step <= 0x20_0000_0000_0000 * 0x1000) by (nonlinear_arith)
            requires
                q <= 0x20_0000_0000_0000,
                step <= 0x1000,
        ;
        if n < 0x20_0000_0000_0000 {
            assert(step == 1 && n as nat / 1 == n && n as nat % 1 == 0);
            assert(q == n);
            assert(q * 1 == q);
        }
    }
    q * step as u128
}

/// A size as text, in binary units.
pub fn format_bytes(n: u64) -> (r: String)
    ensures
        r@ == bytes_text(n as nat),
{
    let v: u128 = to_double(n);
    if v < 0x400 {
        let mut out: String = text::to_decimal(n);
        out.append(" B");
        return out;
    }
    let (size, name): (u128, &str) = if v < 0x10_0000 {
        (0x400, "KiB")
    } else if v < 0x4000_0000 {
        (0x10_0000, "MiB")
    } else if v < 0x100_0000_0000 {
        (0x4000_0000, "GiB")
    } else {
        (0x100_0000_0000, "TiB")
    };
    let hundredths: u128 = round_div(v * 100, size);
    let mut out: String = text::to_decimal((hundredths / 100) as u64);
    out.append(".");
    text::push_two_digits(&mut out, (hundredths % 100) as u64);
    out.append(" ");
    out.append(name);
    out
}

/// A span of seconds in hours, minutes and seconds, the larger ones left out
/// while they are zero.
pub open spec fn duration_text(secs: nat) -> Seq<char> {
    let h = secs / 3600;
    let m = secs % 3600 / 60;
    let s = secs % 60;
    if h > 0 {
        text::decimal(h) + "h"@ + text::two_digits(m) + "m"@ + text::two_digits(s) + "s"@
    } else if m > 0 {
        text::decimal(m) + "m"@ + text::two_digits(s) + "s"@
    } else {
        text::decimal(s) + "s"@
    }
}

/// A span of whole seconds as text.
pub fn format_duration(secs: u64) -> (r: String)
    ensures
        r@ == duration_text(secs as nat),
{
    let h: u64 = secs / 3600;
    let m: u64 = (secs % 3600) / 60;
    let s: u64 = secs % 60;
    if h > 0 {
        let mut out: String = text::to_decimal(h);
        out.append("h");
        text::push_two_digits(&mut out, m);
        out.append("m");
        text::push_two_digits(&mut out, s);
        out.append("s");
        out
    } else if m > 0 {
        let mut out: String = text::to_decimal(m);
        out.append("m");
        text::push_two_digits(&mut out, s);
        out.append("s");
        out
    } else {
        let mut out: String = text::to_decimal(s);
        out.append("s");
        out
    }
}

/// A rate of whole bytes per second as text.
pub fn format_rate(bytes_per_sec: u64) -> (r: String)
    ensures
        r@ == bytes_text(bytes_per_sec as nat) + "/s"@,
{
    let mut out: String = format_bytes(bytes_per_sec);
    out.append("/s");
    out
}

/// A counter holds the sum of what was counted, up to multiples of two to the
/// power of 64.
pub proof fn law_counters_add_up(x: u64, y: u64)
    ensures
        counted(x, y) as int == (x + y) % 0x1_0000_0000_0000_0000,
{
}

/// The sum of sizes.
pub open spec fn total(sizes: Seq<u64>) -> int
    decreases sizes.len(),
{
    if sizes.len() == 0 {
        0
    } else {
        total(sizes.drop_last()) + sizes.last()
    }
}

/// The statistics after packets of these sizes were sent.
pub open spec fn sent_all(before: RuntimeStats, sizes: Seq<u64>, now_ms: u64) -> RuntimeStats
    decreases sizes.len(),
{
    if sizes.len() == 0 {
        before
    } else {
        sent_all(before, sizes.drop_last(), now_ms).sent(sizes.last(), now_ms)
    }
}

/// The statistics after packets of these sizes were received.
pub open spec fn received_all(before: RuntimeStats, sizes: Seq<u64>, now_ms: u64) -> RuntimeStats
    decreases sizes.len(),
{
    if sizes.len() == 0 {
        before
    } else {
        received_all(before, sizes.drop_last(), now_ms).received(sizes.last(), now_ms)
    }
}

/// However many packets were sent, their number and the sum of their sizes are
/// counted, and nothing else changes but the time of the last activity.
pub proof fn law_sent_traffic_adds_up(before: RuntimeStats, sizes: Seq<u64>, now_ms: u64)
    ensures
        ({
            let after = sent_all(before, sizes, now_ms);
            &&& after.tx_packets as int == (before.tx_packets + sizes.len())
                % 0x1_0000_0000_0000_0000
            &&& after.tx_bytes as int == (before.tx_bytes + total(sizes)) % 0x1_0000_0000_0000_0000
            &&& after == (RuntimeStats {
                tx_packets: after.tx_packets,
                tx_bytes: after.tx_bytes,
                last_activity_ms: if sizes.len() == 0 {
                    before.last_activity_ms
                } else {
                    now_ms
                },
                ..before
            })
        }),
    decreases sizes.len(),
{
    if sizes.len() > 0 {
        law_sent_traffic_adds_up(before, sizes.drop_last(), now_ms);
    }
}

/// The same of packets that were received.
pub proof fn law_received_traffic_adds_up(before: RuntimeStats, sizes: Seq<u64>, now_ms: u64)
    ensures
        ({
            let after = received_all(before, sizes, now_ms);
            &&& after.rx_packets as int == (before.rx_packets + sizes.len())
                % 0x1_0000_0000_0000_0000
            &&& after.rx_bytes as int == (before.rx_bytes + total(sizes)) % 0x1_0000_0000_0000_0000
            &&& after == (RuntimeStats {
                rx_packets: after.rx_packets,
                rx_bytes: after.rx_bytes,
                last_activity_ms: if sizes.len() == 0 {
                    before.last_activity_ms
                } else {
                    now_ms
                },
                ..before
            })
        }),
    decreases sizes.len(),
{
    if sizes.len() > 0 {
        law_received_traffic_adds_up(before, sizes.drop_last(), now_ms);
    }
}

/// A status shows each counter under its own name, and the whole seconds that
/// the process has run.
pub proof fn law_status_shows_the_counters(
    stats: RuntimeStats,
    r: StatusSnapshot,
    now: u64,
    pid: u32,
)
    requires
        stats.shown_as(r, now, pid),
    ensures
        r.role == stats.role && r.enabled == stats.enabled && r.pid == pid,
        r.tx_packets == stats.tx_packets && r.rx_packets == stats.rx_packets,
        r.tx_bytes == stats.tx_bytes && r.rx_bytes == stats.rx_bytes,
        r.encrypt_errors == stats.encrypt_errors && r.decrypt_errors == stats.decrypt_errors,
        r.policy_drops == stats.policy_drops && r.reconnects == stats.reconnects,
        r.handshakes_ok == stats.handshakes_ok && r.handshakes_fail == stats.handshakes_fail,
        r.active_sessions == stats.active_sessions,
        r.last_activity_ms == stats.last_activity_ms,
        r.endpoint == stats.endpoint && r.address == stats.address && r.tun_name == stats.tun_name,
        r.peers@ == stats.peers@,
        stats.started <= now ==> r.uptime_secs * 1_000_000_000 <= now - stats.started < (
        r.uptime_secs + 1) * 1_000_000_000,
        stats.started > now ==> r.uptime_secs == 0,
{
}

/// A span is written in hours, minutes and seconds, from the largest that is
/// not zero on, all but the first in two digits.
pub proof fn law_durations_are_split(h: nat, m: nat, s: nat)
    requires
        m < 60,
        s < 60,
    ensures
        duration_text(h * 3600 + m * 60 + s) == if h > 0 {
            text::decimal(h) + "h"@ + text::two_digits(m) + "m"@ + text::two_digits(s) + "s"@
        } else if m > 0 {
            text::decimal(m) + "m"@ + text::two_digits(s) + "s"@
        } else {
            text::decimal(s) + "s"@
        },
{
    let secs = h * 3600 + m * 60 + s;
    assert(secs / 3600 == h && secs % 3600 == m * 60 + s);
    assert(secs % 3600 / 60 == m);
    assert(secs % 60 == s);
}

/// Milliseconds are counted from the earlier to the later time, and none back.
pub proof fn law_ms_since(now_ms: u64, since_ms: u64)
    ensures
        since_ms <= now_ms ==> since_ms + ms_since(now_ms, since_ms) == now_ms,
        since_ms >= now_ms ==> ms_since(now_ms, since_ms) == 0,
{
}

/// A quotient is rounded to an integer that no other is nearer to.
pub proof fn law_rounding_is_to_the_nearest(n: nat, d: nat)
    requires
        d > 0,
    ensures
        2 * (nearest(n, d) * d - n) <= d,
        2 * (n - nearest(n, d) * d) <= d,
        n % d == 0 ==> nearest(n, d) * d == n,
        2 * (nearest(n, d) * d - n) == d || 2 * (n - nearest(n, d) * d) == d ==> nearest(n, d) % 2
            == 0,
{
    vstd::arithmetic::div_mod::lemma_fundamental_div_mod(n as int, d as int);
    let q = n / d;
    assert(d * q == q * d) by (nonlinear_arith);
    assert((q + 1) * d == q * d + d) by (nonlinear_arith);
}

/// Sizes that a double holds exactly stay as they are.
pub proof fn law_small_sizes_are_exact(n: nat)
    requires
        n < 0x20_0000_0000_0000,
    ensures
        as_double(n) == n,
{
    law_rounding_is_to_the_nearest(n, 1);
}

/// A size is rounded by half the distance of its neighbours at most, and that
/// distance leaves it 53 significant bits.
pub proof fn law_sizes_are_rounded(n: nat)
    ensures
        spacing(n) >= 1,
        2 * (as_double(n) - n) <= spacing(n),
        2 * (n - as_double(n)) <= spacing(n),
        n >= 0x20_0000_0000_0000 ==> 0x10_0000_0000_0000 * spacing(n) <= n < 0x20_0000_0000_0000
            * spacing(n),
{
    lemma_spacing(n);
    law_rounding_is_to_the_nearest(n, spacing(n));
}

proof fn lemma_spacing(n: nat)
    ensures
        spacing(n) >= 1,
        n < 0x20_0000_0000_0000 ==> spacing(n) == 1,
        n >= 0x20_0000_0000_0000 ==> 0x10_0000_0000_0000 * spacing(n) <= n,
        n < 0x20_0000_0000_0000 * spacing(n),
    decreases n,
{
    if n >= 0x20_0000_0000_0000 {
        lemma_spacing(n / 2);
    }
}

/// A size is shown in the largest unit that it fills, each 1024 of the one
/// before.
pub proof fn law_units_are_the_largest(v: nat)
    ensures
        unit_of(v) <= 4,
        unit_of(v) > 0 ==> v >= unit_size(unit_of(v)),
        unit_of(v) < 4 ==> v < unit_size(unit_of(v) + 1),
        unit_size(0) == 1,
        forall|u: nat| u < 4 ==> #[trigger] unit_size(u + 1) == 1024 * unit_size(u),
        unit_name(0) == "B"@ && unit_name(1) == "KiB"@ && unit_name(2) == "MiB"@,
        unit_name(3) == "GiB"@ && unit_name(4) == "TiB"@,
{
    assert forall|u: nat| u < 4 implies #[trigger] unit_size(u + 1) == 1024 * unit_size(u) by {}
}

/// The text of a size: below 1024 the bytes themselves, else two decimals of the
/// largest unit, off by half a hundredth at most.
pub proof fn law_sizes_are_shown(n: nat)
    requires
        n < 0x20_0000_0000_0000,
    ensures
        n < 1024 ==> bytes_text(n) == text::decimal(n) + " B"@,
        n >= 1024 ==> exists|whole: nat, part: nat|
            {
                let size = unit_size(unit_of(n));
                &&& #[trigger] text::decimal(whole) + "."@ + #[trigger] text::two_digits(part) + " "@
                    + unit_name(unit_of(n)) == bytes_text(n)
                &&& part < 100
                &&& 2 * ((whole * 100 + part) * size - n * 100) <= size
                &&& 2 * (n * 100 - (whole * 100 + part) * size) <= size
            },
{
    law_small_sizes_are_exact(n);
    if n >= 1024 {
        let size = unit_size(unit_of(n));
        let hundredths = nearest(n * 100, size);
        law_rounding_is_to_the_nearest(n * 100, size);
        let whole = hundredths / 100;
        let part = hundredths % 100;
        assert(whole * 100 + part == hundredths);
        assert(text::decimal(whole) + "."@ + text::two_digits(part) + " "@ + unit_name(unit_of(n))
            == bytes_text(n));
    }
}

/// Lists of peers are listed one after the other.
proof fn lemma_lines_of_both(a: Seq<PeerSnapshot>, b: Seq<PeerSnapshot>)
    ensures
        peer_lines(a + b) == peer_lines(a) + peer_lines(b),
    decreases b.len(),
{
    if b.len() == 0 {
        assert(a + b =~= a);
        assert(peer_lines(a) + peer_lines(b) =~= peer_lines(a));
    } else {
        assert((a + b).drop_last() =~= a + b.drop_last());
        lemma_lines_of_both(a, b.drop_last());
        assert(peer_lines(a) + peer_lines(b.drop_last()) + peer_line(b.last()) =~= peer_lines(a)
            + peer_lines(b));
    }
}

/// The text names every peer, in order, each in a line of its own with all that
/// is known of it.
pub proof fn law_every_peer_is_listed(
    snap: StatusSnapshot,
    now_ms: u64,
    before: Seq<PeerSnapshot>,
    p: PeerSnapshot,
    after: Seq<PeerSnapshot>,
)
    requires
        snap.peers@ == before + seq![p] + after,
    ensures
        snap.human(now_ms) == snap.summary(now_ms) + "\npeers:\n"@ + peer_lines(before) + (
        "  "@ + p.tunnel_ip@ + "  via "@ + p.endpoint@ + "  idx="@ + text::decimal(
            p.session_index as nat,
        ) + "  hs="@ + text::decimal(p.last_handshake_ago_secs as nat) + "s ago  idle="@
            + text::decimal(p.idle_secs as nat) + "s\n"@) + peer_lines(after),
{
    lemma_lines_of_both(before + seq![p], after);
    lemma_lines_of_both(before, seq![p]);
    let one = seq![p];
    assert(one.drop_last().len() == 0 && one.last() == p);
    assert(peer_lines(one) == peer_lines(one.drop_last()) + peer_line(p));
    assert(peer_lines(one.drop_last()).len() == 0);
    assert(peer_lines(one) =~= peer_line(p));
    lemma_join3(
        snap.summary(now_ms) + "\npeers:\n"@,
        peer_lines(before),
        peer_line(p),
        peer_lines(after),
    );
}

/// Without peers the text ends after the summary, which tells the state and the
/// counters, each in its place.
pub proof fn law_summary_shows_the_counters(snap: StatusSnapshot, now_ms: u64)
    ensures
        snap.peers@.len() == 0 ==> snap.human(now_ms) == snap.summary(now_ms),
        ({
            let state = "soulvpn "@ + (match snap.role {
                Role::Client => "Client"@,
                Role::Server => "Server"@,
            }) + "  ["@ + (if snap.enabled {
                "ON "@
            } else {
                "OFF"@
            }) + "]  pid "@ + text::decimal(snap.pid as nat);
            let device = "\nendpoint   "@ + snap.endpoint@ + "\naddress    "@ + snap.address@
                + "\ntun        "@ + snap.tun_name@;
            let life = "\nuptime     "@ + duration_text(snap.uptime_secs as nat)
                + "\nsessions   "@ + text::decimal(snap.active_sessions as nat);
            let tx = "\ntx         "@ + text::decimal(snap.tx_packets as nat) + " pkts  "@
                + bytes_text(snap.tx_bytes as nat);
            let rx = "\nrx         "@ + text::decimal(snap.rx_packets as nat) + " pkts  "@
                + bytes_text(snap.rx_bytes as nat);
            let handshakes = "\nhandshakes ok="@ + text::decimal(snap.handshakes_ok as nat)
                + "  fail="@ + text::decimal(snap.handshakes_fail as nat) + "  reconnects="@
                + text::decimal(snap.reconnects as nat);
            let errors = "\nerrors     encrypt="@ + text::decimal(snap.encrypt_errors as nat)
                + "  decrypt="@ + text::decimal(snap.decrypt_errors as nat) + "  policy="@
                + text::decimal(snap.policy_drops as nat);
            let last = "\nlast act   "@ + duration_text(
                ms_since(now_ms, snap.last_activity_ms) / 1000,
            ) + " ago"@;
            snap.summary(now_ms) == state + device + life + tx + rx + handshakes + errors + last
        }),
{
    let state = "soulvpn "@ + snap.role.name() + "  ["@ + (if snap.enabled {
        "ON "@
    } else {
        "OFF"@
    }) + "]  pid "@ + text::decimal(snap.pid as nat);
    let device = "\nendpoint   "@ + snap.endpoint@ + "\naddress    "@ + snap.address@
        + "\ntun        "@ + snap.tun_name@;
    lemma_join6(
        state,
        "\nendpoint   "@,
        snap.endpoint@,
        "\naddress    "@,
        snap.address@,
        "\ntun        "@,
        snap.tun_name@,
    );
    let up = duration_text(snap.uptime_secs as nat);
    let count = text::decimal(snap.active_sessions as nat);
    let to_life = state + device + ("\nuptime     "@ + up + "\nsessions   "@ + count);
    lemma_join4(state + device, "\nuptime     "@, up, "\nsessions   "@, count);
    let txp = text::decimal(snap.tx_packets as nat);
    let txb = bytes_text(snap.tx_bytes as nat);
    let to_tx = to_life + ("\ntx         "@ + txp + " pkts  "@ + txb);
    lemma_join4(to_life, "\ntx         "@, txp, " pkts  "@, txb);
    let rxp = text::decimal(snap.rx_packets as nat);
    let rxb = bytes_text(snap.rx_bytes as nat);
    let to_rx = to_tx + ("\nrx         "@ + rxp + " pkts  "@ + rxb);
    lemma_join4(to_tx, "\nrx         "@, rxp, " pkts  "@, rxb);
    let ok = text::decimal(snap.handshakes_ok as nat);
    let fail = text::decimal(snap.handshakes_fail as nat);
    let again = text::decimal(snap.reconnects as nat);
    let to_handshakes = to_rx + ("\nhandshakes ok="@ + ok + "  fail="@ + fail + "  reconnects="@
        + again);
    lemma_join6(to_rx, "\nhandshakes ok="@, ok, "  fail="@, fail, "  reconnects="@, again);
    let enc = text::decimal(snap.encrypt_errors as nat);
    let dec = text::decimal(snap.decrypt_errors as nat);
    let policy = text::decimal(snap.policy_drops as nat);
    let to_errors = to_handshakes + ("\nerrors     encrypt="@ + enc + "  decrypt="@ + dec
        + "  policy="@ + policy);
    lemma_join6(
        to_handshakes,
        "\nerrors     encrypt="@,
        enc,
        "  decrypt="@,
        dec,
        "  policy="@,
        policy,
    );
    let ago = duration_text(ms_since(now_ms, snap.last_activity_ms) / 1000);
    lemma_join3(to_errors, "\nlast act   "@, ago, " ago"@);
}

proof fn lemma_join3(a: Seq<char>, b: Seq<char>, c: Seq<char>, d: Seq<char>)
    ensures
        a + (b + c + d) == a + b + c + d,
{
    assert(a + (b + c + d) =~= a + b + c + d);
}

proof fn lemma_join4(a: Seq<char>, b: Seq<char>, c: Seq<char>, d: Seq<char>, e: Seq<char>)
    ensures
        a + (b + c + d + e) == a + b + c + d + e,
{
    lemma_join3(a, b, c, d);
    assert(a + (b + c + d + e) =~= a + (b + c + d) + e);
}

proof fn lemma_join6(
    a: Seq<char>,
    b: Seq<char>,
    c: Seq<char>,
    d: Seq<char>,
    e: Seq<char>,
    f: Seq<char>,
    g: Seq<char>,
)
    ensures
        a + (b + c + d + e + f + g) == a + b + c + d + e + f + g,
{
    lemma_join4(a, b, c, d, e);
    lemma_join3(a, b + c + d + e, f, g);
}

} // verus!
