//! The client: connecting, keeping the session alive, and where packets go.

use crate::config;
use crate::config::{ClientConfig, ConfigError};
use crate::crypto::error::CryptoError;
use crate::crypto::handshake;
use crate::crypto::handshake::HandshakeInitiator;
use crate::crypto::noise;
use crate::crypto::noise::NoiseHandshake;
use crate::crypto::session;
use crate::crypto::session::{Session, SessionView};
use crate::net::Ipv4Addr;
use crate::stats;
use crate::stats::RuntimeStats;
use crate::time;
use vstd::prelude::*;

verus! {

/// Openings that are sent before the client gives up.
pub const ATTEMPTS: u32 = 10;

/// The client's session. Times are points on the monotonic clock.
pub struct SessionSlot {
    pub session: Session,
    pub established: u64,
    pub last_rx: u64,
    pub last_tx: u64,
}

/// What the client's session is.
#[verifier::ext_equal]
pub struct SlotView {
    pub session: SessionView,
    pub established: u64,
    pub last_rx: u64,
    pub last_tx: u64,
}

impl View for SessionSlot {
    type V = SlotView;

    open spec fn view(&self) -> SlotView {
        SlotView {
            session: self.session@,
            established: self.established,
            last_rx: self.last_rx,
            last_tx: self.last_tx,
        }
    }
}

/// What a packet from the TUN device calls for.
#[derive(Debug, Clone, Copy, PartialEq, Eq, Structural)]
pub enum Uplink {
    /// Nothing.
    Ignore,
    /// The packet could not be sealed.
    Unsealed(CryptoError),
    /// The first bytes of the datagram, this many, go to the server.
    Send(usize),
}

/// What a datagram from the server calls for.
#[derive(Debug, Clone, Copy, PartialEq, Eq, Structural)]
pub enum Downlink {
    /// Nothing.
    Ignore,
    /// The packet did not open.
    Unopened(CryptoError),
    /// The server is alive.
    Keepalive,
    /// The first bytes of the plaintext, this many, go to the TUN device.
    Deliver(usize),
}

/// What the session needs.
#[derive(Debug, Clone, Copy, PartialEq, Eq, Structural)]
pub enum Upkeep {
    /// Nothing.
    Nothing,
    /// An empty packet.
    Keepalive,
    /// A new session, because this one is old.
    Rekey,
    /// A new session, because the server is silent.
    Reconnect,
}

/// The spans of time that upkeep goes by, in seconds.
#[derive(Debug, Clone, Copy, PartialEq, Eq, Structural)]
pub struct Timers {
    pub keepalive_secs: u64,
    pub rekey_secs: u64,
    pub reconnect_timeout_secs: u64,
}

impl Timers {
    /// The silence that is waited out: what is configured, at least ten
    /// seconds.
    pub open spec fn patience(self) -> u64 {
        if self.reconnect_timeout_secs < 10 {
            10
        } else {
            self.reconnect_timeout_secs
        }
    }

    /// The timers of a configuration.
    pub fn new(cfg: &ClientConfig) -> (r: Self)
        ensures
            r == (Timers {
                keepalive_secs: cfg.keepalive_secs,
                rekey_secs: cfg.rekey_secs,
                reconnect_timeout_secs: cfg.reconnect_timeout_secs,
            }),
    {
        Timers {
            keepalive_secs: cfg.keepalive_secs,
            rekey_secs: cfg.rekey_secs,
            reconnect_timeout_secs: cfg.reconnect_timeout_secs,
        }
    }
}

impl SlotView {
    /// What the session needs at `now`. Silence counts before age, and both
    /// before a keepalive; nothing is needed while the data plane is off.
    pub open spec fn needs(self, timers: Timers, enabled: bool, now: u64) -> Upkeep {
        let age = time::elapsed_ns(now, self.established);
        let idle_rx = time::elapsed_ns(now, self.last_rx);
        let idle_tx = time::elapsed_ns(now, self.last_tx);
        if !enabled {
            Upkeep::Nothing
        } else if idle_rx >= time::seconds(timers.patience()) {
            Upkeep::Reconnect
        } else if timers.rekey_secs > 0 && age >= time::seconds(timers.rekey_secs) {
            Upkeep::Rekey
        } else if timers.keepalive_secs > 0 && idle_tx >= time::seconds(timers.keepalive_secs)
            && idle_rx >= time::seconds(timers.keepalive_secs) {
            Upkeep::Keepalive
        } else {
            Upkeep::Nothing
        }
    }

    /// What a datagram from the server calls for, with `room` bytes for the
    /// plaintext.
    pub open spec fn routes(self, enabled: bool, datagram: Seq<u8>, room: nat) -> Downlink {
        if !enabled {
            Downlink::Ignore
        } else {
            match self.session.delivers(datagram, room) {
                Err(e) => Downlink::Unopened(e),
                Ok(plaintext) => if plaintext.len() == 0 {
                    Downlink::Keepalive
                } else {
                    Downlink::Deliver(plaintext.len() as usize)
                },
            }
        }
    }

    /// The slot after such a datagram.
    pub open spec fn routed(self, enabled: bool, datagram: Seq<u8>, room: nat, now: u64) -> SlotView {
        if !enabled {
            self
        } else {
            SlotView {
                session: self.session.offered(datagram),
                last_rx: if self.session.delivers(datagram, room) is Ok {
                    now
                } else {
                    self.last_rx
                },
                ..self
            }
        }
    }

    /// What a packet from the TUN device calls for, with `room` bytes for the
    /// datagram.
    pub open spec fn uplinks(self, enabled: bool, plain: Seq<u8>, room: nat) -> Uplink {
        if !enabled {
            Uplink::Ignore
        } else {
            match self.session.send_error(plain, room) {
                Some(e) => Uplink::Unsealed(e),
                None => Uplink::Send(self.session.packet(plain).len() as usize),
            }
        }
    }

    /// The slot after such a packet.
    pub open spec fn uplinked(self, enabled: bool, plain: Seq<u8>, room: nat, now: u64) -> SlotView {
        if self.uplinks(enabled, plain, room) is Send {
            self.spoke(now)
        } else {
            self
        }
    }

    /// The slot after a new handshake: a session takes the place of this one.
    pub open spec fn renewed(self, outcome: Option<SessionView>, now: u64) -> SlotView {
        match outcome {
            Some(session) => SlotView { session, established: now, last_rx: now, last_tx: now },
            None => self,
        }
    }

    /// The slot after a packet was sent.
    pub open spec fn spoke(self, now: u64) -> SlotView {
        SlotView { session: self.session.sent(), last_tx: now, ..self }
    }
}

/// The statistics after a datagram that called for `fate`. A delivered packet
/// is counted once it is written.
pub open spec fn downlink_stats(before: RuntimeStats, fate: Downlink, now_ms: u64) -> RuntimeStats {
    match fate {
        Downlink::Unopened(_) => RuntimeStats {
            decrypt_errors: stats::counted(before.decrypt_errors, 1),
            ..before
        },
        Downlink::Keepalive => RuntimeStats { last_activity_ms: now_ms, ..before },
        _ => before,
    }
}

/// The statistics after a packet that called for `fate`. A sent packet is
/// counted once it is on its way.
pub open spec fn uplink_stats(before: RuntimeStats, fate: Uplink) -> RuntimeStats {
    match fate {
        Uplink::Unsealed(_) => RuntimeStats {
            encrypt_errors: stats::counted(before.encrypt_errors, 1),
            ..before
        },
        _ => before,
    }
}

/// The statistics after a new handshake that succeeded or failed.
pub open spec fn renewal_stats(
    before: RuntimeStats,
    ok: bool,
    reason: Upkeep,
    now_ms: u64,
) -> RuntimeStats {
    if ok {
        RuntimeStats {
            handshakes_ok: stats::counted(before.handshakes_ok, 1),
            reconnects: if reason == Upkeep::Reconnect {
                stats::counted(before.reconnects, 1)
            } else {
                before.reconnects
            },
            last_activity_ms: now_ms,
            ..before
        }
    } else {
        RuntimeStats {
            handshakes_fail: stats::counted(before.handshakes_fail, 1),
            ..before
        }
    }
}

impl SessionSlot {
    /// A session that was established now.
    pub fn new(session: Session, now: u64) -> (r: Self)
        ensures
            r.session == session,
            r@ == (SlotView {
                session: session@,
                established: now,
                last_rx: now,
                last_tx: now,
            }),
    {
        SessionSlot { session, established: now, last_rx: now, last_tx: now }
    }

    /// Takes a packet from the TUN device. Where it is to be sent, the datagram
    /// stands at the front of `wire`; it is counted once it is sent.
    pub fn handle_packet(
        &mut self,
        plain: &[u8],
        wire: &mut [u8],
        stats: &mut RuntimeStats,
        now: u64,
    ) -> (r: Uplink)
        requires
            old(self).session.wf(),
        ensures
            final(self).session.wf(),
            final(wire)@.len() == old(wire)@.len(),
            if !old(stats).enabled {
                &&& r == Uplink::Ignore
                &&& final(self)@ == old(self)@
                &&& *final(stats) == *old(stats)
            } else {
                match old(self)@.session.send_error(plain@, old(wire)@.len()) {
                    Some(e) => {
                        &&& r == Uplink::Unsealed(e)
                        &&& final(self)@ == old(self)@
                        &&& *final(stats) == (RuntimeStats {
                            encrypt_errors: stats::counted(old(stats).encrypt_errors, 1),
                            ..*old(stats)
                        })
                    },
                    None => {
                        let sealed = old(self)@.session.packet(plain@);
                        &&& r == Uplink::Send(sealed.len() as usize)
                        &&& old(self)@.session.wrote(plain@, sealed)
                        &&& final(wire)@ == sealed + old(wire)@.skip(sealed.len() as int)
                        &&& final(self)@ == old(self)@.spoke(now)
                        &&& *final(stats) == *old(stats)
                    },
                }
            },
            r == old(self)@.uplinks(old(stats).enabled, plain@, old(wire)@.len()),
            final(self)@ == old(self)@.uplinked(
                old(stats).enabled,
                plain@,
                old(wire)@.len(),
                now,
            ),
            *final(stats) == uplink_stats(*old(stats), r),
    {
        if !stats.is_enabled() {
            return Uplink::Ignore;
        }
        match self.session.encrypt(plain, wire) {
            Ok(len) => {
                self.last_tx = now;
                Uplink::Send(len)
            },
            Err(e) => {
                stats.record_encrypt_err();
                Uplink::Unsealed(e)
            },
        }
    }

    /// Takes a datagram from the server. Where it is to be delivered, its
    /// plaintext stands at the front of `plain`.
    pub fn handle_datagram(
        &mut self,
        datagram: &[u8],
        plain: &mut [u8],
        stats: &mut RuntimeStats,
        now: u64,
        now_ms: u64,
    ) -> (r: Downlink)
        requires
            old(self).session.wf(),
        ensures
            final(self).session.wf(),
            final(plain)@.len() == old(plain)@.len(),
            r == old(self)@.routes(old(stats).enabled, datagram@, old(plain)@.len()),
            final(self)@ == old(self)@.routed(
                old(stats).enabled,
                datagram@,
                old(plain)@.len(),
                now,
            ),
            *final(stats) == downlink_stats(*old(stats), r, now_ms),
            r matches Downlink::Deliver(len) ==> len <= final(plain)@.len() && Ok::<
                Seq<u8>,
                CryptoError,
            >(final(plain)@.take(len as int)) == old(self)@.session.delivers(
                datagram@,
                old(plain)@.len(),
            ),
    {
        if !stats.is_enabled() {
            return Downlink::Ignore;
        }
        let room: usize = plain.len();
        match self.session.decrypt(datagram, plain) {
            Ok(len) => {
                self.last_rx = now;
                if len == 0 {
                    stats.touch_activity(now_ms);
                    return Downlink::Keepalive;
                }
                proof {
                    let opened = old(self)@.session.delivers(datagram@, room as nat)->Ok_0;
                    assert(plain@.take(len as int) =~= opened);
                }
                Downlink::Deliver(len)
            },
            Err(e) => {
                stats.record_decrypt_err();
                Downlink::Unopened(e)
            },
        }
    }

    /// What the session needs at `now`.
    pub fn upkeep(&self, timers: &Timers, enabled: bool, now: u64) -> (r: Upkeep)
        ensures
            r == self@.needs(*timers, enabled, now),
    {
        if !enabled {
            return Upkeep::Nothing;
        }
        let age: u64 = time::elapsed(now, self.established);
        let idle_rx: u64 = time::elapsed(now, self.last_rx);
        let idle_tx: u64 = time::elapsed(now, self.last_tx);
        let patience: u64 = if timers.reconnect_timeout_secs < 10 {
            10
        } else {
            timers.reconnect_timeout_secs
        };
        if time::lasts(idle_rx, patience) {
            return Upkeep::Reconnect;
        }
        if timers.rekey_secs > 0 && time::lasts(age, timers.rekey_secs) {
            return Upkeep::Rekey;
        }
        if timers.keepalive_secs > 0 && time::lasts(idle_tx, timers.keepalive_secs) && time::lasts(
            idle_rx,
            timers.keepalive_secs,
        ) {
            return Upkeep::Keepalive;
        }
        Upkeep::Nothing
    }

    /// Seals a keepalive, an empty packet, to the front of `wire`.
    pub fn keepalive(&mut self, wire: &mut [u8], now: u64) -> (r: Result<usize, CryptoError>)
        requires
            old(self).session.wf(),
        ensures
            final(self).session.wf(),
            final(wire)@.len() == old(wire)@.len(),
            match old(self)@.session.send_error(Seq::empty(), old(wire)@.len()) {
                Some(e) => r == Err::<usize, CryptoError>(e) && final(self)@ == old(self)@,
                None => {
                    let sealed = old(self)@.session.packet(Seq::empty());
                    &&& r == Ok::<usize, CryptoError>(sealed.len() as usize)
                    &&& old(self)@.session.wrote(Seq::empty(), sealed)
                    &&& final(wire)@ == sealed + old(wire)@.skip(sealed.len() as int)
                    &&& final(self)@ == old(self)@.spoke(now)
                },
            },
            match old(self)@.uplinks(true, Seq::empty(), old(wire)@.len()) {
                Uplink::Send(len) => r == Ok::<usize, CryptoError>(len),
                _ => r is Err,
            },
            final(self)@ == old(self)@.uplinked(true, Seq::empty(), old(wire)@.len(), now),
    {
        let empty: [u8; 0] = [];
        assert(empty@ =~= Seq::empty());
        let r: Result<usize, CryptoError> = self.session.encrypt(&empty, wire);
        if r.is_ok() {
            self.last_tx = now;
        }
        r
    }

    /// Takes the outcome of a new handshake: a session takes the place of this
    /// one, a failure is counted.
    pub fn renew(
        &mut self,
        outcome: Option<Session>,
        reason: Upkeep,
        stats: &mut RuntimeStats,
        now: u64,
        now_ms: u64,
    )
        ensures
            match outcome {
                Some(session) => {
                    &&& final(self).session == session
                    &&& final(self)@ == (SlotView {
                        session: session@,
                        established: now,
                        last_rx: now,
                        last_tx: now,
                    })
                    &&& *final(stats) == (RuntimeStats {
                        handshakes_ok: stats::counted(old(stats).handshakes_ok, 1),
                        reconnects: if reason == Upkeep::Reconnect {
                            stats::counted(old(stats).reconnects, 1)
                        } else {
                            old(stats).reconnects
                        },
                        last_activity_ms: now_ms,
                        ..*old(stats)
                    })
                },
                None => {
                    &&& *final(self) == *old(self)
                    &&& *final(stats) == (RuntimeStats {
                        handshakes_fail: stats::counted(old(stats).handshakes_fail, 1),
                        ..*old(stats)
                    })
                },
            },
            final(self)@ == old(self)@.renewed(
                match outcome {
                    Some(session) => Some(session@),
                    None => None,
                },
                now,
            ),
            *final(stats) == renewal_stats(*old(stats), outcome is Some, reason, now_ms),
    {
        match outcome {
            Some(session) => {
                self.session = session;
                self.established = now;
                self.last_rx = now;
                self.last_tx = now;
                stats.record_handshake_ok(now_ms);
                if reason == Upkeep::Reconnect {
                    stats.record_reconnect();
                }
            },
            None => {
                stats.record_handshake_fail();
            },
        }
    }
}

/// A handshake in progress: an opening was sent, its answer is awaited.
pub struct Dial {
    private: [u8; 32],
    server_public: [u8; 32],
    attempt: u32,
    initiator: HandshakeInitiator,
}

/// What a handshake in progress is.
#[verifier::ext_equal]
pub struct DialView {
    pub private: Seq<u8>,
    pub server_public: Seq<u8>,
    /// Which opening is awaiting its answer, counted from one.
    pub attempt: u32,
    pub initiator: NoiseHandshake,
}

/// How a handshake goes on.
pub enum DialStep {
    /// The session is established.
    Connected(Session),
    /// This opening goes to the server, and its answer is awaited.
    Again(Dial, Vec<u8>),
    /// All attempts are used up.
    GaveUp,
}

impl View for Dial {
    type V = DialView;

    closed spec fn view(&self) -> DialView {
        DialView {
            private: self.private@,
            server_public: self.server_public@,
            attempt: self.attempt,
            initiator: self.initiator@,
        }
    }
}

impl DialView {
    /// The dial has sent `opening` to the server, in this attempt.
    pub open spec fn has_sent(
        self,
        private: Seq<u8>,
        server_public: Seq<u8>,
        attempt: u32,
        opening: Seq<u8>,
    ) -> bool {
        &&& self.private == private
        &&& self.server_public == server_public
        &&& self.attempt == attempt
        &&& handshake::opened(private, server_public, self.initiator, opening)
    }

    /// Whether the dial goes on with `step` after `reply`, if there was one.
    pub open spec fn goes_on(self, reply: Option<Seq<u8>>, step: DialStep) -> bool {
        match step {
            DialStep::Connected(session) => self.completed_by(reply) && session@
                == handshake::established(
                self.initiator.exchanged(handshake::response_message(reply->0)),
                handshake::response_index(reply->0) as u32,
            ),
            DialStep::Again(dial, opening) => !self.completed_by(reply) && self.attempt < ATTEMPTS
                && dial@.has_sent(
                self.private,
                self.server_public,
                (self.attempt + 1) as u32,
                opening@,
            ),
            DialStep::GaveUp => !self.completed_by(reply) && self.attempt >= ATTEMPTS,
        }
    }

    /// Whether `reply`, if there was one, completes the handshake.
    pub open spec fn completed_by(self, reply: Option<Seq<u8>>) -> bool {
        reply matches Some(datagram) && handshake::response_error(self.initiator, datagram) is None
    }
}

/// An initiator and the opening that it wrote.
fn open(private: &[u8; 32], server_public: &[u8; 32]) -> (r: Result<
    (HandshakeInitiator, Vec<u8>),
    CryptoError,
>)
    ensures
        r is Ok,
        r matches Ok((initiator, opening)) ==> {
            &&& initiator.wf()
            &&& handshake::opened(private@, server_public@, initiator@, opening@)
        },
{
    let mut initiator: HandshakeInitiator = match HandshakeInitiator::new(private, server_public) {
        Ok(initiator) => initiator,
        Err(e) => {
            return Err(e);
        },
    };
    let mut opening: Vec<u8> = vec![0u8; 256];
    match initiator.write_init(opening.as_mut_slice()) {
        Ok(len) => {
            opening.truncate(len);
            Ok((initiator, opening))
        },
        Err(e) => Err(e),
    }
}

impl Dial {
    /// The handshake has an opening on the way, and no more than are allowed.
    pub closed spec fn wf(self) -> bool {
        self.initiator.wf() && 1 <= self.attempt <= ATTEMPTS
    }

    /// Starts a handshake: the opening goes to the server.
    pub fn start(private: &[u8; 32], server_public: &[u8; 32]) -> (r: Result<
        (Dial, Vec<u8>),
        CryptoError,
    >)
        ensures
            r is Ok,
            r matches Ok((dial, opening)) ==> {
                &&& dial.wf()
                &&& dial@.has_sent(private@, server_public@, 1, opening@)
            },
    {
        match open(private, server_public) {
            Ok((initiator, opening)) => Ok(
                (
                    Dial { private: *private, server_public: *server_public, attempt: 1, initiator },
                    opening,
                ),
            ),
            Err(e) => Err(e),
        }
    }

    /// Takes what came back: a datagram, or nothing in time. A datagram that
    /// does not complete the handshake is as good as none.
    pub fn step(self, reply: Option<Vec<u8>>) -> (r: Result<DialStep, CryptoError>)
        requires
            self.wf(),
        ensures
            ({
                let came = match reply {
                    Some(datagram) => Some(datagram@),
                    None => None,
                };
                &&& r matches Ok(step)
                &&& self@.completed_by(came) ==> {
                    &&& step matches DialStep::Connected(session)
                    &&& session.wf()
                    &&& session@ == handshake::established(
                        self@.initiator.exchanged(handshake::response_message(came->0)),
                        handshake::response_index(came->0) as u32,
                    )
                }
                &&& !self@.completed_by(came) && self@.attempt < ATTEMPTS ==> {
                    &&& step matches DialStep::Again(dial, opening)
                    &&& dial.wf()
                    &&& dial@.has_sent(
                        self@.private,
                        self@.server_public,
                        (self@.attempt + 1) as u32,
                        opening@,
                    )
                }
                &&& !self@.completed_by(came) && self@.attempt >= ATTEMPTS ==> step is GaveUp
                &&& self@.goes_on(came, step)
            }),
    {
        let Dial { private, server_public, attempt, initiator } = self;
        if let Some(datagram) = reply {
            if let Ok(session) = initiator.finish(&datagram) {
                return Ok(DialStep::Connected(session));
            }
        }
        if attempt >= ATTEMPTS {
            return Ok(DialStep::GaveUp);
        }
        match open(&private, &server_public) {
            Ok((initiator, opening)) => Ok(
                DialStep::Again(
                    Dial { private, server_public, attempt: attempt + 1, initiator },
                    opening,
                ),
            ),
            Err(e) => Err(e),
        }
    }
}

/// The tunnel address, its prefix length and the mode of the control socket that
/// these texts give.
pub open spec fn settings(
    address: Seq<char>,
    env_mode: Option<String>,
    control_mode: Seq<char>,
) -> Result<(Ipv4Addr, u8, u32), ConfigError> {
    match config::read_cidr(address) {
        Err(e) => Err(e),
        Ok((ip, prefix)) => match config::chosen_mode(env_mode, control_mode) {
            Err(e) => Err(e),
            Ok(mode) => Ok((ip, prefix, mode)),
        },
    }
}

/// A client's settings are read where each of them can be, and are what is
/// written.
pub proof fn law_client_starts_as_configured(
    address: Seq<char>,
    env_mode: Option<String>,
    control_mode: Seq<char>,
)
    ensures
        ({
            let r = settings(address, env_mode, control_mode);
            let mode = match env_mode {
                Some(mode) => config::read_mode(mode@),
                None => config::read_mode(control_mode),
            };
            &&& r is Ok <==> config::read_cidr(address) is Ok && mode is Ok
            &&& r matches Ok((ip, prefix, m)) ==> {
                &&& config::read_cidr(address) == Ok::<(Ipv4Addr, u8), ConfigError>((ip, prefix))
                &&& mode == Ok::<u32, ConfigError>(m)
                &&& prefix <= 32
            }
        }),
{
}

/// The tunnel address, its prefix length and the mode of the control socket of
/// a configuration.
pub fn read_settings(cfg: &ClientConfig, env_mode: &Option<String>) -> (r: Result<
    (Ipv4Addr, u8, u32),
    ConfigError,
>)
    ensures
        r == match config::read_cidr(cfg.address@) {
            Err(e) => Err(e),
            Ok((address, prefix)) => match config::chosen_mode(*env_mode, cfg.control_mode@) {
                Err(e) => Err(e),
                Ok(mode) => Ok((address, prefix, mode)),
            },
        },
        r == settings(cfg.address@, *env_mode, cfg.control_mode@),
{
    let (address, prefix): (Ipv4Addr, u8) = match config::parse_cidr(cfg.address.as_str()) {
        Ok(cidr) => cidr,
        Err(e) => {
            return Err(e);
        },
    };
    match config::control_mode(env_mode, cfg.control_mode.as_str()) {
        Ok(mode) => Ok((address, prefix, mode)),
        Err(e) => Err(e),
    }
}

/// A session that was just established needs nothing.
pub proof fn law_new_session_needs_nothing(slot: SlotView, timers: Timers, enabled: bool, now: u64)
    requires
        slot.established == now,
        slot.last_rx == now,
        slot.last_tx == now,
    ensures
        slot.needs(timers, enabled, now) == Upkeep::Nothing,
{
}

/// A silent server is dialled again, as long as the data plane is on; a session
/// that is heard from in time is not taken for silent.
pub proof fn law_silence_is_noticed(slot: SlotView, timers: Timers, now: u64)
    ensures
        slot.needs(timers, true, now) == Upkeep::Reconnect <==> time::elapsed_ns(now, slot.last_rx)
            >= time::seconds(timers.patience()),
        timers.patience() >= 10,
{
}

/// No session outlives its time: once it is old enough it is replaced.
pub proof fn law_old_session_is_replaced(slot: SlotView, timers: Timers, now: u64)
    requires
        timers.rekey_secs > 0,
        time::elapsed_ns(now, slot.established) >= time::seconds(timers.rekey_secs),
    ensures
        slot.needs(timers, true, now) == Upkeep::Rekey || slot.needs(timers, true, now)
            == Upkeep::Reconnect,
{
}

/// While the data plane is off, nothing is sent, delivered or kept up.
pub proof fn law_off_drops_data(
    slot: SlotView,
    timers: Timers,
    datagram: Seq<u8>,
    room: nat,
    now: u64,
)
    ensures
        slot.routes(false, datagram, room) == Downlink::Ignore,
        slot.routed(false, datagram, room, now) == slot,
        slot.needs(timers, false, now) == Upkeep::Nothing,
{
}

/// Upkeep goes by the clocks: the session is dialled anew after as many seconds
/// of silence as are configured, ten at least; else it is replaced once it is
/// as old as is configured; else it is kept alive once nothing went either way
/// for as long as is configured; and a span of zero seconds switches the last
/// two off.
pub proof fn law_upkeep_goes_by_the_clocks(slot: SlotView, timers: Timers, now: u64)
    ensures
        ({
            let wait = if timers.reconnect_timeout_secs < 10 {
                10
            } else {
                timers.reconnect_timeout_secs as int
            };
            let silent = now - slot.last_rx >= wait * 1_000_000_000;
            let old = timers.rekey_secs > 0 && now - slot.established >= timers.rekey_secs
                * 1_000_000_000;
            let quiet = timers.keepalive_secs > 0 && now - slot.last_rx >= timers.keepalive_secs
                * 1_000_000_000 && now - slot.last_tx >= timers.keepalive_secs * 1_000_000_000;
            &&& slot.needs(timers, true, now) == Upkeep::Reconnect <==> silent
            &&& slot.needs(timers, true, now) == Upkeep::Rekey <==> !silent && old
            &&& slot.needs(timers, true, now) == Upkeep::Keepalive <==> !silent && !old && quiet
            &&& slot.needs(timers, false, now) == Upkeep::Nothing
        }),
{
    time::law_spans_are_differences(now, slot.last_rx, timers.patience());
    time::law_spans_are_differences(now, slot.established, timers.rekey_secs);
    time::law_spans_are_differences(now, slot.last_tx, timers.keepalive_secs);
    time::law_spans_are_differences(now, slot.last_rx, timers.keepalive_secs);
}

/// While the data plane is on, every packet that fits is sent, however many were
/// sent before, in a datagram of 28 bytes more; the time is noted and the next
/// packet gets the next nonce. What is not sent changes nothing.
pub proof fn law_packets_are_sent(slot: SlotView, plain: Seq<u8>, room: nat, now: u64, sealed: Seq<u8>)
    requires
        slot.session.wrote(plain, sealed),
    ensures
        ({
            let fits = plain.len() <= 65519 && room >= plain.len() + 28 && slot.session.send_nonce
                < u64::MAX;
            let after = slot.uplinked(true, plain, room, now);
            &&& fits ==> slot.uplinks(true, plain, room) == Uplink::Send((plain.len() + 28) as usize)
            &&& fits ==> after.last_tx == now && after.session.send_nonce == slot.session.send_nonce
                + 1
            &&& after.last_rx == slot.last_rx && after.established == slot.established
            &&& after.session == (SessionView {
                send_nonce: after.session.send_nonce,
                ..slot.session
            })
            &&& !fits ==> slot.uplinks(true, plain, room) is Unsealed && after == slot
            &&& slot.uplinks(false, plain, room) == Uplink::Ignore
            &&& slot.uplinked(false, plain, room, now) == slot
        }),
{
    session::law_session_can_send(slot.session, plain, room);
}

/// A packet that the server sealed for this client is delivered with all of its
/// bytes, or taken for a sign of life where it has none, and the time is noted.
pub proof fn law_server_packets_are_delivered(
    server: SessionView,
    slot: SlotView,
    plain: Seq<u8>,
    datagram: Seq<u8>,
    room: nat,
    now: u64,
)
    requires
        server.wrote(plain, datagram),
        server.paired(slot.session),
        server.send_nonce < u64::MAX,
        plain.len() <= 65519,
        slot.session.window.fresh(server.send_nonce as nat),
        room >= plain.len(),
    ensures
        plain.len() > 0 ==> slot.routes(true, datagram, room) == Downlink::Deliver(
            plain.len() as usize,
        ),
        plain.len() == 0 ==> slot.routes(true, datagram, room) == Downlink::Keepalive,
        slot.session.delivers(datagram, room) == Ok::<Seq<u8>, CryptoError>(plain),
        slot.routed(true, datagram, room, now).last_rx == now,
        slot.routed(true, datagram, room, now).last_tx == slot.last_tx,
        slot.routed(true, datagram, room, now).established == slot.established,
{
    session::law_sent_packet_is_delivered(server, slot.session, plain, datagram, room);
}

/// A datagram that does not open leaves the time of the last sign of life as it
/// is, and none changes the keys or the sending counter.
pub proof fn law_only_the_server_is_heard(
    slot: SlotView,
    datagram: Seq<u8>,
    room: nat,
    now: u64,
    e: CryptoError,
)
    requires
        slot.routes(true, datagram, room) == Downlink::Unopened(e),
    ensures
        slot.session.delivers(datagram, room) == Err::<Seq<u8>, CryptoError>(e),
        slot.routed(true, datagram, room, now).last_rx == slot.last_rx,
        slot.routed(true, datagram, room, now).last_tx == slot.last_tx,
        slot.routed(true, datagram, room, now).session == (SessionView {
            window: slot.routed(true, datagram, room, now).session.window,
            ..slot.session
        }),
{
}

/// Each packet that could not be sealed or opened is counted once; a sign of
/// life is noted; else the statistics stay as they are.
pub proof fn law_lost_packets_are_counted(
    before: RuntimeStats,
    up: Uplink,
    down: Downlink,
    now_ms: u64,
)
    ensures
        ({
            let sent = uplink_stats(before, up);
            let heard = downlink_stats(before, down, now_ms);
            &&& sent == (RuntimeStats { encrypt_errors: sent.encrypt_errors, ..before })
            &&& sent.encrypt_errors as int == (before.encrypt_errors + if up is Unsealed {
                1int
            } else {
                0
            }) % 0x1_0000_0000_0000_0000
            &&& heard == (RuntimeStats {
                decrypt_errors: heard.decrypt_errors,
                last_activity_ms: if down is Keepalive {
                    now_ms
                } else {
                    before.last_activity_ms
                },
                ..before
            })
            &&& heard.decrypt_errors as int == (before.decrypt_errors + if down is Unopened {
                1int
            } else {
                0
            }) % 0x1_0000_0000_0000_0000
        }),
{
}

/// A new session starts its clocks anew and is counted, as a reconnect where
/// silence was the reason; a failed handshake is counted and leaves the session
/// as it is.
pub proof fn law_new_handshakes_are_counted(
    slot: SlotView,
    session: SessionView,
    before: RuntimeStats,
    reason: Upkeep,
    now: u64,
    now_ms: u64,
)
    ensures
        ({
            let fresh = slot.renewed(Some(session), now);
            let ok = renewal_stats(before, true, reason, now_ms);
            let failed = renewal_stats(before, false, reason, now_ms);
            &&& fresh.session == session
            &&& fresh.established == now && fresh.last_rx == now && fresh.last_tx == now
            &&& slot.renewed(None, now) == slot
            &&& ok == (RuntimeStats {
                handshakes_ok: ok.handshakes_ok,
                reconnects: ok.reconnects,
                last_activity_ms: now_ms,
                ..before
            })
            &&& ok.handshakes_ok as int == (before.handshakes_ok + 1) % 0x1_0000_0000_0000_0000
            &&& ok.reconnects as int == (before.reconnects + if reason == Upkeep::Reconnect {
                1int
            } else {
                0
            }) % 0x1_0000_0000_0000_0000
            &&& failed == (RuntimeStats { handshakes_fail: failed.handshakes_fail, ..before })
            &&& failed.handshakes_fail as int == (before.handshakes_fail + 1)
                % 0x1_0000_0000_0000_0000
        }),
{
}

/// A dial sends ten openings, all with the same keys, and gives up when none of
/// them was answered.
pub proof fn law_ten_openings_are_sent(dial: DialView, reply: Option<Seq<u8>>, step: DialStep)
    requires
        dial.goes_on(reply, step),
        1 <= dial.attempt <= 10,
    ensures
        step is GaveUp ==> dial.attempt == 10,
        step matches DialStep::Again(next, opening) ==> {
            &&& dial.attempt < 10
            &&& next@.attempt == dial.attempt + 1
            &&& next@.private == dial.private
            &&& next@.server_public == dial.server_public
            &&& handshake::opened(dial.private, dial.server_public, next@.initiator, opening@)
        },
        reply is None ==> (step is GaveUp <==> dial.attempt == 10) && !(step is Connected),
{
}

/// The answer of the server that the dial was meant for completes it, in every
/// attempt, and both ends hold the two ends of one session.
pub proof fn law_answered_dial_connects(
    dial: DialView,
    private: Seq<u8>,
    server_private: Seq<u8>,
    attempt: u32,
    opening: Seq<u8>,
    index: u32,
    response: Seq<u8>,
    theirs: SessionView,
    step: DialStep,
)
    requires
        private.len() == 32,
        server_private.len() == 32,
        dial.has_sent(private, noise::x25519_public(server_private), attempt, opening),
        handshake::grants(
            handshake::new_responder(server_private),
            opening,
            index,
            response,
            theirs,
        ),
        dial.goes_on(Some(response), step),
    ensures
        step matches DialStep::Connected(mine) && {
            &&& mine@.index == index
            &&& mine@.paired(theirs)
            &&& theirs.paired(mine@)
            &&& mine@.send_nonce == 0
            &&& mine@.remote == Some(noise::x25519_public(server_private))
            &&& forall|n: nat| #[trigger] mine@.window.fresh(n)
        },
{
    handshake::law_handshake_pairs_sessions(
        private,
        server_private,
        dial.initiator,
        opening,
        index,
        response,
        theirs,
    );
    assert(theirs.index == index);
}

} // verus!
