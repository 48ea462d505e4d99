//! What the live terminal dashboard shows and does.
//!
//! Keys: q quit · o on · f off · r refresh now · space toggle

use crate::stats;
use crate::stats::{format_bytes, format_duration, format_rate, Role, StatusSnapshot};
use crate::text;
use crate::time;
use vstd::prelude::*;

verus! {

/// How many rates the dashboard looks back over.
pub const HISTORY: usize = 60;

/// The latest rates, the newest last.
#[derive(Debug)]
pub struct History {
    pub rates: Vec<u64>,
}

/// The latest rates after one more; the oldest makes room.
pub open spec fn pushed(rates: Seq<u64>, rate: u64) -> Seq<u64> {
    rates.skip(1).push(rate)
}

impl History {
    /// A history of as many rates as are shown.
    pub open spec fn wf(self) -> bool {
        self.rates@.len() == HISTORY
    }

    /// A history of nothing.
    pub fn new() -> (r: Self)
        ensures
            r.wf(),
            forall|i: int| 0 <= i < HISTORY ==> #[trigger] r.rates@[i] == 0,
    {
        History { rates: vec![0u64; HISTORY] }
    }

    /// Adds a rate; the oldest makes room.
    pub fn push(&mut self, rate: u64)
        requires
            old(self).wf(),
        ensures
            final(self).wf(),
            final(self).rates@ == old(self).rates@.skip(1).push(rate),
            final(self).rates@ == pushed(old(self).rates@, rate),
    {
        self.rates.push(rate);
        self.rates.remove(0);
        assert(self.rates@ =~= old(self).rates@.skip(1).push(rate));
    }
}

/// Nanoseconds between two looks at the daemon.
pub const TICK_NS: u64 = 500_000_000;

/// Tells whether it is time to ask the daemon for its status: half a second
/// after the last time, and at once where there was none.
pub fn polls(last_poll: Option<u64>, now: u64) -> (r: bool)
    ensures
        r == (last_poll matches Some(at) ==> time::elapsed_ns(now, at) >= 500_000_000),
        r == is_due(last_poll, now),
{
    match last_poll {
        Some(at) => time::elapsed(now, at) >= TICK_NS,
        None => true,
    }
}

/// A key, as far as the dashboard knows it.
#[derive(Debug, Clone, Copy, PartialEq, Eq, Structural)]
pub enum Key {
    Char(char),
    Esc,
    Other,
}

/// What a key calls for.
#[derive(Debug, Clone, Copy, PartialEq, Eq, Structural)]
pub enum KeyAction {
    /// Nothing.
    Ignore,
    /// Leave the dashboard.
    Quit,
    /// Ask for the status at once.
    Refresh,
    /// Turn the data plane on or off.
    Switch(bool),
    /// Turn the data plane to the other state.
    Toggle(bool),
}

/// What a key calls for while the data plane is on or off.
pub open spec fn key_action(key: Key, enabled: bool) -> KeyAction {
    match key {
        Key::Esc => KeyAction::Quit,
        Key::Char(c) => if c == 'q' {
            KeyAction::Quit
        } else if c == 'o' {
            KeyAction::Switch(true)
        } else if c == 'f' {
            KeyAction::Switch(false)
        } else if c == ' ' {
            KeyAction::Toggle(!enabled)
        } else if c == 'r' {
            KeyAction::Refresh
        } else {
            KeyAction::Ignore
        },
        Key::Other => KeyAction::Ignore,
    }
}

/// The name of the request that turns the data plane on or off.
pub fn switch_op(on: bool) -> (r: String)
    ensures
        r@ == if on {
            "on"@
        } else {
            "off"@
        },
{
    if on {
        "on".to_owned()
    } else {
        "off".to_owned()
    }
}

/// What is said once the data plane is on or off.
pub open spec fn switch_message(on: bool) -> Seq<char> {
    if on {
        "tunnel enabled"@
    } else {
        "tunnel disabled"@
    }
}

/// What the dashboard knows.
#[derive(Debug)]
pub struct Dashboard {
    pub snap: StatusSnapshot,
    pub err: Option<String>,
    pub msg: Option<String>,
}

impl Dashboard {
    /// A dashboard over a first status.
    pub fn new(first: StatusSnapshot) -> (r: Self)
        ensures
            r == (Dashboard { snap: first, err: None, msg: None }),
    {
        Dashboard { snap: first, err: None, msg: None }
    }

    /// What a key calls for.
    pub fn on_key(&self, key: Key) -> (r: KeyAction)
        ensures
            r == key_action(key, self.snap.enabled),
    {
        match key {
            Key::Esc => KeyAction::Quit,
            Key::Char(c) => if c == 'q' {
                KeyAction::Quit
            } else if c == 'o' {
                KeyAction::Switch(true)
            } else if c == 'f' {
                KeyAction::Switch(false)
            } else if c == ' ' {
                KeyAction::Toggle(!self.snap.enabled)
            } else if c == 'r' {
                KeyAction::Refresh
            } else {
                KeyAction::Ignore
            },
            Key::Other => KeyAction::Ignore,
        }
    }

    /// Takes the answer to a request for the status.
    pub fn on_status(&mut self, answer: Result<StatusSnapshot, String>)
        ensures
            *final(self) == match answer {
                Ok(snap) => Dashboard { snap, err: None, ..*old(self) },
                Err(e) => Dashboard { err: Some(e), ..*old(self) },
            },
    {
        match answer {
            Ok(snap) => {
                self.snap = snap;
                self.err = None;
            },
            Err(e) => {
                self.err = Some(e);
            },
        }
    }

    /// Takes the answer to a request that an action sent. After `Switch` it is
    /// said what was asked for, after `Toggle` what came of it.
    pub fn on_switched(&mut self, action: KeyAction, answer: Result<StatusSnapshot, String>)
        ensures
            match answer {
                Ok(snap) => {
                    &&& final(self).snap == snap
                    &&& final(self).err is None
                    &&& final(self).msg matches Some(msg) && msg@ == switch_message(
                        match action {
                            KeyAction::Switch(on) => on,
                            _ => snap.enabled,
                        },
                    )
                },
                Err(e) => *final(self) == (Dashboard { err: Some(e), ..*old(self) }),
            },
            answer matches Ok(snap) ==> final(self).msg matches Some(msg) && msg@ == told(
                action,
                snap.enabled,
            ),
    {
        match answer {
            Ok(snap) => {
                let on: bool = match action {
                    KeyAction::Switch(on) => on,
                    _ => snap.enabled,
                };
                self.snap = snap;
                self.err = None;
                self.msg = Some(
                    if on {
                        "tunnel enabled".to_owned()
                    } else {
                        "tunnel disabled".to_owned()
                    },
                );
            },
            Err(e) => {
                self.err = Some(e);
            },
        }
    }

    /// Says that the status is asked for.
    pub fn on_refresh(&mut self)
        ensures
            final(self).msg matches Some(msg) && msg@ == "refresh"@,
            *final(self) == (Dashboard { msg: final(self).msg, ..*old(self) }),
    {
        self.msg = Some("refresh".to_owned());
    }

    /// The footer: the error if there is one, else the message, else the keys.
    pub fn footer(&self) -> (r: String)
        ensures
            r@ == match (self.err, self.msg) {
                (Some(e), _) => " error: "@ + e@ + " "@,
                (None, Some(m)) => " "@ + m@ + " "@,
                (None, None) => " q quit · space toggle · o on · f off · r refresh "@,
            },
            r@ == self.footer_text(),
    {
        match (&self.err, &self.msg) {
            (Some(e), _) => {
                let mut out: String = " error: ".to_owned();
                out.append(e.as_str());
                out.append(" ");
                out
            },
            (None, Some(m)) => {
                let mut out: String = " ".to_owned();
                out.append(m.as_str());
                out.append(" ");
                out
            },
            (None, None) => " q quit · space toggle · o on · f off · r refresh ".to_owned(),
        }
    }
}

/// The role in the title.
pub fn title_role(role: Role) -> (r: String)
    ensures
        r@ == match role {
            Role::Client => "CLIENT"@,
            Role::Server => "SERVER"@,
        },
{
    match role {
        Role::Client => "CLIENT".to_owned(),
        Role::Server => "SERVER".to_owned(),
    }
}

/// The state in the title.
pub fn title_state(enabled: bool) -> (r: String)
    ensures
        r@ == if enabled {
            " ON "@
        } else {
            " OFF "@
        },
{
    if enabled {
        " ON ".to_owned()
    } else {
        " OFF ".to_owned()
    }
}

/// The process and the device in the title.
pub fn title_process(snap: &StatusSnapshot) -> (r: String)
    ensures
        r@ == "  pid "@ + text::decimal(snap.pid as nat) + "  tun "@ + snap.tun_name@,
{
    let mut out: String = "  pid ".to_owned();
    text::push_decimal(&mut out, snap.pid as u64);
    out.append("  tun ");
    out.append(snap.tun_name.as_str());
    out
}

/// The lines on the session.
pub open spec fn session_text(snap: StatusSnapshot) -> Seq<Seq<char>> {
    seq![
        "endpoint   "@ + snap.endpoint@,
        "address    "@ + snap.address@,
        "uptime     "@ + stats::duration_text(snap.uptime_secs as nat),
        "sessions   "@ + text::decimal(snap.active_sessions as nat),
        "handshakes ok="@ + text::decimal(snap.handshakes_ok as nat) + "  fail="@ + text::decimal(
            snap.handshakes_fail as nat,
        ),
        "errors     encrypt="@ + text::decimal(snap.encrypt_errors as nat) + "  decrypt="@
            + text::decimal(snap.decrypt_errors as nat),
    ]
}

/// The lines on the session.
pub fn session_lines(snap: &StatusSnapshot) -> (r: Vec<String>)
    ensures
        text::views(r@) == session_text(*snap),
{
    let mut endpoint: String = "endpoint   ".to_owned();
    endpoint.append(snap.endpoint.as_str());
    let mut address: String = "address    ".to_owned();
    address.append(snap.address.as_str());
    let mut uptime: String = "uptime     ".to_owned();
    uptime.append(format_duration(snap.uptime_secs).as_str());
    let mut sessions: String = "sessions   ".to_owned();
    text::push_decimal(&mut sessions, snap.active_sessions);
    let mut handshakes: String = "handshakes ok=".to_owned();
    text::push_decimal(&mut handshakes, snap.handshakes_ok);
    handshakes.append("  fail=");
    text::push_decimal(&mut handshakes, snap.handshakes_fail);
    let mut errors: String = "errors     encrypt=".to_owned();
    text::push_decimal(&mut errors, snap.encrypt_errors);
    errors.append("  decrypt=");
    text::push_decimal(&mut errors, snap.decrypt_errors);
    let mut out: Vec<String> = Vec::new();
    out.push(endpoint);
    out.push(address);
    out.push(uptime);
    out.push(sessions);
    out.push(handshakes);
    out.push(errors);
    assert(text::views(out@) =~= session_text(*snap));
    out
}

/// The lines on the traffic in one direction, under its title.
pub fn traffic_lines(packets: u64, bytes: u64, bytes_per_sec: u64) -> (r: Vec<String>)
    ensures
        text::views(r@) == seq![
            text::decimal(packets as nat) + " pkts"@,
            stats::bytes_text(bytes as nat),
            stats::bytes_text(bytes_per_sec as nat) + "/s"@,
        ],
{
    let mut count: String = text::to_decimal(packets);
    count.append(" pkts");
    let mut out: Vec<String> = Vec::new();
    out.push(count);
    out.push(format_bytes(bytes));
    out.push(format_rate(bytes_per_sec));
    assert(text::views(out@) =~= seq![
        text::decimal(packets as nat) + " pkts"@,
        stats::bytes_text(bytes as nat),
        stats::bytes_text(bytes_per_sec as nat) + "/s"@,
    ]);
    out
}

/// The label of the gauge.
pub fn gauge_label(tx_per_sec: u64, rx_per_sec: u64) -> (r: String)
    ensures
        r@ == "↑ "@ + (stats::bytes_text(tx_per_sec as nat) + "/s"@) + "  ↓ "@ + (
        stats::bytes_text(rx_per_sec as nat) + "/s"@),
{
    let mut out: String = "↑ ".to_owned();
    out.append(format_rate(tx_per_sec).as_str());
    out.append("  ↓ ");
    out.append(format_rate(rx_per_sec).as_str());
    out
}

/// The history holds the latest sixty rates: the new one is the last, the others
/// move up by one place in their order, and the oldest is gone.
pub proof fn law_history_moves_up(rates: Seq<u64>, rate: u64, i: int)
    requires
        rates.len() == 60,
        0 <= i < 59,
    ensures
        HISTORY == 60,
        pushed(rates, rate).len() == 60,
        pushed(rates, rate)[59] == rate,
        pushed(rates, rate)[i] == rates[i + 1],
{
}

/// What the keys do: q and Esc leave, o and f switch whatever the state is,
/// space goes to the other state, r refreshes, and no other key does anything.
pub proof fn law_keys(key: Key, enabled: bool)
    ensures
        key_action(key, enabled) == KeyAction::Quit <==> key == Key::Esc || key == Key::Char('q'),
        key_action(key, enabled) == KeyAction::Refresh <==> key == Key::Char('r'),
        key_action(key, enabled) == KeyAction::Switch(true) <==> key == Key::Char('o'),
        key_action(key, enabled) == KeyAction::Switch(false) <==> key == Key::Char('f'),
        key_action(key, enabled) == KeyAction::Toggle(!enabled) <==> key == Key::Char(' '),
        key_action(key, enabled) != KeyAction::Toggle(enabled),
{
}

/// What is said of a switch tells the two states apart by their names.
pub proof fn law_switches_are_told()
    ensures
        switch_message(true) == "tunnel enabled"@,
        switch_message(false) == "tunnel disabled"@,
{
}

/// There are six lines on the session, and each shows its own values.
pub proof fn law_session_lines_show_the_values(snap: StatusSnapshot)
    ensures
        ({
            let lines = session_text(snap);
            &&& lines.len() == 6
            &&& lines[0] == "endpoint   "@ + snap.endpoint@
            &&& lines[1] == "address    "@ + snap.address@
            &&& lines[2] == "uptime     "@ + stats::duration_text(snap.uptime_secs as nat)
            &&& lines[3] == "sessions   "@ + text::decimal(snap.active_sessions as nat)
            &&& lines[4] == "handshakes ok="@ + text::decimal(snap.handshakes_ok as nat)
                + "  fail="@ + text::decimal(snap.handshakes_fail as nat)
            &&& lines[5] == "errors     encrypt="@ + text::decimal(snap.encrypt_errors as nat)
                + "  decrypt="@ + text::decimal(snap.decrypt_errors as nat)
        }),
{
}

/// Whether it is time to ask the daemon for its status.
pub open spec fn is_due(last_poll: Option<u64>, now: u64) -> bool {
    match last_poll {
        Some(at) => time::elapsed_ns(now, at) >= TICK_NS,
        None => true,
    }
}

/// The daemon is asked at once, and then every half second.
pub proof fn law_polled_every_half_second(last_poll: Option<u64>, now: u64)
    ensures
        last_poll is None ==> is_due(last_poll, now),
        last_poll matches Some(at) ==> (is_due(last_poll, now) <==> now - at >= 500_000_000),
{
}

/// What is said after the answer to a request that an action sent, with the data
/// plane now on or off.
pub open spec fn told(action: KeyAction, enabled: bool) -> Seq<char> {
    match action {
        KeyAction::Switch(on) => switch_message(on),
        _ => switch_message(enabled),
    }
}

/// After a switch it is said what was asked for, after a toggle what came of it.
pub proof fn law_outcomes_are_told(asked: bool, enabled: bool)
    ensures
        told(KeyAction::Switch(asked), enabled) == if asked {
            "tunnel enabled"@
        } else {
            "tunnel disabled"@
        },
        told(KeyAction::Toggle(asked), enabled) == if enabled {
            "tunnel enabled"@
        } else {
            "tunnel disabled"@
        },
{
}

impl Dashboard {
    /// The footer.
    pub open spec fn footer_text(self) -> Seq<char> {
        match self.err {
            Some(e) => " error: "@ + e@ + " "@,
            None => match self.msg {
                Some(m) => " "@ + m@ + " "@,
                None => " q quit · space toggle · o on · f off · r refresh "@,
            },
        }
    }
}

/// An error is shown before a message, a message before the keys, each in full.
pub proof fn law_errors_are_shown_first(board: Dashboard)
    ensures
        board.err matches Some(e) ==> board.footer_text() == " error: "@ + e@ + " "@,
        board.err is None ==> (board.msg matches Some(m) ==> board.footer_text() == " "@ + m@
            + " "@),
        board.err is None && board.msg is None ==> board.footer_text()
            == " q quit · space toggle · o on · f off · r refresh "@,
{
}

} // verus!
