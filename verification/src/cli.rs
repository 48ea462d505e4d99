//! What the command line asks for.

use crate::config;
use crate::config::{decode_key, encode_key, ConfigError};
use crate::control::DEFAULT_CONTROL_SOCKET;
use crate::crypto::keys::public_from_private;
use crate::crypto::noise;
use crate::stats::StatusSnapshot;
use crate::text;
use vstd::prelude::*;

verus! {

/// The commands.
#[derive(Debug, Clone, Copy, PartialEq, Eq, Structural)]
pub enum Verb {
    Genkey,
    Pubkey,
    Server,
    Client,
    Status,
    On,
    Off,
    Monitor,
}

/// What is logged unless told otherwise: a daemon says what it does, all other
/// commands stay quiet.
pub fn default_filter(verb: Verb) -> (r: &'static str)
    ensures
        r@ == if verb == Verb::Server || verb == Verb::Client {
            "info"@
        } else {
            "warn"@
        },
{
    match verb {
        Verb::Server | Verb::Client => "info",
        _ => "warn",
    }
}

/// Where the control socket is: as the command line says, else the
/// environment, else the default.
pub fn control_socket(arg: Option<String>, env: Option<String>) -> (r: String)
    ensures
        r@ == match (arg, env) {
            (Some(path), _) => path@,
            (None, Some(path)) => path@,
            (None, None) => DEFAULT_CONTROL_SOCKET@,
        },
        r@ == socket_path(arg, env),
{
    match (arg, env) {
        (Some(path), _) => path,
        (None, Some(path)) => path,
        (None, None) => DEFAULT_CONTROL_SOCKET.to_owned(),
    }
}

/// The public key of a private key, both in base64.
pub fn pubkey(private_key: &str) -> (r: Result<String, ConfigError>)
    ensures
        match config::read_key(private_key@) {
            Ok(private) => r matches Ok(public) && public@ == config::base64_encoded(
                noise::x25519_public(private),
            ),
            Err(e) => r == Err::<String, ConfigError>(e),
        },
{
    match decode_key(private_key) {
        Ok(private) => Ok(encode_key(&public_from_private(&private))),
        Err(e) => Err(e),
    }
}

/// What is said after the data plane was asked to be on or off.
pub fn switch_report(on: bool, snap: &StatusSnapshot) -> (r: String)
    ensures
        r@ == (if on {
            "enabled"@
        } else {
            "disabled"@
        }) + "  ["@ + (if snap.enabled {
            "ON"@
        } else {
            "OFF"@
        }) + "]  tx="@ + text::decimal(snap.tx_packets as nat) + " rx="@ + text::decimal(
            snap.rx_packets as nat,
        ),
{
    let mut out: String = if on {
        "enabled".to_owned()
    } else {
        "disabled".to_owned()
    };
    out.append("  [");
    out.append(
        if snap.enabled {
            "ON"
        } else {
            "OFF"
        },
    );
    out.append("]  tx=");
    text::push_decimal(&mut out, snap.tx_packets);
    out.append(" rx=");
    text::push_decimal(&mut out, snap.rx_packets);
    out
}

/// Where the control socket is.
pub open spec fn socket_path(arg: Option<String>, env: Option<String>) -> Seq<char> {
    match arg {
        Some(path) => path@,
        None => match env {
            Some(path) => path@,
            None => DEFAULT_CONTROL_SOCKET@,
        },
    }
}

/// The command line goes before the environment, and the environment before the
/// default.
pub proof fn law_command_line_goes_first(arg: Option<String>, env: Option<String>)
    ensures
        arg matches Some(path) ==> socket_path(arg, env) == path@,
        arg is None ==> (env matches Some(path) ==> socket_path(arg, env) == path@),
        arg is None && env is None ==> socket_path(arg, env) == "/run/soulvpn/control.sock"@,
{
}

} // verus!
