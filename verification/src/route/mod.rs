//! Linux route / NAT / kill-switch / DNS / IPv6 changes, as commands to run.

pub mod client;
pub mod command;
pub mod default_route;
pub mod dns;
pub mod kill_switch;
pub mod laws;
pub mod masquerade;
pub mod script;

pub use client::{Change, ClientRouteOpts, ClientRoutes};
pub use command::{Command, Half};
pub use default_route::parse_default_route;
pub use dns::{DnsGuard, DnsStep};
pub use masquerade::{NatGuard, NatSetup, NatStep};
pub use script::{Op, Script};
