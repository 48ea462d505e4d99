//! A system-wide VPN: Noise_IK over UDP into a TUN device.

pub mod cli;
pub mod client;
pub mod config;
pub mod control;
pub mod crypto;
pub mod monitor;
pub mod net;
pub mod packet;
pub mod route;
pub mod server;
pub mod stats;
pub mod text;
pub mod time;
pub mod tun_dev;
pub mod wire;
