//! Linux: NetworkManager over D-Bus, or a standalone OpenVPN process.

pub mod discover;
pub mod openvpn;
pub mod parser;
pub mod state;
pub mod watch;
