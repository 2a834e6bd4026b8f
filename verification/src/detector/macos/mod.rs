//! macOS: a VPN is detected from the system's DNS model, not from an
//! interface name.

pub mod parser;
pub mod reader;
pub mod state;
