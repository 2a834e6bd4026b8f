//! A standalone OpenVPN process, over its management interface.

pub mod parser;
pub mod session;
