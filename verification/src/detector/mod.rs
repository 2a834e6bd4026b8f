//! The VPN detectors: what they read, and what it means.

pub mod linux;
pub mod macos;
pub mod windows;
