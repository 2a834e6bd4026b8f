//! The platform DNS backends: what they run, write and read.

pub mod linux;
pub mod macos;
pub mod windows;
