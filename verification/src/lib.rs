//! Split-DNS control daemon: the verified decision logic.
//!
//! Every module here computes on plain values. The processes, sockets and
//! files around it live in the `app` program, which performs the effects this
//! library asks for and hands the outcomes back.

pub mod backend;
pub mod cli;
pub mod command;
pub mod config;
pub mod daemon;
pub mod detector;
pub mod exec;
pub mod interfaces;
pub mod lists;
pub mod paths;
pub mod platform;
pub mod resolve;
pub mod text;
pub mod wire;
