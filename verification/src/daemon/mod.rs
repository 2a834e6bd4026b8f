//! The daemon: its state machine and its control socket.

pub mod behaviour;
pub mod ipc;
pub mod laws;
pub mod model;
pub mod startup;
pub mod state;
