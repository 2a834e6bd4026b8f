//! macOS: per-domain resolver files, and the system's default resolver.

pub mod demote;
pub mod pipeline;
pub mod resolver;
pub mod scope;
