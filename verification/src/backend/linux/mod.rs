//! Linux: per-link DNS through systemd-resolved's `resolvectl`.

pub mod apply;
pub mod query;
pub mod status;
