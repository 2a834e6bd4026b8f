//! What the platform reports about the VPN, and how it fails.

use vstd::prelude::*;
use crate::text::{copy_opt_texts, copy_texts, opt_texts, texts, Text};

verus! {

/// What a detector knows about an active VPN.
#[derive(Debug, PartialEq, Eq)]
pub struct VpnInfo {
    /// The VPN's interface.
    pub interface_name: String,
    /// The resolvers the VPN pushed; empty when it pushed none.
    pub dns_servers: Vec<String>,
    /// The resolvers names off the tunnel should use, where the platform
    /// lets a VPN take over the system default.
    pub demote_target: Option<Vec<String>>,
}

/// A change in VPN state.
#[derive(Debug, PartialEq, Eq)]
pub enum VpnEvent {
    Up(VpnInfo),
    Down { interface_name: String },
}

/// Why a platform operation failed.
#[derive(Debug, PartialEq, Eq)]
pub enum PlatformError {
    CommandFailed(String),
    VpnNotFound(String),
    ParseError(String),
    Unsupported(String),
    DbusError(String),
    Io(String),
}

/// The value of a [`VpnInfo`].
pub struct InfoModel {
    pub interface: Text,
    pub dns: Seq<Text>,
    pub demote: Option<Seq<Text>>,
}

/// The value of a [`VpnEvent`].
pub enum EventModel {
    Up(InfoModel),
    Down(Text),
}

/// The value of a [`PlatformError`].
pub enum ErrorModel {
    CommandFailed(Text),
    VpnNotFound(Text),
    ParseError(Text),
    Unsupported(Text),
    DbusError(Text),
    Io(Text),
}

impl View for VpnInfo {
    type V = InfoModel;

    open spec fn view(&self) -> InfoModel {
        InfoModel {
            interface: self.interface_name@,
            dns: texts(self.dns_servers@),
            demote: opt_texts(self.demote_target),
        }
    }
}

impl View for VpnEvent {
    type V = EventModel;

    open spec fn view(&self) -> EventModel {
        match self {
            VpnEvent::Up(info) => EventModel::Up(info@),
            VpnEvent::Down { interface_name } => EventModel::Down(interface_name@),
        }
    }
}

impl View for PlatformError {
    type V = ErrorModel;

    open spec fn view(&self) -> ErrorModel {
        match self {
            PlatformError::CommandFailed(s) => ErrorModel::CommandFailed(s@),
            PlatformError::VpnNotFound(s) => ErrorModel::VpnNotFound(s@),
            PlatformError::ParseError(s) => ErrorModel::ParseError(s@),
            PlatformError::Unsupported(s) => ErrorModel::Unsupported(s@),
            PlatformError::DbusError(s) => ErrorModel::DbusError(s@),
            PlatformError::Io(s) => ErrorModel::Io(s@),
        }
    }
}

impl Clone for VpnInfo {
    fn clone(&self) -> (r: VpnInfo)
        ensures
            r@ == self@,
    {
        VpnInfo {
            interface_name: self.interface_name.clone(),
            dns_servers: copy_texts(&self.dns_servers),
            demote_target: copy_opt_texts(&self.demote_target),
        }
    }
}

} // verus!
