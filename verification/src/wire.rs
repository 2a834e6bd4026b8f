//! The requests clients send over the control socket, and the replies.

use vstd::prelude::*;
use crate::config::{OpenVpnModel, VpnBackend};
use crate::text::{opt_text, texts, Text};

verus! {

/// Why routing is or is not active.
#[derive(Debug, Clone, Copy, PartialEq, Eq, Structural)]
pub enum RoutingState {
    /// The configuration file does not parse; the last good one is in force.
    ConfigInvalid,
    /// The system may not match what should be applied.
    ApplyFailed,
    Disabled,
    NoDomains,
    VpnDown,
    NoDnsFromVpn,
    Applied,
}

/// Whether VPN events are being received.
#[derive(Debug, PartialEq, Eq)]
pub enum DetectorHealth {
    Inactive,
    Active,
    Error(String),
}

/// What the daemon believes is installed.
#[derive(Debug, PartialEq, Eq)]
pub struct AppliedInfo {
    pub interface: String,
    pub domains: Vec<String>,
    pub dns_servers: Vec<String>,
}

/// The reply to a status request.
#[derive(Debug, PartialEq, Eq)]
pub struct StatusInfo {
    pub enabled: bool,
    pub interface: String,
    pub vpn_up: bool,
    pub applied: Option<AppliedInfo>,
    pub routing_state: RoutingState,
    pub detected_dns: Vec<String>,
    pub detector_health: DetectorHealth,
    pub domains: Vec<String>,
}

/// The part of the configuration a client may edit.
#[derive(Debug, PartialEq, Eq)]
pub struct ConfigView {
    pub vpn_name: String,
    pub vpn_backend: VpnBackend,
    pub openvpn_management: String,
    pub openvpn_management_password_file: Option<String>,
    /// Where the configuration lives; informational.
    pub config_path: String,
}

/// A network interface a client may pick.
#[derive(Debug, PartialEq, Eq)]
pub struct InterfaceInfo {
    pub name: String,
    pub up: bool,
    pub vpn_like: bool,
}

/// A live resolution of a host.
#[derive(Debug, PartialEq, Eq)]
pub struct ResolutionInfo {
    pub addresses: Vec<String>,
    pub via_interface: Option<String>,
    pub via_dns: Option<String>,
}

/// The reply to a route check.
#[derive(Debug, PartialEq, Eq)]
pub struct DomainCheckInfo {
    pub host: String,
    pub covered: bool,
    pub matched_domain: Option<String>,
    pub vpn_interface: String,
    pub resolution: Option<ResolutionInfo>,
    pub enabled: bool,
    pub vpn_up: bool,
    pub routing_state: RoutingState,
}

/// The resolver state read back from a link.
#[derive(Debug, PartialEq, Eq)]
pub struct LinkDnsState {
    pub servers: Vec<String>,
    pub routing_domains: Vec<String>,
    pub default_route: Option<bool>,
}

/// How a read-back differs from what is believed installed.
#[derive(Debug, PartialEq, Eq)]
pub enum DriftVerdict {
    InSync,
    Drifted {
        missing_servers: Vec<String>,
        unrouted_domains: Vec<String>,
        default_route_leak: bool,
    },
    NotApplicable,
}

/// The reply to a read-back request.
#[derive(Debug, PartialEq, Eq)]
pub struct VerifyInfo {
    pub live: LinkDnsState,
    pub drift: DriftVerdict,
}

/// A reply over the control socket.
#[derive(Debug, PartialEq, Eq)]
pub enum Response {
    /// The request was carried out.
    Done,
    Status(StatusInfo),
    Domains(Vec<String>),
    Config(ConfigView),
    Interfaces(Vec<InterfaceInfo>),
    DomainCheck(DomainCheckInfo),
    Verify(VerifyInfo),
    Error(String),
}

/// The value of a [`DetectorHealth`].
pub enum HealthModel {
    Inactive,
    Active,
    Error(Text),
}

/// The value of an [`AppliedInfo`].
pub struct AppliedInfoModel {
    pub interface: Text,
    pub domains: Seq<Text>,
    pub dns: Seq<Text>,
}

/// The value of a [`StatusInfo`].
pub struct StatusModel {
    pub enabled: bool,
    pub interface: Text,
    pub vpn_up: bool,
    pub applied: Option<AppliedInfoModel>,
    pub routing_state: RoutingState,
    pub detected_dns: Seq<Text>,
    pub health: HealthModel,
    pub domains: Seq<Text>,
}

/// The value of a [`ConfigView`].
pub struct ConfigViewModel {
    pub vpn_name: Text,
    pub backend: VpnBackend,
    pub openvpn: OpenVpnModel,
    pub path: Text,
}

/// The value of an [`InterfaceInfo`].
pub struct InterfaceModel {
    pub name: Text,
    pub up: bool,
    pub vpn_like: bool,
}

/// The value of a [`ResolutionInfo`].
pub struct ResolutionModel {
    pub addresses: Seq<Text>,
    pub via_interface: Option<Text>,
    pub via_dns: Option<Text>,
}

/// The value of a [`DomainCheckInfo`].
pub struct DomainCheckModel {
    pub host: Text,
    pub covered: bool,
    pub matched_domain: Option<Text>,
    pub vpn_interface: Text,
    pub resolution: Option<ResolutionModel>,
    pub enabled: bool,
    pub vpn_up: bool,
    pub routing_state: RoutingState,
}

/// The value of a [`LinkDnsState`].
pub struct LinkModel {
    pub servers: Seq<Text>,
    pub domains: Seq<Text>,
    pub default_route: Option<bool>,
}

/// The value of a [`DriftVerdict`].
pub enum DriftModel {
    InSync,
    Drifted { missing: Seq<Text>, unrouted: Seq<Text>, leak: bool },
    NotApplicable,
}

/// The value of a [`VerifyInfo`].
pub struct VerifyModel {
    pub live: LinkModel,
    pub drift: DriftModel,
}

/// The value of a [`Response`].
pub enum ResponseModel {
    /// The request was carried out.
    Done,
    Status(StatusModel),
    Domains(Seq<Text>),
    Config(ConfigViewModel),
    Interfaces(Seq<InterfaceModel>),
    DomainCheck(DomainCheckModel),
    Verify(VerifyModel),
    Error(Text),
}

impl View for DetectorHealth {
    type V = HealthModel;

    open spec fn view(&self) -> HealthModel {
        match self {
            DetectorHealth::Inactive => HealthModel::Inactive,
            DetectorHealth::Active => HealthModel::Active,
            DetectorHealth::Error(s) => HealthModel::Error(s@),
        }
    }
}

impl View for AppliedInfo {
    type V = AppliedInfoModel;

    open spec fn view(&self) -> AppliedInfoModel {
        AppliedInfoModel {
            interface: self.interface@,
            domains: texts(self.domains@),
            dns: texts(self.dns_servers@),
        }
    }
}

impl View for StatusInfo {
    type V = StatusModel;

    open spec fn view(&self) -> StatusModel {
        StatusModel {
            enabled: self.enabled,
            interface: self.interface@,
            vpn_up: self.vpn_up,
            applied: match self.applied {
                Some(a) => Some(a@),
                None => None,
            },
            routing_state: self.routing_state,
            detected_dns: texts(self.detected_dns@),
            health: self.detector_health@,
            domains: texts(self.domains@),
        }
    }
}

impl View for ConfigView {
    type V = ConfigViewModel;

    open spec fn view(&self) -> ConfigViewModel {
        ConfigViewModel {
            vpn_name: self.vpn_name@,
            backend: self.vpn_backend,
            openvpn: OpenVpnModel {
                management: self.openvpn_management@,
                password_file: opt_text(self.openvpn_management_password_file),
            },
            path: self.config_path@,
        }
    }
}

impl View for InterfaceInfo {
    type V = InterfaceModel;

    open spec fn view(&self) -> InterfaceModel {
        InterfaceModel { name: self.name@, up: self.up, vpn_like: self.vpn_like }
    }
}

/// The values of a list of interfaces.
pub open spec fn interfaces_of(v: Seq<InterfaceInfo>) -> Seq<InterfaceModel> {
    Seq::new(v.len(), |i: int| v[i]@)
}

impl View for ResolutionInfo {
    type V = ResolutionModel;

    open spec fn view(&self) -> ResolutionModel {
        ResolutionModel {
            addresses: texts(self.addresses@),
            via_interface: opt_text(self.via_interface),
            via_dns: opt_text(self.via_dns),
        }
    }
}

/// The value of an optional resolution.
pub open spec fn opt_resolution(o: Option<ResolutionInfo>) -> Option<ResolutionModel> {
    match o {
        Some(r) => Some(r@),
        None => None,
    }
}

impl View for DomainCheckInfo {
    type V = DomainCheckModel;

    open spec fn view(&self) -> DomainCheckModel {
        DomainCheckModel {
            host: self.host@,
            covered: self.covered,
            matched_domain: opt_text(self.matched_domain),
            vpn_interface: self.vpn_interface@,
            resolution: opt_resolution(self.resolution),
            enabled: self.enabled,
            vpn_up: self.vpn_up,
            routing_state: self.routing_state,
        }
    }
}

impl View for LinkDnsState {
    type V = LinkModel;

    open spec fn view(&self) -> LinkModel {
        LinkModel {
            servers: texts(self.servers@),
            domains: texts(self.routing_domains@),
            default_route: self.default_route,
        }
    }
}

/// A link nothing was read from.
pub open spec fn empty_link() -> LinkModel {
    LinkModel { servers: Seq::empty(), domains: Seq::empty(), default_route: None }
}

impl Default for LinkDnsState {
    fn default() -> (r: LinkDnsState)
        ensures
            r@ == empty_link(),
    {
        let r = LinkDnsState {
            servers: Vec::new(),
            routing_domains: Vec::new(),
            default_route: None,
        };
        assert(texts(r.servers@) =~= Seq::<Text>::empty());
        r
    }
}

impl View for DriftVerdict {
    type V = DriftModel;

    open spec fn view(&self) -> DriftModel {
        match self {
            DriftVerdict::InSync => DriftModel::InSync,
            DriftVerdict::Drifted { missing_servers, unrouted_domains, default_route_leak } =>
                DriftModel::Drifted {
                missing: texts(missing_servers@),
                unrouted: texts(unrouted_domains@),
                leak: *default_route_leak,
            },
            DriftVerdict::NotApplicable => DriftModel::NotApplicable,
        }
    }
}

impl View for VerifyInfo {
    type V = VerifyModel;

    open spec fn view(&self) -> VerifyModel {
        VerifyModel { live: self.live@, drift: self.drift@ }
    }
}

impl View for Response {
    type V = ResponseModel;

    open spec fn view(&self) -> ResponseModel {
        match self {
            Response::Done => ResponseModel::Done,
            Response::Status(s) => ResponseModel::Status(s@),
            Response::Domains(d) => ResponseModel::Domains(texts(d@)),
            Response::Config(c) => ResponseModel::Config(c@),
            Response::Interfaces(i) => ResponseModel::Interfaces(interfaces_of(i@)),
            Response::DomainCheck(d) => ResponseModel::DomainCheck(d@),
            Response::Verify(v) => ResponseModel::Verify(v@),
            Response::Error(e) => ResponseModel::Error(e@),
        }
    }
}

impl Clone for DetectorHealth {
    fn clone(&self) -> (r: DetectorHealth)
        ensures
            r@ == self@,
    {
        match self {
            DetectorHealth::Inactive => DetectorHealth::Inactive,
            DetectorHealth::Active => DetectorHealth::Active,
            DetectorHealth::Error(s) => DetectorHealth::Error(s.clone()),
        }
    }
}

} // verus!
