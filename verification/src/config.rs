//! The configuration the daemon runs on.

use vstd::prelude::*;
use crate::text::{
    copy_opt_text, copy_opt_texts, copy_texts, opt_text, opt_texts, same_opt_text,
    same_opt_texts, same_texts, texts, Text,
};

verus! {

/// Where VPN state is learned from.
#[derive(Debug, Clone, Copy, PartialEq, Eq, Structural)]
pub enum VpnBackend {
    /// NetworkManager over D-Bus.
    NetworkManager,
    /// A standalone OpenVPN process over its management interface.
    OpenVpn,
}

/// How to reach a standalone OpenVPN process.
#[derive(Debug, PartialEq, Eq)]
pub struct OpenVpnConfig {
    /// `host:port`, or the path of a unix socket.
    pub management: String,
    /// File whose first line is the management password.
    pub management_password_file: Option<String>,
}

/// The contents of the configuration file.
#[derive(Debug, PartialEq, Eq)]
pub struct LocalConfig {
    /// The interface to watch; empty when none is configured.
    pub vpn_name: String,
    /// The domains to route through the VPN's resolver.
    pub vpn_hosts: Vec<String>,
    /// Whether split-DNS rules may be installed.
    pub enabled: bool,
    /// Where VPN state is learned from.
    pub vpn_backend: VpnBackend,
    /// Settings of the standalone OpenVPN backend.
    pub openvpn: OpenVpnConfig,
    /// Resolver for names off the tunnel, in place of the detected one.
    pub fallback_dns: Option<Vec<String>>,
}

/// A configuration with the VPN's resolver filled in.
#[derive(Debug, PartialEq, Eq)]
pub struct ResolvedConfig {
    pub vpn_name: String,
    pub vpn_ip: String,
    pub vpn_hosts: Vec<String>,
}

/// The value of an [`OpenVpnConfig`].
pub struct OpenVpnModel {
    pub management: Text,
    pub password_file: Option<Text>,
}

/// The value of a [`LocalConfig`].
pub struct ConfigModel {
    pub vpn_name: Text,
    pub hosts: Seq<Text>,
    pub enabled: bool,
    pub backend: VpnBackend,
    pub openvpn: OpenVpnModel,
    pub fallback_dns: Option<Seq<Text>>,
}

/// The value of a [`ResolvedConfig`].
pub struct ResolvedModel {
    pub vpn_name: Text,
    pub vpn_ip: Text,
    pub hosts: Seq<Text>,
}

impl View for OpenVpnConfig {
    type V = OpenVpnModel;

    open spec fn view(&self) -> OpenVpnModel {
        OpenVpnModel {
            management: self.management@,
            password_file: opt_text(self.management_password_file),
        }
    }
}

impl View for LocalConfig {
    type V = ConfigModel;

    open spec fn view(&self) -> ConfigModel {
        ConfigModel {
            vpn_name: self.vpn_name@,
            hosts: texts(self.vpn_hosts@),
            enabled: self.enabled,
            backend: self.vpn_backend,
            openvpn: self.openvpn@,
            fallback_dns: opt_texts(self.fallback_dns),
        }
    }
}

impl View for ResolvedConfig {
    type V = ResolvedModel;

    open spec fn view(&self) -> ResolvedModel {
        ResolvedModel {
            vpn_name: self.vpn_name@,
            vpn_ip: self.vpn_ip@,
            hosts: texts(self.vpn_hosts@),
        }
    }
}

impl Clone for OpenVpnConfig {
    fn clone(&self) -> (r: OpenVpnConfig)
        ensures
            r@ == self@,
    {
        OpenVpnConfig {
            management: self.management.clone(),
            management_password_file: copy_opt_text(&self.management_password_file),
        }
    }
}

impl OpenVpnConfig {
    /// Are the two settings equal?
    pub fn same(&self, other: &OpenVpnConfig) -> (r: bool)
        ensures
            r == (self@ == other@),
    {
        self.management == other.management && same_opt_text(
            &self.management_password_file,
            &other.management_password_file,
        )
    }
}

impl Clone for LocalConfig {
    fn clone(&self) -> (r: LocalConfig)
        ensures
            r@ == self@,
    {
        LocalConfig {
            vpn_name: self.vpn_name.clone(),
            vpn_hosts: copy_texts(&self.vpn_hosts),
            enabled: self.enabled,
            vpn_backend: self.vpn_backend,
            openvpn: self.openvpn.clone(),
            fallback_dns: copy_opt_texts(&self.fallback_dns),
        }
    }
}

impl LocalConfig {
    /// Are the two configurations equal?
    pub fn same(&self, other: &LocalConfig) -> (r: bool)
        ensures
            r == (self@ == other@),
    {
        self.vpn_name == other.vpn_name && same_texts(&self.vpn_hosts, &other.vpn_hosts)
            && self.enabled == other.enabled && self.vpn_backend == other.vpn_backend
            && self.openvpn.same(&other.openvpn) && same_opt_texts(
            &self.fallback_dns,
            &other.fallback_dns,
        )
    }
}

/// Do the two configurations differ in a field the VPN watch is keyed on?
pub open spec fn watch_keys_differ(a: ConfigModel, b: ConfigModel) -> bool {
    a.vpn_name != b.vpn_name || a.backend != b.backend || a.openvpn != b.openvpn
}

/// Whether a configuration change requires re-arming the VPN watch. Edits to
/// the domains, to `enabled` or to the fallback resolver do not: they only
/// change what should be applied.
pub fn watch_settings_changed(old: &LocalConfig, new: &LocalConfig) -> (r: bool)
    ensures
        r == watch_keys_differ(old@, new@),
{
    old.vpn_name != new.vpn_name || old.vpn_backend != new.vpn_backend || !old.openvpn.same(
        &new.openvpn,
    )
}

/// The watch is keyed on the interface, on where VPN state is learned from,
/// and on how OpenVPN is reached: a change of any of these requires a new
/// one, and no other change does.
pub proof fn law_the_watch_is_keyed_on_where_the_vpn_is(
    c: ConfigModel,
    vpn_name: Text,
    backend: VpnBackend,
    management: Text,
    password_file: Option<Text>,
    hosts: Seq<Text>,
    enabled: bool,
    fallback_dns: Option<Seq<Text>>,
)
    ensures
        watch_keys_differ(c, ConfigModel { vpn_name, ..c }) <==> vpn_name != c.vpn_name,
        watch_keys_differ(c, ConfigModel { backend, ..c }) <==> backend != c.backend,
        watch_keys_differ(
            c,
            ConfigModel { openvpn: OpenVpnModel { management, ..c.openvpn }, ..c },
        ) <==> management != c.openvpn.management,
        watch_keys_differ(
            c,
            ConfigModel { openvpn: OpenVpnModel { password_file, ..c.openvpn }, ..c },
        ) <==> password_file != c.openvpn.password_file,
        !watch_keys_differ(c, ConfigModel { hosts, enabled, fallback_dns, ..c }),
{
}

} // verus!
