//! What the command-line client prints.

use splitway::cli::{is_error, print_domain_check, print_response, status, StatusLabels};
use splitway::config::VpnBackend;
use splitway::wire::{
    AppliedInfo, ConfigView, DetectorHealth, DomainCheckInfo, DriftVerdict, InterfaceInfo,
    LinkDnsState, ResolutionInfo, Response, RoutingState, StatusInfo, VerifyInfo,
};

fn labels() -> StatusLabels {
    StatusLabels {
        routing: "applied".to_string(),
        applied: "wg0 via 10.0.0.1".to_string(),
        detector: "active".to_string(),
    }
}

fn status_info(applied: bool) -> StatusInfo {
    StatusInfo {
        enabled: true,
        interface: "wg0".to_string(),
        vpn_up: applied,
        applied: if applied {
            Some(AppliedInfo {
                interface: "wg0".to_string(),
                domains: vec!["a.com".to_string()],
                dns_servers: vec!["10.0.0.1".to_string()],
            })
        } else {
            None
        },
        domains: vec!["a.com".to_string(), "b.com".to_string()],
        routing_state: RoutingState::Applied,
        detector_health: DetectorHealth::Active,
        detected_dns: vec!["10.0.0.1".to_string()],
    }
}

fn check(covered: bool) -> DomainCheckInfo {
    DomainCheckInfo {
        host: "x.a.com".to_string(),
        covered,
        matched_domain: if covered { Some("a.com".to_string()) } else { None },
        vpn_interface: "wg0".to_string(),
        resolution: None,
        enabled: true,
        vpn_up: true,
        routing_state: RoutingState::Applied,
    }
}

fn resolved(via: Option<&str>) -> Option<ResolutionInfo> {
    Some(ResolutionInfo {
        addresses: vec!["10.1.0.1".to_string(), "10.1.0.2".to_string()],
        via_interface: via.map(|s| s.to_string()),
        via_dns: None,
    })
}

fn lines(response: Response) -> Vec<String> {
    print_response(&response, &labels()).lines
}

#[test]
fn a_status_line_by_line() {
    assert_eq!(
        status(&status_info(true), &labels(), true),
        vec![
            "enabled:   true",
            "interface: wg0",
            "vpn_up:    true",
            "routing:   applied",
            "applied:   wg0 via 10.0.0.1",
            "detected:  10.0.0.1",
            "detector:  active",
            "domains:   a.com, b.com",
        ]
    );
    let short = lines(Response::Status(status_info(false)));
    assert_eq!(short.len(), 7);
    assert_eq!(short[4], "applied:   (none)");
}

#[test]
fn a_check_of_a_covered_host() {
    let mut info = check(true);
    info.resolution = resolved(Some("wg0"));
    assert_eq!(
        print_domain_check(&info),
        vec![
            "host:      x.a.com",
            "coverage:  covered by the configured domain `a.com`",
            "routing:   rule application is enabled and the VPN is up",
            "resolved:  10.1.0.1, 10.1.0.2",
            "via link:  wg0 — resolved through the VPN's DNS",
            "",
            "note: this checks DNS only — whether the name resolves through the VPN's",
            "      resolver, not whether the resolved address is reachable through the tunnel.",
        ]
    );
    info.enabled = false;
    assert_eq!(
        print_domain_check(&info)[2],
        "routing:   configured to route, but rule application is disabled — not routed right now"
    );
    info.enabled = true;
    info.vpn_up = false;
    assert_eq!(
        print_domain_check(&info)[2],
        "routing:   configured to route, but the VPN (wg0) is down — not routed right now"
    );
    info.vpn_interface = String::new();
    assert_eq!(
        print_domain_check(&info)[2],
        "routing:   configured to route, but the VPN is down — not routed right now"
    );
}

#[test]
fn a_check_of_a_host_that_is_not_covered() {
    let mut info = check(false);
    let shown = print_domain_check(&info);
    assert_eq!(shown[1], "coverage:  NOT covered by any configured domain");
    assert_eq!(shown[2], "           add it with:  splitway add x.a.com");
    assert_eq!(shown[3], "resolved:  (live resolution unavailable)");
    info.resolution = resolved(Some("eth0"));
    assert_eq!(
        print_domain_check(&info)[4],
        "via link:  eth0 — not the configured VPN interface `wg0`; this name is not resolving \
         through the VPN right now"
    );
    info.resolution = resolved(None);
    assert_eq!(
        print_domain_check(&info)[4],
        "via link:  (the platform does not report which link answered)"
    );
}

#[test]
fn every_other_reply() {
    assert_eq!(lines(Response::Done), vec!["ok"]);
    assert_eq!(lines(Response::Domains(vec![])), vec!["(no domains configured)"]);
    assert_eq!(lines(Response::Domains(vec!["a.com".to_string()])), vec!["a.com"]);
    assert_eq!(lines(Response::Interfaces(vec![])), vec!["(no interfaces found)"]);
    assert_eq!(
        lines(Response::Interfaces(vec![
            InterfaceInfo { name: "wg0".to_string(), up: true, vpn_like: true },
            InterfaceInfo { name: "eth0".to_string(), up: false, vpn_like: false },
        ])),
        vec!["wg0 (up, vpn-like)", "eth0 (down)"]
    );
    assert_eq!(
        lines(Response::Config(ConfigView {
            vpn_name: "tun0".to_string(),
            vpn_backend: VpnBackend::OpenVpn,
            openvpn_management: "h:1".to_string(),
            openvpn_management_password_file: None,
            config_path: "/c.json".to_string(),
        })),
        vec![
            "vpn_name:    tun0",
            "vpn_backend: openvpn",
            "openvpn.management: h:1",
            "openvpn.management_password_file: (none)",
            "config_path: /c.json",
        ]
    );
    let read_back = Response::Verify(VerifyInfo {
        live: LinkDnsState::default(),
        drift: DriftVerdict::NotApplicable,
    });
    assert_eq!(
        lines(read_back),
        vec!["servers:   (none)", "domains:   (none)", "drift:     (nothing applied)"]
    );
}

#[test]
fn only_an_error_is_one() {
    let failed = Response::Error("boom".to_string());
    let shown = print_response(&failed, &labels());
    assert_eq!(shown.lines, vec!["error: boom"]);
    assert!(shown.is_error && is_error(&failed));
    assert!(!is_error(&Response::Done));
    assert_eq!(VpnBackend::NetworkManager.as_str(), "network-manager");
}
