//! Reading the resolver configuration out of the dynamic store.

use std::collections::HashMap;

use splitway::detector::macos::parser::{Detected, DnsModel, ServiceDns};
use splitway::detector::macos::reader::{
    current_vpn_state, entity_shown, global_shown, read_dns_model, scutil_list, scutil_output,
    scutil_show, service_shown, services_listed, ReadStep, GLOBAL_IPV4_KEY, SERVICE_DNS_PATTERN,
};
use splitway::detector::macos::state::{emit_detected, Deduper, MacosDetector};
use splitway::exec::CommandOutcome;
use splitway::platform::{PlatformError, VpnEvent, VpnInfo};

/// A dynamic store: what showing a key prints, and what listing the services
/// prints.
struct Store {
    shown: HashMap<&'static str, &'static str>,
    listing: Result<&'static str, &'static str>,
}

fn failed(message: &str) -> PlatformError {
    PlatformError::CommandFailed(message.to_string())
}

impl Store {
    fn show(&self, key: &str) -> Result<String, PlatformError> {
        match self.shown.get(key) {
            Some(dump) => Ok(dump.to_string()),
            None => Ok("  No such key\n".to_string()),
        }
    }

    fn read(&self) -> Result<DnsModel, PlatformError> {
        let mut step = read_dns_model();
        loop {
            step = match step {
                ReadStep::ShowGlobal => global_shown(self.show(GLOBAL_IPV4_KEY)),
                ReadStep::ListServices { primary_interface, primary_service } => services_listed(
                    primary_interface,
                    primary_service,
                    self.listing.map(|l| l.to_string()).map_err(failed),
                ),
                ReadStep::ShowService { key, reader } => {
                    let dump = self.show(&key);
                    service_shown(key, reader, dump)
                }
                ReadStep::ShowEntity { key, v6, pending, reader } => {
                    entity_shown(v6, pending, reader, self.show(&key))
                }
                ReadStep::Finished(result) => return result,
            };
        }
    }
}

const LISTING: &str = "\
  subKey [0] = State:/Network/Service/PHYS/DNS
  subKey [1] = State:/Network/Service/VPN/DNS
  subKey [2] = State:/Network/Service/EMPTY/DNS
  subKey [3] = Setup:/Network/Service/OTHER/DNS
";

fn store() -> Store {
    let mut shown = HashMap::new();
    shown.insert(
        "State:/Network/Global/IPv4",
        "<dictionary> {\n  PrimaryInterface : en0\n  PrimaryService : PHYS\n}",
    );
    shown.insert(
        "State:/Network/Service/PHYS/DNS",
        "<dictionary> {\n  ServerAddresses : <array> {\n    0 : 198.51.100.1\n  }\n}",
    );
    shown.insert(
        "State:/Network/Service/PHYS/IPv4",
        "<dictionary> {\n  InterfaceName : en0\n}",
    );
    shown.insert(
        "State:/Network/Service/VPN/DNS",
        "<dictionary> {\n  InterfaceName : en9\n  ServerAddresses : <array> {\n    0 : 192.0.2.53\n  }\n}",
    );
    shown.insert(
        "State:/Network/Service/VPN/IPv6",
        "<dictionary> {\n  InterfaceName : utun4\n}",
    );
    Store { shown, listing: Ok(LISTING) }
}

fn service(id: &str, interface: &str, server: &str) -> ServiceDns {
    ServiceDns {
        service_id: id.to_string(),
        interface_name: Some(interface.to_string()),
        servers: vec![server.to_string()],
    }
}

#[test]
fn services_with_resolvers_are_read_with_their_interface() {
    assert_eq!(
        store().read(),
        Ok(DnsModel {
            primary_interface: Some("en0".to_string()),
            primary_service: Some("PHYS".to_string()),
            services: vec![
                service("PHYS", "en0", "198.51.100.1"),
                service("VPN", "utun4", "192.0.2.53"),
            ],
        })
    );
    assert_eq!(
        current_vpn_state(store().read()),
        Ok(Detected::Up {
            corp_dns: vec!["192.0.2.53".to_string()],
            demote_target: vec!["198.51.100.1".to_string()],
        })
    );
}

#[test]
fn the_interface_of_the_dns_entry_is_the_last_resort() {
    let mut s = store();
    s.shown.remove("State:/Network/Service/VPN/IPv6");
    assert_eq!(s.read().unwrap().services[1], service("VPN", "en9", "192.0.2.53"));
}

#[test]
fn a_failed_listing_fails_the_read() {
    let mut s = store();
    s.listing = Err("scutil died");
    assert_eq!(s.read(), Err(failed("scutil died")));
    assert_eq!(current_vpn_state(s.read()), Err(failed("scutil died")));
}

#[test]
fn scripts_for_scutil() {
    assert_eq!(scutil_show("State:/K"), "show State:/K\n");
    assert_eq!(scutil_list(SERVICE_DNS_PATTERN), format!("list {SERVICE_DNS_PATTERN}\n"));
}

#[test]
fn what_scutil_printed_or_how_it_failed() {
    let exited = |success| CommandOutcome::Exited {
        success,
        status: "exit status: 1".to_string(),
        stdout: b"  No such key\n".to_vec(),
        stderr: b" denied\n".to_vec(),
    };
    assert_eq!(scutil_output(exited(true)), Ok("  No such key\n".to_string()));
    assert_eq!(
        scutil_output(exited(false)),
        Err(failed("scutil exited with exit status: 1: denied"))
    );
    assert_eq!(scutil_output(CommandOutcome::NotRun(failed("x"))), Err(failed("x")));
}

fn sample() -> Result<Detected, PlatformError> {
    current_vpn_state(store().read())
}

fn info() -> VpnInfo {
    VpnInfo {
        interface_name: "vpn".to_string(),
        dns_servers: vec!["192.0.2.53".to_string()],
        demote_target: Some(vec!["198.51.100.1".to_string()]),
    }
}

#[test]
fn a_failed_sample_is_not_a_down() {
    let mut dedup = Deduper::default();
    assert_eq!(emit_detected("vpn", &mut dedup, sample()), Some(VpnEvent::Up(info())));
    assert_eq!(emit_detected("vpn", &mut dedup, Err(failed("x"))), None);
    assert_eq!(emit_detected("vpn", &mut dedup, sample()), None);
    assert_eq!(
        emit_detected("vpn", &mut dedup, Ok(Detected::Down)),
        Some(VpnEvent::Down { interface_name: "vpn".to_string() })
    );
}

#[test]
fn detecting_once() {
    assert_eq!(MacosDetector.detect("vpn", sample()), Ok(info()));
    assert_eq!(
        MacosDetector.detect("vpn", Ok(Detected::Down)),
        Err(PlatformError::VpnNotFound("vpn".to_string()))
    );
    assert_eq!(MacosDetector.detect("vpn", Err(failed("x"))), Err(failed("x")));
}
