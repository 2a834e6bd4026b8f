//! Replacing the default resolver and putting it back.

use std::cell::{Cell, RefCell};
use std::collections::{HashMap, HashSet};
use splitway::backend::macos::demote::{
    build_set_dns_script, demote as begin_demote, dns_written, key_checked, key_exists,
    primary_read, primary_service, restore as begin_restore, script_result, scutil_set_error, service_dns_key,
    service_dns_state, service_read, snapshot_cleared, snapshot_loaded, snapshot_saved,
    DemoteSnapshot, DemoteStep, ServiceDnsState,
};
use splitway::platform::PlatformError;

/// A stand-in for `scutil` that records every script and answers from a table.
struct FakeScutil {
    primary: RefCell<Option<String>>,
    /// What a service without an entry in `service_states` looks like.
    default_state: (Option<String>, Vec<String>),
    service_states: RefCell<HashMap<String, ServiceDnsState>>,
    scripts: RefCell<Vec<String>>,
    fail_on_set: Cell<bool>,
    /// Service keys that are gone from the dynamic store.
    absent_keys: RefCell<HashSet<String>>,
}

impl FakeScutil {
    /// A primary service ("ABC", on en0) with one resolver.
    fn up() -> Self {
        FakeScutil {
            primary: RefCell::new(Some("ABC".to_string())),
            default_state: (Some("en0".to_string()), vec!["198.51.100.1".to_string()]),
            service_states: RefCell::new(HashMap::new()),
            scripts: RefCell::new(Vec::new()),
            fail_on_set: Cell::new(false),
            absent_keys: RefCell::new(HashSet::new()),
        }
    }

    fn fail_on_set(&self) {
        self.fail_on_set.set(true);
    }

    fn set_primary(&self, id: &str) {
        *self.primary.borrow_mut() = Some(id.to_string());
    }

    fn set_service_state(&self, key: &str, state: ServiceDnsState) {
        self.service_states.borrow_mut().insert(key.to_string(), state);
    }

    fn set_key_absent(&self, key: &str) {
        self.absent_keys.borrow_mut().insert(key.to_string());
    }

    fn service_dns_state(&self, key: &str) -> ServiceDnsState {
        match self.service_states.borrow().get(key) {
            Some(s) => ServiceDnsState {
                interface_name: s.interface_name.clone(),
                servers: s.servers.clone(),
            },
            None => ServiceDnsState {
                interface_name: self.default_state.0.clone(),
                servers: self.default_state.1.clone(),
            },
        }
    }

    fn key_exists(&self, key: &str) -> bool {
        !self.absent_keys.borrow().contains(key)
    }

    fn run_script(&self, script: String) -> Result<(), PlatformError> {
        if self.fail_on_set.get() && script.contains("set ") {
            return Err(PlatformError::CommandFailed("simulated set failure".to_string()));
        }
        self.scripts.borrow_mut().push(script);
        Ok(())
    }
}

/// A snapshot store in memory.
#[derive(Default)]
struct MemSnapshots {
    slot: RefCell<Option<DemoteSnapshot>>,
    /// How many saves succeed before every later one fails; `None`: all do.
    ok_saves: Cell<Option<usize>>,
}

impl MemSnapshots {
    fn load(&self) -> Option<DemoteSnapshot> {
        self.slot.borrow().as_ref().map(|s| DemoteSnapshot {
            service_dns_key: s.service_dns_key.clone(),
            interface_name: s.interface_name.clone(),
            prior_servers: s.prior_servers.clone(),
            installed_fallback: s.installed_fallback.clone(),
        })
    }

    fn save(&self, snapshot: DemoteSnapshot) -> Result<(), PlatformError> {
        match self.ok_saves.get() {
            Some(0) => {
                return Err(PlatformError::CommandFailed(
                    "simulated snapshot save failure".to_string(),
                ))
            }
            Some(n) => self.ok_saves.set(Some(n - 1)),
            None => {}
        }
        *self.slot.borrow_mut() = Some(snapshot);
        Ok(())
    }

    fn clear(&self) {
        *self.slot.borrow_mut() = None;
    }
}

/// Carry out what a demote or a restore asks for until it is finished.
fn carry_out(
    first: DemoteStep,
    scutil: &FakeScutil,
    snaps: &MemSnapshots,
) -> Result<bool, PlatformError> {
    let mut step = first;
    loop {
        step = match step {
            DemoteStep::ReadPrimary { fallback, corp_dns } => {
                primary_read(fallback, corp_dns, Ok(scutil.primary.borrow().clone()))
            }
            DemoteStep::LoadSnapshot(then) => snapshot_loaded(then, snaps.load()),
            DemoteStep::ReadService { key, then } => {
                service_read(then, Ok(scutil.service_dns_state(&key)))
            }
            DemoteStep::CheckKey { snapshot, then } => {
                let present = scutil.key_exists(&snapshot.service_dns_key);
                key_checked(snapshot, then, Ok(present))
            }
            DemoteStep::Write { write, then } => dns_written(then, scutil.run_script(write.script())),
            DemoteStep::ClearSnapshot(then) => {
                snaps.clear();
                snapshot_cleared(then)
            }
            DemoteStep::SaveSnapshot { snapshot, then } => {
                snapshot_saved(then, snaps.save(snapshot))
            }
            DemoteStep::Finished(result) => return result,
        };
    }
}

fn demote(
    scutil: &FakeScutil,
    snaps: &MemSnapshots,
    fallback: &[String],
    corp_dns: &[String],
) -> Result<bool, PlatformError> {
    carry_out(begin_demote(&fallback.to_vec(), &corp_dns.to_vec()), scutil, snaps)
}

fn restore(scutil: &FakeScutil, snaps: &MemSnapshots) -> Result<bool, PlatformError> {
    carry_out(begin_restore(), scutil, snaps)
}

fn snap(
    key: &str,
    iface: Option<&str>,
    servers: &[&str],
    installed: &[&str],
) -> DemoteSnapshot {
    DemoteSnapshot {
        service_dns_key: key.to_string(),
        interface_name: iface.map(str::to_string),
        prior_servers: servers.iter().map(|s| s.to_string()).collect(),
        installed_fallback: installed.iter().map(|s| s.to_string()).collect(),
    }
}

// --- pure script builders -------------------------------------------------

#[test]
fn set_dns_script_sets_server_addresses_and_preserves_the_interface() {
    let script = build_set_dns_script(
        "State:/Network/Service/ABC/DNS",
        &vec!["198.51.100.1".to_string()],
        &Some("en0".to_string()),
    );
    assert_eq!(
        script,
        "open\n\
         d.init\n\
         get State:/Network/Service/ABC/DNS\n\
         d.add ServerAddresses * 198.51.100.1\n\
         d.add InterfaceName en0\n\
         set State:/Network/Service/ABC/DNS\n\
         quit\n"
    );
}

#[test]
fn set_dns_script_gets_the_live_dict_before_overriding_to_preserve_fields() {
    // `get` the existing dict BEFORE overriding
    // ServerAddresses so unmanaged DHCP/VPN fields (SearchDomains, DomainName,
    // SupplementalMatchDomains, …) ride through instead of being replaced by a
    // minimal dict.
    let script = build_set_dns_script(
        "State:/Network/Service/ABC/DNS",
        &vec!["203.0.113.9".to_string()],
        &Some("en0".to_string()),
    );
    let get_at = script.find("get State:/Network/Service/ABC/DNS\n").unwrap();
    let override_at = script.find("d.add ServerAddresses").unwrap();
    assert!(
        get_at < override_at,
        "must load the live dict with `get` before overriding ServerAddresses"
    );
    // No bare-init minimal write that would replace the whole dict.
    assert!(!script.contains("d.init\nd.add ServerAddresses"));
}

#[test]
fn set_dns_script_omits_the_interface_when_unknown() {
    let script = build_set_dns_script(
        "State:/Network/Service/ABC/DNS",
        &vec!["198.51.100.1".to_string()],
        &None,
    );
    assert!(!script.contains("InterfaceName"));
    assert!(script.contains("d.add ServerAddresses * 198.51.100.1\n"));
}

#[test]
fn set_dns_script_handles_multiple_servers() {
    let script = build_set_dns_script(
        "State:/Network/Service/ABC/DNS",
        &vec!["198.51.100.1".to_string(), "198.51.100.2".to_string()],
        &Some("en0".to_string()),
    );
    assert!(script.contains("d.add ServerAddresses * 198.51.100.1 198.51.100.2\n"));
}

#[test]
fn set_dns_script_with_no_servers_removes_only_our_server_addresses() {
    // No prior servers → drop our ServerAddresses override (after `get`-ing the
    // live dict) rather than adding any, keeping every other field intact.
    let script = build_set_dns_script("State:/Network/Service/ABC/DNS", &vec![], &Some("en0".to_string()));
    assert!(script.contains("get State:/Network/Service/ABC/DNS\n"));
    assert!(script.contains("d.remove ServerAddresses\n"));
    assert!(!script.contains("d.add ServerAddresses"));
    assert!(script.contains("d.add InterfaceName en0\n"));
    assert!(script.contains("set State:/Network/Service/ABC/DNS\n"));
}

#[test]
fn service_dns_key_is_well_formed() {
    assert_eq!(
        service_dns_key("ABC-123"),
        "State:/Network/Service/ABC-123/DNS"
    );
}

// --- demote / restore orchestration --------------------------------------

#[test]
fn demote_snapshots_prior_then_sets_the_fallback_preserving_the_interface() {
    let scutil = FakeScutil::up();
    let snaps = MemSnapshots::default();
    let did = demote(
        &scutil,
        &snaps,
        &["203.0.113.9".to_string()],
        &["192.0.2.53".to_string()],
    )
    .unwrap();
    assert!(did);
    // Prior state captured for the primary service, including its interface.
    assert_eq!(
        snaps.load().unwrap(),
        snap(
            "State:/Network/Service/ABC/DNS",
            Some("en0"),
            &["198.51.100.1"],
            &["203.0.113.9"],
        )
    );
    // Exactly one script issued: set the fallback AND re-add InterfaceName so
    // the demoted physical service stays identifiable.
    let scripts = scutil.scripts.borrow();
    assert_eq!(scripts.len(), 1);
    assert!(scripts[0].contains("d.add ServerAddresses * 203.0.113.9\n"));
    assert!(
        scripts[0].contains("d.add InterfaceName en0\n"),
        "the demote must preserve InterfaceName so detection still finds the physical service"
    );
    assert!(scripts[0].contains("set State:/Network/Service/ABC/DNS\n"));
}

#[test]
fn redemote_same_service_still_on_our_fallback_keeps_the_snapshot() {
    let scutil = FakeScutil::up();
    let snaps = MemSnapshots::default();
    demote(
        &scutil,
        &snaps,
        &["203.0.113.9".to_string()],
        &["192.0.2.53".to_string()],
    )
    .unwrap();
    let after_first = snaps.load().unwrap();
    // The demote took effect: the service now reports OUR fallback as its DNS.
    scutil.set_service_state(
        "State:/Network/Service/ABC/DNS",
        ServiceDnsState {
            interface_name: Some("en0".to_string()),
            servers: vec!["203.0.113.9".to_string()],
        },
    );
    // A second demote (same primary, still our fallback) must keep the ORIGINAL
    // prior, not snapshot our own fallback.
    demote(
        &scutil,
        &snaps,
        &["203.0.113.9".to_string()],
        &["192.0.2.53".to_string()],
    )
    .unwrap();
    assert_eq!(snaps.load().unwrap(), after_first);
    assert_eq!(
        after_first.prior_servers,
        vec!["198.51.100.1".to_string()],
        "the snapshot must remain the real prior resolver, never our fallback"
    );
}

#[test]
fn redemote_same_service_refreshes_the_snapshot_when_the_dhcp_dns_changed() {
    // The SAME primary service stays active but its DHCP resolver changes
    // (a new lease overwrites our fallback) and the watcher re-emits Up. The
    // snapshot must refresh to the NEW resolver, so a later restore writes back
    // the latest service DNS instead of pinning the pre-change one.
    let scutil = FakeScutil::up();
    let snaps = MemSnapshots::default();
    demote(
        &scutil,
        &snaps,
        &["203.0.113.9".to_string()],
        &["192.0.2.53".to_string()],
    )
    .unwrap();
    // DHCP hands the same service a new resolver.
    scutil.set_service_state(
        "State:/Network/Service/ABC/DNS",
        ServiceDnsState {
            interface_name: Some("en0".to_string()),
            servers: vec!["198.51.100.77".to_string()],
        },
    );
    demote(
        &scutil,
        &snaps,
        &["203.0.113.9".to_string()],
        &["192.0.2.53".to_string()],
    )
    .unwrap();
    assert_eq!(
        snaps.load().unwrap(),
        snap(
            "State:/Network/Service/ABC/DNS",
            Some("en0"),
            &["198.51.100.77"],
            &["203.0.113.9"],
        ),
        "the snapshot must track the new DHCP resolver so restore is not stale"
    );
}

#[test]
fn redemote_after_a_fallback_change_keeps_the_original_prior() {
    // `fallback_dns` changes from one resolver to another while demoted, so
    // the service still shows our PREVIOUS fallback. That previous fallback must
    // not be mistaken for a DHCP update and captured as the prior — restore must
    // still write the real DHCP resolver, not our old fallback.
    let scutil = FakeScutil::up();
    let snaps = MemSnapshots::default();
    demote(
        &scutil,
        &snaps,
        &["203.0.113.9".to_string()],
        &["192.0.2.53".to_string()],
    )
    .unwrap();
    // The demote took effect: the service shows our first fallback.
    scutil.set_service_state(
        "State:/Network/Service/ABC/DNS",
        ServiceDnsState {
            interface_name: Some("en0".to_string()),
            servers: vec!["203.0.113.9".to_string()],
        },
    );
    // fallback_dns changes to a different resolver; re-demote.
    demote(
        &scutil,
        &snaps,
        &["203.0.113.50".to_string()],
        &["192.0.2.53".to_string()],
    )
    .unwrap();
    let after = snaps.load().unwrap();
    assert_eq!(
        after.prior_servers,
        vec!["198.51.100.1".to_string()],
        "the prior must stay the real DHCP resolver, never our previous fallback"
    );
    assert_eq!(
        after.installed_fallback,
        vec!["203.0.113.50".to_string()],
        "the recorded installed fallback tracks the newly applied one"
    );
}

#[test]
fn redemote_keeps_prior_when_the_installed_fallback_record_was_lost() {
    // The post-write `installed_fallback` record can fail (e.g. a transient
    // `/var/run` write error) after the demote's `set` already succeeded, leaving
    // the snapshot's installed_fallback empty while the service already shows our
    // fallback. A retry with the SAME fallback must still recognise that value as
    // ours and keep the real DHCP prior — not snapshot our own fallback (which a
    // later restore would then write back as if it were the prior resolver).
    let scutil = FakeScutil::up();
    let snaps = MemSnapshots::default();
    // Seed the post-failure state: the real DHCP prior is captured, but the
    // installed_fallback record was lost (empty), and the service already shows
    // the fallback the previous `set` wrote.
    snaps
        .save(snap(
            "State:/Network/Service/ABC/DNS",
            Some("en0"),
            &["198.51.100.1"],
            &[],
        ))
        .unwrap();
    scutil.set_service_state(
        "State:/Network/Service/ABC/DNS",
        ServiceDnsState {
            interface_name: Some("en0".to_string()),
            servers: vec!["203.0.113.9".to_string()],
        },
    );
    // Retry the demote with the SAME fallback.
    demote(
        &scutil,
        &snaps,
        &["203.0.113.9".to_string()],
        &["192.0.2.53".to_string()],
    )
    .unwrap();
    let after = snaps.load().unwrap();
    assert_eq!(
        after.prior_servers,
        vec!["198.51.100.1".to_string()],
        "a retry must not capture our own fallback as the prior when the \
         installed_fallback record was lost"
    );
    assert_eq!(
        after.installed_fallback,
        vec!["203.0.113.9".to_string()],
        "the post-write step repairs the lost installed_fallback record"
    );
}

#[test]
fn redemote_default_config_refreshes_when_dhcp_equals_the_new_fallback() {
    // In the DEFAULT config the fallback IS the physical DHCP resolver, so
    // a DHCP change makes the new resolver EQUAL the new fallback. The refresh
    // must still fire — keyed on the PREVIOUSLY recorded installed_fallback, not
    // on comparing against the fallback we are about to install — or a later
    // restore pins the stale pre-change resolver. The old `current != fallback`
    // guard wrongly suppressed exactly this case.
    let scutil = FakeScutil::up();
    let snaps = MemSnapshots::default();
    // First demote, default config: fallback == the physical DHCP resolver.
    demote(
        &scutil,
        &snaps,
        &["198.51.100.1".to_string()],
        &["192.0.2.53".to_string()],
    )
    .unwrap();
    // DHCP renews: the service now shows a NEW resolver, and in the default
    // config the detector's demote-target (== the fallback) is that same value.
    scutil.set_service_state(
        "State:/Network/Service/ABC/DNS",
        ServiceDnsState {
            interface_name: Some("en0".to_string()),
            servers: vec!["198.51.100.77".to_string()],
        },
    );
    demote(
        &scutil,
        &snaps,
        &["198.51.100.77".to_string()],
        &["192.0.2.53".to_string()],
    )
    .unwrap();
    let after = snaps.load().unwrap();
    assert_eq!(
        after.prior_servers,
        vec!["198.51.100.77".to_string()],
        "the prior must refresh to the new DHCP resolver even when it equals the new fallback"
    );
    assert_eq!(after.installed_fallback, vec!["198.51.100.77".to_string()]);
}

#[test]
fn redemote_never_captures_the_corp_resolver_as_a_prior() {
    // A hijacking client rewrites the physical service's
    // ServerAddresses to its OWN corp DNS between samples. That corp value must
    // never be captured as the prior — a later restore would then install the
    // corp resolver as the off-VPN default. The real prior stays untouched.
    let scutil = FakeScutil::up();
    let snaps = MemSnapshots::default();
    demote(
        &scutil,
        &snaps,
        &["203.0.113.9".to_string()],
        &["192.0.2.53".to_string()],
    )
    .unwrap();
    // The physical service now (transiently) shows the corp resolver.
    scutil.set_service_state(
        "State:/Network/Service/ABC/DNS",
        ServiceDnsState {
            interface_name: Some("en0".to_string()),
            servers: vec!["192.0.2.53".to_string()],
        },
    );
    demote(
        &scutil,
        &snaps,
        &["203.0.113.9".to_string()],
        &["192.0.2.53".to_string()],
    )
    .unwrap();
    assert_eq!(
        snaps.load().unwrap().prior_servers,
        vec!["198.51.100.1".to_string()],
        "the corp resolver must never be snapshotted as the physical prior"
    );
}

#[test]
fn demote_survives_a_post_write_installed_fallback_save_failure() {
    // The `set` already demoted the default and the prior snapshot is saved,
    // but the post-write installed_fallback record fails. The demote must NOT
    // fail — that would make apply_with roll back only the /etc/resolver scope,
    // leaving the inverse half-state (default demoted, corp domains unscoped →
    // they leak via the fallback). It stays applied; only the dedup hint is lost.
    let scutil = FakeScutil::up();
    let snaps = MemSnapshots::default();
    // The first save (capture_snapshot) succeeds; the second (post-write) fails.
    snaps.ok_saves.set(Some(1));
    let did = demote(
        &scutil,
        &snaps,
        &["203.0.113.9".to_string()],
        &["192.0.2.53".to_string()],
    )
    .unwrap();
    assert!(
        did,
        "the demote stays applied despite the bookkeeping save failure"
    );
    // The set took effect (the fallback script was issued)...
    assert!(scutil
        .scripts
        .borrow()
        .iter()
        .any(|s| s.contains("d.add ServerAddresses * 203.0.113.9")));
    // ...and the prior snapshot survived (recoverable on a later revert).
    let after = snaps.load().unwrap();
    assert_eq!(after.prior_servers, vec!["198.51.100.1".to_string()]);
    // The installed_fallback hint was not recorded (its save failed) — tolerated
    // by the same-service refresh branch's `installed_fallback.is_empty()` path.
    assert!(after.installed_fallback.is_empty());
}

#[test]
fn restore_skips_a_departed_service_instead_of_recreating_a_phantom() {
    // On VPN-down the demoted service has departed (Wi-Fi off → Ethernet in;
    // configd tore down its keys). Restore must NOT re-create the key — a
    // get-then-set would leave a phantom the detector reads as an unscoped
    // default-resolver hijacker → a false "VPN up" at a dead resolver.
    let scutil = FakeScutil::up();
    let snaps = MemSnapshots::default();
    demote(
        &scutil,
        &snaps,
        &["203.0.113.9".to_string()],
        &["192.0.2.53".to_string()],
    )
    .unwrap();
    scutil.scripts.borrow_mut().clear();
    // The demoted service's DNS key is gone.
    scutil.set_key_absent("State:/Network/Service/ABC/DNS");

    let restored = restore(&scutil, &snaps).unwrap();
    assert!(
        restored,
        "restore reports it handled the snapshot so the caller still flushes"
    );
    // No set script re-created the departed key...
    assert!(
        scutil
            .scripts
            .borrow()
            .iter()
            .all(|s| !s.contains("set State:/Network/Service/ABC/DNS")),
        "a departed service must not be re-created as a phantom"
    );
    // ...and the snapshot is cleared.
    assert!(snaps.load().is_none());
}

#[test]
fn demote_on_a_changed_primary_skips_a_departed_old_service() {
    // The primary switched because the OLD service departed entirely (its
    // keys are gone). The old service must NOT be restored (no phantom); the new
    // primary is still snapshotted and demoted.
    let scutil = FakeScutil::up(); // primary ABC (en0)
    let snaps = MemSnapshots::default();
    demote(
        &scutil,
        &snaps,
        &["203.0.113.9".to_string()],
        &["192.0.2.53".to_string()],
    )
    .unwrap();
    scutil.scripts.borrow_mut().clear();
    // The old primary ABC departed; the new primary is XYZ (en1) with its own DNS.
    scutil.set_key_absent("State:/Network/Service/ABC/DNS");
    scutil.set_primary("XYZ");
    scutil.set_service_state(
        "State:/Network/Service/XYZ/DNS",
        ServiceDnsState {
            interface_name: Some("en1".to_string()),
            servers: vec!["198.51.100.50".to_string()],
        },
    );
    demote(
        &scutil,
        &snaps,
        &["203.0.113.9".to_string()],
        &["192.0.2.53".to_string()],
    )
    .unwrap();

    let scripts = scutil.scripts.borrow();
    // The departed old service is NOT restored (no phantom re-created).
    assert!(
        scripts
            .iter()
            .all(|s| !s.contains("set State:/Network/Service/ABC/DNS")),
        "the departed old service must not be re-created"
    );
    // The new primary IS demoted to the fallback.
    assert!(scripts
        .iter()
        .any(|s| s.contains("set State:/Network/Service/XYZ/DNS")
            && s.contains("d.add ServerAddresses * 203.0.113.9")));
    drop(scripts);
    assert_eq!(
        snaps.load().unwrap().service_dns_key,
        "State:/Network/Service/XYZ/DNS"
    );
}

#[test]
fn scutil_set_error_flags_stdout_failures_but_allows_no_such_key() {
    // Success is silent → None.
    assert!(scutil_set_error("").is_none());
    assert!(scutil_set_error("\n  \n").is_none());
    // The benign `get` on a missing key → None (the demote/restore scripts
    // issue `get` by design, and a first-time service key does not exist yet).
    assert!(scutil_set_error("  No such key\n").is_none());
    assert!(scutil_set_error("No such key\nNo such key\n").is_none());
    // A real stdout-reported failure (exit 0) → Some.
    let err = scutil_set_error("  SCPreferencesCommitChanges: Permission denied\n").unwrap();
    assert!(err.contains("Permission denied"));
    // Mixed: only the non-benign line is reported.
    let err = scutil_set_error("No such key\n  failed to apply\n").unwrap();
    assert!(err.contains("failed to apply") && !err.contains("No such key"));
}

#[test]
fn demote_on_a_changed_primary_restores_the_old_then_snapshots_the_new() {
    // The primary service changes while up (e.g. Wi-Fi → Ethernet) with a
    // snapshot already present. The old service must be un-demoted (not left
    // stranded on our fallback), and the NEW service snapshotted + demoted.
    let scutil = FakeScutil::up(); // primary = ABC (en0)
    let snaps = MemSnapshots::default();
    demote(
        &scutil,
        &snaps,
        &["203.0.113.9".to_string()],
        &["192.0.2.53".to_string()],
    )
    .unwrap();
    scutil.scripts.borrow_mut().clear();

    // The primary switches to XYZ on en1 with its own DHCP resolver.
    scutil.set_primary("XYZ");
    scutil.set_service_state(
        "State:/Network/Service/XYZ/DNS",
        ServiceDnsState {
            interface_name: Some("en1".to_string()),
            servers: vec!["198.51.100.50".to_string()],
        },
    );
    demote(
        &scutil,
        &snaps,
        &["203.0.113.9".to_string()],
        &["192.0.2.53".to_string()],
    )
    .unwrap();

    // The snapshot now tracks the NEW primary with its real prior DNS.
    assert_eq!(
        snaps.load().unwrap(),
        snap(
            "State:/Network/Service/XYZ/DNS",
            Some("en1"),
            &["198.51.100.50"],
            &["203.0.113.9"],
        )
    );
    let scripts = scutil.scripts.borrow();
    // First the OLD service is restored to its real prior (198.51.100.1),
    // then the NEW service is demoted to the fallback.
    assert!(
        scripts
            .iter()
            .any(|s| s.contains("set State:/Network/Service/ABC/DNS")
                && s.contains("d.add ServerAddresses * 198.51.100.1")),
        "the previous primary must be restored to its real DNS, not left on the fallback"
    );
    assert!(
        scripts
            .iter()
            .any(|s| s.contains("set State:/Network/Service/XYZ/DNS")
                && s.contains("d.add ServerAddresses * 203.0.113.9")),
        "the new primary must be demoted to the fallback"
    );
}

#[test]
fn demote_with_no_primary_service_is_a_clean_noop() {
    let scutil = FakeScutil::up();
    *scutil.primary.borrow_mut() = None;
    let snaps = MemSnapshots::default();
    let did = demote(
        &scutil,
        &snaps,
        &["203.0.113.9".to_string()],
        &["192.0.2.53".to_string()],
    )
    .unwrap();
    assert!(!did);
    assert!(snaps.load().is_none());
    assert!(scutil.scripts.borrow().is_empty());
}

#[test]
fn demote_to_empty_fallback_is_rejected() {
    let scutil = FakeScutil::up();
    let snaps = MemSnapshots::default();
    assert!(demote(&scutil, &snaps, &[], &["192.0.2.53".to_string()]).is_err());
    // Nothing captured or issued on rejection.
    assert!(snaps.load().is_none());
    assert!(scutil.scripts.borrow().is_empty());
}

#[test]
fn restore_sets_prior_servers_with_the_interface_and_clears_snapshot() {
    let scutil = FakeScutil::up();
    let snaps = MemSnapshots::default();
    demote(
        &scutil,
        &snaps,
        &["203.0.113.9".to_string()],
        &["192.0.2.53".to_string()],
    )
    .unwrap();
    scutil.scripts.borrow_mut().clear();

    restore(&scutil, &snaps).unwrap();
    let scripts = scutil.scripts.borrow();
    assert_eq!(scripts.len(), 1);
    // Restored the original servers AND the interface name...
    assert!(scripts[0].contains("d.add ServerAddresses * 198.51.100.1\n"));
    assert!(scripts[0].contains("d.add InterfaceName en0\n"));
    // ...and cleared the snapshot so a later demote re-snaps.
    drop(scripts);
    assert!(snaps.load().is_none());
}

#[test]
fn restore_clears_only_our_servers_when_there_were_no_prior_ones() {
    // A service with no explicit prior ServerAddresses: restore drops just our
    // override (d.remove ServerAddresses) after `get`-ing the live dict, so any
    // DHCP-provided SearchDomains/etc. are preserved rather than wiped.
    let scutil = FakeScutil::up();
    scutil.set_service_state(
        "State:/Network/Service/ABC/DNS",
        ServiceDnsState {
            interface_name: Some("en0".to_string()),
            servers: vec![],
        },
    );
    let snaps = MemSnapshots::default();
    demote(
        &scutil,
        &snaps,
        &["203.0.113.9".to_string()],
        &["192.0.2.53".to_string()],
    )
    .unwrap();
    scutil.scripts.borrow_mut().clear();

    restore(&scutil, &snaps).unwrap();
    let scripts = scutil.scripts.borrow();
    assert_eq!(scripts.len(), 1);
    assert!(scripts[0].contains("get State:/Network/Service/ABC/DNS\n"));
    assert!(scripts[0].contains("d.remove ServerAddresses\n"));
    assert!(!scripts[0].contains("d.add ServerAddresses"));
    assert!(scripts[0].contains("set State:/Network/Service/ABC/DNS\n"));
}

#[test]
fn restore_with_no_snapshot_is_a_clean_noop() {
    let scutil = FakeScutil::up();
    let snaps = MemSnapshots::default();
    restore(&scutil, &snaps).unwrap();
    assert!(scutil.scripts.borrow().is_empty());
}

#[test]
fn demote_propagates_a_set_failure_after_snapshotting() {
    // If the set fails, the snapshot is already on disk, so a later restore
    // can still recover — the demote surfaces the error rather than masking.
    let scutil = FakeScutil::up();
    scutil.fail_on_set();
    let snaps = MemSnapshots::default();
    let result = demote(
        &scutil,
        &snaps,
        &["203.0.113.9".to_string()],
        &["192.0.2.53".to_string()],
    );
    assert!(result.is_err());
    // Snapshot persisted so the half-done demote is recoverable on revert.
    assert!(snaps.load().is_some());
}


#[test]
fn restore_undoes_demote() {
    let scutil = FakeScutil::up();
    let snaps = MemSnapshots::default();
    let fallback = vec!["203.0.113.9".to_string()];
    assert_eq!(demote(&scutil, &snaps, &fallback, &["192.0.2.53".to_string()]), Ok(true));
    assert_eq!(restore(&scutil, &snaps), Ok(true));
    assert_eq!(
        scutil.scripts.borrow().last().unwrap(),
        &build_set_dns_script(
            "State:/Network/Service/ABC/DNS",
            &vec!["198.51.100.1".to_string()],
            &Some("en0".to_string()),
        )
    );
    assert_eq!(restore(&scutil, &snaps), Ok(false));
}

#[test]
fn a_failed_restore_keeps_the_snapshot() {
    let scutil = FakeScutil::up();
    let snaps = MemSnapshots::default();
    demote(&scutil, &snaps, &["203.0.113.9".to_string()], &[]).unwrap();
    scutil.fail_on_set();
    assert_eq!(
        restore(&scutil, &snaps),
        Err(PlatformError::CommandFailed("simulated set failure".to_string()))
    );
    assert!(snaps.load().is_some());
}

#[test]
fn nothing_is_overwritten_without_a_snapshot() {
    let scutil = FakeScutil::up();
    let snaps = MemSnapshots::default();
    snaps.ok_saves.set(Some(0));
    assert!(demote(&scutil, &snaps, &["203.0.113.9".to_string()], &[]).is_err());
    assert!(scutil.scripts.borrow().is_empty());
}

#[test]
fn a_failed_script_names_what_went_wrong() {
    assert_eq!(script_result("\n No such key\n"), Ok(()));
    assert_eq!(
        script_result(" one\nNo such key\n two\n"),
        Err(PlatformError::CommandFailed(
            "scutil reported an error running a set script (stdout, exit 0): one; two".to_string()
        ))
    );
}

#[test]
fn what_a_dump_shows_of_a_service() {
    assert_eq!(
        primary_service("<dictionary> {\n  PrimaryService : ABC\n}").as_deref(),
        Some("ABC")
    );
    assert_eq!(primary_service("<dictionary> {\n}"), None);
    let dump = "<dictionary> {\n  InterfaceName : en0\n  ServerAddresses : <array> {\n    0 : 198.51.100.1\n  }\n}";
    assert_eq!(
        service_dns_state(dump),
        ServiceDnsState {
            interface_name: Some("en0".to_string()),
            servers: vec!["198.51.100.1".to_string()],
        }
    );
    assert!(key_exists(dump));
    assert!(!key_exists("  No such key\n"));
}
