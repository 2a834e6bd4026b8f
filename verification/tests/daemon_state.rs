//! The state owner, driven with a backend, a detector and a configuration in memory.

use std::collections::{HashSet, VecDeque};
use std::ops::{Deref, DerefMut};
use std::sync::atomic::{AtomicBool, Ordering};
use std::sync::{Arc, Mutex};
use splitway::config::{watch_settings_changed, LocalConfig, OpenVpnConfig, VpnBackend};
use splitway::daemon::state::{
    interfaces_listed, live_state, BackendCall, CallOutcome, ListOutcome, NormalizeFor, Request,
    StateCommand, StateMachine, Step, WatchCall,
};
use splitway::platform::{VpnEvent, VpnInfo};
use splitway::wire::{
    AppliedInfo, ConfigView, DetectorHealth, DomainCheckInfo, DriftVerdict, LinkDnsState,
    ResolutionInfo, Response, RoutingState, VerifyInfo,
};

/// Records what the state machine asks the backend to do.
#[derive(Default)]
struct MockBackend {
    applies: Mutex<Vec<(String, Vec<String>)>>,
    /// The fallback carried by each apply, in order.
    applied_demote_targets: Mutex<Vec<Option<Vec<String>>>>,
    reverts: Mutex<Vec<String>>,
    fail_apply: AtomicBool,
    fail_revert: AtomicBool,
    global_revert: AtomicBool,
    /// The addresses every host resolves to; `None`: resolving is unsupported.
    resolve_addresses: Mutex<Option<Vec<String>>>,
    resolve_interface: Mutex<Option<String>>,
    fail_resolve: AtomicBool,
    /// What reading any link back gives; `None`: that is unsupported.
    link_state: Mutex<Option<LinkDnsState>>,
    /// The interface read back last.
    read_link_interface: Mutex<Option<String>>,
    fail_read_link: AtomicBool,
    /// Reading a link back panics.
    panic_read_link: AtomicBool,
}

impl MockBackend {
    fn set_fail_apply(&self, fail: bool) {
        self.fail_apply.store(fail, Ordering::Relaxed);
    }

    fn set_fail_revert(&self, fail: bool) {
        self.fail_revert.store(fail, Ordering::Relaxed);
    }

    fn set_reverts_globally(&self, global: bool) {
        self.global_revert.store(global, Ordering::Relaxed);
    }

    fn set_resolution(&self, addresses: Vec<String>, via_interface: Option<String>) {
        *self.resolve_addresses.lock().unwrap() = Some(addresses);
        *self.resolve_interface.lock().unwrap() = via_interface;
    }

    fn set_fail_resolve(&self, fail: bool) {
        self.fail_resolve.store(fail, Ordering::Relaxed);
    }

    fn set_link_state(&self, state: LinkDnsState) {
        *self.link_state.lock().unwrap() = Some(state);
    }

    fn set_fail_read_link(&self, fail: bool) {
        self.fail_read_link.store(fail, Ordering::Relaxed);
    }

    fn set_panic_read_link(&self, panic: bool) {
        self.panic_read_link.store(panic, Ordering::Relaxed);
    }

    fn last_read_link_interface(&self) -> Option<String> {
        self.read_link_interface.lock().unwrap().clone()
    }

    fn call(&self, call: BackendCall) -> CallOutcome {
        match call {
            BackendCall::Apply { info, domains } => {
                if self.fail_apply.load(Ordering::Relaxed) {
                    return CallOutcome::Failed("mock apply failure".to_string());
                }
                self.applies.lock().unwrap().push((info.interface_name, domains));
                self.applied_demote_targets.lock().unwrap().push(info.demote_target);
                CallOutcome::Done
            }
            BackendCall::Revert { interface } => {
                self.reverts.lock().unwrap().push(interface);
                if self.fail_revert.load(Ordering::Relaxed) {
                    return CallOutcome::Failed("mock revert failure".to_string());
                }
                CallOutcome::Done
            }
        }
    }

    fn resolve(&self) -> Option<ResolutionInfo> {
        if self.fail_resolve.load(Ordering::Relaxed) {
            return None;
        }
        self.resolve_addresses.lock().unwrap().as_ref().map(|addresses| ResolutionInfo {
            addresses: addresses.clone(),
            via_interface: self.resolve_interface.lock().unwrap().clone(),
            via_dns: None,
        })
    }

    /// What came of reading a link back; `None` after a panic.
    fn read_link_state(&self, interface: &str) -> Option<Result<LinkDnsState, String>> {
        *self.read_link_interface.lock().unwrap() = Some(interface.to_string());
        if self.panic_read_link.load(Ordering::Relaxed) {
            return None;
        }
        if self.fail_read_link.load(Ordering::Relaxed) {
            return Some(Err("mock read_link_state failure".to_string()));
        }
        Some(match &*self.link_state.lock().unwrap() {
            Some(state) => Ok(LinkDnsState {
                servers: state.servers.clone(),
                routing_domains: state.routing_domains.clone(),
                default_route: state.default_route,
            }),
            None => Err("mock: no link state scripted".to_string()),
        })
    }
}

/// Which watches fail to start, which end at once, and every one armed.
#[derive(Default)]
struct MockDetectorShared {
    fail: Mutex<HashSet<String>>,
    die: Mutex<HashSet<String>>,
    watches: Mutex<Vec<Arc<WatchRecord>>>,
}

struct WatchRecord {
    interface: String,
    stopped: AtomicBool,
}

/// A configuration file in memory.
#[derive(Clone)]
struct FakeConfigStore {
    inner: Arc<Mutex<FakeStoreState>>,
}

struct FakeStoreState {
    /// `None`: the file does not parse.
    current: Option<LocalConfig>,
    saves: usize,
}

impl FakeConfigStore {
    fn new(cfg: LocalConfig) -> Self {
        FakeConfigStore {
            inner: Arc::new(Mutex::new(FakeStoreState { current: Some(cfg), saves: 0 })),
        }
    }

    /// An edit by another program.
    fn set_external(&self, cfg: LocalConfig) {
        self.inner.lock().unwrap().current = Some(cfg);
    }

    fn set_malformed(&self) {
        self.inner.lock().unwrap().current = None;
    }

    fn current(&self) -> Option<LocalConfig> {
        self.inner.lock().unwrap().current.clone()
    }

    fn save_count(&self) -> usize {
        self.inner.lock().unwrap().saves
    }

    fn load(&self) -> Result<LocalConfig, String> {
        self.current().ok_or_else(|| "malformed config".to_string())
    }

    fn save(&self, config: &LocalConfig) -> Result<(), String> {
        let mut state = self.inner.lock().unwrap();
        state.current = Some(config.clone());
        state.saves += 1;
        Ok(())
    }

    fn describe(&self) -> String {
        "<in-memory test store>".to_string()
    }
}

/// The bare host in `raw`, for the inputs used here.
fn normalize_host(raw: &str) -> Result<String, String> {
    let lowered = raw.trim().to_lowercase();
    let host = match lowered.split_once("://") {
        Some((_, rest)) => rest.split('/').next().unwrap().to_string(),
        None if lowered.contains('/') => return Err("a path without a scheme".to_string()),
        None => lowered,
    };
    let host = host.split(':').next().unwrap().trim_end_matches('.').to_string();
    if host.is_empty() || host.chars().all(|c| c == '.' || c.is_ascii_digit()) {
        return Err("not a host name".to_string());
    }
    Ok(host)
}

fn folded(entry: &str) -> String {
    entry.trim_end_matches('.').to_lowercase()
}

fn same_host(entry: &str, host: &str) -> bool {
    folded(entry) == folded(host)
}

fn domain_covers(entry: &str, host: &str) -> bool {
    same_host(entry, host) || folded(host).ends_with(&format!(".{}", folded(entry)))
}

fn compare_drift(live: &LinkDnsState, applied: Option<AppliedInfo>) -> DriftVerdict {
    let Some(applied) = applied else {
        return DriftVerdict::NotApplicable;
    };
    let missing_servers: Vec<String> =
        applied.dns_servers.into_iter().filter(|s| !live.servers.contains(s)).collect();
    let unrouted_domains: Vec<String> =
        applied.domains.into_iter().filter(|d| !live.routing_domains.contains(d)).collect();
    let default_route_leak = live.default_route == Some(true);
    if missing_servers.is_empty() && unrouted_domains.is_empty() && !default_route_leak {
        DriftVerdict::InSync
    } else {
        DriftVerdict::Drifted { missing_servers, unrouted_domains, default_route_leak }
    }
}

/// A state machine together with all it acts upon.
struct Daemon {
    sm: StateMachine,
    backend: Arc<MockBackend>,
    config_store: FakeConfigStore,
    /// `None`: watches are armed but never report anything.
    detectors: Option<Arc<MockDetectorShared>>,
    watch: Option<Arc<WatchRecord>>,
    queue: VecDeque<StateCommand>,
}

impl Deref for Daemon {
    type Target = StateMachine;

    fn deref(&self) -> &StateMachine {
        &self.sm
    }
}

impl DerefMut for Daemon {
    fn deref_mut(&mut self) -> &mut StateMachine {
        &mut self.sm
    }
}

impl Daemon {
    fn new(
        backend: Arc<MockBackend>,
        detectors: Option<Arc<MockDetectorShared>>,
        config_store: FakeConfigStore,
        cfg: LocalConfig,
    ) -> Daemon {
        let global = backend.global_revert.load(Ordering::Relaxed);
        let sm = StateMachine::new(cfg, config_store.describe(), global, false);
        Daemon { sm, backend, config_store, detectors, watch: None, queue: VecDeque::new() }
    }

    fn change_watch(&mut self, call: WatchCall) -> Result<(), String> {
        if let Some(old) = self.watch.take() {
            old.stopped.store(true, Ordering::SeqCst);
        }
        let WatchCall::Start { generation, interface } = call else {
            return Ok(());
        };
        let Some(shared) = &self.detectors else {
            return Ok(());
        };
        if shared.fail.lock().unwrap().contains(&interface) {
            return Err(format!("mock watch failed for {interface}"));
        }
        if shared.die.lock().unwrap().contains(&interface) {
            self.queue.push_back(StateCommand::WatchEnded { generation });
            return Ok(());
        }
        let record =
            Arc::new(WatchRecord { interface: interface.clone(), stopped: AtomicBool::new(false) });
        shared.watches.lock().unwrap().push(record.clone());
        self.watch = Some(record);
        self.queue.push_back(StateCommand::Vpn { generation, event: vpn_up(&interface) });
        Ok(())
    }

    /// Carry out everything a step asks for. The reply, if there is one, and
    /// whether the system was left clean, if it stopped.
    fn drive(&mut self, first: Step) -> (Option<Response>, Option<bool>) {
        let mut step = first;
        loop {
            step = match step {
                Step::Idle => return (None, None),
                Step::Reply(response) => return (Some(response), None),
                Step::Stopped(clean) => return (None, Some(clean)),
                Step::Normalize { raw, then } => {
                    let result = normalize_host(&raw);
                    self.sm.normalized(then, result)
                }
                Step::Load(purpose) => {
                    let result = self.config_store.load();
                    self.sm.loaded(purpose, result)
                }
                Step::Match { host, entries, then } => {
                    let same = entries.iter().map(|e| same_host(e, &host)).collect();
                    self.sm.matched(then, same)
                }
                Step::Save(next) => {
                    let result = self.config_store.save(&next);
                    self.sm.saved(next, result)
                }
                Step::Backend { call, then } => {
                    let outcome = self.backend.call(call);
                    self.sm.backend_done(then, outcome)
                }
                Step::Watch { call, then } => {
                    let outcome = self.change_watch(call);
                    self.sm.watch_done(then, outcome)
                }
                Step::ListInterfaces => Step::Reply(interfaces_listed(ListOutcome::Listed(vec![]))),
                Step::Cover { host, entries } => {
                    let covers = entries.iter().map(|e| domain_covers(e, &host)).collect();
                    self.sm.covered(host, covers)
                }
                Step::Resolve(snapshot) => Step::Reply(snapshot.reply(self.backend.resolve())),
                Step::ReadBack { interface, applied } => {
                    let live = live_state(interface.and_then(|i| self.backend.read_link_state(&i)));
                    let drift = compare_drift(&live, applied);
                    Step::Reply(Response::Verify(VerifyInfo { live, drift }))
                }
            };
        }
    }

    fn on_event(&mut self, event: VpnEvent) {
        let step = self.sm.on_event(event);
        assert_eq!(self.drive(step), (None, None));
    }

    fn on_vpn_event(&mut self, generation: u64, event: VpnEvent) {
        let step = self.sm.on_vpn_event(generation, event);
        assert_eq!(self.drive(step), (None, None));
    }

    fn on_request(&mut self, request: Request) -> Response {
        let step = self.sm.on_request(request);
        self.drive(step).0.expect("a request is answered")
    }

    fn add_domain(&mut self, domain: String) -> Response {
        self.on_request(Request::AddDomain(domain))
    }

    fn remove_domain(&mut self, domain: String) -> Response {
        self.on_request(Request::RemoveDomain(domain))
    }

    fn on_config_changed(&mut self) {
        let step = self.sm.on_command(StateCommand::ConfigChanged);
        assert_eq!(self.drive(step), (None, None));
    }

    fn arm_watch(&mut self) {
        let step = self.sm.start();
        assert_eq!(self.drive(step), (None, None));
    }

    fn cleanup_orphaned_state_on_startup(&mut self) {
        self.arm_watch();
    }

    fn shutdown(&mut self) -> bool {
        let step = self.sm.shutdown();
        self.drive(step).1.expect("a shutdown ends")
    }

    /// Handle the next thing a watch reported, if there is one.
    fn pump_one_command(&mut self) -> bool {
        match self.queue.pop_front() {
            Some(command) => {
                let step = self.sm.on_command(command);
                assert_eq!(self.drive(step), (None, None));
                true
            }
            None => false,
        }
    }

    fn check(&self, raw: &str) -> Response {
        let host = match self.sm.normalized(NormalizeFor::Check, normalize_host(raw)) {
            Step::Cover { host, entries } => {
                let covers = entries.iter().map(|e| domain_covers(e, &host)).collect();
                self.sm.covered(host, covers)
            }
            other => other,
        };
        match host {
            Step::Resolve(snapshot) => snapshot.reply(self.backend.resolve()),
            Step::Reply(response) => response,
            other => panic!("unexpected step {other:?}"),
        }
    }

    fn read_back(&self) -> Response {
        let Step::ReadBack { interface, applied } = self.sm.verify() else {
            panic!("expected a read-back");
        };
        let live = live_state(interface.and_then(|i| self.backend.read_link_state(&i)));
        let drift = compare_drift(&live, applied);
        Response::Verify(VerifyInfo { live, drift })
    }
}

fn machine_with_store(
    backend: Arc<MockBackend>,
    store: FakeConfigStore,
    cfg: LocalConfig,
) -> Daemon {
    Daemon::new(backend, None, store, cfg)
}

fn machine(backend: Arc<MockBackend>, cfg: LocalConfig, _tag: &str) -> Daemon {
    Daemon::new(backend, None, FakeConfigStore::new(cfg.clone()), cfg)
}

fn rearm_machine(
    backend: Arc<MockBackend>,
    shared: Arc<MockDetectorShared>,
    cfg: LocalConfig,
    _tag: &str,
) -> Daemon {
    Daemon::new(backend, Some(shared), FakeConfigStore::new(cfg.clone()), cfg)
}

fn no_openvpn() -> OpenVpnConfig {
    OpenVpnConfig { management: String::new(), management_password_file: None }
}

fn config(enabled: bool, hosts: &[&str]) -> LocalConfig {
    LocalConfig {
        vpn_name: "wg0".to_string(),
        vpn_hosts: hosts.iter().map(|s| s.to_string()).collect(),
        enabled,
        vpn_backend: VpnBackend::NetworkManager,
        openvpn: no_openvpn(),
        fallback_dns: None,
    }
}

fn vpn_up(interface: &str) -> VpnEvent {
    VpnEvent::Up(VpnInfo {
        interface_name: interface.to_string(),
        dns_servers: vec!["10.0.0.1".to_string()],
        demote_target: None,
    })
}

fn vpn_down(interface: &str) -> VpnEvent {
    VpnEvent::Down { interface_name: interface.to_string() }
}

/// An up that comes with a fallback for the default resolver.
fn vpn_up_macos(interface: &str, demote_target: &[&str]) -> VpnEvent {
    VpnEvent::Up(VpnInfo {
        interface_name: interface.to_string(),
        dns_servers: vec!["192.0.2.53".to_string()],
        demote_target: Some(demote_target.iter().map(|s| s.to_string()).collect()),
    })
}

#[test]
fn enabled_and_up_applies() {
    let backend = Arc::new(MockBackend::default());
    let mut sm = machine(
        backend.clone(),
        config(true, &["a.com", "b.com"]),
        "up-applies",
    );

    sm.on_event(vpn_up("wg0"));

    let applies = backend.applies.lock().unwrap();
    assert_eq!(applies.len(), 1);
    assert_eq!(applies[0].0, "wg0");
    assert_eq!(applies[0].1, vec!["a.com", "b.com"]);
    assert!(sm.applied.is_some());
}

#[test]
fn disabled_at_startup_does_not_apply() {
    let backend = Arc::new(MockBackend::default());
    let mut sm = machine(
        backend.clone(),
        config(false, &["a.com"]),
        "disabled-no-apply",
    );

    sm.on_event(vpn_up("wg0"));

    assert!(backend.applies.lock().unwrap().is_empty());
    assert!(sm.applied.is_none());
}

#[test]
fn startup_reconciles_orphaned_demote_for_a_global_revert_backend() {
    // A macOS-style backend persists its default-DNS demote across an unclean
    // exit, so the daemon reverts any orphaned state once at startup — a
    // suppressed initial Down would otherwise never clear it.
    let backend = Arc::new(MockBackend::default());
    backend.set_reverts_globally(true);
    let mut sm = machine(
        backend.clone(),
        config(true, &["a.com"]),
        "startup-cleanup-global",
    );

    sm.cleanup_orphaned_state_on_startup();

    assert_eq!(
        backend.reverts.lock().unwrap().as_slice(),
        &["wg0"],
        "the global-revert backend is reconciled once at boot"
    );
    assert!(
        sm.applied.is_none(),
        "cleanup records nothing as applied — it only clears a prior process's state"
    );
    assert!(
        !sm.pending_global_cleanup,
        "a successful cleanup leaves nothing pending"
    );
}

#[test]
fn startup_skips_cleanup_for_a_per_interface_backend() {
    // A per-interface backend (Linux) keeps no cross-restart persisted state of
    // this kind, so startup must not issue a spurious revert.
    let backend = Arc::new(MockBackend::default()); // reverts_globally == false
    let mut sm = machine(
        backend.clone(),
        config(true, &["a.com"]),
        "startup-cleanup-skip",
    );

    sm.cleanup_orphaned_state_on_startup();

    assert!(
        backend.reverts.lock().unwrap().is_empty(),
        "a per-interface backend is not reverted at boot"
    );
}

#[test]
fn failed_startup_cleanup_is_retried_on_a_later_reconcile() {
    // P2: the startup cleanup fails transiently. Because `applied` is None an
    // ordinary reconcile's revert() would be a no-op — but the pending flag
    // makes the next revert retry the global cleanup until it succeeds, so an
    // orphaned demote is not stranded until a full VPN up→down cycle.
    let backend = Arc::new(MockBackend::default());
    backend.set_reverts_globally(true);
    backend.set_fail_revert(true); // the startup cleanup fails
    let mut sm = machine(
        backend.clone(),
        config(true, &["a.com"]),
        "startup-cleanup-retry",
    );

    sm.cleanup_orphaned_state_on_startup();
    assert!(
        sm.pending_global_cleanup,
        "a failed cleanup is recorded as pending"
    );
    assert_eq!(
        backend.reverts.lock().unwrap().len(),
        1,
        "the failing attempt still issued a revert"
    );

    // A later reconcile (VPN still down, nothing applied) retries the cleanup,
    // which now succeeds and clears the pending flag.
    backend.set_fail_revert(false);
    sm.on_event(vpn_down("wg0"));
    assert!(
        !sm.pending_global_cleanup,
        "a successful retry clears the pending flag"
    );
    assert_eq!(
        backend.reverts.lock().unwrap().len(),
        2,
        "the cleanup is retried until it succeeds"
    );
}

#[test]
fn a_cleanup_that_waits_for_a_revert_is_done_at_the_event_after() {
    let backend = Arc::new(MockBackend::default());
    backend.set_reverts_globally(true);
    backend.set_fail_revert(true);
    backend.set_fail_apply(true);
    let mut sm = machine(backend.clone(), config(true, &["a.com"]), "cleanup-waits");
    sm.cleanup_orphaned_state_on_startup();
    sm.on_event(vpn_up("wg0"));
    backend.set_fail_revert(false);
    backend.set_fail_apply(false);

    // The first reverts what the failed apply may have left.
    sm.on_event(vpn_down("wg0"));
    assert!(sm.pending_global_cleanup);
    assert_eq!(sm.status().applied, None);

    sm.on_event(vpn_down("wg0"));
    assert!(!sm.pending_global_cleanup);
    assert_eq!(backend.reverts.lock().unwrap().len(), 3);
}

#[test]
fn down_reverts() {
    let backend = Arc::new(MockBackend::default());
    let mut sm = machine(backend.clone(), config(true, &["a.com"]), "down-reverts");

    sm.on_event(vpn_up("wg0"));
    sm.on_event(VpnEvent::Down {
        interface_name: "wg0".to_string(),
    })
    ;

    assert_eq!(backend.reverts.lock().unwrap().as_slice(), &["wg0"]);
    assert!(sm.applied.is_none());
}

#[test]
fn detected_dns_reported_independent_of_apply() {
    // The configured interface is up and pushing DNS, but routing is disabled
    // (nothing applied). `detected_dns` must still report the interface's DNS —
    // that is the field's whole point (the DNS-auto readout the GUI shows in the
    // off/empty states), distinct from `applied` which is None here.
    let backend = Arc::new(MockBackend::default());
    let mut sm = machine(
        backend.clone(),
        config(false, &["a.com"]),
        "detected-dns-off",
    );

    sm.on_event(vpn_up("wg0"));

    assert!(sm.applied.is_none(), "disabled: nothing applied");
    assert_eq!(sm.status().detected_dns, vec!["10.0.0.1".to_string()]);
}

#[test]
fn detected_dns_cleared_when_vpn_goes_down() {
    // A `Down` event only flips `vpn_up` and leaves `last_info` populated, so
    // `status()` must gate `detected_dns` on `vpn_up` — otherwise a
    // disconnected VPN would keep reporting its last DNS as "detected".
    let backend = Arc::new(MockBackend::default());
    let mut sm = machine(
        backend.clone(),
        config(true, &["a.com"]),
        "detected-dns-down",
    );

    sm.on_event(vpn_up("wg0"));
    assert_eq!(sm.status().detected_dns, vec!["10.0.0.1".to_string()]);

    sm.on_event(VpnEvent::Down {
        interface_name: "wg0".to_string(),
    })
    ;
    assert!(
        sm.status().detected_dns.is_empty(),
        "a down interface must report no detected DNS (gated on vpn_up)"
    );
}

#[test]
fn detected_dns_ignores_a_non_configured_interface() {
    // A `last_info` reading for an interface other
    // than the configured `vpn_name` (config uses "wg0") must not leak through
    // as detected DNS, even while that other interface is up.
    let backend = Arc::new(MockBackend::default());
    let mut sm = machine(
        backend.clone(),
        config(true, &["a.com"]),
        "detected-dns-iface",
    );

    sm.on_event(vpn_up("eth9")); // up, but not the configured interface
    assert!(sm.vpn_up);
    assert!(
        sm.status().detected_dns.is_empty(),
        "detected DNS must be attributed only to the configured interface"
    );
}

#[test]
fn dns_server_change_reapplies() {
    let backend = Arc::new(MockBackend::default());
    let mut sm = machine(backend.clone(), config(true, &["a.com"]), "dns-rotate");

    sm.on_event(vpn_up("wg0")); // applies with 10.0.0.1
                                      // Same interface and domains, but the VPN's DNS server rotated: this is
                                      // not "already converged" — the rules must be re-applied.
    sm.on_event(VpnEvent::Up(VpnInfo {
        interface_name: "wg0".to_string(),
        dns_servers: vec!["10.9.9.9".to_string()],
        demote_target: None,
    }))
    ;

    assert_eq!(
        backend.applies.lock().unwrap().len(),
        2,
        "a DNS server change must trigger a re-apply"
    );
}

#[test]
fn disable_request_reverts() {
    let backend = Arc::new(MockBackend::default());
    let mut sm = machine(backend.clone(), config(true, &["a.com"]), "disable-reverts");

    sm.on_event(vpn_up("wg0"));
    let resp = sm.on_request(Request::Disable);

    assert_eq!(resp, Response::Done);
    assert_eq!(backend.reverts.lock().unwrap().as_slice(), &["wg0"]);
    assert!(sm.applied.is_none());
    // Disable is persisted.
    let saved = sm.config_store.load().unwrap();
    assert!(!saved.enabled);
}

#[test]
fn add_domain_while_up_reapplies() {
    let backend = Arc::new(MockBackend::default());
    let mut sm = machine(backend.clone(), config(true, &["a.com"]), "add-reapplies");

    sm.on_event(vpn_up("wg0"));
    let resp = sm.on_request(Request::AddDomain("b.com".to_string()));

    assert_eq!(resp, Response::Done);
    let applies = backend.applies.lock().unwrap();
    assert_eq!(applies.len(), 2);
    assert_eq!(applies[1].1, vec!["a.com", "b.com"]);
    // Persisted.
    let saved = sm.config_store.load().unwrap();
    assert_eq!(saved.vpn_hosts, vec!["a.com", "b.com"]);
}

#[test]
fn add_duplicate_domain_is_rejected() {
    let backend = Arc::new(MockBackend::default());
    let mut sm = machine(backend.clone(), config(true, &["a.com"]), "add-dup");

    sm.on_event(vpn_up("wg0"));
    let resp = sm.on_request(Request::AddDomain("a.com".to_string()));

    assert!(matches!(resp, Response::Error(_)));
    // No re-apply happened.
    assert_eq!(backend.applies.lock().unwrap().len(), 1);
}

#[test]
fn remove_absent_domain_is_noop_success() {
    let backend = Arc::new(MockBackend::default());
    let mut sm = machine(backend.clone(), config(true, &["a.com"]), "remove-absent");

    sm.on_event(vpn_up("wg0"));
    let applies_before = backend.applies.lock().unwrap().len();
    let resp = sm
        .on_request(Request::RemoveDomain("z.com".to_string()))
        ;

    assert_eq!(resp, Response::Done);
    // No re-apply for an absent removal.
    assert_eq!(backend.applies.lock().unwrap().len(), applies_before);
}

#[test]
fn empty_domain_list_does_not_apply() {
    let backend = Arc::new(MockBackend::default());
    let mut sm = machine(backend.clone(), config(true, &[]), "empty-no-apply");

    sm.on_event(vpn_up("wg0"));

    // Nothing to route → nothing applied (an empty `resolvectl domain`
    // would not clear anything anyway).
    assert!(backend.applies.lock().unwrap().is_empty());
    assert!(sm.applied.is_none());
}

#[test]
fn up_with_no_dns_does_not_apply_or_revert() {
    let backend = Arc::new(MockBackend::default());
    let mut sm = machine(backend.clone(), config(true, &["a.com"]), "up-no-dns");

    // A standalone OpenVPN up whose PUSH_REPLY carried no DNS: there is
    // nowhere to route, so nothing is applied — and crucially nothing is
    // marked applied, so no later `resolvectl revert` runs against
    // resolver state Splitway never set.
    sm.on_event(VpnEvent::Up(VpnInfo {
        interface_name: "wg0".to_string(),
        dns_servers: Vec::new(),
        demote_target: None,
    }))
    ;

    assert!(backend.applies.lock().unwrap().is_empty());
    assert!(backend.reverts.lock().unwrap().is_empty());
    assert!(sm.applied.is_none());

    // A following Down must likewise not revert (nothing was ever applied).
    sm.on_event(VpnEvent::Down {
        interface_name: "wg0".to_string(),
    })
    ;
    assert!(backend.reverts.lock().unwrap().is_empty());
    assert!(sm.applied.is_none());
}

#[test]
fn up_losing_dns_reverts_prior_rules() {
    let backend = Arc::new(MockBackend::default());
    let mut sm = machine(backend.clone(), config(true, &["a.com"]), "up-loses-dns");

    // First session pushes DNS and applies.
    sm.on_event(vpn_up("wg0"));
    assert!(sm.applied.is_some());

    // The session re-pushes with no DNS (or a new no-DNS session on the same
    // interface): the prior split-DNS now points at gone servers, so it must
    // be reverted rather than left stale.
    sm.on_event(VpnEvent::Up(VpnInfo {
        interface_name: "wg0".to_string(),
        dns_servers: Vec::new(),
        demote_target: None,
    }))
    ;

    assert_eq!(backend.reverts.lock().unwrap().as_slice(), &["wg0"]);
    assert!(sm.applied.is_none());
}

#[test]
fn removing_last_domain_reverts() {
    let backend = Arc::new(MockBackend::default());
    let mut sm = machine(backend.clone(), config(true, &["a.com"]), "remove-last");

    sm.on_event(vpn_up("wg0"));
    assert!(sm.applied.is_some());

    let resp = sm
        .on_request(Request::RemoveDomain("a.com".to_string()))
        ;

    assert_eq!(resp, Response::Done);
    // The last domain is gone → revert rather than apply an empty set.
    assert_eq!(backend.reverts.lock().unwrap().as_slice(), &["wg0"]);
    assert!(sm.applied.is_none());
}

#[test]
fn reload_changing_interface_reverts_old() {
    let backend = Arc::new(MockBackend::default());
    let mut sm = machine(backend.clone(), config(true, &["a.com"]), "reload-iface");

    sm.on_event(vpn_up("wg0"));
    assert!(sm.applied.is_some());

    // Operator changes the configured interface and reloads.
    let new_cfg = LocalConfig {
        vpn_name: "wg1".to_string(),
        vpn_hosts: vec!["a.com".to_string()],
        enabled: true,
        vpn_backend: VpnBackend::NetworkManager,
        openvpn: no_openvpn(),
        fallback_dns: None,
    };
    sm.config_store.save(&new_cfg).unwrap();
    let resp = sm.on_request(Request::ReloadConfig);

    assert_eq!(resp, Response::Done);
    // The old interface's rules are reverted before the new watch is armed.
    // Nothing is applied to the new interface in this test because its watch
    // produces no events here (the live-switch apply on the new interface is
    // covered by the mock-detector re-arm tests below).
    assert_eq!(backend.reverts.lock().unwrap().as_slice(), &["wg0"]);
    assert!(sm.applied.is_none());
}

#[test]
fn shutdown_reverts_applied_rules() {
    let backend = Arc::new(MockBackend::default());
    let mut sm = machine(
        backend.clone(),
        config(true, &["a.com"]),
        "shutdown-reverts",
    );

    sm.on_event(vpn_up("wg0"));
    let clean = sm.shutdown();

    assert!(clean);
    assert_eq!(backend.reverts.lock().unwrap().as_slice(), &["wg0"]);
    assert!(sm.applied.is_none());
}

#[test]
fn status_reflects_state() {
    let backend = Arc::new(MockBackend::default());
    let mut sm = machine(backend.clone(), config(true, &["a.com"]), "status");

    sm.on_event(vpn_up("wg0"));
    let Response::Status(info) = sm.on_request(Request::Status) else {
        panic!("expected Status response");
    };
    assert!(info.enabled);
    assert!(info.vpn_up);
    // `applied` is now the wire mapping: Some when rules are applied, with
    // the interface / domains / DNS the daemon believes it installed.
    let applied = info.applied.expect("rules should be applied");
    assert_eq!(applied.interface, "wg0");
    assert_eq!(applied.domains, vec!["a.com"]);
    assert_eq!(applied.dns_servers, vec!["10.0.0.1"]);
    assert_eq!(info.routing_state, RoutingState::Applied);
    assert_eq!(info.interface, "wg0");
    assert_eq!(info.domains, vec!["a.com"]);
}

#[test]
fn failed_first_apply_records_a_cleanup_target() {
    let backend = Arc::new(MockBackend {
        fail_apply: AtomicBool::new(true),
        ..Default::default()
    });
    let mut sm = machine(backend.clone(), config(true, &["a.com"]), "apply-fails");

    sm.on_event(vpn_up("wg0"));

    // Even on the first apply, the backend may have changed the system
    // before returning Err (e.g. resolvectl `dns` set, `domain` failed, and
    // the rollback also failed). The machine records the interface as
    // needing cleanup rather than assuming the failed apply left the system
    // untouched, so a later down/disable/shutdown still reverts it.
    assert!(sm.applied.is_some());

    backend.set_fail_apply(false);
    sm.on_event(VpnEvent::Down {
        interface_name: "wg0".to_string(),
    })
    ;
    assert_eq!(backend.reverts.lock().unwrap().as_slice(), &["wg0"]);
    assert!(sm.applied.is_none());
}

#[test]
fn failed_reapply_preserves_previous_applied_state() {
    let backend = Arc::new(MockBackend::default());
    let mut sm = machine(backend.clone(), config(true, &["a.com"]), "reapply-fails");

    // First apply succeeds.
    sm.on_event(vpn_up("wg0"));
    assert!(sm.applied.is_some());

    // A re-apply (triggered by adding a domain) now fails...
    backend.set_fail_apply(true);
    let resp = sm.on_request(Request::AddDomain("b.com".to_string()));
    assert!(matches!(resp, Response::Error(_)));

    // ...the previous applied snapshot is retained (the old rules may
    // still be installed), so a later revert still runs against it.
    assert!(sm.applied.is_some());
    backend.set_fail_apply(false);
    sm.on_event(VpnEvent::Down {
        interface_name: "wg0".to_string(),
    })
    ;
    assert_eq!(backend.reverts.lock().unwrap().as_slice(), &["wg0"]);
    assert!(sm.applied.is_none());
}

#[test]
fn shutdown_revert_failure_reports_unclean() {
    let backend = Arc::new(MockBackend {
        fail_revert: AtomicBool::new(true),
        ..Default::default()
    });
    let mut sm = machine(
        backend.clone(),
        config(true, &["a.com"]),
        "shutdown-revert-fails",
    );

    sm.on_event(vpn_up("wg0"));
    let clean = sm.shutdown();

    // Revert failed: shutdown reports unclean and keeps `applied` set.
    assert!(!clean);
    assert!(sm.applied.is_some());
}

#[test]
fn repeated_disable_retries_a_failed_revert() {
    let backend = Arc::new(MockBackend {
        fail_revert: AtomicBool::new(true),
        ..Default::default()
    });
    let mut sm = machine(backend.clone(), config(true, &["a.com"]), "disable-retry");

    sm.on_event(vpn_up("wg0"));
    assert!(sm.applied.is_some());

    // First disable persists enabled=false but the revert fails.
    let first = sm.on_request(Request::Disable);
    assert!(matches!(first, Response::Error(_)));
    assert!(sm.applied.is_some());

    // The backend recovers; a repeated `disable` (config unchanged) must
    // still reconcile and retry the revert rather than reporting success.
    backend.set_fail_revert(false);
    let second = sm.on_request(Request::Disable);
    assert_eq!(second, Response::Done);
    assert!(sm.applied.is_none());
}

#[test]
fn config_mutation_reports_apply_failure_but_still_persists() {
    let backend = Arc::new(MockBackend {
        fail_apply: AtomicBool::new(true),
        ..Default::default()
    });
    let mut sm = machine(
        backend.clone(),
        config(true, &["a.com"]),
        "commit-apply-fails",
    );

    sm.on_event(vpn_up("wg0")); // first apply fails
    let resp = sm.on_request(Request::AddDomain("b.com".to_string()));

    // The re-apply fails, so the caller is told so rather than "ok"...
    assert!(matches!(resp, Response::Error(_)));
    // ...but the config change is still persisted to disk.
    let saved = sm.config_store.load().unwrap();
    assert_eq!(saved.vpn_hosts, vec!["a.com", "b.com"]);
}

#[test]
fn reapply_after_failed_apply_even_when_target_matches_stale_snapshot() {
    // Regression: a failed re-apply (which a real backend rolls back, so the
    // link is left clean) must not strand the system. If a later change
    // makes the desired target equal the pre-failure `applied` snapshot, the
    // machine must still re-apply rather than treat it as already converged.
    let backend = Arc::new(MockBackend::default());
    let mut sm = machine(
        backend.clone(),
        config(true, &["a.com"]),
        "resync-after-apply",
    );

    // First apply succeeds: applied = {wg0, [a.com], [10.0.0.1]}.
    sm.on_event(vpn_up("wg0"));
    assert_eq!(backend.applies.lock().unwrap().len(), 1);

    // Add a domain; the re-apply fails (the backend would have rolled the
    // link back to clean, but `applied` still names the old snapshot).
    backend.set_fail_apply(true);
    let resp = sm.on_request(Request::AddDomain("b.com".to_string()));
    assert!(matches!(resp, Response::Error(_)));

    // Remove the just-added domain so the desired target equals the OLD
    // snapshot again. The prior failure must force a re-apply.
    backend.set_fail_apply(false);
    let resp = sm
        .on_request(Request::RemoveDomain("b.com".to_string()))
        ;
    assert_eq!(resp, Response::Done);
    assert_eq!(
        backend.applies.lock().unwrap().len(),
        2,
        "a target equal to a stale post-failure snapshot must still re-apply"
    );
    assert!(sm.applied.is_some());
}

#[test]
fn reapply_on_reconnect_after_a_failed_revert() {
    // Regression: a `Down` whose `revert` fails (e.g. the link already
    // vanished) keeps `applied` set so shutdown can retry. When the VPN
    // reconnects with identical params, the new link carries none of our
    // rules — so the matching snapshot must not be treated as converged; the
    // machine must re-apply.
    let backend = Arc::new(MockBackend::default());
    let mut sm = machine(
        backend.clone(),
        config(true, &["a.com"]),
        "resync-after-revert",
    );

    sm.on_event(vpn_up("wg0"));
    assert_eq!(backend.applies.lock().unwrap().len(), 1);

    // Down with a failing revert: the snapshot is retained.
    backend.set_fail_revert(true);
    sm.on_event(VpnEvent::Down {
        interface_name: "wg0".to_string(),
    })
    ;
    assert!(sm.applied.is_some());

    // Reconnect with the same interface, domains, and DNS servers.
    backend.set_fail_revert(false);
    sm.on_event(vpn_up("wg0"));
    assert_eq!(
        backend.applies.lock().unwrap().len(),
        2,
        "a reconnect after a failed revert must re-apply on the new link"
    );
    assert!(sm.applied.is_some());
}

#[test]
fn get_config_returns_editable_projection() {
    let backend = Arc::new(MockBackend::default());
    let mut cfg = config(true, &["a.com"]);
    cfg.vpn_backend = VpnBackend::OpenVpn;
    cfg.openvpn = OpenVpnConfig {
        management: "127.0.0.1:7505".to_string(),
        management_password_file: Some("/etc/mgmt.pass".to_string()),
    };
    let mut sm = machine(backend.clone(), cfg, "get-config");

    let Response::Config(view) = sm.on_request(Request::GetConfig) else {
        panic!("expected Config response");
    };
    assert_eq!(view.vpn_name, "wg0");
    assert_eq!(view.vpn_backend, VpnBackend::OpenVpn);
    assert_eq!(view.openvpn_management, "127.0.0.1:7505");
    assert_eq!(
        view.openvpn_management_password_file.as_deref(),
        Some("/etc/mgmt.pass")
    );
    // The daemon reports its effective config path, informational only.
    assert_eq!(view.config_path, sm.config_store.describe());
}

#[test]
fn set_config_updates_fields_persists_and_preserves_domains_and_enabled() {
    let backend = Arc::new(MockBackend::default());
    let mut sm = machine(
        backend.clone(),
        config(true, &["a.com", "b.com"]),
        "set-config",
    );

    let view = ConfigView {
        vpn_name: "tun9".to_string(),
        vpn_backend: VpnBackend::OpenVpn,
        openvpn_management: "/run/ovpn.sock".to_string(),
        openvpn_management_password_file: None,
        // A path here must be ignored: the active file is fixed at launch.
        config_path: "/ignored/by/the/daemon.json".to_string(),
    };
    let resp = sm.on_request(Request::SetConfig(view));
    assert_eq!(resp, Response::Done);

    // The editable fields are updated...
    assert_eq!(sm.config.vpn_name, "tun9");
    assert_eq!(sm.config.vpn_backend, VpnBackend::OpenVpn);
    assert_eq!(sm.config.openvpn.management, "/run/ovpn.sock");
    assert!(sm.config.openvpn.management_password_file.is_none());
    // ...the domain list and `enabled` (owned by the other verbs) survive...
    assert_eq!(sm.config.vpn_hosts, vec!["a.com", "b.com"]);
    assert!(sm.config.enabled);
    // ...and the change is persisted to the active file (whose path the
    // incoming view did not alter).
    let saved = sm.config_store.load().unwrap();
    assert_eq!(saved.vpn_name, "tun9");
    assert_eq!(saved.vpn_hosts, vec!["a.com", "b.com"]);
    assert!(saved.enabled);
    assert_eq!(saved.openvpn.management, "/run/ovpn.sock");
}

#[test]
fn set_config_rejects_openvpn_without_management() {
    let backend = Arc::new(MockBackend::default());
    let mut sm = machine(
        backend.clone(),
        config(true, &["a.com"]),
        "set-config-invalid",
    );

    let view = ConfigView {
        vpn_name: "tun0".to_string(),
        vpn_backend: VpnBackend::OpenVpn,
        openvpn_management: "   ".to_string(), // empty/whitespace → unusable
        openvpn_management_password_file: None,
        config_path: String::new(),
    };
    let resp = sm.on_request(Request::SetConfig(view));

    // Rejected at the boundary before commit: nothing is adopted in memory
    // (and nothing is persisted, since commit never runs).
    assert!(matches!(resp, Response::Error(_)));
    assert_eq!(sm.config.vpn_backend, VpnBackend::NetworkManager);
    assert!(sm.config.openvpn.management.is_empty());
}

#[test]
fn set_config_over_group_socket_rejects_openvpn_file_field_changes() {
    // With a group-accessible socket, a non-root in-group caller must not be
    // able to repoint the OpenVPN management endpoint or password file: the
    // root daemon reads that file and sends its first line to that endpoint,
    // so allowing it would be an arbitrary-root-file exfiltration primitive
    // (point password_file at /etc/shadow + management at one's own listener).
    let backend = Arc::new(MockBackend::default());
    let mut sm = machine(
        backend.clone(),
        config(true, &["a.com"]),
        "group-lock-reject",
    );
    sm.socket_group_locked = true;

    let view = ConfigView {
        vpn_name: "tun0".to_string(),
        vpn_backend: VpnBackend::OpenVpn,
        openvpn_management: "/tmp/attacker.sock".to_string(),
        openvpn_management_password_file: Some("/etc/shadow".to_string()),
        config_path: String::new(),
    };
    let resp = sm.on_request(Request::SetConfig(view));

    // Rejected before commit: nothing adopted, nothing persisted.
    assert!(matches!(resp, Response::Error(_)), "got: {resp:?}");
    assert_eq!(sm.config.vpn_backend, VpnBackend::NetworkManager);
    assert!(sm.config.openvpn.management.is_empty());
    assert!(sm.config.openvpn.management_password_file.is_none());
}

#[test]
fn set_config_over_group_socket_allows_unchanged_openvpn_fields() {
    // The lock rejects only *changes* to those fields, so a client that
    // round-trips the current values (while editing vpn_name) still works.
    let backend = Arc::new(MockBackend::default());
    let mut cfg = config(true, &["a.com"]);
    cfg.vpn_backend = VpnBackend::OpenVpn;
    cfg.openvpn = OpenVpnConfig {
        management: "/run/ovpn.sock".to_string(),
        management_password_file: Some("/etc/splitway/mgmt.pass".to_string()),
    };
    let mut sm = machine(backend.clone(), cfg, "group-lock-allow");
    sm.socket_group_locked = true;

    let view = ConfigView {
        vpn_name: "tun9".to_string(),
        vpn_backend: VpnBackend::OpenVpn,
        // The OpenVPN fields are resent unchanged; only vpn_name differs.
        openvpn_management: "/run/ovpn.sock".to_string(),
        openvpn_management_password_file: Some("/etc/splitway/mgmt.pass".to_string()),
        config_path: String::new(),
    };
    let resp = sm.on_request(Request::SetConfig(view));

    assert_eq!(resp, Response::Done);
    assert_eq!(sm.config.vpn_name, "tun9");
    assert_eq!(sm.config.openvpn.management, "/run/ovpn.sock");
}

#[test]
fn set_config_over_group_socket_rejects_activating_openvpn_with_existing_fields() {
    // Even without *changing* the OpenVPN fields, an in-group caller must not
    // be able to *activate* the backend by flipping vpn_backend to OpenVpn and
    // reusing root's leftover values: the configured endpoint may be a
    // localhost port the caller can squat while real OpenVPN is down, so the
    // root daemon would read the password file and send its first line to them.
    let backend = Arc::new(MockBackend::default());
    let mut cfg = config(true, &["a.com"]);
    // Backend is NetworkManager, but openvpn fields are populated (left over
    // from a prior OpenVPN setup) — the exact precondition for the attack.
    cfg.vpn_backend = VpnBackend::NetworkManager;
    cfg.openvpn = OpenVpnConfig {
        management: "127.0.0.1:7505".to_string(),
        management_password_file: Some("/etc/splitway/mgmt.pass".to_string()),
    };
    let mut sm = machine(backend.clone(), cfg, "group-lock-activate");
    sm.socket_group_locked = true;

    let view = ConfigView {
        vpn_name: "wg0".to_string(),
        // Activate OpenVpn while resending the *unchanged* leftover fields.
        vpn_backend: VpnBackend::OpenVpn,
        openvpn_management: "127.0.0.1:7505".to_string(),
        openvpn_management_password_file: Some("/etc/splitway/mgmt.pass".to_string()),
        config_path: String::new(),
    };
    let resp = sm.on_request(Request::SetConfig(view));

    // Rejected: activation is blocked even though no field value changed.
    assert!(matches!(resp, Response::Error(_)), "got: {resp:?}");
    assert_eq!(sm.config.vpn_backend, VpnBackend::NetworkManager);
}

// --- Phase 5: re-arm decision, routing-state mapping, generation guard ---

#[test]
fn watch_settings_changed_detects_only_watch_fields() {
    let base = config(true, &["a.com"]);
    assert!(!watch_settings_changed(&base, &base.clone()));

    // Domain / `enabled` edits do NOT require a re-arm (the watch is not
    // keyed on them — they only change `desired()`).
    let mut more_domains = base.clone();
    more_domains.vpn_hosts.push("b.com".to_string());
    assert!(!watch_settings_changed(&base, &more_domains));
    let mut disabled = base.clone();
    disabled.enabled = false;
    assert!(!watch_settings_changed(&base, &disabled));

    // vpn_name / vpn_backend / openvpn changes DO.
    let mut iface = base.clone();
    iface.vpn_name = "wg1".to_string();
    assert!(watch_settings_changed(&base, &iface));
    let mut backend = base.clone();
    backend.vpn_backend = VpnBackend::OpenVpn;
    assert!(watch_settings_changed(&base, &backend));
    let mut ovpn = base.clone();
    ovpn.openvpn.management = "127.0.0.1:7505".to_string();
    assert!(watch_settings_changed(&base, &ovpn));
}

#[test]
fn routing_state_maps_each_branch() {
    // Disabled.
    let sm = machine(
        Arc::new(MockBackend::default()),
        config(false, &["a.com"]),
        "rs-disabled",
    );
    assert_eq!(sm.routing_state(), RoutingState::Disabled);

    // No domains configured.
    let sm = machine(
        Arc::new(MockBackend::default()),
        config(true, &[]),
        "rs-nodomains",
    );
    assert_eq!(sm.routing_state(), RoutingState::NoDomains);

    // Enabled + domains but the VPN is not up.
    let sm = machine(
        Arc::new(MockBackend::default()),
        config(true, &["a.com"]),
        "rs-down",
    );
    assert_eq!(sm.routing_state(), RoutingState::VpnDown);

    // Up, but the VPN pushed no DNS.
    let mut sm = machine(
        Arc::new(MockBackend::default()),
        config(true, &["a.com"]),
        "rs-nodns",
    );
    sm.on_event(VpnEvent::Up(VpnInfo {
        interface_name: "wg0".to_string(),
        dns_servers: Vec::new(),
        demote_target: None,
    }))
    ;
    assert_eq!(sm.routing_state(), RoutingState::NoDnsFromVpn);

    // Up with DNS and rules applied.
    let mut sm = machine(
        Arc::new(MockBackend::default()),
        config(true, &["a.com"]),
        "rs-applied",
    );
    sm.on_event(vpn_up("wg0"));
    assert_eq!(sm.routing_state(), RoutingState::Applied);

    // Up with DNS but the apply failed (needs_resync).
    let backend = Arc::new(MockBackend {
        fail_apply: AtomicBool::new(true),
        ..Default::default()
    });
    let mut sm = machine(backend, config(true, &["a.com"]), "rs-failed");
    sm.on_event(vpn_up("wg0"));
    assert_eq!(sm.routing_state(), RoutingState::ApplyFailed);

    // Disabled, but the disable's revert failed (applied still set,
    // needs_resync): stale DNS may linger, so this must read ApplyFailed
    // rather than a clean Disabled.
    let backend = Arc::new(MockBackend::default());
    let mut sm = machine(backend.clone(), config(true, &["a.com"]), "rs-disable-fail");
    sm.on_event(vpn_up("wg0"));
    backend.set_fail_revert(true);
    let _ = sm.on_request(Request::Disable);
    assert!(!sm.config.enabled);
    assert!(sm.applied.is_some() && sm.needs_resync);
    assert_eq!(sm.routing_state(), RoutingState::ApplyFailed);

    // A switch whose old-interface revert failed leaves it orphaned while the
    // new interface applies cleanly (applied set, needs_resync false): stale
    // rules linger on the old link, so this must read ApplyFailed rather than
    // a clean Applied.
    let backend = Arc::new(MockBackend::default());
    let mut sm = machine(backend.clone(), config(true, &["a.com"]), "rs-orphan");
    sm.on_event(vpn_up("wg0"));
    backend.set_fail_revert(true);
    let to_wg1 = ConfigView {
        vpn_name: "wg1".to_string(),
        vpn_backend: VpnBackend::NetworkManager,
        openvpn_management: String::new(),
        openvpn_management_password_file: None,
        config_path: String::new(),
    };
    let _ = sm.on_request(Request::SetConfig(to_wg1));
    sm.on_event(vpn_up("wg1"));
    assert_eq!(sm.applied.as_ref().unwrap().interface, "wg1");
    assert_eq!(sm.orphaned, vec!["wg0".to_string()]);
    assert!(!sm.needs_resync);
    assert_eq!(sm.routing_state(), RoutingState::ApplyFailed);
}

#[test]
fn on_vpn_event_ignores_superseded_generation() {
    let backend = Arc::new(MockBackend::default());
    let mut sm = machine(backend.clone(), config(true, &["a.com"]), "gen-guard");

    // `watch_generation` starts at 0 in this harness (no `arm_watch`). An
    // event tagged with a different generation — a torn-down watch's last
    // gasp — is dropped, so it can never move `vpn_up`.
    sm.on_vpn_event(99, vpn_up("wg0"));
    assert!(!sm.vpn_up);
    assert!(backend.applies.lock().unwrap().is_empty());

    // An event from the current generation is processed normally.
    sm.on_vpn_event(0, vpn_up("wg0"));
    assert!(sm.vpn_up);
    assert_eq!(backend.applies.lock().unwrap().len(), 1);
}

#[test]
fn rearm_switches_interface_reverts_old_and_applies_new() {
    let backend = Arc::new(MockBackend::default());
    let shared = Arc::new(MockDetectorShared::default());
    let mut sm = rearm_machine(
        backend.clone(),
        shared.clone(),
        config(true, &["a.com"]),
        "rearm-switch",
    );

    // Startup arm (generation 1) for wg0; its streamed sample applies on wg0.
    sm.arm_watch();
    assert!(
        sm.pump_one_command(),
        "wg0 sample expected"
    );
    {
        let applies = backend.applies.lock().unwrap();
        assert_eq!(applies.len(), 1);
        assert_eq!(applies[0].0, "wg0");
    }
    assert!(sm.vpn_up);

    // Switch the configured interface to wg1.
    let view = ConfigView {
        vpn_name: "wg1".to_string(),
        vpn_backend: VpnBackend::NetworkManager,
        openvpn_management: String::new(),
        openvpn_management_password_file: None,
        config_path: String::new(),
    };
    assert_eq!(sm.on_request(Request::SetConfig(view)), Response::Done);

    // The old interface was reverted before the new watch armed.
    assert!(backend.reverts.lock().unwrap().contains(&"wg0".to_string()));

    // The new watch (generation 2) streams its sample → applies on wg1.
    assert!(
        sm.pump_one_command(),
        "wg1 sample expected"
    );
    assert!(backend
        .applies
        .lock()
        .unwrap()
        .iter()
        .any(|(iface, _)| iface == "wg1"));

    // vpn_up + status now track the new interface.
    let Response::Status(info) = sm.on_request(Request::Status) else {
        panic!("expected Status");
    };
    assert!(info.vpn_up);
    assert_eq!(info.applied.as_ref().unwrap().interface, "wg1");
    assert_eq!(info.detector_health, DetectorHealth::Active);
    assert_eq!(info.routing_state, RoutingState::Applied);

    // The old wg0 watch was torn down (it observed the closed channel).
    let wg0 = shared
        .watches
        .lock()
        .unwrap()
        .iter()
        .find(|w| w.interface == "wg0")
        .cloned()
        .expect("wg0 watch recorded");
    assert!(wg0.stopped.load(Ordering::SeqCst));
}

#[test]
fn rearm_failure_sets_detector_error_keeps_ipc_and_reverts_old() {
    let backend = Arc::new(MockBackend::default());
    let shared = Arc::new(MockDetectorShared::default());
    // The new interface's watch will fail to start.
    shared.fail.lock().unwrap().insert("tun9".to_string());
    let mut sm = rearm_machine(
        backend.clone(),
        shared.clone(),
        config(true, &["a.com"]),
        "rearm-fail",
    );

    // Startup arm + sample on wg0.
    sm.arm_watch();
    assert!(sm.pump_one_command());
    assert_eq!(backend.applies.lock().unwrap().len(), 1);

    // Switch to tun9, whose watch cannot start.
    let view = ConfigView {
        vpn_name: "tun9".to_string(),
        vpn_backend: VpnBackend::NetworkManager,
        openvpn_management: String::new(),
        openvpn_management_password_file: None,
        config_path: String::new(),
    };
    // The save + old-interface revert succeeded, so SetConfig returns Ok; the
    // arm failure is surfaced via detector_health, not by failing the save.
    assert_eq!(sm.on_request(Request::SetConfig(view)), Response::Done);
    assert!(backend.reverts.lock().unwrap().contains(&"wg0".to_string()));

    // IPC still answers, reporting the failed detector and no apply on tun9.
    let Response::Status(info) = sm.on_request(Request::Status) else {
        panic!("expected Status");
    };
    assert!(matches!(info.detector_health, DetectorHealth::Error(_)));
    assert!(info.applied.is_none());
    assert!(!info.vpn_up);
    assert_eq!(info.routing_state, RoutingState::VpnDown);

    // The old wg0 watch was still torn down on the failed re-arm, and no
    // watch was ever recorded for tun9 (its `watch` errored first).
    let wg0 = shared
        .watches
        .lock()
        .unwrap()
        .iter()
        .find(|w| w.interface == "wg0")
        .cloned()
        .expect("wg0 watch recorded");
    assert!(wg0.stopped.load(Ordering::SeqCst));
    assert!(shared
        .watches
        .lock()
        .unwrap()
        .iter()
        .all(|w| w.interface != "tun9"));
}

#[test]
fn switch_where_old_revert_fails_orphans_then_cleans_up_the_old_interface() {
    // if the old interface's revert fails during a
    // switch, the new interface's successful apply overwrites `applied` and
    // would forget the old one. It must instead be tracked as orphaned and
    // cleaned up once the backend recovers.
    let backend = Arc::new(MockBackend::default());
    let shared = Arc::new(MockDetectorShared::default());
    let mut sm = rearm_machine(
        backend.clone(),
        shared.clone(),
        config(true, &["a.com"]),
        "rearm-orphan",
    );

    // Apply on wg0.
    sm.arm_watch();
    assert!(sm.pump_one_command());
    assert_eq!(backend.applies.lock().unwrap()[0].0, "wg0");

    // Switch to wg1, but the wg0 revert fails: wg0 is orphaned, not forgotten.
    backend.set_fail_revert(true);
    let view = ConfigView {
        vpn_name: "wg1".to_string(),
        vpn_backend: VpnBackend::NetworkManager,
        openvpn_management: String::new(),
        openvpn_management_password_file: None,
        config_path: String::new(),
    };
    let resp = sm.on_request(Request::SetConfig(view));
    assert!(matches!(resp, Response::Error(_)), "old revert failed");
    assert_eq!(sm.orphaned, vec!["wg0".to_string()]);
    assert!(sm.applied.is_none(), "applied handed off to orphaned");

    // The backend recovers; the new watch's apply on wg1 then drives a
    // reconcile that also retries the orphaned wg0 cleanup.
    backend.set_fail_revert(false);
    assert!(sm.pump_one_command());
    assert!(
        backend
            .applies
            .lock()
            .unwrap()
            .iter()
            .any(|(iface, _)| iface == "wg1"),
        "new interface applied"
    );
    assert!(
        sm.orphaned.is_empty(),
        "the orphaned old interface was cleaned up"
    );
    assert_eq!(
        sm.applied.as_ref().unwrap().interface,
        "wg1",
        "applied now tracks the new interface"
    );
    // wg0 was reverted twice: the failed switch attempt, then the cleanup.
    assert_eq!(
        backend
            .reverts
            .lock()
            .unwrap()
            .iter()
            .filter(|i| *i == "wg0")
            .count(),
        2
    );
}

#[test]
fn switching_back_to_an_orphaned_interface_does_not_revert_freshly_applied_rules() {
    // an interface can be orphaned (its
    // switch-away revert failed) and then become the active interface again
    // (the user switches back) before its cleanup succeeds. Once a fresh `Up`
    // re-applies its rules, the opportunistic orphan cleanup must NOT revert
    // them — that would strip live DNS while `applied` still reports them
    // installed.
    let backend = Arc::new(MockBackend::default());
    let mut sm = machine(
        backend.clone(),
        config(true, &["a.com"]),
        "orphan-switchback",
    );

    // Apply on wg0.
    sm.on_event(vpn_up("wg0"));
    assert_eq!(sm.applied.as_ref().unwrap().interface, "wg0");

    // Switch to wg1 with reverts failing: wg0's revert fails, so it is
    // orphaned (not forgotten) and `applied` is handed off to the new target.
    backend.set_fail_revert(true);
    let to_wg1 = ConfigView {
        vpn_name: "wg1".to_string(),
        vpn_backend: VpnBackend::NetworkManager,
        openvpn_management: String::new(),
        openvpn_management_password_file: None,
        config_path: String::new(),
    };
    assert!(matches!(
        sm.on_request(Request::SetConfig(to_wg1)),
        Response::Error(_)
    ));
    assert_eq!(sm.orphaned, vec!["wg0".to_string()]);
    assert!(sm.applied.is_none());

    // Switch back to wg0 while cleanup is still failing: wg0 stays orphaned
    // and is once again the configured interface. The switch's primary
    // reconcile is a clean no-op (nothing is applied yet), but the orphan
    // revert still fails, so the reply surfaces that lingering cleanup rather
    // than a bare Ok (see `reconcile`).
    let to_wg0 = ConfigView {
        vpn_name: "wg0".to_string(),
        vpn_backend: VpnBackend::NetworkManager,
        openvpn_management: String::new(),
        openvpn_management_password_file: None,
        config_path: String::new(),
    };
    match sm.on_request(Request::SetConfig(to_wg0)) {
        Response::Error(msg) => assert!(
            msg.contains("wg0"),
            "the error should name the still-orphaned interface, got: {msg}"
        ),
        other => panic!("expected Error surfacing the orphan cleanup failure, got {other:?}"),
    }
    assert_eq!(sm.orphaned, vec!["wg0".to_string()]);

    // The backend recovers and wg0 comes back up: the fresh apply owns wg0,
    // and orphan cleanup must skip it rather than revert what was just applied.
    backend.set_fail_revert(false);
    sm.on_event(vpn_up("wg0"));

    assert_eq!(
        sm.applied.as_ref().unwrap().interface,
        "wg0",
        "the re-applied interface is tracked as applied"
    );
    assert!(
        sm.orphaned.is_empty(),
        "wg0 is no longer orphaned — `applied` owns it now"
    );
    // wg0 was reverted exactly twice (the failed switch-away, then the failed
    // orphan retry on switch-back) and NOT a third time after the re-apply.
    assert_eq!(
        backend
            .reverts
            .lock()
            .unwrap()
            .iter()
            .filter(|i| *i == "wg0")
            .count(),
        2,
        "orphan cleanup must not revert the freshly re-applied interface"
    );
    // The final re-apply on wg0 did happen.
    assert!(backend
        .applies
        .lock()
        .unwrap()
        .iter()
        .any(|(iface, _)| iface == "wg0"));
}

#[test]
fn disable_surfaces_an_orphan_cleanup_failure_instead_of_reporting_ok() {
    // when an interface is orphaned by a failed
    // switch, a later action whose own primary reconcile succeeds must not
    // report Ok while the orphan's stale rules still cannot be cleaned. Here
    // Disable's primary reconcile is a clean no-op (nothing is applied), yet
    // the orphan revert keeps failing — `reconcile` folds that failure into
    // its result so the caller is not told the system is clean.
    let backend = Arc::new(MockBackend::default());
    let mut sm = machine(backend.clone(), config(true, &["a.com"]), "orphan-disable");

    // Apply on wg0.
    sm.on_event(vpn_up("wg0"));
    assert_eq!(sm.applied.as_ref().unwrap().interface, "wg0");

    // Switch to wg1 with reverts failing: wg0 is orphaned, applied handed off.
    backend.set_fail_revert(true);
    let to_wg1 = ConfigView {
        vpn_name: "wg1".to_string(),
        vpn_backend: VpnBackend::NetworkManager,
        openvpn_management: String::new(),
        openvpn_management_password_file: None,
        config_path: String::new(),
    };
    assert!(matches!(
        sm.on_request(Request::SetConfig(to_wg1)),
        Response::Error(_)
    ));
    assert_eq!(sm.orphaned, vec!["wg0".to_string()]);
    assert!(sm.applied.is_none());

    // Disable: the primary reconcile reverts nothing (applied is None) and
    // succeeds, but the orphaned wg0 still cannot be reverted — so the reply
    // must be an Error that names wg0, not Ok.
    match sm.on_request(Request::Disable) {
        Response::Error(msg) => assert!(
            msg.contains("wg0"),
            "Disable should surface the orphan cleanup failure, got: {msg}"
        ),
        other => panic!("expected Error surfacing the orphan cleanup failure, got {other:?}"),
    }
    assert_eq!(
        sm.orphaned,
        vec!["wg0".to_string()],
        "the orphan stays tracked for a later retry"
    );

    // Once the backend recovers, the next reconcile (here via re-enable)
    // cleans the orphan and the operation reports Ok again.
    backend.set_fail_revert(false);
    assert_eq!(sm.on_request(Request::Enable), Response::Done);
    assert!(
        sm.orphaned.is_empty(),
        "the orphan is cleaned once the backend recovers"
    );
}

#[test]
fn global_revert_backend_does_not_track_orphans_on_a_failed_switch() {
    // on a backend whose revert is global (macOS
    // removes every managed resolver file regardless of interface), tracking a
    // single orphaned interface is unsafe — the orphan cleanup's revert would
    // also wipe the freshly-applied interface's rules while `applied` still
    // records them. Such a backend must not orphan; the new apply overwrites
    // the shared state instead.
    let backend = Arc::new(MockBackend::default());
    backend.set_reverts_globally(true);
    let mut sm = machine(backend.clone(), config(true, &["a.com"]), "global-revert");

    // Apply on wg0.
    sm.on_event(vpn_up("wg0"));
    assert_eq!(sm.applied.as_ref().unwrap().interface, "wg0");

    // Switch to wg1 with reverts failing: a per-interface backend would orphan
    // wg0, but a global-revert backend must not.
    backend.set_fail_revert(true);
    let to_wg1 = ConfigView {
        vpn_name: "wg1".to_string(),
        vpn_backend: VpnBackend::NetworkManager,
        openvpn_management: String::new(),
        openvpn_management_password_file: None,
        config_path: String::new(),
    };
    let _ = sm.on_request(Request::SetConfig(to_wg1));
    assert!(
        sm.orphaned.is_empty(),
        "a global-revert backend must not track an orphaned interface"
    );

    // wg1 comes up and applies cleanly. Because nothing was orphaned, orphan
    // cleanup never runs a (global) revert that would wipe wg1's fresh rules.
    backend.set_fail_revert(false);
    sm.on_event(vpn_up("wg1"));
    assert_eq!(sm.applied.as_ref().unwrap().interface, "wg1");
    assert!(sm.orphaned.is_empty());
    assert!(
        !backend.reverts.lock().unwrap().iter().any(|i| i == "wg1"),
        "the freshly-applied interface must never be reverted by orphan cleanup"
    );
}

// --- macOS DNS-privacy path: gate decoupled from vpn_name, demote folding -

#[test]
fn global_revert_backend_applies_regardless_of_interface_name() {
    // On macOS the VPN's interface is not a stable, DNS-scoped link, so the
    // configured `vpn_name` must NOT gate apply. A global-revert backend with
    // an Up whose advisory interface_name differs from `vpn_name` must still
    // apply (driven by the DNS-model signal the detector already decided).
    let backend = Arc::new(MockBackend::default());
    backend.set_reverts_globally(true);
    // config.vpn_name is "wg0" (the helper default), but the macOS Up carries
    // an unrelated advisory interface name.
    let mut sm = machine(
        backend.clone(),
        config(true, &["corp.example.com"]),
        "macos-gate",
    );

    sm.on_event(vpn_up_macos("utun7", &["198.51.100.1"]));
    assert!(
        sm.applied.is_some(),
        "macOS apply must not be gated on interface_name == vpn_name"
    );
    assert_eq!(
        backend.applies.lock().unwrap().len(),
        1,
        "the corp domains are applied despite the interface-name mismatch"
    );
}

#[test]
fn linux_backend_still_gates_on_interface_name() {
    // The Linux contract is unchanged: a per-interface backend (default,
    // reverts_globally=false) still requires the Up's interface to match
    // `vpn_name`, so a mismatched interface does NOT apply.
    let backend = Arc::new(MockBackend::default()); // reverts_globally = false
    let mut sm = machine(backend.clone(), config(true, &["a.com"]), "linux-gate");
    // config.vpn_name == "wg0"; an Up on a different interface must not apply.
    sm.on_event(vpn_up("wg1"));
    assert!(
        sm.applied.is_none(),
        "Linux must still gate apply on interface_name == vpn_name"
    );
}

#[test]
fn macos_apply_uses_the_detector_demote_target_without_a_config_override() {
    // With no `fallback_dns` override, the demote-target handed to the backend
    // is the detector's (the physical DHCP resolver).
    let backend = Arc::new(MockBackend::default());
    backend.set_reverts_globally(true);
    let mut sm = machine(
        backend.clone(),
        config(true, &["corp.example.com"]),
        "macos-demote",
    );

    sm.on_event(vpn_up_macos("utun7", &["198.51.100.1"]));
    assert_eq!(
        backend.applied_demote_targets.lock().unwrap().as_slice(),
        &[Some(vec!["198.51.100.1".to_string()])],
        "without an override, the detector's demote-target is used"
    );
}

#[test]
fn macos_apply_folds_in_the_fallback_dns_config_override() {
    // A configured `fallback_dns` override replaces the detector's
    // demote-target in the VpnInfo handed to the backend.
    let backend = Arc::new(MockBackend::default());
    backend.set_reverts_globally(true);
    let mut cfg = config(true, &["corp.example.com"]);
    cfg.fallback_dns = Some(vec!["203.0.113.9".to_string()]);
    let mut sm = machine(backend.clone(), cfg, "macos-override");

    // The detector still reports 198.51.100.1, but the config override wins.
    sm.on_event(vpn_up_macos("utun7", &["198.51.100.1"]));
    assert_eq!(
        backend.applied_demote_targets.lock().unwrap().as_slice(),
        &[Some(vec!["203.0.113.9".to_string()])],
        "the fallback_dns override must replace the detector's demote-target"
    );
}

#[test]
fn macos_reapplies_on_a_redetect_after_the_default_was_reasserted() {
    // Reconcile-on-event: if the VPN re-asserts its default after a network
    // change, the detector re-emits Up (the watch fires on the DNS change).
    // A fresh Up must re-drive apply (the backend re-demotes), bounded — one
    // re-apply per event, no busy loop (this is purely event-driven; there is
    // no timer here). We model two Up events and assert two applies.
    let backend = Arc::new(MockBackend::default());
    backend.set_reverts_globally(true);
    let mut sm = machine(
        backend.clone(),
        config(true, &["corp.example.com"]),
        "macos-reapply",
    );

    sm.on_event(vpn_up_macos("utun7", &["198.51.100.1"]));
    // A second Up with a CHANGED demote-target (e.g. Wi-Fi switched, new DHCP
    // resolver) — the dedup upstream only forwards genuine changes, so the
    // state machine sees a distinct event and re-applies with the new target.
    sm.on_event(vpn_up_macos("utun7", &["198.51.100.9"]));
    let targets = backend.applied_demote_targets.lock().unwrap();
    assert_eq!(
        targets.as_slice(),
        &[
            Some(vec!["198.51.100.1".to_string()]),
            Some(vec!["198.51.100.9".to_string()]),
        ],
        "a re-detected change re-applies the demote with the new target"
    );
}

#[test]
fn watch_stream_ending_on_its_own_marks_detector_error() {
    // `watch()` returning Ok does not mean the
    // watch is alive — some detectors open their connection asynchronously
    // and the stream can close at once (e.g. NM/D-Bus absent). The forwarding
    // task reports that, and detector_health must stop showing Active.
    let backend = Arc::new(MockBackend::default());
    let shared = Arc::new(MockDetectorShared::default());
    shared.die.lock().unwrap().insert("wg0".to_string());
    let mut sm = rearm_machine(
        backend.clone(),
        shared.clone(),
        config(true, &["a.com"]),
        "watch-dies",
    );

    // arm_watch optimistically set Active...
    sm.arm_watch();
    assert_eq!(sm.detector_health, DetectorHealth::Active);
    // ...then the forwarding task signals the stream ended on its own.
    assert!(
        sm.pump_one_command(),
        "a WatchEnded signal is expected"
    );
    let Response::Status(info) = sm.on_request(Request::Status) else {
        panic!("expected Status");
    };
    assert!(
        matches!(info.detector_health, DetectorHealth::Error(_)),
        "a watch that ends on its own must report an unhealthy detector, got {:?}",
        info.detector_health
    );
}

// ---- The configuration file is the source of truth ----

#[test]
fn mutation_is_read_modify_write_merging_a_concurrent_external_edit() {
    // The in-memory config starts as {wg0, [a.com]}; a concurrent external
    // edit changes a *different* field (vpn_name -> tun9). add_domain must
    // load fresh and merge, so the saved config keeps the external vpn_name
    // AND gains the new domain — not clobber tun9 from the stale snapshot.
    let backend = Arc::new(MockBackend::default());
    let fake = FakeConfigStore::new(config(true, &["a.com"]));
    let store = fake.clone();
    let mut sm = machine_with_store(backend, store, config(true, &["a.com"]));

    let mut external = config(true, &["a.com"]);
    external.vpn_name = "tun9".to_string();
    fake.set_external(external);

    assert_eq!(sm.add_domain("b.com".to_string()), Response::Done);

    let saved = fake.current().expect("config still valid");
    assert_eq!(
        saved.vpn_name, "tun9",
        "external vpn_name edit was clobbered"
    );
    assert_eq!(saved.vpn_hosts, vec!["a.com", "b.com"]);
    // The in-memory working copy is kept in lockstep with disk.
    assert_eq!(sm.config.vpn_name, "tun9");
    assert_eq!(sm.config.vpn_hosts, vec!["a.com", "b.com"]);
}

#[test]
fn mutation_with_unreadable_config_errors_without_writing_and_freezes() {
    let backend = Arc::new(MockBackend::default());
    let fake = FakeConfigStore::new(config(true, &["a.com"]));
    let store = fake.clone();
    let mut sm = machine_with_store(backend, store, config(true, &["a.com"]));

    // The file becomes malformed before the RMW read.
    fake.set_malformed();
    let response = sm.add_domain("b.com".to_string());

    assert!(
        matches!(response, Response::Error(_)),
        "an RMW load failure must error"
    );
    assert_eq!(
        fake.save_count(),
        0,
        "no config may be written after a failed read"
    );
    // The in-memory config is untouched, and the failure is surfaced.
    assert_eq!(sm.config.vpn_hosts, vec!["a.com"]);
    assert_eq!(sm.routing_state(), RoutingState::ConfigInvalid);
}

#[test]
fn self_write_does_not_trigger_a_redundant_reconcile() {
    // After the daemon's own write, self.config already equals disk, so the
    // watcher event for that write must be a no-op (the equality skip) and
    // must not re-run apply.
    let backend = Arc::new(MockBackend::default());
    let fake = FakeConfigStore::new(config(true, &["a.com"]));
    let store = fake.clone();
    let mut sm = machine_with_store(backend.clone(), store, config(true, &["a.com"]));

    sm.on_event(vpn_up("wg0"));
    let applies_before = backend.applies.lock().unwrap().len();
    assert_eq!(applies_before, 1);

    // Simulate the watcher firing for the daemon's own (equal) write.
    sm.on_config_changed();

    assert_eq!(
        backend.applies.lock().unwrap().len(),
        applies_before,
        "an equal config must not re-apply"
    );
}

#[test]
fn external_edit_to_a_watch_field_reloads_and_rearms() {
    let backend = Arc::new(MockBackend::default());
    let fake = FakeConfigStore::new(config(true, &["a.com"]));
    let store = fake.clone();
    let mut sm = machine_with_store(backend, store, config(true, &["a.com"]));

    // Arm once so the generation has a baseline.
    sm.arm_watch();
    let generation_before = sm.watch_generation;

    let mut external = config(true, &["a.com"]);
    external.vpn_name = "tun9".to_string();
    fake.set_external(external);

    sm.on_config_changed();

    assert_eq!(
        sm.config.vpn_name, "tun9",
        "external watch-field edit was not adopted"
    );
    assert!(
        sm.watch_generation > generation_before,
        "a watch-field change must re-arm the watch"
    );
}

#[test]
fn external_edit_to_a_non_watch_field_reloads_without_rearm() {
    let backend = Arc::new(MockBackend::default());
    let fake = FakeConfigStore::new(config(true, &["a.com"]));
    let store = fake.clone();
    let mut sm = machine_with_store(backend, store, config(true, &["a.com"]));

    sm.arm_watch();
    let generation_before = sm.watch_generation;

    // Only the domain list changes (not a watch field).
    fake.set_external(config(true, &["a.com", "c.com"]));
    sm.on_config_changed();

    assert_eq!(
        sm.config.vpn_hosts,
        vec!["a.com", "c.com"],
        "external domain edit not adopted"
    );
    assert_eq!(
        sm.watch_generation, generation_before,
        "a domain-only change must not re-arm the watch"
    );
}

#[test]
fn malformed_file_freezes_on_last_good_then_recovers() {
    let backend = Arc::new(MockBackend::default());
    let fake = FakeConfigStore::new(config(true, &["a.com"]));
    let store = fake.clone();
    let mut sm = machine_with_store(backend.clone(), store, config(true, &["a.com"]));

    sm.on_event(vpn_up("wg0"));
    assert!(sm.applied.is_some());
    let applies_after_first = backend.applies.lock().unwrap().len();

    // A malformed hand-edit: freeze on the last-good config, surface invalid.
    fake.set_malformed();
    sm.on_config_changed();
    assert_eq!(sm.routing_state(), RoutingState::ConfigInvalid);
    assert_eq!(
        sm.config.vpn_hosts,
        vec!["a.com"],
        "the last-good config must be kept"
    );
    assert!(
        sm.applied.is_some(),
        "applied rules must be held while frozen"
    );
    assert_eq!(
        backend.applies.lock().unwrap().len(),
        applies_after_first,
        "a malformed file must not re-apply or revert"
    );

    // The user fixes the file: recovery is automatic on the next load.
    fake.set_external(config(true, &["a.com", "c.com"]));
    sm.on_config_changed();
    assert!(
        !sm.config_invalid,
        "a valid file must clear the freeze flag"
    );
    assert_ne!(sm.routing_state(), RoutingState::ConfigInvalid);
    assert_eq!(sm.config.vpn_hosts, vec!["a.com", "c.com"]);
}

#[test]
fn remove_of_an_externally_removed_domain_adopts_disk_and_reverts() {
    // The watcher's event has not arrived (or it is unavailable): an external
    // edit already removed the only domain on disk while the daemon still has
    // it applied. Removing that now-absent domain must adopt the disk config
    // and revert the stale rules — not report success while DNS stays out of
    // sync (the no-op early-out must reconcile, not just return Ok).
    let backend = Arc::new(MockBackend::default());
    let fake = FakeConfigStore::new(config(true, &["a.com"]));
    let store = fake.clone();
    let mut sm = machine_with_store(backend.clone(), store, config(true, &["a.com"]));

    sm.on_event(vpn_up("wg0"));
    assert!(sm.applied.is_some());

    // External edit removes the domain on disk before the IPC remove runs.
    fake.set_external(config(true, &[]));
    let resp = sm.remove_domain("a.com".to_string());

    assert_eq!(resp, Response::Done);
    assert!(
        sm.config.vpn_hosts.is_empty(),
        "the disk removal must be adopted"
    );
    assert!(
        sm.applied.is_none(),
        "the removed domain's rules must be reverted, not left applied"
    );
    assert_eq!(sm.routing_state(), RoutingState::NoDomains);
}

#[test]
fn recovery_to_an_identical_last_good_config_clears_invalid() {
    // Recovery must work even when the user reverts a malformed edit back to a
    // file *identical* to the last-good config: `load_fresh` clears
    // `config_invalid` before the equality check short-circuits the reload, so
    // the freeze lifts without a redundant reconcile.
    let backend = Arc::new(MockBackend::default());
    let fake = FakeConfigStore::new(config(true, &["a.com"]));
    let store = fake.clone();
    let mut sm = machine_with_store(backend.clone(), store, config(true, &["a.com"]));

    sm.on_event(vpn_up("wg0"));
    let applies_after_first = backend.applies.lock().unwrap().len();

    // A malformed edit freezes on the last-good config.
    fake.set_malformed();
    sm.on_config_changed();
    assert!(sm.config_invalid);
    assert_eq!(sm.routing_state(), RoutingState::ConfigInvalid);

    // The user reverts to a file identical to the last-good config.
    fake.set_external(config(true, &["a.com"]));
    sm.on_config_changed();

    assert!(
        !sm.config_invalid,
        "an identical valid file must clear the freeze"
    );
    assert_eq!(sm.routing_state(), RoutingState::Applied);
    assert_eq!(
        backend.applies.lock().unwrap().len(),
        applies_after_first,
        "recovery to an identical config must not re-apply (equality skip)"
    );
}

// ---- Route checks ----

fn domain_check(resp: Response) -> DomainCheckInfo {
    match resp {
        Response::DomainCheck(info) => info,
        other => panic!("expected DomainCheck, got {other:?}"),
    }
}

fn check_via(sm: &Daemon, raw: &str) -> Response {
    sm.check(raw)
}

#[test]
fn check_domain_normalizes_and_reports_suffix_coverage() {
    let backend = Arc::new(MockBackend::default());
    let sm = machine(backend, config(true, &["sub.example.com"]), "check-covered");

    // A pasted URL whose host is a subdomain of a configured routing domain.
    let info = domain_check(check_via(&sm, "https://vault.sub.example.com/x?y=1"));

    assert_eq!(info.host, "vault.sub.example.com");
    assert!(info.covered);
    assert_eq!(info.matched_domain.as_deref(), Some("sub.example.com"));
    assert_eq!(info.vpn_interface, "wg0");
    assert!(info.enabled);
    assert!(!info.vpn_up);
    // No resolution scripted → unsupported → None (not an error).
    assert!(info.resolution.is_none());
}

#[test]
fn check_domain_not_covered() {
    let backend = Arc::new(MockBackend::default());
    let sm = machine(
        backend,
        config(true, &["sub.example.com"]),
        "check-uncovered",
    );

    let info = domain_check(check_via(&sm, "example.org"));

    assert_eq!(info.host, "example.org");
    assert!(!info.covered);
    assert!(info.matched_domain.is_none());
}

#[test]
fn check_domain_invalid_input_is_an_error() {
    let backend = Arc::new(MockBackend::default());
    let sm = machine(backend, config(true, &["sub.example.com"]), "check-invalid");

    // A path pasted onto a bare host (no scheme) cannot be normalized.
    let resp = check_via(&sm, "example.com/path");
    assert!(matches!(resp, Response::Error(_)), "got {resp:?}");
}

#[test]
fn check_domain_surfaces_resolution() {
    let backend = Arc::new(MockBackend::default());
    // Synthetic, placeholder-only resolution.
    backend.set_resolution(vec!["10.0.0.1".to_string()], Some("wg0".to_string()));
    let sm = machine(
        backend,
        config(true, &["sub.example.com"]),
        "check-resolved",
    );

    let info = domain_check(check_via(&sm, "vault.sub.example.com"));

    assert!(info.covered);
    let resolution = info.resolution.expect("resolution should be surfaced");
    assert_eq!(resolution.addresses, vec!["10.0.0.1".to_string()]);
    assert_eq!(resolution.via_interface.as_deref(), Some("wg0"));
    assert_eq!(resolution.via_dns, None);
}

#[test]
fn check_domain_resolution_failure_is_none_not_error() {
    let backend = Arc::new(MockBackend::default());
    backend.set_fail_resolve(true);
    let sm = machine(
        backend,
        config(true, &["sub.example.com"]),
        "check-resolve-fail",
    );

    let info = domain_check(check_via(&sm, "vault.sub.example.com"));

    // Coverage is still reported; a resolution failure is never an Error.
    assert!(info.covered);
    assert!(info.resolution.is_none());
}

#[test]
fn remove_normalizes_input_to_match_a_stored_domain() {
    // add stores the normalized `example.com`; remove must match it even when
    // the user types a different case / a pasted URL / a trailing dot — not
    // no-op while leaving it configured.
    let backend = Arc::new(MockBackend::default());
    let mut sm = machine(backend, config(true, &["example.com"]), "remove-normalize");
    sm.on_event(vpn_up("wg0"));
    assert!(sm.applied.is_some());

    let resp = sm
        .on_request(Request::RemoveDomain("https://Example.com./".to_string()))
        ;

    assert_eq!(resp, Response::Done);
    assert!(
        sm.config.vpn_hosts.is_empty(),
        "the stored domain must be removed, not left configured"
    );
    assert!(sm.config_store.load().unwrap().vpn_hosts.is_empty());
}

#[test]
fn remove_legacy_unnormalizable_entry_via_exact_match() {
    // A config that predates normalization may hold an entry the current
    // normalizer rejects (here an IP literal). Removal must fall back to an
    // exact-string match so the user can clean it up without hand-editing.
    let backend = Arc::new(MockBackend::default());
    let mut sm = machine(backend, config(true, &["192.0.2.1"]), "remove-legacy");

    let resp = sm
        .on_request(Request::RemoveDomain("192.0.2.1".to_string()))
        ;

    assert_eq!(resp, Response::Done);
    assert!(
        sm.config.vpn_hosts.is_empty(),
        "a legacy un-normalizable entry must be removable by exact match"
    );
}

#[test]
fn remove_legacy_verbatim_entry_when_input_normalizes() {
    // A pre-normalization config may hold a verbatim entry like
    // `example.com:443` that the old CLI accepted. `remove example.com:443`
    // normalizes to `example.com`, which would NOT match the stored string by
    // host-equivalence — so the exact-string arm (tried even when the input
    // normalizes) must still remove the verbatim entry.
    let backend = Arc::new(MockBackend::default());
    let mut sm = machine(
        backend,
        config(true, &["example.com:443"]),
        "remove-verbatim",
    );

    let resp = sm
        .on_request(Request::RemoveDomain("example.com:443".to_string()))
        ;

    assert_eq!(resp, Response::Done);
    assert!(
        sm.config.vpn_hosts.is_empty(),
        "the verbatim legacy entry must be removable by exact string"
    );
}

#[test]
fn check_surfaces_routing_state() {
    // VPN up with usable DNS → routing_state Applied is carried in the check,
    // so a client does not have to infer routing from enabled && vpn_up alone.
    let backend = Arc::new(MockBackend::default());
    let mut sm = machine(backend, config(true, &["example.com"]), "check-routing");
    sm.on_event(vpn_up("wg0"));
    assert!(sm.applied.is_some());

    let info = domain_check(check_via(&sm, "example.com"));
    assert!(info.covered);
    assert_eq!(info.routing_state, RoutingState::Applied);
}

#[test]
fn check_attributes_to_the_most_specific_domain() {
    // Both a broad and a more specific domain cover the host; the most
    // specific (longest) covering entry is attributed, regardless of the order
    // they appear in the config.
    let backend = Arc::new(MockBackend::default());
    let sm = machine(
        backend,
        config(true, &["example.com", "sub.example.com"]),
        "check-specific",
    );

    let info = domain_check(check_via(&sm, "vault.sub.example.com"));
    assert!(info.covered);
    assert_eq!(info.matched_domain.as_deref(), Some("sub.example.com"));
}

// ---- Reading back ----

fn verify_info(resp: Response) -> VerifyInfo {
    match resp {
        Response::Verify(info) => info,
        other => panic!("expected Verify, got {other:?}"),
    }
}

fn verify_via(sm: &Daemon) -> Response {
    sm.read_back()
}

#[test]
fn verify_in_sync_reads_the_applied_interface() {
    let backend = Arc::new(MockBackend::default());
    // The live read-back matches what the daemon applies (wg0 + 10.0.0.1).
    backend.set_link_state(LinkDnsState {
        servers: vec!["10.0.0.1".to_string()],
        routing_domains: vec!["example.com".to_string()],
        default_route: None,
    });
    let mut sm = machine(
        backend.clone(),
        config(true, &["example.com"]),
        "verify-insync",
    );
    sm.on_event(vpn_up("wg0"));
    assert!(sm.applied.is_some());

    let info = verify_info(verify_via(&sm));
    assert_eq!(info.drift, DriftVerdict::InSync);
    assert_eq!(info.live.servers, vec!["10.0.0.1"]);
    assert_eq!(info.live.routing_domains, vec!["example.com"]);
    // The read targets the applied interface.
    assert_eq!(backend.last_read_link_interface().as_deref(), Some("wg0"));
}

#[test]
fn verify_reports_drift_when_live_diverges() {
    let backend = Arc::new(MockBackend::default());
    // The live link is missing the believed server and routes nothing.
    backend.set_link_state(LinkDnsState {
        servers: vec!["198.51.100.9".to_string()],
        routing_domains: vec![],
        default_route: None,
    });
    let mut sm = machine(backend, config(true, &["example.com"]), "verify-drift");
    sm.on_event(vpn_up("wg0"));

    let info = verify_info(verify_via(&sm));
    match info.drift {
        DriftVerdict::Drifted {
            missing_servers,
            unrouted_domains,
            default_route_leak,
        } => {
            assert_eq!(missing_servers, vec!["10.0.0.1"]);
            assert_eq!(unrouted_domains, vec!["example.com"]);
            // The live link is not a catch-all here (default_route: None), so
            // this drift is the server/domain divergence only — no leak.
            assert!(!default_route_leak);
        }
        other => panic!("expected Drifted, got {other:?}"),
    }
}

#[test]
fn verify_reports_catch_all_default_route_as_leak() {
    let backend = Arc::new(MockBackend::default());
    // The believed split is fully present (server + domain match), but the link
    // is the DNS default route (catch-all) — a full-tunnel VPN whose link
    // resolves every unmatched name. This must read as DRIFT (a leak), not
    // InSync, even though nothing is missing or unrouted.
    backend.set_link_state(LinkDnsState {
        servers: vec!["10.0.0.1".to_string()],
        routing_domains: vec!["example.com".to_string()],
        default_route: Some(true),
    });
    let mut sm = machine(backend, config(true, &["example.com"]), "verify-leak");
    sm.on_event(vpn_up("wg0"));
    assert!(sm.applied.is_some());

    let info = verify_info(verify_via(&sm));
    match info.drift {
        DriftVerdict::Drifted {
            missing_servers,
            unrouted_domains,
            default_route_leak,
        } => {
            assert!(missing_servers.is_empty());
            assert!(unrouted_domains.is_empty());
            assert!(default_route_leak, "catch-all link must read as a leak");
        }
        other => panic!("expected Drifted (leak), got {other:?}"),
    }
    assert_eq!(info.live.default_route, Some(true));
}

#[test]
fn verify_not_applicable_when_nothing_applied() {
    let backend = Arc::new(MockBackend::default());
    // Even with a live state present, nothing is applied → NotApplicable; the
    // configured interface is still read so the client sees its current state.
    backend.set_link_state(LinkDnsState {
        servers: vec!["10.0.0.1".to_string()],
        routing_domains: vec!["example.com".to_string()],
        default_route: None,
    });
    let sm = machine(backend.clone(), config(true, &["example.com"]), "verify-na");
    assert!(sm.applied.is_none());

    let info = verify_info(verify_via(&sm));
    assert_eq!(info.drift, DriftVerdict::NotApplicable);
    // The configured interface (wg0) is read so its live state still shows.
    assert_eq!(backend.last_read_link_interface().as_deref(), Some("wg0"));
    assert_eq!(info.live.servers, vec!["10.0.0.1"]);
}

#[test]
fn verify_read_failure_degrades_to_empty_live_not_error() {
    let backend = Arc::new(MockBackend::default());
    backend.set_fail_read_link(true);
    let mut sm = machine(backend, config(true, &["example.com"]), "verify-readfail");
    sm.on_event(vpn_up("wg0"));
    assert!(sm.applied.is_some());

    let info = verify_info(verify_via(&sm));
    // The live state is empty (read-back unavailable); it is never an Error.
    assert!(info.live.servers.is_empty());
    assert!(info.live.routing_domains.is_empty());
    assert!(matches!(info.drift, DriftVerdict::Drifted { .. }));
}

#[test]
fn verify_read_panic_degrades_to_empty_live_not_error() {
    // A panic inside the blocking read-back (a `spawn_blocking` JoinError) must
    // also degrade to an empty live state — never an Error — upholding the
    // "never an Error for a read-back failure" invariant on the panic arm too.
    let backend = Arc::new(MockBackend::default());
    backend.set_panic_read_link(true);
    let mut sm = machine(backend, config(true, &["example.com"]), "verify-panic");
    sm.on_event(vpn_up("wg0"));
    assert!(sm.applied.is_some());

    let resp = verify_via(&sm);
    let info = verify_info(resp); // panics here if it were a Response::Error
    assert!(info.live.servers.is_empty());
    assert!(info.live.routing_domains.is_empty());
    assert!(matches!(info.drift, DriftVerdict::Drifted { .. }));
}

#[test]
fn verify_with_no_interface_skips_the_read() {
    let backend = Arc::new(MockBackend::default());
    backend.set_link_state(LinkDnsState::default());
    // No configured interface and nothing applied → nothing to read back.
    let cfg = LocalConfig {
        vpn_name: String::new(),
        vpn_hosts: vec![],
        enabled: true,
        vpn_backend: VpnBackend::NetworkManager,
        openvpn: no_openvpn(),
        fallback_dns: None,
    };
    let sm = machine(backend.clone(), cfg, "verify-no-iface");

    let info = verify_info(verify_via(&sm));
    assert_eq!(info.drift, DriftVerdict::NotApplicable);
    assert!(info.live.servers.is_empty());
    // The empty-interface guard means the backend was never asked to read.
    assert_eq!(backend.last_read_link_interface(), None);
}


// ---- Across requests ----

#[test]
fn removing_what_was_added_restores_the_list() {
    let backend = Arc::new(MockBackend::default());
    let mut sm = machine(backend, config(true, &["a.com"]), "");
    assert_eq!(sm.add_domain("https://B.com/x".to_string()), Response::Done);
    assert_eq!(sm.config.vpn_hosts, vec!["a.com", "b.com"]);
    assert_eq!(sm.remove_domain("b.com.".to_string()), Response::Done);
    assert_eq!(sm.config.vpn_hosts, vec!["a.com"]);
    assert_eq!(sm.config_store.load().unwrap().vpn_hosts, vec!["a.com"]);
}

#[test]
fn a_converged_machine_asks_for_nothing() {
    let backend = Arc::new(MockBackend::default());
    let mut sm = machine(backend.clone(), config(true, &["a.com"]), "");
    sm.on_event(vpn_up("wg0"));
    sm.on_event(vpn_up("wg0"));
    assert_eq!(backend.applies.lock().unwrap().len(), 1);
    assert!(backend.reverts.lock().unwrap().is_empty());
}

#[test]
fn a_failed_save_changes_nothing() {
    let mut sm = StateMachine::new(config(true, &["a.com"]), "c.json".to_string(), false, false);
    assert_eq!(
        sm.saved(config(false, &[]), Err("disk full".to_string())),
        Step::Reply(Response::Error("failed to persist config: disk full".to_string()))
    );
    assert_eq!(sm.config, config(true, &["a.com"]));
}

#[test]
fn errors_of_requests_are_worded() {
    let backend = Arc::new(MockBackend::default());
    let fake = FakeConfigStore::new(config(true, &["a.com"]));
    let mut sm = machine_with_store(backend.clone(), fake.clone(), config(true, &["a.com"]));
    assert_eq!(
        sm.add_domain("/".to_string()),
        Response::Error("invalid domain: a path without a scheme".to_string())
    );
    assert_eq!(
        sm.add_domain("A.com".to_string()),
        Response::Error("domain already present: a.com".to_string())
    );
    fake.set_malformed();
    assert_eq!(
        sm.on_request(Request::Disable),
        Response::Error("cannot change settings: the config file on disk could not be read (malformed config) — \
             fix it on disk; the daemon keeps running on the last-good config"
                .to_string())
    );
    fake.set_external(config(true, &["a.com"]));
    backend.set_fail_apply(true);
    sm.on_event(vpn_up("wg0"));
    assert_eq!(
        sm.on_request(Request::Enable),
        Response::Error("failed to apply current state: mock apply failure".to_string())
    );
}

#[test]
fn checks_and_read_backs_are_answered_apart_from_the_other_requests() {
    let backend = Arc::new(MockBackend::default());
    let mut sm = machine(backend, config(true, &["a.com"]), "");
    let step = sm.on_command(StateCommand::Ipc(Request::CheckDomain("x.A.com".to_string())));
    let info = domain_check(sm.drive(step).0.unwrap());
    assert_eq!(info.matched_domain.as_deref(), Some("a.com"));
    let step = sm.on_command(StateCommand::Ipc(Request::Verify));
    assert_eq!(verify_info(sm.drive(step).0.unwrap()).drift, DriftVerdict::NotApplicable);
    assert_eq!(
        sm.on_request(Request::CheckDomain("a.com".to_string())),
        Response::Error("internal error: CheckDomain is handled out-of-band".to_string())
    );
    assert_eq!(
        sm.on_request(Request::Verify),
        Response::Error("internal error: Verify is handled out-of-band".to_string())
    );
    let step = sm.on_command(StateCommand::Ipc(Request::ListDomains));
    assert_eq!(sm.drive(step).0, Some(Response::Domains(vec!["a.com".to_string()])));
    let step = sm.on_command(StateCommand::Ipc(Request::ListInterfaces));
    assert_eq!(sm.drive(step).0, Some(Response::Interfaces(vec![])));
}

#[test]
fn a_panicking_call_is_worded_and_remembered() {
    let mut sm = StateMachine::new(config(true, &["a.com"]), "c.json".to_string(), false, false);
    let Step::Backend { then, .. } = sm.on_event(vpn_up("wg0")) else {
        panic!("expected an apply");
    };
    assert_eq!(sm.backend_done(then, CallOutcome::Panicked("boom".to_string())), Step::Idle);
    assert!(sm.needs_resync && sm.applied.is_some());
    let Step::Load(purpose) = sm.on_request(Request::ReloadConfig) else {
        panic!("expected a read");
    };
    let Step::Backend { then, .. } = sm.loaded(purpose, Ok(config(true, &["a.com"]))) else {
        panic!("expected another apply");
    };
    assert_eq!(
        sm.backend_done(then, CallOutcome::Panicked("boom".to_string())),
        Step::Reply(Response::Error(
            "config reloaded, but applying it failed: apply task panicked: boom".to_string()
        ))
    );
}

#[test]
fn orphans_that_stay_are_named() {
    let backend = Arc::new(MockBackend::default());
    let mut sm = machine(backend.clone(), config(true, &["a.com"]), "");
    sm.sm.orphaned = vec!["wg7".to_string(), "wg8".to_string()];
    backend.set_fail_revert(true);
    assert_eq!(
        sm.on_request(Request::ReloadConfig),
        Response::Error(
            "config reloaded, but applying it failed: stale split-DNS rules remain on wg7, wg8 \
             (orphaned by an earlier failed switch) and could not be cleaned up: mock revert \
             failure"
                .to_string()
        )
    );
    assert!(!sm.shutdown());
    backend.set_fail_revert(false);
    assert!(sm.shutdown());
    assert!(sm.orphaned.is_empty());
}

#[test]
fn interfaces_are_listed_or_the_failure_is() {
    assert_eq!(
        interfaces_listed(ListOutcome::Failed("denied".to_string())),
        Response::Error("failed to list interfaces: denied".to_string())
    );
    assert_eq!(
        interfaces_listed(ListOutcome::Panicked("oops".to_string())),
        Response::Error("interface enumeration task panicked: oops".to_string())
    );
    assert_eq!(interfaces_listed(ListOutcome::Listed(vec![])), Response::Interfaces(vec![]));
}
