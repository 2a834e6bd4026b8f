//! Scoping domains to resolver files, together with the default resolver.

use std::cell::{Cell, RefCell};
use std::collections::{BTreeMap, HashMap, HashSet};
use splitway::backend::macos::demote::{
    dns_written, key_checked, primary_read, service_read, snapshot_cleared, snapshot_loaded,
    snapshot_saved, DemoteSnapshot, DemoteStep, ServiceDnsState,
};
use splitway::backend::macos::pipeline::{
    demoted, files_removed, resolved, restored, scoped, MacosBackend, PipelineStep, RevertStep,
};
use splitway::backend::macos::resolver::{is_managed, resolver_contents};
use splitway::backend::macos::scope::{
    apply_to_dir as begin_scope, inspected, managed_files, pruned, read_managed_state, wrote,
    DirEntry, Entry, Prior, ScopeStep, Written,
};
use splitway::platform::{PlatformError, VpnInfo};

/// A stand-in for `scutil` that records every script and answers from a table.
struct FakeScutil {
    primary: RefCell<Option<String>>,
    /// What a service without an entry in `service_states` looks like.
    default_state: (Option<String>, Vec<String>),
    service_states: RefCell<HashMap<String, ServiceDnsState>>,
    scripts: RefCell<Vec<String>>,
    fail_on_set: Cell<bool>,
    /// Service keys that are gone from the dynamic store.
    absent_keys: RefCell<HashSet<String>>,
}

impl FakeScutil {
    /// A primary service ("ABC", on en0) with one resolver.
    fn up() -> Self {
        FakeScutil {
            primary: RefCell::new(Some("ABC".to_string())),
            default_state: (Some("en0".to_string()), vec!["198.51.100.1".to_string()]),
            service_states: RefCell::new(HashMap::new()),
            scripts: RefCell::new(Vec::new()),
            fail_on_set: Cell::new(false),
            absent_keys: RefCell::new(HashSet::new()),
        }
    }

    fn fail_on_set(&self) {
        self.fail_on_set.set(true);
    }

    fn service_dns_state(&self, key: &str) -> ServiceDnsState {
        match self.service_states.borrow().get(key) {
            Some(s) => ServiceDnsState {
                interface_name: s.interface_name.clone(),
                servers: s.servers.clone(),
            },
            None => ServiceDnsState {
                interface_name: self.default_state.0.clone(),
                servers: self.default_state.1.clone(),
            },
        }
    }

    fn key_exists(&self, key: &str) -> bool {
        !self.absent_keys.borrow().contains(key)
    }

    fn run_script(&self, script: String) -> Result<(), PlatformError> {
        if self.fail_on_set.get() && script.contains("set ") {
            return Err(PlatformError::CommandFailed("simulated set failure".to_string()));
        }
        self.scripts.borrow_mut().push(script);
        Ok(())
    }
}

/// A snapshot store in memory.
#[derive(Default)]
struct MemSnapshots {
    slot: RefCell<Option<DemoteSnapshot>>,
    /// How many saves succeed before every later one fails; `None`: all do.
    ok_saves: Cell<Option<usize>>,
}

impl MemSnapshots {
    fn load(&self) -> Option<DemoteSnapshot> {
        self.slot.borrow().as_ref().map(|s| DemoteSnapshot {
            service_dns_key: s.service_dns_key.clone(),
            interface_name: s.interface_name.clone(),
            prior_servers: s.prior_servers.clone(),
            installed_fallback: s.installed_fallback.clone(),
        })
    }

    fn save(&self, snapshot: DemoteSnapshot) -> Result<(), PlatformError> {
        match self.ok_saves.get() {
            Some(0) => {
                return Err(PlatformError::CommandFailed(
                    "simulated snapshot save failure".to_string(),
                ))
            }
            Some(n) => self.ok_saves.set(Some(n - 1)),
            None => {}
        }
        *self.slot.borrow_mut() = Some(snapshot);
        Ok(())
    }

    fn clear(&self) {
        *self.slot.borrow_mut() = None;
    }
}

/// Carry out what a demote or a restore asks for until it is finished.
fn carry_out(
    first: DemoteStep,
    scutil: &FakeScutil,
    snaps: &MemSnapshots,
) -> Result<bool, PlatformError> {
    let mut step = first;
    loop {
        step = match step {
            DemoteStep::ReadPrimary { fallback, corp_dns } => {
                primary_read(fallback, corp_dns, Ok(scutil.primary.borrow().clone()))
            }
            DemoteStep::LoadSnapshot(then) => snapshot_loaded(then, snaps.load()),
            DemoteStep::ReadService { key, then } => {
                service_read(then, Ok(scutil.service_dns_state(&key)))
            }
            DemoteStep::CheckKey { snapshot, then } => {
                let present = scutil.key_exists(&snapshot.service_dns_key);
                key_checked(snapshot, then, Ok(present))
            }
            DemoteStep::Write { write, then } => dns_written(then, scutil.run_script(write.script())),
            DemoteStep::ClearSnapshot(then) => {
                snaps.clear();
                snapshot_cleared(then)
            }
            DemoteStep::SaveSnapshot { snapshot, then } => {
                snapshot_saved(then, snaps.save(snapshot))
            }
            DemoteStep::Finished(result) => return result,
        };
    }
}

/// What stands at a name of the directory.
enum Node {
    File(Vec<u8>),
    Link,
    Directory,
}

/// A resolver directory in memory.
struct FakeDir {
    nodes: RefCell<BTreeMap<String, Node>>,
    /// Files that cannot be removed.
    immutable: RefCell<HashSet<String>>,
}

impl FakeDir {
    fn new() -> Self {
        FakeDir { nodes: RefCell::new(BTreeMap::new()), immutable: RefCell::new(HashSet::new()) }
    }

    fn put(&self, name: &str, node: Node) {
        self.nodes.borrow_mut().insert(name.to_string(), node);
    }

    fn write(&self, name: &str, text: &str) {
        self.put(name, Node::File(text.as_bytes().to_vec()));
    }

    fn has(&self, name: &str) -> bool {
        self.nodes.borrow().contains_key(name)
    }

    fn read(&self, name: &str) -> String {
        match self.nodes.borrow().get(name) {
            Some(Node::File(bytes)) => String::from_utf8(bytes.clone()).unwrap(),
            _ => panic!("{name} is not a file"),
        }
    }

    /// What an apply finds at a name.
    fn inspect(&self, name: &str) -> Entry {
        match self.nodes.borrow().get(name) {
            Some(Node::File(bytes)) => Entry::File(bytes.clone()),
            Some(_) => Entry::NotRegular,
            None => Entry::Missing,
        }
    }

    fn entries(&self) -> Vec<DirEntry> {
        self.nodes
            .borrow()
            .iter()
            .map(|(name, node)| match node {
                Node::File(bytes) => DirEntry {
                    name: Some(name.clone()),
                    regular: true,
                    text: String::from_utf8(bytes.clone()).ok(),
                },
                _ => DirEntry { name: Some(name.clone()), regular: false, text: None },
            })
            .collect()
    }

    fn undo(&self, actions: Vec<Written>) {
        for action in actions {
            match action.prior {
                Prior::Existed(bytes) => self.put(&action.name, Node::File(bytes)),
                Prior::Absent => {
                    self.nodes.borrow_mut().remove(&action.name);
                }
            }
        }
    }
}

/// Remove the daemon's files but for `keep`; the number removed.
fn remove_managed(dir: &FakeDir, keep: Option<Vec<String>>) -> Result<usize, String> {
    let names = managed_files(&dir.entries(), &keep);
    for name in &names {
        if dir.immutable.borrow().contains(name) {
            return Err("Operation not permitted".to_string());
        }
        dir.nodes.borrow_mut().remove(name);
    }
    Ok(names.len())
}

/// Carry out what an apply asks of the directory.
fn scope(dir: &FakeDir, first: ScopeStep) -> Result<(), PlatformError> {
    let mut step = first;
    loop {
        step = match step {
            ScopeStep::Inspect { name, plan } => {
                let entry = dir.inspect(&name);
                inspected(name, plan, entry)
            }
            ScopeStep::Write { name, contents, prior, plan } => {
                dir.write(&name, &contents);
                wrote(name, prior, plan, Ok(()))
            }
            ScopeStep::Prune { keep, plan } => {
                pruned(plan, remove_managed(dir, Some(keep)).map(|_| ()))
            }
            ScopeStep::Undo { actions, error } => {
                dir.undo(actions);
                return Err(error);
            }
            ScopeStep::Finished(result) => return result,
        };
    }
}

fn apply_to_dir(
    dir: &FakeDir,
    servers: &Vec<String>,
    domains: &[String],
) -> Result<(), PlatformError> {
    scope(dir, begin_scope("/etc/resolver", servers, &domains.to_vec()))
}

/// Route `domains` to `corp`, and all else to the fallback.
fn apply_with(
    dir: &FakeDir,
    corp: &[String],
    domains: &[String],
    fallback: Option<&[String]>,
    scutil: &FakeScutil,
    snaps: &MemSnapshots,
) -> Result<(), PlatformError> {
    let info = VpnInfo {
        interface_name: "utun4".to_string(),
        dns_servers: corp.to_vec(),
        demote_target: fallback.map(|f| f.to_vec()),
    };
    let mut step = MacosBackend.apply_rules(&info, &domains.to_vec());
    loop {
        step = match step {
            PipelineStep::Scope { step, fallback, corp_dns } => {
                scoped(fallback, corp_dns, scope(dir, step))
            }
            PipelineStep::Demote { step } => demoted(carry_out(step, scutil, snaps)),
            PipelineStep::Unscope { error } => {
                remove_managed(dir, None).unwrap();
                return Err(error);
            }
            PipelineStep::Flush => return Ok(()),
            PipelineStep::Failed(e) => return Err(e),
        };
    }
}

/// Take everything back: the files removed, and whether the cache is flushed.
fn take_back(
    dir: &FakeDir,
    scutil: &FakeScutil,
    snaps: &MemSnapshots,
) -> Result<(usize, bool), PlatformError> {
    let mut step = files_removed(remove_managed(dir, None));
    loop {
        step = match step {
            RevertStep::Restore { step, removed } => {
                restored(removed, carry_out(step, scutil, snaps))
            }
            RevertStep::Reverted { removed, flush } => return Ok((removed, flush)),
            RevertStep::Failed(e) => return Err(e),
        };
    }
}

fn revert_with(
    dir: &FakeDir,
    scutil: &FakeScutil,
    snaps: &MemSnapshots,
) -> Result<usize, PlatformError> {
    take_back(dir, scutil, snaps).map(|(removed, _)| removed)
}

fn servers() -> Vec<String> {
    vec!["10.0.0.1".to_string(), "10.0.0.2".to_string()]
}

#[test]
fn apply_with_scopes_and_demotes_to_the_fallback() {
    let dir = FakeDir::new();
    let scutil = FakeScutil::up();
    let snaps = MemSnapshots::default();
    let corp = vec!["192.0.2.53".to_string()];
    let fallback = vec!["198.51.100.1".to_string()];

    apply_with(
        &dir,
        &corp,
        &[
            "corp.example.com".to_string(),
            "jira.corp.example.com".to_string(),
        ],
        Some(fallback.as_slice()),
        &scutil,
        &snaps,
    )
    .unwrap();

    // Scope: a managed resolver file per corp domain, pointing at corp DNS.
    for domain in ["corp.example.com", "jira.corp.example.com"] {
        let body = dir.read(domain);
        assert!(is_managed(&body));
        assert!(body.contains("nameserver 192.0.2.53"));
    }
    // Demote: exactly the set-fallback script on the primary service, and
    // the prior default snapshotted for restore.
    let scripts = scutil.scripts.borrow();
    assert_eq!(scripts.len(), 1);
    assert!(scripts[0].contains("d.add ServerAddresses * 198.51.100.1\n"));
    assert!(scripts[0].contains("set State:/Network/Service/ABC/DNS\n"));
    drop(scripts);
    assert_eq!(
        snaps.slot.borrow().as_ref().unwrap().prior_servers,
        vec!["198.51.100.1".to_string()]
    );
}

#[test]
fn apply_with_no_fallback_scopes_only_no_demote() {
    let dir = FakeDir::new();
    let scutil = FakeScutil::up();
    let snaps = MemSnapshots::default();
    apply_with(
        &dir,
        &["192.0.2.53".to_string()],
        &["corp.example.com".to_string()],
        None,
        &scutil,
        &snaps,
    )
    .unwrap();
    assert!(dir.has("corp.example.com"));
    // No demote issued, nothing snapshotted.
    assert!(scutil.scripts.borrow().is_empty());
    assert!(snaps.slot.borrow().is_none());
}

#[test]
fn apply_with_rolls_back_the_scope_when_the_demote_fails() {
    // Transactional across both steps: a demote failure must undo the
    // resolver scope so the system is never left half-changed.
    let dir = FakeDir::new();
    let scutil = FakeScutil::up();
    scutil.fail_on_set();
    let snaps = MemSnapshots::default();

    let result = apply_with(
        &dir,
        &["192.0.2.53".to_string()],
        &["corp.example.com".to_string()],
        Some(&["198.51.100.1".to_string()]),
        &scutil,
        &snaps,
    );
    assert!(result.is_err(), "a demote failure fails the whole apply");
    // The scope was rolled back — no managed resolver file remains.
    assert!(
        !dir.has("corp.example.com"),
        "the resolver scope must be rolled back on demote failure"
    );
}

#[test]
fn revert_with_removes_files_and_restores_the_default() {
    let dir = FakeDir::new();
    let scutil = FakeScutil::up();
    let snaps = MemSnapshots::default();
    // Apply (scope + demote), then revert.
    apply_with(
        &dir,
        &["192.0.2.53".to_string()],
        &["corp.example.com".to_string()],
        Some(&["198.51.100.1".to_string()]),
        &scutil,
        &snaps,
    )
    .unwrap();
    scutil.scripts.borrow_mut().clear();

    let removed = revert_with(&dir, &scutil, &snaps).unwrap();
    assert_eq!(removed, 1, "the one managed resolver file is removed");
    assert!(!dir.has("corp.example.com"));
    // The default was restored to the snapshotted prior servers, and the
    // snapshot cleared.
    let scripts = scutil.scripts.borrow();
    assert_eq!(scripts.len(), 1);
    assert!(scripts[0].contains("d.add ServerAddresses * 198.51.100.1\n"));
    drop(scripts);
    assert!(snaps.slot.borrow().is_none());
}

#[test]
fn revert_with_nothing_applied_is_a_clean_noop() {
    let dir = FakeDir::new();
    let scutil = FakeScutil::up();
    let snaps = MemSnapshots::default();
    let removed = revert_with(&dir, &scutil, &snaps).unwrap();
    assert_eq!(removed, 0);
    assert!(scutil.scripts.borrow().is_empty());
}

#[test]
fn apply_writes_one_marked_file_per_domain() {
    let dir = FakeDir::new();
    apply_to_dir(
        &dir,
        &servers(),
        &["a.com".to_string(), "b.com".to_string()],
    )
    .unwrap();

    for domain in ["a.com", "b.com"] {
        let body = dir.read(domain);
        assert!(is_managed(&body), "{domain} should be marked ours");
        assert!(body.contains("nameserver 10.0.0.1"));
        assert!(body.contains("nameserver 10.0.0.2"));
    }
}

#[test]
fn apply_creates_missing_resolver_dir() {
    let dir = FakeDir::new();
    apply_to_dir(&dir, &servers(), &["a.com".to_string()]).unwrap();
    assert!(dir.has("a.com"));
}

#[test]
fn reapply_with_fewer_domains_prunes_the_dropped_one() {
    let dir = FakeDir::new();
    apply_to_dir(
        &dir,
        &servers(),
        &["a.com".to_string(), "b.com".to_string()],
    )
    .unwrap();
    // Re-apply with b.com dropped: its file must be pruned, a.com kept.
    apply_to_dir(&dir, &servers(), &["a.com".to_string()]).unwrap();
    assert!(dir.has("a.com"));
    assert!(!dir.has("b.com"));
}

#[test]
fn revert_removes_only_files_we_own() {
    let dir = FakeDir::new();
    apply_to_dir(&dir, &servers(), &["a.com".to_string()]).unwrap();
    // A resolver file the user wrote by hand.
    dir.write("user.example", "nameserver 9.9.9.9\n");

    let removed = remove_managed(&dir, None).unwrap();
    assert_eq!(removed, 1);
    assert!(!dir.has("a.com"), "our file is removed");
    assert!(dir.has("user.example"), "the user's file is untouched");
}

#[test]
fn revert_on_missing_dir_is_noop() {
    let missing = FakeDir::new();
    assert_eq!(remove_managed(&missing, None).unwrap(), 0);
}

#[test]
fn failed_write_rolls_back_files_written_in_this_call() {
    // Make the second domain unwritable by pre-creating it as a directory:
    // atomic_write renames a temp file over the path, which fails on a dir.
    let dir = FakeDir::new();
    dir.put("b.com", Node::Directory);

    let err = apply_to_dir(
        &dir,
        &servers(),
        &["a.com".to_string(), "b.com".to_string()],
    )
    .unwrap_err();
    assert!(matches!(err, PlatformError::CommandFailed(_)));
    // a.com was newly created then rolled back when b.com failed: no
    // partial split-DNS set remains.
    assert!(!dir.has("a.com"), "a.com must be rolled back");
}

#[test]
fn failed_reapply_restores_previously_live_files() {
    let dir = FakeDir::new();
    // Establish a live set with the original servers.
    let v1 = vec!["10.0.0.1".to_string()];
    apply_to_dir(&dir, &v1, &["a.com".to_string(), "b.com".to_string()]).unwrap();
    let a_before = dir.read("a.com");

    // Force a re-apply (with NEW servers) to fail at c.com — a directory
    // cannot be atomically overwritten by a file.
    dir.put("c.com", Node::Directory);
    let v2 = vec!["10.9.9.9".to_string()];
    let err = apply_to_dir(
        &dir,
        &v2,
        &[
            "a.com".to_string(),
            "b.com".to_string(),
            "c.com".to_string(),
        ],
    )
    .unwrap_err();
    assert!(matches!(err, PlatformError::CommandFailed(_)));

    // The previously-live files survive with their ORIGINAL contents — a
    // failed re-apply is non-destructive, not a partial/empty wipe.
    assert_eq!(dir.read("a.com"), a_before);
    assert!(dir.has("b.com"));
    assert!(a_before.contains("nameserver 10.0.0.1"));
    assert!(!a_before.contains("10.9.9.9"));
}

#[test]
fn apply_refuses_to_overwrite_a_user_authored_resolver() {
    let dir = FakeDir::new();
    // The user already has a hand-written resolver for this domain.
    dir.write("corp.example.com", "nameserver 9.9.9.9\n");

    let err = apply_to_dir(&dir, &servers(), &["corp.example.com".to_string()]).unwrap_err();
    assert!(matches!(err, PlatformError::CommandFailed(_)));
    // The user's file is left exactly as it was — not replaced by a managed
    // file that a later revert would delete.
    assert_eq!(dir.read("corp.example.com"), "nameserver 9.9.9.9\n");
}

#[test]
fn apply_refuses_to_overwrite_a_symlink() {
    let dir = FakeDir::new();
    // A resolver entry that is a symlink — even pointing at a file that
    // carries our marker — must not be followed or replaced.
    dir.write("real-target", &resolver_contents(&servers()));
    dir.put("corp.example.com", Node::Link);

    let err = apply_to_dir(&dir, &servers(), &["corp.example.com".to_string()]).unwrap_err();
    assert!(matches!(err, PlatformError::CommandFailed(_)));
    // The symlink is left as-is (not followed, not replaced by a file).
    assert!(matches!(dir.nodes.borrow().get("corp.example.com"), Some(Node::Link)));
}

#[test]
fn invalid_domain_is_rejected_before_any_write() {
    let dir = FakeDir::new();
    let err = apply_to_dir(&dir, &servers(), &["../escape".to_string()]).unwrap_err();
    assert!(matches!(err, PlatformError::CommandFailed(_)));
    assert!(!dir.has("../escape"));
}

#[test]
fn failed_prune_rolls_back_this_calls_writes() {
    // A stale managed file for a dropped domain cannot be removed, so the prune
    // fails after the fresh write for a.com succeeds.
    let dir = FakeDir::new();
    dir.write("b.com", &resolver_contents(&servers()));
    dir.immutable.borrow_mut().insert("b.com".to_string());

    let err = apply_to_dir(&dir, &servers(), &["a.com".to_string()]).unwrap_err();
    assert!(matches!(err, PlatformError::CommandFailed(_)));
    // The freshly-written a.com (Prior::Absent) is rolled back, and the
    // un-prunable file is left untouched.
    assert!(
        !dir.has("a.com"),
        "the fresh write must be rolled back when prune fails"
    );
    assert!(dir.has("b.com"), "an un-prunable file is left intact");
}

#[test]
fn read_managed_state_reconstructs_domains_and_servers() {
    let dir = FakeDir::new();
    apply_to_dir(
        &dir,
        &servers(),
        &["a.example.com".to_string(), "b.example.com".to_string()],
    )
    .unwrap();

    let state = read_managed_state(&dir.entries());
    // Domains are the managed filenames (sorted order is stable).
    assert_eq!(
        state.routing_domains,
        vec!["a.example.com", "b.example.com"]
    );
    // Servers are de-duplicated across the per-domain files.
    assert_eq!(state.servers, vec!["10.0.0.1", "10.0.0.2"]);
}

#[test]
fn read_managed_state_ignores_unmanaged_files() {
    let dir = FakeDir::new();
    apply_to_dir(&dir, &servers(), &["a.example.com".to_string()]).unwrap();
    // A resolver file the user wrote by hand must not appear in the read-back.
    dir.write("user.example", "nameserver 198.51.100.9\n");

    let state = read_managed_state(&dir.entries());
    assert_eq!(state.routing_domains, vec!["a.example.com"]);
    assert_eq!(state.servers, vec!["10.0.0.1", "10.0.0.2"]);
}

#[test]
fn read_managed_state_on_missing_dir_is_empty() {
    let missing = FakeDir::new();
    let state = read_managed_state(&missing.entries());
    assert!(state.servers.is_empty());
    assert!(state.routing_domains.is_empty());
}

#[test]
fn read_managed_state_skips_symlinks() {
    let dir = FakeDir::new();
    // A genuine managed file that must appear in the read-back.
    apply_to_dir(&dir, &servers(), &["a.example.com".to_string()]).unwrap();
    // A managed-marker target *outside* the scanned dir, and a symlink inside
    // the dir whose name looks like a routing domain pointing at it.
    // `symlink_metadata` must not follow the link, so neither the symlink's
    // name nor the target's servers leak into the live state.
    dir.put("evil.example.com", Node::Link);

    let state = read_managed_state(&dir.entries());
    // Only the real managed file's domain; the symlink's name is excluded.
    assert_eq!(state.routing_domains, vec!["a.example.com"]);
    // The symlink target's server (198.51.100.9) is not read through.
    assert_eq!(state.servers, vec!["10.0.0.1", "10.0.0.2"]);
}


#[test]
fn the_cache_is_flushed_if_the_default_was_restored_though_no_file_was_left() {
    let dir = FakeDir::new();
    let scutil = FakeScutil::up();
    let snaps = MemSnapshots::default();
    apply_with(
        &dir,
        &["192.0.2.53".to_string()],
        &["corp.example.com".to_string()],
        Some(&["198.51.100.1".to_string()]),
        &scutil,
        &snaps,
    )
    .unwrap();
    dir.nodes.borrow_mut().clear();
    assert_eq!(take_back(&dir, &scutil, &snaps), Ok((0, true)));
    assert_eq!(take_back(&dir, &scutil, &snaps), Ok((0, false)));
}

#[test]
fn an_invalid_domain_is_shown_in_quotes() {
    let dir = FakeDir::new();
    assert_eq!(
        apply_to_dir(&dir, &servers(), &["a\n\"b".to_string()]),
        Err(PlatformError::CommandFailed(
            "refusing to apply invalid domain name: \"a\\n\\\"b\"".to_string()
        ))
    );
}

#[test]
fn apply_without_servers_fails() {
    let info = VpnInfo {
        interface_name: "utun4".to_string(),
        dns_servers: vec![],
        demote_target: None,
    };
    assert_eq!(
        MacosBackend.apply_rules(&info, &vec!["corp.example.com".to_string()]),
        PipelineStep::Failed(PlatformError::CommandFailed("no DNS servers in VpnInfo".to_string()))
    );
    assert!(MacosBackend.reverts_globally());
}

#[test]
fn a_resolution_lists_each_address_once_in_order() {
    let addresses = vec!["b".to_string(), "a".to_string(), "b".to_string()];
    let info = resolved("host", addresses).unwrap();
    assert_eq!(info.addresses, vec!["a", "b"]);
    assert_eq!(
        resolved("host", vec![]),
        Err(PlatformError::ParseError("no addresses resolved for host".to_string()))
    );
}

#[test]
fn exactly_the_wanted_domains_are_left_and_read_back() {
    let dir = FakeDir::new();
    apply_to_dir(&dir, &servers(), &["old.example.com".to_string()]).unwrap();
    dir.write("user.example", "nameserver 198.51.100.9\n");
    dir.put("blob.example", Node::File(vec![0xff, 0xfe]));

    // A domain and a server given twice count once.
    let again = vec!["10.0.0.7".to_string(), "10.0.0.7".to_string()];
    let wanted = ["b.example.com", "a.example.com", "b.example.com"].map(String::from);
    apply_to_dir(&dir, &again, &wanted).unwrap();

    assert!(!dir.has("old.example.com"));
    assert!(dir.has("blob.example"));
    assert_eq!(dir.read("user.example"), "nameserver 198.51.100.9\n");
    assert_eq!(dir.read("a.example.com"), resolver_contents(&again));
    let state = read_managed_state(&dir.entries());
    assert_eq!(state.routing_domains, vec!["a.example.com", "b.example.com"]);
    assert_eq!(state.servers, vec!["10.0.0.7"]);

    assert_eq!(remove_managed(&dir, None), Ok(2));
    assert_eq!(read_managed_state(&dir.entries()).routing_domains, Vec::<String>::new());
    assert!(dir.has("user.example") && dir.has("blob.example"));
}
