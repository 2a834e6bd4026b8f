//! The daemon's state machine as mathematics: what it holds, what it asks of
//! the world around it, and how each outcome moves it.
//!
//! A transition takes the state to the next state and a [`StepModel`]: either
//! the end of the work at hand, or one effect to perform together with what
//! is to happen once its outcome is known.

use vstd::prelude::*;
use crate::config::{watch_keys_differ, ConfigModel, VpnBackend};
use crate::platform::{EventModel, InfoModel};
use crate::text::{joined, Text};
use crate::wire::{
    AppliedInfoModel, ConfigViewModel, DomainCheckModel, HealthModel, InterfaceModel,
    ResolutionModel, ResponseModel, RoutingState, StatusModel,
};

verus! {

/// What was last installed on the system, or last attempted.
pub struct AppliedModel {
    pub interface: Text,
    pub domains: Seq<Text>,
    pub dns: Seq<Text>,
    pub demote: Option<Seq<Text>>,
}

/// Everything the state machine holds.
pub struct MachineModel {
    pub config: ConfigModel,
    pub path: Text,
    /// Reverting one interface reverts all of them.
    pub global: bool,
    /// The control socket is open to a group.
    pub locked: bool,
    /// The last read of the configuration failed.
    pub config_invalid: bool,
    pub vpn_up: bool,
    pub last_info: Option<InfoModel>,
    pub applied: Option<AppliedModel>,
    /// Interfaces whose rules a switch left behind.
    pub orphaned: Seq<Text>,
    /// The last apply or revert failed, so `applied` may not hold.
    pub needs_resync: bool,
    /// A cleanup of what an earlier process left behind is outstanding.
    pub pending_cleanup: bool,
    pub generation: u64,
    pub health: HealthModel,
}

/// How a blocking call ended.
pub enum CallModel {
    Done,
    Failed(Text),
    Panicked(Text),
}

/// A call on the DNS backend.
pub enum BackendModel {
    Apply { info: InfoModel, domains: Seq<Text> },
    Revert { interface: Text },
}

/// A change of the VPN watch.
pub enum WatchModel {
    Stop,
    Start { generation: u64, interface: Text },
}

/// How the outcome of adopting a configuration is reported.
pub enum ReplyModel {
    Current,
    Duplicate(Text),
    Reload,
    Saved,
    External,
}

/// What follows a reconcile.
pub enum ThenModel {
    Event,
    Adopt { rearm: bool, reply: ReplyModel },
}

/// What a backend call's outcome is for.
pub enum AfterBackendModel {
    Applying { target: AppliedModel, then: ThenModel },
    Reverting { then: ThenModel },
    Cleaning { then: ThenModel },
    Orphans {
        list: Seq<Text>,
        outcomes: Seq<CallModel>,
        primary: Result<(), Text>,
        then: ThenModel,
    },
    Startup,
    ShutdownOrphans { list: Seq<Text>, outcomes: Seq<CallModel> },
    ShutdownRevert,
}

/// What follows a change of the VPN watch.
pub enum EndModel {
    Idle,
    Reply { reply: ReplyModel, result: Result<(), Text> },
}

/// What the outcome of a change of the VPN watch is for.
pub struct AfterWatchModel {
    pub started: bool,
    pub end: EndModel,
}

/// What a read of the configuration is for.
pub enum LoadModel {
    Enable(bool),
    Add(Text),
    Remove { raw: Text, host: Option<Text> },
    Reload,
    External,
    Edit(ConfigViewModel),
}

/// What a comparison of hosts is for.
pub enum MatchModel {
    Add { next: ConfigModel, host: Text },
    Remove { next: ConfigModel, raw: Text },
}

/// What the normal form of a host is for.
pub enum NormalizeModel {
    Add,
    Remove { raw: Text },
    Check,
}

/// What a route check reports, save the resolution.
pub struct CheckModel {
    pub host: Text,
    pub matched: Option<Text>,
    pub interface: Text,
    pub enabled: bool,
    pub vpn_up: bool,
    pub routing_state: RoutingState,
}

/// What the state machine asks for next.
#[allow(inconsistent_fields)]
pub enum StepModel {
    Idle,
    Reply(ResponseModel),
    Stopped(bool),
    Normalize { raw: Text, then: NormalizeModel },
    Load(LoadModel),
    Match { host: Text, entries: Seq<Text>, then: MatchModel },
    Save(ConfigModel),
    Backend { call: BackendModel, then: AfterBackendModel },
    Watch { call: WatchModel, then: AfterWatchModel },
    ListInterfaces,
    Cover { host: Text, entries: Seq<Text> },
    Resolve(CheckModel),
    ReadBack { interface: Option<Text>, applied: Option<AppliedInfoModel> },
}

/// A state and what it asks for.
pub type Next = (MachineModel, StepModel);

// ---------------------------------------------------------------------------
// What should be applied
// ---------------------------------------------------------------------------

/// May rules be installed on the strength of this VPN report? Where reverting
/// is per interface, only for the configured interface.
pub open spec fn gate(m: MachineModel, info: InfoModel) -> bool {
    m.global || info.interface == m.config.vpn_name
}

/// The fallback resolvers to hand to the backend: the configured ones, else
/// the detected ones.
pub open spec fn effective_demote(m: MachineModel, info: InfoModel) -> Option<Seq<Text>> {
    match m.config.fallback_dns {
        Some(servers) => if servers.len() > 0 {
            Some(servers)
        } else {
            info.demote
        },
        None => info.demote,
    }
}

/// The VPN report, when it carries resolvers and may be acted on.
pub open spec fn usable_info(m: MachineModel) -> Option<InfoModel> {
    match m.last_info {
        Some(info) => if info.dns.len() > 0 && gate(m, info) {
            Some(info)
        } else {
            None
        },
        None => None,
    }
}

/// What should be installed; `None` when nothing should be.
pub open spec fn desired(m: MachineModel) -> Option<(InfoModel, Seq<Text>)> {
    match usable_info(m) {
        Some(info) => if m.config.enabled && m.vpn_up && m.config.hosts.len() > 0 {
            Some((InfoModel { demote: effective_demote(m, info), ..info }, m.config.hosts))
        } else {
            None
        },
        None => None,
    }
}

/// The record of having installed `domains` on the strength of `info`.
pub open spec fn target_of(info: InfoModel, domains: Seq<Text>) -> AppliedModel {
    AppliedModel { interface: info.interface, domains, dns: info.dns, demote: info.demote }
}

/// The record the state machine is driving toward.
pub open spec fn goal(m: MachineModel) -> Option<AppliedModel> {
    match desired(m) {
        Some((info, domains)) => Some(target_of(info, domains)),
        None => None,
    }
}

/// The first half of a reconcile: what to do about the goal.
pub enum PrimaryModel {
    /// The goal is met.
    Keep,
    /// Nothing is installed and nothing should be.
    Settle,
    Apply { info: InfoModel, domains: Seq<Text> },
    Revert { interface: Text },
    Cleanup { interface: Text },
}

/// What to do about the goal.
pub open spec fn primary_action(m: MachineModel) -> PrimaryModel {
    match desired(m) {
        Some((info, domains)) => if !m.needs_resync && m.applied == Some(target_of(info, domains)) {
            PrimaryModel::Keep
        } else {
            PrimaryModel::Apply { info, domains }
        },
        None => match m.applied {
            Some(a) => PrimaryModel::Revert { interface: a.interface },
            None => if m.pending_cleanup {
                PrimaryModel::Cleanup { interface: m.config.vpn_name }
            } else {
                PrimaryModel::Settle
            },
        },
    }
}

// ---------------------------------------------------------------------------
// Outcomes
// ---------------------------------------------------------------------------

/// The result of a call, where a panic is reported under `label`.
pub open spec fn call_result(outcome: CallModel, label: Text) -> Result<(), Text> {
    match outcome {
        CallModel::Done => Ok(()),
        CallModel::Failed(e) => Err(e),
        CallModel::Panicked(e) => Err(label + e),
    }
}

/// The interfaces among the first `n` whose revert did not succeed.
pub open spec fn unclean(list: Seq<Text>, outcomes: Seq<CallModel>, n: int) -> Seq<Text>
    decreases n,
{
    if n <= 0 {
        Seq::empty()
    } else if outcomes[n - 1] is Done {
        unclean(list, outcomes, n - 1)
    } else {
        unclean(list, outcomes, n - 1).push(list[n - 1])
    }
}

/// Why the last of the first `n` reverts that failed did so.
pub open spec fn last_failure(list: Seq<Text>, outcomes: Seq<CallModel>, n: int) -> Option<Text>
    decreases n,
{
    if n <= 0 {
        None
    } else {
        match call_result(
            outcomes[n - 1],
            "orphan revert task panicked for "@ + list[n - 1] + ": "@,
        ) {
            Ok(_) => last_failure(list, outcomes, n - 1),
            Err(e) => Some(e),
        }
    }
}

/// The failure to clean up `kept`, the last of them for the reason `cause`.
pub open spec fn stale_error(kept: Seq<Text>, cause: Option<Text>) -> Text {
    "stale split-DNS rules remain on "@ + joined(kept, ", "@)
        + " (orphaned by an earlier failed switch) and could not be cleaned up"@ + match cause {
        Some(e) => ": "@ + e,
        None => Seq::empty(),
    }
}

/// The outcome of a round of orphan cleanup.
pub open spec fn orphan_result(list: Seq<Text>, outcomes: Seq<CallModel>) -> Result<(), Text> {
    let kept = unclean(list, outcomes, list.len() as int);
    if kept.len() == 0 {
        Ok(())
    } else {
        Err(stale_error(kept, last_failure(list, outcomes, list.len() as int)))
    }
}

/// The first failure of the two, if any.
pub open spec fn both(a: Result<(), Text>, b: Result<(), Text>) -> Result<(), Text> {
    match a {
        Ok(_) => b,
        Err(e) => Err(e),
    }
}

/// How the result of adopting a configuration is reported.
pub open spec fn finish(reply: ReplyModel, result: Result<(), Text>) -> StepModel {
    match reply {
        ReplyModel::Current => match result {
            Ok(_) => StepModel::Reply(ResponseModel::Done),
            Err(e) => StepModel::Reply(
                ResponseModel::Error("failed to apply current state: "@ + e),
            ),
        },
        ReplyModel::Duplicate(domain) => match result {
            Ok(_) => StepModel::Reply(ResponseModel::Error("domain already present: "@ + domain)),
            Err(e) => StepModel::Reply(
                ResponseModel::Error(
                    "domain already present: "@ + domain
                        + " (and applying the current config failed: "@ + e + ")"@,
                ),
            ),
        },
        ReplyModel::Reload => match result {
            Ok(_) => StepModel::Reply(ResponseModel::Done),
            Err(e) => StepModel::Reply(
                ResponseModel::Error("config reloaded, but applying it failed: "@ + e),
            ),
        },
        ReplyModel::Saved => match result {
            Ok(_) => StepModel::Reply(ResponseModel::Done),
            Err(e) => StepModel::Reply(
                ResponseModel::Error("config saved, but applying it failed: "@ + e),
            ),
        },
        ReplyModel::External => StepModel::Idle,
    }
}

/// The reply to a change that could not read the configuration.
pub open spec fn unreadable(e: Text) -> ResponseModel {
    ResponseModel::Error(
        "cannot change settings: the config file on disk could not be read ("@ + e
            + ") — fix it on disk; the daemon keeps running on the last-good config"@,
    )
}

// ---------------------------------------------------------------------------
// The VPN watch
// ---------------------------------------------------------------------------

/// Replace the VPN watch by one for the current configuration.
pub open spec fn arm(m: MachineModel, end: EndModel) -> Next {
    let generation = if m.generation == u64::MAX {
        0u64
    } else {
        (m.generation + 1) as u64
    };
    if m.config.vpn_name.len() == 0 {
        (
            MachineModel { generation, health: HealthModel::Inactive, ..m },
            StepModel::Watch {
                call: WatchModel::Stop,
                then: AfterWatchModel { started: false, end },
            },
        )
    } else {
        (
            MachineModel { generation, ..m },
            StepModel::Watch {
                call: WatchModel::Start { generation, interface: m.config.vpn_name },
                then: AfterWatchModel { started: true, end },
            },
        )
    }
}

/// The VPN watch was replaced, or could not be.
pub open spec fn watch_step(
    m: MachineModel,
    after: AfterWatchModel,
    outcome: Result<(), Text>,
) -> Next {
    let health = if !after.started {
        m.health
    } else {
        match outcome {
            Ok(_) => HealthModel::Active,
            Err(e) => HealthModel::Error(e),
        }
    };
    (
        MachineModel { health, ..m },
        match after.end {
            EndModel::Idle => StepModel::Idle,
            EndModel::Reply { reply, result } => finish(reply, result),
        },
    )
}

// ---------------------------------------------------------------------------
// Reconciling
// ---------------------------------------------------------------------------

/// Hand an interface that a switch failed to revert over to the orphans.
/// Where reverting is global there is no such interface: the next apply
/// replaces the same shared state.
pub open spec fn set_aside_stale(m: MachineModel) -> MachineModel {
    match m.applied {
        Some(a) => if a.interface != m.config.vpn_name && !m.global {
            MachineModel {
                orphaned: if m.orphaned.contains(a.interface) {
                    m.orphaned
                } else {
                    m.orphaned.push(a.interface)
                },
                applied: None,
                needs_resync: false,
                ..m
            }
        } else {
            m
        },
        None => m,
    }
}

/// A reconcile ended with `result`.
pub open spec fn after_reconcile(
    m: MachineModel,
    result: Result<(), Text>,
    then: ThenModel,
) -> Next {
    match then {
        ThenModel::Event => (m, StepModel::Idle),
        ThenModel::Adopt { rearm, reply } => if rearm {
            arm(set_aside_stale(m), EndModel::Reply { reply, result })
        } else {
            (m, finish(reply, result))
        },
    }
}

/// The orphans to clean up: never the interface that is applied now.
pub open spec fn to_clean(m: MachineModel) -> Seq<Text> {
    match m.applied {
        Some(a) => m.orphaned.filter(|i: Text| i != a.interface),
        None => m.orphaned,
    }
}

/// The second half of a reconcile, after the first ended with `primary`.
pub open spec fn orphans_step(
    m: MachineModel,
    primary: Result<(), Text>,
    then: ThenModel,
) -> Next {
    let list = to_clean(m);
    let cleaned = MachineModel { orphaned: list, ..m };
    if list.len() == 0 {
        after_reconcile(cleaned, primary, then)
    } else {
        (
            cleaned,
            StepModel::Backend {
                call: BackendModel::Revert { interface: list[0] },
                then: AfterBackendModel::Orphans { list, outcomes: Seq::empty(), primary, then },
            },
        )
    }
}

/// Drive the system toward the goal.
pub open spec fn reconcile_step(m: MachineModel, then: ThenModel) -> Next {
    match primary_action(m) {
        PrimaryModel::Keep => orphans_step(m, Ok(()), then),
        PrimaryModel::Settle => orphans_step(
            MachineModel { needs_resync: false, ..m },
            Ok(()),
            then,
        ),
        PrimaryModel::Apply { info, domains } => (
            m,
            StepModel::Backend {
                call: BackendModel::Apply { info, domains },
                then: AfterBackendModel::Applying { target: target_of(info, domains), then },
            },
        ),
        PrimaryModel::Revert { interface } => (
            m,
            StepModel::Backend {
                call: BackendModel::Revert { interface },
                then: AfterBackendModel::Reverting { then },
            },
        ),
        PrimaryModel::Cleanup { interface } => (
            m,
            StepModel::Backend {
                call: BackendModel::Revert { interface },
                then: AfterBackendModel::Cleaning { then },
            },
        ),
    }
}

/// The state after an apply of `target`. A failed one is recorded too: the
/// system may be half configured, and is to be cleaned up and tried again.
pub open spec fn after_apply(
    m: MachineModel,
    target: AppliedModel,
    outcome: CallModel,
) -> MachineModel {
    if outcome is Done {
        MachineModel {
            applied: Some(target),
            needs_resync: false,
            pending_cleanup: false,
            ..m
        }
    } else {
        MachineModel { applied: Some(target), needs_resync: true, ..m }
    }
}

/// The state after a revert of what is applied.
pub open spec fn after_revert(m: MachineModel, outcome: CallModel) -> MachineModel {
    if outcome is Done {
        MachineModel { applied: None, needs_resync: false, ..m }
    } else {
        MachineModel { needs_resync: true, ..m }
    }
}

/// The state after retrying the cleanup of what an earlier process left.
pub open spec fn after_cleanup(m: MachineModel, outcome: CallModel) -> MachineModel {
    if outcome is Done {
        MachineModel { pending_cleanup: false, needs_resync: false, ..m }
    } else {
        m
    }
}

/// Revert what is applied before stopping, if anything is.
pub open spec fn shutdown_applied_step(m: MachineModel) -> Next {
    match m.applied {
        None => (m, StepModel::Stopped(m.orphaned.len() == 0)),
        Some(a) => (
            m,
            StepModel::Backend {
                call: BackendModel::Revert { interface: a.interface },
                then: AfterBackendModel::ShutdownRevert,
            },
        ),
    }
}

/// Stop: clean up the orphans, then revert what is applied.
pub open spec fn shutdown_step(m: MachineModel) -> Next {
    let list = to_clean(m);
    let cleaned = MachineModel { orphaned: list, ..m };
    if list.len() == 0 {
        shutdown_applied_step(cleaned)
    } else {
        (
            cleaned,
            StepModel::Backend {
                call: BackendModel::Revert { interface: list[0] },
                then: AfterBackendModel::ShutdownOrphans { list, outcomes: Seq::empty() },
            },
        )
    }
}

/// A backend call ended.
pub open spec fn backend_step(
    m: MachineModel,
    after: AfterBackendModel,
    outcome: CallModel,
) -> Next {
    match after {
        AfterBackendModel::Applying { target, then } => orphans_step(
            after_apply(m, target, outcome),
            call_result(outcome, "apply task panicked: "@),
            then,
        ),
        AfterBackendModel::Reverting { then } => orphans_step(
            after_revert(m, outcome),
            call_result(outcome, "revert task panicked: "@),
            then,
        ),
        AfterBackendModel::Cleaning { then } => orphans_step(
            after_cleanup(m, outcome),
            call_result(outcome, "orphaned-state cleanup task panicked: "@),
            then,
        ),
        AfterBackendModel::Orphans { list, outcomes, primary, then } => {
            let all = outcomes.push(outcome);
            if all.len() < list.len() {
                (
                    m,
                    StepModel::Backend {
                        call: BackendModel::Revert { interface: list[all.len() as int] },
                        then: AfterBackendModel::Orphans { list, outcomes: all, primary, then },
                    },
                )
            } else {
                after_reconcile(
                    MachineModel { orphaned: unclean(list, all, list.len() as int), ..m },
                    both(primary, orphan_result(list, all)),
                    then,
                )
            }
        },
        AfterBackendModel::Startup => arm(
            MachineModel { pending_cleanup: m.pending_cleanup || !(outcome is Done), ..m },
            EndModel::Idle,
        ),
        AfterBackendModel::ShutdownOrphans { list, outcomes } => {
            let all = outcomes.push(outcome);
            if all.len() < list.len() {
                (
                    m,
                    StepModel::Backend {
                        call: BackendModel::Revert { interface: list[all.len() as int] },
                        then: AfterBackendModel::ShutdownOrphans { list, outcomes: all },
                    },
                )
            } else {
                shutdown_applied_step(
                    MachineModel { orphaned: unclean(list, all, list.len() as int), ..m },
                )
            }
        },
        AfterBackendModel::ShutdownRevert => (
            after_revert(m, outcome),
            StepModel::Stopped(outcome is Done && m.orphaned.len() == 0),
        ),
    }
}

// ---------------------------------------------------------------------------
// Events and configuration
// ---------------------------------------------------------------------------

/// A fresh state machine.
pub open spec fn initial(config: ConfigModel, path: Text, global: bool, locked: bool) -> MachineModel {
    MachineModel {
        config,
        path,
        global,
        locked,
        config_invalid: false,
        vpn_up: false,
        last_info: None,
        applied: None,
        orphaned: Seq::empty(),
        needs_resync: false,
        pending_cleanup: false,
        generation: 0,
        health: HealthModel::Inactive,
    }
}

/// Begin: clean up what an earlier process may have left behind where
/// reverting is global, then arm the VPN watch.
pub open spec fn start_step(m: MachineModel) -> Next {
    if m.global {
        (
            m,
            StepModel::Backend {
                call: BackendModel::Revert { interface: m.config.vpn_name },
                then: AfterBackendModel::Startup,
            },
        )
    } else {
        arm(m, EndModel::Idle)
    }
}

/// The state once a VPN event is known.
pub open spec fn note_event(m: MachineModel, event: EventModel) -> MachineModel {
    match event {
        EventModel::Up(info) => MachineModel { vpn_up: true, last_info: Some(info), ..m },
        EventModel::Down(_) => MachineModel { vpn_up: false, ..m },
    }
}

/// A VPN event from the current watch.
pub open spec fn event_step(m: MachineModel, event: EventModel) -> Next {
    reconcile_step(note_event(m, event), ThenModel::Event)
}

/// A VPN event from the watch of this generation; one from an older watch is
/// dropped.
pub open spec fn vpn_event_step(m: MachineModel, generation: u64, event: EventModel) -> Next {
    if generation != m.generation {
        (m, StepModel::Idle)
    } else {
        event_step(m, event)
    }
}

/// The watch of this generation ended on its own.
pub open spec fn watch_ended(m: MachineModel, generation: u64) -> MachineModel {
    if generation != m.generation {
        m
    } else {
        MachineModel { health: HealthModel::Error("watch stream ended"@), ..m }
    }
}

/// Make `next` the live configuration. When the watch is keyed on what
/// changed, the VPN's state is forgotten first, so that the old interface is
/// reverted before the new watch is armed.
pub open spec fn adopted(m: MachineModel, next: ConfigModel) -> MachineModel {
    if watch_keys_differ(m.config, next) {
        MachineModel { config: next, vpn_up: false, last_info: None, ..m }
    } else {
        MachineModel { config: next, ..m }
    }
}

/// Adopt `next` and reconcile.
pub open spec fn adopt_step(m: MachineModel, next: ConfigModel, reply: ReplyModel) -> Next {
    reconcile_step(
        adopted(m, next),
        ThenModel::Adopt { rearm: watch_keys_differ(m.config, next), reply },
    )
}

/// A configuration was written, or could not be.
pub open spec fn saved_step(m: MachineModel, next: ConfigModel, result: Result<(), Text>) -> Next {
    match result {
        Err(e) => (m, StepModel::Reply(ResponseModel::Error("failed to persist config: "@ + e))),
        Ok(_) => adopt_step(m, next, ReplyModel::Saved),
    }
}

/// Would the edit make a group member change or switch on what lets the
/// daemon read a file and send it somewhere?
pub open spec fn touches_openvpn(old: ConfigModel, view: ConfigViewModel) -> bool {
    ||| view.openvpn != old.openvpn
    ||| view.backend == VpnBackend::OpenVpn && old.backend != VpnBackend::OpenVpn
}

/// The configuration with the editable part replaced.
pub open spec fn edited(old: ConfigModel, view: ConfigViewModel) -> ConfigModel {
    ConfigModel { vpn_name: view.vpn_name, backend: view.backend, openvpn: view.openvpn, ..old }
}

/// Is every character blank?
pub open spec fn blank(t: Text) -> bool {
    forall|i: int| 0 <= i < t.len() ==> crate::text::is_white(#[trigger] t[i])
}

/// An edit of the configuration `old` just read.
pub open spec fn set_step(m: MachineModel, old: ConfigModel, view: ConfigViewModel) -> Next {
    if m.locked && touches_openvpn(old, view) {
        (
            m,
            StepModel::Reply(
                ResponseModel::Error(
                    "the OpenVPN backend is root-config-file-only while the control socket is group-accessible: changing its management endpoint or password file, or activating it, makes the root daemon read a file and connect to an endpoint — edit the root-owned config file to change them"@,
                ),
            ),
        )
    } else if view.backend == VpnBackend::OpenVpn && blank(view.openvpn.management) {
        (
            m,
            StepModel::Reply(
                ResponseModel::Error(
                    "invalid config: the openvpn backend requires a non-empty openvpn.management (host:port or a unix socket path)"@,
                ),
            ),
        )
    } else {
        (m, StepModel::Save(edited(old, view)))
    }
}

/// The verdict on entry `i`; none means no match.
pub open spec fn verdict(same: Seq<bool>, i: int) -> bool {
    0 <= i < same.len() && same[i]
}

/// Is entry `i` to be removed: is it the raw input, or the same host?
pub open spec fn is_target(hosts: Seq<Text>, raw: Text, same: Seq<bool>, i: int) -> bool {
    hosts[i] == raw || verdict(same, i)
}

/// The first `n` entries without those to be removed.
pub open spec fn without_targets(hosts: Seq<Text>, raw: Text, same: Seq<bool>, n: int) -> Seq<Text>
    decreases n,
{
    if n <= 0 {
        Seq::empty()
    } else if is_target(hosts, raw, same, n - 1) {
        without_targets(hosts, raw, same, n - 1)
    } else {
        without_targets(hosts, raw, same, n - 1).push(hosts[n - 1])
    }
}

/// Remove the entries that are `raw` or matched.
pub open spec fn remove_step(
    m: MachineModel,
    next: ConfigModel,
    raw: Text,
    same: Seq<bool>,
) -> Next {
    if exists|i: int| 0 <= i < next.hosts.len() && #[trigger] is_target(next.hosts, raw, same, i) {
        (
            m,
            StepModel::Save(
                ConfigModel {
                    hosts: without_targets(next.hosts, raw, same, next.hosts.len() as int),
                    ..next
                },
            ),
        )
    } else {
        adopt_step(m, next, ReplyModel::Current)
    }
}

/// Which entries name the same host is known.
pub open spec fn matched_step(m: MachineModel, then: MatchModel, same: Seq<bool>) -> Next {
    match then {
        MatchModel::Add { next, host } => if exists|i: int|
            0 <= i < next.hosts.len() && #[trigger] verdict(same, i) {
            adopt_step(m, next, ReplyModel::Duplicate(host))
        } else {
            (m, StepModel::Save(ConfigModel { hosts: next.hosts.push(host), ..next }))
        },
        MatchModel::Remove { next, raw } => remove_step(m, next, raw, same),
    }
}

/// The configuration was read, or could not be.
pub open spec fn loaded_step(
    m: MachineModel,
    purpose: LoadModel,
    result: Result<ConfigModel, Text>,
) -> Next {
    match result {
        Err(e) => (
            MachineModel { config_invalid: true, ..m },
            match purpose {
                LoadModel::Reload => StepModel::Reply(
                    ResponseModel::Error("failed to reload config: "@ + e),
                ),
                LoadModel::External => StepModel::Idle,
                _ => StepModel::Reply(unreadable(e)),
            },
        ),
        Ok(config) => {
            let m = MachineModel { config_invalid: false, ..m };
            match purpose {
                LoadModel::Enable(enabled) => if config.enabled == enabled {
                    adopt_step(m, config, ReplyModel::Current)
                } else {
                    (m, StepModel::Save(ConfigModel { enabled, ..config }))
                },
                LoadModel::Add(host) => (
                    m,
                    StepModel::Match {
                        host,
                        entries: config.hosts,
                        then: MatchModel::Add { next: config, host },
                    },
                ),
                LoadModel::Remove { raw, host } => match host {
                    Some(host) => (
                        m,
                        StepModel::Match {
                            host,
                            entries: config.hosts,
                            then: MatchModel::Remove { next: config, raw },
                        },
                    ),
                    None => remove_step(m, config, raw, Seq::empty()),
                },
                LoadModel::Reload => adopt_step(m, config, ReplyModel::Reload),
                LoadModel::External => if config == m.config {
                    (m, StepModel::Idle)
                } else {
                    adopt_step(m, config, ReplyModel::External)
                },
                LoadModel::Edit(view) => set_step(m, config, view),
            }
        },
    }
}

/// The normal form of a host is known, or there is none.
pub open spec fn normalized_step(
    m: MachineModel,
    then: NormalizeModel,
    result: Result<Text, Text>,
) -> StepModel {
    match then {
        NormalizeModel::Add => match result {
            Ok(host) => StepModel::Load(LoadModel::Add(host)),
            Err(e) => StepModel::Reply(ResponseModel::Error("invalid domain: "@ + e)),
        },
        NormalizeModel::Remove { raw } => StepModel::Load(
            LoadModel::Remove {
                raw,
                host: match result {
                    Ok(host) => Some(host),
                    Err(_) => None,
                },
            },
        ),
        NormalizeModel::Check => match result {
            Ok(host) => StepModel::Cover { host, entries: m.config.hosts },
            Err(e) => StepModel::Reply(ResponseModel::Error("invalid domain: "@ + e)),
        },
    }
}

// ---------------------------------------------------------------------------
// Reports
// ---------------------------------------------------------------------------

/// Why routing is or is not active, the most fundamental reason first.
pub open spec fn routing_state(m: MachineModel) -> RoutingState {
    if m.config_invalid {
        RoutingState::ConfigInvalid
    } else if m.needs_resync || m.orphaned.len() > 0 {
        RoutingState::ApplyFailed
    } else if !m.config.enabled {
        RoutingState::Disabled
    } else if m.config.hosts.len() == 0 {
        RoutingState::NoDomains
    } else if !m.vpn_up {
        RoutingState::VpnDown
    } else if usable_info(m) is None {
        RoutingState::NoDnsFromVpn
    } else if m.applied is Some {
        RoutingState::Applied
    } else {
        RoutingState::ApplyFailed
    }
}

/// What of the applied record clients see.
pub open spec fn applied_info(a: AppliedModel) -> AppliedInfoModel {
    AppliedInfoModel { interface: a.interface, domains: a.domains, dns: a.dns }
}

/// What clients see of what is applied.
pub open spec fn applied_report(m: MachineModel) -> Option<AppliedInfoModel> {
    match m.applied {
        Some(a) => Some(applied_info(a)),
        None => None,
    }
}

/// The resolvers the configured interface exposes right now, applied or not.
pub open spec fn detected_dns(m: MachineModel) -> Seq<Text> {
    match m.last_info {
        Some(info) => if m.vpn_up && gate(m, info) {
            info.dns
        } else {
            Seq::empty()
        },
        None => Seq::empty(),
    }
}

/// The status report.
pub open spec fn status_of(m: MachineModel) -> StatusModel {
    StatusModel {
        enabled: m.config.enabled,
        interface: m.config.vpn_name,
        vpn_up: m.vpn_up,
        applied: applied_report(m),
        routing_state: routing_state(m),
        detected_dns: detected_dns(m),
        health: m.health,
        domains: m.config.hosts,
    }
}

/// The editable part of the configuration.
pub open spec fn view_of(m: MachineModel) -> ConfigViewModel {
    ConfigViewModel {
        vpn_name: m.config.vpn_name,
        backend: m.config.backend,
        openvpn: m.config.openvpn,
        path: m.path,
    }
}

/// The length of a text in UTF-8.
pub open spec fn byte_len(t: Text) -> nat {
    vstd::utf8::encode_utf8(t).len()
}

/// Is entry `i` the most specific one that covers the host: is it covering,
/// is no covering entry longer, and does no covering one as long follow it?
pub open spec fn most_specific(entries: Seq<Text>, covers: Seq<bool>, i: int) -> bool {
    &&& 0 <= i < entries.len()
    &&& verdict(covers, i)
    &&& forall|j: int|
        0 <= j < entries.len() && #[trigger] verdict(covers, j) ==> if j <= i {
            byte_len(entries[j]) <= byte_len(entries[i])
        } else {
            byte_len(entries[j]) < byte_len(entries[i])
        }
}

/// Is `matched` the entry a route check attributes the host to?
pub open spec fn attributed(entries: Seq<Text>, covers: Seq<bool>, matched: Option<Text>) -> bool {
    match matched {
        Some(entry) => exists|i: int| #[trigger]
            most_specific(entries, covers, i) && entries[i] == entry,
        None => forall|i: int| 0 <= i < entries.len() ==> !#[trigger] verdict(covers, i),
    }
}

/// Is this a check of the host in this state, attributed to the entry that
/// covers it?
pub open spec fn is_check(m: MachineModel, host: Text, covers: Seq<bool>, check: CheckModel) -> bool {
    &&& check.host == host
    &&& check.interface == m.config.vpn_name
    &&& check.enabled == m.config.enabled
    &&& check.vpn_up == m.vpn_up
    &&& check.routing_state == routing_state(m)
    &&& attributed(m.config.hosts, covers, check.matched)
}

/// What a route check reports.
pub open spec fn check_reply(check: CheckModel, resolution: Option<ResolutionModel>) -> ResponseModel {
    ResponseModel::DomainCheck(
        DomainCheckModel {
            host: check.host,
            covered: check.matched is Some,
            matched_domain: check.matched,
            vpn_interface: check.interface,
            resolution,
            enabled: check.enabled,
            vpn_up: check.vpn_up,
            routing_state: check.routing_state,
        },
    )
}

/// The interface a read-back reads: the applied one, else the configured
/// one, else none.
pub open spec fn read_back_interface(m: MachineModel) -> Option<Text> {
    let interface = match m.applied {
        Some(a) => a.interface,
        None => m.config.vpn_name,
    };
    if interface.len() == 0 {
        None
    } else {
        Some(interface)
    }
}

/// Begin a read-back.
pub open spec fn read_back_step(m: MachineModel) -> StepModel {
    StepModel::ReadBack { interface: read_back_interface(m), applied: applied_report(m) }
}

// ---------------------------------------------------------------------------
// Requests and commands
// ---------------------------------------------------------------------------

/// A request over the control socket.
pub enum RequestModel {
    Status,
    Enable,
    Disable,
    AddDomain(Text),
    RemoveDomain(Text),
    ListDomains,
    ReloadConfig,
    GetConfig,
    SetConfig(ConfigViewModel),
    ListInterfaces,
    CheckDomain(Text),
    Verify,
}

/// A command to the state owner.
pub enum CommandModel {
    Vpn { generation: u64, event: EventModel },
    WatchEnded { generation: u64 },
    Ipc(RequestModel),
    ConfigChanged,
}

/// Begin a request that is answered in turn. Every change to the
/// configuration starts by reading it, so that an edit made elsewhere is
/// merged and not overwritten.
pub open spec fn request_step(m: MachineModel, request: RequestModel) -> StepModel {
    match request {
        RequestModel::Status => StepModel::Reply(ResponseModel::Status(status_of(m))),
        RequestModel::Enable => StepModel::Load(LoadModel::Enable(true)),
        RequestModel::Disable => StepModel::Load(LoadModel::Enable(false)),
        RequestModel::AddDomain(raw) => StepModel::Normalize { raw, then: NormalizeModel::Add },
        RequestModel::RemoveDomain(raw) => StepModel::Normalize {
            raw,
            then: NormalizeModel::Remove { raw },
        },
        RequestModel::ListDomains => StepModel::Reply(ResponseModel::Domains(m.config.hosts)),
        RequestModel::ReloadConfig => StepModel::Load(LoadModel::Reload),
        RequestModel::GetConfig => StepModel::Reply(ResponseModel::Config(view_of(m))),
        RequestModel::SetConfig(view) => StepModel::Load(LoadModel::Edit(view)),
        RequestModel::ListInterfaces => StepModel::ListInterfaces,
        RequestModel::CheckDomain(_) => StepModel::Reply(
            ResponseModel::Error("internal error: CheckDomain is handled out-of-band"@),
        ),
        RequestModel::Verify => StepModel::Reply(
            ResponseModel::Error("internal error: Verify is handled out-of-band"@),
        ),
    }
}

/// Begin a command. Route checks and read-backs only take a snapshot here and
/// finish elsewhere, so that a slow resolver cannot hold the state owner up.
pub open spec fn command_step(m: MachineModel, command: CommandModel) -> Next {
    match command {
        CommandModel::Vpn { generation, event } => vpn_event_step(m, generation, event),
        CommandModel::WatchEnded { generation } => (watch_ended(m, generation), StepModel::Idle),
        CommandModel::Ipc(request) => match request {
            RequestModel::CheckDomain(raw) => (
                m,
                StepModel::Normalize { raw, then: NormalizeModel::Check },
            ),
            RequestModel::Verify => (m, read_back_step(m)),
            _ => (m, request_step(m, request)),
        },
        CommandModel::ConfigChanged => (m, StepModel::Load(LoadModel::External)),
    }
}

/// How an enumeration of the interfaces ended.
pub enum ListModel {
    Listed(Seq<InterfaceModel>),
    Failed(Text),
    Panicked(Text),
}

/// The reply to a request for the interfaces.
pub open spec fn interfaces_reply(outcome: ListModel) -> ResponseModel {
    match outcome {
        ListModel::Listed(list) => ResponseModel::Interfaces(list),
        ListModel::Failed(e) => ResponseModel::Error("failed to list interfaces: "@ + e),
        ListModel::Panicked(e) => ResponseModel::Error(
            "interface enumeration task panicked: "@ + e,
        ),
    }
}

} // verus!
