//! The single owner of the daemon's state.
//!
//! VPN events, client requests and outcomes all enter here one at a time.
//! Each call moves the state and returns a [`Step`]: the next effect to
//! perform, or the end of the work at hand. The caller performs the effect
//! and hands its outcome to the method named in the variant's description.

use vstd::prelude::*;
use vstd::string::*;
use crate::config::{watch_settings_changed, LocalConfig, OpenVpnConfig, VpnBackend};
use crate::daemon::model::{
    adopt_step, after_reconcile, applied_info, applied_report, arm, attributed, backend_step,
    blank, both, byte_len, call_result, check_reply, command_step, desired, detected_dns,
    effective_demote, event_step, finish, gate, initial, interfaces_reply, is_check, is_target,
    last_failure, loaded_step, matched_step, most_specific, normalized_step, orphan_result,
    orphans_step, primary_action, read_back_step, reconcile_step, remove_step, request_step,
    routing_state, saved_step, set_aside_stale, set_step, shutdown_applied_step, shutdown_step,
    start_step, status_of, target_of, to_clean, unclean, unreadable, usable_info, verdict,
    view_of, vpn_event_step, watch_ended, watch_step, without_targets, AfterBackendModel,
    AfterWatchModel, AppliedModel, BackendModel, CallModel, CheckModel, CommandModel, EndModel,
    ListModel, LoadModel, MachineModel, MatchModel, NormalizeModel, PrimaryModel, ReplyModel,
    RequestModel, StepModel, ThenModel, WatchModel,
};
use crate::platform::{VpnEvent, VpnInfo};
use crate::text::{
    chars_of, concat2, concat3, copy_opt_texts, copy_texts, has_text, is_white, join, opt_text,
    opt_texts, same_opt_text, same_opt_texts, same_texts, texts, white, Text,
};
use crate::wire::{
    empty_link, interfaces_of, opt_resolution, AppliedInfo, ConfigView, DetectorHealth,
    DomainCheckInfo, InterfaceInfo, LinkDnsState, ResolutionInfo, Response, ResponseModel,
    RoutingState, StatusInfo,
};

verus! {

/// A snapshot of what is applied to the system. It holds the resolvers and
/// the fallback, so that a change of either is seen as out of sync.
#[derive(Debug, PartialEq, Eq)]
pub struct Applied {
    pub interface: String,
    pub domains: Vec<String>,
    pub dns_servers: Vec<String>,
    pub demote_target: Option<Vec<String>>,
}

/// How a blocking call ended.
#[derive(Debug, PartialEq, Eq)]
pub enum CallOutcome {
    Done,
    /// It reported this error.
    Failed(String),
    /// Its task panicked with this message.
    Panicked(String),
}

/// A call on the DNS backend.
#[derive(Debug, PartialEq, Eq)]
pub enum BackendCall {
    Apply { info: VpnInfo, domains: Vec<String> },
    Revert { interface: String },
}

/// A change of the VPN watch. Either tears the current watch down first.
#[derive(Debug, PartialEq, Eq)]
pub enum WatchCall {
    Stop,
    Start { generation: u64, interface: String },
}

/// How the outcome of adopting a configuration is reported.
#[derive(Debug, PartialEq, Eq)]
pub enum ReplyFor {
    Current,
    Duplicate(String),
    Reload,
    Saved,
    External,
}

/// What follows a reconcile.
#[derive(Debug, PartialEq, Eq)]
pub enum Then {
    Event,
    Adopt { rearm: bool, reply: ReplyFor },
}

/// What a backend call's outcome is for.
#[derive(Debug, PartialEq, Eq)]
pub enum AfterBackend {
    Applying { target: Applied, then: Then },
    Reverting { then: Then },
    Cleaning { then: Then },
    Orphans {
        list: Vec<String>,
        outcomes: Vec<CallOutcome>,
        primary: Result<(), String>,
        then: Then,
    },
    Startup,
    ShutdownOrphans { list: Vec<String>, outcomes: Vec<CallOutcome> },
    ShutdownRevert,
}

/// What follows a change of the VPN watch.
#[derive(Debug, PartialEq, Eq)]
pub enum End {
    Idle,
    Reply { reply: ReplyFor, result: Result<(), String> },
}

/// What the outcome of a change of the VPN watch is for.
#[derive(Debug, PartialEq, Eq)]
pub struct AfterWatch {
    pub started: bool,
    pub end: End,
}

/// What a read of the configuration is for.
#[derive(Debug, PartialEq, Eq)]
pub enum LoadFor {
    Enable(bool),
    Add(String),
    Remove { raw: String, host: Option<String> },
    Reload,
    External,
    Edit(ConfigView),
}

/// What a comparison of hosts is for.
#[derive(Debug, PartialEq, Eq)]
pub enum MatchFor {
    Add { next: LocalConfig, host: String },
    Remove { next: LocalConfig, raw: String },
}

/// What the normal form of a host is for.
#[derive(Debug, PartialEq, Eq)]
pub enum NormalizeFor {
    Add,
    Remove { raw: String },
    Check,
}

/// What a route check reports, save the resolution.
#[derive(Debug, PartialEq, Eq)]
pub struct CheckSnapshot {
    pub host: String,
    pub matched: Option<String>,
    pub interface: String,
    pub enabled: bool,
    pub vpn_up: bool,
    pub routing_state: RoutingState,
}

/// What the state machine asks for next.
#[allow(inconsistent_fields)]
#[derive(Debug, PartialEq, Eq)]
pub enum Step {
    /// Nothing: take the next command.
    Idle,
    /// Send this reply, then take the next command.
    Reply(Response),
    /// Shut down. `true` if the system was left clean.
    Stopped(bool),
    /// Bring `raw` to its normal form: [`StateMachine::normalized`].
    Normalize { raw: String, then: NormalizeFor },
    /// Read the configuration: [`StateMachine::loaded`].
    Load(LoadFor),
    /// Say of each entry whether it names `host`: [`StateMachine::matched`].
    Match { host: String, entries: Vec<String>, then: MatchFor },
    /// Write the configuration: [`StateMachine::saved`].
    Save(LocalConfig),
    /// Call the DNS backend: [`StateMachine::backend_done`].
    Backend { call: BackendCall, then: AfterBackend },
    /// Change the VPN watch: [`StateMachine::watch_done`].
    Watch { call: WatchCall, then: AfterWatch },
    /// Enumerate the interfaces: [`interfaces_listed`].
    ListInterfaces,
    /// Say of each entry whether it covers `host`: [`StateMachine::covered`].
    Cover { host: String, entries: Vec<String> },
    /// Resolve the host apart from this machine: [`CheckSnapshot::reply`].
    Resolve(CheckSnapshot),
    /// Read the link's resolver state, if an interface is named, and compare
    /// it to what is applied: [`live_state`].
    ReadBack { interface: Option<String>, applied: Option<AppliedInfo> },
}

/// A request over the control socket.
#[derive(Debug, PartialEq, Eq)]
pub enum Request {
    Status,
    Enable,
    Disable,
    AddDomain(String),
    RemoveDomain(String),
    ListDomains,
    ReloadConfig,
    GetConfig,
    SetConfig(ConfigView),
    ListInterfaces,
    CheckDomain(String),
    Verify,
}

/// A command to the state owner. Shutting down is not among them, so that it
/// can overtake a backlog of these.
#[derive(Debug, PartialEq, Eq)]
pub enum StateCommand {
    /// A VPN event from the watch of this generation.
    Vpn { generation: u64, event: VpnEvent },
    /// The watch of this generation ended on its own.
    WatchEnded { generation: u64 },
    /// A client's request.
    Ipc(Request),
    /// The configuration file changed on disk.
    ConfigChanged,
}

/// The state owner.
#[derive(Debug, PartialEq, Eq)]
pub struct StateMachine {
    /// The live configuration.
    pub config: LocalConfig,
    /// Where the configuration lives; shown to clients only.
    pub config_path: String,
    /// Whether reverting one interface reverts all of them.
    pub reverts_globally: bool,
    /// Whether the control socket is open to a group, in which case clients
    /// may not change or switch on the OpenVPN backend.
    pub socket_group_locked: bool,
    /// Whether the last read of the configuration failed.
    pub config_invalid: bool,
    pub vpn_up: bool,
    /// The most recent VPN report.
    pub last_info: Option<VpnInfo>,
    /// What is applied, or was last attempted; `None` means reverted.
    pub applied: Option<Applied>,
    /// Interfaces whose rules a switch left behind.
    pub orphaned: Vec<String>,
    /// The last apply or revert failed, so `applied` may not hold.
    pub needs_resync: bool,
    /// A cleanup of what an earlier process left behind is outstanding.
    pub pending_global_cleanup: bool,
    /// The current watch. Events of older ones are dropped.
    pub watch_generation: u64,
    pub detector_health: DetectorHealth,
}

// ---------------------------------------------------------------------------
// Views
// ---------------------------------------------------------------------------

impl View for Applied {
    type V = AppliedModel;

    open spec fn view(&self) -> AppliedModel {
        AppliedModel {
            interface: self.interface@,
            domains: texts(self.domains@),
            dns: texts(self.dns_servers@),
            demote: opt_texts(self.demote_target),
        }
    }
}

impl View for CallOutcome {
    type V = CallModel;

    open spec fn view(&self) -> CallModel {
        match self {
            CallOutcome::Done => CallModel::Done,
            CallOutcome::Failed(e) => CallModel::Failed(e@),
            CallOutcome::Panicked(e) => CallModel::Panicked(e@),
        }
    }
}

/// The values of a list of outcomes.
pub open spec fn calls_of(v: Seq<CallOutcome>) -> Seq<CallModel> {
    Seq::new(v.len(), |i: int| v[i]@)
}

/// The value of a result.
pub open spec fn result_of(r: Result<(), String>) -> Result<(), Text> {
    match r {
        Ok(_) => Ok(()),
        Err(e) => Err(e@),
    }
}

impl View for BackendCall {
    type V = BackendModel;

    open spec fn view(&self) -> BackendModel {
        match self {
            BackendCall::Apply { info, domains } => BackendModel::Apply {
                info: info@,
                domains: texts(domains@),
            },
            BackendCall::Revert { interface } => BackendModel::Revert { interface: interface@ },
        }
    }
}

impl View for WatchCall {
    type V = WatchModel;

    open spec fn view(&self) -> WatchModel {
        match self {
            WatchCall::Stop => WatchModel::Stop,
            WatchCall::Start { generation, interface } => WatchModel::Start {
                generation: *generation,
                interface: interface@,
            },
        }
    }
}

impl View for ReplyFor {
    type V = ReplyModel;

    open spec fn view(&self) -> ReplyModel {
        match self {
            ReplyFor::Current => ReplyModel::Current,
            ReplyFor::Duplicate(d) => ReplyModel::Duplicate(d@),
            ReplyFor::Reload => ReplyModel::Reload,
            ReplyFor::Saved => ReplyModel::Saved,
            ReplyFor::External => ReplyModel::External,
        }
    }
}

impl View for Then {
    type V = ThenModel;

    open spec fn view(&self) -> ThenModel {
        match self {
            Then::Event => ThenModel::Event,
            Then::Adopt { rearm, reply } => ThenModel::Adopt { rearm: *rearm, reply: reply@ },
        }
    }
}

impl View for AfterBackend {
    type V = AfterBackendModel;

    open spec fn view(&self) -> AfterBackendModel {
        match self {
            AfterBackend::Applying { target, then } => AfterBackendModel::Applying {
                target: target@,
                then: then@,
            },
            AfterBackend::Reverting { then } => AfterBackendModel::Reverting { then: then@ },
            AfterBackend::Cleaning { then } => AfterBackendModel::Cleaning { then: then@ },
            AfterBackend::Orphans { list, outcomes, primary, then } => AfterBackendModel::Orphans {
                list: texts(list@),
                outcomes: calls_of(outcomes@),
                primary: result_of(*primary),
                then: then@,
            },
            AfterBackend::Startup => AfterBackendModel::Startup,
            AfterBackend::ShutdownOrphans { list, outcomes } =>
                AfterBackendModel::ShutdownOrphans {
                list: texts(list@),
                outcomes: calls_of(outcomes@),
            },
            AfterBackend::ShutdownRevert => AfterBackendModel::ShutdownRevert,
        }
    }
}

impl View for End {
    type V = EndModel;

    open spec fn view(&self) -> EndModel {
        match self {
            End::Idle => EndModel::Idle,
            End::Reply { reply, result } => EndModel::Reply {
                reply: reply@,
                result: result_of(*result),
            },
        }
    }
}

impl View for AfterWatch {
    type V = AfterWatchModel;

    open spec fn view(&self) -> AfterWatchModel {
        AfterWatchModel { started: self.started, end: self.end@ }
    }
}

impl View for LoadFor {
    type V = LoadModel;

    open spec fn view(&self) -> LoadModel {
        match self {
            LoadFor::Enable(b) => LoadModel::Enable(*b),
            LoadFor::Add(host) => LoadModel::Add(host@),
            LoadFor::Remove { raw, host } => LoadModel::Remove { raw: raw@, host: opt_text(*host) },
            LoadFor::Reload => LoadModel::Reload,
            LoadFor::External => LoadModel::External,
            LoadFor::Edit(view) => LoadModel::Edit(view@),
        }
    }
}

impl View for MatchFor {
    type V = MatchModel;

    open spec fn view(&self) -> MatchModel {
        match self {
            MatchFor::Add { next, host } => MatchModel::Add { next: next@, host: host@ },
            MatchFor::Remove { next, raw } => MatchModel::Remove { next: next@, raw: raw@ },
        }
    }
}

impl View for NormalizeFor {
    type V = NormalizeModel;

    open spec fn view(&self) -> NormalizeModel {
        match self {
            NormalizeFor::Add => NormalizeModel::Add,
            NormalizeFor::Remove { raw } => NormalizeModel::Remove { raw: raw@ },
            NormalizeFor::Check => NormalizeModel::Check,
        }
    }
}

impl View for CheckSnapshot {
    type V = CheckModel;

    open spec fn view(&self) -> CheckModel {
        CheckModel {
            host: self.host@,
            matched: opt_text(self.matched),
            interface: self.interface@,
            enabled: self.enabled,
            vpn_up: self.vpn_up,
            routing_state: self.routing_state,
        }
    }
}

impl View for Step {
    type V = StepModel;

    open spec fn view(&self) -> StepModel {
        match self {
            Step::Idle => StepModel::Idle,
            Step::Reply(r) => StepModel::Reply(r@),
            Step::Stopped(clean) => StepModel::Stopped(*clean),
            Step::Normalize { raw, then } => StepModel::Normalize { raw: raw@, then: then@ },
            Step::Load(purpose) => StepModel::Load(purpose@),
            Step::Match { host, entries, then } => StepModel::Match {
                host: host@,
                entries: texts(entries@),
                then: then@,
            },
            Step::Save(config) => StepModel::Save(config@),
            Step::Backend { call, then } => StepModel::Backend { call: call@, then: then@ },
            Step::Watch { call, then } => StepModel::Watch { call: call@, then: then@ },
            Step::ListInterfaces => StepModel::ListInterfaces,
            Step::Cover { host, entries } => StepModel::Cover {
                host: host@,
                entries: texts(entries@),
            },
            Step::Resolve(check) => StepModel::Resolve(check@),
            Step::ReadBack { interface, applied } => StepModel::ReadBack {
                interface: opt_text(*interface),
                applied: match applied {
                    Some(a) => Some(a@),
                    None => None,
                },
            },
        }
    }
}

impl View for StateMachine {
    type V = MachineModel;

    open spec fn view(&self) -> MachineModel {
        MachineModel {
            config: self.config@,
            path: self.config_path@,
            global: self.reverts_globally,
            locked: self.socket_group_locked,
            config_invalid: self.config_invalid,
            vpn_up: self.vpn_up,
            last_info: match self.last_info {
                Some(info) => Some(info@),
                None => None,
            },
            applied: match self.applied {
                Some(a) => Some(a@),
                None => None,
            },
            orphaned: texts(self.orphaned@),
            needs_resync: self.needs_resync,
            pending_cleanup: self.pending_global_cleanup,
            generation: self.watch_generation,
            health: self.detector_health@,
        }
    }
}

// ---------------------------------------------------------------------------
// Outcomes
// ---------------------------------------------------------------------------

impl Applied {
    /// Are the two snapshots equal?
    pub fn same(&self, other: &Applied) -> (r: bool)
        ensures
            r == (self@ == other@),
    {
        self.interface == other.interface && same_texts(&self.domains, &other.domains)
            && same_texts(&self.dns_servers, &other.dns_servers) && same_opt_texts(
            &self.demote_target,
            &other.demote_target,
        )
    }

    /// What of this snapshot clients see.
    pub fn info(&self) -> (r: AppliedInfo)
        ensures
            r@ == applied_info(self@),
    {
        AppliedInfo {
            interface: self.interface.clone(),
            domains: copy_texts(&self.domains),
            dns_servers: copy_texts(&self.dns_servers),
        }
    }
}

impl CallOutcome {
    /// The result of the call, where a panic is reported under `label`.
    fn result(&self, label: &str) -> (r: Result<(), String>)
        ensures
            result_of(r) == call_result(self@, label@),
    {
        match self {
            CallOutcome::Done => Ok(()),
            CallOutcome::Failed(e) => Err(e.clone()),
            CallOutcome::Panicked(e) => Err(concat2(label, e.as_str())),
        }
    }

    fn is_done(&self) -> (r: bool)
        ensures
            r == (self@ is Done),
    {
        match self {
            CallOutcome::Done => true,
            _ => false,
        }
    }
}

/// The interfaces whose revert failed, and the outcome of the whole round.
fn clean_round(list: &Vec<String>, outcomes: &Vec<CallOutcome>) -> (r: (
    Vec<String>,
    Result<(), String>,
))
    requires
        list.len() <= outcomes.len(),
    ensures
        texts(r.0@) == unclean(texts(list@), calls_of(outcomes@), list@.len() as int),
        result_of(r.1) == orphan_result(texts(list@), calls_of(outcomes@)),
{
    let mut kept: Vec<String> = Vec::new();
    let mut cause: Option<String> = None;
    let ghost all = texts(list@);
    let ghost calls = calls_of(outcomes@);
    proof {
        assert(texts(kept@) =~= unclean(all, calls, 0));
    }
    let mut i: usize = 0;
    while i < list.len()
        invariant
            i <= list.len(),
            list.len() <= outcomes.len(),
            all == texts(list@),
            calls == calls_of(outcomes@),
            texts(kept@) == unclean(all, calls, i as int),
            opt_text(cause) == last_failure(all, calls, i as int),
        decreases list.len() - i,
    {
        let ghost before = kept@;
        let label = concat3("orphan revert task panicked for ", list[i].as_str(), ": ");
        match outcomes[i].result(label.as_str()) {
            Ok(_) => {},
            Err(e) => {
                kept.push(list[i].clone());
                proof {
                    assert(texts(kept@) =~= texts(before).push(all[i as int]));
                }
                cause = Some(e);
            },
        }
        i += 1;
    }
    if kept.len() == 0 {
        (kept, Ok(()))
    } else {
        let names = join(&kept, ", ");
        let mut message = concat3(
            "stale split-DNS rules remain on ",
            names.as_str(),
            " (orphaned by an earlier failed switch) and could not be cleaned up",
        );
        let ghost head = message@;
        match &cause {
            Some(e) => {
                message.append(": ");
                message.append(e.as_str());
                proof {
                    assert(message@ =~= head + (": "@ + e@));
                }
            },
            None => {
                proof {
                    assert(head =~= head + Seq::<char>::empty());
                }
            },
        }
        (kept, Err(message))
    }
}

/// The first failure of the two, if any.
fn first_failure(a: Result<(), String>, b: Result<(), String>) -> (r: Result<(), String>)
    ensures
        result_of(r) == both(result_of(a), result_of(b)),
{
    match a {
        Ok(_) => b,
        Err(e) => Err(e),
    }
}

/// How the result of adopting a configuration is reported.
fn finish_step(reply: ReplyFor, result: Result<(), String>) -> (r: Step)
    ensures
        r@ == finish(reply@, result_of(result)),
{
    match reply {
        ReplyFor::Current => match result {
            Ok(_) => Step::Reply(Response::Done),
            Err(e) => Step::Reply(
                Response::Error(concat2("failed to apply current state: ", e.as_str())),
            ),
        },
        ReplyFor::Duplicate(domain) => {
            let mut message = concat2("domain already present: ", domain.as_str());
            match result {
                Ok(_) => {},
                Err(e) => {
                    message.append(" (and applying the current config failed: ");
                    message.append(e.as_str());
                    message.append(")");
                },
            }
            Step::Reply(Response::Error(message))
        },
        ReplyFor::Reload => match result {
            Ok(_) => Step::Reply(Response::Done),
            Err(e) => Step::Reply(
                Response::Error(concat2("config reloaded, but applying it failed: ", e.as_str())),
            ),
        },
        ReplyFor::Saved => match result {
            Ok(_) => Step::Reply(Response::Done),
            Err(e) => Step::Reply(
                Response::Error(concat2("config saved, but applying it failed: ", e.as_str())),
            ),
        },
        ReplyFor::External => Step::Idle,
    }
}

/// The reply to a change that cannot read the configuration. Such a change is
/// refused: what it would write could drop what it could not read.
fn config_unreadable_reply(e: &str) -> (r: Response)
    ensures
        r@ == unreadable(e@),
{
    Response::Error(
        concat3(
            "cannot change settings: the config file on disk could not be read (",
            e,
            ") — fix it on disk; the daemon keeps running on the last-good config",
        ),
    )
}

// ---------------------------------------------------------------------------
// Deciding
// ---------------------------------------------------------------------------

/// What to do about the goal.
enum Primary {
    Keep,
    Settle,
    Apply { info: VpnInfo, domains: Vec<String> },
    Revert { interface: String },
    Cleanup { interface: String },
}

impl View for Primary {
    type V = PrimaryModel;

    closed spec fn view(&self) -> PrimaryModel {
        match self {
            Primary::Keep => PrimaryModel::Keep,
            Primary::Settle => PrimaryModel::Settle,
            Primary::Apply { info, domains } => PrimaryModel::Apply {
                info: info@,
                domains: texts(domains@),
            },
            Primary::Revert { interface } => PrimaryModel::Revert { interface: interface@ },
            Primary::Cleanup { interface } => PrimaryModel::Cleanup { interface: interface@ },
        }
    }
}

/// The record of having installed `domains` on the strength of `info`.
fn target(info: &VpnInfo, domains: &Vec<String>) -> (r: Applied)
    ensures
        r@ == target_of(info@, texts(domains@)),
{
    Applied {
        interface: info.interface_name.clone(),
        domains: copy_texts(domains),
        dns_servers: copy_texts(&info.dns_servers),
        demote_target: copy_opt_texts(&info.demote_target),
    }
}

impl StateMachine {
    /// A state machine for this configuration, with no VPN watch armed yet.
    pub fn new(
        config: LocalConfig,
        config_path: String,
        reverts_globally: bool,
        socket_group_locked: bool,
    ) -> (r: StateMachine)
        ensures
            r@ == initial(config@, config_path@, reverts_globally, socket_group_locked),
    {
        let r = StateMachine {
            config,
            config_path,
            reverts_globally,
            socket_group_locked,
            config_invalid: false,
            vpn_up: false,
            last_info: None,
            applied: None,
            orphaned: Vec::new(),
            needs_resync: false,
            pending_global_cleanup: false,
            watch_generation: 0,
            detector_health: DetectorHealth::Inactive,
        };
        assert(texts(r.orphaned@) =~= Seq::<Text>::empty());
        r
    }

    /// May rules be installed on the strength of this VPN report?
    fn interface_gate_passes(&self, info: &VpnInfo) -> (r: bool)
        ensures
            r == gate(self@, info@),
    {
        self.reverts_globally || info.interface_name == self.config.vpn_name
    }

    /// The fallback resolvers to hand to the backend: the configured ones,
    /// else the detected ones.
    fn effective_demote_target(&self, info: &VpnInfo) -> (r: Option<Vec<String>>)
        ensures
            opt_texts(r) == effective_demote(self@, info@),
    {
        match &self.config.fallback_dns {
            Some(servers) => if servers.len() > 0 {
                Some(copy_texts(servers))
            } else {
                copy_opt_texts(&info.demote_target)
            },
            None => copy_opt_texts(&info.demote_target),
        }
    }

    /// Is there a VPN report with resolvers that may be acted on?
    fn has_usable_info(&self) -> (r: bool)
        ensures
            r == (usable_info(self@) is Some),
    {
        match &self.last_info {
            Some(info) => info.dns_servers.len() > 0 && self.interface_gate_passes(info),
            None => false,
        }
    }

    /// What should be installed; `None` when nothing should be.
    pub fn desired(&self) -> (r: Option<(VpnInfo, Vec<String>)>)
        ensures
            desired(self@) == match r {
                Some((info, domains)) => Some((info@, texts(domains@))),
                None => None,
            },
    {
        if !(self.config.enabled && self.vpn_up && self.config.vpn_hosts.len() > 0) {
            return None;
        }
        if !self.has_usable_info() {
            return None;
        }
        match &self.last_info {
            Some(info) => {
                let wanted = VpnInfo {
                    interface_name: info.interface_name.clone(),
                    dns_servers: copy_texts(&info.dns_servers),
                    demote_target: self.effective_demote_target(info),
                };
                Some((wanted, copy_texts(&self.config.vpn_hosts)))
            },
            None => None,
        }
    }

    /// What to do about the goal.
    fn primary(&self) -> (r: Primary)
        ensures
            r@ == primary_action(self@),
    {
        match self.desired() {
            Some((info, domains)) => {
                let converged = match &self.applied {
                    Some(applied) => applied.same(&target(&info, &domains)),
                    None => false,
                };
                if !self.needs_resync && converged {
                    Primary::Keep
                } else {
                    Primary::Apply { info, domains }
                }
            },
            None => match &self.applied {
                Some(applied) => Primary::Revert { interface: applied.interface.clone() },
                None => if self.pending_global_cleanup {
                    Primary::Cleanup { interface: self.config.vpn_name.clone() }
                } else {
                    Primary::Settle
                },
            },
        }
    }

    // -----------------------------------------------------------------------
    // Reconciling
    // -----------------------------------------------------------------------

    /// Replace the VPN watch by one for the current configuration.
    fn arm_watch(&mut self, end: End) -> (r: Step)
        ensures
            (final(self)@, r@) == arm(old(self)@, end@),
    {
        let generation: u64 = if self.watch_generation == u64::MAX {
            0
        } else {
            self.watch_generation + 1
        };
        self.watch_generation = generation;
        let interface = self.config.vpn_name.clone();
        if interface.as_str().is_empty() {
            self.detector_health = DetectorHealth::Inactive;
            Step::Watch { call: WatchCall::Stop, then: AfterWatch { started: false, end } }
        } else {
            Step::Watch {
                call: WatchCall::Start { generation, interface },
                then: AfterWatch { started: true, end },
            }
        }
    }

    /// Hand an interface that a switch failed to revert over to the orphans.
    fn set_aside(&mut self)
        ensures
            final(self)@ == set_aside_stale(old(self)@),
    {
        let stale = match &self.applied {
            Some(applied) => if applied.interface != self.config.vpn_name
                && !self.reverts_globally {
                Some(applied.interface.clone())
            } else {
                None
            },
            None => None,
        };
        if let Some(interface) = stale {
            if !has_text(&self.orphaned, interface.as_str()) {
                let ghost before = self.orphaned@;
                self.orphaned.push(interface);
                assert(texts(self.orphaned@) =~= texts(before).push(interface@));
            }
            self.applied = None;
            self.needs_resync = false;
        }
    }

    /// A reconcile ended with `result`.
    fn reconciled(&mut self, result: Result<(), String>, then: Then) -> (r: Step)
        ensures
            (final(self)@, r@) == after_reconcile(old(self)@, result_of(result), then@),
    {
        match then {
            Then::Event => Step::Idle,
            Then::Adopt { rearm, reply } => if rearm {
                self.set_aside();
                self.arm_watch(End::Reply { reply, result })
            } else {
                finish_step(reply, result)
            },
        }
    }

    /// Drop the interface that is applied now from the orphans: it is owned
    /// by `applied`, and reverting it would tear down live rules.
    fn prune_orphans(&mut self)
        ensures
            final(self)@ == (MachineModel { orphaned: to_clean(old(self)@), ..old(self)@ }),
    {
        let ghost m = self@;
        if let Some(applied) = &self.applied {
            let ghost live = applied@.interface;
            let ghost keep = |i: Text| i != live;
            let ghost all = texts(self.orphaned@);
            let mut kept: Vec<String> = Vec::new();
            let mut i: usize = 0;
            proof {
                assert(texts(kept@) =~= all.take(0).filter(keep));
            }
            while i < self.orphaned.len()
                invariant
                    i <= self.orphaned.len(),
                    all == texts(self.orphaned@),
                    live == applied.interface@,
                    keep == (|i: Text| i != live),
                    texts(kept@) == all.take(i as int).filter(keep),
                    self@ == m,
                decreases self.orphaned.len() - i,
            {
                let ghost before = kept@;
                proof {
                    assert(all.take(i + 1).drop_last() =~= all.take(i as int));
                    reveal(Seq::filter);
                }
                if self.orphaned[i] != applied.interface {
                    kept.push(self.orphaned[i].clone());
                    proof {
                        assert(texts(kept@) =~= texts(before).push(all[i as int]));
                    }
                }
                i += 1;
            }
            proof {
                assert(all.take(i as int) =~= all);
            }
            self.orphaned = kept;
        }
    }

    /// The second half of a reconcile, after the first ended with `primary`:
    /// retry the cleanup of orphaned interfaces.
    fn revert_orphaned(&mut self, primary: Result<(), String>, then: Then) -> (r: Step)
        ensures
            (final(self)@, r@) == orphans_step(old(self)@, result_of(primary), then@),
    {
        self.prune_orphans();
        if self.orphaned.len() == 0 {
            return self.reconciled(primary, then);
        }
        let list = copy_texts(&self.orphaned);
        let first = list[0].clone();
        let outcomes: Vec<CallOutcome> = Vec::new();
        assert(calls_of(outcomes@) =~= Seq::<CallModel>::empty());
        assert(texts(list@)[0] == first@);
        Step::Backend {
            call: BackendCall::Revert { interface: first },
            then: AfterBackend::Orphans { list, outcomes, primary, then },
        }
    }

    /// Drive the system toward what is desired, acting only where reality is
    /// known or suspected to differ, then retry the orphans.
    fn reconcile(&mut self, then: Then) -> (r: Step)
        ensures
            (final(self)@, r@) == reconcile_step(old(self)@, then@),
    {
        match self.primary() {
            Primary::Keep => self.revert_orphaned(Ok(()), then),
            Primary::Settle => {
                self.needs_resync = false;
                self.revert_orphaned(Ok(()), then)
            },
            Primary::Apply { info, domains } => {
                let target = target(&info, &domains);
                Step::Backend {
                    call: BackendCall::Apply { info, domains },
                    then: AfterBackend::Applying { target, then },
                }
            },
            Primary::Revert { interface } => Step::Backend {
                call: BackendCall::Revert { interface },
                then: AfterBackend::Reverting { then },
            },
            Primary::Cleanup { interface } => Step::Backend {
                call: BackendCall::Revert { interface },
                then: AfterBackend::Cleaning { then },
            },
        }
    }

    /// Revert what is applied before stopping, if anything is.
    fn shutdown_applied(&mut self) -> (r: Step)
        ensures
            (final(self)@, r@) == shutdown_applied_step(old(self)@),
    {
        match &self.applied {
            None => Step::Stopped(self.orphaned.len() == 0),
            Some(applied) => Step::Backend {
                call: BackendCall::Revert { interface: applied.interface.clone() },
                then: AfterBackend::ShutdownRevert,
            },
        }
    }

    /// Stop: clean up the orphans, then revert what is applied, so that the
    /// system does not stay half configured.
    pub fn shutdown(&mut self) -> (r: Step)
        ensures
            (final(self)@, r@) == shutdown_step(old(self)@),
    {
        self.prune_orphans();
        if self.orphaned.len() == 0 {
            return self.shutdown_applied();
        }
        let list = copy_texts(&self.orphaned);
        let first = list[0].clone();
        let outcomes: Vec<CallOutcome> = Vec::new();
        assert(calls_of(outcomes@) =~= Seq::<CallModel>::empty());
        assert(texts(list@)[0] == first@);
        Step::Backend {
            call: BackendCall::Revert { interface: first },
            then: AfterBackend::ShutdownOrphans { list, outcomes },
        }
    }

    /// A backend call ended.
    pub fn backend_done(&mut self, then: AfterBackend, outcome: CallOutcome) -> (r: Step)
        ensures
            (final(self)@, r@) == backend_step(old(self)@, then@, outcome@),
    {
        match then {
            AfterBackend::Applying { target, then } => {
                let result = outcome.result("apply task panicked: ");
                self.applied = Some(target);
                if outcome.is_done() {
                    self.needs_resync = false;
                    self.pending_global_cleanup = false;
                } else {
                    self.needs_resync = true;
                }
                self.revert_orphaned(result, then)
            },
            AfterBackend::Reverting { then } => {
                let result = outcome.result("revert task panicked: ");
                self.note_revert(&outcome);
                self.revert_orphaned(result, then)
            },
            AfterBackend::Cleaning { then } => {
                let result = outcome.result("orphaned-state cleanup task panicked: ");
                if outcome.is_done() {
                    self.pending_global_cleanup = false;
                    self.needs_resync = false;
                }
                self.revert_orphaned(result, then)
            },
            AfterBackend::Orphans { list, outcomes, primary, then } => {
                let mut outcomes = outcomes;
                let ghost before = outcomes@;
                outcomes.push(outcome);
                assert(calls_of(outcomes@) =~= calls_of(before).push(outcome@));
                if outcomes.len() < list.len() {
                    let interface = list[outcomes.len()].clone();
                    Step::Backend {
                        call: BackendCall::Revert { interface },
                        then: AfterBackend::Orphans { list, outcomes, primary, then },
                    }
                } else {
                    let (kept, orphan) = clean_round(&list, &outcomes);
                    self.orphaned = kept;
                    self.reconciled(first_failure(primary, orphan), then)
                }
            },
            AfterBackend::Startup => {
                if !outcome.is_done() {
                    self.pending_global_cleanup = true;
                }
                self.arm_watch(End::Idle)
            },
            AfterBackend::ShutdownOrphans { list, outcomes } => {
                let mut outcomes = outcomes;
                let ghost before = outcomes@;
                outcomes.push(outcome);
                assert(calls_of(outcomes@) =~= calls_of(before).push(outcome@));
                if outcomes.len() < list.len() {
                    let interface = list[outcomes.len()].clone();
                    Step::Backend {
                        call: BackendCall::Revert { interface },
                        then: AfterBackend::ShutdownOrphans { list, outcomes },
                    }
                } else {
                    let (kept, _) = clean_round(&list, &outcomes);
                    self.orphaned = kept;
                    self.shutdown_applied()
                }
            },
            AfterBackend::ShutdownRevert => {
                self.note_revert(&outcome);
                Step::Stopped(outcome.is_done() && self.orphaned.len() == 0)
            },
        }
    }

    /// A revert of what is applied ended. After a failure the record stays,
    /// so that the revert is tried again.
    fn note_revert(&mut self, outcome: &CallOutcome)
        ensures
            final(self)@ == crate::daemon::model::after_revert(old(self)@, outcome@),
    {
        if outcome.is_done() {
            self.applied = None;
            self.needs_resync = false;
        } else {
            self.needs_resync = true;
        }
    }

    /// The VPN watch was replaced, or could not be.
    pub fn watch_done(&mut self, then: AfterWatch, outcome: Result<(), String>) -> (r: Step)
        ensures
            (final(self)@, r@) == watch_step(old(self)@, then@, result_of(outcome)),
    {
        if then.started {
            self.detector_health = match outcome {
                Ok(_) => DetectorHealth::Active,
                Err(e) => DetectorHealth::Error(e),
            };
        }
        match then.end {
            End::Idle => Step::Idle,
            End::Reply { reply, result } => finish_step(reply, result),
        }
    }

    // -----------------------------------------------------------------------
    // Events
    // -----------------------------------------------------------------------

    /// Begin: where reverting is global, clean up what an earlier process may
    /// have left behind, then arm the VPN watch.
    pub fn start(&mut self) -> (r: Step)
        ensures
            (final(self)@, r@) == start_step(old(self)@),
    {
        if self.reverts_globally {
            Step::Backend {
                call: BackendCall::Revert { interface: self.config.vpn_name.clone() },
                then: AfterBackend::Startup,
            }
        } else {
            self.arm_watch(End::Idle)
        }
    }

    /// A VPN event from the watch of this generation. One from a watch that
    /// has been replaced is dropped, so that an interface switched away from
    /// cannot move the state.
    pub fn on_vpn_event(&mut self, generation: u64, event: VpnEvent) -> (r: Step)
        ensures
            (final(self)@, r@) == vpn_event_step(old(self)@, generation, event@),
    {
        if generation != self.watch_generation {
            return Step::Idle;
        }
        self.on_event(event)
    }

    /// The watch of this generation ended on its own: no more VPN events will
    /// come until it is armed again.
    pub fn on_watch_ended(&mut self, generation: u64)
        ensures
            final(self)@ == watch_ended(old(self)@, generation),
    {
        if generation == self.watch_generation {
            self.detector_health = DetectorHealth::Error("watch stream ended".to_owned());
        }
    }

    /// A VPN event.
    pub fn on_event(&mut self, event: VpnEvent) -> (r: Step)
        ensures
            (final(self)@, r@) == event_step(old(self)@, event@),
    {
        match event {
            VpnEvent::Up(info) => {
                self.vpn_up = true;
                self.last_info = Some(info);
            },
            VpnEvent::Down { interface_name: _ } => {
                self.vpn_up = false;
            },
        }
        self.reconcile(Then::Event)
    }

    // -----------------------------------------------------------------------
    // Configuration
    // -----------------------------------------------------------------------

    /// Make `next` the live configuration and reconcile. When the watch is
    /// keyed on what changed, the VPN's state is forgotten first: the old
    /// interface is reverted before the new watch is armed.
    fn adopt_config(&mut self, next: LocalConfig, reply: ReplyFor) -> (r: Step)
        ensures
            (final(self)@, r@) == adopt_step(old(self)@, next@, reply@),
    {
        let rearm = watch_settings_changed(&self.config, &next);
        self.config = next;
        if rearm {
            self.vpn_up = false;
            self.last_info = None;
        }
        self.reconcile(Then::Adopt { rearm, reply })
    }

    /// The configuration was written, or could not be. It becomes live only
    /// once it is on disk.
    pub fn saved(&mut self, next: LocalConfig, result: Result<(), String>) -> (r: Step)
        ensures
            (final(self)@, r@) == saved_step(old(self)@, next@, result_of(result)),
    {
        match result {
            Err(e) => Step::Reply(
                Response::Error(concat2("failed to persist config: ", e.as_str())),
            ),
            Ok(_) => self.adopt_config(next, ReplyFor::Saved),
        }
    }

    /// An edit of the configuration just read. Only the editable part is
    /// replaced. While the socket is open to a group, what would make the
    /// daemon read a file and send it somewhere may not be changed or
    /// switched on.
    fn set_config(&mut self, old_config: LocalConfig, view: ConfigView) -> (r: Step)
        ensures
            (final(self)@, r@) == set_step(old(self)@, old_config@, view@),
    {
        if self.socket_group_locked {
            let fields_changed = view.openvpn_management != old_config.openvpn.management
                || !same_opt_text(
                &view.openvpn_management_password_file,
                &old_config.openvpn.management_password_file,
            );
            let activates = view.vpn_backend == VpnBackend::OpenVpn && old_config.vpn_backend
                != VpnBackend::OpenVpn;
            if fields_changed || activates {
                return Step::Reply(
                    Response::Error(
                        "the OpenVPN backend is root-config-file-only while the control socket is group-accessible: changing its management endpoint or password file, or activating it, makes the root daemon read a file and connect to an endpoint — edit the root-owned config file to change them".to_owned(),
                    ),
                );
            }
        }
        if view.vpn_backend == VpnBackend::OpenVpn && is_blank(view.openvpn_management.as_str()) {
            return Step::Reply(
                Response::Error(
                    "invalid config: the openvpn backend requires a non-empty openvpn.management (host:port or a unix socket path)".to_owned(),
                ),
            );
        }
        Step::Save(
            LocalConfig {
                vpn_name: view.vpn_name,
                vpn_hosts: old_config.vpn_hosts,
                enabled: old_config.enabled,
                vpn_backend: view.vpn_backend,
                openvpn: OpenVpnConfig {
                    management: view.openvpn_management,
                    management_password_file: view.openvpn_management_password_file,
                },
                fallback_dns: old_config.fallback_dns,
            },
        )
    }

    /// Remove the entries that are `raw` itself or matched. With none to
    /// remove, the configuration read is adopted all the same, so that an
    /// edit made elsewhere takes effect now.
    fn remove_domain(&mut self, next: LocalConfig, raw: String, same: Vec<bool>) -> (r: Step)
        ensures
            (final(self)@, r@) == remove_step(old(self)@, next@, raw@, same@),
    {
        let ghost hosts = next@.hosts;
        let mut kept: Vec<String> = Vec::new();
        let mut found = false;
        let mut i: usize = 0;
        proof {
            assert(texts(kept@) =~= without_targets(hosts, raw@, same@, 0));
        }
        while i < next.vpn_hosts.len()
            invariant
                i <= next.vpn_hosts.len(),
                hosts == texts(next.vpn_hosts@),
                texts(kept@) == without_targets(hosts, raw@, same@, i as int),
                found == exists|k: int| 0 <= k < i && #[trigger] is_target(hosts, raw@, same@, k),
            decreases next.vpn_hosts.len() - i,
        {
            let target = next.vpn_hosts[i] == raw || (i < same.len() && same[i]);
            assert(target == is_target(hosts, raw@, same@, i as int));
            if target {
                found = true;
            } else {
                let ghost before = kept@;
                kept.push(next.vpn_hosts[i].clone());
                assert(texts(kept@) =~= texts(before).push(hosts[i as int]));
            }
            i += 1;
        }
        if found {
            let mut changed = next;
            changed.vpn_hosts = kept;
            Step::Save(changed)
        } else {
            self.adopt_config(next, ReplyFor::Current)
        }
    }

    /// Which entries name the same host is known.
    pub fn matched(&mut self, then: MatchFor, same: Vec<bool>) -> (r: Step)
        ensures
            (final(self)@, r@) == matched_step(old(self)@, then@, same@),
    {
        match then {
            MatchFor::Add { next, host } => {
                let mut present = false;
                let mut i: usize = 0;
                while i < next.vpn_hosts.len()
                    invariant
                        i <= next.vpn_hosts.len(),
                        present == exists|k: int| 0 <= k < i && #[trigger] verdict(same@, k),
                    decreases next.vpn_hosts.len() - i,
                {
                    let hit = i < same.len() && same[i];
                    assert(hit == verdict(same@, i as int));
                    if hit {
                        present = true;
                    }
                    i += 1;
                }
                if present {
                    self.adopt_config(next, ReplyFor::Duplicate(host))
                } else {
                    let mut changed = next;
                    let ghost before = changed.vpn_hosts@;
                    changed.vpn_hosts.push(host);
                    assert(texts(changed.vpn_hosts@) =~= texts(before).push(host@));
                    Step::Save(changed)
                }
            },
            MatchFor::Remove { next, raw } => self.remove_domain(next, raw, same),
        }
    }

    /// The configuration was read, or could not be. Either way the state says
    /// so from here on.
    pub fn loaded(&mut self, purpose: LoadFor, result: Result<LocalConfig, String>) -> (r: Step)
        ensures
            (final(self)@, r@) == loaded_step(
                old(self)@,
                purpose@,
                match result {
                    Ok(config) => Ok(config@),
                    Err(e) => Err(e@),
                },
            ),
    {
        match result {
            Err(e) => {
                self.config_invalid = true;
                match purpose {
                    LoadFor::Reload => Step::Reply(
                        Response::Error(concat2("failed to reload config: ", e.as_str())),
                    ),
                    LoadFor::External => Step::Idle,
                    _ => Step::Reply(config_unreadable_reply(e.as_str())),
                }
            },
            Ok(config) => {
                self.config_invalid = false;
                match purpose {
                    LoadFor::Enable(enabled) => if config.enabled == enabled {
                        self.adopt_config(config, ReplyFor::Current)
                    } else {
                        let mut changed = config;
                        changed.enabled = enabled;
                        Step::Save(changed)
                    },
                    LoadFor::Add(host) => Step::Match {
                        host: host.clone(),
                        entries: copy_texts(&config.vpn_hosts),
                        then: MatchFor::Add { next: config, host },
                    },
                    LoadFor::Remove { raw, host } => match host {
                        Some(host) => Step::Match {
                            host,
                            entries: copy_texts(&config.vpn_hosts),
                            then: MatchFor::Remove { next: config, raw },
                        },
                        None => {
                            let none: Vec<bool> = Vec::new();
                            assert(none@ =~= Seq::<bool>::empty());
                            self.remove_domain(config, raw, none)
                        },
                    },
                    LoadFor::Reload => self.adopt_config(config, ReplyFor::Reload),
                    LoadFor::External => if config.same(&self.config) {
                        Step::Idle
                    } else {
                        self.adopt_config(config, ReplyFor::External)
                    },
                    LoadFor::Edit(view) => self.set_config(config, view),
                }
            },
        }
    }

    /// The normal form of a host is known, or there is none.
    pub fn normalized(&self, then: NormalizeFor, result: Result<String, String>) -> (r: Step)
        ensures
            r@ == normalized_step(
                self@,
                then@,
                match result {
                    Ok(host) => Ok(host@),
                    Err(e) => Err(e@),
                },
            ),
    {
        match then {
            NormalizeFor::Add => match result {
                Ok(host) => Step::Load(LoadFor::Add(host)),
                Err(e) => Step::Reply(Response::Error(concat2("invalid domain: ", e.as_str()))),
            },
            NormalizeFor::Remove { raw } => Step::Load(
                LoadFor::Remove {
                    raw,
                    host: match result {
                        Ok(host) => Some(host),
                        Err(_) => None,
                    },
                },
            ),
            NormalizeFor::Check => match result {
                Ok(host) => Step::Cover { host, entries: copy_texts(&self.config.vpn_hosts) },
                Err(e) => Step::Reply(Response::Error(concat2("invalid domain: ", e.as_str()))),
            },
        }
    }

    // -----------------------------------------------------------------------
    // Reports
    // -----------------------------------------------------------------------

    /// Why routing is or is not active: what the daemon believes, not a
    /// read-back of the system.
    pub fn routing_state(&self) -> (r: RoutingState)
        ensures
            r == routing_state(self@),
    {
        if self.config_invalid {
            return RoutingState::ConfigInvalid;
        }
        if self.needs_resync || self.orphaned.len() > 0 {
            return RoutingState::ApplyFailed;
        }
        if !self.config.enabled {
            return RoutingState::Disabled;
        }
        if self.config.vpn_hosts.len() == 0 {
            return RoutingState::NoDomains;
        }
        if !self.vpn_up {
            return RoutingState::VpnDown;
        }
        if !self.has_usable_info() {
            return RoutingState::NoDnsFromVpn;
        }
        if self.applied.is_some() {
            RoutingState::Applied
        } else {
            RoutingState::ApplyFailed
        }
    }

    /// What clients see of what is applied.
    fn applied_info(&self) -> (r: Option<AppliedInfo>)
        ensures
            applied_report(self@) == match r {
                Some(a) => Some(a@),
                None => None,
            },
    {
        match &self.applied {
            Some(applied) => Some(applied.info()),
            None => None,
        }
    }

    /// The status report.
    pub fn status(&self) -> (r: StatusInfo)
        ensures
            r@ == status_of(self@),
    {
        let none: Vec<String> = Vec::new();
        assert(texts(none@) =~= Seq::<Text>::empty());
        StatusInfo {
            enabled: self.config.enabled,
            interface: self.config.vpn_name.clone(),
            vpn_up: self.vpn_up,
            applied: self.applied_info(),
            routing_state: self.routing_state(),
            detected_dns: match &self.last_info {
                Some(info) => if self.vpn_up && self.interface_gate_passes(info) {
                    copy_texts(&info.dns_servers)
                } else {
                    none
                },
                None => none,
            },
            detector_health: self.detector_health.clone(),
            domains: copy_texts(&self.config.vpn_hosts),
        }
    }

    /// The editable part of the configuration.
    pub fn config_view(&self) -> (r: ConfigView)
        ensures
            r@ == view_of(self@),
    {
        let openvpn = self.config.openvpn.clone();
        ConfigView {
            vpn_name: self.config.vpn_name.clone(),
            vpn_backend: self.config.vpn_backend,
            openvpn_management: openvpn.management,
            openvpn_management_password_file: openvpn.management_password_file,
            config_path: self.config_path.clone(),
        }
    }

    /// Which entries cover the host is known. The check is attributed to the
    /// longest covering entry, and to the last of those of equal length.
    pub fn covered(&self, host: String, covers: Vec<bool>) -> (r: Step)
        ensures
            r@ matches StepModel::Resolve(check) && check == (CheckModel {
                host: host@,
                matched: check.matched,
                interface: self@.config.vpn_name,
                enabled: self@.config.enabled,
                vpn_up: self@.vpn_up,
                routing_state: routing_state(self@),
            }) && attributed(self@.config.hosts, covers@, check.matched) && is_check(
                self@,
                host@,
                covers@,
                check,
            ),
    {
        let ghost hosts = self@.config.hosts;
        let mut best: Option<usize> = None;
        let mut i: usize = 0;
        while i < self.config.vpn_hosts.len()
            invariant
                i <= self.config.vpn_hosts.len(),
                hosts == texts(self.config.vpn_hosts@),
                match best {
                    None => forall|j: int| 0 <= j < i ==> !#[trigger] verdict(covers@, j),
                    Some(b) => b < i && verdict(covers@, b as int) && forall|j: int|
                        0 <= j < i && #[trigger] verdict(covers@, j) ==> if j <= b {
                            byte_len(hosts[j]) <= byte_len(hosts[b as int])
                        } else {
                            byte_len(hosts[j]) < byte_len(hosts[b as int])
                        },
                },
            decreases self.config.vpn_hosts.len() - i,
        {
            let hit = i < covers.len() && covers[i];
            assert(hit == verdict(covers@, i as int));
            if hit {
                let len: usize = self.config.vpn_hosts[i].as_str().as_bytes().len();
                let longer = match best {
                    None => true,
                    Some(b) => self.config.vpn_hosts[b].as_str().as_bytes().len() <= len,
                };
                if longer {
                    best = Some(i);
                }
            }
            i += 1;
        }
        let matched = match best {
            Some(b) => {
                assert(most_specific(hosts, covers@, b as int));
                Some(self.config.vpn_hosts[b].clone())
            },
            None => None,
        };
        Step::Resolve(
            CheckSnapshot {
                host,
                matched,
                interface: self.config.vpn_name.clone(),
                enabled: self.config.enabled,
                vpn_up: self.vpn_up,
                routing_state: self.routing_state(),
            },
        )
    }

    /// Begin a read-back: the applied interface if anything is applied, else
    /// the configured one, else none.
    pub fn verify(&self) -> (r: Step)
        ensures
            r@ == read_back_step(self@),
    {
        let interface = match &self.applied {
            Some(applied) => applied.interface.clone(),
            None => self.config.vpn_name.clone(),
        };
        Step::ReadBack {
            interface: if interface.as_str().is_empty() {
                None
            } else {
                Some(interface)
            },
            applied: self.applied_info(),
        }
    }

    // -----------------------------------------------------------------------
    // Requests and commands
    // -----------------------------------------------------------------------

    /// Begin a request that is answered in turn.
    pub fn on_request(&mut self, request: Request) -> (r: Step)
        ensures
            final(self)@ == old(self)@,
            r@ == request_step(old(self)@, request@),
    {
        match request {
            Request::Status => Step::Reply(Response::Status(self.status())),
            Request::Enable => Step::Load(LoadFor::Enable(true)),
            Request::Disable => Step::Load(LoadFor::Enable(false)),
            Request::AddDomain(raw) => Step::Normalize { raw, then: NormalizeFor::Add },
            Request::RemoveDomain(raw) => Step::Normalize {
                raw: raw.clone(),
                then: NormalizeFor::Remove { raw },
            },
            Request::ListDomains => Step::Reply(
                Response::Domains(copy_texts(&self.config.vpn_hosts)),
            ),
            Request::ReloadConfig => Step::Load(LoadFor::Reload),
            Request::GetConfig => Step::Reply(Response::Config(self.config_view())),
            Request::SetConfig(view) => Step::Load(LoadFor::Edit(view)),
            Request::ListInterfaces => Step::ListInterfaces,
            Request::CheckDomain(_) => Step::Reply(
                Response::Error(
                    "internal error: CheckDomain is handled out-of-band".to_owned(),
                ),
            ),
            Request::Verify => Step::Reply(
                Response::Error("internal error: Verify is handled out-of-band".to_owned()),
            ),
        }
    }

    /// Begin a command.
    pub fn on_command(&mut self, command: StateCommand) -> (r: Step)
        ensures
            (final(self)@, r@) == command_step(old(self)@, command@),
    {
        match command {
            StateCommand::Vpn { generation, event } => self.on_vpn_event(generation, event),
            StateCommand::WatchEnded { generation } => {
                self.on_watch_ended(generation);
                Step::Idle
            },
            StateCommand::Ipc(request) => match request {
                Request::CheckDomain(raw) => Step::Normalize { raw, then: NormalizeFor::Check },
                Request::Verify => self.verify(),
                other => self.on_request(other),
            },
            StateCommand::ConfigChanged => Step::Load(LoadFor::External),
        }
    }
}

impl View for Request {
    type V = RequestModel;

    open spec fn view(&self) -> RequestModel {
        match self {
            Request::Status => RequestModel::Status,
            Request::Enable => RequestModel::Enable,
            Request::Disable => RequestModel::Disable,
            Request::AddDomain(raw) => RequestModel::AddDomain(raw@),
            Request::RemoveDomain(raw) => RequestModel::RemoveDomain(raw@),
            Request::ListDomains => RequestModel::ListDomains,
            Request::ReloadConfig => RequestModel::ReloadConfig,
            Request::GetConfig => RequestModel::GetConfig,
            Request::SetConfig(view) => RequestModel::SetConfig(view@),
            Request::ListInterfaces => RequestModel::ListInterfaces,
            Request::CheckDomain(raw) => RequestModel::CheckDomain(raw@),
            Request::Verify => RequestModel::Verify,
        }
    }
}

impl View for StateCommand {
    type V = CommandModel;

    open spec fn view(&self) -> CommandModel {
        match self {
            StateCommand::Vpn { generation, event } => CommandModel::Vpn {
                generation: *generation,
                event: event@,
            },
            StateCommand::WatchEnded { generation } => CommandModel::WatchEnded {
                generation: *generation,
            },
            StateCommand::Ipc(request) => CommandModel::Ipc(request@),
            StateCommand::ConfigChanged => CommandModel::ConfigChanged,
        }
    }
}

/// Is every character of the string white space?
fn is_blank(s: &str) -> (r: bool)
    ensures
        r == blank(s@),
{
    let chars = chars_of(s);
    let mut i: usize = 0;
    while i < chars.len()
        invariant
            i <= chars.len(),
            chars@ == s@,
            forall|k: int| 0 <= k < i ==> is_white(#[trigger] s@[k]),
        decreases chars.len() - i,
    {
        if !white(chars[i]) {
            assert(!is_white(s@[i as int]));
            return false;
        }
        i += 1;
    }
    true
}

impl CheckSnapshot {
    /// The reply to a route check. A resolution that failed is left out; it
    /// does not fail the check.
    pub fn reply(self, resolution: Option<ResolutionInfo>) -> (r: Response)
        ensures
            r@ == check_reply(self@, opt_resolution(resolution)),
            r@ matches ResponseModel::DomainCheck(info) && {
                &&& info.host == self@.host
                &&& info.matched_domain == self@.matched
                &&& info.vpn_interface == self@.interface
                &&& info.enabled == self@.enabled
                &&& info.vpn_up == self@.vpn_up
                &&& info.routing_state == self@.routing_state
                &&& info.resolution == opt_resolution(resolution)
            },
    {
        Response::DomainCheck(
            DomainCheckInfo {
                host: self.host,
                covered: self.matched.is_some(),
                matched_domain: self.matched,
                vpn_interface: self.interface,
                resolution,
                enabled: self.enabled,
                vpn_up: self.vpn_up,
                routing_state: self.routing_state,
            },
        )
    }
}

/// The link's resolver state, given the outcome of reading it, if it was
/// read. A failed read, and none, count as an empty state.
pub fn live_state(read: Option<Result<LinkDnsState, String>>) -> (r: LinkDnsState)
    ensures
        r@ == match read {
            Some(Ok(state)) => state@,
            _ => empty_link(),
        },
{
    match read {
        Some(Ok(state)) => state,
        _ => LinkDnsState::default(),
    }
}

/// How an enumeration of the interfaces ended.
#[derive(Debug, PartialEq, Eq)]
pub enum ListOutcome {
    Listed(Vec<InterfaceInfo>),
    /// It reported this error.
    Failed(String),
    /// Its task panicked with this message.
    Panicked(String),
}

impl View for ListOutcome {
    type V = ListModel;

    open spec fn view(&self) -> ListModel {
        match self {
            ListOutcome::Listed(list) => ListModel::Listed(interfaces_of(list@)),
            ListOutcome::Failed(e) => ListModel::Failed(e@),
            ListOutcome::Panicked(e) => ListModel::Panicked(e@),
        }
    }
}

/// The reply to a request for the interfaces.
pub fn interfaces_listed(outcome: ListOutcome) -> (r: Response)
    ensures
        r@ == interfaces_reply(outcome@),
{
    match outcome {
        ListOutcome::Listed(list) => Response::Interfaces(list),
        ListOutcome::Failed(e) => Response::Error(
            concat2("failed to list interfaces: ", e.as_str()),
        ),
        ListOutcome::Panicked(e) => Response::Error(
            concat2("interface enumeration task panicked: ", e.as_str()),
        ),
    }
}

} // verus!
