//! What the daemon does, told by what goes into it and what comes out.
//!
//! Each law here relates a report, a request or an outcome to the call, the
//! reply or the state that follows it.

use vstd::prelude::*;
use crate::config::{watch_keys_differ, ConfigModel, VpnBackend};
use crate::daemon::laws::{lemma_removal, lemma_removal_unnamed};
use crate::daemon::model::{
    adopt_step, adopted, after_apply, after_cleanup, after_reconcile, after_revert, arm,
    attributed, backend_step, both, byte_len, call_result, check_reply, command_step, desired,
    finish, interfaces_reply, is_check, is_target, loaded_step, matched_step, most_specific,
    normalized_step, note_event, orphan_result, orphans_step, reconcile_step, saved_step,
    set_aside_stale, shutdown_step, start_step, target_of, to_clean, unclean, verdict,
    watch_ended, watch_step, without_targets, AfterBackendModel, AfterWatchModel, AppliedModel,
    BackendModel, CallModel, CheckModel, CommandModel, EndModel, ListModel, LoadModel,
    MachineModel, MatchModel, Next, NormalizeModel, ReplyModel, RequestModel, StepModel,
    ThenModel, WatchModel,
};
use crate::platform::{EventModel, InfoModel};
use crate::text::{has_part, is_white, joined, law_a_text_holds_its_parts, Text};
use crate::wire::{
    ConfigViewModel, HealthModel, InterfaceModel, ResolutionModel, ResponseModel, RoutingState,
};

verus! {

// ---------------------------------------------------------------------------
// Applying and reverting
// ---------------------------------------------------------------------------

/// Is everything there that rules need: routing enabled, domains to route, the
/// VPN up, and its report for the watched interface with resolvers in it?
pub open spec fn has_reason(m: MachineModel) -> bool {
    &&& m.config.enabled
    &&& m.config.hosts.len() > 0
    &&& m.vpn_up
    &&& m.last_info is Some
    &&& (m.last_info->0).dns.len() > 0
    &&& m.global || (m.last_info->0).interface == m.config.vpn_name
}

/// Is this what is to be installed: the report's interface and resolvers, all
/// of them in their order, the configured domains, and for names off the
/// tunnel the configured resolvers if there are any, else the report's?
pub open spec fn is_as_reported(
    m: MachineModel,
    interface: Text,
    dns: Seq<Text>,
    demote: Option<Seq<Text>>,
    domains: Seq<Text>,
) -> bool {
    &&& m.last_info is Some
    &&& interface == (m.last_info->0).interface
    &&& dns == (m.last_info->0).dns
    &&& domains == m.config.hosts
    &&& m.config.fallback_dns is Some && (m.config.fallback_dns->0).len() > 0 ==> demote
        == m.config.fallback_dns
    &&& m.config.fallback_dns is None ==> demote == (m.last_info->0).demote
    &&& m.config.fallback_dns is Some && (m.config.fallback_dns->0).len() == 0 ==> demote
        == (m.last_info->0).demote
}

/// Is the record that of what is to be installed?
pub open spec fn is_on_record(m: MachineModel, a: AppliedModel) -> bool {
    is_as_reported(m, a.interface, a.dns, a.demote, a.domains)
}

/// If the step is an apply, does it hand over what is to be installed, and
/// note down exactly that?
pub open spec fn applies_as_reported(next: Next) -> bool {
    next.1 matches StepModel::Backend { call, then } ==> (call matches BackendModel::Apply {
        info,
        domains,
    } ==> {
        &&& has_reason(next.0)
        &&& is_as_reported(next.0, info.interface, info.dns, info.demote, domains)
        &&& then matches AfterBackendModel::Applying { target, .. } && is_on_record(next.0, target)
    })
}

/// Is the step no apply?
spec fn no_apply(next: Next) -> bool {
    next.1 matches StepModel::Backend { call, .. } ==> call is Revert
}

proof fn lemma_no_apply(m: MachineModel, result: Result<(), Text>, then: ThenModel)
    ensures
        no_apply(after_reconcile(m, result, then)),
        no_apply(orphans_step(m, result, then)),
{
}

proof fn lemma_reconcile_as_reported(m: MachineModel, then: ThenModel)
    ensures
        applies_as_reported(reconcile_step(m, then)),
{
    lemma_no_apply(m, Ok(()), then);
    lemma_no_apply(MachineModel { needs_resync: false, ..m }, Ok(()), then);
}

proof fn lemma_adopt_as_reported(m: MachineModel, next: ConfigModel, reply: ReplyModel)
    ensures
        applies_as_reported(adopt_step(m, next, reply)),
{
    let rearm = watch_keys_differ(m.config, next);
    lemma_reconcile_as_reported(
        adopted(m, next),
        ThenModel::Adopt { rearm, reply },
    );
}

proof fn lemma_read_as_reported(m: MachineModel, purpose: LoadModel, read: Result<ConfigModel, Text>)
    ensures
        applies_as_reported(loaded_step(m, purpose, read)),
{
    if let Ok(config) = read {
        let fresh = MachineModel { config_invalid: false, ..m };
        lemma_adopt_as_reported(fresh, config, ReplyModel::Current);
        lemma_adopt_as_reported(fresh, config, ReplyModel::Reload);
        lemma_adopt_as_reported(fresh, config, ReplyModel::External);
    }
}

/// Whatever leads to an apply, the backend is handed exactly what the VPN
/// reported last and the domains that are configured, and that is what is
/// noted down.
pub proof fn law_every_apply_is_as_reported(
    m: MachineModel,
    command: CommandModel,
    next: ConfigModel,
    reply: ReplyModel,
    purpose: LoadModel,
    read: Result<ConfigModel, Text>,
    then: MatchModel,
    same: Seq<bool>,
    after: ThenModel,
)
    ensures
        applies_as_reported(reconcile_step(m, after)),
        applies_as_reported(command_step(m, command)),
        applies_as_reported(adopt_step(m, next, reply)),
        applies_as_reported(saved_step(m, next, Ok(()))),
        applies_as_reported(loaded_step(m, purpose, read)),
        applies_as_reported(matched_step(m, then, same)),
{
    lemma_reconcile_as_reported(m, after);
    if let CommandModel::Vpn { generation, event } = command {
        lemma_reconcile_as_reported(note_event(m, event), ThenModel::Event);
    }
    lemma_adopt_as_reported(m, next, reply);
    lemma_adopt_as_reported(m, next, ReplyModel::Saved);
    lemma_read_as_reported(m, purpose, read);
    match then {
        MatchModel::Add { next, host } => {
            lemma_adopt_as_reported(m, next, ReplyModel::Duplicate(host));
        },
        MatchModel::Remove { next, raw } => {
            lemma_adopt_as_reported(m, next, ReplyModel::Current);
        },
    }
}

/// The VPN coming up with resolvers, on the watched interface and with domains
/// to route, is followed by an apply of just what it reported, unless that is
/// in place already.
pub proof fn law_an_up_is_applied(m: MachineModel, info: InfoModel)
    requires
        m.config.enabled,
        m.config.hosts.len() > 0,
        info.dns.len() > 0,
        m.global || info.interface == m.config.vpn_name,
    ensures
        ({
            let next = command_step(
                m,
                CommandModel::Vpn { generation: m.generation, event: EventModel::Up(info) },
            );
            &&& next.0.vpn_up
            &&& next.0.last_info == Some(info)
            &&& next.0.config == m.config
            &&& applies_as_reported(next)
            &&& {
                ||| next.1 matches StepModel::Backend { call, .. } && call is Apply
                ||| {
                    &&& m.applied is Some
                    &&& is_on_record(next.0, m.applied->0)
                    &&& !m.needs_resync
                    &&& next.0.applied == m.applied
                }
            }
        }),
{
}

/// What a reconcile does first is settled by what there is: with every reason
/// to have rules, an apply, unless they are in place; without, a revert of
/// whatever is on record; and with neither, never an apply.
pub proof fn law_rules_follow_their_reasons(m: MachineModel, then: ThenModel)
    ensures
        has_reason(m) && !(m.applied is Some && is_on_record(m, m.applied->0) && !m.needs_resync)
            ==> (reconcile_step(m, then).1 matches StepModel::Backend { call, .. } && call is Apply),
        has_reason(m) && m.applied is Some && is_on_record(m, m.applied->0) && !m.needs_resync
            ==> reconcile_step(m, then) == orphans_step(m, Ok(()), then),
        !has_reason(m) && m.applied is Some ==> reconcile_step(m, then) == (
            m,
            StepModel::Backend {
                call: BackendModel::Revert { interface: (m.applied->0).interface },
                then: AfterBackendModel::Reverting { then },
            },
        ),
        !has_reason(m) && m.applied is None && m.pending_cleanup ==> reconcile_step(m, then) == (
            m,
            StepModel::Backend {
                call: BackendModel::Revert { interface: m.config.vpn_name },
                then: AfterBackendModel::Cleaning { then },
            },
        ),
        !has_reason(m) && m.applied is None && !m.pending_cleanup ==> reconcile_step(m, then)
            == orphans_step(MachineModel { needs_resync: false, ..m }, Ok(()), then),
{
    if m.applied is Some && is_on_record(m, m.applied->0) && has_reason(m) {
        let a = m.applied->0;
        assert(desired(m) is Some);
        let (info, domains) = desired(m)->0;
        assert(a == target_of(info, domains));
    }
}

/// The VPN going down is followed by a revert of what is on record, whichever
/// interface the report names.
pub proof fn law_a_down_is_reverted(m: MachineModel, interface: Text)
    requires
        m.applied is Some,
    ensures
        ({
            let next = command_step(
                m,
                CommandModel::Vpn { generation: m.generation, event: EventModel::Down(interface) },
            );
            &&& next.0 == (MachineModel { vpn_up: false, ..m })
            &&& next.1 matches StepModel::Backend { call, then } && call == (BackendModel::Revert {
                interface: (m.applied->0).interface,
            }) && then == (AfterBackendModel::Reverting { then: ThenModel::Event })
        }),
{
}

/// A report of a watch that is not the current one changes nothing, and
/// neither does its end. The end of the current one shows in its health.
pub proof fn law_only_the_current_watch_counts(m: MachineModel, generation: u64, event: EventModel)
    ensures
        generation != m.generation ==> command_step(m, CommandModel::Vpn { generation, event }) == (
            m,
            StepModel::Idle,
        ),
        generation != m.generation ==> command_step(m, CommandModel::WatchEnded { generation }) == (
            m,
            StepModel::Idle,
        ),
        command_step(m, CommandModel::WatchEnded { generation: m.generation }).0.health is Error,
        command_step(m, CommandModel::WatchEnded { generation: m.generation }).1 == StepModel::Idle,
        (MachineModel { health: m.health, ..watch_ended(m, generation) }) == m,
{
}

/// How an apply, a revert or a cleanup ends is taken down: what succeeded is
/// on record as the truth; what failed stays on record to be tried again.
pub proof fn law_outcomes_are_taken_down(m: MachineModel, target: AppliedModel, outcome: CallModel)
    ensures
        ({
            let event = ThenModel::Event;
            let applied = backend_step(
                m,
                AfterBackendModel::Applying { target, then: event },
                outcome,
            ).0;
            let reverted = backend_step(m, AfterBackendModel::Reverting { then: event }, outcome).0;
            let cleaned = backend_step(m, AfterBackendModel::Cleaning { then: event }, outcome).0;
            let failed = !(outcome is Done);
            &&& applied.applied == Some(target)
            &&& applied.needs_resync == failed
            &&& applied.pending_cleanup == (failed && m.pending_cleanup)
            &&& reverted.applied == if failed {
                m.applied
            } else {
                None
            }
            &&& reverted.needs_resync == failed
            &&& reverted.pending_cleanup == m.pending_cleanup
            &&& cleaned.applied == m.applied
            &&& cleaned.pending_cleanup == (failed && m.pending_cleanup)
            &&& cleaned.needs_resync == (failed && m.needs_resync)
            &&& forall|x: MachineModel|
                x == applied || x == reverted || x == cleaned ==> {
                    &&& #[trigger] same_surroundings(x, m)
                    &&& x.generation == m.generation
                    &&& x.health == m.health
                }
        }),
{
}

/// Does the state agree in what backend calls have no say in?
pub open spec fn same_surroundings(x: MachineModel, m: MachineModel) -> bool {
    &&& x.config == m.config
    &&& x.path == m.path
    &&& x.global == m.global
    &&& x.locked == m.locked
    &&& x.config_invalid == m.config_invalid
    &&& x.vpn_up == m.vpn_up
    &&& x.last_info == m.last_info
}

/// Whether the step is a call on the backend or not, no event, outcome or
/// change of the watch touches the configuration but by adopting one.
pub proof fn law_calls_change_no_settings(
    m: MachineModel,
    then: AfterBackendModel,
    outcome: CallModel,
    after: AfterWatchModel,
    watch: Result<(), Text>,
)
    ensures
        same_surroundings(backend_step(m, then, outcome).0, m),
        same_surroundings(watch_step(m, after, watch).0, m),
        same_surroundings(shutdown_step(m).0, m),
        same_surroundings(start_step(m).0, m),
{
    match then {
        AfterBackendModel::Applying { target, then } => lemma_orphans_surroundings(
            after_apply(m, target, outcome),
            m,
            call_result(outcome, "apply task panicked: "@),
            then,
        ),
        AfterBackendModel::Reverting { then } => lemma_orphans_surroundings(
            after_revert(m, outcome),
            m,
            call_result(outcome, "revert task panicked: "@),
            then,
        ),
        AfterBackendModel::Cleaning { then } => lemma_orphans_surroundings(
            after_cleanup(m, outcome),
            m,
            call_result(
                outcome,
                "orphaned-state cleanup task panicked: "@,
            ),
            then,
        ),
        AfterBackendModel::Orphans { list, outcomes, primary, then } => {
            let all = outcomes.push(outcome);
            lemma_reconciled_surroundings(
                MachineModel { orphaned: unclean(list, all, list.len() as int), ..m },
                m,
                both(
                    primary,
                    orphan_result(list, all),
                ),
                then,
            );
        },
        _ => {},
    }
}

proof fn lemma_reconciled_surroundings(
    x: MachineModel,
    m: MachineModel,
    result: Result<(), Text>,
    then: ThenModel,
)
    requires
        same_surroundings(x, m),
    ensures
        same_surroundings(after_reconcile(x, result, then).0, m),
{
}

proof fn lemma_orphans_surroundings(
    x: MachineModel,
    m: MachineModel,
    result: Result<(), Text>,
    then: ThenModel,
)
    requires
        same_surroundings(x, m),
    ensures
        same_surroundings(orphans_step(x, result, then).0, m),
{
    lemma_reconciled_surroundings(
        MachineModel { orphaned: to_clean(x), ..x },
        m,
        result,
        then,
    );
}

// ---------------------------------------------------------------------------
// Orphans and shutting down
// ---------------------------------------------------------------------------

proof fn lemma_kept(list: Seq<Text>, outcomes: Seq<CallModel>, n: int)
    requires
        0 <= n <= list.len(),
    ensures
        forall|x: Text|
            #![trigger unclean(list, outcomes, n).contains(x)]
            unclean(list, outcomes, n).contains(x) <==> exists|i: int|
                0 <= i < n && #[trigger] list[i] == x && !(outcomes[i] is Done),
    decreases n,
{
    if n > 0 {
        lemma_kept(list, outcomes, n - 1);
        let rest = unclean(list, outcomes, n - 1);
        let all = unclean(list, outcomes, n);
        assert forall|x: Text|
            #![trigger all.contains(x)]
            all.contains(x) <==> exists|i: int|
                0 <= i < n && #[trigger] list[i] == x && !(outcomes[i] is Done) by {
            if rest.contains(x) {
                let i = choose|i: int|
                    0 <= i < n - 1 && #[trigger] list[i] == x && !(outcomes[i] is Done);
                assert(list[i] == x);
                assert(all[rest.index_of(x)] == x);
            }
            if !(outcomes[n - 1] is Done) {
                assert(all.last() == list[n - 1]);
            }
            if exists|i: int| 0 <= i < n && #[trigger] list[i] == x && !(outcomes[i] is Done) {
                let i = choose|i: int|
                    0 <= i < n && #[trigger] list[i] == x && !(outcomes[i] is Done);
                if i < n - 1 {
                    assert(rest.contains(x));
                } else {
                    assert(all.contains(x));
                }
            }
        }
    }
}

/// Every orphan but the interface that is applied now is to be cleaned up.
pub proof fn law_every_other_orphan_is_cleaned_up(m: MachineModel, interface: Text)
    ensures
        to_clean(m).contains(interface) <==> m.orphaned.contains(interface) && !(m.applied is Some
            && (m.applied->0).interface == interface),
{
    if let Some(a) = m.applied {
        let keep = |i: Text| i != a.interface;
        broadcast use vstd::seq_lib::group_filter_ensures;

        if m.orphaned.contains(interface) && keep(interface) {
            let k = m.orphaned.index_of(interface);
            m.orphaned.lemma_filter_contains(keep, k);
        }
        if m.orphaned.filter(keep).contains(interface) {
            m.orphaned.lemma_filter_contains_rev(keep, interface);
            let k = m.orphaned.filter(keep).index_of(interface);
            m.orphaned.lemma_filter_pred(keep, k);
        }
    }
}

/// The last revert of a round of cleanup has ended: the orphans that are left
/// are exactly those whose revert failed, and the round counts as failed if
/// any did or if what came before it had.
pub proof fn law_failed_cleanups_are_kept(
    m: MachineModel,
    list: Seq<Text>,
    outcomes: Seq<CallModel>,
    last: CallModel,
    primary: Result<(), Text>,
    reply: ReplyModel,
    interface: Text,
)
    requires
        outcomes.len() + 1 == list.len(),
        reply is Current || reply is Reload || reply is Saved,
    ensures
        ({
            let all = outcomes.push(last);
            let then = ThenModel::Adopt { rearm: false, reply };
            let end = backend_step(
                m,
                AfterBackendModel::Orphans { list, outcomes, primary, then },
                last,
            );
            let stop = backend_step(m, AfterBackendModel::ShutdownOrphans { list, outcomes }, last);
            &&& end.0.orphaned.contains(interface) <==> exists|i: int|
                0 <= i < list.len() && #[trigger] list[i] == interface && !(all[i] is Done)
            &&& stop.0.orphaned.contains(interface) <==> exists|i: int|
                0 <= i < list.len() && #[trigger] list[i] == interface && !(all[i] is Done)
            &&& end.1 == StepModel::Reply(ResponseModel::Done) <==> primary is Ok && forall|i: int|
                0 <= i < list.len() ==> (#[trigger] all[i]) is Done
            &&& primary is Err ==> (end.1 matches StepModel::Reply(ResponseModel::Error(message))
                && ends_with(message, primary->Err_0))
        }),
{
    let all = outcomes.push(last);
    let n = list.len() as int;
    lemma_kept(list, all, n);
    let kept = unclean(list, all, n);
    if kept.len() > 0 {
        assert(kept.contains(kept[0]));
        let i = choose|i: int| 0 <= i < n && #[trigger] list[i] == kept[0] && !(all[i] is Done);
        assert(!(all[i] is Done));
    }
    if exists|i: int| 0 <= i < n && !((#[trigger] all[i]) is Done) {
        let i = choose|i: int| 0 <= i < n && !((#[trigger] all[i]) is Done);
        assert(list[i] == list[i] && !(all[i] is Done));
        assert(kept.contains(list[i]));
        assert(kept.len() > 0);
    }
    lemma_result_told(reply, primary);
}

/// A round of cleanup reverts the interfaces on its list one after the other.
pub proof fn law_cleanups_go_down_the_list(
    m: MachineModel,
    list: Seq<Text>,
    outcomes: Seq<CallModel>,
    outcome: CallModel,
    primary: Result<(), Text>,
    then: ThenModel,
)
    requires
        outcomes.len() + 1 < list.len(),
    ensures
        ({
            let k = outcomes.len() as int + 1;
            let next = backend_step(
                m,
                AfterBackendModel::Orphans { list, outcomes, primary, then },
                outcome,
            );
            let stop = backend_step(
                m,
                AfterBackendModel::ShutdownOrphans { list, outcomes },
                outcome,
            );
            &&& next.0 == m
            &&& next.1 matches StepModel::Backend { call, .. } && call == (BackendModel::Revert {
                interface: list[k],
            })
            &&& stop.0 == m
            &&& stop.1 matches StepModel::Backend { call, .. } && call == (BackendModel::Revert {
                interface: list[k],
            })
        }),
        to_clean(m).len() > 0 ==> (orphans_step(m, primary, then).1 matches StepModel::Backend {
            call,
            ..
        } && call == (BackendModel::Revert { interface: to_clean(m)[0] })),
        to_clean(m).len() > 0 ==> (shutdown_step(m).1 matches StepModel::Backend { call, .. }
            && call == (BackendModel::Revert { interface: to_clean(m)[0] })),
{
}

/// Shutting down without orphans reverts what is applied, and tells whether
/// that worked; with nothing applied there is nothing to do.
pub proof fn law_shutdown_reverts_what_is_applied(m: MachineModel, outcome: CallModel)
    requires
        m.orphaned.len() == 0,
    ensures
        m.applied is Some ==> (shutdown_step(m).1 matches StepModel::Backend { call, then } && call
            == (BackendModel::Revert { interface: (m.applied->0).interface }) && then
            == AfterBackendModel::ShutdownRevert),
        m.applied is None ==> shutdown_step(m).1 == StepModel::Stopped(true),
        backend_step(m, AfterBackendModel::ShutdownRevert, outcome).1 == StepModel::Stopped(
            outcome is Done,
        ),
        backend_step(m, AfterBackendModel::ShutdownRevert, CallModel::Done).0.applied is None,
{
    if let Some(a) = m.applied {
        m.orphaned.lemma_filter_len(|i: Text| i != a.interface);
    }
}

/// An interface whose revert failed when the watch was moved elsewhere is set
/// aside, where reverting is per interface; nothing else is.
pub proof fn law_only_a_left_interface_is_set_aside(m: MachineModel)
    ensures
        ({
            let after = set_aside_stale(m);
            let left = m.applied is Some && (m.applied->0).interface != m.config.vpn_name
                && !m.global;
            &&& !left ==> after == m
            &&& left ==> after.applied is None && !after.needs_resync && forall|x: Text| #[trigger]
                after.orphaned.contains(x) <==> m.orphaned.contains(x) || x
                    == (m.applied->0).interface
            &&& same_surroundings(after, m)
        }),
{
    if m.applied is Some {
        let i = (m.applied->0).interface;
        let more = m.orphaned.push(i);
        assert forall|x: Text| #[trigger] more.contains(x) <==> m.orphaned.contains(x) || x == i by {
            if m.orphaned.contains(x) {
                assert(more[m.orphaned.index_of(x)] == x);
            }
            if x == i {
                assert(more.last() == x);
            }
        }
    }
}

// ---------------------------------------------------------------------------
// Starting, and the watch
// ---------------------------------------------------------------------------

/// Where reverting is global, starting reverts once before the watch is
/// armed; if that fails it is remembered. Elsewhere the watch is armed at
/// once.
pub proof fn law_starting_cleans_up_first(m: MachineModel, outcome: CallModel)
    ensures
        m.global ==> start_step(m).0 == m && (start_step(m).1 matches StepModel::Backend {
            call,
            then,
        } && call == (BackendModel::Revert { interface: m.config.vpn_name }) && then
            == AfterBackendModel::Startup),
        !m.global ==> start_step(m) == arm(m, EndModel::Idle),
        backend_step(m, AfterBackendModel::Startup, outcome).1 is Watch,
        backend_step(m, AfterBackendModel::Startup, outcome).0.pending_cleanup == (
        m.pending_cleanup || !(outcome is Done)),
        backend_step(m, AfterBackendModel::Startup, outcome).0.applied == m.applied,
{
}

/// A watch is armed for the configured interface, under a generation of its
/// own; without an interface there is none. Its health tells how that went.
pub proof fn law_the_configured_interface_is_watched(
    m: MachineModel,
    end: EndModel,
    outcome: Result<(), Text>,
)
    ensures
        arm(m, end).0.generation != m.generation,
        (MachineModel { generation: m.generation, health: m.health, ..arm(m, end).0 }) == m,
        arm(m, end).1 matches StepModel::Watch { call, then } && {
            &&& then.end == end
            &&& m.config.vpn_name.len() == 0 ==> {
                &&& call is Stop
                &&& arm(m, end).0.health is Inactive
                &&& watch_step(arm(m, end).0, then, outcome).0.health is Inactive
            }
            &&& m.config.vpn_name.len() > 0 ==> {
                &&& call == (WatchModel::Start {
                    generation: arm(m, end).0.generation,
                    interface: m.config.vpn_name,
                })
                &&& watch_step(arm(m, end).0, then, outcome).0.health == match outcome {
                    Ok(_) => HealthModel::Active,
                    Err(e) => HealthModel::Error(e),
                }
            }
            &&& end is Idle ==> watch_step(arm(m, end).0, then, outcome).1 == StepModel::Idle
        },
{
}

// ---------------------------------------------------------------------------
// Replies to changes
// ---------------------------------------------------------------------------

/// Does the text end with `end`?
pub open spec fn ends_with(t: Text, end: Text) -> bool {
    t.len() >= end.len() && t.skip(t.len() - end.len()) == end
}

/// Does the text hold `part`?
pub open spec fn holds(t: Text, part: Text) -> bool {
    exists|i: int| 0 <= i <= t.len() - part.len() && #[trigger] t.subrange(i, i + part.len()) == part
}

proof fn lemma_ends_with(head: Text, end: Text)
    ensures
        ends_with(head + end, end),
{
    assert((head + end).skip(head.len() as int) =~= end);
}

proof fn lemma_holds(head: Text, part: Text, tail: Text)
    ensures
        holds(head + part + tail, part),
{
    let t = head + part + tail;
    let i = head.len() as int;
    assert(t.subrange(i, i + part.len()) =~= part);
}

proof fn lemma_result_told(reply: ReplyModel, result: Result<(), Text>)
    ensures
        (reply is Current || reply is Reload || reply is Saved) && result is Err ==> (finish(
            reply,
            result,
        ) matches StepModel::Reply(ResponseModel::Error(message)) && ends_with(
            message,
            result->Err_0,
        )),
{
    if result is Err {
        let e = result->Err_0;
        lemma_ends_with("failed to apply current state: "@, e);
        lemma_ends_with("config reloaded, but applying it failed: "@, e);
        lemma_ends_with("config saved, but applying it failed: "@, e);
    }
}

/// A change that was carried out is answered as done; one that could not be
/// applied is answered with an error that tells why. A domain that is there
/// already is an error in any case, and names it. A change made elsewhere has
/// nobody to answer.
pub proof fn law_replies_tell_the_result(reply: ReplyModel, result: Result<(), Text>, m: MachineModel)
    ensures
        (reply is Current || reply is Reload || reply is Saved) && result is Ok ==> finish(
            reply,
            result,
        ) == StepModel::Reply(ResponseModel::Done),
        (reply is Current || reply is Reload || reply is Saved) && result is Err ==> (finish(
            reply,
            result,
        ) matches StepModel::Reply(ResponseModel::Error(message)) && ends_with(
            message,
            result->Err_0,
        )),
        reply matches ReplyModel::Duplicate(domain) ==> (finish(reply, result)
            matches StepModel::Reply(ResponseModel::Error(message)) && holds(message, domain) && (
        result is Err ==> holds(message, result->Err_0))),
        reply is External ==> finish(reply, result) == StepModel::Idle,
        after_reconcile(m, result, ThenModel::Adopt { rearm: false, reply }) == (
            m,
            finish(reply, result),
        ),
        after_reconcile(m, result, ThenModel::Event) == (m, StepModel::Idle),
        forall|after: AfterWatchModel, outcome: Result<(), Text>|
            after.end == (EndModel::Reply { reply, result }) ==> (#[trigger] watch_step(
                m,
                after,
                outcome,
            )).1 == finish(reply, result),
{
    lemma_result_told(reply, result);
    if let ReplyModel::Duplicate(domain) = reply {
        let head = "domain already present: "@;
        assert(head + domain =~= head + domain + Seq::empty());
        lemma_holds(head, domain, Seq::empty());
        if result is Err {
            let e = result->Err_0;
            let middle = " (and applying the current config failed: "@;
            lemma_holds(head, domain, middle + e + ")"@);
            assert(head + domain + middle + e + ")"@ =~= head + domain + (middle + e + ")"@));
            lemma_holds(head + domain + middle, e, ")"@);
        }
    }
}

// ---------------------------------------------------------------------------
// Requests
// ---------------------------------------------------------------------------

/// A status tells the state as it is: the settings, the VPN's state, and what
/// is on record, with all its domains and resolvers.
pub proof fn law_a_status_tells_the_state(m: MachineModel)
    ensures
        command_step(m, CommandModel::Ipc(RequestModel::Status)).0 == m,
        command_step(m, CommandModel::Ipc(RequestModel::Status)).1 matches StepModel::Reply(
            ResponseModel::Status(s),
        ) && {
            &&& s.enabled == m.config.enabled
            &&& s.interface == m.config.vpn_name
            &&& s.vpn_up == m.vpn_up
            &&& s.domains == m.config.hosts
            &&& s.health == m.health
            &&& s.applied is Some <==> m.applied is Some
            &&& m.applied is Some ==> {
                &&& (s.applied->0).interface == (m.applied->0).interface
                &&& (s.applied->0).domains == (m.applied->0).domains
                &&& (s.applied->0).dns == (m.applied->0).dns
            }
            &&& s.detected_dns == if m.vpn_up && m.last_info is Some && (m.global
                || (m.last_info->0).interface == m.config.vpn_name) {
                (m.last_info->0).dns
            } else {
                Seq::empty()
            }
            &&& s.routing_state == RoutingState::ConfigInvalid <==> m.config_invalid
            &&& s.routing_state == RoutingState::Applied <==> !m.config_invalid && !m.needs_resync
                && m.orphaned.len() == 0 && has_reason(m) && m.applied is Some
            &&& s.routing_state == RoutingState::Disabled <==> in_step(m) && !m.config.enabled
            &&& s.routing_state == RoutingState::NoDomains <==> in_step(m) && m.config.enabled
                && m.config.hosts.len() == 0
            &&& s.routing_state == RoutingState::VpnDown <==> in_step(m) && m.config.enabled
                && m.config.hosts.len() > 0 && !m.vpn_up
            &&& s.routing_state == RoutingState::NoDnsFromVpn <==> in_step(m) && m.config.enabled
                && m.config.hosts.len() > 0 && m.vpn_up && !has_reason(m)
        },
{
}

/// Is nothing known to be amiss: does the configuration read, and did all that
/// was tried succeed?
pub open spec fn in_step(m: MachineModel) -> bool {
    !m.config_invalid && !m.needs_resync && m.orphaned.len() == 0
}

/// The domains and the editable settings are told as they are.
pub proof fn law_settings_are_told_as_they_are(m: MachineModel)
    ensures
        command_step(m, CommandModel::Ipc(RequestModel::ListDomains)) == (
            m,
            StepModel::Reply(ResponseModel::Domains(m.config.hosts)),
        ),
        command_step(m, CommandModel::Ipc(RequestModel::GetConfig)).0 == m,
        command_step(m, CommandModel::Ipc(RequestModel::GetConfig)).1 matches StepModel::Reply(
            ResponseModel::Config(view),
        ) && {
            &&& view.vpn_name == m.config.vpn_name
            &&& view.backend == m.config.backend
            &&& view.openvpn == m.config.openvpn
            &&& view.path == m.path
        },
        command_step(m, CommandModel::Ipc(RequestModel::ListInterfaces)) == (
            m,
            StepModel::ListInterfaces,
        ),
{
}

/// Every request for a change begins by reading the configuration, for that
/// change; the name of a domain is brought into its normal form first.
pub proof fn law_changes_begin_with_a_read(
    m: MachineModel,
    raw: Text,
    host: Text,
    e: Text,
    view: ConfigViewModel,
)
    ensures
        command_step(m, CommandModel::Ipc(RequestModel::Enable)) == (
            m,
            StepModel::Load(LoadModel::Enable(true)),
        ),
        command_step(m, CommandModel::Ipc(RequestModel::Disable)) == (
            m,
            StepModel::Load(LoadModel::Enable(false)),
        ),
        command_step(m, CommandModel::Ipc(RequestModel::ReloadConfig)) == (
            m,
            StepModel::Load(LoadModel::Reload),
        ),
        command_step(m, CommandModel::Ipc(RequestModel::SetConfig(view))) == (
            m,
            StepModel::Load(LoadModel::Edit(view)),
        ),
        command_step(m, CommandModel::ConfigChanged) == (m, StepModel::Load(LoadModel::External)),
        command_step(m, CommandModel::Ipc(RequestModel::AddDomain(raw))) == (
            m,
            StepModel::Normalize { raw, then: NormalizeModel::Add },
        ),
        normalized_step(m, NormalizeModel::Add, Ok(host)) == StepModel::Load(LoadModel::Add(host)),
        command_step(m, CommandModel::Ipc(RequestModel::RemoveDomain(raw))) == (
            m,
            StepModel::Normalize { raw, then: NormalizeModel::Remove { raw } },
        ),
        normalized_step(m, NormalizeModel::Remove { raw }, Ok(host)) == StepModel::Load(
            LoadModel::Remove { raw, host: Some(host) },
        ),
        normalized_step(m, NormalizeModel::Remove { raw }, Err(e)) == StepModel::Load(
            LoadModel::Remove { raw, host: None },
        ),
        normalized_step(m, NormalizeModel::Add, Err(e)) matches StepModel::Reply(
            ResponseModel::Error(message),
        ) && ends_with(message, e),
        normalized_step(m, NormalizeModel::Check, Err(e)) matches StepModel::Reply(
            ResponseModel::Error(message),
        ) && ends_with(message, e),
{
    lemma_ends_with("invalid domain: "@, e);
}

/// Switching on or off writes just that, and a reload or an edit made
/// elsewhere takes up all that was read. What is live already is only brought
/// in line.
pub proof fn law_what_was_read_is_taken_up(m: MachineModel, read: ConfigModel, enabled: bool)
    ensures
        ({
            let switched = loaded_step(m, LoadModel::Enable(enabled), Ok(read));
            &&& read.enabled != enabled ==> switched.1 == StepModel::Save(
                ConfigModel { enabled, ..read },
            ) && switched.0.config == m.config
            &&& read.enabled == enabled ==> switched.0.config == read && !(switched.1 is Save)
        }),
        loaded_step(m, LoadModel::Reload, Ok(read)).0.config == read,
        !(loaded_step(m, LoadModel::Reload, Ok(read)).1 is Save),
        loaded_step(m, LoadModel::External, Ok(read)).0.config == read,
        !(loaded_step(m, LoadModel::External, Ok(read)).1 is Save),
        !(loaded_step(m, LoadModel::External, Ok(read)).1 is Reply),
{
}

/// Taking up a configuration that is not enabled, or that routes nothing,
/// reverts what is on record.
pub proof fn law_switching_off_reverts(m: MachineModel, next: ConfigModel)
    requires
        m.applied is Some,
        !next.enabled || next.hosts.len() == 0,
    ensures
        saved_step(m, next, Ok(())).1 matches StepModel::Backend { call, .. } && call == (
        BackendModel::Revert { interface: (m.applied->0).interface }),
        saved_step(m, next, Ok(())).0.config == next,
{
}

/// What the watch goes by is the interface, the way to learn of the VPN, and
/// how OpenVPN is reached: if one of them changes, what is known of the VPN is
/// forgotten; if none does, it is kept.
pub proof fn law_a_new_watch_forgets_the_vpn(m: MachineModel, next: ConfigModel)
    ensures
        ({
            let after = saved_step(m, next, Ok(())).0;
            let moved = next.vpn_name != m.config.vpn_name || next.backend != m.config.backend
                || next.openvpn != m.config.openvpn;
            &&& moved ==> !after.vpn_up && after.last_info is None
            &&& !moved ==> after.vpn_up == m.vpn_up && after.last_info == m.last_info
                && after.generation == m.generation
            &&& after.path == m.path && after.global == m.global && after.locked == m.locked
                && after.config_invalid == m.config_invalid
        }),
{
}

/// A domain that no entry names is added at the end, and nothing else is
/// changed; one that an entry names is not added again.
pub proof fn law_a_new_domain_is_added_at_the_end(
    m: MachineModel,
    old: ConfigModel,
    host: Text,
    same: Seq<bool>,
)
    requires
        same.len() == old.hosts.len(),
    ensures
        loaded_step(m, LoadModel::Add(host), Ok(old)).1 == (StepModel::Match {
            host,
            entries: old.hosts,
            then: MatchModel::Add { next: old, host },
        }),
        !same.contains(true) ==> matched_step(m, MatchModel::Add { next: old, host }, same) == (
            m,
            StepModel::Save(ConfigModel { hosts: old.hosts.push(host), ..old }),
        ),
        same.contains(true) ==> !(matched_step(m, MatchModel::Add { next: old, host }, same).1
            is Save) && matched_step(m, MatchModel::Add { next: old, host }, same).0.config == old,
{
    if same.contains(true) {
        let i = same.index_of(true);
        assert(verdict(same, i));
    } else {
        assert forall|i: int| 0 <= i < old.hosts.len() implies !#[trigger] verdict(same, i) by {
            if verdict(same, i) {
                assert(same.contains(same[i]));
            }
        }
    }
}

/// A domain is looked up for its removal under its normal form where it has
/// one. If no entry is named, nothing is written; otherwise exactly the
/// entries that are not named are.
pub proof fn law_only_named_domains_are_removed(
    m: MachineModel,
    old: ConfigModel,
    raw: Text,
    host: Text,
    same: Seq<bool>,
)
    requires
        same.len() == old.hosts.len(),
    ensures
        loaded_step(m, LoadModel::Remove { raw, host: Some(host) }, Ok(old)).1 == (
        StepModel::Match {
            host,
            entries: old.hosts,
            then: MatchModel::Remove { next: old, raw },
        }),
        ({
            let end = matched_step(m, MatchModel::Remove { next: old, raw }, same);
            let named = same.contains(true) || old.hosts.contains(raw);
            &&& !named ==> !(end.1 is Save)
            &&& named ==> end.0 == m && (end.1 matches StepModel::Save(written) && {
                &&& written == (ConfigModel { hosts: written.hosts, ..old })
                &&& forall|k: int|
                    0 <= k < old.hosts.len() && !same[k] && old.hosts[k] != raw
                        ==> written.hosts.contains(#[trigger] old.hosts[k])
                &&& !written.hosts.contains(raw)
                &&& written.hosts.len() < old.hosts.len()
            })
        }),
        !old.hosts.contains(raw) ==> !(loaded_step(
            m,
            LoadModel::Remove { raw, host: None },
            Ok(old),
        ).1 is Save),
{
    lemma_removal(m, old, raw, same);
    lemma_removal_unnamed(m, old, raw);
}

/// An edit writes what was read with the edited settings in place of the old,
/// unless the socket is open to a group and OpenVPN would be touched, or
/// OpenVPN would be without an address.
pub proof fn law_an_edit_is_written_or_refused(
    m: MachineModel,
    old: ConfigModel,
    view: ConfigViewModel,
)
    ensures
        ({
            let end = loaded_step(m, LoadModel::Edit(view), Ok(old)).1;
            let touched = view.openvpn != old.openvpn || view.backend
                == VpnBackend::OpenVpn && old.backend
                != VpnBackend::OpenVpn;
            let unreachable = view.backend == VpnBackend::OpenVpn && forall|i: int|
                0 <= i < view.openvpn.management.len() ==> is_white(
                    #[trigger] view.openvpn.management[i],
                );
            &&& m.locked && touched || unreachable ==> (end matches StepModel::Reply(reply) && reply
                is Error)
            &&& !(m.locked && touched) && !unreachable ==> end == StepModel::Save(
                ConfigModel {
                    vpn_name: view.vpn_name,
                    backend: view.backend,
                    openvpn: view.openvpn,
                    ..old
                },
            )
        }),
{
}

/// Editing with the settings as they were told writes the same configuration
/// again.
pub proof fn law_editing_nothing_changes_nothing(m: MachineModel, view: ConfigViewModel)
    requires
        command_step(m, CommandModel::Ipc(RequestModel::GetConfig)).1 == StepModel::Reply(
            ResponseModel::Config(view),
        ),
        view.backend == VpnBackend::NetworkManager,
    ensures
        loaded_step(m, LoadModel::Edit(view), Ok(m.config)).1 == StepModel::Save(m.config),
{
}

/// A configuration that could not be read, or not written, is answered with an
/// error that tells why.
pub proof fn law_failures_are_told(m: MachineModel, purpose: LoadModel, next: ConfigModel, e: Text)
    ensures
        !(purpose is External) ==> (loaded_step(m, purpose, Err(e)).1 matches StepModel::Reply(
            ResponseModel::Error(message),
        ) && holds(message, e)),
        purpose is External ==> loaded_step(m, purpose, Err(e)).1 == StepModel::Idle,
        saved_step(m, next, Err(e)).1 matches StepModel::Reply(ResponseModel::Error(message))
            && holds(message, e),
{
    let a = "cannot change settings: the config file on disk could not be read ("@;
    let b = ") — fix it on disk; the daemon keeps running on the last-good config"@;
    lemma_holds(a, e, b);
    let c = "failed to reload config: "@;
    let d = "failed to persist config: "@;
    assert(c + e =~= c + e + Seq::empty());
    assert(d + e =~= d + e + Seq::empty());
    lemma_holds(c, e, Seq::empty());
    lemma_holds(d, e, Seq::empty());
}

// ---------------------------------------------------------------------------
// Route checks and read-backs
// ---------------------------------------------------------------------------

/// A route check is answered with the state it was taken in, just as a status
/// at that moment would tell it: the switch, the VPN's state and the state of
/// the routing. A host is covered exactly if an entry covers it, and the
/// resolution is handed on.
pub proof fn law_a_check_tells_the_state(
    m: MachineModel,
    host: Text,
    covers: Seq<bool>,
    check: CheckModel,
    resolution: Option<ResolutionModel>,
)
    requires
        is_check(m, host, covers, check),
        covers.len() == m.config.hosts.len(),
    ensures
        check_reply(check, resolution) matches ResponseModel::DomainCheck(info) && {
            &&& info.host == host
            &&& info.enabled == m.config.enabled
            &&& info.vpn_up == m.vpn_up
            &&& info.vpn_interface == m.config.vpn_name
            &&& info.resolution == resolution
            &&& info.covered == covers.contains(true)
            &&& info.covered == (info.matched_domain is Some)
            &&& info.matched_domain is Some ==> m.config.hosts.contains(info.matched_domain->0)
            &&& command_step(m, CommandModel::Ipc(RequestModel::Status)).1
                matches StepModel::Reply(ResponseModel::Status(s)) && s.enabled == info.enabled
                && s.vpn_up == info.vpn_up && s.routing_state == info.routing_state && s.interface
                == info.vpn_interface
            &&& info.routing_state == RoutingState::Applied ==> info.vpn_up && info.enabled
        },
{
    let hosts = m.config.hosts;
    if covers.contains(true) {
        let i = covers.index_of(true);
        assert(verdict(covers, i));
    }
    if let Some(entry) = check.matched {
        let i = choose|i: int| #[trigger]
            most_specific(hosts, covers, i) && hosts[i] == entry;
        assert(covers.contains(covers[i]));
        assert(hosts.contains(hosts[i]));
    }
}

/// The entry a check is attributed to covers the host, and no covering entry
/// is longer; of those as long, it is the last. There is just one answer.
pub proof fn law_a_check_names_the_longest_entry(
    entries: Seq<Text>,
    covers: Seq<bool>,
    matched: Option<Text>,
    other: Option<Text>,
    k: int,
)
    requires
        attributed(entries, covers, matched),
        covers.len() == entries.len(),
    ensures
        0 <= k < entries.len() && covers[k] ==> matched is Some && byte_len(entries[k]) <= byte_len(
            matched->0,
        ),
        0 <= k < entries.len() && covers[k] && byte_len(entries[k]) == byte_len(matched->0) && (
        forall|j: int| k < j < entries.len() ==> !#[trigger] covers[j]) ==> matched == Some(
            entries[k],
        ),
        matched is Some ==> exists|i: int|
            0 <= i < entries.len() && #[trigger] covers[i] && entries[i] == matched->0,
        attributed(entries, covers, other) ==> other == matched,
{
    if 0 <= k < entries.len() && covers[k] {
        assert(verdict(covers, k));
    }
    if let Some(entry) = matched {
        let i = choose|i: int| #[trigger]
            most_specific(entries, covers, i) && entries[i] == entry;
        assert(verdict(covers, i) && covers[i]);
        if let Some(second) = other {
            if attributed(entries, covers, other) {
                let j = choose|j: int| #[trigger]
                    most_specific(entries, covers, j) && entries[j] == second;
                assert(verdict(covers, j));
                assert(i == j);
            }
        }
        if 0 <= k < entries.len() && covers[k] && byte_len(entries[k]) == byte_len(entry) && (
        forall|j: int| k < j < entries.len() ==> !#[trigger] covers[j]) {
            assert(i <= k);
            assert(i == k);
        }
    }
}

/// The checked host is held against every configured domain.
pub proof fn law_a_check_looks_at_every_domain(m: MachineModel, raw: Text, host: Text)
    ensures
        command_step(m, CommandModel::Ipc(RequestModel::CheckDomain(raw))) == (
            m,
            StepModel::Normalize { raw, then: NormalizeModel::Check },
        ),
        normalized_step(m, NormalizeModel::Check, Ok(host)) == (StepModel::Cover {
            host,
            entries: m.config.hosts,
        }),
{
}

/// A read-back looks at the interface that is applied, with all that is on
/// record for it; with nothing applied, at the configured one; and at none if
/// there is none.
pub proof fn law_a_read_back_looks_at_what_is_applied(m: MachineModel)
    ensures
        command_step(m, CommandModel::Ipc(RequestModel::Verify)).0 == m,
        command_step(m, CommandModel::Ipc(RequestModel::Verify)).1 matches StepModel::ReadBack {
            interface,
            applied,
        } && {
            &&& m.applied is Some ==> applied is Some && (applied->0).interface
                == (m.applied->0).interface && (applied->0).domains == (m.applied->0).domains && (
            applied->0).dns == (m.applied->0).dns
            &&& m.applied is None ==> applied is None
            &&& m.applied is Some && (m.applied->0).interface.len() > 0 ==> interface == Some(
                (m.applied->0).interface,
            )
            &&& m.applied is None && m.config.vpn_name.len() > 0 ==> interface == Some(
                m.config.vpn_name,
            )
            &&& m.applied is None && m.config.vpn_name.len() == 0 ==> interface is None
        },
{
}

/// The interfaces that were found are handed on, all of them; a failure is
/// told.
pub proof fn law_interfaces_are_handed_on(list: Seq<InterfaceModel>, e: Text)
    ensures
        interfaces_reply(ListModel::Listed(list)) == ResponseModel::Interfaces(list),
        interfaces_reply(ListModel::Failed(e)) matches ResponseModel::Error(message) && ends_with(
            message,
            e,
        ),
        interfaces_reply(ListModel::Panicked(e)) matches ResponseModel::Error(message) && ends_with(
            message,
            e,
        ),
{
    lemma_ends_with("failed to list interfaces: "@, e);
    lemma_ends_with("interface enumeration task panicked: "@, e);
}

/// A domain that is there already is not added again: what was read is taken
/// up, and the reply is an error that names the domain, whether or not the
/// rest went well.
pub proof fn law_a_domain_is_not_added_twice(
    m: MachineModel,
    old: ConfigModel,
    host: Text,
    same: Seq<bool>,
    result: Result<(), Text>,
)
    requires
        same.len() == old.hosts.len(),
        same.contains(true),
    ensures
        matched_step(m, MatchModel::Add { next: old, host }, same) == adopt_step(
            m,
            old,
            ReplyModel::Duplicate(host),
        ),
        finish(ReplyModel::Duplicate(host), result) matches StepModel::Reply(
            ResponseModel::Error(message),
        ) && has_part(message, host),
{
    let i = same.index_of(true);
    assert(verdict(same, i));
    let head = "domain already present: "@;
    match result {
        Ok(_) => {
            assert(head + host =~= head + host + Seq::empty());
            law_a_text_holds_its_parts(head, host, Seq::empty());
        },
        Err(e) => {
            let tail = " (and applying the current config failed: "@ + e + ")"@;
            assert(head + host + " (and applying the current config failed: "@ + e + ")"@ =~= head
                + host + tail);
            law_a_text_holds_its_parts(head, host, tail);
        },
    }
}

/// A removal that names no entry takes up what was read, and nothing else; a
/// text that is no domain names the entries that equal it.
pub proof fn law_removing_nothing_takes_up_what_was_read(
    m: MachineModel,
    old: ConfigModel,
    raw: Text,
    same: Seq<bool>,
)
    requires
        same.len() == old.hosts.len(),
        !same.contains(true),
    ensures
        ({
            let fresh = MachineModel { config_invalid: false, ..m };
            let unnamed = loaded_step(m, LoadModel::Remove { raw, host: None }, Ok(old));
            let end = matched_step(m, MatchModel::Remove { next: old, raw }, same);
            &&& !old.hosts.contains(raw) ==> end == adopt_step(m, old, ReplyModel::Current)
            &&& !old.hosts.contains(raw) ==> unnamed == adopt_step(
                fresh,
                old,
                ReplyModel::Current,
            )
            &&& old.hosts.contains(raw) ==> (unnamed.1 matches StepModel::Save(written)
                && !written.hosts.contains(raw) && written == (ConfigModel {
                hosts: written.hosts,
                ..old
            }) && forall|k: int|
                0 <= k < old.hosts.len() && old.hosts[k] != raw ==> written.hosts.contains(
                    #[trigger] old.hosts[k],
                ))
        }),
{
    assert forall|i: int| 0 <= i < old.hosts.len() implies !#[trigger] verdict(same, i) by {
        if verdict(same, i) {
            assert(same.contains(same[i]));
        }
    }
    if !old.hosts.contains(raw) {
        assert forall|i: int| 0 <= i < old.hosts.len() implies !#[trigger] is_target(
            old.hosts,
            raw,
            same,
            i,
        ) && !is_target(old.hosts, raw, Seq::empty(), i) by {
            assert(old.hosts.contains(old.hosts[i]));
        }
        assert forall|i: int| 0 <= i < old.hosts.len() implies !#[trigger] is_target(
            old.hosts,
            raw,
            Seq::empty(),
            i,
        ) by {
            assert(old.hosts.contains(old.hosts[i]));
        }
    } else {
        let i = old.hosts.index_of(raw);
        assert(is_target(old.hosts, raw, Seq::empty(), i));
        lemma_without_equal(old.hosts, raw, old.hosts.len() as int);
    }
}

proof fn lemma_without_equal(hosts: Seq<Text>, raw: Text, n: int)
    requires
        0 <= n <= hosts.len(),
    ensures
        !without_targets(hosts, raw, Seq::empty(), n).contains(raw),
        forall|k: int|
            0 <= k < n && hosts[k] != raw ==> without_targets(
                hosts,
                raw,
                Seq::empty(),
                n,
            ).contains(#[trigger] hosts[k]),
    decreases n,
{
    if n > 0 {
        lemma_without_equal(hosts, raw, n - 1);
        let before = without_targets(hosts, raw, Seq::empty(), n - 1);
        let after = without_targets(hosts, raw, Seq::empty(), n);
        if hosts[n - 1] != raw {
            assert(after == before.push(hosts[n - 1]));
            assert(after[after.len() - 1] == hosts[n - 1]);
            assert forall|k: int| 0 <= k < n && hosts[k] != raw implies after.contains(
                #[trigger] hosts[k],
            ) by {
                if k < n - 1 {
                    let j = before.index_of(hosts[k]);
                    assert(after[j] == hosts[k]);
                }
            }
            if after.contains(raw) {
                let j = after.index_of(raw);
                assert(before[j] == raw);
            }
        }
    }
}

/// Of several interfaces that could not be cleaned up, the last one's reason
/// is told.
pub proof fn law_the_last_reason_is_told(
    list: Seq<Text>,
    outcomes: Seq<CallModel>,
    interface: Text,
    reason: Text,
)
    requires
        list.len() == outcomes.len(),
    ensures
        ({
            let all = list.push(interface);
            let result = orphan_result(all, outcomes.push(CallModel::Failed(reason)));
            result matches Err(message) && ends_with(message, reason)
        }),
        ({
            let all = list.push(interface);
            let result = orphan_result(all, outcomes.push(CallModel::Panicked(reason)));
            result matches Err(message) && ends_with(message, reason)
        }),
{
    let all = list.push(interface);
    let n = all.len() as int;
    let failed = outcomes.push(CallModel::Failed(reason));
    let panicked = outcomes.push(CallModel::Panicked(reason));
    let kept = unclean(all, failed, n);
    let head = "stale split-DNS rules remain on "@ + joined(kept, ", "@)
        + " (orphaned by an earlier failed switch) and could not be cleaned up"@;
    let message = head + (": "@ + reason);
    assert(orphan_result(all, failed) == Err::<(), Text>(message));
    assert(message.skip(message.len() - reason.len()) =~= reason);
    let lost = unclean(all, panicked, n);
    let cause = "orphan revert task panicked for "@ + interface + ": "@ + reason;
    let head = "stale split-DNS rules remain on "@ + joined(lost, ", "@)
        + " (orphaned by an earlier failed switch) and could not be cleaned up"@;
    let message = head + (": "@ + cause);
    assert(orphan_result(all, panicked) == Err::<(), Text>(message));
    assert(message.skip(message.len() - reason.len()) =~= reason);
}

} // verus!
