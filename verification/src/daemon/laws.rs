//! What holds of the state machine over whole runs.

use vstd::prelude::*;
use crate::config::{watch_keys_differ, ConfigModel, VpnBackend};
use crate::daemon::model::{
    adopt_step, adopted, after_apply, after_cleanup, after_reconcile, after_revert, arm,
    backend_step, both, call_result, command_step, event_step, goal, initial, is_target,
    loaded_step, matched_step, note_event, orphan_result, orphans_step, primary_action,
    reconcile_step, remove_step, routing_state, saved_step, set_aside_stale, shutdown_step,
    start_step, target_of, to_clean, unclean, vpn_event_step, watch_ended, watch_step,
    without_targets, AfterBackendModel, AfterWatchModel, BackendModel, CallModel, CommandModel,
    EndModel, LoadModel, MachineModel, MatchModel, Next, PrimaryModel, ReplyModel, StepModel,
    ThenModel,
};
use crate::platform::EventModel;
use crate::text::Text;
use crate::wire::{ConfigViewModel, ResponseModel, RoutingState};

verus! {

/// Carry on from `next` as long as backend calls are asked for, with these
/// outcomes in turn.
pub open spec fn proceed(next: Next, outcomes: Seq<CallModel>) -> Next
    decreases outcomes.len(),
{
    if outcomes.len() == 0 {
        next
    } else {
        match next.1 {
            StepModel::Backend { call, then } => proceed(
                backend_step(next.0, then, outcomes[0]),
                outcomes.drop_first(),
            ),
            _ => next,
        }
    }
}

/// `n` calls that all succeed.
pub open spec fn all_done(n: nat) -> Seq<CallModel> {
    Seq::new(n, |i: int| CallModel::Done)
}

/// Is the system known to be where it should be?
pub open spec fn converged(m: MachineModel) -> bool {
    &&& m.applied == goal(m)
    &&& !m.needs_resync
    &&& m.orphaned.len() == 0
    &&& m.applied is None ==> !m.pending_cleanup
}

/// A reconcile of a converged machine does nothing.
pub proof fn law_converged_reconcile_is_a_no_op(m: MachineModel)
    requires
        converged(m),
    ensures
        reconcile_step(m, ThenModel::Event) == (m, StepModel::Idle),
{
    assert(to_clean(m) =~= m.orphaned) by {
        reveal(Seq::filter);
    }
}

proof fn lemma_all_clean(list: Seq<Text>, outcomes: Seq<CallModel>, n: int)
    requires
        0 <= n <= outcomes.len(),
        forall|i: int| 0 <= i < outcomes.len() ==> outcomes[i] is Done,
    ensures
        unclean(list, outcomes, n).len() == 0,
    decreases n,
{
    if n > 0 {
        lemma_all_clean(list, outcomes, n - 1);
    }
}

/// A round of orphan cleanup whose reverts all succeed leaves no orphan.
proof fn lemma_orphans_round_done(
    m: MachineModel,
    list: Seq<Text>,
    outcomes: Seq<CallModel>,
    then: ThenModel,
    k: nat,
)
    requires
        outcomes.len() + k == list.len(),
        k > 0,
        outcomes == all_done(outcomes.len()),
    ensures
        proceed(
            (
                m,
                StepModel::Backend {
                    call: BackendModel::Revert { interface: list[outcomes.len() as int] },
                    then: AfterBackendModel::Orphans {
                        list,
                        outcomes,
                        primary: Ok(()),
                        then,
                    },
                },
            ),
            all_done(k),
        ) == after_reconcile(MachineModel { orphaned: Seq::empty(), ..m }, Ok(()), then),
    decreases k,
{
    reveal_with_fuel(proceed, 2);
    let all = outcomes.push(CallModel::Done);
    assert(all =~= all_done(all.len()));
    assert(all_done(k).drop_first() =~= all_done((k - 1) as nat));
    if k > 1 {
        lemma_orphans_round_done(m, list, all, then, (k - 1) as nat);
    } else {
        lemma_all_clean(list, all, list.len() as int);
        assert(unclean(list, all, list.len() as int) =~= Seq::empty());
        assert(all_done(0) =~= Seq::empty());
    }
}

/// The second half of a reconcile, when every call succeeds.
proof fn lemma_orphans_done(m: MachineModel, then: ThenModel, n: nat)
    requires
        n >= m.orphaned.len(),
    ensures
        proceed(orphans_step(m, Ok(()), then), all_done(n)) == after_reconcile(
            MachineModel { orphaned: Seq::empty(), ..m },
            Ok(()),
            then,
        ),
{
    let list = to_clean(m);
    let cleaned = MachineModel { orphaned: list, ..m };
    assert(list.len() <= m.orphaned.len()) by {
        if let Some(a) = m.applied {
            m.orphaned.lemma_filter_len(|i: Text| i != a.interface);
        }
    }
    if list.len() == 0 {
        assert(list =~= Seq::empty());
        assert(!(after_reconcile(cleaned, Ok(()), then).1 is Backend));
        if n > 0 {
            assert(proceed(after_reconcile(cleaned, Ok(()), then), all_done(n)) == after_reconcile(
                cleaned,
                Ok(()),
                then,
            ));
        }
    } else {
        let empty = Seq::<CallModel>::empty();
        assert(empty =~= all_done(0));
        lemma_orphans_round_done(cleaned, list, empty, then, list.len());
        let start = orphans_step(m, Ok(()), then);
        assert(!(after_reconcile(
            MachineModel { orphaned: Seq::empty(), ..cleaned },
            Ok(()),
            then,
        ).1 is Backend));
        lemma_proceed_more(start, list.len(), n);
    }
}

/// Outcomes beyond those asked for change nothing.
proof fn lemma_proceed_more(next: Next, k: nat, n: nat)
    requires
        k <= n,
        !(proceed(next, all_done(k)).1 is Backend),
    ensures
        proceed(next, all_done(n)) == proceed(next, all_done(k)),
    decreases k,
{
    if k == 0 {
        assert(all_done(0) =~= Seq::empty());
        assert(!(next.1 is Backend));
    } else {
        match next.1 {
            StepModel::Backend { call, then } => {
                assert(all_done(k).drop_first() =~= all_done((k - 1) as nat));
                assert(all_done(n).drop_first() =~= all_done((n - 1) as nat));
                lemma_proceed_more(
                    backend_step(next.0, then, CallModel::Done),
                    (k - 1) as nat,
                    (n - 1) as nat,
                );
            },
            _ => {},
        }
    }
}

/// The state that a reconcile whose calls all succeed leaves behind.
spec fn settled(m: MachineModel) -> MachineModel {
    MachineModel {
        applied: goal(m),
        needs_resync: false,
        orphaned: Seq::empty(),
        pending_cleanup: m.pending_cleanup && (primary_action(m) is Revert || goal(m) is Some
            && primary_action(m) is Keep),
        ..m
    }
}

/// Does a reconcile revert while a startup cleanup is outstanding? The cleanup
/// is then left to the next one.
pub open spec fn cleanup_waits(m: MachineModel) -> bool {
    goal(m) is None && m.applied is Some && m.pending_cleanup
}

proof fn lemma_reconcile_done(m: MachineModel, then: ThenModel, n: nat)
    requires
        n > m.orphaned.len(),
    ensures
        proceed(reconcile_step(m, then), all_done(n)) == after_reconcile(settled(m), Ok(()), then),
        cleanup_waits(m) || converged(settled(m)),
        cleanup_waits(m) ==> settled(m).pending_cleanup && !cleanup_waits(settled(m)),
{
    assert(all_done(n).drop_first() =~= all_done((n - 1) as nat));
    let end = match primary_action(m) {
        PrimaryModel::Keep => {
            lemma_orphans_done(m, then, n);
            m
        },
        PrimaryModel::Settle => {
            let after = MachineModel { needs_resync: false, ..m };
            lemma_orphans_done(after, then, n);
            after
        },
        PrimaryModel::Apply { info, domains } => {
            let after = after_apply(m, target_of(info, domains), CallModel::Done);
            lemma_orphans_done(after, then, (n - 1) as nat);
            after
        },
        PrimaryModel::Revert { interface } => {
            let after = after_revert(m, CallModel::Done);
            lemma_orphans_done(after, then, (n - 1) as nat);
            after
        },
        PrimaryModel::Cleanup { interface } => {
            let after = after_cleanup(m, CallModel::Done);
            lemma_orphans_done(after, then, (n - 1) as nat);
            after
        },
    };
    assert(MachineModel { orphaned: Seq::empty(), ..end } == settled(m));
}

/// A VPN event whose backend calls all succeed leaves the system where it
/// should be: what was asked for is applied, nothing else is, nothing is left
/// to be tried again, and nothing but the bookkeeping has changed. Only after
/// a revert may a startup cleanup still be outstanding.
pub proof fn law_successful_reconcile_converges(m: MachineModel, n: nat)
    requires
        n > m.orphaned.len(),
    ensures
        ({
            let end = proceed(reconcile_step(m, ThenModel::Event), all_done(n));
            &&& end.1 == StepModel::Idle
            &&& end.0.applied == goal(m)
            &&& end.0.orphaned.len() == 0
            &&& !end.0.needs_resync
            &&& cleanup_waits(m) || converged(end.0)
            &&& end.0.config == m.config
            &&& end.0.vpn_up == m.vpn_up
            &&& end.0.last_info == m.last_info
        }),
{
    lemma_reconcile_done(m, ThenModel::Event, n);
}

/// The second of two such events in a row leaves nothing outstanding at all.
pub proof fn law_two_successful_reconciles_converge(m: MachineModel, n: nat, k: nat)
    requires
        n > m.orphaned.len(),
        k > 0,
    ensures
        ({
            let first = proceed(reconcile_step(m, ThenModel::Event), all_done(n));
            let second = proceed(reconcile_step(first.0, ThenModel::Event), all_done(k));
            &&& second.1 == StepModel::Idle
            &&& converged(second.0)
            &&& second.0.applied == goal(m)
        }),
{
    lemma_reconcile_done(m, ThenModel::Event, n);
    lemma_reconcile_done(settled(m), ThenModel::Event, k);
    assert(goal(settled(m)) == goal(m));
}

/// A change of the configuration that is on disk, and whose backend calls all
/// succeed, is live at its end. If the watch stays, the system is where it
/// should be and the client is told so. If the watch is replaced, nothing is
/// applied when it is, and the client is told so once that is done. Only
/// after a revert may a startup cleanup still be outstanding.
pub proof fn law_successful_change_converges(m: MachineModel, next: ConfigModel, n: nat)
    requires
        n > m.orphaned.len(),
    ensures
        ({
            let end = proceed(saved_step(m, next, Ok(())), all_done(n));
            &&& end.0.config == next
            &&& end.0.applied == goal(adopted(m, next))
            &&& end.0.orphaned.len() == 0
            &&& !end.0.needs_resync
            &&& cleanup_waits(adopted(m, next)) || converged(end.0)
            &&& !watch_keys_differ(m.config, next) ==> end.1 == StepModel::Reply(
                ResponseModel::Done,
            )
            &&& watch_keys_differ(m.config, next) ==> {
                &&& end.0.applied is None
                &&& end.1 matches StepModel::Watch { call, then } && then.end == (EndModel::Reply {
                    reply: ReplyModel::Saved,
                    result: Ok(()),
                })
            }
        }),
{
    let reply = ReplyModel::Saved;
    let rearm = watch_keys_differ(m.config, next);
    lemma_reconcile_done(adopted(m, next), ThenModel::Adopt { rearm, reply }, n);
}

/// A failed apply is not forgotten: its target stays on record, the next
/// reconcile tries it again, and once it is no longer wanted the interface
/// is reverted.
pub proof fn law_failed_apply_is_retried_or_reverted(m: MachineModel, outcome: CallModel)
    requires
        primary_action(m) is Apply,
        !(outcome is Done),
    ensures
        goal(m) is Some,
        ({
            let after = after_apply(m, goal(m)->0, outcome);
            &&& primary_action(after) == primary_action(m)
            &&& forall|later: MachineModel|
                #![trigger primary_action(later)]
                later.applied == after.applied && goal(later) is None ==> primary_action(later) == (
                PrimaryModel::Revert { interface: (goal(m)->0).interface })
        }),
{
}

/// A failed revert is not forgotten: the record stays, so the next reconcile
/// without a goal reverts again, and one with a goal applies even if the goal
/// equals the record.
pub proof fn law_failed_revert_is_retried(m: MachineModel, outcome: CallModel, later: MachineModel)
    requires
        primary_action(m) is Revert,
        !(outcome is Done),
        later.applied == after_revert(m, outcome).applied,
        later.needs_resync == after_revert(m, outcome).needs_resync,
    ensures
        goal(later) is None ==> primary_action(later) == primary_action(m),
        goal(later) is Some ==> primary_action(later) is Apply,
{
}

/// Nothing is applied unless routing is enabled, the VPN is up, domains are
/// configured and the VPN pushed resolvers.
pub proof fn law_apply_needs_a_reason(m: MachineModel)
    ensures
        primary_action(m) is Apply ==> {
            &&& m.config.enabled
            &&& m.vpn_up
            &&& m.config.hosts.len() > 0
            &&& m.last_info is Some
            &&& (m.last_info->0).dns.len() > 0
            &&& m.global || (m.last_info->0).interface == m.config.vpn_name
        },
{
}

/// The state reads `Applied` only when the configuration is valid, routing is
/// enabled, the VPN is up, rules are on record and none are suspected
/// elsewhere or out of step.
pub proof fn law_applied_is_never_claimed_out_of_sync(m: MachineModel)
    ensures
        routing_state(m) == RoutingState::Applied ==> {
            &&& !m.config_invalid
            &&& !m.needs_resync
            &&& m.orphaned.len() == 0
            &&& m.applied is Some
            &&& m.config.enabled
            &&& m.config.hosts.len() > 0
            &&& m.vpn_up
        },
        m.config_invalid ==> routing_state(m) == RoutingState::ConfigInvalid,
        !m.config_invalid && (m.needs_resync || m.orphaned.len() > 0) ==> routing_state(m)
            == RoutingState::ApplyFailed,
{
}

/// A converged machine with a goal reports `Applied`, unless the
/// configuration on disk is invalid.
pub proof fn law_converged_with_a_goal_reads_applied(m: MachineModel)
    requires
        converged(m),
        goal(m) is Some,
        !m.config_invalid,
    ensures
        routing_state(m) == RoutingState::Applied,
{
}

/// Arming a watch supersedes the one before: its events and its end change
/// nothing any more.
pub proof fn law_replaced_watch_is_ignored(m: MachineModel, end: EndModel, event: EventModel)
    ensures
        vpn_event_step(arm(m, end).0, m.generation, event) == (arm(m, end).0, StepModel::Idle),
        watch_ended(arm(m, end).0, m.generation) == arm(m, end).0,
{
}

/// Changing the interface starts by reverting what is applied; no watch is
/// touched before that has been tried.
pub proof fn law_switch_reverts_before_arming(m: MachineModel, next: ConfigModel, reply: ReplyModel)
    requires
        watch_keys_differ(m.config, next),
        m.applied is Some,
    ensures
        adopt_step(m, next, reply).1 == (StepModel::Backend {
            call: BackendModel::Revert { interface: (m.applied->0).interface },
            then: AfterBackendModel::Reverting { then: ThenModel::Adopt { rearm: true, reply } },
        }),
{
}

/// The outcome of adopting a configuration that replaces the watch always
/// ends in a change of the watch, whatever the reconcile came to.
pub proof fn law_watch_is_replaced_even_after_a_failed_revert(
    m: MachineModel,
    result: Result<(), Text>,
    reply: ReplyModel,
)
    ensures
        after_reconcile(m, result, ThenModel::Adopt { rearm: true, reply }).1 is Watch,
        after_reconcile(m, result, ThenModel::Adopt { rearm: true, reply }).0.generation
            != m.generation,
{
}

/// Where reverting is per interface, an interface that a switch could not
/// revert is kept among the orphans.
/// It is so whatever becomes of those orphaned before, and the new watch is
/// armed once all of them have been tried.
pub proof fn law_failed_switch_is_remembered(
    m: MachineModel,
    outcome: CallModel,
    reply: ReplyModel,
    outcomes: Seq<CallModel>,
)
    requires
        !m.global,
        m.applied is Some,
        (m.applied->0).interface != m.config.vpn_name,
        !(outcome is Done),
        outcomes.len() >= m.orphaned.len(),
    ensures
        ({
            let then = ThenModel::Adopt { rearm: true, reply };
            let end = proceed(
                backend_step(m, AfterBackendModel::Reverting { then }, outcome),
                outcomes,
            );
            &&& end.1 is Watch
            &&& end.0.orphaned.contains((m.applied->0).interface)
            &&& end.0.applied is None
        }),
{
    let then = ThenModel::Adopt { rearm: true, reply };
    let reverted = after_revert(m, outcome);
    let primary = call_result(outcome, "revert task panicked: "@);
    let interface = (m.applied->0).interface;
    assert(to_clean(reverted).len() <= m.orphaned.len()) by {
        m.orphaned.lemma_filter_len(|i: Text| i != interface);
    }
    lemma_round_ends(reverted, primary, then, outcomes);
    let last = round_end(reverted, primary, outcomes);
    if !last.0.orphaned.contains(interface) {
        assert(last.0.orphaned.push(interface)[last.0.orphaned.len() as int] == interface);
    }
}

/// The state after a round of orphan cleanup, and the reconcile's result.
spec fn round_end(
    m: MachineModel,
    primary: Result<(), Text>,
    outcomes: Seq<CallModel>,
) -> (MachineModel, Result<(), Text>) {
    let list = to_clean(m);
    let used = outcomes.take(list.len() as int);
    (
        MachineModel { orphaned: unclean(list, used, list.len() as int), ..m },
        both(primary, orphan_result(list, used)),
    )
}

/// A round of orphan cleanup ends once every orphan has been tried.
proof fn lemma_round_ends(
    m: MachineModel,
    primary: Result<(), Text>,
    then: ThenModel,
    outcomes: Seq<CallModel>,
)
    requires
        outcomes.len() >= to_clean(m).len(),
    ensures
        ({
            let (last, result) = round_end(m, primary, outcomes);
            proceed(orphans_step(m, primary, then), outcomes) == after_reconcile(last, result, then)
        }),
{
    let list = to_clean(m);
    let used = outcomes.take(list.len() as int);
    let cleaned = MachineModel { orphaned: list, ..m };
    if list.len() == 0 {
        assert(unclean(list, used, 0) =~= list);
        lemma_ended(after_reconcile(cleaned, primary, then), outcomes);
        if let Ok(unit) = primary {
            assert(unit == ());
        }
    } else {
        let none = Seq::<CallModel>::empty();
        assert(none + outcomes =~= outcomes);
        lemma_round_goes_on(cleaned, list, none, primary, then, outcomes);
    }
}

/// Outcomes change nothing where no call is asked for.
proof fn lemma_ended(next: Next, outcomes: Seq<CallModel>)
    requires
        !(next.1 is Backend),
    ensures
        proceed(next, outcomes) == next,
{
}

proof fn lemma_round_goes_on(
    m: MachineModel,
    list: Seq<Text>,
    tried: Seq<CallModel>,
    primary: Result<(), Text>,
    then: ThenModel,
    outcomes: Seq<CallModel>,
)
    requires
        tried.len() < list.len(),
        tried.len() + outcomes.len() >= list.len(),
    ensures
        ({
            let used = (tried + outcomes).take(list.len() as int);
            proceed(
                (
                    m,
                    StepModel::Backend {
                        call: BackendModel::Revert { interface: list[tried.len() as int] },
                        then: AfterBackendModel::Orphans { list, outcomes: tried, primary, then },
                    },
                ),
                outcomes,
            ) == after_reconcile(
                MachineModel { orphaned: unclean(list, used, list.len() as int), ..m },
                both(primary, orphan_result(list, used)),
                then,
            )
        }),
    decreases outcomes.len(),
{
    let all = tried.push(outcomes[0]);
    let rest = outcomes.drop_first();
    assert(all + rest =~= tried + outcomes);
    if all.len() < list.len() {
        lemma_round_goes_on(m, list, all, primary, then, rest);
    } else {
        assert((tried + outcomes).take(list.len() as int) =~= all);
        lemma_ended(
            after_reconcile(
                MachineModel { orphaned: unclean(list, all, list.len() as int), ..m },
                both(primary, orphan_result(list, all)),
                then,
            ),
            rest,
        );
    }
}

// ---------------------------------------------------------------------------
// Invariants
// ---------------------------------------------------------------------------

/// No interface is orphaned twice, and none at all where reverting is global.
pub open spec fn orphans_ok(m: MachineModel) -> bool {
    &&& m.orphaned.no_duplicates()
    &&& m.global ==> m.orphaned.len() == 0
}

/// The invariant, with what a cleanup under way has set out to do.
pub open spec fn next_ok(next: Next) -> bool {
    &&& orphans_ok(next.0)
    &&& match next.1 {
        StepModel::Backend { call, then } => pending_ok(next.0, then),
        _ => true,
    }
}

/// What a backend call's outcome is for agrees with the state.
pub open spec fn pending_ok(m: MachineModel, then: AfterBackendModel) -> bool {
    match then {
        AfterBackendModel::Orphans { list, outcomes, .. } => list == m.orphaned && outcomes.len()
            < list.len(),
        AfterBackendModel::ShutdownOrphans { list, outcomes } => list == m.orphaned
            && outcomes.len() < list.len(),
        _ => true,
    }
}

proof fn lemma_filter_no_duplicates(s: Seq<Text>, keep: spec_fn(Text) -> bool)
    requires
        s.no_duplicates(),
    ensures
        s.filter(keep).no_duplicates(),
    decreases s.len(),
{
    reveal(Seq::filter);
    if s.len() > 0 {
        lemma_filter_no_duplicates(s.drop_last(), keep);
        let rest = s.drop_last().filter(keep);
        if keep(s.last()) {
            assert forall|i: int, j: int| 0 <= i < j < s.filter(keep).len() implies s.filter(
                keep,
            )[i] != s.filter(keep)[j] by {
                if j == rest.len() {
                    s.drop_last().lemma_filter_contains_rev(keep, rest[i]);
                    assert(s.drop_last().contains(rest[i]));
                    let k = s.drop_last().index_of(rest[i]);
                    assert(s[k] == rest[i]);
                }
            }
        }
    }
}

proof fn lemma_unclean_sublist(list: Seq<Text>, outcomes: Seq<CallModel>, n: int)
    requires
        0 <= n <= list.len(),
        list.no_duplicates(),
    ensures
        unclean(list, outcomes, n).no_duplicates(),
        unclean(list, outcomes, n).len() <= n,
        forall|x: Text| unclean(list, outcomes, n).contains(x) ==> list.take(n).contains(x),
    decreases n,
{
    if n > 0 {
        lemma_unclean_sublist(list, outcomes, n - 1);
        let rest = unclean(list, outcomes, n - 1);
        assert forall|x: Text| unclean(list, outcomes, n).contains(x) implies list.take(
            n,
        ).contains(x) by {
            if rest.contains(x) {
                let k = list.take(n - 1).index_of(x);
                assert(list.take(n)[k] == x);
            } else {
                assert(list.take(n)[n - 1] == x);
            }
        }
        if !(outcomes[n - 1] is Done) {
            assert(!rest.contains(list[n - 1])) by {
                if rest.contains(list[n - 1]) {
                    let k = list.take(n - 1).index_of(list[n - 1]);
                    assert(list[k] == list[n - 1]);
                }
            }
        }
    }
}

proof fn lemma_after_reconcile_ok(m: MachineModel, result: Result<(), Text>, then: ThenModel)
    requires
        orphans_ok(m),
    ensures
        next_ok(after_reconcile(m, result, then)),
{
    let set_aside = set_aside_stale(m);
    if let Some(a) = m.applied {
        if !m.orphaned.contains(a.interface) {
            assert(m.orphaned.push(a.interface).no_duplicates());
        }
    }
    assert(orphans_ok(set_aside));
}

proof fn lemma_to_clean_ok(m: MachineModel)
    requires
        orphans_ok(m),
    ensures
        to_clean(m).no_duplicates(),
        to_clean(m).len() <= m.orphaned.len(),
{
    if let Some(a) = m.applied {
        let keep = |i: Text| i != a.interface;
        lemma_filter_no_duplicates(m.orphaned, keep);
        m.orphaned.lemma_filter_len(keep);
    }
}

proof fn lemma_orphans_step_ok(m: MachineModel, primary: Result<(), Text>, then: ThenModel)
    requires
        orphans_ok(m),
    ensures
        next_ok(orphans_step(m, primary, then)),
{
    lemma_to_clean_ok(m);
    lemma_after_reconcile_ok(MachineModel { orphaned: to_clean(m), ..m }, primary, then);
}

proof fn lemma_reconcile_step_ok(m: MachineModel, then: ThenModel)
    requires
        orphans_ok(m),
    ensures
        next_ok(reconcile_step(m, then)),
{
    lemma_orphans_step_ok(m, Ok(()), then);
    lemma_orphans_step_ok(MachineModel { needs_resync: false, ..m }, Ok(()), then);
}

/// Every backend outcome keeps the invariant: no interface is ever orphaned
/// twice, and where reverting is global none is ever orphaned.
pub proof fn law_backend_outcomes_keep_the_invariant(
    m: MachineModel,
    then: AfterBackendModel,
    outcome: CallModel,
)
    requires
        orphans_ok(m),
        pending_ok(m, then),
    ensures
        next_ok(backend_step(m, then, outcome)),
{
    match then {
        AfterBackendModel::Applying { target, then } => {
            lemma_orphans_step_ok(
                after_apply(m, target, outcome),
                call_result(outcome, "apply task panicked: "@),
                then,
            );
        },
        AfterBackendModel::Reverting { then } => {
            lemma_orphans_step_ok(
                after_revert(m, outcome),
                call_result(outcome, "revert task panicked: "@),
                then,
            );
        },
        AfterBackendModel::Cleaning { then } => {
            lemma_orphans_step_ok(
                after_cleanup(m, outcome),
                call_result(
                    outcome,
                    "orphaned-state cleanup task panicked: "@,
                ),
                then,
            );
        },
        AfterBackendModel::Orphans { list, outcomes, primary, then } => {
            let all = outcomes.push(outcome);
            if all.len() >= list.len() {
                lemma_unclean_sublist(list, all, list.len() as int);
                lemma_after_reconcile_ok(
                    MachineModel { orphaned: unclean(list, all, list.len() as int), ..m },
                    both(
                        primary,
                        orphan_result(list, all),
                    ),
                    then,
                );
            }
        },
        AfterBackendModel::ShutdownOrphans { list, outcomes } => {
            let all = outcomes.push(outcome);
            if all.len() >= list.len() {
                lemma_unclean_sublist(list, all, list.len() as int);
            }
        },
        _ => {},
    }
}

/// Every command and every other outcome keeps the invariant.
pub proof fn law_every_step_keeps_the_invariant(m: MachineModel)
    requires
        orphans_ok(m),
    ensures
        forall|command: CommandModel| next_ok(#[trigger] command_step(m, command)),
        forall|event: EventModel| next_ok(#[trigger] event_step(m, event)),
        forall|next: ConfigModel, reply: ReplyModel| next_ok(#[trigger] adopt_step(m, next, reply)),
        forall|next: ConfigModel, result: Result<(), Text>|
            next_ok(#[trigger] saved_step(m, next, result)),
        forall|then: MatchModel, same: Seq<bool>| next_ok(#[trigger] matched_step(m, then, same)),
        forall|purpose: LoadModel, result: Result<ConfigModel, Text>|
            next_ok(#[trigger] loaded_step(m, purpose, result)),
        forall|after: AfterWatchModel, outcome: Result<(), Text>|
            next_ok(#[trigger] watch_step(m, after, outcome)),
        forall|generation: u64| orphans_ok(#[trigger] watch_ended(m, generation)),
        next_ok(start_step(m)),
        next_ok(shutdown_step(m)),
{
    assert forall|event: EventModel| next_ok(#[trigger] event_step(m, event)) by {
        lemma_reconcile_step_ok(note_event(m, event), ThenModel::Event);
    }
    assert forall|x: MachineModel, next: ConfigModel, reply: ReplyModel|
        orphans_ok(x) implies next_ok(#[trigger] adopt_step(x, next, reply)) by {
        lemma_reconcile_step_ok(
            adopted(x, next),
            ThenModel::Adopt { rearm: watch_keys_differ(x.config, next), reply },
        );
    }
    lemma_to_clean_ok(m);
}

/// A machine that has just been made has the invariant.
pub proof fn law_fresh_machine_has_the_invariant(
    config: ConfigModel,
    path: Text,
    global: bool,
    locked: bool,
)
    ensures
        orphans_ok(initial(config, path, global, locked)),
{
}

/// Is the step a call other than a revert of `interface`, or no call at all?
spec fn spares(next: Next, interface: Text) -> bool {
    match next.1 {
        StepModel::Backend { call, then } => {
            &&& call != (BackendModel::Revert { interface })
            &&& then matches AfterBackendModel::Orphans { list, outcomes, .. } && outcomes.len()
                < list.len() && !list.contains(interface)
        },
        _ => true,
    }
}

proof fn lemma_spares(next: Next, interface: Text, outcomes: Seq<CallModel>)
    requires
        spares(next, interface),
    ensures
        spares(proceed(next, outcomes), interface),
    decreases outcomes.len(),
{
    if outcomes.len() > 0 {
        match next.1 {
            StepModel::Backend { call, then } => {
                lemma_spares(
                    backend_step(next.0, then, outcomes[0]),
                    interface,
                    outcomes.drop_first(),
                );
            },
            _ => {},
        }
    }
}

/// A cleanup of orphans never reverts the interface that is applied now,
/// however its calls end.
pub proof fn law_cleanup_spares_the_applied_interface(
    m: MachineModel,
    primary: Result<(), Text>,
    then: ThenModel,
    outcomes: Seq<CallModel>,
)
    requires
        m.applied is Some,
    ensures
        proceed(orphans_step(m, primary, then), outcomes).1 matches StepModel::Backend {
            call,
            ..
        } ==> call != (BackendModel::Revert { interface: (m.applied->0).interface }),
{
    let interface = (m.applied->0).interface;
    let keep = |i: Text| i != interface;
    let list = m.orphaned.filter(keep);
    assert forall|i: int| 0 <= i < list.len() implies list[i] != interface by {
        m.orphaned.lemma_filter_pred(keep, i);
    }
    lemma_spares(orphans_step(m, primary, then), interface, outcomes);
}

// ---------------------------------------------------------------------------
// Shutting down
// ---------------------------------------------------------------------------

/// Is this a state of shutting down in which a report of a clean system can
/// be relied on?
spec fn stop_truthful(next: Next) -> bool {
    match next.1 {
        StepModel::Stopped(clean) => clean == (next.0.applied is None && next.0.orphaned.len()
            == 0),
        StepModel::Backend { call, then } => match then {
            AfterBackendModel::ShutdownOrphans { .. } => true,
            AfterBackendModel::ShutdownRevert => next.0.applied is Some,
            _ => false,
        },
        _ => false,
    }
}

proof fn lemma_stop_truthful(next: Next, outcomes: Seq<CallModel>)
    requires
        stop_truthful(next),
    ensures
        stop_truthful(proceed(next, outcomes)),
    decreases outcomes.len(),
{
    if outcomes.len() > 0 {
        match next.1 {
            StepModel::Backend { call, then } => {
                let after = backend_step(next.0, then, outcomes[0]);
                lemma_stop_truthful(after, outcomes.drop_first());
            },
            _ => {},
        }
    }
}

/// Shutting down reports a clean system exactly when nothing is applied any
/// more and nothing is orphaned, whatever the backend answered.
pub proof fn law_shutdown_reports_the_truth(
    m: MachineModel,
    outcomes: Seq<CallModel>,
    clean: bool,
)
    requires
        proceed(shutdown_step(m), outcomes).1 == StepModel::Stopped(clean),
    ensures
        ({
            let end = proceed(shutdown_step(m), outcomes).0;
            clean == (end.applied is None && end.orphaned.len() == 0)
        }),
{
    lemma_stop_truthful(shutdown_step(m), outcomes);
}

proof fn lemma_stop_round_done(
    m: MachineModel,
    list: Seq<Text>,
    outcomes: Seq<CallModel>,
    k: nat,
)
    requires
        outcomes.len() + k == list.len(),
        k > 0,
        outcomes == all_done(outcomes.len()),
    ensures
        proceed(
            (
                m,
                StepModel::Backend {
                    call: BackendModel::Revert { interface: list[outcomes.len() as int] },
                    then: AfterBackendModel::ShutdownOrphans { list, outcomes },
                },
            ),
            all_done(k + 1),
        ).1 == StepModel::Stopped(true),
    decreases k,
{
    reveal_with_fuel(proceed, 3);
    let all = outcomes.push(CallModel::Done);
    assert(all =~= all_done(all.len()));
    assert(all_done(k + 1).drop_first() =~= all_done(k));
    assert(all_done(k).drop_first() =~= all_done((k - 1) as nat));
    if k > 1 {
        lemma_stop_round_done(m, list, all, (k - 1) as nat);
    } else {
        lemma_all_clean(list, all, list.len() as int);
        assert(all_done(0) =~= Seq::empty());
    }
}

/// Shutting down takes at most one revert for each orphan and one for what is
/// applied. If they all succeed, the system is left clean.
pub proof fn law_successful_shutdown_is_clean(m: MachineModel)
    ensures
        proceed(shutdown_step(m), all_done(m.orphaned.len() + 1)).1 == StepModel::Stopped(true),
{
    let n = m.orphaned.len() + 1;
    let list = to_clean(m);
    assert(list.len() <= m.orphaned.len()) by {
        if let Some(a) = m.applied {
            m.orphaned.lemma_filter_len(|i: Text| i != a.interface);
        }
    }
    let cleaned = MachineModel { orphaned: list, ..m };
    let k = list.len() + 1;
    if list.len() == 0 {
        reveal_with_fuel(proceed, 2);
        assert(all_done(1).drop_first() =~= Seq::empty());
    } else {
        let none = Seq::<CallModel>::empty();
        assert(none =~= all_done(0));
        lemma_stop_round_done(cleaned, list, none, list.len());
    }
    lemma_proceed_more(shutdown_step(m), k, n);
}

// ---------------------------------------------------------------------------
// Configuration
// ---------------------------------------------------------------------------

proof fn lemma_reconcile_keeps_config(m: MachineModel, then: ThenModel)
    ensures
        reconcile_step(m, then).0.config == m.config,
        reconcile_step(m, then).0.config_invalid == m.config_invalid,
        !(reconcile_step(m, then).1 is Save),
{
}

/// Whether the configuration reads as invalid always reflects the latest
/// read of it.
pub proof fn law_invalid_reflects_the_latest_read(
    m: MachineModel,
    purpose: LoadModel,
    result: Result<ConfigModel, Text>,
)
    ensures
        loaded_step(m, purpose, result).0.config_invalid == (result is Err),
{
    if let Ok(config) = result {
        let fresh = MachineModel { config_invalid: false, ..m };
        let next = adopted(fresh, config);
        let rearm = watch_keys_differ(fresh.config, config);
        lemma_reconcile_keeps_config(next, ThenModel::Adopt { rearm, reply: ReplyModel::Current });
        lemma_reconcile_keeps_config(next, ThenModel::Adopt { rearm, reply: ReplyModel::Reload });
        lemma_reconcile_keeps_config(next, ThenModel::Adopt { rearm, reply: ReplyModel::External });
    }
}

/// A configuration that cannot be read changes nothing but the flag that says
/// so, and nothing is written or applied on account of it.
pub proof fn law_unreadable_config_freezes(m: MachineModel, purpose: LoadModel, e: Text)
    ensures
        loaded_step(m, purpose, Err(e)).0 == (MachineModel { config_invalid: true, ..m }),
        loaded_step(m, purpose, Err(e)).1 is Reply || loaded_step(m, purpose, Err(e)).1 is Idle,
{
}

/// What is written is what was read with one change: `enabled` for an enable
/// or disable, the editable part for an edit.
pub proof fn law_a_change_keeps_the_other_fields(
    m: MachineModel,
    old: ConfigModel,
    enabled: bool,
    view: ConfigViewModel,
    written: ConfigModel,
)
    ensures
        loaded_step(m, LoadModel::Enable(enabled), Ok(old)).1 == StepModel::Save(written)
            ==> written == (ConfigModel { enabled, ..old }),
        loaded_step(m, LoadModel::Edit(view), Ok(old)).1 == StepModel::Save(written) ==> {
            &&& written.hosts == old.hosts
            &&& written.enabled == old.enabled
            &&& written.fallback_dns == old.fallback_dns
            &&& written.vpn_name == view.vpn_name
            &&& written.backend == view.backend
            &&& written.openvpn == view.openvpn
        },
{
    let fresh = MachineModel { config_invalid: false, ..m };
    lemma_reconcile_keeps_config(
        adopted(fresh, old),
        ThenModel::Adopt {
            rearm: watch_keys_differ(fresh.config, old),
            reply: ReplyModel::Current,
        },
    );
}

/// While the control socket is open to a group, an edit over it never changes
/// the OpenVPN endpoint or password file, and never switches OpenVPN on.
pub proof fn law_group_socket_cannot_touch_openvpn(
    m: MachineModel,
    old: ConfigModel,
    view: ConfigViewModel,
    written: ConfigModel,
)
    requires
        m.locked,
        loaded_step(m, LoadModel::Edit(view), Ok(old)).1 == StepModel::Save(written),
    ensures
        written.openvpn == old.openvpn,
        written.backend == VpnBackend::OpenVpn ==> old.backend == VpnBackend::OpenVpn,
{
}

/// A configuration becomes live only once it is on disk.
pub proof fn law_nothing_is_adopted_that_was_not_written(
    m: MachineModel,
    next: ConfigModel,
    e: Text,
)
    ensures
        saved_step(m, next, Err(e)).0 == m,
        saved_step(m, next, Ok(())).0.config == next,
{
    lemma_reconcile_keeps_config(
        adopted(m, next),
        ThenModel::Adopt { rearm: watch_keys_differ(m.config, next), reply: ReplyModel::Saved },
    );
}

/// A change notice for the file the daemon itself wrote does nothing.
pub proof fn law_own_write_is_ignored(m: MachineModel)
    ensures
        loaded_step(m, LoadModel::External, Ok(m.config)) == (
            MachineModel { config_invalid: false, ..m },
            StepModel::Idle,
        ),
{
}

proof fn lemma_nothing_removed(hosts: Seq<Text>, raw: Text, same: Seq<bool>, n: int)
    requires
        0 <= n <= hosts.len(),
        forall|i: int| 0 <= i < n ==> !#[trigger] is_target(hosts, raw, same, i),
    ensures
        without_targets(hosts, raw, same, n) == hosts.take(n),
    decreases n,
{
    if n > 0 {
        lemma_nothing_removed(hosts, raw, same, n - 1);
        assert(!is_target(hosts, raw, same, n - 1));
        assert(hosts.take(n) =~= hosts.take(n - 1).push(hosts[n - 1]));
    } else {
        assert(hosts.take(0) =~= Seq::empty());
    }
}

/// Removing the domain that was just added gives the old list back.
pub proof fn law_remove_undoes_add(
    m: MachineModel,
    old: ConfigModel,
    host: Text,
    add_same: Seq<bool>,
    raw: Text,
    remove_same: Seq<bool>,
    added: ConfigModel,
)
    requires
        matched_step(m, MatchModel::Add { next: old, host }, add_same).1 == StepModel::Save(added),
        // only the new entry is named by the removal
        forall|i: int|
            0 <= i < old.hosts.len() ==> !#[trigger] is_target(added.hosts, raw, remove_same, i),
        is_target(added.hosts, raw, remove_same, old.hosts.len() as int),
    ensures
        matched_step(m, MatchModel::Remove { next: added, raw }, remove_same) == (
            m,
            StepModel::Save(old),
        ),
{
    lemma_reconcile_keeps_config(
        adopted(m, old),
        ThenModel::Adopt {
            rearm: watch_keys_differ(m.config, old),
            reply: ReplyModel::Duplicate(host),
        },
    );
    assert(added.hosts == old.hosts.push(host));
    let n = old.hosts.len() as int;
    lemma_nothing_removed(added.hosts, raw, remove_same, n);
    assert(added.hosts.take(n) =~= old.hosts);
    assert(is_target(added.hosts, raw, remove_same, n));
}

proof fn lemma_targets_gone(hosts: Seq<Text>, raw: Text, same: Seq<bool>, n: int)
    requires
        0 <= n <= hosts.len(),
    ensures
        forall|x: Text|
            without_targets(hosts, raw, same, n).contains(x) <==> exists|i: int|
                0 <= i < n && hosts[i] == x && !#[trigger] is_target(hosts, raw, same, i),
    decreases n,
{
    if n > 0 {
        lemma_targets_gone(hosts, raw, same, n - 1);
        let rest = without_targets(hosts, raw, same, n - 1);
        let whole = without_targets(hosts, raw, same, n);
        assert forall|x: Text|
            whole.contains(x) <==> exists|i: int|
                0 <= i < n && hosts[i] == x && !#[trigger] is_target(hosts, raw, same, i) by {
            if whole.contains(x) {
                if rest.contains(x) {
                    let i = choose|i: int|
                        0 <= i < n - 1 && hosts[i] == x && !#[trigger] is_target(hosts, raw, same, i);
                    assert(!is_target(hosts, raw, same, i));
                } else {
                    assert(!is_target(hosts, raw, same, n - 1));
                }
            }
            if exists|i: int|
                0 <= i < n && hosts[i] == x && !#[trigger] is_target(hosts, raw, same, i) {
                let i = choose|i: int|
                    0 <= i < n && hosts[i] == x && !#[trigger] is_target(hosts, raw, same, i);
                if i < n - 1 {
                    assert(rest.contains(x));
                    let k = rest.index_of(x);
                    assert(whole[k] == x);
                } else {
                    assert(whole[rest.len() as int] == x);
                }
            }
        }
    }
}

/// After a removal the list holds exactly the entries that were neither the
/// raw input nor the same host.
pub proof fn law_removal_keeps_exactly_the_others(
    m: MachineModel,
    old: ConfigModel,
    raw: Text,
    same: Seq<bool>,
    written: ConfigModel,
)
    requires
        remove_step(m, old, raw, same).1 == StepModel::Save(written),
    ensures
        forall|x: Text|
            written.hosts.contains(x) <==> exists|i: int|
                0 <= i < old.hosts.len() && old.hosts[i] == x && !#[trigger] is_target(
                    old.hosts,
                    raw,
                    same,
                    i,
                ),
        !written.hosts.contains(raw),
{
    lemma_reconcile_keeps_config(
        adopted(m, old),
        ThenModel::Adopt { rearm: watch_keys_differ(m.config, old), reply: ReplyModel::Current },
    );
    lemma_targets_gone(old.hosts, raw, same, old.hosts.len() as int);
}

proof fn lemma_fewer(hosts: Seq<Text>, raw: Text, same: Seq<bool>, n: int, k: int)
    requires
        0 <= n <= hosts.len(),
        0 <= k,
    ensures
        without_targets(hosts, raw, same, n).len() <= n,
        k < n && is_target(hosts, raw, same, k) ==> without_targets(hosts, raw, same, n).len() < n,
    decreases n,
{
    if n > 0 {
        lemma_fewer(hosts, raw, same, n - 1, k);
    }
}

/// What a removal writes, told by the verdicts.
pub proof fn lemma_removal(m: MachineModel, old: ConfigModel, raw: Text, same: Seq<bool>)
    requires
        same.len() == old.hosts.len(),
    ensures
        ({
            let end = remove_step(m, old, raw, same);
            let named = same.contains(true) || old.hosts.contains(raw);
            &&& !named ==> !(end.1 is Save)
            &&& named ==> end.0 == m && (end.1 matches StepModel::Save(written) && {
                &&& written == (ConfigModel { hosts: written.hosts, ..old })
                &&& forall|k: int|
                    0 <= k < old.hosts.len() && !same[k] && old.hosts[k] != raw
                        ==> written.hosts.contains(#[trigger] old.hosts[k])
                &&& !written.hosts.contains(raw)
                &&& written.hosts.len() < old.hosts.len()
            })
        }),
{
    let n = old.hosts.len() as int;
    lemma_reconcile_keeps_config(
        adopted(m, old),
        ThenModel::Adopt { rearm: watch_keys_differ(m.config, old), reply: ReplyModel::Current },
    );
    lemma_targets_gone(old.hosts, raw, same, n);
    if same.contains(true) || old.hosts.contains(raw) {
        let k = if same.contains(true) {
            same.index_of(true)
        } else {
            old.hosts.index_of(raw)
        };
        assert(is_target(old.hosts, raw, same, k));
        lemma_fewer(old.hosts, raw, same, n, k);
        let written = without_targets(old.hosts, raw, same, n);
        assert forall|k: int| 0 <= k < n && !same[k] && old.hosts[k] != raw implies written.contains(
            #[trigger] old.hosts[k],
        ) by {
            assert(!is_target(old.hosts, raw, same, k));
        }
    } else {
        assert forall|i: int| 0 <= i < n implies !#[trigger] is_target(old.hosts, raw, same, i) by {
            if is_target(old.hosts, raw, same, i) {
                assert(old.hosts.contains(old.hosts[i]));
                assert(same.contains(same[i]));
            }
        }
    }
}

/// A removal that names no entry writes nothing.
pub proof fn lemma_removal_unnamed(m: MachineModel, old: ConfigModel, raw: Text)
    ensures
        !old.hosts.contains(raw) ==> !(remove_step(m, old, raw, Seq::empty()).1 is Save),
{
    if !old.hosts.contains(raw) {
        assert forall|i: int| 0 <= i < old.hosts.len() implies !#[trigger] is_target(
            old.hosts,
            raw,
            Seq::empty(),
            i,
        ) by {
            assert(old.hosts.contains(old.hosts[i]));
        }
        lemma_reconcile_keeps_config(
            adopted(m, old),
            ThenModel::Adopt {
                rearm: watch_keys_differ(m.config, old),
                reply: ReplyModel::Current,
            },
        );
    }
}

} // verus!
