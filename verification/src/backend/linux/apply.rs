//! Installing and removing a link's split-DNS rules with `resolvectl`.
//!
//! An apply is a fixed sequence of commands that is rolled back when one
//! after the first fails. Each function here takes how a command ended and
//! says what to run next.

use vstd::prelude::*;
use crate::exec::{arguments, failure, failure_of, outcome_of, CommandOutcome, OutcomeModel};
use crate::platform::{ErrorModel, InfoModel, PlatformError, VpnInfo};
use crate::text::{concat2, copy_texts, has_prefix, lossy, starts_with, texts, Text};

verus! {

/// What the outcome of a command is for.
#[derive(Debug, PartialEq, Eq)]
pub enum ApplyStage {
    /// Setting the link's servers, before these domains.
    Servers { interface: String, domains: Vec<String> },
    /// Setting the link's routing domains.
    Domains { interface: String },
    /// Clearing the link's default-route flag.
    DefaultRoute { interface: String },
    /// Rolling back after this error.
    Rollback { error: PlatformError },
}

/// The value of an [`ApplyStage`].
pub enum StageModel {
    Servers { interface: Text, domains: Seq<Text> },
    Domains { interface: Text },
    DefaultRoute { interface: Text },
    Rollback { error: ErrorModel },
}

/// What an apply does next.
#[derive(Debug, PartialEq, Eq)]
pub enum ApplyStep {
    /// Run `resolvectl` with these arguments: [`apply_continue`].
    Run { args: Vec<String>, stage: ApplyStage },
    Finished(Result<(), PlatformError>),
}

/// The value of an [`ApplyStep`].
pub enum ApplyModel {
    Run { args: Seq<Text>, stage: StageModel },
    Finished(Result<(), ErrorModel>),
}

/// What a revert does next.
#[derive(Debug, PartialEq, Eq)]
pub enum RevertStep {
    /// Say whether the interface still exists: [`revert_checked`].
    CheckInterface { interface: String, error: PlatformError },
    Finished(Result<(), PlatformError>),
}

/// The value of a [`RevertStep`].
pub enum RevertModel {
    CheckInterface { interface: Text, error: ErrorModel },
    Finished(Result<(), ErrorModel>),
}

impl View for ApplyStage {
    type V = StageModel;

    open spec fn view(&self) -> StageModel {
        match self {
            ApplyStage::Servers { interface, domains } => StageModel::Servers {
                interface: interface@,
                domains: texts(domains@),
            },
            ApplyStage::Domains { interface } => StageModel::Domains { interface: interface@ },
            ApplyStage::DefaultRoute { interface } => StageModel::DefaultRoute {
                interface: interface@,
            },
            ApplyStage::Rollback { error } => StageModel::Rollback { error: error@ },
        }
    }
}

impl View for ApplyStep {
    type V = ApplyModel;

    open spec fn view(&self) -> ApplyModel {
        match self {
            ApplyStep::Run { args, stage } => ApplyModel::Run { args: texts(args@), stage: stage@ },
            ApplyStep::Finished(r) => ApplyModel::Finished(outcome_of(*r)),
        }
    }
}

impl View for RevertStep {
    type V = RevertModel;

    open spec fn view(&self) -> RevertModel {
        match self {
            RevertStep::CheckInterface { interface, error } => RevertModel::CheckInterface {
                interface: interface@,
                error: error@,
            },
            RevertStep::Finished(r) => RevertModel::Finished(outcome_of(*r)),
        }
    }
}

/// A domain as `resolvectl` takes it for routing only: marked with `~`.
pub open spec fn routing_form(domain: Text) -> Text {
    if has_prefix(domain, "~"@) {
        domain
    } else {
        "~"@ + domain
    }
}

/// The domains as `resolvectl` takes them for routing only.
pub open spec fn routing_forms(domains: Seq<Text>) -> Seq<Text> {
    Seq::new(domains.len(), |i: int| routing_form(domains[i]))
}

/// Undo an apply that failed after its first command.
pub open spec fn rollback_model(interface: Text, error: ErrorModel) -> ApplyModel {
    ApplyModel::Run {
        args: seq!["revert"@, interface],
        stage: StageModel::Rollback { error },
    }
}

/// The first command of an apply. With no servers to route to there is
/// nothing to install, and none is run.
pub open spec fn apply_begin(info: InfoModel, domains: Seq<Text>) -> ApplyModel {
    if info.dns.len() == 0 {
        ApplyModel::Finished(Ok(()))
    } else {
        ApplyModel::Run {
            args: seq!["dns"@, info.interface] + info.dns,
            stage: StageModel::Servers { interface: info.interface, domains },
        }
    }
}

/// What follows a command of an apply.
pub open spec fn apply_next(stage: StageModel, outcome: OutcomeModel) -> ApplyModel {
    match stage {
        StageModel::Servers { interface, domains } => match failure_of(outcome) {
            Some(e) => ApplyModel::Finished(Err(e)),
            None => ApplyModel::Run {
                args: seq!["domain"@, interface] + routing_forms(domains),
                stage: StageModel::Domains { interface },
            },
        },
        StageModel::Domains { interface } => match failure_of(outcome) {
            Some(e) => rollback_model(interface, e),
            None => ApplyModel::Run {
                args: seq!["default-route"@, interface, "false"@],
                stage: StageModel::DefaultRoute { interface },
            },
        },
        StageModel::DefaultRoute { interface } => match failure_of(outcome) {
            Some(e) => rollback_model(interface, e),
            None => ApplyModel::Finished(Ok(())),
        },
        StageModel::Rollback { error } => ApplyModel::Finished(Err(error)),
    }
}

/// What follows the command of a revert. A failure counts only while the
/// interface exists: its DNS settings vanish with it.
pub open spec fn revert_next(interface: Text, outcome: OutcomeModel) -> RevertModel {
    match outcome {
        OutcomeModel::NotRun(e) => RevertModel::Finished(Err(e)),
        OutcomeModel::Exited { success, stderr, .. } => if success {
            RevertModel::Finished(Ok(()))
        } else {
            RevertModel::CheckInterface { interface, error: ErrorModel::CommandFailed(stderr) }
        },
    }
}

/// Mark each domain with `~`, so that it routes queries to the link without
/// becoming a search domain. A domain that is marked already stays as it is.
pub fn routing_only(domains: &Vec<String>) -> (r: Vec<String>)
    ensures
        texts(r@) == routing_forms(texts(domains@)),
{
    let mut out: Vec<String> = Vec::new();
    let mut i: usize = 0;
    while i < domains.len()
        invariant
            i <= domains.len(),
            out.len() == i,
            forall|k: int| 0 <= k < i ==> out@[k]@ == routing_form(domains@[k]@),
        decreases domains.len() - i,
    {
        let domain = domains[i].as_str();
        if starts_with(domain, "~") {
            out.push(domain.to_owned());
        } else {
            out.push(concat2("~", domain));
        }
        i += 1;
    }
    assert(texts(out@) =~= routing_forms(texts(domains@)));
    out
}

fn rollback(interface: String, error: PlatformError) -> (r: ApplyStep)
    ensures
        r@ == rollback_model(interface@, error@),
{
    let args = arguments("revert", interface.as_str(), &Vec::new());
    assert(texts(args@) =~= seq!["revert"@, interface@]);
    ApplyStep::Run { args, stage: ApplyStage::Rollback { error } }
}

/// Begin to route `domains` to the VPN's servers.
pub fn apply_rules(info: &VpnInfo, domains: &Vec<String>) -> (r: ApplyStep)
    ensures
        r@ == apply_begin(info@, texts(domains@)),
{
    if info.dns_servers.len() == 0 {
        return ApplyStep::Finished(Ok(()));
    }
    ApplyStep::Run {
        args: arguments("dns", info.interface_name.as_str(), &info.dns_servers),
        stage: ApplyStage::Servers {
            interface: info.interface_name.clone(),
            domains: copy_texts(domains),
        },
    }
}

/// A command of an apply ended.
pub fn apply_continue(stage: ApplyStage, outcome: CommandOutcome) -> (r: ApplyStep)
    ensures
        r@ == apply_next(stage@, outcome@),
{
    match stage {
        ApplyStage::Servers { interface, domains } => match failure(outcome) {
            Some(e) => ApplyStep::Finished(Err(e)),
            None => ApplyStep::Run {
                args: arguments("domain", interface.as_str(), &routing_only(&domains)),
                stage: ApplyStage::Domains { interface },
            },
        },
        ApplyStage::Domains { interface } => match failure(outcome) {
            Some(e) => rollback(interface, e),
            None => {
                let mut flag: Vec<String> = Vec::new();
                flag.push("false".to_owned());
                let args = arguments("default-route", interface.as_str(), &flag);
                assert(texts(args@) =~= seq!["default-route"@, interface@, "false"@]);
                ApplyStep::Run { args, stage: ApplyStage::DefaultRoute { interface } }
            },
        },
        ApplyStage::DefaultRoute { interface } => match failure(outcome) {
            Some(e) => rollback(interface, e),
            None => ApplyStep::Finished(Ok(())),
        },
        ApplyStage::Rollback { error } => ApplyStep::Finished(Err(error)),
    }
}

/// The arguments of `resolvectl` that revert an interface.
pub fn revert_arguments(interface: &str) -> (r: Vec<String>)
    ensures
        texts(r@) == seq!["revert"@, interface@],
{
    let args = arguments("revert", interface, &Vec::new());
    assert(texts(args@) =~= seq!["revert"@, interface@]);
    args
}

/// The command of a revert ended.
pub fn revert_rules(interface: String, outcome: CommandOutcome) -> (r: RevertStep)
    ensures
        r@ == revert_next(interface@, outcome@),
{
    match outcome {
        CommandOutcome::NotRun(e) => RevertStep::Finished(Err(e)),
        CommandOutcome::Exited { success, status: _, stdout: _, stderr } => if success {
            RevertStep::Finished(Ok(()))
        } else {
            RevertStep::CheckInterface {
                interface,
                error: PlatformError::CommandFailed(lossy(&stderr)),
            }
        },
    }
}

/// Whether the interface of a failed revert still exists is known. One that
/// is gone took its rules with it.
pub fn revert_checked(error: PlatformError, present: bool) -> (r: Result<(), PlatformError>)
    ensures
        outcome_of(r) == if present {
            Err(error@)
        } else {
            Ok(())
        },
{
    if present {
        Err(error)
    } else {
        Ok(())
    }
}

/// Carry on with an apply as long as commands are asked for, with these
/// outcomes in turn.
pub open spec fn apply_run(step: ApplyModel, outcomes: Seq<OutcomeModel>) -> ApplyModel
    decreases outcomes.len(),
{
    match step {
        ApplyModel::Run { args, stage } => if outcomes.len() == 0 {
            step
        } else {
            apply_run(apply_next(stage, outcomes[0]), outcomes.drop_first())
        },
        ApplyModel::Finished(_) => step,
    }
}

/// An apply succeeds exactly when all three of its commands do; a failure of
/// the first ends it, and a failure of a later one is reported after the
/// rollback, however that ends.
pub proof fn law_apply_succeeds_only_as_a_whole(
    info: InfoModel,
    domains: Seq<Text>,
    a: OutcomeModel,
    b: OutcomeModel,
    c: OutcomeModel,
    d: OutcomeModel,
)
    requires
        info.dns.len() > 0,
    ensures
        apply_run(apply_begin(info, domains), seq![a, b, c, d]) == ApplyModel::Finished(
            match failure_of(a) {
                Some(e) => Err(e),
                None => match failure_of(b) {
                    Some(e) => Err(e),
                    None => match failure_of(c) {
                        Some(e) => Err(e),
                        None => Ok(()),
                    },
                },
            },
        ),
{
    let all = seq![a, b, c, d];
    assert(all.drop_first() =~= seq![b, c, d]);
    assert(seq![b, c, d].drop_first() =~= seq![c, d]);
    assert(seq![c, d].drop_first() =~= seq![d]);
    assert(seq![d].drop_first() =~= Seq::<OutcomeModel>::empty());
    reveal_with_fuel(apply_run, 5);
}

/// When a command after the first fails, the link is reverted before the
/// error is reported.
pub proof fn law_half_an_apply_is_rolled_back(interface: Text, stage: StageModel, outcome: OutcomeModel)
    requires
        stage == (StageModel::Domains { interface }) || stage == (StageModel::DefaultRoute {
            interface,
        }),
        failure_of(outcome) is Some,
    ensures
        apply_next(stage, outcome) == (ApplyModel::Run {
            args: seq!["revert"@, interface],
            stage: StageModel::Rollback { error: failure_of(outcome)->0 },
        }),
{
}

/// Marking domains for routing twice is marking them once.
pub proof fn law_routing_form_is_idempotent(domain: Text)
    ensures
        routing_form(routing_form(domain)) == routing_form(domain),
{
    reveal_strlit("~");
    let marked = "~"@ + domain;
    assert(marked.subrange(0, 1) =~= "~"@);
}

/// Did the program run with success?
pub open spec fn succeeded(outcome: OutcomeModel) -> bool {
    outcome matches OutcomeModel::Exited { success, .. } && success
}

/// An apply whose commands succeed sets all of the VPN's servers on its
/// interface, in their order, then every domain, marked for routing only, and
/// then clears the default route; with that it is done. Without servers no
/// command is run.
pub proof fn law_an_apply_installs_every_server_and_domain(
    info: InfoModel,
    domains: Seq<Text>,
    a: OutcomeModel,
    b: OutcomeModel,
    c: OutcomeModel,
)
    requires
        succeeded(a),
        succeeded(b),
        succeeded(c),
    ensures
        info.dns.len() == 0 ==> apply_begin(info, domains) == ApplyModel::Finished(Ok(())),
        info.dns.len() > 0 ==> (apply_begin(info, domains) matches ApplyModel::Run { args, stage }
            && {
            &&& args.len() == info.dns.len() + 2
            &&& args[0] == "dns"@ && args[1] == info.interface
            &&& forall|k: int| 0 <= k < info.dns.len() ==> args[k + 2] == #[trigger] info.dns[k]
            &&& apply_next(stage, a) matches ApplyModel::Run { args: routed, stage: second } && {
                &&& routed.len() == domains.len() + 2
                &&& routed[0] == "domain"@ && routed[1] == info.interface
                &&& forall|k: int|
                    0 <= k < domains.len() ==> is_marked(routed[k + 2], #[trigger] domains[k])
                &&& apply_next(second, b) matches ApplyModel::Run { args: cleared, stage: third }
                    && cleared == seq!["default-route"@, info.interface, "false"@] && apply_next(
                    third,
                    c,
                ) == ApplyModel::Finished(Ok(()))
            }
        }),
{
    reveal_strlit("~");
    assert forall|k: int| 0 <= k < domains.len() implies is_marked(
        (seq!["domain"@, info.interface] + routing_forms(domains))[k + 2],
        #[trigger] domains[k],
    ) by {
        let d = domains[k];
        if d.len() > 0 && d[0] == '~' {
            assert(d.subrange(0, 1) =~= "~"@);
        } else if has_prefix(d, "~"@) {
            assert(d.subrange(0, 1)[0] == '~');
        }
        assert("~"@ + d =~= seq!['~'] + d);
    }
}

/// Is this the domain with a `~` in front, the one it has or a new one?
pub open spec fn is_marked(form: Text, domain: Text) -> bool {
    if domain.len() > 0 && domain[0] == '~' {
        form == domain
    } else {
        form == seq!['~'] + domain
    }
}

/// A command that fails ends the apply with its failure: at once if it is the
/// first, after a revert of the interface if it is a later one, however that
/// revert ends.
pub proof fn law_a_failed_command_ends_the_apply(
    interface: Text,
    domains: Seq<Text>,
    bad: OutcomeModel,
    undone: OutcomeModel,
)
    requires
        !succeeded(bad),
    ensures
        ({
            let e = match bad {
                OutcomeModel::NotRun(e) => e,
                OutcomeModel::Exited { stderr, .. } => ErrorModel::CommandFailed(stderr),
            };
            &&& apply_next(StageModel::Servers { interface, domains }, bad) == ApplyModel::Finished(
                Err(e),
            )
            &&& forall|stage: StageModel|
                stage == (StageModel::Domains { interface }) || stage == (StageModel::DefaultRoute {
                    interface,
                }) ==> (#[trigger] apply_next(stage, bad) matches ApplyModel::Run {
                    args,
                    stage: last,
                } && args == seq!["revert"@, interface] && apply_next(last, undone)
                    == ApplyModel::Finished(Err(e)))
        }),
{
}

/// A revert that succeeds is done, and one that could not be run has failed.
/// One that ran and failed is looked into, with what it complained of.
pub proof fn law_a_revert_tells_how_it_went(interface: Text, outcome: OutcomeModel)
    ensures
        succeeded(outcome) ==> revert_next(interface, outcome) == RevertModel::Finished(Ok(())),
        outcome matches OutcomeModel::NotRun(e) ==> revert_next(interface, outcome)
            == RevertModel::Finished(Err(e)),
        outcome matches OutcomeModel::Exited { success, stderr, .. } ==> (!success ==> revert_next(
            interface,
            outcome,
        ) == (RevertModel::CheckInterface {
            interface,
            error: ErrorModel::CommandFailed(stderr),
        })),
{
}

} // verus!
