//! Applying and reverting on macOS, end to end: the resolver files for the
//! VPN's domains, then the default resolver.

use vstd::prelude::*;
use crate::backend::macos::demote::{
    demote, demote_begin, restore, verdict_of, DemoteModel, DemoteStep, LoadSnapshotModel,
};
use crate::backend::macos::scope::{apply_to_dir, scope_begin, ScopeModel, ScopeStep};
use crate::lists::{ordered_set, strictly_ordered};
use crate::exec::outcome_of;
use crate::platform::{ErrorModel, InfoModel, PlatformError, VpnInfo};
use crate::text::{concat2, copy_texts, opt_texts, texts, Text};
use crate::wire::ResolutionInfo;

verus! {

/// Where the system looks for per-domain resolvers.
pub const RESOLVER_DIR: &'static str = "/etc/resolver";

/// The macOS backend.
pub struct MacosBackend;

/// What an apply does next.
#[allow(inconsistent_fields)]
#[derive(Debug, PartialEq, Eq)]
pub enum PipelineStep {
    /// Bring the resolver files in line, from this step on, then demote to
    /// the fallback, if any: [`scoped`].
    Scope { step: ScopeStep, fallback: Option<Vec<String>>, corp_dns: Vec<String> },
    /// Demote the default resolver, from this step on: [`demoted`].
    Demote { step: DemoteStep },
    /// Remove the daemon's resolver files as far as that goes, and report the
    /// error.
    Unscope { error: PlatformError },
    /// Flush the system's DNS cache: the apply succeeded.
    Flush,
    Failed(PlatformError),
}

/// The value of a [`PipelineStep`].
#[allow(inconsistent_fields)]
pub enum PipelineModel {
    Scope { step: ScopeModel, fallback: Option<Seq<Text>>, corp: Seq<Text> },
    Demote { step: DemoteModel },
    Unscope { error: ErrorModel },
    Flush,
    Failed(ErrorModel),
}

/// What a revert does next.
#[derive(Debug, PartialEq, Eq)]
pub enum RevertStep {
    /// Restore the default resolver, from this step on: [`restored`].
    Restore { step: DemoteStep, removed: usize },
    /// Done; `flush` if the system's DNS cache is to be flushed.
    Reverted { removed: usize, flush: bool },
    Failed(PlatformError),
}

/// The value of a [`RevertStep`].
pub enum RevertModel {
    Restore { step: DemoteModel, removed: usize },
    Reverted { removed: usize, flush: bool },
    Failed(ErrorModel),
}

impl View for PipelineStep {
    type V = PipelineModel;

    open spec fn view(&self) -> PipelineModel {
        match self {
            PipelineStep::Scope { step, fallback, corp_dns } => PipelineModel::Scope {
                step: step@,
                fallback: opt_texts(*fallback),
                corp: texts(corp_dns@),
            },
            PipelineStep::Demote { step } => PipelineModel::Demote { step: step@ },
            PipelineStep::Unscope { error } => PipelineModel::Unscope { error: error@ },
            PipelineStep::Flush => PipelineModel::Flush,
            PipelineStep::Failed(e) => PipelineModel::Failed(e@),
        }
    }
}

impl View for RevertStep {
    type V = RevertModel;

    open spec fn view(&self) -> RevertModel {
        match self {
            RevertStep::Restore { step, removed } => RevertModel::Restore {
                step: step@,
                removed: *removed,
            },
            RevertStep::Reverted { removed, flush } => RevertModel::Reverted {
                removed: *removed,
                flush: *flush,
            },
            RevertStep::Failed(e) => RevertModel::Failed(e@),
        }
    }
}

/// The fallback to demote to, if there is one.
pub open spec fn usable_fallback(info: InfoModel) -> Option<Seq<Text>> {
    match info.demote {
        Some(servers) => if servers.len() > 0 {
            Some(servers)
        } else {
            None
        },
        None => None,
    }
}

/// Begin an apply.
pub open spec fn pipeline_begin(info: InfoModel, domains: Seq<Text>) -> PipelineModel {
    if info.dns.len() == 0 {
        PipelineModel::Failed(ErrorModel::CommandFailed("no DNS servers in VpnInfo"@))
    } else {
        PipelineModel::Scope {
            step: scope_begin(RESOLVER_DIR@, info.dns, domains),
            fallback: usable_fallback(info),
            corp: info.dns,
        }
    }
}

/// The resolver files are in line, or could not be brought so.
pub open spec fn after_scope(
    fallback: Option<Seq<Text>>,
    corp: Seq<Text>,
    result: Result<(), ErrorModel>,
) -> PipelineModel {
    match result {
        Err(e) => PipelineModel::Failed(e),
        Ok(_) => match fallback {
            Some(servers) => PipelineModel::Demote { step: demote_begin(servers, corp) },
            None => PipelineModel::Flush,
        },
    }
}

/// The default resolver is demoted, or could not be. A failure takes the
/// resolver files back, so that no half remains.
pub open spec fn after_demote(result: Result<bool, ErrorModel>) -> PipelineModel {
    match result {
        Err(e) => PipelineModel::Unscope { error: e },
        Ok(_) => PipelineModel::Flush,
    }
}

/// The daemon's resolver files were removed, or could not all be.
pub open spec fn after_removal(result: Result<usize, Text>) -> RevertModel {
    match result {
        Err(e) => RevertModel::Failed(
            ErrorModel::CommandFailed("failed to remove resolver files: "@ + e),
        ),
        Ok(removed) => RevertModel::Restore {
            step: DemoteModel::LoadSnapshot(LoadSnapshotModel::Revert),
            removed,
        },
    }
}

/// The default resolver is restored, or could not be.
pub open spec fn after_restore(removed: usize, result: Result<bool, ErrorModel>) -> RevertModel {
    match result {
        Err(e) => RevertModel::Failed(e),
        Ok(changed) => RevertModel::Reverted { removed, flush: removed > 0 || changed },
    }
}

impl MacosBackend {
    /// Resolver files are kept by domain: a revert removes them all, whatever
    /// the interface.
    pub fn reverts_globally(&self) -> (r: bool)
        ensures
            r,
    {
        true
    }

    /// Begin to route `domains` to the VPN's servers, and all else to the
    /// fallback.
    pub fn apply_rules(&self, info: &VpnInfo, domains: &Vec<String>) -> (r: PipelineStep)
        ensures
            r@ == pipeline_begin(info@, texts(domains@)),
    {
        if info.dns_servers.len() == 0 {
            return PipelineStep::Failed(
                PlatformError::CommandFailed("no DNS servers in VpnInfo".to_owned()),
            );
        }
        let fallback = match &info.demote_target {
            Some(servers) => if servers.len() > 0 {
                Some(copy_texts(servers))
            } else {
                None
            },
            None => None,
        };
        PipelineStep::Scope {
            step: apply_to_dir(RESOLVER_DIR, &info.dns_servers, domains),
            fallback,
            corp_dns: copy_texts(&info.dns_servers),
        }
    }
}

/// The resolver files are in line, or could not be brought so.
pub fn scoped(
    fallback: Option<Vec<String>>,
    corp_dns: Vec<String>,
    result: Result<(), PlatformError>,
) -> (r: PipelineStep)
    ensures
        r@ == after_scope(opt_texts(fallback), texts(corp_dns@), outcome_of(result)),
{
    match result {
        Err(e) => PipelineStep::Failed(e),
        Ok(_) => match fallback {
            Some(servers) => PipelineStep::Demote { step: demote(&servers, &corp_dns) },
            None => PipelineStep::Flush,
        },
    }
}

/// The default resolver is demoted, or could not be.
pub fn demoted(result: Result<bool, PlatformError>) -> (r: PipelineStep)
    ensures
        r@ == after_demote(verdict_of(result)),
{
    match result {
        Err(e) => PipelineStep::Unscope { error: e },
        Ok(_) => PipelineStep::Flush,
    }
}

/// The daemon's resolver files were removed, or could not all be. What was
/// demoted is restored even if there were none.
pub fn files_removed(result: Result<usize, String>) -> (r: RevertStep)
    ensures
        r@ == match result {
            Err(e) => RevertModel::Failed(
                ErrorModel::CommandFailed("failed to remove resolver files: "@ + e@),
            ),
            Ok(removed) => RevertModel::Restore {
                step: DemoteModel::LoadSnapshot(LoadSnapshotModel::Revert),
                removed,
            },
        },
        r@ == after_removal(
            match result {
                Ok(removed) => Ok(removed),
                Err(e) => Err(e@),
            },
        ),
{
    match result {
        Err(e) => RevertStep::Failed(
            PlatformError::CommandFailed(concat2("failed to remove resolver files: ", e.as_str())),
        ),
        Ok(removed) => RevertStep::Restore { step: restore(), removed },
    }
}

/// The default resolver is restored, or could not be. The cache is flushed if
/// anything changed.
pub fn restored(removed: usize, result: Result<bool, PlatformError>) -> (r: RevertStep)
    ensures
        r@ == match verdict_of(result) {
            Err(e) => RevertModel::Failed(e),
            Ok(changed) => RevertModel::Reverted { removed, flush: removed > 0 || changed },
        },
        r@ == after_restore(removed, verdict_of(result)),
{
    match result {
        Err(e) => RevertStep::Failed(e),
        Ok(changed) => RevertStep::Reverted { removed, flush: removed > 0 || changed },
    }
}

/// The resolution of `host` to these addresses, each once and in order. None
/// is a failure. Which resolver answered is not known.
pub fn resolved(host: &str, addresses: Vec<String>) -> (r: Result<ResolutionInfo, PlatformError>)
    ensures
        match r {
            Ok(info) => {
                &&& addresses@.len() > 0
                &&& strictly_ordered(info@.addresses)
                &&& forall|x: Text|
                    info@.addresses.contains(x) <==> texts(addresses@).contains(x)
                &&& info@.via_interface is None
                &&& info@.via_dns is None
            },
            Err(e) => addresses@.len() == 0 && e@ == ErrorModel::ParseError(
                "no addresses resolved for "@ + host@,
            ),
        },
{
    if addresses.len() == 0 {
        return Err(PlatformError::ParseError(concat2("no addresses resolved for ", host)));
    }
    Ok(
        ResolutionInfo {
            addresses: ordered_set(addresses),
            via_interface: None,
            via_dns: None,
        },
    )
}

/// An apply succeeds only with both its halves; when the second fails, the
/// first is taken back before the error is reported.
pub proof fn law_half_an_apply_is_taken_back(e: ErrorModel)
    ensures
        after_demote(Err(e)) == (PipelineModel::Unscope { error: e }),
        forall|fallback: Option<Seq<Text>>, corp: Seq<Text>|
            (#[trigger] after_scope(fallback, corp, Err(e))) == PipelineModel::Failed(e),
{
}

/// An apply routes the domains to all of the VPN's servers, under
/// `/etc/resolver`, and then demotes the default resolver to the fallback, if
/// there is one. Only then, and only if both went well, is the cache flushed.
/// Without servers it is refused.
pub proof fn law_an_apply_scopes_and_then_demotes(info: InfoModel, domains: Seq<Text>, done: bool)
    ensures
        info.dns.len() == 0 ==> pipeline_begin(info, domains) is Failed,
        info.dns.len() > 0 ==> (pipeline_begin(info, domains) matches PipelineModel::Scope {
            step,
            fallback,
            corp,
        } && {
            &&& step == scope_begin("/etc/resolver"@, info.dns, domains)
            &&& corp == info.dns
            &&& info.demote is Some && (info.demote->0).len() > 0 ==> fallback == info.demote
                && after_scope(fallback, corp, Ok(())) == (PipelineModel::Demote {
                step: demote_begin(info.demote->0, info.dns),
            })
            &&& info.demote is None || (info.demote->0).len() == 0 ==> after_scope(
                fallback,
                corp,
                Ok(()),
            ) == PipelineModel::Flush
        }),
        after_demote(Ok(done)) == PipelineModel::Flush,
{
}

/// A revert restores the default resolver whether files were removed or not,
/// and flushes the cache if either changed anything; a failure of either is
/// reported.
pub proof fn law_a_revert_removes_and_restores(
    removed: usize,
    changed: bool,
    e: Text,
    error: ErrorModel,
)
    ensures
        after_removal(Ok(removed)) == (RevertModel::Restore {
            step: DemoteModel::LoadSnapshot(LoadSnapshotModel::Revert),
            removed,
        }),
        after_removal(Err(e)) is Failed,
        after_restore(removed, Err(error)) == RevertModel::Failed(error),
        after_restore(removed, Ok(changed)) == (RevertModel::Reverted {
            removed,
            flush: changed || removed >= 1,
        }),
{
}

} // verus!
