//! Demoting a default resolver that a VPN has taken over.
//!
//! While a VPN is up, the primary network service's resolvers are replaced by
//! a fallback, so that names outside the VPN's domains are not resolved
//! through it. What stood there before is kept on disk until it is put back,
//! so that even an unclean exit can be undone. Each function here takes the
//! outcome of one effect and says which comes next.

use vstd::prelude::*;
use vstd::string::*;
use crate::detector::macos::parser::{
    array_field, parse_array_field, parse_scalar_field, scalar_field,
};
use crate::lists::{law_same_set_is_an_equivalence, same_members, same_set};
use crate::exec::outcome_of;
use crate::platform::{ErrorModel, PlatformError};
use crate::text::{
    concat2, concat3, contains, copy_texts, has_part, is_white, join, joined,
    law_a_text_without_blanks_is_a_word, law_blanks_part_words, law_lines_end_at_line_feeds,
    lines, lines_of, opt_text, strs, texts, trim, trimmed, words_of, Text,
};

verus! {

/// Where the snapshot is kept.
pub const SNAPSHOT_PATH: &'static str = "/var/run/splitway/dns-demote.snapshot";

/// What a service's resolvers were before they were replaced.
#[derive(Debug, PartialEq, Eq)]
pub struct DemoteSnapshot {
    /// The service's key in the dynamic store.
    pub service_dns_key: String,
    /// The interface it was bound to, if known.
    pub interface_name: Option<String>,
    /// Its resolvers before; there may have been none.
    pub prior_servers: Vec<String>,
    /// The fallback last installed in their place. Tells the daemon's own
    /// fallback from a resolver the network handed out later.
    pub installed_fallback: Vec<String>,
}

/// A service's DNS entry as it is now.
#[derive(Debug, PartialEq, Eq)]
pub struct ServiceDnsState {
    pub interface_name: Option<String>,
    pub servers: Vec<String>,
}

/// A demote under way on the service of this key.
#[derive(Debug, PartialEq, Eq)]
pub struct DemoteJob {
    pub key: String,
    pub fallback: Vec<String>,
    pub corp_dns: Vec<String>,
}

/// A write of a service's resolvers; none removes them.
#[derive(Debug, PartialEq, Eq)]
pub struct DnsWrite {
    pub key: String,
    pub servers: Vec<String>,
    pub interface_name: Option<String>,
}

/// What a restore is part of.
#[derive(Debug, PartialEq, Eq)]
pub enum RestoreFor {
    /// A demote of another service.
    Demote(DemoteJob),
    Revert,
}

/// What the snapshot is loaded for.
#[derive(Debug, PartialEq, Eq)]
pub enum LoadSnapshotFor {
    First(DemoteJob),
    Install(DemoteJob),
    Record(DemoteJob),
    Revert,
}

/// What a service's entry is read for.
#[derive(Debug, PartialEq, Eq)]
pub enum ReadFor {
    Capture(DemoteJob),
    Refresh { job: DemoteJob, existing: DemoteSnapshot },
}

/// What a write is for.
#[derive(Debug, PartialEq, Eq)]
pub enum WriteFor {
    Restore(RestoreFor),
    Install(DemoteJob),
}

/// What the snapshot is saved for.
#[derive(Debug, PartialEq, Eq)]
pub enum SaveFor {
    Install(DemoteJob),
    Record,
}

/// What a demote or a restore does next.
#[allow(inconsistent_fields)]
#[derive(Debug, PartialEq, Eq)]
pub enum DemoteStep {
    /// Read the primary service's id: [`primary_read`].
    ReadPrimary { fallback: Vec<String>, corp_dns: Vec<String> },
    /// Load the snapshot: [`snapshot_loaded`].
    LoadSnapshot(LoadSnapshotFor),
    /// Read the service's entry: [`service_read`].
    ReadService { key: String, then: ReadFor },
    /// Say whether the snapshot's key exists: [`key_checked`].
    CheckKey { snapshot: DemoteSnapshot, then: RestoreFor },
    /// Write the service's resolvers: [`dns_written`].
    Write { write: DnsWrite, then: WriteFor },
    /// Remove the snapshot: [`snapshot_cleared`].
    ClearSnapshot(RestoreFor),
    /// Save the snapshot: [`snapshot_saved`].
    SaveSnapshot { snapshot: DemoteSnapshot, then: SaveFor },
    /// Done: `true` if something was demoted, or restored.
    Finished(Result<bool, PlatformError>),
}

/// The value of a [`DemoteSnapshot`].
pub struct SnapshotModel {
    pub key: Text,
    pub interface: Option<Text>,
    pub prior: Seq<Text>,
    pub installed: Seq<Text>,
}

/// The value of a [`ServiceDnsState`].
pub struct LiveModel {
    pub interface: Option<Text>,
    pub servers: Seq<Text>,
}

/// The value of a [`DemoteJob`].
pub struct JobModel {
    pub key: Text,
    pub fallback: Seq<Text>,
    pub corp: Seq<Text>,
}

/// The value of a [`DnsWrite`].
pub struct WriteModel {
    pub key: Text,
    pub servers: Seq<Text>,
    pub interface: Option<Text>,
}

/// The value of a [`RestoreFor`].
pub enum RestoreModel {
    Demote(JobModel),
    Revert,
}

/// The value of a [`LoadSnapshotFor`].
pub enum LoadSnapshotModel {
    First(JobModel),
    Install(JobModel),
    Record(JobModel),
    Revert,
}

/// The value of a [`ReadFor`].
pub enum ReadModel {
    Capture(JobModel),
    Refresh { job: JobModel, existing: SnapshotModel },
}

/// The value of a [`WriteFor`].
pub enum WriteForModel {
    Restore(RestoreModel),
    Install(JobModel),
}

/// The value of a [`SaveFor`].
pub enum SaveModel {
    Install(JobModel),
    Record,
}

/// The value of a [`DemoteStep`].
#[allow(inconsistent_fields)]
pub enum DemoteModel {
    ReadPrimary { fallback: Seq<Text>, corp: Seq<Text> },
    LoadSnapshot(LoadSnapshotModel),
    ReadService { key: Text, then: ReadModel },
    CheckKey { snapshot: SnapshotModel, then: RestoreModel },
    Write { write: WriteModel, then: WriteForModel },
    ClearSnapshot(RestoreModel),
    SaveSnapshot { snapshot: SnapshotModel, then: SaveModel },
    Finished(Result<bool, ErrorModel>),
}

impl View for DemoteSnapshot {
    type V = SnapshotModel;

    open spec fn view(&self) -> SnapshotModel {
        SnapshotModel {
            key: self.service_dns_key@,
            interface: opt_text(self.interface_name),
            prior: texts(self.prior_servers@),
            installed: texts(self.installed_fallback@),
        }
    }
}

impl View for ServiceDnsState {
    type V = LiveModel;

    open spec fn view(&self) -> LiveModel {
        LiveModel { interface: opt_text(self.interface_name), servers: texts(self.servers@) }
    }
}

impl View for DemoteJob {
    type V = JobModel;

    open spec fn view(&self) -> JobModel {
        JobModel {
            key: self.key@,
            fallback: texts(self.fallback@),
            corp: texts(self.corp_dns@),
        }
    }
}

impl View for DnsWrite {
    type V = WriteModel;

    open spec fn view(&self) -> WriteModel {
        WriteModel {
            key: self.key@,
            servers: texts(self.servers@),
            interface: opt_text(self.interface_name),
        }
    }
}

impl View for RestoreFor {
    type V = RestoreModel;

    open spec fn view(&self) -> RestoreModel {
        match self {
            RestoreFor::Demote(job) => RestoreModel::Demote(job@),
            RestoreFor::Revert => RestoreModel::Revert,
        }
    }
}

impl View for LoadSnapshotFor {
    type V = LoadSnapshotModel;

    open spec fn view(&self) -> LoadSnapshotModel {
        match self {
            LoadSnapshotFor::First(job) => LoadSnapshotModel::First(job@),
            LoadSnapshotFor::Install(job) => LoadSnapshotModel::Install(job@),
            LoadSnapshotFor::Record(job) => LoadSnapshotModel::Record(job@),
            LoadSnapshotFor::Revert => LoadSnapshotModel::Revert,
        }
    }
}

impl View for ReadFor {
    type V = ReadModel;

    open spec fn view(&self) -> ReadModel {
        match self {
            ReadFor::Capture(job) => ReadModel::Capture(job@),
            ReadFor::Refresh { job, existing } => ReadModel::Refresh {
                job: job@,
                existing: existing@,
            },
        }
    }
}

impl View for WriteFor {
    type V = WriteForModel;

    open spec fn view(&self) -> WriteForModel {
        match self {
            WriteFor::Restore(then) => WriteForModel::Restore(then@),
            WriteFor::Install(job) => WriteForModel::Install(job@),
        }
    }
}

impl View for SaveFor {
    type V = SaveModel;

    open spec fn view(&self) -> SaveModel {
        match self {
            SaveFor::Install(job) => SaveModel::Install(job@),
            SaveFor::Record => SaveModel::Record,
        }
    }
}

/// The value of a result.
pub open spec fn verdict_of(r: Result<bool, PlatformError>) -> Result<bool, ErrorModel> {
    match r {
        Ok(b) => Ok(b),
        Err(e) => Err(e@),
    }
}

impl View for DemoteStep {
    type V = DemoteModel;

    open spec fn view(&self) -> DemoteModel {
        match self {
            DemoteStep::ReadPrimary { fallback, corp_dns } => DemoteModel::ReadPrimary {
                fallback: texts(fallback@),
                corp: texts(corp_dns@),
            },
            DemoteStep::LoadSnapshot(then) => DemoteModel::LoadSnapshot(then@),
            DemoteStep::ReadService { key, then } => DemoteModel::ReadService {
                key: key@,
                then: then@,
            },
            DemoteStep::CheckKey { snapshot, then } => DemoteModel::CheckKey {
                snapshot: snapshot@,
                then: then@,
            },
            DemoteStep::Write { write, then } => DemoteModel::Write { write: write@, then: then@ },
            DemoteStep::ClearSnapshot(then) => DemoteModel::ClearSnapshot(then@),
            DemoteStep::SaveSnapshot { snapshot, then } => DemoteModel::SaveSnapshot {
                snapshot: snapshot@,
                then: then@,
            },
            DemoteStep::Finished(r) => DemoteModel::Finished(verdict_of(*r)),
        }
    }
}

// ---------------------------------------------------------------------------
// Scripts and dumps
// ---------------------------------------------------------------------------

/// The key of a service's DNS entry.
pub open spec fn service_key(id: Text) -> Text {
    "State:/Network/Service/"@ + id + "/DNS"@
}

/// The first `n` of the servers, each after a space.
pub open spec fn spaced(servers: Seq<Text>, n: int) -> Text
    decreases n,
{
    if n <= 0 {
        Seq::empty()
    } else {
        spaced(servers, n - 1) + " "@ + servers[n - 1]
    }
}

/// The script that carries out a write. It loads the entry first, so that the
/// fields the daemon does not manage ride along unchanged.
pub open spec fn set_script(key: Text, servers: Seq<Text>, interface: Option<Text>) -> Text {
    "open\nd.init\n"@ + "get "@ + key + "\n"@ + (if servers.len() > 0 {
        "d.add ServerAddresses *"@ + spaced(servers, servers.len() as int) + "\n"@
    } else {
        "d.remove ServerAddresses\n"@
    }) + (match interface {
        Some(name) => "d.add InterfaceName "@ + name + "\n"@,
        None => Seq::empty(),
    }) + "set "@ + key + "\nquit\n"@
}

/// The lines, trimmed, among the first `n` that report a failure.
pub open spec fn complaints(lines: Seq<Text>, n: int) -> Seq<Text>
    decreases n,
{
    if n <= 0 {
        Seq::empty()
    } else {
        let line = trimmed(lines[n - 1]);
        if line.len() > 0 && !has_part(line, "No such key"@) {
            complaints(lines, n - 1).push(line)
        } else {
            complaints(lines, n - 1)
        }
    }
}

/// What the output of a writing script complains of, if anything.
pub open spec fn script_complaint(stdout: Text) -> Option<Text> {
    let all = lines_of(stdout);
    let found = complaints(all, all.len() as int);
    if found.len() == 0 {
        None
    } else {
        Some(joined(found, "; "@))
    }
}

/// The key of a service's DNS entry.
pub fn service_dns_key(service_id: &str) -> (r: String)
    ensures
        r@ == service_key(service_id@),
{
    concat3("State:/Network/Service/", service_id, "/DNS")
}

/// The `scutil` script that replaces a service's resolvers, or removes them
/// where there are none to put in their place, and leaves the rest of its
/// entry alone.
pub fn build_set_dns_script(
    key: &str,
    servers: &Vec<String>,
    interface_name: &Option<String>,
) -> (r: String)
    ensures
        r@ == set_script(key@, texts(servers@), opt_text(*interface_name)),
{
    let mut script = "open\nd.init\n".to_owned();
    script.append("get ");
    script.append(key);
    script.append("\n");
    let ghost head = script@;
    let ghost all = texts(servers@);
    if servers.len() > 0 {
        script.append("d.add ServerAddresses *");
        let ghost start = script@;
        let mut i: usize = 0;
        proof {
            assert(start + spaced(all, 0) =~= start);
        }
        while i < servers.len()
            invariant
                i <= servers.len(),
                all == texts(servers@),
                script@ == start + spaced(all, i as int),
            decreases servers.len() - i,
        {
            script.append(" ");
            script.append(servers[i].as_str());
            proof {
                assert(script@ =~= start + (spaced(all, i as int) + " "@ + all[i as int]));
            }
            i += 1;
        }
        script.append("\n");
        proof {
            assert(script@ =~= head + ("d.add ServerAddresses *"@ + spaced(all, all.len() as int)
                + "\n"@));
        }
    } else {
        script.append("d.remove ServerAddresses\n");
    }
    let ghost middle = script@;
    match interface_name {
        Some(name) => {
            script.append("d.add InterfaceName ");
            script.append(name.as_str());
            script.append("\n");
            proof {
                assert(script@ =~= middle + ("d.add InterfaceName "@ + name@ + "\n"@));
            }
        },
        None => {
            proof {
                assert(script@ =~= middle + Seq::<char>::empty());
            }
        },
    }
    script.append("set ");
    script.append(key);
    script.append("\nquit\n");
    script
}

/// What the output of a writing script complains of. Success is silent but
/// for the notice of a key that does not exist yet.
pub fn scutil_set_error(stdout: &str) -> (r: Option<String>)
    ensures
        opt_text(r) == script_complaint(stdout@),
{
    let all = lines(stdout);
    let ghost all_lines = strs(all@);
    let mut found: Vec<String> = Vec::new();
    let mut i: usize = 0;
    proof {
        assert(texts(found@) =~= Seq::<Text>::empty());
    }
    while i < all.len()
        invariant
            i <= all.len(),
            all_lines == strs(all@),
            texts(found@) == complaints(all_lines, i as int),
        decreases all.len() - i,
    {
        let line = trim(all[i]);
        if !line.is_empty() && !contains(line, "No such key") {
            let ghost before = found@;
            found.push(line.to_owned());
            assert(texts(found@) =~= texts(before).push(line@));
        }
        i += 1;
    }
    if found.len() == 0 {
        None
    } else {
        Some(join(&found, "; "))
    }
}

/// The result of a writing script that ran: a failure is reported in its
/// output even where it exits with success.
pub fn script_result(stdout: &str) -> (r: Result<(), PlatformError>)
    ensures
        match script_complaint(stdout@) {
            None => r is Ok,
            Some(e) => r is Err && r->Err_0@ == ErrorModel::CommandFailed(
                "scutil reported an error running a set script (stdout, exit 0): "@ + e,
            ),
        },
{
    match scutil_set_error(stdout) {
        None => Ok(()),
        Some(e) => Err(
            PlatformError::CommandFailed(
                concat2(
                    "scutil reported an error running a set script (stdout, exit 0): ",
                    e.as_str(),
                ),
            ),
        ),
    }
}

/// The id of the primary service, from the dump of the primary network.
pub fn primary_service(dump: &str) -> (r: Option<String>)
    ensures
        opt_text(r) == scalar_field(dump@, "PrimaryService"@),
{
    parse_scalar_field(dump, "PrimaryService")
}

/// A service's DNS entry, from the dump of its key.
pub fn service_dns_state(dump: &str) -> (r: ServiceDnsState)
    ensures
        r@ == (LiveModel {
            interface: scalar_field(dump@, "InterfaceName"@),
            servers: array_field(dump@, "ServerAddresses"@),
        }),
{
    ServiceDnsState {
        interface_name: parse_scalar_field(dump, "InterfaceName"),
        servers: parse_array_field(dump, "ServerAddresses"),
    }
}

/// Whether a key exists, from the output of showing it.
pub fn key_exists(output: &str) -> (r: bool)
    ensures
        r == !has_part(output@, "No such key"@),
{
    !contains(output, "No such key")
}

/// The file the snapshot is kept in.
#[derive(Debug, PartialEq, Eq)]
pub struct FileSnapshotStore {
    pub path: String,
}

impl FileSnapshotStore {
    /// The store at its fixed place.
    pub fn new() -> (r: FileSnapshotStore)
        ensures
            r.path@ == SNAPSHOT_PATH@,
    {
        FileSnapshotStore { path: SNAPSHOT_PATH.to_owned() }
    }
}

// ---------------------------------------------------------------------------
// Deciding
// ---------------------------------------------------------------------------

/// Is what the service shows now the daemon's own fallback? Told by the record
/// of what was installed; where there is none, by what is about to be.
pub open spec fn is_own_fallback(
    existing: SnapshotModel,
    current: LiveModel,
    fallback: Seq<Text>,
) -> bool {
    ||| same_members(current.servers, existing.installed)
    ||| existing.installed.len() == 0 && same_members(current.servers, fallback)
}

/// Has the network handed the service a new resolver since the snapshot? The
/// daemon's own fallback is not one, and neither is the VPN's resolver.
pub open spec fn is_renewed(
    existing: SnapshotModel,
    current: LiveModel,
    fallback: Seq<Text>,
    corp: Seq<Text>,
) -> bool {
    &&& current.servers.len() > 0
    &&& !is_own_fallback(existing, current, fallback)
    &&& !same_members(current.servers, corp)
}

/// The snapshot of a service as it is now.
pub open spec fn captured(key: Text, current: LiveModel, installed: Seq<Text>) -> SnapshotModel {
    SnapshotModel { key, interface: current.interface, prior: current.servers, installed }
}

/// Begin a demote.
pub open spec fn demote_begin(fallback: Seq<Text>, corp: Seq<Text>) -> DemoteModel {
    if fallback.len() == 0 {
        DemoteModel::Finished(
            Err(
                ErrorModel::CommandFailed(
                    "refusing to demote the system default to an empty resolver set"@,
                ),
            ),
        )
    } else {
        DemoteModel::ReadPrimary { fallback, corp }
    }
}

/// The primary service is known.
pub open spec fn on_primary(
    fallback: Seq<Text>,
    corp: Seq<Text>,
    result: Result<Option<Text>, ErrorModel>,
) -> DemoteModel {
    match result {
        Err(e) => DemoteModel::Finished(Err(e)),
        Ok(None) => DemoteModel::Finished(Ok(false)),
        Ok(Some(id)) => DemoteModel::LoadSnapshot(
            LoadSnapshotModel::First(JobModel { key: service_key(id), fallback, corp }),
        ),
    }
}

/// The snapshot is loaded; `None` stands for none, or none that can be read.
pub open spec fn on_snapshot(
    then: LoadSnapshotModel,
    snapshot: Option<SnapshotModel>,
) -> DemoteModel {
    match then {
        LoadSnapshotModel::First(job) => match snapshot {
            None => DemoteModel::ReadService { key: job.key, then: ReadModel::Capture(job) },
            Some(existing) => if existing.key == job.key {
                DemoteModel::ReadService {
                    key: job.key,
                    then: ReadModel::Refresh { job, existing },
                }
            } else {
                DemoteModel::CheckKey { snapshot: existing, then: RestoreModel::Demote(job) }
            },
        },
        LoadSnapshotModel::Install(job) => DemoteModel::Write {
            write: WriteModel {
                key: job.key,
                servers: job.fallback,
                interface: match snapshot {
                    Some(s) => s.interface,
                    None => None,
                },
            },
            then: WriteForModel::Install(job),
        },
        LoadSnapshotModel::Record(job) => match snapshot {
            Some(s) => if same_members(s.installed, job.fallback) {
                DemoteModel::Finished(Ok(true))
            } else {
                DemoteModel::SaveSnapshot {
                    snapshot: SnapshotModel { installed: job.fallback, ..s },
                    then: SaveModel::Record,
                }
            },
            None => DemoteModel::Finished(Ok(true)),
        },
        LoadSnapshotModel::Revert => match snapshot {
            None => DemoteModel::Finished(Ok(false)),
            Some(s) => DemoteModel::CheckKey { snapshot: s, then: RestoreModel::Revert },
        },
    }
}

/// A service's entry was read.
pub open spec fn on_service(then: ReadModel, result: Result<LiveModel, ErrorModel>) -> DemoteModel {
    match result {
        Err(e) => DemoteModel::Finished(Err(e)),
        Ok(current) => match then {
            ReadModel::Capture(job) => DemoteModel::SaveSnapshot {
                snapshot: captured(job.key, current, Seq::empty()),
                then: SaveModel::Install(job),
            },
            ReadModel::Refresh { job, existing } => if is_renewed(
                existing,
                current,
                job.fallback,
                job.corp,
            ) {
                DemoteModel::SaveSnapshot {
                    snapshot: captured(job.key, current, existing.installed),
                    then: SaveModel::Install(job),
                }
            } else {
                DemoteModel::LoadSnapshot(LoadSnapshotModel::Install(job))
            },
        },
    }
}

/// Whether the snapshot's key exists is known. A service that is gone needs
/// no restore, and writing to it would bring back a phantom.
pub open spec fn on_key(
    snapshot: SnapshotModel,
    then: RestoreModel,
    result: Result<bool, ErrorModel>,
) -> DemoteModel {
    match result {
        Err(e) => DemoteModel::Finished(Err(e)),
        Ok(present) => if present {
            DemoteModel::Write {
                write: WriteModel {
                    key: snapshot.key,
                    servers: snapshot.prior,
                    interface: snapshot.interface,
                },
                then: WriteForModel::Restore(then),
            }
        } else {
            DemoteModel::ClearSnapshot(then)
        },
    }
}

/// A service's resolvers were written, or could not be.
pub open spec fn on_written(then: WriteForModel, result: Result<(), ErrorModel>) -> DemoteModel {
    match result {
        Err(e) => DemoteModel::Finished(Err(e)),
        Ok(_) => match then {
            WriteForModel::Restore(purpose) => DemoteModel::ClearSnapshot(purpose),
            WriteForModel::Install(job) => DemoteModel::LoadSnapshot(
                LoadSnapshotModel::Record(job),
            ),
        },
    }
}

/// The snapshot was removed.
pub open spec fn on_cleared(then: RestoreModel) -> DemoteModel {
    match then {
        RestoreModel::Demote(job) => DemoteModel::ReadService {
            key: job.key,
            then: ReadModel::Capture(job),
        },
        RestoreModel::Revert => DemoteModel::Finished(Ok(true)),
    }
}

/// The snapshot was saved, or could not be. Failing to record what was
/// installed does not fail the demote: it has taken effect.
pub open spec fn on_saved(then: SaveModel, result: Result<(), ErrorModel>) -> DemoteModel {
    match then {
        SaveModel::Install(job) => match result {
            Err(e) => DemoteModel::Finished(Err(e)),
            Ok(_) => DemoteModel::LoadSnapshot(LoadSnapshotModel::Install(job)),
        },
        SaveModel::Record => DemoteModel::Finished(Ok(true)),
    }
}

/// Begin to replace the default resolver by `fallback`. `corp_dns` is the
/// VPN's own resolver, which is never to be taken for what stood before.
pub fn demote(fallback: &Vec<String>, corp_dns: &Vec<String>) -> (r: DemoteStep)
    ensures
        r@ == demote_begin(texts(fallback@), texts(corp_dns@)),
{
    if fallback.len() == 0 {
        return DemoteStep::Finished(
            Err(
                PlatformError::CommandFailed(
                    "refusing to demote the system default to an empty resolver set".to_owned(),
                ),
            ),
        );
    }
    DemoteStep::ReadPrimary { fallback: copy_texts(fallback), corp_dns: copy_texts(corp_dns) }
}

/// Begin to put back what stood before, if anything was replaced.
pub fn restore() -> (r: DemoteStep)
    ensures
        r@ == DemoteModel::LoadSnapshot(LoadSnapshotModel::Revert),
{
    DemoteStep::LoadSnapshot(LoadSnapshotFor::Revert)
}

/// The primary service is known. Without one there is nothing to demote.
pub fn primary_read(
    fallback: Vec<String>,
    corp_dns: Vec<String>,
    result: Result<Option<String>, PlatformError>,
) -> (r: DemoteStep)
    ensures
        r@ == on_primary(
            texts(fallback@),
            texts(corp_dns@),
            match result {
                Ok(id) => Ok(opt_text(id)),
                Err(e) => Err(e@),
            },
        ),
{
    match result {
        Err(e) => DemoteStep::Finished(Err(e)),
        Ok(None) => DemoteStep::Finished(Ok(false)),
        Ok(Some(id)) => DemoteStep::LoadSnapshot(
            LoadSnapshotFor::First(
                DemoteJob { key: service_dns_key(id.as_str()), fallback, corp_dns },
            ),
        ),
    }
}

/// The snapshot is loaded.
pub fn snapshot_loaded(
    then: LoadSnapshotFor,
    snapshot: Option<DemoteSnapshot>,
) -> (r: DemoteStep)
    ensures
        r@ == on_snapshot(
            then@,
            match snapshot {
                Some(s) => Some(s@),
                None => None,
            },
        ),
{
    match then {
        LoadSnapshotFor::First(job) => match snapshot {
            None => DemoteStep::ReadService { key: job.key.clone(), then: ReadFor::Capture(job) },
            Some(existing) => if existing.service_dns_key == job.key {
                DemoteStep::ReadService {
                    key: job.key.clone(),
                    then: ReadFor::Refresh { job, existing },
                }
            } else {
                DemoteStep::CheckKey { snapshot: existing, then: RestoreFor::Demote(job) }
            },
        },
        LoadSnapshotFor::Install(job) => DemoteStep::Write {
            write: DnsWrite {
                key: job.key.clone(),
                servers: copy_texts(&job.fallback),
                interface_name: match snapshot {
                    Some(s) => s.interface_name,
                    None => None,
                },
            },
            then: WriteFor::Install(job),
        },
        LoadSnapshotFor::Record(job) => match snapshot {
            Some(s) => if same_set(&s.installed_fallback, &job.fallback) {
                DemoteStep::Finished(Ok(true))
            } else {
                let mut s = s;
                s.installed_fallback = job.fallback;
                DemoteStep::SaveSnapshot { snapshot: s, then: SaveFor::Record }
            },
            None => DemoteStep::Finished(Ok(true)),
        },
        LoadSnapshotFor::Revert => match snapshot {
            None => DemoteStep::Finished(Ok(false)),
            Some(s) => DemoteStep::CheckKey { snapshot: s, then: RestoreFor::Revert },
        },
    }
}

/// Has the network handed the service a new resolver since the snapshot?
fn renewed(existing: &DemoteSnapshot, current: &ServiceDnsState, job: &DemoteJob) -> (r: bool)
    ensures
        r == is_renewed(existing@, current@, job@.fallback, job@.corp),
{
    let own = same_set(&current.servers, &existing.installed_fallback) || (
    existing.installed_fallback.len() == 0 && same_set(&current.servers, &job.fallback));
    current.servers.len() > 0 && !own && !same_set(&current.servers, &job.corp_dns)
}

/// A service's entry was read, or could not be.
pub fn service_read(
    then: ReadFor,
    result: Result<ServiceDnsState, PlatformError>,
) -> (r: DemoteStep)
    ensures
        r@ == on_service(
            then@,
            match result {
                Ok(state) => Ok(state@),
                Err(e) => Err(e@),
            },
        ),
{
    match result {
        Err(e) => DemoteStep::Finished(Err(e)),
        Ok(current) => match then {
            ReadFor::Capture(job) => {
                let none: Vec<String> = Vec::new();
                assert(texts(none@) =~= Seq::<Text>::empty());
                DemoteStep::SaveSnapshot {
                    snapshot: DemoteSnapshot {
                        service_dns_key: job.key.clone(),
                        interface_name: current.interface_name,
                        prior_servers: current.servers,
                        installed_fallback: none,
                    },
                    then: SaveFor::Install(job),
                }
            },
            ReadFor::Refresh { job, existing } => if renewed(&existing, &current, &job) {
                DemoteStep::SaveSnapshot {
                    snapshot: DemoteSnapshot {
                        service_dns_key: job.key.clone(),
                        interface_name: current.interface_name,
                        prior_servers: current.servers,
                        installed_fallback: existing.installed_fallback,
                    },
                    then: SaveFor::Install(job),
                }
            } else {
                DemoteStep::LoadSnapshot(LoadSnapshotFor::Install(job))
            },
        },
    }
}

/// Whether the snapshot's key exists is known, or could not be told.
pub fn key_checked(
    snapshot: DemoteSnapshot,
    then: RestoreFor,
    result: Result<bool, PlatformError>,
) -> (r: DemoteStep)
    ensures
        r@ == on_key(snapshot@, then@, verdict_of(result)),
{
    match result {
        Err(e) => DemoteStep::Finished(Err(e)),
        Ok(present) => if present {
            DemoteStep::Write {
                write: DnsWrite {
                    key: snapshot.service_dns_key,
                    servers: snapshot.prior_servers,
                    interface_name: snapshot.interface_name,
                },
                then: WriteFor::Restore(then),
            }
        } else {
            DemoteStep::ClearSnapshot(then)
        },
    }
}

/// A service's resolvers were written, or could not be.
pub fn dns_written(then: WriteFor, result: Result<(), PlatformError>) -> (r: DemoteStep)
    ensures
        r@ == on_written(then@, outcome_of(result)),
{
    match result {
        Err(e) => DemoteStep::Finished(Err(e)),
        Ok(_) => match then {
            WriteFor::Restore(purpose) => DemoteStep::ClearSnapshot(purpose),
            WriteFor::Install(job) => DemoteStep::LoadSnapshot(LoadSnapshotFor::Record(job)),
        },
    }
}

/// The snapshot was removed.
pub fn snapshot_cleared(then: RestoreFor) -> (r: DemoteStep)
    ensures
        r@ == on_cleared(then@),
{
    match then {
        RestoreFor::Demote(job) => DemoteStep::ReadService {
            key: job.key.clone(),
            then: ReadFor::Capture(job),
        },
        RestoreFor::Revert => DemoteStep::Finished(Ok(true)),
    }
}

/// The snapshot was saved, or could not be.
pub fn snapshot_saved(then: SaveFor, result: Result<(), PlatformError>) -> (r: DemoteStep)
    ensures
        r@ == on_saved(then@, outcome_of(result)),
{
    match then {
        SaveFor::Install(job) => match result {
            Err(e) => DemoteStep::Finished(Err(e)),
            Ok(_) => DemoteStep::LoadSnapshot(LoadSnapshotFor::Install(job)),
        },
        SaveFor::Record => DemoteStep::Finished(Ok(true)),
    }
}

impl DnsWrite {
    /// The script that carries this write out.
    pub fn script(&self) -> (r: String)
        ensures
            r@ == set_script(self@.key, self@.servers, self@.interface),
    {
        build_set_dns_script(self.key.as_str(), &self.servers, &self.interface_name)
    }
}

// ---------------------------------------------------------------------------
// Laws
// ---------------------------------------------------------------------------

/// A system a demote acts on.
pub struct WorldModel {
    pub primary: Option<Text>,
    pub services: Map<Text, LiveModel>,
    pub snapshot: Option<SnapshotModel>,
}

/// A service's entry; one that does not exist reads as empty.
pub open spec fn live(w: WorldModel, key: Text) -> LiveModel {
    if w.services.dom().contains(key) {
        w.services[key]
    } else {
        LiveModel { interface: None, servers: Seq::empty() }
    }
}

/// The system after a write. The interface rides along unless one is given.
pub open spec fn write_dns(w: WorldModel, write: WriteModel) -> WorldModel {
    WorldModel {
        services: w.services.insert(
            write.key,
            LiveModel {
                servers: write.servers,
                interface: match write.interface {
                    Some(i) => Some(i),
                    None => live(w, write.key).interface,
                },
            },
        ),
        ..w
    }
}

/// Perform the step's effect, or let it fail, and go on to the next step.
/// Loading and removing the snapshot do not fail.
pub open spec fn perform(w: WorldModel, step: DemoteModel, ok: bool) -> (WorldModel, DemoteModel) {
    let e = ErrorModel::CommandFailed("scutil failed"@);
    match step {
        DemoteModel::ReadPrimary { fallback, corp } => (
            w,
            on_primary(
                fallback,
                corp,
                if ok {
                    Ok(w.primary)
                } else {
                    Err(e)
                },
            ),
        ),
        DemoteModel::LoadSnapshot(then) => (w, on_snapshot(then, w.snapshot)),
        DemoteModel::ReadService { key, then } => (
            w,
            on_service(
                then,
                if ok {
                    Ok(live(w, key))
                } else {
                    Err(e)
                },
            ),
        ),
        DemoteModel::CheckKey { snapshot, then } => (
            w,
            on_key(
                snapshot,
                then,
                if ok {
                    Ok(w.services.dom().contains(snapshot.key))
                } else {
                    Err(e)
                },
            ),
        ),
        DemoteModel::Write { write, then } => if ok {
            (write_dns(w, write), on_written(then, Ok(())))
        } else {
            (w, on_written(then, Err(e)))
        },
        DemoteModel::ClearSnapshot(then) => (
            WorldModel { snapshot: None, ..w },
            on_cleared(then),
        ),
        DemoteModel::SaveSnapshot { snapshot, then } => if ok {
            (WorldModel { snapshot: Some(snapshot), ..w }, on_saved(then, Ok(())))
        } else {
            (w, on_saved(then, Err(e)))
        },
        DemoteModel::Finished(r) => (w, step),
    }
}

/// Perform step after step, each succeeding or not as `oks` says.
pub open spec fn demote_run(
    w: WorldModel,
    step: DemoteModel,
    oks: Seq<bool>,
) -> (WorldModel, DemoteModel)
    decreases oks.len(),
{
    if oks.len() == 0 {
        (w, step)
    } else {
        let (w1, next) = perform(w, step, oks[0]);
        demote_run(w1, next, oks.drop_first())
    }
}

/// `n` effects that all succeed.
pub open spec fn all_ok(n: nat) -> Seq<bool> {
    Seq::new(n, |i: int| true)
}

proof fn lemma_run_ok(w: WorldModel, step: DemoteModel, n: nat)
    requires
        n > 0,
    ensures
        demote_run(w, step, all_ok(n)) == demote_run(
            perform(w, step, true).0,
            perform(w, step, true).1,
            all_ok((n - 1) as nat),
        ),
{
    assert(all_ok(n).drop_first() =~= all_ok((n - 1) as nat));
}

proof fn lemma_run_finished(w: WorldModel, step: DemoteModel, oks: Seq<bool>)
    requires
        step is Finished,
    ensures
        demote_run(w, step, oks) == (w, step),
    decreases oks.len(),
{
    if oks.len() > 0 {
        lemma_run_finished(w, step, oks.drop_first());
    }
}

/// A first demote installs the fallback on the primary service, and keeps
/// what stood there. Nothing else is touched.
pub proof fn law_first_demote(w: WorldModel, id: Text, fallback: Seq<Text>, corp: Seq<Text>, n: nat)
    requires
        w.primary == Some(id),
        w.services.dom().contains(service_key(id)),
        w.snapshot is None,
        fallback.len() > 0,
        n >= 8,
    ensures
        ({
            let key = service_key(id);
            let end = demote_run(w, demote_begin(fallback, corp), all_ok(n));
            &&& end.1 == DemoteModel::Finished(Ok(true))
            &&& end.0.services == w.services.insert(
                key,
                LiveModel { servers: fallback, interface: w.services[key].interface },
            )
            &&& end.0.snapshot is Some
            &&& (end.0.snapshot->0).key == key
            &&& (end.0.snapshot->0).prior == w.services[key].servers
            &&& (end.0.snapshot->0).interface == w.services[key].interface
            &&& same_members((end.0.snapshot->0).installed, fallback)
        }),
{
    let key = service_key(id);
    let job = JobModel { key, fallback, corp };
    let before = w.services[key];
    let s1 = demote_begin(fallback, corp);
    lemma_run_ok(w, s1, n);
    let s2 = DemoteModel::LoadSnapshot(LoadSnapshotModel::First(job));
    lemma_run_ok(w, s2, (n - 1) as nat);
    let s3 = DemoteModel::ReadService { key, then: ReadModel::Capture(job) };
    lemma_run_ok(w, s3, (n - 2) as nat);
    let snapshot = captured(key, before, Seq::empty());
    let s4 = DemoteModel::SaveSnapshot { snapshot, then: SaveModel::Install(job) };
    lemma_run_ok(w, s4, (n - 3) as nat);
    let w1 = WorldModel { snapshot: Some(snapshot), ..w };
    let s5 = DemoteModel::LoadSnapshot(LoadSnapshotModel::Install(job));
    lemma_run_ok(w1, s5, (n - 4) as nat);
    let write = WriteModel { key, servers: fallback, interface: before.interface };
    let s6 = DemoteModel::Write { write, then: WriteForModel::Install(job) };
    lemma_run_ok(w1, s6, (n - 5) as nat);
    let w2 = write_dns(w1, write);
    let s7 = DemoteModel::LoadSnapshot(LoadSnapshotModel::Record(job));
    lemma_run_ok(w2, s7, (n - 6) as nat);
    law_same_set_is_an_equivalence(fallback, fallback, fallback);
    if same_members(snapshot.installed, fallback) {
        lemma_run_finished(w2, DemoteModel::Finished(Ok(true)), all_ok((n - 7) as nat));
    } else {
        let recorded = SnapshotModel { installed: fallback, ..snapshot };
        let s8 = DemoteModel::SaveSnapshot { snapshot: recorded, then: SaveModel::Record };
        lemma_run_ok(w2, s8, (n - 7) as nat);
        lemma_run_finished(
            WorldModel { snapshot: Some(recorded), ..w2 },
            DemoteModel::Finished(Ok(true)),
            all_ok((n - 8) as nat),
        );
    }
}

/// Demoting again, to the same fallback or to another, keeps what stood there
/// at first: the daemon's own fallback is never taken for it.
pub proof fn law_repeated_demote_keeps_the_prior(
    w: WorldModel,
    id: Text,
    s: SnapshotModel,
    fallback: Seq<Text>,
    corp: Seq<Text>,
    n: nat,
)
    requires
        w.primary == Some(id),
        w.services.dom().contains(service_key(id)),
        w.snapshot == Some(s),
        s.key == service_key(id),
        same_members(w.services[s.key].servers, s.installed),
        fallback.len() > 0,
        n >= 7,
    ensures
        ({
            let end = demote_run(w, demote_begin(fallback, corp), all_ok(n));
            &&& end.1 == DemoteModel::Finished(Ok(true))
            &&& end.0.services.dom().contains(s.key)
            &&& end.0.services[s.key].servers == fallback
            &&& end.0.snapshot is Some
            &&& (end.0.snapshot->0).key == s.key
            &&& (end.0.snapshot->0).prior == s.prior
            &&& (end.0.snapshot->0).interface == s.interface
            &&& same_members((end.0.snapshot->0).installed, fallback)
        }),
{
    let key = s.key;
    let job = JobModel { key, fallback, corp };
    let s1 = demote_begin(fallback, corp);
    lemma_run_ok(w, s1, n);
    let s2 = DemoteModel::LoadSnapshot(LoadSnapshotModel::First(job));
    lemma_run_ok(w, s2, (n - 1) as nat);
    let s3 = DemoteModel::ReadService { key, then: ReadModel::Refresh { job, existing: s } };
    lemma_run_ok(w, s3, (n - 2) as nat);
    let s4 = DemoteModel::LoadSnapshot(LoadSnapshotModel::Install(job));
    lemma_run_ok(w, s4, (n - 3) as nat);
    let write = WriteModel { key, servers: fallback, interface: s.interface };
    let s5 = DemoteModel::Write { write, then: WriteForModel::Install(job) };
    lemma_run_ok(w, s5, (n - 4) as nat);
    let w1 = write_dns(w, write);
    let s6 = DemoteModel::LoadSnapshot(LoadSnapshotModel::Record(job));
    lemma_run_ok(w1, s6, (n - 5) as nat);
    law_same_set_is_an_equivalence(fallback, fallback, fallback);
    if same_members(s.installed, fallback) {
        lemma_run_finished(w1, DemoteModel::Finished(Ok(true)), all_ok((n - 6) as nat));
    } else {
        let recorded = SnapshotModel { installed: fallback, ..s };
        let s7 = DemoteModel::SaveSnapshot { snapshot: recorded, then: SaveModel::Record };
        lemma_run_ok(w1, s7, (n - 6) as nat);
        lemma_run_finished(
            WorldModel { snapshot: Some(recorded), ..w1 },
            DemoteModel::Finished(Ok(true)),
            all_ok((n - 7) as nat),
        );
    }
}

/// A restore writes back exactly what the snapshot holds, and removes the
/// snapshot.
pub proof fn law_restore_puts_the_snapshot_back(w: WorldModel, n: nat)
    requires
        w.snapshot is Some,
        w.services.dom().contains((w.snapshot->0).key),
        n >= 4,
    ensures
        ({
            let s = w.snapshot->0;
            let end = demote_run(w, DemoteModel::LoadSnapshot(LoadSnapshotModel::Revert), all_ok(n));
            &&& end.1 == DemoteModel::Finished(Ok(true))
            &&& end.0.snapshot is None
            &&& end.0.services == w.services.insert(
                s.key,
                LiveModel {
                    servers: s.prior,
                    interface: match s.interface {
                        Some(i) => Some(i),
                        None => w.services[s.key].interface,
                    },
                },
            )
        }),
{
    let s = w.snapshot->0;
    let s1 = DemoteModel::LoadSnapshot(LoadSnapshotModel::Revert);
    lemma_run_ok(w, s1, n);
    let s2 = DemoteModel::CheckKey { snapshot: s, then: RestoreModel::Revert };
    lemma_run_ok(w, s2, (n - 1) as nat);
    let write = WriteModel { key: s.key, servers: s.prior, interface: s.interface };
    let s3 = DemoteModel::Write { write, then: WriteForModel::Restore(RestoreModel::Revert) };
    lemma_run_ok(w, s3, (n - 2) as nat);
    let w1 = write_dns(w, write);
    let s4 = DemoteModel::ClearSnapshot(RestoreModel::Revert);
    lemma_run_ok(w1, s4, (n - 3) as nat);
    lemma_run_finished(
        WorldModel { snapshot: None, ..w1 },
        DemoteModel::Finished(Ok(true)),
        all_ok((n - 4) as nat),
    );
}

/// A demote followed by a restore leaves every service as it was, and no
/// snapshot behind.
pub proof fn law_restore_undoes_demote(
    w: WorldModel,
    id: Text,
    fallback: Seq<Text>,
    corp: Seq<Text>,
)
    requires
        w.primary == Some(id),
        w.services.dom().contains(service_key(id)),
        w.snapshot is None,
        fallback.len() > 0,
    ensures
        ({
            let demoted = demote_run(w, demote_begin(fallback, corp), all_ok(8)).0;
            let end = demote_run(
                demoted,
                DemoteModel::LoadSnapshot(LoadSnapshotModel::Revert),
                all_ok(4),
            ).0;
            end.services == w.services && end.snapshot == w.snapshot
        }),
{
    law_first_demote(w, id, fallback, corp, 8);
    let demoted = demote_run(w, demote_begin(fallback, corp), all_ok(8)).0;
    law_restore_puts_the_snapshot_back(demoted, 4);
    let end = demote_run(
        demoted,
        DemoteModel::LoadSnapshot(LoadSnapshotModel::Revert),
        all_ok(4),
    ).0;
    assert(end.services =~= w.services);
}

/// Does the step, in this state, overwrite resolvers only where a snapshot of
/// them is on disk, and restore only from the snapshot on disk?
pub open spec fn guarded(w: WorldModel, step: DemoteModel) -> bool {
    let kept = |key: Text| w.snapshot is Some && (w.snapshot->0).key == key;
    match step {
        DemoteModel::LoadSnapshot(LoadSnapshotModel::Install(job)) => kept(job.key),
        DemoteModel::LoadSnapshot(LoadSnapshotModel::Record(job)) => kept(job.key),
        DemoteModel::ReadService { key, then } => match then {
            ReadModel::Capture(job) => key == job.key && w.snapshot is None,
            ReadModel::Refresh { job, existing } => key == job.key && w.snapshot == Some(existing)
                && existing.key == job.key,
        },
        DemoteModel::CheckKey { snapshot, then } => w.snapshot == Some(snapshot),
        DemoteModel::Write { write, then } => kept(write.key) && match then {
            WriteForModel::Install(job) => write.key == job.key,
            WriteForModel::Restore(_) => write.servers == (w.snapshot->0).prior,
        },
        DemoteModel::SaveSnapshot { snapshot, then } => match then {
            SaveModel::Install(job) => snapshot.key == job.key,
            SaveModel::Record => kept(snapshot.key),
        },
        _ => true,
    }
}

/// Whatever fails along the way, a demote and a restore overwrite a service's
/// resolvers only while a snapshot for that service is on disk, so that what
/// stood there can still be put back.
pub proof fn law_resolvers_are_never_overwritten_without_a_snapshot(
    w: WorldModel,
    step: DemoteModel,
    oks: Seq<bool>,
)
    requires
        guarded(w, step),
    ensures
        guarded(demote_run(w, step, oks).0, demote_run(w, step, oks).1),
    decreases oks.len(),
{
    if oks.len() > 0 {
        let (w1, next) = perform(w, step, oks[0]);
        assert(guarded(w1, next));
        law_resolvers_are_never_overwritten_without_a_snapshot(w1, next, oks.drop_first());
    }
}

/// A demote and a restore begin guarded.
pub proof fn law_demotes_and_restores_begin_guarded(
    w: WorldModel,
    fallback: Seq<Text>,
    corp: Seq<Text>,
)
    ensures
        guarded(w, demote_begin(fallback, corp)),
        guarded(w, DemoteModel::LoadSnapshot(LoadSnapshotModel::Revert)),
{
}

/// Refreshing a snapshot never takes the daemon's recorded fallback, the
/// VPN's resolver or nothing at all for what stood before.
pub proof fn law_refresh_takes_only_a_real_resolver(
    job: JobModel,
    existing: SnapshotModel,
    current: LiveModel,
    saved: SnapshotModel,
    then: SaveModel,
)
    requires
        on_service(ReadModel::Refresh { job, existing }, Ok(current)) == (
        DemoteModel::SaveSnapshot { snapshot: saved, then }),
    ensures
        saved.prior == current.servers,
        saved.prior.len() > 0,
        !same_members(saved.prior, existing.installed),
        !same_members(saved.prior, job.corp),
        existing.installed.len() == 0 ==> !same_members(saved.prior, job.fallback),
{
}

/// A restore that fails keeps the snapshot, so that it can be tried again.
pub proof fn law_failed_restore_keeps_the_snapshot(w: WorldModel, a: bool, b: bool, c: bool, d: bool)
    ensures
        ({
            let end = demote_run(
                w,
                DemoteModel::LoadSnapshot(LoadSnapshotModel::Revert),
                seq![a, b, c, d],
            );
            &&& end.1 is Finished
            &&& end.1 matches DemoteModel::Finished(Err(_)) ==> end.0.snapshot == w.snapshot
            &&& end.1 == DemoteModel::Finished(Ok(true)) ==> end.0.snapshot is None
        }),
{
    let all = seq![a, b, c, d];
    assert(all.drop_first() =~= seq![b, c, d]);
    assert(seq![b, c, d].drop_first() =~= seq![c, d]);
    assert(seq![c, d].drop_first() =~= seq![d]);
    assert(seq![d].drop_first() =~= Seq::<bool>::empty());
    reveal_with_fuel(demote_run, 5);
}

/// When the primary service has changed, the old one gets its resolvers back
/// before the new one is demoted.
pub proof fn law_changed_primary_restores_the_old_service(
    w: WorldModel,
    job: JobModel,
)
    requires
        w.snapshot is Some,
        (w.snapshot->0).key != job.key,
        w.services.dom().contains((w.snapshot->0).key),
    ensures
        ({
            let s = w.snapshot->0;
            let end = demote_run(
                w,
                DemoteModel::LoadSnapshot(LoadSnapshotModel::First(job)),
                all_ok(4),
            );
            &&& end.0.services.dom().contains(s.key)
            &&& end.0.services[s.key].servers == s.prior
            &&& end.0.snapshot is None
            &&& end.1 == (DemoteModel::ReadService { key: job.key, then: ReadModel::Capture(job) })
        }),
{
    let s = w.snapshot->0;
    let s1 = DemoteModel::LoadSnapshot(LoadSnapshotModel::First(job));
    lemma_run_ok(w, s1, 4);
    let s2 = DemoteModel::CheckKey { snapshot: s, then: RestoreModel::Demote(job) };
    lemma_run_ok(w, s2, 3);
    let write = WriteModel { key: s.key, servers: s.prior, interface: s.interface };
    let s3 = DemoteModel::Write { write, then: WriteForModel::Restore(RestoreModel::Demote(job)) };
    lemma_run_ok(w, s3, 2);
    let w1 = write_dns(w, write);
    let s4 = DemoteModel::ClearSnapshot(RestoreModel::Demote(job));
    lemma_run_ok(w1, s4, 1);
}

// ---------------------------------------------------------------------------
// What a demote leaves behind
// ---------------------------------------------------------------------------

/// A demote begins with the primary service; without one, and on a failure to
/// read it, nothing is done. An empty fallback is refused.
pub proof fn law_a_demote_needs_a_service_and_a_fallback(
    w: WorldModel,
    fallback: Seq<Text>,
    corp: Seq<Text>,
    e: ErrorModel,
)
    ensures
        fallback.len() == 0 ==> (demote_begin(fallback, corp) matches DemoteModel::Finished(r) && r
            is Err),
        fallback.len() > 0 ==> demote_begin(fallback, corp) == (DemoteModel::ReadPrimary {
            fallback,
            corp,
        }),
        on_primary(fallback, corp, Ok(None)) == DemoteModel::Finished(Ok(false)),
        on_primary(fallback, corp, Err(e)) == DemoteModel::Finished(Err(e)),
        w.primary is None && fallback.len() > 0 ==> demote_run(
            w,
            demote_begin(fallback, corp),
            all_ok(1),
        ) == (w, DemoteModel::Finished(Ok(false))),
{
    reveal_with_fuel(demote_run, 2);
    assert(all_ok(1).drop_first() =~= Seq::<bool>::empty());
}

/// When the network has handed the demoted service a new resolver, one that is
/// neither the daemon's own fallback nor the VPN's, that is what is kept, and
/// the fallback is installed again.
pub proof fn law_a_new_resolver_is_kept(
    w: WorldModel,
    id: Text,
    s: SnapshotModel,
    fallback: Seq<Text>,
    corp: Seq<Text>,
    n: nat,
)
    requires
        w.primary == Some(id),
        w.services.dom().contains(service_key(id)),
        w.snapshot == Some(s),
        s.key == service_key(id),
        w.services[s.key].servers.len() > 0,
        w.services[s.key].servers.to_multiset() != s.installed.to_multiset(),
        s.installed.len() == 0 ==> w.services[s.key].servers.to_multiset()
            != fallback.to_multiset(),
        w.services[s.key].servers.to_multiset() != corp.to_multiset(),
        fallback.len() > 0,
        n >= 8,
    ensures
        ({
            let end = demote_run(w, demote_begin(fallback, corp), all_ok(n));
            &&& end.1 == DemoteModel::Finished(Ok(true))
            &&& end.0.services.dom().contains(s.key)
            &&& end.0.services[s.key].servers == fallback
            &&& end.0.snapshot is Some
            &&& (end.0.snapshot->0).key == s.key
            &&& (end.0.snapshot->0).prior == w.services[s.key].servers
            &&& (end.0.snapshot->0).interface == w.services[s.key].interface
        }),
{
    let key = s.key;
    let now = w.services[key];
    let job = JobModel { key, fallback, corp };
    let s1 = demote_begin(fallback, corp);
    lemma_run_ok(w, s1, n);
    let s2 = DemoteModel::LoadSnapshot(LoadSnapshotModel::First(job));
    lemma_run_ok(w, s2, (n - 1) as nat);
    let s3 = DemoteModel::ReadService { key, then: ReadModel::Refresh { job, existing: s } };
    lemma_run_ok(w, s3, (n - 2) as nat);
    let fresh = captured(key, now, s.installed);
    let s4 = DemoteModel::SaveSnapshot { snapshot: fresh, then: SaveModel::Install(job) };
    lemma_run_ok(w, s4, (n - 3) as nat);
    let w1 = WorldModel { snapshot: Some(fresh), ..w };
    let s5 = DemoteModel::LoadSnapshot(LoadSnapshotModel::Install(job));
    lemma_run_ok(w1, s5, (n - 4) as nat);
    let write = WriteModel { key, servers: fallback, interface: now.interface };
    let s6 = DemoteModel::Write { write, then: WriteForModel::Install(job) };
    lemma_run_ok(w1, s6, (n - 5) as nat);
    let w2 = write_dns(w1, write);
    let s7 = DemoteModel::LoadSnapshot(LoadSnapshotModel::Record(job));
    lemma_run_ok(w2, s7, (n - 6) as nat);
    if same_members(fresh.installed, fallback) {
        lemma_run_finished(w2, DemoteModel::Finished(Ok(true)), all_ok((n - 7) as nat));
    } else {
        let recorded = SnapshotModel { installed: fallback, ..fresh };
        let s8 = DemoteModel::SaveSnapshot { snapshot: recorded, then: SaveModel::Record };
        lemma_run_ok(w2, s8, (n - 7) as nat);
        lemma_run_finished(
            WorldModel { snapshot: Some(recorded), ..w2 },
            DemoteModel::Finished(Ok(true)),
            all_ok((n - 8) as nat),
        );
    }
}

/// Two lists of resolvers are held to be the same if they hold the same ones
/// equally often, in whatever order.
pub proof fn law_resolvers_are_compared_without_order(a: Seq<Text>, b: Seq<Text>)
    ensures
        same_members(a, b) <==> a.to_multiset() == b.to_multiset(),
{
}

/// A restore leaves a service that is gone alone, and drops the snapshot; with
/// no snapshot there is nothing to restore.
pub proof fn law_a_departed_service_is_left_alone(w: WorldModel)
    ensures
        w.snapshot is Some && !w.services.dom().contains((w.snapshot->0).key) ==> demote_run(
            w,
            DemoteModel::LoadSnapshot(LoadSnapshotModel::Revert),
            all_ok(3),
        ) == (WorldModel { snapshot: None, ..w }, DemoteModel::Finished(Ok(true))),
        w.snapshot is None ==> demote_run(
            w,
            DemoteModel::LoadSnapshot(LoadSnapshotModel::Revert),
            all_ok(1),
        ) == (w, DemoteModel::Finished(Ok(false))),
{
    reveal_with_fuel(demote_run, 4);
    assert(all_ok(3).drop_first() =~= all_ok(2));
    assert(all_ok(2).drop_first() =~= all_ok(1));
    assert(all_ok(1).drop_first() =~= Seq::<bool>::empty());
}

/// A failure of an effect ends a demote or a restore with it; only the note of
/// what was installed may fail without harm.
pub proof fn law_failed_effects_end_a_demote(
    then: WriteForModel,
    read: ReadModel,
    job: JobModel,
    snapshot: SnapshotModel,
    purpose: RestoreModel,
    e: ErrorModel,
)
    ensures
        on_written(then, Err(e)) == DemoteModel::Finished(Err(e)),
        on_service(read, Err(e)) == DemoteModel::Finished(Err(e)),
        on_key(snapshot, purpose, Err(e)) == DemoteModel::Finished(Err(e)),
        on_saved(SaveModel::Install(job), Err(e)) == DemoteModel::Finished(Err(e)),
        on_saved(SaveModel::Record, Err(e)) == DemoteModel::Finished(Ok(true)),
        on_saved(SaveModel::Record, Ok(())) == DemoteModel::Finished(Ok(true)),
{
}

proof fn lemma_spaced_words(head: Text, servers: Seq<Text>, n: int)
    requires
        0 <= n <= servers.len(),
        forall|k: int|
            0 <= k < servers.len() ==> (#[trigger] servers[k]).len() > 0 && forall|i: int|
                0 <= i < servers[k].len() ==> !is_white(#[trigger] servers[k][i]),
        head.len() > 0,
        !is_white(head.last()),
        forall|i: int| 0 <= i < head.len() ==> head[i] != '\n',
    ensures
        words_of(head + spaced(servers, n)) == words_of(head) + servers.take(n),
        forall|i: int|
            0 <= i < (head + spaced(servers, n)).len() ==> (head + spaced(servers, n))[i] != '\n',
        !is_white((head + spaced(servers, n)).last()),
    decreases n,
{
    reveal_strlit(" ");
    if n > 0 {
        lemma_spaced_words(head, servers, n - 1);
        let before = head + spaced(servers, n - 1);
        let server = servers[n - 1];
        assert(" "@ =~= seq![' ']);
        assert(head + spaced(servers, n) =~= before.push(' ') + server);
        law_blanks_part_words(before, ' ', server);
        law_a_text_without_blanks_is_a_word(server);
        assert(servers.take(n) =~= servers.take(n - 1).push(server));
        assert(words_of(head) + servers.take(n - 1) + seq![server] =~= words_of(head)
            + servers.take(n));
        let whole = before.push(' ') + server;
        assert forall|i: int| 0 <= i < whole.len() implies whole[i] != '\n' by {
            if i > before.len() {
                assert(!is_white(server[i - before.len() - 1]));
            } else if i < before.len() {
                assert(whole[i] == before[i]);
            }
        }
        assert(!is_white(server[server.len() - 1]));
        assert(whole.last() == server.last());
    } else {
        assert(head + spaced(servers, 0) =~= head);
        assert(words_of(head) + servers.take(0) =~= words_of(head));
    }
}

proof fn lemma_line(line: Text, rest: Text)
    requires
        forall|k: int| 0 <= k < line.len() ==> line[k] != '\n',
        line.len() > 0,
        line.last() != '\r',
    ensures
        lines_of(line + "\n"@ + rest) == seq![line] + lines_of(rest),
{
    crate::text::lemma_lines_cons(line, rest);
}

/// The command that sets these servers: each of them, in order, after the
/// array's mark.
pub open spec fn sets_servers(line: Text, servers: Seq<Text>) -> bool {
    words_of(line) == seq!["d.add"@, "ServerAddresses"@, "*"@] + servers
}

/// May the text stand on a line of its own?
spec fn is_line(t: Text) -> bool {
    t.len() > 0 && t.last() != '\r' && forall|k: int| 0 <= k < t.len() ==> t[k] != '\n'
}

proof fn lemma_word_line(head: Text, word: Text)
    requires
        word.len() > 0,
        forall|k: int| 0 <= k < word.len() ==> !is_white(#[trigger] word[k]),
        forall|k: int| 0 <= k < head.len() ==> head[k] != '\n',
    ensures
        is_line(head + word),
{
    let t = head + word;
    assert(!is_white(word[word.len() - 1]));
    assert(t.last() == word.last());
    assert forall|k: int| 0 <= k < t.len() implies t[k] != '\n' by {
        if k >= head.len() {
            assert(!is_white(word[k - head.len()]));
        }
    }
}

/// The lines, each ended by a line feed.
spec fn ended(lines: Seq<Text>) -> Text
    decreases lines.len(),
{
    if lines.len() == 0 {
        Seq::empty()
    } else {
        lines[0] + "\n"@ + ended(lines.drop_first())
    }
}

proof fn lemma_ended(lines: Seq<Text>)
    requires
        forall|k: int| 0 <= k < lines.len() ==> is_line(#[trigger] lines[k]),
    ensures
        lines_of(ended(lines)) == lines,
    decreases lines.len(),
{
    if lines.len() > 0 {
        let rest = lines.drop_first();
        assert forall|k: int| 0 <= k < rest.len() implies is_line(#[trigger] rest[k]) by {
            assert(is_line(lines[k + 1]));
        }
        lemma_ended(rest);
        assert(is_line(lines[0]));
        lemma_line(lines[0], ended(rest));
        assert(seq![lines[0]] + rest =~= lines);
    } else {
        law_lines_end_at_line_feeds(Seq::empty(), Seq::empty());
        assert(lines =~= Seq::empty());
    }
}

proof fn lemma_ended_step(line: Text, rest: Seq<Text>)
    ensures
        ended(seq![line] + rest) == line + "\n"@ + ended(rest),
{
    assert((seq![line] + rest).drop_first() =~= rest);
}

/// The line that puts the servers in place.
spec fn put_line(servers: Seq<Text>) -> Text {
    if servers.len() > 0 {
        "d.add ServerAddresses *"@ + spaced(servers, servers.len() as int)
    } else {
        "d.remove ServerAddresses"@
    }
}

/// The lines that name the interface and store the entry.
spec fn last_lines(key: Text, interface: Option<Text>) -> Seq<Text> {
    (match interface {
        Some(name) => seq!["d.add InterfaceName "@ + name],
        None => Seq::empty(),
    }) + seq!["set "@ + key, "quit"@]
}

/// The lines of the script.
spec fn script_lines(key: Text, servers: Seq<Text>, interface: Option<Text>) -> Seq<Text> {
    seq!["open"@, "d.init"@, "get "@ + key, put_line(servers)] + last_lines(key, interface)
}

proof fn lemma_last_lines(key: Text, interface: Option<Text>)
    ensures
        ended(last_lines(key, interface)) == (match interface {
            Some(name) => "d.add InterfaceName "@ + name + "\n"@,
            None => Seq::empty(),
        }) + "set "@ + key + "\nquit\n"@,
{
    reveal_strlit("\nquit\n");
    reveal_strlit("\n");
    reveal_strlit("quit");
    let set = "set "@ + key;
    let none = Seq::<Text>::empty();
    lemma_ended_step("quit"@, none);
    assert(seq!["quit"@] + none =~= seq!["quit"@]);
    lemma_ended_step(set, seq!["quit"@]);
    assert(seq![set] + seq!["quit"@] =~= seq![set, "quit"@]);
    assert(ended(none) =~= Seq::empty());
    assert(ended(seq![set, "quit"@]) =~= set + "\nquit\n"@);
    match interface {
        Some(name) => {
            let line = "d.add InterfaceName "@ + name;
            lemma_ended_step(line, seq![set, "quit"@]);
            assert(ended(last_lines(key, interface)) =~= line + "\n"@ + "set "@ + key
                + "\nquit\n"@);
        },
        None => {
            assert(last_lines(key, interface) =~= seq![set, "quit"@]);
            assert(ended(last_lines(key, interface)) =~= Seq::<char>::empty() + "set "@ + key
                + "\nquit\n"@);
        },
    }
}

proof fn lemma_script_literals()
    ensures
        "open\nd.init\n"@ == "open"@ + "\n"@ + ("d.init"@ + "\n"@),
        "d.remove ServerAddresses\n"@ == "d.remove ServerAddresses"@ + "\n"@,
{
    reveal_strlit("open\nd.init\n");
    reveal_strlit("open");
    reveal_strlit("d.init");
    reveal_strlit("\n");
    reveal_strlit("d.remove ServerAddresses\n");
    reveal_strlit("d.remove ServerAddresses");
}

proof fn lemma_script_ended(key: Text, put: Text, last: Seq<Text>)
    ensures
        ended(seq!["open"@, "d.init"@, "get "@ + key, put] + last) == "open\nd.init\n"@ + ("get "@
            + key + "\n"@) + (put + "\n"@) + ended(last),
{
    let get = "get "@ + key;
    let a = seq![put] + last;
    let b = seq![get] + a;
    let c = seq!["d.init"@] + b;
    lemma_ended_step(put, last);
    lemma_ended_step(get, a);
    lemma_ended_step("d.init"@, b);
    lemma_ended_step("open"@, c);
    lemma_script_literals();
    assert(seq!["open"@, "d.init"@, get, put] + last =~= seq!["open"@] + c);
    assert("open"@ + "\n"@ + ("d.init"@ + "\n"@ + ended(b)) =~= "open\nd.init\n"@ + ended(b));
    assert(ended(b) =~= (get + "\n"@) + ended(a));
    assert("open\nd.init\n"@ + ended(b) =~= "open\nd.init\n"@ + (get + "\n"@) + (put + "\n"@)
        + ended(last));
}

#[verifier::spinoff_prover]
proof fn lemma_script_lines(key: Text, servers: Seq<Text>, interface: Option<Text>)
    ensures
        set_script(key, servers, interface) == ended(script_lines(key, servers, interface)),
{
    let put = put_line(servers);
    let last = last_lines(key, interface);
    lemma_script_ended(key, put, last);
    lemma_last_lines(key, interface);
    lemma_script_literals();
    let name = match interface {
        Some(name) => "d.add InterfaceName "@ + name + "\n"@,
        None => Seq::empty(),
    };
    let head = "open\nd.init\n"@ + "get "@ + key + "\n"@ + (put + "\n"@);
    assert(head =~= "open\nd.init\n"@ + ("get "@ + key + "\n"@) + (put + "\n"@));
    assert(head + (name + "set "@ + key + "\nquit\n"@) =~= head + name + "set "@ + key
        + "\nquit\n"@);
}

/// A write is scripted as: load the service's entry, put all of the servers in
/// it, in order, or take them out if there are none, name the interface if it
/// is known, and store the entry under the same key.
pub proof fn law_a_write_is_scripted(key: Text, servers: Seq<Text>, interface: Option<Text>)
    requires
        key.len() > 0,
        forall|k: int| 0 <= k < key.len() ==> !is_white(#[trigger] key[k]),
        forall|k: int|
            0 <= k < servers.len() ==> (#[trigger] servers[k]).len() > 0 && forall|i: int|
                0 <= i < servers[k].len() ==> !is_white(#[trigger] servers[k][i]),
        interface matches Some(name) ==> name.len() > 0 && forall|k: int|
            0 <= k < name.len() ==> !is_white(#[trigger] name[k]),
    ensures
        ({
            let lines = lines_of(set_script(key, servers, interface));
            let put = lines[3];
            let named = match interface {
                Some(name) => seq!["d.add InterfaceName "@ + name],
                None => Seq::empty(),
            };
            &&& lines == seq!["open"@, "d.init"@, "get "@ + key, put] + named + seq![
                "set "@ + key,
                "quit"@,
            ]
            &&& servers.len() > 0 ==> sets_servers(put, servers)
            &&& servers.len() == 0 ==> put == "d.remove ServerAddresses"@
        }),
{
    let lines = script_lines(key, servers, interface);
    let put = put_line(servers);
    let named = match interface {
        Some(name) => seq!["d.add InterfaceName "@ + name],
        None => Seq::empty(),
    };
    assert(lines =~= seq!["open"@, "d.init"@, "get "@ + key, put] + named + seq![
        "set "@ + key,
        "quit"@,
    ]);
    lemma_lines_alone(key, servers, interface);
    lemma_ended(lines);
    lemma_script_lines(key, servers, interface);
    assert(lines[3] == put);
    if servers.len() > 0 {
        reveal_strlit("d.add ServerAddresses *");
        lemma_spaced_words("d.add ServerAddresses *"@, servers, servers.len() as int);
        lemma_add_words();
        assert(servers.take(servers.len() as int) =~= servers);
    }
}

proof fn lemma_lines_alone(key: Text, servers: Seq<Text>, interface: Option<Text>)
    requires
        key.len() > 0,
        forall|k: int| 0 <= k < key.len() ==> !is_white(#[trigger] key[k]),
        forall|k: int|
            0 <= k < servers.len() ==> (#[trigger] servers[k]).len() > 0 && forall|i: int|
                0 <= i < servers[k].len() ==> !is_white(#[trigger] servers[k][i]),
        interface matches Some(name) ==> name.len() > 0 && forall|k: int|
            0 <= k < name.len() ==> !is_white(#[trigger] name[k]),
    ensures
        forall|k: int|
            0 <= k < script_lines(key, servers, interface).len() ==> is_line(
                #[trigger] script_lines(key, servers, interface)[k],
            ),
{
    reveal_strlit("open");
    reveal_strlit("d.init");
    reveal_strlit("get ");
    reveal_strlit("set ");
    reveal_strlit("quit");
    reveal_strlit("d.add ServerAddresses *");
    reveal_strlit("d.remove ServerAddresses");
    reveal_strlit("d.add InterfaceName ");
    lemma_word_line("get "@, key);
    lemma_word_line("set "@, key);
    if let Some(name) = interface {
        lemma_word_line("d.add InterfaceName "@, name);
    }
    lemma_spaced_words("d.add ServerAddresses *"@, servers, servers.len() as int);
    assert(is_line(put_line(servers)));
    assert(is_line("open"@) && is_line("d.init"@) && is_line("quit"@));
}

proof fn lemma_add_words()
    ensures
        words_of("d.add ServerAddresses *"@) == seq!["d.add"@, "ServerAddresses"@, "*"@],
{
    reveal_strlit("d.add ServerAddresses *");
    reveal_strlit("d.add");
    reveal_strlit("ServerAddresses");
    reveal_strlit("*");
    let a = "d.add"@;
    let b = "ServerAddresses"@;
    let c = "*"@;
    assert("d.add ServerAddresses *"@ =~= a.push(' ') + (b.push(' ') + c));
    law_blanks_part_words(a, ' ', b.push(' ') + c);
    law_blanks_part_words(b, ' ', c);
    law_a_text_without_blanks_is_a_word(a);
    law_a_text_without_blanks_is_a_word(b);
    law_a_text_without_blanks_is_a_word(c);
    assert(seq![a] + (seq![b] + seq![c]) =~= seq![a, b, c]);
}

/// A script succeeded if all that it printed, blank lines aside, is that a key
/// does not exist; anything else is a complaint.
pub proof fn law_silence_is_success(stdout: Text)
    ensures
        script_complaint(stdout) is None <==> forall|k: int|
            0 <= k < lines_of(stdout).len() ==> trimmed(#[trigger] lines_of(stdout)[k]).len() == 0
                || has_part(trimmed(lines_of(stdout)[k]), "No such key"@),
{
    lemma_complaints(lines_of(stdout), lines_of(stdout).len() as int);
}

proof fn lemma_complaints(lines: Seq<Text>, n: int)
    requires
        0 <= n <= lines.len(),
    ensures
        complaints(lines, n).len() == 0 <==> forall|k: int|
            0 <= k < n ==> trimmed(#[trigger] lines[k]).len() == 0 || has_part(
                trimmed(lines[k]),
                "No such key"@,
            ),
    decreases n,
{
    if n > 0 {
        lemma_complaints(lines, n - 1);
        let line = trimmed(lines[n - 1]);
    }
}

/// A snapshot that is gone once the fallback is installed is not made anew,
/// and the demote still counts.
pub proof fn law_a_lost_snapshot_is_not_made_anew(job: JobModel)
    ensures
        on_snapshot(LoadSnapshotModel::Record(job), None) == DemoteModel::Finished(Ok(true)),
        on_snapshot(LoadSnapshotModel::Revert, None) == DemoteModel::Finished(Ok(false)),
{
}

} // verus!
