//! Bringing the resolver files in line with the wanted domains.
//!
//! The files are written one after the other. Each is looked at before it is
//! overwritten, and what was there is kept, so that a failure can put
//! everything back. Only then are files of domains no longer wanted removed.

use vstd::prelude::*;
use vstd::utf8::encode_utf8;
use vstd::string::*;
use crate::backend::macos::resolver::{
    carries_marker, file_for, is_file_name, is_managed, is_valid_domain, is_word, joined_path,
    law_a_file_reads_back_its_servers, law_written_files_are_managed, lemma_servers_again,
    push_nameservers, resolver_contents, resolver_path, with_servers,
};
use crate::lists::{comes_no_later, no_later, push_new, strictly_ordered, with_all_new, with_new};
use crate::exec::outcome_of;
use crate::platform::{ErrorModel, PlatformError};
use crate::text::{
    concat2, concat3, copy_texts, debug_form, decimal, has_text, lines_of, lossy, lossy_text,
    opt_text, quoted, show, texts, utf8_text, Text,
};
use crate::wire::{LinkDnsState, LinkModel};

verus! {

/// What stood in a file's place before it was written.
#[derive(Debug, PartialEq, Eq)]
pub enum Prior {
    /// A file with these bytes.
    Existed(Vec<u8>),
    /// Nothing.
    Absent,
}

/// A file that was written, and what stood in its place.
#[derive(Debug, PartialEq, Eq)]
pub struct Written {
    pub name: String,
    pub prior: Prior,
}

/// What stands in a file's place.
#[derive(Debug, PartialEq, Eq)]
pub enum Entry {
    /// A regular file with these bytes.
    File(Vec<u8>),
    /// A regular file that could not be read.
    Unreadable(String),
    Missing,
    /// A link, a directory or something else.
    NotRegular,
    /// It could not be looked at.
    StatFailed(String),
}

/// An apply under way. The files of the first `written.len()` domains are
/// written.
#[derive(Debug, PartialEq, Eq)]
pub struct ScopePlan {
    pub dir: String,
    pub contents: String,
    pub domains: Vec<String>,
    pub written: Vec<Written>,
}

/// What an apply does next.
#[derive(Debug, PartialEq, Eq)]
pub enum ScopeStep {
    /// Look at the file of this name: [`inspected`].
    Inspect { name: String, plan: ScopePlan },
    /// Write the file of this name: [`wrote`].
    Write { name: String, contents: String, prior: Prior, plan: ScopePlan },
    /// Remove the daemon's files but for those of these names: [`pruned`].
    Prune { keep: Vec<String>, plan: ScopePlan },
    /// Undo these writes in turn, as far as that goes, and report the error.
    Undo { actions: Vec<Written>, error: PlatformError },
    Finished(Result<(), PlatformError>),
}

/// The value of a [`Prior`].
pub enum PriorModel {
    Existed(Seq<u8>),
    Absent,
}

/// The value of a [`Written`].
pub struct WrittenModel {
    pub name: Text,
    pub prior: PriorModel,
}

/// The value of an [`Entry`].
pub enum EntryModel {
    File(Seq<u8>),
    Unreadable(Text),
    Missing,
    NotRegular,
    StatFailed(Text),
}

/// The value of a [`ScopePlan`].
pub struct PlanModel {
    pub dir: Text,
    pub contents: Text,
    pub domains: Seq<Text>,
    pub written: Seq<WrittenModel>,
}

/// The value of a [`ScopeStep`].
pub enum ScopeModel {
    Inspect { name: Text, plan: PlanModel },
    Write { name: Text, contents: Text, prior: PriorModel, plan: PlanModel },
    Prune { keep: Seq<Text>, plan: PlanModel },
    Undo { actions: Seq<WrittenModel>, error: ErrorModel },
    Finished(Result<(), ErrorModel>),
}

impl View for Prior {
    type V = PriorModel;

    open spec fn view(&self) -> PriorModel {
        match self {
            Prior::Existed(bytes) => PriorModel::Existed(bytes@),
            Prior::Absent => PriorModel::Absent,
        }
    }
}

impl View for Written {
    type V = WrittenModel;

    open spec fn view(&self) -> WrittenModel {
        WrittenModel { name: self.name@, prior: self.prior@ }
    }
}

/// The values of a list of writes.
pub open spec fn writes(v: Seq<Written>) -> Seq<WrittenModel> {
    Seq::new(v.len(), |i: int| v[i]@)
}

impl View for Entry {
    type V = EntryModel;

    open spec fn view(&self) -> EntryModel {
        match self {
            Entry::File(bytes) => EntryModel::File(bytes@),
            Entry::Unreadable(e) => EntryModel::Unreadable(e@),
            Entry::Missing => EntryModel::Missing,
            Entry::NotRegular => EntryModel::NotRegular,
            Entry::StatFailed(e) => EntryModel::StatFailed(e@),
        }
    }
}

impl View for ScopePlan {
    type V = PlanModel;

    open spec fn view(&self) -> PlanModel {
        PlanModel {
            dir: self.dir@,
            contents: self.contents@,
            domains: texts(self.domains@),
            written: writes(self.written@),
        }
    }
}

impl View for ScopeStep {
    type V = ScopeModel;

    open spec fn view(&self) -> ScopeModel {
        match self {
            ScopeStep::Inspect { name, plan } => ScopeModel::Inspect { name: name@, plan: plan@ },
            ScopeStep::Write { name, contents, prior, plan } => ScopeModel::Write {
                name: name@,
                contents: contents@,
                prior: prior@,
                plan: plan@,
            },
            ScopeStep::Prune { keep, plan } => ScopeModel::Prune {
                keep: texts(keep@),
                plan: plan@,
            },
            ScopeStep::Undo { actions, error } => ScopeModel::Undo {
                actions: writes(actions@),
                error: error@,
            },
            ScopeStep::Finished(r) => ScopeModel::Finished(outcome_of(*r)),
        }
    }
}

// ---------------------------------------------------------------------------
// Applying
// ---------------------------------------------------------------------------

/// The first domain from `i` on that may not be a file name, or their number.
pub open spec fn bad_name_from(domains: Seq<Text>, i: int) -> int
    decreases domains.len() - i,
{
    if i >= domains.len() {
        domains.len() as int
    } else if !is_file_name(domains[i]) {
        i
    } else {
        bad_name_from(domains, i + 1)
    }
}

/// The next file to look at; the removal of stale files after the last.
pub open spec fn scope_next(plan: PlanModel) -> ScopeModel {
    if plan.written.len() < plan.domains.len() {
        ScopeModel::Inspect { name: plan.domains[plan.written.len() as int], plan }
    } else {
        ScopeModel::Prune { keep: plan.domains, plan }
    }
}

/// Begin an apply. A name that may not be used ends it before any file is
/// touched.
pub open spec fn scope_begin(dir: Text, servers: Seq<Text>, domains: Seq<Text>) -> ScopeModel {
    let bad = bad_name_from(domains, 0);
    if bad < domains.len() {
        ScopeModel::Finished(
            Err(
                ErrorModel::CommandFailed(
                    "refusing to apply invalid domain name: "@ + debug_form(domains[bad]),
                ),
            ),
        )
    } else {
        scope_next(
            PlanModel { dir, contents: file_for(servers), domains, written: Seq::empty() },
        )
    }
}

/// Give up: undo what was written, the last first.
pub open spec fn scope_fail(plan: PlanModel, message: Text) -> ScopeModel {
    ScopeModel::Undo {
        actions: plan.written.reverse(),
        error: ErrorModel::CommandFailed(message),
    }
}

/// What stands in the next file's place is known. Only a file of the
/// daemon's own is overwritten.
pub open spec fn scope_inspected(name: Text, plan: PlanModel, entry: EntryModel) -> ScopeModel {
    let path = joined_path(plan.dir, name);
    match entry {
        EntryModel::File(bytes) => if carries_marker(lossy_text(bytes)) {
            ScopeModel::Write {
                name,
                contents: plan.contents,
                prior: PriorModel::Existed(bytes),
                plan,
            }
        } else {
            scope_fail(
                plan,
                "refusing to overwrite resolver file not created by splitway: "@ + path,
            )
        },
        EntryModel::Missing => ScopeModel::Write {
            name,
            contents: plan.contents,
            prior: PriorModel::Absent,
            plan,
        },
        EntryModel::NotRegular => scope_fail(
            plan,
            "refusing to overwrite non-regular resolver entry: "@ + path,
        ),
        EntryModel::Unreadable(e) => scope_fail(
            plan,
            "failed to read resolver file "@ + path + " before overwrite: "@ + e,
        ),
        EntryModel::StatFailed(e) => scope_fail(
            plan,
            "failed to stat resolver file "@ + path + " before overwrite: "@ + e,
        ),
    }
}

/// The next file was written, or could not be.
pub open spec fn scope_wrote(
    name: Text,
    prior: PriorModel,
    plan: PlanModel,
    result: Result<(), Text>,
) -> ScopeModel {
    match result {
        Err(e) => scope_fail(
            plan,
            "failed to write resolver file "@ + joined_path(plan.dir, name) + ": "@ + e
                + "; rolled back "@ + decimal(plan.written.len()) + " file(s)"@,
        ),
        Ok(_) => scope_next(
            PlanModel { written: plan.written.push(WrittenModel { name, prior }), ..plan },
        ),
    }
}

/// Stale files were removed, or could not be.
pub open spec fn scope_pruned(plan: PlanModel, result: Result<(), Text>) -> ScopeModel {
    match result {
        Err(e) => scope_fail(plan, "failed to prune stale resolver files: "@ + e),
        Ok(_) => ScopeModel::Finished(Ok(())),
    }
}

fn next(plan: ScopePlan) -> (r: ScopeStep)
    ensures
        r@ == scope_next(plan@),
{
    if plan.written.len() < plan.domains.len() {
        let name = plan.domains[plan.written.len()].clone();
        ScopeStep::Inspect { name, plan }
    } else {
        let keep = copy_texts(&plan.domains);
        ScopeStep::Prune { keep, plan }
    }
}

/// Begin to bring the files in `dir` in line with `domains`, each naming
/// `servers`.
pub fn apply_to_dir(dir: &str, servers: &Vec<String>, domains: &Vec<String>) -> (r: ScopeStep)
    ensures
        r@ == scope_begin(dir@, texts(servers@), texts(domains@)),
{
    let ghost all = texts(domains@);
    let mut i: usize = 0;
    while i < domains.len()
        invariant
            i <= domains.len(),
            all == texts(domains@),
            bad_name_from(all, 0) == bad_name_from(all, i as int),
        decreases domains.len() - i,
    {
        if !is_valid_domain(domains[i].as_str()) {
            let shown = quoted(domains[i].as_str());
            return ScopeStep::Finished(
                Err(
                    PlatformError::CommandFailed(
                        concat2("refusing to apply invalid domain name: ", shown.as_str()),
                    ),
                ),
            );
        }
        i += 1;
    }
    let plan = ScopePlan {
        dir: dir.to_owned(),
        contents: resolver_contents(servers),
        domains: copy_texts(domains),
        written: Vec::new(),
    };
    assert(writes(plan.written@) =~= Seq::<WrittenModel>::empty());
    next(plan)
}

fn fail(plan: ScopePlan, message: String) -> (r: ScopeStep)
    ensures
        r@ == scope_fail(plan@, message@),
{
    let mut left = plan.written;
    let ghost all = left@;
    let mut actions: Vec<Written> = Vec::new();
    while left.len() > 0
        invariant
            left@ == all.take(left@.len() as int),
            left@.len() + actions@.len() == all.len(),
            forall|k: int| 0 <= k < actions@.len() ==> actions@[k] == all[all.len() - 1 - k],
        decreases left.len(),
    {
        let ghost n = left@.len() as int;
        if let Some(last) = left.pop() {
            assert(all.take(n).subrange(0, n - 1) =~= all.take(n - 1));
            assert(last == all[n - 1]);
            actions.push(last);
        }
    }
    assert(writes(actions@) =~= writes(all).reverse());
    ScopeStep::Undo { actions, error: PlatformError::CommandFailed(message) }
}

/// What stands in the next file's place is known.
pub fn inspected(name: String, plan: ScopePlan, entry: Entry) -> (r: ScopeStep)
    ensures
        r@ == scope_inspected(name@, plan@, entry@),
{
    let path = resolver_path(plan.dir.as_str(), name.as_str());
    match entry {
        Entry::File(bytes) => if is_managed(lossy(&bytes).as_str()) {
            let contents = plan.contents.clone();
            ScopeStep::Write { name, contents, prior: Prior::Existed(bytes), plan }
        } else {
            fail(
                plan,
                concat2(
                    "refusing to overwrite resolver file not created by splitway: ",
                    path.as_str(),
                ),
            )
        },
        Entry::Missing => {
            let contents = plan.contents.clone();
            ScopeStep::Write { name, contents, prior: Prior::Absent, plan }
        },
        Entry::NotRegular => fail(
            plan,
            concat2("refusing to overwrite non-regular resolver entry: ", path.as_str()),
        ),
        Entry::Unreadable(e) => {
            let mut message = concat3(
                "failed to read resolver file ",
                path.as_str(),
                " before overwrite: ",
            );
            message.append(e.as_str());
            fail(plan, message)
        },
        Entry::StatFailed(e) => {
            let mut message = concat3(
                "failed to stat resolver file ",
                path.as_str(),
                " before overwrite: ",
            );
            message.append(e.as_str());
            fail(plan, message)
        },
    }
}

/// The next file was written, or could not be.
pub fn wrote(
    name: String,
    prior: Prior,
    plan: ScopePlan,
    result: Result<(), String>,
) -> (r: ScopeStep)
    ensures
        r@ == scope_wrote(
            name@,
            prior@,
            plan@,
            match result {
                Ok(_) => Ok(()),
                Err(e) => Err(e@),
            },
        ),
{
    match result {
        Err(e) => {
            let path = resolver_path(plan.dir.as_str(), name.as_str());
            let mut message = concat3("failed to write resolver file ", path.as_str(), ": ");
            message.append(e.as_str());
            message.append("; rolled back ");
            message.append(show(plan.written.len()).as_str());
            message.append(" file(s)");
            fail(plan, message)
        },
        Ok(_) => {
            let mut plan = plan;
            let ghost before = plan.written@;
            let entry = Written { name, prior };
            plan.written.push(entry);
            assert(writes(plan.written@) =~= writes(before).push(entry@));
            next(plan)
        },
    }
}

/// Stale files were removed, or could not be.
pub fn pruned(plan: ScopePlan, result: Result<(), String>) -> (r: ScopeStep)
    ensures
        r@ == scope_pruned(
            plan@,
            match result {
                Ok(_) => Ok(()),
                Err(e) => Err(e@),
            },
        ),
{
    match result {
        Err(e) => fail(plan, concat2("failed to prune stale resolver files: ", e.as_str())),
        Ok(_) => ScopeStep::Finished(Ok(())),
    }
}

// ---------------------------------------------------------------------------
// The directory
// ---------------------------------------------------------------------------

/// An entry of the resolver directory.
#[derive(Debug, PartialEq, Eq)]
pub struct DirEntry {
    /// Its name, if that is text.
    pub name: Option<String>,
    /// Whether it is a regular file, and no link to one.
    pub regular: bool,
    /// Its contents, if they could be read and are text.
    pub text: Option<String>,
}

/// The value of a [`DirEntry`].
pub struct DirEntryModel {
    pub name: Option<Text>,
    pub regular: bool,
    pub text: Option<Text>,
}

impl View for DirEntry {
    type V = DirEntryModel;

    open spec fn view(&self) -> DirEntryModel {
        DirEntryModel {
            name: opt_text(self.name),
            regular: self.regular,
            text: opt_text(self.text),
        }
    }
}

/// The values of a list of entries.
pub open spec fn entries_of(v: Seq<DirEntry>) -> Seq<DirEntryModel> {
    Seq::new(v.len(), |i: int| v[i]@)
}

/// Is the entry one of the daemon's files?
pub open spec fn is_ours(e: DirEntryModel) -> bool {
    e.regular && e.name is Some && e.text is Some && carries_marker(e.text->0)
}

/// The daemon's files among the first `n` entries, but for those to be kept.
pub open spec fn removable(
    entries: Seq<DirEntryModel>,
    keep: Option<Seq<Text>>,
    n: int,
) -> Seq<Text>
    decreases n,
{
    if n <= 0 {
        Seq::empty()
    } else {
        let e = entries[n - 1];
        let rest = removable(entries, keep, n - 1);
        if is_ours(e) && !(keep is Some && (keep->0).contains(e.name->0)) {
            rest.push(e.name->0)
        } else {
            rest
        }
    }
}

fn ours(e: &DirEntry) -> (r: bool)
    ensures
        r == is_ours(e@),
{
    if !e.regular {
        return false;
    }
    match (&e.name, &e.text) {
        (Some(_), Some(text)) => is_managed(text.as_str()),
        _ => false,
    }
}

/// The daemon's files in the directory, but for those to be kept. What it did
/// not write, and what cannot be read, is left alone.
pub fn managed_files(entries: &Vec<DirEntry>, keep: &Option<Vec<String>>) -> (r: Vec<String>)
    ensures
        texts(r@) == removable(
            entries_of(entries@),
            crate::text::opt_texts(*keep),
            entries@.len() as int,
        ),
{
    let ghost all = entries_of(entries@);
    let ghost kept = crate::text::opt_texts(*keep);
    let mut out: Vec<String> = Vec::new();
    let mut i: usize = 0;
    proof {
        assert(texts(out@) =~= Seq::<Text>::empty());
    }
    while i < entries.len()
        invariant
            i <= entries.len(),
            all == entries_of(entries@),
            kept == crate::text::opt_texts(*keep),
            texts(out@) == removable(all, kept, i as int),
        decreases entries.len() - i,
    {
        let e = &entries[i];
        assert(all[i as int] == e@);
        if ours(e) {
            if let Some(name) = &e.name {
                let spared = match keep {
                    Some(list) => has_text(list, name.as_str()),
                    None => false,
                };
                if !spared {
                    let ghost before = out@;
                    out.push(name.clone());
                    assert(texts(out@) =~= texts(before).push(name@));
                }
            }
        }
        i += 1;
    }
    out
}

/// One of the daemon's files, as read back.
#[derive(Debug, PartialEq, Eq)]
pub struct ManagedFile {
    pub name: String,
    pub text: String,
}

/// The value of a [`ManagedFile`].
pub struct ManagedModel {
    pub name: Text,
    pub text: Text,
}

impl View for ManagedFile {
    type V = ManagedModel;

    open spec fn view(&self) -> ManagedModel {
        ManagedModel { name: self.name@, text: self.text@ }
    }
}

/// The values of a list of files.
pub open spec fn files_of(v: Seq<ManagedFile>) -> Seq<ManagedModel> {
    Seq::new(v.len(), |i: int| v[i]@)
}

/// The daemon's files among the first `n` entries.
pub open spec fn our_files(entries: Seq<DirEntryModel>, n: int) -> Seq<ManagedModel>
    decreases n,
{
    if n <= 0 {
        Seq::empty()
    } else {
        let e = entries[n - 1];
        let rest = our_files(entries, n - 1);
        if is_ours(e) {
            rest.push(ManagedModel { name: e.name->0, text: e.text->0 })
        } else {
            rest
        }
    }
}

/// Are the files in the order of their names?
pub open spec fn in_order(files: Seq<ManagedModel>) -> bool {
    forall|i: int, j: int|
        0 <= i < j < files.len() ==> no_later(#[trigger] files[i].name, #[trigger] files[j].name)
}

/// The domains and servers of the first `n` files, each without repeats.
pub open spec fn gathered(files: Seq<ManagedModel>, n: int) -> LinkModel
    decreases n,
{
    if n <= 0 {
        crate::wire::empty_link()
    } else {
        let before = gathered(files, n - 1);
        let lines = lines_of(files[n - 1].text);
        LinkModel {
            servers: with_servers(before.servers, lines, lines.len() as int),
            domains: with_new(before.domains, files[n - 1].name),
            default_route: None,
        }
    }
}

/// Is `link` what the directory's entries amount to: what the daemon's files
/// say, taken in the order of their names?
pub open spec fn read_back(entries: Seq<DirEntryModel>, link: LinkModel) -> bool {
    exists|ordered: Seq<ManagedModel>|
        {
            &&& in_order(ordered)
            &&& ordered.to_multiset() == our_files(entries, entries.len() as int).to_multiset()
            &&& link == #[trigger] gathered(ordered, ordered.len() as int)
        }
}

/// Put a file in its place among files in order.
fn insert_in_order(files: &mut Vec<ManagedFile>, file: ManagedFile)
    requires
        in_order(files_of(old(files)@)),
    ensures
        in_order(files_of(final(files)@)),
        files_of(final(files)@).to_multiset() == files_of(old(files)@).to_multiset().insert(file@),
{
    let mut i: usize = 0;
    while i < files.len() && comes_no_later(files[i].name.as_str(), file.name.as_str())
        invariant
            i <= files.len(),
            forall|k: int| 0 <= k < i ==> no_later(#[trigger] files@[k].name@, file.name@),
        decreases files.len() - i,
    {
        i += 1;
    }
    let ghost before = files_of(files@);
    let ghost added = file@;
    proof {
        if i < files.len() {
            crate::lists::lemma_order_total(files@[i as int].name@, file.name@, 0);
        }
        assert forall|k: int| i <= k < before.len() implies no_later(
            added.name,
            #[trigger] before[k].name,
        ) by {
            if k > i {
                assert(no_later(before[i as int].name, before[k].name));
                crate::lists::lemma_order_transitive(
                    added.name,
                    before[i as int].name,
                    before[k].name,
                    0,
                );
            }
        }
        assert forall|k: int| 0 <= k < i implies no_later(
            #[trigger] before[k].name,
            added.name,
        ) by {
            assert(no_later(files@[k].name@, file.name@));
        }
    }
    files.insert(i, file);
    proof {
        assert(files_of(files@) =~= before.insert(i as int, added));
        vstd::seq_lib::to_multiset_insert(before, i as int, added);
    }
}

/// What the resolver directory says is installed: each of the daemon's files
/// is a routing domain, and names the servers. There is no default route to
/// speak of.
pub fn read_managed_state(entries: &Vec<DirEntry>) -> (r: LinkDnsState)
    ensures
        read_back(entries_of(entries@), r@),
{
    broadcast use vstd::seq_lib::group_to_multiset_ensures;

    let ghost all = entries_of(entries@);
    let mut files: Vec<ManagedFile> = Vec::new();
    let mut i: usize = 0;
    proof {
        assert(files_of(files@) =~= Seq::<ManagedModel>::empty());
    }
    while i < entries.len()
        invariant
            i <= entries.len(),
            all == entries_of(entries@),
            in_order(files_of(files@)),
            files_of(files@).to_multiset() == our_files(all, i as int).to_multiset(),
        decreases entries.len() - i,
    {
        let e = &entries[i];
        assert(all[i as int] == e@);
        if ours(e) {
            if let (Some(name), Some(text)) = (&e.name, &e.text) {
                proof {
                    vstd::seq_lib::to_multiset_build(
                        our_files(all, i as int),
                        ManagedModel { name: name@, text: text@ },
                    );
                }
                insert_in_order(
                    &mut files,
                    ManagedFile { name: name.clone(), text: text.clone() },
                );
            }
        }
        i += 1;
    }
    let ghost ordered = files_of(files@);
    let mut domains: Vec<String> = Vec::new();
    let mut servers: Vec<String> = Vec::new();
    let mut k: usize = 0;
    proof {
        assert(texts(domains@) =~= Seq::<Text>::empty());
        assert(texts(servers@) =~= Seq::<Text>::empty());
    }
    while k < files.len()
        invariant
            k <= files.len(),
            ordered == files_of(files@),
            gathered(ordered, k as int) == (LinkModel {
                servers: texts(servers@),
                domains: texts(domains@),
                default_route: None,
            }),
        decreases files.len() - k,
    {
        assert(ordered[k as int] == files@[k as int]@);
        push_new(&mut domains, files[k].name.as_str());
        push_nameservers(files[k].text.as_str(), &mut servers);
        k += 1;
    }
    let link = LinkDnsState { servers, routing_domains: domains, default_route: None };
    assert(link@ == gathered(ordered, ordered.len() as int));
    link
}

// ---------------------------------------------------------------------------
// Laws
// ---------------------------------------------------------------------------

/// What a directory holds under a name.
pub enum DiskModel {
    Regular(Seq<u8>),
    /// A regular file that cannot be read, and why.
    Locked(Text),
    /// A link, a directory or something else.
    Special,
    /// Something that cannot be looked at, and why.
    Hidden(Text),
}

/// A directory.
pub struct DirModel {
    pub files: Map<Text, DiskModel>,
}

/// What the directory answers when a name is looked at.
pub open spec fn answer(d: DirModel, name: Text) -> EntryModel {
    if !d.files.dom().contains(name) {
        EntryModel::Missing
    } else {
        match d.files[name] {
            DiskModel::Regular(bytes) => EntryModel::File(bytes),
            DiskModel::Locked(e) => EntryModel::Unreadable(e),
            DiskModel::Special => EntryModel::NotRegular,
            DiskModel::Hidden(e) => EntryModel::StatFailed(e),
        }
    }
}

/// The directory with one write undone.
pub open spec fn undo_one(d: DirModel, w: WrittenModel) -> DirModel {
    DirModel {
        files: match w.prior {
            PriorModel::Existed(bytes) => d.files.insert(w.name, DiskModel::Regular(bytes)),
            PriorModel::Absent => d.files.remove(w.name),
        },
    }
}

/// The directory with these writes undone in turn.
pub open spec fn undo_all(d: DirModel, actions: Seq<WrittenModel>) -> DirModel
    decreases actions.len(),
{
    if actions.len() == 0 {
        d
    } else {
        undo_all(undo_one(d, actions[0]), actions.drop_first())
    }
}

/// The directory with a file written.
pub open spec fn put(d: DirModel, name: Text, contents: Text) -> DirModel {
    DirModel { files: d.files.insert(name, DiskModel::Regular(encode_utf8(contents))) }
}

/// Carry on with an apply on the directory, each write in turn coming out as
/// `results` says, until stale files are to be removed or the apply has ended.
pub open spec fn scope_run(
    d: DirModel,
    step: ScopeModel,
    results: Seq<Result<(), Text>>,
) -> (DirModel, ScopeModel)
    decreases results.len(), (if step is Inspect { 1int } else { 0int }),
{
    match step {
        ScopeModel::Inspect { name, plan } => {
            let after = scope_inspected(name, plan, answer(d, name));
            if after is Inspect {
                (d, step)
            } else {
                scope_run(d, after, results)
            }
        },
        ScopeModel::Write { name, contents, prior, plan } => if results.len() == 0 {
            (d, step)
        } else {
            scope_run(
                if results[0] is Ok {
                    put(d, name, contents)
                } else {
                    d
                },
                scope_wrote(name, prior, plan, results[0]),
                results.drop_first(),
            )
        },
        ScopeModel::Undo { actions, error } => (
            undo_all(d, actions),
            ScopeModel::Finished(Err(error)),
        ),
        ScopeModel::Prune { keep, plan } => (d, step),
        ScopeModel::Finished(r) => (d, step),
    }
}

/// Does undoing what the plan has written, the last first, lead from `d` back
/// to `start`?
spec fn undoes_to(start: DirModel, d: DirModel, plan: PlanModel) -> bool {
    undo_all(d, plan.written.reverse()) == start
}

proof fn lemma_undo_last(d: DirModel, written: Seq<WrittenModel>, w: WrittenModel)
    ensures
        undo_all(d, written.push(w).reverse()) == undo_all(undo_one(d, w), written.reverse()),
{
    let all = written.push(w).reverse();
    assert(all[0] == w);
    assert(all.drop_first() =~= written.reverse());
}

proof fn lemma_put_undone(d: DirModel, name: Text, contents: Text, prior: PriorModel)
    requires
        match prior {
            PriorModel::Existed(bytes) => d.files.dom().contains(name) && d.files[name]
                == DiskModel::Regular(bytes),
            PriorModel::Absent => !d.files.dom().contains(name),
        },
    ensures
        undo_one(put(d, name, contents), WrittenModel { name, prior }) == d,
{
    assert(undo_one(put(d, name, contents), WrittenModel { name, prior }).files =~= d.files);
}

/// Is a step of an apply that began on `start` ready to be undone?
spec fn undoable(start: DirModel, d: DirModel, step: ScopeModel) -> bool {
    match step {
        ScopeModel::Inspect { name, plan } => undoes_to(start, d, plan),
        ScopeModel::Write { name, contents, prior, plan } => undoes_to(start, d, plan)
            && match prior {
            PriorModel::Existed(bytes) => d.files.dom().contains(name) && d.files[name]
                == DiskModel::Regular(bytes),
            PriorModel::Absent => !d.files.dom().contains(name),
        },
        ScopeModel::Prune { keep, plan } => undoes_to(start, d, plan),
        ScopeModel::Undo { actions, error } => undo_all(d, actions) == start,
        ScopeModel::Finished(r) => d == start,
    }
}

proof fn lemma_scope_run(
    start: DirModel,
    d: DirModel,
    step: ScopeModel,
    results: Seq<Result<(), Text>>,
)
    requires
        undoable(start, d, step),
    ensures
        undoable(start, scope_run(d, step, results).0, scope_run(d, step, results).1),
    decreases results.len(), (if step is Inspect { 1int } else { 0int }),
{
    match step {
        ScopeModel::Inspect { name, plan } => {
            let after = scope_inspected(name, plan, answer(d, name));
            lemma_scope_run(start, d, after, results);
        },
        ScopeModel::Write { name, contents, prior, plan } => {
            if results.len() > 0 {
                let after = scope_wrote(name, prior, plan, results[0]);
                if results[0] is Ok {
                    let w = WrittenModel { name, prior };
                    lemma_put_undone(d, name, contents, prior);
                    lemma_undo_last(put(d, name, contents), plan.written, w);
                    lemma_scope_run(start, put(d, name, contents), after, results.drop_first());
                } else {
                    lemma_scope_run(start, d, after, results.drop_first());
                }
            }
        },
        _ => {},
    }
}

/// An apply that fails, at whichever file and for whatever reason, leaves the
/// directory exactly as it was.
pub proof fn law_failed_apply_changes_nothing(
    d: DirModel,
    dir: Text,
    servers: Seq<Text>,
    domains: Seq<Text>,
    results: Seq<Result<(), Text>>,
)
    ensures
        ({
            let end = scope_run(d, scope_begin(dir, servers, domains), results);
            end.1 is Finished ==> end.0 == d
        }),
{
    let begin = scope_begin(dir, servers, domains);
    let empty = Seq::<WrittenModel>::empty();
    assert(empty.reverse() =~= empty);
    assert(undo_all(d, empty.reverse()) == d);
    assert(undoable(d, d, begin));
    lemma_scope_run(d, d, begin, results);
}

/// When the removal of stale files fails, undoing the writes leads back to
/// the directory the apply began on.
pub proof fn law_failed_prune_can_be_undone(
    d: DirModel,
    dir: Text,
    servers: Seq<Text>,
    domains: Seq<Text>,
    results: Seq<Result<(), Text>>,
    e: Text,
)
    ensures
        ({
            let end = scope_run(d, scope_begin(dir, servers, domains), results);
            end.1 matches ScopeModel::Prune { keep, plan } ==> (scope_pruned(plan, Err(e))
                matches ScopeModel::Undo { actions, .. } && undo_all(end.0, actions) == d)
        }),
{
    let begin = scope_begin(dir, servers, domains);
    let empty = Seq::<WrittenModel>::empty();
    assert(empty.reverse() =~= empty);
    assert(undo_all(d, empty.reverse()) == d);
    lemma_scope_run(d, d, begin, results);
}

/// A file the daemon did not write is never overwritten, whatever else
/// happens.
pub proof fn law_foreign_files_are_never_overwritten(
    name: Text,
    plan: PlanModel,
    bytes: Seq<u8>,
)
    requires
        !carries_marker(lossy_text(bytes)),
    ensures
        scope_inspected(name, plan, EntryModel::File(bytes)) is Undo,
        scope_inspected(name, plan, EntryModel::NotRegular) is Undo,
{
}

/// Did the daemon write what stands there, as far as an apply can tell?
pub open spec fn written_by_daemon(file: DiskModel) -> bool {
    match file {
        DiskModel::Regular(bytes) => carries_marker(lossy_text(bytes)),
        _ => false,
    }
}

/// Does what `start` holds under every name that holds something of somebody
/// else's still stand in `d`?
pub open spec fn foreign_kept(start: DirModel, d: DirModel) -> bool {
    forall|name: Text|
        #![trigger d.files.dom().contains(name)]
        start.files.dom().contains(name) && !written_by_daemon(start.files[name])
            ==> d.files.dom().contains(name) && d.files[name] == start.files[name]
}

/// The files of the first `n` domains are written in `d`, and nothing else
/// has changed since `start`.
spec fn written_so_far(
    start: DirModel,
    d: DirModel,
    plan: PlanModel,
    domains: Seq<Text>,
    contents: Text,
) -> bool {
    let done = domains.take(plan.written.len() as int);
    &&& plan.domains == domains
    &&& plan.contents == contents
    &&& plan.written.len() <= domains.len()
    &&& forall|name: Text| #[trigger]
        d.files.dom().contains(name) <==> done.contains(name) || start.files.dom().contains(name)
    &&& forall|name: Text|
        #![trigger d.files[name]]
        d.files.dom().contains(name) ==> d.files[name] == if done.contains(name) {
            DiskModel::Regular(encode_utf8(contents))
        } else {
            start.files[name]
        }
    &&& foreign_kept(start, d)
}

/// What holds at every step of an apply that has not failed.
spec fn progressing(
    start: DirModel,
    d: DirModel,
    step: ScopeModel,
    domains: Seq<Text>,
    contents: Text,
) -> bool {
    match step {
        ScopeModel::Inspect { name, plan } => {
            &&& written_so_far(start, d, plan, domains, contents)
            &&& plan.written.len() < domains.len()
            &&& name == domains[plan.written.len() as int]
        },
        ScopeModel::Write { name, contents: text, prior, plan } => {
            &&& written_so_far(start, d, plan, domains, contents)
            &&& plan.written.len() < domains.len()
            &&& name == domains[plan.written.len() as int]
            &&& text == contents
            &&& !d.files.dom().contains(name) || written_by_daemon(d.files[name])
        },
        ScopeModel::Prune { keep, plan } => {
            &&& written_so_far(start, d, plan, domains, contents)
            &&& plan.written.len() == domains.len()
            &&& keep == domains
        },
        _ => true,
    }
}

proof fn lemma_progress(
    start: DirModel,
    d: DirModel,
    step: ScopeModel,
    domains: Seq<Text>,
    contents: Text,
    results: Seq<Result<(), Text>>,
)
    requires
        progressing(start, d, step, domains, contents),
    ensures
        ({
            let end = scope_run(d, step, results);
            progressing(start, end.0, end.1, domains, contents)
        }),
    decreases results.len(), (if step is Inspect { 1int } else { 0int }),
{
    match step {
        ScopeModel::Inspect { name, plan } => {
            let after = scope_inspected(name, plan, answer(d, name));
            lemma_progress(start, d, after, domains, contents, results);
        },
        ScopeModel::Write { name, contents: text, prior, plan } => {
            if results.len() > 0 {
                let after = scope_wrote(name, prior, plan, results[0]);
                if results[0] is Ok {
                    let n = plan.written.len() as int;
                    let grown = PlanModel {
                        written: plan.written.push(WrittenModel { name, prior }),
                        ..plan
                    };
                    let e = put(d, name, text);
                    assert(domains.take(n + 1) =~= domains.take(n).push(name));
                    assert forall|x: Text| domains.take(n + 1).contains(x) <==> domains.take(
                        n,
                    ).contains(x) || x == name by {
                        let longer = domains.take(n).push(name);
                        if domains.take(n).contains(x) {
                            let i = domains.take(n).index_of(x);
                            assert(longer[i] == x);
                        }
                        if x == name {
                            assert(longer[n] == x);
                        }
                    }
                    assert forall|x: Text| #[trigger]
                        e.files.dom().contains(x) <==> domains.take(n + 1).contains(x)
                            || start.files.dom().contains(x) by {
                        assert(e.files.dom().contains(x) <==> d.files.dom().contains(x) || x
                            == name);
                    }
                    assert(foreign_kept(start, e));
                    assert(grown.written.len() == n + 1);
                    assert forall|x: Text| #![trigger e.files[x]]
                        e.files.dom().contains(x) implies e.files[x] == (if domains.take(
                        n + 1,
                    ).contains(x) {
                        DiskModel::Regular(encode_utf8(contents))
                    } else {
                        start.files[x]
                    }) by {
                        if x != name {
                            assert(d.files.dom().contains(x));
                            assert(e.files[x] == d.files[x]);
                        }
                    }
                    assert(written_so_far(start, e, grown, domains, contents));
                    lemma_progress(start, e, after, domains, contents, results.drop_first());
                } else {
                    lemma_progress(start, d, after, domains, contents, results.drop_first());
                }
            }
        },
        _ => {},
    }
}

/// What a listing of a directory says of one of its names.
pub open spec fn listed(name: Text, file: DiskModel) -> DirEntryModel {
    DirEntryModel {
        name: Some(name),
        regular: file is Regular || file is Locked,
        text: match file {
            DiskModel::Regular(bytes) => utf8_text(bytes),
            _ => None,
        },
    }
}

/// Do the entries list the directory: do they say of every name what stands
/// there, and nothing else? Names that are no text may stand among them.
pub open spec fn lists(d: DirModel, entries: Seq<DirEntryModel>) -> bool {
    &&& forall|name: Text| #[trigger]
        d.files.dom().contains(name) ==> entries.contains(listed(name, d.files[name]))
    &&& forall|i: int|
        0 <= i < entries.len() && (#[trigger] entries[i]).name is Some ==> d.files.dom().contains(
            entries[i].name->0,
        ) && entries[i] == listed(entries[i].name->0, d.files[entries[i].name->0])
}

/// The directory without these names.
pub open spec fn without(d: DirModel, names: Seq<Text>) -> DirModel {
    DirModel { files: d.files.remove_keys(names.to_set()) }
}

/// Are the daemon's files in the directory exactly those of these domains,
/// each naming these servers?
pub open spec fn installed(d: DirModel, servers: Seq<Text>, domains: Seq<Text>) -> bool {
    forall|name: Text|
        {
            &&& domains.contains(name) ==> #[trigger] d.files.dom().contains(name) && d.files[name]
                == DiskModel::Regular(encode_utf8(file_for(servers)))
            &&& d.files.dom().contains(name) && is_ours(listed(name, d.files[name]))
                ==> domains.contains(name)
        }
}

/// Is one of the first `n` entries a file of the daemon's under this name?
pub open spec fn owned(entries: Seq<DirEntryModel>, n: int, name: Text) -> bool {
    exists|i: int|
        0 <= i < n && #[trigger] is_ours(entries[i]) && entries[i].name == Some(name)
}

/// Exactly the daemon's own files are removed, but for those to be kept.
pub proof fn law_exactly_the_own_files_are_removed(
    entries: Seq<DirEntryModel>,
    keep: Option<Seq<Text>>,
    n: int,
    name: Text,
)
    requires
        0 <= n <= entries.len(),
    ensures
        removable(entries, keep, n).contains(name) <==> owned(entries, n, name) && !(keep is Some
            && (keep->0).contains(name)),
    decreases n,
{
    if n > 0 {
        law_exactly_the_own_files_are_removed(entries, keep, n - 1, name);
        let rest = removable(entries, keep, n - 1);
        let all = removable(entries, keep, n);
        let e = entries[n - 1];
        if owned(entries, n - 1, name) {
            let i = choose|i: int|
                0 <= i < n - 1 && #[trigger] is_ours(entries[i]) && entries[i].name == Some(name);
            assert(is_ours(entries[i]));
            assert(owned(entries, n, name));
        }
        if owned(entries, n, name) && !owned(entries, n - 1, name) {
            let i = choose|i: int|
                0 <= i < n && #[trigger] is_ours(entries[i]) && entries[i].name == Some(name);
            assert(i == n - 1);
        }
        if is_ours(e) && e.name == Some(name) {
            assert(owned(entries, n, name));
        }
        if all.len() > rest.len() {
            assert(all.last() == e.name->0);
            if rest.contains(name) {
                assert(all[rest.index_of(name)] == name);
            }
        }
    }
}

/// An apply whose writes succeed, and after which the stale files of any
/// listing of the directory are removed, leaves exactly the files of the
/// wanted domains as the daemon's own, each naming the servers. Whatever
/// somebody else put there is left as it was.
pub proof fn law_successful_apply_installs_exactly_the_domains(
    d: DirModel,
    dir: Text,
    servers: Seq<Text>,
    domains: Seq<Text>,
    results: Seq<Result<(), Text>>,
    entries: Seq<DirEntryModel>,
)
    requires
        scope_run(d, scope_begin(dir, servers, domains), results).1 is Prune,
        lists(scope_run(d, scope_begin(dir, servers, domains), results).0, entries),
    ensures
        ({
            let end = scope_run(d, scope_begin(dir, servers, domains), results);
            let stale = removable(entries, Some(end.1->keep), entries.len() as int);
            let after = without(end.0, stale);
            &&& installed(after, servers, domains)
            &&& foreign_kept(d, after)
        }),
{
    broadcast use vstd::utf8::encode_utf8_valid_utf8;
    broadcast use vstd::utf8::encode_utf8_decode_utf8;

    let begin = scope_begin(dir, servers, domains);
    let contents = file_for(servers);
    assert(domains.take(0) =~= Seq::empty());
    lemma_progress(d, d, begin, domains, contents, results);
    let end = scope_run(d, begin, results);
    assert(domains.take(domains.len() as int) =~= domains);
    let n = entries.len() as int;
    let stale = removable(entries, Some(domains), n);
    let after = without(end.0, stale);
    assert forall|name: Text| #[trigger]
        after.files.dom().contains(name) <==> end.0.files.dom().contains(name) && !stale.contains(
            name,
        ) by {
        assert(stale.to_set().contains(name) <==> stale.contains(name));
    }
    law_written_files_are_managed(servers);
    assert forall|name: Text| #![trigger after.files.dom().contains(name)]
        {
            &&& domains.contains(name) ==> after.files.dom().contains(name) && after.files[name]
                == DiskModel::Regular(encode_utf8(contents))
            &&& after.files.dom().contains(name) && is_ours(listed(name, after.files[name]))
                ==> domains.contains(name)
        } by {
        law_exactly_the_own_files_are_removed(entries, Some(domains), n, name);
        if domains.contains(name) {
            assert(end.0.files.dom().contains(name));
        }
        if after.files.dom().contains(name) && is_ours(listed(name, after.files[name])) {
            assert(end.0.files.dom().contains(name));
            assert(entries.contains(listed(name, end.0.files[name])));
            let i = entries.index_of(listed(name, end.0.files[name]));
            assert(is_ours(entries[i]));
            assert(owned(entries, n, name));
        }
    }
    assert forall|name: Text| #![trigger after.files.dom().contains(name)]
        d.files.dom().contains(name) && !written_by_daemon(d.files[name]) implies
        after.files.dom().contains(name) && after.files[name] == d.files[name] by {
        assert(end.0.files.dom().contains(name));
        law_exactly_the_own_files_are_removed(entries, Some(domains), n, name);
        if owned(entries, n, name) {
            let i = choose|i: int|
                0 <= i < n && #[trigger] is_ours(entries[i]) && entries[i].name == Some(name);
            assert(entries[i].name is Some);
        }
    }
}

/// Removing the daemon's files of any listing of the directory leaves none of
/// them, and everything else as it was.
pub proof fn law_revert_leaves_nothing_behind(
    d: DirModel,
    entries: Seq<DirEntryModel>,
    servers: Seq<Text>,
)
    requires
        lists(d, entries),
    ensures
        ({
            let after = without(d, removable(entries, None, entries.len() as int));
            &&& installed(after, servers, Seq::empty())
            &&& forall|name: Text| #[trigger]
                d.files.dom().contains(name) && !is_ours(listed(name, d.files[name]))
                    ==> after.files.dom().contains(name) && after.files[name] == d.files[name]
        }),
{
    let n = entries.len() as int;
    let stale = removable(entries, None, n);
    let after = without(d, stale);
    assert forall|name: Text| #[trigger]
        after.files.dom().contains(name) <==> d.files.dom().contains(name) && !is_ours(
            listed(name, d.files[name]),
        ) by {
        assert(stale.to_set().contains(name) <==> stale.contains(name));
        law_exactly_the_own_files_are_removed(entries, None, n, name);
        if d.files.dom().contains(name) && is_ours(listed(name, d.files[name])) {
            assert(entries.contains(listed(name, d.files[name])));
            let i = entries.index_of(listed(name, d.files[name]));
            assert(is_ours(entries[i]));
            assert(owned(entries, n, name));
        }
        if owned(entries, n, name) {
            let i = choose|i: int|
                0 <= i < n && #[trigger] is_ours(entries[i]) && entries[i].name == Some(name);
            assert(entries[i].name is Some);
        }
    }
}

proof fn lemma_our_files(entries: Seq<DirEntryModel>, n: int, m: ManagedModel)
    requires
        0 <= n <= entries.len(),
    ensures
        our_files(entries, n).contains(m) <==> exists|i: int|
            0 <= i < n && #[trigger] is_ours(entries[i]) && entries[i].name == Some(m.name)
                && entries[i].text == Some(m.text),
    decreases n,
{
    if n > 0 {
        lemma_our_files(entries, n - 1, m);
        let rest = our_files(entries, n - 1);
        let all = our_files(entries, n);
        let e = entries[n - 1];
        if all.len() > rest.len() {
            assert(all.last() == ManagedModel { name: e.name->0, text: e.text->0 });
            if rest.contains(m) {
                assert(all[rest.index_of(m)] == m);
            }
        }
        if exists|i: int|
            0 <= i < n && #[trigger] is_ours(entries[i]) && entries[i].name == Some(m.name)
                && entries[i].text == Some(m.text) {
            let i = choose|i: int|
                0 <= i < n && #[trigger] is_ours(entries[i]) && entries[i].name == Some(m.name)
                    && entries[i].text == Some(m.text);
            assert(is_ours(entries[i]));
            if i == n - 1 {
                assert(all.last() == m);
            }
        }
        if all.contains(m) && !rest.contains(m) {
            assert(is_ours(e));
        }
    }
}

proof fn lemma_gathered(files: Seq<ManagedModel>, text: Text, n: int)
    requires
        0 <= n <= files.len(),
        in_order(files),
        forall|i: int| 0 <= i < files.len() ==> (#[trigger] files[i]).text == text,
    ensures
        gathered(files, n).default_route is None,
        strictly_ordered(gathered(files, n).domains),
        forall|x: Text|
            gathered(files, n).domains.contains(x) <==> exists|i: int|
                0 <= i < n && (#[trigger] files[i]).name == x,
        n > 0 ==> gathered(files, n).servers == with_servers(
            Seq::empty(),
            lines_of(text),
            lines_of(text).len() as int,
        ),
    decreases n,
{
    if n > 0 {
        lemma_gathered(files, text, n - 1);
        let before = gathered(files, n - 1);
        let after = gathered(files, n);
        let name = files[n - 1].name;
        let lines = lines_of(text);
        if n > 1 {
            lemma_servers_again(Seq::empty(), lines, lines.len() as int);
        }
        assert forall|k: int| 0 <= k < before.domains.len() implies no_later(
            #[trigger] before.domains[k],
            name,
        ) by {
            assert(before.domains.contains(before.domains[k]));
            let i = choose|i: int|
                0 <= i < n - 1 && (#[trigger] files[i]).name == before.domains[k];
            assert(no_later(files[i].name, files[n - 1].name));
        }
        assert(strictly_ordered(after.domains));
        assert forall|x: Text| after.domains.contains(x) <==> exists|i: int|
            0 <= i < n && (#[trigger] files[i]).name == x by {
            if x == name {
                assert(files[n - 1].name == x);
                if !before.domains.contains(x) {
                    assert(after.domains.last() == x);
                }
            } else {
                if before.domains.contains(x) {
                    let i = choose|i: int| 0 <= i < n - 1 && (#[trigger] files[i]).name == x;
                    assert(files[i].name == x);
                    assert(after.domains[before.domains.index_of(x)] == x);
                }
                if exists|i: int| 0 <= i < n && (#[trigger] files[i]).name == x {
                    let i = choose|i: int| 0 <= i < n && (#[trigger] files[i]).name == x;
                    assert(i < n - 1);
                }
            }
        }
    }
}

/// What is installed reads back: the domains are exactly those of the daemon's
/// files, each once and in ascending order, and the servers are those they were written for, each
/// once and in their order.
pub proof fn law_what_is_installed_reads_back(
    d: DirModel,
    servers: Seq<Text>,
    domains: Seq<Text>,
    entries: Seq<DirEntryModel>,
    link: LinkModel,
)
    requires
        installed(d, servers, domains),
        domains.len() > 0,
        forall|k: int| 0 <= k < servers.len() ==> is_word(#[trigger] servers[k]),
        lists(d, entries),
        read_back(entries, link),
    ensures
        strictly_ordered(link.domains),
        forall|x: Text| link.domains.contains(x) <==> domains.contains(x),
        link.servers == with_all_new(Seq::empty(), servers),
        link.default_route is None,
{
    broadcast use vstd::utf8::encode_utf8_valid_utf8;
    broadcast use vstd::utf8::encode_utf8_decode_utf8;
    broadcast use vstd::seq_lib::group_to_multiset_ensures;

    let text = file_for(servers);
    let n = entries.len() as int;
    let ours = our_files(entries, n);
    let ordered = choose|ordered: Seq<ManagedModel>|
        {
            &&& in_order(ordered)
            &&& ordered.to_multiset() == ours.to_multiset()
            &&& link == #[trigger] gathered(ordered, ordered.len() as int)
        };
    law_written_files_are_managed(servers);
    law_a_file_reads_back_its_servers(servers);
    assert forall|m: ManagedModel| #[trigger] ordered.contains(m) <==> ours.contains(m) by {
        assert(ordered.to_multiset().count(m) == ours.to_multiset().count(m));
    }
    assert forall|i: int| 0 <= i < ordered.len() implies (#[trigger] ordered[i]).text == text
        && domains.contains(ordered[i].name) by {
        let m = ordered[i];
        assert(ordered.contains(m));
        lemma_our_files(entries, n, m);
        let k = choose|k: int|
            0 <= k < n && #[trigger] is_ours(entries[k]) && entries[k].name == Some(m.name)
                && entries[k].text == Some(m.text);
        assert(entries[k].name is Some);
        assert(d.files.dom().contains(m.name));
    }
    assert forall|x: Text| domains.contains(x) implies exists|i: int|
        0 <= i < ordered.len() && (#[trigger] ordered[i]).name == x by {
        assert(d.files.dom().contains(x));
        assert(entries.contains(listed(x, d.files[x])));
        let k = entries.index_of(listed(x, d.files[x]));
        assert(is_ours(entries[k]));
        let m = ManagedModel { name: x, text };
        lemma_our_files(entries, n, m);
        assert(ordered.contains(m));
        assert(ordered[ordered.index_of(m)].name == x);
    }
    assert(domains.contains(domains[0]));
    lemma_gathered(ordered, text, ordered.len() as int);
}

proof fn lemma_bad_name(domains: Seq<Text>, i: int)
    requires
        0 <= i <= domains.len(),
    ensures
        i <= bad_name_from(domains, i) <= domains.len(),
        bad_name_from(domains, i) < domains.len() ==> !is_file_name(
            domains[bad_name_from(domains, i)],
        ),
        forall|k: int| i <= k < bad_name_from(domains, i) ==> is_file_name(#[trigger] domains[k]),
    decreases domains.len() - i,
{
    if i < domains.len() && is_file_name(domains[i]) {
        lemma_bad_name(domains, i + 1);
    }
}

/// An apply is refused at once exactly if one of the domains may not be a
/// file's name; else it begins with the first domain, or, without any, with
/// the removal of what is stale.
pub proof fn law_bad_names_are_refused_first(dir: Text, servers: Seq<Text>, domains: Seq<Text>)
    ensures
        (exists|k: int| 0 <= k < domains.len() && !is_file_name(#[trigger] domains[k])) <==> (
        scope_begin(dir, servers, domains) matches ScopeModel::Finished(r) && r is Err),
        (forall|k: int| 0 <= k < domains.len() ==> is_file_name(#[trigger] domains[k])) ==> {
            &&& domains.len() > 0 ==> (scope_begin(dir, servers, domains)
                matches ScopeModel::Inspect { name, .. } && name == domains[0])
            &&& domains.len() == 0 ==> (scope_begin(dir, servers, domains)
                matches ScopeModel::Prune { keep, .. } && keep.len() == 0)
        },
{
    lemma_bad_name(domains, 0);
}

/// Every domain's file is written, one after the other, with the same contents;
/// a failure to write one undoes those written before it, the last first.
pub proof fn law_files_are_written_in_turn(
    name: Text,
    prior: PriorModel,
    plan: PlanModel,
    e: Text,
)
    requires
        plan.written.len() < plan.domains.len(),
    ensures
        ({
            let next = scope_wrote(name, prior, plan, Ok(()));
            let n = plan.written.len() as int;
            &&& n + 1 < plan.domains.len() ==> (next matches ScopeModel::Inspect { name: second, .. }
                && second == plan.domains[n + 1])
            &&& n + 1 == plan.domains.len() ==> (next matches ScopeModel::Prune { keep, .. } && keep
                == plan.domains)
            &&& scope_wrote(name, prior, plan, Err(e)) matches ScopeModel::Undo { actions, .. }
                && actions.len() == n && forall|k: int|
                0 <= k < n ==> #[trigger] actions[k] == plan.written[n - 1 - k]
            &&& scope_pruned(plan, Ok(())) == ScopeModel::Finished(Ok(()))
        }),
{
}

/// A file is the daemon's own exactly if it is a regular file, has a name and
/// a text that could be read, and carries the marker: of anything else,
/// nothing is removed.
pub proof fn law_only_regular_marked_files_are_own(e: DirEntryModel, keep: Option<Seq<Text>>)
    ensures
        !e.regular ==> removable(seq![e], keep, 1).len() == 0,
        e.name is None ==> removable(seq![e], keep, 1).len() == 0,
        e.text is None ==> removable(seq![e], keep, 1).len() == 0,
        e.text matches Some(text) && !carries_marker(text) ==> removable(seq![e], keep, 1).len()
            == 0,
        e.regular && e.name is Some && (e.text matches Some(text) && carries_marker(text))
            ==> removable(seq![e], None, 1) == seq![e.name->0],
{
    reveal_with_fuel(removable, 2);
}

} // verus!
