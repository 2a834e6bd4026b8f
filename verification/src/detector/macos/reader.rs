//! Reading the DNS model from the dynamic store, key by key.

use vstd::prelude::*;
use vstd::string::*;
use crate::detector::macos::parser::{
    array_field, decide, decided, parse_array_field, parse_scalar_field, scalar_field, Detected,
    DnsModel, ServiceDns, ServiceModel, SystemModel,
};
use crate::exec::{output_of, output_or, CommandOutcome, OutcomeModel, Output};
use crate::platform::{ErrorModel, PlatformError};
use crate::text::{
    after_prefix, before_suffix, concat3, has_prefix, last_part, law_lines_end_at_line_feeds,
    law_prefixes_and_suffixes_come_off, law_trimming_takes_off_blanks, lines, lines_of, lossy,
    occurs_at, opt_text, rsplit_once, split_last, starts_with, strip_prefix, strip_suffix, strs,
    texts, trim, trimmed, Text,
};

verus! {

/// The key of the primary network.
pub const GLOBAL_IPV4_KEY: &'static str = "State:/Network/Global/IPv4";

/// The pattern of the services' DNS keys.
pub const SERVICE_DNS_PATTERN: &'static str = "State:/Network/Service/.*/DNS";

/// The key on a row of a listing: what follows the last ` = `, or the row.
pub open spec fn key_on(row: Text) -> Text {
    match split_last(trimmed(row), " = "@) {
        Some((_, key)) => trimmed(key),
        None => trimmed(row),
    }
}

/// The service's id in its DNS key; a key of another shape as a whole.
pub open spec fn id_in(key: Text) -> Text {
    match after_prefix(key, "State:/Network/Service/"@) {
        Some(rest) => match before_suffix(rest, "/DNS"@) {
            Some(id) => id,
            None => key,
        },
        None => key,
    }
}

/// The services' keys on the first `n` rows of a listing.
pub open spec fn keys_on(rows: Seq<Text>, n: int) -> Seq<Text>
    decreases n,
{
    if n <= 0 {
        Seq::empty()
    } else if has_prefix(key_on(rows[n - 1]), "State:/Network/Service/"@) {
        keys_on(rows, n - 1).push(key_on(rows[n - 1]))
    } else {
        keys_on(rows, n - 1)
    }
}

/// The services' keys in a listing.
pub open spec fn keys_in(listing: Text) -> Seq<Text> {
    keys_on(lines_of(listing), lines_of(listing).len() as int)
}

/// The key of one of a service's addresses.
pub open spec fn entity_key(id: Text, v6: bool) -> Text {
    "State:/Network/Service/"@ + id + "/"@ + if v6 {
        "IPv6"@
    } else {
        "IPv4"@
    }
}

/// The key on a row of a `scutil` listing, which shows it as `subKey [n] =
/// <key>`.
pub fn parse_list_key<'a>(row: &'a str) -> (r: &'a str)
    ensures
        r@ == key_on(row@),
{
    let row = trim(row);
    match rsplit_once(row, " = ") {
        Some((_, key)) => trim(key),
        None => row,
    }
}

/// The id of the service in its DNS key. A key of another shape is returned
/// as it is, so that it cannot be taken for a service's id.
pub fn service_id_from_key(key: &str) -> (r: String)
    ensures
        r@ == id_in(key@),
{
    match strip_prefix(key, "State:/Network/Service/") {
        Some(rest) => match strip_suffix(rest, "/DNS") {
            Some(id) => id.to_owned(),
            None => key.to_owned(),
        },
        None => key.to_owned(),
    }
}

/// The script that shows a key.
pub fn scutil_show(key: &str) -> (r: String)
    ensures
        r@ == "show "@ + key@ + "\n"@,
{
    concat3("show ", key, "\n")
}

/// The script that lists the keys of a pattern.
pub fn scutil_list(pattern: &str) -> (r: String)
    ensures
        r@ == "list "@ + pattern@ + "\n"@,
{
    concat3("list ", pattern, "\n")
}

/// What a script of `scutil` that failed is reported as.
pub open spec fn scutil_failure(outcome: OutcomeModel) -> ErrorModel {
    match outcome {
        OutcomeModel::NotRun(e) => e,
        OutcomeModel::Exited { status, stderr, .. } => ErrorModel::CommandFailed(
            "scutil exited with "@ + status + ": "@ + trimmed(stderr),
        ),
    }
}

/// What a script of `scutil` printed, or how it failed. A failure that is
/// only printed is not told from output.
pub fn scutil_output(outcome: CommandOutcome) -> (r: Output)
    ensures
        output_of(r) == output_or(outcome@, scutil_failure(outcome@)),
{
    match outcome {
        CommandOutcome::NotRun(e) => Err(e),
        CommandOutcome::Exited { success, status, stdout, stderr } => if success {
            Ok(lossy(&stdout))
        } else {
            let mut message = concat3("scutil exited with ", status.as_str(), ": ");
            message.append(trim(lossy(&stderr).as_str()));
            Err(PlatformError::CommandFailed(message))
        },
    }
}

/// A read under way.
#[derive(Debug, PartialEq, Eq)]
pub struct ModelReader {
    pub primary_interface: Option<String>,
    pub primary_service: Option<String>,
    /// The keys of the services still to be read.
    pub keys: Vec<String>,
    /// The services read.
    pub services: Vec<ServiceDns>,
}

/// A service whose interface is still to be found.
#[derive(Debug, PartialEq, Eq)]
pub struct PendingService {
    pub service_id: String,
    pub servers: Vec<String>,
    /// The interface its DNS entry names, if any.
    pub dns_interface: Option<String>,
}

/// What a read does next.
#[derive(Debug, PartialEq, Eq)]
pub enum ReadStep {
    /// Show [`GLOBAL_IPV4_KEY`]: [`global_shown`].
    ShowGlobal,
    /// List [`SERVICE_DNS_PATTERN`]: [`services_listed`].
    ListServices { primary_interface: Option<String>, primary_service: Option<String> },
    /// Show this key: [`service_shown`].
    ShowService { key: String, reader: ModelReader },
    /// Show this key: [`entity_shown`].
    ShowEntity { key: String, v6: bool, pending: PendingService, reader: ModelReader },
    Finished(Result<DnsModel, PlatformError>),
}

/// The value of a [`ModelReader`].
pub struct ReaderModel {
    pub primary_interface: Option<Text>,
    pub primary_service: Option<Text>,
    pub keys: Seq<Text>,
    pub services: Seq<ServiceModel>,
}

/// The value of a [`PendingService`].
pub struct PendingModel {
    pub id: Text,
    pub servers: Seq<Text>,
    pub dns_interface: Option<Text>,
}

/// The value of a [`ReadStep`].
pub enum ReadModel {
    ShowGlobal,
    ListServices { primary_interface: Option<Text>, primary_service: Option<Text> },
    ShowService { key: Text, reader: ReaderModel },
    ShowEntity { key: Text, v6: bool, pending: PendingModel, reader: ReaderModel },
    Finished(Result<SystemModel, ErrorModel>),
}

/// The values of a list of services.
pub open spec fn services_of(v: Seq<ServiceDns>) -> Seq<ServiceModel> {
    Seq::new(v.len(), |i: int| v[i]@)
}

impl View for ModelReader {
    type V = ReaderModel;

    open spec fn view(&self) -> ReaderModel {
        ReaderModel {
            primary_interface: opt_text(self.primary_interface),
            primary_service: opt_text(self.primary_service),
            keys: texts(self.keys@),
            services: services_of(self.services@),
        }
    }
}

impl View for PendingService {
    type V = PendingModel;

    open spec fn view(&self) -> PendingModel {
        PendingModel {
            id: self.service_id@,
            servers: texts(self.servers@),
            dns_interface: opt_text(self.dns_interface),
        }
    }
}

impl View for ReadStep {
    type V = ReadModel;

    open spec fn view(&self) -> ReadModel {
        match self {
            ReadStep::ShowGlobal => ReadModel::ShowGlobal,
            ReadStep::ListServices { primary_interface, primary_service } =>
                ReadModel::ListServices {
                primary_interface: opt_text(*primary_interface),
                primary_service: opt_text(*primary_service),
            },
            ReadStep::ShowService { key, reader } => ReadModel::ShowService {
                key: key@,
                reader: reader@,
            },
            ReadStep::ShowEntity { key, v6, pending, reader } => ReadModel::ShowEntity {
                key: key@,
                v6: *v6,
                pending: pending@,
                reader: reader@,
            },
            ReadStep::Finished(r) => ReadModel::Finished(
                match r {
                    Ok(m) => Ok(m@),
                    Err(e) => Err(e@),
                },
            ),
        }
    }
}

/// The next service to read; the model after the last.
pub open spec fn read_next(reader: ReaderModel) -> ReadModel {
    if reader.keys.len() > 0 {
        ReadModel::ShowService {
            key: reader.keys[0],
            reader: ReaderModel { keys: reader.keys.drop_first(), ..reader },
        }
    } else {
        ReadModel::Finished(
            Ok(
                SystemModel {
                    primary_interface: reader.primary_interface,
                    primary_service: reader.primary_service,
                    services: reader.services,
                },
            ),
        )
    }
}

/// Go on with the service at hand, bound to this interface.
pub open spec fn added(
    reader: ReaderModel,
    pending: PendingModel,
    interface: Option<Text>,
) -> ReadModel {
    read_next(
        ReaderModel {
            services: reader.services.push(
                ServiceModel { id: pending.id, interface, servers: pending.servers },
            ),
            ..reader
        },
    )
}

/// The primary network was shown.
pub open spec fn on_global(dump: Result<Text, ErrorModel>) -> ReadModel {
    match dump {
        Err(e) => ReadModel::Finished(Err(e)),
        Ok(text) => ReadModel::ListServices {
            primary_interface: scalar_field(text, "PrimaryInterface"@),
            primary_service: scalar_field(text, "PrimaryService"@),
        },
    }
}

/// The services were listed.
pub open spec fn on_listing(
    primary_interface: Option<Text>,
    primary_service: Option<Text>,
    dump: Result<Text, ErrorModel>,
) -> ReadModel {
    match dump {
        Err(e) => ReadModel::Finished(Err(e)),
        Ok(text) => read_next(
            ReaderModel {
                primary_interface,
                primary_service,
                keys: keys_in(text),
                services: Seq::empty(),
            },
        ),
    }
}

/// A service was shown. A failure ends the read: leaving the service out
/// could make a VPN look down.
pub open spec fn on_service_dump(
    key: Text,
    reader: ReaderModel,
    dump: Result<Text, ErrorModel>,
) -> ReadModel {
    match dump {
        Err(e) => ReadModel::Finished(Err(e)),
        Ok(text) => if array_field(text, "ServerAddresses"@).len() == 0 {
            read_next(reader)
        } else {
            ReadModel::ShowEntity {
                key: entity_key(id_in(key), false),
                v6: false,
                pending: PendingModel {
                    id: id_in(key),
                    servers: array_field(text, "ServerAddresses"@),
                    dns_interface: scalar_field(text, "InterfaceName"@),
                },
                reader,
            }
        },
    }
}

/// One of a service's addresses was shown. Its interface is named there; if
/// by neither, by its DNS entry.
pub open spec fn on_entity(
    v6: bool,
    pending: PendingModel,
    reader: ReaderModel,
    dump: Result<Text, ErrorModel>,
) -> ReadModel {
    let interface = match dump {
        Ok(text) => scalar_field(text, "InterfaceName"@),
        Err(_) => None,
    };
    match interface {
        Some(name) => added(reader, pending, Some(name)),
        None => if !v6 {
            ReadModel::ShowEntity { key: entity_key(pending.id, true), v6: true, pending, reader }
        } else {
            added(reader, pending, pending.dns_interface)
        },
    }
}

/// Begin to read the model.
pub fn read_dns_model() -> (r: ReadStep)
    ensures
        r@ == ReadModel::ShowGlobal,
{
    ReadStep::ShowGlobal
}

fn next(reader: ModelReader) -> (r: ReadStep)
    ensures
        r@ == read_next(reader@),
{
    if reader.keys.len() > 0 {
        let mut reader = reader;
        let ghost all = reader.keys@;
        let key = reader.keys.remove(0);
        assert(texts(reader.keys@) =~= texts(all).drop_first());
        ReadStep::ShowService { key, reader }
    } else {
        let model = DnsModel {
            primary_interface: reader.primary_interface,
            primary_service: reader.primary_service,
            services: reader.services,
        };
        assert(model@.services =~= services_of(reader.services@));
        ReadStep::Finished(Ok(model))
    }
}

/// The primary network was shown, or could not be.
pub fn global_shown(dump: Output) -> (r: ReadStep)
    ensures
        r@ == on_global(output_of(dump)),
{
    match dump {
        Err(e) => ReadStep::Finished(Err(e)),
        Ok(text) => ReadStep::ListServices {
            primary_interface: parse_scalar_field(text.as_str(), "PrimaryInterface"),
            primary_service: parse_scalar_field(text.as_str(), "PrimaryService"),
        },
    }
}

/// The services were listed, or could not be.
pub fn services_listed(
    primary_interface: Option<String>,
    primary_service: Option<String>,
    dump: Output,
) -> (r: ReadStep)
    ensures
        r@ == on_listing(opt_text(primary_interface), opt_text(primary_service), output_of(dump)),
{
    match dump {
        Err(e) => ReadStep::Finished(Err(e)),
        Ok(text) => {
            let rows = lines(text.as_str());
            let ghost all = strs(rows@);
            let mut keys: Vec<String> = Vec::new();
            let mut i: usize = 0;
            proof {
                assert(texts(keys@) =~= Seq::<Text>::empty());
            }
            while i < rows.len()
                invariant
                    i <= rows.len(),
                    all == strs(rows@),
                    texts(keys@) == keys_on(all, i as int),
                decreases rows.len() - i,
            {
                let key = parse_list_key(rows[i]);
                if starts_with(key, "State:/Network/Service/") {
                    let ghost before = keys@;
                    keys.push(key.to_owned());
                    assert(texts(keys@) =~= texts(before).push(key@));
                }
                i += 1;
            }
            let reader = ModelReader {
                primary_interface,
                primary_service,
                keys,
                services: Vec::new(),
            };
            assert(services_of(reader.services@) =~= Seq::<ServiceModel>::empty());
            next(reader)
        },
    }
}

/// A service was shown, or could not be.
pub fn service_shown(key: String, reader: ModelReader, dump: Output) -> (r: ReadStep)
    ensures
        r@ == on_service_dump(key@, reader@, output_of(dump)),
{
    match dump {
        Err(e) => ReadStep::Finished(Err(e)),
        Ok(text) => {
            let servers = parse_array_field(text.as_str(), "ServerAddresses");
            let ghost found = texts(servers@);
            assert(found.len() == servers@.len());
            if servers.len() == 0 {
                next(reader)
            } else {
                let service_id = service_id_from_key(key.as_str());
                let mut entity = concat3("State:/Network/Service/", service_id.as_str(), "/");
                entity.append("IPv4");
                ReadStep::ShowEntity {
                    key: entity,
                    v6: false,
                    pending: PendingService {
                        service_id,
                        servers,
                        dns_interface: parse_scalar_field(text.as_str(), "InterfaceName"),
                    },
                    reader,
                }
            }
        },
    }
}

fn add_service(
    reader: ModelReader,
    pending: PendingService,
    interface_name: Option<String>,
) -> (r: ReadStep)
    ensures
        r@ == added(reader@, pending@, opt_text(interface_name)),
{
    let mut reader = reader;
    let service = ServiceDns {
        service_id: pending.service_id,
        interface_name,
        servers: pending.servers,
    };
    let ghost before = reader.services@;
    reader.services.push(service);
    assert(services_of(reader.services@) =~= services_of(before).push(service@));
    next(reader)
}

/// One of a service's addresses was shown, or could not be.
pub fn entity_shown(
    v6: bool,
    pending: PendingService,
    reader: ModelReader,
    dump: Output,
) -> (r: ReadStep)
    ensures
        r@ == on_entity(v6, pending@, reader@, output_of(dump)),
{
    let interface = match dump {
        Ok(text) => parse_scalar_field(text.as_str(), "InterfaceName"),
        Err(_) => None,
    };
    match interface {
        Some(name) => add_service(reader, pending, Some(name)),
        None => if !v6 {
            let mut entity = concat3("State:/Network/Service/", pending.service_id.as_str(), "/");
            entity.append("IPv6");
            ReadStep::ShowEntity { key: entity, v6: true, pending, reader }
        } else {
            let PendingService { service_id, servers, dns_interface } = pending;
            let none: Option<String> = None;
            add_service(
                reader,
                PendingService { service_id, servers, dns_interface: none },
                dns_interface,
            )
        },
    }
}

/// The verdict over the model, once it is read.
pub fn current_vpn_state(model: Result<DnsModel, PlatformError>) -> (r: Result<
    Detected,
    PlatformError,
>)
    ensures
        match r {
            Ok(d) => model is Ok && d@ == decided((model->Ok_0)@),
            Err(e) => model is Err && e@ == (model->Err_0)@,
        },
{
    match model {
        Ok(m) => Ok(decide(&m)),
        Err(e) => Err(e),
    }
}

// ---------------------------------------------------------------------------
// Laws
// ---------------------------------------------------------------------------

/// A dynamic store: what showing a key, and listing the services, gives.
pub struct StoreModel {
    pub show: spec_fn(Text) -> Result<Text, ErrorModel>,
    pub listing: Result<Text, ErrorModel>,
}

/// The interface a service is bound to, by the store.
pub open spec fn interface_in(store: StoreModel, id: Text, dns_dump: Text) -> Option<Text> {
    let named = |key: Text| match (store.show)(key) {
        Ok(text) => scalar_field(text, "InterfaceName"@),
        Err(_) => None,
    };
    match named(entity_key(id, false)) {
        Some(name) => Some(name),
        None => match named(entity_key(id, true)) {
            Some(name) => Some(name),
            None => scalar_field(dns_dump, "InterfaceName"@),
        },
    }
}

/// The services of the keys that carry resolvers, by the store, after those
/// in `services`; or the first failure to show one.
pub open spec fn services_in(
    store: StoreModel,
    keys: Seq<Text>,
    services: Seq<ServiceModel>,
) -> Result<Seq<ServiceModel>, ErrorModel>
    decreases keys.len(),
{
    if keys.len() == 0 {
        Ok(services)
    } else {
        match (store.show)(keys[0]) {
            Err(e) => Err(e),
            Ok(text) => {
                let servers = array_field(text, "ServerAddresses"@);
                if servers.len() == 0 {
                    services_in(store, keys.drop_first(), services)
                } else {
                    let id = id_in(keys[0]);
                    services_in(
                        store,
                        keys.drop_first(),
                        services.push(
                            ServiceModel { id, interface: interface_in(store, id, text), servers },
                        ),
                    )
                }
            },
        }
    }
}

/// The model a store holds, or why it cannot be read.
pub open spec fn model_in(store: StoreModel) -> Result<SystemModel, ErrorModel> {
    match (store.show)(GLOBAL_IPV4_KEY@) {
        Err(e) => Err(e),
        Ok(global) => match store.listing {
            Err(e) => Err(e),
            Ok(listing) => match services_in(store, keys_in(listing), Seq::empty()) {
                Err(e) => Err(e),
                Ok(services) => Ok(
                    SystemModel {
                        primary_interface: scalar_field(global, "PrimaryInterface"@),
                        primary_service: scalar_field(global, "PrimaryService"@),
                        services,
                    },
                ),
            },
        },
    }
}

/// The step after this one, on this store.
pub open spec fn read_on(store: StoreModel, step: ReadModel) -> ReadModel {
    match step {
        ReadModel::ShowGlobal => on_global((store.show)(GLOBAL_IPV4_KEY@)),
        ReadModel::ListServices { primary_interface, primary_service } => on_listing(
            primary_interface,
            primary_service,
            store.listing,
        ),
        ReadModel::ShowService { key, reader } => on_service_dump(key, reader, (store.show)(key)),
        ReadModel::ShowEntity { key, v6, pending, reader } => on_entity(
            v6,
            pending,
            reader,
            (store.show)(key),
        ),
        ReadModel::Finished(_) => step,
    }
}

/// `n` steps on, on this store.
pub open spec fn read_run(store: StoreModel, step: ReadModel, n: nat) -> ReadModel
    decreases n,
{
    if n == 0 {
        step
    } else {
        read_run(store, read_on(store, step), (n - 1) as nat)
    }
}

/// What reading on from `reader` comes to.
spec fn outcome_from(store: StoreModel, reader: ReaderModel) -> ReadModel {
    ReadModel::Finished(
        match services_in(store, reader.keys, reader.services) {
            Err(e) => Err(e),
            Ok(services) => Ok(
                SystemModel {
                    primary_interface: reader.primary_interface,
                    primary_service: reader.primary_service,
                    services,
                },
            ),
        },
    )
}

proof fn lemma_run_split(store: StoreModel, step: ReadModel, a: nat, b: nat)
    ensures
        read_run(store, read_run(store, step, a), b) == read_run(store, step, a + b),
    decreases a,
{
    if a > 0 {
        lemma_run_split(store, read_on(store, step), (a - 1) as nat, b);
    }
}

proof fn lemma_run_finished(store: StoreModel, step: ReadModel, n: nat)
    requires
        step is Finished,
    ensures
        read_run(store, step, n) == step,
    decreases n,
{
    if n > 0 {
        lemma_run_finished(store, step, (n - 1) as nat);
    }
}

proof fn lemma_services_read(store: StoreModel, reader: ReaderModel)
    ensures
        read_run(store, read_next(reader), 3 * reader.keys.len()) == outcome_from(store, reader),
    decreases reader.keys.len(),
{
    let n = 3 * reader.keys.len();
    if reader.keys.len() == 0 {
        assert(read_next(reader) == outcome_from(store, reader));
    } else {
        let key = reader.keys[0];
        let onward = ReaderModel { keys: reader.keys.drop_first(), ..reader };
        let step = ReadModel::ShowService { key, reader: onward };
        assert(read_next(reader) == step);
        match (store.show)(key) {
            Err(e) => {
                lemma_run_finished(store, ReadModel::Finished(Err(e)), (n - 1) as nat);
            },
            Ok(text) => {
                let servers = array_field(text, "ServerAddresses"@);
                if servers.len() == 0 {
                    lemma_services_read(store, onward);
                    lemma_run_split(store, read_next(onward), (n - 3) as nat, 2);
                    lemma_run_finished(store, outcome_from(store, onward), 2);
                    assert(read_run(store, read_next(onward), (n - 1) as nat) == outcome_from(
                        store,
                        onward,
                    ));
                } else {
                    let id = id_in(key);
                    let pending = PendingModel {
                        id,
                        servers,
                        dns_interface: scalar_field(text, "InterfaceName"@),
                    };
                    let service = ServiceModel {
                        id,
                        interface: interface_in(store, id, text),
                        servers,
                    };
                    let after = ReaderModel {
                        services: reader.services.push(service),
                        ..onward
                    };
                    lemma_services_read(store, after);
                    lemma_run_split(store, read_next(after), (n - 3) as nat, 1);
                    lemma_run_finished(store, outcome_from(store, after), 1);
                    let four = ReadModel::ShowEntity {
                        key: entity_key(id, false),
                        v6: false,
                        pending,
                        reader: onward,
                    };
                    let six = ReadModel::ShowEntity {
                        key: entity_key(id, true),
                        v6: true,
                        pending,
                        reader: onward,
                    };
                    assert(read_run(store, step, n) == read_run(store, four, (n - 1) as nat));
                    let by_four = match (store.show)(entity_key(id, false)) {
                        Ok(text) => scalar_field(text, "InterfaceName"@),
                        Err(_) => None,
                    };
                    if by_four is Some {
                        assert(read_on(store, four) == read_next(after));
                        assert(read_run(store, four, (n - 1) as nat) == read_run(
                            store,
                            read_next(after),
                            (n - 2) as nat,
                        ));
                    } else {
                        assert(read_on(store, four) == six);
                        assert(read_on(store, six) == read_next(after));
                        assert(read_run(store, four, (n - 1) as nat) == read_run(
                            store,
                            six,
                            (n - 2) as nat,
                        ));
                        assert(read_run(store, six, (n - 2) as nat) == read_run(
                            store,
                            read_next(after),
                            (n - 3) as nat,
                        ));
                    }
                }
            },
        }
    }
}

/// Reading a store step by step comes to exactly the model it holds, or to
/// the first failure that matters.
pub proof fn law_reading_gives_the_model(store: StoreModel, n: nat)
    requires
        store.listing matches Ok(listing) ==> n >= 2 + 3 * keys_in(listing).len(),
        n >= 2,
    ensures
        read_run(store, ReadModel::ShowGlobal, n) == ReadModel::Finished(model_in(store)),
{
    match (store.show)(GLOBAL_IPV4_KEY@) {
        Err(e) => {
            lemma_run_finished(store, ReadModel::Finished(Err(e)), (n - 1) as nat);
        },
        Ok(global) => {
            let list = ReadModel::ListServices {
                primary_interface: scalar_field(global, "PrimaryInterface"@),
                primary_service: scalar_field(global, "PrimaryService"@),
            };
            assert(read_run(store, ReadModel::ShowGlobal, n) == read_run(
                store,
                list,
                (n - 1) as nat,
            ));
            match store.listing {
                Err(e) => {
                    lemma_run_finished(store, ReadModel::Finished(Err(e)), (n - 2) as nat);
                },
                Ok(listing) => {
                    let reader = ReaderModel {
                        primary_interface: scalar_field(global, "PrimaryInterface"@),
                        primary_service: scalar_field(global, "PrimaryService"@),
                        keys: keys_in(listing),
                        services: Seq::empty(),
                    };
                    let k = 3 * keys_in(listing).len();
                    lemma_services_read(store, reader);
                    lemma_run_split(store, read_next(reader), k, (n - 2 - k) as nat);
                    lemma_run_finished(store, outcome_from(store, reader), (n - 2 - k) as nat);
                },
            }
        },
    }
}

proof fn lemma_last_part(t: Text, pat: Text, n: int, from: int)
    requires
        0 <= n <= from,
        occurs_at(t, pat, n),
        forall|k: int| n < k <= from ==> !occurs_at(t, pat, k),
    ensures
        last_part(t, pat, from) == n,
    decreases from - n,
{
    if from > n {
        lemma_last_part(t, pat, n, from - 1);
    }
}

/// A row of a listing names the key after its `=`.
pub proof fn law_a_row_names_its_key(head: Text, key: Text)
    requires
        head.len() > 0,
        !crate::text::is_white(head[0]),
        key.len() > 0,
        forall|i: int|
            0 <= i < key.len() ==> !crate::text::is_white(#[trigger] key[i]) && key[i] != '=',
    ensures
        key_on(head + " = "@ + key) == key,
        key_on(key) == key,
{
    let row = head + " = "@ + key;
    reveal_strlit(" = ");
    let n = head.len() as int;
    assert(row[0] == head[0]);
    assert(!crate::text::is_white(key[key.len() - 1]));
    assert(row.last() == key.last());
    law_trimming_takes_off_blanks(' ', row);
    assert(row.subrange(n, n + 3) =~= " = "@);
    assert forall|k: int| n < k <= row.len() - 3 implies !occurs_at(row, " = "@, k) by {
        if occurs_at(row, " = "@, k) {
            assert(row.subrange(k, k + 3)[1] == row[k + 1]);
            assert(row.subrange(k, k + 3)[0] == row[k]);
            assert(row[k + 1] == '=');
            if k + 1 >= n + 3 {
                assert(key[k + 1 - n - 3] == '=');
            } else {
                assert(row[n + 1] == '=' && row[n + 2] == ' ');
            }
        }
    }
    lemma_last_part(row, " = "@, n, row.len() - 3);
    assert(row.subrange(n + 3, row.len() as int) =~= key);
    assert(!crate::text::is_white(key[0]));
    law_trimming_takes_off_blanks(' ', key);
    assert forall|k: int| !occurs_at(key, " = "@, k) by {
        if occurs_at(key, " = "@, k) {
            assert(key.subrange(k, k + 3)[1] == key[k + 1]);
        }
    }
    lemma_no_part(key, " = "@, key.len() - 3);
}

proof fn lemma_no_part(t: Text, pat: Text, from: int)
    requires
        forall|k: int| !occurs_at(t, pat, k),
    ensures
        last_part(t, pat, from) == -1,
    decreases from + 1,
{
    if from >= 0 {
        lemma_no_part(t, pat, from - 1);
    }
}

/// The service in a DNS key is what stands between its two ends.
pub proof fn law_a_key_names_its_service(id: Text)
    ensures
        id_in("State:/Network/Service/"@ + (id + "/DNS"@)) == id,
        entity_key(id, false) == "State:/Network/Service/"@ + id + "/IPv4"@,
        entity_key(id, true) == "State:/Network/Service/"@ + id + "/IPv6"@,
        GLOBAL_IPV4_KEY@ == "State:/Network/Global/IPv4"@,
        SERVICE_DNS_PATTERN@ == "State:/Network/Service/.*/DNS"@,
{
    law_prefixes_and_suffixes_come_off("State:/Network/Service/"@, id + "/DNS"@);
    law_prefixes_and_suffixes_come_off("/DNS"@, id);
    reveal_strlit("/");
    reveal_strlit("IPv4");
    reveal_strlit("IPv6");
    reveal_strlit("/IPv4");
    reveal_strlit("/IPv6");
    let head = "State:/Network/Service/"@ + id;
    assert(head + "/"@ + "IPv4"@ =~= head + "/IPv4"@);
    assert(head + "/"@ + "IPv6"@ =~= head + "/IPv6"@);
}

proof fn lemma_keys_first(row: Text, rest: Seq<Text>, n: int)
    requires
        0 <= n <= rest.len(),
    ensures
        keys_on(seq![row] + rest, n + 1) == (if has_prefix(
            key_on(row),
            "State:/Network/Service/"@,
        ) {
            seq![key_on(row)]
        } else {
            Seq::empty()
        }) + keys_on(rest, n),
    decreases n,
{
    let all = seq![row] + rest;
    let first = if has_prefix(key_on(row), "State:/Network/Service/"@) {
        seq![key_on(row)]
    } else {
        Seq::empty()
    };
    if n > 0 {
        lemma_keys_first(row, rest, n - 1);
        assert(all[n] == rest[n - 1]);
        let b = keys_on(rest, n - 1);
        assert((first + b).push(key_on(rest[n - 1])) =~= first + b.push(key_on(rest[n - 1])));
    } else {
        reveal_with_fuel(keys_on, 2);
        assert(all[0] == row);
        assert(keys_on(all, 1) =~= first + keys_on(rest, 0));
    }
}

/// A listing is read row by row: every row that names a service's key counts,
/// in order, and no other.
pub proof fn law_a_listing_is_read_row_by_row(row: Text, rest: Text)
    requires
        forall|k: int| 0 <= k < row.len() ==> row[k] != '\n',
        row.len() > 0 ==> row.last() != '\r',
    ensures
        keys_in(row.push('\n') + rest) == (if has_prefix(
            key_on(row),
            "State:/Network/Service/"@,
        ) {
            seq![key_on(row)]
        } else {
            Seq::empty()
        }) + keys_in(rest),
        keys_in(Seq::empty()).len() == 0,
{
    law_lines_end_at_line_feeds(row, rest);
    law_lines_end_at_line_feeds(Seq::empty(), rest);
    lemma_keys_first(row, lines_of(rest), lines_of(rest).len() as int);
}

/// Is the service the one under this key, with all the servers its entry
/// names?
pub open spec fn is_read_from(store: StoreModel, key: Text, service: ServiceModel) -> bool {
    (store.show)(key) matches Ok(text) && {
        &&& service.id == id_in(key)
        &&& service.servers == array_field(text, "ServerAddresses"@)
        &&& service.servers.len() > 0
        &&& service.interface == interface_in(store, id_in(key), text)
    }
}

/// Is the service the one under one of these keys?
pub open spec fn is_under_a_key(store: StoreModel, keys: Seq<Text>, service: ServiceModel) -> bool {
    exists|j: int| 0 <= j < keys.len() && #[trigger] is_read_from(store, keys[j], service)
}

/// Every listed service whose entry names servers is read, with all of them;
/// one that names none is left out, and nothing else is read. An entry that
/// cannot be read fails the whole.
pub proof fn law_every_service_with_servers_is_read(
    store: StoreModel,
    keys: Seq<Text>,
    done: Seq<ServiceModel>,
    k: int,
)
    requires
        0 <= k < keys.len(),
    ensures
        (store.show)(keys[k]) is Err ==> services_in(store, keys, done) is Err,
        services_in(store, keys, done) matches Ok(all) ==> {
            &&& all.len() >= done.len() && all.take(done.len() as int) == done
            &&& (store.show)(keys[k]) matches Ok(text) && (array_field(
                text,
                "ServerAddresses"@,
            ).len() > 0 ==> exists|i: int|
                done.len() <= i < all.len() && is_read_from(store, keys[k], #[trigger] all[i]))
            &&& forall|i: int|
                done.len() <= i < all.len() ==> is_under_a_key(store, keys, #[trigger] all[i])
        },
    decreases keys.len(),
{
    let rest = keys.drop_first();
    if let Ok(text) = (store.show)(keys[0]) {
        let servers = array_field(text, "ServerAddresses"@);
        let id = id_in(keys[0]);
        let service = ServiceModel { id, interface: interface_in(store, id, text), servers };
        let next = if servers.len() == 0 {
            done
        } else {
            done.push(service)
        };
        assert(services_in(store, keys, done) == services_in(store, rest, next));
        if rest.len() > 0 {
            let r = if k > 0 {
                k - 1
            } else {
                0
            };
            law_every_service_with_servers_is_read(store, rest, next, r);
            assert(k > 0 ==> rest[r] == keys[k]);
        }
        if let Ok(all) = services_in(store, keys, done) {
            assert(all.take(next.len() as int) == next);
            assert(all.take(done.len() as int) =~= done) by {
                assert forall|i: int| 0 <= i < done.len() implies all[i] == done[i] by {
                    assert(all.take(next.len() as int)[i] == next[i]);
                }
            }
            if servers.len() > 0 {
                let n = done.len() as int;
                assert(all.take(next.len() as int)[n] == next[n]);
                assert(all[n] == service);
                assert(is_read_from(store, keys[0], all[n]));
            }
            assert forall|i: int| done.len() <= i < all.len() implies is_under_a_key(
                store,
                keys,
                #[trigger] all[i],
            ) by {
                if i < next.len() {
                    assert(is_read_from(store, keys[0], all[i]));
                } else {
                    assert(is_under_a_key(store, rest, all[i]));
                    let j = choose|j: int|
                        0 <= j < rest.len() && #[trigger] is_read_from(store, rest[j], all[i]);
                    assert(rest[j] == keys[j + 1]);
                    assert(is_read_from(store, keys[j + 1], all[i]));
                }
            }
            if k > 0 {
                assert((store.show)(rest[k - 1]) == (store.show)(keys[k]));
            }
        }
    }
}

/// A service is bound to the interface its IPv4 entry names, else its IPv6
/// entry, else its DNS entry; the primary interface and service are those the
/// global entry names.
pub proof fn law_the_first_entry_names_the_interface(
    store: StoreModel,
    id: Text,
    dns: Text,
    four: Text,
    six: Text,
)
    requires
        (store.show)("State:/Network/Service/"@ + id + "/IPv4"@) == Ok::<Text, ErrorModel>(four),
        (store.show)("State:/Network/Service/"@ + id + "/IPv6"@) == Ok::<Text, ErrorModel>(six),
    ensures
        interface_in(store, id, dns) == if scalar_field(four, "InterfaceName"@) is Some {
            scalar_field(four, "InterfaceName"@)
        } else if scalar_field(six, "InterfaceName"@) is Some {
            scalar_field(six, "InterfaceName"@)
        } else {
            scalar_field(dns, "InterfaceName"@)
        },
        model_in(store) matches Ok(m) ==> ((store.show)("State:/Network/Global/IPv4"@) matches Ok(
            global,
        ) && m.primary_interface == scalar_field(global, "PrimaryInterface"@) && m.primary_service
            == scalar_field(global, "PrimaryService"@)),
{
    law_a_key_names_its_service(id);
}

} // verus!
