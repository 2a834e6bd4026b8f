//! Finding the resolvers a VPN pushed, through `nmcli`.
//!
//! They are on the device itself, or on the one active VPN connection. Both
//! may lag behind the device's state, so an empty result is looked at again a
//! few times.

use vstd::prelude::*;
use crate::detector::linux::parser::{
    active_vpns, extract_dns_from_nmcli, nmcli_dns, parse_active_vpn_uuids,
};
use crate::exec::{arguments, output_of, output_or, output_unless, CommandOutcome, Output};
use crate::platform::{ErrorModel, InfoModel, PlatformError, VpnInfo};
use crate::text::{concat3, texts, Text};

verus! {

/// How often the resolvers are looked for.
pub const SETTLE_ATTEMPTS: u32 = 4;

/// How long to wait between two looks, in milliseconds.
pub const SETTLE_DELAY_MS: u64 = 300;

/// What a discovery does next.
#[derive(Debug, PartialEq, Eq)]
pub enum DiscoverStep {
    /// Show the device: [`device_shown`].
    DeviceShow { attempt: u32 },
    /// List the active connections: [`active_listed`].
    ActiveConnections { attempt: u32 },
    /// Show this connection: [`connection_shown`].
    ConnectionShow { uuid: String, attempt: u32 },
    /// Wait for [`SETTLE_DELAY_MS`]: [`settled`].
    Settle { attempt: u32 },
    Finished(Result<Vec<String>, PlatformError>),
}

/// The value of a [`DiscoverStep`].
pub enum DiscoverModel {
    DeviceShow { attempt: u32 },
    ActiveConnections { attempt: u32 },
    ConnectionShow { uuid: Text, attempt: u32 },
    Settle { attempt: u32 },
    Finished(Result<Seq<Text>, ErrorModel>),
}

impl View for DiscoverStep {
    type V = DiscoverModel;

    open spec fn view(&self) -> DiscoverModel {
        match self {
            DiscoverStep::DeviceShow { attempt } => DiscoverModel::DeviceShow { attempt: *attempt },
            DiscoverStep::ActiveConnections { attempt } => DiscoverModel::ActiveConnections {
                attempt: *attempt,
            },
            DiscoverStep::ConnectionShow { uuid, attempt } => DiscoverModel::ConnectionShow {
                uuid: uuid@,
                attempt: *attempt,
            },
            DiscoverStep::Settle { attempt } => DiscoverModel::Settle { attempt: *attempt },
            DiscoverStep::Finished(r) => DiscoverModel::Finished(
                match r {
                    Ok(v) => Ok(texts(v@)),
                    Err(e) => Err(e@),
                },
            ),
        }
    }
}

/// A look that found nothing: wait and look again, or give up.
pub open spec fn nothing_found(attempt: u32) -> DiscoverModel {
    if attempt < SETTLE_ATTEMPTS {
        DiscoverModel::Settle { attempt }
    } else {
        DiscoverModel::Finished(Ok(Seq::empty()))
    }
}

/// The device was shown. Only this decides whether the VPN is up at all.
pub open spec fn on_device(attempt: u32, output: Result<Text, ErrorModel>) -> DiscoverModel {
    match output {
        Err(e) => DiscoverModel::Finished(Err(e)),
        Ok(text) => if nmcli_dns(text).len() > 0 {
            DiscoverModel::Finished(Ok(nmcli_dns(text)))
        } else {
            DiscoverModel::ActiveConnections { attempt }
        },
    }
}

/// The active connections were listed. Only a single VPN among them can be
/// taken to belong to the device.
pub open spec fn on_active(attempt: u32, output: Result<Text, ErrorModel>) -> DiscoverModel {
    match output {
        Err(_) => nothing_found(attempt),
        Ok(text) => if active_vpns(text).len() == 1 {
            DiscoverModel::ConnectionShow { uuid: active_vpns(text)[0], attempt }
        } else {
            nothing_found(attempt)
        },
    }
}

/// The VPN connection was shown.
pub open spec fn on_connection(attempt: u32, output: Result<Text, ErrorModel>) -> DiscoverModel {
    match output {
        Err(_) => nothing_found(attempt),
        Ok(text) => if nmcli_dns(text).len() > 0 {
            DiscoverModel::Finished(Ok(nmcli_dns(text)))
        } else {
            nothing_found(attempt)
        },
    }
}

/// The wait is over.
pub open spec fn on_settled(attempt: u32) -> DiscoverModel {
    if attempt < SETTLE_ATTEMPTS {
        DiscoverModel::DeviceShow { attempt: (attempt + 1) as u32 }
    } else {
        DiscoverModel::Finished(Ok(Seq::empty()))
    }
}

/// The arguments of `nmcli` that show a device.
pub fn device_arguments(interface: &str) -> (r: Vec<String>)
    ensures
        texts(r@) == seq!["device"@, "show"@, interface@],
{
    let mut name: Vec<String> = Vec::new();
    name.push(interface.to_owned());
    let args = arguments("device", "show", &name);
    assert(texts(args@) =~= seq!["device"@, "show"@, interface@]);
    args
}

/// The arguments of `nmcli` that list the active connections.
pub fn active_arguments() -> (r: Vec<String>)
    ensures
        texts(r@) == seq![
            "-t"@,
            "-f"@,
            "UUID,TYPE,STATE"@,
            "connection"@,
            "show"@,
            "--active"@,
        ],
{
    let mut rest: Vec<String> = Vec::new();
    rest.push("UUID,TYPE,STATE".to_owned());
    rest.push("connection".to_owned());
    rest.push("show".to_owned());
    rest.push("--active".to_owned());
    let args = arguments("-t", "-f", &rest);
    assert(texts(args@) =~= seq![
        "-t"@,
        "-f"@,
        "UUID,TYPE,STATE"@,
        "connection"@,
        "show"@,
        "--active"@,
    ]);
    args
}

/// The arguments of `nmcli` that show a connection.
pub fn connection_arguments(uuid: &str) -> (r: Vec<String>)
    ensures
        texts(r@) == seq!["connection"@, "show"@, uuid@],
{
    let mut name: Vec<String> = Vec::new();
    name.push(uuid.to_owned());
    let args = arguments("connection", "show", &name);
    assert(texts(args@) =~= seq!["connection"@, "show"@, uuid@]);
    args
}

/// What showing a device gave. Without success, there is no such device.
pub fn device_output(interface: &str, outcome: CommandOutcome) -> (r: Output)
    ensures
        output_of(r) == output_or(outcome@, ErrorModel::VpnNotFound(interface@)),
{
    output_unless(outcome, PlatformError::VpnNotFound(interface.to_owned()))
}

/// What listing the active connections gave.
pub fn active_output(outcome: CommandOutcome) -> (r: Output)
    ensures
        output_of(r) == output_or(
            outcome@,
            ErrorModel::CommandFailed("nmcli connection show --active failed"@),
        ),
{
    output_unless(
        outcome,
        PlatformError::CommandFailed("nmcli connection show --active failed".to_owned()),
    )
}

/// What showing a connection gave.
pub fn connection_output(uuid: &str, outcome: CommandOutcome) -> (r: Output)
    ensures
        output_of(r) == output_or(
            outcome@,
            ErrorModel::CommandFailed("nmcli connection show "@ + uuid@ + " failed"@),
        ),
{
    output_unless(
        outcome,
        PlatformError::CommandFailed(concat3("nmcli connection show ", uuid, " failed")),
    )
}

/// Begin to look for the resolvers of a VPN's device.
pub fn discover_dns() -> (r: DiscoverStep)
    ensures
        r@ == (DiscoverModel::DeviceShow { attempt: 1 }),
{
    DiscoverStep::DeviceShow { attempt: 1 }
}

fn nothing(attempt: u32) -> (r: DiscoverStep)
    ensures
        r@ == nothing_found(attempt),
{
    if attempt < SETTLE_ATTEMPTS {
        DiscoverStep::Settle { attempt }
    } else {
        let none: Vec<String> = Vec::new();
        assert(texts(none@) =~= Seq::<Text>::empty());
        DiscoverStep::Finished(Ok(none))
    }
}

/// The device was shown, or could not be.
pub fn device_shown(attempt: u32, output: Output) -> (r: DiscoverStep)
    ensures
        r@ == on_device(attempt, output_of(output)),
{
    match output {
        Err(e) => DiscoverStep::Finished(Err(e)),
        Ok(text) => {
            let dns = extract_dns_from_nmcli(text.as_str());
            let ghost found = texts(dns@);
            if dns.len() > 0 {
                DiscoverStep::Finished(Ok(dns))
            } else {
                assert(found.len() == 0);
                DiscoverStep::ActiveConnections { attempt }
            }
        },
    }
}

/// The active connections were listed, or could not be.
pub fn active_listed(attempt: u32, output: Output) -> (r: DiscoverStep)
    ensures
        r@ == on_active(attempt, output_of(output)),
{
    match output {
        Err(_) => nothing(attempt),
        Ok(text) => {
            let uuids = parse_active_vpn_uuids(text.as_str());
            let ghost found = texts(uuids@);
            assert(found.len() == uuids@.len());
            if uuids.len() == 1 {
                let uuid = uuids[0].clone();
                assert(found[0] == uuid@);
                DiscoverStep::ConnectionShow { uuid, attempt }
            } else {
                nothing(attempt)
            }
        },
    }
}

/// The VPN connection was shown, or could not be.
pub fn connection_shown(attempt: u32, output: Output) -> (r: DiscoverStep)
    ensures
        r@ == on_connection(attempt, output_of(output)),
{
    match output {
        Err(_) => nothing(attempt),
        Ok(text) => {
            let dns = extract_dns_from_nmcli(text.as_str());
            let ghost found = texts(dns@);
            assert(found.len() == dns@.len());
            if dns.len() > 0 {
                DiscoverStep::Finished(Ok(dns))
            } else {
                nothing(attempt)
            }
        },
    }
}

/// The wait is over.
pub fn settled(attempt: u32) -> (r: DiscoverStep)
    ensures
        r@ == on_settled(attempt),
{
    if attempt < SETTLE_ATTEMPTS {
        DiscoverStep::DeviceShow { attempt: attempt + 1 }
    } else {
        let none: Vec<String> = Vec::new();
        assert(texts(none@) =~= Seq::<Text>::empty());
        DiscoverStep::Finished(Ok(none))
    }
}

/// What is known of an active VPN once its resolvers are looked for.
pub open spec fn detected(interface: Text, found: Result<Seq<Text>, ErrorModel>) -> Result<
    InfoModel,
    ErrorModel,
> {
    match found {
        Ok(dns) => Ok(InfoModel { interface, dns, demote: None }),
        Err(e) => Err(e),
    }
}

/// What is known of an active VPN once its resolvers are looked for: none
/// found is no failure, and the default resolver is not taken over.
pub fn detect(interface: &str, found: Result<Vec<String>, PlatformError>) -> (r: Result<
    VpnInfo,
    PlatformError,
>)
    ensures
        match found {
            Ok(servers) => r is Ok && (r->Ok_0)@ == (InfoModel {
                interface: interface@,
                dns: texts(servers@),
                demote: None,
            }),
            Err(e) => r is Err && (r->Err_0)@ == e@,
        },
        detected(
            interface@,
            match found {
                Ok(servers) => Ok(texts(servers@)),
                Err(e) => Err(e@),
            },
        ) == match r {
            Ok(info) => Ok(info@),
            Err(e) => Err(e@),
        },
{
    match found {
        Ok(dns_servers) => Ok(
            VpnInfo { interface_name: interface.to_owned(), dns_servers, demote_target: None },
        ),
        Err(e) => Err(e),
    }
}

/// How many effects a discovery may still ask for.
pub open spec fn effects_left(step: DiscoverModel) -> int {
    match step {
        DiscoverModel::DeviceShow { attempt } => 4 * (SETTLE_ATTEMPTS - attempt) + 3,
        DiscoverModel::ActiveConnections { attempt } => 4 * (SETTLE_ATTEMPTS - attempt) + 2,
        DiscoverModel::ConnectionShow { uuid, attempt } => 4 * (SETTLE_ATTEMPTS - attempt) + 1,
        DiscoverModel::Settle { attempt } => 4 * (SETTLE_ATTEMPTS - attempt),
        DiscoverModel::Finished(_) => 0,
    }
}

/// Is the step one of the allowed number of attempts?
pub open spec fn within_budget(step: DiscoverModel) -> bool {
    match step {
        DiscoverModel::DeviceShow { attempt } => 1 <= attempt <= SETTLE_ATTEMPTS,
        DiscoverModel::ActiveConnections { attempt } => 1 <= attempt <= SETTLE_ATTEMPTS,
        DiscoverModel::ConnectionShow { uuid, attempt } => 1 <= attempt <= SETTLE_ATTEMPTS,
        DiscoverModel::Settle { attempt } => 1 <= attempt < SETTLE_ATTEMPTS,
        DiscoverModel::Finished(_) => true,
    }
}

/// Discovery ends: every outcome leaves fewer effects to perform, and no look
/// goes beyond the allowed number of attempts. The waits add up to less than
/// a second.
pub proof fn law_discovery_is_bounded(attempt: u32, uuid: Text, output: Result<Text, ErrorModel>)
    requires
        1 <= attempt <= SETTLE_ATTEMPTS,
    ensures
        within_budget(on_device(attempt, output)),
        effects_left(on_device(attempt, output)) < effects_left(
            DiscoverModel::DeviceShow { attempt },
        ),
        within_budget(on_active(attempt, output)),
        effects_left(on_active(attempt, output)) < effects_left(
            DiscoverModel::ActiveConnections { attempt },
        ),
        within_budget(on_connection(attempt, output)),
        effects_left(on_connection(attempt, output)) < effects_left(
            DiscoverModel::ConnectionShow { uuid, attempt },
        ),
        attempt < SETTLE_ATTEMPTS ==> within_budget(on_settled(attempt)) && effects_left(
            on_settled(attempt),
        ) < effects_left(DiscoverModel::Settle { attempt }),
        (SETTLE_ATTEMPTS - 1) * SETTLE_DELAY_MS <= 1000,
{
}

/// A failure to read the connections never counts as the VPN being down:
/// discovery fails only when the device itself cannot be shown.
pub proof fn law_only_the_device_decides(attempt: u32, e: ErrorModel)
    ensures
        on_device(attempt, Err(e)) == DiscoverModel::Finished(Err(e)),
        forall|out: Result<Text, ErrorModel>|
            !((#[trigger] on_active(attempt, out)) matches DiscoverModel::Finished(Err(_))),
        forall|out: Result<Text, ErrorModel>|
            !((#[trigger] on_connection(attempt, out)) matches DiscoverModel::Finished(Err(_))),
{
}

/// The resolvers on the device are what is found; if it has none, those of the
/// one active VPN connection are. Nothing found is looked for again, four
/// times in all, and then is nothing.
pub proof fn law_resolvers_are_looked_for_in_order(attempt: u32, text: Text, e: ErrorModel)
    requires
        1 <= attempt <= 4,
    ensures
        nmcli_dns(text).len() > 0 ==> on_device(attempt, Ok(text)) == DiscoverModel::Finished(
            Ok(nmcli_dns(text)),
        ),
        nmcli_dns(text).len() == 0 ==> on_device(attempt, Ok(text)) == (
        DiscoverModel::ActiveConnections { attempt }),
        active_vpns(text).len() == 1 ==> on_active(attempt, Ok(text)) == (
        DiscoverModel::ConnectionShow { uuid: active_vpns(text)[0], attempt }),
        nmcli_dns(text).len() > 0 ==> on_connection(attempt, Ok(text)) == DiscoverModel::Finished(
            Ok(nmcli_dns(text)),
        ),
        forall|step: DiscoverModel|
            (step == on_active(attempt, Err(e)) || step == on_connection(attempt, Err(e)) || (
            active_vpns(text).len() != 1 && step == on_active(attempt, Ok(text))) || (nmcli_dns(
                text,
            ).len() == 0 && step == on_connection(attempt, Ok(text)))) ==> #[trigger] looks_again(
                step,
                attempt,
            ),
        attempt < 4 ==> on_settled(attempt) == (DiscoverModel::DeviceShow {
            attempt: (attempt + 1) as u32,
        }),
{
}

/// Is this to wait and look again, or, the fourth time, to have found nothing?
pub open spec fn looks_again(step: DiscoverModel, attempt: u32) -> bool {
    &&& attempt < 4 ==> step == (DiscoverModel::Settle { attempt })
    &&& attempt >= 4 ==> step == DiscoverModel::Finished(Ok(Seq::empty()))
}

/// All the resolvers that were found are known of the VPN, also if there are
/// none, and nothing but a failure to look is a failure.
pub proof fn law_all_that_was_found_is_known(interface: Text, dns: Seq<Text>, e: ErrorModel)
    ensures
        detected(interface, Ok(dns)) matches Ok(info) && info.interface == interface && info.dns
            == dns && info.demote is None,
        detected(interface, Err(e)) == Err::<InfoModel, ErrorModel>(e),
{
}

} // verus!
