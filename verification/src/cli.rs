//! What the command-line client prints.

use vstd::prelude::*;
use vstd::string::*;
use crate::config::VpnBackend;
use crate::text::{
    concat2, concat3, copy_texts, has_part, join, joined, law_a_text_holds_its_parts, same_text,
    texts, Text,
};
use crate::wire::{
    ConfigView, ConfigViewModel, DomainCheckInfo, DomainCheckModel, DriftModel, DriftVerdict,
    InterfaceInfo, InterfaceModel, ResolutionModel, Response, ResponseModel, StatusInfo,
    StatusModel, VerifyInfo, VerifyModel,
};

verus! {

/// Lines to print.
#[derive(Debug, PartialEq, Eq)]
pub struct Printout {
    pub lines: Vec<String>,
    /// Whether they are an error's.
    pub is_error: bool,
}

/// The parts of a status that are put in words elsewhere.
#[derive(Debug, PartialEq, Eq)]
pub struct StatusLabels {
    pub routing: String,
    pub applied: String,
    pub detector: String,
}

/// The value of [`StatusLabels`].
pub struct LabelsModel {
    pub routing: Text,
    pub applied: Text,
    pub detector: Text,
}

impl View for StatusLabels {
    type V = LabelsModel;

    open spec fn view(&self) -> LabelsModel {
        LabelsModel {
            routing: self.routing@,
            applied: self.applied@,
            detector: self.detector@,
        }
    }
}

/// The truth value in words.
pub open spec fn yes_no(b: bool) -> Text {
    if b {
        "true"@
    } else {
        "false"@
    }
}

/// The list on one line; a note if it is empty.
pub open spec fn listed(list: Seq<Text>) -> Text {
    if list.len() == 0 {
        "(none)"@
    } else {
        joined(list, ", "@)
    }
}

fn bool_text(b: bool) -> (r: &'static str)
    ensures
        r@ == yes_no(b),
{
    if b {
        "true"
    } else {
        "false"
    }
}

fn list_text(list: &Vec<String>) -> (r: String)
    ensures
        r@ == listed(texts(list@)),
{
    let ghost all = texts(list@);
    assert(all.len() == list@.len());
    if list.len() == 0 {
        "(none)".to_owned()
    } else {
        join(list, ", ")
    }
}

fn push_line(out: &mut Vec<String>, label: &str, value: &str)
    ensures
        texts(final(out)@) == texts(old(out)@).push(label@ + value@),
{
    let ghost before = out@;
    let line = concat2(label, value);
    out.push(line);
    assert(texts(out@) =~= texts(before).push(line@));
}

fn push_all(out: &mut Vec<String>, more: Vec<String>)
    ensures
        texts(final(out)@) == texts(old(out)@) + texts(more@),
{
    let ghost before = out@;
    let mut more = more;
    let ghost added = more@;
    out.append(&mut more);
    assert(texts(out@) =~= texts(before) + texts(added));
}

impl VpnBackend {
    /// The backend's name in the configuration.
    pub fn as_str(&self) -> (r: &'static str)
        ensures
            r@ == backend_name(*self),
    {
        match self {
            VpnBackend::NetworkManager => "network-manager",
            VpnBackend::OpenVpn => "openvpn",
        }
    }
}

/// The backend's name in the configuration.
pub open spec fn backend_name(b: VpnBackend) -> Text {
    match b {
        VpnBackend::NetworkManager => "network-manager"@,
        VpnBackend::OpenVpn => "openvpn"@,
    }
}

// ---------------------------------------------------------------------------
// Status
// ---------------------------------------------------------------------------

/// The lines of a status; `detected` adds the resolvers the interface exposes.
pub open spec fn status_lines(info: StatusModel, labels: LabelsModel, detected: bool) -> Seq<Text> {
    seq![
        "enabled:   "@ + yes_no(info.enabled),
        "interface: "@ + info.interface,
        "vpn_up:    "@ + yes_no(info.vpn_up),
        "routing:   "@ + labels.routing,
        "applied:   "@ + if info.applied is Some {
            labels.applied
        } else {
            "(none)"@
        },
    ] + (if detected {
        seq!["detected:  "@ + listed(info.detected_dns)]
    } else {
        Seq::empty()
    }) + seq!["detector:  "@ + labels.detector, "domains:   "@ + listed(info.domains)]
}

/// The lines of a status.
pub fn status(info: &StatusInfo, labels: &StatusLabels, detected: bool) -> (r: Vec<String>)
    ensures
        texts(r@) == status_lines(info@, labels@, detected),
{
    let mut out: Vec<String> = Vec::new();
    assert(texts(out@) =~= Seq::<Text>::empty());
    push_line(&mut out, "enabled:   ", bool_text(info.enabled));
    push_line(&mut out, "interface: ", info.interface.as_str());
    push_line(&mut out, "vpn_up:    ", bool_text(info.vpn_up));
    push_line(&mut out, "routing:   ", labels.routing.as_str());
    let applied = if info.applied.is_some() {
        labels.applied.as_str()
    } else {
        "(none)"
    };
    push_line(&mut out, "applied:   ", applied);
    if detected {
        push_line(&mut out, "detected:  ", list_text(&info.detected_dns).as_str());
    }
    push_line(&mut out, "detector:  ", labels.detector.as_str());
    push_line(&mut out, "domains:   ", list_text(&info.domains).as_str());
    assert(texts(out@) =~= status_lines(info@, labels@, detected));
    out
}

// ---------------------------------------------------------------------------
// Route checks
// ---------------------------------------------------------------------------

/// Whether a covered host is routed right now.
pub open spec fn routing_line(info: DomainCheckModel) -> Text {
    if !info.enabled {
        "routing:   configured to route, but rule application is disabled — not routed right now"@
    } else if !info.vpn_up {
        "routing:   configured to route, but "@ + (if info.vpn_interface.len() == 0 {
            "the VPN"@
        } else {
            "the VPN ("@ + info.vpn_interface + ")"@
        }) + " is down — not routed right now"@
    } else {
        "routing:   rule application is enabled and the VPN is up"@
    }
}

/// What is configured for the host.
pub open spec fn coverage_lines(info: DomainCheckModel) -> Seq<Text> {
    if info.covered {
        seq![
            match info.matched_domain {
                Some(domain) => "coverage:  covered by the configured domain `"@ + domain + "`"@,
                None => "coverage:  covered"@,
            },
            routing_line(info),
        ]
    } else {
        seq![
            "coverage:  NOT covered by any configured domain"@,
            "           add it with:  splitway add "@ + info.host,
        ]
    }
}

/// Which link answered.
pub open spec fn link_line(via: Option<Text>, vpn_interface: Text) -> Text {
    match via {
        Some(link) => if vpn_interface.len() > 0 && link == vpn_interface {
            "via link:  "@ + link + " — resolved through the VPN's DNS"@
        } else {
            "via link:  "@ + link + " — "@ + (if vpn_interface.len() == 0 {
                "no VPN interface is configured"@
            } else {
                "not the configured VPN interface `"@ + vpn_interface + "`"@
            }) + "; this name is not resolving through the VPN right now"@
        },
        None => "via link:  (the platform does not report which link answered)"@,
    }
}

/// What the host resolves to.
pub open spec fn resolution_lines(
    resolution: Option<ResolutionModel>,
    vpn_interface: Text,
) -> Seq<Text> {
    match resolution {
        Some(r) => seq![
            "resolved:  "@ + listed(r.addresses),
            link_line(r.via_interface, vpn_interface),
        ] + match r.via_dns {
            Some(dns) => seq!["via dns:   "@ + dns],
            None => Seq::empty(),
        },
        None => seq!["resolved:  (live resolution unavailable)"@],
    }
}

/// The lines of a route check. Resolving is not reaching, and the note says
/// so.
pub open spec fn check_lines(info: DomainCheckModel) -> Seq<Text> {
    seq!["host:      "@ + info.host] + coverage_lines(info) + resolution_lines(
        info.resolution,
        info.vpn_interface,
    ) + seq![
        ""@,
        "note: this checks DNS only — whether the name resolves through the VPN's"@,
        "      resolver, not whether the resolved address is reachable through the tunnel."@,
    ]
}

fn routing(info: &DomainCheckInfo) -> (r: String)
    ensures
        r@ == routing_line(info@),
{
    if !info.enabled {
        "routing:   configured to route, but rule application is disabled — not routed right now".to_owned()
    } else if !info.vpn_up {
        let vpn = if info.vpn_interface.as_str().is_empty() {
            "the VPN".to_owned()
        } else {
            concat3("the VPN (", info.vpn_interface.as_str(), ")")
        };
        concat3(
            "routing:   configured to route, but ",
            vpn.as_str(),
            " is down — not routed right now",
        )
    } else {
        "routing:   rule application is enabled and the VPN is up".to_owned()
    }
}

fn coverage(info: &DomainCheckInfo) -> (r: Vec<String>)
    ensures
        texts(r@) == coverage_lines(info@),
{
    let mut out: Vec<String> = Vec::new();
    if info.covered {
        let first = match &info.matched_domain {
            Some(domain) => concat3(
                "coverage:  covered by the configured domain `",
                domain.as_str(),
                "`",
            ),
            None => "coverage:  covered".to_owned(),
        };
        out.push(first);
        out.push(routing(info));
    } else {
        out.push("coverage:  NOT covered by any configured domain".to_owned());
        out.push(concat2("           add it with:  splitway add ", info.host.as_str()));
    }
    assert(texts(out@) =~= coverage_lines(info@));
    out
}

fn link(via: &Option<String>, vpn_interface: &str) -> (r: String)
    ensures
        r@ == link_line(crate::text::opt_text(*via), vpn_interface@),
{
    match via {
        Some(link) => if !vpn_interface.is_empty() && same_text(link.as_str(), vpn_interface) {
            concat3("via link:  ", link.as_str(), " — resolved through the VPN's DNS")
        } else {
            let configured = if vpn_interface.is_empty() {
                "no VPN interface is configured".to_owned()
            } else {
                concat3("not the configured VPN interface `", vpn_interface, "`")
            };
            let head = concat3("via link:  ", link.as_str(), " — ");
            concat3(
                head.as_str(),
                configured.as_str(),
                "; this name is not resolving through the VPN right now",
            )
        },
        None => "via link:  (the platform does not report which link answered)".to_owned(),
    }
}

fn resolution(info: &DomainCheckInfo) -> (r: Vec<String>)
    ensures
        texts(r@) == resolution_lines(info@.resolution, info@.vpn_interface),
{
    let mut out: Vec<String> = Vec::new();
    assert(texts(out@) =~= Seq::<Text>::empty());
    match &info.resolution {
        Some(found) => {
            push_line(&mut out, "resolved:  ", list_text(&found.addresses).as_str());
            let via = link(&found.via_interface, info.vpn_interface.as_str());
            push_line(&mut out, via.as_str(), "");
            assert(via@ + ""@ =~= via@) by {
                reveal_strlit("");
            }
            if let Some(dns) = &found.via_dns {
                push_line(&mut out, "via dns:   ", dns.as_str());
            }
        },
        None => {
            out.push("resolved:  (live resolution unavailable)".to_owned());
        },
    }
    assert(texts(out@) =~= resolution_lines(info@.resolution, info@.vpn_interface));
    out
}

/// The lines of a route check.
pub fn print_domain_check(info: &DomainCheckInfo) -> (r: Vec<String>)
    ensures
        texts(r@) == check_lines(info@),
{
    let mut out: Vec<String> = Vec::new();
    assert(texts(out@) =~= Seq::<Text>::empty());
    push_line(&mut out, "host:      ", info.host.as_str());
    push_all(&mut out, coverage(info));
    push_all(&mut out, resolution(info));
    let ghost before = out@;
    out.push("".to_owned());
    out.push("note: this checks DNS only — whether the name resolves through the VPN's".to_owned());
    out.push(
        "      resolver, not whether the resolved address is reachable through the tunnel.".to_owned(),
    );
    assert(texts(out@) =~= check_lines(info@));
    out
}

// ---------------------------------------------------------------------------
// Replies
// ---------------------------------------------------------------------------

/// The line of an interface.
pub open spec fn interface_line(i: InterfaceModel) -> Text {
    i.name + " ("@ + (if i.up {
        "up"@
    } else {
        "down"@
    }) + (if i.vpn_like {
        ", vpn-like"@
    } else {
        ""@
    }) + ")"@
}

/// The lines of a read-back.
pub open spec fn verify_lines(info: VerifyModel) -> Seq<Text> {
    seq![
        "servers:   "@ + listed(info.live.servers),
        "domains:   "@ + listed(info.live.domains),
        match info.drift {
            DriftModel::InSync => "drift:     none"@,
            DriftModel::NotApplicable => "drift:     (nothing applied)"@,
            DriftModel::Drifted { .. } => "drift:     yes"@,
        },
    ]
}

/// The lines of the editable configuration.
pub open spec fn config_lines(view: ConfigViewModel) -> Seq<Text> {
    seq![
        "vpn_name:    "@ + view.vpn_name,
        "vpn_backend: "@ + backend_name(view.backend),
        "openvpn.management: "@ + view.openvpn.management,
        "openvpn.management_password_file: "@ + match view.openvpn.password_file {
            Some(file) => file,
            None => "(none)"@,
        },
        "config_path: "@ + view.path,
    ]
}

/// The lines of a reply.
pub open spec fn reply_lines(response: ResponseModel, labels: LabelsModel) -> Seq<Text> {
    match response {
        ResponseModel::Done => seq!["ok"@],
        ResponseModel::Status(info) => status_lines(info, labels, false),
        ResponseModel::Domains(domains) => if domains.len() == 0 {
            seq!["(no domains configured)"@]
        } else {
            domains
        },
        ResponseModel::Config(view) => config_lines(view),
        ResponseModel::Interfaces(list) => if list.len() == 0 {
            seq!["(no interfaces found)"@]
        } else {
            Seq::new(list.len(), |i: int| interface_line(list[i]))
        },
        ResponseModel::DomainCheck(info) => check_lines(info),
        ResponseModel::Verify(info) => verify_lines(info),
        ResponseModel::Error(message) => seq!["error: "@ + message],
    }
}

fn interface_text(i: &InterfaceInfo) -> (r: String)
    ensures
        r@ == interface_line(i@),
{
    let state = if i.up {
        "up"
    } else {
        "down"
    };
    let vpn = if i.vpn_like {
        ", vpn-like"
    } else {
        ""
    };
    let head = concat3(i.name.as_str(), " (", state);
    concat3(head.as_str(), vpn, ")")
}

fn config(view: &ConfigView) -> (r: Vec<String>)
    ensures
        texts(r@) == config_lines(view@),
{
    let mut out: Vec<String> = Vec::new();
    assert(texts(out@) =~= Seq::<Text>::empty());
    push_line(&mut out, "vpn_name:    ", view.vpn_name.as_str());
    push_line(&mut out, "vpn_backend: ", view.vpn_backend.as_str());
    push_line(&mut out, "openvpn.management: ", view.openvpn_management.as_str());
    let file = match &view.openvpn_management_password_file {
        Some(file) => file.as_str(),
        None => "(none)",
    };
    push_line(&mut out, "openvpn.management_password_file: ", file);
    push_line(&mut out, "config_path: ", view.config_path.as_str());
    assert(texts(out@) =~= config_lines(view@));
    out
}

fn verified(info: &VerifyInfo) -> (r: Vec<String>)
    ensures
        texts(r@) == verify_lines(info@),
{
    let mut out: Vec<String> = Vec::new();
    assert(texts(out@) =~= Seq::<Text>::empty());
    push_line(&mut out, "servers:   ", list_text(&info.live.servers).as_str());
    push_line(&mut out, "domains:   ", list_text(&info.live.routing_domains).as_str());
    let drift = match &info.drift {
        DriftVerdict::InSync => "drift:     none",
        DriftVerdict::NotApplicable => "drift:     (nothing applied)",
        DriftVerdict::Drifted { .. } => "drift:     yes",
    };
    let ghost before = out@;
    let line = drift.to_owned();
    out.push(line);
    assert(texts(out@) =~= texts(before).push(line@));
    assert(texts(out@) =~= verify_lines(info@));
    out
}

/// Is the reply an error?
pub fn is_error(response: &Response) -> (r: bool)
    ensures
        r == (response@ is Error),
{
    match response {
        Response::Error(_) => true,
        _ => false,
    }
}

/// What the client prints for a reply.
pub fn print_response(response: &Response, labels: &StatusLabels) -> (r: Printout)
    ensures
        texts(r.lines@) == reply_lines(response@, labels@),
        r.is_error == (response@ is Error),
{
    let mut lines: Vec<String> = Vec::new();
    match response {
        Response::Done => {
            lines.push("ok".to_owned());
            assert(texts(lines@) =~= seq!["ok"@]);
        },
        Response::Status(info) => {
            lines = status(info, labels, false);
        },
        Response::Domains(domains) => {
            let ghost all = texts(domains@);
            assert(all.len() == domains@.len());
            if domains.len() == 0 {
                lines.push("(no domains configured)".to_owned());
                assert(texts(lines@) =~= seq!["(no domains configured)"@]);
            } else {
                lines = copy_texts(domains);
            }
        },
        Response::Config(view) => {
            lines = config(view);
        },
        Response::Interfaces(list) => {
            if list.len() == 0 {
                lines.push("(no interfaces found)".to_owned());
                assert(texts(lines@) =~= seq!["(no interfaces found)"@]);
            } else {
                let mut i: usize = 0;
                while i < list.len()
                    invariant
                        i <= list.len(),
                        lines.len() == i,
                        forall|k: int| 0 <= k < i ==> lines@[k]@ == interface_line(list@[k]@),
                    decreases list.len() - i,
                {
                    lines.push(interface_text(&list[i]));
                    i += 1;
                }
                assert(texts(lines@) =~= reply_lines(response@, labels@));
            }
        },
        Response::DomainCheck(info) => {
            lines = print_domain_check(info);
        },
        Response::Verify(info) => {
            lines = verified(info);
        },
        Response::Error(message) => {
            lines.push(concat2("error: ", message.as_str()));
            assert(texts(lines@) =~= seq!["error: "@ + message@]);
        },
    }
    Printout { lines, is_error: is_error(response) }
}

// ---------------------------------------------------------------------------
// Laws
// ---------------------------------------------------------------------------

proof fn lemma_joined_holds(list: Seq<Text>, sep: Text, k: int)
    requires
        0 <= k < list.len(),
    ensures
        has_part(joined(list, sep), list[k]),
    decreases list.len(),
{
    let none = Seq::<char>::empty();
    if list.len() == 1 {
        assert(list[0] =~= none + list[0] + none);
        law_a_text_holds_its_parts(none, list[0], none);
    } else {
        let head = joined(list.drop_last(), sep) + sep;
        if k == list.len() - 1 {
            assert(joined(list, sep) =~= head + list[k] + none);
            law_a_text_holds_its_parts(head, list[k], none);
        } else {
            lemma_joined_holds(list.drop_last(), sep, k);
            let before = joined(list.drop_last(), sep);
            law_a_text_holds_its_parts(before, list[k], none);
            let (x, y) = choose|x: Text, y: Text| before == #[trigger] (x + list[k] + y);
            assert(joined(list, sep) =~= x + list[k] + (y + sep + list.last()));
            law_a_text_holds_its_parts(x, list[k], y + sep + list.last());
        }
    }
}

/// A list is printed whole: every entry of it stands on the line; an empty
/// one is said to be none.
pub proof fn law_lists_are_printed_whole(list: Seq<Text>, k: int)
    ensures
        list.len() == 0 ==> listed(list) == "(none)"@,
        0 <= k < list.len() ==> has_part(listed(list), list[k]),
        list.len() == 1 ==> listed(list) == list[0],
        list.len() == 2 ==> listed(list) == list[0] + ", "@ + list[1],
{
    if 0 <= k < list.len() {
        lemma_joined_holds(list, ", "@, k);
    }
    reveal_with_fuel(joined, 3);
    if list.len() == 2 {
        assert(list.drop_last()[0] == list[0]);
    }
}

/// A status is printed line by line as it was told.
pub proof fn law_a_status_is_printed_as_told(info: StatusModel, labels: LabelsModel)
    ensures
        ({
            let lines = reply_lines(ResponseModel::Status(info), labels);
            &&& lines.len() == 7
            &&& lines[0] == "enabled:   "@ + if info.enabled {
                "true"@
            } else {
                "false"@
            }
            &&& lines[1] == "interface: "@ + info.interface
            &&& lines[2] == "vpn_up:    "@ + if info.vpn_up {
                "true"@
            } else {
                "false"@
            }
            &&& lines[3] == "routing:   "@ + labels.routing
            &&& info.applied is Some ==> lines[4] == "applied:   "@ + labels.applied
            &&& info.applied is None ==> lines[4] == "applied:   "@ + "(none)"@
            &&& lines[5] == "detector:  "@ + labels.detector
            &&& lines[6] == "domains:   "@ + listed(info.domains)
        }),
        ({
            let lines = status_lines(info, labels, true);
            &&& lines.len() == 8
            &&& lines[5] == "detected:  "@ + listed(info.detected_dns)
            &&& lines[7] == "domains:   "@ + listed(info.domains)
        }),
{
}

/// A route check says of a covered host whether it is routed right now: that
/// routing is off, that the VPN is down, or that neither is so.
pub proof fn law_a_check_says_whether_it_routes(info: DomainCheckModel)
    ensures
        ({
            let lines = check_lines(info);
            &&& lines[0] == "host:      "@ + info.host
            &&& info.covered && info.enabled && info.vpn_up ==> lines[2]
                == "routing:   rule application is enabled and the VPN is up"@
            &&& info.covered && !info.enabled ==> lines[2]
                == "routing:   configured to route, but rule application is disabled — not routed right now"@
            &&& info.covered && info.enabled && !info.vpn_up && info.vpn_interface.len() == 0
                ==> lines[2]
                == "routing:   configured to route, but "@ + "the VPN"@
                + " is down — not routed right now"@
            &&& info.covered && info.enabled && !info.vpn_up && info.vpn_interface.len() > 0
                ==> lines[2] == "routing:   configured to route, but "@ + ("the VPN ("@
                + info.vpn_interface + ")"@) + " is down — not routed right now"@
            &&& info.covered && info.matched_domain is Some ==> lines[1]
                == "coverage:  covered by the configured domain `"@ + info.matched_domain->0 + "`"@
            &&& !info.covered ==> lines[1] == "coverage:  NOT covered by any configured domain"@
                && lines[2] == "           add it with:  splitway add "@ + info.host
            &&& info.resolution is None ==> lines[3] == "resolved:  (live resolution unavailable)"@
            &&& info.resolution is Some ==> lines[3] == "resolved:  "@ + listed(
                (info.resolution->0).addresses,
            )
        }),
{
}

/// A host is said to be resolved through the VPN exactly if the link that
/// answered is the configured interface.
pub proof fn law_a_check_says_which_link_answered(link: Text, vpn_interface: Text)
    ensures
        link == vpn_interface && link.len() > 0 ==> link_line(Some(link), vpn_interface)
            == "via link:  "@ + link + " — resolved through the VPN's DNS"@,
        link != vpn_interface && vpn_interface.len() > 0 ==> link_line(Some(link), vpn_interface)
            == "via link:  "@ + link + " — "@ + ("not the configured VPN interface `"@
            + vpn_interface + "`"@)
            + "; this name is not resolving through the VPN right now"@,
        vpn_interface.len() == 0 ==> link_line(Some(link), vpn_interface) == "via link:  "@ + link
            + " — "@ + "no VPN interface is configured"@
            + "; this name is not resolving through the VPN right now"@,
        link_line(None, vpn_interface)
            == "via link:  (the platform does not report which link answered)"@,
{
}

/// The other replies are printed as they were told: domains and interfaces one
/// to a line, all of them in their order, and an error as an error.
pub proof fn law_replies_are_printed_as_told(
    domains: Seq<Text>,
    list: Seq<InterfaceModel>,
    view: ConfigViewModel,
    message: Text,
    labels: LabelsModel,
    k: int,
)
    ensures
        reply_lines(ResponseModel::Done, labels) == seq!["ok"@],
        domains.len() > 0 ==> reply_lines(ResponseModel::Domains(domains), labels) == domains,
        list.len() > 0 ==> reply_lines(ResponseModel::Interfaces(list), labels).len() == list.len(),
        0 <= k < list.len() ==> reply_lines(ResponseModel::Interfaces(list), labels)[k]
            == list[k].name + " ("@ + (if list[k].up {
            "up"@
        } else {
            "down"@
        }) + (if list[k].vpn_like {
            ", vpn-like"@
        } else {
            ""@
        }) + ")"@,
        reply_lines(ResponseModel::Error(message), labels) == seq!["error: "@ + message],
        reply_lines(ResponseModel::Config(view), labels)[0] == "vpn_name:    "@ + view.vpn_name,
        reply_lines(ResponseModel::Config(view), labels)[1] == "vpn_backend: "@ + match view.backend {
            VpnBackend::NetworkManager => "network-manager"@,
            VpnBackend::OpenVpn => "openvpn"@,
        },
        reply_lines(ResponseModel::Config(view), labels)[2] == "openvpn.management: "@
            + view.openvpn.management,
        reply_lines(ResponseModel::Config(view), labels)[4] == "config_path: "@ + view.path,
{
}

/// A read-back is printed with every server and domain that was found, and
/// whether it differs from what is applied.
pub proof fn law_a_read_back_is_printed_as_told(info: VerifyModel, labels: LabelsModel)
    ensures
        ({
            let lines = reply_lines(ResponseModel::Verify(info), labels);
            &&& lines.len() == 3
            &&& lines[0] == "servers:   "@ + listed(info.live.servers)
            &&& lines[1] == "domains:   "@ + listed(info.live.domains)
            &&& info.drift is InSync ==> lines[2] == "drift:     none"@
            &&& info.drift is NotApplicable ==> lines[2] == "drift:     (nothing applied)"@
            &&& info.drift is Drifted ==> lines[2] == "drift:     yes"@
        }),
{
}

/// A route check is printed with how the host was resolved, where that is
/// known, and the settings with the password file, where there is one.
pub proof fn law_what_is_known_is_printed(
    info: DomainCheckModel,
    view: ConfigViewModel,
    labels: LabelsModel,
)
    ensures
        ({
            let lines = reply_lines(ResponseModel::DomainCheck(info), labels);
            &&& lines == check_lines(info)
            &&& info.resolution matches Some(r) ==> {
                &&& lines[4] == link_line(r.via_interface, info.vpn_interface)
                &&& r.via_dns matches Some(dns) ==> lines[5] == "via dns:   "@ + dns && lines.len()
                    == 9
                &&& r.via_dns is None ==> lines.len() == 8
            }
            &&& info.resolution is None ==> lines.len() == 7
            &&& info.covered && info.matched_domain is None ==> lines[1] == "coverage:  covered"@
        }),
        ({
            let lines = reply_lines(ResponseModel::Config(view), labels);
            &&& lines.len() == 5
            &&& view.openvpn.password_file matches Some(file) ==> lines[3]
                == "openvpn.management_password_file: "@ + file
            &&& view.openvpn.password_file is None ==> lines[3]
                == "openvpn.management_password_file: "@ + "(none)"@
        }),
{
}

} // verus!
