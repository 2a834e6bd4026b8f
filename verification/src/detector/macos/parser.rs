//! Reading the dynamic store's DNS model, and the verdict over it.
//!
//! A dump of a store key has this form:
//!
//! ```text
//! <dictionary> {
//!   ServerAddresses : <array> {
//!     0 : 192.0.2.53
//!     1 : 192.0.2.54
//!   }
//!   PrimaryInterface : en0
//! }
//! ```
//!
//! The verdict compares services with each other and never looks at the
//! global default, which the daemon itself overwrites while a VPN is up.

use vstd::prelude::*;
use crate::lists::{same_members, same_set};
use crate::text::{
    after_prefix, chars_of, concat2, contains, copy_texts, has_part, has_prefix, has_suffix,
    law_prefixes_and_suffixes_come_off, law_the_first_separator_splits,
    law_trimming_takes_off_blanks, lines, lines_of, occurs_at, opt_text, same_opt_text,
    same_text, split_first, split_once, starts_with, strip_prefix, strip_suffix, strs, texts,
    trim, trimmed, Text,
};

verus! {

/// One network service's DNS entry.
#[derive(Debug, PartialEq, Eq)]
pub struct ServiceDns {
    pub service_id: String,
    /// The interface the service is bound to, if known.
    pub interface_name: Option<String>,
    pub servers: Vec<String>,
}

/// The DNS model of the system, read from the dynamic store.
#[derive(Debug, PartialEq, Eq)]
pub struct DnsModel {
    pub primary_interface: Option<String>,
    pub primary_service: Option<String>,
    pub services: Vec<ServiceDns>,
}

/// The verdict over a [`DnsModel`].
#[derive(Debug, PartialEq, Eq)]
pub enum Detected {
    /// A VPN is up: `corp_dns` is its resolver, `demote_target` the physical
    /// network's own.
    Up { corp_dns: Vec<String>, demote_target: Vec<String> },
    Down,
}

/// The value of a [`ServiceDns`].
pub struct ServiceModel {
    pub id: Text,
    pub interface: Option<Text>,
    pub servers: Seq<Text>,
}

/// The value of a [`DnsModel`].
pub struct SystemModel {
    pub primary_interface: Option<Text>,
    pub primary_service: Option<Text>,
    pub services: Seq<ServiceModel>,
}

/// The value of a [`Detected`].
pub enum DetectedModel {
    Up { corp_dns: Seq<Text>, demote_target: Seq<Text> },
    Down,
}

impl View for ServiceDns {
    type V = ServiceModel;

    open spec fn view(&self) -> ServiceModel {
        ServiceModel {
            id: self.service_id@,
            interface: opt_text(self.interface_name),
            servers: texts(self.servers@),
        }
    }
}

impl View for DnsModel {
    type V = SystemModel;

    open spec fn view(&self) -> SystemModel {
        SystemModel {
            primary_interface: opt_text(self.primary_interface),
            primary_service: opt_text(self.primary_service),
            services: Seq::new(self.services@.len(), |i: int| self.services@[i]@),
        }
    }
}

impl View for Detected {
    type V = DetectedModel;

    open spec fn view(&self) -> DetectedModel {
        match self {
            Detected::Up { corp_dns, demote_target } => DetectedModel::Up {
                corp_dns: texts(corp_dns@),
                demote_target: texts(demote_target@),
            },
            Detected::Down => DetectedModel::Down,
        }
    }
}

// ---------------------------------------------------------------------------
// Dumps
// ---------------------------------------------------------------------------

/// Does the line, trimmed, open the array of this field?
pub open spec fn opens_array(line: Text, field: Text) -> bool {
    has_prefix(line, field + " :"@) && has_part(line, "<array>"@) && has_suffix(line, "{"@)
}

/// The first line from `i` on that opens the field's array, or their number.
pub open spec fn opener_from(lines: Seq<Text>, field: Text, i: int) -> int
    decreases lines.len() - i,
{
    if i >= lines.len() {
        lines.len() as int
    } else if opens_array(trimmed(lines[i]), field) {
        i
    } else {
        opener_from(lines, field, i + 1)
    }
}

/// The first line from `i` on that closes an array, or their number.
pub open spec fn closer_from(lines: Seq<Text>, i: int) -> int
    decreases lines.len() - i,
{
    if i >= lines.len() {
        lines.len() as int
    } else if trimmed(lines[i]) == "}"@ {
        i
    } else {
        closer_from(lines, i + 1)
    }
}

/// Is the text a number in decimal digits?
pub open spec fn is_number(t: Text) -> bool {
    t.len() > 0 && forall|i: int| 0 <= i < t.len() ==> '0' <= #[trigger] t[i] <= '9'
}

/// The element on a line of an array, trimmed: what follows its index.
pub open spec fn element_on(line: Text) -> Option<Text> {
    match split_first(line, ":"@) {
        Some((index, value)) => if is_number(trimmed(index)) && trimmed(value).len() > 0 {
            Some(trimmed(value))
        } else {
            None
        },
        None => None,
    }
}

/// The elements on lines `i` to `j`.
pub open spec fn elements(lines: Seq<Text>, i: int, j: int) -> Seq<Text>
    decreases j - i,
{
    if i >= j {
        Seq::empty()
    } else {
        match element_on(trimmed(lines[j - 1])) {
            Some(value) => elements(lines, i, j - 1).push(value),
            None => elements(lines, i, j - 1),
        }
    }
}

/// The elements of the field's array in a dump.
pub open spec fn array_field(dump: Text, field: Text) -> Seq<Text> {
    let all = lines_of(dump);
    let start = opener_from(all, field, 0);
    elements(all, start + 1, closer_from(all, start + 1))
}

/// The field's value among the lines from `i` on. The first line of the field
/// that is not empty decides; one that opens an array or a dictionary means
/// there is no such value.
pub open spec fn scalar_from(lines: Seq<Text>, field: Text, i: int) -> Option<Text>
    decreases lines.len() - i,
{
    if i >= lines.len() {
        None
    } else {
        match after_prefix(trimmed(lines[i]), field + " :"@) {
            Some(rest) => {
                let value = trimmed(rest);
                if has_part(value, "<array>"@) || has_part(value, "<dictionary>"@) {
                    None
                } else if value.len() > 0 {
                    Some(value)
                } else {
                    scalar_from(lines, field, i + 1)
                }
            },
            None => scalar_from(lines, field, i + 1),
        }
    }
}

/// The field's value in a dump.
pub open spec fn scalar_field(dump: Text, field: Text) -> Option<Text> {
    scalar_from(lines_of(dump), field, 0)
}

fn digits_only(s: &str) -> (r: bool)
    ensures
        r == is_number(s@),
{
    let chars = chars_of(s);
    if chars.len() == 0 {
        return false;
    }
    let mut i: usize = 0;
    while i < chars.len()
        invariant
            i <= chars.len(),
            chars@ == s@,
            forall|k: int| 0 <= k < i ==> '0' <= #[trigger] s@[k] <= '9',
        decreases chars.len() - i,
    {
        if !('0' <= chars[i] && chars[i] <= '9') {
            assert(!('0' <= s@[i as int] <= '9'));
            return false;
        }
        i += 1;
    }
    true
}

/// The elements of a named array in a dump; none if it is absent.
pub fn parse_array_field(dump: &str, field: &str) -> (r: Vec<String>)
    ensures
        texts(r@) == array_field(dump@, field@),
{
    let all = lines(dump);
    let ghost all_lines = strs(all@);
    let opener = concat2(field, " :");
    let mut values: Vec<String> = Vec::new();
    let mut i: usize = 0;
    while i < all.len()
        invariant_except_break
            opener_from(all_lines, field@, 0) == opener_from(all_lines, field@, i as int),
        invariant
            i <= all.len(),
            all_lines == strs(all@),
            opener@ == field@ + " :"@,
        ensures
            i == opener_from(all_lines, field@, 0),
        decreases all.len() - i,
    {
        let line = trim(all[i]);
        let closing = strip_suffix(line, "{").is_some();
        if starts_with(line, opener.as_str()) && contains(line, "<array>") && closing {
            break;
        }
        i += 1;
    }
    proof {
        assert(texts(values@) =~= Seq::<Text>::empty());
        assert(elements(all_lines, i + 1, i + 1) =~= Seq::<Text>::empty());
    }
    if i >= all.len() {
        proof {
            assert(closer_from(all_lines, i + 1) == all_lines.len());
        }
        return values;
    }
    let start: usize = i + 1;
    i = start;
    while i < all.len()
        invariant_except_break
            closer_from(all_lines, start as int) == closer_from(all_lines, i as int),
        invariant
            start <= i <= all.len(),
            all_lines == strs(all@),
            texts(values@) == elements(all_lines, start as int, i as int),
        ensures
            i == closer_from(all_lines, start as int),
        decreases all.len() - i,
    {
        let line = trim(all[i]);
        if same_text(line, "}") {
            break;
        }
        if let Some((index, value)) = split_once(line, ":") {
            let value = trim(value);
            if digits_only(trim(index)) && !value.is_empty() {
                let ghost before = values@;
                values.push(value.to_owned());
                assert(texts(values@) =~= texts(before).push(value@));
            }
        }
        i += 1;
    }
    values
}

/// A named value in a dump, if it is there.
pub fn parse_scalar_field(dump: &str, field: &str) -> (r: Option<String>)
    ensures
        opt_text(r) == scalar_field(dump@, field@),
{
    let all = lines(dump);
    let ghost all_lines = strs(all@);
    let opener = concat2(field, " :");
    let mut i: usize = 0;
    while i < all.len()
        invariant
            i <= all.len(),
            all_lines == strs(all@),
            all_lines == lines_of(dump@),
            opener@ == field@ + " :"@,
            scalar_from(all_lines, field@, 0) == scalar_from(all_lines, field@, i as int),
        decreases all.len() - i,
    {
        if let Some(rest) = strip_prefix(trim(all[i]), opener.as_str()) {
            let value = trim(rest);
            if contains(value, "<array>") || contains(value, "<dictionary>") {
                return None;
            }
            if !value.is_empty() {
                return Some(value.to_owned());
            }
        }
        i += 1;
    }
    None
}

// ---------------------------------------------------------------------------
// The verdict
// ---------------------------------------------------------------------------

/// Is the interface a tunnel rather than a hardware link?
pub open spec fn is_tunnel(interface: Text) -> bool {
    ||| has_prefix(interface, "utun"@)
    ||| has_prefix(interface, "ppp"@)
    ||| has_prefix(interface, "ipsec"@)
    ||| has_prefix(interface, "tun"@)
    ||| has_prefix(interface, "tap"@)
}

/// May the service have taken over the default resolver? One that reports no
/// interface, the primary one or a tunnel may; one on another hardware link is
/// a network beside the primary.
pub open spec fn may_hijack(service: ServiceModel, primary_interface: Option<Text>) -> bool {
    match service.interface {
        None => true,
        Some(interface) => primary_interface == Some(interface) || is_tunnel(interface),
    }
}

/// Is this the physical service: the primary one by its id, or, if no primary
/// service is known, by its interface?
pub open spec fn is_physical(model: SystemModel, service: ServiceModel) -> bool {
    service.servers.len() > 0 && match model.primary_service {
        Some(id) => service.id == id,
        None => service.interface == model.primary_interface,
    }
}

/// The first physical service from `i` on, or their number.
pub open spec fn physical_from(model: SystemModel, i: int) -> int
    decreases model.services.len() - i,
{
    if i >= model.services.len() {
        model.services.len() as int
    } else if is_physical(model, model.services[i]) {
        i
    } else {
        physical_from(model, i + 1)
    }
}

/// Is this a VPN's service: another than the physical one, with a resolver of
/// its own, that may have taken over the default?
pub open spec fn is_vpn(model: SystemModel, physical: ServiceModel, service: ServiceModel) -> bool {
    &&& service.id != physical.id
    &&& service.servers.len() > 0
    &&& may_hijack(service, model.primary_interface)
    &&& !same_members(service.servers, physical.servers)
}

/// The first VPN service from `i` on, or their number.
pub open spec fn vpn_from(model: SystemModel, physical: ServiceModel, i: int) -> int
    decreases model.services.len() - i,
{
    if i >= model.services.len() {
        model.services.len() as int
    } else if is_vpn(model, physical, model.services[i]) {
        i
    } else {
        vpn_from(model, physical, i + 1)
    }
}

/// The verdict over the model.
pub open spec fn decided(model: SystemModel) -> DetectedModel {
    let n = model.services.len();
    let p = physical_from(model, 0);
    if (model.primary_interface is None && model.primary_service is None) || p >= n {
        DetectedModel::Down
    } else {
        let physical = model.services[p];
        let v = vpn_from(model, physical, 0);
        if v >= n {
            DetectedModel::Down
        } else {
            DetectedModel::Up {
                corp_dns: model.services[v].servers,
                demote_target: physical.servers,
            }
        }
    }
}

/// Is the interface a tunnel rather than a hardware link? Told by the kind of
/// its driver, never by a product.
pub fn is_tunnel_interface(interface: &str) -> (r: bool)
    ensures
        r == is_tunnel(interface@),
{
    starts_with(interface, "utun") || starts_with(interface, "ppp") || starts_with(
        interface,
        "ipsec",
    ) || starts_with(interface, "tun") || starts_with(interface, "tap")
}

/// May the service have taken over the default resolver?
pub fn is_default_resolver_hijacker(
    service: &ServiceDns,
    primary_interface: &Option<String>,
) -> (r: bool)
    ensures
        r == may_hijack(service@, opt_text(*primary_interface)),
{
    match &service.interface_name {
        None => true,
        Some(interface) => {
            let primary = match primary_interface {
                Some(p) => *p == *interface,
                None => false,
            };
            primary || is_tunnel_interface(interface.as_str())
        },
    }
}

fn physical_service(model: &DnsModel, service: &ServiceDns) -> (r: bool)
    ensures
        r == is_physical(model@, service@),
{
    service.servers.len() > 0 && match &model.primary_service {
        Some(id) => service.service_id == *id,
        None => same_opt_text(&service.interface_name, &model.primary_interface),
    }
}

/// Is a VPN in play, and what are its resolver and the physical network's?
/// Without a primary network, or without the physical network's resolver,
/// there is nothing to fall back to, and none is reported.
pub fn decide(model: &DnsModel) -> (r: Detected)
    ensures
        r@ == decided(model@),
{
    let ghost m = model@;
    if model.primary_interface.is_none() && model.primary_service.is_none() {
        return Detected::Down;
    }
    let mut p: usize = 0;
    while p < model.services.len() && !physical_service(model, &model.services[p])
        invariant
            p <= model.services.len(),
            m == model@,
            physical_from(m, 0) == physical_from(m, p as int),
        decreases model.services.len() - p,
    {
        assert(m.services[p as int] == model.services@[p as int]@);
        p += 1;
    }
    if p >= model.services.len() {
        return Detected::Down;
    }
    let physical = &model.services[p];
    assert(m.services[p as int] == physical@);
    assert(physical_from(m, 0) == p);
    let mut v: usize = 0;
    while v < model.services.len()
        invariant
            v <= model.services.len(),
            m == model@,
            p < model.services.len(),
            physical@ == m.services[p as int],
            physical_from(m, 0) == p,
            !(m.primary_interface is None && m.primary_service is None),
            vpn_from(m, physical@, 0) == vpn_from(m, physical@, v as int),
        decreases model.services.len() - v,
    {
        let service = &model.services[v];
        assert(m.services[v as int] == service@);
        if service.service_id != physical.service_id && service.servers.len() > 0
            && is_default_resolver_hijacker(service, &model.primary_interface) && !same_set(
            &service.servers,
            &physical.servers,
        ) {
            return Detected::Up {
                corp_dns: copy_texts(&service.servers),
                demote_target: copy_texts(&physical.servers),
            };
        }
        v += 1;
    }
    Detected::Down
}

// ---------------------------------------------------------------------------
// Laws
// ---------------------------------------------------------------------------

proof fn lemma_physical_from(model: SystemModel, i: int)
    requires
        0 <= i <= model.services.len(),
    ensures
        i <= physical_from(model, i) <= model.services.len(),
        physical_from(model, i) < model.services.len() ==> is_physical(
            model,
            model.services[physical_from(model, i)],
        ),
        forall|k: int|
            i <= k < physical_from(model, i) ==> !is_physical(model, #[trigger] model.services[k]),
    decreases model.services.len() - i,
{
    if i < model.services.len() && !is_physical(model, model.services[i]) {
        lemma_physical_from(model, i + 1);
    }
}

proof fn lemma_vpn_from(model: SystemModel, physical: ServiceModel, i: int)
    requires
        0 <= i <= model.services.len(),
    ensures
        i <= vpn_from(model, physical, i) <= model.services.len(),
        vpn_from(model, physical, i) < model.services.len() ==> is_vpn(
            model,
            physical,
            model.services[vpn_from(model, physical, i)],
        ),
        forall|k: int|
            i <= k < vpn_from(model, physical, i) ==> !is_vpn(
                model,
                physical,
                #[trigger] model.services[k],
            ),
    decreases model.services.len() - i,
{
    if i < model.services.len() && !is_vpn(model, physical, model.services[i]) {
        lemma_vpn_from(model, physical, i + 1);
    }
}

/// A detected VPN always comes with resolvers of its own and with a fallback,
/// and the two differ.
pub proof fn law_up_has_two_different_resolvers(model: SystemModel)
    ensures
        decided(model) matches DetectedModel::Up { corp_dns, demote_target } ==> corp_dns.len() > 0
            && demote_target.len() > 0 && !same_members(corp_dns, demote_target),
{
    lemma_physical_from(model, 0);
    let p = physical_from(model, 0);
    if p < model.services.len() {
        lemma_vpn_from(model, model.services[p], 0);
    }
}

/// Without a primary network no VPN is reported.
pub proof fn law_offline_is_down(model: SystemModel)
    requires
        model.primary_interface is None,
        model.primary_service is None,
    ensures
        decided(model) == DetectedModel::Down,
{
}

/// A service on a second hardware link is never taken for a VPN: if every
/// other service is one, none is reported.
pub proof fn law_secondary_networks_are_not_vpns(model: SystemModel)
    requires
        forall|i: int|
            0 <= i < model.services.len() && !is_physical(model, model.services[i])
                ==> !may_hijack(#[trigger] model.services[i], model.primary_interface),
        forall|i: int, j: int|
            0 <= i < model.services.len() && 0 <= j < model.services.len() && is_physical(
                model,
                #[trigger] model.services[i],
            ) && is_physical(model, #[trigger] model.services[j]) ==> model.services[i].id
                == model.services[j].id,
    ensures
        decided(model) == DetectedModel::Down,
{
    lemma_physical_from(model, 0);
    let p = physical_from(model, 0);
    if p < model.services.len() {
        lemma_vpn_from(model, model.services[p], 0);
    }
}

/// Overwriting the physical service's resolver, as a demote does, does not
/// make a VPN that is up look down, as long as the fallback differs from the
/// VPN's own resolver.
pub proof fn law_detection_survives_a_demote(model: SystemModel, fallback: Seq<Text>)
    requires
        decided(model) is Up,
        fallback.len() > 0,
        !same_members(decided(model)->corp_dns, fallback),
    ensures
        ({
            let p = physical_from(model, 0);
            let demoted = ServiceModel { servers: fallback, ..model.services[p] };
            decided(SystemModel { services: model.services.update(p, demoted), ..model }) is Up
        }),
{
    lemma_physical_from(model, 0);
    let p = physical_from(model, 0);
    let physical = model.services[p];
    lemma_vpn_from(model, physical, 0);
    let v = vpn_from(model, physical, 0);
    let demoted = ServiceModel { servers: fallback, ..physical };
    let after = SystemModel { services: model.services.update(p, demoted), ..model };
    lemma_physical_from(after, 0);
    let q = physical_from(after, 0);
    assert(is_physical(after, after.services[p]));
    assert(q == p) by {
        if q < p {
            assert(after.services[q] == model.services[q]);
            assert(is_physical(model, model.services[q]));
        }
    }
    assert(v != p);
    assert(after.services[v] == model.services[v]);
    assert(is_vpn(after, demoted, after.services[v]));
    lemma_vpn_from(after, demoted, 0);
}

/// Is this service the primary network's own, with resolvers?
pub open spec fn is_primary(model: SystemModel, service: ServiceModel) -> bool {
    &&& service.servers.len() > 0
    &&& model.primary_service is Some ==> service.id == model.primary_service->0
    &&& model.primary_service is None ==> service.interface == model.primary_interface
}

/// Could this service carry a VPN beside `physical`: another service, with
/// resolvers of its own, on no interface, on the primary one or on a tunnel?
pub open spec fn could_be_vpn(
    model: SystemModel,
    physical: ServiceModel,
    service: ServiceModel,
) -> bool {
    &&& service.id != physical.id
    &&& service.servers.len() > 0
    &&& service.servers.to_multiset() != physical.servers.to_multiset()
    &&& {
        ||| service.interface is None
        ||| service.interface == model.primary_interface
        ||| has_prefix(service.interface->0, "utun"@)
        ||| has_prefix(service.interface->0, "ppp"@)
        ||| has_prefix(service.interface->0, "ipsec"@)
        ||| has_prefix(service.interface->0, "tun"@)
        ||| has_prefix(service.interface->0, "tap"@)
    }
}

/// A VPN is up exactly if beside the primary network's service there is one
/// that could carry it. The first such one's resolvers, all of them, are the
/// VPN's; those of the primary network's service are what to fall back to.
pub proof fn law_a_vpn_beside_the_primary_network_is_found(model: SystemModel, p: int, v: int)
    requires
        model.primary_interface is Some || model.primary_service is Some,
        0 <= p < model.services.len(),
        is_primary(model, model.services[p]),
        forall|k: int| 0 <= k < p ==> !is_primary(model, #[trigger] model.services[k]),
    ensures
        0 <= v < model.services.len() && could_be_vpn(
            model,
            model.services[p],
            model.services[v],
        ) && (forall|k: int|
            0 <= k < v ==> !could_be_vpn(model, model.services[p], #[trigger] model.services[k]))
            ==> decided(model) == (DetectedModel::Up {
            corp_dns: model.services[v].servers,
            demote_target: model.services[p].servers,
        }),
        (forall|k: int|
            0 <= k < model.services.len() ==> !could_be_vpn(
                model,
                model.services[p],
                #[trigger] model.services[k],
            )) ==> decided(model) == DetectedModel::Down,
{
    lemma_physical_from(model, 0);
    let q = physical_from(model, 0);
    assert(is_physical(model, model.services[p]));
    assert(q == p) by {
        if q < p {
            assert(is_primary(model, model.services[q]));
        }
    }
    let physical = model.services[p];
    lemma_vpn_from(model, physical, 0);
    let w = vpn_from(model, physical, 0);
    assert forall|k: int| 0 <= k < model.services.len() implies is_vpn(
        model,
        physical,
        #[trigger] model.services[k],
    ) == could_be_vpn(model, physical, model.services[k]) by {}
    if w < model.services.len() {
        assert(could_be_vpn(model, physical, model.services[w]));
    }
    if 0 <= v < model.services.len() && could_be_vpn(model, physical, model.services[v]) && (
    forall|k: int|
        0 <= k < v ==> !could_be_vpn(model, physical, #[trigger] model.services[k])) {
        assert(is_vpn(model, physical, model.services[v]));
        assert(w == v);
    }
}

/// Without the primary network's own resolvers there is nothing to fall back
/// to, and no VPN is reported.
pub proof fn law_no_fallback_is_down(model: SystemModel)
    requires
        forall|k: int|
            0 <= k < model.services.len() ==> !is_primary(model, #[trigger] model.services[k]),
    ensures
        decided(model) == DetectedModel::Down,
{
    lemma_physical_from(model, 0);
    let q = physical_from(model, 0);
    if q < model.services.len() {
        assert(is_primary(model, model.services[q]));
    }
}

proof fn lemma_opener_at(lines: Seq<Text>, field: Text, from: int, i: int)
    requires
        0 <= from <= i < lines.len(),
        opens_array(trimmed(lines[i]), field),
        forall|k: int| from <= k < i ==> !opens_array(trimmed(#[trigger] lines[k]), field),
    ensures
        opener_from(lines, field, from) == i,
    decreases i - from,
{
    if from < i {
        lemma_opener_at(lines, field, from + 1, i);
    }
}

proof fn lemma_closer_at(lines: Seq<Text>, from: int, j: int)
    requires
        0 <= from <= j < lines.len(),
        trimmed(lines[j]) == "}"@,
        forall|k: int| from <= k < j ==> trimmed(#[trigger] lines[k]) != "}"@,
    ensures
        closer_from(lines, from) == j,
    decreases j - from,
{
    if from < j {
        lemma_closer_at(lines, from + 1, j);
    }
}

/// Is the line, trimmed, an element of an array: an index, a colon, a blank and
/// the value?
pub open spec fn is_element(line: Text, index: Text, value: Text) -> bool {
    &&& trimmed(line) == index + " : "@ + value
    &&& index.len() > 0
    &&& forall|i: int| 0 <= i < index.len() ==> '0' <= #[trigger] index[i] <= '9'
    &&& value.len() > 0
    &&& !crate::text::is_white(value[0])
    &&& !crate::text::is_white(value.last())
}

proof fn lemma_element(line: Text, index: Text, value: Text)
    requires
        is_element(line, index, value),
    ensures
        element_on(trimmed(line)) == Some(value),
        trimmed(line) != "}"@,
{
    reveal_strlit(" : ");
    reveal_strlit(":");
    reveal_strlit("}");
    assert(":"@ =~= seq![':']);
    let head = index.push(' ');
    let tail = seq![' '] + value;
    assert(index + " : "@ + value =~= head.push(':') + tail);
    assert('0' <= index[0] <= '9');
    assert((index + " : "@ + value)[0] == index[0]);
    assert(!head.contains(':')) by {
        if head.contains(':') {
            let k = head.index_of(':');
            if k < index.len() {
                assert('0' <= index[k] <= '9');
            }
        }
    }
    law_the_first_separator_splits(head, ':', tail);
    law_trimming_takes_off_blanks(' ', index);
    law_trimming_takes_off_blanks(' ', value);
    assert('0' <= index[index.len() - 1] <= '9');
    assert(!crate::text::is_white(index[0]) && !crate::text::is_white(index.last()));
}

/// An array in a dump is read whole: from the line that opens it to the brace
/// that closes it, every element, in order.
pub proof fn law_an_array_is_read_whole(
    dump: Text,
    field: Text,
    i: int,
    j: int,
    indices: Seq<Text>,
    values: Seq<Text>,
)
    requires
        ({
            let lines = lines_of(dump);
            &&& 0 <= i < j < lines.len()
            &&& trimmed(lines[i]) == field + " : <array> {"@
            &&& forall|k: int|
                0 <= k < i ==> !has_prefix(trimmed(#[trigger] lines[k]), field + " :"@)
            &&& trimmed(lines[j]) == "}"@
            &&& values.len() == j - i - 1
            &&& indices.len() == j - i - 1
            &&& forall|k: int|
                i < k < j ==> is_element(
                    #[trigger] lines[k],
                    indices[k - i - 1],
                    values[k - i - 1],
                )
        }),
    ensures
        array_field(dump, field) == values,
{
    let lines = lines_of(dump);
    let opener = trimmed(lines[i]);
    reveal_strlit(" : <array> {");
    reveal_strlit(" :");
    reveal_strlit("<array>");
    reveal_strlit("{");
    let n = field.len() as int;
    assert(opener.subrange(0, n + 2) =~= field + " :"@);
    assert(opener.subrange(n + 3, n + 10) =~= "<array>"@);
    assert(occurs_at(opener, "<array>"@, n + 3));
    assert(opener.subrange(opener.len() - 1, opener.len() as int) =~= "{"@);
    assert(opens_array(opener, field));
    lemma_opener_at(lines, field, 0, i);
    assert forall|k: int| i + 1 <= k < j implies trimmed(#[trigger] lines[k]) != "}"@ by {
        lemma_element(lines[k], indices[k - i - 1], values[k - i - 1]);
    }
    lemma_closer_at(lines, i + 1, j);
    lemma_elements(lines, i + 1, j, indices, values);
    assert(values.take(values.len() as int) =~= values);
}

proof fn lemma_elements(
    lines: Seq<Text>,
    i: int,
    j: int,
    indices: Seq<Text>,
    values: Seq<Text>,
)
    requires
        0 <= i <= j <= lines.len(),
        values.len() >= j - i,
        indices.len() >= j - i,
        forall|k: int|
            i <= k < j ==> is_element(#[trigger] lines[k], indices[k - i], values[k - i]),
    ensures
        elements(lines, i, j) == values.take(j - i),
    decreases j - i,
{
    if i < j {
        lemma_elements(lines, i, j - 1, indices, values);
        assert(is_element(lines[j - 1], indices[j - 1 - i], values[j - 1 - i]));
        lemma_element(lines[j - 1], indices[j - 1 - i], values[j - 1 - i]);
        assert(values.take(j - i) =~= values.take(j - 1 - i).push(values[j - 1 - i]));
    } else {
        assert(values.take(0) =~= Seq::empty());
    }
}

proof fn lemma_no_opener(lines: Seq<Text>, field: Text, i: int)
    requires
        0 <= i <= lines.len(),
        forall|k: int|
            i <= k < lines.len() ==> !has_prefix(trimmed(#[trigger] lines[k]), field + " :"@),
    ensures
        opener_from(lines, field, i) == lines.len(),
        scalar_from(lines, field, i) is None,
    decreases lines.len() - i,
{
    if i < lines.len() {
        lemma_no_opener(lines, field, i + 1);
    }
}

proof fn lemma_scalar_at(lines: Seq<Text>, field: Text, from: int, i: int, value: Text)
    requires
        0 <= from <= i < lines.len(),
        trimmed(lines[i]) == field + " : "@ + value,
        forall|k: int|
            from <= k < i ==> !has_prefix(trimmed(#[trigger] lines[k]), field + " :"@),
        value.len() > 0,
        !crate::text::is_white(value[0]),
        !crate::text::is_white(value.last()),
        !has_part(value, "<array>"@),
        !has_part(value, "<dictionary>"@),
    ensures
        scalar_from(lines, field, from) == Some(value),
    decreases i - from,
{
    if from < i {
        lemma_scalar_at(lines, field, from + 1, i, value);
    } else {
        reveal_strlit(" : ");
        reveal_strlit(" :");
        let tail = seq![' '] + value;
        assert(field + " : "@ + value =~= (field + " :"@) + tail);
        law_prefixes_and_suffixes_come_off(field + " :"@, tail);
        law_trimming_takes_off_blanks(' ', value);
    }
}

/// A value in a dump is read from the first line of its field; a field that is
/// not there has neither a value nor elements.
pub proof fn law_a_value_is_read(dump: Text, field: Text, i: int, value: Text)
    ensures
        ({
            let lines = lines_of(dump);
            &&& 0 <= i < lines.len() && trimmed(lines[i]) == field + " : "@ + value && (forall|
                k: int,
            |
                0 <= k < i ==> !has_prefix(trimmed(#[trigger] lines[k]), field + " :"@))
                && value.len() > 0 && !crate::text::is_white(value[0]) && !crate::text::is_white(
                value.last(),
            ) && !has_part(value, "<array>"@) && !has_part(value, "<dictionary>"@) ==> scalar_field(
                dump,
                field,
            ) == Some(value)
            &&& (forall|k: int|
                0 <= k < lines.len() ==> !has_prefix(trimmed(#[trigger] lines[k]), field + " :"@))
                ==> scalar_field(dump, field) is None && array_field(dump, field).len() == 0
        }),
{
    let lines = lines_of(dump);
    if forall|k: int|
        0 <= k < lines.len() ==> !has_prefix(trimmed(#[trigger] lines[k]), field + " :"@) {
        lemma_no_opener(lines, field, 0);
    }
    if 0 <= i < lines.len() && trimmed(lines[i]) == field + " : "@ + value && (forall|k: int|
        0 <= k < i ==> !has_prefix(trimmed(#[trigger] lines[k]), field + " :"@)) && value.len() > 0
        && !crate::text::is_white(value[0]) && !crate::text::is_white(value.last()) && !has_part(
        value,
        "<array>"@,
    ) && !has_part(value, "<dictionary>"@) {
        lemma_scalar_at(lines, field, 0, i, value);
    }
}

/// An interface is a tunnel exactly by the beginning of its name.
pub proof fn law_tunnels_are_told_by_their_beginning(interface: Text)
    ensures
        is_tunnel(interface) <==> has_prefix(interface, "utun"@) || has_prefix(interface, "ppp"@)
            || has_prefix(interface, "ipsec"@) || has_prefix(interface, "tun"@) || has_prefix(
            interface,
            "tap"@,
        ),
{
}

} // verus!
