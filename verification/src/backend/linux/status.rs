//! Reading a link's DNS state from the output of `resolvectl status`.
//!
//! The output is a block of `<Label>: <values>` lines with right-aligned
//! labels. A field with many values may wrap onto lines that hold values only:
//!
//! ```text
//! Link 5 (tun0)
//!          Protocols: +DefaultRoute +LLMNR -mDNS
//! Current DNS Server: 10.0.0.1
//!        DNS Servers: 10.0.0.1 10.0.0.2
//!                     10.0.0.3
//!         DNS Domain: example.com ~corp.example.com
//! ```
//!
//! Server tokens may carry a port, an interface and a server name. Which of
//! them is an address, and which, is for the caller to say.

use vstd::prelude::*;
use crate::exec::{arguments, complaint, output_or, read_output, CommandOutcome};
use crate::lists::{push_new, with_new};
use crate::platform::PlatformError;
use crate::text::{
    after_prefix, before_suffix, chars_of, copy_texts, has_part, has_prefix, is_lowered,
    law_a_text_holds_its_parts, law_prefixes_and_suffixes_come_off, law_texts_are_split_once,
    lines, lines_of, occurs_at, same_lowered, same_text, split_first, split_once,
    split_whitespace, starts_with, strip_prefix, strip_suffix, strs, texts, trim, trimmed,
    words_of, Text,
};
use crate::wire::{LinkDnsState, LinkModel};

verus! {

/// What a status report says, before its server tokens are judged.
#[derive(Debug, PartialEq, Eq)]
pub struct StatusReport {
    /// Every token that stands where a server may, in order.
    pub server_tokens: Vec<String>,
    /// The routing domains, unmarked and without repeats.
    pub routing_domains: Vec<String>,
    /// Whether the link takes all queries no other link claims.
    pub default_route: Option<bool>,
}

/// The value of a [`StatusReport`].
pub struct ReportModel {
    pub tokens: Seq<Text>,
    pub domains: Seq<Text>,
    pub default_route: Option<bool>,
}

impl View for StatusReport {
    type V = ReportModel;

    open spec fn view(&self) -> ReportModel {
        ReportModel {
            tokens: texts(self.server_tokens@),
            domains: texts(self.routing_domains@),
            default_route: self.default_route,
        }
    }
}

/// The field whose values a line without a label continues.
#[derive(Clone, Copy, PartialEq, Eq, Structural)]
pub enum Section {
    Other,
    Servers,
    Domains,
}

/// What a line is.
pub enum LineModel {
    Blank,
    Servers(Text),
    CurrentServer(Text),
    Domains(Text),
    DefaultRoute(Text),
    Protocols(Text),
    OtherField,
    Continuation,
}

/// May the character stand in a label?
pub open spec fn is_label_char(c: char) -> bool {
    ||| 'a' <= c <= 'z'
    ||| 'A' <= c <= 'Z'
    ||| '0' <= c <= '9'
    ||| c == ' '
    ||| c == '/'
    ||| c == '('
    ||| c == ')'
    ||| c == '-'
}

/// Is the text shaped like a label?
pub open spec fn is_label(t: Text) -> bool {
    t.len() > 0 && forall|i: int| 0 <= i < t.len() ==> is_label_char(#[trigger] t[i])
}

/// What would be the label of a line: what comes before the first `": "`,
/// else before a `":"` at its end.
pub open spec fn label_of(line: Text) -> Option<Text> {
    match split_first(line, ": "@) {
        Some((label, _)) => Some(label),
        None => before_suffix(line, ":"@),
    }
}

/// Does the line begin a new field?
pub open spec fn begins_field(line: Text) -> bool {
    ||| has_prefix(line, "Link "@)
    ||| match label_of(line) {
        Some(label) => is_label(label),
        None => false,
    }
}

/// What a line, trimmed, is.
pub open spec fn line_kind(line: Text) -> LineModel {
    if line.len() == 0 {
        LineModel::Blank
    } else if let Some(values) = after_prefix(line, "DNS Servers:"@) {
        LineModel::Servers(values)
    } else if let Some(values) = after_prefix(line, "Current DNS Server:"@) {
        LineModel::CurrentServer(values)
    } else if let Some(values) = after_prefix(line, "DNS Domain:"@) {
        LineModel::Domains(values)
    } else if let Some(value) = after_prefix(line, "Default Route:"@) {
        LineModel::DefaultRoute(value)
    } else if let Some(value) = after_prefix(line, "Protocols:"@) {
        LineModel::Protocols(value)
    } else if begins_field(line) {
        LineModel::OtherField
    } else {
        LineModel::Continuation
    }
}

/// The flag a `Default Route:` value stands for, if it is one.
pub open spec fn route_flag(value: Text) -> Option<bool> {
    if is_lowered(trimmed(value), "yes"@) {
        Some(true)
    } else if is_lowered(trimmed(value), "no"@) {
        Some(false)
    } else {
        None
    }
}

/// The default-route flag among the protocol tokens; the first that is one
/// decides.
pub open spec fn protocol_flag(tokens: Seq<Text>) -> Option<bool>
    decreases tokens.len(),
{
    if tokens.len() == 0 {
        None
    } else if tokens[0] == "+DefaultRoute"@ {
        Some(true)
    } else if tokens[0] == "-DefaultRoute"@ {
        Some(false)
    } else {
        protocol_flag(tokens.drop_first())
    }
}

/// A domain without its routing marker.
pub open spec fn unmarked(token: Text) -> Text {
    match after_prefix(token, "~"@) {
        Some(domain) => domain,
        None => token,
    }
}

/// The list with the domains of `tokens` added, unless they are there
/// already; a marker alone is no domain.
pub open spec fn with_domains(list: Seq<Text>, tokens: Seq<Text>) -> Seq<Text>
    decreases tokens.len(),
{
    if tokens.len() == 0 {
        list
    } else {
        let rest = with_domains(list, tokens.drop_last());
        let domain = unmarked(tokens.last());
        if domain.len() == 0 {
            rest
        } else {
            with_new(rest, domain)
        }
    }
}

/// What has been read so far.
pub struct ScanModel {
    pub tokens: Seq<Text>,
    pub domains: Seq<Text>,
    /// What a `Default Route:` line said.
    pub explicit: Option<bool>,
    /// What the last `Protocols:` line said.
    pub protocols: Option<bool>,
    pub section: Section,
}

/// Nothing has been read.
pub open spec fn scan_start() -> ScanModel {
    ScanModel {
        tokens: Seq::empty(),
        domains: Seq::empty(),
        explicit: None,
        protocols: None,
        section: Section::Other,
    }
}

/// One more line has been read.
pub open spec fn scan_line(s: ScanModel, line: Text) -> ScanModel {
    match line_kind(trimmed(line)) {
        LineModel::Blank => ScanModel { section: Section::Other, ..s },
        LineModel::Servers(values) => ScanModel {
            tokens: s.tokens + words_of(values),
            section: Section::Servers,
            ..s
        },
        LineModel::CurrentServer(values) => ScanModel {
            tokens: s.tokens + words_of(values),
            section: Section::Other,
            ..s
        },
        LineModel::Domains(values) => ScanModel {
            domains: with_domains(s.domains, words_of(values)),
            section: Section::Domains,
            ..s
        },
        LineModel::DefaultRoute(value) => ScanModel {
            explicit: match route_flag(value) {
                Some(flag) => Some(flag),
                None => s.explicit,
            },
            section: Section::Other,
            ..s
        },
        LineModel::Protocols(value) => ScanModel {
            protocols: protocol_flag(words_of(value)),
            section: Section::Other,
            ..s
        },
        LineModel::OtherField => ScanModel { section: Section::Other, ..s },
        LineModel::Continuation => match s.section {
            Section::Servers => ScanModel { tokens: s.tokens + words_of(trimmed(line)), ..s },
            Section::Domains => ScanModel {
                domains: with_domains(s.domains, words_of(trimmed(line))),
                ..s
            },
            Section::Other => s,
        },
    }
}

/// The first `n` lines have been read.
pub open spec fn scan_lines(lines: Seq<Text>, n: int) -> ScanModel
    decreases n,
{
    if n <= 0 {
        scan_start()
    } else {
        scan_line(scan_lines(lines, n - 1), lines[n - 1])
    }
}

/// What the output of `resolvectl status` says. An explicit `Default Route:`
/// line wins over the flag among the protocols.
pub open spec fn report_of(output: Text) -> ReportModel {
    let all = lines_of(output);
    let end = scan_lines(all, all.len() as int);
    ReportModel {
        tokens: end.tokens,
        domains: end.domains,
        default_route: match end.explicit {
            Some(flag) => Some(flag),
            None => end.protocols,
        },
    }
}

/// The addresses among the first `n` verdicts, without repeats.
pub open spec fn addresses_of(verdicts: Seq<Option<String>>, n: int) -> Seq<Text>
    decreases n,
{
    if n <= 0 {
        Seq::empty()
    } else {
        match verdicts[n - 1] {
            Some(address) => with_new(addresses_of(verdicts, n - 1), address@),
            None => addresses_of(verdicts, n - 1),
        }
    }
}

/// The flag a `Default Route:` value stands for. Any other value leaves it
/// unknown.
pub fn parse_default_route(value: &str) -> (r: Option<bool>)
    ensures
        r == route_flag(value@),
{
    let value = trim(value);
    if same_lowered(value, "yes") {
        Some(true)
    } else if same_lowered(value, "no") {
        Some(false)
    } else {
        None
    }
}

/// The default-route flag among the tokens of a `Protocols:` line, where older
/// versions of `resolvectl` report it.
pub fn parse_protocols_default_route(values: &str) -> (r: Option<bool>)
    ensures
        r == protocol_flag(words_of(values@)),
{
    let tokens = split_whitespace(values);
    let ghost all = strs(tokens@);
    let mut i: usize = 0;
    proof {
        assert(all.skip(0) =~= all);
    }
    while i < tokens.len()
        invariant
            i <= tokens.len(),
            all == strs(tokens@),
            all == words_of(values@),
            protocol_flag(all) == protocol_flag(all.skip(i as int)),
        decreases tokens.len() - i,
    {
        proof {
            assert(all.skip(i as int).drop_first() =~= all.skip(i + 1));
        }
        if same_text(tokens[i], "+DefaultRoute") {
            return Some(true);
        }
        if same_text(tokens[i], "-DefaultRoute") {
            return Some(false);
        }
        i += 1;
    }
    None
}

/// Add the words of `values` to the tokens.
fn push_servers(values: &str, tokens: &mut Vec<String>)
    ensures
        texts(final(tokens)@) == texts(old(tokens)@) + words_of(values@),
{
    let words = split_whitespace(values);
    let ghost all = strs(words@);
    let ghost before = texts(tokens@);
    let mut i: usize = 0;
    proof {
        assert(texts(tokens@) =~= before + all.take(0));
    }
    while i < words.len()
        invariant
            i <= words.len(),
            all == strs(words@),
            texts(tokens@) == before + all.take(i as int),
        decreases words.len() - i,
    {
        let ghost earlier = tokens@;
        tokens.push(words[i].to_owned());
        proof {
            assert(texts(tokens@) =~= texts(earlier).push(all[i as int]));
            assert(before + all.take(i + 1) =~= (before + all.take(i as int)).push(all[i as int]));
        }
        i += 1;
    }
    proof {
        assert(all.take(i as int) =~= all);
    }
}

/// Add the words of `values` to the domains, without their markers and
/// without repeats.
pub fn push_domains(values: &str, domains: &mut Vec<String>)
    ensures
        texts(final(domains)@) == with_domains(texts(old(domains)@), words_of(values@)),
{
    let words = split_whitespace(values);
    let ghost all = strs(words@);
    let ghost before = texts(domains@);
    let mut i: usize = 0;
    proof {
        assert(all.take(0) =~= Seq::empty());
    }
    while i < words.len()
        invariant
            i <= words.len(),
            all == strs(words@),
            texts(domains@) == with_domains(before, all.take(i as int)),
        decreases words.len() - i,
    {
        proof {
            assert(all.take(i + 1).drop_last() =~= all.take(i as int));
        }
        let token = words[i];
        let domain = match strip_prefix(token, "~") {
            Some(rest) => rest,
            None => token,
        };
        if !domain.is_empty() {
            push_new(domains, domain);
        }
        i += 1;
    }
    proof {
        assert(all.take(i as int) =~= all);
    }
}

fn label_shaped(s: &str) -> (r: bool)
    ensures
        r == is_label(s@),
{
    let chars = chars_of(s);
    if chars.len() == 0 {
        return false;
    }
    let mut i: usize = 0;
    while i < chars.len()
        invariant
            i <= chars.len(),
            chars@ == s@,
            forall|k: int| 0 <= k < i ==> is_label_char(#[trigger] s@[k]),
        decreases chars.len() - i,
    {
        let c = chars[i];
        let fits = ('a' <= c && c <= 'z') || ('A' <= c && c <= 'Z') || ('0' <= c && c <= '9') || c
            == ' ' || c == '/' || c == '(' || c == ')' || c == '-';
        if !fits {
            assert(!is_label_char(s@[i as int]));
            return false;
        }
        i += 1;
    }
    true
}

/// Whether a trimmed line begins a new field rather than continuing a wrapped
/// one. A domain holds no colon and an address no `": "`, so neither reads as
/// a label.
pub fn looks_like_new_field(line: &str) -> (r: bool)
    ensures
        r == begins_field(line@),
{
    if starts_with(line, "Link ") {
        return true;
    }
    match split_once(line, ": ") {
        Some((label, _)) => label_shaped(label),
        None => match strip_suffix(line, ":") {
            Some(label) => label_shaped(label),
            None => false,
        },
    }
}

/// Read the output of `resolvectl status <interface>`. Whatever does not
/// parse is left out.
pub fn parse_resolvectl_status(output: &str) -> (r: StatusReport)
    ensures
        r@ == report_of(output@),
{
    let all = lines(output);
    let ghost texts_of_lines = strs(all@);
    let mut tokens: Vec<String> = Vec::new();
    let mut domains: Vec<String> = Vec::new();
    let mut explicit: Option<bool> = None;
    let mut protocols: Option<bool> = None;
    let mut section = Section::Other;
    let mut i: usize = 0;
    proof {
        assert(texts(tokens@) =~= Seq::<Text>::empty());
        assert(texts(domains@) =~= Seq::<Text>::empty());
    }
    while i < all.len()
        invariant
            i <= all.len(),
            texts_of_lines == strs(all@),
            scan_lines(texts_of_lines, i as int) == (ScanModel {
                tokens: texts(tokens@),
                domains: texts(domains@),
                explicit,
                protocols,
                section,
            }),
        decreases all.len() - i,
    {
        let line = trim(all[i]);
        if line.is_empty() {
            section = Section::Other;
        } else if let Some(values) = strip_prefix(line, "DNS Servers:") {
            section = Section::Servers;
            push_servers(values, &mut tokens);
        } else if let Some(values) = strip_prefix(line, "Current DNS Server:") {
            section = Section::Other;
            push_servers(values, &mut tokens);
        } else if let Some(values) = strip_prefix(line, "DNS Domain:") {
            section = Section::Domains;
            push_domains(values, &mut domains);
        } else if let Some(value) = strip_prefix(line, "Default Route:") {
            section = Section::Other;
            if let Some(flag) = parse_default_route(value) {
                explicit = Some(flag);
            }
        } else if let Some(value) = strip_prefix(line, "Protocols:") {
            section = Section::Other;
            protocols = parse_protocols_default_route(value);
        } else if looks_like_new_field(line) {
            section = Section::Other;
        } else {
            match section {
                Section::Servers => push_servers(line, &mut tokens),
                Section::Domains => push_domains(line, &mut domains),
                Section::Other => {},
            }
        }
        i += 1;
    }
    StatusReport {
        server_tokens: tokens,
        routing_domains: domains,
        default_route: match explicit {
            Some(flag) => Some(flag),
            None => protocols,
        },
    }
}

/// The arguments of `resolvectl` that show an interface's status.
pub fn status_arguments(interface: &str) -> (r: Vec<String>)
    ensures
        texts(r@) == seq!["status"@, interface@],
{
    let args = arguments("status", interface, &Vec::new());
    assert(texts(args@) =~= seq!["status"@, interface@]);
    args
}

/// The report that showing a link's status gave, or why there is none.
pub fn read_link_state(outcome: CommandOutcome) -> (r: Result<StatusReport, PlatformError>)
    ensures
        match output_or(outcome@, complaint(outcome@)) {
            Ok(output) => r is Ok && (r->Ok_0)@ == report_of(output),
            Err(e) => r is Err && (r->Err_0)@ == e,
        },
{
    match read_output(outcome) {
        Ok(output) => Ok(parse_resolvectl_status(output.as_str())),
        Err(e) => Err(e),
    }
}

impl StatusReport {
    /// The link's state, given the address each server token stands for, or
    /// `None` where it is no address.
    pub fn link_state(&self, addresses: &Vec<Option<String>>) -> (r: LinkDnsState)
        ensures
            r@ == (LinkModel {
                servers: addresses_of(addresses@, addresses@.len() as int),
                domains: self@.domains,
                default_route: self@.default_route,
            }),
    {
        let mut servers: Vec<String> = Vec::new();
        let mut i: usize = 0;
        proof {
            assert(texts(servers@) =~= Seq::<Text>::empty());
        }
        while i < addresses.len()
            invariant
                i <= addresses.len(),
                texts(servers@) == addresses_of(addresses@, i as int),
            decreases addresses.len() - i,
        {
            if let Some(address) = &addresses[i] {
                push_new(&mut servers, address.as_str());
            }
            i += 1;
        }
        LinkDnsState {
            servers,
            routing_domains: copy_texts(&self.routing_domains),
            default_route: self.default_route,
        }
    }
}

// ---------------------------------------------------------------------------
// Laws
// ---------------------------------------------------------------------------

proof fn lemma_with_domains(list: Seq<Text>, tokens: Seq<Text>)
    requires
        list.no_duplicates(),
        forall|i: int| 0 <= i < list.len() ==> (#[trigger] list[i]).len() > 0,
    ensures
        with_domains(list, tokens).no_duplicates(),
        forall|i: int|
            0 <= i < with_domains(list, tokens).len() ==> (#[trigger] with_domains(
                list,
                tokens,
            )[i]).len() > 0,
    decreases tokens.len(),
{
    if tokens.len() > 0 {
        lemma_with_domains(list, tokens.drop_last());
    }
}

proof fn lemma_scan(lines: Seq<Text>, n: int)
    ensures
        scan_lines(lines, n).domains.no_duplicates(),
        forall|i: int|
            0 <= i < scan_lines(lines, n).domains.len() ==> (#[trigger] scan_lines(
                lines,
                n,
            ).domains[i]).len() > 0,
    decreases n,
{
    if n > 0 {
        lemma_scan(lines, n - 1);
        let before = scan_lines(lines, n - 1);
        match line_kind(trimmed(lines[n - 1])) {
            LineModel::Domains(values) => lemma_with_domains(before.domains, words_of(values)),
            LineModel::Continuation => lemma_with_domains(
                before.domains,
                words_of(trimmed(lines[n - 1])),
            ),
            _ => {},
        }
    }
}

/// Whatever the output, no routing domain is reported twice and none is
/// empty.
pub proof fn law_domains_are_distinct_and_named(output: Text)
    ensures
        report_of(output).domains.no_duplicates(),
        forall|i: int|
            0 <= i < report_of(output).domains.len() ==> (#[trigger] report_of(
                output,
            ).domains[i]).len() > 0,
{
    lemma_scan(lines_of(output), lines_of(output).len() as int);
}

/// Whatever the verdicts, no server is reported twice.
pub proof fn law_servers_are_distinct(verdicts: Seq<Option<String>>, n: int)
    ensures
        addresses_of(verdicts, n).no_duplicates(),
    decreases n,
{
    if n > 0 {
        law_servers_are_distinct(verdicts, n - 1);
    }
}

proof fn lemma_not_prefixed(line: Text, pat: Text, k: int)
    requires
        0 <= k < pat.len(),
        k < line.len(),
        line[k] != pat[k],
    ensures
        after_prefix(line, pat) is None,
{
    if has_prefix(line, pat) {
        assert(line.subrange(0, pat.len() as int)[k] == line[k]);
    }
}

/// The labels that count, each with whatever follows it.
pub proof fn law_labels_open_fields(v: Text)
    ensures
        line_kind("DNS Servers:"@ + v) == LineModel::Servers(v),
        line_kind("Current DNS Server:"@ + v) == LineModel::CurrentServer(v),
        line_kind("DNS Domain:"@ + v) == LineModel::Domains(v),
        line_kind("Default Route:"@ + v) == LineModel::DefaultRoute(v),
        line_kind("Protocols:"@ + v) == LineModel::Protocols(v),
        line_kind(Seq::empty()) == LineModel::Blank,
{
    reveal_strlit("DNS Servers:");
    reveal_strlit("Current DNS Server:");
    reveal_strlit("DNS Domain:");
    reveal_strlit("Default Route:");
    reveal_strlit("Protocols:");
    law_prefixes_and_suffixes_come_off("DNS Servers:"@, v);
    law_prefixes_and_suffixes_come_off("Current DNS Server:"@, v);
    law_prefixes_and_suffixes_come_off("DNS Domain:"@, v);
    law_prefixes_and_suffixes_come_off("Default Route:"@, v);
    law_prefixes_and_suffixes_come_off("Protocols:"@, v);
    lemma_not_prefixed("Current DNS Server:"@ + v, "DNS Servers:"@, 0);
    lemma_not_prefixed("DNS Domain:"@ + v, "DNS Servers:"@, 4);
    lemma_not_prefixed("DNS Domain:"@ + v, "Current DNS Server:"@, 0);
    lemma_not_prefixed("Default Route:"@ + v, "DNS Servers:"@, 1);
    lemma_not_prefixed("Default Route:"@ + v, "Current DNS Server:"@, 0);
    lemma_not_prefixed("Default Route:"@ + v, "DNS Domain:"@, 1);
    lemma_not_prefixed("Protocols:"@ + v, "DNS Servers:"@, 0);
    lemma_not_prefixed("Protocols:"@ + v, "Current DNS Server:"@, 0);
    lemma_not_prefixed("Protocols:"@ + v, "DNS Domain:"@, 0);
    lemma_not_prefixed("Protocols:"@ + v, "Default Route:"@, 0);
}

proof fn lemma_unlabelled(line: Text, pat: Text, k: int)
    requires
        !line.contains(':'),
        0 <= k < pat.len(),
        pat[k] == ':',
    ensures
        after_prefix(line, pat) is None,
        before_suffix(line, pat) is None,
        !has_part(line, pat),
{
    assert forall|i: int| !occurs_at(line, pat, i) by {
        if occurs_at(line, pat, i) {
            assert(line.subrange(i, i + pat.len())[k] == line[i + k]);
            assert(line.contains(line[i + k]));
        }
    }
}

/// A line that holds no colon continues the field before it, unless it is
/// blank or the heading of a link.
pub proof fn law_a_line_without_a_label_continues(line: Text)
    requires
        line.len() > 0,
        !line.contains(':'),
        !has_prefix(line, "Link "@),
    ensures
        line_kind(line) == LineModel::Continuation,
{
    reveal_strlit("DNS Servers:");
    reveal_strlit("Current DNS Server:");
    reveal_strlit("DNS Domain:");
    reveal_strlit("Default Route:");
    reveal_strlit("Protocols:");
    reveal_strlit(": ");
    reveal_strlit(":");
    lemma_unlabelled(line, "DNS Servers:"@, 11);
    lemma_unlabelled(line, "Current DNS Server:"@, 18);
    lemma_unlabelled(line, "DNS Domain:"@, 10);
    lemma_unlabelled(line, "Default Route:"@, 13);
    lemma_unlabelled(line, "Protocols:"@, 9);
    lemma_unlabelled(line, ": "@, 0);
    lemma_unlabelled(line, ":"@, 0);
    law_texts_are_split_once(line, ": "@);
}

/// Any other label, and the heading of a link, ends the field before it.
pub proof fn law_other_labels_end_a_field(label: Text, v: Text)
    requires
        label.len() > 0,
        forall|i: int|
            0 <= i < label.len() ==> ('a' <= #[trigger] label[i] <= 'z' || 'A' <= label[i] <= 'Z'
                || '0' <= label[i] <= '9' || label[i] == ' ' || label[i] == '/' || label[i] == '('
                || label[i] == ')' || label[i] == '-'),
        label != "DNS Servers"@,
        label != "Current DNS Server"@,
        label != "DNS Domain"@,
        label != "Default Route"@,
        label != "Protocols"@,
    ensures
        line_kind(label + ": "@ + v) == LineModel::OtherField,
        line_kind("Link "@ + v) == LineModel::OtherField,
{
    reveal_strlit(": ");
    let line = label + ": "@ + v;
    let n = label.len() as int;
    law_texts_are_split_once(line, ": "@);
    law_a_text_holds_its_parts(label, ": "@, v);
    let (a, b) = split_first(line, ": "@)->0;
    assert(line[n] == ':');
    assert(line.subrange(n, n + 2) =~= ": "@);
    assert(occurs_at(line, ": "@, n));
    assert(line[a.len() as int] == ':');
    assert forall|i: int| 0 <= i < n implies line[i] != ':' by {
        assert(line[i] == label[i]);
    }
    assert(a.len() == n);
    assert(a =~= label) by {
        assert(line.subrange(0, n) =~= label);
        assert((a + ": "@ + b).subrange(0, n) =~= a);
    }
    assert(is_label(label));
    reveal_strlit("DNS Servers:");
    reveal_strlit("Current DNS Server:");
    reveal_strlit("DNS Domain:");
    reveal_strlit("Default Route:");
    reveal_strlit("Protocols:");
    reveal_strlit("DNS Servers");
    reveal_strlit("Current DNS Server");
    reveal_strlit("DNS Domain");
    reveal_strlit("Default Route");
    reveal_strlit("Protocols");
    lemma_label_not(label, v, "DNS Servers:"@, "DNS Servers"@);
    lemma_label_not(label, v, "Current DNS Server:"@, "Current DNS Server"@);
    lemma_label_not(label, v, "DNS Domain:"@, "DNS Domain"@);
    lemma_label_not(label, v, "Default Route:"@, "Default Route"@);
    lemma_label_not(label, v, "Protocols:"@, "Protocols"@);
    let link = "Link "@ + v;
    reveal_strlit("Link ");
    law_prefixes_and_suffixes_come_off("Link "@, v);
    assert(has_prefix(link, "Link "@)) by {
        assert(link.subrange(0, 5) =~= "Link "@);
    }
    lemma_not_prefixed(link, "DNS Servers:"@, 0);
    lemma_not_prefixed(link, "Current DNS Server:"@, 0);
    lemma_not_prefixed(link, "DNS Domain:"@, 0);
    lemma_not_prefixed(link, "Default Route:"@, 0);
    lemma_not_prefixed(link, "Protocols:"@, 0);
}

proof fn lemma_label_not(label: Text, v: Text, pat: Text, name: Text)
    requires
        pat =~= name.push(':'),
        label != name,
        !name.contains(':'),
        forall|i: int| 0 <= i < label.len() ==> #[trigger] label[i] != ':',
    ensures
        after_prefix(label + ": "@ + v, pat) is None,
{
    reveal_strlit(": ");
    let line = label + ": "@ + v;
    let n = label.len() as int;
    if has_prefix(line, pat) {
        let m = name.len() as int;
        let head = line.subrange(0, pat.len() as int);
        assert(head[m] == ':');
        assert(line[m] == ':');
        assert(line[n] == ':');
        if m < n {
            assert(label[m] == ':');
        } else if n < m {
            assert(head[n] == line[n]);
            assert(name[n] == ':');
            assert(name.contains(name[n]));
        } else {
            assert(label =~= name) by {
                assert forall|i: int| 0 <= i < n implies label[i] == name[i] by {
                    assert(head[i] == line[i]);
                }
            }
        }
    }
}

/// A field of servers or of domains is opened by its label and stays open over
/// every line that continues it, however many came before; each such line adds
/// its words. Every other line ends it.
pub proof fn law_a_field_stays_open(s: ScanModel, line: Text)
    ensures
        match line_kind(trimmed(line)) {
            LineModel::Servers(v) => {
                &&& scan_line(s, line).section == Section::Servers
                &&& scan_line(s, line).tokens == s.tokens + words_of(v)
                &&& scan_line(s, line).domains == s.domains
            },
            LineModel::Domains(v) => {
                &&& scan_line(s, line).section == Section::Domains
                &&& scan_line(s, line).tokens == s.tokens
                &&& scan_line(s, line).domains == with_domains(s.domains, words_of(v))
            },
            LineModel::CurrentServer(v) => {
                &&& scan_line(s, line).section == Section::Other
                &&& scan_line(s, line).tokens == s.tokens + words_of(v)
                &&& scan_line(s, line).domains == s.domains
            },
            LineModel::Continuation => {
                &&& scan_line(s, line).section == s.section
                &&& scan_line(s, line).tokens == if s.section == Section::Servers {
                    s.tokens + words_of(trimmed(line))
                } else {
                    s.tokens
                }
                &&& scan_line(s, line).domains == if s.section == Section::Domains {
                    with_domains(s.domains, words_of(trimmed(line)))
                } else {
                    s.domains
                }
                &&& scan_line(s, line).explicit == s.explicit
                &&& scan_line(s, line).protocols == s.protocols
            },
            _ => {
                &&& scan_line(s, line).section == Section::Other
                &&& scan_line(s, line).tokens == s.tokens
                &&& scan_line(s, line).domains == s.domains
            },
        },
{
}

/// The words of the lines from `i` to `j`.
pub open spec fn words_between(lines: Seq<Text>, i: int, j: int) -> Seq<Text>
    decreases j - i,
{
    if i >= j {
        Seq::empty()
    } else {
        words_between(lines, i, j - 1) + words_of(trimmed(lines[j - 1]))
    }
}

proof fn lemma_domains_join(list: Seq<Text>, a: Seq<Text>, b: Seq<Text>)
    ensures
        with_domains(list, a + b) == with_domains(with_domains(list, a), b),
    decreases b.len(),
{
    if b.len() > 0 {
        lemma_domains_join(list, a, b.drop_last());
        assert((a + b).drop_last() =~= a + b.drop_last());
        assert((a + b).last() == b.last());
    } else {
        assert(a + b =~= a);
    }
}

/// A field that wraps over lines is read whole: its values are those on its
/// own line, followed by those on every line that continues it.
pub proof fn law_a_wrapped_field_is_read_whole(lines: Seq<Text>, i: int, j: int, v: Text)
    requires
        0 <= i < j <= lines.len(),
        forall|k: int|
            i < k < j ==> line_kind(trimmed(#[trigger] lines[k])) == LineModel::Continuation,
    ensures
        line_kind(trimmed(lines[i])) == LineModel::Domains(v) ==> {
            &&& scan_lines(lines, j).section == Section::Domains
            &&& scan_lines(lines, j).domains == with_domains(
                scan_lines(lines, i).domains,
                words_of(v) + words_between(lines, i + 1, j),
            )
        },
        line_kind(trimmed(lines[i])) == LineModel::Servers(v) ==> {
            &&& scan_lines(lines, j).section == Section::Servers
            &&& scan_lines(lines, j).tokens == scan_lines(lines, i).tokens + words_of(v)
                + words_between(lines, i + 1, j)
        },
    decreases j,
{
    if j > i + 1 {
        law_a_wrapped_field_is_read_whole(lines, i, j - 1, v);
        assert(line_kind(trimmed(lines[j - 1])) == LineModel::Continuation);
        let w = words_of(trimmed(lines[j - 1]));
        let before = words_between(lines, i + 1, j - 1);
        lemma_domains_join(scan_lines(lines, i).domains, words_of(v) + before, w);
        assert(words_of(v) + before + w =~= words_of(v) + words_between(lines, i + 1, j));
        assert(scan_lines(lines, i).tokens + words_of(v) + before + w =~= scan_lines(
            lines,
            i,
        ).tokens + words_of(v) + words_between(lines, i + 1, j));
    } else {
        assert(words_between(lines, i + 1, j) =~= Seq::empty());
        assert(words_of(v) + words_between(lines, i + 1, j) =~= words_of(v));
        assert(scan_lines(lines, i).tokens + words_of(v) + words_between(lines, i + 1, j)
            =~= scan_lines(lines, i).tokens + words_of(v));
    }
}

proof fn lemma_domains_contain(list: Seq<Text>, tokens: Seq<Text>, x: Text)
    ensures
        with_domains(list, tokens).contains(x) <==> list.contains(x) || exists|k: int|
            0 <= k < tokens.len() && unmarked(#[trigger] tokens[k]) == x && x.len() > 0,
    decreases tokens.len(),
{
    if tokens.len() > 0 {
        lemma_domains_contain(list, tokens.drop_last(), x);
        let rest = with_domains(list, tokens.drop_last());
        let all = with_domains(list, tokens);
        let d = unmarked(tokens.last());
        assert(all.contains(x) <==> rest.contains(x) || d == x && x.len() > 0) by {
            if rest.contains(x) {
                assert(all[rest.index_of(x)] == x);
            }
            if d == x && x.len() > 0 && !rest.contains(x) {
                assert(all.last() == x);
            }
        }
        if exists|k: int|
            0 <= k < tokens.drop_last().len() && unmarked(#[trigger] tokens.drop_last()[k]) == x
                && x.len() > 0 {
            let k = choose|k: int|
                0 <= k < tokens.drop_last().len() && unmarked(#[trigger] tokens.drop_last()[k])
                    == x && x.len() > 0;
            assert(unmarked(tokens[k]) == x);
        }
        if exists|k: int|
            0 <= k < tokens.len() && unmarked(#[trigger] tokens[k]) == x && x.len() > 0 {
            let k = choose|k: int|
                0 <= k < tokens.len() && unmarked(#[trigger] tokens[k]) == x && x.len() > 0;
            if k < tokens.len() - 1 {
                assert(tokens.drop_last()[k] == tokens[k]);
            }
        }
    }
}

/// A routing domain is reported under its bare name, marked or not; every one
/// that is named is taken in, and nothing else.
pub proof fn law_named_domains_are_taken_in(list: Seq<Text>, tokens: Seq<Text>, domain: Text)
    ensures
        with_domains(list, tokens).contains(domain) <==> list.contains(domain) || domain.len() > 0
            && (tokens.contains(seq!['~'] + domain) || tokens.contains(domain) && domain[0] != '~'),
{
    reveal_strlit("~");
    assert("~"@ =~= seq!['~']);
    lemma_domains_contain(list, tokens, domain);
    let marked = seq!['~'] + domain;
    law_prefixes_and_suffixes_come_off("~"@, domain);
    if tokens.contains(marked) {
        let k = tokens.index_of(marked);
        assert(unmarked(tokens[k]) == domain);
    }
    if domain.len() > 0 && tokens.contains(domain) && domain[0] != '~' {
        let k = tokens.index_of(domain);
        lemma_not_prefixed(domain, "~"@, 0);
        assert(unmarked(tokens[k]) == domain);
    }
    if exists|k: int|
        0 <= k < tokens.len() && unmarked(#[trigger] tokens[k]) == domain && domain.len() > 0 {
        let k = choose|k: int|
            0 <= k < tokens.len() && unmarked(#[trigger] tokens[k]) == domain && domain.len() > 0;
        law_prefixes_and_suffixes_come_off("~"@, tokens[k]);
        assert(tokens.contains(tokens[k]));
        if after_prefix(tokens[k], "~"@) is None {
            if domain[0] == '~' {
                assert(domain.subrange(0, 1) =~= "~"@);
            }
        }
    }
}

proof fn lemma_scan_keeps(lines: Seq<Text>, j: int, n: int, x: Text)
    requires
        0 <= j <= n <= lines.len(),
    ensures
        scan_lines(lines, j).domains.contains(x) ==> scan_lines(lines, n).domains.contains(x),
        scan_lines(lines, j).tokens.contains(x) ==> scan_lines(lines, n).tokens.contains(x),
    decreases n - j,
{
    if j < n {
        lemma_scan_keeps(lines, j, n - 1, x);
        let s = scan_lines(lines, n - 1);
        let line = lines[n - 1];
        match line_kind(trimmed(line)) {
            LineModel::Domains(v) => lemma_domains_contain(s.domains, words_of(v), x),
            LineModel::Continuation => lemma_domains_contain(
                s.domains,
                words_of(trimmed(line)),
                x,
            ),
            _ => {},
        }
        if s.tokens.contains(x) {
            let k = s.tokens.index_of(x);
            assert(scan_lines(lines, n).tokens[k] == x);
        }
    }
}

proof fn lemma_words_between(lines: Seq<Text>, i: int, j: int, k: int, w: Text)
    requires
        i <= k < j,
        words_of(trimmed(lines[k])).contains(w),
    ensures
        words_between(lines, i, j).contains(w),
    decreases j - i,
{
    let rest = words_between(lines, i, j - 1);
    let last = words_of(trimmed(lines[j - 1]));
    if k == j - 1 {
        assert((rest + last)[rest.len() + last.index_of(w)] == w);
    } else {
        lemma_words_between(lines, i, j - 1, k, w);
        assert((rest + last)[rest.index_of(w)] == w);
    }
}

/// Every value of a field is in the report, whether it stands on the field's
/// own line or on one that continues it, however many lines later.
pub proof fn law_every_value_is_reported(output: Text, i: int, j: int, v: Text, w: Text)
    requires
        ({
            let lines = lines_of(output);
            &&& 0 <= i <= j < lines.len()
            &&& forall|k: int|
                i < k <= j ==> line_kind(trimmed(#[trigger] lines[k])) == LineModel::Continuation
            &&& i == j ==> words_of(v).contains(w)
            &&& i < j ==> words_of(trimmed(lines[j])).contains(w)
        }),
    ensures
        line_kind(trimmed(lines_of(output)[i])) == LineModel::Servers(v) ==> report_of(
            output,
        ).tokens.contains(w),
        line_kind(trimmed(lines_of(output)[i])) == LineModel::Domains(v) && unmarked(w).len() > 0
            ==> report_of(output).domains.contains(unmarked(w)),
{
    let lines = lines_of(output);
    let n = lines.len() as int;
    law_a_wrapped_field_is_read_whole(lines, i, j + 1, v);
    let all = words_of(v) + words_between(lines, i + 1, j + 1);
    assert(all.contains(w)) by {
        if i == j {
            assert(all[words_of(v).index_of(w)] == w);
        } else {
            lemma_words_between(lines, i + 1, j + 1, j, w);
            let more = words_between(lines, i + 1, j + 1);
            assert(all[words_of(v).len() + more.index_of(w)] == w);
        }
    }
    let before = scan_lines(lines, i);
    assert(before.tokens + words_of(v) + words_between(lines, i + 1, j + 1) =~= before.tokens
        + all);
    assert((before.tokens + all)[before.tokens.len() + all.index_of(w)] == w);
    lemma_domains_contain(before.domains, all, unmarked(w));
    assert(unmarked(all[all.index_of(w)]) == unmarked(w));
    lemma_scan_keeps(lines, j + 1, n, w);
    lemma_scan_keeps(lines, j + 1, n, unmarked(w));
}

/// What is reported stands in the output: each domain, marked or not, and each
/// server token is a word of some line.
pub proof fn law_nothing_is_reported_that_is_not_there(output: Text, x: Text)
    ensures
        report_of(output).tokens.contains(x) ==> exists|k: int|
            0 <= k < lines_of(output).len() && #[trigger] stands_on(lines_of(output)[k], x),
        report_of(output).domains.contains(x) ==> exists|k: int|
            0 <= k < lines_of(output).len() && #[trigger] stands_on_marked(lines_of(output)[k], x),
{
    lemma_scan_sound(lines_of(output), lines_of(output).len() as int, x);
}

/// Is `x` a word of the line, or of what follows its label?
pub open spec fn stands_on(line: Text, x: Text) -> bool {
    words_of(trimmed(line)).contains(x) || exists|a: Text, b: Text|
        trimmed(line) == #[trigger] (a + b) && words_of(b).contains(x)
}

/// Is `x`, marked or not, a word of the line, or of what follows its label?
pub open spec fn stands_on_marked(line: Text, x: Text) -> bool {
    exists|w: Text| #[trigger] stands_on(line, w) && unmarked(w) == x
}

proof fn lemma_value_stands(line: Text, label: Text, v: Text, x: Text)
    requires
        after_prefix(trimmed(line), label) == Some(v),
        words_of(v).contains(x),
    ensures
        stands_on(line, x),
{
    law_prefixes_and_suffixes_come_off(label, trimmed(line));
    assert(trimmed(line) == label + v);
}

proof fn lemma_scan_sound(lines: Seq<Text>, n: int, x: Text)
    requires
        0 <= n <= lines.len(),
    ensures
        scan_lines(lines, n).tokens.contains(x) ==> exists|k: int|
            0 <= k < n && #[trigger] stands_on(lines[k], x),
        scan_lines(lines, n).domains.contains(x) ==> exists|k: int|
            0 <= k < n && #[trigger] stands_on_marked(lines[k], x),
    decreases n,
{
    if n > 0 {
        lemma_scan_sound(lines, n - 1, x);
        let s = scan_lines(lines, n - 1);
        let line = lines[n - 1];
        let after = scan_lines(lines, n);
        if s.tokens.contains(x) {
            let k = choose|k: int| 0 <= k < n - 1 && #[trigger] stands_on(lines[k], x);
            assert(stands_on(lines[k], x));
        } else if after.tokens.contains(x) {
            let i = after.tokens.index_of(x);
            if i < s.tokens.len() {
                assert(s.tokens[i] == x);
            }
            match line_kind(trimmed(line)) {
                LineModel::Servers(v) => {
                    assert(words_of(v)[i - s.tokens.len()] == x);
                    lemma_value_stands(line, "DNS Servers:"@, v, x);
                },
                LineModel::CurrentServer(v) => {
                    assert(words_of(v)[i - s.tokens.len()] == x);
                    lemma_value_stands(line, "Current DNS Server:"@, v, x);
                },
                _ => {
                    assert(words_of(trimmed(line))[i - s.tokens.len()] == x);
                },
            }
            assert(stands_on(lines[n - 1], x));
        }
        if s.domains.contains(x) {
            let k = choose|k: int| 0 <= k < n - 1 && #[trigger] stands_on_marked(lines[k], x);
            assert(stands_on_marked(lines[k], x));
        } else if after.domains.contains(x) {
            match line_kind(trimmed(line)) {
                LineModel::Domains(v) => {
                    lemma_domains_contain(s.domains, words_of(v), x);
                    let k = choose|k: int|
                        0 <= k < words_of(v).len() && unmarked(#[trigger] words_of(v)[k]) == x
                            && x.len() > 0;
                    assert(words_of(v).contains(words_of(v)[k]));
                    lemma_value_stands(line, "DNS Domain:"@, v, words_of(v)[k]);
                },
                _ => {
                    let words = words_of(trimmed(line));
                    lemma_domains_contain(s.domains, words, x);
                    let k = choose|k: int|
                        0 <= k < words.len() && unmarked(#[trigger] words[k]) == x && x.len() > 0;
                    assert(words.contains(words[k]));
                    assert(stands_on(line, words[k]));
                },
            }
            assert(stands_on_marked(lines[n - 1], x));
        }
    }
}

/// The default route is what its own line says last, if one says it; else
/// what the last line of protocols says.
pub proof fn law_the_default_route_is_read(s: ScanModel, line: Text)
    ensures
        match line_kind(trimmed(line)) {
            LineModel::DefaultRoute(v) => {
                &&& is_lowered(trimmed(v), "yes"@) ==> scan_line(s, line).explicit == Some(true)
                &&& is_lowered(trimmed(v), "no"@) ==> scan_line(s, line).explicit == Some(false)
                &&& !is_lowered(trimmed(v), "yes"@) && !is_lowered(trimmed(v), "no"@) ==> scan_line(
                    s,
                    line,
                ).explicit == s.explicit
                &&& scan_line(s, line).protocols == s.protocols
            },
            LineModel::Protocols(v) => {
                &&& scan_line(s, line).explicit == s.explicit
                &&& words_of(v).contains("+DefaultRoute"@) && !words_of(v).contains(
                    "-DefaultRoute"@,
                ) ==> scan_line(s, line).protocols == Some(true)
                &&& words_of(v).contains("-DefaultRoute"@) && !words_of(v).contains(
                    "+DefaultRoute"@,
                ) ==> scan_line(s, line).protocols == Some(false)
                &&& !words_of(v).contains("-DefaultRoute"@) && !words_of(v).contains(
                    "+DefaultRoute"@,
                ) ==> scan_line(s, line).protocols is None
            },
            _ => scan_line(s, line).explicit == s.explicit && scan_line(s, line).protocols
                == s.protocols,
        },
        forall|output: Text|
            ({
                let all = lines_of(output);
                let end = scan_lines(all, all.len() as int);
                (#[trigger] report_of(output)).default_route == if end.explicit is Some {
                    end.explicit
                } else {
                    end.protocols
                }
            }),
{
    reveal_strlit("yes");
    reveal_strlit("no");
    assert("yes"@.len() == 3 && "no"@.len() == 2);
    if let LineModel::Protocols(v) = line_kind(trimmed(line)) {
        lemma_protocol_flag(words_of(v));
    }
}

proof fn lemma_protocol_flag(tokens: Seq<Text>)
    ensures
        tokens.contains("+DefaultRoute"@) && !tokens.contains("-DefaultRoute"@) ==> protocol_flag(
            tokens,
        ) == Some(true),
        tokens.contains("-DefaultRoute"@) && !tokens.contains("+DefaultRoute"@) ==> protocol_flag(
            tokens,
        ) == Some(false),
        !tokens.contains("-DefaultRoute"@) && !tokens.contains("+DefaultRoute"@) ==> protocol_flag(
            tokens,
        ) is None,
    decreases tokens.len(),
{
    if tokens.len() > 0 {
        let rest = tokens.drop_first();
        lemma_protocol_flag(rest);
        assert(tokens.contains(tokens[0]));
        assert forall|x: Text| tokens.contains(x) <==> x == tokens[0] || rest.contains(x) by {
            if tokens.contains(x) && x != tokens[0] {
                let k = tokens.index_of(x);
                assert(rest[k - 1] == x);
            }
            if rest.contains(x) {
                assert(tokens[rest.index_of(x) + 1] == x);
            }
        }
    }
}

/// The servers of the link are exactly the addresses that the verdicts give.
pub proof fn law_every_address_is_a_server(verdicts: Seq<Option<String>>, n: int, x: Text)
    requires
        0 <= n <= verdicts.len(),
    ensures
        addresses_of(verdicts, n).contains(x) <==> exists|k: int|
            0 <= k < n && crate::text::opt_text(#[trigger] verdicts[k]) == Some(x),
    decreases n,
{
    if n > 0 {
        law_every_address_is_a_server(verdicts, n - 1, x);
        let rest = addresses_of(verdicts, n - 1);
        let all = addresses_of(verdicts, n);
        if rest.contains(x) {
            assert(all[rest.index_of(x)] == x);
        }
        if crate::text::opt_text(verdicts[n - 1]) == Some(x) && !rest.contains(x) {
            assert(all.last() == x);
        }
        if all.contains(x) && !rest.contains(x) {
            assert(crate::text::opt_text(verdicts[n - 1]) == Some(x));
        }
    }
}

/// What stands before a colon is no label if it holds anything but letters,
/// digits, spaces and a few marks, as an address does: such a line goes on
/// with the field before it.
pub proof fn law_an_odd_label_continues(label: Text, v: Text, k: int)
    requires
        0 <= k < label.len(),
        !label.contains(':'),
        !('a' <= label[k] <= 'z' || 'A' <= label[k] <= 'Z' || '0' <= label[k] <= '9' || label[k]
            == ' ' || label[k] == '/' || label[k] == '(' || label[k] == ')' || label[k] == '-'),
        !has_prefix(label + ": "@ + v, "Link "@),
        label != "DNS Servers"@,
        label != "Current DNS Server"@,
        label != "DNS Domain"@,
        label != "Default Route"@,
        label != "Protocols"@,
    ensures
        line_kind(label + ": "@ + v) == LineModel::Continuation,
{
    reveal_strlit(": ");
    let line = label + ": "@ + v;
    let n = label.len() as int;
    law_texts_are_split_once(line, ": "@);
    law_a_text_holds_its_parts(label, ": "@, v);
    let (a, b) = split_first(line, ": "@)->0;
    assert(line[n] == ':');
    assert(line.subrange(n, n + 2) =~= ": "@);
    assert(occurs_at(line, ": "@, n));
    assert(line[a.len() as int] == ':');
    assert forall|i: int| 0 <= i < n implies label[i] != ':' && line[i] != ':' by {
        assert(line[i] == label[i]);
        assert(label.contains(label[i]));
    }
    assert(a.len() == n);
    assert(a =~= label) by {
        assert(line.subrange(0, n) =~= label);
        assert((a + ": "@ + b).subrange(0, n) =~= a);
    }
    assert(!is_label_char(label[k]));
    assert(!is_label(label));
    reveal_strlit("DNS Servers:");
    reveal_strlit("Current DNS Server:");
    reveal_strlit("DNS Domain:");
    reveal_strlit("Default Route:");
    reveal_strlit("Protocols:");
    reveal_strlit("DNS Servers");
    reveal_strlit("Current DNS Server");
    reveal_strlit("DNS Domain");
    reveal_strlit("Default Route");
    reveal_strlit("Protocols");
    lemma_label_not(label, v, "DNS Servers:"@, "DNS Servers"@);
    lemma_label_not(label, v, "Current DNS Server:"@, "Current DNS Server"@);
    lemma_label_not(label, v, "DNS Domain:"@, "DNS Domain"@);
    lemma_label_not(label, v, "Default Route:"@, "Default Route"@);
    lemma_label_not(label, v, "Protocols:"@, "Protocols"@);
}

} // verus!
