//! Reading the output of `nmcli`.

use vstd::prelude::*;
use crate::text::{
    has_prefix, law_lines_end_at_line_feeds, law_the_first_separator_splits,
    law_trimming_takes_off_blanks, lines, lines_of, same_text, split_first, split_once,
    starts_with, strs, texts, trim, trimmed, Text,
};

verus! {

/// The DNS server a line of `nmcli` output names, if it names one: the value
/// of an `IP4.DNS[n]` or `IP6.DNS[n]` field.
pub open spec fn dns_on(line: Text) -> Option<Text> {
    match split_first(line, ":"@) {
        Some((key, value)) => if (has_prefix(trimmed(key), "IP4.DNS["@) || has_prefix(
            trimmed(key),
            "IP6.DNS["@,
        )) && trimmed(value).len() > 0 {
            Some(trimmed(value))
        } else {
            None
        },
        None => None,
    }
}

/// The servers the first `n` lines name.
pub open spec fn dns_among(lines: Seq<Text>, n: int) -> Seq<Text>
    decreases n,
{
    if n <= 0 {
        Seq::empty()
    } else {
        match dns_on(lines[n - 1]) {
            Some(server) => dns_among(lines, n - 1).push(server),
            None => dns_among(lines, n - 1),
        }
    }
}

/// The servers `nmcli` output names, in order.
pub open spec fn nmcli_dns(output: Text) -> Seq<Text> {
    dns_among(lines_of(output), lines_of(output).len() as int)
}

/// The id of the active VPN connection a line of terse output tells of, if
/// it does: `<uuid>:vpn:activated`.
pub open spec fn vpn_on(line: Text) -> Option<Text> {
    match split_first(line, ":"@) {
        Some((uuid, rest)) => match split_first(rest, ":"@) {
            Some((kind, state)) => if kind == "vpn"@ && state == "activated"@ && uuid.len() > 0 {
                Some(uuid)
            } else {
                None
            },
            None => None,
        },
        None => None,
    }
}

/// The active VPN connections the first `n` lines tell of.
pub open spec fn vpns_among(lines: Seq<Text>, n: int) -> Seq<Text>
    decreases n,
{
    if n <= 0 {
        Seq::empty()
    } else {
        match vpn_on(lines[n - 1]) {
            Some(uuid) => vpns_among(lines, n - 1).push(uuid),
            None => vpns_among(lines, n - 1),
        }
    }
}

/// The active VPN connections in terse output.
pub open spec fn active_vpns(output: Text) -> Seq<Text> {
    vpns_among(lines_of(output), lines_of(output).len() as int)
}

/// The DNS servers in the output of `nmcli device show` or `nmcli connection
/// show`. None is no error: a VPN may push none, or they may be kept
/// elsewhere. The static `ipv4.dns` settings are not among them.
pub fn extract_dns_from_nmcli(output: &str) -> (r: Vec<String>)
    ensures
        texts(r@) == nmcli_dns(output@),
{
    let all = lines(output);
    let ghost all_lines = strs(all@);
    let mut out: Vec<String> = Vec::new();
    let mut i: usize = 0;
    proof {
        assert(texts(out@) =~= Seq::<Text>::empty());
    }
    while i < all.len()
        invariant
            i <= all.len(),
            all_lines == strs(all@),
            texts(out@) == dns_among(all_lines, i as int),
        decreases all.len() - i,
    {
        if let Some((key, value)) = split_once(all[i], ":") {
            let key = trim(key);
            let value = trim(value);
            if (starts_with(key, "IP4.DNS[") || starts_with(key, "IP6.DNS[")) && !value.is_empty() {
                let ghost before = out@;
                out.push(value.to_owned());
                assert(texts(out@) =~= texts(before).push(value@));
            }
        }
        i += 1;
    }
    out
}

/// The ids of the active VPN connections, from `nmcli -t -f UUID,TYPE,STATE
/// connection show --active`.
pub fn parse_active_vpn_uuids(output: &str) -> (r: Vec<String>)
    ensures
        texts(r@) == active_vpns(output@),
{
    let all = lines(output);
    let ghost all_lines = strs(all@);
    let mut out: Vec<String> = Vec::new();
    let mut i: usize = 0;
    proof {
        assert(texts(out@) =~= Seq::<Text>::empty());
    }
    while i < all.len()
        invariant
            i <= all.len(),
            all_lines == strs(all@),
            texts(out@) == vpns_among(all_lines, i as int),
        decreases all.len() - i,
    {
        if let Some((uuid, rest)) = split_once(all[i], ":") {
            if let Some((kind, state)) = split_once(rest, ":") {
                if same_text(kind, "vpn") && same_text(state, "activated") && !uuid.is_empty() {
                    let ghost before = out@;
                    out.push(uuid.to_owned());
                    assert(texts(out@) =~= texts(before).push(uuid@));
                }
            }
        }
        i += 1;
    }
    out
}

// ---------------------------------------------------------------------------
// Laws
// ---------------------------------------------------------------------------

/// What a value adds to a list: itself, if it is there.
pub open spec fn at_most_one(x: Option<Text>) -> Seq<Text> {
    match x {
        Some(value) => seq![value],
        None => Seq::empty(),
    }
}

proof fn lemma_dns_first(line: Text, rest: Seq<Text>, n: int)
    requires
        0 <= n <= rest.len(),
    ensures
        dns_among(seq![line] + rest, n + 1) == at_most_one(dns_on(line)) + dns_among(rest, n),
        vpns_among(seq![line] + rest, n + 1) == at_most_one(vpn_on(line)) + vpns_among(rest, n),
    decreases n,
{
    let all = seq![line] + rest;
    if n > 0 {
        lemma_dns_first(line, rest, n - 1);
        assert(all[n] == rest[n - 1]);
        let a = at_most_one(dns_on(line));
        let b = dns_among(rest, n - 1);
        if let Some(x) = dns_on(rest[n - 1]) {
            assert((a + b).push(x) =~= a + b.push(x));
        }
        let c = at_most_one(vpn_on(line));
        let d = vpns_among(rest, n - 1);
        if let Some(x) = vpn_on(rest[n - 1]) {
            assert((c + d).push(x) =~= c + d.push(x));
        }
    } else {
        reveal_with_fuel(dns_among, 2);
        reveal_with_fuel(vpns_among, 2);
        assert(all[0] == line);
        assert(dns_among(all, 1) =~= at_most_one(dns_on(line)) + dns_among(rest, 0));
        assert(vpns_among(all, 1) =~= at_most_one(vpn_on(line)) + vpns_among(rest, 0));
    }
}

/// The output is read line by line: what the first line names comes first, and
/// the lines after it are read as if they were all.
pub proof fn law_nmcli_is_read_line_by_line(line: Text, rest: Text)
    requires
        forall|k: int| 0 <= k < line.len() ==> line[k] != '\n',
        line.len() > 0 ==> line.last() != '\r',
    ensures
        nmcli_dns(line.push('\n') + rest) == at_most_one(dns_on(line)) + nmcli_dns(rest),
        active_vpns(line.push('\n') + rest) == at_most_one(vpn_on(line)) + active_vpns(rest),
        nmcli_dns(Seq::empty()).len() == 0,
        active_vpns(Seq::empty()).len() == 0,
{
    law_lines_end_at_line_feeds(line, rest);
    law_lines_end_at_line_feeds(Seq::empty(), rest);
    lemma_dns_first(line, lines_of(rest), lines_of(rest).len() as int);
}

/// A field `IP4.DNS[n]` or `IP6.DNS[n]` names the server that follows its
/// colon, with the blanks around it off, whatever else stands in it; a field
/// of any other name names none.
pub proof fn law_only_dns_fields_name_servers(key: Text, value: Text)
    requires
        !key.contains(':'),
        key.len() > 0 ==> !crate::text::is_white(key[0]) && !crate::text::is_white(key.last()),
    ensures
        (has_prefix(key, "IP4.DNS["@) || has_prefix(key, "IP6.DNS["@)) && trimmed(value).len() > 0
            ==> dns_on(key.push(':') + value) == Some(trimmed(value)),
        !has_prefix(key, "IP4.DNS["@) && !has_prefix(key, "IP6.DNS["@) ==> dns_on(
            key.push(':') + value,
        ) is None,
        trimmed(value).len() == 0 ==> dns_on(key.push(':') + value) is None,
{
    reveal_strlit(":");
    assert(":"@ =~= seq![':']);
    law_the_first_separator_splits(key, ':', value);
    law_trimming_takes_off_blanks(' ', key);
}

/// A connection is taken for an active VPN exactly if its kind is `vpn` and
/// its state `activated`.
pub proof fn law_only_activated_vpns_are_taken(uuid: Text, kind: Text, state: Text)
    requires
        uuid.len() > 0,
        !uuid.contains(':'),
        !kind.contains(':'),
    ensures
        ({
            let line = uuid.push(':') + (kind.push(':') + state);
            vpn_on(line) == if kind == "vpn"@ && state == "activated"@ {
                Some(uuid)
            } else {
                None
            }
        }),
{
    reveal_strlit(":");
    assert(":"@ =~= seq![':']);
    law_the_first_separator_splits(uuid, ':', kind.push(':') + state);
    law_the_first_separator_splits(kind, ':', state);
}

} // verus!
