//! Filling the VPN's resolver in from what `nmcli` says of its device.

use vstd::prelude::*;
use crate::config::{ConfigModel, LocalConfig, ResolvedConfig, ResolvedModel};
use crate::text::{
    contains, copy_texts, has_part, law_lines_end_at_line_feeds, lines, lines_of, lossy,
    lossy_text, opt_text, split_whitespace, strs, words_of, Text,
};

verus! {

/// A configuration that can be resolved against what `nmcli device show`
/// printed, if it could be run.
pub trait ConfigController {
    fn resolve(&self, device: &Option<Vec<u8>>) -> Option<ResolvedConfig>;
}

/// The first line from `i` on that speaks of DNS, or their number.
pub open spec fn dns_line_from(lines: Seq<Text>, i: int) -> int
    decreases lines.len() - i,
{
    if i >= lines.len() {
        lines.len() as int
    } else if has_part(lines[i], "DNS"@) {
        i
    } else {
        dns_line_from(lines, i + 1)
    }
}

/// The last word of the first line that speaks of DNS.
pub open spec fn first_dns(output: Text) -> Option<Text> {
    let all = lines_of(output);
    let i = dns_line_from(all, 0);
    if i < all.len() && words_of(all[i]).len() > 0 {
        Some(words_of(all[i]).last())
    } else {
        None
    }
}

/// The last word of the first printed line that speaks of DNS.
pub fn resolve_dns(stdout: &Vec<u8>) -> (r: Option<String>)
    ensures
        opt_text(r) == first_dns(lossy_text(stdout@)),
{
    let output = lossy(stdout);
    let all = lines(output.as_str());
    let ghost all_lines = strs(all@);
    let mut i: usize = 0;
    while i < all.len() && !contains(all[i], "DNS")
        invariant
            i <= all.len(),
            all_lines == strs(all@),
            dns_line_from(all_lines, 0) == dns_line_from(all_lines, i as int),
        decreases all.len() - i,
    {
        i += 1;
    }
    if i >= all.len() {
        return None;
    }
    let words = split_whitespace(all[i]);
    let ghost spoken = strs(words@);
    assert(dns_line_from(all_lines, 0) == i);
    assert(all_lines[i as int] == all@[i as int]@);
    if words.len() == 0 {
        assert(spoken.len() == 0);
        None
    } else {
        let last = words[words.len() - 1].to_owned();
        assert(spoken.last() == last@);
        Some(last)
    }
}

/// The configuration with the resolver filled in that was printed of the
/// device, if one was.
pub open spec fn resolved(config: ConfigModel, printed: Option<Text>) -> Option<ResolvedModel> {
    match printed {
        None => None,
        Some(output) => match first_dns(output) {
            None => None,
            Some(vpn_ip) => Some(
                ResolvedModel { vpn_name: config.vpn_name, vpn_ip, hosts: config.hosts },
            ),
        },
    }
}

impl ConfigController for LocalConfig {
    fn resolve(&self, device: &Option<Vec<u8>>) -> (r: Option<ResolvedConfig>)
        ensures
            match r {
                Some(c) => {
                    &&& *device is Some
                    &&& first_dns(lossy_text((*device)->0@)) == Some(c@.vpn_ip)
                    &&& c@.vpn_name == self@.vpn_name
                    &&& c@.hosts == self@.hosts
                },
                None => *device is None || first_dns(lossy_text((*device)->0@)) is None,
            },
            resolved(
                self@,
                match *device {
                    Some(stdout) => Some(lossy_text(stdout@)),
                    None => None,
                },
            ) == match r {
                Some(c) => Some(c@),
                None => None,
            },
    {
        match device {
            None => None,
            Some(stdout) => match resolve_dns(stdout) {
                None => None,
                Some(ip) => Some(
                    ResolvedConfig {
                        vpn_name: self.vpn_name.clone(),
                        vpn_ip: ip,
                        vpn_hosts: copy_texts(&self.vpn_hosts),
                    },
                ),
            },
        }
    }
}

proof fn lemma_dns_line_next(line: Text, rest: Seq<Text>, i: int)
    requires
        0 <= i,
    ensures
        dns_line_from(seq![line] + rest, i + 1) == dns_line_from(rest, i) + 1,
    decreases rest.len() - i,
{
    let all = seq![line] + rest;
    if i < rest.len() {
        assert(all[i + 1] == rest[i]);
        lemma_dns_line_next(line, rest, i + 1);
    }
}

/// The first line that speaks of DNS decides, by its last word; lines before
/// it do not count.
pub proof fn law_the_first_dns_line_decides(line: Text, rest: Text)
    requires
        forall|k: int| 0 <= k < line.len() ==> line[k] != '\n',
        line.len() > 0 ==> line.last() != '\r',
    ensures
        ({
            let output = line.push('\n') + rest;
            &&& has_part(line, "DNS"@) && words_of(line).len() > 0 ==> first_dns(output) == Some(
                words_of(line).last(),
            )
            &&& !has_part(line, "DNS"@) ==> first_dns(output) == first_dns(rest)
        }),
        first_dns(Seq::empty()) is None,
{
    law_lines_end_at_line_feeds(line, rest);
    law_lines_end_at_line_feeds(Seq::empty(), rest);
    let all = seq![line] + lines_of(rest);
    assert(all[0] == line);
    lemma_dns_line_next(line, lines_of(rest), 0);
    if !has_part(line, "DNS"@) {
        let i = dns_line_from(lines_of(rest), 0);
        assert(dns_line_from(all, 0) == i + 1);
        if i < lines_of(rest).len() {
            assert(all[i + 1] == lines_of(rest)[i]) by {
                assert(0 <= i) by {
                    lemma_dns_line_at_least(lines_of(rest), 0);
                }
            }
        }
    }
}

proof fn lemma_dns_line_at_least(lines: Seq<Text>, i: int)
    requires
        0 <= i,
    ensures
        dns_line_from(lines, i) >= 0,
    decreases lines.len() - i,
{
    if i < lines.len() {
        lemma_dns_line_at_least(lines, i + 1);
    }
}

/// A configuration is resolved exactly if a resolver was printed, with that
/// one; its interface and its domains stay.
pub proof fn law_only_the_resolver_is_filled_in(config: ConfigModel, output: Text)
    ensures
        resolved(config, None) is None,
        resolved(config, Some(output)) is Some <==> first_dns(output) is Some,
        resolved(config, Some(output)) matches Some(c) ==> c.vpn_name == config.vpn_name && c.hosts
            == config.hosts && Some(c.vpn_ip) == first_dns(output),
{
}

} // verus!
