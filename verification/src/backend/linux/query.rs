//! Reading a resolution from the output of `resolvectl query`.
//!
//! The output has one line per address, the first after `<host>:`, each with
//! the link that answered; lines of metadata follow:
//!
//! ```text
//! vault.example.com: 198.51.100.10    -- link: tun0
//!                    198.51.100.11    -- link: tun0
//!
//! -- Information acquired via protocol DNS in 12.3ms.
//! ```
//!
//! The last word of a line before the link is an address, or the line holds
//! none. Which of them is one is for the caller to say.

use vstd::prelude::*;
use crate::exec::{arguments, complaint, output_or, read_output, CommandOutcome};
use crate::lists::{push_new, with_new};
use crate::platform::{ErrorModel, PlatformError};
use crate::text::{
    concat3, law_lines_end_at_line_feeds, lines, lines_of, opt_text, split_first, split_once,
    split_whitespace, strs, texts, trim, trimmed, words_of, Text,
};
use crate::wire::{ResolutionInfo, ResolutionModel};

verus! {

/// What may be an address, and the link its line names.
#[derive(Debug, PartialEq, Eq)]
pub struct Candidate {
    pub token: String,
    /// The link, if the line names one; it may be empty.
    pub link: Option<String>,
}

/// The value of a [`Candidate`].
pub struct CandidateModel {
    pub token: Text,
    pub link: Option<Text>,
}

impl View for Candidate {
    type V = CandidateModel;

    open spec fn view(&self) -> CandidateModel {
        CandidateModel { token: self.token@, link: opt_text(self.link) }
    }
}

/// The values of a list of candidates.
pub open spec fn candidates(v: Seq<Candidate>) -> Seq<CandidateModel> {
    Seq::new(v.len(), |i: int| v[i]@)
}

/// The candidate on a line, if it holds a word before its link.
pub open spec fn candidate_on(line: Text) -> Option<CandidateModel> {
    let (before, link) = match split_first(line, "-- link:"@) {
        Some((before, after)) => (before, Some(trimmed(after))),
        None => (line, None),
    };
    let words = words_of(before);
    if words.len() == 0 {
        None
    } else {
        Some(CandidateModel { token: words.last(), link })
    }
}

/// The candidates on the first `n` lines.
pub open spec fn candidates_on(lines: Seq<Text>, n: int) -> Seq<CandidateModel>
    decreases n,
{
    if n <= 0 {
        Seq::empty()
    } else {
        match candidate_on(lines[n - 1]) {
            Some(c) => candidates_on(lines, n - 1).push(c),
            None => candidates_on(lines, n - 1),
        }
    }
}

/// The candidates in an output.
pub open spec fn candidates_in(output: Text) -> Seq<CandidateModel> {
    candidates_on(lines_of(output), lines_of(output).len() as int)
}

/// Is candidate `i` an address, as far as the verdicts go?
pub open spec fn is_address(verdicts: Seq<bool>, i: int) -> bool {
    0 <= i < verdicts.len() && verdicts[i]
}

/// The resolution the first `n` candidates make up: the addresses without
/// repeats, and the first link named beside one.
pub open spec fn resolution_of(
    found: Seq<CandidateModel>,
    verdicts: Seq<bool>,
    n: int,
) -> ResolutionModel
    decreases n,
{
    if n <= 0 {
        ResolutionModel { addresses: Seq::empty(), via_interface: None, via_dns: None }
    } else {
        let before = resolution_of(found, verdicts, n - 1);
        let c = found[n - 1];
        if !is_address(verdicts, n - 1) {
            before
        } else {
            ResolutionModel {
                addresses: with_new(before.addresses, c.token),
                via_interface: if before.via_interface is None && c.link is Some && (c.link->0).len()
                    > 0 {
                    c.link
                } else {
                    before.via_interface
                },
                via_dns: None,
            }
        }
    }
}

/// Read what may be addresses from the output of `resolvectl query`.
pub fn parse_resolvectl_query(output: &str) -> (r: Vec<Candidate>)
    ensures
        candidates(r@) == candidates_in(output@),
{
    let all = lines(output);
    let ghost texts_of_lines = strs(all@);
    let mut found: Vec<Candidate> = Vec::new();
    let mut i: usize = 0;
    proof {
        assert(candidates(found@) =~= Seq::<CandidateModel>::empty());
    }
    while i < all.len()
        invariant
            i <= all.len(),
            texts_of_lines == strs(all@),
            candidates(found@) == candidates_on(texts_of_lines, i as int),
        decreases all.len() - i,
    {
        let line = all[i];
        let (before, link) = match split_once(line, "-- link:") {
            Some((before, after)) => (before, Some(trim(after).to_owned())),
            None => (line, None),
        };
        let words = split_whitespace(before);
        let ghost spoken = strs(words@);
        if words.len() > 0 {
            let token = words[words.len() - 1].to_owned();
            proof {
                assert(spoken.last() == token@);
            }
            let ghost earlier = found@;
            let candidate = Candidate { token, link };
            found.push(candidate);
            proof {
                assert(candidates(found@) =~= candidates(earlier).push(candidate@));
            }
        } else {
            proof {
                assert(spoken.len() == 0);
            }
        }
        i += 1;
    }
    found
}

/// The arguments of `resolvectl` that resolve a host.
pub fn query_arguments(host: &str) -> (r: Vec<String>)
    ensures
        texts(r@) == seq!["query"@, host@],
{
    let args = arguments("query", host, &Vec::new());
    assert(texts(args@) =~= seq!["query"@, host@]);
    args
}

/// The candidates that resolving a host gave, or why there are none.
pub fn resolve(outcome: CommandOutcome) -> (r: Result<Vec<Candidate>, PlatformError>)
    ensures
        match output_or(outcome@, complaint(outcome@)) {
            Ok(output) => r is Ok && candidates((r->Ok_0)@) == candidates_in(output),
            Err(e) => r is Err && (r->Err_0)@ == e,
        },
{
    match read_output(outcome) {
        Ok(output) => Ok(parse_resolvectl_query(output.as_str())),
        Err(e) => Err(e),
    }
}

/// The resolution, given which of the candidates are addresses. The link is
/// taken from the first address that has one; the resolver is not reported.
pub fn resolution(found: &Vec<Candidate>, verdicts: &Vec<bool>) -> (r: ResolutionInfo)
    ensures
        r@ == resolution_of(candidates(found@), verdicts@, found@.len() as int),
{
    let ghost all = candidates(found@);
    let mut addresses: Vec<String> = Vec::new();
    let mut via_interface: Option<String> = None;
    let mut i: usize = 0;
    proof {
        assert(texts(addresses@) =~= Seq::<Text>::empty());
    }
    while i < found.len()
        invariant
            i <= found.len(),
            all == candidates(found@),
            resolution_of(all, verdicts@, i as int) == (ResolutionModel {
                addresses: texts(addresses@),
                via_interface: opt_text(via_interface),
                via_dns: None,
            }),
        decreases found.len() - i,
    {
        proof {
            assert(all[i as int] == found@[i as int]@);
        }
        if i < verdicts.len() && verdicts[i] {
            push_new(&mut addresses, found[i].token.as_str());
            if via_interface.is_none() {
                if let Some(link) = &found[i].link {
                    if !link.as_str().is_empty() {
                        via_interface = Some(link.clone());
                    }
                }
            }
        }
        i += 1;
    }
    ResolutionInfo { addresses, via_interface, via_dns: None }
}

/// A resolution of `host` without addresses is a failure.
pub fn require_addresses(host: &str, info: ResolutionInfo) -> (r: Result<
    ResolutionInfo,
    PlatformError,
>)
    ensures
        match r {
            Ok(i) => i@ == info@ && info@.addresses.len() > 0,
            Err(e) => info@.addresses.len() == 0 && e@ == ErrorModel::ParseError(
                "no addresses parsed from `resolvectl query "@ + host@ + "`"@,
            ),
        },
{
    if info.addresses.len() == 0 {
        Err(
            PlatformError::ParseError(
                concat3("no addresses parsed from `resolvectl query ", host, "`"),
            ),
        )
    } else {
        Ok(info)
    }
}

/// Whatever the verdicts, no address is reported twice, and a link is only
/// reported beside an address.
pub proof fn law_resolution_is_sound(found: Seq<CandidateModel>, verdicts: Seq<bool>, n: int)
    requires
        0 <= n <= found.len(),
    ensures
        resolution_of(found, verdicts, n).addresses.no_duplicates(),
        resolution_of(found, verdicts, n).via_interface is Some ==> resolution_of(
            found,
            verdicts,
            n,
        ).addresses.len() > 0,
        forall|x: Text|
            resolution_of(found, verdicts, n).addresses.contains(x) ==> exists|i: int|
                0 <= i < n && #[trigger] is_address(verdicts, i) && found[i].token == x,
    decreases n,
{
    if n > 0 {
        law_resolution_is_sound(found, verdicts, n - 1);
        let before = resolution_of(found, verdicts, n - 1).addresses;
        let after = resolution_of(found, verdicts, n).addresses;
        assert forall|x: Text| after.contains(x) implies exists|i: int|
            0 <= i < n && #[trigger] is_address(verdicts, i) && found[i].token == x by {
            if before.contains(x) {
                let i = choose|i: int|
                    0 <= i < n - 1 && #[trigger] is_address(verdicts, i) && found[i].token == x;
                assert(is_address(verdicts, i));
            } else {
                assert(is_address(verdicts, n - 1));
            }
        }
    }
}

proof fn lemma_candidates_first(line: Text, rest: Seq<Text>, n: int)
    requires
        0 <= n <= rest.len(),
    ensures
        candidates_on(seq![line] + rest, n + 1) == (match candidate_on(line) {
            Some(c) => seq![c],
            None => Seq::empty(),
        }) + candidates_on(rest, n),
    decreases n,
{
    let all = seq![line] + rest;
    let first = match candidate_on(line) {
        Some(c) => seq![c],
        None => Seq::empty(),
    };
    if n > 0 {
        lemma_candidates_first(line, rest, n - 1);
        assert(all[n] == rest[n - 1]);
        let b = candidates_on(rest, n - 1);
        if let Some(c) = candidate_on(rest[n - 1]) {
            assert((first + b).push(c) =~= first + b.push(c));
        }
    } else {
        reveal_with_fuel(candidates_on, 2);
        assert(all[0] == line);
        assert(candidates_on(all, 1) =~= first + candidates_on(rest, 0));
    }
}

/// The output is read line by line, every line for what it holds.
pub proof fn law_a_query_is_read_line_by_line(line: Text, rest: Text)
    requires
        forall|k: int| 0 <= k < line.len() ==> line[k] != '\n',
        line.len() > 0 ==> line.last() != '\r',
    ensures
        candidates_in(line.push('\n') + rest) == (match candidate_on(line) {
            Some(c) => seq![c],
            None => Seq::empty(),
        }) + candidates_in(rest),
        candidates_in(Seq::empty()).len() == 0,
{
    law_lines_end_at_line_feeds(line, rest);
    law_lines_end_at_line_feeds(Seq::empty(), rest);
    lemma_candidates_first(line, lines_of(rest), lines_of(rest).len() as int);
}

/// A line gives its last word before the mark of the link, and the link after
/// it with the blanks around it off; without the mark, its last word alone. A
/// line with no word there gives nothing.
pub proof fn law_a_line_gives_its_last_word(line: Text, before: Text, after: Text)
    ensures
        split_first(line, "-- link:"@) is None && words_of(line).len() > 0 ==> candidate_on(line)
            == Some(CandidateModel { token: words_of(line).last(), link: None }),
        split_first(line, "-- link:"@) is None && words_of(line).len() == 0 ==> candidate_on(line)
            is None,
        split_first(line, "-- link:"@) == Some((before, after)) && words_of(before).len() > 0
            ==> candidate_on(line) == Some(
            CandidateModel { token: words_of(before).last(), link: Some(trimmed(after)) },
        ),
        split_first(line, "-- link:"@) == Some((before, after)) && words_of(before).len() == 0
            ==> candidate_on(line) is None,
{
}

/// Every candidate that is an address is reported, and the link beside the
/// first of them that names one; the resolver is not known.
pub proof fn law_every_address_is_reported(
    found: Seq<CandidateModel>,
    verdicts: Seq<bool>,
    n: int,
    i: int,
)
    requires
        0 <= i < n <= found.len(),
        is_address(verdicts, i),
    ensures
        resolution_of(found, verdicts, n).addresses.contains(found[i].token),
        found[i].link is Some && (found[i].link->0).len() > 0 && (forall|k: int|
            0 <= k < i && #[trigger] is_address(verdicts, k) ==> found[k].link is None || (
            found[k].link->0).len() == 0) ==> resolution_of(found, verdicts, n).via_interface
            == found[i].link,
        resolution_of(found, verdicts, n).via_dns is None,
    decreases n,
{
    let before = resolution_of(found, verdicts, n - 1);
    let after = resolution_of(found, verdicts, n);
    if i < n - 1 {
        law_every_address_is_reported(found, verdicts, n - 1, i);
        assert(after.addresses[before.addresses.index_of(found[i].token)] == found[i].token);
    } else {
        if !before.addresses.contains(found[i].token) {
            assert(after.addresses.last() == found[i].token);
        }
        if found[i].link is Some && (found[i].link->0).len() > 0 && (forall|k: int|
            0 <= k < i && #[trigger] is_address(verdicts, k) ==> found[k].link is None || (
            found[k].link->0).len() == 0) {
            lemma_no_link(found, verdicts, n - 1);
        }
    }
}

proof fn lemma_no_link(found: Seq<CandidateModel>, verdicts: Seq<bool>, n: int)
    requires
        0 <= n <= found.len(),
        forall|k: int|
            0 <= k < n && #[trigger] is_address(verdicts, k) ==> found[k].link is None || (
            found[k].link->0).len() == 0,
    ensures
        resolution_of(found, verdicts, n).via_interface is None,
    decreases n,
{
    if n > 0 {
        lemma_no_link(found, verdicts, n - 1);
    }
}

} // verus!
