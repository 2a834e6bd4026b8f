//! The `/etc/resolver` files: their form, their names and their ownership.
//!
//! Every file the daemon writes starts with a marker line. Only files that
//! carry it are ever overwritten or removed, so that a file the user wrote by
//! hand is safe.

use vstd::prelude::*;
use vstd::string::*;
use crate::text::{
    after_prefix, chars_of, concat2, has_prefix, has_suffix, law_lines_end_at_line_feeds,
    lemma_lines_cons, lines, lines_of, same_text, starts_with, strip_prefix, strip_suffix, strs,
    texts, trim, trimmed, Text,
};
use crate::lists::{push_new, with_all_new, with_new};

verus! {

/// The first line of every resolver file the daemon writes. Files are known
/// by it, so it must not change.
pub const MANAGED_MARKER: &'static str =
    "# Managed by splitway - do not edit; removed automatically when the VPN drops.";

/// A path with a name under it.
pub open spec fn joined_path(dir: Text, name: Text) -> Text {
    if has_prefix(name, "/"@) || dir.len() == 0 {
        name
    } else if has_suffix(dir, "/"@) {
        dir + name
    } else {
        dir + "/"@ + name
    }
}

/// The lines naming the first `n` servers.
pub open spec fn server_lines(servers: Seq<Text>, n: int) -> Text
    decreases n,
{
    if n <= 0 {
        Seq::empty()
    } else {
        server_lines(servers, n - 1) + "nameserver "@ + servers[n - 1] + "\n"@
    }
}

/// A resolver file for these servers.
pub open spec fn file_for(servers: Seq<Text>) -> Text {
    MANAGED_MARKER@ + "\n"@ + server_lines(servers, servers.len() as int)
}

/// Does the file carry the marker on its first line?
pub open spec fn carries_marker(contents: Text) -> bool {
    lines_of(contents).len() > 0 && lines_of(contents)[0] == MANAGED_MARKER@
}

/// Is the character a control character?
pub open spec fn is_control(c: char) -> bool {
    c <= '\u{1f}' || '\u{7f}' <= c <= '\u{9f}'
}

/// May the domain be the name of a file: is it one component that names
/// nothing but itself?
pub open spec fn is_file_name(domain: Text) -> bool {
    &&& domain.len() > 0
    &&& domain != "."@
    &&& domain != ".."@
    &&& forall|i: int|
        0 <= i < domain.len() ==> #[trigger] domain[i] != '/' && domain[i] != '\\' && !is_control(
            domain[i],
        )
}

/// The path of a domain's resolver file.
pub fn resolver_path(dir: &str, domain: &str) -> (r: String)
    ensures
        r@ == joined_path(dir@, domain@),
{
    if starts_with(domain, "/") || dir.is_empty() {
        domain.to_owned()
    } else if strip_suffix(dir, "/").is_some() {
        concat2(dir, domain)
    } else {
        let mut out = concat2(dir, "/");
        out.append(domain);
        out
    }
}

/// The contents of a resolver file: the marker, then one line per server.
pub fn resolver_contents(servers: &Vec<String>) -> (r: String)
    ensures
        r@ == file_for(texts(servers@)),
{
    let mut out = MANAGED_MARKER.to_owned();
    out.append("\n");
    let ghost head = out@;
    let ghost all = texts(servers@);
    let mut i: usize = 0;
    proof {
        assert(head + server_lines(all, 0) =~= head);
    }
    while i < servers.len()
        invariant
            i <= servers.len(),
            all == texts(servers@),
            out@ == head + server_lines(all, i as int),
        decreases servers.len() - i,
    {
        out.append("nameserver ");
        out.append(servers[i].as_str());
        out.append("\n");
        proof {
            assert(out@ =~= head + (server_lines(all, i as int) + "nameserver "@ + all[i as int]
                + "\n"@));
        }
        i += 1;
    }
    out
}

/// Did the daemon write this file?
pub fn is_managed(contents: &str) -> (r: bool)
    ensures
        r == carries_marker(contents@),
{
    let all = lines(contents);
    let ghost all_lines = strs(all@);
    all.len() > 0 && same_text(all[0], MANAGED_MARKER)
}

/// May the domain be the name of a resolver file? Names that would leave the
/// directory are refused, and so are control characters.
pub fn is_valid_domain(domain: &str) -> (r: bool)
    ensures
        r == is_file_name(domain@),
{
    if domain.is_empty() || same_text(domain, ".") || same_text(domain, "..") {
        return false;
    }
    let chars = chars_of(domain);
    let mut i: usize = 0;
    while i < chars.len()
        invariant
            i <= chars.len(),
            chars@ == domain@,
            forall|k: int|
                0 <= k < i ==> #[trigger] domain@[k] != '/' && domain@[k] != '\\' && !is_control(
                    domain@[k],
                ),
        decreases chars.len() - i,
    {
        let c = chars[i];
        if c == '/' || c == '\\' || c <= '\u{1f}' || ('\u{7f}' <= c && c <= '\u{9f}') {
            assert(domain@[i as int] == c);
            return false;
        }
        i += 1;
    }
    true
}

/// The server a line of a resolver file names, if it names one.
pub open spec fn server_on(line: Text) -> Option<Text> {
    match after_prefix(trimmed(line), "nameserver "@) {
        Some(rest) => if trimmed(rest).len() > 0 {
            Some(trimmed(rest))
        } else {
            None
        },
        None => None,
    }
}

/// The list with the servers that the first `n` lines name added, unless they
/// are there already.
pub open spec fn with_servers(list: Seq<Text>, lines: Seq<Text>, n: int) -> Seq<Text>
    decreases n,
{
    if n <= 0 {
        list
    } else {
        match server_on(lines[n - 1]) {
            Some(server) => with_new(with_servers(list, lines, n - 1), server),
            None => with_servers(list, lines, n - 1),
        }
    }
}

/// Add the servers a resolver file names to the list, without repeats.
pub fn push_nameservers(contents: &str, servers: &mut Vec<String>)
    ensures
        texts(final(servers)@) == with_servers(
            texts(old(servers)@),
            lines_of(contents@),
            lines_of(contents@).len() as int,
        ),
{
    let all = lines(contents);
    let ghost all_lines = strs(all@);
    let ghost before = texts(servers@);
    let mut i: usize = 0;
    while i < all.len()
        invariant
            i <= all.len(),
            all_lines == strs(all@),
            texts(servers@) == with_servers(before, all_lines, i as int),
        decreases all.len() - i,
    {
        if let Some(rest) = strip_prefix(trim(all[i]), "nameserver ") {
            let server = trim(rest);
            if !server.is_empty() {
                push_new(servers, server);
            }
        }
        i += 1;
    }
}

// ---------------------------------------------------------------------------
// Laws
// ---------------------------------------------------------------------------

/// Every file the daemon writes is known as its own.
pub proof fn law_written_files_are_managed(servers: Seq<Text>)
    ensures
        carries_marker(file_for(servers)),
{
    reveal_strlit("# Managed by splitway - do not edit; removed automatically when the VPN drops.");
    lemma_lines_cons(MANAGED_MARKER@, server_lines(servers, servers.len() as int));
}

/// A name that passes is a single component: joined to a directory it stays
/// in that directory.
pub proof fn law_valid_names_stay_in_the_directory(dir: Text, name: Text)
    requires
        is_file_name(name),
        dir.len() > 0,
    ensures
        joined_path(dir, name) == dir + name && has_suffix(dir, "/"@) || joined_path(dir, name)
            == dir + "/"@ + name,
        forall|i: int| 0 <= i < name.len() ==> name[i] != '/',
{
    reveal_strlit("/");
    assert(!has_prefix(name, "/"@)) by {
        if has_prefix(name, "/"@) {
            assert(name.subrange(0, 1)[0] == name[0]);
        }
    }
}

/// The lines naming the servers from `i` on.
spec fn lines_naming(servers: Seq<Text>, i: int) -> Text
    decreases servers.len() - i,
{
    if i >= servers.len() {
        Seq::empty()
    } else {
        "nameserver "@ + servers[i] + "\n"@ + lines_naming(servers, i + 1)
    }
}

proof fn lemma_server_lines(servers: Seq<Text>, n: int)
    requires
        0 <= n <= servers.len(),
    ensures
        server_lines(servers, n) + lines_naming(servers, n) == server_lines(
            servers,
            servers.len() as int,
        ),
    decreases servers.len() - n,
{
    if n < servers.len() {
        lemma_server_lines(servers, n + 1);
        assert(server_lines(servers, n) + lines_naming(servers, n) =~= server_lines(servers, n + 1)
            + lines_naming(servers, n + 1));
    } else {
        assert(server_lines(servers, n) + lines_naming(servers, n) =~= server_lines(servers, n));
    }
}

/// Is the text one word, as an address is?
pub open spec fn is_word(t: Text) -> bool {
    t.len() > 0 && forall|i: int| 0 <= i < t.len() ==> !crate::text::is_white(#[trigger] t[i])
}

proof fn lemma_lines_naming(servers: Seq<Text>, i: int)
    requires
        0 <= i <= servers.len(),
        forall|k: int| 0 <= k < servers.len() ==> is_word(#[trigger] servers[k]),
    ensures
        lines_of(lines_naming(servers, i)) == Seq::new(
            (servers.len() - i) as nat,
            |k: int| "nameserver "@ + servers[i + k],
        ),
    decreases servers.len() - i,
{
    let whole = Seq::new((servers.len() - i) as nat, |k: int| "nameserver "@ + servers[i + k]);
    if i < servers.len() {
        reveal_strlit("nameserver ");
        let line = "nameserver "@ + servers[i];
        assert(is_word(servers[i]));
        assert forall|k: int| 0 <= k < line.len() implies line[k] != '\n' by {
            if k >= 11 {
                assert(line[k] == servers[i][k - 11]);
                assert(!crate::text::is_white(servers[i][k - 11]));
            }
        }
        assert(line.last() == servers[i].last());
        assert(!crate::text::is_white(servers[i][servers[i].len() - 1]));
        lemma_lines_cons(line, lines_naming(servers, i + 1));
        lemma_lines_naming(servers, i + 1);
        let tail = Seq::new(
            (servers.len() - i - 1) as nat,
            |k: int| "nameserver "@ + servers[i + 1 + k],
        );
        assert(seq![line] + tail =~= whole) by {
            assert forall|k: int| 0 <= k < whole.len() implies (seq![line] + tail)[k]
                == whole[k] by {
                if k > 0 {
                    assert(tail[k - 1] == "nameserver "@ + servers[i + 1 + (k - 1)]);
                }
            }
        }
    } else {
        assert(lines_of(lines_naming(servers, i)) =~= whole);
    }
}

proof fn lemma_server_on_its_line(server: Text)
    requires
        is_word(server),
    ensures
        server_on("nameserver "@ + server) == Some(server),
{
    reveal_strlit("nameserver ");
    let line = "nameserver "@ + server;
    assert(line.last() == server[server.len() - 1]);
    assert(line[0] == 'n');
    crate::text::lemma_trimmed_already(line);
    assert(line.subrange(0, 11) =~= "nameserver "@);
    assert(line.subrange(11, line.len() as int) =~= server);
    assert(!crate::text::is_white(server[0]));
    assert(!crate::text::is_white(server[server.len() - 1]));
    crate::text::lemma_trimmed_already(server);
}

proof fn lemma_marker_names_no_server()
    ensures
        server_on(MANAGED_MARKER@) is None,
{
    reveal_strlit("# Managed by splitway - do not edit; removed automatically when the VPN drops.");
    reveal_strlit("nameserver ");
    let marker = MANAGED_MARKER@;
    crate::text::lemma_trimmed_already(marker);
    if has_prefix(marker, "nameserver "@) {
        assert(marker.subrange(0, 11)[0] == marker[0]);
    }
}

proof fn lemma_read_back(servers: Seq<Text>, lines: Seq<Text>, n: int)
    requires
        0 <= n <= servers.len(),
        forall|k: int| 0 <= k < servers.len() ==> is_word(#[trigger] servers[k]),
        lines.len() == servers.len() + 1,
        lines[0] == MANAGED_MARKER@,
        forall|k: int| 0 <= k < servers.len() ==> lines[k + 1] == "nameserver "@ + #[trigger] servers[k],
    ensures
        with_servers(Seq::empty(), lines, n + 1) == with_all_new(Seq::empty(), servers.take(n)),
    decreases n,
{
    if n == 0 {
        lemma_marker_names_no_server();
        assert(with_servers(Seq::empty(), lines, 0) == Seq::<Text>::empty());
        assert(servers.take(0) =~= Seq::empty());
    } else {
        lemma_read_back(servers, lines, n - 1);
        assert(is_word(servers[n - 1]));
        assert(lines[(n - 1) + 1] == "nameserver "@ + servers[n - 1]);
        lemma_server_on_its_line(servers[n - 1]);
        assert(servers.take(n).drop_last() =~= servers.take(n - 1));
    }
}

proof fn lemma_servers_kept(list: Seq<Text>, lines: Seq<Text>, n: int)
    requires
        0 <= n <= lines.len(),
    ensures
        forall|x: Text| list.contains(x) ==> with_servers(list, lines, n).contains(x),
        forall|k: int|
            0 <= k < n && server_on(#[trigger] lines[k]) is Some ==> with_servers(
                list,
                lines,
                n,
            ).contains(server_on(lines[k])->0),
    decreases n,
{
    if n > 0 {
        lemma_servers_kept(list, lines, n - 1);
        let before = with_servers(list, lines, n - 1);
        let after = with_servers(list, lines, n);
        assert forall|x: Text| before.contains(x) implies after.contains(x) by {
            assert(after[before.index_of(x)] == x);
        }
        if let Some(server) = server_on(lines[n - 1]) {
            if !before.contains(server) {
                assert(after.last() == server);
            }
        }
    }
}

proof fn lemma_nothing_new(list: Seq<Text>, lines: Seq<Text>, n: int)
    requires
        0 <= n <= lines.len(),
        forall|k: int|
            0 <= k < n && server_on(#[trigger] lines[k]) is Some ==> list.contains(
                server_on(lines[k])->0,
            ),
    ensures
        with_servers(list, lines, n) == list,
    decreases n,
{
    if n > 0 {
        lemma_nothing_new(list, lines, n - 1);
        assert(server_on(lines[n - 1]) is Some ==> list.contains(server_on(lines[n - 1])->0));
    }
}

/// Adding the servers of the same lines again adds nothing.
pub proof fn lemma_servers_again(list: Seq<Text>, lines: Seq<Text>, n: int)
    requires
        0 <= n <= lines.len(),
    ensures
        with_servers(with_servers(list, lines, n), lines, n) == with_servers(list, lines, n),
{
    lemma_servers_kept(list, lines, n);
    lemma_nothing_new(with_servers(list, lines, n), lines, n);
}

/// Reading a file back gives the servers it was written for, each once.
pub proof fn law_a_file_reads_back_its_servers(servers: Seq<Text>)
    requires
        forall|k: int| 0 <= k < servers.len() ==> is_word(#[trigger] servers[k]),
    ensures
        ({
            let lines = lines_of(file_for(servers));
            with_servers(Seq::empty(), lines, lines.len() as int) == with_all_new(
                Seq::empty(),
                servers,
            )
        }),
{
    reveal_strlit("# Managed by splitway - do not edit; removed automatically when the VPN drops.");
    let body = server_lines(servers, servers.len() as int);
    lemma_lines_cons(MANAGED_MARKER@, body);
    lemma_server_lines(servers, 0);
    assert(server_lines(servers, 0) + lines_naming(servers, 0) =~= lines_naming(servers, 0));
    lemma_lines_naming(servers, 0);
    let lines = lines_of(file_for(servers));
    assert forall|k: int| 0 <= k < servers.len() implies lines[k + 1] == "nameserver "@
        + #[trigger] servers[k] by {
        assert(lines_of(body)[k] == "nameserver "@ + servers[0 + k]);
    }
    lemma_read_back(servers, lines, servers.len() as int);
    assert(servers.take(servers.len() as int) =~= servers);
}

/// A resolver file is the marker, and then one line for each server, in their
/// order.
pub proof fn law_a_file_names_every_server(servers: Seq<Text>)
    requires
        forall|k: int| 0 <= k < servers.len() ==> is_word(#[trigger] servers[k]),
    ensures
        lines_of(file_for(servers)).len() == servers.len() + 1,
        lines_of(file_for(servers))[0]
            == "# Managed by splitway - do not edit; removed automatically when the VPN drops."@,
        forall|k: int|
            0 <= k < servers.len() ==> lines_of(file_for(servers))[k + 1] == "nameserver "@
                + #[trigger] servers[k],
{
    reveal_strlit("# Managed by splitway - do not edit; removed automatically when the VPN drops.");
    let body = server_lines(servers, servers.len() as int);
    lemma_lines_cons(MANAGED_MARKER@, body);
    lemma_server_lines(servers, 0);
    assert(server_lines(servers, 0) + lines_naming(servers, 0) =~= lines_naming(servers, 0));
    lemma_lines_naming(servers, 0);
    assert forall|k: int| 0 <= k < servers.len() implies lines_of(file_for(servers))[k + 1]
        == "nameserver "@ + #[trigger] servers[k] by {
        assert(lines_of(body)[k] == "nameserver "@ + servers[0 + k]);
    }
}

/// A file is the daemon's exactly if its first line is the marker.
pub proof fn law_only_marked_files_are_managed(first: Text, rest: Text)
    requires
        forall|k: int| 0 <= k < first.len() ==> first[k] != '\n',
        first.len() > 0 ==> first.last() != '\r',
    ensures
        carries_marker(first.push('\n') + rest) <==> first
            == "# Managed by splitway - do not edit; removed automatically when the VPN drops."@,
        !carries_marker(Seq::empty()),
{
    law_lines_end_at_line_feeds(first, rest);
    law_lines_end_at_line_feeds(Seq::empty(), rest);
}

/// A domain may be a file's name unless it is empty, `.` or `..`, or holds a
/// slash, a backslash or a control character.
pub proof fn law_ordinary_names_are_valid(domain: Text)
    ensures
        domain.len() == 0 || domain == "."@ || domain == ".."@ || domain.contains('/')
            || domain.contains('\\') ==> !is_file_name(domain),
        domain.len() > 0 && domain != "."@ && domain != ".."@ && (forall|i: int|
            0 <= i < domain.len() ==> #[trigger] domain[i] >= ' ' && domain[i] != '/' && domain[i]
                != '\\' && (domain[i] < '\u{7f}' || domain[i] > '\u{9f}')) ==> is_file_name(domain),
        domain.len() > 0 && domain[0] < ' ' ==> !is_file_name(domain),
{
    if domain.contains('/') {
        assert(domain[domain.index_of('/')] == '/');
    }
    if domain.contains('\\') {
        assert(domain[domain.index_of('\\')] == '\\');
    }
}

} // verus!
