//! Reading lines of OpenVPN's management interface.
//!
//! State lines are `>STATE:<time>,<state>,...` as they happen and
//! `<time>,<state>,...` in a reply. Pushed options appear in log lines that
//! hold `'PUSH_REPLY,<option>,<option>,...'`.

use vstd::prelude::*;
use crate::detector::linux::state::Transition;
use crate::platform::{ErrorModel, PlatformError};
use crate::text::{
    after_prefix, chars_of, concat2, contains, has_part, has_prefix,
    law_prefixes_and_suffixes_come_off, law_separators_part_texts, law_texts_are_split_once,
    law_the_first_separator_splits, law_trimming_takes_off_blanks, parts_of, same_text,
    split_first, split_on, split_once, strip_prefix, strs, texts, trim, trim_end_char, trimmed,
    without_trailing, Text,
};

verus! {

/// Where the management interface is reachable.
#[derive(Debug, PartialEq, Eq)]
pub enum ManagementAddr {
    /// `host:port`.
    Tcp(String),
    /// The path of a unix socket.
    Unix(String),
}

/// The value of a [`ManagementAddr`].
pub enum AddrModel {
    Tcp(Text),
    Unix(Text),
}

impl View for ManagementAddr {
    type V = AddrModel;

    open spec fn view(&self) -> AddrModel {
        match self {
            ManagementAddr::Tcp(s) => AddrModel::Tcp(s@),
            ManagementAddr::Unix(s) => AddrModel::Unix(s@),
        }
    }
}

impl ManagementAddr {
    /// The address in words.
    pub fn describe(&self) -> (r: String)
        ensures
            r@ == match self@ {
                AddrModel::Tcp(s) => "tcp "@ + s,
                AddrModel::Unix(s) => "unix "@ + s,
            },
    {
        match self {
            ManagementAddr::Tcp(s) => concat2("tcp ", s.as_str()),
            ManagementAddr::Unix(s) => concat2("unix ", s.as_str()),
        }
    }
}

/// The address that is configured, if one is.
pub open spec fn management_addr(raw: Text) -> Option<AddrModel> {
    if trimmed(raw).len() == 0 {
        None
    } else if has_part(trimmed(raw), "/"@) {
        Some(AddrModel::Unix(trimmed(raw)))
    } else {
        Some(AddrModel::Tcp(trimmed(raw)))
    }
}

/// The configured management address: one that holds a `/` is a path, any
/// other an endpoint. A blank one is an error.
pub fn parse_management_addr(raw: &str) -> (r: Result<ManagementAddr, PlatformError>)
    ensures
        match r {
            Ok(addr) => trimmed(raw@).len() > 0 && addr@ == if has_part(trimmed(raw@), "/"@) {
                AddrModel::Unix(trimmed(raw@))
            } else {
                AddrModel::Tcp(trimmed(raw@))
            },
            Err(e) => trimmed(raw@).len() == 0 && e@ == ErrorModel::ParseError(
                "openvpn.management is empty; set it to \"host:port\" or a unix socket path"@,
            ),
        },
        management_addr(raw@) == match r {
            Ok(addr) => Some(addr@),
            Err(_) => None,
        },
{
    let addr = trim(raw);
    if addr.is_empty() {
        return Err(
            PlatformError::ParseError(
                "openvpn.management is empty; set it to \"host:port\" or a unix socket path".to_owned(),
            ),
        );
    }
    if contains(addr, "/") {
        Ok(ManagementAddr::Unix(addr.to_owned()))
    } else {
        Ok(ManagementAddr::Tcp(addr.to_owned()))
    }
}

/// The number the decimal digits stand for.
pub open spec fn number(digits: Text) -> nat
    decreases digits.len(),
{
    if digits.len() == 0 {
        0
    } else {
        number(digits.drop_last()) * 10 + (digits.last() as nat - '0' as nat) as nat
    }
}

/// Are these decimal digits, at least one?
pub open spec fn all_digits(t: Text) -> bool {
    t.len() > 0 && forall|i: int| 0 <= i < t.len() ==> '0' <= #[trigger] t[i] <= '9'
}

/// Is this a state's name: capital letters and underscores, at least one?
pub open spec fn is_state_name(t: Text) -> bool {
    t.len() > 0 && forall|i: int|
        0 <= i < t.len() ==> ('A' <= #[trigger] t[i] <= 'Z' || t[i] == '_')
}

/// The time and the state a line reports, if it is a state line.
pub open spec fn state_of(line: Text) -> Option<(u64, Text)> {
    let rest = match after_prefix(line, ">STATE:"@) {
        Some(rest) => rest,
        None => line,
    };
    match split_first(rest, ","@) {
        None => None,
        Some((time, after)) => {
            let state = match split_first(after, ","@) {
                Some((state, _)) => state,
                None => after,
            };
            if all_digits(time) && is_state_name(state) && number(time) <= u64::MAX {
                Some((number(time) as u64, state))
            } else {
                None
            }
        },
    }
}

/// A pushed option, without the blanks and quotes around it.
pub open spec fn bare(t: Text) -> Text {
    trimmed(without_trailing(trimmed(t), '\''))
}

/// The server a pushed option names, if it names one.
pub open spec fn server_of(option: Text) -> Option<Text> {
    let value = match after_prefix(bare(option), "dhcp-option DNS6 "@) {
        Some(rest) => Some(bare(rest)),
        None => match after_prefix(bare(option), "dhcp-option DNS "@) {
            Some(rest) => Some(bare(rest)),
            None => None,
        },
    };
    match value {
        Some(server) => if server.len() > 0 {
            Some(server)
        } else {
            None
        },
        None => None,
    }
}

/// The servers the first `n` options name.
pub open spec fn servers_among(options: Seq<Text>, n: int) -> Seq<Text>
    decreases n,
{
    if n <= 0 {
        Seq::empty()
    } else {
        match server_of(options[n - 1]) {
            Some(server) => servers_among(options, n - 1).push(server),
            None => servers_among(options, n - 1),
        }
    }
}

/// The servers a line pushes: none, unless it is a push reply.
pub open spec fn pushed_dns(line: Text) -> Seq<Text> {
    if has_part(line, "PUSH_REPLY"@) {
        servers_among(parts_of(line, ','), parts_of(line, ',').len() as int)
    } else {
        Seq::empty()
    }
}

/// The transition a state means, if it is definite.
pub open spec fn transition_named(state: Text) -> Option<Transition> {
    if state == "CONNECTED"@ {
        Some(Transition::Up)
    } else if state == "EXITING"@ || state == "RECONNECTING"@ {
        Some(Transition::Down)
    } else {
        None
    }
}

proof fn lemma_number_grows(digits: Text, i: int)
    requires
        0 <= i <= digits.len(),
        forall|k: int| 0 <= k < digits.len() ==> '0' <= #[trigger] digits[k] <= '9',
    ensures
        number(digits.take(i)) <= number(digits),
    decreases digits.len() - i,
{
    if i < digits.len() {
        lemma_number_grows(digits, i + 1);
        assert(digits.take(i + 1).drop_last() =~= digits.take(i));
        assert(number(digits.take(i)) <= number(digits.take(i + 1)));
    } else {
        assert(digits.take(i) =~= digits);
    }
}

fn digit_value(c: char) -> (r: u64)
    requires
        '0' <= c <= '9',
    ensures
        r == c as nat - '0' as nat,
        r <= 9,
{
    (c as u32 - '0' as u32) as u64
}

/// The number the digits stand for, if they are digits and it fits.
fn parse_number(s: &str) -> (r: Option<u64>)
    ensures
        r == if all_digits(s@) && number(s@) <= u64::MAX {
            Some(number(s@) as u64)
        } else {
            None
        },
{
    let chars = chars_of(s);
    if chars.len() == 0 {
        return None;
    }
    let mut k: usize = 0;
    while k < chars.len()
        invariant
            k <= chars.len(),
            chars@ == s@,
            forall|j: int| 0 <= j < k ==> '0' <= #[trigger] s@[j] <= '9',
        decreases chars.len() - k,
    {
        if !('0' <= chars[k] && chars[k] <= '9') {
            assert(!('0' <= s@[k as int] <= '9'));
            return None;
        }
        k += 1;
    }
    let mut value: u64 = 0;
    let mut i: usize = 0;
    proof {
        assert(s@.take(0) =~= Seq::<char>::empty());
    }
    while i < chars.len()
        invariant
            i <= chars.len(),
            chars@ == s@,
            s@.len() > 0,
            forall|j: int| 0 <= j < s@.len() ==> '0' <= #[trigger] s@[j] <= '9',
            value == number(s@.take(i as int)),
        decreases chars.len() - i,
    {
        let c = chars[i];
        proof {
            assert(s@[i as int] == c);
            assert(s@.take(i + 1).drop_last() =~= s@.take(i as int));
            lemma_number_grows(s@, i + 1);
        }
        let d: u64 = digit_value(c);
        match value.checked_mul(10) {
            None => {
                return None;
            },
            Some(tens) => match tens.checked_add(d) {
                None => {
                    return None;
                },
                Some(sum) => {
                    value = sum;
                },
            },
        }
        i += 1;
    }
    proof {
        assert(s@.take(i as int) =~= s@);
    }
    Some(value)
}

fn state_name(s: &str) -> (r: bool)
    ensures
        r == is_state_name(s@),
{
    let chars = chars_of(s);
    if chars.len() == 0 {
        return false;
    }
    let mut i: usize = 0;
    while i < chars.len()
        invariant
            i <= chars.len(),
            chars@ == s@,
            forall|k: int| 0 <= k < i ==> ('A' <= #[trigger] s@[k] <= 'Z' || s@[k] == '_'),
        decreases chars.len() - i,
    {
        let c = chars[i];
        if !(('A' <= c && c <= 'Z') || c == '_') {
            assert(s@[i as int] == c);
            return false;
        }
        i += 1;
    }
    true
}

/// The time and the state a state line reports. The time is when the state
/// was entered: for `CONNECTED` it tells one tunnel from the next.
pub fn parse_state_line_with_time<'a>(line: &'a str) -> (r: Option<(u64, &'a str)>)
    ensures
        state_of(line@) == match r {
            Some((time, state)) => Some((time, state@)),
            None => None,
        },
{
    let rest = match strip_prefix(line, ">STATE:") {
        Some(rest) => rest,
        None => line,
    };
    match split_once(rest, ",") {
        None => None,
        Some((time, after)) => {
            let state = match split_once(after, ",") {
                Some((state, _)) => state,
                None => after,
            };
            match parse_number(time) {
                Some(time) => if state_name(state) {
                    Some((time, state))
                } else {
                    None
                },
                None => None,
            }
        },
    }
}

/// The state a state line reports; `None` for any other line.
pub fn parse_state_line<'a>(line: &'a str) -> (r: Option<&'a str>)
    ensures
        match r {
            Some(state) => state_of(line@) is Some && state@ == (state_of(line@)->0).1,
            None => state_of(line@) is None,
        },
{
    match parse_state_line_with_time(line) {
        Some((_, state)) => Some(state),
        None => None,
    }
}

fn bare_option<'a>(s: &'a str) -> (r: &'a str)
    ensures
        r@ == bare(s@),
{
    trim(trim_end_char(trim(s), '\''))
}

/// The servers a push reply names, in order. Any other line names none.
pub fn parse_push_reply_dns(line: &str) -> (r: Vec<String>)
    ensures
        texts(r@) == pushed_dns(line@),
{
    let mut out: Vec<String> = Vec::new();
    proof {
        assert(texts(out@) =~= Seq::<Text>::empty());
    }
    if !contains(line, "PUSH_REPLY") {
        return out;
    }
    let options = split_on(line, ',');
    let ghost all = strs(options@);
    let mut i: usize = 0;
    while i < options.len()
        invariant
            i <= options.len(),
            all == strs(options@),
            texts(out@) == servers_among(all, i as int),
        decreases options.len() - i,
    {
        let option = bare_option(options[i]);
        let value = match strip_prefix(option, "dhcp-option DNS6 ") {
            Some(rest) => Some(bare_option(rest)),
            None => match strip_prefix(option, "dhcp-option DNS ") {
                Some(rest) => Some(bare_option(rest)),
                None => None,
            },
        };
        if let Some(server) = value {
            if !server.is_empty() {
                let ghost before = out@;
                out.push(server.to_owned());
                assert(texts(out@) =~= texts(before).push(server@));
            }
        }
        i += 1;
    }
    out
}

/// The transition a state means. The stages of a connection, and names that
/// are not known, mean none.
pub fn transition_for_state(state: &str) -> (r: Option<Transition>)
    ensures
        r == transition_named(state@),
{
    if same_text(state, "CONNECTED") {
        Some(Transition::Up)
    } else if same_text(state, "EXITING") || same_text(state, "RECONNECTING") {
        Some(Transition::Down)
    } else {
        None
    }
}

// ---------------------------------------------------------------------------
// Laws
// ---------------------------------------------------------------------------

/// Digits are read in base ten.
pub proof fn law_digits_are_read_in_base_ten(digits: Text, c: char)
    requires
        '0' <= c <= '9',
    ensures
        number(digits.push(c)) == number(digits) * 10 + (c as int - '0' as int),
        number(Seq::empty()) == 0,
{
    assert(digits.push(c).drop_last() =~= digits);
}

proof fn lemma_state_line(time: Text, state: Text, rest: Text)
    requires
        time.len() > 0,
        forall|i: int| 0 <= i < time.len() ==> '0' <= #[trigger] time[i] <= '9',
        number(time) <= u64::MAX,
        state.len() > 0,
        forall|i: int|
            0 <= i < state.len() ==> ('A' <= #[trigger] state[i] <= 'Z' || state[i] == '_'),
    ensures
        ({
            let line = time.push(',') + state;
            let long = time.push(',') + (state.push(',') + rest);
            &&& state_of(line) == Some((number(time) as u64, state))
            &&& state_of(long) == Some((number(time) as u64, state))
            &&& state_of(">STATE:"@ + line) == Some((number(time) as u64, state))
            &&& state_of(">STATE:"@ + long) == Some((number(time) as u64, state))
        }),
{
    let comma = seq![','];
    reveal_strlit(",");
    assert(","@ =~= comma);
    let line = time.push(',') + state;
    let tail = state.push(',') + rest;
    let long = time.push(',') + tail;
    assert(!time.contains(',')) by {
        if time.contains(',') {
            let i = time.index_of(',');
            assert('0' <= time[i] <= '9');
        }
    }
    assert(!state.contains(',')) by {
        if state.contains(',') {
            let i = state.index_of(',');
            assert('A' <= state[i] <= 'Z' || state[i] == '_');
        }
    }
    law_the_first_separator_splits(time, ',', state);
    law_the_first_separator_splits(time, ',', tail);
    law_the_first_separator_splits(state, ',', rest);
    law_texts_are_split_once(state, comma);
    assert(split_first(state, comma) is None) by {
        if let Some((a, b)) = split_first(state, comma) {
            assert(state[a.len() as int] == ',');
            assert(state.contains(state[a.len() as int]));
        }
    }
    let head = ">STATE:"@;
    reveal_strlit(">STATE:");
    law_prefixes_and_suffixes_come_off(head, line);
    law_prefixes_and_suffixes_come_off(head, long);
    assert('0' <= time[0] <= '9');
    assert(line[0] == time[0] && long[0] == time[0]);
    assert(after_prefix(line, head) is None) by {
        if has_prefix(line, head) {
            assert(line.subrange(0, 7)[0] == line[0]);
        }
    }
    assert(after_prefix(long, head) is None) by {
        if has_prefix(long, head) {
            assert(long.subrange(0, 7)[0] == long[0]);
        }
    }
}

/// A time in digits, a comma and a state in capitals are read as that state at
/// that time, whatever follows after another comma, and whether the line is a
/// notice or a reply.
pub proof fn law_a_state_line_is_read(time: Text, state: Text, rest: Text)
    requires
        time.len() > 0,
        forall|i: int| 0 <= i < time.len() ==> '0' <= #[trigger] time[i] <= '9',
        number(time) <= u64::MAX,
        state.len() > 0,
        forall|i: int|
            0 <= i < state.len() ==> ('A' <= #[trigger] state[i] <= 'Z' || state[i] == '_'),
    ensures
        ({
            let line = time.push(',') + state;
            let long = time.push(',') + (state.push(',') + rest);
            &&& state_of(line) == Some((number(time) as u64, state))
            &&& state_of(long) == Some((number(time) as u64, state))
            &&& state_of(">STATE:"@ + line) == Some((number(time) as u64, state))
            &&& state_of(">STATE:"@ + long) == Some((number(time) as u64, state))
        }),
{
    lemma_state_line(time, state, rest);
}

/// Only such a line is read as a state: one that is not digits, a comma and
/// capitals, after the mark of a notice or not, is none.
pub proof fn law_nothing_else_is_read_as_a_state(line: Text)
    ensures
        state_of(line) matches Some((time, state)) ==> {
            &&& line.contains(',')
            &&& state.len() > 0
            &&& forall|i: int|
                0 <= i < state.len() ==> ('A' <= #[trigger] state[i] <= 'Z' || state[i] == '_')
            &&& '0' <= line[0] <= '9' || has_prefix(line, ">STATE:"@)
        },
{
    reveal_strlit(",");
    let rest = match after_prefix(line, ">STATE:"@) {
        Some(rest) => rest,
        None => line,
    };
    law_prefixes_and_suffixes_come_off(">STATE:"@, line);
    law_texts_are_split_once(rest, ","@);
    if let Some((time, after)) = split_first(rest, ","@) {
        assert(rest[time.len() as int] == ',');
        assert(line.contains(',')) by {
            if has_prefix(line, ">STATE:"@) {
                let k = ">STATE:"@.len() + time.len();
                assert(line[k as int] == ',');
            }
        }
        if all_digits(time) {
            assert('0' <= time[0] <= '9');
            assert(rest[0] == time[0]);
        }
    }
}

/// `CONNECTED` means up, `EXITING` and `RECONNECTING` mean down, and no other
/// state means either.
pub proof fn law_only_definite_states_are_transitions(state: Text)
    ensures
        transition_named(state) == Some(Transition::Up) <==> state == "CONNECTED"@,
        transition_named(state) == Some(Transition::Down) <==> state == "EXITING"@ || state
            == "RECONNECTING"@,
{
    reveal_strlit("CONNECTED");
    reveal_strlit("EXITING");
    reveal_strlit("RECONNECTING");
    assert("CONNECTED"@.len() == 9 && "EXITING"@.len() == 7 && "RECONNECTING"@.len() == 12);
}

proof fn lemma_bare_already(t: Text)
    requires
        t.len() > 0,
        !crate::text::is_white(t[0]),
        !crate::text::is_white(t.last()),
        t.last() != '\'',
    ensures
        bare(t) == t,
        bare(t.push('\'')) == t,
{
    law_trimming_takes_off_blanks(' ', t);
    let quoted = t.push('\'');
    assert(quoted.last() == '\'');
    assert(quoted[0] == t[0]);
    law_trimming_takes_off_blanks(' ', quoted);
    assert(quoted.drop_last() =~= t);
    reveal_with_fuel(without_trailing, 2);
}

/// A pushed `dhcp-option DNS` or `DNS6` names the server after it, also where
/// the quote that ends the whole message follows it.
pub proof fn law_a_dns_option_names_its_server(server: Text)
    requires
        server.len() > 0,
        forall|i: int|
            0 <= i < server.len() ==> !crate::text::is_white(#[trigger] server[i]) && server[i]
                != '\'',
    ensures
        server_of("dhcp-option DNS "@ + server) == Some(server),
        server_of("dhcp-option DNS6 "@ + server) == Some(server),
        server_of(("dhcp-option DNS "@ + server).push('\'')) == Some(server),
        server_of(("dhcp-option DNS6 "@ + server).push('\'')) == Some(server),
{
    reveal_strlit("dhcp-option DNS ");
    reveal_strlit("dhcp-option DNS6 ");
    let four = "dhcp-option DNS "@ + server;
    let six = "dhcp-option DNS6 "@ + server;
    assert(!crate::text::is_white(server[server.len() - 1]) && server[server.len() - 1] != '\'');
    assert(four.last() == server.last() && six.last() == server.last());
    assert(four[0] == 'd' && six[0] == 'd');
    assert(!crate::text::is_white(server[0]));
    lemma_bare_already(four);
    lemma_bare_already(six);
    lemma_bare_already(server);
    law_prefixes_and_suffixes_come_off("dhcp-option DNS "@, server);
    law_prefixes_and_suffixes_come_off("dhcp-option DNS6 "@, server);
    assert(after_prefix(four, "dhcp-option DNS6 "@) is None) by {
        if has_prefix(four, "dhcp-option DNS6 "@) {
            assert(four.subrange(0, 17)[15] == four[15]);
            assert(four[15] == ' ');
        }
    }
}

/// Any other option names none.
pub proof fn law_other_options_name_no_server(option: Text)
    requires
        option.len() > 0,
        !crate::text::is_white(option[0]),
        !crate::text::is_white(option.last()),
        option.last() != '\'',
        !has_prefix(option, "dhcp-option DNS "@),
        !has_prefix(option, "dhcp-option DNS6 "@),
    ensures
        server_of(option) is None,
{
    lemma_bare_already(option);
}

proof fn lemma_servers_join(a: Seq<Text>, b: Seq<Text>, n: int)
    requires
        0 <= n <= b.len(),
    ensures
        servers_among(a + b, a.len() + n) == servers_among(a, a.len() as int) + servers_among(b, n),
    decreases n,
{
    if n > 0 {
        lemma_servers_join(a, b, n - 1);
        assert((a + b)[a.len() + n - 1] == b[n - 1]);
        let x = servers_among(a, a.len() as int);
        let y = servers_among(b, n - 1);
        if let Some(server) = server_of(b[n - 1]) {
            assert((x + y).push(server) =~= x + y.push(server));
        }
    } else {
        lemma_servers_alike(a, a + b, a.len() as int);
        assert(servers_among(a, a.len() as int) + servers_among(b, 0) =~= servers_among(
            a,
            a.len() as int,
        ));
    }
}

proof fn lemma_servers_alike(a: Seq<Text>, b: Seq<Text>, n: int)
    requires
        0 <= n <= a.len(),
        n <= b.len(),
        forall|i: int| 0 <= i < n ==> a[i] == b[i],
    ensures
        servers_among(a, n) == servers_among(b, n),
    decreases n,
{
    if n > 0 {
        lemma_servers_alike(a, b, n - 1);
    }
}

/// The servers that the options of a text name.
pub open spec fn servers_in(t: Text) -> Seq<Text> {
    servers_among(parts_of(t, ','), parts_of(t, ',').len() as int)
}

/// The options of a push reply are taken in order, each for what it names: the
/// servers are those named before an option, the one it names, and those
/// named after it. A line that is no push reply pushes none.
pub proof fn law_pushed_servers_are_read_in_order(before: Text, option: Text, after: Text)
    requires
        !option.contains(','),
    ensures
        ({
            let line = (before.push(',') + option).push(',') + after;
            &&& has_part(line, "PUSH_REPLY"@) ==> pushed_dns(line) == servers_in(before) + (
            match server_of(option) {
                Some(server) => seq![server],
                None => Seq::empty(),
            }) + servers_in(after)
            &&& !has_part(line, "PUSH_REPLY"@) ==> pushed_dns(line).len() == 0
        }),
        servers_in(option) == (match server_of(option) {
            Some(server) => seq![server],
            None => Seq::empty(),
        }),
{
    let head = before.push(',') + option;
    law_separators_part_texts(head, ',', after);
    law_separators_part_texts(before, ',', option);
    law_separators_part_texts(option, ',', after);
    let a = parts_of(before, ',');
    let b = seq![option];
    let c = parts_of(after, ',');
    lemma_servers_join(a + b, c, c.len() as int);
    lemma_servers_join(a, b, 1);
    reveal_with_fuel(servers_among, 2);
    let one = match server_of(option) {
        Some(server) => seq![server],
        None => Seq::empty(),
    };
    assert(servers_among(b, 1) =~= one);
}

/// An address with a `/` in it is the path of a socket, any other an endpoint;
/// it is taken whole, and a blank one is none.
pub proof fn law_a_slash_makes_an_address_a_path(addr: Text)
    requires
        addr.len() > 0 ==> !crate::text::is_white(addr[0]) && !crate::text::is_white(addr.last()),
    ensures
        addr.len() == 0 ==> management_addr(addr) is None,
        addr.len() > 0 && addr.contains('/') ==> management_addr(addr) == Some(
            AddrModel::Unix(addr),
        ),
        addr.len() > 0 && !addr.contains('/') ==> management_addr(addr) == Some(
            AddrModel::Tcp(addr),
        ),
{
    reveal_strlit("/");
    if addr.len() > 0 {
        crate::text::lemma_trimmed_already(addr);
        if addr.contains('/') {
            let i = choose|i: int| 0 <= i < addr.len() && addr[i] == '/';
            assert(addr =~= addr.take(i) + "/"@ + addr.skip(i + 1));
            crate::text::law_a_text_holds_its_parts(addr.take(i), "/"@, addr.skip(i + 1));
        } else if has_part(addr, "/"@) {
            let i = choose|i: int| crate::text::occurs_at(addr, "/"@, i);
            assert(addr.subrange(i, i + 1)[0] == addr[i]);
            assert(addr[i] == '/');
        }
    } else {
        assert(trimmed(addr).len() == 0);
    }
}

} // verus!
