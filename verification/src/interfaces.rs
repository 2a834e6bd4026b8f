//! The host's network interfaces, as clients see them.

use vstd::prelude::*;
use vstd::seq_lib::*;
use crate::lists::{
    comes_no_later, lemma_order_total, lemma_order_transitive, no_later, push_new, with_all_new,
};
use crate::text::{
    after_prefix, chars_of, has_prefix, is_white, same_text, starts_with, strip_prefix, texts,
    trim, trimmed, Text,
};
use crate::wire::{interfaces_of, InterfaceInfo, InterfaceModel};

verus! {

/// Does the name look like a VPN's interface?
pub open spec fn looks_like_vpn(name: Text) -> bool {
    ||| has_prefix(name, "tun"@)
    ||| has_prefix(name, "utun"@)
    ||| has_prefix(name, "wg"@)
    ||| has_prefix(name, "tap"@)
    ||| has_prefix(name, "ppp"@)
    ||| has_prefix(name, "gpd"@)
}

/// Whether the name looks like a VPN's interface. A hint for presentation
/// only.
pub fn is_vpn_like(name: &str) -> (r: bool)
    ensures
        r == looks_like_vpn(name@),
{
    starts_with(name, "tun") || starts_with(name, "utun") || starts_with(name, "wg")
        || starts_with(name, "tap") || starts_with(name, "ppp") || starts_with(name, "gpd")
}

// ---------------------------------------------------------------------------
// Flags
// ---------------------------------------------------------------------------

/// The value of a hexadecimal digit, or -1.
pub open spec fn hex_digit(c: char) -> int {
    if '0' <= c <= '9' {
        c as int - '0' as int
    } else if 'a' <= c <= 'f' {
        c as int - 'a' as int + 10
    } else if 'A' <= c <= 'F' {
        c as int - 'A' as int + 10
    } else {
        -1
    }
}

/// Are these hexadecimal digits, at least one?
pub open spec fn all_hex(t: Text) -> bool {
    t.len() > 0 && forall|i: int| 0 <= i < t.len() ==> hex_digit(#[trigger] t[i]) >= 0
}

/// The number the hexadecimal digits stand for.
pub open spec fn hex_number(t: Text) -> int
    decreases t.len(),
{
    if t.len() == 0 {
        0
    } else {
        hex_number(t.drop_last()) * 16 + hex_digit(t.last())
    }
}

/// The digits of an interface's flags: without blanks, the prefix `0x` and a
/// plus sign.
pub open spec fn flag_digits(flags: Text) -> Text {
    let digits = match after_prefix(trimmed(flags), "0x"@) {
        Some(rest) => rest,
        None => trimmed(flags),
    };
    match after_prefix(digits, "+"@) {
        Some(rest) => rest,
        None => digits,
    }
}

proof fn lemma_hex_grows(t: Text, i: int)
    requires
        0 <= i <= t.len(),
        forall|k: int| 0 <= k < t.len() ==> hex_digit(#[trigger] t[k]) >= 0,
    ensures
        0 <= hex_number(t.take(i)) <= hex_number(t),
    decreases t.len() - i,
{
    if i < t.len() {
        lemma_hex_grows(t, i + 1);
        lemma_hex_nonnegative(t.take(i));
        assert(t.take(i + 1).drop_last() =~= t.take(i));
        assert(hex_digit(t[i]) >= 0);
    } else {
        assert(t.take(i) =~= t);
        lemma_hex_nonnegative(t);
    }
}

proof fn lemma_hex_nonnegative(t: Text)
    requires
        forall|k: int| 0 <= k < t.len() ==> hex_digit(#[trigger] t[k]) >= 0,
    ensures
        hex_number(t) >= 0,
    decreases t.len(),
{
    if t.len() > 0 {
        assert forall|k: int| 0 <= k < t.drop_last().len() implies hex_digit(
            #[trigger] t.drop_last()[k],
        ) >= 0 by {
            assert(t.drop_last()[k] == t[k]);
        }
        lemma_hex_nonnegative(t.drop_last());
        assert(hex_digit(t[t.len() - 1]) >= 0);
    }
}

fn hex_value(c: char) -> (r: Option<u64>)
    ensures
        match r {
            Some(v) => v == hex_digit(c) && v < 16,
            None => hex_digit(c) == -1,
        },
{
    if '0' <= c && c <= '9' {
        Some((c as u32 - '0' as u32) as u64)
    } else if 'a' <= c && c <= 'f' {
        Some((c as u32 - 'a' as u32 + 10) as u64)
    } else if 'A' <= c && c <= 'F' {
        Some((c as u32 - 'A' as u32 + 10) as u64)
    } else {
        None
    }
}

/// The number the hexadecimal digits stand for, if they are such and it fits.
fn parse_hex(digits: &str) -> (r: Option<u64>)
    ensures
        match r {
            Some(v) => all_hex(digits@) && v == hex_number(digits@),
            None => !all_hex(digits@) || hex_number(digits@) > u64::MAX,
        },
{
    let chars = chars_of(digits);
    if chars.len() == 0 {
        return None;
    }
    let mut k: usize = 0;
    while k < chars.len()
        invariant
            k <= chars.len(),
            chars@ == digits@,
            forall|j: int| 0 <= j < k ==> hex_digit(#[trigger] digits@[j]) >= 0,
        decreases chars.len() - k,
    {
        if hex_value(chars[k]).is_none() {
            assert(hex_digit(digits@[k as int]) == -1);
            return None;
        }
        k += 1;
    }
    let mut value: u64 = 0;
    let mut i: usize = 0;
    proof {
        assert(digits@.take(0) =~= Seq::<char>::empty());
    }
    while i < chars.len()
        invariant
            i <= chars.len(),
            chars@ == digits@,
            digits@.len() > 0,
            forall|j: int| 0 <= j < digits@.len() ==> hex_digit(#[trigger] digits@[j]) >= 0,
            value == hex_number(digits@.take(i as int)),
        decreases chars.len() - i,
    {
        let c = chars[i];
        proof {
            assert(digits@[i as int] == c);
            assert(digits@.take(i + 1).drop_last() =~= digits@.take(i as int));
            lemma_hex_grows(digits@, i + 1);
        }
        let d: u64 = match hex_value(c) {
            Some(d) => d,
            None => 0,
        };
        match value.checked_mul(16) {
            None => {
                return None;
            },
            Some(high) => match high.checked_add(d) {
                None => {
                    return None;
                },
                Some(sum) => {
                    value = sum;
                },
            },
        }
        i += 1;
    }
    proof {
        assert(digits@.take(i as int) =~= digits@);
    }
    Some(value)
}

/// Whether the flags say that the interface is up, if they are a number.
pub open spec fn flags_up(flags: Text) -> Option<bool> {
    let digits = flag_digits(flags);
    if all_hex(digits) && hex_number(digits) <= u64::MAX {
        Some(hex_number(digits) % 2 == 1)
    } else {
        None
    }
}

/// Whether the flags of an interface say that it is up: whether their lowest
/// bit is set. `None` if they are no number, or none that fits.
pub fn parse_iff_up(flags: &str) -> (r: Option<bool>)
    ensures
        r == if all_hex(flag_digits(flags@)) && hex_number(flag_digits(flags@)) <= u64::MAX {
            Some(hex_number(flag_digits(flags@)) % 2 == 1)
        } else {
            None
        },
        r == flags_up(flags@),
{
    let text = trim(flags);
    let digits = match strip_prefix(text, "0x") {
        Some(rest) => rest,
        None => text,
    };
    let digits = match strip_prefix(digits, "+") {
        Some(rest) => rest,
        None => digits,
    };
    match parse_hex(digits) {
        Some(bits) => Some(bits % 2 == 1),
        None => None,
    }
}

// ---------------------------------------------------------------------------
// Classifying
// ---------------------------------------------------------------------------

/// The names of an enumeration.
pub open spec fn names_of(raw: Seq<(String, bool)>) -> Seq<Text> {
    Seq::new(raw.len(), |i: int| raw[i].0@)
}

/// Is the name enumerated as up at least once?
pub open spec fn seen_up(raw: Seq<(String, bool)>, name: Text) -> bool {
    exists|i: int| 0 <= i < raw.len() && #[trigger] raw[i].0@ == name && raw[i].1
}

/// An interface as clients see it.
pub open spec fn classified(raw: Seq<(String, bool)>, name: Text) -> InterfaceModel {
    InterfaceModel { name, up: seen_up(raw, name), vpn_like: looks_like_vpn(name) }
}

/// Every interface of the enumeration once, in the order of appearance.
pub open spec fn each_once(raw: Seq<(String, bool)>) -> Seq<InterfaceModel> {
    let names = with_all_new(Seq::empty(), names_of(raw));
    Seq::new(names.len(), |i: int| classified(raw, names[i]))
}

/// May `a` stand before `b`: those that are up first, then those that look
/// like a VPN's, then by name?
pub open spec fn ranks_before(a: InterfaceModel, b: InterfaceModel) -> bool {
    if a.up != b.up {
        a.up
    } else if a.vpn_like != b.vpn_like {
        a.vpn_like
    } else {
        no_later(a.name, b.name)
    }
}

/// Are the interfaces in the order of presentation?
pub open spec fn ranked(list: Seq<InterfaceModel>) -> bool {
    forall|i: int, j: int|
        0 <= i < j < list.len() ==> ranks_before(#[trigger] list[i], #[trigger] list[j])
}

proof fn lemma_rank_total(a: InterfaceModel, b: InterfaceModel)
    ensures
        ranks_before(a, b) || ranks_before(b, a),
{
    lemma_order_total(a.name, b.name, 0);
}

proof fn lemma_rank_transitive(a: InterfaceModel, b: InterfaceModel, c: InterfaceModel)
    requires
        ranks_before(a, b),
        ranks_before(b, c),
    ensures
        ranks_before(a, c),
{
    if a.up == b.up && b.up == c.up && a.vpn_like == b.vpn_like && b.vpn_like == c.vpn_like {
        lemma_order_transitive(a.name, b.name, c.name, 0);
    }
}

fn may_precede(a: &InterfaceInfo, b: &InterfaceInfo) -> (r: bool)
    ensures
        r == ranks_before(a@, b@),
{
    if a.up != b.up {
        a.up
    } else if a.vpn_like != b.vpn_like {
        a.vpn_like
    } else {
        comes_no_later(a.name.as_str(), b.name.as_str())
    }
}

fn insert_ranked(list: &mut Vec<InterfaceInfo>, item: InterfaceInfo)
    requires
        ranked(interfaces_of(old(list)@)),
    ensures
        ranked(interfaces_of(final(list)@)),
        interfaces_of(final(list)@).to_multiset() == interfaces_of(
            old(list)@,
        ).to_multiset().insert(item@),
{
    let mut i: usize = 0;
    while i < list.len() && may_precede(&list[i], &item)
        invariant
            i <= list.len(),
            forall|k: int| 0 <= k < i ==> ranks_before(#[trigger] list@[k]@, item@),
        decreases list.len() - i,
    {
        i += 1;
    }
    let ghost before = interfaces_of(list@);
    let ghost added = item@;
    proof {
        if i < list.len() {
            lemma_rank_total(list@[i as int]@, item@);
        }
        assert forall|k: int| i <= k < before.len() implies ranks_before(
            added,
            #[trigger] before[k],
        ) by {
            if k > i {
                assert(ranks_before(before[i as int], before[k]));
                lemma_rank_transitive(added, before[i as int], before[k]);
            }
        }
        assert forall|k: int| 0 <= k < i implies ranks_before(#[trigger] before[k], added) by {
            assert(ranks_before(list@[k]@, item@));
        }
    }
    list.insert(i, item);
    proof {
        assert(interfaces_of(list@) =~= before.insert(i as int, added));
        to_multiset_insert(before, i as int, added);
    }
}

fn any_up(raw: &Vec<(String, bool)>, name: &str) -> (r: bool)
    ensures
        r == seen_up(raw@, name@),
{
    let mut i: usize = 0;
    while i < raw.len()
        invariant
            i <= raw.len(),
            forall|k: int| 0 <= k < i ==> !(#[trigger] raw@[k].0@ == name@ && raw@[k].1),
        decreases raw.len() - i,
    {
        if raw[i].1 && same_text(raw[i].0.as_str(), name) {
            assert(raw@[i as int].0@ == name@);
            return true;
        }
        i += 1;
    }
    false
}

/// The interfaces of an enumeration, which may list one more than once, in
/// the order of presentation. Each appears once, and is up if it is listed as
/// up at all. None is left out.
pub fn classify_and_sort(raw: Vec<(String, bool)>) -> (r: Vec<InterfaceInfo>)
    ensures
        ranked(interfaces_of(r@)),
        interfaces_of(r@).to_multiset() == each_once(raw@).to_multiset(),
{
    broadcast use group_to_multiset_ensures;

    let ghost all = names_of(raw@);
    let mut names: Vec<String> = Vec::new();
    let mut i: usize = 0;
    proof {
        assert(texts(names@) =~= Seq::<Text>::empty());
        assert(all.take(0) =~= Seq::<Text>::empty());
    }
    while i < raw.len()
        invariant
            i <= raw.len(),
            all == names_of(raw@),
            texts(names@) == with_all_new(Seq::empty(), all.take(i as int)),
        decreases raw.len() - i,
    {
        proof {
            assert(all.take(i + 1).drop_last() =~= all.take(i as int));
            assert(all.take(i + 1).last() == raw@[i as int].0@);
        }
        push_new(&mut names, raw[i].0.as_str());
        i += 1;
    }
    proof {
        assert(all.take(i as int) =~= all);
    }
    let ghost whole = each_once(raw@);
    assert(whole.len() == names@.len());
    let mut out: Vec<InterfaceInfo> = Vec::new();
    let mut k: usize = 0;
    proof {
        assert(interfaces_of(out@) =~= Seq::<InterfaceModel>::empty());
        assert(whole.take(0) =~= Seq::<InterfaceModel>::empty());
    }
    while k < names.len()
        invariant
            k <= names.len(),
            whole == each_once(raw@),
            all == names_of(raw@),
            texts(names@) == with_all_new(Seq::empty(), all),
            whole.len() == names@.len(),
            ranked(interfaces_of(out@)),
            interfaces_of(out@).to_multiset() == whole.take(k as int).to_multiset(),
        decreases names.len() - k,
    {
        let name = names[k].clone();
        let item = InterfaceInfo {
            up: any_up(&raw, name.as_str()),
            vpn_like: is_vpn_like(name.as_str()),
            name,
        };
        proof {
            assert(texts(names@)[k as int] == name@);
            assert(whole[k as int] == item@);
            assert(whole.take(k + 1) =~= whole.take(k as int).push(item@));
            to_multiset_build(whole.take(k as int), item@);
        }
        insert_ranked(&mut out, item);
        k += 1;
    }
    proof {
        assert(whole.take(k as int) =~= whole);
    }
    out
}

/// Every interface of the enumeration is listed, none that is not in it is,
/// and none is listed twice.
pub proof fn law_no_interface_is_lost_or_invented(raw: Seq<(String, bool)>)
    ensures
        ({
            let names = with_all_new(Seq::empty(), names_of(raw));
            &&& names.no_duplicates()
            &&& forall|x: Text| names.contains(x) <==> names_of(raw).contains(x)
            &&& each_once(raw).len() == names.len()
            &&& forall|i: int|
                0 <= i < names.len() ==> (#[trigger] each_once(raw)[i]) == classified(raw, names[i])
        }),
{
    crate::lists::lemma_with_all_new(Seq::empty(), names_of(raw));
    let names = with_all_new(Seq::empty(), names_of(raw));
    assert forall|x: Text| names.contains(x) <==> names_of(raw).contains(x) by {
        assert(!Seq::<Text>::empty().contains(x));
    }
}

/// An interface looks like a VPN's exactly by the beginning of its name.
pub proof fn law_vpn_names_are_told_by_their_beginning(name: Text)
    ensures
        looks_like_vpn(name) <==> has_prefix(name, "tun"@) || has_prefix(name, "utun"@)
            || has_prefix(name, "wg"@) || has_prefix(name, "tap"@) || has_prefix(name, "ppp"@)
            || has_prefix(name, "gpd"@),
{
}

/// Every enumerated interface is shown under its name, as up exactly if it was
/// enumerated as up at least once.
pub proof fn law_an_interface_is_shown_as_it_is(raw: Seq<(String, bool)>, name: Text, k: int)
    requires
        names_of(raw).contains(name),
    ensures
        exists|i: int|
            0 <= i < each_once(raw).len() && (#[trigger] each_once(raw)[i]).name == name
                && each_once(raw)[i].up == (exists|j: int|
                0 <= j < raw.len() && #[trigger] raw[j].0@ == name && raw[j].1)
                && each_once(raw)[i].vpn_like == looks_like_vpn(name),
        0 <= k < raw.len() && raw[k].1 && raw[k].0@ == name ==> exists|i: int|
            0 <= i < each_once(raw).len() && (#[trigger] each_once(raw)[i]).name == name
                && each_once(raw)[i].up,
{
    law_no_interface_is_lost_or_invented(raw);
    let names = with_all_new(Seq::empty(), names_of(raw));
    assert(names.contains(name));
    let i = choose|i: int| 0 <= i < names.len() && names[i] == name;
    assert(each_once(raw)[i] == classified(raw, names[i]));
    if 0 <= k < raw.len() && raw[k].1 && raw[k].0@ == name {
        assert(seen_up(raw, name));
    }
}

/// Interfaces that are up come before those that are not, of these those that
/// look like a VPN's before the others, and then they go by their names.
pub proof fn law_interfaces_are_ranked(a: InterfaceModel, b: InterfaceModel)
    ensures
        a.up && !b.up ==> ranks_before(a, b) && !ranks_before(b, a),
        a.up == b.up && a.vpn_like && !b.vpn_like ==> ranks_before(a, b) && !ranks_before(b, a),
        a.up == b.up && a.vpn_like == b.vpn_like ==> ranks_before(a, b) == no_later(a.name, b.name),
{
}

proof fn lemma_odd_digits(c: char)
    requires
        '0' <= c <= '9' || 'a' <= c <= 'f',
    ensures
        (hex_digit(c) % 2 == 1) == (c == '1' || c == '3' || c == '5' || c == '7' || c == '9' || c
            == 'b' || c == 'd' || c == 'f'),
{
}

proof fn lemma_digits_of_flags(digits: Text)
    requires
        digits.len() > 0,
        digits[0] != '+',
        !is_white(digits.last()),
    ensures
        flag_digits("0x"@ + digits) == digits,
{
    reveal_strlit("0x");
    reveal_strlit("+");
    let flags = "0x"@ + digits;
    let n = digits.len() - 1;
    assert(flags.last() == digits[n] && flags[0] == '0');
    assert(trimmed(flags) == flags) by {
        crate::text::lemma_trimmed_already(flags);
    }
    assert(after_prefix(flags, "0x"@) == Some(digits)) by {
        assert(flags.subrange(0, 2) =~= "0x"@);
        assert(flags.subrange(2, flags.len() as int) =~= digits);
    }
    assert(after_prefix(digits, "+"@) is None) by {
        if has_prefix(digits, "+"@) {
            assert(digits.subrange(0, 1)[0] == digits[0]);
        }
    }
}

/// The flags are a number in base sixteen with `0x` before it, and say that the interface is up exactly if its last digit is odd.
pub proof fn law_the_last_digit_tells_up(digits: Text)
    requires
        digits.len() > 0,
        forall|i: int|
            0 <= i < digits.len() ==> ('0' <= #[trigger] digits[i] <= '9' || 'a' <= digits[i]
                <= 'f'),
        hex_number(digits) <= u64::MAX,
    ensures
        ({
            let last = digits.last();
            let odd = last == '1' || last == '3' || last == '5' || last == '7' || last == '9'
                || last == 'b' || last == 'd' || last == 'f';
            flags_up("0x"@ + digits) == Some(odd)
        }),
{
    assert('0' <= digits[0] <= '9' || 'a' <= digits[0] <= 'f');
    assert('0' <= digits[digits.len() - 1] <= '9' || 'a' <= digits[digits.len() - 1] <= 'f');
    lemma_digits_of_flags(digits);
    assert(all_hex(digits)) by {
        assert forall|i: int| 0 <= i < digits.len() implies hex_digit(#[trigger] digits[i])
            >= 0 by {
            assert('0' <= digits[i] <= '9' || 'a' <= digits[i] <= 'f');
        }
    }
    let last = digits[digits.len() - 1];
    assert('0' <= last <= '9' || 'a' <= last <= 'f');
    lemma_odd_digits(last);
    let rest = hex_number(digits.drop_last());
    assert(hex_number(digits) == rest * 16 + hex_digit(last));
}

/// Hexadecimal digits are read in base sixteen, in either case.
pub proof fn law_flags_are_read_in_base_sixteen(digits: Text, c: char)
    ensures
        hex_number(digits.push(c)) == hex_number(digits) * 16 + hex_digit(c),
        hex_number(Seq::empty()) == 0,
        '0' <= c <= '9' ==> hex_digit(c) == c as int - '0' as int,
        'a' <= c <= 'f' ==> hex_digit(c) == c as int - 'a' as int + 10,
        'A' <= c <= 'F' ==> hex_digit(c) == c as int - 'A' as int + 10,
        flags_up(Seq::empty()) is None,
{
    assert(digits.push(c).drop_last() =~= digits);
    reveal_strlit("0x");
    reveal_strlit("+");
    let none = Seq::<char>::empty();
    assert(trimmed(none) =~= none);
    assert(flag_digits(none) =~= none);
}

/// Flags that hold anything but digits say nothing, and neither do those too
/// large to be flags.
pub proof fn law_flags_that_are_no_number_say_nothing(digits: Text, k: int)
    requires
        0 <= k < digits.len(),
        digits[0] != '+',
        !is_white(digits.last()),
    ensures
        !('0' <= digits[k] <= '9') && !('a' <= digits[k] <= 'f') && !('A' <= digits[k] <= 'F')
            ==> flags_up("0x"@ + digits) is None,
        hex_number(digits) > u64::MAX ==> flags_up("0x"@ + digits) is None,
{
    lemma_digits_of_flags(digits);
    if !('0' <= digits[k] <= '9') && !('a' <= digits[k] <= 'f') && !('A' <= digits[k] <= 'F') {
        assert(hex_digit(digits[k]) < 0);
    }
}

} // verus!
