//! Lists of texts: without repeats, in order, and up to order.

use vstd::prelude::*;
use vstd::multiset::*;
use vstd::seq_lib::*;
use crate::text::{copy_texts, has_text, same_text, texts, Text};

verus! {

/// The list with `x` at its end, unless it is there already.
pub open spec fn with_new(list: Seq<Text>, x: Text) -> Seq<Text> {
    if list.contains(x) {
        list
    } else {
        list.push(x)
    }
}

/// The list with each of `xs` in turn added, unless it is there already.
pub open spec fn with_all_new(list: Seq<Text>, xs: Seq<Text>) -> Seq<Text>
    decreases xs.len(),
{
    if xs.len() == 0 {
        list
    } else {
        with_new(with_all_new(list, xs.drop_last()), xs.last())
    }
}

/// Add a string to the list, unless it is there already.
pub fn push_new(list: &mut Vec<String>, s: &str)
    ensures
        texts(final(list)@) == with_new(texts(old(list)@), s@),
{
    if !has_text(list, s) {
        let ghost before = list@;
        list.push(s.to_owned());
        assert(texts(list@) =~= texts(before).push(s@));
    }
}

/// Adding only what is new keeps a list free of repeats, and loses nothing.
pub proof fn lemma_with_all_new(list: Seq<Text>, xs: Seq<Text>)
    requires
        list.no_duplicates(),
    ensures
        with_all_new(list, xs).no_duplicates(),
        forall|x: Text|
            with_all_new(list, xs).contains(x) <==> list.contains(x) || xs.contains(x),
    decreases xs.len(),
{
    if xs.len() > 0 {
        let rest = with_all_new(list, xs.drop_last());
        lemma_with_all_new(list, xs.drop_last());
        assert forall|x: Text|
            with_all_new(list, xs).contains(x) <==> list.contains(x) || xs.contains(x) by {
            assert(xs.contains(x) <==> xs.drop_last().contains(x) || x == xs.last()) by {
                if xs.contains(x) && x != xs.last() {
                    let k = xs.index_of(x);
                    assert(xs.drop_last()[k] == x);
                }
                if xs.drop_last().contains(x) {
                    let k = xs.drop_last().index_of(x);
                    assert(xs[k] == x);
                }
            }
            if rest.contains(x) {
                let k = rest.index_of(x);
                assert(with_all_new(list, xs)[k] == x);
            }
            if x == xs.last() && !rest.contains(x) {
                assert(with_all_new(list, xs)[rest.len() as int] == x);
            }
        }
    }
}

/// Do the two lists hold the same texts equally often, in whatever order?
pub open spec fn same_members(a: Seq<Text>, b: Seq<Text>) -> bool {
    a.to_multiset() == b.to_multiset()
}

fn position(list: &Vec<String>, s: &str) -> (r: Option<usize>)
    ensures
        match r {
            Some(i) => i < list.len() && list@[i as int]@ == s@,
            None => !texts(list@).contains(s@),
        },
{
    let mut i: usize = 0;
    while i < list.len()
        invariant
            i <= list.len(),
            forall|k: int| 0 <= k < i ==> list@[k]@ != s@,
        decreases list.len() - i,
    {
        if same_text(list[i].as_str(), s) {
            return Some(i);
        }
        i += 1;
    }
    None
}

/// Order-insensitive equality of two lists.
pub fn same_set(a: &Vec<String>, b: &Vec<String>) -> (r: bool)
    ensures
        r == same_members(texts(a@), texts(b@)),
{
    broadcast use group_to_multiset_ensures, group_multiset_axioms;

    let ghost ta = texts(a@);
    let ghost tb = texts(b@);
    if a.len() != b.len() {
        proof {
            to_multiset_len(ta);
            to_multiset_len(tb);
        }
        return false;
    }
    let mut rest = copy_texts(b);
    let mut i: usize = 0;
    proof {
        assert(ta.take(0) =~= Seq::empty());
        assert(ta.take(0).to_multiset() =~= Multiset::empty());
        assert(texts(rest@).to_multiset().add(ta.take(0).to_multiset()) =~= tb.to_multiset());
    }
    while i < a.len()
        invariant
            i <= a.len(),
            a.len() == b.len(),
            rest.len() + i == b.len(),
            ta == texts(a@),
            tb == texts(b@),
            texts(rest@).to_multiset().add(ta.take(i as int).to_multiset()) == tb.to_multiset(),
        decreases a.len() - i,
    {
        let ghost before = texts(rest@);
        let ghost x = ta[i as int];
        proof {
            assert(ta.take(i + 1) =~= ta.take(i as int).push(x));
            to_multiset_build(ta.take(i as int), x);
        }
        match position(&rest, a[i].as_str()) {
            Some(k) => {
                let ghost m0 = before.to_multiset();
                let _ = rest.remove(k);
                proof {
                    assert(texts(rest@) =~= before.remove(k as int));
                    assert(before[k as int] == x);
                    assert(before.contains(x));
                    to_multiset_contains(before, x);
                    to_multiset_remove(before, k as int);
                    assert(texts(rest@).to_multiset().add(ta.take(i + 1).to_multiset())
                        =~= before.to_multiset().add(ta.take(i as int).to_multiset()));
                }
            },
            None => {
                proof {
                    to_multiset_contains(before, x);
                    assert(before.to_multiset().count(x) == 0);
                    assert(ta =~= ta.take(i + 1) + ta.skip(i + 1));
                    lemma_multiset_commutative(ta.take(i + 1), ta.skip(i + 1));
                    assert(ta.to_multiset().count(x) > tb.to_multiset().count(x));
                }
                return false;
            },
        }
        i += 1;
    }
    proof {
        assert(ta.take(i as int) =~= ta);
        assert(texts(rest@) =~= Seq::empty());
        assert(ta.to_multiset() =~= tb.to_multiset());
    }
    true
}

/// `same_members` is an equivalence, and does not look at order.
pub proof fn law_same_set_is_an_equivalence(a: Seq<Text>, b: Seq<Text>, c: Seq<Text>)
    ensures
        same_members(a, a),
        same_members(a, b) == same_members(b, a),
        same_members(a, b) && same_members(b, c) ==> same_members(a, c),
        same_members(a + b, b + a),
{
    lemma_multiset_commutative(a, b);
    lemma_multiset_commutative(b, a);
    assert((a + b).to_multiset() =~= (b + a).to_multiset());
}

// ---------------------------------------------------------------------------
// Order
// ---------------------------------------------------------------------------

/// Does `a` come no later than `b` in the order of their characters, from
/// position `i` on?
pub open spec fn no_later_from(a: Text, b: Text, i: int) -> bool
    decreases a.len() - i,
{
    if i >= a.len() {
        true
    } else if i >= b.len() {
        false
    } else if a[i] != b[i] {
        a[i] < b[i]
    } else {
        no_later_from(a, b, i + 1)
    }
}

/// Does `a` come no later than `b` in the order of their characters?
pub open spec fn no_later(a: Text, b: Text) -> bool {
    no_later_from(a, b, 0)
}

/// The order is total.
pub proof fn lemma_order_total(a: Text, b: Text, i: int)
    requires
        0 <= i,
    ensures
        no_later_from(a, b, i) || no_later_from(b, a, i),
    decreases a.len() - i,
{
    if i < a.len() && i < b.len() && a[i] == b[i] {
        lemma_order_total(a, b, i + 1);
    }
}

/// The order is transitive.
pub proof fn lemma_order_transitive(a: Text, b: Text, c: Text, i: int)
    requires
        0 <= i,
        no_later_from(a, b, i),
        no_later_from(b, c, i),
    ensures
        no_later_from(a, c, i),
    decreases a.len() - i,
{
    if i < a.len() && i < b.len() && i < c.len() && a[i] == b[i] && b[i] == c[i] {
        lemma_order_transitive(a, b, c, i + 1);
    }
}

/// Two texts that come no later than each other are equal.
pub proof fn lemma_order_antisymmetric(a: Text, b: Text, i: int)
    requires
        0 <= i <= a.len(),
        i <= b.len(),
        a.take(i) == b.take(i),
        no_later_from(a, b, i),
        no_later_from(b, a, i),
    ensures
        a == b,
    decreases a.len() - i,
{
    if i < a.len() && i < b.len() {
        assert(a[i] == b[i]);
        assert(a.take(i + 1) =~= a.take(i).push(a[i]));
        assert(b.take(i + 1) =~= b.take(i).push(b[i]));
        lemma_order_antisymmetric(a, b, i + 1);
    } else {
        assert(a.len() == b.len());
        assert(a =~= a.take(i));
        assert(b =~= b.take(i));
    }
}

/// Does the first string come no later than the second?
pub fn comes_no_later(a: &str, b: &str) -> (r: bool)
    ensures
        r == no_later(a@, b@),
{
    let x = crate::text::chars_of(a);
    let y = crate::text::chars_of(b);
    let mut i: usize = 0;
    while i < x.len() && i < y.len() && x[i] == y[i]
        invariant
            i <= x.len(),
            i <= y.len(),
            x@ == a@,
            y@ == b@,
            no_later(a@, b@) == no_later_from(a@, b@, i as int),
        decreases x.len() - i,
    {
        i += 1;
    }
    if i >= x.len() {
        true
    } else if i >= y.len() {
        false
    } else {
        x[i] < y[i]
    }
}

/// Are the texts in order, without repeats?
pub open spec fn strictly_ordered(list: Seq<Text>) -> bool {
    forall|i: int, j: int|
        0 <= i < j < list.len() ==> no_later(#[trigger] list[i], #[trigger] list[j]) && list[i]
            != list[j]
}

/// Put a string in its place in an ordered list, unless it is there already.
fn insert_new(list: &mut Vec<String>, s: String)
    requires
        strictly_ordered(texts(old(list)@)),
    ensures
        strictly_ordered(texts(final(list)@)),
        forall|x: Text|
            texts(final(list)@).contains(x) <==> texts(old(list)@).contains(x) || x == s@,
{
    let ghost before = texts(list@);
    if has_text(list, s.as_str()) {
        return;
    }
    let mut i: usize = 0;
    while i < list.len() && comes_no_later(list[i].as_str(), s.as_str())
        invariant
            i <= list.len(),
            forall|k: int| 0 <= k < i ==> no_later(#[trigger] list@[k]@, s@),
        decreases list.len() - i,
    {
        i += 1;
    }
    let ghost added = s@;
    proof {
        if i < list.len() {
            lemma_order_total(list@[i as int]@, s@, 0);
        }
        assert forall|k: int| i <= k < before.len() implies no_later(
            added,
            #[trigger] before[k],
        ) by {
            if k > i {
                assert(no_later(before[i as int], before[k]));
                lemma_order_transitive(added, before[i as int], before[k], 0);
            }
        }
        assert forall|k: int| 0 <= k < i implies no_later(#[trigger] before[k], added) by {
            assert(no_later(list@[k]@, s@));
        }
    }
    list.insert(i, s);
    proof {
        let after = texts(list@);
        assert(after =~= before.insert(i as int, added));
        assert forall|a: int, b: int| 0 <= a < b < after.len() implies no_later(
            #[trigger] after[a],
            #[trigger] after[b],
        ) && after[a] != after[b] by {
            let x = if a < i { a } else { a - 1 };
            let y = if b < i { b } else { b - 1 };
            if a != i && b != i {
                assert(after[a] == before[x] && after[b] == before[y]);
            } else if a == i {
                assert(after[b] == before[y]);
            } else {
                assert(after[a] == before[x]);
            }
        }
        assert forall|x: Text| after.contains(x) <==> before.contains(x) || x == added by {
            if before.contains(x) {
                let k = before.index_of(x);
                assert(after[if k < i { k } else { k + 1 }] == x);
            }
            if x == added {
                assert(after[i as int] == x);
            }
            if after.contains(x) {
                let k = after.index_of(x);
                if k != i {
                    assert(before[if k < i { k } else { k - 1 }] == x);
                }
            }
        }
    }
}

/// The strings of the list in order, each once.
pub fn ordered_set(list: Vec<String>) -> (r: Vec<String>)
    ensures
        strictly_ordered(texts(r@)),
        forall|x: Text| texts(r@).contains(x) <==> texts(list@).contains(x),
        r@.len() == 0 <==> list@.len() == 0,
{
    let ghost all = texts(list@);
    let mut out: Vec<String> = Vec::new();
    let mut i: usize = 0;
    proof {
        assert(texts(out@) =~= Seq::<Text>::empty());
        assert(all.take(0) =~= Seq::<Text>::empty());
    }
    while i < list.len()
        invariant
            i <= list.len(),
            all == texts(list@),
            strictly_ordered(texts(out@)),
            forall|x: Text| texts(out@).contains(x) <==> all.take(i as int).contains(x),
        decreases list.len() - i,
    {
        proof {
            assert(all.take(i + 1) =~= all.take(i as int).push(all[i as int]));
            assert forall|x: Text|
                all.take(i + 1).contains(x) <==> all.take(i as int).contains(x) || x
                    == all[i as int] by {
                if all.take(i as int).contains(x) {
                    let k = all.take(i as int).index_of(x);
                    assert(all.take(i + 1)[k] == x);
                }
                if x == all[i as int] {
                    assert(all.take(i + 1)[i as int] == x);
                }
            }
        }
        let ghost before = texts(out@);
        let item = list[i].clone();
        assert(item@ == all[i as int]);
        insert_new(&mut out, item);
        proof {
            assert forall|x: Text| texts(out@).contains(x) <==> all.take(i + 1).contains(x) by {
                assert(before.contains(x) <==> all.take(i as int).contains(x));
            }
        }
        i += 1;
    }
    proof {
        assert(all.take(i as int) =~= all);
        if list@.len() > 0 {
            assert(all.contains(all[0]));
            assert(texts(out@).contains(all[0]));
        }
        if out@.len() > 0 {
            assert(texts(out@).contains(texts(out@)[0]));
            assert(all.contains(texts(out@)[0]));
        }
    }
    out
}

/// Texts are ordered by their first characters that differ; a text comes
/// before what it begins.
pub proof fn law_texts_are_ordered_by_character(head: Text, a: char, b: char, x: Text, y: Text)
    ensures
        no_later(head, head + x),
        a < b ==> no_later(head.push(a) + x, head.push(b) + y),
        a < b ==> !no_later(head.push(b) + y, head.push(a) + x),
{
    lemma_begins(head, x, 0);
    if a < b {
        lemma_differ(head, a, b, x, y, 0);
    }
}

proof fn lemma_begins(head: Text, x: Text, i: int)
    requires
        0 <= i,
    ensures
        no_later_from(head, head + x, i),
    decreases head.len() - i,
{
    if i < head.len() {
        assert((head + x)[i] == head[i]);
        lemma_begins(head, x, i + 1);
    }
}

proof fn lemma_differ(head: Text, a: char, b: char, x: Text, y: Text, i: int)
    requires
        0 <= i <= head.len(),
        a < b,
    ensures
        no_later_from(head.push(a) + x, head.push(b) + y, i),
        !no_later_from(head.push(b) + y, head.push(a) + x, i),
    decreases head.len() - i,
{
    let u = head.push(a) + x;
    let v = head.push(b) + y;
    if i < head.len() {
        assert(u[i] == head[i] && v[i] == head[i]);
        lemma_differ(head, a, b, x, y, i + 1);
    } else {
        assert(u[i] == a && v[i] == b);
    }
}

/// Adding what is new keeps the list, and appends only what it did not hold.
pub proof fn law_only_what_is_new_is_added(list: Seq<Text>, x: Text)
    ensures
        list.contains(x) ==> with_new(list, x) == list,
        !list.contains(x) ==> with_new(list, x) == list.push(x),
        with_all_new(list, Seq::empty()) == list,
{
}

/// Lists with the same members are equally long and hold the same texts; a
/// text more, or another one, makes a difference.
pub proof fn law_a_member_makes_a_difference(a: Seq<Text>, b: Seq<Text>, x: Text)
    ensures
        same_members(a, b) ==> a.len() == b.len(),
        same_members(a, b) ==> (a.contains(x) <==> b.contains(x)),
        !same_members(a.push(x), a),
        same_members(a.push(x), b.push(x)) == same_members(a, b),
{
    broadcast use group_to_multiset_ensures, group_multiset_axioms;

    to_multiset_len(a);
    to_multiset_len(b);
    to_multiset_len(a.push(x));
    to_multiset_contains(a, x);
    to_multiset_contains(b, x);
    to_multiset_build(a, x);
    to_multiset_build(b, x);
    if same_members(a.push(x), b.push(x)) {
        assert(a.to_multiset() =~= a.to_multiset().insert(x).remove(x));
        assert(b.to_multiset() =~= b.to_multiset().insert(x).remove(x));
    }
}

} // verus!
