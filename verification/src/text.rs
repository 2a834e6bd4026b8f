//! Text as sequences of characters: the model every parser and message in
//! this library is specified over, and the string operations built on it.

use vstd::prelude::*;
use vstd::string::*;
use vstd::utf8::{decode_utf8, valid_utf8};

verus! {

/// The mathematical value of a string.
pub type Text = Seq<char>;

/// The mathematical values of a list of strings.
pub open spec fn texts(v: Seq<String>) -> Seq<Text> {
    Seq::new(v.len(), |i: int| v[i]@)
}

/// The mathematical value of an optional string.
pub open spec fn opt_text(o: Option<String>) -> Option<Text> {
    match o {
        Some(s) => Some(s@),
        None => None,
    }
}

/// The mathematical value of an optional list of strings.
pub open spec fn opt_texts(o: Option<Vec<String>>) -> Option<Seq<Text>> {
    match o {
        Some(v) => Some(texts(v@)),
        None => None,
    }
}

/// `parts` laid end to end with `sep` between neighbours.
pub open spec fn joined(parts: Seq<Text>, sep: Text) -> Text
    decreases parts.len(),
{
    if parts.len() == 0 {
        Seq::empty()
    } else if parts.len() == 1 {
        parts[0]
    } else {
        joined(parts.drop_last(), sep) + sep + parts.last()
    }
}

/// Is the character white space, as Unicode defines it?
pub open spec fn is_white(c: char) -> bool {
    let n = c as u32;
    ||| 0x09 <= n <= 0x0d
    ||| n == 0x20
    ||| n == 0x85
    ||| n == 0xa0
    ||| n == 0x1680
    ||| 0x2000 <= n <= 0x200a
    ||| n == 0x2028
    ||| n == 0x2029
    ||| n == 0x202f
    ||| n == 0x205f
    ||| n == 0x3000
}

/// Is the character white space?
pub fn white(c: char) -> (r: bool)
    ensures
        r == is_white(c),
{
    let n: u32 = c as u32;
    (0x09 <= n && n <= 0x0d) || n == 0x20 || n == 0x85 || n == 0xa0 || n == 0x1680 || (0x2000 <= n
        && n <= 0x200a) || n == 0x2028 || n == 0x2029 || n == 0x202f || n == 0x205f || n == 0x3000
}

/// The characters of a string.
pub fn chars_of(s: &str) -> (r: Vec<char>)
    ensures
        r@ == s@,
{
    let mut out: Vec<char> = Vec::new();
    for c in it: s.chars()
        invariant
            out@ == it.seq().take(it.index() as int),
            it.seq() == s@,
    {
        proof {
            assert(it.seq().take(it.index() + 1) =~= it.seq().take(it.index() as int).push(
                it.seq()[it.index() as int],
            ));
        }
        out.push(c);
    }
    proof {
        assert(s@.take(s@.len() as int) =~= s@);
    }
    out
}

/// Do the two strings hold the same characters?
pub fn same_text(a: &str, b: &str) -> (r: bool)
    ensures
        r == (a@ == b@),
{
    a.to_owned() == b.to_owned()
}

/// A copy of a list of strings.
pub fn copy_texts(v: &Vec<String>) -> (r: Vec<String>)
    ensures
        texts(r@) == texts(v@),
        r@.len() == v@.len(),
{
    let mut out: Vec<String> = Vec::new();
    let mut i: usize = 0;
    while i < v.len()
        invariant
            i <= v.len(),
            out.len() == i,
            forall|k: int| 0 <= k < i ==> out@[k]@ == v@[k]@,
        decreases v.len() - i,
    {
        out.push(v[i].clone());
        i += 1;
    }
    out
}

/// A copy of an optional list of strings.
pub fn copy_opt_texts(v: &Option<Vec<String>>) -> (r: Option<Vec<String>>)
    ensures
        opt_texts(r) == opt_texts(*v),
{
    match v {
        Some(list) => Some(copy_texts(list)),
        None => None,
    }
}

/// A copy of an optional string.
pub fn copy_opt_text(v: &Option<String>) -> (r: Option<String>)
    ensures
        opt_text(r) == opt_text(*v),
{
    match v {
        Some(s) => Some(s.clone()),
        None => None,
    }
}

/// Do the two lists hold the same strings in the same order?
pub fn same_texts(a: &Vec<String>, b: &Vec<String>) -> (r: bool)
    ensures
        r == (texts(a@) == texts(b@)),
{
    if a.len() != b.len() {
        assert(texts(a@).len() != texts(b@).len());
        return false;
    }
    let mut i: usize = 0;
    while i < a.len()
        invariant
            i <= a.len(),
            a.len() == b.len(),
            forall|k: int| 0 <= k < i ==> a@[k]@ == b@[k]@,
        decreases a.len() - i,
    {
        if a[i] != b[i] {
            assert(texts(a@)[i as int] != texts(b@)[i as int]);
            return false;
        }
        i += 1;
    }
    assert(texts(a@) =~= texts(b@));
    true
}

/// Are the two optional strings equal?
pub fn same_opt_text(a: &Option<String>, b: &Option<String>) -> (r: bool)
    ensures
        r == (opt_text(*a) == opt_text(*b)),
{
    match (a, b) {
        (Some(x), Some(y)) => *x == *y,
        (None, None) => true,
        _ => false,
    }
}

/// Are the two optional lists equal?
pub fn same_opt_texts(a: &Option<Vec<String>>, b: &Option<Vec<String>>) -> (r: bool)
    ensures
        r == (opt_texts(*a) == opt_texts(*b)),
{
    match (a, b) {
        (Some(x), Some(y)) => same_texts(x, y),
        (None, None) => true,
        _ => false,
    }
}

/// Does the list hold this string?
pub fn has_text(v: &Vec<String>, s: &str) -> (r: bool)
    ensures
        r == texts(v@).contains(s@),
{
    let mut i: usize = 0;
    while i < v.len()
        invariant
            i <= v.len(),
            forall|k: int| 0 <= k < i ==> v@[k]@ != s@,
        decreases v.len() - i,
    {
        if same_text(v[i].as_str(), s) {
            assert(texts(v@)[i as int] == s@);
            return true;
        }
        i += 1;
    }
    false
}

/// `a` followed by `b`.
pub fn concat2(a: &str, b: &str) -> (r: String)
    ensures
        r@ == a@ + b@,
{
    let mut out = a.to_owned();
    out.append(b);
    out
}

/// `a`, then `b`, then `c`.
pub fn concat3(a: &str, b: &str, c: &str) -> (r: String)
    ensures
        r@ == a@ + b@ + c@,
{
    let mut out = a.to_owned();
    out.append(b);
    out.append(c);
    out
}

/// The strings of the list, separated by `sep`.
pub fn join(parts: &Vec<String>, sep: &str) -> (r: String)
    ensures
        r@ == joined(texts(parts@), sep@),
{
    if parts.len() == 0 {
        return String::new();
    }
    let mut out = parts[0].clone();
    let mut i: usize = 1;
    let ghost all = texts(parts@);
    proof {
        assert(all.take(1) =~= seq![all[0]]);
        assert(joined(all.take(1), sep@) == all[0]);
    }
    while i < parts.len()
        invariant
            1 <= i <= parts.len(),
            all == texts(parts@),
            out@ == joined(all.take(i as int), sep@),
        decreases parts.len() - i,
    {
        proof {
            assert(all.take(i + 1).drop_last() =~= all.take(i as int));
            assert(all.take(i + 1).last() == parts@[i as int]@);
        }
        out.append(sep);
        out.append(parts[i].as_str());
        i += 1;
    }
    proof {
        assert(all.take(i as int) =~= all);
    }
    out
}

// ---------------------------------------------------------------------------
// Slices
// ---------------------------------------------------------------------------

/// The mathematical values of a list of string slices.
pub open spec fn strs(v: Seq<&str>) -> Seq<Text> {
    Seq::new(v.len(), |i: int| v[i]@)
}

/// The first position from `from` on that holds `c`, or the length.
pub open spec fn next_char(t: Text, c: char, from: int) -> int
    decreases t.len() - from,
{
    if from >= t.len() {
        t.len() as int
    } else if t[from] == c {
        from
    } else {
        next_char(t, c, from + 1)
    }
}

/// The first position from `from` on that is not white space, or the length.
pub open spec fn skip_white(t: Text, from: int) -> int
    decreases t.len() - from,
{
    if from >= t.len() {
        t.len() as int
    } else if !is_white(t[from]) {
        from
    } else {
        skip_white(t, from + 1)
    }
}

/// The first position from `from` on that is white space, or the length.
pub open spec fn skip_word(t: Text, from: int) -> int
    decreases t.len() - from,
{
    if from >= t.len() {
        t.len() as int
    } else if is_white(t[from]) {
        from
    } else {
        skip_word(t, from + 1)
    }
}

/// The text without white space at its start.
pub open spec fn trimmed_start(t: Text) -> Text {
    t.subrange(skip_white(t, 0), t.len() as int)
}

/// The text without white space at its end.
pub open spec fn trimmed_end(t: Text) -> Text
    decreases t.len(),
{
    if t.len() > 0 && is_white(t.last()) {
        trimmed_end(t.drop_last())
    } else {
        t
    }
}

/// The text without white space at either end.
pub open spec fn trimmed(t: Text) -> Text {
    trimmed_end(trimmed_start(t))
}

/// The text without any `c` at its end.
pub open spec fn without_trailing(t: Text, c: char) -> Text
    decreases t.len(),
{
    if t.len() > 0 && t.last() == c {
        without_trailing(t.drop_last(), c)
    } else {
        t
    }
}

/// Does `pat` stand in `t` at position `i`?
pub open spec fn occurs_at(t: Text, pat: Text, i: int) -> bool {
    0 <= i && i + pat.len() <= t.len() && t.subrange(i, i + pat.len()) == pat
}

/// Does `pat` stand somewhere in `t`?
pub open spec fn has_part(t: Text, pat: Text) -> bool {
    exists|i: int| occurs_at(t, pat, i)
}

/// Does `t` start with `pat`?
pub open spec fn has_prefix(t: Text, pat: Text) -> bool {
    occurs_at(t, pat, 0)
}

/// Does `t` end with `pat`?
pub open spec fn has_suffix(t: Text, pat: Text) -> bool {
    occurs_at(t, pat, t.len() - pat.len())
}

/// What follows the prefix `pat`, if `t` starts with it.
pub open spec fn after_prefix(t: Text, pat: Text) -> Option<Text> {
    if has_prefix(t, pat) {
        Some(t.subrange(pat.len() as int, t.len() as int))
    } else {
        None
    }
}

/// What comes before the suffix `pat`, if `t` ends with it.
pub open spec fn before_suffix(t: Text, pat: Text) -> Option<Text> {
    if has_suffix(t, pat) {
        Some(t.subrange(0, t.len() - pat.len()))
    } else {
        None
    }
}

/// The first position from `from` on at which `pat` stands, or -1.
pub open spec fn first_part(t: Text, pat: Text, from: int) -> int
    decreases t.len() - from + 1,
{
    if from + pat.len() > t.len() {
        -1
    } else if occurs_at(t, pat, from) {
        from
    } else {
        first_part(t, pat, from + 1)
    }
}

/// The last position up to `from` at which `pat` stands, or -1.
pub open spec fn last_part(t: Text, pat: Text, from: int) -> int
    decreases from + 1,
{
    if from < 0 {
        -1
    } else if occurs_at(t, pat, from) {
        from
    } else {
        last_part(t, pat, from - 1)
    }
}

/// What comes before and after position `i`, where `pat` stands.
pub open spec fn around(t: Text, pat: Text, i: int) -> (Text, Text) {
    (t.subrange(0, i), t.subrange(i + pat.len(), t.len() as int))
}

/// What comes before and after the first `pat`, if there is one.
pub open spec fn split_first(t: Text, pat: Text) -> Option<(Text, Text)> {
    let i = first_part(t, pat, 0);
    if i < 0 {
        None
    } else {
        Some(around(t, pat, i))
    }
}

/// What comes before and after the last `pat`, if there is one.
pub open spec fn split_last(t: Text, pat: Text) -> Option<(Text, Text)> {
    let i = last_part(t, pat, t.len() - pat.len());
    if i < 0 {
        None
    } else {
        Some(around(t, pat, i))
    }
}

/// A line without the carriage return that ended it, if one did.
pub open spec fn without_return(t: Text) -> Text {
    if t.len() > 0 && t.last() == '\r' {
        t.drop_last()
    } else {
        t
    }
}

/// The lines of `t` from position `pos` on. A line ends at a line feed, with
/// or without a carriage return before it, or at the end of the text; no
/// empty line follows the last line feed.
pub open spec fn lines_from(t: Text, pos: int) -> Seq<Text>
    decreases t.len() - pos + 1,
    when 0 <= pos
    via lines_from_decreases
{
    if pos >= t.len() {
        Seq::empty()
    } else {
        let n = next_char(t, '\n', pos);
        let raw = t.subrange(pos, n);
        let line = if n < t.len() {
            without_return(raw)
        } else {
            raw
        };
        seq![line] + lines_from(t, n + 1)
    }
}

#[via_fn]
proof fn lines_from_decreases(t: Text, pos: int) {
    lemma_next_char(t, '\n', pos);
}

/// The lines of `t`.
pub open spec fn lines_of(t: Text) -> Seq<Text> {
    lines_from(t, 0)
}

/// The parts of `t` from position `pos` on, separated by `c`.
pub open spec fn parts_from(t: Text, c: char, pos: int) -> Seq<Text>
    decreases t.len() - pos,
    when 0 <= pos <= t.len()
    via parts_from_decreases
{
    let n = next_char(t, c, pos);
    if n >= t.len() {
        seq![t.subrange(pos, t.len() as int)]
    } else {
        seq![t.subrange(pos, n)] + parts_from(t, c, n + 1)
    }
}

#[via_fn]
proof fn parts_from_decreases(t: Text, c: char, pos: int) {
    lemma_next_char(t, c, pos);
}

/// The parts of `t` separated by `c`.
pub open spec fn parts_of(t: Text, c: char) -> Seq<Text> {
    parts_from(t, c, 0)
}

/// The words of `t` from position `pos` on.
pub open spec fn words_from(t: Text, pos: int) -> Seq<Text>
    decreases t.len() - pos,
    when 0 <= pos
    via words_from_decreases
{
    let a = skip_white(t, pos);
    if a >= t.len() {
        Seq::empty()
    } else {
        let b = skip_word(t, a);
        seq![t.subrange(a, b)] + words_from(t, b)
    }
}

#[via_fn]
proof fn words_from_decreases(t: Text, pos: int) {
    lemma_skip_white(t, pos);
    let a = skip_white(t, pos);
    lemma_skip_word(t, a);
}

/// The words of `t`: the longest runs without white space.
pub open spec fn words_of(t: Text) -> Seq<Text> {
    words_from(t, 0)
}

/// Is `d` the character `c`, in lower case if it is an ASCII letter?
pub open spec fn lowers_to(c: char, d: char) -> bool {
    if 'A' <= c <= 'Z' {
        d as int == c as int + 32
    } else {
        d == c
    }
}

/// Is `u` the text `t` with its ASCII letters in lower case?
pub open spec fn is_lowered(t: Text, u: Text) -> bool {
    t.len() == u.len() && forall|i: int| 0 <= i < t.len() ==> lowers_to(#[trigger] t[i], u[i])
}

/// Where `next_char` ends up.
pub proof fn lemma_next_char(t: Text, c: char, from: int)
    requires
        0 <= from,
    ensures
        from <= t.len() ==> from <= next_char(t, c, from) <= t.len(),
        next_char(t, c, from) <= t.len(),
        next_char(t, c, from) < t.len() ==> t[next_char(t, c, from)] == c,
        forall|k: int| from <= k < next_char(t, c, from) && k < t.len() ==> t[k] != c,
    decreases t.len() - from,
{
    if from < t.len() && t[from] != c {
        lemma_next_char(t, c, from + 1);
    }
}

/// Where `skip_white` ends up.
pub proof fn lemma_skip_white(t: Text, from: int)
    requires
        0 <= from,
    ensures
        from <= t.len() ==> from <= skip_white(t, from) <= t.len(),
        skip_white(t, from) <= t.len(),
        skip_white(t, from) < t.len() ==> from <= skip_white(t, from) && !is_white(
            t[skip_white(t, from)],
        ),
        forall|k: int| from <= k < skip_white(t, from) && k < t.len() ==> is_white(#[trigger] t[k]),
    decreases t.len() - from,
{
    if from < t.len() && is_white(t[from]) {
        lemma_skip_white(t, from + 1);
    }
}

/// Where `skip_word` ends up.
pub proof fn lemma_skip_word(t: Text, from: int)
    requires
        0 <= from,
    ensures
        from <= t.len() ==> from <= skip_word(t, from) <= t.len(),
        skip_word(t, from) <= t.len(),
        from < t.len() && !is_white(t[from]) ==> from < skip_word(t, from),
        skip_word(t, from) < t.len() ==> from <= skip_word(t, from) && is_white(
            t[skip_word(t, from)],
        ),
        forall|k: int| from <= k < skip_word(t, from) && k < t.len() ==> !is_white(#[trigger] t[k]),
    decreases t.len() - from,
{
    if from < t.len() && !is_white(t[from]) {
        lemma_skip_word(t, from + 1);
    }
}

fn find_char(chars: &Vec<char>, c: char, from: usize) -> (r: usize)
    requires
        from <= chars.len(),
    ensures
        r == next_char(chars@, c, from as int),
        from <= r <= chars.len(),
{
    let mut i: usize = from;
    while i < chars.len() && chars[i] != c
        invariant
            from <= i <= chars.len(),
            next_char(chars@, c, from as int) == next_char(chars@, c, i as int),
        decreases chars.len() - i,
    {
        i += 1;
    }
    i
}

fn find_black(chars: &Vec<char>, from: usize) -> (r: usize)
    requires
        from <= chars.len(),
    ensures
        r == skip_white(chars@, from as int),
        from <= r <= chars.len(),
{
    let mut i: usize = from;
    while i < chars.len() && white(chars[i])
        invariant
            from <= i <= chars.len(),
            skip_white(chars@, from as int) == skip_white(chars@, i as int),
        decreases chars.len() - i,
    {
        i += 1;
    }
    i
}

fn find_white(chars: &Vec<char>, from: usize) -> (r: usize)
    requires
        from <= chars.len(),
    ensures
        r == skip_word(chars@, from as int),
        from <= r <= chars.len(),
{
    let mut i: usize = from;
    while i < chars.len() && !white(chars[i])
        invariant
            from <= i <= chars.len(),
            skip_word(chars@, from as int) == skip_word(chars@, i as int),
        decreases chars.len() - i,
    {
        i += 1;
    }
    i
}

/// The slice without white space at its start.
pub fn trim_start<'a>(s: &'a str) -> (r: &'a str)
    ensures
        r@ == trimmed_start(s@),
{
    let chars = chars_of(s);
    let a: usize = find_black(&chars, 0);
    s.substring_char(a, chars.len())
}

/// The slice without white space at its end.
pub fn trim_end<'a>(s: &'a str) -> (r: &'a str)
    ensures
        r@ == trimmed_end(s@),
{
    let chars = chars_of(s);
    let mut n: usize = chars.len();
    proof {
        assert(s@.take(n as int) =~= s@);
    }
    while n > 0 && white(chars[n - 1])
        invariant
            n <= chars.len(),
            chars@ == s@,
            trimmed_end(s@) == trimmed_end(s@.take(n as int)),
        decreases n,
    {
        proof {
            assert(s@.take(n as int).drop_last() =~= s@.take(n - 1));
        }
        n -= 1;
    }
    s.substring_char(0, n)
}

/// The slice without white space at either end.
pub fn trim<'a>(s: &'a str) -> (r: &'a str)
    ensures
        r@ == trimmed(s@),
{
    trim_end(trim_start(s))
}

/// The slice without any `c` at its end.
pub fn trim_end_char<'a>(s: &'a str, c: char) -> (r: &'a str)
    ensures
        r@ == without_trailing(s@, c),
{
    let chars = chars_of(s);
    let mut n: usize = chars.len();
    proof {
        assert(s@.take(n as int) =~= s@);
    }
    while n > 0 && chars[n - 1] == c
        invariant
            n <= chars.len(),
            chars@ == s@,
            without_trailing(s@, c) == without_trailing(s@.take(n as int), c),
        decreases n,
    {
        proof {
            assert(s@.take(n as int).drop_last() =~= s@.take(n - 1));
        }
        n -= 1;
    }
    s.substring_char(0, n)
}

fn stands_at(chars: &Vec<char>, pat: &Vec<char>, i: usize) -> (r: bool)
    requires
        i + pat.len() <= chars.len(),
    ensures
        r == occurs_at(chars@, pat@, i as int),
{
    let mut k: usize = 0;
    while k < pat.len()
        invariant
            k <= pat.len(),
            i + pat.len() <= chars.len(),
            forall|j: int| 0 <= j < k ==> chars@[i + j] == pat@[j],
        decreases pat.len() - k,
    {
        if chars[i + k] != pat[k] {
            assert(chars@.subrange(i as int, i + pat@.len())[k as int] != pat@[k as int]);
            return false;
        }
        k += 1;
    }
    assert(chars@.subrange(i as int, i + pat@.len()) =~= pat@);
    true
}

/// Does the string start with `pat`?
pub fn starts_with(s: &str, pat: &str) -> (r: bool)
    ensures
        r == has_prefix(s@, pat@),
{
    let chars = chars_of(s);
    let p = chars_of(pat);
    p.len() <= chars.len() && stands_at(&chars, &p, 0)
}

/// Does the string hold `pat` anywhere?
pub fn contains(s: &str, pat: &str) -> (r: bool)
    ensures
        r == has_part(s@, pat@),
{
    let chars = chars_of(s);
    let p = chars_of(pat);
    if p.len() > chars.len() {
        return false;
    }
    let mut i: usize = 0;
    while i < chars.len() - p.len() && !stands_at(&chars, &p, i)
        invariant
            p.len() <= chars.len(),
            i <= chars.len() - p.len(),
            chars@ == s@,
            p@ == pat@,
            forall|k: int| 0 <= k < i ==> !occurs_at(s@, pat@, k),
        decreases chars.len() - p.len() - i,
    {
        i += 1;
    }
    stands_at(&chars, &p, i)
}

/// What follows the prefix `pat`, if the string starts with it.
pub fn strip_prefix<'a>(s: &'a str, pat: &str) -> (r: Option<&'a str>)
    ensures
        after_prefix(s@, pat@) == match r {
            Some(rest) => Some(rest@),
            None => None,
        },
{
    if starts_with(s, pat) {
        Some(s.substring_char(pat.unicode_len(), s.unicode_len()))
    } else {
        None
    }
}

/// What comes before the suffix `pat`, if the string ends with it.
pub fn strip_suffix<'a>(s: &'a str, pat: &str) -> (r: Option<&'a str>)
    ensures
        before_suffix(s@, pat@) == match r {
            Some(rest) => Some(rest@),
            None => None,
        },
{
    let chars = chars_of(s);
    let p = chars_of(pat);
    if p.len() <= chars.len() && stands_at(&chars, &p, chars.len() - p.len()) {
        Some(s.substring_char(0, chars.len() - p.len()))
    } else {
        None
    }
}

/// What comes before and after the first `pat`, if there is one.
pub fn split_once<'a>(s: &'a str, pat: &str) -> (r: Option<(&'a str, &'a str)>)
    ensures
        split_first(s@, pat@) == match r {
            Some((a, b)) => Some((a@, b@)),
            None => None,
        },
{
    let chars = chars_of(s);
    let p = chars_of(pat);
    if p.len() > chars.len() {
        return None;
    }
    let mut i: usize = 0;
    while i < chars.len() - p.len() && !stands_at(&chars, &p, i)
        invariant
            p.len() <= chars.len(),
            i <= chars.len() - p.len(),
            chars@ == s@,
            p@ == pat@,
            first_part(s@, pat@, 0) == first_part(s@, pat@, i as int),
        decreases chars.len() - p.len() - i,
    {
        i += 1;
    }
    if stands_at(&chars, &p, i) {
        Some((s.substring_char(0, i), s.substring_char(i + p.len(), chars.len())))
    } else {
        assert(first_part(s@, pat@, i + 1) == -1);
        None
    }
}

/// What comes before and after the last `pat`, if there is one.
pub fn rsplit_once<'a>(s: &'a str, pat: &str) -> (r: Option<(&'a str, &'a str)>)
    ensures
        split_last(s@, pat@) == match r {
            Some((a, b)) => Some((a@, b@)),
            None => None,
        },
{
    let chars = chars_of(s);
    let p = chars_of(pat);
    if p.len() > chars.len() {
        return None;
    }
    let mut i: usize = chars.len() - p.len();
    while i > 0 && !stands_at(&chars, &p, i)
        invariant
            p.len() <= chars.len(),
            i <= chars.len() - p.len(),
            chars@ == s@,
            p@ == pat@,
            last_part(s@, pat@, s@.len() - pat@.len()) == last_part(s@, pat@, i as int),
        decreases i,
    {
        i -= 1;
    }
    if stands_at(&chars, &p, i) {
        Some((s.substring_char(0, i), s.substring_char(i + p.len(), chars.len())))
    } else {
        assert(last_part(s@, pat@, -1) == -1);
        None
    }
}

/// The lines of the string.
pub fn lines<'a>(s: &'a str) -> (r: Vec<&'a str>)
    ensures
        strs(r@) == lines_of(s@),
{
    let chars = chars_of(s);
    let mut out: Vec<&'a str> = Vec::new();
    let mut pos: usize = 0;
    proof {
        assert(strs(out@) + lines_from(s@, 0) =~= lines_of(s@));
    }
    while pos < chars.len()
        invariant
            chars@ == s@,
            pos <= chars.len(),
            strs(out@) + lines_from(s@, pos as int) == lines_of(s@),
        decreases chars.len() - pos,
    {
        let n: usize = find_char(&chars, '\n', pos);
        let end: usize = if n < chars.len() && n > pos && chars[n - 1] == '\r' {
            n - 1
        } else {
            n
        };
        let line = s.substring_char(pos, end);
        let ghost before = out@;
        proof {
            let raw = s@.subrange(pos as int, n as int);
            if n < chars.len() {
                assert(line@ =~= without_return(raw));
            }
            lemma_next_char(s@, '\n', pos as int);
        }
        out.push(line);
        proof {
            assert(strs(out@) =~= strs(before).push(line@));
            assert(strs(before) + (seq![line@] + lines_from(s@, n + 1)) =~= strs(out@)
                + lines_from(s@, n + 1));
        }
        if n < chars.len() {
            pos = n + 1;
        } else {
            proof {
                assert(lines_from(s@, n + 1) =~= Seq::<Text>::empty());
                assert(lines_from(s@, n as int) =~= Seq::<Text>::empty());
            }
            pos = n;
        }
    }
    proof {
        assert(strs(out@) + Seq::<Text>::empty() =~= strs(out@));
    }
    out
}

/// The parts of the string separated by `c`.
pub fn split_on<'a>(s: &'a str, c: char) -> (r: Vec<&'a str>)
    ensures
        strs(r@) == parts_of(s@, c),
        r@.len() > 0,
{
    let chars = chars_of(s);
    let mut out: Vec<&'a str> = Vec::new();
    let mut pos: usize = 0;
    let mut n: usize = find_char(&chars, c, 0);
    proof {
        assert(strs(out@) + parts_from(s@, c, 0) =~= parts_of(s@, c));
    }
    while n < chars.len()
        invariant
            chars@ == s@,
            pos <= n <= chars.len(),
            n == next_char(s@, c, pos as int),
            strs(out@) + parts_from(s@, c, pos as int) == parts_of(s@, c),
        decreases chars.len() - n,
    {
        let part = s.substring_char(pos, n);
        let ghost before = out@;
        out.push(part);
        proof {
            assert(strs(out@) =~= strs(before).push(part@));
            assert(strs(before) + (seq![part@] + parts_from(s@, c, n + 1)) =~= strs(out@)
                + parts_from(s@, c, n + 1));
        }
        pos = n + 1;
        n = find_char(&chars, c, pos);
    }
    let last = s.substring_char(pos, chars.len());
    let ghost before = out@;
    out.push(last);
    proof {
        assert(strs(out@) =~= strs(before) + seq![last@]);
    }
    out
}

/// The words of the string.
pub fn split_whitespace<'a>(s: &'a str) -> (r: Vec<&'a str>)
    ensures
        strs(r@) == words_of(s@),
{
    let chars = chars_of(s);
    let mut out: Vec<&'a str> = Vec::new();
    let mut pos: usize = 0;
    let mut a: usize = find_black(&chars, 0);
    proof {
        assert(strs(out@) + words_from(s@, 0) =~= words_of(s@));
    }
    while a < chars.len()
        invariant
            chars@ == s@,
            pos <= a <= chars.len(),
            a == skip_white(s@, pos as int),
            strs(out@) + words_from(s@, pos as int) == words_of(s@),
        decreases chars.len() - pos,
    {
        let b: usize = find_white(&chars, a);
        let word = s.substring_char(a, b);
        let ghost before = out@;
        out.push(word);
        proof {
            lemma_skip_white(s@, pos as int);
            lemma_skip_word(s@, a as int);
            assert(strs(out@) =~= strs(before).push(word@));
            assert(strs(before) + (seq![word@] + words_from(s@, b as int)) =~= strs(out@)
                + words_from(s@, b as int));
        }
        pos = b;
        a = find_black(&chars, pos);
    }
    proof {
        assert(words_from(s@, pos as int) =~= Seq::<Text>::empty());
        assert(strs(out@) + Seq::<Text>::empty() =~= strs(out@));
    }
    out
}

fn lowers(c: char, d: char) -> (r: bool)
    ensures
        r == lowers_to(c, d),
{
    if 'A' <= c && c <= 'Z' {
        d as u32 == c as u32 + 32
    } else {
        d == c
    }
}

/// Do the two strings hold the same characters, once the ASCII letters of the
/// first are in lower case?
pub fn same_lowered(s: &str, pat: &str) -> (r: bool)
    ensures
        r == is_lowered(s@, pat@),
{
    let chars = chars_of(s);
    let p = chars_of(pat);
    if chars.len() != p.len() {
        return false;
    }
    let mut i: usize = 0;
    while i < chars.len()
        invariant
            chars@ == s@,
            p@ == pat@,
            chars.len() == p.len(),
            i <= chars.len(),
            forall|k: int| 0 <= k < i ==> lowers_to(#[trigger] s@[k], pat@[k]),
        decreases chars.len() - i,
    {
        if !lowers(chars[i], p[i]) {
            assert(!lowers_to(s@[i as int], pat@[i as int]));
            return false;
        }
        i += 1;
    }
    true
}

// ---------------------------------------------------------------------------
// Numbers and quotes
// ---------------------------------------------------------------------------

/// The decimal digit `d`.
pub open spec fn digit(d: nat) -> Text {
    if d == 0 {
        "0"@
    } else if d == 1 {
        "1"@
    } else if d == 2 {
        "2"@
    } else if d == 3 {
        "3"@
    } else if d == 4 {
        "4"@
    } else if d == 5 {
        "5"@
    } else if d == 6 {
        "6"@
    } else if d == 7 {
        "7"@
    } else if d == 8 {
        "8"@
    } else {
        "9"@
    }
}

/// The number in decimal.
pub open spec fn decimal(n: nat) -> Text
    decreases n,
{
    if n < 10 {
        digit(n)
    } else {
        decimal(n / 10) + digit(n % 10)
    }
}

/// The number in decimal.
pub fn show(n: usize) -> (r: String)
    ensures
        r@ == decimal(n as nat),
    decreases n,
{
    let last = match n % 10 {
        0 => "0",
        1 => "1",
        2 => "2",
        3 => "3",
        4 => "4",
        5 => "5",
        6 => "6",
        7 => "7",
        8 => "8",
        _ => "9",
    };
    if n < 10 {
        last.to_owned()
    } else {
        concat2(show(n / 10).as_str(), last)
    }
}

/// The number in octal.
pub open spec fn octal(n: nat) -> Text
    decreases n,
{
    if n < 8 {
        digit(n)
    } else {
        octal(n / 8) + digit(n % 8)
    }
}

/// The number in octal.
pub fn show_octal(n: u32) -> (r: String)
    ensures
        r@ == octal(n as nat),
    decreases n,
{
    let last = match n % 8 {
        0 => "0",
        1 => "1",
        2 => "2",
        3 => "3",
        4 => "4",
        5 => "5",
        6 => "6",
        _ => "7",
    };
    if n < 8 {
        last.to_owned()
    } else {
        concat2(show_octal(n / 8).as_str(), last)
    }
}

/// The text as Rust's `Debug` formatting of strings quotes it.
pub uninterp spec fn debug_form(t: Seq<char>) -> Seq<char>;

/// Calls the standard library's `Debug` formatting of `str`: the text between
/// double quotes, with what cannot be shown plainly escaped. Claimed is only
/// that the result depends on nothing but the text; which characters are
/// escaped, and how, is left unsaid.
#[verifier::external_body]
pub(crate) fn quoted(s: &str) -> (r: String)
    ensures
        r@ == debug_form(s@),
{
    format!("{s:?}")
}

/// Bytes that are not UTF-8, with their invalid parts replaced.
pub uninterp spec fn lossy_form(bytes: Seq<u8>) -> Seq<char>;

/// The text that bytes are read as where it need not be exact.
pub open spec fn lossy_text(bytes: Seq<u8>) -> Text {
    if valid_utf8(bytes) {
        decode_utf8(bytes)
    } else {
        lossy_form(bytes)
    }
}

/// Calls the standard library's `String::from_utf8_lossy`. Claimed is that the
/// result is the text the bytes encode where they are UTF-8. Where they are
/// not, every invalid part is replaced; of what that gives, only that it
/// depends on nothing but the bytes is claimed.
#[verifier::external_body]
pub(crate) fn lossy(bytes: &Vec<u8>) -> (r: String)
    ensures
        r@ == (if valid_utf8(bytes@) {
            decode_utf8(bytes@)
        } else {
            lossy_form(bytes@)
        }),
{
    String::from_utf8_lossy(bytes).into_owned()
}

/// The text that bytes encode, if they are UTF-8.
pub open spec fn utf8_text(bytes: Seq<u8>) -> Option<Text> {
    if valid_utf8(bytes) {
        Some(decode_utf8(bytes))
    } else {
        None
    }
}

/// Calls the standard library's `String::from_utf8`: the text that the bytes
/// encode if they are UTF-8, nothing if they are not.
#[verifier::external_body]
pub(crate) fn from_utf8(bytes: &Vec<u8>) -> (r: Option<String>)
    ensures
        opt_text(r) == utf8_text(bytes@),
{
    String::from_utf8(bytes.clone()).ok()
}

// ---------------------------------------------------------------------------
// Lines laid end to end
// ---------------------------------------------------------------------------

proof fn lemma_next_char_shift(p: Text, t: Text, c: char, from: int)
    requires
        0 <= from,
    ensures
        next_char(p + t, c, p.len() + from) == p.len() + next_char(t, c, from),
    decreases t.len() - from,
{
    if from < t.len() {
        assert((p + t)[p.len() + from] == t[from]);
        if t[from] != c {
            lemma_next_char_shift(p, t, c, from + 1);
        }
    } else {
        assert((p + t).len() == p.len() + t.len());
    }
}

proof fn lemma_lines_shift(p: Text, t: Text, pos: int)
    requires
        0 <= pos,
    ensures
        lines_from(p + t, p.len() + pos) == lines_from(t, pos),
    decreases t.len() - pos + 1,
{
    if pos < t.len() {
        lemma_next_char_shift(p, t, '\n', pos);
        lemma_next_char(t, '\n', pos);
        let n = next_char(t, '\n', pos);
        assert((p + t).subrange(p.len() + pos, p.len() + n) =~= t.subrange(pos, n));
        lemma_lines_shift(p, t, n + 1);
    }
}

proof fn lemma_next_char_at(t: Text, c: char, from: int, n: int)
    requires
        0 <= from <= n < t.len(),
        t[n] == c,
        forall|k: int| from <= k < n ==> t[k] != c,
    ensures
        next_char(t, c, from) == n,
    decreases n - from,
{
    if from < n {
        lemma_next_char_at(t, c, from + 1, n);
    }
}

/// A line followed by a line feed and more text is the first line of the
/// whole.
pub proof fn lemma_lines_cons(line: Text, rest: Text)
    requires
        forall|k: int| 0 <= k < line.len() ==> line[k] != '\n',
        line.len() > 0 ==> line.last() != '\r',
    ensures
        lines_of(line + "\n"@ + rest) == seq![line] + lines_of(rest),
{
    reveal_strlit("\n");
    let t = line + "\n"@ + rest;
    let n = line.len() as int;
    assert(t[n] == '\n');
    assert forall|k: int| 0 <= k < n implies t[k] != '\n' by {
        assert(t[k] == line[k]);
    }
    lemma_next_char_at(t, '\n', 0, n);
    assert(t.subrange(0, n) =~= line);
    let p = line + "\n"@;
    assert(p + rest =~= t);
    lemma_lines_shift(p, rest, 0);
}

/// A text that neither starts nor ends with white space is trimmed already.
pub proof fn lemma_trimmed_already(t: Text)
    requires
        t.len() > 0,
        !is_white(t[0]),
        !is_white(t.last()),
    ensures
        trimmed(t) == t,
{
    assert(skip_white(t, 0) == 0);
    assert(t.subrange(0, t.len() as int) =~= t);
}

// ---------------------------------------------------------------------------
// How texts come apart
// ---------------------------------------------------------------------------

proof fn lemma_skip_white_at(t: Text, from: int, n: int)
    requires
        0 <= from <= n <= t.len(),
        forall|k: int| from <= k < n ==> is_white(#[trigger] t[k]),
        n < t.len() ==> !is_white(t[n]),
    ensures
        skip_white(t, from) == n,
    decreases n - from,
{
    if from < n {
        lemma_skip_white_at(t, from + 1, n);
    }
}

proof fn lemma_skip_word_at(t: Text, from: int, n: int)
    requires
        0 <= from <= n <= t.len(),
        forall|k: int| from <= k < n ==> !is_white(#[trigger] t[k]),
        n < t.len() ==> is_white(t[n]),
    ensures
        skip_word(t, from) == n,
    decreases n - from,
{
    if from < n {
        lemma_skip_word_at(t, from + 1, n);
    }
}

proof fn lemma_skip_white_on(t: Text, from: int, n: int)
    requires
        0 <= from <= n <= t.len(),
        forall|k: int| from <= k < n ==> is_white(#[trigger] t[k]),
    ensures
        skip_white(t, from) == skip_white(t, n),
    decreases n - from,
{
    if from < n {
        lemma_skip_white_on(t, from + 1, n);
    }
}

proof fn lemma_skip_shift(p: Text, t: Text, from: int)
    requires
        0 <= from,
    ensures
        skip_white(p + t, p.len() + from) == p.len() + skip_white(t, from),
        skip_word(p + t, p.len() + from) == p.len() + skip_word(t, from),
    decreases t.len() - from,
{
    if from < t.len() {
        assert((p + t)[p.len() + from] == t[from]);
        lemma_skip_shift(p, t, from + 1);
    } else {
        assert((p + t).len() == p.len() + t.len());
    }
}

proof fn lemma_words_shift(p: Text, t: Text, pos: int)
    requires
        0 <= pos,
    ensures
        words_from(p + t, p.len() + pos) == words_from(t, pos),
    decreases t.len() - pos,
{
    lemma_skip_shift(p, t, pos);
    lemma_skip_white(t, pos);
    let a = skip_white(t, pos);
    if a < t.len() {
        lemma_skip_shift(p, t, a);
        lemma_skip_word(t, a);
        let b = skip_word(t, a);
        assert((p + t).subrange(p.len() + a, p.len() + b) =~= t.subrange(a, b));
        lemma_words_shift(p, t, b);
    }
}

proof fn lemma_words_before(s: Text, c: char, t: Text, pos: int)
    requires
        is_white(c),
        0 <= pos <= s.len(),
    ensures
        words_from(s.push(c) + t, pos) == words_from(s, pos) + words_of(t),
    decreases s.len() - pos,
{
    let u = s.push(c) + t;
    lemma_skip_white(s, pos);
    let a = skip_white(s, pos);
    assert forall|k: int| 0 <= k < s.len() implies u[k] == s[k] by {}
    assert(u[s.len() as int] == c);
    if a < s.len() {
        lemma_skip_word(s, a);
        let b = skip_word(s, a);
        assert forall|k: int| pos <= k < a implies is_white(#[trigger] u[k]) by {
            assert(is_white(s[k]));
        }
        assert forall|k: int| a <= k < b implies !is_white(#[trigger] u[k]) by {
            assert(!is_white(s[k]));
        }
        lemma_skip_white_at(u, pos, a);
        lemma_skip_word_at(u, a, b);
        assert(u.subrange(a, b) =~= s.subrange(a, b));
        lemma_words_before(s, c, t, b);
        assert(seq![s.subrange(a, b)] + (words_from(s, b) + words_of(t)) =~= (seq![
            s.subrange(a, b),
        ] + words_from(s, b)) + words_of(t));
    } else {
        let n = s.len() as int + 1;
        assert forall|k: int| pos <= k < n implies is_white(#[trigger] u[k]) by {
            if k < s.len() {
                assert(is_white(s[k]));
            }
        }
        lemma_skip_white_on(u, pos, n);
        lemma_words_shift(s.push(c), t, 0);
        assert(words_from(s, pos) =~= Seq::empty());
        lemma_skip_white(u, n);
        assert(words_from(u, pos) =~= words_from(u, n));
        assert(Seq::<Text>::empty() + words_of(t) =~= words_of(t));
    }
}

/// White space parts words: the words of two texts with a blank between them
/// are those of the one and then those of the other.
pub proof fn law_blanks_part_words(s: Text, c: char, t: Text)
    requires
        is_white(c),
    ensures
        words_of(s.push(c) + t) == words_of(s) + words_of(t),
{
    lemma_words_before(s, c, t, 0);
}

/// A text without white space is one word; an empty one is none.
pub proof fn law_a_text_without_blanks_is_a_word(t: Text)
    requires
        forall|k: int| 0 <= k < t.len() ==> !is_white(#[trigger] t[k]),
    ensures
        t.len() > 0 ==> words_of(t) == seq![t],
        t.len() == 0 ==> words_of(t) == Seq::<Text>::empty(),
{
    let n = t.len() as int;
    if n > 0 {
        lemma_skip_white_at(t, 0, 0);
        lemma_skip_word_at(t, 0, n);
        assert(t.subrange(0, n) =~= t);
        assert(words_from(t, n) =~= Seq::empty());
        assert(words_of(t) =~= seq![t]);
    }
}

proof fn lemma_trimmed_end_front(c: char, t: Text)
    ensures
        !is_white(c) ==> trimmed_end(seq![c] + t) == seq![c] + trimmed_end(t),
    decreases t.len(),
{
    let u = seq![c] + t;
    if t.len() > 0 {
        assert(u.last() == t.last());
        assert(u.drop_last() =~= seq![c] + t.drop_last());
        lemma_trimmed_end_front(c, t.drop_last());
    } else {
        assert(u.last() == c);
    }
}

/// Trimming takes off white space at either end, all of it, and nothing else.
pub proof fn law_trimming_takes_off_blanks(c: char, t: Text)
    requires
        is_white(c),
    ensures
        trimmed(seq![c] + t) == trimmed(t),
        trimmed(t.push(c)) == trimmed(t),
        t.len() > 0 && !is_white(t[0]) && !is_white(t.last()) ==> trimmed(t) == t,
        t.len() == 0 ==> trimmed(t) == t,
{
    let p = seq![c];
    let u = p + t;
    assert(u[0] == c);
    lemma_skip_shift(p, t, 0);
    lemma_skip_white(t, 0);
    let a = skip_white(t, 0);
    assert(skip_white(u, 0) == skip_white(u, 1));
    assert(u.subrange(a + 1, u.len() as int) =~= t.subrange(a, t.len() as int));
    let v = t.push(c);
    assert forall|k: int| 0 <= k < t.len() implies v[k] == t[k] by {}
    if a < t.len() {
        assert forall|k: int| 0 <= k < a implies is_white(#[trigger] v[k]) by {
            assert(is_white(t[k]));
        }
        lemma_skip_white_at(v, 0, a);
        assert(v.subrange(a, v.len() as int) =~= t.subrange(a, t.len() as int).push(c));
        assert(t.subrange(a, t.len() as int).push(c).drop_last() =~= t.subrange(a, t.len() as int));
    } else {
        assert forall|k: int| 0 <= k < v.len() implies is_white(#[trigger] v[k]) by {
            if k < t.len() {
                assert(is_white(t[k]));
            }
        }
        lemma_skip_white_at(v, 0, v.len() as int);
        assert(v.subrange(v.len() as int, v.len() as int) =~= t.subrange(a, t.len() as int));
    }
    if t.len() > 0 && !is_white(t[0]) && !is_white(t.last()) {
        lemma_trimmed_already(t);
    }
}

/// A line ends at a line feed, with or without a carriage return before it,
/// and what follows is read on its own; the last line needs neither.
pub proof fn law_lines_end_at_line_feeds(line: Text, rest: Text)
    requires
        forall|k: int| 0 <= k < line.len() ==> line[k] != '\n',
    ensures
        line.len() == 0 || line.last() != '\r' ==> lines_of(line.push('\n') + rest) == seq![line]
            + lines_of(rest),
        lines_of(line.push('\r').push('\n') + rest) == seq![line] + lines_of(rest),
        line.len() > 0 ==> lines_of(line) == seq![line],
        line.len() == 0 ==> lines_of(line) == Seq::<Text>::empty(),
{
    lemma_line_cut(line, rest);
    let returned = line.push('\r');
    assert forall|k: int| 0 <= k < returned.len() implies returned[k] != '\n' by {
        if k < line.len() {
            assert(returned[k] == line[k]);
        }
    }
    lemma_line_cut(returned, rest);
    assert(returned.drop_last() =~= line);
    if line.len() > 0 {
        lemma_next_char(line, '\n', 0);
        let n = next_char(line, '\n', 0);
        if n < line.len() {
            assert(line[n] == '\n');
        }
        assert(line.subrange(0, n) =~= line);
        assert(lines_from(line, n + 1) =~= Seq::empty());
        assert(lines_of(line) =~= seq![line]);
    }
}

proof fn lemma_line_cut(line: Text, rest: Text)
    requires
        forall|k: int| 0 <= k < line.len() ==> line[k] != '\n',
    ensures
        lines_of(line.push('\n') + rest) == seq![without_return(line)] + lines_of(rest),
{
    let t = line.push('\n') + rest;
    let n = line.len() as int;
    assert(t[n] == '\n');
    assert forall|k: int| 0 <= k < n implies t[k] != '\n' by {
        assert(t[k] == line[k]);
    }
    lemma_next_char_at(t, '\n', 0, n);
    assert(t.subrange(0, n) =~= line);
    lemma_lines_shift(line.push('\n'), rest, 0);
}

proof fn lemma_parts_shift(p: Text, t: Text, c: char, pos: int)
    requires
        0 <= pos <= t.len(),
    ensures
        parts_from(p + t, c, p.len() + pos) == parts_from(t, c, pos),
    decreases t.len() - pos,
{
    lemma_next_char_shift(p, t, c, pos);
    lemma_next_char(t, c, pos);
    let n = next_char(t, c, pos);
    assert((p + t).subrange(p.len() + pos, p.len() + n) =~= t.subrange(pos, n));
    assert((p + t).subrange(p.len() + pos, (p + t).len() as int) =~= t.subrange(
        pos,
        t.len() as int,
    ));
    if n < t.len() {
        lemma_parts_shift(p, t, c, n + 1);
    }
}

proof fn lemma_parts_before(s: Text, c: char, t: Text, pos: int)
    requires
        0 <= pos <= s.len(),
    ensures
        parts_from(s.push(c) + t, c, pos) == parts_from(s, c, pos) + parts_of(t, c),
    decreases s.len() - pos,
{
    let u = s.push(c) + t;
    lemma_next_char(s, c, pos);
    let n = next_char(s, c, pos);
    assert forall|k: int| 0 <= k < s.len() implies u[k] == s[k] by {}
    assert(u[s.len() as int] == c);
    lemma_next_char_at(u, c, pos, n);
    assert(u.subrange(pos, n) =~= s.subrange(pos, n));
    if n < s.len() {
        lemma_parts_before(s, c, t, n + 1);
        assert(seq![s.subrange(pos, n)] + (parts_from(s, c, n + 1) + parts_of(t, c)) =~= (seq![
            s.subrange(pos, n),
        ] + parts_from(s, c, n + 1)) + parts_of(t, c));
    } else {
        assert(n == s.len());
        lemma_parts_shift(s.push(c), t, c, 0);
    }
}

/// The parts of two texts with a separator between them are those of the one
/// and then those of the other; a text without a separator is one part.
pub proof fn law_separators_part_texts(s: Text, c: char, t: Text)
    ensures
        parts_of(s.push(c) + t, c) == parts_of(s, c) + parts_of(t, c),
        !s.contains(c) ==> parts_of(s, c) == seq![s],
{
    lemma_parts_before(s, c, t, 0);
    if !s.contains(c) {
        lemma_next_char(s, c, 0);
        let n = next_char(s, c, 0);
        if n < s.len() {
            assert(s.contains(s[n]));
        }
        assert(s.subrange(0, s.len() as int) =~= s);
        assert(parts_of(s, c) =~= seq![s]);
    }
}

proof fn lemma_first_part(t: Text, pat: Text, from: int)
    requires
        0 <= from,
    ensures
        ({
            let i = first_part(t, pat, from);
            &&& i >= 0 ==> from <= i && occurs_at(t, pat, i)
            &&& forall|k: int|
                from <= k && (k < i || i < 0) ==> !#[trigger] occurs_at(t, pat, k)
        }),
    decreases t.len() - from + 1,
{
    if from + pat.len() <= t.len() && !occurs_at(t, pat, from) {
        lemma_first_part(t, pat, from + 1);
    }
}

/// A text is split around the first place where the pattern stands: what
/// comes before, the pattern and what comes after make up the text, and
/// nothing earlier would. A text that does not hold the pattern is not split.
pub proof fn law_texts_are_split_once(t: Text, pat: Text)
    ensures
        split_first(t, pat) is Some <==> has_part(t, pat),
        split_first(t, pat) matches Some((a, b)) ==> t == a + pat + b && forall|k: int|
            0 <= k < a.len() ==> !#[trigger] occurs_at(t, pat, k),
{
    lemma_first_part(t, pat, 0);
    let i = first_part(t, pat, 0);
    if i >= 0 {
        assert(t =~= t.subrange(0, i) + pat + t.subrange(i + pat.len(), t.len() as int)) by {
            assert(t.subrange(i, i + pat.len()) == pat);
            assert forall|k: int| i <= k < i + pat.len() implies t[k] == pat[k - i] by {
                assert(t.subrange(i, i + pat.len())[k - i] == t[k]);
            }
        }
    } else if has_part(t, pat) {
        let k = choose|k: int| occurs_at(t, pat, k);
        assert(occurs_at(t, pat, k));
    }
}

/// The first separator splits, if the text before it holds none.
pub proof fn law_the_first_separator_splits(a: Text, c: char, b: Text)
    requires
        !a.contains(c),
    ensures
        split_first(a.push(c) + b, seq![c]) == Some((a, b)),
{
    let t = a.push(c) + b;
    let pat = seq![c];
    law_texts_are_split_once(t, pat);
    let n = a.len() as int;
    assert(t.subrange(n, n + 1) =~= pat);
    assert(occurs_at(t, pat, n));
    let (x, y) = split_first(t, pat)->0;
    assert(occurs_at(t, pat, x.len() as int)) by {
        assert(t.subrange(x.len() as int, x.len() as int + 1) =~= pat);
    }
    if x.len() < n {
        assert(t[x.len() as int] == c);
        assert(a[x.len() as int] == c);
        assert(a.contains(a[x.len() as int]));
    }
    assert(x.len() == n);
    assert(t.subrange(0, n) =~= a);
    assert((x + pat + y).subrange(0, n) =~= x);
    assert(t.subrange(n + 1, t.len() as int) =~= b);
    assert((x + pat + y).subrange(n + 1, t.len() as int) =~= y);
}

/// What follows a prefix makes up the text together with it, and only a text
/// that begins with the prefix has one; likewise at the end.
pub proof fn law_prefixes_and_suffixes_come_off(p: Text, t: Text)
    ensures
        after_prefix(p + t, p) == Some(t),
        before_suffix(t + p, p) == Some(t),
        after_prefix(t, p) matches Some(rest) ==> t == p + rest,
        before_suffix(t, p) matches Some(rest) ==> t == rest + p,
        has_part(p + t, p),
{
    let u = p + t;
    let v = t + p;
    assert(u.subrange(0, p.len() as int) =~= p);
    assert(u.subrange(p.len() as int, u.len() as int) =~= t);
    assert(v.subrange(t.len() as int, v.len() as int) =~= p);
    assert(v.subrange(0, t.len() as int) =~= t);
    assert(occurs_at(u, p, 0));
    if has_prefix(t, p) {
        let rest = t.subrange(p.len() as int, t.len() as int);
        assert(t =~= t.subrange(0, p.len() as int) + rest);
    }
    if has_suffix(t, p) {
        let n = t.len() - p.len();
        assert(t =~= t.subrange(0, n) + t.subrange(n, t.len() as int));
    }
}

proof fn lemma_part_stays(a: Text, pat: Text, b: Text)
    ensures
        has_part(a + pat + b, pat),
{
    let t = a + pat + b;
    let n = a.len() as int;
    assert(t.subrange(n, n + pat.len()) =~= pat);
    assert(occurs_at(t, pat, n));
}

/// A text holds whatever stands in it, and what it holds stands in it.
pub proof fn law_a_text_holds_its_parts(a: Text, pat: Text, b: Text)
    ensures
        has_part(a + pat + b, pat),
        has_part(a, pat) ==> exists|x: Text, y: Text| a == #[trigger] (x + pat + y),
{
    lemma_part_stays(a, pat, b);
    if has_part(a, pat) {
        law_texts_are_split_once(a, pat);
        let (x, y) = split_first(a, pat)->0;
        assert(a == x + pat + y);
    }
}

/// Lists are laid end to end with the separator between neighbours, and
/// nowhere else.
pub proof fn law_separators_stand_between_neighbours(parts: Seq<Text>, x: Text, sep: Text)
    ensures
        joined(Seq::empty(), sep) == Seq::<char>::empty(),
        joined(seq![x], sep) == x,
        parts.len() > 0 ==> joined(parts.push(x), sep) == joined(parts, sep) + sep + x,
{
    assert(parts.push(x).drop_last() =~= parts);
}

/// Spaces, tabs and the ends of lines are blank; what can be seen of ASCII is
/// not.
pub proof fn law_what_can_be_seen_is_not_blank(c: char)
    ensures
        c == ' ' || c == '\t' || c == '\n' || c == '\r' ==> is_white(c),
        '!' <= c <= '~' ==> !is_white(c),
{
}

/// Capital letters of ASCII are lowered, and nothing else is changed.
pub proof fn law_only_capitals_are_lowered(c: char, d: char)
    ensures
        lowers_to('A', 'a') && lowers_to('Y', 'y') && lowers_to('Z', 'z'),
        !('A' <= c <= 'Z') ==> (lowers_to(c, d) <==> d == c),
        'A' <= c <= 'Z' && lowers_to(c, d) ==> 'a' <= d <= 'z' && d as int - 'a' as int == c as int
            - 'A' as int,
{
}

/// A number is written digit by digit, the last one last.
pub proof fn law_numbers_are_written_digit_by_digit(n: nat, d: nat)
    requires
        d < 10,
    ensures
        digit(d).len() == 1,
        digit(d)[0] as int == '0' as int + d,
        decimal(d) == digit(d),
        n > 0 ==> decimal(10 * n + d) == decimal(n) + digit(d),
        d < 8 ==> octal(d) == digit(d),
        n > 0 && d < 8 ==> octal(8 * n + d) == octal(n) + digit(d),
{
    reveal_strlit("0");
    reveal_strlit("1");
    reveal_strlit("2");
    reveal_strlit("3");
    reveal_strlit("4");
    reveal_strlit("5");
    reveal_strlit("6");
    reveal_strlit("7");
    reveal_strlit("8");
    reveal_strlit("9");
    assert((10 * n + d) / 10 == n && (10 * n + d) % 10 == d);
    if d < 8 {
        assert((8 * n + d) / 8 == n && (8 * n + d) % 8 == d);
    }
}

} // verus!
