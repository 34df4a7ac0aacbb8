//! Text as a sequence of characters: the few operations the policy code needs.

use vstd::prelude::*;

verus! {

/// The characters of `text`, in order.
pub(crate) fn chars_of(text: &str) -> (chars: Vec<char>)
    ensures
        chars@ == text@,
{
    let mut chars: Vec<char> = Vec::new();
    for c in it: text.chars()
        invariant
            it.seq() == text@,
            chars@ == text@.take(it.index()),
    {
        chars.push(c);
    }
    chars
}

/// Whether two texts hold the same characters.
pub(crate) fn same_text(a: &str, b: &str) -> (same: bool)
    ensures
        same == (a@ == b@),
{
    let x: Vec<char> = chars_of(a);
    let y: Vec<char> = chars_of(b);
    if x.len() != y.len() {
        return false;
    }
    let mut i: usize = 0;
    while i < x.len()
        invariant
            x@ == a@,
            y@ == b@,
            x.len() == y.len(),
            i <= x.len(),
            a@.take(i as int) == b@.take(i as int),
        decreases x.len() - i,
    {
        if x[i] != y[i] {
            return false;
        }
        assert(a@.take(i + 1) == a@.take(i as int).push(x[i as int]));
        assert(b@.take(i + 1) == b@.take(i as int).push(y[i as int]));
        i += 1;
    }
    assert(a@.take(i as int) == a@);
    assert(b@.take(i as int) == b@);
    true
}

/// Where `c` first stands in `text` at or behind `from`, or the end of `text`.
pub open spec fn first_at(text: Seq<char>, c: char, from: int) -> int
    decreases text.len() - from,
{
    if from < 0 || from >= text.len() || text[from] == c {
        from
    } else {
        first_at(text, c, from + 1)
    }
}

/// What stands in `text` before the first `c`; all of it where there is none.
pub open spec fn until(text: Seq<char>, c: char) -> Seq<char> {
    text.take(first_at(text, c, 0))
}

/// `text` taken apart at its first `c`.
pub open spec fn split_at_first(text: Seq<char>, c: char) -> Option<(Seq<char>, Seq<char>)> {
    let at = first_at(text, c, 0);
    if at < text.len() {
        Some((text.take(at), text.skip(at + 1)))
    } else {
        None
    }
}

/// `text` without `prefix` at its start.
pub open spec fn without_prefix(text: Seq<char>, prefix: Seq<char>) -> Option<Seq<char>> {
    if prefix.is_prefix_of(text) {
        Some(text.skip(prefix.len() as int))
    } else {
        None
    }
}

/// `first_at` finds the first occurrence.
pub proof fn lemma_first_at(text: Seq<char>, c: char, from: int)
    requires
        0 <= from <= text.len(),
    ensures
        from <= first_at(text, c, from) <= text.len(),
        forall|j: int| from <= j < first_at(text, c, from) ==> text[j] != c,
        first_at(text, c, from) < text.len() ==> text[first_at(text, c, from)] == c,
    decreases text.len() - from,
{
    if from < text.len() && text[from] != c {
        lemma_first_at(text, c, from + 1);
    }
}

/// Splitting what was put together around the first `c` gives the parts back.
pub proof fn lemma_split_joined(head: Seq<char>, c: char, tail: Seq<char>)
    requires
        !head.contains(c),
    ensures
        split_at_first(head + seq![c] + tail, c) == Some((head, tail)),
        until(head + seq![c] + tail, c) == head,
{
    let text = head + seq![c] + tail;
    lemma_first_at(text, c, 0);
    let at = first_at(text, c, 0);
    assert(text[head.len() as int] == c);
    if at < head.len() {
        assert(head[at] == c);
    }
    assert(at == head.len());
    assert(text.take(at) == head);
    assert(text.skip(at + 1) == tail);
}

/// A split text is its two parts with `c` between, and the first part has no `c`.
pub proof fn lemma_split_parts(text: Seq<char>, c: char)
    ensures
        split_at_first(text, c) matches Some((head, tail)) ==> !head.contains(c) && text == head
            + seq![c] + tail,
        split_at_first(text, c) is None <==> !text.contains(c),
        !until(text, c).contains(c),
{
    lemma_first_at(text, c, 0);
    let at = first_at(text, c, 0);
    if at < text.len() {
        assert(text == text.take(at) + seq![c] + text.skip(at + 1));
        assert(text.contains(c));
    }
}

/// Where `c` first stands in `text`, or the end of `text`.
fn find(text: &Vec<char>, c: char) -> (at: usize)
    ensures
        at == first_at(text@, c, 0),
        at <= text.len(),
{
    let mut at: usize = 0;
    while at < text.len() && text[at] != c
        invariant
            at <= text.len(),
            first_at(text@, c, 0) == first_at(text@, c, at as int),
        decreases text.len() - at,
    {
        at += 1;
    }
    at
}

/// `text` without `prefix` at its start.
pub(crate) fn strip_prefix<'a>(text: &'a str, prefix: &str) -> (rest: Option<&'a str>)
    ensures
        rest is Some <==> without_prefix(text@, prefix@) is Some,
        rest matches Some(r) ==> without_prefix(text@, prefix@) == Some(r@),
{
    let t: Vec<char> = chars_of(text);
    let p: Vec<char> = chars_of(prefix);
    if t.len() < p.len() {
        return None;
    }
    let mut i: usize = 0;
    while i < p.len()
        invariant
            t@ == text@,
            p@ == prefix@,
            i <= p.len() <= t.len(),
            forall|j: int| 0 <= j < i ==> t[j] == p[j],
        decreases p.len() - i,
    {
        if t[i] != p[i] {
            return None;
        }
        i += 1;
    }
    Some(text.substring_char(p.len(), t.len()))
}

/// What stands in `text` before the first `c`; all of it where there is none.
pub(crate) fn take_until<'a>(text: &'a str, c: char) -> (head: &'a str)
    ensures
        head@ == until(text@, c),
{
    let t: Vec<char> = chars_of(text);
    let at: usize = find(&t, c);
    text.substring_char(0, at)
}

/// `text` taken apart at its first `c`.
pub(crate) fn split_once<'a>(text: &'a str, c: char) -> (parts: Option<(&'a str, &'a str)>)
    ensures
        parts is Some <==> split_at_first(text@, c) is Some,
        parts matches Some((head, tail)) ==> split_at_first(text@, c) == Some((head@, tail@)),
{
    let t: Vec<char> = chars_of(text);
    let at: usize = find(&t, c);
    if at < t.len() {
        Some((text.substring_char(0, at), text.substring_char(at + 1, t.len())))
    } else {
        None
    }
}

/// Whether `c` stands in `text`.
pub(crate) fn has_char(text: &str, c: char) -> (has: bool)
    ensures
        has == text@.contains(c),
{
    let t: Vec<char> = chars_of(text);
    let at: usize = find(&t, c);
    proof {
        lemma_first_at(text@, c, 0);
    }
    if at < t.len() {
        assert(text@[at as int] == c);
        true
    } else {
        false
    }
}

} // verus!
