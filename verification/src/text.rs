//! Character-level helpers: names are compared as sequences of `char`.

use vstd::prelude::*;

verus! {

/// `needle` occurs in `text` starting at position `at`.
pub open spec fn occurs_at(text: Seq<char>, at: int, needle: Seq<char>) -> bool {
    &&& 0 <= at
    &&& at + needle.len() <= text.len()
    &&& text.subrange(at, at + needle.len()) == needle
}

/// `needle` occurs somewhere in `text`.
pub open spec fn occurs_in(text: Seq<char>, needle: Seq<char>) -> bool {
    exists|at: int| occurs_at(text, at, needle)
}

/// The texts that `names` hold, in order.
pub open spec fn texts(names: Seq<String>) -> Seq<Seq<char>> {
    names.map_values(|name: String| name@)
}

/// The position behind the last `mark` in `text`; zero if `text` holds none.
pub open spec fn after_last(text: Seq<char>, mark: char) -> nat
    decreases text.len(),
{
    if text.len() == 0 {
        0
    } else if text.last() == mark {
        text.len()
    } else {
        after_last(text.drop_last(), mark)
    }
}

/// `after_last` lies inside the text, stands behind a `mark` unless it is zero, and
/// no `mark` follows it.
pub proof fn lemma_after_last(text: Seq<char>, mark: char)
    ensures
        after_last(text, mark) <= text.len(),
        after_last(text, mark) > 0 ==> text[after_last(text, mark) - 1] == mark,
        forall|i: int| after_last(text, mark) <= i < text.len() ==> text[i] != mark,
    decreases text.len(),
{
    if text.len() > 0 && text.last() != mark {
        lemma_after_last(text.drop_last(), mark);
        assert forall|i: int| after_last(text, mark) <= i < text.len() implies text[i] != mark by {
            if i < text.len() - 1 {
                assert(text[i] == text.drop_last()[i]);
            }
        }
    }
}

/// The characters of `s`, in order.
pub fn chars_of(s: &str) -> (v: Vec<char>)
    ensures
        v@ == s@,
{
    let mut v: Vec<char> = Vec::new();
    for c in it: s.chars()
        invariant
            v@ == it.seq().take(it.index() as int),
            it.seq() == s@,
    {
        v.push(c);
    }
    v
}

/// Finds the position behind the last `mark` among the first `end` characters of
/// `text`.
pub fn find_after_last_before(text: &Vec<char>, end: usize, mark: char) -> (at: usize)
    requires
        end <= text.len(),
    ensures
        at == after_last(text@.take(end as int), mark),
        at <= end,
{
    let mut at: usize = end;
    while at > 0 && text[at - 1] != mark
        invariant
            at <= end <= text.len(),
            after_last(text@.take(at as int), mark) == after_last(text@.take(end as int), mark),
        decreases at,
    {
        assert(text@.take(at as int).drop_last() =~= text@.take(at - 1));
        at -= 1;
    }
    proof {
        lemma_after_last(text@.take(end as int), mark);
    }
    at
}

/// Finds the position behind the last `mark` in `text`.
pub fn find_after_last(text: &Vec<char>, mark: char) -> (at: usize)
    ensures
        at == after_last(text@, mark),
        at <= text.len(),
{
    assert(text@.take(text@.len() as int) =~= text@);
    find_after_last_before(text, text.len(), mark)
}

/// Tests whether `needle` occurs in `text` at position `at`.
pub fn matches_at(text: &Vec<char>, at: usize, needle: &Vec<char>) -> (found: bool)
    ensures
        found == occurs_at(text@, at as int, needle@),
{
    if at > text.len() || needle.len() > text.len() - at {
        return false;
    }
    let mut i: usize = 0;
    while i < needle.len()
        invariant
            i <= needle.len(),
            at + needle.len() <= text.len(),
            forall|k: int| 0 <= k < i ==> text@[at + k] == needle@[k],
        decreases needle.len() - i,
    {
        if text[at + i] != needle[i] {
            assert(text@.subrange(at as int, at + needle.len())[i as int] != needle@[i as int]);
            return false;
        }
        i += 1;
    }
    assert(text@.subrange(at as int, at + needle.len()) =~= needle@);
    true
}

/// Tests whether `text` begins with `prefix`.
pub fn starts_with(text: &Vec<char>, prefix: &Vec<char>) -> (found: bool)
    ensures
        found == prefix@.is_prefix_of(text@),
{
    matches_at(text, 0, prefix)
}

/// Tests whether `text` ends with `suffix`.
pub fn ends_with(text: &Vec<char>, suffix: &Vec<char>) -> (found: bool)
    ensures
        found == suffix@.is_suffix_of(text@),
{
    if suffix.len() > text.len() {
        return false;
    }
    matches_at(text, text.len() - suffix.len(), suffix)
}

/// Tests whether `needle` occurs anywhere in `text`.
pub fn contains(text: &Vec<char>, needle: &Vec<char>) -> (found: bool)
    ensures
        found == occurs_in(text@, needle@),
{
    if needle.len() > text.len() {
        return false;
    }
    let last: usize = text.len() - needle.len();
    let mut at: usize = 0;
    while at < last
        invariant
            last == text.len() - needle.len(),
            at <= last,
            forall|k: int| 0 <= k < at ==> !occurs_at(text@, k, needle@),
        decreases last - at,
    {
        if matches_at(text, at, needle) {
            return true;
        }
        at += 1;
    }
    matches_at(text, last, needle)
}

/// Tests whether two character sequences are the same.
pub fn same_text(a: &Vec<char>, b: &Vec<char>) -> (same: bool)
    ensures
        same == (a@ == b@),
{
    if a.len() != b.len() {
        return false;
    }
    let found = matches_at(a, 0, b);
    assert(a@.subrange(0, a@.len() as int) =~= a@);
    found
}

} // verus!
