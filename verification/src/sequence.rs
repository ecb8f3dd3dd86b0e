//! Facts about filtered sequences.

use vstd::prelude::*;

verus! {

/// A sequence of which no element meets `pred` is filtered to nothing.
pub proof fn lemma_filter_none<A>(s: Seq<A>, pred: spec_fn(A) -> bool)
    requires
        forall|i: int| 0 <= i < s.len() ==> !pred(#[trigger] s[i]),
    ensures
        s.filter(pred) == Seq::<A>::empty(),
    decreases s.len(),
{
    reveal(Seq::filter);
    if s.len() > 0 {
        assert forall|i: int| 0 <= i < s.drop_last().len() implies !pred(
            #[trigger] s.drop_last()[i],
        ) by {
            assert(s.drop_last()[i] == s[i]);
        }
        lemma_filter_none(s.drop_last(), pred);
        assert(!pred(s[s.len() - 1]));
    }
}

/// Filtering a sequence with one more element at its end.
pub proof fn lemma_filter_push<A>(s: Seq<A>, a: A, pred: spec_fn(A) -> bool)
    ensures
        s.push(a).filter(pred) == if pred(a) {
            s.filter(pred).push(a)
        } else {
            s.filter(pred)
        },
{
    reveal(Seq::filter);
    assert(s.push(a).drop_last() =~= s);
}

/// Two places that meet `pred` leave at least two elements in the filtered sequence.
pub proof fn lemma_filter_counts_two<A>(s: Seq<A>, pred: spec_fn(A) -> bool, a: int, b: int)
    requires
        0 <= a < b < s.len(),
        pred(s[a]),
        pred(s[b]),
    ensures
        s.filter(pred).len() >= 2,
    decreases s.len(),
{
    reveal(Seq::filter);
    if b == s.len() - 1 {
        lemma_filter_counts_one(s.drop_last(), pred, a);
    } else {
        lemma_filter_counts_two(s.drop_last(), pred, a, b);
    }
}

/// A place that meets `pred` leaves at least one element in the filtered sequence.
pub proof fn lemma_filter_counts_one<A>(s: Seq<A>, pred: spec_fn(A) -> bool, a: int)
    requires
        0 <= a < s.len(),
        pred(s[a]),
    ensures
        s.filter(pred).len() >= 1,
    decreases s.len(),
{
    reveal(Seq::filter);
    if a < s.len() - 1 {
        lemma_filter_counts_one(s.drop_last(), pred, a);
    }
}

} // verus!
