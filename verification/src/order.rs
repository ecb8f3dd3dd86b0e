//! The order in which numbered chunks are put together: ascending by the
//! number each name ends in, names with the same number in the order they came.

use crate::member::{chunk_index, chunk_index_le, chunk_name, lemma_chunk_name};
use crate::sequence::{
    lemma_filter_counts_one, lemma_filter_counts_two, lemma_filter_none, lemma_filter_push,
};
use crate::text::texts;
use vstd::prelude::*;

verus! {

/// No name in `names` is followed by one with a smaller number.
pub open spec fn ascending(names: Seq<Seq<char>>) -> bool {
    forall|i: int, j: int|
        0 <= i < j < names.len() ==> chunk_index(#[trigger] names[i]) <= chunk_index(
            #[trigger] names[j],
        )
}

/// Picks the names whose number is `index`.
pub open spec fn has_index(index: nat) -> spec_fn(Seq<char>) -> bool {
    |name: Seq<char>| chunk_index(name) == index
}

/// No two names in `names` carry the same number.
pub open spec fn distinct_indices(names: Seq<Seq<char>>) -> bool {
    forall|i: int, j: int|
        0 <= i < j < names.len() ==> chunk_index(#[trigger] names[i]) != chunk_index(
            #[trigger] names[j],
        )
}

/// `ordered` is `names` put in chunk order: the same names, ascending by number,
/// and for every number the names that carry it in the order they have in `names`.
pub open spec fn is_chunk_order(names: Seq<Seq<char>>, ordered: Seq<Seq<char>>) -> bool {
    &&& ascending(ordered)
    &&& ordered.to_multiset() == names.to_multiset()
    &&& forall|index: nat| #[trigger]
        ordered.filter(has_index(index)) == names.filter(has_index(index))
}

/// The chunk order of `names`.
pub open spec fn chunk_order(names: Seq<Seq<char>>) -> Seq<Seq<char>> {
    choose|ordered: Seq<Seq<char>>| is_chunk_order(names, ordered)
}

/// A stretch of an ascending sequence is ascending.
proof fn lemma_ascending_part(names: Seq<Seq<char>>, from: int, to: int)
    requires
        ascending(names),
        0 <= from <= to <= names.len(),
    ensures
        ascending(names.subrange(from, to)),
{
    let part = names.subrange(from, to);
    assert forall|a: int, b: int| 0 <= a < b < part.len() implies chunk_index(#[trigger] part[a])
        <= chunk_index(#[trigger] part[b]) by {
        assert(part[a] == names[from + a]);
        assert(part[b] == names[from + b]);
    }
}

/// A stretch of a sequence with distinct numbers has distinct numbers.
proof fn lemma_distinct_part(names: Seq<Seq<char>>, from: int, to: int)
    requires
        distinct_indices(names),
        0 <= from <= to <= names.len(),
    ensures
        distinct_indices(names.subrange(from, to)),
{
    let part = names.subrange(from, to);
    assert forall|a: int, b: int| 0 <= a < b < part.len() implies chunk_index(#[trigger] part[a])
        != chunk_index(#[trigger] part[b]) by {
        assert(part[a] == names[from + a]);
        assert(part[b] == names[from + b]);
    }
}

/// Putting `name` into an ordered sequence behind every name whose number is no
/// larger, and before every name whose number is larger, orders the sequence that
/// has `name` at its end.
pub proof fn lemma_place_keeps_order(
    names: Seq<Seq<char>>,
    ordered: Seq<Seq<char>>,
    at: int,
    name: Seq<char>,
)
    requires
        is_chunk_order(names, ordered),
        0 <= at <= ordered.len(),
        forall|i: int| 0 <= i < at ==> chunk_index(#[trigger] ordered[i]) <= chunk_index(name),
        forall|i: int|
            at <= i < ordered.len() ==> chunk_index(#[trigger] ordered[i]) > chunk_index(name),
    ensures
        is_chunk_order(names.push(name), ordered.insert(at, name)),
{
    let placed = ordered.insert(at, name);
    let head = ordered.take(at);
    let tail = ordered.skip(at);
    assert(ascending(placed)) by {
        assert forall|i: int, j: int| 0 <= i < j < placed.len() implies chunk_index(
            #[trigger] placed[i],
        ) <= chunk_index(#[trigger] placed[j]) by {
            if i < at && j > at {
                assert(placed[i] == ordered[i]);
                assert(placed[j] == ordered[j - 1]);
            } else if i > at {
                assert(placed[i] == ordered[i - 1]);
                assert(placed[j] == ordered[j - 1]);
            } else if j < at {
                assert(placed[i] == ordered[i]);
                assert(placed[j] == ordered[j]);
            } else if i == at {
                assert(placed[j] == ordered[j - 1]);
            } else {
                assert(placed[i] == ordered[i]);
            }
        }
    }
    assert(placed.to_multiset() == names.push(name).to_multiset()) by {
        vstd::seq_lib::to_multiset_insert(ordered, at, name);
        vstd::seq_lib::to_multiset_build(names, name);
    }
    assert forall|index: nat| #[trigger]
        placed.filter(has_index(index)) == names.push(name).filter(has_index(index)) by {
        let pred = has_index(index);
        assert(placed =~= head.push(name) + tail);
        assert(ordered =~= head + tail);
        Seq::filter_distributes_over_add(head.push(name), tail, pred);
        Seq::filter_distributes_over_add(head, tail, pred);
        lemma_filter_push(head, name, pred);
        lemma_filter_push(names, name, pred);
        assert(ordered.filter(pred) == names.filter(pred));
        if pred(name) {
            assert forall|i: int| 0 <= i < tail.len() implies !pred(#[trigger] tail[i]) by {
                assert(tail[i] == ordered[at + i]);
            }
            lemma_filter_none(tail, pred);
            assert(head.filter(pred) + Seq::<Seq<char>>::empty() =~= head.filter(pred));
            assert(head.filter(pred).push(name) + Seq::<Seq<char>>::empty() =~= head.filter(
                pred,
            ).push(name));
        }
    }
}

/// Names that are put in order, with no number carried twice, can be ordered in one
/// way only: two ascending arrangements of the same names are the same.
pub proof fn lemma_one_ascending_arrangement(x: Seq<Seq<char>>, y: Seq<Seq<char>>)
    requires
        ascending(x),
        ascending(y),
        distinct_indices(x),
        x.to_multiset() == y.to_multiset(),
    ensures
        x == y,
    decreases x.len(),
{
    broadcast use vstd::multiset::group_multiset_axioms;
    broadcast use vstd::seq_lib::group_to_multiset_ensures;

    vstd::seq_lib::to_multiset_len(x);
    vstd::seq_lib::to_multiset_len(y);
    if x.len() > 0 {
        assert(x.contains(x[0]));
        assert(y.contains(y[0]));
        assert(y.to_multiset().count(x[0]) > 0);
        assert(x.to_multiset().count(y[0]) > 0);
        assert(y.contains(x[0]));
        assert(x.contains(y[0]));
        let i = choose|i: int| 0 <= i < x.len() && x[i] == y[0];
        let j = choose|j: int| 0 <= j < y.len() && y[j] == x[0];
        assert(chunk_index(x[0]) <= chunk_index(x[i]));
        assert(chunk_index(y[0]) <= chunk_index(y[j]));
        assert(i == 0);
        assert(x.drop_first() =~= x.remove(0));
        assert(y.drop_first() =~= y.remove(0));
        assert(x.drop_first().to_multiset() =~= x.to_multiset().remove(x[0]));
        assert(y.drop_first().to_multiset() =~= y.to_multiset().remove(y[0]));
        lemma_ascending_part(x, 1, x.len() as int);
        lemma_ascending_part(y, 1, y.len() as int);
        lemma_distinct_part(x, 1, x.len() as int);
        lemma_one_ascending_arrangement(x.drop_first(), y.drop_first());
        assert(x =~= seq![x[0]] + x.drop_first());
        assert(y =~= seq![y[0]] + y.drop_first());
    }
}

/// Two ascending sequences that agree, number by number, in the names that carry
/// the number are the same sequence.
proof fn lemma_groups_determine(x: Seq<Seq<char>>, y: Seq<Seq<char>>)
    requires
        ascending(x),
        ascending(y),
        forall|index: nat| #[trigger] x.filter(has_index(index)) == y.filter(has_index(index)),
    ensures
        x == y,
    decreases x.len(),
{
    if x.len() == 0 || y.len() == 0 {
        if x.len() > 0 {
            let pred = has_index(chunk_index(x[0]));
            lemma_filter_counts_one(x, pred, 0);
            lemma_filter_none(y, pred);
            assert(x.filter(pred) == y.filter(pred));
        }
        if y.len() > 0 {
            let pred = has_index(chunk_index(y[0]));
            lemma_filter_counts_one(y, pred, 0);
            lemma_filter_none(x, pred);
            assert(x.filter(pred) == y.filter(pred));
        }
        assert(x =~= y);
    } else {
        let x_top = chunk_index(x.last());
        let y_top = chunk_index(y.last());
        assert(x_top <= y_top) by {
            let pred = has_index(x_top);
            lemma_filter_counts_one(x, pred, x.len() - 1);
            assert(x.filter(pred) == y.filter(pred));
            if forall|j: int| 0 <= j < y.len() ==> !pred(#[trigger] y[j]) {
                lemma_filter_none(y, pred);
            }
            let j = choose|j: int| 0 <= j < y.len() && pred(#[trigger] y[j]);
            assert(chunk_index(y[j]) <= chunk_index(y[y.len() - 1]));
        }
        assert(y_top <= x_top) by {
            let pred = has_index(y_top);
            lemma_filter_counts_one(y, pred, y.len() - 1);
            assert(x.filter(pred) == y.filter(pred));
            if forall|j: int| 0 <= j < x.len() ==> !pred(#[trigger] x[j]) {
                lemma_filter_none(x, pred);
            }
            let j = choose|j: int| 0 <= j < x.len() && pred(#[trigger] x[j]);
            assert(chunk_index(x[j]) <= chunk_index(x[x.len() - 1]));
        }
        let x_rest = x.drop_last();
        let y_rest = y.drop_last();
        assert(x =~= x_rest.push(x.last()));
        assert(y =~= y_rest.push(y.last()));
        assert forall|index: nat| #[trigger]
            x_rest.filter(has_index(index)) == y_rest.filter(has_index(index)) by {
            let pred = has_index(index);
            lemma_filter_push(x_rest, x.last(), pred);
            lemma_filter_push(y_rest, y.last(), pred);
            assert(x.filter(pred) == y.filter(pred));
            if index == x_top {
                assert(x_rest.filter(pred) =~= x.filter(pred).drop_last());
                assert(y_rest.filter(pred) =~= y.filter(pred).drop_last());
            }
        }
        assert(x.last() == y.last()) by {
            let pred = has_index(x_top);
            lemma_filter_push(x_rest, x.last(), pred);
            lemma_filter_push(y_rest, y.last(), pred);
            assert(x.filter(pred) == y.filter(pred));
            assert(x.filter(pred).last() == x.last());
            assert(y.filter(pred).last() == y.last());
        }
        lemma_ascending_part(x, 0, x.len() - 1);
        lemma_ascending_part(y, 0, y.len() - 1);
        lemma_groups_determine(x_rest, y_rest);
    }
}

/// `names` have one chunk order and no other.
pub proof fn lemma_chunk_order_is_determined(
    names: Seq<Seq<char>>,
    first: Seq<Seq<char>>,
    second: Seq<Seq<char>>,
)
    requires
        is_chunk_order(names, first),
        is_chunk_order(names, second),
    ensures
        first == second,
{
    assert forall|index: nat| #[trigger]
        first.filter(has_index(index)) == second.filter(has_index(index)) by {
        assert(first.filter(has_index(index)) == names.filter(has_index(index)));
        assert(second.filter(has_index(index)) == names.filter(has_index(index)));
    }
    lemma_groups_determine(first, second);
}

/// In an ascending sequence there is a place for every name: behind the names
/// whose number is no larger, before those whose number is larger.
proof fn lemma_place_exists(ordered: Seq<Seq<char>>, name: Seq<char>) -> (at: int)
    requires
        ascending(ordered),
    ensures
        0 <= at <= ordered.len(),
        forall|i: int| 0 <= i < at ==> chunk_index(#[trigger] ordered[i]) <= chunk_index(name),
        forall|i: int|
            at <= i < ordered.len() ==> chunk_index(#[trigger] ordered[i]) > chunk_index(name),
    decreases ordered.len(),
{
    if ordered.len() == 0 {
        0
    } else if chunk_index(ordered.last()) <= chunk_index(name) {
        assert forall|i: int| 0 <= i < ordered.len() implies chunk_index(#[trigger] ordered[i])
            <= chunk_index(name) by {
            if i < ordered.len() - 1 {
                assert(chunk_index(ordered[i]) <= chunk_index(ordered[ordered.len() - 1]));
            }
        }
        ordered.len() as int
    } else {
        let rest = ordered.drop_last();
        lemma_ascending_part(ordered, 0, ordered.len() - 1);
        let at = lemma_place_exists(rest, name);
        assert forall|i: int| 0 <= i < at implies chunk_index(#[trigger] ordered[i])
            <= chunk_index(name) by {
            assert(ordered[i] == rest[i]);
        }
        assert forall|i: int| at <= i < ordered.len() implies chunk_index(#[trigger] ordered[i])
            > chunk_index(name) by {
            if i < ordered.len() - 1 {
                assert(ordered[i] == rest[i]);
            }
        }
        at
    }
}

/// Every sequence of names has a chunk order, and `chunk_order` is it.
pub proof fn lemma_chunk_order(names: Seq<Seq<char>>)
    ensures
        is_chunk_order(names, chunk_order(names)),
    decreases names.len(),
{
    if names.len() == 0 {
        let nothing = Seq::<Seq<char>>::empty();
        assert(names =~= nothing);
        assert(is_chunk_order(names, nothing));
    } else {
        let rest = names.drop_last();
        lemma_chunk_order(rest);
        let at = lemma_place_exists(chunk_order(rest), names.last());
        lemma_place_keeps_order(rest, chunk_order(rest), at, names.last());
        assert(rest.push(names.last()) =~= names);
        assert(is_chunk_order(names, chunk_order(rest).insert(at, names.last())));
    }
}

/// Whatever order the chunks of a partition are listed in, as long as no number
/// is carried twice, they are put together in one and the same order: the one in
/// which their numbers ascend.
pub proof fn lemma_listing_order_is_irrelevant(first: Seq<Seq<char>>, second: Seq<Seq<char>>)
    requires
        first.to_multiset() == second.to_multiset(),
        distinct_indices(first),
    ensures
        chunk_order(first) == chunk_order(second),
        ascending(chunk_order(first)),
{
    broadcast use vstd::multiset::group_multiset_axioms;
    broadcast use vstd::seq_lib::group_to_multiset_ensures;

    lemma_chunk_order(first);
    lemma_chunk_order(second);
    let first_ordered = chunk_order(first);
    assert(distinct_indices(first_ordered)) by {
        assert forall|a: int, b: int| 0 <= a < b < first_ordered.len() implies chunk_index(
            #[trigger] first_ordered[a],
        ) != chunk_index(#[trigger] first_ordered[b]) by {
            let index = chunk_index(first_ordered[a]);
            if chunk_index(first_ordered[b]) == index {
                lemma_distinct_filter(first, index);
                let kept = first_ordered.filter(has_index(index));
                assert(kept.len() <= 1);
                lemma_filter_counts_two(first_ordered, has_index(index), a, b);
            }
        }
    }
    lemma_one_ascending_arrangement(first_ordered, chunk_order(second));
}

/// The chunks of `partition` that bear the numbers below `count`, one after the
/// other.
pub open spec fn chunks_in_sequence(partition: Seq<char>, count: nat) -> Seq<Seq<char>> {
    Seq::new(count, |number: int| chunk_name(partition, number as nat))
}

/// However the chunks that bear the numbers from zero up are listed, they are put
/// together in the order of their numbers: the chunk that bears ten comes after
/// the one that bears two.
pub proof fn lemma_numbered_chunks_in_sequence(
    partition: Seq<char>,
    count: nat,
    listed: Seq<Seq<char>>,
)
    requires
        listed.to_multiset() == chunks_in_sequence(partition, count).to_multiset(),
    ensures
        chunk_order(listed) == chunks_in_sequence(partition, count),
{
    let sequence = chunks_in_sequence(partition, count);
    assert forall|i: int| 0 <= i < count implies chunk_index(#[trigger] sequence[i]) == i by {
        lemma_chunk_name(partition, i as nat);
    }
    assert(is_chunk_order(sequence, sequence));
    lemma_chunk_order(sequence);
    lemma_chunk_order_is_determined(sequence, sequence, chunk_order(sequence));
    lemma_listing_order_is_irrelevant(sequence, listed);
}

/// Among names with distinct numbers, at most one carries a given number.
proof fn lemma_distinct_filter(names: Seq<Seq<char>>, index: nat)
    requires
        distinct_indices(names),
    ensures
        names.filter(has_index(index)).len() <= 1,
    decreases names.len(),
{
    reveal(Seq::filter);
    let pred = has_index(index);
    if names.len() > 0 {
        let rest = names.drop_last();
        lemma_distinct_part(names, 0, names.len() - 1);
        lemma_distinct_filter(rest, index);
        if pred(names.last()) {
            assert forall|i: int| 0 <= i < rest.len() implies !pred(#[trigger] rest[i]) by {
                assert(rest[i] == names[i]);
                assert(names.last() == names[names.len() - 1]);
            }
            lemma_filter_none(rest, pred);
        }
    }
}

/// Puts the names of numbered chunks in the order in which the chunks are put
/// together.
pub fn sort_chunks(names: &Vec<String>) -> (ordered: Vec<String>)
    ensures
        is_chunk_order(texts(names@), texts(ordered@)),
        texts(ordered@) == chunk_order(texts(names@)),
{
    let mut ordered: Vec<String> = Vec::new();
    let mut done: usize = 0;
    proof {
        assert(texts(ordered@) =~= Seq::<Seq<char>>::empty());
        assert(texts(names@.take(0)) =~= Seq::<Seq<char>>::empty());
        assert forall|index: nat| #[trigger]
            texts(ordered@).filter(has_index(index)) == texts(names@.take(0)).filter(
                has_index(index),
            ) by {}
    }
    while done < names.len()
        invariant
            done <= names.len(),
            is_chunk_order(texts(names@.take(done as int)), texts(ordered@)),
        decreases names.len() - done,
    {
        let name = &names[done];
        let mut at: usize = ordered.len();
        while at > 0 && !chunk_index_le(&ordered[at - 1], name)
            invariant
                at <= ordered.len(),
                forall|i: int|
                    at <= i < ordered.len() ==> chunk_index(#[trigger] texts(ordered@)[i])
                        > chunk_index(name@),
            decreases at,
        {
            at -= 1;
        }
        let ghost before = texts(ordered@);
        proof {
            assert forall|i: int| 0 <= i < at implies chunk_index(#[trigger] before[i])
                <= chunk_index(name@) by {
                assert(chunk_index(before[at - 1]) <= chunk_index(name@));
                if i < at - 1 {
                    assert(chunk_index(before[i]) <= chunk_index(before[at - 1]));
                }
            }
            lemma_place_keeps_order(texts(names@.take(done as int)), before, at as int, name@);
        }
        ordered.insert(at, name.clone());
        proof {
            assert(texts(ordered@) =~= before.insert(at as int, name@));
            assert(texts(names@.take(done + 1)) =~= texts(names@.take(done as int)).push(name@));
        }
        done += 1;
    }
    proof {
        assert(names@.take(done as int) =~= names@);
        lemma_chunk_order_is_determined(
            texts(names@),
            texts(ordered@),
            chunk_order(texts(names@)),
        );
    }
    ordered
}

} // verus!
