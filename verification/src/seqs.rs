//! Facts about sequences that are built step by step.

use vstd::prelude::*;

verus! {

/// Filtering a longer prefix adds at most its last element.
pub proof fn lemma_filter_step<T>(s: Seq<T>, i: int, keep: spec_fn(T) -> bool)
    requires
        0 <= i < s.len(),
    ensures
        s.take(i + 1).filter(keep) == (if keep(s[i]) {
            s.take(i).filter(keep).push(s[i])
        } else {
            s.take(i).filter(keep)
        }),
{
    assert(s.take(i + 1).drop_last() =~= s.take(i));
    assert(s.take(i + 1).last() == s[i]);
    reveal(Seq::filter);
}

/// Filtering nothing gives nothing.
pub proof fn lemma_filter_none<T>(s: Seq<T>, keep: spec_fn(T) -> bool)
    ensures
        s.take(0).filter(keep) == Seq::<T>::empty(),
{
    reveal(Seq::filter);
    assert(s.take(0).filter(keep) =~= Seq::<T>::empty());
}

/// Filtering the whole prefix is filtering everything.
pub proof fn lemma_take_all<T>(s: Seq<T>)
    ensures
        s.take(s.len() as int) == s,
{
    assert(s.take(s.len() as int) =~= s);
}

/// What is kept was there and is wanted.
pub proof fn lemma_filter_keeps<T>(s: Seq<T>, keep: spec_fn(T) -> bool, i: int)
    requires
        0 <= i < s.filter(keep).len(),
    ensures
        keep(s.filter(keep)[i]),
        s.contains(s.filter(keep)[i]),
    decreases s.len(),
{
    reveal(Seq::filter);
    if s.len() > 0 {
        let head = s.drop_last();
        if i < head.filter(keep).len() {
            lemma_filter_keeps(head, keep, i);
            let n = choose|n: int| 0 <= n < head.len() && head[n] == head.filter(keep)[i];
            assert(s[n] == head[n]);
        } else {
            assert(s.filter(keep)[i] == s.last());
            assert(s[s.len() - 1] == s.last());
        }
    }
}

/// Filtering one more element in front.
pub proof fn lemma_filter_front<T>(first: T, rest: Seq<T>, keep: spec_fn(T) -> bool)
    ensures
        (seq![first] + rest).filter(keep) == (if keep(first) {
            seq![first] + rest.filter(keep)
        } else {
            rest.filter(keep)
        }),
    decreases rest.len(),
{
    reveal(Seq::filter);
    let all = seq![first] + rest;
    if rest.len() == 0 {
        assert(all.drop_last() =~= Seq::<T>::empty());
        assert(rest =~= Seq::<T>::empty());
        assert(Seq::<T>::empty().filter(keep) =~= Seq::<T>::empty());
        if keep(first) {
            assert(all.filter(keep) =~= seq![first] + rest.filter(keep));
        }
    } else {
        assert(all.drop_last() =~= seq![first] + rest.drop_last());
        assert(all.last() == rest.last());
        lemma_filter_front(first, rest.drop_last(), keep);
        if keep(first) {
            assert(all.filter(keep) =~= seq![first] + rest.filter(keep));
        }
    }
}

/// Filtering what is wanted throughout changes nothing.
pub proof fn lemma_filter_all<T>(s: Seq<T>, keep: spec_fn(T) -> bool)
    requires
        forall|i: int| 0 <= i < s.len() ==> keep(#[trigger] s[i]),
    ensures
        s.filter(keep) == s,
    decreases s.len(),
{
    reveal(Seq::filter);
    if s.len() > 0 {
        assert forall|i: int| 0 <= i < s.drop_last().len() implies keep(
            #[trigger] s.drop_last()[i],
        ) by {
            assert(s.drop_last()[i] == s[i]);
        }
        lemma_filter_all(s.drop_last(), keep);
        assert(keep(s[s.len() - 1]));
        assert(s.drop_last().push(s.last()) =~= s);
    } else {
        assert(s.filter(keep) =~= s);
    }
}

/// Where a key goes among ordered keys: behind all that are not greater, seen from the end.
pub open spec fn slot(keys: Seq<int>, key: int) -> int
    decreases keys.len(),
{
    if keys.len() == 0 || keys.last() <= key {
        keys.len() as int
    } else {
        slot(keys.drop_last(), key)
    }
}

/// The elements in ascending order of their keys; those with equal keys keep their order.
pub open spec fn sorted_by<T>(items: Seq<T>, key: spec_fn(T) -> int) -> Seq<T>
    decreases items.len(),
{
    if items.len() == 0 {
        items
    } else {
        let head = sorted_by(items.drop_last(), key);
        head.insert(slot(head.map_values(key), key(items.last())), items.last())
    }
}

/// The slot of a key, where everything before it is not greater and everything behind it is.
pub proof fn lemma_slot(keys: Seq<int>, key: int, at: int)
    requires
        0 <= at <= keys.len(),
        at > 0 ==> keys[at - 1] <= key,
        forall|i: int| at <= i < keys.len() ==> keys[i] > key,
    ensures
        slot(keys, key) == at,
    decreases keys.len(),
{
    if keys.len() > 0 && keys.last() > key {
        lemma_slot(keys.drop_last(), key, at);
    }
}

/// A slot lies inside the sequence, with greater keys behind it and none directly before it.
pub proof fn lemma_slot_bounds(keys: Seq<int>, key: int)
    ensures
        0 <= slot(keys, key) <= keys.len(),
        slot(keys, key) > 0 ==> keys[slot(keys, key) - 1] <= key,
        forall|i: int| slot(keys, key) <= i < keys.len() ==> keys[i] > key,
    decreases keys.len(),
{
    if keys.len() > 0 && keys.last() > key {
        lemma_slot_bounds(keys.drop_last(), key);
        assert forall|i: int| slot(keys, key) <= i < keys.len() implies keys[i] > key by {
            if i < keys.len() - 1 {
                assert(keys.drop_last()[i] > key);
            }
        }
    }
}

/// Sorting puts the keys in ascending order and keeps the elements.
pub proof fn lemma_sorted_by<T>(items: Seq<T>, key: spec_fn(T) -> int)
    ensures
        sorted_by(items, key).len() == items.len(),
        sorted_by(items, key).to_multiset() =~= items.to_multiset(),
        forall|i: int, j: int|
            0 <= i <= j < items.len() ==> key(#[trigger] sorted_by(items, key)[i]) <= key(
                #[trigger] sorted_by(items, key)[j],
            ),
    decreases items.len(),
{
    if items.len() > 0 {
        let last = items.last();
        let head = sorted_by(items.drop_last(), key);
        lemma_sorted_by(items.drop_last(), key);
        let keys = head.map_values(key);
        lemma_slot_bounds(keys, key(last));
        let at = slot(keys, key(last));
        let all = head.insert(at, last);
        assert forall|i: int, j: int| 0 <= i <= j < items.len() implies key(#[trigger] all[i])
            <= key(#[trigger] all[j]) by {
            assert forall|n: int| 0 <= n < at implies key(#[trigger] head[n]) <= key(last) by {
                assert(keys[at - 1] == key(head[at - 1]));
                assert(key(head[n]) <= key(head[at - 1]));
            }
            assert forall|n: int| at <= n < head.len() implies key(#[trigger] head[n]) > key(
                last,
            ) by {
                assert(keys[n] == key(head[n]));
            }
            let a = if i < at { i } else { i - 1 };
            let b = if j < at { j } else { j - 1 };
            assert(i != at ==> all[i] == head[a]);
            assert(j != at ==> all[j] == head[b]);
            if i != at && j != at {
                assert(key(head[a]) <= key(head[b]));
            }
        }
        broadcast use vstd::seq_lib::group_to_multiset_ensures;

        assert(items =~= items.drop_last().push(last));
        assert(items.to_multiset() =~= items.drop_last().to_multiset().insert(last));
        assert(all.to_multiset() =~= head.to_multiset().insert(last));
    }
}

/// Elements whose keys are in ascending order stay as they are.
pub proof fn lemma_sorted_by_fixes<T>(items: Seq<T>, key: spec_fn(T) -> int)
    requires
        forall|i: int, j: int|
            0 <= i <= j < items.len() ==> key(#[trigger] items[i]) <= key(#[trigger] items[j]),
    ensures
        sorted_by(items, key) == items,
    decreases items.len(),
{
    if items.len() > 0 {
        let head = items.drop_last();
        assert forall|i: int, j: int| 0 <= i <= j < head.len() implies key(#[trigger] head[i])
            <= key(#[trigger] head[j]) by {
            assert(key(items[i]) <= key(items[j]));
        }
        lemma_sorted_by_fixes(head, key);
        let keys = head.map_values(key);
        if head.len() > 0 {
            assert(keys.last() == key(items[head.len() - 1]));
            assert(key(items[head.len() - 1]) <= key(items[items.len() - 1]));
        }
        assert(head.insert(head.len() as int, items.last()) =~= items);
    }
}

/// What is sorted was there before.
pub proof fn lemma_sorted_was_there<T>(items: Seq<T>, key: spec_fn(T) -> int, i: int)
    requires
        0 <= i < sorted_by(items, key).len(),
    ensures
        items.contains(sorted_by(items, key)[i]),
{
    broadcast use vstd::seq_lib::group_to_multiset_ensures;

    let sorted = sorted_by(items, key);
    lemma_sorted_by(items, key);
    assert(sorted.contains(sorted[i]));
    assert(sorted.to_multiset().count(sorted[i]) > 0);
    assert(items.to_multiset().count(sorted[i]) > 0);
}

} // verus!
