//! Sequence operations that the contracts of the collectors are stated with.

use vstd::prelude::*;

verus! {

/// The results that `f` gives on the items, in order, those without a result left out.
pub open spec fn filter_mapped<T, U>(items: Seq<T>, f: spec_fn(T) -> Option<U>) -> Seq<U>
    decreases items.len(),
{
    if items.len() == 0 {
        Seq::empty()
    } else {
        let head = filter_mapped(items.drop_last(), f);
        match f(items.last()) {
            Some(u) => head.push(u),
            None => head,
        }
    }
}

/// The place of the first item that meets `pred`.
pub open spec fn first_where<T>(items: Seq<T>, pred: spec_fn(T) -> bool) -> Option<int>
    decreases items.len(),
{
    if items.len() == 0 {
        None
    } else {
        match first_where(items.drop_last(), pred) {
            Some(i) => Some(i),
            None => if pred(items.last()) {
                Some(items.len() - 1)
            } else {
                None
            },
        }
    }
}

/// The items with each value kept once, at its first occurrence.
pub open spec fn unique<T>(items: Seq<T>) -> Seq<T>
    decreases items.len(),
{
    if items.len() == 0 {
        Seq::empty()
    } else {
        let head = unique(items.drop_last());
        if head.contains(items.last()) {
            head
        } else {
            head.push(items.last())
        }
    }
}

/// The first place that meets a predicate is a place that meets it and has none before
/// it that does; there is none exactly where no item meets the predicate.
pub proof fn lemma_first_where<T>(items: Seq<T>, pred: spec_fn(T) -> bool)
    ensures
        first_where(items, pred) matches Some(i) ==> 0 <= i < items.len() && pred(items[i])
            && forall|j: int| 0 <= j < i ==> !pred(#[trigger] items[j]),
        first_where(items, pred) is None ==> forall|j: int|
            0 <= j < items.len() ==> !pred(#[trigger] items[j]),
    decreases items.len(),
{
    if items.len() > 0 {
        let front = items.drop_last();
        lemma_first_where(front, pred);
        assert(forall|j: int| 0 <= j < front.len() ==> front[j] == items[j]);
    }
}

/// A place that meets a predicate and has none before it that does is the first such
/// place.
pub proof fn lemma_first_where_is<T>(items: Seq<T>, pred: spec_fn(T) -> bool, i: int)
    requires
        0 <= i < items.len(),
        pred(items[i]),
        forall|j: int| 0 <= j < i ==> !pred(#[trigger] items[j]),
    ensures
        first_where(items, pred) == Some(i),
{
    lemma_first_where(items, pred);
}

/// No value occurs twice among the unique items, and they hold the values of the items.
pub proof fn lemma_unique<T>(items: Seq<T>)
    ensures
        unique(items).no_duplicates(),
        forall|x: T| unique(items).contains(x) <==> items.contains(x),
        unique(items).len() <= items.len(),
    decreases items.len(),
{
    if items.len() > 0 {
        let front = items.drop_last();
        lemma_unique(front);
        let head = unique(front);
        let out = unique(items);
        assert forall|x: T| out.contains(x) <==> items.contains(x) by {
            if out.contains(x) {
                let k = choose|k: int| 0 <= k < out.len() && out[k] == x;
                if k < head.len() {
                    assert(head.contains(head[k]));
                    assert(front.contains(x));
                    let m = choose|m: int| 0 <= m < front.len() && front[m] == x;
                    assert(items[m] == x);
                } else {
                    assert(items[items.len() - 1] == x);
                }
            }
            if items.contains(x) {
                let m = choose|m: int| 0 <= m < items.len() && items[m] == x;
                if m < front.len() {
                    assert(front[m] == x);
                    assert(front.contains(x));
                    assert(head.contains(x));
                    let k = choose|k: int| 0 <= k < head.len() && head[k] == x;
                    assert(out[k] == x);
                } else if head.contains(x) {
                    let k = choose|k: int| 0 <= k < head.len() && head[k] == x;
                    assert(out[k] == x);
                } else {
                    assert(out[out.len() - 1] == x);
                }
            }
        }
    }
}

/// Every result comes from an item that gives it.
pub proof fn lemma_filter_mapped<T, U>(items: Seq<T>, f: spec_fn(T) -> Option<U>)
    ensures
        forall|k: int|
            0 <= k < filter_mapped(items, f).len() ==> exists|t: int|
                0 <= t < items.len() && f(#[trigger] items[t]) == Some(
                    #[trigger] filter_mapped(items, f)[k],
                ),
        filter_mapped(items, f).len() <= items.len(),
    decreases items.len(),
{
    if items.len() > 0 {
        let front = items.drop_last();
        lemma_filter_mapped(front, f);
        let head = filter_mapped(front, f);
        let out = filter_mapped(items, f);
        assert forall|k: int| 0 <= k < out.len() implies exists|t: int|
            0 <= t < items.len() && f(#[trigger] items[t]) == Some(#[trigger] out[k]) by {
            if k < head.len() {
                let t = choose|t: int|
                    0 <= t < front.len() && f(#[trigger] front[t]) == Some(head[k]);
                assert(items[t] == front[t]);
            } else {
                assert(f(items[items.len() - 1]) == Some(out[k]));
            }
        }
    }
}

/// Whether some item has the key `k`.
pub open spec fn has_key<T>(items: Seq<T>, key: spec_fn(T) -> Seq<char>, k: Seq<char>) -> bool {
    exists|i: int| 0 <= i < items.len() && key(#[trigger] items[i]) == k
}

/// The items with each key kept once, at its first occurrence.
pub open spec fn first_per_key<T>(items: Seq<T>, key: spec_fn(T) -> Seq<char>) -> Seq<T>
    decreases items.len(),
{
    if items.len() == 0 {
        Seq::empty()
    } else {
        let head = first_per_key(items.drop_last(), key);
        if has_key(head, key, key(items.last())) {
            head
        } else {
            head.push(items.last())
        }
    }
}

/// Among the items kept, no key occurs twice, each is one of the items, and every key of
/// the items is still there.
pub proof fn lemma_first_per_key<T>(items: Seq<T>, key: spec_fn(T) -> Seq<char>)
    ensures
        forall|i: int, j: int|
            0 <= i < j < first_per_key(items, key).len() ==> key(
                #[trigger] first_per_key(items, key)[i],
            ) != key(#[trigger] first_per_key(items, key)[j]),
        forall|i: int|
            0 <= i < first_per_key(items, key).len() ==> items.contains(
                #[trigger] first_per_key(items, key)[i],
            ),
        forall|i: int|
            0 <= i < items.len() ==> has_key(first_per_key(items, key), key, key(#[trigger] items[i])),
        first_per_key(items, key).len() <= items.len(),
    decreases items.len(),
{
    if items.len() > 0 {
        let front = items.drop_last();
        lemma_first_per_key(front, key);
        let head = first_per_key(front, key);
        let out = first_per_key(items, key);
        assert(items[items.len() - 1] == items.last());
        assert forall|i: int| 0 <= i < out.len() implies items.contains(#[trigger] out[i]) by {
            if i < head.len() {
                assert(head[i] == out[i]);
                assert(front.contains(head[i]));
                let m = choose|m: int| 0 <= m < front.len() && front[m] == head[i];
                assert(items[m] == out[i]);
            }
        }
        assert forall|i: int| 0 <= i < items.len() implies has_key(
            out,
            key,
            key(#[trigger] items[i]),
        ) by {
            if i < front.len() {
                assert(front[i] == items[i]);
                assert(has_key(head, key, key(front[i])));
                let m = choose|m: int| 0 <= m < head.len() && key(#[trigger] head[m]) == key(front[i]);
                assert(key(out[m]) == key(items[i]));
            } else if has_key(head, key, key(items.last())) {
            } else {
                assert(key(out[out.len() - 1]) == key(items[i]));
            }
        }
    }
}

} // verus!
