//! Sets of texts held as sorted lists without repetitions.

use vstd::prelude::*;
use crate::text::{
    lemma_text_lt_total, lemma_text_lt_transitive, text_eq, text_less, text_lt, views,
};

verus! {

/// Whether each text of the list comes before the next.
pub open spec fn strictly_sorted(items: Seq<Seq<char>>) -> bool {
    forall|i: int, j: int| 0 <= i < j < items.len() ==> text_lt(#[trigger] items[i], #[trigger] items[j])
}

/// A sorted list with `x` put at its place, unless the list holds it already.
pub open spec fn inserted(sorted: Seq<Seq<char>>, x: Seq<char>) -> Seq<Seq<char>>
    decreases sorted.len(),
{
    if sorted.len() == 0 {
        seq![x]
    } else if sorted.last() == x {
        sorted
    } else if text_lt(sorted.last(), x) {
        sorted.push(x)
    } else {
        inserted(sorted.drop_last(), x).push(sorted.last())
    }
}

/// A sorted list with all the items put at their places.
pub open spec fn inserted_all(sorted: Seq<Seq<char>>, items: Seq<Seq<char>>) -> Seq<Seq<char>>
    decreases items.len(),
{
    if items.len() == 0 {
        sorted
    } else {
        inserted(inserted_all(sorted, items.drop_last()), items.last())
    }
}

/// Putting a text into a sorted list gives a sorted list that holds the text and what the
/// list held, and nothing else.
pub proof fn lemma_inserted(sorted: Seq<Seq<char>>, x: Seq<char>)
    requires
        strictly_sorted(sorted),
    ensures
        strictly_sorted(inserted(sorted, x)),
        inserted(sorted, x).contains(x),
        forall|i: int| 0 <= i < sorted.len() ==> inserted(sorted, x).contains(#[trigger] sorted[i]),
        forall|k: int|
            0 <= k < inserted(sorted, x).len() ==> (#[trigger] inserted(sorted, x)[k]) == x
                || sorted.contains(inserted(sorted, x)[k]),
        inserted(sorted, x).len() <= sorted.len() + 1,
    decreases sorted.len(),
{
    let out = inserted(sorted, x);
    if sorted.len() == 0 {
        assert(out[0] == x);
    } else if sorted.last() == x {
        assert(sorted[sorted.len() - 1] == x);
        assert forall|k: int| 0 <= k < out.len() implies (#[trigger] out[k]) == x
            || sorted.contains(out[k]) by {
            assert(sorted[k] == out[k]);
        }
        assert forall|i: int| 0 <= i < sorted.len() implies out.contains(#[trigger] sorted[i]) by {
            assert(out[i] == sorted[i]);
        }
    } else if text_lt(sorted.last(), x) {
        assert forall|i: int, j: int| 0 <= i < j < out.len() implies text_lt(
            #[trigger] out[i],
            #[trigger] out[j],
        ) by {
            if j == sorted.len() {
                if i < sorted.len() - 1 {
                    assert(text_lt(sorted[i], sorted[sorted.len() - 1]));
                    lemma_text_lt_transitive(sorted[i], sorted.last(), x);
                }
            } else {
                assert(text_lt(sorted[i], sorted[j]));
            }
        }
        assert(out[sorted.len() as int] == x);
        assert forall|k: int| 0 <= k < out.len() implies (#[trigger] out[k]) == x
            || sorted.contains(out[k]) by {
            if k < sorted.len() {
                assert(sorted[k] == out[k]);
            }
        }
        assert forall|i: int| 0 <= i < sorted.len() implies out.contains(#[trigger] sorted[i]) by {
            assert(out[i] == sorted[i]);
        }
    } else {
        let front = sorted.drop_last();
        let last = sorted.last();
        assert(forall|i: int| 0 <= i < front.len() ==> front[i] == sorted[i]);
        lemma_inserted(front, x);
        let mid = inserted(front, x);
        lemma_text_lt_total(last, x);
        assert(text_lt(x, last));
        assert forall|i: int| 0 <= i < mid.len() implies text_lt(#[trigger] mid[i], last) by {
            if mid[i] != x {
                assert(front.contains(mid[i]));
                let k = choose|k: int| 0 <= k < front.len() && front[k] == mid[i];
                assert(text_lt(sorted[k], sorted[sorted.len() - 1]));
            }
        }
        assert forall|i: int, j: int| 0 <= i < j < out.len() implies text_lt(
            #[trigger] out[i],
            #[trigger] out[j],
        ) by {
            if j == mid.len() {
                assert(out[i] == mid[i]);
            } else {
                assert(text_lt(mid[i], mid[j]));
            }
        }
        let kx = choose|k: int| 0 <= k < mid.len() && mid[k] == x;
        assert(out[kx] == x);
        assert forall|k: int| 0 <= k < out.len() implies (#[trigger] out[k]) == x
            || sorted.contains(out[k]) by {
            if k < mid.len() {
                assert(out[k] == mid[k]);
                if mid[k] != x {
                    assert(front.contains(mid[k]));
                    let m = choose|m: int| 0 <= m < front.len() && front[m] == mid[k];
                    assert(sorted[m] == out[k]);
                }
            } else {
                assert(sorted[sorted.len() - 1] == out[k]);
            }
        }
        assert forall|i: int| 0 <= i < sorted.len() implies out.contains(#[trigger] sorted[i]) by {
            if i < front.len() {
                assert(mid.contains(front[i]));
                let k = choose|k: int| 0 <= k < mid.len() && mid[k] == front[i];
                assert(out[k] == sorted[i]);
            } else {
                assert(out[mid.len() as int] == sorted[i]);
            }
        }
    }
}

/// Putting texts into a sorted list gives a sorted list that holds them and what the list
/// held, and nothing else.
pub proof fn lemma_inserted_all(sorted: Seq<Seq<char>>, items: Seq<Seq<char>>)
    requires
        strictly_sorted(sorted),
    ensures
        strictly_sorted(inserted_all(sorted, items)),
        forall|i: int|
            0 <= i < items.len() ==> inserted_all(sorted, items).contains(#[trigger] items[i]),
        forall|i: int|
            0 <= i < sorted.len() ==> inserted_all(sorted, items).contains(#[trigger] sorted[i]),
        forall|k: int|
            0 <= k < inserted_all(sorted, items).len() ==> items.contains(
                #[trigger] inserted_all(sorted, items)[k],
            ) || sorted.contains(inserted_all(sorted, items)[k]),
    decreases items.len(),
{
    if items.len() > 0 {
        let front = items.drop_last();
        lemma_inserted_all(sorted, front);
        let mid = inserted_all(sorted, front);
        lemma_inserted(mid, items.last());
        let out = inserted_all(sorted, items);
        assert forall|i: int| 0 <= i < items.len() implies out.contains(#[trigger] items[i]) by {
            if i < front.len() {
                assert(front[i] == items[i]);
                assert(mid.contains(front[i]));
                let k = choose|k: int| 0 <= k < mid.len() && mid[k] == front[i];
                assert(out.contains(mid[k]));
            }
        }
        assert forall|i: int| 0 <= i < sorted.len() implies out.contains(#[trigger] sorted[i]) by {
            assert(mid.contains(sorted[i]));
            let k = choose|k: int| 0 <= k < mid.len() && mid[k] == sorted[i];
            assert(out.contains(mid[k]));
        }
        assert forall|k: int| 0 <= k < out.len() implies items.contains(#[trigger] out[k])
            || sorted.contains(out[k]) by {
            if out[k] == items.last() {
                assert(items[items.len() - 1] == out[k]);
            } else {
                assert(mid.contains(out[k]));
                let m = choose|m: int| 0 <= m < mid.len() && mid[m] == out[k];
                if front.contains(mid[m]) {
                    let j = choose|j: int| 0 <= j < front.len() && front[j] == mid[m];
                    assert(items[j] == out[k]);
                }
            }
        }
    }
}

/// Puts a text at its place in a sorted list, unless the list holds it already.
pub fn insert_sorted(sorted: &mut Vec<String>, x: String)
    ensures
        views(final(sorted)@) == inserted(views(old(sorted)@), x@),
{
    let ghost all = views(sorted@);
    let mut i: usize = sorted.len();
    assert(all.take(i as int) =~= all);
    assert(all.skip(i as int) =~= Seq::<Seq<char>>::empty());
    assert(inserted(all, x@) + Seq::<Seq<char>>::empty() =~= inserted(all, x@));
    while i > 0
        invariant
            i <= sorted.len(),
            sorted@ == old(sorted)@,
            all == views(sorted@),
            inserted(all, x@) == inserted(all.take(i as int), x@) + all.skip(i as int),
        decreases i,
    {
        let ghost head = all.take(i as int);
        assert(head.last() == sorted@[i - 1]@);
        assert(head.drop_last() =~= all.take(i - 1));
        if text_eq(sorted[i - 1].as_str(), x.as_str()) {
            assert(head + all.skip(i as int) =~= all);
            return ;
        }
        if text_less(sorted[i - 1].as_str(), x.as_str()) {
            let ghost before = views(sorted@);
            sorted.insert(i, x);
            assert(views(sorted@) =~= head.push(x@) + before.skip(i as int));
            return ;
        }
        assert(all.take(i - 1).push(head.last()) + all.skip(i as int) =~= all.take(i - 1) + all.skip(
            i - 1,
        )) by {
            assert(all.skip(i - 1) =~= seq![head.last()] + all.skip(i as int));
        }
        assert(inserted(all.take(i - 1), x@).push(head.last()) + all.skip(i as int) =~= inserted(
            all.take(i - 1),
            x@,
        ) + all.skip(i - 1)) by {
            assert(all.skip(i - 1) =~= seq![head.last()] + all.skip(i as int));
        }
        i -= 1;
    }
    let ghost before = views(sorted@);
    assert(all.take(0) =~= Seq::<Seq<char>>::empty());
    sorted.insert(0, x);
    assert(views(sorted@) =~= seq![x@] + before.skip(0));
}

/// Puts texts at their places in a sorted list.
pub fn insert_all_sorted(sorted: &mut Vec<String>, items: &Vec<String>)
    ensures
        views(final(sorted)@) == inserted_all(views(old(sorted)@), views(items@)),
{
    let ghost start = views(sorted@);
    let ghost all = views(items@);
    let mut i: usize = 0;
    assert(all.take(0) =~= Seq::<Seq<char>>::empty());
    while i < items.len()
        invariant
            i <= items.len(),
            all == views(items@),
            views(sorted@) == inserted_all(start, all.take(i as int)),
        decreases items.len() - i,
    {
        assert(all.take(i + 1).drop_last() =~= all.take(i as int));
        assert(all.take(i + 1).last() == items@[i as int]@);
        insert_sorted(sorted, items[i].clone());
        i += 1;
    }
    assert(all.take(items.len() as int) =~= all);
}

} // verus!
