//! Small tables from texts to values, held as lists in the order in which their keys
//! first came.

use vstd::prelude::*;
use crate::text::text_eq;

verus! {

/// The entries of a table as plain values.
pub open spec fn entries<V>(table: Seq<(String, V)>) -> Seq<(Seq<char>, V)> {
    table.map_values(|e: (String, V)| (e.0@, e.1))
}

/// The place of the first entry of a key.
pub open spec fn key_place<V>(table: Seq<(Seq<char>, V)>, key: Seq<char>) -> Option<int>
    decreases table.len(),
{
    if table.len() == 0 {
        None
    } else {
        match key_place(table.drop_last(), key) {
            Some(i) => Some(i),
            None => if table.last().0 == key {
                Some(table.len() - 1)
            } else {
                None
            },
        }
    }
}

/// The place of a key is the first place that carries it; a key has none exactly where no
/// entry carries it.
pub proof fn lemma_key_place<V>(table: Seq<(Seq<char>, V)>, key: Seq<char>)
    ensures
        key_place(table, key) matches Some(i) ==> 0 <= i < table.len() && table[i].0 == key
            && forall|j: int| 0 <= j < i ==> (#[trigger] table[j]).0 != key,
        key_place(table, key) is None ==> forall|j: int|
            0 <= j < table.len() ==> (#[trigger] table[j]).0 != key,
    decreases table.len(),
{
    if table.len() > 0 {
        let front = table.drop_last();
        lemma_key_place(front, key);
        assert(forall|j: int| 0 <= j < front.len() ==> front[j] == table[j]);
    }
}

/// A place that carries a key and has none before it that does is the place of the key.
pub proof fn lemma_key_place_is<V>(table: Seq<(Seq<char>, V)>, key: Seq<char>, i: int)
    requires
        0 <= i < table.len(),
        table[i].0 == key,
        forall|j: int| 0 <= j < i ==> (#[trigger] table[j]).0 != key,
    ensures
        key_place(table, key) == Some(i),
{
    lemma_key_place(table, key);
}

/// The value of a key, if the table has the key.
pub open spec fn lookup<V>(table: Seq<(Seq<char>, V)>, key: Seq<char>) -> Option<V> {
    match key_place(table, key) {
        Some(i) => Some(table[i].1),
        None => None,
    }
}

/// The table with a value for a key: in place of the old value where the table has the
/// key, at the end where it has not.
pub open spec fn put<V>(table: Seq<(Seq<char>, V)>, key: Seq<char>, value: V) -> Seq<
    (Seq<char>, V),
> {
    match key_place(table, key) {
        Some(i) => table.update(i, (key, value)),
        None => table.push((key, value)),
    }
}

/// The table with the items put one after the other.
pub open spec fn put_all<V>(table: Seq<(Seq<char>, V)>, items: Seq<(Seq<char>, V)>) -> Seq<
    (Seq<char>, V),
>
    decreases items.len(),
{
    if items.len() == 0 {
        table
    } else {
        put(put_all(table, items.drop_last()), items.last().0, items.last().1)
    }
}

/// Whether no key has two entries.
pub open spec fn keys_distinct<V>(table: Seq<(Seq<char>, V)>) -> bool {
    forall|i: int, j: int| 0 <= i < j < table.len() ==> (#[trigger] table[i]).0 != (#[trigger] table[j]).0
}

/// After a value is put for a key, the key has that value, every other key has the value
/// it had, and no key has two entries if none had before.
pub proof fn lemma_put<V>(table: Seq<(Seq<char>, V)>, key: Seq<char>, value: V)
    ensures
        lookup(put(table, key, value), key) == Some(value),
        forall|other: Seq<char>|
            other != key ==> lookup(put(table, key, value), other) == lookup(table, other),
        keys_distinct(table) ==> keys_distinct(put(table, key, value)),
{
    let out = put(table, key, value);
    lemma_key_place(table, key);
    match key_place(table, key) {
        Some(i) => {
            assert(out[i].0 == key);
            assert forall|j: int| 0 <= j < i implies (#[trigger] out[j]).0 != key by {
                assert(out[j] == table[j]);
            }
            lemma_key_place_is(out, key, i);
        },
        None => {
            let n = table.len() as int;
            assert(out[n].0 == key);
            assert forall|j: int| 0 <= j < n implies (#[trigger] out[j]).0 != key by {
                assert(out[j] == table[j]);
            }
            lemma_key_place_is(out, key, n);
        },
    }
    assert forall|other: Seq<char>| other != key implies lookup(out, other) == lookup(
        table,
        other,
    ) by {
        lemma_key_place(table, other);
        lemma_key_place(out, other);
        match key_place(table, other) {
            Some(i) => {
                assert(out[i] == table[i]);
                assert forall|j: int| 0 <= j < i implies (#[trigger] out[j]).0 != other by {
                    assert(table[j].0 != other);
                }
                lemma_key_place_is(out, other, i);
            },
            None => {
                if key_place(out, other) is Some {
                    let k = key_place(out, other)->0;
                    if k < table.len() {
                        assert(table[k].0 != other);
                    }
                }
            },
        }
    }
    if keys_distinct(table) {
        assert forall|i: int, j: int| 0 <= i < j < out.len() implies (#[trigger] out[i]).0 != (
        #[trigger] out[j]).0 by {
            match key_place(table, key) {
                Some(p) => {
                    assert(table[i].0 != table[j].0);
                    assert(table[p].0 == key);
                },
                None => {
                    if j < table.len() {
                        assert(table[i].0 != table[j].0);
                    } else {
                        assert(table[i].0 != key);
                    }
                },
            }
        }
    }
}

/// Finds the entry of a key.
pub fn find_key<V>(table: &Vec<(String, V)>, key: &str) -> (place: Option<usize>)
    ensures
        place is Some == key_place(entries(table@), key@) is Some,
        place matches Some(i) ==> i < table@.len() && key_place(entries(table@), key@) == Some(
            i as int,
        ),
{
    let ghost all = entries(table@);
    let mut i: usize = 0;
    while i < table.len()
        invariant
            i <= table.len(),
            all == entries(table@),
            forall|j: int| 0 <= j < i ==> (#[trigger] all[j]).0 != key@,
        decreases table.len() - i,
    {
        if text_eq(table[i].0.as_str(), key) {
            assert(all[i as int].0 == key@);
            proof {
                lemma_key_place_is(all, key@, i as int);
            }
            return Some(i);
        }
        assert(all[i as int].0 != key@);
        i += 1;
    }
    proof {
        lemma_key_place(all, key@);
    }
    None
}

/// Looks a key up.
pub fn get<V: Copy>(table: &Vec<(String, V)>, key: &str) -> (value: Option<V>)
    ensures
        value == lookup(entries(table@), key@),
{
    match find_key(table, key) {
        Some(i) => {
            assert(entries(table@)[i as int].1 == table@[i as int].1);
            Some(table[i].1)
        },
        None => None,
    }
}

/// Puts a value for a key.
pub fn insert<V>(table: &mut Vec<(String, V)>, key: String, value: V)
    ensures
        entries(final(table)@) == put(entries(old(table)@), key@, value),
{
    let ghost before = entries(table@);
    match find_key(table, key.as_str()) {
        Some(i) => {
            table.set(i, (key, value));
            assert(entries(table@) =~= before.update(i as int, (key@, value)));
        },
        None => {
            table.push((key, value));
            assert(entries(table@) =~= before.push((key@, value)));
        },
    }
}

} // verus!
