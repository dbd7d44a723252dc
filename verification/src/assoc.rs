//! Association lists: a sequence of key-value pairs that is searched from the
//! front, appended to at the back, and shrunk by moving the last pair into
//! the gap that a removal leaves.
//!
//! This is the mathematical model of the map that binds voices to notes.

use vstd::prelude::*;

verus! {

/// The index of the first pair with `key`, or -1 where no pair has it.
pub open spec fn position<K, V>(entries: Seq<(K, V)>, key: K) -> int
    decreases entries.len(),
{
    if entries.len() == 0 {
        -1
    } else if entries[0].0 == key {
        0
    } else {
        let rest = position(entries.skip(1), key);
        if rest < 0 {
            -1
        } else {
            rest + 1
        }
    }
}

/// No two pairs share a key.
pub open spec fn distinct_keys<K, V>(entries: Seq<(K, V)>) -> bool {
    forall|i: int, j: int|
        0 <= i < j < entries.len() ==> (#[trigger] entries[i]).0 != (#[trigger] entries[j]).0
}

/// The list after `key` was bound to `value`: the pair that has the key is
/// overwritten in place, and without one a new pair goes to the back.
pub open spec fn inserted<K, V>(entries: Seq<(K, V)>, key: K, value: V) -> Seq<(K, V)> {
    if position(entries, key) >= 0 {
        entries.update(position(entries, key), (key, value))
    } else {
        entries.push((key, value))
    }
}

/// The list without the pair at `index`: the last pair takes its place.
pub open spec fn swap_removed<K, V>(entries: Seq<(K, V)>, index: int) -> Seq<(K, V)> {
    if index == entries.len() - 1 {
        entries.drop_last()
    } else {
        entries.update(index, entries.last()).drop_last()
    }
}

/// `position` finds the first pair with the key, and only reports none where
/// there is none.
pub proof fn lemma_position<K, V>(entries: Seq<(K, V)>, key: K)
    ensures
        -1 <= position(entries, key) < entries.len(),
        position(entries, key) >= 0 ==> entries[position(entries, key)].0 == key,
        forall|j: int|
            0 <= j < entries.len() && (position(entries, key) < 0 || j < position(entries, key))
                ==> (#[trigger] entries[j]).0 != key,
    decreases entries.len(),
{
    if entries.len() > 0 && entries[0].0 != key {
        let rest = entries.skip(1);
        lemma_position(rest, key);
        assert forall|j: int|
            0 <= j < entries.len() && (position(entries, key) < 0 || j < position(entries, key))
            implies (#[trigger] entries[j]).0 != key by {
            if j > 0 {
                assert(rest[j - 1] == entries[j]);
            }
        }
    }
}

/// Where keys are distinct, every pair is found at its own index.
pub proof fn lemma_position_of_entry<K, V>(entries: Seq<(K, V)>, index: int)
    requires
        distinct_keys(entries),
        0 <= index < entries.len(),
    ensures
        position(entries, entries[index].0) == index,
{
    lemma_position(entries, entries[index].0);
    let found = position(entries, entries[index].0);
    if found != index {
        if found < 0 {
            assert(entries[index].0 != entries[index].0);
        } else if found < index {
            assert(entries[found].0 != entries[index].0);
        } else {
            assert(entries[index].0 != entries[index].0);
        }
    }
}

/// Binding a key keeps the keys distinct, changes the length only for a new
/// key, and leaves every other pair where it was.
pub proof fn lemma_inserted<K, V>(entries: Seq<(K, V)>, key: K, value: V)
    requires
        distinct_keys(entries),
    ensures
        distinct_keys(inserted(entries, key, value)),
        position(entries, key) >= 0 ==> inserted(entries, key, value).len() == entries.len(),
        position(entries, key) < 0 ==> inserted(entries, key, value).len() == entries.len() + 1,
        position(inserted(entries, key, value), key) >= 0,
        inserted(entries, key, value)[position(inserted(entries, key, value), key)] == (key, value),
        forall|j: int|
            0 <= j < entries.len() && j != position(entries, key) ==> inserted(
                entries,
                key,
                value,
            )[j] == #[trigger] entries[j],
{
    lemma_position(entries, key);
    let after = inserted(entries, key, value);
    let at = position(entries, key);
    let landed = if at >= 0 {
        at
    } else {
        entries.len() as int
    };
    assert(after[landed] == (key, value));
    assert forall|i: int, j: int| 0 <= i < j < after.len() implies (#[trigger] after[i]).0 != (
    #[trigger] after[j]).0 by {
        if at >= 0 {
            if i == at {
                assert(entries[i].0 != entries[j].0);
            } else if j == at {
                assert(entries[i].0 != entries[j].0);
            } else {
                assert(entries[i].0 != entries[j].0);
            }
        } else {
            if j == entries.len() {
                assert(entries[i].0 != key);
            } else {
                assert(entries[i].0 != entries[j].0);
            }
        }
    }
    lemma_position_of_entry(after, landed);
}

/// Removing the pair at an index shortens the list by one, keeps the keys
/// distinct, keeps every other pair, and brings in no pair that was not there.
pub proof fn lemma_swap_removed<K, V>(entries: Seq<(K, V)>, index: int)
    requires
        distinct_keys(entries),
        0 <= index < entries.len(),
    ensures
        swap_removed(entries, index).len() == entries.len() - 1,
        distinct_keys(swap_removed(entries, index)),
        position(swap_removed(entries, index), entries[index].0) < 0,
        forall|j: int|
            0 <= j < entries.len() && j != index ==> swap_removed(entries, index).contains(
                #[trigger] entries[j],
            ),
        forall|j: int|
            0 <= j < swap_removed(entries, index).len() ==> entries.contains(
                #[trigger] swap_removed(entries, index)[j],
            ) && swap_removed(entries, index)[j] != entries[index],
{
    let after = swap_removed(entries, index);
    let last = entries.len() - 1;
    // Each pair of the result comes from one index of the list.
    assert forall|j: int| 0 <= j < after.len() implies after[j] == entries[if j == index {
        last
    } else {
        j
    }] by {}
    assert forall|i: int, j: int| 0 <= i < j < after.len() implies (#[trigger] after[i]).0 != (
    #[trigger] after[j]).0 by {
        let from_i = if i == index {
            last
        } else {
            i
        };
        let from_j = if j == index {
            last
        } else {
            j
        };
        if from_i < from_j {
            assert(entries[from_i].0 != entries[from_j].0);
        } else {
            assert(entries[from_j].0 != entries[from_i].0);
        }
    }
    assert forall|j: int| 0 <= j < entries.len() && j != index implies after.contains(
        #[trigger] entries[j],
    ) by {
        if j == last {
            assert(after[index] == entries[j]);
        } else {
            assert(after[j] == entries[j]);
        }
    }
    assert forall|j: int| 0 <= j < after.len() implies entries.contains(#[trigger] after[j])
        && after[j] != entries[index] by {
        let from = if j == index {
            last
        } else {
            j
        };
        assert(entries[from] == after[j]);
        if from < index {
            assert(entries[from].0 != entries[index].0);
        } else {
            assert(entries[index].0 != entries[from].0);
        }
    }
    lemma_position(after, entries[index].0);
    let again = position(after, entries[index].0);
    if again >= 0 {
        let from = if again == index {
            last
        } else {
            again
        };
        assert(after[again] == entries[from]);
        if from < index {
            assert(entries[from].0 != entries[index].0);
        } else {
            assert(entries[index].0 != entries[from].0);
        }
    }
}

/// A pair of a list with distinct keys is the pair that its key finds.
pub proof fn lemma_contained_entry_found<K, V>(entries: Seq<(K, V)>, entry: (K, V))
    requires
        distinct_keys(entries),
        entries.contains(entry),
    ensures
        position(entries, entry.0) >= 0,
        entries[position(entries, entry.0)] == entry,
{
    let index = choose|i: int| 0 <= i < entries.len() && entries[i] == entry;
    lemma_position_of_entry(entries, index);
}

} // verus!
