//! Sequences of keyed entries: the mathematical content of the balance map.
//!
//! An entry pairs an account's name with the stored pair of principal and
//! start time. The order of a sequence is the order in which the map lists
//! its entries.

use vstd::prelude::*;

verus! {

/// Whether some entry of `entries` is keyed by `key`.
pub open spec fn has_key(entries: Seq<(Seq<char>, (u128, u64))>, key: Seq<char>) -> bool {
    exists|i: int| 0 <= i < entries.len() && (#[trigger] entries[i]).0 == key
}

/// A position at which `key` stands in `entries`: the only one where the keys
/// are distinct. Meaningful where [`has_key`] holds.
pub open spec fn index_of(entries: Seq<(Seq<char>, (u128, u64))>, key: Seq<char>) -> int {
    choose|i: int| 0 <= i < entries.len() && (#[trigger] entries[i]).0 == key
}

/// The value stored under `key`, if any.
pub open spec fn value_of(entries: Seq<(Seq<char>, (u128, u64))>, key: Seq<char>) -> Option<
    (u128, u64),
> {
    if has_key(entries, key) {
        Some(entries[index_of(entries, key)].1)
    } else {
        None
    }
}

/// `entries` after `value` is stored under `key`: an entry that is there keeps
/// its place and takes the value, a new one goes to the end.
pub open spec fn put(
    entries: Seq<(Seq<char>, (u128, u64))>,
    key: Seq<char>,
    value: (u128, u64),
) -> Seq<(Seq<char>, (u128, u64))> {
    if has_key(entries, key) {
        entries.update(index_of(entries, key), (key, value))
    } else {
        entries.push((key, value))
    }
}

/// `entries` without the one at `index`: the last entry takes its place.
pub open spec fn swap_remove(entries: Seq<(Seq<char>, (u128, u64))>, index: int) -> Seq<
    (Seq<char>, (u128, u64)),
> {
    entries.update(index, entries.last()).drop_last()
}

/// `entries` after the entry under `key` is taken out, if there is one.
pub open spec fn take(entries: Seq<(Seq<char>, (u128, u64))>, key: Seq<char>) -> Seq<
    (Seq<char>, (u128, u64)),
> {
    if has_key(entries, key) {
        swap_remove(entries, index_of(entries, key))
    } else {
        entries
    }
}

/// No two entries share a key.
pub open spec fn distinct_keys(entries: Seq<(Seq<char>, (u128, u64))>) -> bool {
    forall|i: int, j: int|
        0 <= i < j < entries.len() ==> (#[trigger] entries[i]).0 != (#[trigger] entries[j]).0
}

/// Every entry holds a principal above zero.
pub open spec fn positive_amounts(entries: Seq<(Seq<char>, (u128, u64))>) -> bool {
    forall|i: int| 0 <= i < entries.len() ==> (#[trigger] entries[i]).1.0 > 0
}

/// The sum of the principals of all entries.
pub open spec fn total_amount(entries: Seq<(Seq<char>, (u128, u64))>) -> int
    decreases entries.len(),
{
    if entries.len() == 0 {
        0
    } else {
        total_amount(entries.drop_last()) + entries.last().1.0
    }
}

/// Where the keys are distinct, the key of the entry at `index` is found at
/// `index` and nowhere else.
pub proof fn lemma_index_of(entries: Seq<(Seq<char>, (u128, u64))>, index: int)
    requires
        distinct_keys(entries),
        0 <= index < entries.len(),
    ensures
        has_key(entries, entries[index].0),
        index_of(entries, entries[index].0) == index,
        value_of(entries, entries[index].0) == Some(entries[index].1),
{
    let key = entries[index].0;
    let found = index_of(entries, key);
    assert(0 <= found < entries.len() && entries[found].0 == key);
    if found < index {
        assert(entries[found].0 != entries[index].0);
    } else if index < found {
        assert(entries[index].0 != entries[found].0);
    }
}

/// Storing a value keeps the keys distinct, makes the value the one found
/// under its key, and leaves what is found under every other key.
pub proof fn lemma_put(
    entries: Seq<(Seq<char>, (u128, u64))>,
    key: Seq<char>,
    value: (u128, u64),
    other: Seq<char>,
)
    requires
        distinct_keys(entries),
    ensures
        distinct_keys(put(entries, key, value)),
        has_key(put(entries, key, value), other) == (other == key || has_key(entries, other)),
        value_of(put(entries, key, value), other) == (if other == key {
            Some(value)
        } else {
            value_of(entries, other)
        }),
        put(entries, key, value).len() == entries.len() + (if has_key(entries, key) {
            0int
        } else {
            1int
        }),
{
    let after = put(entries, key, value);
    let at = if has_key(entries, key) {
        index_of(entries, key)
    } else {
        entries.len() as int
    };
    if has_key(entries, key) {
        assert(0 <= at < entries.len() && entries[at].0 == key);
    }
    // The entry under `key` stands at `at`, every other one where it stood.
    assert(after[at] == (key, value));
    assert forall|i: int| 0 <= i < entries.len() && i != at implies (#[trigger] after[i])
        == entries[i] by {}
    assert(distinct_keys(after)) by {
        assert forall|i: int, j: int| 0 <= i < j < after.len() implies (#[trigger] after[i]).0
            != (#[trigger] after[j]).0 by {
            if i == at {
                assert(entries[at].0 != entries[j].0);
            } else if j == at {
                if has_key(entries, key) {
                    assert(entries[i].0 != entries[at].0);
                } else {
                    assert(entries[i].0 != key);
                }
            } else {
                assert(entries[i].0 != entries[j].0);
            }
        }
    }
    lemma_index_of(after, at);
    if other != key {
        if has_key(entries, other) {
            let o = index_of(entries, other);
            assert(0 <= o < entries.len() && entries[o].0 == other);
            assert(after[o] == entries[o]);
            lemma_index_of(after, o);
        } else if has_key(after, other) {
            let o = index_of(after, other);
            assert(0 <= o < after.len() && after[o].0 == other);
            assert(entries[o].0 == other);
        }
    }
}

/// Storing a principal above zero leaves every principal above zero.
pub proof fn lemma_put_keeps_positive(
    entries: Seq<(Seq<char>, (u128, u64))>,
    key: Seq<char>,
    value: (u128, u64),
)
    requires
        positive_amounts(entries),
        value.0 > 0,
    ensures
        positive_amounts(put(entries, key, value)),
{
    let after = put(entries, key, value);
    if has_key(entries, key) {
        let at = index_of(entries, key);
        assert(0 <= at < entries.len() && entries[at].0 == key);
    }
    assert forall|i: int| 0 <= i < after.len() implies (#[trigger] after[i]).1.0 > 0 by {
        if after[i] != (key, value) {
            assert(after[i] == entries[i]);
        }
    }
}

/// Taking a key out leaves every principal above zero.
pub proof fn lemma_take_keeps_positive(entries: Seq<(Seq<char>, (u128, u64))>, key: Seq<char>)
    requires
        positive_amounts(entries),
    ensures
        positive_amounts(take(entries, key)),
{
    let after = take(entries, key);
    if has_key(entries, key) {
        let at = index_of(entries, key);
        assert(0 <= at < entries.len() && entries[at].0 == key);
        assert forall|i: int| 0 <= i < after.len() implies (#[trigger] after[i]).1.0 > 0 by {
            let from = if i == at {
                entries.len() - 1
            } else {
                i
            };
            assert(after[i] == entries[from]);
        }
    }
}

/// Taking a key out keeps the keys distinct, leaves nothing under that key,
/// and leaves what is found under every other key.
pub proof fn lemma_take(entries: Seq<(Seq<char>, (u128, u64))>, key: Seq<char>, other: Seq<char>)
    requires
        distinct_keys(entries),
    ensures
        distinct_keys(take(entries, key)),
        has_key(take(entries, key), other) == (other != key && has_key(entries, other)),
        value_of(take(entries, key), other) == (if other == key {
            None
        } else {
            value_of(entries, other)
        }),
        take(entries, key).len() == entries.len() - (if has_key(entries, key) {
            1int
        } else {
            0int
        }),
{
    let after = take(entries, key);
    if has_key(entries, key) {
        let at = index_of(entries, key);
        let last = entries.len() - 1;
        assert(0 <= at < entries.len() && entries[at].0 == key);
        // Each entry that stays comes from one place of its own.
        assert forall|i: int| 0 <= i < after.len() implies (#[trigger] after[i]) == entries[if i
            == at {
            last
        } else {
            i
        }] by {}
        assert(distinct_keys(after)) by {
            assert forall|i: int, j: int| 0 <= i < j < after.len() implies (#[trigger] after[i]).0
                != (#[trigger] after[j]).0 by {
                let from_i = if i == at {
                    last
                } else {
                    i
                };
                let from_j = if j == at {
                    last
                } else {
                    j
                };
                if from_i < from_j {
                    assert(entries[from_i].0 != entries[from_j].0);
                } else {
                    assert(entries[from_j].0 != entries[from_i].0);
                }
            }
        }
        if has_key(after, key) {
            let k = index_of(after, key);
            assert(0 <= k < after.len() && after[k].0 == key);
            let from_k = if k == at {
                last
            } else {
                k
            };
            lemma_index_of(entries, from_k);
            assert(false);
        }
        if other != key {
            if has_key(entries, other) {
                let o = index_of(entries, other);
                assert(0 <= o < entries.len() && entries[o].0 == other);
                let to = if o == last {
                    at
                } else {
                    o
                };
                assert(after[to] == entries[o]);
                lemma_index_of(after, to);
            } else {
                if has_key(after, other) {
                    let o = index_of(after, other);
                    assert(0 <= o < after.len() && after[o].0 == other);
                    let from_o = if o == at {
                        last
                    } else {
                        o
                    };
                    assert(entries[from_o].0 == other);
                }
            }
        }
    }
}

/// No entry holds more than the sum of all principals.
pub proof fn lemma_total_amount_bounds(entries: Seq<(Seq<char>, (u128, u64))>, index: int)
    requires
        0 <= index < entries.len(),
    ensures
        0 <= entries[index].1.0 <= total_amount(entries),
    decreases entries.len(),
{
    lemma_total_amount_nonnegative(entries.drop_last());
    if index < entries.len() - 1 {
        lemma_total_amount_bounds(entries.drop_last(), index);
    }
}

/// A sum of principals is never negative.
pub proof fn lemma_total_amount_nonnegative(entries: Seq<(Seq<char>, (u128, u64))>)
    ensures
        0 <= total_amount(entries),
    decreases entries.len(),
{
    if entries.len() > 0 {
        lemma_total_amount_nonnegative(entries.drop_last());
    }
}

/// One more entry adds its principal to the sum.
pub proof fn lemma_total_amount_push(
    entries: Seq<(Seq<char>, (u128, u64))>,
    entry: (Seq<char>, (u128, u64)),
)
    ensures
        total_amount(entries.push(entry)) == total_amount(entries) + entry.1.0,
{
    assert(entries.push(entry).drop_last() =~= entries);
}

/// Another entry in the place of one changes the sum by the difference of
/// the two principals.
pub proof fn lemma_total_amount_update(
    entries: Seq<(Seq<char>, (u128, u64))>,
    index: int,
    entry: (Seq<char>, (u128, u64)),
)
    requires
        0 <= index < entries.len(),
    ensures
        total_amount(entries.update(index, entry)) == total_amount(entries) - entries[index].1.0
            + entry.1.0,
    decreases entries.len(),
{
    let after = entries.update(index, entry);
    if index == entries.len() - 1 {
        assert(after.drop_last() =~= entries.drop_last());
    } else {
        assert(after.drop_last() =~= entries.drop_last().update(index, entry));
        lemma_total_amount_update(entries.drop_last(), index, entry);
    }
}

/// An entry that is cut out takes its principal out of the sum.
pub proof fn lemma_total_amount_remove(entries: Seq<(Seq<char>, (u128, u64))>, index: int)
    requires
        0 <= index < entries.len(),
    ensures
        total_amount(entries.remove(index)) == total_amount(entries) - entries[index].1.0,
    decreases entries.len(),
{
    let after = entries.remove(index);
    if index == entries.len() - 1 {
        assert(after =~= entries.drop_last());
    } else {
        assert(after.drop_last() =~= entries.drop_last().remove(index));
        assert(after.last() == entries.last());
        lemma_total_amount_remove(entries.drop_last(), index);
    }
}

/// An entry that the last one replaces takes its principal out of the sum.
pub proof fn lemma_total_amount_swap_remove(entries: Seq<(Seq<char>, (u128, u64))>, index: int)
    requires
        0 <= index < entries.len(),
    ensures
        total_amount(swap_remove(entries, index)) == total_amount(entries) - entries[index].1.0,
{
    let moved = entries.update(index, entries.last());
    lemma_total_amount_update(entries, index, entries.last());
    assert(moved.last() == entries.last());
}

} // verus!
