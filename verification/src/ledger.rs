//! The participant ledger as a mathematical value: a sequence of
//! (identity, amount) entries that is read as a map from identity to amount.
//!
//! Where an identity occurs more than once, its first entry is the one that
//! counts. A ledger that is only ever changed by `upsert` and `without` holds
//! each identity at most once.
use crate::identity::Identity;
use vstd::prelude::*;

verus! {

/// The entries of a ledger, in the order in which they are stored.
pub type Entries = Seq<(Identity, u64)>;

/// Whether `i` is the place of the first entry for `key`.
pub open spec fn is_first_index(entries: Entries, key: Identity, i: int) -> bool {
    &&& 0 <= i < entries.len()
    &&& entries[i].0 == key
    &&& forall|j: int| 0 <= j < i ==> entries[j].0 != key
}

/// Whether the ledger has an entry for `key`.
pub open spec fn has_key(entries: Entries, key: Identity) -> bool {
    exists|i: int| is_first_index(entries, key, i)
}

/// The place of the first entry for `key`, where the ledger has one.
pub open spec fn first_index(entries: Entries, key: Identity) -> int {
    choose|i: int| is_first_index(entries, key, i)
}

/// The amount that the ledger records for `key`.
pub open spec fn lookup(entries: Entries, key: Identity) -> Option<u64> {
    if has_key(entries, key) {
        Some(entries[first_index(entries, key)].1)
    } else {
        None
    }
}

/// The amount that `key` may still withdraw: what the ledger records for it,
/// and nothing where it records nothing.
pub open spec fn recorded(entries: Entries, key: Identity) -> u64 {
    match lookup(entries, key) {
        Some(amount) => amount,
        None => 0,
    }
}

/// The ledger after `key` was given `value`: the entry for `key` holds the
/// new amount in its old place, or a new entry stands at the end.
pub open spec fn upsert(entries: Entries, key: Identity, value: u64) -> Entries {
    if has_key(entries, key) {
        entries.update(first_index(entries, key), (key, value))
    } else {
        entries.push((key, value))
    }
}

/// The entries that are not for `key`.
pub open spec fn other_than(key: Identity) -> spec_fn((Identity, u64)) -> bool {
    |entry: (Identity, u64)| entry.0 != key
}

/// The ledger after every entry for `key` was taken out.
pub open spec fn without(entries: Entries, key: Identity) -> Entries {
    entries.filter(other_than(key))
}

/// Whether no identity has two entries.
pub open spec fn distinct(entries: Entries) -> bool {
    forall|i: int, j: int| 0 <= i < j < entries.len() ==> entries[i].0 != entries[j].0
}

/// An identity has an entry exactly if some entry names it, and the first
/// such entry is the only place that `first_index` can be.
pub proof fn lemma_first_index(entries: Entries, key: Identity)
    ensures
        has_key(entries, key) <==> exists|i: int|
            0 <= i < entries.len() && (#[trigger] entries[i]).0 == key,
        has_key(entries, key) ==> is_first_index(entries, key, first_index(entries, key)),
        forall|i: int| #[trigger]
            is_first_index(entries, key, i) ==> i == first_index(entries, key),
    decreases entries.len(),
{
    if exists|i: int| 0 <= i < entries.len() && (#[trigger] entries[i]).0 == key {
        let i = choose|i: int| 0 <= i < entries.len() && (#[trigger] entries[i]).0 == key;
        let front = entries.take(i);
        lemma_first_index(front, key);
        if has_key(front, key) {
            let f = first_index(front, key);
            assert(is_first_index(front, key, f));
            assert(entries[f] == front[f]);
            assert forall|j: int| 0 <= j < f implies entries[j].0 != key by {
                assert(entries[j] == front[j]);
            }
            assert(is_first_index(entries, key, f));
        } else {
            assert forall|j: int| 0 <= j < i implies entries[j].0 != key by {
                assert(entries[j] == front[j]);
            }
            assert(is_first_index(entries, key, i));
        }
    }
    if has_key(entries, key) {
        let f = first_index(entries, key);
        assert forall|i: int| #[trigger] is_first_index(entries, key, i) implies i == f by {
            if i < f {
                assert(entries[i].0 == key);
            } else if f < i {
                assert(entries[f].0 == key);
            }
        }
    }
}

/// What a ledger records after one more entry was put at its end.
pub proof fn lemma_lookup_push(entries: Entries, entry: (Identity, u64), key: Identity)
    ensures
        lookup(entries.push(entry), key) == match lookup(entries, key) {
            Some(amount) => Some(amount),
            None => if entry.0 == key {
                Some(entry.1)
            } else {
                None
            },
        },
{
    let longer = entries.push(entry);
    lemma_first_index(entries, key);
    lemma_first_index(longer, key);
    if has_key(entries, key) {
        let f = first_index(entries, key);
        assert(longer[f] == entries[f]);
        assert forall|j: int| 0 <= j < f implies longer[j].0 != key by {
            assert(longer[j] == entries[j]);
        }
        assert(is_first_index(longer, key, f));
    } else if entry.0 == key {
        assert forall|j: int| 0 <= j < entries.len() implies longer[j].0 != key by {
            assert(longer[j] == entries[j]);
        }
        assert(longer[entries.len() as int] == entry);
        assert(is_first_index(longer, key, entries.len() as int));
    } else {
        if has_key(longer, key) {
            let f = first_index(longer, key);
            assert(f < entries.len());
            assert(longer[f] == entries[f]);
        }
    }
}

/// The empty ledger records nothing.
pub proof fn lemma_lookup_empty(key: Identity)
    ensures
        lookup(Seq::empty(), key) is None,
        distinct(Seq::empty()),
{
}

/// After `key` was given `value`, the ledger records `value` for `key` and
/// what it recorded before for every other identity; it has one entry more
/// if `key` had none, and as many as before otherwise; and if no identity
/// had two entries before, none has now.
pub proof fn lemma_upsert(entries: Entries, key: Identity, value: u64)
    ensures
        lookup(upsert(entries, key, value), key) == Some(value),
        forall|other: Identity|
            other != key ==> #[trigger] lookup(upsert(entries, key, value), other) == lookup(
                entries,
                other,
            ),
        upsert(entries, key, value).len() == if has_key(entries, key) {
            entries.len()
        } else {
            entries.len() + 1
        },
        distinct(entries) ==> distinct(upsert(entries, key, value)),
{
    let after = upsert(entries, key, value);
    lemma_first_index(entries, key);
    lemma_first_index(after, key);
    if has_key(entries, key) {
        let f = first_index(entries, key);
        assert(after[f] == (key, value));
        assert forall|j: int| 0 <= j < entries.len() implies (#[trigger] after[j]).0
            == entries[j].0 by {}
        assert(is_first_index(after, key, f));
        assert forall|other: Identity| other != key implies #[trigger] lookup(after, other)
            == lookup(entries, other) by {
            lemma_first_index(entries, other);
            lemma_first_index(after, other);
            if has_key(entries, other) {
                let g = first_index(entries, other);
                assert(after[g] == entries[g]);
                assert(is_first_index(after, other, g));
            } else if has_key(after, other) {
                let g = first_index(after, other);
                assert(entries[g].0 == other);
            }
        }
        if distinct(entries) {
            assert forall|i: int, j: int| 0 <= i < j < after.len() implies after[i].0
                != after[j].0 by {
                assert(entries[i].0 != entries[j].0);
            }
        }
    } else {
        lemma_lookup_push(entries, (key, value), key);
        assert forall|other: Identity| other != key implies #[trigger] lookup(after, other)
            == lookup(entries, other) by {
            lemma_lookup_push(entries, (key, value), other);
        }
        if distinct(entries) {
            assert forall|i: int, j: int| 0 <= i < j < after.len() implies after[i].0
                != after[j].0 by {
                if j < entries.len() {
                    assert(entries[i].0 != entries[j].0);
                } else {
                    assert(after[i] == entries[i]);
                }
            }
        }
    }
}

/// Taking the entries for `key` out of a ledger with one more entry at its end.
pub proof fn lemma_without_push(entries: Entries, entry: (Identity, u64), key: Identity)
    ensures
        without(entries.push(entry), key) == if entry.0 != key {
            without(entries, key).push(entry)
        } else {
            without(entries, key)
        },
{
    reveal(Seq::filter);
    assert(entries.push(entry).drop_last() =~= entries);
}

/// After the entries for `key` were taken out, the ledger records nothing
/// for `key` and what it recorded before for every other identity; it is no
/// longer than before; and if no identity had two entries before, none has now.
pub proof fn lemma_without(entries: Entries, key: Identity)
    ensures
        lookup(without(entries, key), key) is None,
        forall|other: Identity|
            other != key ==> #[trigger] lookup(without(entries, key), other) == lookup(
                entries,
                other,
            ),
        without(entries, key).len() <= entries.len(),
        distinct(entries) ==> distinct(without(entries, key)),
        !has_key(entries, key) ==> without(entries, key) == entries,
    decreases entries.len(),
{
    reveal(Seq::filter);
    if entries.len() == 0 {
        assert(without(entries, key) =~= entries);
    } else {
        let front = entries.drop_last();
        let last = entries.last();
        let kept = without(front, key);
        let after = without(entries, key);
        lemma_without(front, key);
        assert(entries =~= front.push(last));
        lemma_without_push(front, last, key);
        lemma_lookup_push(front, last, key);
        lemma_lookup_push(kept, last, key);
        assert forall|other: Identity| other != key implies #[trigger] lookup(after, other)
            == lookup(entries, other) by {
            lemma_lookup_push(front, last, other);
            lemma_lookup_push(kept, last, other);
        }
        if distinct(entries) {
            assert forall|i: int, j: int| 0 <= i < j < front.len() implies front[i].0
                != front[j].0 by {
                assert(entries[i].0 != entries[j].0);
            }
            if last.0 != key {
                lemma_lookup_push(front, last, last.0);
                lemma_first_index(front, last.0);
                if has_key(front, last.0) {
                    let f = first_index(front, last.0);
                    assert(entries[f].0 != entries[entries.len() - 1].0);
                }
                lemma_first_index(kept, last.0);
                assert forall|i: int, j: int| 0 <= i < j < after.len() implies after[i].0
                    != after[j].0 by {
                    if j < kept.len() {
                        assert(kept[i].0 != kept[j].0);
                    } else {
                        assert(after[i] == kept[i]);
                        assert(after[j] == last);
                    }
                }
            }
        }
        lemma_first_index(entries, key);
        lemma_first_index(front, key);
        if !has_key(entries, key) {
            assert(!has_key(front, key)) by {
                if has_key(front, key) {
                    let f = first_index(front, key);
                    assert(entries[f].0 == key);
                }
            }
            assert(last.0 != key);
        }
    }
}

} // verus!
