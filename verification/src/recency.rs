//! The mathematical model of a least-recently-used store: a sequence of
//! entries, most recently used first, with the operations a read and a write
//! perform on it and the facts that follow.

use vstd::prelude::*;
use crate::station::StationView;

verus! {

/// One cached list: the key's text and the stations kept under it.
pub type Entry = (Seq<char>, Seq<StationView>);

/// The entries of a store in order of use, the most recently used at index 0
/// and the least recently used at the end.
pub type Entries = Seq<Entry>;

/// Whether some entry is kept under `key`.
pub open spec fn holds(entries: Entries, key: Seq<char>) -> bool {
    exists|i: int| 0 <= i < entries.len() && (#[trigger] entries[i]).0 == key
}

/// An index at which `key` is kept, where there is one.
pub open spec fn position(entries: Entries, key: Seq<char>) -> int {
    choose|i: int| 0 <= i < entries.len() && (#[trigger] entries[i]).0 == key
}

/// The list kept under `key`, if any.
pub open spec fn lookup(entries: Entries, key: Seq<char>) -> Option<Seq<StationView>> {
    if holds(entries, key) {
        Some(entries[position(entries, key)].1)
    } else {
        None
    }
}

/// No key is kept twice.
pub open spec fn distinct_keys(entries: Entries) -> bool {
    forall|i: int, j: int|
        0 <= i < j < entries.len() ==> (#[trigger] entries[i]).0 != (#[trigger] entries[j]).0
}

/// What every store satisfies: each key at most once, and no more entries
/// than the capacity allows.
pub open spec fn well_formed(entries: Entries, capacity: nat) -> bool {
    distinct_keys(entries) && entries.len() <= capacity
}

/// The store after a read of `key`: a key that is held moves to the front,
/// and nothing else changes.
pub open spec fn touched(entries: Entries, key: Seq<char>) -> Entries {
    if holds(entries, key) {
        let at = position(entries, key);
        seq![entries[at]] + entries.remove(at)
    } else {
        entries
    }
}

/// The store after `value` was written under `key`. A key that is held gets
/// the new value and moves to the front. A new key goes to the front; if the
/// store was full, the entry at the end, the least recently used, leaves
/// first. A store of capacity 0 takes nothing.
pub open spec fn stored(
    entries: Entries,
    capacity: nat,
    key: Seq<char>,
    value: Seq<StationView>,
) -> Entries {
    if holds(entries, key) {
        seq![(key, value)] + entries.remove(position(entries, key))
    } else if capacity == 0 {
        entries
    } else if entries.len() == capacity {
        seq![(key, value)] + entries.drop_last()
    } else {
        seq![(key, value)] + entries
    }
}

/// The store after its capacity was set to `capacity`: entries beyond the new
/// capacity, the least recently used ones, are dropped.
pub open spec fn resized(entries: Entries, capacity: nat) -> Entries {
    if entries.len() > capacity {
        entries.take(capacity as int)
    } else {
        entries
    }
}

/// The entries as a map from key to list, without their order.
pub open spec fn as_map(entries: Entries) -> Map<Seq<char>, Seq<StationView>> {
    Map::new(|key: Seq<char>| holds(entries, key), |key: Seq<char>| entries[position(entries, key)].1)
}

/// The store after each of `writes` was written in turn, the first one first.
pub open spec fn stored_all(entries: Entries, capacity: nat, writes: Entries) -> Entries
    decreases writes.len(),
{
    if writes.len() == 0 {
        entries
    } else {
        let last = writes.last();
        stored(stored_all(entries, capacity, writes.drop_last()), capacity, last.0, last.1)
    }
}

/// Where the entry now at index `i` stood before the entry at `at` moved to
/// the front.
spec fn origin_after_move(at: int, i: int) -> int {
    if i == 0 {
        at
    } else if i <= at {
        i - 1
    } else {
        i
    }
}

/// Where a key is held, `position` names an index that holds it.
pub proof fn lemma_position(entries: Entries, key: Seq<char>)
    requires
        holds(entries, key),
    ensures
        0 <= position(entries, key) < entries.len(),
        entries[position(entries, key)].0 == key,
{
}

/// With distinct keys, the index of a key is the only one that holds it.
pub proof fn lemma_position_unique(entries: Entries, key: Seq<char>, at: int)
    requires
        distinct_keys(entries),
        0 <= at < entries.len(),
        entries[at].0 == key,
    ensures
        holds(entries, key),
        position(entries, key) == at,
        lookup(entries, key) == Some(entries[at].1),
{
    let p = position(entries, key);
    assert(0 <= p < entries.len() && entries[p].0 == key);
    if p < at {
        assert(entries[p].0 != entries[at].0);
    } else if at < p {
        assert(entries[at].0 != entries[p].0);
    }
}

/// A key is held exactly when the map of the entries has it, and then with
/// the list that `lookup` gives.
pub proof fn lemma_map_agrees(entries: Entries, key: Seq<char>)
    ensures
        as_map(entries).index_opt(key) == lookup(entries, key),
        as_map(entries).contains_key(key) == holds(entries, key),
{
}

/// A read keeps the store well formed and changes no key's list, only the
/// order.
pub proof fn lemma_touched(entries: Entries, capacity: nat, key: Seq<char>)
    requires
        well_formed(entries, capacity),
    ensures
        well_formed(touched(entries, key), capacity),
        touched(entries, key).len() == entries.len(),
        forall|k: Seq<char>| lookup(touched(entries, key), k) == lookup(entries, k),
        as_map(touched(entries, key)) == as_map(entries),
        holds(entries, key) ==> touched(entries, key)[0] == entries[position(entries, key)],
{
    let after = touched(entries, key);
    if holds(entries, key) {
        let at = position(entries, key);
        lemma_position(entries, key);
        assert forall|i: int| 0 <= i < after.len() implies after[i] == entries[origin_after_move(
            at,
            i,
        )] by {}
        assert forall|i: int, j: int| 0 <= i < j < after.len() implies after[i].0 != after[j].0 by {
            let a = origin_after_move(at, i);
            let b = origin_after_move(at, j);
            if a < b {
                assert(entries[a].0 != entries[b].0);
            } else {
                assert(entries[b].0 != entries[a].0);
            }
        }
        assert forall|k: Seq<char>| lookup(after, k) == lookup(entries, k) by {
            if holds(entries, k) {
                let p = position(entries, k);
                lemma_position(entries, k);
                let q = if p == at {
                    0
                } else if p < at {
                    p + 1
                } else {
                    p
                };
                assert(after[q] == entries[p]);
                lemma_position_unique(after, k, q);
            } else if holds(after, k) {
                let q = position(after, k);
                lemma_position(after, k);
                assert(entries[origin_after_move(at, q)].0 == k);
            }
        }
    }
    assert(as_map(after) =~= as_map(entries)) by {
        assert forall|k: Seq<char>| as_map(after).index_opt(k) == as_map(entries).index_opt(k) by {
            lemma_map_agrees(after, k);
            lemma_map_agrees(entries, k);
        }
        assert forall|k: Seq<char>| as_map(after).contains_key(k) == as_map(entries).contains_key(
            k,
        ) by {
            lemma_map_agrees(after, k);
            lemma_map_agrees(entries, k);
        }
    }
}

/// A write keeps the store well formed. Afterwards every key other than the
/// written one has the list it had or none, and the written key has the new
/// list or, in a store of capacity 0, none.
pub proof fn lemma_stored(entries: Entries, capacity: nat, key: Seq<char>, value: Seq<StationView>)
    requires
        well_formed(entries, capacity),
    ensures
        well_formed(stored(entries, capacity, key, value), capacity),
        capacity > 0 ==> stored(entries, capacity, key, value)[0] == (key, value),
        capacity > 0 ==> lookup(stored(entries, capacity, key, value), key) == Some(value),
        capacity == 0 ==> stored(entries, capacity, key, value) == entries,
        forall|k: Seq<char>|
            k != key && holds(stored(entries, capacity, key, value), k) ==> lookup(
                stored(entries, capacity, key, value),
                k,
            ) == lookup(entries, k),
        as_map(stored(entries, capacity, key, value)).submap_of(as_map(entries).insert(key, value)),
        capacity > 0 ==> as_map(stored(entries, capacity, key, value)).contains_pair(key, value),
{
    let after = stored(entries, capacity, key, value);
    if holds(entries, key) {
        let at = position(entries, key);
        lemma_position(entries, key);
        assert forall|i: int| 0 < i < after.len() implies after[i] == entries[origin_after_move(
            at,
            i,
        )] by {}
        assert forall|i: int, j: int| 0 <= i < j < after.len() implies after[i].0 != after[j].0 by {
            let a = origin_after_move(at, i);
            let b = origin_after_move(at, j);
            if a < b {
                assert(entries[a].0 != entries[b].0);
            } else {
                assert(entries[b].0 != entries[a].0);
            }
        }
    } else if capacity > 0 {
        assert forall|i: int| 0 < i < after.len() implies after[i] == entries[i - 1] by {}
        assert forall|i: int, j: int| 0 <= i < j < after.len() implies after[i].0 != after[j].0 by {
            if i == 0 {
                assert(entries[j - 1].0 != key);
            } else {
                assert(entries[i - 1].0 != entries[j - 1].0);
            }
        }
    }
    if capacity > 0 {
        assert(after[0] == (key, value));
        lemma_position_unique(after, key, 0);
    }
    assert forall|k: Seq<char>| k != key && holds(after, k) implies lookup(after, k) == lookup(
        entries,
        k,
    ) by {
        let q = position(after, k);
        lemma_position(after, k);
        if holds(entries, key) {
            let p = origin_after_move(position(entries, key), q);
            assert(after[q] == entries[p]);
            lemma_position_unique(entries, k, p);
        } else if capacity > 0 {
            assert(after[q] == entries[q - 1]);
            lemma_position_unique(entries, k, q - 1);
        }
    }
    assert forall|k: Seq<char>| as_map(after).dom().contains(k) implies as_map(entries).insert(
        key,
        value,
    ).dom().contains(k) && as_map(after)[k] == as_map(entries).insert(key, value)[k] by {
        lemma_map_agrees(after, k);
        lemma_map_agrees(entries, k);
        if k == key {
            if capacity == 0 {
                assert(!holds(entries, key));
            }
        }
    }
    if capacity > 0 {
        lemma_map_agrees(after, key);
    }
}

/// What was written is found: in a store of capacity 1 or more, the list
/// written last under a key is the list kept under it, and the key is the
/// most recently used one.
pub proof fn law_written_list_is_found(
    entries: Entries,
    capacity: nat,
    key: Seq<char>,
    value: Seq<StationView>,
)
    requires
        well_formed(entries, capacity),
        capacity > 0,
    ensures
        lookup(stored(entries, capacity, key, value), key) == Some(value),
        stored(entries, capacity, key, value)[0] == (key, value),
{
    lemma_stored(entries, capacity, key, value);
}

/// A write of a new key into a full store drops exactly the least recently
/// used entry: the key at the end is gone, the written key has its list, and
/// every other key keeps its list.
pub proof fn law_full_store_evicts_least_recent(
    entries: Entries,
    capacity: nat,
    key: Seq<char>,
    value: Seq<StationView>,
)
    requires
        well_formed(entries, capacity),
        capacity > 0,
        entries.len() == capacity,
        !holds(entries, key),
    ensures
        stored(entries, capacity, key, value) == seq![(key, value)] + entries.drop_last(),
        stored(entries, capacity, key, value).len() == capacity,
        !holds(stored(entries, capacity, key, value), entries.last().0),
        lookup(stored(entries, capacity, key, value), key) == Some(value),
        forall|k: Seq<char>|
            k != key && k != entries.last().0 ==> lookup(stored(entries, capacity, key, value), k)
                == lookup(entries, k),
{
    let after = stored(entries, capacity, key, value);
    let gone = entries.last().0;
    lemma_stored(entries, capacity, key, value);
    assert forall|i: int| 0 < i < after.len() implies after[i] == entries[i - 1] by {}
    if holds(after, gone) {
        let q = position(after, gone);
        lemma_position(after, gone);
        assert(entries[q - 1].0 != entries[entries.len() - 1].0);
    }
    assert forall|k: Seq<char>| k != key && k != gone implies lookup(after, k) == lookup(
        entries,
        k,
    ) by {
        if holds(entries, k) {
            let p = position(entries, k);
            lemma_position(entries, k);
            assert(after[p + 1] == entries[p]);
            lemma_position_unique(after, k, p + 1);
        }
    }
}

/// A read protects a key from the next eviction: when a key of a full store
/// of capacity 2 or more is read and a new key is written then, the key that
/// was read is still held, with its list.
pub proof fn law_read_protects_from_eviction(
    entries: Entries,
    capacity: nat,
    read: Seq<char>,
    key: Seq<char>,
    value: Seq<StationView>,
)
    requires
        well_formed(entries, capacity),
        capacity >= 2,
        entries.len() == capacity,
        holds(entries, read),
        !holds(entries, key),
    ensures
        lookup(stored(touched(entries, read), capacity, key, value), read) == lookup(
            entries,
            read,
        ),
        lookup(entries, read) is Some,
{
    let warm = touched(entries, read);
    lemma_touched(entries, capacity, read);
    lemma_position(entries, read);
    assert(lookup(warm, key) == lookup(entries, key));
    assert(!holds(warm, key));
    let after = stored(warm, capacity, key, value);
    assert(after[1] == warm[0]);
    lemma_stored(warm, capacity, key, value);
    lemma_position_unique(after, read, 1);
    lemma_position_unique(warm, read, 0);
}

/// Filling an empty store: when `writes` has distinct keys and no more
/// entries than the capacity, the store then holds all of them, the last
/// written first.
pub proof fn law_writes_within_capacity_are_kept(capacity: nat, writes: Entries)
    requires
        distinct_keys(writes),
        writes.len() <= capacity,
    ensures
        stored_all(Seq::empty(), capacity, writes) == writes.reverse(),
    decreases writes.len(),
{
    if writes.len() > 0 {
        let earlier = writes.drop_last();
        let last = writes.last();
        assert forall|i: int, j: int| 0 <= i < j < earlier.len() implies earlier[i].0
            != earlier[j].0 by {
            assert(writes[i].0 != writes[j].0);
        }
        law_writes_within_capacity_are_kept(capacity, earlier);
        let before = stored_all(Seq::empty(), capacity, earlier);
        assert(before == earlier.reverse());
        if holds(before, last.0) {
            let q = position(before, last.0);
            lemma_position(before, last.0);
            assert(before[q] == writes[earlier.len() - 1 - q]);
            assert(writes[earlier.len() - 1 - q].0 != writes[writes.len() - 1].0);
        }
        assert(stored(before, capacity, last.0, last.1) =~= writes.reverse());
    } else {
        assert(stored_all(Seq::empty(), capacity, writes) =~= writes.reverse());
    }
}

/// One key too many: when a store of capacity `N >= 1` is filled from empty
/// with `N + 1` distinct keys, exactly the first one written is gone and the
/// other `N` are held, the last written first.
pub proof fn law_one_write_too_many_evicts_first(capacity: nat, writes: Entries)
    requires
        distinct_keys(writes),
        capacity >= 1,
        writes.len() == capacity + 1,
    ensures
        stored_all(Seq::empty(), capacity, writes) == writes.drop_first().reverse(),
        !holds(stored_all(Seq::empty(), capacity, writes), writes[0].0),
        forall|i: int|
            1 <= i < writes.len() ==> lookup(
                stored_all(Seq::empty(), capacity, writes),
                (#[trigger] writes[i]).0,
            ) == Some(writes[i].1),
{
    let earlier = writes.drop_last();
    let last = writes.last();
    let kept = writes.drop_first();
    assert forall|i: int, j: int| 0 <= i < j < earlier.len() implies earlier[i].0 != earlier[j].0 by {
        assert(writes[i].0 != writes[j].0);
    }
    assert forall|i: int, j: int| 0 <= i < j < kept.len() implies kept[i].0 != kept[j].0 by {
        assert(writes[i + 1].0 != writes[j + 1].0);
    }
    law_writes_within_capacity_are_kept(capacity, earlier);
    let before = stored_all(Seq::empty(), capacity, earlier);
    assert(before == earlier.reverse());
    if holds(before, last.0) {
        let q = position(before, last.0);
        lemma_position(before, last.0);
        assert(before[q] == writes[earlier.len() - 1 - q]);
        assert(writes[earlier.len() - 1 - q].0 != writes[writes.len() - 1].0);
    }
    let after = stored_all(Seq::empty(), capacity, writes);
    assert(after == stored(before, capacity, last.0, last.1));
    assert(after =~= kept.reverse());
    assert forall|i: int, j: int| 0 <= i < j < after.len() implies after[i].0 != after[j].0 by {
        assert(kept[kept.len() - 1 - j].0 != kept[kept.len() - 1 - i].0);
    }
    if holds(after, writes[0].0) {
        let q = position(after, writes[0].0);
        lemma_position(after, writes[0].0);
        assert(after[q] == writes[writes.len() - 1 - q]);
        assert(writes[0].0 != writes[writes.len() - 1 - q].0);
    }
    assert forall|i: int| 1 <= i < writes.len() implies lookup(after, (#[trigger] writes[i]).0)
        == Some(writes[i].1) by {
        assert(after[writes.len() - 1 - i] == writes[i]);
        lemma_position_unique(after, writes[i].0, writes.len() - 1 - i);
    }
}

/// A store of capacity 0 holds nothing, and neither a read nor a write
/// changes that.
pub proof fn law_zero_capacity_keeps_nothing(
    entries: Entries,
    key: Seq<char>,
    value: Seq<StationView>,
)
    requires
        well_formed(entries, 0),
    ensures
        entries == Seq::<Entry>::empty(),
        stored(entries, 0, key, value) == entries,
        touched(entries, key) == entries,
        lookup(entries, key) is None,
        lookup(stored(entries, 0, key, value), key) is None,
{
    assert(entries =~= Seq::<Entry>::empty());
}

} // verus!
