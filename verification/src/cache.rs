//! The cache capability, and its in-memory implementation with a fixed
//! capacity and least-recently-used eviction.

use lru::LruCache;
use vstd::prelude::*;
use crate::lru_store::{lru_capacity, lru_entries, lru_get, lru_put, lru_resize, lru_unbounded};
use crate::recency::{
    as_map, lemma_map_agrees, lemma_stored, lemma_touched, lookup, stored, touched, well_formed,
    Entries, Entry,
};
use crate::station::{clone_stations, RadioStation, StationView};

verus! {

/// How [`Cache::set`] leaves a store that was given `stations` under `key`:
/// it holds nothing that it did not hold before but for this entry, and a
/// retentive store does hold this entry.
pub open spec fn after_write<C: Cache>(
    before: C,
    after: C,
    key: Seq<char>,
    stations: Seq<StationView>,
) -> bool {
    &&& before.write_step(key, stations, &after)
    &&& after.entries().submap_of(before.entries().insert(key, stations))
    &&& before.retentive() ==> after.entries().contains_pair(key, stations)
    &&& after.retentive() == before.retentive()
}

/// How [`Cache::get`] leaves a store that was asked for `key`: it holds
/// nothing that it did not hold before.
pub open spec fn after_read<C: Cache>(before: C, after: C, key: Seq<char>) -> bool {
    &&& before.read_step(key, &after)
    &&& after.entries().submap_of(before.entries())
    &&& after.retentive() == before.retentive()
}

/// A keyed store of station lists. A lookup client depends on this contract
/// alone: a store may forget what it was given, at once or later, but what it
/// hands out under a key is the list that was last set under that key.
pub trait Cache {
    /// What the store holds: each key's text with the list kept under it.
    spec fn entries(&self) -> Map<Seq<char>, Seq<StationView>>;

    /// Whether the store keeps what it is given, at least until the next
    /// call. A pass-through store, or one without room, does not.
    spec fn retentive(&self) -> bool;

    /// Whether a read of `key` may leave this store as `next`. Each kind of
    /// store says here what a read does to it beyond what holds of all.
    spec fn read_step(&self, key: Seq<char>, next: &Self) -> bool;

    /// Whether a write of `value` under `key` may leave this store as `next`.
    /// Each kind of store says here what a write does to it beyond what
    /// holds of all.
    spec fn write_step(&self, key: Seq<char>, value: Seq<StationView>, next: &Self) -> bool;

    /// Returns the list kept under `key`, or `None` if there is none. The
    /// read may reorder the store or make it forget; it adds nothing.
    fn get(&mut self, key: &str) -> (found: Option<Vec<RadioStation>>)
        ensures
            found.deep_view() == old(self).entries().index_opt(key@),
            old(self).read_step(key@, final(self)),
            final(self).entries().submap_of(old(self).entries()),
            final(self).retentive() == old(self).retentive(),
    ;

    /// Keeps `value` under `key`, in place of what the key had. Afterwards
    /// the store holds nothing that it did not hold before but for this
    /// entry, and a retentive store does hold this entry.
    fn set(&mut self, key: String, value: Vec<RadioStation>)
        ensures
            old(self).write_step(key@, value.deep_view(), final(self)),
            final(self).entries().submap_of(old(self).entries().insert(key@, value.deep_view())),
            old(self).retentive() ==> final(self).entries().contains_pair(key@, value.deep_view()),
            final(self).retentive() == old(self).retentive(),
    ;
}

/// An in-memory cache of fixed capacity. When a new key arrives and the cache
/// is full, the key that was read or written least recently leaves.
pub struct MemoryCache {
    store: LruCache<String, Vec<RadioStation>>,
}

impl MemoryCache {
    /// The entries in order of use, the most recently used first.
    pub closed spec fn recency(&self) -> Entries {
        lru_entries(self.store)
    }

    /// The number of keys the cache may hold at a time.
    pub closed spec fn capacity(&self) -> nat {
        lru_capacity(self.store)
    }

    /// No key is held twice, and never more keys than the capacity.
    #[verifier::type_invariant]
    spec fn bounded(&self) -> bool {
        well_formed(self.recency(), self.capacity())
    }

    /// An empty cache that holds at most `capacity` keys. With capacity 0 it
    /// never holds anything.
    pub fn new(capacity: usize) -> (cache: Self)
        ensures
            cache.recency() == Seq::<Entry>::empty(),
            cache.capacity() == capacity,
    {
        let mut store = lru_unbounded();
        lru_resize(&mut store, capacity);
        MemoryCache { store }
    }
}

impl Cache for MemoryCache {
    open spec fn entries(&self) -> Map<Seq<char>, Seq<StationView>> {
        as_map(self.recency())
    }

    open spec fn retentive(&self) -> bool {
        self.capacity() > 0
    }

    /// A read moves a key that is held to the front and changes nothing
    /// else.
    open spec fn read_step(&self, key: Seq<char>, next: &Self) -> bool {
        &&& next.recency() == touched(self.recency(), key)
        &&& next.capacity() == self.capacity()
        &&& well_formed(next.recency(), next.capacity())
    }

    /// A write puts the entry at the front, in place of the key's old entry
    /// or, in a full cache, of the least recently used one.
    open spec fn write_step(&self, key: Seq<char>, value: Seq<StationView>, next: &Self) -> bool {
        &&& next.recency() == stored(self.recency(), self.capacity(), key, value)
        &&& next.capacity() == self.capacity()
        &&& well_formed(next.recency(), next.capacity())
    }

    /// Returns a copy of the list kept under `key`; the key then is the most
    /// recently used one.
    fn get(&mut self, key: &str) -> (found: Option<Vec<RadioStation>>)
        ensures
            found.deep_view() == lookup(old(self).recency(), key@),
            final(self).recency() == touched(old(self).recency(), key@),
            final(self).capacity() == old(self).capacity(),
    {
        proof {
            use_type_invariant(&*self);
            lemma_touched(self.recency(), self.capacity(), key@);
            lemma_map_agrees(self.recency(), key@);
        }
        match lru_get(&mut self.store, key) {
            Some(stations) => Some(clone_stations(stations)),
            None => None,
        }
    }

    /// Keeps `value` under `key` as the most recently used entry. A new key
    /// in a full cache pushes out the least recently used one.
    fn set(&mut self, key: String, value: Vec<RadioStation>)
        ensures
            final(self).recency() == stored(
                old(self).recency(),
                old(self).capacity(),
                key@,
                value.deep_view(),
            ),
            final(self).capacity() == old(self).capacity(),
    {
        proof {
            use_type_invariant(&*self);
            lemma_stored(self.recency(), self.capacity(), key@, value.deep_view());
        }
        let _ = lru_put(&mut self.store, key, value);
    }
}

} // verus!
