//! The store behind the in-memory cache: `lru::LruCache`, keyed by text and
//! holding station lists. Verus does not look inside it. What this file says
//! of it is taken on trust: two names for what a store holds and was told to
//! hold, and the contract of each method the cache calls, stated over
//! [`crate::recency`].

use lru::LruCache;
use vstd::prelude::*;
use crate::recency::{lookup, resized, stored, touched, Entries, Entry};
use crate::station::RadioStation;

verus! {

/// `lru::LruCache`, declared so that a value of it can stand in a field and
/// be handed to the functions below. Nothing inside it is visible.
#[verifier::external_type_specification]
#[verifier::external_body]
#[verifier::reject_recursive_types(K)]
#[verifier::reject_recursive_types(V)]
#[verifier::reject_recursive_types(S)]
pub struct ExLruCache<K, V, S>(LruCache<K, V, S>);

/// `lru::DefaultHasher`, the hasher of a store that was given none. It is
/// declared because the store's type names it; nothing here calls it.
#[verifier::external_type_specification]
#[verifier::external_body]
pub struct ExDefaultHasher(lru::DefaultHasher);

/// The entries of the store, most recently used first: each key's text with
/// the views of the stations kept under it.
pub uninterp spec fn lru_entries(store: LruCache<String, Vec<RadioStation>>) -> Entries;

/// The largest number of entries the store may hold.
pub uninterp spec fn lru_capacity(store: LruCache<String, Vec<RadioStation>>) -> nat;

/// `LruCache::unbounded`: a store without entries whose capacity is
/// `usize::MAX`. Unlike `LruCache::new`, it reserves no table up front.
#[verifier::external_body]
pub(crate) fn lru_unbounded() -> (store: LruCache<String, Vec<RadioStation>>)
    ensures
        lru_entries(store) == Seq::<Entry>::empty(),
        lru_capacity(store) == usize::MAX,
{
    LruCache::unbounded()
}

/// `LruCache::resize`: the capacity becomes `capacity`; where the store holds
/// more than that, the least recently used entries are dropped until it fits.
#[verifier::external_body]
pub(crate) fn lru_resize(store: &mut LruCache<String, Vec<RadioStation>>, capacity: usize)
    ensures
        lru_capacity(*final(store)) == capacity,
        lru_entries(*final(store)) == resized(lru_entries(*old(store)), capacity as nat),
{
    store.resize(capacity)
}

/// `LruCache::get`: the list kept under `key`, if there is one; that entry
/// then is the most recently used. Keys are compared by their text. The call
/// does not unwind.
#[verifier::external_body]
pub(crate) fn lru_get<'a>(store: &'a mut LruCache<String, Vec<RadioStation>>, key: &str) -> (found:
    Option<&'a Vec<RadioStation>>)
    ensures
        found.deep_view() == lookup(lru_entries(*old(store)), key@),
        lru_entries(*final(store)) == touched(lru_entries(*old(store)), key@),
        lru_capacity(*final(store)) == lru_capacity(*old(store)),
    no_unwind
{
    store.get(key)
}

/// `LruCache::put`: `value` is kept under `key` as the most recently used
/// entry, in place of what the key had; a new key in a full store pushes out
/// the least recently used entry, and a store of capacity 0 keeps nothing.
/// The result is the list that the key had before. The call does not unwind.
#[verifier::external_body]
pub(crate) fn lru_put(
    store: &mut LruCache<String, Vec<RadioStation>>,
    key: String,
    value: Vec<RadioStation>,
) -> (replaced: Option<Vec<RadioStation>>)
    ensures
        replaced.deep_view() == lookup(lru_entries(*old(store)), key@),
        lru_entries(*final(store)) == stored(
            lru_entries(*old(store)),
            lru_capacity(*old(store)),
            key@,
            value.deep_view(),
        ),
        lru_capacity(*final(store)) == lru_capacity(*old(store)),
    no_unwind
{
    store.put(key, value)
}

} // verus!
