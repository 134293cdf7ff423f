//! The least-recently-used cache of the `lru` crate, as the fragment log
//! uses it: keyed by the bytes of a fragment id, holding fragment logs.
//!
//! Verus does not look inside the cache. What it holds is named by
//! [`cache_entries`], most recently used entry first, and the limit it was
//! made with by [`cache_capacity`]. The functions at the end of this file make
//! the calls into the crate; their contracts are taken from the crate's source
//! and are not proved.
//!
//! The cache keeps its entries in a hash map under their keys and in a list
//! in the order of their use. A key has one entry at most, so that
//! [`index_of`] names the one entry of a key that has any.

use super::log::FragmentLog;
use lru::LruCache;
use vstd::prelude::*;

verus! {

/// `lru::LruCache`, which Verus takes as it is given, without looking inside.
#[verifier::external_type_specification]
#[verifier::external_body]
#[verifier::reject_recursive_types(K)]
#[verifier::reject_recursive_types(V)]
#[verifier::reject_recursive_types(S)]
pub struct ExLruCache<K, V, S>(LruCache<K, V, S>);

/// `lru::DefaultHasher`, the hasher of a cache made by `LruCache::new`.
/// Nothing is said of it.
#[verifier::external_type_specification]
#[verifier::external_body]
pub struct ExDefaultHasher(lru::DefaultHasher);

/// The entries of a cache as pairs of key and value, in the order of its
/// list of use: the entry used last stands at index 0, the one that is next
/// to be evicted stands last.
pub uninterp spec fn cache_entries(cache: LruCache<[u8; 32], FragmentLog>) -> Seq<
    ([u8; 32], FragmentLog),
>;

/// The greatest number of entries that a cache was made to hold.
pub uninterp spec fn cache_capacity(cache: LruCache<[u8; 32], FragmentLog>) -> nat;

/// Whether some entry has the given key.
pub open spec fn has_key(entries: Seq<([u8; 32], FragmentLog)>, key: [u8; 32]) -> bool {
    exists|i: int| 0 <= i < entries.len() && (#[trigger] entries[i]).0 == key
}

/// The index of an entry with the given key, where there is one.
pub open spec fn index_of(entries: Seq<([u8; 32], FragmentLog)>, key: [u8; 32]) -> int {
    choose|i: int| 0 <= i < entries.len() && (#[trigger] entries[i]).0 == key
}

/// The entries after the one with the given key was used and left holding
/// `value`: it stands first, the others keep their order.
pub open spec fn moved_to_front(
    entries: Seq<([u8; 32], FragmentLog)>,
    key: [u8; 32],
    value: FragmentLog,
) -> Seq<([u8; 32], FragmentLog)> {
    seq![(key, value)] + entries.remove(index_of(entries, key))
}

/// The entries after a key that was absent came in: it stands first, and
/// where the cache was full the entry that stood last has left.
pub open spec fn pushed_front(
    entries: Seq<([u8; 32], FragmentLog)>,
    capacity: nat,
    key: [u8; 32],
    value: FragmentLog,
) -> Seq<([u8; 32], FragmentLog)> {
    if capacity == 0 {
        entries
    } else if entries.len() == capacity {
        seq![(key, value)] + entries.drop_last()
    } else {
        seq![(key, value)] + entries
    }
}

/// Calls `LruCache::new`. The new cache holds nothing and keeps `capacity` as
/// its limit.
#[verifier::external_body]
pub(crate) fn cache_new(capacity: usize) -> (cache: LruCache<[u8; 32], FragmentLog>)
    ensures
        cache_entries(cache) == Seq::<([u8; 32], FragmentLog)>::empty(),
        cache_capacity(cache) == capacity,
{
    LruCache::new(capacity)
}

/// Calls `LruCache::contains`: whether the key has an entry. The list of use
/// is not touched.
#[verifier::external_body]
pub(crate) fn cache_contains(cache: &LruCache<[u8; 32], FragmentLog>, key: &[u8; 32]) -> (found:
    bool)
    ensures
        found == has_key(cache_entries(*cache), *key),
{
    cache.contains(key)
}

/// Calls `LruCache::peek`: the value of the key's entry, if there is one. The
/// list of use is not touched.
#[verifier::external_body]
pub(crate) fn cache_peek<'a>(cache: &'a LruCache<[u8; 32], FragmentLog>, key: &[u8; 32]) -> (value:
    Option<&'a FragmentLog>)
    ensures
        value.is_some() == has_key(cache_entries(*cache), *key),
        value.is_some() ==> *value.unwrap() == cache_entries(*cache)[index_of(
            cache_entries(*cache),
            *key,
        )].1,
{
    cache.peek(key)
}

/// Calls `LruCache::get`: the value of the key's entry, if there is one, and
/// that entry moves to the front of the list of use.
#[verifier::external_body]
pub(crate) fn cache_get<'a>(cache: &'a mut LruCache<[u8; 32], FragmentLog>, key: &[u8; 32]) -> (value:
    Option<&'a FragmentLog>)
    ensures
        cache_capacity(*final(cache)) == cache_capacity(*old(cache)),
        value.is_some() == has_key(cache_entries(*old(cache)), *key),
        value.is_some() ==> *value.unwrap() == cache_entries(*old(cache))[index_of(
            cache_entries(*old(cache)),
            *key,
        )].1,
        value.is_some() ==> cache_entries(*final(cache)) == moved_to_front(
            cache_entries(*old(cache)),
            *key,
            *value.unwrap(),
        ),
        value.is_none() ==> cache_entries(*final(cache)) == cache_entries(*old(cache)),
{
    cache.get(key)
}

/// Calls `LruCache::get_mut`: a mutable reference to the value of the key's
/// entry, if there is one. That entry moves to the front of the list of use,
/// and what the caller leaves behind the reference is its value from then on.
#[verifier::external_body]
pub(crate) fn cache_get_mut<'a>(
    cache: &'a mut LruCache<[u8; 32], FragmentLog>,
    key: &[u8; 32],
) -> (value: Option<&'a mut FragmentLog>)
    ensures
        cache_capacity(*final(cache)) == cache_capacity(*old(cache)),
        value.is_some() == has_key(cache_entries(*old(cache)), *key),
        value.is_some() ==> *value.unwrap() == cache_entries(*old(cache))[index_of(
            cache_entries(*old(cache)),
            *key,
        )].1,
        value.is_some() ==> cache_entries(*final(cache)) == moved_to_front(
            cache_entries(*old(cache)),
            *key,
            *final(value.unwrap()),
        ),
        value.is_none() ==> cache_entries(*final(cache)) == cache_entries(*old(cache)),
{
    cache.get_mut(key)
}

/// Calls `LruCache::put`. Where the key has an entry, that entry takes the new
/// value and moves to the front of the list of use, and the value it held is
/// returned. Where it has none, the pair comes in at the front, the entry at
/// the back leaves first if the cache is full, and nothing is returned.
#[verifier::external_body]
pub(crate) fn cache_put(
    cache: &mut LruCache<[u8; 32], FragmentLog>,
    key: [u8; 32],
    value: FragmentLog,
) -> (replaced: Option<FragmentLog>)
    ensures
        cache_capacity(*final(cache)) == cache_capacity(*old(cache)),
        replaced.is_some() == has_key(cache_entries(*old(cache)), key),
        replaced.is_some() ==> replaced.unwrap() == cache_entries(*old(cache))[index_of(
            cache_entries(*old(cache)),
            key,
        )].1,
        cache_entries(*final(cache)) == if has_key(cache_entries(*old(cache)), key) {
            moved_to_front(cache_entries(*old(cache)), key, value)
        } else {
            pushed_front(cache_entries(*old(cache)), cache_capacity(*old(cache)), key, value)
        },
{
    cache.put(key, value)
}

/// Calls `LruCache::iter` and collects the values: one reference for each
/// entry, in the order of the list of use.
#[verifier::external_body]
pub(crate) fn cache_values<'a>(cache: &'a LruCache<[u8; 32], FragmentLog>) -> (values: Vec<
    &'a FragmentLog,
>)
    ensures
        values@.len() == cache_entries(*cache).len(),
        forall|i: int|
            0 <= i < values@.len() ==> *(#[trigger] values@[i]) == cache_entries(*cache)[i].1,
{
    cache.iter().map(|(_, value)| value).collect()
}

} // verus!
