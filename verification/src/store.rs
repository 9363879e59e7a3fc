//! The bounded least-recently-used stores a server keeps its immutable and
//! mutable values in, backed by the `lru` crate.

use std::num::NonZeroUsize;

use lru::LruCache;

use vstd::prelude::*;

use crate::mutable::{MutableItem, MutableItemModel};
use crate::node_core::{CachedQuery, CachedQueryModel};

verus! {

#[verifier::external_type_specification]
#[verifier::external_body]
#[verifier::reject_recursive_types(K)]
#[verifier::reject_recursive_types(V)]
#[verifier::reject_recursive_types(S)]
pub struct ExLruCache<K, V, S>(LruCache<K, V, S>);

#[verifier::external_type_specification]
#[verifier::external_body]
pub struct ExLruHasher(lru::DefaultHasher);

/// The store of immutable values, keyed by target.
pub type ImmutableStore = LruCache<[u8; 20], Vec<u8>>;

/// The store of mutable items, keyed by target.
pub type MutableStore = LruCache<[u8; 20], MutableItem>;

/// The cache of finished get queries, keyed by target.
pub type QueryCache = LruCache<[u8; 20], CachedQuery>;

/// What a query cache holds: target to cached query.
pub uninterp spec fn query_cache_entries(cache: LruCache<[u8; 20], CachedQuery>) -> Map<[u8; 20], CachedQueryModel>;

/// The capacity a query cache was created with.
pub uninterp spec fn query_cache_capacity(cache: LruCache<[u8; 20], CachedQuery>) -> nat;

/// What an immutable store holds: target to value.
pub uninterp spec fn immutable_entries(store: LruCache<[u8; 20], Vec<u8>>) -> Map<[u8; 20], Seq<u8>>;

/// The capacity an immutable store was created with.
pub uninterp spec fn immutable_capacity(store: LruCache<[u8; 20], Vec<u8>>) -> nat;

/// What a mutable store holds: target to item.
pub uninterp spec fn mutable_entries(store: LruCache<[u8; 20], MutableItem>) -> Map<[u8; 20], MutableItemModel>;

/// The capacity a mutable store was created with.
pub uninterp spec fn mutable_capacity(store: LruCache<[u8; 20], MutableItem>) -> nat;

/// The contents after an LRU `put` of `key` and `value` into `before`, which
/// holds at most `cap` entries: an update or insertion when the key is
/// present or there is room, else the insertion replaces some other entry
/// (the least recently used one).
pub open spec fn lru_put_result<V>(before: Map<[u8; 20], V>, after: Map<[u8; 20], V>, cap: nat, key: [u8; 20], value: V) -> bool {
    if before.dom().contains(key) || before.len() < cap {
        after == before.insert(key, value)
    } else {
        exists|evicted: [u8; 20]|
            before.dom().contains(evicted) && evicted != key && after == before.remove(evicted).insert(key, value)
    }
}

/// Calls `LruCache::new` with capacity `cap`: an empty store.
#[verifier::external_body]
pub(crate) fn immutable_store_new(cap: usize) -> (store: LruCache<[u8; 20], Vec<u8>>)
    requires
        cap > 0,
    ensures
        immutable_entries(store) =~= Map::empty(),
        immutable_capacity(store) == cap,
{
    LruCache::new(NonZeroUsize::new(cap).expect("capacity is positive"))
}

/// Calls `LruCache::get`: the value stored under `key`, if any. Only the
/// recency order changes, which is not modelled.
#[verifier::external_body]
pub(crate) fn immutable_store_get<'a>(store: &'a mut ImmutableStore, key: &[u8; 20]) -> (value: Option<&'a Vec<u8>>)
    ensures
        immutable_entries(*final(store)) == immutable_entries(*old(store)),
        immutable_capacity(*final(store)) == immutable_capacity(*old(store)),
        match value {
            Some(v) => immutable_entries(*old(store)).dom().contains(*key) && v@ == immutable_entries(*old(store))[*key],
            None => !immutable_entries(*old(store)).dom().contains(*key),
        },
{
    store.get(key)
}

/// Calls `LruCache::put`: stores `value` under `key`, evicting the least
/// recently used entry when the store is full and `key` is new; returns the
/// value `key` held before, if any.
#[verifier::external_body]
pub(crate) fn immutable_store_put(store: &mut ImmutableStore, key: [u8; 20], value: Vec<u8>) -> (previous: Option<Vec<u8>>)
    ensures
        immutable_capacity(*final(store)) == immutable_capacity(*old(store)),
        lru_put_result(immutable_entries(*old(store)), immutable_entries(*final(store)), immutable_capacity(*old(store)), key, value@),
        match previous {
            Some(p) => immutable_entries(*old(store)).dom().contains(key) && p@ == immutable_entries(*old(store))[key],
            None => !immutable_entries(*old(store)).dom().contains(key),
        },
{
    store.put(key, value)
}

/// Calls `LruCache::new` with capacity `cap`: an empty store.
#[verifier::external_body]
pub(crate) fn mutable_store_new(cap: usize) -> (store: LruCache<[u8; 20], MutableItem>)
    requires
        cap > 0,
    ensures
        mutable_entries(store) =~= Map::empty(),
        mutable_capacity(store) == cap,
{
    LruCache::new(NonZeroUsize::new(cap).expect("capacity is positive"))
}

/// Calls `LruCache::get`: the item stored under `key`, if any. Only the
/// recency order changes, which is not modelled.
#[verifier::external_body]
pub(crate) fn mutable_store_get<'a>(store: &'a mut MutableStore, key: &[u8; 20]) -> (item: Option<&'a MutableItem>)
    ensures
        mutable_entries(*final(store)) == mutable_entries(*old(store)),
        mutable_capacity(*final(store)) == mutable_capacity(*old(store)),
        match item {
            Some(i) => mutable_entries(*old(store)).dom().contains(*key) && i@ == mutable_entries(*old(store))[*key],
            None => !mutable_entries(*old(store)).dom().contains(*key),
        },
{
    store.get(key)
}

/// Calls `LruCache::put`: stores `item` under `key`, evicting the least
/// recently used entry when the store is full and `key` is new; returns the
/// item `key` held before, if any.
#[verifier::external_body]
pub(crate) fn mutable_store_put(store: &mut MutableStore, key: [u8; 20], item: MutableItem) -> (previous: Option<MutableItem>)
    ensures
        mutable_capacity(*final(store)) == mutable_capacity(*old(store)),
        lru_put_result(mutable_entries(*old(store)), mutable_entries(*final(store)), mutable_capacity(*old(store)), key, item@),
        match previous {
            Some(p) => mutable_entries(*old(store)).dom().contains(key) && p@ == mutable_entries(*old(store))[key],
            None => !mutable_entries(*old(store)).dom().contains(key),
        },
{
    store.put(key, item)
}

/// Calls `LruCache::new` with capacity `cap`: an empty query cache.
#[verifier::external_body]
pub(crate) fn query_cache_new(cap: usize) -> (cache: LruCache<[u8; 20], CachedQuery>)
    requires
        cap > 0,
    ensures
        query_cache_entries(cache) =~= Map::empty(),
        query_cache_capacity(cache) == cap,
{
    LruCache::new(NonZeroUsize::new(cap).expect("capacity is positive"))
}

/// Calls `LruCache::len`: the number of cached queries.
#[verifier::external_body]
pub(crate) fn query_cache_len(cache: &QueryCache) -> (len: usize)
    ensures
        len == query_cache_entries(*cache).len(),
{
    cache.len()
}

/// Calls `LruCache::pop_lru`: removes the least recently used entry and
/// returns it, or `None` when the cache is empty.
#[verifier::external_body]
pub(crate) fn query_cache_pop_lru(cache: &mut QueryCache) -> (popped: Option<([u8; 20], CachedQuery)>)
    ensures
        query_cache_capacity(*final(cache)) == query_cache_capacity(*old(cache)),
        match popped {
            Some((key, query)) => query_cache_entries(*old(cache)).dom().contains(key)
                && query@ == query_cache_entries(*old(cache))[key]
                && query_cache_entries(*final(cache)) == query_cache_entries(*old(cache)).remove(key),
            None => query_cache_entries(*old(cache)).dom().is_empty()
                && query_cache_entries(*final(cache)) == query_cache_entries(*old(cache)),
        },
{
    cache.pop_lru()
}

/// Calls `LruCache::put`: caches `query` under `key`, evicting the least
/// recently used entry when the cache is full and `key` is new; returns the
/// query `key` held before, if any.
#[verifier::external_body]
pub(crate) fn query_cache_put(cache: &mut QueryCache, key: [u8; 20], query: CachedQuery) -> (previous: Option<CachedQuery>)
    ensures
        query_cache_capacity(*final(cache)) == query_cache_capacity(*old(cache)),
        lru_put_result(query_cache_entries(*old(cache)), query_cache_entries(*final(cache)), query_cache_capacity(*old(cache)), key, query@),
        match previous {
            Some(p) => query_cache_entries(*old(cache)).dom().contains(key) && p@ == query_cache_entries(*old(cache))[key],
            None => !query_cache_entries(*old(cache)).dom().contains(key),
        },
{
    cache.put(key, query)
}

/// Calls `LruCache::peek`: the query cached under `key`, if any, leaving
/// the recency order as it is.
#[verifier::external_body]
pub(crate) fn query_cache_peek<'a>(cache: &'a QueryCache, key: &[u8; 20]) -> (query: Option<&'a CachedQuery>)
    ensures
        match query {
            Some(q) => query_cache_entries(*cache).dom().contains(*key) && q@ == query_cache_entries(*cache)[*key],
            None => !query_cache_entries(*cache).dom().contains(*key),
        },
{
    cache.peek(key)
}

} // verus!
