//! The response cache: request paths mapped to response bodies.
//!
//! The entries live in a `dashmap::DashMap`, reached only through the trusted
//! items of this file.
use vstd::prelude::*;
use dashmap::DashMap;

verus! {

#[verifier::external_type_specification]
#[verifier::external_body]
#[verifier::reject_recursive_types(K)]
#[verifier::reject_recursive_types(V)]
#[verifier::reject_recursive_types(S)]
pub struct ExDashMap<K, V, S>(DashMap<K, V, S>);

/// What a `DashMap` from paths to bodies holds: each key by its text, each
/// value by its bytes.
pub uninterp spec fn dashmap_entries(m: DashMap<String, Vec<u8>>) -> Map<Seq<char>, Seq<u8>>;

/// `DashMap::new`: a map with no entries.
#[verifier::external_body]
fn dashmap_new() -> (fresh: DashMap<String, Vec<u8>>)
    ensures
        dashmap_entries(fresh).dom().is_empty(),
{
    DashMap::new()
}

/// `DashMap::get` followed by a clone of the value found: `Some` of a copy of
/// the value stored under `key`, `None` when there is none.
#[verifier::external_body]
fn dashmap_get(m: &DashMap<String, Vec<u8>>, key: &str) -> (r: Option<Vec<u8>>)
    ensures
        r is Some <==> dashmap_entries(*m).dom().contains(key@),
        r matches Some(v) ==> v@ == dashmap_entries(*m)[key@],
{
    match m.get(key) {
        Some(entry) => Some(entry.value().clone()),
        None => None,
    }
}

/// `DashMap::insert`: afterwards `key` maps to `value` and every other key
/// keeps its entry. (The previous value that `insert` hands back is dropped.)
#[verifier::external_body]
fn dashmap_insert(m: &mut DashMap<String, Vec<u8>>, key: String, value: Vec<u8>)
    ensures
        dashmap_entries(*final(m)) == dashmap_entries(*old(m)).insert(key@, value@),
{
    m.insert(key, value);
}

/// The cache of response bodies, keyed by request path.
pub struct Cache {
    entries: DashMap<String, Vec<u8>>,
}

impl View for Cache {
    type V = Map<Seq<char>, Seq<u8>>;

    closed spec fn view(&self) -> Map<Seq<char>, Seq<u8>> {
        dashmap_entries(self.entries)
    }
}

/// What a lookup of `key` in a cache with entries `m` gives.
pub open spec fn lookup(m: Map<Seq<char>, Seq<u8>>, key: Seq<char>) -> Option<Seq<u8>> {
    if m.dom().contains(key) {
        Some(m[key])
    } else {
        None
    }
}

/// The bytes of an optional body.
pub open spec fn body_view(b: Option<Vec<u8>>) -> Option<Seq<u8>> {
    match b {
        Some(v) => Some(v@),
        None => None,
    }
}

/// Creates the cache, empty.
pub fn init() -> (c: Cache)
    ensures
        c@ == Map::<Seq<char>, Seq<u8>>::empty(),
{
    Cache { entries: dashmap_new() }
}

/// The body cached for `key`, if any.
pub fn get(cache: &Cache, key: &str) -> (r: Option<Vec<u8>>)
    ensures
        body_view(r) == lookup(cache@, key@),
{
    dashmap_get(&cache.entries, key)
}

/// Caches `value` under `key`, replacing what was there.
pub fn set(cache: &mut Cache, key: String, value: Vec<u8>)
    ensures
        final(cache)@ == old(cache)@.insert(key@, value@),
{
    dashmap_insert(&mut cache.entries, key, value);
}

/// A read gives back the last write to the same key, and a write leaves every
/// other key as it was.
pub proof fn lemma_get_after_set(m: Map<Seq<char>, Seq<u8>>, key: Seq<char>, value: Seq<u8>, other: Seq<char>)
    ensures
        lookup(m.insert(key, value), key) == Some(value),
        other != key ==> lookup(m.insert(key, value), other) == lookup(m, other),
{
}

/// The entries after writing each `(key, value)` of `writes` in turn into `m`.
pub open spec fn after_sets(m: Map<Seq<char>, Seq<u8>>, writes: Seq<(Seq<char>, Seq<u8>)>) -> Map<Seq<char>, Seq<u8>>
    decreases writes.len(),
{
    if writes.len() == 0 {
        m
    } else {
        after_sets(m, writes.drop_last()).insert(writes.last().0, writes.last().1)
    }
}

/// Over any history of writes, a read of a key gives the value of its last
/// write, whatever writes to other keys follow it.
pub proof fn lemma_get_after_sets(m: Map<Seq<char>, Seq<u8>>, writes: Seq<(Seq<char>, Seq<u8>)>, i: int)
    requires
        0 <= i < writes.len(),
        forall|j: int| i < j < writes.len() ==> (#[trigger] writes[j]).0 != writes[i].0,
    ensures
        lookup(after_sets(m, writes), writes[i].0) == Some(writes[i].1),
    decreases writes.len(),
{
    if i < writes.len() - 1 {
        let rest = writes.drop_last();
        assert forall|j: int| i < j < rest.len() implies (#[trigger] rest[j]).0 != rest[i].0 by {
            assert(rest[j] == writes[j]);
        }
        lemma_get_after_sets(m, rest, i);
        assert(writes[writes.len() - 1].0 != writes[i].0);
    }
}

/// Over any history of writes, a key that was never written reads as it did
/// before them (in a fresh cache: `None`).
pub proof fn lemma_unwritten_key(m: Map<Seq<char>, Seq<u8>>, writes: Seq<(Seq<char>, Seq<u8>)>, key: Seq<char>)
    requires
        forall|j: int| 0 <= j < writes.len() ==> (#[trigger] writes[j]).0 != key,
    ensures
        lookup(after_sets(m, writes), key) == lookup(m, key),
    decreases writes.len(),
{
    if writes.len() > 0 {
        let rest = writes.drop_last();
        assert forall|j: int| 0 <= j < rest.len() implies (#[trigger] rest[j]).0 != key by {
            assert(rest[j] == writes[j]);
        }
        lemma_unwritten_key(m, rest, key);
        assert(writes[writes.len() - 1].0 != key);
    }
}

} // verus!
