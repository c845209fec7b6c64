//! The recency list that backs the cache store: an `lru::LruCache` from keys
//! to (file location, content type), seen as the sequence of its slots from
//! the least recently used to the most recently used.
use vstd::prelude::*;

verus! {

/// A key with its (file location, content type).
pub type Slot = (Seq<char>, (Seq<char>, Seq<char>));

/// The cache of the `lru` crate, keyed by object key.
pub type SlotCache = lru::LruCache<String, (String, String), std::collections::hash_map::RandomState>;

#[verifier::external_type_specification]
#[verifier::external_body]
#[verifier::reject_recursive_types(K)]
#[verifier::reject_recursive_types(V)]
#[verifier::reject_recursive_types(S)]
pub struct ExLruCache<K, V, S>(lru::LruCache<K, V, S>);

/// The slots of a cache, least recently used first.
pub uninterp spec fn lru_slots(
    c: lru::LruCache<String, (String, String), std::collections::hash_map::RandomState>,
) -> Seq<Slot>;

/// Some slot of `s` holds key `k`.
pub open spec fn has_key(s: Seq<Slot>, k: Seq<char>) -> bool {
    exists|i: int| 0 <= i < s.len() && (#[trigger] s[i]).0 == k
}

/// No two slots of `s` hold the same key.
pub open spec fn keys_unique(s: Seq<Slot>) -> bool {
    forall|i: int, j: int|
        0 <= i < s.len() && 0 <= j < s.len() && i != j ==> (#[trigger] s[i]).0 != (#[trigger] s[j]).0
}

/// The position of the slot that holds `k`, where there is one.
pub open spec fn key_index(s: Seq<Slot>, k: Seq<char>) -> int {
    choose|i: int| 0 <= i < s.len() && (#[trigger] s[i]).0 == k
}

/// The (file location, content type) stored under `k`, if any.
pub open spec fn value_of(s: Seq<Slot>, k: Seq<char>) -> Option<(Seq<char>, Seq<char>)> {
    if has_key(s, k) {
        Some(s[key_index(s, k)].1)
    } else {
        None
    }
}

/// `s` after an access to `k`: its slot, if any, becomes the most recent.
pub open spec fn promote(s: Seq<Slot>, k: Seq<char>) -> Seq<Slot> {
    if has_key(s, k) {
        s.remove(key_index(s, k)).push(s[key_index(s, k)])
    } else {
        s
    }
}

/// `s` after `k` is stored with value `v`: any earlier slot of `k` leaves,
/// and the new slot is the most recent.
pub open spec fn put_slot(s: Seq<Slot>, k: Seq<char>, v: (Seq<char>, Seq<char>)) -> Seq<Slot> {
    if has_key(s, k) {
        s.remove(key_index(s, k)).push((k, v))
    } else {
        s.push((k, v))
    }
}

/// Relies on `LruCache::unbounded_with_hasher`: an empty cache whose bound is
/// `usize::MAX`, so that it never evicts by itself below that size.
#[verifier::external_body]
pub(crate) fn slots_new() -> (r: SlotCache)
    ensures
        lru_slots(r) == Seq::<Slot>::empty(),
{
    lru::LruCache::unbounded_with_hasher(std::collections::hash_map::RandomState::new())
}

/// Relies on `LruCache::len`: the number of slots.
#[verifier::external_body]
pub(crate) fn slots_len(c: &SlotCache) -> (r: usize)
    ensures
        r == lru_slots(*c).len(),
{
    c.len()
}

/// Relies on `LruCache::contains`: whether a slot holds `k`, with the order
/// left as it was.
#[verifier::external_body]
pub(crate) fn slots_contains(c: &SlotCache, k: &str) -> (r: bool)
    ensures
        r == has_key(lru_slots(*c), k@),
{
    c.contains(k)
}

/// Relies on `LruCache::get`: the value stored under `k`, whose slot becomes
/// the most recent.
#[verifier::external_body]
pub(crate) fn slots_get(c: &mut SlotCache, k: &str) -> (r: Option<(String, String)>)
    requires
        keys_unique(lru_slots(*old(c))),
    ensures
        lru_slots(*final(c)) == promote(lru_slots(*old(c)), k@),
        match r {
            Some(v) => value_of(lru_slots(*old(c)), k@) == Some(v@),
            None => value_of(lru_slots(*old(c)), k@) is None,
        },
{
    c.get(k).cloned()
}

/// Relies on `LruCache::pop_lru`: the least recently used slot leaves and is
/// handed back.
#[verifier::external_body]
pub(crate) fn slots_pop_lru(c: &mut SlotCache) -> (r: Option<(String, (String, String))>)
    ensures
        lru_slots(*old(c)).len() == 0 ==> r is None && lru_slots(*final(c)) == lru_slots(*old(c)),
        lru_slots(*old(c)).len() > 0 ==> {
            &&& r is Some
            &&& lru_slots(*old(c))[0] == r->0@
            &&& lru_slots(*final(c)) == lru_slots(*old(c)).drop_first()
        },
{
    c.pop_lru()
}

/// Relies on `LruCache::put`: the value of a present key is replaced; a new
/// key on a cache below its bound (`usize::MAX` for an unbounded one) is added
/// and nothing is evicted. Either way the slot of `k` becomes the most recent.
#[verifier::external_body]
pub(crate) fn slots_put(c: &mut SlotCache, k: String, v: (String, String))
    requires
        keys_unique(lru_slots(*old(c))),
        has_key(lru_slots(*old(c)), k@) || lru_slots(*old(c)).len() < usize::MAX,
    ensures
        lru_slots(*final(c)) == put_slot(lru_slots(*old(c)), k@, v@),
{
    c.put(k, v);
}

} // verus!
