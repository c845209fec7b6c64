//! The cache store: a map from object keys to cache entries, bounded in its
//! number of entries, that evicts the least recently used entry first.
//!
//! The store keeps only in-memory bookkeeping. Deleting the file of an evicted
//! entry is left to the caller, who receives the evicted entries from `insert`;
//! this keeps disk work out of whatever lock guards the store.
use vstd::prelude::*;
use crate::lru_slots::{
    has_key, key_index, keys_unique, lru_slots, promote, put_slot, slots_contains, slots_get,
    slots_len, slots_new, slots_pop_lru, slots_put, value_of, Slot, SlotCache,
};

verus! {

/// Where a cached object lives on disk, and the content type to serve it with.
pub struct CacheEntry {
    pub path: String,
    pub content_type: String,
}

impl View for CacheEntry {
    type V = (Seq<char>, Seq<char>);

    open spec fn view(&self) -> (Seq<char>, Seq<char>) {
        (self.path@, self.content_type@)
    }
}

impl CacheEntry {
    pub fn new(path: String, content_type: String) -> (r: CacheEntry)
        ensures
            r.path@ == path@,
            r.content_type@ == content_type@,
    {
        CacheEntry { path, content_type }
    }
}

/// The slots that a list of (key, entry) pairs stands for, in its order.
pub open spec fn slots_of(v: Seq<(String, CacheEntry)>) -> Seq<Slot> {
    v.map_values(|p: (String, CacheEntry)| (p.0@, p.1@))
}

/// How many entries leave a store of `len` entries and bound `cap` so that a
/// new key fits.
pub open spec fn evict_count(len: nat, cap: nat) -> nat {
    if len >= cap {
        (len - cap + 1) as nat
    } else {
        0
    }
}

/// The store `s` (bound `cap`) after `k` is inserted with value `v`, and the
/// entries evicted to make room, least recently used first. A key already
/// present has its value replaced and evicts nothing; a new key evicts the
/// least recently used entries until it fits.
pub open spec fn insert_slots(s: Seq<Slot>, cap: nat, k: Seq<char>, v: (Seq<char>, Seq<char>)) -> (
    Seq<Slot>,
    Seq<Slot>,
) {
    if has_key(s, k) {
        (put_slot(s, k, v), Seq::empty())
    } else {
        let n = evict_count(s.len(), cap) as int;
        (s.skip(n).push((k, v)), s.take(n))
    }
}

/// The store that a rebuild from `es` produces: each pair put in turn into
/// an empty store, with no bound.
pub open spec fn rebuild_slots(es: Seq<Slot>) -> Seq<Slot>
    decreases es.len(),
{
    if es.len() == 0 {
        Seq::empty()
    } else {
        put_slot(rebuild_slots(es.drop_last()), es.last().0, es.last().1)
    }
}

/// Putting a key into a store with unique keys keeps its keys unique.
pub proof fn lemma_put_keeps_unique(s: Seq<Slot>, k: Seq<char>, v: (Seq<char>, Seq<char>))
    requires
        keys_unique(s),
    ensures
        keys_unique(put_slot(s, k, v)),
        has_key(put_slot(s, k, v), k),
        put_slot(s, k, v).len() == if has_key(s, k) { s.len() } else { s.len() + 1 },
{
    let r = put_slot(s, k, v);
    let last = r.len() - 1;
    assert(r[last].0 == k);
    if has_key(s, k) {
        let i = key_index(s, k);
        let t = s.remove(i);
        assert forall|a: int, b: int|
            0 <= a < r.len() && 0 <= b < r.len() && a != b implies (#[trigger] r[a]).0 != (
            #[trigger] r[b]).0 by {
            if a < last && b < last {
                let a2 = if a < i { a } else { a + 1 };
                let b2 = if b < i { b } else { b + 1 };
                assert(t[a] == s[a2]);
                assert(t[b] == s[b2]);
            } else if a < last {
                let a2 = if a < i { a } else { a + 1 };
                assert(t[a] == s[a2]);
                assert(a2 != i);
            } else {
                let b2 = if b < i { b } else { b + 1 };
                assert(t[b] == s[b2]);
                assert(b2 != i);
            }
        }
    } else {
        assert forall|a: int, b: int|
            0 <= a < r.len() && 0 <= b < r.len() && a != b implies (#[trigger] r[a]).0 != (
            #[trigger] r[b]).0 by {
            if a < last && b < last {
                assert(r[a] == s[a]);
                assert(r[b] == s[b]);
            } else if a < last {
                assert(r[a] == s[a]);
            } else {
                assert(r[b] == s[b]);
            }
        }
    }
}

/// A rebuilt store has unique keys.
pub proof fn lemma_rebuild_unique(es: Seq<Slot>)
    ensures
        keys_unique(rebuild_slots(es)),
        rebuild_slots(es).len() <= es.len(),
    decreases es.len(),
{
    if es.len() > 0 {
        lemma_rebuild_unique(es.drop_last());
        lemma_put_keeps_unique(rebuild_slots(es.drop_last()), es.last().0, es.last().1);
    }
}

/// A bounded map from object keys to cache entries with least-recently-used
/// eviction.
pub struct CacheStore {
    slots: SlotCache,
    capacity: usize,
}

impl View for CacheStore {
    type V = Seq<Slot>;

    /// The entries, least recently used first.
    closed spec fn view(&self) -> Seq<Slot> {
        lru_slots(self.slots)
    }
}

impl CacheStore {
    /// The bound on the number of entries, fixed at construction.
    pub closed spec fn cap(&self) -> nat {
        self.capacity as nat
    }

    /// The bound is positive and no two entries share a key.
    pub open spec fn wf(&self) -> bool {
        &&& self.cap() >= 1
        &&& keys_unique(self@)
    }

    /// An empty store that holds at most `capacity` entries.
    pub fn new(capacity: usize) -> (r: CacheStore)
        requires
            capacity >= 1,
        ensures
            r.wf(),
            r@ == Seq::<Slot>::empty(),
            r.cap() == capacity,
    {
        CacheStore { slots: slots_new(), capacity }
    }

    /// The bound on the number of entries.
    pub fn capacity(&self) -> (r: usize)
        ensures
            r == self.cap(),
    {
        self.capacity
    }

    /// The number of entries.
    pub fn len(&self) -> (r: usize)
        ensures
            r == self@.len(),
    {
        slots_len(&self.slots)
    }

    /// The entry of `key`, if present; an entry found becomes the most
    /// recently used.
    pub fn lookup(&mut self, key: &str) -> (r: Option<CacheEntry>)
        requires
            old(self).wf(),
        ensures
            final(self).wf(),
            final(self).cap() == old(self).cap(),
            final(self)@ == promote(old(self)@, key@),
            match r {
                Some(e) => value_of(old(self)@, key@) == Some(e@),
                None => value_of(old(self)@, key@) is None,
            },
    {
        let ghost s = self@;
        let r = slots_get(&mut self.slots, key);
        proof {
            if has_key(s, key@) {
                let i = key_index(s, key@);
                lemma_put_keeps_unique(s, key@, s[i].1);
                assert(promote(s, key@) == put_slot(s, key@, s[i].1));
            }
        }
        match r {
            Some(v) => Some(CacheEntry { path: v.0, content_type: v.1 }),
            None => None,
        }
    }

    /// Whether `key` is present. Unlike `lookup`, this is no access: the
    /// recency order stays as it was.
    pub fn contains(&self, key: &str) -> (r: bool)
        ensures
            r == has_key(self@, key@),
    {
        slots_contains(&self.slots, key)
    }

    /// Inserts or replaces the entry of `key`. A new key that finds the store
    /// full first evicts least recently used entries until it fits. The
    /// evicted (key, entry) pairs are returned, least recently used first:
    /// their files are for the caller to delete.
    pub fn insert(&mut self, key: String, entry: CacheEntry) -> (evicted: Vec<(String, CacheEntry)>)
        requires
            old(self).wf(),
        ensures
            final(self).wf(),
            final(self).cap() == old(self).cap(),
            (final(self)@, slots_of(evicted@)) == insert_slots(
                old(self)@,
                old(self).cap(),
                key@,
                entry@,
            ),
            has_key(old(self)@, key@) ==> final(self)@.len() == old(self)@.len(),
            !has_key(old(self)@, key@) ==> final(self)@.len() <= final(self).cap(),
            value_of(final(self)@, key@) == Some(entry@),
    {
        let ghost s = self@;
        let ghost n = evict_count(s.len(), self.cap() as nat) as int;
        let mut evicted: Vec<(String, CacheEntry)> = Vec::new();
        if !slots_contains(&self.slots, key.as_str()) {
            while slots_len(&self.slots) >= self.capacity
                invariant
                    self.capacity == old(self).capacity,
                    self.capacity >= 1,
                    !has_key(s, key@),
                    s == old(self)@,
                    keys_unique(s),
                    n == evict_count(s.len(), self.cap() as nat),
                    evicted@.len() <= n,
                    self@ == s.skip(evicted@.len() as int),
                    slots_of(evicted@) == s.take(evicted@.len() as int),
                    self@.len() >= self.capacity ==> evicted@.len() < n,
                decreases self@.len(),
            {
                let popped = slots_pop_lru(&mut self.slots);
                match popped {
                    Some(p) => {
                        let ghost before = evicted@;
                        let (k, (path, content_type)) = p;
                        evicted.push((k, CacheEntry { path, content_type }));
                        assert(slots_of(evicted@) =~= s.take(evicted@.len() as int)) by {
                            assert(evicted@ == before.push(evicted@[before.len() as int]));
                            assert(s.skip(before.len() as int)[0] == s[before.len() as int]);
                        }
                        assert(self@ =~= s.skip(evicted@.len() as int));
                    },
                    None => {},
                }
            }
            assert(evicted@.len() == n);
        }
        proof {
            let t = self@;
            if !has_key(s, key@) {
                assert forall|a: int, b: int|
                    0 <= a < t.len() && 0 <= b < t.len() && a != b implies (#[trigger] t[a]).0
                    != (#[trigger] t[b]).0 by {
                    assert(t[a] == s[a + n]);
                    assert(t[b] == s[b + n]);
                }
                assert(!has_key(t, key@)) by {
                    if has_key(t, key@) {
                        let j = key_index(t, key@);
                        assert(t[j] == s[j + n]);
                    }
                }
            }
        }
        let ghost mid = self@;
        slots_put(&mut self.slots, key, (entry.path, entry.content_type));
        proof {
            lemma_put_keeps_unique(mid, key@, entry@);
            let t = self@;
            assert(t[t.len() - 1] == (key@, entry@));
            let j = key_index(t, key@);
            assert(j == t.len() - 1);
        }
        evicted
    }

    /// Replaces the whole content of the store by the given (key, entry)
    /// pairs, put in order, as at start-up. The bound is not applied here: the
    /// store may hold more entries than its bound until the next `insert`. A
    /// key given twice keeps its last entry, at the position of that last one.
    pub fn rebuild_all(&mut self, entries: Vec<(String, CacheEntry)>)
        requires
            old(self).wf(),
        ensures
            final(self).wf(),
            final(self).cap() == old(self).cap(),
            final(self)@ == rebuild_slots(slots_of(entries@)),
    {
        let ghost es = slots_of(entries@);
        self.slots = slots_new();
        let mut i: usize = 0;
        while i < entries.len()
            invariant
                self.capacity == old(self).capacity,
                self.capacity >= 1,
                es == slots_of(entries@),
                i <= entries@.len(),
                self@ == rebuild_slots(es.take(i as int)),
            decreases entries@.len() - i,
        {
            proof {
                lemma_rebuild_unique(es.take(i as int));
                assert(es.take(i as int + 1).drop_last() =~= es.take(i as int));
            }
            let (k, e) = &entries[i];
            slots_put(&mut self.slots, k.clone(), (e.path.clone(), e.content_type.clone()));
            i = i + 1;
        }
        proof {
            assert(es.take(i as int) =~= es);
            lemma_rebuild_unique(es);
        }
    }
}

} // verus!
