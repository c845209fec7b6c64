//! Laws of the cache store over whole sequences of operations.
//!
//! A sequence of inserts, lookups and presence checks is replayed on the
//! model of the store, the same functions that the store's operations are
//! specified by. The laws say that the store never grows past its bound, and
//! that eviction always takes the entries accessed least recently, where an
//! insert or a lookup counts as an access and a presence check does not.
use vstd::prelude::*;
use crate::lru_slots::{has_key, key_index, keys_unique, promote, put_slot, value_of, Slot};
use crate::store::{evict_count, insert_slots, lemma_put_keeps_unique};

verus! {

/// One operation on the store, as seen by its model.
pub enum StoreOp {
    Insert(Seq<char>, (Seq<char>, Seq<char>)),
    Lookup(Seq<char>),
    Contains(Seq<char>),
}

/// The store `s` with bound `cap` after operation `op`.
pub open spec fn apply_op(s: Seq<Slot>, cap: nat, op: StoreOp) -> Seq<Slot> {
    match op {
        StoreOp::Insert(k, v) => insert_slots(s, cap, k, v).0,
        StoreOp::Lookup(k) => promote(s, k),
        StoreOp::Contains(_) => s,
    }
}

/// The store with bound `cap` after the operations `ops`, from empty.
pub open spec fn replay(cap: nat, ops: Seq<StoreOp>) -> Seq<Slot>
    decreases ops.len(),
{
    if ops.len() == 0 {
        Seq::empty()
    } else {
        apply_op(replay(cap, ops.drop_last()), cap, ops.last())
    }
}

/// Whether `op` is an access to key `k`: an insert or a lookup of it.
pub open spec fn touches(op: StoreOp, k: Seq<char>) -> bool {
    match op {
        StoreOp::Insert(k2, _) => k2 == k,
        StoreOp::Lookup(k2) => k2 == k,
        StoreOp::Contains(_) => false,
    }
}

/// The position in `ops` of the last access to `k`, or -1 where there is none.
pub open spec fn last_access(ops: Seq<StoreOp>, k: Seq<char>) -> int
    decreases ops.len(),
{
    if ops.len() == 0 {
        -1
    } else if touches(ops.last(), k) {
        ops.len() - 1
    } else {
        last_access(ops.drop_last(), k)
    }
}

/// The entries of `s` are ordered by their last access in `ops`, least
/// recent first.
pub open spec fn ordered_by_access(s: Seq<Slot>, ops: Seq<StoreOp>) -> bool {
    forall|i: int, j: int|
        0 <= i < j < s.len() ==> last_access(ops, (#[trigger] s[i]).0) < last_access(
            ops,
            (#[trigger] s[j]).0,
        )
}

proof fn lemma_last_access_bound(ops: Seq<StoreOp>, k: Seq<char>)
    ensures
        last_access(ops, k) < ops.len(),
    decreases ops.len(),
{
    if ops.len() > 0 {
        lemma_last_access_bound(ops.drop_last(), k);
    }
}

/// The slot that stays after the `i`-th of `s` is removed, at position `a`.
proof fn lemma_remove_index(s: Seq<Slot>, i: int, a: int)
    requires
        0 <= i < s.len(),
        0 <= a < s.len() - 1,
    ensures
        s.remove(i)[a] == if a < i { s[a] } else { s[a + 1] },
{
}

/// Moving the slot of `k` to the end, as an access does, keeps the keys
/// unique and the order by access, once `k`'s access is the latest.
proof fn lemma_move_to_end(s: Seq<Slot>, ops: Seq<StoreOp>, k: Seq<char>, v: (Seq<char>, Seq<char>), op: StoreOp)
    requires
        keys_unique(s),
        ordered_by_access(s, ops),
        touches(op, k),
        forall|k2: Seq<char>| k2 != k ==> !touches(op, k2),
    ensures
        keys_unique(put_slot(s, k, v)),
        ordered_by_access(put_slot(s, k, v), ops.push(op)),
{
    lemma_put_keeps_unique(s, k, v);
    let ops2 = ops.push(op);
    assert(ops2.drop_last() =~= ops);
    let r = put_slot(s, k, v);
    let last = r.len() - 1;
    assert(last_access(ops2, k) == ops.len());
    assert forall|a: int, b: int| 0 <= a < b < r.len() implies last_access(
        ops2,
        (#[trigger] r[a]).0,
    ) < last_access(ops2, (#[trigger] r[b]).0) by {
        if has_key(s, k) {
            let i = key_index(s, k);
            lemma_remove_index(s, i, a);
            let a2 = if a < i { a } else { a + 1 };
            assert(r[a] == s[a2]);
            assert(a2 != i);
            assert(r[a].0 != k);
            if b < last {
                lemma_remove_index(s, i, b);
                let b2 = if b < i { b } else { b + 1 };
                assert(r[b] == s[b2]);
                assert(b2 != i);
                assert(r[b].0 != k);
            } else {
                lemma_last_access_bound(ops, r[a].0);
            }
        } else {
            assert(r[a] == s[a]);
            if s[a].0 == k {
                assert(has_key(s, k));
            }
            if b < last {
                assert(r[b] == s[b]);
                if s[b].0 == k {
                    assert(has_key(s, k));
                }
            } else {
                lemma_last_access_bound(ops, r[a].0);
            }
        }
    }
}

/// What holds of the store after any sequence of operations: unique keys,
/// entries ordered by last access, and no more entries than the bound.
proof fn lemma_replay_inv(cap: nat, ops: Seq<StoreOp>)
    requires
        cap >= 1,
    ensures
        keys_unique(replay(cap, ops)),
        ordered_by_access(replay(cap, ops), ops),
        replay(cap, ops).len() <= cap,
    decreases ops.len(),
{
    if ops.len() > 0 {
        let pre = ops.drop_last();
        let op = ops.last();
        lemma_replay_inv(cap, pre);
        let s = replay(cap, pre);
        assert(pre.push(op) =~= ops);
        match op {
            StoreOp::Insert(k, v) => {
                if has_key(s, k) {
                    lemma_move_to_end(s, pre, k, v, op);
                    lemma_put_keeps_unique(s, k, v);
                } else {
                    let n = evict_count(s.len(), cap) as int;
                    let t = s.skip(n);
                    assert(keys_unique(t));
                    assert(ordered_by_access(t, pre));
                    assert(!has_key(t, k)) by {
                        if has_key(t, k) {
                            let j = key_index(t, k);
                            assert(t[j] == s[j + n]);
                        }
                    }
                    lemma_move_to_end(t, pre, k, v, op);
                    lemma_put_keeps_unique(t, k, v);
                }
            },
            StoreOp::Lookup(k) => {
                if has_key(s, k) {
                    let i = key_index(s, k);
                    assert(promote(s, k) == put_slot(s, k, s[i].1));
                    lemma_move_to_end(s, pre, k, s[i].1, op);
                    lemma_put_keeps_unique(s, k, s[i].1);
                } else {
                    assert forall|a: int, b: int| 0 <= a < b < s.len() implies last_access(
                        ops,
                        (#[trigger] s[a]).0,
                    ) < last_access(ops, (#[trigger] s[b]).0) by {
                        if s[a].0 == k {
                            assert(has_key(s, k));
                        }
                        if s[b].0 == k {
                            assert(has_key(s, k));
                        }
                    }
                }
            },
            StoreOp::Contains(_) => {
                assert forall|a: int, b: int| 0 <= a < b < s.len() implies last_access(
                    ops,
                    (#[trigger] s[a]).0,
                ) < last_access(ops, (#[trigger] s[b]).0) by {
                    assert(last_access(ops, s[a].0) == last_access(pre, s[a].0));
                    assert(last_access(ops, s[b].0) == last_access(pre, s[b].0));
                }
            },
        }
    }
}

/// After any sequence of inserts, lookups and presence checks from an empty
/// store, the store holds no more entries than its bound.
pub proof fn lemma_capacity_kept(cap: nat, ops: Seq<StoreOp>)
    requires
        cap >= 1,
    ensures
        replay(cap, ops).len() <= cap,
{
    lemma_replay_inv(cap, ops);
}

/// Eviction takes the least recently accessed entries: when an insert after
/// any sequence of operations evicts, every evicted entry was accessed less
/// recently than every entry that the store keeps, the inserted one included.
/// Lookups and inserts count as accesses; presence checks do not.
pub proof fn lemma_evicts_least_recent(
    cap: nat,
    ops: Seq<StoreOp>,
    k: Seq<char>,
    v: (Seq<char>, Seq<char>),
)
    requires
        cap >= 1,
    ensures
        ({
            let s = replay(cap, ops);
            let (kept, evicted) = insert_slots(s, cap, k, v);
            let ops2 = ops.push(StoreOp::Insert(k, v));
            &&& kept == replay(cap, ops2)
            &&& forall|a: int, b: int|
                0 <= a < evicted.len() && 0 <= b < kept.len() ==> last_access(
                    ops2,
                    (#[trigger] evicted[a]).0,
                ) < last_access(ops2, (#[trigger] kept[b]).0)
        }),
{
    let s = replay(cap, ops);
    let op = StoreOp::Insert(k, v);
    let ops2 = ops.push(op);
    assert(ops2.drop_last() =~= ops);
    lemma_replay_inv(cap, ops);
    lemma_replay_inv(cap, ops2);
    let (kept, evicted) = insert_slots(s, cap, k, v);
    if !has_key(s, k) {
        let n = evict_count(s.len(), cap) as int;
        assert forall|a: int, b: int|
            0 <= a < evicted.len() && 0 <= b < kept.len() implies last_access(
            ops2,
            (#[trigger] evicted[a]).0,
        ) < last_access(ops2, (#[trigger] kept[b]).0) by {
            assert(evicted[a] == s[a]);
            if s[a].0 == k {
                assert(has_key(s, k));
            }
            assert(last_access(ops2, s[a].0) == last_access(ops, s[a].0));
            if b < kept.len() - 1 {
                assert(kept[b] == s[b + n]);
                if s[b + n].0 == k {
                    assert(has_key(s, k));
                }
                assert(last_access(ops2, s[b + n].0) == last_access(ops, s[b + n].0));
            } else {
                lemma_last_access_bound(ops, s[a].0);
            }
        }
    }
}

/// A key fetched once is then served from the store: a key absent from the
/// store is not found by a lookup (so the request fetches it), and once the
/// fetched entry is inserted, a lookup of the key finds that entry (so the
/// next request does not fetch again).
pub proof fn lemma_fetch_then_hit(s: Seq<Slot>, cap: nat, k: Seq<char>, v: (Seq<char>, Seq<char>))
    requires
        keys_unique(s),
        cap >= 1,
        !has_key(s, k),
    ensures
        value_of(s, k) is None,
        value_of(insert_slots(s, cap, k, v).0, k) == Some(v),
{
    let n = evict_count(s.len(), cap) as int;
    let t = s.skip(n);
    assert(!has_key(t, k)) by {
        if has_key(t, k) {
            let j = key_index(t, k);
            assert(t[j] == s[j + n]);
        }
    }
    assert(keys_unique(t));
    lemma_put_keeps_unique(t, k, v);
    let r = t.push((k, v));
    assert(r[r.len() - 1] == (k, v));
    assert(key_index(r, k) == r.len() - 1);
}

} // verus!
