//! The store's guarantees that relate several operations, stated and proved
//! once, over the mappings and routing function the operations' own
//! contracts are written against.

use crate::store::Store;
use crate::store::route_spec;
use vstd::prelude::*;

verus! {

/// Routing determinism: the shard a key routes to is a pure function of
/// the key and the shard count alone, and always a valid index, so
/// repeated calls to `Store::route` with the same key on the same store
/// return the same shard index.
pub proof fn lemma_route_deterministic(k1: Seq<char>, k2: Seq<char>, n: int)
    requires
        k1 == k2,
        n >= 1,
    ensures
        route_spec(k1, n) == route_spec(k2, n),
        0 <= route_spec(k1, n) < n,
{
}

/// Read-your-write: after a SET of `(k, v)` completes, a GET of `k` on the
/// same store returns `v` — unless an intervening SET stored `v2` under
/// `k`, in which case it returns `v2`. `Store::set` turns the store's
/// mapping `m` into `m.insert(k, v)`, and `Store::get` returns exactly
/// what the mapping holds.
pub proof fn lemma_read_your_write(m: Map<Seq<char>, Seq<u8>>, k: Seq<char>, v: Seq<u8>, v2: Seq<
    u8,
>)
    ensures
        m.insert(k, v).contains_key(k),
        m.insert(k, v)[k] == v,
        m.insert(k, v).insert(k, v2)[k] == v2,
{
}

/// Absence: a GET of a key that was never set returns the absent
/// indicator. A fresh store's mapping holds nothing, a SET of any other
/// key cannot make the key present, and `Store::get` answers `None` for
/// every key its store's mapping does not contain.
pub proof fn lemma_absence(m: Map<Seq<char>, Seq<u8>>, k: Seq<char>, k2: Seq<char>, v: Seq<u8>)
    requires
        k2 != k,
    ensures
        !Map::<Seq<char>, Seq<u8>>::empty().contains_key(k),
        !m.contains_key(k) ==> !m.insert(k2, v).contains_key(k),
{
}

/// Cross-key independence: keys routed to different shards live in
/// disjoint partitions. A SET leaves every shard but its key's own exactly
/// as it was — `Store::set` ensures as much — so here a SET of `k1`
/// leaves the whole shard responsible for `k2` untouched, and `k2`'s
/// visible value with it. This is why such operations never take the same
/// lock; that the locks also never block each other in time is the running
/// server's lock discipline, not statable here.
pub proof fn lemma_cross_key_independence(
    pre: Store,
    post: Store,
    k1: Seq<char>,
    k2: Seq<char>,
)
    requires
        pre.wf(),
        post.wf(),
        post.num_shards() == pre.num_shards(),
        route_spec(k1, pre.num_shards()) != route_spec(k2, pre.num_shards()),
        forall|j: int|
            0 <= j < pre.num_shards() && j != route_spec(k1, pre.num_shards())
                ==> post.shard_map(j) == pre.shard_map(j),
    ensures
        post.shard_map(route_spec(k2, pre.num_shards())) == pre.shard_map(
            route_spec(k2, pre.num_shards()),
        ),
        post@.contains_key(k2) == pre@.contains_key(k2),
        post@.contains_key(k2) ==> post@[k2] == pre@[k2],
{
    pre.lemma_positive_shard_count();
    let n = pre.num_shards();
    let j = route_spec(k2, n);
    assert(0 <= j < n);
    assert(post.shard_map(j) == pre.shard_map(j));
    pre.lemma_view_at(k2);
    post.lemma_view_at(k2);
}

/// Same-key serialization: two concurrent SETs of one key are serialized
/// by the key's shard lock, so they apply in one order or the other, and
/// the stored result is exactly one of the two written values — one whole
/// value, never a mixture of both.
pub proof fn lemma_same_key_serialization(
    m: Map<Seq<char>, Seq<u8>>,
    m2: Map<Seq<char>, Seq<u8>>,
    k: Seq<char>,
    v1: Seq<u8>,
    v2: Seq<u8>,
)
    requires
        m2 == m.insert(k, v1).insert(k, v2) || m2 == m.insert(k, v2).insert(k, v1),
    ensures
        m2.contains_key(k),
        m2[k] == v1 || m2[k] == v2,
{
}

} // verus!
