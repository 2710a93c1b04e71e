//! The sharded store: a fixed number of independently usable partitions,
//! each holding a mapping from text keys to byte-string values, with a
//! deterministic routing function that sends every key to exactly one shard.

use vstd::prelude::*;
use vstd::utf8::encode_utf8;
use vstd::wrapping::u64_specs;

verus! {

/// Offset basis of the 64-bit FNV-1a hash.
pub const FNV_OFFSET_BASIS: u64 = 0xcbf2_9ce4_8422_2325;

/// Prime of the 64-bit FNV-1a hash.
pub const FNV_PRIME: u64 = 0x0000_0100_0000_01b3;

/// The 64-bit FNV-1a hash of a byte sequence: starting from the offset
/// basis, each byte is folded in by xor followed by a wrapping multiply
/// with the FNV prime.
pub open spec fn fnv1a_spec(bytes: Seq<u8>) -> u64
    decreases bytes.len(),
{
    if bytes.len() == 0 {
        FNV_OFFSET_BASIS
    } else {
        u64_specs::wrapping_mul(fnv1a_spec(bytes.drop_last()) ^ (bytes.last() as u64), FNV_PRIME)
    }
}

/// The shard index a key is routed to: the FNV-1a hash of the key's UTF-8
/// bytes, reduced modulo the shard count. A pure function of the key and
/// the shard count alone.
pub open spec fn route_spec(key: Seq<char>, shard_count: int) -> int
    recommends
        shard_count >= 1,
{
    fnv1a_spec(encode_utf8(key)) as int % shard_count
}

/// Computes the 64-bit FNV-1a hash of the key's bytes, the quantity the
/// routing function reduces modulo the shard count.
pub fn hash_key(key: &String) -> (r: u64)
    ensures
        r == fnv1a_spec(encode_utf8(key@)),
{
    let bytes: &[u8] = key.as_str().as_bytes();
    let mut h: u64 = FNV_OFFSET_BASIS;
    let mut i: usize = 0;
    while i < bytes.len()
        invariant
            0 <= i <= bytes@.len(),
            bytes@ == encode_utf8(key@),
            h == fnv1a_spec(bytes@.take(i as int)),
        decreases bytes@.len() - i,
    {
        proof {
            assert(bytes@.take(i + 1).drop_last() =~= bytes@.take(i as int));
            assert(bytes@.take(i + 1).last() == bytes@[i as int]);
        }
        h = (h ^ (bytes[i] as u64)).wrapping_mul(FNV_PRIME);
        i = i + 1;
    }
    proof {
        assert(bytes@.take(bytes@.len() as int) =~= bytes@);
    }
    h
}

/// The index of the shard a key is routed to in a store of `num_shards`
/// shards: the FNV-1a hash of the key's bytes modulo the shard count. A
/// pure function of its two arguments, so the same key always lands on the
/// same shard.
pub fn route_key(key: &String, num_shards: usize) -> (r: usize)
    requires
        num_shards >= 1,
    ensures
        r == route_spec(key@, num_shards as int),
{
    let h = hash_key(key);
    (h % (num_shards as u64)) as usize
}

/// One stored pair: a text key and the byte-string value held under it.
struct Entry {
    key: String,
    value: Vec<u8>,
}

/// The mapping a sequence of entries represents; a later entry for the same
/// key overrides an earlier one.
spec fn entries_map(s: Seq<Entry>) -> Map<Seq<char>, Seq<u8>>
    decreases s.len(),
{
    if s.len() == 0 {
        Map::empty()
    } else {
        entries_map(s.drop_last()).insert(s.last().key@, s.last().value@)
    }
}

/// No two entries hold the same key.
spec fn unique_keys(s: Seq<Entry>) -> bool {
    forall|i: int, j: int| 0 <= i < j < s.len() ==> s[i].key@ != s[j].key@
}

/// A key is in the represented mapping exactly when some entry holds it.
proof fn lemma_entries_map_contains(s: Seq<Entry>, k: Seq<char>)
    ensures
        entries_map(s).contains_key(k) <==> (exists|i: int|
            0 <= i < s.len() && s[i].key@ == k),
    decreases s.len(),
{
    if s.len() > 0 {
        lemma_entries_map_contains(s.drop_last(), k);
        if entries_map(s).contains_key(k) && k != s.last().key@ {
            let i = choose|i: int| 0 <= i < s.drop_last().len() && s.drop_last()[i].key@ == k;
            assert(s[i].key@ == k);
        }
        if exists|i: int| 0 <= i < s.len() && s[i].key@ == k {
            let i = choose|i: int| 0 <= i < s.len() && s[i].key@ == k;
            if i < s.len() - 1 {
                assert(s.drop_last()[i].key@ == k);
            }
        }
    }
}

/// An entry whose key no later entry repeats gives that key's value in the
/// represented mapping.
proof fn lemma_entries_map_at(s: Seq<Entry>, i: int)
    requires
        0 <= i < s.len(),
        forall|j: int| i < j < s.len() ==> s[j].key@ != s[i].key@,
    ensures
        entries_map(s).contains_key(s[i].key@),
        entries_map(s)[s[i].key@] == s[i].value@,
    decreases s.len(),
{
    if i < s.len() - 1 {
        assert(s.drop_last()[i] == s[i]);
        lemma_entries_map_at(s.drop_last(), i);
    }
}

/// Replacing the one entry that holds a key updates the represented mapping
/// at that key alone.
proof fn lemma_entries_map_update(s: Seq<Entry>, i: int, e: Entry)
    requires
        0 <= i < s.len(),
        unique_keys(s),
        e.key@ == s[i].key@,
    ensures
        entries_map(s.update(i, e)) == entries_map(s).insert(e.key@, e.value@),
    decreases s.len(),
{
    let t = s.update(i, e);
    if i == s.len() - 1 {
        assert(t.drop_last() =~= s.drop_last());
        assert(t.last() == e);
        assert(entries_map(t) =~= entries_map(s).insert(e.key@, e.value@));
    } else {
        assert(t.drop_last() =~= s.drop_last().update(i, e));
        assert(s.drop_last()[i] == s[i]);
        lemma_entries_map_update(s.drop_last(), i, e);
        assert(t.last() == s.last());
        assert(s.last().key@ != e.key@);
        assert(entries_map(t) =~= entries_map(s).insert(e.key@, e.value@));
    }
}

/// Appending an entry inserts its pair into the represented mapping.
proof fn lemma_entries_map_push(s: Seq<Entry>, e: Entry)
    ensures
        entries_map(s.push(e)) == entries_map(s).insert(e.key@, e.value@),
{
    assert(s.push(e).drop_last() =~= s);
    assert(s.push(e).last() == e);
}

/// One independently usable partition of the store: a mapping from text
/// keys to byte-string values. In the running server every shard sits
/// behind its own lock, so operations on different shards never contend.
pub struct Shard {
    entries: Vec<Entry>,
}

impl View for Shard {
    type V = Map<Seq<char>, Seq<u8>>;

    closed spec fn view(&self) -> Map<Seq<char>, Seq<u8>> {
        entries_map(self.entries@)
    }
}

impl Shard {
    /// Each key is held by at most one entry.
    pub closed spec fn wf(&self) -> bool {
        unique_keys(self.entries@)
    }

    /// An empty shard.
    pub fn new() -> (r: Shard)
        ensures
            r.wf(),
            r@ == Map::<Seq<char>, Seq<u8>>::empty(),
    {
        Shard { entries: Vec::new() }
    }

    /// The index of the entry holding the key, if any.
    fn find(&self, key: &String) -> (r: Option<usize>)
        ensures
            match r {
                Some(i) => 0 <= i < self.entries@.len() && self.entries@[i as int].key@ == key@,
                None => forall|j: int|
                    0 <= j < self.entries@.len() ==> self.entries@[j].key@ != key@,
            },
    {
        let mut i: usize = 0;
        while i < self.entries.len()
            invariant
                0 <= i <= self.entries@.len(),
                forall|j: int| 0 <= j < i ==> self.entries@[j].key@ != key@,
            decreases self.entries@.len() - i,
        {
            if self.entries[i].key == *key {
                return Some(i);
            }
            i = i + 1;
        }
        None
    }

    /// Returns a copy of the value stored under the key, or `None` if the
    /// key is absent. Never mutates the shard.
    pub fn get(&self, key: &String) -> (r: Option<Vec<u8>>)
        requires
            self.wf(),
        ensures
            self@.contains_key(key@) ==> (r matches Some(v) && v@ == self@[key@]),
            !self@.contains_key(key@) ==> r is None,
    {
        proof {
            lemma_entries_map_contains(self.entries@, key@);
        }
        match self.find(key) {
            Some(i) => {
                proof {
                    lemma_entries_map_at(self.entries@, i as int);
                }
                Some(vstd::slice::slice_to_vec(self.entries[i].value.as_slice()))
            },
            None => None,
        }
    }

    /// Inserts the pair, overwriting any value already stored under the key.
    pub fn set(&mut self, key: String, value: Vec<u8>)
        requires
            old(self).wf(),
        ensures
            final(self).wf(),
            final(self)@ == old(self)@.insert(key@, value@),
    {
        match self.find(&key) {
            Some(i) => {
                let ghost s = self.entries@;
                let e = &mut self.entries[i];
                e.value = value;
                proof {
                    lemma_entries_map_update(s, i as int, self.entries@[i as int]);
                    assert(unique_keys(self.entries@));
                }
            },
            None => {
                let ghost s = self.entries@;
                self.entries.push(Entry { key, value });
                proof {
                    lemma_entries_map_push(s, self.entries@.last());
                    assert forall|i: int, j: int|
                        0 <= i < j < self.entries@.len() implies self.entries@[i].key@
                        != self.entries@[j].key@ by {
                        if j < self.entries@.len() - 1 {
                            assert(s[i].key@ != s[j].key@);
                        }
                    }
                }
            },
        }
    }
}

/// The whole store: a fixed, positive number of shards, every key held by
/// the shard its routing selects. Observably it is one mapping from keys
/// to values; the partitioning only decides which lock a running server
/// takes for an operation.
pub struct Store {
    shards: Vec<Shard>,
}

impl View for Store {
    type V = Map<Seq<char>, Seq<u8>>;

    closed spec fn view(&self) -> Map<Seq<char>, Seq<u8>> {
        Map::new(
            |k: Seq<char>| self.shards@[route_spec(k, self.shards@.len() as int)]@.contains_key(k),
            |k: Seq<char>| self.shards@[route_spec(k, self.shards@.len() as int)]@[k],
        )
    }
}

impl Store {
    /// How many shards the store was created with.
    pub closed spec fn num_shards(&self) -> int {
        self.shards@.len() as int
    }

    /// The mapping one shard holds.
    pub closed spec fn shard_map(&self, i: int) -> Map<Seq<char>, Seq<u8>> {
        self.shards@[i]@
    }

    /// There is at least one shard, every shard keeps its keys unique, and
    /// every key sits in exactly the shard its routing selects.
    pub closed spec fn wf(&self) -> bool {
        &&& self.shards@.len() >= 1
        &&& forall|i: int| 0 <= i < self.shards@.len() ==> (#[trigger] self.shards@[i]).wf()
        &&& forall|i: int, k: Seq<char>|
            0 <= i < self.shards@.len() && (#[trigger] self.shards@[i]@.contains_key(k))
                ==> route_spec(k, self.shards@.len() as int) == i
    }

    /// A well-formed store has at least one shard.
    pub proof fn lemma_positive_shard_count(&self)
        requires
            self.wf(),
        ensures
            self.num_shards() >= 1,
    {
    }

    /// The store's mapping and one shard's agree on every key that shard is
    /// responsible for.
    pub proof fn lemma_view_at(&self, k: Seq<char>)
        requires
            self.wf(),
        ensures
            self@.contains_key(k) == self.shard_map(route_spec(k, self.num_shards())).contains_key(
                k,
            ),
            self@.contains_key(k) ==> self@[k] == self.shard_map(
                route_spec(k, self.num_shards()),
            )[k],
    {
    }

    /// The number of shards, fixed when the store was created.
    pub fn shard_count(&self) -> (r: usize)
        ensures
            r == self.num_shards(),
    {
        self.shards.len()
    }

    /// The index of the shard the key is routed to: the FNV-1a hash of the
    /// key's bytes modulo the shard count. A pure function of the key and
    /// the shard count, so repeated calls with the same key always select
    /// the same shard.
    pub fn route(&self, key: &String) -> (r: usize)
        requires
            self.wf(),
        ensures
            r == route_spec(key@, self.num_shards()),
    {
        route_key(key, self.shards.len())
    }

    /// Returns a copy of the value stored under the key, or `None` if the
    /// key is absent. Reads only the shard the key is routed to and never
    /// mutates anything.
    pub fn get(&self, key: &String) -> (r: Option<Vec<u8>>)
        requires
            self.wf(),
        ensures
            self@.contains_key(key@) ==> (r matches Some(v) && v@ == self@[key@]),
            !self@.contains_key(key@) ==> r is None,
    {
        proof {
            self.lemma_view_at(key@);
        }
        let i = self.route(key);
        self.shards[i].get(key)
    }

    /// Inserts the pair, overwriting any value already stored under the
    /// key. Touches only the shard the key is routed to: every other shard
    /// is left exactly as it was.
    pub fn set(&mut self, key: String, value: Vec<u8>)
        requires
            old(self).wf(),
        ensures
            final(self).wf(),
            final(self)@ == old(self)@.insert(key@, value@),
            final(self).num_shards() == old(self).num_shards(),
            final(self).shard_map(route_spec(key@, old(self).num_shards())) == old(self).shard_map(
                route_spec(key@, old(self).num_shards()),
            ).insert(key@, value@),
            forall|j: int|
                0 <= j < old(self).num_shards() && j != route_spec(key@, old(self).num_shards())
                    ==> final(self).shard_map(j) == old(self).shard_map(j),
    {
        let ghost pre = *self;
        let i = self.route(&key);
        let ghost k = key@;
        let shard = &mut self.shards[i];
        shard.set(key, value);
        proof {
            let n = pre.num_shards();
            assert forall|j: int, k2: Seq<char>|
                0 <= j < self.shards@.len() && (#[trigger] self.shards@[j]@.contains_key(k2))
                    implies route_spec(k2, self.shards@.len() as int) == j by {
                if j == i as int && k2 != k {
                    assert(pre.shards@[j]@.contains_key(k2));
                }
            }
            assert(self@ =~= pre@.insert(k, value@));
        }
    }

    /// Takes the store apart into its shards, in routing order, so that a
    /// server can put each shard behind its own lock. The shard at index
    /// `i` holds exactly the keys routed to `i`.
    pub fn into_shards(self) -> (r: Vec<Shard>)
        requires
            self.wf(),
        ensures
            r@.len() == self.num_shards(),
            forall|i: int| 0 <= i < r@.len() ==> (#[trigger] r@[i])@ == self.shard_map(i),
            forall|i: int| 0 <= i < r@.len() ==> (#[trigger] r@[i]).wf(),
    {
        self.shards
    }
}

/// Creates a store of `num_shards` empty, independently usable shards.
/// The shard count is fixed for the store's lifetime; a count of one
/// degrades to a single partition.
pub fn new_shard_db(num_shards: usize) -> (r: Store)
    requires
        num_shards >= 1,
    ensures
        r.wf(),
        r.num_shards() == num_shards,
        r@ == Map::<Seq<char>, Seq<u8>>::empty(),
{
    let mut shards: Vec<Shard> = Vec::new();
    let mut i: usize = 0;
    while i < num_shards
        invariant
            0 <= i <= num_shards,
            shards@.len() == i,
            forall|j: int| 0 <= j < i ==> (#[trigger] shards@[j]).wf(),
            forall|j: int|
                0 <= j < i ==> (#[trigger] shards@[j])@ == Map::<Seq<char>, Seq<u8>>::empty(),
        decreases num_shards - i,
    {
        shards.push(Shard::new());
        i = i + 1;
    }
    let r = Store { shards };
    proof {
        assert(r@ =~= Map::<Seq<char>, Seq<u8>>::empty());
    }
    r
}

} // verus!
