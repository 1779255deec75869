//! Capacity-bounded chunk cache with least-recently-used eviction. On a
//! miss it fills itself from the chunk data generator, so every request
//! succeeds and every stored buffer is the one the generator defines.

use vstd::prelude::*;
use crate::coords::ChunkCoord;
use crate::generator::{NoiseSampler, spec_generate, generate_with};

verus! {

/// One cached buffer with its coordinate; position in the cache's entry
/// list encodes recency.
struct CacheEntry {
    coord: ChunkCoord,
    data: Vec<u8>,
}

/// The chunk cache: a fixed-capacity store of generated tile buffers,
/// ordered from least recently used (front) to most recently used (back).
pub struct ChunkCache {
    sampler: NoiseSampler,
    entries: Vec<CacheEntry>,
    capacity: usize,
}

/// No coordinate occurs twice in `s`.
pub open spec fn distinct_coords(s: Seq<ChunkCoord>) -> bool {
    forall|i: int, j: int| 0 <= i < j < s.len() ==> s[i] != s[j]
}

/// The recency order after one access to `k` in a cache of capacity `cap`
/// whose order was `order` (front = least recently used):
/// a hit moves `k` to the back; a miss appends `k`, evicting the front
/// entry first when the cache is full.
pub open spec fn lru_after_access(order: Seq<ChunkCoord>, k: ChunkCoord, cap: int) -> Seq<
    ChunkCoord,
> {
    if order.contains(k) {
        order.remove(order.index_of(k)).push(k)
    } else if order.len() < cap {
        order.push(k)
    } else {
        order.drop_first().push(k)
    }
}

impl View for ChunkCache {
    type V = Seq<ChunkCoord>;

    /// The cache's recency order: the held coordinates from least to most
    /// recently used.
    closed spec fn view(&self) -> Seq<ChunkCoord> {
        Seq::new(self.entries@.len(), |i: int| self.entries@[i].coord)
    }
}

impl ChunkCache {
    /// The generation seed the cache fills itself with.
    pub closed spec fn seed(&self) -> u32 {
        self.sampler@
    }

    /// The fixed capacity chosen at construction.
    pub closed spec fn capacity_spec(&self) -> usize {
        self.capacity
    }

    /// Well-formedness: the capacity is positive and never exceeded, no
    /// coordinate is held twice, and every stored buffer is exactly the
    /// generator's output for its coordinate and the cache's seed.
    pub closed spec fn wf(&self) -> bool {
        &&& self.capacity >= 1
        &&& self.entries@.len() <= self.capacity
        &&& distinct_coords(self@)
        &&& forall|i: int|
            0 <= i < self.entries@.len() ==> self.entries@[i].data@ == spec_generate(
                self.sampler@,
                self.entries@[i].coord,
            )
    }

    /// Capacity bound: a well-formed cache never holds more entries than
    /// its configured capacity.
    pub proof fn lemma_capacity_bound(&self)
        requires
            self.wf(),
        ensures
            self@.len() <= self.capacity_spec(),
    {
    }

    /// A well-formed cache holds each coordinate at most once.
    pub proof fn lemma_cache_distinct(&self)
        requires
            self.wf(),
        ensures
            distinct_coords(self@),
    {
    }

    /// An empty cache for `seed`, with room for `capacity` buffers.
    pub fn new(seed: u32, capacity: usize) -> (c: ChunkCache)
        requires
            capacity >= 1,
        ensures
            c.wf(),
            c@ == Seq::<ChunkCoord>::empty(),
            c.seed() == seed,
            c.capacity_spec() == capacity,
    {
        let c = ChunkCache { sampler: NoiseSampler::new(seed), entries: Vec::new(), capacity };
        proof {
            assert(c@ =~= Seq::<ChunkCoord>::empty());
        }
        c
    }

    /// The capacity chosen at construction.
    pub fn capacity(&self) -> (n: usize)
        ensures
            n == self.capacity_spec(),
    {
        self.capacity
    }

    /// How many buffers the cache currently holds.
    pub fn len(&self) -> (n: usize)
        ensures
            n == self@.len(),
    {
        self.entries.len()
    }

    /// The generation seed.
    pub fn generation_seed(&self) -> (s: u32)
        ensures
            s == self.seed(),
    {
        self.sampler.seed_value()
    }

    /// Index of `k` in the entry list, if present.
    fn find_index(&self, k: ChunkCoord) -> (r: Option<usize>)
        ensures
            match r {
                Some(i) => i < self@.len() && self@[i as int] == k,
                None => !self@.contains(k),
            },
    {
        let n = self.entries.len();
        for i in 0..n
            invariant
                n == self.entries@.len(),
                forall|j: int| 0 <= j < i ==> self.entries@[j].coord != k,
            decreases n - i,
        {
            if self.entries[i].coord == k {
                return Some(i);
            }
        }
        proof {
            assert(forall|j: int| 0 <= j < self@.len() ==> self@[j] != k);
        }
        None
    }

    /// Membership without a recency refresh; for diagnostics only.
    pub fn contains(&self, k: ChunkCoord) -> (r: bool)
        ensures
            r == self@.contains(k),
    {
        let r = self.find_index(k);
        proof {
            if r.is_some() {
                assert(self@.contains(k)) by {
                    let i = r->Some_0 as int;
                    assert(self@[i] == k);
                }
            }
        }
        r.is_some()
    }

    /// Return the buffer for `k`. On a hit the stored buffer is returned
    /// and refreshed to most recently used; on a miss the buffer is
    /// generated, inserted as most recently used, and the least recently
    /// used entry is evicted first if the cache is full. Either way the
    /// result is exactly the generator's buffer for `k`, and the new
    /// recency order is `lru_after_access` of the old one.
    pub fn get_or_generate(&mut self, k: ChunkCoord) -> (data: Vec<u8>)
        requires
            old(self).wf(),
        ensures
            final(self).wf(),
            data@ == spec_generate(old(self).seed(), k),
            final(self)@ == lru_after_access(old(self)@, k, old(self).capacity_spec() as int),
            final(self).seed() == old(self).seed(),
            final(self).capacity_spec() == old(self).capacity_spec(),
            final(self)@.contains(k),
    {
        let ghost old_view = self@;
        let ghost cap = self.capacity as int;
        match self.find_index(k) {
            Some(i) => {
                let e = self.entries.remove(i);
                let out = copy_bytes(&e.data);
                self.entries.push(e);
                proof {
                    let j = old_view.index_of(k);
                    assert(old_view.contains(k)) by {
                        assert(old_view[i as int] == k);
                    }
                    assert(0 <= j < old_view.len() && old_view[j] == k);
                    assert(j == i as int) by {
                        if j != i as int {
                            assert(old_view[j] == old_view[i as int]);
                        }
                    }
                    assert(self@ =~= lru_after_access(old_view, k, cap));
                    lemma_lru_preserves_distinct(old_view, k, cap);
                    assert(self@[self@.len() - 1] == k);
                }
                out
            },
            None => {
                let data = generate_with(&self.sampler, k);
                let ghost was_full = self.entries.len() == self.capacity;
                if self.entries.len() == self.capacity {
                    self.entries.remove(0);
                }
                let stored = copy_bytes(&data);
                self.entries.push(CacheEntry { coord: k, data: stored });
                proof {
                    if was_full {
                        assert(self@ =~= old_view.drop_first().push(k));
                    } else {
                        assert(self@ =~= old_view.push(k));
                    }
                    assert(self@ =~= lru_after_access(old_view, k, cap));
                    lemma_lru_preserves_distinct(old_view, k, cap);
                    assert(self@[self@.len() - 1] == k);
                }
                data
            },
        }
    }
}

/// Regeneration equivalence: whatever two well-formed caches of one seed
/// held at the time — a hit, a miss, or a re-request after the entry was
/// evicted — two buffers that `get_or_generate`'s contract admits for one
/// coordinate are identical, byte for byte.
pub proof fn lemma_regeneration_equivalence(
    c1: ChunkCache,
    c2: ChunkCache,
    k: ChunkCoord,
    d1: Seq<u8>,
    d2: Seq<u8>,
)
    requires
        c1.seed() == c2.seed(),
        d1 == spec_generate(c1.seed(), k),
        d2 == spec_generate(c2.seed(), k),
    ensures
        d1 == d2,
{
}

/// A byte-for-byte copy of `src`.
fn copy_bytes(src: &Vec<u8>) -> (out: Vec<u8>)
    ensures
        out@ == src@,
{
    let n = src.len();
    let mut out: Vec<u8> = Vec::with_capacity(n);
    for i in 0..n
        invariant
            n == src@.len(),
            out@ == src@.take(i as int),
        decreases n - i,
    {
        out.push(src[i]);
        proof {
            assert(out@ =~= src@.take(i + 1));
        }
    }
    proof {
        assert(src@.take(n as int) =~= src@);
    }
    out
}

/// One access keeps the recency order free of repeated coordinates.
pub proof fn lemma_lru_preserves_distinct(order: Seq<ChunkCoord>, k: ChunkCoord, cap: int)
    requires
        distinct_coords(order),
        cap >= 1,
        order.len() <= cap,
    ensures
        distinct_coords(lru_after_access(order, k, cap)),
{
    let out = lru_after_access(order, k, cap);
    if order.contains(k) {
        let j = order.index_of(k);
        assert(0 <= j < order.len() && order[j] == k);
        let rem = order.remove(j);
        order.remove_ensures(j);
        assert forall|a: int, b: int| 0 <= a < b < out.len() implies out[a] != out[b] by {
            if b == out.len() - 1 {
                if a < j {
                    assert(out[a] == order[a]);
                } else {
                    assert(out[a] == order[a + 1]);
                }
                assert(out[b] == k && k == order[j]);
            } else {
                if a < j {
                    assert(out[a] == order[a]);
                } else {
                    assert(out[a] == order[a + 1]);
                }
                if b < j {
                    assert(out[b] == order[b]);
                } else {
                    assert(out[b] == order[b + 1]);
                }
            }
        }
    } else if order.len() < cap {
        assert forall|a: int, b: int| 0 <= a < b < out.len() implies out[a] != out[b] by {
            if b == out.len() - 1 {
                assert(out[a] == order[a] && out[b] == k);
                assert(!order.contains(k));
                assert(order[a] != k) by {
                    if order[a] == k {
                        assert(order.contains(k)) by {
                            assert(order[a] == k);
                        }
                    }
                }
            }
        }
    } else {
        assert forall|a: int, b: int| 0 <= a < b < out.len() implies out[a] != out[b] by {
            if b == out.len() - 1 {
                assert(out[a] == order[a + 1] && out[b] == k);
                if order[a + 1] == k {
                    assert(order.contains(k)) by {
                        assert(order[a + 1] == k);
                    }
                }
            } else {
                assert(out[a] == order[a + 1] && out[b] == order[b + 1]);
            }
        }
    }
}

/// When a full, well-formed cache misses, the evicted coordinate is the
/// least recently used one: the front of the order survives only as the
/// newly accessed coordinate itself, while every other entry is kept, and
/// the accessed coordinate becomes the most recently used.
pub proof fn lemma_lru_evicts_oldest(order: Seq<ChunkCoord>, k: ChunkCoord, cap: int)
    requires
        distinct_coords(order),
        order.len() == cap,
        cap >= 1,
        !order.contains(k),
    ensures
        lru_after_access(order, k, cap).len() == cap,
        !lru_after_access(order, k, cap).contains(order[0]),
        forall|i: int| 1 <= i < cap ==> lru_after_access(order, k, cap).contains(order[i]),
        lru_after_access(order, k, cap).last() == k,
{
    let out = lru_after_access(order, k, cap);
    assert(out =~= order.drop_first().push(k));
    assert(!out.contains(order[0])) by {
        if out.contains(order[0]) {
            let w = choose|w: int| 0 <= w < out.len() && out[w] == order[0];
            if w == out.len() - 1 {
                assert(order.contains(k)) by {
                    assert(order[0] == k);
                }
            } else {
                assert(out[w] == order[w + 1]);
            }
        }
    }
    assert forall|i: int| 1 <= i < cap implies out.contains(order[i]) by {
        assert(out[i - 1] == order[i]);
    }
}

} // verus!
