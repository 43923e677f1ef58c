//! Chunk store: the authoritative mapping from chunk position to compressed
//! chunk, and the per-worker decompression cache (`VCache`) with its
//! dirty-counter coherence contract.
//!
//! Each worker owns one `VCache` and passes it by reference into store reads;
//! caches are never shared between workers. A cached decompressed chunk may
//! be stale; staleness is detected by comparing its dirty counter against the
//! authoritative chunk's, and the cache is refilled on mismatch, so a read
//! never returns content whose counter differs from the authoritative one.
use crate::chunk::UncompressedChunk;
use crate::chunk::VChunk;
use crate::chunk::VoxelDatum;
use crate::geometry::blockidx_from_blockpos;
use crate::geometry::blockidx_spec;
use crate::geometry::chunkpos_from_blockpos;
use crate::geometry::chunkpos_spec;
use crate::geometry::BlockPosition;
use crate::geometry::ChunkPosition;
use crate::registry::VoxelRegistry;
use crate::CHUNK_DIM3;
use lru::LruCache;
use std::sync::Arc;
use vstd::prelude::*;

verus! {

/// Capacity of one worker's decompression cache, in chunks.
pub const VCACHE_SIZE: usize = 64;

/// Why opening a world failed. The persistence layer is an external
/// collaborator; its failure is carried as a message.
#[derive(Debug)]
pub enum WorldOpenError {
    StorageError(String),
}

#[verifier::external_type_specification]
#[verifier::external_body]
#[verifier::reject_recursive_types(K)]
#[verifier::reject_recursive_types(V)]
#[verifier::reject_recursive_types(S)]
pub struct ExLruCache<K, V, S>(LruCache<K, V, S>);

#[verifier::external_type_specification]
#[verifier::external_body]
pub struct ExLruDefaultHasher(lru::DefaultHasher);

/// What a decompression cache currently holds, keyed by chunk position.
pub uninterp spec fn lru_contents(c: LruCache<ChunkPosition, Arc<UncompressedChunk>>) -> Map<
    ChunkPosition,
    UncompressedChunk,
>;

/// Relies on lru::LruCache::new: a freshly created cache of the given
/// capacity holds nothing.
#[verifier::external_body]
fn lru_new(cap: usize) -> (c: LruCache<ChunkPosition, Arc<UncompressedChunk>>)
    requires
        cap >= 1,
    ensures
        forall|p: ChunkPosition| !lru_contents(c).dom().contains(p),
{
    LruCache::new(std::num::NonZeroUsize::new(cap).unwrap())
}

/// Relies on lru::LruCache::get: returns the entry stored under the key, if
/// any; it only adjusts recency and leaves the held entries unchanged.
#[verifier::external_body]
fn lru_get(c: &mut LruCache<ChunkPosition, Arc<UncompressedChunk>>, k: &ChunkPosition) -> (r:
    Option<Arc<UncompressedChunk>>)
    ensures
        lru_contents(*final(c)) == lru_contents(*old(c)),
        match r {
            Some(v) => lru_contents(*old(c)).dom().contains(*k) && v == lru_contents(*old(c))[*k],
            None => !lru_contents(*old(c)).dom().contains(*k),
        },
{
    c.get(k).cloned()
}

/// Relies on lru::LruCache::put: afterwards the key maps to the value; every
/// other entry that survives keeps its old value (the least recently used
/// entry may have been evicted to stay within capacity, which is always at
/// least one); returns the value previously stored under the key, if any.
#[verifier::external_body]
fn lru_put(
    c: &mut LruCache<ChunkPosition, Arc<UncompressedChunk>>,
    k: ChunkPosition,
    v: Arc<UncompressedChunk>,
) -> (r: Option<Arc<UncompressedChunk>>)
    ensures
        lru_contents(*final(c)).dom().contains(k),
        lru_contents(*final(c))[k] == v,
        forall|k2: ChunkPosition|
            k2 != k && #[trigger] lru_contents(*final(c)).dom().contains(k2) ==> lru_contents(
                *old(c),
            ).dom().contains(k2) && lru_contents(*final(c))[k2] == lru_contents(*old(c))[k2],
        match r {
            Some(prev) => lru_contents(*old(c)).dom().contains(k) && prev == lru_contents(
                *old(c),
            )[k],
            None => !lru_contents(*old(c)).dom().contains(k),
        },
{
    c.put(k, v)
}

/// A cached decompressed chunk at key `p` is coherent with a store when it
/// sits at its own position under a chunk the store knows, never carries a
/// dirty counter newer than the authoritative one, and matches the
/// authoritative content whenever the counters agree.
pub open spec fn entry_coherent(c: UncompressedChunk, p: ChunkPosition, store: WVoxels) -> bool {
    &&& c.wf()
    &&& c.position == p
    &&& store.spec_has_chunk(p)
    &&& c.dirty <= store.spec_chunk_at(p).dirty
    &&& (c.dirty == store.spec_chunk_at(p).dirty ==> c.ids() == store.spec_chunk_at(p).contents())
}

/// One worker's bounded decompression cache of chunks, keyed by chunk
/// position. Owned by exactly one worker and passed by reference into store
/// reads; never shared between workers.
pub struct VCache {
    uncompressed_chunks: LruCache<ChunkPosition, Arc<UncompressedChunk>>,
}

impl VCache {
    /// The cached decompressed chunks, keyed by chunk position.
    pub closed spec fn contents(self) -> Map<ChunkPosition, UncompressedChunk> {
        lru_contents(self.uncompressed_chunks)
    }

    /// Coherence of this cache with respect to a store: every cached entry
    /// is coherent in the sense of `entry_coherent`.
    pub open spec fn coherent(self, store: WVoxels) -> bool {
        forall|p: ChunkPosition| #[trigger]
            self.contents().dom().contains(p) ==> entry_coherent(self.contents()[p], p, store)
    }

    /// An empty cache with the standard capacity.
    pub fn new() -> (c: VCache)
        ensures
            c.contents() == Map::<ChunkPosition, UncompressedChunk>::empty(),
    {
        VCache { uncompressed_chunks: lru_new(VCACHE_SIZE) }
    }
}

impl Default for VCache {
    /// Same as `VCache::new`.
    fn default() -> (c: VCache)
        ensures
            c.contents() == Map::<ChunkPosition, UncompressedChunk>::empty(),
    {
        VCache::new()
    }
}

/// The voxel half of a world: the authoritative chunks and the voxel-type
/// registry. Writers mutate it under exclusive access; readers consult it
/// through their own `VCache`.
pub struct WVoxels {
    chunks: Vec<VChunk>,
    pub registry: Arc<VoxelRegistry>,
}

impl WVoxels {
    /// The authoritative chunks, in insertion order.
    pub closed spec fn chunk_seq(self) -> Seq<VChunk> {
        self.chunks@
    }

    /// The registry the store reads voxel definitions from.
    pub closed spec fn spec_registry(self) -> Arc<VoxelRegistry> {
        self.registry
    }

    /// Every stored chunk is well formed and positions are unique.
    pub open spec fn wf(self) -> bool {
        &&& forall|i: int|
            0 <= i < self.chunk_seq().len() ==> (#[trigger] self.chunk_seq()[i]).wf()
        &&& forall|i: int, j: int|
            0 <= i < j < self.chunk_seq().len() ==> (#[trigger] self.chunk_seq()[i].position) != (
            #[trigger] self.chunk_seq()[j].position)
    }

    /// Whether an authoritative chunk exists at this position.
    pub open spec fn spec_has_chunk(self, cpos: ChunkPosition) -> bool {
        exists|i: int| 0 <= i < self.chunk_seq().len() && (#[trigger] self.chunk_seq()[i]).position == cpos
    }

    /// The authoritative chunk at this position (meaningful only when
    /// `spec_has_chunk` holds).
    pub open spec fn spec_chunk_at(self, cpos: ChunkPosition) -> VChunk {
        self.chunk_seq()[choose|i: int|
            0 <= i < self.chunk_seq().len() && (#[trigger] self.chunk_seq()[i]).position == cpos]
    }

    /// An empty store over the given registry.
    pub fn new(registry: Arc<VoxelRegistry>) -> (w: WVoxels)
        ensures
            w.wf(),
            forall|p: ChunkPosition| !w.spec_has_chunk(p),
            w.spec_registry() == registry,
    {
        WVoxels { chunks: Vec::new(), registry }
    }

    /// Looks the authoritative chunk at a position up.
    fn get_chunk(&self, cpos: ChunkPosition) -> (r: Option<&VChunk>)
        requires
            self.wf(),
        ensures
            match r {
                Some(c) => self.spec_has_chunk(cpos) && *c == self.spec_chunk_at(cpos),
                None => !self.spec_has_chunk(cpos),
            },
    {
        let len = self.chunks.len();
        let mut i: usize = 0;
        while i < len
            invariant
                self.wf(),
                len == self.chunk_seq().len(),
                i <= len,
                forall|k: int| 0 <= k < i ==> (#[trigger] self.chunk_seq()[k]).position != cpos,
            decreases len - i,
        {
            if self.chunks[i].position == cpos {
                proof {
                    let j = choose|j: int|
                        0 <= j < self.chunk_seq().len() && (#[trigger] self.chunk_seq()[j]).position
                            == cpos;
                    assert(j == i);
                }
                return Some(&self.chunks[i]);
            }
            i = i + 1;
        }
        None
    }

    /// Installs or replaces the authoritative chunk at `chunk.position`. A
    /// replacement must carry a strictly newer dirty counter, which keeps the
    /// dirty counters monotonic, so every coherent cache stays coherent (see
    /// `lemma_insert_preserves_coherence`).
    #[verifier::loop_isolation(false)]
    pub fn insert_chunk(&mut self, chunk: VChunk)
        requires
            old(self).wf(),
            chunk.wf(),
            old(self).spec_has_chunk(chunk.position)
                ==> chunk.dirty > old(self).spec_chunk_at(chunk.position).dirty,
        ensures
            final(self).wf(),
            final(self).spec_has_chunk(chunk.position),
            final(self).spec_chunk_at(chunk.position) == chunk,
            forall|p: ChunkPosition|
                p != chunk.position
                    ==> ((#[trigger] final(self).spec_has_chunk(p)) <==> old(self).spec_has_chunk(p)),
            forall|p: ChunkPosition|
                p != chunk.position && old(self).spec_has_chunk(p)
                    ==> (#[trigger] final(self).spec_chunk_at(p)) == old(self).spec_chunk_at(p),
            final(self).spec_registry() == old(self).spec_registry(),
    {
        let ghost pre = *self;
        let len = self.chunks.len();
        let mut i: usize = 0;
        while i < len
            invariant
                self.wf(),
                *self == pre,
                len == self.chunk_seq().len(),
                i <= len,
                forall|k: int|
                    0 <= k < i ==> (#[trigger] self.chunk_seq()[k]).position != chunk.position,
            decreases len - i,
        {
            if self.chunks[i].position == chunk.position {
                let _ = self.chunks.remove(i);
                self.chunks.push(chunk);
                proof {
                    lemma_remove_push(pre, *self, i as int, chunk);
                }
                return ;
            }
            i = i + 1;
        }
        self.chunks.push(chunk);
        proof {
            assert forall|p: ChunkPosition| p != chunk.position implies ((#[trigger] self.spec_has_chunk(
                p,
            )) <==> pre.spec_has_chunk(p)) by {
                if pre.spec_has_chunk(p) {
                    let j = choose|j: int|
                        0 <= j < pre.chunk_seq().len() && (#[trigger] pre.chunk_seq()[j]).position
                            == p;
                    assert(self.chunk_seq()[j].position == p);
                }
                if self.spec_has_chunk(p) {
                    let j = choose|j: int|
                        0 <= j < self.chunk_seq().len() && (#[trigger] self.chunk_seq()[j]).position
                            == p;
                    assert(pre.chunk_seq()[j].position == p);
                }
            }
            assert forall|p: ChunkPosition| p != chunk.position && pre.spec_has_chunk(p) implies (
            #[trigger] self.spec_chunk_at(p)) == pre.spec_chunk_at(p) by {
                lemma_chunk_at_agrees(pre, *self, p);
            }
            assert(self.chunk_seq()[self.chunk_seq().len() - 1].position == chunk.position);
        }
    }

    /// Makes the worker's cache hold an up-to-date decompression of the
    /// authoritative chunk at `cpos`, if one exists: on a miss or on a dirty
    /// counter mismatch it decompresses afresh.
    fn ensure_newest_cached(&self, cache: &mut VCache, cpos: ChunkPosition) -> (r: Option<()>)
        requires
            self.wf(),
            old(cache).coherent(*self),
        ensures
            final(cache).coherent(*self),
            r is Some <==> self.spec_has_chunk(cpos),
            r is Some ==> final(cache).contents().dom().contains(cpos) && final(cache).contents()[cpos].dirty == self.spec_chunk_at(cpos).dirty,
    {
        let newest = match self.get_chunk(cpos) {
            Some(c) => c,
            None => {
                return None;
            },
        };
        proof {
            assert(self.spec_chunk_at(cpos).position == cpos);
        }
        let ghost c0 = *cache;
        let cached = lru_get(&mut cache.uncompressed_chunks, &cpos);
        proof {
            assert forall|p: ChunkPosition| #[trigger]
                cache.contents().dom().contains(p) implies entry_coherent(
                cache.contents()[p],
                p,
                *self,
            ) by {
                assert(c0.contents().dom().contains(p));
                assert(entry_coherent(c0.contents()[p], p, *self));
            }
        }
        let refresh = match &cached {
            Some(c) => c.dirty != newest.dirty,
            None => true,
        };
        if refresh {
            let fresh = newest.decompress();
            let ghost c1 = *cache;
            let _ = lru_put(&mut cache.uncompressed_chunks, cpos, fresh);
            proof {
                assert forall|p: ChunkPosition| #[trigger]
                    cache.contents().dom().contains(p) implies entry_coherent(
                    cache.contents()[p],
                    p,
                    *self,
                ) by {
                    if p != cpos {
                        assert(lru_contents(cache.uncompressed_chunks).dom().contains(p));
                        assert(c1.contents().dom().contains(p));
                        assert(entry_coherent(c1.contents()[p], p, *self));
                        assert(cache.contents()[p] == c1.contents()[p]);
                    } else {
                        assert(cache.contents()[p] == fresh);
                    }
                }
            }
        } else {
            proof {
                assert(cache.contents().dom().contains(cpos));
                assert(entry_coherent(cache.contents()[cpos], cpos, *self));
            }
        }
        Some(())
    }

    /// Returns a shared up-to-date decompression of the authoritative chunk
    /// at `cpos`, or `None` when the store has no chunk there. The returned
    /// chunk always matches the current authoritative content and dirty
    /// counter, never a stale cached copy.
    pub fn get_uncompressed_chunk(&self, cache: &mut VCache, cpos: ChunkPosition) -> (r: Option<
        Arc<UncompressedChunk>,
    >)
        requires
            self.wf(),
            old(cache).coherent(*self),
        ensures
            final(cache).coherent(*self),
            r is Some <==> self.spec_has_chunk(cpos),
            r matches Some(c) ==> {
                &&& c.wf()
                &&& c.position == cpos
                &&& c.dirty == self.spec_chunk_at(cpos).dirty
                &&& c.ids() == self.spec_chunk_at(cpos).contents()
            },
    {
        match self.ensure_newest_cached(cache, cpos) {
            Some(_) => {},
            None => {
                return None;
            },
        }
        let ghost mid = *cache;
        let c = lru_get(&mut cache.uncompressed_chunks, &cpos);
        proof {
            assert(cache.contents() == mid.contents());
            assert forall|p: ChunkPosition| #[trigger]
                cache.contents().dom().contains(p) implies entry_coherent(
                cache.contents()[p],
                p,
                *self,
            ) by {
                assert(mid.contents().dom().contains(p));
                assert(entry_coherent(mid.contents()[p], p, *self));
            }
        }
        match c {
            Some(c) => Some(c),
            None => {
                proof {
                    assert(false);
                }
                None
            },
        }
    }

    /// Returns the voxel datum stored at a world-absolute block position, or
    /// `None` when the block's chunk is absent from the store.
    pub fn get_block(&self, cache: &mut VCache, bpos: BlockPosition) -> (r: Option<VoxelDatum>)
        requires
            self.wf(),
            old(cache).coherent(*self),
        ensures
            final(cache).coherent(*self),
            r is Some <==> self.spec_has_chunk(chunkpos_spec(bpos)),
            r matches Some(d) ==> d.id == self.spec_chunk_at(chunkpos_spec(bpos)).contents()[
                blockidx_spec(bpos)],
    {
        let cpos = chunkpos_from_blockpos(bpos);
        let chunk = match self.get_uncompressed_chunk(cache, cpos) {
            Some(c) => c,
            None => {
                return None;
            },
        };
        let idx = blockidx_from_blockpos(bpos);
        let d = chunk.blocks_yzx[idx];
        proof {
            assert(self.spec_chunk_at(cpos).contents().len() == CHUNK_DIM3);
            assert(d.id == chunk.ids()[idx as int]);
        }
        Some(d)
    }
}

/// Replacing one chunk (found at index `i`) by removing it and pushing the
/// replacement preserves well-formedness and acts on the position map as a
/// single-key update.
proof fn lemma_remove_push(pre: WVoxels, post: WVoxels, i: int, chunk: VChunk)
    requires
        pre.wf(),
        chunk.wf(),
        0 <= i < pre.chunk_seq().len(),
        pre.chunk_seq()[i].position == chunk.position,
        post.chunk_seq() == pre.chunk_seq().remove(i).push(chunk),
        post.spec_registry() == pre.spec_registry(),
    ensures
        post.wf(),
        post.spec_has_chunk(chunk.position),
        post.spec_chunk_at(chunk.position) == chunk,
        forall|p: ChunkPosition|
            p != chunk.position ==> ((#[trigger] post.spec_has_chunk(p)) <==> pre.spec_has_chunk(
                p,
            )),
        forall|p: ChunkPosition|
            p != chunk.position && pre.spec_has_chunk(p) ==> (#[trigger] post.spec_chunk_at(p))
                == pre.spec_chunk_at(p),
{
    let s0 = pre.chunk_seq();
    let s1 = post.chunk_seq();
    let n = s0.len();
    assert(s1.len() == n);
    // Every post element other than the pushed chunk is a pre element away
    // from index i, and vice versa.
    assert forall|k: int| 0 <= k < n - 1 implies s1[k] == (if k < i {
        s0[k]
    } else {
        s0[k + 1]
    }) by {}
    assert(s1[n - 1] == chunk);
    assert(post.wf()) by {
        assert forall|a: int, b: int| 0 <= a < b < n implies (#[trigger] s1[a].position) != (
        #[trigger] s1[b].position) by {
            if b < n - 1 {
                let a0 = if a < i { a } else { a + 1 };
                let b0 = if b < i { b } else { b + 1 };
                assert(s1[a] == s0[a0] && s1[b] == s0[b0]);
            } else {
                let a0 = if a < i { a } else { a + 1 };
                assert(s1[a] == s0[a0]);
                if a0 != i {
                    assert(s0[a0].position != s0[i].position);
                }
            }
        }
        assert forall|k: int| 0 <= k < n implies (#[trigger] s1[k]).wf() by {
            if k < n - 1 {
                let k0 = if k < i { k } else { k + 1 };
                assert(s1[k] == s0[k0]);
            }
        }
    }
    assert(post.spec_has_chunk(chunk.position)) by {
        assert(s1[n - 1].position == chunk.position);
    }
    assert(post.spec_chunk_at(chunk.position) == chunk) by {
        let j = choose|j: int| 0 <= j < n && (#[trigger] s1[j]).position == chunk.position;
        if j != n - 1 {
            let j0 = if j < i { j } else { j + 1 };
            assert(s1[j] == s0[j0]);
            if j0 != i {
                assert(s0[j0].position != s0[i].position);
            }
            assert(false);
        }
    }
    assert forall|p: ChunkPosition| p != chunk.position implies ((#[trigger] post.spec_has_chunk(p))
        <==> pre.spec_has_chunk(p)) by {
        if pre.spec_has_chunk(p) {
            let j = choose|j: int| 0 <= j < n && (#[trigger] s0[j]).position == p;
            let j1 = if j < i { j } else { j - 1 };
            assert(s1[j1] == s0[j]);
        }
        if post.spec_has_chunk(p) {
            let j = choose|j: int| 0 <= j < n && (#[trigger] s1[j]).position == p;
            let j0 = if j < i { j } else { j + 1 };
            assert(s1[j] == s0[j0]);
        }
    }
    assert forall|p: ChunkPosition| p != chunk.position && pre.spec_has_chunk(p) implies (
    #[trigger] post.spec_chunk_at(p)) == pre.spec_chunk_at(p) by {
        lemma_chunk_at_agrees_core(pre, post, p);
    }
}

/// When both stores are well formed and both hold a chunk at `p`, and every
/// index of either sequence holding position `p` holds the same chunk in the
/// other's map sense, the chunk at `p` agrees. Helper for the insert proofs.
proof fn lemma_chunk_at_agrees_core(pre: WVoxels, post: WVoxels, p: ChunkPosition)
    requires
        pre.wf(),
        post.wf(),
        pre.spec_has_chunk(p),
        post.spec_has_chunk(p),
        forall|j: int|
            0 <= j < pre.chunk_seq().len() && (#[trigger] pre.chunk_seq()[j]).position == p
                ==> exists|k: int|
                0 <= k < post.chunk_seq().len() && #[trigger] post.chunk_seq()[k] == pre.chunk_seq()[j],
    ensures
        post.spec_chunk_at(p) == pre.spec_chunk_at(p),
{
    let j = choose|j: int|
        0 <= j < pre.chunk_seq().len() && (#[trigger] pre.chunk_seq()[j]).position == p;
    assert(pre.spec_chunk_at(p) == pre.chunk_seq()[j]);
    let k = choose|k: int|
        0 <= k < post.chunk_seq().len() && #[trigger] post.chunk_seq()[k] == pre.chunk_seq()[j];
    let m = choose|m: int|
        0 <= m < post.chunk_seq().len() && (#[trigger] post.chunk_seq()[m]).position == p;
    assert(post.spec_chunk_at(p) == post.chunk_seq()[m]);
    if m != k {
        if m < k {
            assert(post.chunk_seq()[m].position != post.chunk_seq()[k].position);
        } else {
            assert(post.chunk_seq()[k].position != post.chunk_seq()[m].position);
        }
        assert(false);
    }
}

/// In the plain-push case every pre chunk is still present; the chunk at any
/// existing position other than the pushed one agrees.
proof fn lemma_chunk_at_agrees(pre: WVoxels, post: WVoxels, p: ChunkPosition)
    requires
        pre.wf(),
        post.wf(),
        pre.spec_has_chunk(p),
        post.spec_has_chunk(p),
        post.chunk_seq().len() == pre.chunk_seq().len() + 1,
        forall|j: int|
            0 <= j < pre.chunk_seq().len() ==> #[trigger] post.chunk_seq()[j] == pre.chunk_seq()[j],
    ensures
        post.spec_chunk_at(p) == pre.spec_chunk_at(p),
{
    assert forall|j: int|
        0 <= j < pre.chunk_seq().len() && (#[trigger] pre.chunk_seq()[j]).position
            == p implies exists|k: int|
        0 <= k < post.chunk_seq().len() && #[trigger] post.chunk_seq()[k] == pre.chunk_seq()[j] by {
        assert(post.chunk_seq()[j] == pre.chunk_seq()[j]);
    }
    lemma_chunk_at_agrees_core(pre, post, p);
}

/// Cache coherence across a store update: a cache coherent with the store
/// before `insert_chunk` is still coherent afterwards, because the dirty
/// counter at the updated position strictly increased, so no stale entry can
/// share a counter with the new authoritative chunk.
pub proof fn lemma_insert_preserves_coherence(
    cache: VCache,
    pre: WVoxels,
    post: WVoxels,
    chunk: VChunk,
)
    requires
        cache.coherent(pre),
        post.spec_has_chunk(chunk.position),
        post.spec_chunk_at(chunk.position) == chunk,
        pre.spec_has_chunk(chunk.position) ==> chunk.dirty > pre.spec_chunk_at(
            chunk.position,
        ).dirty,
        forall|p: ChunkPosition|
            p != chunk.position ==> ((#[trigger] post.spec_has_chunk(p)) <==> pre.spec_has_chunk(
                p,
            )),
        forall|p: ChunkPosition|
            p != chunk.position && pre.spec_has_chunk(p) ==> (#[trigger] post.spec_chunk_at(p))
                == pre.spec_chunk_at(p),
    ensures
        cache.coherent(post),
{
    assert forall|p: ChunkPosition| #[trigger] cache.contents().dom().contains(p) implies entry_coherent(
        cache.contents()[p],
        p,
        post,
    ) by {
        if p == chunk.position {
            assert(pre.spec_has_chunk(p));
            assert(cache.contents()[p].dirty <= pre.spec_chunk_at(p).dirty);
            assert(cache.contents()[p].dirty < chunk.dirty);
        }
    }
}

} // verus!
