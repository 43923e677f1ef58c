//! Chunk data model: a single voxel datum, the dense uncompressed chunk, and
//! the authoritative compressed chunk (`VChunk`) with its dirty counter.
use crate::codec::compress_rle;
use crate::codec::decompress_rle;
use crate::codec::lemma_compress_uniform;
use crate::codec::lemma_rle_round_trip;
use crate::codec::rle_decompress_spec;
use crate::geometry::ChunkPosition;
use crate::geometry::Vec3i;
use crate::CHUNK_DIM3;
use std::sync::Arc;
use vstd::prelude::*;

verus! {

/// One block's stored voxel-type identifier. The zero value is the reserved
/// default ("void") type; equality and hashing are by identifier value only.
#[derive(Copy, Clone, Debug, PartialEq, Eq, Structural, Hash)]
pub struct VoxelDatum {
    pub id: u32,
}

impl Default for VoxelDatum {
    /// The reserved void type.
    fn default() -> (d: VoxelDatum)
        ensures
            d.id == 0,
    {
        VoxelDatum { id: 0 }
    }
}

/// A dense array of exactly `CHUNK_DIM3` voxel values, ordered Y-major, then
/// Z, then X, tagged with its chunk position and a dirty counter.
pub struct UncompressedChunk {
    pub blocks_yzx: Vec<VoxelDatum>,
    pub position: ChunkPosition,
    pub dirty: u64,
}

impl UncompressedChunk {
    /// The array always holds exactly `CHUNK_DIM3` values.
    pub open spec fn wf(self) -> bool {
        self.blocks_yzx@.len() == CHUNK_DIM3
    }

    /// The chunk's content as the sequence of raw voxel identifiers.
    pub open spec fn ids(self) -> Seq<u32> {
        self.blocks_yzx@.map_values(|d: VoxelDatum| d.id)
    }

    /// An all-void chunk at the origin with dirty counter 1.
    pub fn new() -> (c: UncompressedChunk)
        ensures
            c.wf(),
            c.position == (Vec3i { x: 0i32, y: 0i32, z: 0i32 }),
            c.dirty == 1,
            forall|i: int| 0 <= i < CHUNK_DIM3 ==> c.ids()[i] == 0,
    {
        let mut blocks: Vec<VoxelDatum> = Vec::new();
        let mut i: usize = 0;
        while i < CHUNK_DIM3
            invariant
                blocks@.len() == i,
                i <= CHUNK_DIM3,
                forall|k: int| 0 <= k < i ==> blocks@[k].id == 0,
            decreases CHUNK_DIM3 - i,
        {
            blocks.push(VoxelDatum { id: 0 });
            i = i + 1;
        }
        UncompressedChunk { blocks_yzx: blocks, position: Vec3i::zero(), dirty: 1 }
    }

    /// Copies the raw voxel identifiers out into a plain vector.
    pub fn ids_vec(&self) -> (r: Vec<u32>)
        ensures
            r@ == self.ids(),
    {
        let mut r: Vec<u32> = Vec::new();
        let mut i: usize = 0;
        let len = self.blocks_yzx.len();
        while i < len
            invariant
                len == self.blocks_yzx@.len(),
                i <= len,
                r@.len() == i,
                forall|k: int| 0 <= k < i ==> r@[k] == self.blocks_yzx@[k].id,
            decreases len - i,
        {
            r.push(self.blocks_yzx[i].id);
            i = i + 1;
        }
        proof {
            assert(r@ =~= self.ids());
        }
        r
    }
}

impl Default for UncompressedChunk {
    /// Same as `UncompressedChunk::new`.
    fn default() -> (c: UncompressedChunk)
        ensures
            c.wf(),
            c.position == (Vec3i { x: 0i32, y: 0i32, z: 0i32 }),
            c.dirty == 1,
            forall|i: int| 0 <= i < CHUNK_DIM3 ==> c.ids()[i] == 0,
    {
        UncompressedChunk::new()
    }
}

/// The storage-efficient payload of a chunk.
pub enum VChunkData {
    /// Voxels stored for relatively quick access in the run-length stream of
    /// the chunk codec.
    QuickCompressed { vox: Vec<u32> },
}

impl VChunkData {
    /// The stream decodes to exactly one chunk's worth of values.
    pub open spec fn wf(self) -> bool {
        match self {
            VChunkData::QuickCompressed { vox } => {
                &&& rle_decompress_spec(vox@) is Some
                &&& rle_decompress_spec(vox@)->Some_0.len() == CHUNK_DIM3
            },
        }
    }

    /// The decoded voxel identifiers of the payload.
    pub open spec fn contents(self) -> Seq<u32> {
        match self {
            VChunkData::QuickCompressed { vox } => rle_decompress_spec(vox@)->Some_0,
        }
    }

    /// A payload of one run covering the whole chunk with the void value.
    pub fn new() -> (d: VChunkData)
        ensures
            d.wf(),
            d.contents().len() == CHUNK_DIM3,
            forall|i: int| 0 <= i < CHUNK_DIM3 ==> d.contents()[i] == 0,
    {
        let mut vox: Vec<u32> = Vec::new();
        vox.push(0);
        vox.push(0);
        vox.push((CHUNK_DIM3 as u32) - 2);
        proof {
            let zeros = Seq::new(CHUNK_DIM3 as nat, |i: int| 0u32);
            lemma_compress_uniform(zeros, 0);
            lemma_rle_round_trip(zeros);
            assert(vox@ =~= crate::codec::rle_compress_spec(zeros));
        }
        VChunkData::QuickCompressed { vox }
    }
}

impl Default for VChunkData {
    /// Same as `VChunkData::new`.
    fn default() -> (d: VChunkData)
        ensures
            d.wf(),
            d.contents().len() == CHUNK_DIM3,
            forall|i: int| 0 <= i < CHUNK_DIM3 ==> d.contents()[i] == 0,
    {
        VChunkData::new()
    }
}

/// The authoritative compressed representation of one chunk: its payload, a
/// dirty counter increased by the writer on every content change, and the
/// chunk position.
pub struct VChunk {
    pub data: VChunkData,
    pub dirty: u64,
    pub position: ChunkPosition,
}

impl Default for VChunk {
    /// Same as `VChunk::new`.
    fn default() -> (c: VChunk)
        ensures
            c.wf(),
            c.dirty == 1,
            c.position == (Vec3i { x: 0i32, y: 0i32, z: 0i32 }),
            c.contents().len() == CHUNK_DIM3,
            forall|i: int| 0 <= i < CHUNK_DIM3 ==> c.contents()[i] == 0,
    {
        VChunk::new()
    }
}

impl VChunk {
    pub open spec fn wf(self) -> bool {
        self.data.wf()
    }

    /// The decoded voxel identifiers of the chunk.
    pub open spec fn contents(self) -> Seq<u32> {
        self.data.contents()
    }

    /// An all-void chunk at the origin with dirty counter 1.
    pub fn new() -> (c: VChunk)
        ensures
            c.wf(),
            c.dirty == 1,
            c.position == (Vec3i { x: 0i32, y: 0i32, z: 0i32 }),
            c.contents().len() == CHUNK_DIM3,
            forall|i: int| 0 <= i < CHUNK_DIM3 ==> c.contents()[i] == 0,
    {
        VChunk { data: VChunkData::new(), dirty: 1, position: Vec3i::zero() }
    }

    /// Writes the updates from an uncompressed chunk into compressed storage,
    /// re-encoding the content and copying the dirty counter forward. The
    /// chunk positions must match.
    pub fn compress(&mut self, from: &UncompressedChunk)
        requires
            old(self).position == from.position,
            from.wf(),
        ensures
            final(self).wf(),
            final(self).position == old(self).position,
            final(self).dirty == from.dirty,
            final(self).contents() == from.ids(),
    {
        let ids = from.ids_vec();
        let voxdat = compress_rle(&ids);
        proof {
            lemma_rle_round_trip(from.ids());
        }
        self.dirty = from.dirty;
        self.data = VChunkData::QuickCompressed { vox: voxdat };
    }

    /// Decompresses the current version of this chunk into a freshly shared
    /// uncompressed copy carrying the same position and dirty counter.
    pub fn decompress(&self) -> (r: Arc<UncompressedChunk>)
        requires
            self.wf(),
        ensures
            r.wf(),
            r.position == self.position,
            r.dirty == self.dirty,
            r.ids() == self.contents(),
    {
        let vox = match &self.data {
            VChunkData::QuickCompressed { vox } => vox,
        };
        let decoded = decompress_rle(vox);
        let ids = decoded.unwrap();
        let mut blocks: Vec<VoxelDatum> = Vec::new();
        let mut i: usize = 0;
        let len = ids.len();
        while i < len
            invariant
                len == ids@.len(),
                i <= len,
                blocks@.len() == i,
                forall|k: int| 0 <= k < i ==> blocks@[k].id == ids@[k],
            decreases len - i,
        {
            blocks.push(VoxelDatum { id: ids[i] });
            i = i + 1;
        }
        let uc = UncompressedChunk { blocks_yzx: blocks, position: self.position, dirty: self.dirty };
        proof {
            assert(uc.ids() =~= self.contents());
        }
        Arc::new(uc)
    }
}

} // verus!
