//! Core data layer of a block-based voxel world: integer chunk/block
//! geometry, a run-length chunk codec with a proven round trip, a chunk
//! store with dirty-counter cache coherence, the integer decision core of
//! a fast voxel ray traversal, and the deterministic integer core of a
//! procedural terrain generator.
use vstd::prelude::*;

pub mod chunk;
pub mod codec;
pub mod geometry;
pub mod raycast;
pub mod registry;
pub mod store;
pub mod terrain;

verus! {

/// Side length of a cubic chunk, in blocks.
pub const CHUNK_DIM: usize = 32;

/// Number of blocks in one horizontal slice of a chunk.
pub const CHUNK_DIM2: usize = CHUNK_DIM * CHUNK_DIM;

/// Number of blocks in a whole chunk.
pub const CHUNK_DIM3: usize = CHUNK_DIM * CHUNK_DIM * CHUNK_DIM;

} // verus!
