//! Integer decision core of the fast voxel ray traversal (3D DDA).
//!
//! A traversal keeps, per axis, a floating-point distance to the next block
//! boundary; those distances live with the caller that drives the walk. This
//! module holds everything the walk decides and changes in integer space,
//! verified: the strict fixed-priority tie-break choosing the axis to advance
//! (X, then Y, then Z), the block/chunk stepping with wrap into a
//! neighbouring chunk, the face normal of each step, the iteration bound
//! that guarantees termination, and the hit test of the occupied block
//! against the voxel registry.
use crate::chunk::UncompressedChunk;
use crate::chunk::VoxelDatum;
use crate::geometry::chunkpos_spec;
use crate::geometry::BlockPosition;
use crate::geometry::Direction;
use crate::geometry::Vec3i;
use crate::registry::find_by_id;
use crate::registry::VoxelRegistry;
use crate::CHUNK_DIM;
use crate::CHUNK_DIM2;
use crate::CHUNK_DIM3;
use vstd::prelude::*;

verus! {

/// What a raycast hit: nothing within the distance limit, a voxel (with the
/// crossed face and the datum of the block the ray exited, when known), or an
/// entity (tested by an external collaborator).
#[derive(Copy, Clone, Debug, PartialEq)]
pub enum Hit {
    Nothing,
    Voxel {
        position: BlockPosition,
        datum: VoxelDatum,
        normal: Direction,
        normal_datum: Option<VoxelDatum>,
    },
    Entity,
}

impl Default for Hit {
    /// No hit.
    fn default() -> (h: Hit)
        ensures
            h is Nothing,
    {
        Hit::Nothing
    }
}

/// The axis to advance, given the strict comparisons of the three pending
/// boundary distances: X wins over Y over Z, ties resolving by this fixed
/// priority order.
pub open spec fn spec_select_axis(x_lt_y: bool, x_lt_z: bool, y_lt_z: bool) -> int {
    if x_lt_y {
        if x_lt_z {
            0
        } else {
            2
        }
    } else if y_lt_z {
        1
    } else {
        2
    }
}

/// Picks the axis whose boundary the ray crosses next. The three arguments
/// are the strict less-than comparisons of the pending per-axis boundary
/// distances (x against y, x against z, y against z).
pub fn select_axis(x_lt_y: bool, x_lt_z: bool, y_lt_z: bool) -> (axis: usize)
    ensures
        axis == spec_select_axis(x_lt_y, x_lt_z, y_lt_z),
        axis < 3,
{
    if x_lt_y {
        if x_lt_z {
            0
        } else {
            2
        }
    } else if y_lt_z {
        1
    } else {
        2
    }
}

/// The face normal reported for a step along `axis` with the given step
/// signs: the face the ray enters through, opposite to the step direction.
pub fn axis_normal(step: Vec3i, axis: usize) -> (d: Direction)
    requires
        axis < 3,
    ensures
        axis == 0 ==> d == (if step.x < 0 {
            Direction::XPlus
        } else {
            Direction::XMinus
        }),
        axis == 1 ==> d == (if step.y < 0 {
            Direction::YPlus
        } else {
            Direction::YMinus
        }),
        axis == 2 ==> d == (if step.z < 0 {
            Direction::ZPlus
        } else {
            Direction::ZMinus
        }),
{
    if axis == 0 {
        if step.x < 0 {
            Direction::XPlus
        } else {
            Direction::XMinus
        }
    } else if axis == 1 {
        if step.y < 0 {
            Direction::YPlus
        } else {
            Direction::YMinus
        }
    } else {
        if step.z < 0 {
            Direction::ZPlus
        } else {
            Direction::ZMinus
        }
    }
}

/// Integer state of a ray walk: the current block in intra-chunk
/// coordinates, the chunk holding it, and the per-axis step signs.
pub struct RayWalkState {
    /// Intra-chunk block coordinates, each in `0 .. CHUNK_DIM`.
    pub bpos: Vec3i,
    /// The chunk the walk currently stands in.
    pub cpos: Vec3i,
    /// Per-axis step direction, each exactly `1` or `-1`.
    pub step: Vec3i,
}

impl RayWalkState {
    pub open spec fn wf(self) -> bool {
        &&& 0 <= self.bpos.x < CHUNK_DIM
        &&& 0 <= self.bpos.y < CHUNK_DIM
        &&& 0 <= self.bpos.z < CHUNK_DIM
        &&& (self.step.x == 1 || self.step.x == -1)
        &&& (self.step.y == 1 || self.step.y == -1)
        &&& (self.step.z == 1 || self.step.z == -1)
    }

    /// The world-absolute coordinate of the current block along each axis.
    pub open spec fn world_x(self) -> int {
        self.cpos.x * (CHUNK_DIM as int) + self.bpos.x
    }

    pub open spec fn world_y(self) -> int {
        self.cpos.y * (CHUNK_DIM as int) + self.bpos.y
    }

    pub open spec fn world_z(self) -> int {
        self.cpos.z * (CHUNK_DIM as int) + self.bpos.z
    }

    /// Starts a walk at a world-absolute block position with the given step
    /// signs.
    pub fn new(start: BlockPosition, step: Vec3i) -> (s: RayWalkState)
        requires
            step.x == 1 || step.x == -1,
            step.y == 1 || step.y == -1,
            step.z == 1 || step.z == -1,
        ensures
            s.wf(),
            s.step == step,
            s.cpos == chunkpos_spec(start),
            s.world_x() == start.x,
            s.world_y() == start.y,
            s.world_z() == start.z,
    {
        let cpos = crate::geometry::chunkpos_from_blockpos(start);
        let bx = crate::geometry::coord_rem_floor(start.x);
        let by = crate::geometry::coord_rem_floor(start.y);
        let bz = crate::geometry::coord_rem_floor(start.z);
        proof {
            // Euclidean division and remainder reassemble the coordinate.
            assert(start.x == (CHUNK_DIM as int) * (start.x as int / (CHUNK_DIM as int)) + (
            start.x as int % (CHUNK_DIM as int)));
            assert(start.y == (CHUNK_DIM as int) * (start.y as int / (CHUNK_DIM as int)) + (
            start.y as int % (CHUNK_DIM as int)));
            assert(start.z == (CHUNK_DIM as int) * (start.z as int / (CHUNK_DIM as int)) + (
            start.z as int % (CHUNK_DIM as int)));
        }
        RayWalkState { bpos: Vec3i { x: bx, y: by, z: bz }, cpos, step }
    }

    /// Advances the walk one block along `axis` in the step direction,
    /// wrapping into the neighbouring chunk when the stepped coordinate
    /// leaves this one. Reports whether a chunk boundary was crossed (the
    /// caller then re-fetches the chunk from the store). Exactly one world
    /// coordinate changes, by exactly the step sign.
    pub fn advance(&mut self, axis: usize) -> (crossed: bool)
        requires
            axis < 3,
            old(self).wf(),
            i32::MIN < old(self).cpos.x + old(self).step.x < i32::MAX,
            i32::MIN < old(self).cpos.y + old(self).step.y < i32::MAX,
            i32::MIN < old(self).cpos.z + old(self).step.z < i32::MAX,
        ensures
            final(self).wf(),
            final(self).step == old(self).step,
            axis == 0 ==> final(self).world_x() == old(self).world_x() + old(self).step.x
                && final(self).world_y() == old(self).world_y() && final(self).world_z() == old(
                self,
            ).world_z(),
            axis == 1 ==> final(self).world_y() == old(self).world_y() + old(self).step.y
                && final(self).world_x() == old(self).world_x() && final(self).world_z() == old(
                self,
            ).world_z(),
            axis == 2 ==> final(self).world_z() == old(self).world_z() + old(self).step.z
                && final(self).world_x() == old(self).world_x() && final(self).world_y() == old(
                self,
            ).world_y(),
            crossed <==> final(self).cpos != old(self).cpos,
            !crossed ==> final(self).cpos == old(self).cpos,
    {
        let dim = CHUNK_DIM as i32;
        if axis == 0 {
            let nb = self.bpos.x + self.step.x;
            if nb < 0 || nb >= dim {
                self.bpos.x = nb - dim * self.step.x;
                self.cpos.x = self.cpos.x + self.step.x;
                true
            } else {
                self.bpos.x = nb;
                false
            }
        } else if axis == 1 {
            let nb = self.bpos.y + self.step.y;
            if nb < 0 || nb >= dim {
                self.bpos.y = nb - dim * self.step.y;
                self.cpos.y = self.cpos.y + self.step.y;
                true
            } else {
                self.bpos.y = nb;
                false
            }
        } else {
            let nb = self.bpos.z + self.step.z;
            if nb < 0 || nb >= dim {
                self.bpos.z = nb - dim * self.step.z;
                self.cpos.z = self.cpos.z + self.step.z;
                true
            } else {
                self.bpos.z = nb;
                false
            }
        }
    }

    /// The world-absolute position of the current block.
    pub fn world_block(&self) -> (b: BlockPosition)
        requires
            self.wf(),
            i32::MIN <= self.world_x() <= i32::MAX,
            i32::MIN <= self.world_y() <= i32::MAX,
            i32::MIN <= self.world_z() <= i32::MAX,
        ensures
            b.x == self.world_x(),
            b.y == self.world_y(),
            b.z == self.world_z(),
    {
        let dim = CHUNK_DIM as i32;
        Vec3i {
            x: self.cpos.x * dim + self.bpos.x,
            y: self.cpos.y * dim + self.bpos.y,
            z: self.cpos.z * dim + self.bpos.z,
        }
    }

    /// The intra-chunk dense-array index of the current block.
    pub fn local_blockidx(&self) -> (idx: usize)
        requires
            self.wf(),
        ensures
            idx == self.bpos.x + (CHUNK_DIM as int) * self.bpos.z + (CHUNK_DIM2 as int)
                * self.bpos.y,
            idx < CHUNK_DIM3,
    {
        (self.bpos.x as usize) + CHUNK_DIM * (self.bpos.z as usize) + CHUNK_DIM2 * (
        self.bpos.y as usize)
    }
}

/// Whether a voxel datum marks a block the ray selects: its registry
/// definition exists and carries a hitbox.
pub open spec fn spec_selectable(reg: VoxelRegistry, id: u32) -> bool {
    match find_by_id(reg.defs(), id) {
        Some(d) => d.has_hitbox,
        None => false,
    }
}

/// Tests whether a voxel datum is selectable by a ray, per the registry.
pub fn datum_selectable(registry: &VoxelRegistry, datum: VoxelDatum) -> (r: bool)
    ensures
        r == spec_selectable(*registry, datum.id),
{
    match registry.get_definition_from_datum(datum) {
        Some(d) => d.has_hitbox,
        None => false,
    }
}

/// Reads the block at intra-chunk index `idx` of a decompressed chunk and
/// tests it against the registry: the datum and whether it is selectable.
pub fn probe_block(chunk: &UncompressedChunk, registry: &VoxelRegistry, idx: usize) -> (r: (
    VoxelDatum,
    bool,
))
    requires
        chunk.wf(),
        idx < CHUNK_DIM3,
    ensures
        r.0.id == chunk.ids()[idx as int],
        r.1 == spec_selectable(*registry, r.0.id),
{
    let datum = chunk.blocks_yzx[idx];
    let selectable = datum_selectable(registry, datum);
    (datum, selectable)
}

/// The absolute value of an integer.
pub open spec fn abs_int(a: int) -> int {
    if a < 0 {
        -a
    } else {
        a
    }
}

/// The traversal iteration bound: the Manhattan distance between the start
/// and end blocks, plus one. Walking one block per iteration, a ray reaches
/// the end block within this many steps, so the traversal terminates even
/// for pathological direction vectors.
pub fn raycast_iters(start: BlockPosition, end: BlockPosition) -> (n: u64)
    ensures
        n == abs_int(end.x - start.x) + abs_int(end.y - start.y) + abs_int(end.z - start.z) + 1,
{
    let dx = (end.x as i64) - (start.x as i64);
    let dy = (end.y as i64) - (start.y as i64);
    let dz = (end.z as i64) - (start.z as i64);
    let ax = if dx < 0 {
        (-dx) as u64
    } else {
        dx as u64
    };
    let ay = if dy < 0 {
        (-dy) as u64
    } else {
        dy as u64
    };
    let az = if dz < 0 {
        (-dz) as u64
    } else {
        dz as u64
    };
    ax + ay + az + 1
}

} // verus!
