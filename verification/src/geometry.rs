//! Integer geometry primitives: integer vectors for block and chunk
//! coordinates, the six axis-aligned directions, and the floor-division
//! mapping from block coordinates to chunk coordinates.
use crate::CHUNK_DIM;
use crate::CHUNK_DIM2;
use vstd::prelude::*;

verus! {

/// An integer 3-vector.
#[derive(Clone, Copy, Debug, PartialEq, Eq, Structural, Hash)]
pub struct Vec3i {
    pub x: i32,
    pub y: i32,
    pub z: i32,
}

/// An integer 2-vector (horizontal plane coordinates).
#[derive(Clone, Copy, Debug, PartialEq, Eq, Structural, Hash)]
pub struct Vec2i {
    pub x: i32,
    pub y: i32,
}

/// World-absolute block coordinates.
pub type BlockPosition = Vec3i;

/// Chunk-grid coordinates: the componentwise floor of block coordinates
/// divided by `CHUNK_DIM`.
pub type ChunkPosition = Vec3i;

impl Vec3i {
    pub fn new(x: i32, y: i32, z: i32) -> (v: Vec3i)
        ensures
            v == (Vec3i { x, y, z }),
    {
        Vec3i { x, y, z }
    }

    pub fn zero() -> (v: Vec3i)
        ensures
            v == (Vec3i { x: 0i32, y: 0i32, z: 0i32 }),
    {
        Vec3i { x: 0, y: 0, z: 0 }
    }
}

/// The six axis-aligned unit directions.
#[derive(Clone, Copy, Debug, PartialEq, Eq, Structural)]
pub enum Direction {
    XMinus,
    XPlus,
    YMinus,
    YPlus,
    ZMinus,
    ZPlus,
}

impl Direction {
    /// The direction pointing the opposite way, as a spec-level function.
    pub open spec fn spec_opposite(self) -> Direction {
        match self {
            Direction::XMinus => Direction::XPlus,
            Direction::XPlus => Direction::XMinus,
            Direction::YMinus => Direction::YPlus,
            Direction::YPlus => Direction::YMinus,
            Direction::ZMinus => Direction::ZPlus,
            Direction::ZPlus => Direction::ZMinus,
        }
    }

    /// The unit integer vector of this direction, as a spec-level function.
    pub open spec fn spec_to_vec(self) -> Vec3i {
        match self {
            Direction::XMinus => Vec3i { x: -1i32, y: 0i32, z: 0i32 },
            Direction::XPlus => Vec3i { x: 1i32, y: 0i32, z: 0i32 },
            Direction::YMinus => Vec3i { x: 0i32, y: -1i32, z: 0i32 },
            Direction::YPlus => Vec3i { x: 0i32, y: 1i32, z: 0i32 },
            Direction::ZMinus => Vec3i { x: 0i32, y: 0i32, z: -1i32 },
            Direction::ZPlus => Vec3i { x: 0i32, y: 0i32, z: 1i32 },
        }
    }

    /// All six directions, in a fixed order.
    pub fn all() -> (dirs: [Direction; 6])
        ensures
            dirs[0] == Direction::XMinus,
            dirs[1] == Direction::XPlus,
            dirs[2] == Direction::YMinus,
            dirs[3] == Direction::YPlus,
            dirs[4] == Direction::ZMinus,
            dirs[5] == Direction::ZPlus,
    {
        [
            Direction::XMinus,
            Direction::XPlus,
            Direction::YMinus,
            Direction::YPlus,
            Direction::ZMinus,
            Direction::ZPlus,
        ]
    }

    pub fn opposite(self) -> (r: Direction)
        ensures
            r == self.spec_opposite(),
    {
        match self {
            Direction::XMinus => Direction::XPlus,
            Direction::XPlus => Direction::XMinus,
            Direction::YMinus => Direction::YPlus,
            Direction::YPlus => Direction::YMinus,
            Direction::ZMinus => Direction::ZPlus,
            Direction::ZPlus => Direction::ZMinus,
        }
    }

    pub fn to_vec(self) -> (v: Vec3i)
        ensures
            v == self.spec_to_vec(),
    {
        match self {
            Direction::XMinus => Vec3i { x: -1, y: 0, z: 0 },
            Direction::XPlus => Vec3i { x: 1, y: 0, z: 0 },
            Direction::YMinus => Vec3i { x: 0, y: -1, z: 0 },
            Direction::YPlus => Vec3i { x: 0, y: 1, z: 0 },
            Direction::ZMinus => Vec3i { x: 0, y: 0, z: -1 },
            Direction::ZPlus => Vec3i { x: 0, y: 0, z: 1 },
        }
    }

    /// The partial inverse of `to_vec`: succeeds exactly on the six unit
    /// vectors.
    pub fn try_from_vec(v: Vec3i) -> (r: Option<Direction>)
        ensures
            r matches Some(d) ==> v == d.spec_to_vec(),
            r is None ==> forall|d: Direction| v != d.spec_to_vec(),
    {
        if v.x == 1 && v.y == 0 && v.z == 0 {
            Some(Direction::XPlus)
        } else if v.x == -1 && v.y == 0 && v.z == 0 {
            Some(Direction::XMinus)
        } else if v.x == 0 && v.y == 1 && v.z == 0 {
            Some(Direction::YPlus)
        } else if v.x == 0 && v.y == -1 && v.z == 0 {
            Some(Direction::YMinus)
        } else if v.x == 0 && v.y == 0 && v.z == 1 {
            Some(Direction::ZPlus)
        } else if v.x == 0 && v.y == 0 && v.z == -1 {
            Some(Direction::ZMinus)
        } else {
            assert(forall|d: Direction| v != d.spec_to_vec()) by {
                assert(v != Direction::XMinus.spec_to_vec());
                assert(v != Direction::XPlus.spec_to_vec());
                assert(v != Direction::YMinus.spec_to_vec());
                assert(v != Direction::YPlus.spec_to_vec());
                assert(v != Direction::ZMinus.spec_to_vec());
                assert(v != Direction::ZPlus.spec_to_vec());
            }
            None
        }
    }
}

/// `opposite` is an involution: applying it twice gives the direction back.
pub proof fn lemma_opposite_involutive(d: Direction)
    ensures
        d.spec_opposite().spec_opposite() == d,
{
}

/// Floor division of a block coordinate by `CHUNK_DIM`. In specifications
/// `/` on `int` is Euclidean division, which coincides with flooring for the
/// positive divisor `CHUNK_DIM`.
pub fn coord_div_floor(a: i32) -> (q: i32)
    ensures
        q == a as int / (CHUNK_DIM as int),
{
    let t = a / (CHUNK_DIM as i32);
    let r = a % (CHUNK_DIM as i32);
    if r < 0 {
        t - 1
    } else {
        t
    }
}

/// Euclidean remainder of a block coordinate by `CHUNK_DIM`: the offset of
/// the block inside its chunk, always in `0 .. CHUNK_DIM`.
pub fn coord_rem_floor(a: i32) -> (r: i32)
    ensures
        r == a as int % (CHUNK_DIM as int),
        0 <= r < CHUNK_DIM,
{
    let m = a % (CHUNK_DIM as i32);
    if m < 0 {
        m + (CHUNK_DIM as i32)
    } else {
        m
    }
}

/// The chunk position of a block: componentwise Euclidean (floor) division
/// by `CHUNK_DIM`, as a spec-level function.
pub open spec fn chunkpos_spec(bpos: BlockPosition) -> ChunkPosition {
    Vec3i {
        x: (bpos.x as int / (CHUNK_DIM as int)) as i32,
        y: (bpos.y as int / (CHUNK_DIM as int)) as i32,
        z: (bpos.z as int / (CHUNK_DIM as int)) as i32,
    }
}

/// The chunk containing a block: componentwise floor division by
/// `CHUNK_DIM`, correct for negative coordinates as well.
pub fn chunkpos_from_blockpos(bpos: BlockPosition) -> (cpos: ChunkPosition)
    ensures
        cpos.x == bpos.x as int / (CHUNK_DIM as int),
        cpos.y == bpos.y as int / (CHUNK_DIM as int),
        cpos.z == bpos.z as int / (CHUNK_DIM as int),
        cpos == chunkpos_spec(bpos),
{
    Vec3i {
        x: coord_div_floor(bpos.x),
        y: coord_div_floor(bpos.y),
        z: coord_div_floor(bpos.z),
    }
}

/// The index of a block within its chunk's dense Y-major, then Z, then X
/// array: `x + CHUNK_DIM * z + CHUNK_DIM2 * y` over the intra-chunk offsets.
pub fn blockidx_from_blockpos(bpos: BlockPosition) -> (idx: usize)
    ensures
        idx == blockidx_spec(bpos),
        idx < crate::CHUNK_DIM3,
{
    let ix = coord_rem_floor(bpos.x) as usize;
    let iy = coord_rem_floor(bpos.y) as usize;
    let iz = coord_rem_floor(bpos.z) as usize;
    ix + CHUNK_DIM * iz + CHUNK_DIM2 * iy
}

/// The intra-chunk array index of a block position, over the Euclidean
/// remainders of its coordinates.
pub open spec fn blockidx_spec(bpos: BlockPosition) -> int {
    (bpos.x as int % (CHUNK_DIM as int)) + (CHUNK_DIM as int) * (bpos.z as int % (CHUNK_DIM as int))
        + (CHUNK_DIM2 as int) * (bpos.y as int % (CHUNK_DIM as int))
}

} // verus!
