//! Integer core of the procedural terrain generator.
//!
//! Terrain is a deterministic function of a world seed and a chunk position.
//! A square supergrid of cells (one cell per chunk footprint) owns four
//! pseudo-random feature points each, placed by a xoshiro256** generator
//! seeded from the world seed and the cell coordinates; a column's dominant
//! feature point is the nearest of the candidates from the surrounding 3x3
//! cells. The smooth height fields and the elevation-class noise are sampled
//! from floating-point noise generators by the caller; this module holds
//! everything integer, verified: seed derivation, feature-point placement
//! (with its bounded per-worker cache), nearest-point selection, the
//! elevation-tier banding decision, and the per-voxel layering rule that
//! turns a column's parameters into block types.
use crate::chunk::UncompressedChunk;
use crate::chunk::VoxelDatum;
use crate::geometry::Vec2i;
use crate::registry::find_by_name;
use crate::registry::VoxelRegistry;
use crate::CHUNK_DIM;
use crate::CHUNK_DIM2;
use crate::CHUNK_DIM3;
use lru::LruCache;
use rand_xoshiro::Xoshiro256StarStar;
use vstd::prelude::*;

verus! {

/// Side length of one supergrid cell, in blocks (one chunk footprint).
pub const SUPERGRID_SIZE: i32 = 32;

/// Capacity of one worker's cell-point cache, in cells.
pub const CELL_CACHE_SIZE: usize = 64;

#[verifier::external_type_specification]
#[verifier::external_body]
pub struct ExXoshiro256StarStar(Xoshiro256StarStar);

/// The stream of 32-bit draws of a xoshiro256** generator seeded from
/// `seed`, by draw position. The algorithm is a fixed pure function, so the
/// stream depends on the seed alone.
pub uninterp spec fn xoshiro_u32(seed: u64, i: int) -> u32;

/// The seed a generator was created from.
pub uninterp spec fn rng_seed(r: Xoshiro256StarStar) -> u64;

/// How many 32-bit draws have been taken from a generator.
pub uninterp spec fn rng_pos(r: Xoshiro256StarStar) -> int;

/// Relies on rand_core's SeedableRng::seed_from_u64 for Xoshiro256StarStar:
/// seeding expands the seed through SplitMix64, a pure function, so two
/// generators made from the same seed are in the same state.
#[verifier::external_body]
fn xoshiro_from_seed(seed: u64) -> (r: Xoshiro256StarStar)
    ensures
        rng_seed(r) == seed,
        rng_pos(r) == 0,
{
    <Xoshiro256StarStar as rand_xoshiro::rand_core::SeedableRng>::seed_from_u64(seed)
}

/// Relies on rand_core's Rng::next_u32 for Xoshiro256StarStar: the next draw
/// is a pure function of the generator state, that is, of the seed and of how
/// many draws were already taken.
#[verifier::external_body]
fn xoshiro_next_u32(r: &mut Xoshiro256StarStar) -> (v: u32)
    ensures
        v == xoshiro_u32(rng_seed(*old(r)), rng_pos(*old(r))),
        rng_seed(*final(r)) == rng_seed(*old(r)),
        rng_pos(*final(r)) == rng_pos(*old(r)) + 1,
{
    rand_xoshiro::rand_core::Rng::next_u32(r)
}

/// The 32-bit seed all noise generators are derived from: the world seed
/// folded onto itself.
pub open spec fn seed32_spec(seed: u64) -> u32 {
    (seed ^ (seed >> 32u64)) as u32
}

/// Folds the world seed to the 32-bit seed the noise generators derive from.
pub fn seed32(seed: u64) -> (s: u32)
    ensures
        s == seed32_spec(seed),
{
    (seed ^ (seed >> 32)) as u32
}

/// The seed of the `i`-th height-map noise generator (wrapping arithmetic).
pub open spec fn height_map_seed_spec(seed: u64, i: u32) -> u32 {
    (((seed32_spec(seed) + (i * 0xCAFE_BABE) % 0x1_0000_0000) % 0x1_0000_0000)) as u32
}

/// Derives the seed of the `i`-th height-map noise generator.
pub fn height_map_seed(seed: u64, i: u32) -> (s: u32)
    ensures
        s == height_map_seed_spec(seed, i),
{
    seed32(seed).wrapping_add(i.wrapping_mul(0xCAFE_BABE))
}

/// Derives the seed of the elevation-class noise generator.
pub fn elevation_map_seed(seed: u64) -> (s: u32)
    ensures
        s == seed32_spec(seed) ^ 0xDEAD_BEEF,
{
    seed32(seed) ^ 0xDEAD_BEEF
}

/// Derives the seed of the density noise generator.
pub fn density_seed(seed: u64) -> (s: u32)
    ensures
        s == seed32_spec(seed) ^ 0x1407_C0FE,
{
    seed32(seed) ^ 0x1407_C0FE
}

/// The per-cell generator seed: the world seed XORed with the packed cell
/// coordinates, so the same cell under the same world seed always places the
/// same feature points.
pub open spec fn cell_seed_spec(seed: u64, cell: Vec2i) -> u64 {
    seed ^ (((cell.x as u64) << 32u64) | (cell.y as u64 & 0xFFFF_FFFF))
}

/// Derives the per-cell generator seed.
pub fn cell_seed(seed: u64, cell: Vec2i) -> (s: u64)
    ensures
        s == cell_seed_spec(seed, cell),
{
    seed ^ (((cell.x as u64) << 32) | (cell.y as u64 & 0xFFFF_FFFF))
}

/// The base intra-cell offset of the `i`-th feature point (x component).
pub open spec fn point_base_x(i: int) -> int {
    if i == 0 {
        SUPERGRID_SIZE as int / 4
    } else if i == 1 {
        3 * (SUPERGRID_SIZE as int) / 4
    } else if i == 2 {
        0
    } else {
        SUPERGRID_SIZE as int / 2
    }
}

/// The base intra-cell offset of the `i`-th feature point (y component).
pub open spec fn point_base_y(i: int) -> int {
    if i < 2 {
        SUPERGRID_SIZE as int / 4
    } else {
        3 * (SUPERGRID_SIZE as int) / 4
    }
}

/// The `i`-th feature point of a cell: the cell origin plus the point's base
/// offset, jittered by two bounded draws of the cell's generator.
pub open spec fn spec_cell_point(seed: u64, cell: Vec2i, i: int) -> Vec2i {
    let cs = cell_seed_spec(seed, cell);
    let m = SUPERGRID_SIZE as int / 4;
    let xoff = xoshiro_u32(cs, 2 * i) % (m as u32) - m / 2;
    let yoff = xoshiro_u32(cs, 2 * i + 1) % (m as u32) - m / 2;
    Vec2i {
        x: (cell.x * (SUPERGRID_SIZE as int) + point_base_x(i) + xoff) as i32,
        y: (cell.y * (SUPERGRID_SIZE as int) + point_base_y(i) + yoff) as i32,
    }
}

/// Coordinate bound under which cell arithmetic cannot overflow `i32`.
pub const CELL_COORD_BOUND: i32 = 0x0100_0000;

/// Computes the four feature points of a cell by drawing the jitter from a
/// fresh generator under the cell's seed.
fn compute_cell_points(seed: u64, cell: Vec2i) -> (pts: [Vec2i; 4])
    requires
        -CELL_COORD_BOUND <= cell.x <= CELL_COORD_BOUND,
        -CELL_COORD_BOUND <= cell.y <= CELL_COORD_BOUND,
    ensures
        forall|i: int| 0 <= i < 4 ==> pts[i] == spec_cell_point(seed, cell, i),
{
    let cs = cell_seed(seed, cell);
    let mut rng = xoshiro_from_seed(cs);
    let m = SUPERGRID_SIZE / 4;
    let bases: [(i32, i32); 4] = [
        (SUPERGRID_SIZE / 4, SUPERGRID_SIZE / 4),
        (3 * SUPERGRID_SIZE / 4, SUPERGRID_SIZE / 4),
        (0, 3 * SUPERGRID_SIZE / 4),
        (SUPERGRID_SIZE / 2, 3 * SUPERGRID_SIZE / 4),
    ];
    let mut pts: [Vec2i; 4] = [Vec2i { x: 0, y: 0 }; 4];
    let mut i: usize = 0;
    while i < 4
        invariant
            0 <= i <= 4,
            rng_seed(rng) == cs,
            rng_pos(rng) == 2 * i,
            cs == cell_seed_spec(seed, cell),
            -CELL_COORD_BOUND <= cell.x <= CELL_COORD_BOUND,
            -CELL_COORD_BOUND <= cell.y <= CELL_COORD_BOUND,
            m == SUPERGRID_SIZE / 4,
            bases[0] == (8i32, 8i32),
            bases[1] == (24i32, 8i32),
            bases[2] == (0i32, 24i32),
            bases[3] == (16i32, 24i32),
            forall|k: int| 0 <= k < i ==> pts[k] == spec_cell_point(seed, cell, k),
        decreases 4 - i,
    {
        let xoff = (xoshiro_next_u32(&mut rng) % (m as u32)) as i32 - m / 2;
        let yoff = (xoshiro_next_u32(&mut rng) % (m as u32)) as i32 - m / 2;
        let px = cell.x * SUPERGRID_SIZE + bases[i].0 + xoff;
        let py = cell.y * SUPERGRID_SIZE + bases[i].1 + yoff;
        pts[i] = Vec2i { x: px, y: py };
        proof {
            assert(pts[i as int] == spec_cell_point(seed, cell, i as int));
        }
        i = i + 1;
    }
    pts
}

/// What a cell-point cache currently holds, keyed by cell coordinates.
pub uninterp spec fn cell_lru_contents(c: LruCache<Vec2i, [Vec2i; 4]>) -> Map<Vec2i, [Vec2i; 4]>;

/// Relies on lru::LruCache::new: a freshly created cache of the given
/// capacity holds nothing.
#[verifier::external_body]
fn cell_lru_new(cap: usize) -> (c: LruCache<Vec2i, [Vec2i; 4]>)
    requires
        cap >= 1,
    ensures
        forall|p: Vec2i| !cell_lru_contents(c).dom().contains(p),
{
    LruCache::new(std::num::NonZeroUsize::new(cap).unwrap())
}

/// Relies on lru::LruCache::get: returns the entry stored under the key, if
/// any; it only adjusts recency and leaves the held entries unchanged.
#[verifier::external_body]
fn cell_lru_get(c: &mut LruCache<Vec2i, [Vec2i; 4]>, k: &Vec2i) -> (r: Option<[Vec2i; 4]>)
    ensures
        cell_lru_contents(*final(c)) == cell_lru_contents(*old(c)),
        match r {
            Some(v) => cell_lru_contents(*old(c)).dom().contains(*k) && v == cell_lru_contents(
                *old(c),
            )[*k],
            None => !cell_lru_contents(*old(c)).dom().contains(*k),
        },
{
    c.get(k).copied()
}

/// Relies on lru::LruCache::put: afterwards the key maps to the value; every
/// other entry that survives keeps its old value (the least recently used
/// entry may have been evicted to stay within capacity, which is always at
/// least one).
#[verifier::external_body]
fn cell_lru_put(c: &mut LruCache<Vec2i, [Vec2i; 4]>, k: Vec2i, v: [Vec2i; 4])
    ensures
        cell_lru_contents(*final(c)).dom().contains(k),
        cell_lru_contents(*final(c))[k] == v,
        forall|k2: Vec2i|
            k2 != k && #[trigger] cell_lru_contents(*final(c)).dom().contains(k2)
                ==> cell_lru_contents(*old(c)).dom().contains(k2)
                && cell_lru_contents(*final(c))[k2] == cell_lru_contents(*old(c))[k2],
{
    let _ = c.put(k, v);
}

/// The integer feature-point generator of one worker: the world seed and a
/// bounded cache of already placed cell points. Each worker owns its own;
/// determinism of the points keeps duplicated caches from diverging.
pub struct CellGen {
    seed: u64,
    cell_points: LruCache<Vec2i, [Vec2i; 4]>,
}

impl CellGen {
    /// The world seed the generator derives everything from.
    pub closed spec fn spec_seed(self) -> u64 {
        self.seed
    }

    /// Every cached entry is exactly what `spec_cell_point` places for its
    /// cell under the current seed.
    pub closed spec fn wf(self) -> bool {
        forall|c: Vec2i| #[trigger]
            cell_lru_contents(self.cell_points).dom().contains(c) ==> forall|i: int|
                0 <= i < 4 ==> cell_lru_contents(self.cell_points)[c][i] == spec_cell_point(
                    self.seed,
                    c,
                    i,
                )
    }

    pub fn new(seed: u64) -> (g: CellGen)
        ensures
            g.wf(),
            g.spec_seed() == seed,
    {
        CellGen { seed, cell_points: cell_lru_new(CELL_CACHE_SIZE) }
    }

    /// The generator seed of one cell under this generator's world seed.
    pub fn get_seed(&self, cell: Vec2i) -> (s: u64)
        ensures
            s == cell_seed_spec(self.spec_seed(), cell),
    {
        cell_seed(self.seed, cell)
    }

    /// Changes the world seed and drops every cached cell (its points were
    /// placed under the old seed).
    pub fn set_seed(&mut self, seed: u64)
        ensures
            final(self).wf(),
            final(self).spec_seed() == seed,
    {
        self.seed = seed;
        self.cell_points = cell_lru_new(CELL_CACHE_SIZE);
    }

    /// The four feature points of a cell, from the cache when already placed,
    /// placed and cached otherwise. Always exactly the seed-determined points.
    pub fn get_cell_points(&mut self, cell: Vec2i) -> (pts: [Vec2i; 4])
        requires
            old(self).wf(),
            -CELL_COORD_BOUND <= cell.x <= CELL_COORD_BOUND,
            -CELL_COORD_BOUND <= cell.y <= CELL_COORD_BOUND,
        ensures
            final(self).wf(),
            final(self).spec_seed() == old(self).spec_seed(),
            forall|i: int|
                0 <= i < 4 ==> pts[i] == spec_cell_point(old(self).spec_seed(), cell, i),
    {
        let cached = cell_lru_get(&mut self.cell_points, &cell);
        match cached {
            Some(pts) => pts,
            None => {
                let pts = compute_cell_points(self.seed, cell);
                let ghost pre = self.cell_points;
                cell_lru_put(&mut self.cell_points, cell, pts);
                proof {
                    assert forall|c: Vec2i| #[trigger]
                        cell_lru_contents(self.cell_points).dom().contains(c) implies forall|
                        i: int,
                    |
                        0 <= i < 4 ==> cell_lru_contents(self.cell_points)[c][i] == spec_cell_point(
                            self.seed,
                            c,
                            i,
                        ) by {
                        if c != cell {
                            assert(cell_lru_contents(pre).dom().contains(c));
                            assert(cell_lru_contents(self.cell_points)[c] == cell_lru_contents(
                                pre,
                            )[c]);
                        }
                    }
                }
                pts
            },
        }
    }
}

impl Default for CellGen {
    /// A generator under seed 0.
    fn default() -> (g: CellGen)
        ensures
            g.wf(),
            g.spec_seed() == 0,
    {
        CellGen::new(0)
    }
}

/// Squared Euclidean distance between two points.
pub open spec fn spec_dist2(a: Vec2i, b: Vec2i) -> int {
    (a.x - b.x) * (a.x - b.x) + (a.y - b.y) * (a.y - b.y)
}

/// Squared Euclidean distance between two nearby points.
pub fn distance2(a: Vec2i, b: Vec2i) -> (d: i32)
    requires
        -30000 <= a.x - b.x <= 30000,
        -30000 <= a.y - b.y <= 30000,
    ensures
        d == spec_dist2(a, b),
{
    let dx = (a.x as i64) - (b.x as i64);
    let dy = (a.y as i64) - (b.y as i64);
    proof {
        assert(0 <= dx * dx <= 900_000_000 && 0 <= dy * dy <= 900_000_000) by (nonlinear_arith)
            requires
                -30000 <= dx <= 30000,
                -30000 <= dy <= 30000,
        ;
    }
    (dx * dx + dy * dy) as i32
}

/// Truncating integer division (toward zero), the semantics of `/` on the
/// machine integers; `/` on `int` is Euclidean.
pub open spec fn spec_div_trunc(a: int, b: int) -> int {
    if a >= 0 {
        a / b
    } else {
        -((-a) / b)
    }
}

/// The supergrid cell owning a position: componentwise truncating division
/// by the cell size.
pub open spec fn spec_cell_of(pos: Vec2i) -> Vec2i {
    Vec2i {
        x: spec_div_trunc(pos.x as int, SUPERGRID_SIZE as int) as i32,
        y: spec_div_trunc(pos.y as int, SUPERGRID_SIZE as int) as i32,
    }
}

/// The supergrid cell owning a position.
pub fn cell_of_pos(pos: Vec2i) -> (c: Vec2i)
    ensures
        c == spec_cell_of(pos),
{
    Vec2i { x: pos.x / SUPERGRID_SIZE, y: pos.y / SUPERGRID_SIZE }
}

/// A coordinate and its truncated quotient by the cell size are within one
/// cell of each other.
proof fn lemma_div_trunc_close(a: int)
    ensures
        -31 <= a - (SUPERGRID_SIZE as int) * spec_div_trunc(a, SUPERGRID_SIZE as int) <= 31,
{
    if a >= 0 {
        assert(a == 32 * (a / 32) + a % 32);
    } else {
        assert((-a) == 32 * ((-a) / 32) + (-a) % 32);
    }
}

/// Feature points stay within one jitter radius of their cell's footprint.
proof fn lemma_cell_point_close(seed: u64, cell: Vec2i, i: int)
    requires
        0 <= i < 4,
        -CELL_COORD_BOUND <= cell.x <= CELL_COORD_BOUND,
        -CELL_COORD_BOUND <= cell.y <= CELL_COORD_BOUND,
    ensures
        cell.x * (SUPERGRID_SIZE as int) - 4 <= spec_cell_point(seed, cell, i).x <= cell.x * (
        SUPERGRID_SIZE as int) + 27,
        cell.y * (SUPERGRID_SIZE as int) - 4 <= spec_cell_point(seed, cell, i).y <= cell.y * (
        SUPERGRID_SIZE as int) + 27,
{
    let cs = cell_seed_spec(seed, cell);
    assert(xoshiro_u32(cs, 2 * i) % 8u32 < 8);
    assert(xoshiro_u32(cs, 2 * i + 1) % 8u32 < 8);
}

/// The `k`-th candidate feature point around a cell, for `k` in `0 .. 36`:
/// four points from each cell of the 3x3 block around it, cells enumerated
/// row-major by x offset then y offset.
pub open spec fn spec_candidate(seed: u64, cell0: Vec2i, k: int) -> Vec2i {
    let c = k / 4;
    let i = k % 4;
    let cdx = c / 3 - 1;
    let cdy = c % 3 - 1;
    spec_cell_point(seed, Vec2i { x: (cell0.x + cdx) as i32, y: (cell0.y + cdy) as i32 }, i)
}

/// Position bound under which the 3x3 candidate search cannot overflow.
pub const POS_COORD_BOUND: i32 = 0x0080_0000;

impl CellGen {
    /// The nearest feature point to a position, among the candidates of the
    /// 3x3 block of cells around it: its squared distance and the point
    /// itself. Ties resolve to the earliest candidate in the fixed
    /// enumeration order, as the stable sort by distance would pick.
    pub fn find_nearest_cell_point(&mut self, pos: Vec2i) -> (r: (i32, Vec2i))
        requires
            old(self).wf(),
            -POS_COORD_BOUND <= pos.x <= POS_COORD_BOUND,
            -POS_COORD_BOUND <= pos.y <= POS_COORD_BOUND,
        ensures
            final(self).wf(),
            final(self).spec_seed() == old(self).spec_seed(),
            r.0 == spec_dist2(r.1, pos),
            exists|k: int|
                #![trigger spec_candidate(old(self).spec_seed(), spec_cell_of(pos), k)]
                0 <= k < 36 && r.1 == spec_candidate(old(self).spec_seed(), spec_cell_of(pos), k)
                    && forall|j: int|
                    0 <= j < k ==> spec_dist2(
                        spec_candidate(old(self).spec_seed(), spec_cell_of(pos), j),
                        pos,
                    ) > r.0,
            forall|k: int|
                0 <= k < 36 ==> spec_dist2(
                    #[trigger] spec_candidate(old(self).spec_seed(), spec_cell_of(pos), k),
                    pos,
                ) >= r.0,
    {
        let ghost sd = self.spec_seed();
        let cell0 = cell_of_pos(pos);
        proof {
            lemma_div_trunc_close(pos.x as int);
            lemma_div_trunc_close(pos.y as int);
        }
        let mut best_d: i32 = 0;
        let mut best_p = Vec2i { x: 0, y: 0 };
        let ghost mut best_k: int = 0;
        let mut first = true;
        let mut k: usize = 0;
        while k < 36
            invariant
                self.wf(),
                self.spec_seed() == sd,
                -POS_COORD_BOUND <= pos.x <= POS_COORD_BOUND,
                -POS_COORD_BOUND <= pos.y <= POS_COORD_BOUND,
                cell0 == spec_cell_of(pos),
                -31 <= pos.x - (SUPERGRID_SIZE as int) * cell0.x <= 31,
                -31 <= pos.y - (SUPERGRID_SIZE as int) * cell0.y <= 31,
                0 <= k <= 36,
                first ==> k == 0,
                !first ==> {
                    &&& 0 <= best_k < k
                    &&& best_p == spec_candidate(sd, cell0, best_k)
                    &&& best_d == spec_dist2(best_p, pos)
                    &&& forall|j: int|
                        0 <= j < best_k ==> spec_dist2(
                            #[trigger] spec_candidate(sd, cell0, j),
                            pos,
                        ) > best_d
                    &&& forall|j: int|
                        0 <= j < k ==> spec_dist2(
                            #[trigger] spec_candidate(sd, cell0, j),
                            pos,
                        ) >= best_d
                },
            decreases 36 - k,
        {
            let c = k / 4;
            let i = k % 4;
            let cdx = (c / 3) as i32 - 1;
            let cdy = (c % 3) as i32 - 1;
            let cell = Vec2i { x: cell0.x + cdx, y: cell0.y + cdy };
            let pts = self.get_cell_points(cell);
            let cand = pts[i];
            proof {
                assert(cand == spec_candidate(sd, cell0, k as int));
                lemma_cell_point_close(sd, cell, i as int);
            }
            let d = distance2(cand, pos);
            if first || d < best_d {
                best_d = d;
                best_p = cand;
                proof {
                    best_k = k as int;
                }
                first = false;
            }
            k = k + 1;
        }
        (best_d, best_p)
    }
}

/// The coarse elevation tier of a column.
#[derive(Copy, Clone, Debug, PartialEq, Eq, Structural)]
pub enum VPElevation {
    LowLand,
    Hill,
    Mountain,
}

impl Default for VPElevation {
    /// Lowland.
    fn default() -> (e: VPElevation)
        ensures
            e is LowLand,
    {
        VPElevation::LowLand
    }
}

/// The per-column parameters generation derives for each (x, z) column:
/// the surface height and the coarse elevation tier.
#[derive(Copy, Clone, Debug, PartialEq, Eq, Structural)]
pub struct VoxelParams {
    pub height: i32,
    pub elevation: VPElevation,
}

/// The elevation tier decided by the nearest feature point's elevation
/// class, banded at 0.5 / 0.6 / 0.8 / 0.9, with a noise-driven tie-break in
/// the two transition bands. The four flags are the strict comparisons of
/// the class against the band edges; the fifth says whether the tie-break
/// noise sample is negative.
pub open spec fn spec_elevation_tier(
    cec_lt_05: bool,
    cec_lt_06: bool,
    cec_lt_08: bool,
    cec_lt_09: bool,
    bnoise_neg: bool,
) -> VPElevation {
    if cec_lt_05 {
        VPElevation::LowLand
    } else if cec_lt_06 {
        if bnoise_neg {
            VPElevation::LowLand
        } else {
            VPElevation::Hill
        }
    } else if cec_lt_08 {
        VPElevation::Hill
    } else if cec_lt_09 {
        if bnoise_neg {
            VPElevation::Hill
        } else {
            VPElevation::Mountain
        }
    } else {
        VPElevation::Mountain
    }
}

/// Decides the elevation tier from the band comparisons of the nearest
/// point's elevation class and the tie-break noise sign (see
/// `spec_elevation_tier`). The comparisons must be consistent: a class below
/// one band edge is below every higher edge.
pub fn elevation_tier(
    cec_lt_05: bool,
    cec_lt_06: bool,
    cec_lt_08: bool,
    cec_lt_09: bool,
    bnoise_neg: bool,
) -> (t: VPElevation)
    requires
        cec_lt_05 ==> cec_lt_06,
        cec_lt_06 ==> cec_lt_08,
        cec_lt_08 ==> cec_lt_09,
    ensures
        t == spec_elevation_tier(cec_lt_05, cec_lt_06, cec_lt_08, cec_lt_09, bnoise_neg),
{
    if cec_lt_05 {
        VPElevation::LowLand
    } else if cec_lt_06 {
        if bnoise_neg {
            VPElevation::LowLand
        } else {
            VPElevation::Hill
        }
    } else if cec_lt_08 {
        VPElevation::Hill
    } else if cec_lt_09 {
        if bnoise_neg {
            VPElevation::Hill
        } else {
            VPElevation::Mountain
        }
    } else {
        VPElevation::Mountain
    }
}

/// The altitude above which mountain surface turns to snow grass.
pub const SNOW_ALTITUDE: i32 = 80;

/// How many layers of dirt lie under the surface before stone begins.
pub const DIRT_LAYERS: i32 = 5;

/// The block ids generation needs from the registry.
#[derive(Copy, Clone, Debug, PartialEq, Eq, Structural)]
pub struct BlockIds {
    pub air: u32,
    pub grass: u32,
    pub snow_grass: u32,
    pub dirt: u32,
    pub stone: u32,
}

impl BlockIds {
    /// Collects the required block definitions from the registry; `None`
    /// exactly when one of the required names is missing, which callers
    /// treat as a fatal configuration error.
    pub fn from_registry(registry: &VoxelRegistry) -> (r: Option<BlockIds>)
        ensures
            match r {
                Some(b) => {
                    &&& find_by_name(registry.defs(), "core:void"@) matches Some(d) && b.air
                        == d.id
                    &&& find_by_name(registry.defs(), "core:grass"@) matches Some(d) && b.grass
                        == d.id
                    &&& find_by_name(registry.defs(), "core:snow_grass"@) matches Some(d)
                        && b.snow_grass == d.id
                    &&& find_by_name(registry.defs(), "core:dirt"@) matches Some(d) && b.dirt
                        == d.id
                    &&& find_by_name(registry.defs(), "core:stone"@) matches Some(d) && b.stone
                        == d.id
                },
                None => {
                    ||| find_by_name(registry.defs(), "core:void"@) is None
                    ||| find_by_name(registry.defs(), "core:grass"@) is None
                    ||| find_by_name(registry.defs(), "core:snow_grass"@) is None
                    ||| find_by_name(registry.defs(), "core:dirt"@) is None
                    ||| find_by_name(registry.defs(), "core:stone"@) is None
                },
            },
    {
        let air = match registry.get_definition_from_name("core:void") {
            Some(d) => d.id,
            None => {
                return None;
            },
        };
        let grass = match registry.get_definition_from_name("core:grass") {
            Some(d) => d.id,
            None => {
                return None;
            },
        };
        let snow_grass = match registry.get_definition_from_name("core:snow_grass") {
            Some(d) => d.id,
            None => {
                return None;
            },
        };
        let dirt = match registry.get_definition_from_name("core:dirt") {
            Some(d) => d.id,
            None => {
                return None;
            },
        };
        let stone = match registry.get_definition_from_name("core:stone") {
            Some(d) => d.id,
            None => {
                return None;
            },
        };
        Some(BlockIds { air, grass, snow_grass, dirt, stone })
    }
}

/// The layering rule for one voxel: the exact surface block is grass (snow
/// grass on high mountain terrain), the next `DIRT_LAYERS` blocks down are
/// dirt, everything deeper is stone, and everything above the surface is
/// void.
pub open spec fn spec_voxel_for(y: int, vp: VoxelParams, ids: BlockIds) -> u32 {
    if y == vp.height {
        if vp.elevation is Mountain && y > SNOW_ALTITUDE as int {
            ids.snow_grass
        } else {
            ids.grass
        }
    } else if y < vp.height - DIRT_LAYERS as int {
        ids.stone
    } else if y < vp.height {
        ids.dirt
    } else {
        ids.air
    }
}

/// Applies the layering rule to one voxel at world altitude `y` in a column
/// with the given parameters.
pub fn voxel_for(y: i32, vp: VoxelParams, ids: &BlockIds) -> (id: u32)
    requires
        vp.height > i32::MIN + DIRT_LAYERS,
    ensures
        id == spec_voxel_for(y as int, vp, *ids),
{
    if y == vp.height {
        if vp.elevation == VPElevation::Mountain && y > SNOW_ALTITUDE {
            ids.snow_grass
        } else {
            ids.grass
        }
    } else if y < vp.height - DIRT_LAYERS {
        ids.stone
    } else if y < vp.height {
        ids.dirt
    } else {
        ids.air
    }
}

/// The column (x, z) index of a voxel's dense-array index, per the Y-major,
/// then Z, then X chunk order.
pub open spec fn spec_column_of(vidx: int) -> int {
    vidx % (CHUNK_DIM as int) + (CHUNK_DIM as int) * ((vidx / (CHUNK_DIM as int)) % (
    CHUNK_DIM as int))
}

/// The intra-chunk altitude of a voxel's dense-array index, per the Y-major,
/// then Z, then X chunk order.
pub open spec fn spec_y_of(vidx: int) -> int {
    (vidx / (CHUNK_DIM2 as int)) % (CHUNK_DIM as int)
}

/// Fills a chunk's voxels from the per-column parameters by the layering
/// rule: each voxel's type is `spec_voxel_for` of its world altitude and its
/// column's parameters. Position and dirty counter stay untouched.
pub fn generate_chunk_blocks(
    chunk: &mut UncompressedChunk,
    params: &Vec<VoxelParams>,
    ids: &BlockIds,
)
    requires
        old(chunk).wf(),
        params@.len() == CHUNK_DIM2,
        -0x0100_0000 <= old(chunk).position.y <= 0x0100_0000,
        forall|c: int| 0 <= c < CHUNK_DIM2 ==> (#[trigger] params@[c]).height > i32::MIN + DIRT_LAYERS,
    ensures
        final(chunk).wf(),
        final(chunk).position == old(chunk).position,
        final(chunk).dirty == old(chunk).dirty,
        forall|v: int|
            0 <= v < CHUNK_DIM3 ==> final(chunk).ids()[v] == spec_voxel_for(
                old(chunk).position.y * (CHUNK_DIM as int) + spec_y_of(v),
                params@[spec_column_of(v)],
                *ids,
            ),
{
    let base_y = chunk.position.y * (CHUNK_DIM as i32);
    let mut blocks: Vec<VoxelDatum> = Vec::new();
    let mut v: usize = 0;
    while v < CHUNK_DIM3
        invariant
            0 <= v <= CHUNK_DIM3,
            blocks@.len() == v,
            params@.len() == CHUNK_DIM2,
            -0x0100_0000 <= chunk.position.y <= 0x0100_0000,
            base_y == chunk.position.y * (CHUNK_DIM as int),
            forall|c: int|
                0 <= c < CHUNK_DIM2 ==> (#[trigger] params@[c]).height > i32::MIN + DIRT_LAYERS,
            forall|w: int|
                0 <= w < v ==> (#[trigger] blocks@[w]).id == spec_voxel_for(
                    chunk.position.y * (CHUNK_DIM as int) + spec_y_of(w),
                    params@[spec_column_of(w)],
                    *ids,
                ),
        decreases CHUNK_DIM3 - v,
    {
        let yc = (v / CHUNK_DIM2) % CHUNK_DIM;
        let xc = v % CHUNK_DIM;
        let zc = (v / CHUNK_DIM) % CHUNK_DIM;
        let col = xc + CHUNK_DIM * zc;
        let y = base_y + (yc as i32);
        let id = voxel_for(y, params[col], ids);
        blocks.push(VoxelDatum { id });
        v = v + 1;
    }
    chunk.blocks_yzx = blocks;
    proof {
        assert(chunk.ids().len() == CHUNK_DIM3);
    }
}

} // verus!
