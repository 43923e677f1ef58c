use noise::NoiseFn;
use noise::OpenSimplex;
use std::sync::Arc;
use voxelcore::chunk::UncompressedChunk;
use voxelcore::chunk::VChunk;
use voxelcore::chunk::VoxelDatum;
use voxelcore::raycast::axis_normal;
use voxelcore::raycast::probe_block;
use voxelcore::raycast::raycast_iters;
use voxelcore::raycast::select_axis;
use voxelcore::raycast::Hit;
use voxelcore::raycast::RayWalkState;
use voxelcore::store::VCache;
use voxelcore::store::WVoxels;
use voxelcore::geometry::Vec2i;
use voxelcore::geometry::Vec3i;
use voxelcore::registry::TextureMapping;
use voxelcore::registry::VoxelDefinition;
use voxelcore::registry::VoxelRegistry;
use voxelcore::terrain::cell_of_pos;
use voxelcore::terrain::cell_seed;
use voxelcore::terrain::density_seed;
use voxelcore::terrain::elevation_map_seed;
use voxelcore::terrain::elevation_tier;
use voxelcore::terrain::generate_chunk_blocks;
use voxelcore::terrain::height_map_seed;
use voxelcore::terrain::seed32;
use voxelcore::terrain::voxel_for;
use voxelcore::terrain::BlockIds;
use voxelcore::terrain::CellGen;
use voxelcore::terrain::VPElevation;
use voxelcore::terrain::VoxelParams;
use voxelcore::CHUNK_DIM;
use voxelcore::CHUNK_DIM2;
use voxelcore::CHUNK_DIM3;

fn def(id: u32, name: &str, has_hitbox: bool) -> VoxelDefinition {
    VoxelDefinition {
        id,
        name: String::from(name),
        has_mesh: id != 0,
        has_collisions: has_hitbox,
        has_hitbox,
        texture_mapping: TextureMapping::TiledSingle(0),
    }
}

fn test_registry() -> VoxelRegistry {
    let mut reg = VoxelRegistry::new();
    reg.register(def(0, "core:void", false));
    reg.register(def(1, "core:grass", true));
    reg.register(def(2, "core:dirt", true));
    reg.register(def(3, "core:stone", true));
    reg.register(def(4, "core:snow_grass", true));
    reg
}

/// The floating-point half of the standard generator: the layered noise
/// fields; the integer half lives in the library.
pub struct TestGen {
    pub cell_gen: CellGen,
    height_map_gen: Vec<OpenSimplex>,
    elevation_map_gen: OpenSimplex,
}

impl TestGen {
    pub fn new(seed: u64) -> TestGen {
        let mut height_map_gen = Vec::new();
        for i in 0..5u32 {
            height_map_gen.push(OpenSimplex::new(height_map_seed(seed, i)));
        }
        TestGen {
            cell_gen: CellGen::new(seed),
            height_map_gen,
            elevation_map_gen: OpenSimplex::new(elevation_map_seed(seed)),
        }
    }

    fn elevation_noise(&self, pos: Vec2i) -> f64 {
        let scale_factor = 200.0;
        self.elevation_map_gen.get([pos.x as f64 / scale_factor, pos.y as f64 / scale_factor])
            + 0.5
    }

    fn h_n(&self, i: usize, p: [f64; 2]) -> f64 {
        self.height_map_gen[i].get(p) + 0.5
    }

    fn h_rn(&self, i: usize, p: [f64; 2]) -> f64 {
        2.0 * (0.5 - (0.5 - self.h_n(i, p)).abs())
    }

    fn plains_height_noise(&self, pos: Vec2i) -> f64 {
        let sf = 60.0;
        let p = [pos.x as f64 / sf, pos.y as f64 / sf];
        (0.75 * self.h_n(0, p) + 0.25 * self.h_n(1, [p[0] * 2.0, p[1] * 2.0])) * 5.0 + 10.0
    }

    fn hills_height_noise(&self, pos: Vec2i) -> f64 {
        let sf = 80.0;
        let p = [pos.x as f64 / sf, pos.y as f64 / sf];
        (0.60 * self.h_n(0, p) + 0.25 * self.h_n(1, [p[0] * 1.5, p[1] * 1.5]) + 0.15 * self.h_n(
            2,
            [p[0] * 3.0, p[1] * 3.0],
        )) * 30.0 + 15.0
    }

    fn mountains_height_noise(&self, pos: Vec2i) -> f64 {
        let sf = 100.0;
        let p = [pos.x as f64 / sf, pos.y as f64 / sf];
        let h0 = 0.50 * self.h_rn(0, p);
        let h01 = 0.25 * self.h_rn(1, [p[0] * 2.0, p[1] * 2.0]) + h0;
        (h01 + (h01 / 0.75) * 0.15 * self.h_n(2, [p[0] * 5.0, p[1] * 5.0]) + (h01 / 0.75) * 0.05
            * self.h_rn(3, [p[0] * 9.0, p[1] * 9.0])) * 100.0 + 40.0
    }

    pub fn calc_voxel_params(&mut self, pos: Vec2i) -> VoxelParams {
        let (_, nearest) = self.cell_gen.find_nearest_cell_point(pos);
        let cec = self.elevation_noise(nearest);
        let ec = self.elevation_noise(pos);

        let height: f64;
        if ec < 0.5 {
            height = self.plains_height_noise(pos);
        } else if ec < 0.6 {
            let nlin = (ec - 0.5) / 0.1;
            let olin = 1.0 - nlin;
            height = olin * self.plains_height_noise(pos) + nlin * self.hills_height_noise(pos);
        } else if ec < 0.8 {
            height = self.hills_height_noise(pos);
        } else if ec < 0.9 {
            let nlin = (ec - 0.8) / 0.1;
            let olin = 1.0 - nlin;
            height = olin * self.hills_height_noise(pos) + nlin * self.mountains_height_noise(pos);
        } else {
            height = self.mountains_height_noise(pos);
        }

        let bnoise = self.height_map_gen[4].get([pos.x as f64, pos.y as f64]);
        let elevation = elevation_tier(cec < 0.5, cec < 0.6, cec < 0.8, cec < 0.9, bnoise < 0.0);
        VoxelParams { height: height.round() as i32, elevation }
    }

    pub fn column_params(&mut self, cpos: Vec3i) -> Vec<VoxelParams> {
        let mut params = Vec::with_capacity(CHUNK_DIM2);
        for i in 0..CHUNK_DIM2 {
            let x = (i % CHUNK_DIM) as i32 + cpos.x * CHUNK_DIM as i32;
            let z = ((i / CHUNK_DIM) % CHUNK_DIM) as i32 + cpos.z * CHUNK_DIM as i32;
            params.push(self.calc_voxel_params(Vec2i { x, y: z }));
        }
        params
    }

    pub fn generate_chunk(&mut self, chunk: &mut UncompressedChunk, ids: &BlockIds) {
        let params = self.column_params(chunk.position);
        generate_chunk_blocks(chunk, &params, ids);
    }
}

#[test]
fn seed_derivation_values() {
    assert_eq!(seed32(0), 0);
    assert_eq!(seed32(0xFFFF_FFFF_0000_0000), 0xFFFF_FFFF);
    assert_eq!(height_map_seed(0, 0), 0);
    assert_eq!(height_map_seed(0, 1), 0xCAFE_BABE);
    assert_eq!(height_map_seed(0, 2), 0xCAFE_BABEu32.wrapping_mul(2));
    assert_eq!(elevation_map_seed(0), 0xDEAD_BEEF);
    assert_eq!(density_seed(0), 0x1407_C0FE);
    assert_eq!(cell_seed(7, Vec2i { x: 0, y: 0 }), 7);
    assert_eq!(cell_seed(0, Vec2i { x: 1, y: 2 }), (1u64 << 32) | 2);
    assert_eq!(cell_seed(0, Vec2i { x: 0, y: -1 }), 0xFFFF_FFFF);
}

#[test]
fn cell_of_pos_truncates() {
    assert_eq!(cell_of_pos(Vec2i { x: 31, y: 33 }), Vec2i { x: 0, y: 1 });
    // Integer vector division truncates toward zero.
    assert_eq!(cell_of_pos(Vec2i { x: -31, y: -33 }), Vec2i { x: 0, y: -1 });
}

#[test]
fn cell_points_deterministic_across_workers() {
    // Two independent workers (separate caches) place identical points.
    let mut a = CellGen::new(42);
    let mut b = CellGen::new(42);
    for cx in -2..3 {
        for cy in -2..3 {
            let cell = Vec2i { x: cx, y: cy };
            assert_eq!(a.get_cell_points(cell), b.get_cell_points(cell));
        }
    }
    // Asking again (now cached) returns the same points.
    let cell = Vec2i { x: -2, y: 1 };
    let first = a.get_cell_points(cell);
    assert_eq!(a.get_cell_points(cell), first);
    // A different seed moves at least one point of this cell.
    let mut c = CellGen::new(43);
    assert_ne!(c.get_cell_points(cell), first);
}

#[test]
fn cell_points_lie_in_their_cell_footprint() {
    let mut g = CellGen::new(7);
    for cx in -1..2 {
        for cy in -1..2 {
            let pts = g.get_cell_points(Vec2i { x: cx, y: cy });
            for p in pts {
                assert!(p.x >= cx * 32 - 4 && p.x <= cx * 32 + 27);
                assert!(p.y >= cy * 32 - 4 && p.y <= cy * 32 + 27);
            }
        }
    }
}

#[test]
fn nearest_cell_point_is_nearest() {
    let mut g = CellGen::new(1);
    let pos = Vec2i { x: 10, y: -20 };
    let (d, p) = g.find_nearest_cell_point(pos);
    let dx = (p.x - pos.x) as i64;
    let dy = (p.y - pos.y) as i64;
    assert_eq!(d as i64, dx * dx + dy * dy);
    // No candidate from the 3x3 neighbourhood is closer.
    let cell0 = cell_of_pos(pos);
    for cdx in -1..2 {
        for cdy in -1..2 {
            let pts = g.get_cell_points(Vec2i { x: cell0.x + cdx, y: cell0.y + cdy });
            for q in pts {
                let qx = (q.x - pos.x) as i64;
                let qy = (q.y - pos.y) as i64;
                assert!(qx * qx + qy * qy >= d as i64);
            }
        }
    }
}

#[test]
fn elevation_tier_banding() {
    assert_eq!(elevation_tier(true, true, true, true, false), VPElevation::LowLand);
    assert_eq!(elevation_tier(false, true, true, true, true), VPElevation::LowLand);
    assert_eq!(elevation_tier(false, true, true, true, false), VPElevation::Hill);
    assert_eq!(elevation_tier(false, false, true, true, true), VPElevation::Hill);
    assert_eq!(elevation_tier(false, false, false, true, true), VPElevation::Hill);
    assert_eq!(elevation_tier(false, false, false, true, false), VPElevation::Mountain);
    assert_eq!(elevation_tier(false, false, false, false, true), VPElevation::Mountain);
}

#[test]
fn block_ids_from_registry() {
    let reg = test_registry();
    let ids = BlockIds::from_registry(&reg).unwrap();
    assert_eq!((ids.air, ids.grass, ids.snow_grass, ids.dirt, ids.stone), (0, 1, 4, 2, 3));

    let mut incomplete = VoxelRegistry::new();
    incomplete.register(def(0, "core:void", false));
    assert!(BlockIds::from_registry(&incomplete).is_none());
}

#[test]
fn voxel_layering_rule() {
    let ids = BlockIds { air: 0, grass: 1, snow_grass: 4, dirt: 2, stone: 3 };
    let lowland = VoxelParams { height: 12, elevation: VPElevation::LowLand };
    assert_eq!(voxel_for(13, lowland, &ids), ids.air);
    assert_eq!(voxel_for(12, lowland, &ids), ids.grass);
    assert_eq!(voxel_for(11, lowland, &ids), ids.dirt);
    assert_eq!(voxel_for(7, lowland, &ids), ids.dirt);
    assert_eq!(voxel_for(6, lowland, &ids), ids.stone);
    assert_eq!(voxel_for(-5, lowland, &ids), ids.stone);
    // Snow grass only on mountain surface above the snow altitude.
    let peak = VoxelParams { height: 100, elevation: VPElevation::Mountain };
    assert_eq!(voxel_for(100, peak, &ids), ids.snow_grass);
    let low_mountain = VoxelParams { height: 60, elevation: VPElevation::Mountain };
    assert_eq!(voxel_for(60, low_mountain, &ids), ids.grass);
    let high_hill = VoxelParams { height: 100, elevation: VPElevation::Hill };
    assert_eq!(voxel_for(100, high_hill, &ids), ids.grass);
}

#[test]
fn terrain_determinism_across_workers() {
    // Two workers with independent generators (and caches) produce identical
    // chunk content for the same seed and chunk position.
    let reg = test_registry();
    let ids = BlockIds::from_registry(&reg).unwrap();
    let mut g1 = TestGen::new(99);
    let mut g2 = TestGen::new(99);

    let mut c1 = UncompressedChunk::new();
    c1.position = Vec3i::new(0, 0, 0);
    g1.generate_chunk(&mut c1, &ids);

    let mut c2 = UncompressedChunk::new();
    c2.position = Vec3i::new(0, 0, 0);
    g2.generate_chunk(&mut c2, &ids);

    for i in 0..CHUNK_DIM3 {
        assert_eq!(c1.blocks_yzx[i], c2.blocks_yzx[i]);
    }

    // Repeating the generation with the first worker's warmed cache changes
    // nothing either.
    let mut c3 = UncompressedChunk::new();
    c3.position = Vec3i::new(0, 0, 0);
    g1.generate_chunk(&mut c3, &ids);
    for i in 0..CHUNK_DIM3 {
        assert_eq!(c1.blocks_yzx[i], c3.blocks_yzx[i]);
    }
}

#[test]
fn generated_chunk_follows_layering() {
    let reg = test_registry();
    let ids = BlockIds::from_registry(&reg).unwrap();
    let mut g = TestGen::new(0);
    let params = g.column_params(Vec3i::new(0, 0, 0));

    let mut chunk = UncompressedChunk::new();
    chunk.position = Vec3i::new(0, 0, 0);
    let mut g2 = TestGen::new(0);
    g2.generate_chunk(&mut chunk, &ids);

    for i in 0..CHUNK_DIM3 {
        let xc = i % CHUNK_DIM;
        let zc = (i / CHUNK_DIM) % CHUNK_DIM;
        let yc = (i / CHUNK_DIM2) % CHUNK_DIM;
        let vp = params[xc + CHUNK_DIM * zc];
        assert_eq!(chunk.blocks_yzx[i].id, voxel_for(yc as i32, vp, &ids));
    }
}

/// The floating-point shell of the ray traversal, driven over the library's
/// verified integer stepping; used by the end-to-end scenario below.
fn execute_raycast(
    world: &WVoxels,
    cache: &mut VCache,
    start: [f64; 3],
    direction: [f64; 3],
    distance_limit: f64,
) -> (Hit, [f64; 3], f64) {
    let limit = distance_limit.min(1000.0);
    let dir: Vec<f64> = direction
        .iter()
        .map(|c| if *c == 0.0 { f64::EPSILON } else { *c })
        .collect();
    let offset_start = [start[0] + 0.5, start[1] + 0.5, start[2] + 0.5];
    let bpos0 = Vec3i::new(
        offset_start[0].floor() as i32,
        offset_start[1].floor() as i32,
        offset_start[2].floor() as i32,
    );
    let end_bpos = Vec3i::new(
        (offset_start[0] + dir[0] * distance_limit).floor() as i32,
        (offset_start[1] + dir[1] * distance_limit).floor() as i32,
        (offset_start[2] + dir[2] * distance_limit).floor() as i32,
    );
    let iters = raycast_iters(bpos0, end_bpos);
    let step = Vec3i::new(
        dir[0].signum() as i32,
        dir[1].signum() as i32,
        dir[2].signum() as i32,
    );
    let mut state = RayWalkState::new(bpos0, step);
    let next_boundary = [
        (bpos0.x + if step.x >= 0 { 1 } else { 0 }) as f64,
        (bpos0.y + if step.y >= 0 { 1 } else { 0 }) as f64,
        (bpos0.z + if step.z >= 0 { 1 } else { 0 }) as f64,
    ];
    let mut t_max = [
        (next_boundary[0] - offset_start[0]) / dir[0],
        (next_boundary[1] - offset_start[1]) / dir[1],
        (next_boundary[2] - offset_start[2]) / dir[2],
    ];
    let t_delta = [
        step.x as f64 / dir[0],
        step.y as f64 / dir[1],
        step.z as f64 / dir[2],
    ];
    let mut normal = axis_normal(step, 0);
    let mut normal_datum: Option<VoxelDatum> = None;
    let mut t_total = 0.0f64;
    let mut chunk = world.get_uncompressed_chunk(cache, state.cpos);

    for _ in 0..iters {
        if let Some(ch) = &chunk {
            let idx = state.local_blockidx();
            let (datum, selectable) = probe_block(ch, &world.registry, idx);
            if selectable {
                let position = state.world_block();
                let hit_point = [
                    start[0] + dir[0] * t_total,
                    start[1] + dir[1] * t_total,
                    start[2] + dir[2] * t_total,
                ];
                let dx = hit_point[0] - start[0];
                let dy = hit_point[1] - start[1];
                let dz = hit_point[2] - start[2];
                let distance = (dx * dx + dy * dy + dz * dz).sqrt().min(limit);
                return (
                    Hit::Voxel { position, datum, normal, normal_datum },
                    hit_point,
                    distance,
                );
            }
            normal_datum = Some(datum);
        } else {
            normal_datum = None;
        }

        let axis = select_axis(t_max[0] < t_max[1], t_max[0] < t_max[2], t_max[1] < t_max[2]);
        let crossed = state.advance(axis);
        if crossed {
            chunk = world.get_uncompressed_chunk(cache, state.cpos);
        }
        t_total = t_max[axis];
        t_max[axis] += t_delta[axis];
        normal = axis_normal(step, axis);
    }

    (
        Hit::Nothing,
        [
            start[0] + dir[0] * limit,
            start[1] + dir[1] * limit,
            start[2] + dir[2] * limit,
        ],
        limit,
    )
}

#[test]
fn end_to_end_generate_and_raycast() {
    // Generate the terrain around the origin with seed 0, stack the chunks
    // into a store, and confirm a vertical ray finds exactly the surface
    // block the generator computed.
    let reg = Arc::new(test_registry());
    let ids = BlockIds::from_registry(&reg).unwrap();
    let mut world = WVoxels::new(reg);
    let mut gen = TestGen::new(0);

    for cy in 0..6 {
        let mut uc = UncompressedChunk::new();
        uc.position = Vec3i::new(0, cy, 0);
        gen.generate_chunk(&mut uc, &ids);
        let mut vc = VChunk::new();
        vc.position = uc.position;
        vc.compress(&uc);
        world.insert_chunk(vc);
    }

    // The generator's own surface height for the column at the world origin.
    let mut gen2 = TestGen::new(0);
    let vp = gen2.calc_voxel_params(voxelcore::geometry::Vec2i { x: 0, y: 0 });
    let h = vp.height;
    assert!(h >= 0 && h < 150, "surface height {h} out of the generated range");

    // Blocks below the surface are stone or dirt per the layering rule,
    // blocks above are void.
    let mut cache = VCache::new();
    for y in 0..(6 * 32) {
        let got = world
            .get_block(&mut cache, Vec3i::new(0, y, 0))
            .expect("column is generated");
        if y < h - 5 {
            assert_eq!(got.id, ids.stone);
        } else if y < h {
            assert_eq!(got.id, ids.dirt);
        } else if y == h {
            assert!(got.id == ids.grass || got.id == ids.snow_grass);
        } else {
            assert_eq!(got.id, ids.air);
        }
    }

    // A vertical ray from high above the surface hits exactly that block.
    let (hit, _, _) = execute_raycast(
        &world,
        &mut cache,
        [0.0, 185.0, 0.0],
        [0.0, -1.0, 0.0],
        400.0,
    );
    match hit {
        Hit::Voxel { position, datum, .. } => {
            assert_eq!(position, Vec3i::new(0, h, 0));
            assert!(datum.id == ids.grass || datum.id == ids.snow_grass);
        },
        _ => panic!("expected to hit the generated surface"),
    }
}
