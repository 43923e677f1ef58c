use std::sync::Arc;
use voxelcore::chunk::UncompressedChunk;
use voxelcore::chunk::VChunk;
use voxelcore::chunk::VoxelDatum;
use voxelcore::geometry::Vec3i;
use voxelcore::registry::TextureMapping;
use voxelcore::registry::VoxelDefinition;
use voxelcore::registry::VoxelRegistry;
use voxelcore::store::VCache;
use voxelcore::store::WVoxels;
use voxelcore::CHUNK_DIM3;

fn def(id: u32, name: &str, has_hitbox: bool) -> VoxelDefinition {
    VoxelDefinition {
        id,
        name: String::from(name),
        has_mesh: id != 0,
        has_collisions: has_hitbox,
        has_hitbox,
        texture_mapping: TextureMapping::TiledSingle(0),
    }
}

fn test_registry() -> VoxelRegistry {
    let mut reg = VoxelRegistry::new();
    reg.register(def(0, "core:void", false));
    reg.register(def(1, "core:grass", true));
    reg.register(def(2, "core:dirt", true));
    reg.register(def(3, "core:stone", true));
    reg.register(def(4, "core:snow_grass", true));
    reg
}

#[test]
fn registry_lookups() {
    let reg = test_registry();
    assert_eq!(reg.get_definition_from_name("core:grass").unwrap().id(), 1);
    assert_eq!(reg.get_definition_from_name("core:stone").unwrap().name(), "core:stone");
    assert!(reg.get_definition_from_name("core:lava").is_none());
    assert_eq!(reg.get_definition_from_id(4).unwrap().name(), "core:snow_grass");
    assert!(reg.get_definition_from_id(99).is_none());
    assert_eq!(reg.get_definition_from_datum(VoxelDatum { id: 2 }).unwrap().name(), "core:dirt");
}

#[test]
fn empty_store_has_no_chunks() {
    let mut cache = VCache::new();
    let world = WVoxels::new(Arc::new(test_registry()));
    assert!(world.get_uncompressed_chunk(&mut cache, Vec3i::new(0, 0, 0)).is_none());
    assert!(world.get_block(&mut cache, Vec3i::new(5, -3, 1)).is_none());
}

#[test]
fn store_round_trip_through_compression() {
    let mut cache = VCache::new();
    let mut world = WVoxels::new(Arc::new(test_registry()));
    let mut uc = UncompressedChunk::new();
    uc.position = Vec3i::new(2, -1, 3);
    uc.blocks_yzx[0] = VoxelDatum { id: 3 };
    uc.blocks_yzx[CHUNK_DIM3 - 1] = VoxelDatum { id: 1 };
    let mut vc = VChunk::new();
    vc.position = uc.position;
    vc.compress(&uc);
    world.insert_chunk(vc);

    let got = world.get_uncompressed_chunk(&mut cache, Vec3i::new(2, -1, 3)).unwrap();
    assert_eq!(got.position, Vec3i::new(2, -1, 3));
    assert_eq!(got.dirty, 1);
    assert_eq!(got.blocks_yzx[0].id, 3);
    assert_eq!(got.blocks_yzx[CHUNK_DIM3 - 1].id, 1);
    assert_eq!(got.blocks_yzx[17].id, 0);
    assert!(world.get_uncompressed_chunk(&mut cache, Vec3i::new(0, 0, 0)).is_none());
}

#[test]
fn get_block_across_negative_chunk_boundary() {
    let mut cache = VCache::new();
    let mut world = WVoxels::new(Arc::new(test_registry()));
    let mut uc = UncompressedChunk::new();
    uc.position = Vec3i::new(-1, 0, 0);
    // Block (-1, 0, 0) has intra-chunk offset (31, 0, 0), i.e. index 31.
    uc.blocks_yzx[31] = VoxelDatum { id: 2 };
    let mut vc = VChunk::new();
    vc.position = uc.position;
    vc.compress(&uc);
    world.insert_chunk(vc);

    assert_eq!(world.get_block(&mut cache, Vec3i::new(-1, 0, 0)), Some(VoxelDatum { id: 2 }));
    assert_eq!(world.get_block(&mut cache, Vec3i::new(-2, 0, 0)), Some(VoxelDatum { id: 0 }));
    assert_eq!(world.get_block(&mut cache, Vec3i::new(0, 0, 0)), None);
}

#[test]
fn cache_coherence_after_update() {
    let mut cache = VCache::new();
    let mut world = WVoxels::new(Arc::new(test_registry()));

    let mut uc = UncompressedChunk::new();
    uc.blocks_yzx[5] = VoxelDatum { id: 3 };
    let mut vc = VChunk::new();
    vc.compress(&uc);
    world.insert_chunk(vc);

    // Warm the cache with the first version.
    let got = world.get_uncompressed_chunk(&mut cache, Vec3i::new(0, 0, 0)).unwrap();
    assert_eq!(got.dirty, 1);
    assert_eq!(got.blocks_yzx[5].id, 3);

    // A writer re-compresses the chunk with new content and a bumped dirty
    // counter.
    uc.blocks_yzx[5] = VoxelDatum { id: 1 };
    uc.dirty = 2;
    let mut vc2 = VChunk::new();
    vc2.compress(&uc);
    world.insert_chunk(vc2);

    // A subsequent read never serves the stale cached copy.
    let got2 = world.get_uncompressed_chunk(&mut cache, Vec3i::new(0, 0, 0)).unwrap();
    assert_eq!(got2.dirty, 2);
    assert_eq!(got2.blocks_yzx[5].id, 1);
    assert_eq!(world.get_block(&mut cache, Vec3i::new(5, 0, 0)), Some(VoxelDatum { id: 1 }));

    // A second, independent cache (another worker) sees the same content.
    let mut other_cache = VCache::new();
    let got3 = world.get_uncompressed_chunk(&mut other_cache, Vec3i::new(0, 0, 0)).unwrap();
    assert_eq!(got3.dirty, 2);
    assert_eq!(got3.blocks_yzx[5].id, 1);
}

#[test]
fn texture_mapping_map_keeps_shape() {
    let single: TextureMapping<u32> = TextureMapping::TiledSingle(3);
    match single.map(|t| t + 1) {
        TextureMapping::TiledSingle(v) => assert_eq!(v, 4),
        _ => panic!("shape changed"),
    }
    let tsb: TextureMapping<u32> = TextureMapping::TiledTSB { top: 1, side: 2, bottom: 3 };
    match tsb.map(|t| t * 10) {
        TextureMapping::TiledTSB { top, side, bottom } => {
            assert_eq!((top, side, bottom), (10, 20, 30));
        },
        _ => panic!("shape changed"),
    }
}

#[test]
fn cache_eviction_keeps_reads_correct() {
    // More chunks than one worker cache holds (64): reads stay correct
    // through evictions and re-decompressions.
    let mut world = WVoxels::new(Arc::new(test_registry()));
    for i in 0..70 {
        let mut uc = UncompressedChunk::new();
        uc.position = Vec3i::new(i, 0, 0);
        uc.blocks_yzx[0] = VoxelDatum { id: (i as u32) % 5 };
        let mut vc = VChunk::new();
        vc.position = uc.position;
        vc.compress(&uc);
        world.insert_chunk(vc);
    }
    let mut cache = VCache::new();
    for _round in 0..2 {
        for i in 0..70 {
            let c = world.get_uncompressed_chunk(&mut cache, Vec3i::new(i, 0, 0)).unwrap();
            assert_eq!(c.position, Vec3i::new(i, 0, 0));
            assert_eq!(c.blocks_yzx[0].id, (i as u32) % 5);
        }
    }
}
