use rand_xoshiro::rand_core::Rng;
use rand_xoshiro::rand_core::SeedableRng;
use rand_xoshiro::Xoshiro256StarStar;
use voxelcore::codec::compress_rle;
use voxelcore::codec::decompress_rle;
use voxelcore::CHUNK_DIM3;

#[test]
fn rle_compress_zero_test() {
    let zeroes = vec![0u32; CHUNK_DIM3];
    let compressed = compress_rle(&zeroes);
    assert_eq!(compressed, vec![0, 0, CHUNK_DIM3 as u32 - 2]);
}

#[test]
fn rle_compress_one_test() {
    let ones = vec![1u32; CHUNK_DIM3];
    let compressed = compress_rle(&ones);
    assert_eq!(compressed, vec![1, 1, CHUNK_DIM3 as u32 - 2]);
}

#[test]
fn rle_decompress_zero_test() {
    let compressed = vec![0, 0, CHUNK_DIM3 as u32 - 2];
    let target = decompress_rle(&compressed).unwrap();
    assert!(target.iter().copied().all(|e| e == 0));
}

#[test]
fn rle_decompress_one_test() {
    let compressed = vec![1, 1, CHUNK_DIM3 as u32 - 2];
    let target = decompress_rle(&compressed).unwrap();
    assert!(target.iter().copied().all(|e| e == 1));
}

#[test]
fn rle_random_cmp() {
    let mut randdata = vec![0xFFFF_FFFFu32; CHUNK_DIM3];
    let mut rng = Xoshiro256StarStar::seed_from_u64(1234);
    for e in randdata.iter_mut() {
        *e = rng.next_u32() % 16;
    }
    let compdata = compress_rle(&randdata);
    let decdata = decompress_rle(&compdata).unwrap();
    assert_eq!(randdata, decdata);
}

#[test]
fn rle_round_trip_alternating() {
    let mut data = Vec::with_capacity(CHUNK_DIM3);
    for i in 0..CHUNK_DIM3 {
        data.push((i % 2) as u32);
    }
    let compressed = compress_rle(&data);
    // No value ever repeats its predecessor, so nothing is collapsed.
    assert_eq!(compressed.len(), CHUNK_DIM3);
    assert_eq!(decompress_rle(&compressed).unwrap(), data);
}

#[test]
fn rle_round_trip_run_at_start() {
    let mut data = vec![7u32; CHUNK_DIM3];
    for i in 100..CHUNK_DIM3 {
        data[i] = (i % 5) as u32;
    }
    let compressed = compress_rle(&data);
    assert_eq!(decompress_rle(&compressed).unwrap(), data);
}

#[test]
fn rle_round_trip_run_at_end() {
    let mut data = vec![0u32; CHUNK_DIM3];
    for i in 0..100 {
        data[i] = (i % 7) as u32;
    }
    for i in 100..CHUNK_DIM3 {
        data[i] = 9;
    }
    let compressed = compress_rle(&data);
    // The trailing run's repeat count is flushed after the scan; it must be
    // the stream's final element.
    assert_eq!(*compressed.last().unwrap(), (CHUNK_DIM3 - 100) as u32 - 2);
    assert_eq!(decompress_rle(&compressed).unwrap(), data);
}

#[test]
fn rle_decompress_malformed_short_stream() {
    // A run is announced (two equal values) but the repeat count is missing.
    let compressed = vec![3u32, 3u32];
    assert!(decompress_rle(&compressed).is_none());
    // A well-formed stream that decodes to fewer than CHUNK_DIM3 values is
    // rejected as well.
    let short = vec![1u32, 2u32, 3u32];
    assert!(decompress_rle(&short).is_none());
}
