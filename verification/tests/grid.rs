use voxel_ray::chunk::{RaytraceChunk, GRID_BYTES};

#[test]
fn get_returns_last_set() {
    let mut chunk = RaytraceChunk::new();
    assert_eq!(chunk.get(1, 2, 3), 0);
    chunk.set(1, 2, 3, 5);
    assert_eq!(chunk.get(1, 2, 3), 5);
    chunk.set(1, 2, 3, 7);
    assert_eq!(chunk.get(1, 2, 3), 7);
    // neighbors stay untouched
    assert_eq!(chunk.get(2, 2, 3), 0);
    assert_eq!(chunk.get(1, 3, 3), 0);
    assert_eq!(chunk.get(1, 2, 2), 0);
    assert_eq!(chunk.get(3, 2, 1), 0);
}

#[test]
fn out_of_range_reads_as_air() {
    let mut chunk = RaytraceChunk::new();
    chunk.set(0, 0, 0, 11);
    chunk.set(63, 63, 63, 12);
    assert_eq!(chunk.get(64, 0, 0), 0);
    assert_eq!(chunk.get(-1, 0, 0), 0);
    assert_eq!(chunk.get(0, 64, 0), 0);
    assert_eq!(chunk.get(0, -1, 0), 0);
    assert_eq!(chunk.get(0, 0, 64), 0);
    assert_eq!(chunk.get(0, 0, -1), 0);
    assert_eq!(chunk.get(i32::MIN, 0, 0), 0);
    assert_eq!(chunk.get(i32::MAX, i32::MAX, i32::MAX), 0);
}

#[test]
fn out_of_range_writes_are_ignored() {
    let mut chunk = RaytraceChunk::new();
    chunk.set(5, 6, 7, 42);
    chunk.set(64, 0, 0, 9);
    chunk.set(-1, 0, 0, 9);
    chunk.set(0, 64, 0, 9);
    chunk.set(0, -1, 0, 9);
    chunk.set(0, 0, 64, 9);
    chunk.set(0, 0, -1, 9);
    // grid contents unchanged: the one written cell, everything else empty
    for x in 0..64 {
        for y in 0..64 {
            for z in 0..64 {
                let expected = if (x, y, z) == (5, 6, 7) { 42 } else { 0 };
                assert_eq!(chunk.get(x, y, z), expected);
            }
        }
    }
}

#[test]
fn save_load_roundtrip() {
    let mut chunk = RaytraceChunk::new();
    chunk.set(0, 0, 0, 1);
    chunk.set(63, 63, 63, 0xdead_beef);
    chunk.set(32, 32, 32, 7);
    chunk.set(1, 0, 0, 0x0102_0304);
    let bytes = chunk.to_bytes();
    assert_eq!(bytes.len(), GRID_BYTES);

    let mut restored = RaytraceChunk::new();
    restored.load_bytes(&bytes).unwrap();
    for x in 0..64 {
        for y in 0..64 {
            for z in 0..64 {
                assert_eq!(restored.get(x, y, z), chunk.get(x, y, z));
            }
        }
    }
}

#[test]
fn bytes_are_big_endian_in_flat_order() {
    let mut chunk = RaytraceChunk::new();
    // flat index = (y << 12) | (z << 6) | x; cell (1, 0, 0) sits at index 1
    chunk.set(1, 0, 0, 0x0102_0304);
    let bytes = chunk.to_bytes();
    assert_eq!(&bytes[0..4], &[0, 0, 0, 0]);
    assert_eq!(&bytes[4..8], &[1, 2, 3, 4]);
    // cell (0, 0, 1) sits at index 64, cell (0, 1, 0) at index 4096
    let mut chunk2 = RaytraceChunk::new();
    chunk2.set(0, 0, 1, 0xa0b0_c0d0);
    chunk2.set(0, 1, 0, 0x0000_00ff);
    let bytes2 = chunk2.to_bytes();
    assert_eq!(&bytes2[256..260], &[0xa0, 0xb0, 0xc0, 0xd0]);
    assert_eq!(&bytes2[16384..16388], &[0, 0, 0, 0xff]);
}

#[test]
fn short_image_is_rejected_untouched() {
    let mut chunk = RaytraceChunk::new();
    chunk.set(2, 2, 2, 9);
    let short = vec![0u8; GRID_BYTES - 1];
    assert!(chunk.load_bytes(&short).is_err());
    assert_eq!(chunk.get(2, 2, 2), 9);
    let empty: Vec<u8> = Vec::new();
    assert!(chunk.load_bytes(&empty).is_err());
    assert_eq!(chunk.get(2, 2, 2), 9);
}

#[test]
fn dirty_flag_tracks_mutation() {
    let mut chunk = RaytraceChunk::new();
    assert!(chunk.is_dirty());
    chunk.mark_clean();
    assert!(!chunk.is_dirty());
    chunk.set(1, 1, 1, 3);
    assert!(chunk.is_dirty());
    chunk.mark_clean();
    let bytes = chunk.to_bytes();
    assert!(!chunk.is_dirty());
    chunk.load_bytes(&bytes).unwrap();
    assert!(chunk.is_dirty());
}
