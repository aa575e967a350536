use replited::base::compress::compress_buffer;
use replited::base::compress::decompressed_data;
use replited::base::generation::Generation;
use replited::database::position::WalGenerationPos;
use replited::sqlite::common::checksum;
use replited::sqlite::common::read_last_checksum;
use replited::storage::SnapshotInfo;
use replited::storage::WalSegmentInfo;
use replited::sync::replicate::build_wal_segment;
use replited::sync::replicate::calculate_generation_position;
use replited::sync::replicate::max_snapshot;
use replited::sync::replicate::max_wal_segment;
use replited::sync::replicate::sync_gate;
use replited::sync::replicate::SyncGate;
use replited::sync::replicate::SyncState;
use replited::sync::shadow_wal_reader::ShadowWalReader;

const PS: usize = 1024;
const FRAME: usize = 24 + PS;
const GEN: &str = "0123456789abcdef0123456789abcdef";

fn gen() -> Generation {
    Generation::try_create(GEN).unwrap()
}

fn pos(index: u64, offset: u64) -> WalGenerationPos {
    WalGenerationPos { generation: gen(), index, offset }
}

fn build_header(salt1: u32, salt2: u32) -> Vec<u8> {
    let mut h = vec![0u8; 32];
    h[0..4].copy_from_slice(&[0x37, 0x7f, 0x06, 0x83]);
    h[4..8].copy_from_slice(&3007000u32.to_be_bytes());
    h[8..12].copy_from_slice(&(PS as u32).to_be_bytes());
    h[12..16].copy_from_slice(&0u32.to_be_bytes());
    h[16..20].copy_from_slice(&salt1.to_be_bytes());
    h[20..24].copy_from_slice(&salt2.to_be_bytes());
    let (c1, c2) = checksum(&h[0..24], 0, 0, true);
    h[24..28].copy_from_slice(&c1.to_be_bytes());
    h[28..32].copy_from_slice(&c2.to_be_bytes());
    h
}

fn push_frame(wal: &mut Vec<u8>, db_size: u32, salt1: u32, salt2: u32, c: (u32, u32), fill: u8) {
    let mut frame = vec![0u8; FRAME];
    frame[0..4].copy_from_slice(&1u32.to_be_bytes());
    frame[4..8].copy_from_slice(&db_size.to_be_bytes());
    frame[8..12].copy_from_slice(&salt1.to_be_bytes());
    frame[12..16].copy_from_slice(&salt2.to_be_bytes());
    for b in frame[24..].iter_mut() {
        *b = fill;
    }
    let (m1, m2) = checksum(&frame[0..8], c.0, c.1, true);
    let (n1, n2) = checksum(&frame[24..], m1, m2, true);
    frame[16..20].copy_from_slice(&n1.to_be_bytes());
    frame[20..24].copy_from_slice(&n2.to_be_bytes());
    wal.extend_from_slice(&frame);
}

#[test]
fn test_reader_rolls_to_next_index() {
    // cursor at end of shadow k while k+1 exists: the reader switches to
    // (k + 1, 0)
    let size_k = (32 + FRAME) as u64;
    let r = ShadowWalReader::try_create(pos(3, size_k), Some(size_k), Some(32), PS as u64)
        .unwrap();
    assert_eq!(r.position.index, 4);
    assert_eq!(r.position.offset, 0);
}

#[test]
fn test_reader_offset_too_high() {
    let e = ShadowWalReader::try_create(pos(0, 5000), Some(32), None, PS as u64).unwrap_err();
    assert_eq!(e.code(), 83);
}

#[test]
fn test_reader_missing_file() {
    let e = ShadowWalReader::try_create(pos(0, 0), None, None, PS as u64).unwrap_err();
    assert_eq!(e.code(), 51);
}

#[test]
fn test_reader_exhausted() {
    let e = ShadowWalReader::try_create(pos(0, 32), Some(32), None, PS as u64).unwrap_err();
    assert_eq!(e.code(), 141);
}

#[test]
fn test_reader_advance() {
    let mut r = ShadowWalReader::new(pos(0, 0), (32 + FRAME) as u64, PS as u64).unwrap();
    assert_eq!(r.left, (32 + FRAME) as u64);
    r.advance(32);
    assert_eq!(r.position.offset, 32);
    assert_eq!(r.left, FRAME as u64);
}

#[test]
fn test_build_wal_segment_from_start() {
    let mut shadow = build_header(5, 6);
    let c = read_last_checksum(&shadow, PS as u64).unwrap();
    push_frame(&mut shadow, 1, 5, 6, c, 0x77);
    let (data, new_pos) = build_wal_segment(&shadow, &pos(0, 0), PS as u64).unwrap();
    assert_eq!(data, shadow);
    assert_eq!(new_pos.offset, (32 + FRAME) as u64);
    assert_eq!(new_pos.index, 0);
}

#[test]
fn test_build_wal_segment_mid_file() {
    let mut shadow = build_header(5, 6);
    let c = read_last_checksum(&shadow, PS as u64).unwrap();
    push_frame(&mut shadow, 1, 5, 6, c, 0x77);
    let (data, new_pos) = build_wal_segment(&shadow, &pos(0, 32), PS as u64).unwrap();
    assert_eq!(data, shadow[32..].to_vec());
    assert_eq!(new_pos.offset, (32 + FRAME) as u64);
}

#[test]
fn test_build_wal_segment_rejects_mixed_salts() {
    let mut shadow = build_header(5, 6);
    let c = read_last_checksum(&shadow, PS as u64).unwrap();
    push_frame(&mut shadow, 1, 7, 8, c, 0x77);
    let e = build_wal_segment(&shadow, &pos(0, 0), PS as u64).unwrap_err();
    assert_eq!(e.code(), 124);
}

#[test]
fn test_segment_round_trips_through_lz4() {
    // the compressed segment a replica uploads must inflate back to the
    // exact shadow bytes it was built from
    let mut shadow = build_header(5, 6);
    let c = read_last_checksum(&shadow, PS as u64).unwrap();
    push_frame(&mut shadow, 1, 5, 6, c, 0x77);
    let (data, _) = build_wal_segment(&shadow, &pos(0, 0), PS as u64).unwrap();
    let compressed = compress_buffer(&data).unwrap();
    assert_ne!(compressed, data);
    let restored = decompressed_data(compressed).unwrap();
    assert_eq!(restored, data);
}

#[test]
fn test_decompress_rejects_corrupt_frame() {
    let mut compressed = compress_buffer(&vec![9u8; 64]).unwrap();
    // break the frame magic
    compressed[0] ^= 0xff;
    let e = decompressed_data(compressed).unwrap_err();
    assert_eq!(e.code(), 53);
}

#[test]
fn test_max_snapshot() {
    let snaps = vec![
        SnapshotInfo { generation: gen(), index: 2, size: 10 },
        SnapshotInfo { generation: gen(), index: 7, size: 20 },
        SnapshotInfo { generation: gen(), index: 7, size: 30 },
        SnapshotInfo { generation: gen(), index: 1, size: 40 },
    ];
    let s = max_snapshot(&snaps).unwrap();
    assert_eq!(s.index, 7);
    assert_eq!(s.size, 20);

    let e = max_snapshot(&Vec::new()).unwrap_err();
    assert_eq!(e.code(), 125);
}

#[test]
fn test_max_wal_segment() {
    let segs = vec![
        WalSegmentInfo { generation: gen(), index: 0, offset: 0, size: 1 },
        WalSegmentInfo { generation: gen(), index: 3, offset: 32, size: 2 },
    ];
    let s = max_wal_segment(&segs).unwrap();
    assert_eq!(s.index, 3);
    assert_eq!(s.offset, 32);

    let e = max_wal_segment(&Vec::new()).unwrap_err();
    assert_eq!(e.code(), 126);
}

#[test]
fn test_calculate_generation_position() {
    let snap = SnapshotInfo { generation: gen(), index: 4, size: 10 };
    let p = calculate_generation_position(&snap, None, 0);
    assert_eq!(p.index, 4);
    assert_eq!(p.offset, 0);

    let seg = WalSegmentInfo { generation: gen(), index: 5, offset: 32, size: 9 };
    let p = calculate_generation_position(&snap, Some(&seg), 2096);
    assert_eq!(p.index, 5);
    assert_eq!(p.offset, 32 + 2096);
}

#[test]
fn test_sync_gate() {
    let cursor = pos(0, 0);
    let mut other = pos(0, 64);
    assert_eq!(sync_gate(&SyncState::WaitSnapshot, &cursor, &other), SyncGate::Skip);
    other.offset = 0;
    assert_eq!(sync_gate(&SyncState::WaitDbChanged, &cursor, &other), SyncGate::Skip);
    other.offset = 64;
    assert_eq!(sync_gate(&SyncState::WaitDbChanged, &cursor, &other), SyncGate::SameGeneration);
    let foreign = WalGenerationPos {
        generation: Generation::try_create("ffffffffffffffffffffffffffffffff").unwrap(),
        index: 0,
        offset: 64,
    };
    assert_eq!(sync_gate(&SyncState::WaitDbChanged, &cursor, &foreign), SyncGate::NewGeneration);
}
