use replited::sqlite::common::align_frame;
use replited::sqlite::common::checksum;
use replited::sqlite::common::from_be_bytes_at;
use replited::sqlite::common::read_last_checksum;
use replited::sqlite::common::CheckpointMode;
use replited::sqlite::wal_frame::WALFrame;
use replited::sqlite::wal_header::WALHeader;

/// Build a valid 32-byte WAL header for big-endian checksums.
fn build_header(page_size: u32, salt1: u32, salt2: u32) -> Vec<u8> {
    let mut h = vec![0u8; 32];
    h[0..4].copy_from_slice(&[0x37, 0x7f, 0x06, 0x83]);
    h[4..8].copy_from_slice(&3007000u32.to_be_bytes());
    h[8..12].copy_from_slice(&page_size.to_be_bytes());
    h[12..16].copy_from_slice(&0u32.to_be_bytes());
    h[16..20].copy_from_slice(&salt1.to_be_bytes());
    h[20..24].copy_from_slice(&salt2.to_be_bytes());
    let (c1, c2) = checksum(&h[0..24], 0, 0, true);
    h[24..28].copy_from_slice(&c1.to_be_bytes());
    h[28..32].copy_from_slice(&c2.to_be_bytes());
    h
}

/// Append one frame to `wal`, continuing the rolling checksum `(c1, c2)`.
fn push_frame(
    wal: &mut Vec<u8>,
    page_size: usize,
    page_num: u32,
    db_size: u32,
    salt1: u32,
    salt2: u32,
    c1: u32,
    c2: u32,
    fill: u8,
) -> (u32, u32) {
    let mut frame = vec![0u8; 24 + page_size];
    frame[0..4].copy_from_slice(&page_num.to_be_bytes());
    frame[4..8].copy_from_slice(&db_size.to_be_bytes());
    frame[8..12].copy_from_slice(&salt1.to_be_bytes());
    frame[12..16].copy_from_slice(&salt2.to_be_bytes());
    for b in frame[24..].iter_mut() {
        *b = fill;
    }
    let (m1, m2) = checksum(&frame[0..8], c1, c2, true);
    let (n1, n2) = checksum(&frame[24..], m1, m2, true);
    frame[16..20].copy_from_slice(&n1.to_be_bytes());
    frame[20..24].copy_from_slice(&n2.to_be_bytes());
    wal.extend_from_slice(&frame);
    (n1, n2)
}

#[test]
fn test_align_frame() {
    assert_eq!(4152, align_frame(4096, 4152));
}

#[test]
fn test_align_frame_rounds_down() {
    assert_eq!(0, align_frame(1024, 31));
    assert_eq!(32, align_frame(1024, 32));
    assert_eq!(32, align_frame(1024, 1079));
    assert_eq!(32 + 1048, align_frame(1024, 32 + 1048));
    assert_eq!(32 + 1048, align_frame(1024, 32 + 1048 + 500));
}

#[test]
fn test_checksum_zero_block() {
    assert_eq!(checksum(&[0u8; 8], 0, 0, true), (0, 0));
    assert_eq!(checksum(&[0u8; 8], 7, 9, true), (16, 25));
}

#[test]
fn test_checksum_endianness() {
    let data = [1u8, 0, 0, 0, 0, 0, 0, 0];
    let be = checksum(&data, 0, 0, true);
    let le = checksum(&data, 0, 0, false);
    assert_eq!(be, (0x01000000, 0x01000000));
    assert_eq!(le, (0x00000001, 0x00000001));
}

#[test]
fn test_from_be_bytes_at() {
    let data = [0u8, 0, 0xab, 0x12, 0x34, 0x56];
    assert_eq!(from_be_bytes_at(&data, 2).unwrap(), 0xab123456);
}

#[test]
fn test_header_roundtrip() {
    // parse(serialize(h)) == h: the parsed header's stored bytes are the
    // input, and re-parsing those bytes reproduces every field
    let bytes = build_header(4096, 11, 22);
    let h = WALHeader::read_from(&bytes).unwrap();
    assert_eq!(h.data, bytes);
    assert_eq!(h.salt1, 11);
    assert_eq!(h.salt2, 22);
    assert_eq!(h.page_size, 4096);
    assert!(h.is_big_endian);
    let h2 = WALHeader::read_from(&h.data).unwrap();
    assert!(h2 == h);
}

#[test]
fn test_header_rejects_bad_magic() {
    let mut bytes = build_header(4096, 1, 2);
    bytes[3] = 0x99;
    let e = WALHeader::read_from(&bytes).unwrap_err();
    assert_eq!(e.code(), 122);
}

#[test]
fn test_header_rejects_bad_page_size() {
    let mut bytes = build_header(4096, 1, 2);
    bytes[8..12].copy_from_slice(&100u32.to_be_bytes());
    let (c1, c2) = checksum(&bytes[0..24], 0, 0, true);
    bytes[24..28].copy_from_slice(&c1.to_be_bytes());
    bytes[28..32].copy_from_slice(&c2.to_be_bytes());
    let e = WALHeader::read_from(&bytes).unwrap_err();
    assert_eq!(e.code(), 122);
}

#[test]
fn test_header_rejects_bad_checksum() {
    let mut bytes = build_header(4096, 1, 2);
    bytes[24] = bytes[24].wrapping_add(1);
    let e = WALHeader::read_from(&bytes).unwrap_err();
    assert_eq!(e.code(), 122);
}

#[test]
fn test_header_rejects_short_input() {
    let e = WALHeader::read_from(&vec![0u8; 10]).unwrap_err();
    assert_eq!(e.code(), 122);
}

#[test]
fn test_frame_read() {
    let mut wal = build_header(1024, 5, 6);
    let (c1, c2) = read_last_checksum(&wal, 1024).unwrap();
    push_frame(&mut wal, 1024, 1, 1, 5, 6, c1, c2, 0xaa);
    let f = WALFrame::read(&wal, 32, 1024).unwrap();
    assert_eq!(f.page_num, 1);
    assert_eq!(f.db_size, 1);
    assert_eq!(f.salt1, 5);
    assert_eq!(f.salt2, 6);
    assert_eq!(f.data.len(), 1048);

    let short = WALFrame::read(&wal, 33, 1024);
    assert_eq!(short.unwrap_err().code(), 141);
}

#[test]
fn test_read_last_checksum_header_only() {
    let h = build_header(1024, 5, 6);
    let (c1, c2) = read_last_checksum(&h, 1024).unwrap();
    let (e1, e2) = checksum(&h[0..24], 0, 0, true);
    assert_eq!((c1, c2), (e1, e2));
}

#[test]
fn test_read_last_checksum_with_frame() {
    let mut wal = build_header(1024, 5, 6);
    let (c1, c2) = read_last_checksum(&wal, 1024).unwrap();
    let (n1, n2) = push_frame(&mut wal, 1024, 1, 1, 5, 6, c1, c2, 0x42);
    let (r1, r2) = read_last_checksum(&wal, 1024).unwrap();
    assert_eq!((r1, r2), (n1, n2));
}

#[test]
fn test_read_last_checksum_short() {
    let e = read_last_checksum(&vec![0u8; 10], 1024).unwrap_err();
    assert_eq!(e.code(), 141);
}

#[test]
fn test_checkpoint_mode_names() {
    assert_eq!(CheckpointMode::Passive.as_str(), "PASSIVE");
    assert_eq!(CheckpointMode::Full.as_str(), "FULL");
    assert_eq!(CheckpointMode::Restart.as_str(), "RESTART");
    assert_eq!(CheckpointMode::Truncate.as_str(), "TRUNCATE");
}
