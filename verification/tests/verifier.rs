use replited::database::verify::verify;
use replited::sqlite::common::checksum;
use replited::sqlite::common::read_last_checksum;

const PS: usize = 1024;
const FRAME: usize = 24 + PS;
const GEN: &str = "0123456789abcdef0123456789abcdef";

fn build_header(salt1: u32, salt2: u32) -> Vec<u8> {
    let mut h = vec![0u8; 32];
    h[0..4].copy_from_slice(&[0x37, 0x7f, 0x06, 0x83]);
    h[4..8].copy_from_slice(&3007000u32.to_be_bytes());
    h[8..12].copy_from_slice(&(PS as u32).to_be_bytes());
    h[12..16].copy_from_slice(&0u32.to_be_bytes());
    h[16..20].copy_from_slice(&salt1.to_be_bytes());
    h[20..24].copy_from_slice(&salt2.to_be_bytes());
    let (c1, c2) = checksum(&h[0..24], 0, 0, true);
    h[24..28].copy_from_slice(&c1.to_be_bytes());
    h[28..32].copy_from_slice(&c2.to_be_bytes());
    h
}

fn push_frame(wal: &mut Vec<u8>, db_size: u32, salt1: u32, salt2: u32, c: (u32, u32), fill: u8) {
    let mut frame = vec![0u8; FRAME];
    frame[0..4].copy_from_slice(&1u32.to_be_bytes());
    frame[4..8].copy_from_slice(&db_size.to_be_bytes());
    frame[8..12].copy_from_slice(&salt1.to_be_bytes());
    frame[12..16].copy_from_slice(&salt2.to_be_bytes());
    for b in frame[24..].iter_mut() {
        *b = fill;
    }
    let (m1, m2) = checksum(&frame[0..8], c.0, c.1, true);
    let (n1, n2) = checksum(&frame[24..], m1, m2, true);
    frame[16..20].copy_from_slice(&n1.to_be_bytes());
    frame[20..24].copy_from_slice(&n2.to_be_bytes());
    wal.extend_from_slice(&frame);
}

#[test]
fn test_verify_no_generation() {
    let wal = build_header(1, 2);
    let info = verify("/m", "", None, &wal, 0, None, PS as u64).unwrap();
    assert_eq!(info.reason.unwrap().as_str(), "no generation exists");
    assert!(!info.restart);
}

#[test]
fn test_verify_bad_generation() {
    let wal = build_header(1, 2);
    let e = verify("/m", "not-a-generation-string", None, &wal, 0, None, PS as u64).unwrap_err();
    assert_eq!(e.code(), 102);
}

#[test]
fn test_verify_max_index_exceeded() {
    // the shadow index reached the maximum: the next cycle must start a
    // new generation rather than roll to an unrepresentable index
    let wal = build_header(1, 2);
    let info = verify("/m", GEN, None, &wal, 0x7FFFFFFF, None, PS as u64).unwrap();
    assert_eq!(info.reason.unwrap().as_str(), "max index exceeded");
    let info = verify("/m", GEN, None, &wal, 0x7FFFFFFE, None, PS as u64).unwrap();
    assert_eq!(info.reason.unwrap().as_str(), "no shadow wal");
}

#[test]
fn test_verify_no_shadow_wal() {
    let wal = build_header(1, 2);
    let info = verify("/m", GEN, None, &wal, 0, None, PS as u64).unwrap();
    assert_eq!(info.reason.unwrap().as_str(), "no shadow wal");
}

#[test]
fn test_verify_short_shadow_wal() {
    let wal = build_header(1, 2);
    let shadow = vec![0u8; 10];
    let info = verify("/m", GEN, None, &wal, 0, Some(&shadow), PS as u64).unwrap();
    assert_eq!(info.reason.unwrap().as_str(), "short shadow wal");
}

#[test]
fn test_verify_wal_truncated() {
    // the live WAL shrank below the shadow: another process truncated it
    let mut shadow = build_header(1, 2);
    let c = read_last_checksum(&shadow, PS as u64).unwrap();
    push_frame(&mut shadow, 1, 1, 2, c, 0x11);
    let wal = build_header(1, 2);
    let info = verify("/m", GEN, None, &wal, 0, Some(&shadow), PS as u64).unwrap();
    assert_eq!(info.reason.unwrap().as_str(), "wal truncated by another process");
}

#[test]
fn test_verify_header_only_mismatched() {
    // the upstream rewrote the WAL header under a header-only shadow
    let shadow = build_header(1, 2);
    let mut wal = build_header(9, 9);
    let c = read_last_checksum(&wal, PS as u64).unwrap();
    push_frame(&mut wal, 1, 9, 9, c, 0x11);
    let info = verify("/m", GEN, None, &wal, 0, Some(&shadow), PS as u64).unwrap();
    assert_eq!(info.reason.unwrap().as_str(), "wal header only, mismatched");
    assert!(info.restart);
}

#[test]
fn test_verify_wal_overwritten() {
    // same sizes, same header, but the last synced frame changed
    let mut shadow = build_header(1, 2);
    let c = read_last_checksum(&shadow, PS as u64).unwrap();
    push_frame(&mut shadow, 1, 1, 2, c, 0x11);
    let mut wal = build_header(1, 2);
    push_frame(&mut wal, 1, 1, 2, c, 0x22);
    let info = verify("/m", GEN, None, &wal, 0, Some(&shadow), PS as u64).unwrap();
    assert_eq!(info.reason.unwrap().as_str(), "wal overwritten by another process");
}

#[test]
fn test_verify_clean() {
    let mut shadow = build_header(1, 2);
    let c = read_last_checksum(&shadow, PS as u64).unwrap();
    push_frame(&mut shadow, 1, 1, 2, c, 0x11);
    let wal = shadow.clone();
    let info = verify("/m", GEN, Some(1000), &wal, 0, Some(&shadow), PS as u64).unwrap();
    assert!(info.reason.is_none());
    assert!(!info.restart);
    assert_eq!(info.db_mod_time, Some(1000));
    assert_eq!(info.wal_size, (32 + FRAME) as u64);
    assert_eq!(info.shadow_wal_size, (32 + FRAME) as u64);
    assert_eq!(info.generation.as_str(), GEN);
    assert_eq!(
        info.shadow_wal_file,
        "/m/generations/0123456789abcdef0123456789abcdef/wal/00000000.wal"
    );
}

#[test]
fn test_verify_restart_with_frames() {
    // header rewritten but the shadow already has frames: restart is set
    // without a reason only if the last frame still matches; here the WAL
    // was rewritten entirely so the frame comparison reports overwrite
    let mut shadow = build_header(1, 2);
    let c = read_last_checksum(&shadow, PS as u64).unwrap();
    push_frame(&mut shadow, 1, 1, 2, c, 0x11);
    let mut wal = build_header(3, 4);
    let c2 = read_last_checksum(&wal, PS as u64).unwrap();
    push_frame(&mut wal, 1, 3, 4, c2, 0x11);
    push_frame(&mut wal, 1, 3, 4, c2, 0x11);
    let info = verify("/m", GEN, None, &wal, 0, Some(&shadow), PS as u64).unwrap();
    assert!(info.restart);
    assert_eq!(info.reason.unwrap().as_str(), "wal overwritten by another process");
}
