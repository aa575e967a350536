use replited::sqlite::common::checksum;
use replited::sqlite::common::read_last_checksum;
use replited::sqlite::shadow::copy_to_shadow_wal;

const PS: usize = 1024;
const FRAME: usize = 24 + PS;

fn build_header(salt1: u32, salt2: u32) -> Vec<u8> {
    let mut h = vec![0u8; 32];
    h[0..4].copy_from_slice(&[0x37, 0x7f, 0x06, 0x83]);
    h[4..8].copy_from_slice(&3007000u32.to_be_bytes());
    h[8..12].copy_from_slice(&(PS as u32).to_be_bytes());
    h[12..16].copy_from_slice(&0u32.to_be_bytes());
    h[16..20].copy_from_slice(&salt1.to_be_bytes());
    h[20..24].copy_from_slice(&salt2.to_be_bytes());
    let (c1, c2) = checksum(&h[0..24], 0, 0, true);
    h[24..28].copy_from_slice(&c1.to_be_bytes());
    h[28..32].copy_from_slice(&c2.to_be_bytes());
    h
}

fn push_frame(
    wal: &mut Vec<u8>,
    db_size: u32,
    salt1: u32,
    salt2: u32,
    c: (u32, u32),
    fill: u8,
) -> (u32, u32) {
    let mut frame = vec![0u8; FRAME];
    frame[0..4].copy_from_slice(&1u32.to_be_bytes());
    frame[4..8].copy_from_slice(&db_size.to_be_bytes());
    frame[8..12].copy_from_slice(&salt1.to_be_bytes());
    frame[12..16].copy_from_slice(&salt2.to_be_bytes());
    for b in frame[24..].iter_mut() {
        *b = fill;
    }
    let (m1, m2) = checksum(&frame[0..8], c.0, c.1, true);
    let (n1, n2) = checksum(&frame[24..], m1, m2, true);
    frame[16..20].copy_from_slice(&n1.to_be_bytes());
    frame[20..24].copy_from_slice(&n2.to_be_bytes());
    wal.extend_from_slice(&frame);
    (n1, n2)
}

#[test]
fn test_copy_appends_committed_frames() {
    let shadow = build_header(5, 6);
    let mut wal = shadow.clone();
    let c = read_last_checksum(&shadow, PS as u64).unwrap();
    let c = push_frame(&mut wal, 0, 5, 6, c, 0x11);
    push_frame(&mut wal, 2, 5, 6, c, 0x22);

    let a = copy_to_shadow_wal(&shadow, &wal, PS as u64).unwrap();
    assert_eq!(a.orig_wal_size, (32 + 2 * FRAME) as u64);
    assert_eq!(a.new_size, (32 + 2 * FRAME) as u64);
    assert_eq!(a.data, wal[32..].to_vec());
}

#[test]
fn test_copy_stops_at_commit_before_partial_frame() {
    // one commit frame followed by a partial frame: the shadow gains the
    // commit, the partial frame is not copied
    let shadow = build_header(5, 6);
    let mut wal = shadow.clone();
    let c = read_last_checksum(&shadow, PS as u64).unwrap();
    push_frame(&mut wal, 1, 5, 6, c, 0x11);
    wal.extend_from_slice(&[0u8; 100]);

    let a = copy_to_shadow_wal(&shadow, &wal, PS as u64).unwrap();
    assert_eq!(a.new_size, (32 + FRAME) as u64);
    assert_eq!(a.data, wal[32..32 + FRAME].to_vec());
}

#[test]
fn test_copy_leaves_uncommitted_tail() {
    // a commit frame, then an uncommitted frame: only the commit ships
    let shadow = build_header(5, 6);
    let mut wal = shadow.clone();
    let c = read_last_checksum(&shadow, PS as u64).unwrap();
    let c = push_frame(&mut wal, 3, 5, 6, c, 0x11);
    push_frame(&mut wal, 0, 5, 6, c, 0x22);

    let a = copy_to_shadow_wal(&shadow, &wal, PS as u64).unwrap();
    assert_eq!(a.new_size, (32 + FRAME) as u64);
}

#[test]
fn test_copy_stops_at_foreign_salts() {
    let shadow = build_header(5, 6);
    let mut wal = shadow.clone();
    let c = read_last_checksum(&shadow, PS as u64).unwrap();
    push_frame(&mut wal, 1, 7, 8, c, 0x11);

    let a = copy_to_shadow_wal(&shadow, &wal, PS as u64).unwrap();
    assert_eq!(a.new_size, 32);
    assert!(a.data.is_empty());
}

#[test]
fn test_copy_stops_at_bad_checksum() {
    let shadow = build_header(5, 6);
    let mut wal = shadow.clone();
    let c = read_last_checksum(&shadow, PS as u64).unwrap();
    push_frame(&mut wal, 1, 5, 6, (c.0 ^ 1, c.1), 0x11);

    let a = copy_to_shadow_wal(&shadow, &wal, PS as u64).unwrap();
    assert_eq!(a.new_size, 32);
}

#[test]
fn test_copy_rejects_invalid_shadow_header() {
    let shadow = vec![0u8; 32];
    let wal = build_header(5, 6);
    let e = copy_to_shadow_wal(&shadow, &wal, PS as u64).unwrap_err();
    assert_eq!(e.code(), 122);
}

#[test]
fn test_sync_twice_is_noop() {
    // idempotent sync: after one append, a second finds nothing new
    let shadow = build_header(5, 6);
    let mut wal = shadow.clone();
    let c = read_last_checksum(&shadow, PS as u64).unwrap();
    let c = push_frame(&mut wal, 0, 5, 6, c, 0x33);
    push_frame(&mut wal, 2, 5, 6, c, 0x44);

    let first = copy_to_shadow_wal(&shadow, &wal, PS as u64).unwrap();
    let mut shadow2 = shadow.clone();
    shadow2.extend_from_slice(&first.data);
    assert_eq!(shadow2.len() as u64, first.new_size);

    let second = copy_to_shadow_wal(&shadow2, &wal, PS as u64).unwrap();
    assert!(second.data.is_empty());
    assert_eq!(second.new_size, first.new_size);
}
