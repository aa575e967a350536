use replited::base::file::format_snapshot_path;
use replited::base::file::format_wal_path;
use replited::base::file::format_walsegment_path;
use replited::base::file::generation_dir;
use replited::base::file::generation_file_path;
use replited::base::file::generations_dir;
use replited::base::file::parent_dir;
use replited::base::file::parse_snapshot_path;
use replited::base::file::parse_wal_path;
use replited::base::file::parse_wal_segment_path;
use replited::base::file::path_base;
use replited::base::file::shadow_wal_dir;
use replited::base::file::shadow_wal_file;
use replited::base::file::snapshot_file;
use replited::base::file::snapshots_dir;
use replited::base::file::walsegment_file;
use replited::base::file::walsegments_dir;
use replited::base::string::format_integer_with_leading_zeros;
use replited::base::string::mask_string;
use replited::base::string::u8_array_as_hex;

#[test]
fn test_path_base() {
    let path = "a/b/c";
    let base = path_base(path).unwrap();
    assert_eq!(&base, "c");

    let path = "a-b/..";
    let base = path_base(path);
    assert!(base.is_err());
    let err = base.unwrap_err();
    assert_eq!(err.code(), 54);
}

#[test]
fn test_parse_wal_path() {
    let path = "a/b/c/00000019.wal";
    let index = parse_wal_path(path).unwrap();
    assert_eq!(index, 25);

    let path = "a/b/c/0000019.wal";
    let index = parse_wal_path(path);
    assert!(index.is_err());

    let path = format!("a/b/{}", format_wal_path(19));
    let index = parse_wal_path(&path).unwrap();
    assert_eq!(index, 19);
}

#[test]
fn test_parse_snapshot_path() {
    let path = "a/b/c/00000019.snapshot.lz4";
    let index = parse_snapshot_path(path).unwrap();
    assert_eq!(index, 25);

    let path = "a/b/c/0000019.snapshot.lz4";
    let index = parse_snapshot_path(path);
    assert!(index.is_err());

    let path = format!("a/b/{}", format_snapshot_path(19));
    let index = parse_snapshot_path(&path).unwrap();
    assert_eq!(index, 19);
}

#[test]
fn test_parse_walsegment_path() {
    let path = "a/b/c/00000019_00000020.wal.lz4";
    let (index, offset) = parse_wal_segment_path(path).unwrap();
    assert_eq!(index, 25);
    assert_eq!(offset, 32);

    let path = format!("a/b/{}", format_walsegment_path(19, 20));
    let (index, offset) = parse_wal_segment_path(&path).unwrap();
    assert_eq!(index, 19);
    assert_eq!(offset, 20);
}

#[test]
fn test_name_round_trip_with_hex_letters() {
    // indexes whose hex digits include letters must parse back: names are
    // written in the same lowercase alphabet the parsers accept
    assert_eq!(format_wal_path(10), "0000000a.wal");
    assert_eq!(parse_wal_path(&format_wal_path(10)).unwrap(), 10);
    assert_eq!(parse_snapshot_path(&format_snapshot_path(0xabcdef)).unwrap(), 0xabcdef);
    let (i, o) = parse_wal_segment_path(&format_walsegment_path(0xa, 0xff)).unwrap();
    assert_eq!((i, o), (0xa, 0xff));
}

#[test]
fn test_parent_dir() {
    let path = "/b/c/00000019_00000020.wal.lz4";
    let dir = parent_dir(path);
    assert_eq!(dir, Some("/b/c".to_string()));
}

#[test]
fn test_format_integer_with_leading_zeros() {
    let num = 0xab12;
    let hex = format_integer_with_leading_zeros(num);
    assert_eq!(&hex, "0000AB12");
}

#[test]
fn test_meta_dir_layout() {
    let meta = "/tmp/.a.db-replited/";
    assert_eq!(generations_dir(meta), "/tmp/.a.db-replited/generations");
    assert_eq!(
        generation_dir(meta, "0123456789abcdef0123456789abcdef"),
        "/tmp/.a.db-replited/generations/0123456789abcdef0123456789abcdef"
    );
    assert_eq!(generation_file_path(meta), "/tmp/.a.db-replited/generation");
    assert_eq!(
        shadow_wal_dir(meta, "0123456789abcdef0123456789abcdef"),
        "/tmp/.a.db-replited/generations/0123456789abcdef0123456789abcdef/wal"
    );
    assert_eq!(
        shadow_wal_file(meta, "0123456789abcdef0123456789abcdef", 0),
        "/tmp/.a.db-replited/generations/0123456789abcdef0123456789abcdef/wal/00000000.wal"
    );
}

#[test]
fn test_remote_layout() {
    let db = "a.db";
    let g = "0123456789abcdef0123456789abcdef";
    assert_eq!(
        snapshots_dir(db, g),
        "a.db/generations/0123456789abcdef0123456789abcdef/snapshots/"
    );
    assert_eq!(
        snapshot_file(db, g, 0),
        "a.db/generations/0123456789abcdef0123456789abcdef/snapshots/00000000.snapshot.lz4"
    );
    assert_eq!(
        walsegments_dir(db, g),
        "a.db/generations/0123456789abcdef0123456789abcdef/wal/"
    );
    assert_eq!(
        walsegment_file(db, g, 0, 32),
        "a.db/generations/0123456789abcdef0123456789abcdef/wal/00000000_00000020.wal.lz4"
    );
}

#[test]
fn test_mask_string() {
    assert_eq!(mask_string("secret-key", 3), "******key");
    assert_eq!(mask_string("ab", 3), "ab");
}

#[test]
fn test_u8_array_as_hex() {
    assert_eq!(u8_array_as_hex(&[0xabu8, 0x01u8]), "0xAB 0x01");
    assert_eq!(u8_array_as_hex(&[]), "");
}
