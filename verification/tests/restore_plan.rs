use replited::base::generation::Generation;
use replited::config::arg::RestoreOptions;
use replited::database::checkpoint::calc_wal_size;
use replited::database::checkpoint::decide_checkpoint_mode;
use replited::database::maintain::current_generation_of;
use replited::database::maintain::current_shadow_index;
use replited::database::maintain::min_replica_index;
use replited::database::maintain::plan_clean_generations;
use replited::database::maintain::plan_clean_wal;
use replited::database::maintain::wal_clean_threshold;
use replited::database::maintain::wal_needs_init;
use replited::database::position::WalGenerationPos;
use replited::sqlite::common::CheckpointMode;
use replited::storage::restore_wal_segments_of;
use replited::storage::RestoreInfo;
use replited::storage::SnapshotInfo;
use replited::storage::WalSegmentInfo;
use replited::sync::restore::check_overwrite;
use replited::sync::restore::replaces_candidate;

const GEN: &str = "0123456789abcdef0123456789abcdef";
const GEN2: &str = "ffffffff89abcdef0123456789abcdef";

fn gen() -> Generation {
    Generation::try_create(GEN).unwrap()
}

fn seg(index: u64, offset: u64) -> WalSegmentInfo {
    WalSegmentInfo { generation: gen(), index, offset, size: 0 }
}

fn snap(index: u64) -> SnapshotInfo {
    SnapshotInfo { generation: gen(), index, size: 0 }
}

#[test]
fn test_restore_plan_groups_segments() {
    let segs = vec![seg(1, 0), seg(0, 100), seg(0, 0), seg(1, 50)];
    let plan = restore_wal_segments_of(&snap(0), &segs).unwrap();
    assert_eq!(plan.len(), 2);
    assert_eq!(plan[0].0, 0);
    assert_eq!(plan[0].1, vec![0, 100]);
    assert_eq!(plan[1].0, 1);
    assert_eq!(plan[1].1, vec![0, 50]);
}

#[test]
fn test_restore_plan_skips_below_snapshot() {
    let segs = vec![seg(0, 0), seg(2, 0)];
    let plan = restore_wal_segments_of(&snap(2), &segs).unwrap();
    assert_eq!(plan.len(), 1);
    assert_eq!(plan[0].0, 2);
}

#[test]
fn test_restore_plan_missing_initial_segment() {
    // the first segment of an index must start at offset zero
    let segs = vec![seg(0, 0), seg(1, 32)];
    let e = restore_wal_segments_of(&snap(0), &segs).unwrap_err();
    assert_eq!(e.code(), 128);
    assert_eq!(
        e.message().as_str(),
        "missing initial wal segment, generation: 0123456789abcdef0123456789abcdef, index: 1, offset: 32"
    );
}

#[test]
fn test_restore_plan_out_of_order() {
    let segs = vec![seg(0, 0), seg(0, 32), seg(0, 32)];
    let e = restore_wal_segments_of(&snap(0), &segs).unwrap_err();
    assert_eq!(e.code(), 128);
    assert_eq!(
        e.message().as_str(),
        "wal segment out of order, generation: 0123456789abcdef0123456789abcdef, index: 0, offset: 32"
    );
}

#[test]
fn test_restore_skips_replica_with_gap() {
    // one replica lost a segment; the plan of the other must be used
    let broken = vec![seg(0, 32)];
    let whole = vec![seg(0, 0), seg(0, 32)];
    assert!(restore_wal_segments_of(&snap(0), &broken).is_err());
    let plan = restore_wal_segments_of(&snap(0), &whole).unwrap();
    assert_eq!(plan[0].1, vec![0, 32]);
}

#[test]
fn test_replaces_candidate_prefers_newer_generation() {
    let old_info = RestoreInfo { snapshot: snap(0), wal_segments: Vec::new() };
    let new_info = RestoreInfo {
        snapshot: SnapshotInfo {
            generation: Generation::try_create(GEN2).unwrap(),
            index: 0,
            size: 0,
        },
        wal_segments: Vec::new(),
    };
    assert!(replaces_candidate(None, &old_info));
    assert!(replaces_candidate(Some(&old_info), &new_info));
    assert!(!replaces_candidate(Some(&new_info), &old_info));
}

#[test]
fn test_check_overwrite() {
    assert!(check_overwrite(false, false).is_ok());
    assert!(check_overwrite(true, true).is_ok());
    let e = check_overwrite(true, false).unwrap_err();
    assert_eq!(e.code(), 81);
    assert_eq!(e.message().as_str(), "cannot overwrite exist db");
}

#[test]
fn test_restore_options_validate() {
    let mut opts = RestoreOptions {
        db: String::new(),
        output: String::from("/tmp/out.db"),
        generation: String::new(),
        overwrite: false,
    };
    assert_eq!(opts.validate().unwrap_err().code(), 3);
    opts.db = String::from("/tmp/a.db");
    assert!(opts.validate().is_ok());
    opts.output = String::new();
    assert_eq!(opts.validate().unwrap_err().code(), 3);
}

#[test]
fn test_calc_wal_size() {
    assert_eq!(calc_wal_size(4096, 0), 32);
    assert_eq!(calc_wal_size(4096, 1000), 32 + 4120 * 1000);
}

#[test]
fn test_decide_checkpoint_mode_policy() {
    let ps = 1024u64;
    let one = calc_wal_size(ps, 1);
    let min = calc_wal_size(ps, 10);
    let max = calc_wal_size(ps, 100);
    let trunc = calc_wal_size(ps, 1000);
    // truncate threshold wins on the pre-sync size
    let m = decide_checkpoint_mode(trunc, 32, 10, 100, 1000, 60, None, ps);
    assert!(matches!(m, Some(CheckpointMode::Truncate)));
    // restart on the post-sync size
    let m = decide_checkpoint_mode(32, max, 10, 100, 1000, 60, None, ps);
    assert!(matches!(m, Some(CheckpointMode::Restart)));
    // passive past the minimum threshold
    let m = decide_checkpoint_mode(32, min, 10, 100, 1000, 60, None, ps);
    assert!(matches!(m, Some(CheckpointMode::Passive)));
    // time-based passive checkpoint when the database has been idle
    let m = decide_checkpoint_mode(32, one + 1048, 10000, 100000, 1000000, 60, Some(61), ps);
    assert!(matches!(m, Some(CheckpointMode::Passive)));
    // nothing to do
    let m = decide_checkpoint_mode(32, 32, 10, 100, 1000, 60, Some(10), ps);
    assert!(m.is_none());
}

#[test]
fn test_current_generation_of() {
    assert_eq!(current_generation_of(None), "");
    assert_eq!(current_generation_of(Some("short")), "");
    assert_eq!(current_generation_of(Some(GEN)), GEN);
}

#[test]
fn test_wal_needs_init() {
    assert!(wal_needs_init(false, false, 0).unwrap());
    assert!(wal_needs_init(true, true, 10).unwrap());
    assert!(!wal_needs_init(true, true, 32).unwrap());
    assert_eq!(wal_needs_init(true, false, 0).unwrap_err().code(), 121);
}

#[test]
fn test_current_shadow_index() {
    let names = vec![
        String::from("00000000.wal"),
        String::from("00000003.wal"),
        String::from("junk.txt"),
        String::from("00000001.wal"),
    ];
    let sizes = vec![100u64, 200, 10, 300];
    let (index, total) = current_shadow_index(&names, &sizes);
    assert_eq!(index, 3);
    assert_eq!(total, 610);
}

#[test]
fn test_plan_clean_generations() {
    let entries = vec![String::from(GEN), String::from(GEN2)];
    let doomed = plan_clean_generations(&entries, GEN).unwrap();
    assert_eq!(doomed, vec![String::from(GEN2)]);
}

#[test]
fn test_clean_wal_planning() {
    let positions = vec![
        WalGenerationPos { generation: gen(), index: 5, offset: 0 },
        WalGenerationPos { generation: gen(), index: 3, offset: 0 },
    ];
    let min = min_replica_index(&positions, &gen());
    assert_eq!(min, Some(3));
    assert_eq!(wal_clean_threshold(min), Some(2));
    assert_eq!(wal_clean_threshold(Some(0)), None);
    assert_eq!(wal_clean_threshold(None), None);

    // a replica on another generation counts as index zero
    let foreign = vec![WalGenerationPos {
        generation: Generation::try_create(GEN2).unwrap(),
        index: 9,
        offset: 0,
    }];
    assert_eq!(min_replica_index(&foreign, &gen()), Some(0));

    let names = vec![
        String::from("00000000.wal"),
        String::from("00000001.wal"),
        String::from("00000002.wal"),
    ];
    let doomed = plan_clean_wal(&names, 2).unwrap();
    assert_eq!(doomed, vec![String::from("00000000.wal"), String::from("00000001.wal")]);
}

#[test]
fn test_generation_properties() {
    let g = Generation::new();
    assert_eq!(g.as_str().len(), 32);
    assert!(!g.is_empty());
    let parsed = Generation::try_create(g.as_str()).unwrap();
    assert_eq!(parsed.as_str(), g.as_str());

    let upper = Generation::try_create("0123456789ABCDEF0123456789ABCDEF").unwrap();
    assert_eq!(upper.as_str(), GEN);

    assert_eq!(Generation::try_create("nope").unwrap_err().code(), 102);
    assert!(Generation::default().is_empty());
    let zero = Generation::try_create("00000000000000000000000000000000").unwrap();
    assert!(zero.is_empty());
}

#[test]
fn test_position_is_empty() {
    let p = WalGenerationPos::default();
    assert!(p.is_empty());
    let q = WalGenerationPos { generation: gen(), index: 0, offset: 0 };
    assert!(!q.is_empty());
}
