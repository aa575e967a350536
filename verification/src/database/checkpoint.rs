use vstd::prelude::*;

use crate::sqlite::common::CheckpointMode;

verus! {

/// The size of a WAL file holding `n` frames of `page_size`-byte pages.
pub open spec fn spec_calc_wal_size(page_size: int, n: int) -> int {
    32 + (24 + page_size) * n
}

/// The size of a WAL file holding `n` frames.
pub fn calc_wal_size(page_size: u64, n: u64) -> (r: u64)
    requires
        page_size + 24 <= u64::MAX,
        32 + (24 + page_size as int) * (n as int) <= u64::MAX,
    ensures
        r == spec_calc_wal_size(page_size as int, n as int),
{
    32 + (24 + page_size) * n
}

/// The checkpoint policy: which checkpoint, if any, this cycle issues.
///
/// In order: a truncating checkpoint once the WAL passed the truncate
/// threshold before the sync, a restarting one once it passed the maximum
/// threshold after the sync, a passive one past the minimum threshold, and
/// a passive one when the database has been idle longer than the checkpoint
/// interval while the WAL holds at least one frame beyond a single page.
/// A threshold of zero disables its rule.
pub open spec fn spec_decide_checkpoint_mode(
    orig_wal_size: int,
    new_wal_size: int,
    min_checkpoint_page_number: int,
    max_checkpoint_page_number: int,
    truncate_page_number: int,
    checkpoint_interval_secs: int,
    elapsed_secs: Option<u64>,
    page_size: int,
) -> Option<CheckpointMode> {
    if truncate_page_number > 0 && orig_wal_size >= spec_calc_wal_size(
        page_size,
        truncate_page_number,
    ) {
        Some(CheckpointMode::Truncate)
    } else if max_checkpoint_page_number > 0 && new_wal_size >= spec_calc_wal_size(
        page_size,
        max_checkpoint_page_number,
    ) {
        Some(CheckpointMode::Restart)
    } else if new_wal_size >= spec_calc_wal_size(page_size, min_checkpoint_page_number) {
        Some(CheckpointMode::Passive)
    } else if checkpoint_interval_secs > 0 && (elapsed_secs matches Some(d) && d
        > checkpoint_interval_secs && new_wal_size > spec_calc_wal_size(page_size, 1)) {
        Some(CheckpointMode::Passive)
    } else {
        None
    }
}

/// Decide which checkpoint this cycle issues. `orig_wal_size` and
/// `new_wal_size` are the aligned live WAL sizes before and after the
/// shadow sync; `elapsed_secs` is how long ago the database file was last
/// modified, when that is known and not in the future.
pub fn decide_checkpoint_mode(
    orig_wal_size: u64,
    new_wal_size: u64,
    min_checkpoint_page_number: u64,
    max_checkpoint_page_number: u64,
    truncate_page_number: u64,
    checkpoint_interval_secs: u64,
    elapsed_secs: Option<u64>,
    page_size: u64,
) -> (r: Option<CheckpointMode>)
    requires
        32 + (24 + page_size as int) * (min_checkpoint_page_number as int) <= u64::MAX,
        32 + (24 + page_size as int) * (max_checkpoint_page_number as int) <= u64::MAX,
        32 + (24 + page_size as int) * (truncate_page_number as int) <= u64::MAX,
        32 + (24 + page_size as int) <= u64::MAX,
    ensures
        r == spec_decide_checkpoint_mode(
            orig_wal_size as int,
            new_wal_size as int,
            min_checkpoint_page_number as int,
            max_checkpoint_page_number as int,
            truncate_page_number as int,
            checkpoint_interval_secs as int,
            elapsed_secs,
            page_size as int,
        ),
{
    if truncate_page_number > 0 && orig_wal_size >= calc_wal_size(
        page_size,
        truncate_page_number,
    ) {
        Some(CheckpointMode::Truncate)
    } else if max_checkpoint_page_number > 0 && new_wal_size >= calc_wal_size(
        page_size,
        max_checkpoint_page_number,
    ) {
        Some(CheckpointMode::Restart)
    } else if new_wal_size >= calc_wal_size(page_size, min_checkpoint_page_number) {
        Some(CheckpointMode::Passive)
    } else if checkpoint_interval_secs > 0 {
        match elapsed_secs {
            Some(d) => {
                if d > checkpoint_interval_secs && new_wal_size > calc_wal_size(page_size, 1) {
                    Some(CheckpointMode::Passive)
                } else {
                    None
                }
            },
            None => None,
        }
    } else {
        None
    }
}

} // verus!
