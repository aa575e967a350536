use vstd::prelude::*;

use crate::database::position::WalGenerationPos;
use crate::error::Error;
use crate::sqlite::common::spec_align_frame;
use crate::sqlite::common::spec_be_u32_at;
use crate::sqlite::common::u32_at;
use crate::sqlite::common::align_frame;
use crate::sqlite::wal_header::WALHeader;
use crate::sqlite::wal_header::spec_header_valid;
use crate::storage::SnapshotInfo;
use crate::storage::WalSegmentInfo;

verus! {

/// A command a replica worker receives: the database advanced to a new
/// position, or the snapshot it asked for arrived with its position.
#[derive(Debug)]
pub enum SyncCommand {
    DbChanged(WalGenerationPos),
    Snapshot((WalGenerationPos, Vec<u8>)),
}

/// The replica worker's state: streaming WAL segments, or waiting for the
/// database to deliver a snapshot of a new generation.
#[derive(Debug, Clone, PartialEq, Eq, Structural)]
pub enum SyncState {
    WaitDbChanged,
    WaitSnapshot,
}

/// What a `DbChanged` notification leads to.
#[derive(Debug, Clone, PartialEq, Eq, Structural)]
pub enum SyncGate {
    /// Nothing to do: still waiting for a snapshot, or the database has
    /// nothing yet.
    Skip,
    /// Same generation as the cursor: stream WAL segments.
    SameGeneration,
    /// The database moved to a new generation: reconcile against the
    /// remote store first.
    NewGeneration,
}

/// Decide how to react to a `DbChanged(db_pos)` notification, given the
/// worker's state and its current cursor: skip while waiting for a
/// snapshot or while the database has no frames; reconcile when the
/// generation changed; otherwise stream.
pub fn sync_gate(state: &SyncState, cursor: &WalGenerationPos, db_pos: &WalGenerationPos) -> (r:
    SyncGate)
    ensures
        state is WaitSnapshot ==> r is Skip,
        state is WaitDbChanged && db_pos.offset == 0 ==> r is Skip,
        state is WaitDbChanged && db_pos.offset != 0 && db_pos.generation@ != cursor.generation@
            ==> r is NewGeneration,
        state is WaitDbChanged && db_pos.offset != 0 && db_pos.generation@ == cursor.generation@
            ==> r is SameGeneration,
{
    if matches!(state, SyncState::WaitSnapshot) {
        return SyncGate::Skip;
    }
    if db_pos.offset == 0 {
        return SyncGate::Skip;
    }
    if !crate::base::string::str_equal(db_pos.generation.as_str(), cursor.generation.as_str()) {
        return SyncGate::NewGeneration;
    }
    SyncGate::SameGeneration
}

/// First position of the maximal `index` in `s`; `s[0]` when every index
/// is zero, as the worker's linear scan leaves it.
pub open spec fn spec_first_argmax(s: Seq<u64>) -> int
    decreases s.len(),
{
    if s.len() <= 1 {
        0
    } else {
        let p = spec_first_argmax(s.drop_last());
        if s.last() > s[p] {
            s.len() - 1
        } else {
            p
        }
    }
}

/// The last snapshot of a generation: the first snapshot carrying the
/// largest index. Fails with `NoSnapshot` when there are none.
pub fn max_snapshot(snapshots: &Vec<SnapshotInfo>) -> (r: Result<SnapshotInfo, Error>)
    ensures
        (r is Ok) == (snapshots@.len() > 0),
        r matches Ok(s) ==> ({
            let k = spec_first_argmax(snapshots@.map_values(|x: SnapshotInfo| x.index));
            &&& 0 <= k < snapshots@.len()
            &&& s.generation@ == snapshots@[k].generation@
            &&& s.index == snapshots@[k].index
            &&& s.size == snapshots@[k].size
            &&& forall|j: int|
                0 <= j < snapshots@.len() ==> #[trigger] snapshots@[j].index <= s.index
        }),
        r matches Err(e) ==> e is NoSnapshot,
{
    if snapshots.len() == 0 {
        return Err(Error::NoSnapshot(String::from_str("no snapshot")));
    }
    let ghost ixs = snapshots@.map_values(|x: SnapshotInfo| x.index);
    let mut max_index: usize = 0;
    let mut max_snapshot_index: u64 = 0;
    let mut i: usize = 0;
    proof {
        assert(ixs.len() == snapshots@.len());
    }
    while i < snapshots.len()
        invariant
            snapshots@.len() > 0,
            i <= snapshots@.len(),
            ixs == snapshots@.map_values(|x: SnapshotInfo| x.index),
            i > 0 ==> max_index == spec_first_argmax(ixs.take(i as int)) && max_index < i
                && max_snapshot_index == ixs[max_index as int],
            i == 0 ==> max_index == 0 && max_snapshot_index == 0,
            i > 0 ==> forall|j: int| 0 <= j < i ==> #[trigger] ixs[j] <= max_snapshot_index,
            max_snapshot_index == 0 || (i > 0 && max_snapshot_index == ixs[max_index as int]),
        decreases snapshots@.len() - i,
    {
        proof {
            assert(ixs.take(i as int + 1).drop_last() =~= ixs.take(i as int));
            assert(ixs.take(i as int + 1).last() == ixs[i as int]);
        }
        if snapshots[i].index > max_snapshot_index {
            max_snapshot_index = snapshots[i].index;
            max_index = i;
        }
        proof {
            if i == 0 {
                assert(spec_first_argmax(ixs.take(1)) == 0);
                if ixs[0] > 0 {
                } else {
                }
            }
        }
        i = i + 1;
    }
    proof {
        assert(ixs.take(ixs.len() as int) =~= ixs);
        assert(forall|j: int|
            0 <= j < snapshots@.len() ==> ixs[j] == #[trigger] snapshots@[j].index);
    }
    let s = &snapshots[max_index];
    Ok(SnapshotInfo { generation: s.generation.clone(), index: s.index, size: s.size })
}

/// The highest WAL segment of a generation: the first segment carrying
/// the largest index. Fails with `NoWalsegment` when there are none.
pub fn max_wal_segment(wal_segments: &Vec<WalSegmentInfo>) -> (r: Result<WalSegmentInfo, Error>)
    ensures
        (r is Ok) == (wal_segments@.len() > 0),
        r matches Ok(s) ==> ({
            let k = spec_first_argmax(wal_segments@.map_values(|x: WalSegmentInfo| x.index));
            &&& 0 <= k < wal_segments@.len()
            &&& s.generation@ == wal_segments@[k].generation@
            &&& s.index == wal_segments@[k].index
            &&& s.offset == wal_segments@[k].offset
            &&& s.size == wal_segments@[k].size
            &&& forall|j: int|
                0 <= j < wal_segments@.len() ==> #[trigger] wal_segments@[j].index <= s.index
        }),
        r matches Err(e) ==> e is NoWalsegment,
{
    if wal_segments.len() == 0 {
        return Err(Error::NoWalsegment(String::from_str("no wal segment")));
    }
    let ghost ixs = wal_segments@.map_values(|x: WalSegmentInfo| x.index);
    let mut max_index: usize = 0;
    let mut max_wg_index: u64 = 0;
    let mut i: usize = 0;
    while i < wal_segments.len()
        invariant
            wal_segments@.len() > 0,
            i <= wal_segments@.len(),
            ixs == wal_segments@.map_values(|x: WalSegmentInfo| x.index),
            i > 0 ==> max_index == spec_first_argmax(ixs.take(i as int)) && max_index < i
                && max_wg_index == ixs[max_index as int],
            i == 0 ==> max_index == 0 && max_wg_index == 0,
            i > 0 ==> forall|j: int| 0 <= j < i ==> #[trigger] ixs[j] <= max_wg_index,
        decreases wal_segments@.len() - i,
    {
        proof {
            assert(ixs.take(i as int + 1).drop_last() =~= ixs.take(i as int));
            assert(ixs.take(i as int + 1).last() == ixs[i as int]);
        }
        if wal_segments[i].index > max_wg_index {
            max_wg_index = wal_segments[i].index;
            max_index = i;
        }
        i = i + 1;
    }
    proof {
        assert(ixs.take(ixs.len() as int) =~= ixs);
        assert(forall|j: int|
            0 <= j < wal_segments@.len() ==> ixs[j] == #[trigger] wal_segments@[j].index);
    }
    let s = &wal_segments[max_index];
    Ok(
        WalSegmentInfo {
            generation: s.generation.clone(),
            index: s.index,
            offset: s.offset,
            size: s.size,
        },
    )
}

/// The cursor a replica starts from when it reconciles against the
/// remote store: at the end of the highest uploaded segment, whose length
/// on the shadow is the size its bytes decompress to; or at the start of
/// the snapshot's index when the generation has no segments yet.
pub fn calculate_generation_position(
    snapshot: &SnapshotInfo,
    segment: Option<&WalSegmentInfo>,
    decompressed_len: u64,
) -> (r: WalGenerationPos)
    requires
        segment matches Some(s) ==> s.offset + decompressed_len <= u64::MAX,
    ensures
        segment is None ==> r.generation@ == snapshot.generation@ && r.index == snapshot.index
            && r.offset == 0,
        segment matches Some(s) ==> r.generation@ == s.generation@ && r.index == s.index
            && r.offset == s.offset + decompressed_len,
{
    match segment {
        None => WalGenerationPos {
            generation: snapshot.generation.clone(),
            index: snapshot.index,
            offset: 0,
        },
        Some(s) => WalGenerationPos {
            generation: s.generation.clone(),
            index: s.index,
            offset: s.offset + decompressed_len,
        },
    }
}

/// Salt consistency of the frames of `[from, to)` as the segment builder
/// checks it: each frame's salts must equal the reference pair, except
/// that a zero reference accepts anything; the reference then becomes the
/// frame's own salts.
pub open spec fn spec_salts_ok(
    shadow: Seq<u8>,
    from: int,
    to: int,
    ps: int,
    s1: u32,
    s2: u32,
) -> bool
    decreases to - from,
{
    if from + 24 + ps > to || ps < 1 {
        true
    } else {
        let f1 = spec_be_u32_at(shadow, from + 8);
        let f2 = spec_be_u32_at(shadow, from + 12);
        &&& (s1 == 0 || s1 == f1)
        &&& (s2 == 0 || s2 == f2)
        &&& spec_salts_ok(shadow, from + 24 + ps, to, ps, f1, f2)
    }
}

/// Build one WAL segment from a shadow file: the bytes from `pos.offset`
/// to the file's aligned end, starting with the 32 header bytes when the
/// segment starts at offset zero. Each frame's salts must stay consistent
/// with the header just emitted (or with the first frame seen, when the
/// segment starts mid-file). Returns the segment bytes and the position
/// the cursor advances to.
#[verifier::rlimit(60)]
pub fn build_wal_segment(shadow: &Vec<u8>, pos: &WalGenerationPos, page_size: u64) -> (r: Result<
    (Vec<u8>, WalGenerationPos),
    Error,
>)
    requires
        1024 <= page_size <= 65536,
        pos.offset == spec_align_frame(page_size as int, pos.offset as int),
    ensures
        ({
            let ps = page_size as int;
            let size = spec_align_frame(ps, shadow@.len() as int);
            let hsalt1 = spec_be_u32_at(shadow@, 16);
            let hsalt2 = spec_be_u32_at(shadow@, 20);
            &&& (pos.offset > size ==> (r matches Err(e) && e is WalReaderOffsetTooHigh))
            &&& (pos.offset <= size && pos.offset == 0 && size == 0 ==> (r matches Err(e)
                && e is UnexpectedEof))
            &&& (pos.offset <= size && pos.offset == 0 && size > 0 && !spec_header_valid(shadow@)
                ==> (r matches Err(e) && e is SqliteInvalidWalHeader))
            &&& (pos.offset <= size && pos.offset == 0 && size > 0 && spec_header_valid(shadow@)
                ==> ((r is Ok) == spec_salts_ok(shadow@, 32, size, ps, hsalt1, hsalt2)))
            &&& (pos.offset <= size && pos.offset > 0 ==> ((r is Ok) == spec_salts_ok(
                shadow@,
                pos.offset as int,
                size,
                ps,
                0,
                0,
            )))
            &&& (r matches Ok(v) ==> ({
                &&& v.0@ == shadow@.subrange(pos.offset as int, size)
                &&& v.1.generation@ == pos.generation@
                &&& v.1.index == pos.index
                &&& v.1.offset == size
                &&& v.1.offset == spec_align_frame(ps, v.1.offset as int)
            }))
        }),
{
    let ghost ps = page_size as int;
    let size64 = align_frame(page_size, shadow.len() as u64);
    if pos.offset > size64 {
        return Err(
            Error::WalReaderOffsetTooHigh(
                String::from_str("wal reader offset is beyond file size"),
            ),
        );
    }
    let size: usize = size64 as usize;
    let start: usize = pos.offset as usize;
    let frame_size: usize = 24 + page_size as usize;
    let mut data: Vec<u8> = Vec::new();
    let mut salt1: u32 = 0;
    let mut salt2: u32 = 0;
    let mut offset: usize = start;
    if start == 0 {
        if size == 0 {
            return Err(Error::UnexpectedEof(String::from_str("empty shadow wal")));
        }
        let hdr = match WALHeader::read_from(shadow) {
            Ok(h) => h,
            Err(e) => {
                return Err(e);
            },
        };
        salt1 = hdr.salt1;
        salt2 = hdr.salt2;
        let mut i: usize = 0;
        while i < 32
            invariant
                i <= 32,
                shadow@.len() >= 32,
                data@ == shadow@.subrange(0, i as int),
            decreases 32 - i,
        {
            let b = shadow[i];
            data.push(b);
            proof {
                assert(data@ =~= shadow@.subrange(0, i as int + 1));
            }
            i = i + 1;
        }
        offset = 32;
        proof {
            assert(size64 >= 32);
        }
    }
    let ghost gstart = offset as int;
    let ghost gsalt1 = salt1;
    let ghost gsalt2 = salt2;
    proof {
        assert(data@ =~= shadow@.subrange(pos.offset as int, gstart));
        if pos.offset >= 32 {
            let q = (pos.offset as int - 32) / (24 + ps);
            vstd::arithmetic::div_mod::lemma_mod_multiples_basic(q, 24 + ps);
            assert((pos.offset as int - 32) % (24 + ps) == 0);
        }
        assert((size as int - 32) % (24 + ps) == 0 || size == 0);
        assert((gstart - 32) % (24 + ps) == 0 || gstart == 0);
        if size > 0 {
            vstd::arithmetic::div_mod::lemma_sub_mod_noop(
                size as int - 32,
                gstart - 32,
                24 + ps,
            );
            assert((size as int - gstart) % (24 + ps) == 0);
        }
    }
    while size >= frame_size && offset <= size - frame_size
        invariant
            1024 <= page_size <= 65536,
            ps == page_size as int,
            frame_size == 24 + ps,
            size == spec_align_frame(ps, shadow@.len() as int),
            size <= shadow@.len(),
            gstart <= offset,
            pos.offset as int <= gstart,
            offset <= size || (offset == gstart && gstart <= size),
            (offset - gstart) % (24 + ps) == 0,
            (size - gstart) % (24 + ps) == 0 || size == 0,
            pos.offset == 0 ==> gstart == 32 && gsalt1 == spec_be_u32_at(shadow@, 16) && gsalt2
                == spec_be_u32_at(shadow@, 20) && spec_header_valid(shadow@) && size > 0,
            pos.offset > 0 ==> gstart == pos.offset as int && gsalt1 == 0 && gsalt2 == 0,
            data@ == shadow@.subrange(pos.offset as int, offset as int),
            spec_salts_ok(shadow@, gstart, size as int, ps, gsalt1, gsalt2) == spec_salts_ok(
                shadow@,
                offset as int,
                size as int,
                ps,
                salt1,
                salt2,
            ),
        decreases size - offset,
    {
        let f1 = u32_at(shadow.as_slice(), offset + 8, true);
        let f2 = u32_at(shadow.as_slice(), offset + 12, true);
        if (salt1 != 0 && salt1 != f1) || (salt2 != 0 && salt2 != f2) {
            proof {
                assert(!spec_salts_ok(shadow@, offset as int, size as int, ps, salt1, salt2));
            }
            return Err(
                Error::SqliteInvalidWalFrame(String::from_str("invalid wal frame salts")),
            );
        }
        let mut i: usize = 0;
        while i < frame_size
            invariant
                i <= frame_size,
                offset + frame_size <= size <= shadow@.len(),
                pos.offset as int <= offset,
                data@ == shadow@.subrange(pos.offset as int, offset as int + i as int),
            decreases frame_size - i,
        {
            let b = shadow[offset + i];
            data.push(b);
            proof {
                assert(data@ =~= shadow@.subrange(pos.offset as int, offset as int + i + 1));
            }
            i = i + 1;
        }
        salt1 = f1;
        salt2 = f2;
        offset = offset + frame_size;
        proof {
            vstd::arithmetic::div_mod::lemma_mod_add_multiples_vanish(
                offset as int - frame_size as int - gstart,
                24 + ps,
            );
            assert((offset as int - gstart) % (24 + ps) == 0);
        }
    }
    proof {
        vstd::arithmetic::div_mod::lemma_sub_mod_noop(
            size as int - gstart,
            offset as int - gstart,
            24 + ps,
        );
        assert(offset == size) by {
            assert((size - offset) % (24 + ps) == 0);
            if offset < size {
                vstd::arithmetic::div_mod::lemma_mod_is_zero(
                    (size - offset) as nat,
                    (24 + ps) as nat,
                );
            }
        }
    }
    proof {
        if size > 0 {
            assert(size >= 32 && (size as int - 32) % (24 + ps) == 0);
            crate::sqlite::shadow::lemma_aligned_self(ps, size as int);
            assert(spec_align_frame(ps, size as int) == size as int);
        }
    }
    let new_pos = WalGenerationPos {
        generation: pos.generation.clone(),
        index: pos.index,
        offset: size64,
    };
    Ok((data, new_pos))
}

} // verus!

verus! {

/// What a worker does on a new generation once it has listed the remote
/// snapshots of that generation.
#[derive(Debug, Clone, PartialEq, Eq, Structural)]
pub enum NewGenerationAction {
    /// Nothing is uploaded yet: ask the database for a snapshot.
    RequestSnapshot,
    /// The generation has snapshots: reconcile the cursor against the
    /// remote state and stream.
    Reconcile,
}

/// The new-generation step of the worker's state machine: with no remote
/// snapshot the worker requests one and waits for it; otherwise it
/// reconciles and keeps following database changes.
pub fn plan_new_generation(snapshots_empty: bool) -> (r: (NewGenerationAction, SyncState))
    ensures
        snapshots_empty ==> r.0 is RequestSnapshot && r.1 is WaitSnapshot,
        !snapshots_empty ==> r.0 is Reconcile && r.1 is WaitDbChanged,
{
    if snapshots_empty {
        (NewGenerationAction::RequestSnapshot, SyncState::WaitSnapshot)
    } else {
        (NewGenerationAction::Reconcile, SyncState::WaitDbChanged)
    }
}

} // verus!
