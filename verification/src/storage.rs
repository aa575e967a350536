use vstd::prelude::*;

use crate::base::generation::Generation;
use crate::base::string::spec_u64_dec;
use crate::base::string::u64_to_dec_string;
use crate::error::Error;
use vstd::multiset::Multiset;
use vstd::relations::total_ordering;
use vstd::relations::sorted_by;

verus! {

/// One snapshot object of a generation: a compressed full copy of the
/// database, named by the shadow index it was taken at.
#[derive(Debug)]
pub struct SnapshotInfo {
    pub generation: Generation,
    pub index: u64,
    pub size: u64,
}

impl Clone for SnapshotInfo {
    /// An exact copy.
    fn clone(&self) -> (r: Self)
        ensures
            r.generation@ == self.generation@,
            r.index == self.index,
            r.size == self.size,
    {
        SnapshotInfo { generation: self.generation.clone(), index: self.index, size: self.size }
    }
}

/// One uploaded WAL segment of a generation: a compressed slice of the
/// shadow file at `index`, starting at `offset`.
#[derive(Debug)]
pub struct WalSegmentInfo {
    pub generation: Generation,
    pub index: u64,
    pub offset: u64,
    pub size: u64,
}

impl Clone for WalSegmentInfo {
    /// An exact copy.
    fn clone(&self) -> (r: Self)
        ensures
            r.generation@ == self.generation@,
            r.index == self.index,
            r.offset == self.offset,
            r.size == self.size,
    {
        WalSegmentInfo {
            generation: self.generation.clone(),
            index: self.index,
            offset: self.offset,
            size: self.size,
        }
    }
}

} // verus!

verus! {

/// The WAL segment plan of a restore: for each shadow index, the ordered
/// offsets of the segments to concatenate.
pub struct RestoreInfo {
    pub snapshot: SnapshotInfo,
    pub wal_segments: Vec<(u64, Vec<u64>)>,
}

/// Order on `(index, offset)` pairs: by index, then by offset.
pub open spec fn spec_pair_le(a: (u64, u64), b: (u64, u64)) -> bool {
    a.0 < b.0 || (a.0 == b.0 && a.1 <= b.1)
}

/// The sequence is sorted under the `(index, offset)` order.
pub open spec fn spec_pairs_sorted(s: Seq<(u64, u64)>) -> bool {
    forall|i: int, j: int| 0 <= i < j < s.len() ==> spec_pair_le(#[trigger] s[i], #[trigger] s[j])
}

/// Sort `(index, offset)` pairs by index, then offset, keeping exactly
/// the same pairs.
fn sort_pairs(v: Vec<(u64, u64)>) -> (r: Vec<(u64, u64)>)
    ensures
        spec_pairs_sorted(r@),
        r@.to_multiset() == v@.to_multiset(),
        r@.len() == v@.len(),
{
    broadcast use vstd::seq_lib::group_to_multiset_ensures;

    let mut rest = v;
    let mut out: Vec<(u64, u64)> = Vec::new();
    let ghost orig = rest@;
    proof {
        out@.to_multiset_ensures();
        rest@.to_multiset_ensures();
        assert(out@.to_multiset().add(rest@.to_multiset()) =~= orig.to_multiset());
    }
    while rest.len() > 0
        invariant
            spec_pairs_sorted(out@),
            forall|i: int, j: int|
                0 <= i < out@.len() && 0 <= j < rest@.len() ==> spec_pair_le(
                    #[trigger] out@[i],
                    #[trigger] rest@[j],
                ),
            out@.to_multiset().add(rest@.to_multiset()) == orig.to_multiset(),
            out@.len() + rest@.len() == orig.len(),
        decreases rest@.len(),
    {
        let mut mi: usize = 0;
        let mut k: usize = 1;
        while k < rest.len()
            invariant
                mi < k <= rest@.len() || (k <= rest@.len() && mi == 0),
                rest@.len() > 0,
                mi < rest@.len(),
                forall|j: int| 0 <= j < k ==> spec_pair_le(rest@[mi as int], #[trigger] rest@[j]),
            decreases rest@.len() - k,
        {
            let cand = rest[k];
            let cur = rest[mi];
            if cand.0 < cur.0 || (cand.0 == cur.0 && cand.1 < cur.1) {
                mi = k;
            }
            k = k + 1;
        }
        let ghost rest_before = rest@;
        let x = rest.remove(mi);
        let ghost old_out = out@;
        out.push(x);
        proof {
            rest_before.to_multiset_ensures();
            old_out.to_multiset_ensures();
            assert(rest_before.remove(mi as int).to_multiset() =~= rest_before.to_multiset()
                .remove(rest_before[mi as int]));
            assert(old_out.push(x).to_multiset() =~= old_out.to_multiset().insert(x));
            assert(rest_before.to_multiset().count(x) > 0) by {
                assert(rest_before.contains(x)) by {
                    assert(rest_before[mi as int] == x);
                }
            }
            assert(out@.to_multiset().add(rest@.to_multiset()) =~= orig.to_multiset());
            assert(forall|j: int|
                0 <= j < rest@.len() ==> spec_pair_le(x, #[trigger] rest@[j])) by {
                assert(forall|j: int|
                    0 <= j < rest@.len() ==> rest@[j] == rest_before[
                        if j < mi as int { j } else { j + 1 }
                    ]);
            }
        }
    }
    proof {
        rest@.to_multiset_ensures();
        assert(rest@.to_multiset() =~= Multiset::<(u64, u64)>::empty());
        assert(out@.to_multiset() =~= orig.to_multiset());
    }
    out
}

/// A pair `(idx, off)` stands in some group of `v` as one of the offsets
/// of index `idx`.
pub open spec fn spec_groups_have(v: Seq<(u64, Vec<u64>)>, idx: u64, off: u64) -> bool {
    exists|j: int, l: int|
        0 <= j < v.len() && 0 <= l < v[j].1@.len() && v[j].0 == idx && v[j].1@[l] == off
}

/// During grouping, a pair is accounted for either in the finished groups
/// or in the group still being assembled.
pub open spec fn spec_covered(
    out: Seq<(u64, Vec<u64>)>,
    has_cur: bool,
    cur_index: u64,
    cur: Seq<u64>,
    idx: u64,
    off: u64,
) -> bool {
    spec_groups_have(out, idx, off) || (has_cur && idx == cur_index && cur.contains(off))
}

/// A sorted `(index, offset)` listing admits a restore plan: at every
/// position at or above the snapshot's index, the first segment of a new
/// index sits at offset zero, and offsets within one index strictly
/// increase.
pub open spec fn spec_segment_run_ok(s: Seq<(u64, u64)>, snapshot_index: u64) -> bool {
    forall|p: int|
        #![trigger s[p]]
        0 <= p < s.len() && s[p].0 >= snapshot_index ==> {
            &&& ((p == 0 || s[p - 1].0 != s[p].0) ==> s[p].1 == 0)
            &&& ((p > 0 && s[p - 1].0 == s[p].0) ==> s[p - 1].1 < s[p].1)
        }
}

/// The uploaded segments of a generation admit a restore plan: once sorted
/// by `(index, offset)`, every index at or above the snapshot's starts at
/// offset zero and never repeats an offset.
pub open spec fn spec_restore_listing_ok(snapshot_index: u64, segs: Seq<WalSegmentInfo>) -> bool {
    spec_segment_run_ok(
        segs.map_values(|s: WalSegmentInfo| (s.index, s.offset)).sort_by(
            |a: (u64, u64), b: (u64, u64)| spec_pair_le(a, b),
        ),
        snapshot_index,
    )
}

/// The message naming an index whose first uploaded segment is missing.
pub open spec fn spec_missing_initial_msg(generation: Seq<char>, index: u64, offset: u64) -> Seq<
    char,
> {
    "missing initial wal segment, generation: "@ + generation + ", index: "@ + spec_u64_dec(index)
        + ", offset: "@ + spec_u64_dec(offset)
}

/// The message naming a segment that collides with an already-planned one.
pub open spec fn spec_out_of_order_msg(generation: Seq<char>, index: u64, offset: u64) -> Seq<
    char,
> {
    "wal segment out of order, generation: "@ + generation + ", index: "@ + spec_u64_dec(index)
        + ", offset: "@ + spec_u64_dec(offset)
}

/// Build a plan-validation failure message naming the offending segment.
fn segment_message(prefix: &str, generation: &Generation, index: u64, offset: u64) -> (r: String)
    ensures
        r@ == prefix@ + generation@ + ", index: "@ + spec_u64_dec(index) + ", offset: "@
            + spec_u64_dec(offset),
{
    let mut m = String::from_str(prefix);
    m.append(generation.as_str());
    m.append(", index: ");
    let ix = u64_to_dec_string(index);
    m.append(ix.as_str());
    m.append(", offset: ");
    let of = u64_to_dec_string(offset);
    m.append(of.as_str());
    proof {
        assert(m@ =~= prefix@ + generation@ + ", index: "@ + spec_u64_dec(index) + ", offset: "@
            + spec_u64_dec(offset));
    }
    m
}

/// The shape a valid restore plan has: group indexes strictly increase
/// and start at or after the snapshot's; within a group the offsets
/// strictly increase and begin at zero.
pub open spec fn spec_groups_wf(v: Seq<(u64, Vec<u64>)>, snapshot_index: u64) -> bool {
    &&& forall|j: int|
        0 <= j < v.len() ==> {
            &&& (#[trigger] v[j]).1@.len() > 0
            &&& v[j].1@[0] == 0
            &&& v[j].0 >= snapshot_index
            &&& forall|l: int| 0 <= l < v[j].1@.len() - 1 ==> #[trigger] v[j].1@[l] < v[j].1@[l
                + 1]
        }
    &&& forall|j: int| 0 <= j < v.len() - 1 ==> (#[trigger] v[j]).0 < v[j + 1].0
}

/// Sequences holding the same multiset contain each other's elements.
#[verifier::spinoff_prover]
proof fn lemma_equal_multisets_contain(a: Seq<(u64, u64)>, b: Seq<(u64, u64)>)
    requires
        a.to_multiset() == b.to_multiset(),
    ensures
        forall|k: int| 0 <= k < a.len() ==> b.contains(#[trigger] a[k]),
        forall|k: int| 0 <= k < b.len() ==> a.contains(#[trigger] b[k]),
{
    broadcast use vstd::seq_lib::group_to_multiset_ensures;

    assert forall|k: int| 0 <= k < a.len() implies b.contains(#[trigger] a[k]) by {
        assert(a.to_multiset().contains(a[k]));
        assert(b.to_multiset().contains(a[k]));
    }
    assert forall|k: int| 0 <= k < b.len() implies a.contains(#[trigger] b[k]) by {
        assert(b.to_multiset().contains(b[k]));
        assert(a.to_multiset().contains(b[k]));
    }
}

/// A sequence sorted under the pair order with the same multiset as the
/// listing's `(index, offset)` pairs is the specification-level sort of
/// those pairs, so the run condition over it decides the listing.
#[verifier::spinoff_prover]
proof fn lemma_sorted_is_spec_sort(
    snapshot_index: u64,
    wal_segments: Seq<WalSegmentInfo>,
    pairs0: Seq<(u64, u64)>,
    sorted: Seq<(u64, u64)>,
)
    requires
        pairs0.len() == wal_segments.len(),
        forall|k: int|
            0 <= k < pairs0.len() ==> #[trigger] pairs0[k] == (
                wal_segments[k].index,
                wal_segments[k].offset,
            ),
        spec_pairs_sorted(sorted),
        sorted.to_multiset() == pairs0.to_multiset(),
    ensures
        spec_restore_listing_ok(snapshot_index, wal_segments) == spec_segment_run_ok(
            sorted,
            snapshot_index,
        ),
{
    let leq = |a: (u64, u64), b: (u64, u64)| spec_pair_le(a, b);
    let lmap = |s: WalSegmentInfo| (s.index, s.offset);
    assert(total_ordering(leq)) by {
        assert forall|a: (u64, u64)| #[trigger] leq(a, a) by {}
        assert forall|a: (u64, u64), b: (u64, u64)| #[trigger] leq(a, b) && #[trigger] leq(
            b,
            a,
        ) implies a == b by {}
        assert forall|a: (u64, u64), b: (u64, u64), c: (u64, u64)|
            #[trigger] leq(a, b) && #[trigger] leq(b, c) implies leq(a, c) by {}
        assert forall|a: (u64, u64), b: (u64, u64)| #[trigger] leq(a, b) || #[trigger] leq(
            b,
            a,
        ) by {}
    }
    pairs0.lemma_sort_by_ensures(leq);
    assert(sorted_by(sorted, leq)) by {
        assert forall|i: int, j: int| 0 <= i < j < sorted.len() implies #[trigger] leq(
            sorted[i],
            sorted[j],
        ) by {
            assert(spec_pair_le(sorted[i], sorted[j]));
        }
    }
    vstd::seq_lib::lemma_sorted_unique(sorted, pairs0.sort_by(leq), leq);
    assert(sorted == pairs0.sort_by(leq));
    assert(pairs0 =~= wal_segments.map_values(lmap));
    assert(lmap =~= (|s: WalSegmentInfo| (s.index, s.offset)));
    assert(leq =~= (|a: (u64, u64), b: (u64, u64)| spec_pair_le(a, b)));
}

/// Closing the last open group keeps every sorted pair accounted for in
/// the finished groups.
#[verifier::spinoff_prover]
proof fn lemma_final_groups_have(
    out_before: Seq<(u64, Vec<u64>)>,
    cur_before: Seq<u64>,
    had_cur: bool,
    cur_index_before: u64,
    out: Seq<(u64, Vec<u64>)>,
    sorted: Seq<(u64, u64)>,
    snapshot_index: u64,
)
    requires
        !had_cur ==> out == out_before,
        had_cur ==> out.len() == out_before.len() + 1 && out[out.len() - 1].0 == cur_index_before
            && out[out.len() - 1].1@ == cur_before && (forall|j: int|
            0 <= j < out_before.len() ==> #[trigger] out[j] == out_before[j]),
        forall|k: int|
            0 <= k < sorted.len() && (#[trigger] sorted[k]).0 >= snapshot_index ==> spec_covered(
                out_before,
                had_cur,
                cur_index_before,
                cur_before,
                sorted[k].0,
                sorted[k].1,
            ),
    ensures
        forall|k: int|
            0 <= k < sorted.len() && (#[trigger] sorted[k]).0 >= snapshot_index
                ==> spec_groups_have(out, sorted[k].0, sorted[k].1),
{
    assert forall|k: int|
        0 <= k < sorted.len() && (#[trigger] sorted[k]).0 >= snapshot_index implies
        spec_groups_have(out, sorted[k].0, sorted[k].1) by {
        if spec_groups_have(out_before, sorted[k].0, sorted[k].1) {
            let (j, l) = choose|j: int, l: int|
                0 <= j < out_before.len() && 0 <= l < out_before[j].1@.len() && out_before[j].0
                    == sorted[k].0 && out_before[j].1@[l] == sorted[k].1;
            assert(out[j].0 == sorted[k].0 && out[j].1@[l] == sorted[k].1);
        } else {
            assert(had_cur && sorted[k].0 == cur_index_before && cur_before.contains(
                sorted[k].1,
            ));
            let l = choose|l: int| 0 <= l < cur_before.len() && cur_before[l] == sorted[k].1;
            let j = out.len() - 1;
            assert(out[j].0 == cur_index_before && out[j].1@[l] == sorted[k].1);
        }
    }
}

/// Once every sorted pair at or above the snapshot index sits in the
/// final groups, every listed segment at or above it does too.
#[verifier::spinoff_prover]
proof fn lemma_plan_covers_listing(
    wal_segments: Seq<WalSegmentInfo>,
    pairs0: Seq<(u64, u64)>,
    sorted: Seq<(u64, u64)>,
    out: Seq<(u64, Vec<u64>)>,
    snapshot_index: u64,
)
    requires
        pairs0.len() == wal_segments.len(),
        forall|k: int|
            0 <= k < pairs0.len() ==> #[trigger] pairs0[k] == (
                wal_segments[k].index,
                wal_segments[k].offset,
            ),
        forall|k: int| 0 <= k < pairs0.len() ==> sorted.contains(#[trigger] pairs0[k]),
        forall|k: int|
            0 <= k < sorted.len() && (#[trigger] sorted[k]).0 >= snapshot_index
                ==> spec_groups_have(out, sorted[k].0, sorted[k].1),
    ensures
        forall|k: int|
            0 <= k < wal_segments.len() && (#[trigger] wal_segments[k]).index >= snapshot_index
                ==> spec_groups_have(out, wal_segments[k].index, wal_segments[k].offset),
{
    assert forall|k: int|
        0 <= k < wal_segments.len() && (#[trigger] wal_segments[k]).index >= snapshot_index implies
        spec_groups_have(out, wal_segments[k].index, wal_segments[k].offset) by {
        assert(pairs0[k] == (wal_segments[k].index, wal_segments[k].offset));
        assert(sorted.contains(pairs0[k]));
        let m = choose|m: int| 0 <= m < sorted.len() && sorted[m] == pairs0[k];
        assert(spec_groups_have(out, sorted[m].0, sorted[m].1));
    }
}

/// Build the restore plan for one generation: sort the uploaded segments
/// by `(index, offset)`, drop those below the snapshot's index, and group
/// the rest by index. The plan is rejected when an index's first segment
/// does not start at offset zero (`missing initial wal segment`) or when
/// two segments of one index collide (`wal segment out of order`).
#[verifier::rlimit(100)]
pub fn restore_wal_segments_of(snapshot: &SnapshotInfo, wal_segments: &Vec<WalSegmentInfo>) -> (r:
    Result<Vec<(u64, Vec<u64>)>, Error>)
    ensures
        r matches Ok(v) ==> spec_groups_wf(v@, snapshot.index),
        r matches Ok(v) ==> forall|j: int, l: int|
            #![trigger v@[j].1@[l]]
            0 <= j < v@.len() && 0 <= l < v@[j].1@.len() ==> exists|k: int|
                0 <= k < wal_segments@.len() && (#[trigger] wal_segments@[k]).index == v@[j].0
                    && wal_segments@[k].offset == v@[j].1@[l],
        r matches Ok(v) ==> forall|k: int|
            0 <= k < wal_segments@.len() && (#[trigger] wal_segments@[k]).index
                >= snapshot.index ==> spec_groups_have(
                v@,
                wal_segments@[k].index,
                wal_segments@[k].offset,
            ),
        (r is Ok) == spec_restore_listing_ok(snapshot.index, wal_segments@),
        r matches Err(e) ==> e is InvalidWalSegment && (exists|k: int|
            0 <= k < wal_segments@.len() && (#[trigger] wal_segments@[k]).index >= snapshot.index
                && (e.spec_message() == spec_missing_initial_msg(
                snapshot.generation@,
                wal_segments@[k].index,
                wal_segments@[k].offset,
            ) || e.spec_message() == spec_out_of_order_msg(
                snapshot.generation@,
                wal_segments@[k].index,
                wal_segments@[k].offset,
            ))),
{
    let mut pairs: Vec<(u64, u64)> = Vec::new();
    let mut i: usize = 0;
    while i < wal_segments.len()
        invariant
            i <= wal_segments@.len(),
            pairs@.len() == i,
            forall|k: int|
                0 <= k < i ==> #[trigger] pairs@[k] == (
                    wal_segments@[k].index,
                    wal_segments@[k].offset,
                ),
        decreases wal_segments@.len() - i,
    {
        pairs.push((wal_segments[i].index, wal_segments[i].offset));
        i = i + 1;
    }
    let ghost pairs0 = pairs@;
    let sorted = sort_pairs(pairs);
    proof {
        lemma_equal_multisets_contain(sorted@, pairs0);
        lemma_sorted_is_spec_sort(snapshot.index, wal_segments@, pairs0, sorted@);
    }
    group_sorted(snapshot, sorted, wal_segments, Ghost(pairs0))
}

/// Group a sorted `(index, offset)` listing into the per-index offset
/// plan, validating it on the way.
#[verifier::rlimit(100)]
fn group_sorted(
    snapshot: &SnapshotInfo,
    sorted: Vec<(u64, u64)>,
    wal_segments: &Vec<WalSegmentInfo>,
    Ghost(pairs0): Ghost<Seq<(u64, u64)>>,
) -> (r: Result<Vec<(u64, Vec<u64>)>, Error>)
    requires
        spec_pairs_sorted(sorted@),
        pairs0.len() == wal_segments@.len(),
        forall|k: int|
            0 <= k < pairs0.len() ==> #[trigger] pairs0[k] == (
                wal_segments@[k].index,
                wal_segments@[k].offset,
            ),
        forall|k: int| 0 <= k < sorted@.len() ==> pairs0.contains(#[trigger] sorted@[k]),
        forall|k: int| 0 <= k < pairs0.len() ==> sorted@.contains(#[trigger] pairs0[k]),
        spec_restore_listing_ok(snapshot.index, wal_segments@) == spec_segment_run_ok(
            sorted@,
            snapshot.index,
        ),
    ensures
        r matches Ok(v) ==> spec_groups_wf(v@, snapshot.index),
        r matches Ok(v) ==> forall|j: int, l: int|
            #![trigger v@[j].1@[l]]
            0 <= j < v@.len() && 0 <= l < v@[j].1@.len() ==> exists|k: int|
                0 <= k < wal_segments@.len() && (#[trigger] wal_segments@[k]).index == v@[j].0
                    && wal_segments@[k].offset == v@[j].1@[l],
        r matches Ok(v) ==> forall|k: int|
            0 <= k < wal_segments@.len() && (#[trigger] wal_segments@[k]).index
                >= snapshot.index ==> spec_groups_have(
                v@,
                wal_segments@[k].index,
                wal_segments@[k].offset,
            ),
        (r is Ok) == spec_restore_listing_ok(snapshot.index, wal_segments@),
        r matches Err(e) ==> e is InvalidWalSegment && (exists|k: int|
            0 <= k < wal_segments@.len() && (#[trigger] wal_segments@[k]).index >= snapshot.index
                && (e.spec_message() == spec_missing_initial_msg(
                snapshot.generation@,
                wal_segments@[k].index,
                wal_segments@[k].offset,
            ) || e.spec_message() == spec_out_of_order_msg(
                snapshot.generation@,
                wal_segments@[k].index,
                wal_segments@[k].offset,
            ))),
{
    let mut out: Vec<(u64, Vec<u64>)> = Vec::new();
    let mut cur: Vec<u64> = Vec::new();
    let mut cur_index: u64 = 0;
    let mut has_cur = false;
    let mut p: usize = 0;
    while p < sorted.len()
        invariant
            p <= sorted@.len(),
            spec_pairs_sorted(sorted@),
            forall|k: int| 0 <= k < sorted@.len() ==> pairs0.contains(#[trigger] sorted@[k]),
            forall|k: int|
                0 <= k < pairs0.len() ==> #[trigger] pairs0[k] == (
                    wal_segments@[k].index,
                    wal_segments@[k].offset,
                ),
            pairs0.len() == wal_segments@.len(),
            spec_groups_wf(out@, snapshot.index),
            has_cur ==> cur@.len() > 0 && cur@[0] == 0 && cur_index >= snapshot.index && (
            forall|l: int| 0 <= l < cur@.len() - 1 ==> #[trigger] cur@[l] < cur@[l + 1]),
            has_cur ==> forall|j: int| 0 <= j < out@.len() ==> (#[trigger] out@[j]).0 < cur_index,
            has_cur ==> p > 0 && sorted@[p - 1] == (cur_index, cur@.last()),
            !has_cur ==> out@.len() == 0 && cur@.len() == 0,
            forall|j: int, l: int|
                #![trigger out@[j].1@[l]]
                0 <= j < out@.len() && 0 <= l < out@[j].1@.len() ==> pairs0.contains(
                    (out@[j].0, out@[j].1@[l]),
                ),
            has_cur ==> forall|l: int|
                0 <= l < cur@.len() ==> pairs0.contains((cur_index, #[trigger] cur@[l])),
            forall|k: int|
                0 <= k < p && (#[trigger] sorted@[k]).0 >= snapshot.index ==> spec_covered(
                    out@,
                    has_cur,
                    cur_index,
                    cur@,
                    sorted@[k].0,
                    sorted@[k].1,
                ),
            spec_restore_listing_ok(snapshot.index, wal_segments@) == spec_segment_run_ok(
                sorted@,
                snapshot.index,
            ),
            forall|k: int|
                #![trigger sorted@[k]]
                0 <= k < p && sorted@[k].0 >= snapshot.index ==> (((k == 0 || sorted@[k - 1].0
                    != sorted@[k].0) ==> sorted@[k].1 == 0) && ((k > 0 && sorted@[k - 1].0
                    == sorted@[k].0) ==> sorted@[k - 1].1 < sorted@[k].1)),
            !has_cur ==> forall|k: int|
                0 <= k < p ==> (#[trigger] sorted@[k]).0 < snapshot.index,
        decreases sorted@.len() - p,
    {
        let seg = sorted[p];
        let ghost entry_out = out@;
        let ghost entry_cur = cur@;
        let ghost entry_cur_index = cur_index;
        let ghost entry_has_cur = has_cur;
        if seg.0 < snapshot.index {
            proof {
                if has_cur {
                    assert(spec_pair_le(sorted@[p - 1], sorted@[p as int]));
                    assert(false);
                }
            }
            p = p + 1;
            continue ;
        }
        if !has_cur || seg.0 != cur_index {
            if seg.1 != 0 {
                proof {
                    // this position starts a new index without an offset-zero
                    // segment: no plan exists for the listing
                    if has_cur {
                        assert(sorted@[p - 1].0 != sorted@[p as int].0);
                    } else if p > 0 {
                        assert(sorted@[p - 1].0 < snapshot.index);
                    }
                    if spec_segment_run_ok(sorted@, snapshot.index) {
                        assert(sorted@[p as int].1 == 0);
                        assert(false);
                    }
                    assert(pairs0.contains(sorted@[p as int]));
                    let k = choose|k: int| 0 <= k < pairs0.len() && pairs0[k] == sorted@[p as int];
                    assert(wal_segments@[k].index == seg.0 && wal_segments@[k].offset == seg.1);
                }
                return Err(
                    Error::InvalidWalSegment(
                        segment_message(
                            "missing initial wal segment, generation: ",
                            &snapshot.generation,
                            seg.0,
                            seg.1,
                        ),
                    ),
                );
            }
            if has_cur {
                out.push((cur_index, cur));
                cur = Vec::new();
            }
            proof {
                if has_cur {
                    assert(spec_pair_le(sorted@[p - 1], sorted@[p as int]));
                }
            }
            cur_index = seg.0;
            cur.push(seg.1);
            has_cur = true;
            proof {
                assert(cur@.contains(seg.1)) by {
                    assert(cur@.last() == seg.1);
                }
                // the position satisfies the run condition: it opens its
                // index at offset zero
                if entry_has_cur {
                    assert(sorted@[p - 1].0 != sorted@[p as int].0);
                } else if p > 0 {
                    assert(sorted@[p - 1].0 < snapshot.index);
                }
                // anything covered before stays covered: a finished group
                // moved into `out`, everything else kept its place
                assert forall|k: int|
                    0 <= k < p && (#[trigger] sorted@[k]).0 >= snapshot.index implies
                    spec_covered(out@, has_cur, cur_index, cur@, sorted@[k].0, sorted@[k].1) by {
                    assert(spec_covered(
                        entry_out,
                        entry_has_cur,
                        entry_cur_index,
                        entry_cur,
                        sorted@[k].0,
                        sorted@[k].1,
                    ));
                    if spec_groups_have(entry_out, sorted@[k].0, sorted@[k].1) {
                        let (j, l) = choose|j: int, l: int|
                            0 <= j < entry_out.len() && 0 <= l < entry_out[j].1@.len()
                                && entry_out[j].0 == sorted@[k].0 && entry_out[j].1@[l]
                                == sorted@[k].1;
                        assert(out@[j].0 == sorted@[k].0 && out@[j].1@[l] == sorted@[k].1);
                    } else {
                        assert(entry_has_cur && sorted@[k].0 == entry_cur_index
                            && entry_cur.contains(sorted@[k].1));
                        let l = choose|l: int|
                            0 <= l < entry_cur.len() && entry_cur[l] == sorted@[k].1;
                        let j = entry_out.len() as int;
                        assert(out@[j].0 == entry_cur_index && out@[j].1@[l] == sorted@[k].1);
                    }
                }
            }
        } else {
            let last = cur[cur.len() - 1];
            if last >= seg.1 {
                proof {
                    // two segments of one index collide: no plan exists
                    assert(sorted@[p - 1] == (cur_index, last));
                    assert(spec_pair_le(sorted@[p - 1], sorted@[p as int]));
                    if spec_segment_run_ok(sorted@, snapshot.index) {
                        assert(sorted@[p - 1].1 < sorted@[p as int].1);
                        assert(false);
                    }
                    assert(pairs0.contains(sorted@[p as int]));
                    let k = choose|k: int| 0 <= k < pairs0.len() && pairs0[k] == sorted@[p as int];
                    assert(wal_segments@[k].index == seg.0 && wal_segments@[k].offset == seg.1);
                }
                return Err(
                    Error::InvalidWalSegment(
                        segment_message(
                            "wal segment out of order, generation: ",
                            &snapshot.generation,
                            seg.0,
                            seg.1,
                        ),
                    ),
                );
            }
            let ghost old_cur = cur@;
            cur.push(seg.1);
            proof {
                assert(cur@.contains(seg.1)) by {
                    assert(cur@.last() == seg.1);
                }
                assert(forall|o: u64| old_cur.contains(o) ==> cur@.contains(o)) by {
                    assert forall|o: u64| old_cur.contains(o) implies cur@.contains(o) by {
                        let l = choose|l: int| 0 <= l < old_cur.len() && old_cur[l] == o;
                        assert(cur@[l] == o);
                    }
                }
            }
        }
        p = p + 1;
    }
    let ghost out_before = out@;
    let ghost cur_before = cur@;
    let ghost had_cur = has_cur;
    let ghost cur_index_before = cur_index;
    if has_cur {
        out.push((cur_index, cur));
    }
    proof {
        assert(spec_segment_run_ok(sorted@, snapshot.index));
        lemma_final_groups_have(
            out_before,
            cur_before,
            had_cur,
            cur_index_before,
            out@,
            sorted@,
            snapshot.index,
        );
        lemma_plan_covers_listing(wal_segments@, pairs0, sorted@, out@, snapshot.index);
        assert forall|j: int, l: int|
            #![trigger out@[j].1@[l]]
            0 <= j < out@.len() && 0 <= l < out@[j].1@.len() implies exists|k: int|
            0 <= k < wal_segments@.len() && (#[trigger] wal_segments@[k]).index == out@[j].0
                && wal_segments@[k].offset == out@[j].1@[l] by {
            assert(pairs0.contains((out@[j].0, out@[j].1@[l])));
            let k = choose|k: int| 0 <= k < pairs0.len() && pairs0[k] == (
                out@[j].0,
                out@[j].1@[l],
            );
            assert(wal_segments@[k].index == out@[j].0);
            assert(wal_segments@[k].offset == out@[j].1@[l]);
        }
    }
    Ok(out)
}

} // verus!
