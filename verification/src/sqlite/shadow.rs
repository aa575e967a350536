use vstd::prelude::*;

use crate::error::Error;
use crate::sqlite::common::WAL_FRAME_HEADER_SIZE;
use crate::sqlite::common::spec_be_u32_at;
use crate::sqlite::common::spec_checksum;
use crate::sqlite::common::spec_align_frame;
use crate::sqlite::common::spec_last_checksum_offset;
use crate::sqlite::common::align_frame;
use crate::sqlite::common::checksum;
use crate::sqlite::common::u32_at;
use crate::sqlite::common::read_last_checksum;
use crate::sqlite::wal_header::WALHeader;
use crate::sqlite::wal_header::spec_header_valid;
use crate::sqlite::wal_header::spec_header_page_size;
use crate::sqlite::wal_header::spec_is_big_endian_magic;

verus! {

// ---------------------------------------------------------------------------
// Frames in context
// ---------------------------------------------------------------------------
/// The rolling checksum folded over the frame at `off`: first the eight
/// header-prefix bytes (page number and commit size), then the page bytes.
pub open spec fn spec_frame_cksum(
    wal: Seq<u8>,
    off: int,
    ps: int,
    big: bool,
    c1: u32,
    c2: u32,
) -> (u32, u32) {
    let h = spec_checksum(wal.subrange(off, off + 8), c1, c2, big);
    spec_checksum(wal.subrange(off + 24, off + 24 + ps), h.0, h.1, big)
}

/// A frame at `off` is valid in context: it fits, its salts equal the
/// header salts, and its stored checksum words continue the rolling
/// checksum `(c1, c2)` accumulated just before it.
pub open spec fn spec_frame_matches(
    wal: Seq<u8>,
    off: int,
    ps: int,
    big: bool,
    salt1: u32,
    salt2: u32,
    c1: u32,
    c2: u32,
) -> bool {
    &&& 1 <= ps
    &&& 0 <= off
    &&& off + 24 + ps <= wal.len()
    &&& spec_be_u32_at(wal, off + 8) == salt1
    &&& spec_be_u32_at(wal, off + 12) == salt2
    &&& spec_frame_cksum(wal, off, ps, big, c1, c2) == (
        spec_be_u32_at(wal, off + 16),
        spec_be_u32_at(wal, off + 20),
    )
}

/// A chain of valid frames covering `[off, to)` exactly, carrying the
/// rolling checksum from `(c1, c2)` at `off` to `(d1, d2)` at `to`.
/// With `nc` set, every frame in the chain is a non-commit frame.
pub open spec fn spec_frames_chain(
    s: Seq<u8>,
    off: int,
    to: int,
    ps: int,
    big: bool,
    salt1: u32,
    salt2: u32,
    c1: u32,
    c2: u32,
    d1: u32,
    d2: u32,
    nc: bool,
) -> bool
    decreases to - off,
{
    if off >= to {
        off == to && c1 == d1 && c2 == d2
    } else {
        &&& spec_frame_matches(s, off, ps, big, salt1, salt2, c1, c2)
        &&& off + 24 + ps <= to
        &&& (nc ==> spec_be_u32_at(s, off + 4) == 0)
        &&& ({
            let ck = spec_frame_cksum(s, off, ps, big, c1, c2);
            spec_frames_chain(s, off + 24 + ps, to, ps, big, salt1, salt2, ck.0, ck.1, d1, d2, nc)
        })
    }
}

// ---------------------------------------------------------------------------
// The scan that finds the last committed transaction
// ---------------------------------------------------------------------------
/// State of a scan over the live WAL: the next frame offset with the
/// rolling checksum there, and the end of the last commit frame seen with
/// the rolling checksum there.
pub ghost struct ScanState {
    pub off: int,
    pub c1: u32,
    pub c2: u32,
    pub last: int,
    pub lc1: u32,
    pub lc2: u32,
}

/// Walk frames from `st.off` while they are valid in context, tracking in
/// `last` the offset just past the most recent commit frame. The result is
/// the state at the first frame that does not fit or does not match.
pub open spec fn spec_scan(
    wal: Seq<u8>,
    ps: int,
    big: bool,
    salt1: u32,
    salt2: u32,
    st: ScanState,
) -> ScanState
    decreases wal.len() - st.off,
{
    if !spec_frame_matches(wal, st.off, ps, big, salt1, salt2, st.c1, st.c2) {
        st
    } else {
        let ck = spec_frame_cksum(wal, st.off, ps, big, st.c1, st.c2);
        let off2 = st.off + 24 + ps;
        if spec_be_u32_at(wal, st.off + 4) != 0 {
            spec_scan(
                wal,
                ps,
                big,
                salt1,
                salt2,
                ScanState { off: off2, c1: ck.0, c2: ck.1, last: off2, lc1: ck.0, lc2: ck.1 },
            )
        } else {
            spec_scan(
                wal,
                ps,
                big,
                salt1,
                salt2,
                ScanState { off: off2, c1: ck.0, c2: ck.1, last: st.last, lc1: st.lc1, lc2: st.lc2 },
            )
        }
    }
}

/// The scan that `copy_to_shadow_wal` performs, assembled from the shadow
/// file: it starts at the shadow's aligned size, uses the shadow header's
/// endianness and salts, and seeds the rolling checksum from the last
/// checksum pair recorded in the shadow.
pub open spec fn spec_shadow_scan(shadow: Seq<u8>, wal: Seq<u8>, ps: int) -> ScanState {
    let start = spec_align_frame(ps, shadow.len() as int);
    let big = spec_is_big_endian_magic(shadow);
    let s1 = spec_be_u32_at(shadow, 16);
    let s2 = spec_be_u32_at(shadow, 20);
    let lo = spec_last_checksum_offset(ps, shadow.len() as int);
    let c1 = spec_be_u32_at(shadow, lo);
    let c2 = spec_be_u32_at(shadow, lo + 4);
    spec_scan(
        wal,
        ps,
        big,
        s1,
        s2,
        ScanState { off: start, c1, c2, last: start, lc1: c1, lc2: c2 },
    )
}

/// The offset in the live WAL just past the last committed transaction
/// that extends the shadow: where the next shadow append ends.
pub open spec fn spec_shadow_append_end(shadow: Seq<u8>, wal: Seq<u8>, ps: int) -> int {
    spec_shadow_scan(shadow, wal, ps).last
}

/// A scan stopped at a frame that does not match returns its state.
proof fn lemma_scan_stop(wal: Seq<u8>, ps: int, big: bool, salt1: u32, salt2: u32, st: ScanState)
    requires
        !spec_frame_matches(wal, st.off, ps, big, salt1, salt2, st.c1, st.c2),
    ensures
        spec_scan(wal, ps, big, salt1, salt2, st) == st,
{
}

/// A finished scan of the live WAL determines where the shadow append
/// ends: the scan state reached from the shadow-derived start state, once
/// it sits at a frame that does not match, fixes the append end.
proof fn lemma_copy_post(
    shadow: Seq<u8>,
    wal: Seq<u8>,
    ps: int,
    big: bool,
    salt1: u32,
    salt2: u32,
    st0: ScanState,
    stf: ScanState,
)
    requires
        big == spec_is_big_endian_magic(shadow),
        salt1 == spec_be_u32_at(shadow, 16),
        salt2 == spec_be_u32_at(shadow, 20),
        st0.off == spec_align_frame(ps, shadow.len() as int),
        st0.last == st0.off,
        st0.c1 == spec_be_u32_at(shadow, spec_last_checksum_offset(ps, shadow.len() as int)),
        st0.c2 == spec_be_u32_at(shadow, spec_last_checksum_offset(ps, shadow.len() as int) + 4),
        st0.lc1 == st0.c1,
        st0.lc2 == st0.c2,
        spec_scan(wal, ps, big, salt1, salt2, st0) == spec_scan(wal, ps, big, salt1, salt2, stf),
        !spec_frame_matches(wal, stf.off, ps, big, salt1, salt2, stf.c1, stf.c2),
    ensures
        spec_shadow_append_end(shadow, wal, ps) == stf.last,
{
    lemma_scan_stop(wal, ps, big, salt1, salt2, stf);
}

/// One unfolding of the scan across a matching frame.
proof fn lemma_scan_step(wal: Seq<u8>, ps: int, big: bool, salt1: u32, salt2: u32, st: ScanState)
    requires
        spec_frame_matches(wal, st.off, ps, big, salt1, salt2, st.c1, st.c2),
    ensures
        ({
            let ck = spec_frame_cksum(wal, st.off, ps, big, st.c1, st.c2);
            let off2 = st.off + 24 + ps;
            spec_scan(wal, ps, big, salt1, salt2, st) == (if spec_be_u32_at(wal, st.off + 4)
                != 0 {
                spec_scan(
                    wal,
                    ps,
                    big,
                    salt1,
                    salt2,
                    ScanState { off: off2, c1: ck.0, c2: ck.1, last: off2, lc1: ck.0, lc2: ck.1 },
                )
            } else {
                spec_scan(
                    wal,
                    ps,
                    big,
                    salt1,
                    salt2,
                    ScanState {
                        off: off2,
                        c1: ck.0,
                        c2: ck.1,
                        last: st.last,
                        lc1: st.lc1,
                        lc2: st.lc2,
                    },
                )
            })
        }),
{
}

// ---------------------------------------------------------------------------
// The append itself
// ---------------------------------------------------------------------------
/// The outcome of one shadow sync: the bytes to append to the shadow file,
/// the aligned size of the live WAL, and the shadow size once the append
/// is written.
#[derive(Debug)]
pub struct ShadowAppend {
    pub data: Vec<u8>,
    pub orig_wal_size: u64,
    pub new_size: u64,
}

/// Whether the seed checksum pair can be read out of a shadow file of
/// `len` bytes: the last-checksum offset lies within the file.
pub open spec fn spec_can_read_last_checksum(ps: int, len: int) -> bool {
    let lo = spec_last_checksum_offset(ps, len);
    0 <= lo && lo + 8 <= len
}

/// Compute the bytes that the live WAL appends to a shadow file: every
/// frame after the shadow's aligned size whose salts match the shadow
/// header and whose rolling checksum continues the shadow's, up to and
/// including the last commit frame. Partial or foreign frames and
/// uncommitted tails are left behind.
///
/// `shadow` and `wal` are the current contents of the shadow file and the
/// live WAL; the caller appends the returned bytes to the shadow file.
#[verifier::rlimit(100)]
pub fn copy_to_shadow_wal(shadow: &Vec<u8>, wal: &Vec<u8>, page_size: u64) -> (r: Result<
    ShadowAppend,
    Error,
>)
    requires
        1024 <= page_size <= 65536,
        page_size % 8 == 0,
    ensures
        (r is Ok) == (spec_header_valid(shadow@) && spec_can_read_last_checksum(
            page_size as int,
            shadow@.len() as int,
        )),
        r matches Ok(a) ==> ({
            let start = spec_align_frame(page_size as int, shadow@.len() as int);
            &&& a.orig_wal_size == spec_align_frame(page_size as int, wal@.len() as int)
            &&& a.new_size == spec_shadow_append_end(shadow@, wal@, page_size as int)
            &&& (a.new_size > start ==> a.data@ == wal@.subrange(start, a.new_size as int))
            &&& (a.new_size == start ==> a.data@.len() == 0)
            &&& start <= a.new_size
            &&& 32 <= a.new_size
            &&& (a.new_size - 32) % (24 + page_size as int) == 0
            &&& (a.new_size == start || a.new_size <= wal@.len())
        }),
        r matches Err(e) ==> e is SqliteInvalidWalHeader || e is UnexpectedEof,
{
    let ghost ps = page_size as int;
    let orig_wal_size = align_frame(page_size, wal.len() as u64);
    let orig_shadow_size = align_frame(page_size, shadow.len() as u64);
    let hdr = match WALHeader::read_from(shadow) {
        Ok(h) => h,
        Err(e) => {
            return Err(e);
        },
    };
    let (ck1, ck2) = match read_last_checksum(shadow, page_size) {
        Ok(c) => c,
        Err(e) => {
            return Err(e);
        },
    };
    let ghost big = spec_is_big_endian_magic(shadow@);
    let ghost salt1 = spec_be_u32_at(shadow@, 16);
    let ghost salt2 = spec_be_u32_at(shadow@, 20);
    let frame_size: usize = WAL_FRAME_HEADER_SIZE as usize + page_size as usize;
    proof {
        assert(orig_shadow_size <= shadow@.len());
    }
    let start: usize = orig_shadow_size as usize;
    let mut offset: usize = start;
    let mut last_commit: usize = start;
    let mut c1: u32 = ck1;
    let mut c2: u32 = ck2;
    let ghost mut glc1: u32 = ck1;
    let ghost mut glc2: u32 = ck2;
    let ghost st0 = ScanState {
        off: start as int,
        c1: ck1,
        c2: ck2,
        last: start as int,
        lc1: ck1,
        lc2: ck2,
    };
    let mut done = false;
    while !done && wal.len() >= frame_size && offset <= wal.len() - frame_size
        invariant
            done ==> !spec_frame_matches(wal@, offset as int, ps, big, salt1, salt2, c1, c2),
            1024 <= page_size <= 65536,
            page_size % 8 == 0,
            hdr.salt1 == salt1,
            hdr.salt2 == salt2,
            hdr.is_big_endian == big,
            ps == page_size as int,
            frame_size == 24 + ps,
            start <= last_commit <= offset,
            last_commit == start || last_commit <= wal@.len(),
            (start - 32) % (24 + ps) == 0 || start == 0,
            32 <= start || start == 0,
            (offset - start) % (24 + ps) == 0,
            (last_commit - start) % (24 + ps) == 0,
            spec_scan(wal@, ps, big, salt1, salt2, st0) == spec_scan(
                wal@,
                ps,
                big,
                salt1,
                salt2,
                ScanState {
                    off: offset as int,
                    c1,
                    c2,
                    last: last_commit as int,
                    lc1: glc1,
                    lc2: glc2,
                },
            ),
        decreases (if done { 0int } else { 1int }) + wal@.len() - offset,
    {
        let wal_slice = wal.as_slice();
        let fsalt1 = u32_at(wal_slice, offset + 8, true);
        let fsalt2 = u32_at(wal_slice, offset + 12, true);
        if fsalt1 != hdr.salt1 || fsalt2 != hdr.salt2 {
            done = true;
        } else {
        let head = vstd::slice::slice_subrange(wal_slice, offset, offset + 8);
        let (h1, h2) = checksum(head, c1, c2, hdr.is_big_endian);
        let page = vstd::slice::slice_subrange(wal_slice, offset + 24, offset + frame_size);
        let (n1, n2) = checksum(page, h1, h2, hdr.is_big_endian);
        let fck1 = u32_at(wal_slice, offset + 16, true);
        let fck2 = u32_at(wal_slice, offset + 20, true);
        proof {
            assert(head@ == wal@.subrange(offset as int, offset as int + 8));
            assert(page@ == wal@.subrange(offset as int + 24, offset as int + 24 + ps));
            assert((n1, n2) == spec_frame_cksum(wal@, offset as int, ps, big, c1, c2));
        }
        if n1 != fck1 || n2 != fck2 {
            done = true;
        } else {
        let db_size = u32_at(wal_slice, offset + 4, true);
        proof {
            assert(spec_frame_matches(wal@, offset as int, ps, big, salt1, salt2, c1, c2));
        }
        let ghost old_st = ScanState {
            off: offset as int,
            c1,
            c2,
            last: last_commit as int,
            lc1: glc1,
            lc2: glc2,
        };
        c1 = n1;
        c2 = n2;
        offset = offset + frame_size;
        if db_size != 0 {
            last_commit = offset;
            proof {
                glc1 = n1;
                glc2 = n2;
            }
        }
        proof {
            lemma_scan_step(wal@, ps, big, salt1, salt2, old_st);
            vstd::arithmetic::div_mod::lemma_mod_add_multiples_vanish(
                old_st.off - start as int,
                24 + ps,
            );
            assert((offset as int - start as int) % (24 + ps) == 0);
        }
        }
        }
    }
    proof {
        if !done {
            assert(offset as int + 24 + ps > wal@.len());
        }
        let stf = ScanState {
            off: offset as int,
            c1,
            c2,
            last: last_commit as int,
            lc1: glc1,
            lc2: glc2,
        };
        lemma_copy_post(shadow@, wal@, ps, big, salt1, salt2, st0, stf);
        assert(32 <= start);
        vstd::arithmetic::div_mod::lemma_add_mod_noop(
            last_commit as int - start as int,
            start as int - 32,
            24 + ps,
        );
        assert((last_commit as int - 32) % (24 + ps) == 0);
    }
    let mut data: Vec<u8> = Vec::new();
    let mut i: usize = start;
    while i < last_commit
        invariant
            start <= i <= last_commit,
            last_commit == start || last_commit <= wal@.len(),
            i > start ==> data@ == wal@.subrange(start as int, i as int),
            i == start ==> data@.len() == 0,
        decreases last_commit - i,
    {
        let b = wal[i];
        data.push(b);
        proof {
            assert(data@ =~= wal@.subrange(start as int, i as int + 1));
        }
        i = i + 1;
    }
    proof {
        assert(last_commit > start ==> data@ == wal@.subrange(start as int, last_commit as int));
    }
    Ok(ShadowAppend { data, orig_wal_size, new_size: last_commit as u64 })
}

} // verus!

verus! {

// ---------------------------------------------------------------------------
// The shadow file invariant and the laws of the append
// ---------------------------------------------------------------------------
/// A well-formed shadow WAL file with checksum tail `(d1, d2)`: a valid
/// header whose page size is `ps`, a size of exactly the header plus whole
/// frames, and a chain of valid frames that carries the rolling checksum
/// from the header's checksum words to `(d1, d2)` at the end of the file.
pub open spec fn spec_valid_shadow_ck(s: Seq<u8>, ps: int, d1: u32, d2: u32) -> bool {
    &&& spec_header_valid(s)
    &&& spec_header_page_size(s) == ps
    &&& spec_align_frame(ps, s.len() as int) == s.len()
    &&& spec_frames_chain(
        s,
        32,
        s.len() as int,
        ps,
        spec_is_big_endian_magic(s),
        spec_be_u32_at(s, 16),
        spec_be_u32_at(s, 20),
        spec_be_u32_at(s, 24),
        spec_be_u32_at(s, 28),
        d1,
        d2,
        false,
    )
}

/// Chains over adjacent ranges compose.
proof fn lemma_chain_concat(
    s: Seq<u8>,
    a: int,
    b: int,
    c: int,
    ps: int,
    big: bool,
    salt1: u32,
    salt2: u32,
    x1: u32,
    x2: u32,
    y1: u32,
    y2: u32,
    z1: u32,
    z2: u32,
    nc: bool,
)
    requires
        spec_frames_chain(s, a, b, ps, big, salt1, salt2, x1, x2, y1, y2, nc),
        spec_frames_chain(s, b, c, ps, big, salt1, salt2, y1, y2, z1, z2, nc),
        a <= b <= c,
    ensures
        spec_frames_chain(s, a, c, ps, big, salt1, salt2, x1, x2, z1, z2, nc),
    decreases b - a,
{
    if a < b {
        let ck = spec_frame_cksum(s, a, ps, big, x1, x2);
        lemma_chain_concat(
            s,
            a + 24 + ps,
            b,
            c,
            ps,
            big,
            salt1,
            salt2,
            ck.0,
            ck.1,
            y1,
            y2,
            z1,
            z2,
            nc,
        );
    }
}

/// A chain extends by one matching frame at its end.
proof fn lemma_chain_snoc(
    s: Seq<u8>,
    a: int,
    b: int,
    ps: int,
    big: bool,
    salt1: u32,
    salt2: u32,
    x1: u32,
    x2: u32,
    y1: u32,
    y2: u32,
    nc: bool,
)
    requires
        spec_frames_chain(s, a, b, ps, big, salt1, salt2, x1, x2, y1, y2, nc),
        spec_frame_matches(s, b, ps, big, salt1, salt2, y1, y2),
        nc ==> spec_be_u32_at(s, b + 4) == 0,
        a <= b,
    ensures
        ({
            let ck = spec_frame_cksum(s, b, ps, big, y1, y2);
            spec_frames_chain(s, a, b + 24 + ps, ps, big, salt1, salt2, x1, x2, ck.0, ck.1, nc)
        }),
{
    let ck = spec_frame_cksum(s, b, ps, big, y1, y2);
    assert(spec_frames_chain(
        s,
        b + 24 + ps,
        b + 24 + ps,
        ps,
        big,
        salt1,
        salt2,
        ck.0,
        ck.1,
        ck.0,
        ck.1,
        nc,
    ));
    assert(spec_frames_chain(s, b, b + 24 + ps, ps, big, salt1, salt2, y1, y2, ck.0, ck.1, nc));
    lemma_chain_concat(
        s,
        a,
        b,
        b + 24 + ps,
        ps,
        big,
        salt1,
        salt2,
        x1,
        x2,
        y1,
        y2,
        ck.0,
        ck.1,
        nc,
    );
}

/// A chain of non-commit frames is in particular a chain.
proof fn lemma_chain_weaken(
    s: Seq<u8>,
    a: int,
    b: int,
    ps: int,
    big: bool,
    salt1: u32,
    salt2: u32,
    x1: u32,
    x2: u32,
    y1: u32,
    y2: u32,
)
    requires
        spec_frames_chain(s, a, b, ps, big, salt1, salt2, x1, x2, y1, y2, true),
    ensures
        spec_frames_chain(s, a, b, ps, big, salt1, salt2, x1, x2, y1, y2, false),
    decreases b - a,
{
    if a < b {
        let ck = spec_frame_cksum(s, a, ps, big, x1, x2);
        lemma_chain_weaken(s, a + 24 + ps, b, ps, big, salt1, salt2, ck.0, ck.1, y1, y2);
    }
}

/// A chain covers a whole number of frames.
proof fn lemma_chain_len(
    s: Seq<u8>,
    a: int,
    b: int,
    ps: int,
    big: bool,
    salt1: u32,
    salt2: u32,
    x1: u32,
    x2: u32,
    y1: u32,
    y2: u32,
    nc: bool,
)
    requires
        spec_frames_chain(s, a, b, ps, big, salt1, salt2, x1, x2, y1, y2, nc),
        ps >= 1,
    ensures
        a <= b,
        (b - a) % (24 + ps) == 0,
        a < b ==> b <= s.len(),
    decreases b - a,
{
    if a < b {
        let ck = spec_frame_cksum(s, a, ps, big, x1, x2);
        lemma_chain_len(s, a + 24 + ps, b, ps, big, salt1, salt2, ck.0, ck.1, y1, y2, nc);
        assert((b - (a + 24 + ps)) % (24 + ps) == 0);
        vstd::arithmetic::div_mod::lemma_mod_add_multiples_vanish(b - a - (24 + ps), 24 + ps);
        assert(((24 + ps) + (b - a - (24 + ps))) % (24 + ps) == (b - a - (24 + ps)) % (24
            + ps));
        assert((b - a) % (24 + ps) == 0);
    } else {
        assert(a == b);
        assert((0int) % (24 + ps) == 0);
    }
}

/// What a finished scan guarantees: the frames it accepted up to the last
/// commit form a chain from the starting seed; the frames past the last
/// commit form a non-commit chain; and the frame it stopped at does not
/// match.
proof fn lemma_scan_props(
    wal: Seq<u8>,
    ps: int,
    big: bool,
    salt1: u32,
    salt2: u32,
    st: ScanState,
)
    requires
        1 <= ps,
        spec_frames_chain(
            wal,
            st.last,
            st.off,
            ps,
            big,
            salt1,
            salt2,
            st.lc1,
            st.lc2,
            st.c1,
            st.c2,
            true,
        ),
    ensures
        ({
            let r = spec_scan(wal, ps, big, salt1, salt2, st);
            &&& spec_frames_chain(
                wal,
                st.last,
                r.last,
                ps,
                big,
                salt1,
                salt2,
                st.lc1,
                st.lc2,
                r.lc1,
                r.lc2,
                false,
            )
            &&& spec_frames_chain(
                wal,
                r.last,
                r.off,
                ps,
                big,
                salt1,
                salt2,
                r.lc1,
                r.lc2,
                r.c1,
                r.c2,
                true,
            )
            &&& !spec_frame_matches(wal, r.off, ps, big, salt1, salt2, r.c1, r.c2)
            &&& st.last <= r.last
        }),
    decreases wal.len() - st.off,
{
    lemma_chain_len(
        wal,
        st.last,
        st.off,
        ps,
        big,
        salt1,
        salt2,
        st.lc1,
        st.lc2,
        st.c1,
        st.c2,
        true,
    );
    if !spec_frame_matches(wal, st.off, ps, big, salt1, salt2, st.c1, st.c2) {
        lemma_chain_weaken(
            wal,
            st.last,
            st.off,
            ps,
            big,
            salt1,
            salt2,
            st.lc1,
            st.lc2,
            st.c1,
            st.c2,
        );
        assert(spec_scan(wal, ps, big, salt1, salt2, st) == st);
        assert(spec_frames_chain(
            wal,
            st.last,
            st.last,
            ps,
            big,
            salt1,
            salt2,
            st.lc1,
            st.lc2,
            st.lc1,
            st.lc2,
            false,
        ));
    } else {
        let ck = spec_frame_cksum(wal, st.off, ps, big, st.c1, st.c2);
        let off2 = st.off + 24 + ps;
        if spec_be_u32_at(wal, st.off + 4) != 0 {
            let st2 = ScanState {
                off: off2,
                c1: ck.0,
                c2: ck.1,
                last: off2,
                lc1: ck.0,
                lc2: ck.1,
            };
            assert(spec_frames_chain(
                wal,
                off2,
                off2,
                ps,
                big,
                salt1,
                salt2,
                ck.0,
                ck.1,
                ck.0,
                ck.1,
                true,
            ));
            lemma_scan_props(wal, ps, big, salt1, salt2, st2);
            let r = spec_scan(wal, ps, big, salt1, salt2, st2);
            assert(spec_scan(wal, ps, big, salt1, salt2, st) == r);
            // the commit-side chain: old chain (weakened) + this frame + the
            // chain from off2 to r.last
            lemma_chain_weaken(
                wal,
                st.last,
                st.off,
                ps,
                big,
                salt1,
                salt2,
                st.lc1,
                st.lc2,
                st.c1,
                st.c2,
            );
            lemma_chain_snoc(
                wal,
                st.last,
                st.off,
                ps,
                big,
                salt1,
                salt2,
                st.lc1,
                st.lc2,
                st.c1,
                st.c2,
                false,
            );
            lemma_chain_concat(
                wal,
                st.last,
                off2,
                r.last,
                ps,
                big,
                salt1,
                salt2,
                st.lc1,
                st.lc2,
                ck.0,
                ck.1,
                r.lc1,
                r.lc2,
                false,
            );
        } else {
            let st2 = ScanState {
                off: off2,
                c1: ck.0,
                c2: ck.1,
                last: st.last,
                lc1: st.lc1,
                lc2: st.lc2,
            };
            lemma_chain_snoc(
                wal,
                st.last,
                st.off,
                ps,
                big,
                salt1,
                salt2,
                st.lc1,
                st.lc2,
                st.c1,
                st.c2,
                true,
            );
            lemma_scan_props(wal, ps, big, salt1, salt2, st2);
            assert(spec_scan(wal, ps, big, salt1, salt2, st) == spec_scan(
                wal,
                ps,
                big,
                salt1,
                salt2,
                st2,
            ));
        }
    }
}

/// Walking a non-commit chain does not move the scan's commit point: the
/// scan from the chain's start equals the scan from its end.
proof fn lemma_scan_walk(
    wal: Seq<u8>,
    ps: int,
    big: bool,
    salt1: u32,
    salt2: u32,
    a: int,
    b: int,
    x1: u32,
    x2: u32,
    y1: u32,
    y2: u32,
    last: int,
    l1: u32,
    l2: u32,
)
    requires
        1 <= ps,
        spec_frames_chain(wal, a, b, ps, big, salt1, salt2, x1, x2, y1, y2, true),
    ensures
        spec_scan(
            wal,
            ps,
            big,
            salt1,
            salt2,
            ScanState { off: a, c1: x1, c2: x2, last, lc1: l1, lc2: l2 },
        ) == spec_scan(
            wal,
            ps,
            big,
            salt1,
            salt2,
            ScanState { off: b, c1: y1, c2: y2, last, lc1: l1, lc2: l2 },
        ),
    decreases b - a,
{
    lemma_chain_len(wal, a, b, ps, big, salt1, salt2, x1, x2, y1, y2, true);
    if a < b {
        let ck = spec_frame_cksum(wal, a, ps, big, x1, x2);
        lemma_scan_walk(
            wal,
            ps,
            big,
            salt1,
            salt2,
            a + 24 + ps,
            b,
            ck.0,
            ck.1,
            y1,
            y2,
            last,
            l1,
            l2,
        );
    }
}

/// A chain only looks at the bytes of its own range: it transports to any
/// sequence that agrees on that range.
proof fn lemma_chain_transport(
    s: Seq<u8>,
    t: Seq<u8>,
    a: int,
    b: int,
    ps: int,
    big: bool,
    salt1: u32,
    salt2: u32,
    x1: u32,
    x2: u32,
    y1: u32,
    y2: u32,
    nc: bool,
)
    requires
        spec_frames_chain(s, a, b, ps, big, salt1, salt2, x1, x2, y1, y2, nc),
        b <= t.len(),
        forall|i: int| a <= i < b ==> s[i] == #[trigger] t[i],
    ensures
        spec_frames_chain(t, a, b, ps, big, salt1, salt2, x1, x2, y1, y2, nc),
    decreases b - a,
{
    if a < b {
        assert(t.subrange(a, a + 8) =~= s.subrange(a, a + 8));
        assert(t.subrange(a + 24, a + 24 + ps) =~= s.subrange(a + 24, a + 24 + ps));
        assert(spec_frame_cksum(t, a, ps, big, x1, x2) == spec_frame_cksum(
            s,
            a,
            ps,
            big,
            x1,
            x2,
        ));
        assert(spec_frame_matches(t, a, ps, big, salt1, salt2, x1, x2));
        let ck = spec_frame_cksum(s, a, ps, big, x1, x2);
        lemma_chain_transport(
            s,
            t,
            a + 24 + ps,
            b,
            ps,
            big,
            salt1,
            salt2,
            ck.0,
            ck.1,
            y1,
            y2,
            nc,
        );
    }
}

/// In a non-empty chain, the checksum pair at the end is the pair stored
/// in the last frame's header.
proof fn lemma_chain_end_stored(
    s: Seq<u8>,
    a: int,
    b: int,
    ps: int,
    big: bool,
    salt1: u32,
    salt2: u32,
    x1: u32,
    x2: u32,
    y1: u32,
    y2: u32,
    nc: bool,
)
    requires
        1 <= ps,
        spec_frames_chain(s, a, b, ps, big, salt1, salt2, x1, x2, y1, y2, nc),
        a < b,
    ensures
        y1 == spec_be_u32_at(s, b - ps - 8),
        y2 == spec_be_u32_at(s, b - ps - 4),
    decreases b - a,
{
    let ck = spec_frame_cksum(s, a, ps, big, x1, x2);
    if a + 24 + ps == b {
        assert(spec_frames_chain(s, b, b, ps, big, salt1, salt2, ck.0, ck.1, y1, y2, nc));
        assert(y1 == ck.0 && y2 == ck.1);
        assert(ck.0 == spec_be_u32_at(s, a + 16) && ck.1 == spec_be_u32_at(s, a + 20));
    } else {
        lemma_chain_len(s, a + 24 + ps, b, ps, big, salt1, salt2, ck.0, ck.1, y1, y2, nc);
        lemma_chain_end_stored(
            s,
            a + 24 + ps,
            b,
            ps,
            big,
            salt1,
            salt2,
            ck.0,
            ck.1,
            y1,
            y2,
            nc,
        );
    }
}

/// P2 in one statement: in a well-formed shadow with at least one frame,
/// the rolling checksum walked from the header reproduces the checksum
/// words stored in the last frame, which is exactly the pair the append
/// seeds its scan with.
pub proof fn lemma_shadow_seed(s: Seq<u8>, ps: int, d1: u32, d2: u32)
    requires
        1 <= ps,
        spec_valid_shadow_ck(s, ps, d1, d2),
    ensures
        d1 == spec_be_u32_at(s, spec_last_checksum_offset(ps, s.len() as int)),
        d2 == spec_be_u32_at(s, spec_last_checksum_offset(ps, s.len() as int) + 4),
{
    let big = spec_is_big_endian_magic(s);
    let salt1 = spec_be_u32_at(s, 16);
    let salt2 = spec_be_u32_at(s, 20);
    if s.len() == 32 {
        assert(spec_last_checksum_offset(ps, 32) == 24);
    } else {
        lemma_chain_len(
            s,
            32,
            s.len() as int,
            ps,
            big,
            salt1,
            salt2,
            spec_be_u32_at(s, 24),
            spec_be_u32_at(s, 28),
            d1,
            d2,
            false,
        );
        lemma_chain_end_stored(
            s,
            32,
            s.len() as int,
            ps,
            big,
            salt1,
            salt2,
            spec_be_u32_at(s, 24),
            spec_be_u32_at(s, 28),
            d1,
            d2,
            false,
        );
        assert(spec_last_checksum_offset(ps, s.len() as int) == s.len() - ps - 8);
    }
}

/// The shadow size invariant: a well-formed shadow file's size is the
/// 32-byte header plus a whole number of frames.
pub proof fn lemma_shadow_size_invariant(s: Seq<u8>, ps: int, d1: u32, d2: u32)
    requires
        1 <= ps,
        spec_valid_shadow_ck(s, ps, d1, d2),
    ensures
        s.len() >= 32,
        (s.len() - 32) % (24 + ps) == 0,
{
    lemma_chain_len(
        s,
        32,
        s.len() as int,
        ps,
        spec_is_big_endian_magic(s),
        spec_be_u32_at(s, 16),
        spec_be_u32_at(s, 20),
        spec_be_u32_at(s, 24),
        spec_be_u32_at(s, 28),
        d1,
        d2,
        false,
    );
}

/// The bytes of a concatenation, pointwise.
proof fn lemma_concat_bytes(a: Seq<u8>, b: Seq<u8>)
    ensures
        (a + b).len() == a.len() + b.len(),
        forall|i: int| 0 <= i < a.len() ==> (a + b)[i] == a[i],
        forall|i: int| a.len() <= i < a.len() + b.len() ==> (a + b)[i] == b[i - a.len()],
{
}

/// A valid header transfers to any sequence that keeps its first 32 bytes.
proof fn lemma_header_transfer(s: Seq<u8>, t: Seq<u8>)
    requires
        spec_header_valid(s),
        t.len() >= 32,
        forall|i: int| 0 <= i < 32 ==> s[i] == #[trigger] t[i],
    ensures
        spec_header_valid(t),
        spec_is_big_endian_magic(t) == spec_is_big_endian_magic(s),
        spec_header_page_size(t) == spec_header_page_size(s),
        spec_be_u32_at(t, 16) == spec_be_u32_at(s, 16),
        spec_be_u32_at(t, 20) == spec_be_u32_at(s, 20),
        spec_be_u32_at(t, 24) == spec_be_u32_at(s, 24),
        spec_be_u32_at(t, 28) == spec_be_u32_at(s, 28),
{
    assert(t.subrange(0, 24) =~= s.subrange(0, 24));
}

/// Glue the shadow's own chain and the appended frames' chain into one
/// chain over the extended file.
#[verifier::spinoff_prover]
proof fn lemma_chain_glue(
    shadow: Seq<u8>,
    wal: Seq<u8>,
    s2: Seq<u8>,
    ps: int,
    big: bool,
    salt1: u32,
    salt2: u32,
    h1: u32,
    h2: u32,
    d1: u32,
    d2: u32,
    lc1: u32,
    lc2: u32,
    len: int,
    last: int,
)
    requires
        spec_frames_chain(shadow, 32, len, ps, big, salt1, salt2, h1, h2, d1, d2, false),
        spec_frames_chain(wal, len, last, ps, big, salt1, salt2, d1, d2, lc1, lc2, false),
        s2.len() == last,
        32 <= len <= last,
        forall|i: int| 0 <= i < len ==> shadow[i] == #[trigger] s2[i],
        forall|i: int| len <= i < last ==> wal[i] == #[trigger] s2[i],
    ensures
        spec_frames_chain(s2, 32, last, ps, big, salt1, salt2, h1, h2, lc1, lc2, false),
{
    lemma_chain_transport(shadow, s2, 32, len, ps, big, salt1, salt2, h1, h2, d1, d2, false);
    lemma_chain_transport(wal, s2, len, last, ps, big, salt1, salt2, d1, d2, lc1, lc2, false);
    lemma_chain_concat(s2, 32, len, last, ps, big, salt1, salt2, h1, h2, d1, d2, lc1, lc2, false);
}

/// A size of the header plus whole frames aligns to itself.
pub proof fn lemma_aligned_self(ps: int, x: int)
    requires
        1 <= ps,
        x >= 32,
        (x - 32) % (24 + ps) == 0,
    ensures
        spec_align_frame(ps, x) == x,
{
    vstd::arithmetic::div_mod::lemma_fundamental_div_mod(x - 32, 24 + ps);
}

/// Appending what the scan accepts preserves the shadow file invariant:
/// the extended file is again a well-formed shadow whose checksum tail is
/// the rolling checksum at the append's end. In particular its rolling
/// checksum, walked from the header, still reproduces the last frame's
/// stored checksum words.
#[verifier::rlimit(100)]
pub proof fn lemma_append_preserves_valid_shadow(
    shadow: Seq<u8>,
    wal: Seq<u8>,
    ps: int,
    d1: u32,
    d2: u32,
)
    requires
        1024 <= ps <= 65536,
        spec_valid_shadow_ck(shadow, ps, d1, d2),
        shadow.len() <= wal.len(),
    ensures
        ({
            let sc = spec_shadow_scan(shadow, wal, ps);
            let s2 = shadow + wal.subrange(shadow.len() as int, sc.last);
            spec_valid_shadow_ck(s2, ps, sc.lc1, sc.lc2)
        }),
{
    let len = shadow.len() as int;
    let big = spec_is_big_endian_magic(shadow);
    let salt1 = spec_be_u32_at(shadow, 16);
    let salt2 = spec_be_u32_at(shadow, 20);
    let h1 = spec_be_u32_at(shadow, 24);
    let h2 = spec_be_u32_at(shadow, 28);
    lemma_shadow_seed(shadow, ps, d1, d2);
    let start = spec_align_frame(ps, len);
    assert(start == len);
    let st0 = ScanState { off: len, c1: d1, c2: d2, last: len, lc1: d1, lc2: d2 };
    assert(spec_shadow_scan(shadow, wal, ps) == spec_scan(wal, ps, big, salt1, salt2, st0));
    let sc = spec_scan(wal, ps, big, salt1, salt2, st0);
    assert(spec_frames_chain(wal, len, len, ps, big, salt1, salt2, d1, d2, d1, d2, true));
    lemma_scan_props(wal, ps, big, salt1, salt2, st0);
    lemma_chain_len(wal, len, sc.last, ps, big, salt1, salt2, d1, d2, sc.lc1, sc.lc2, false);
    assert(len <= sc.last <= wal.len());
    let tail = wal.subrange(len, sc.last);
    let s2 = shadow + tail;
    lemma_concat_bytes(shadow, tail);
    assert(s2.len() == sc.last);
    assert(forall|i: int| 0 <= i < len ==> s2[i] == #[trigger] shadow[i]);
    assert(forall|i: int| len <= i < sc.last ==> s2[i] == #[trigger] wal[i]);
    lemma_header_transfer(shadow, s2);
    lemma_chain_glue(
        shadow,
        wal,
        s2,
        ps,
        big,
        salt1,
        salt2,
        h1,
        h2,
        d1,
        d2,
        sc.lc1,
        sc.lc2,
        len,
        sc.last,
    );
    // the new size is the header plus whole frames, so it aligns to itself
    lemma_chain_len(s2, 32, sc.last, ps, big, salt1, salt2, h1, h2, sc.lc1, sc.lc2, false);
    lemma_aligned_self(ps, sc.last);
    assert(spec_align_frame(ps, s2.len() as int) == s2.len());
}

/// Sync is idempotent: after one append the shadow reflects the live WAL,
/// and a second append with no WAL writes in between appends nothing.
#[verifier::rlimit(100)]
pub proof fn lemma_sync_idempotent(shadow: Seq<u8>, wal: Seq<u8>, ps: int, d1: u32, d2: u32)
    requires
        1024 <= ps <= 65536,
        spec_valid_shadow_ck(shadow, ps, d1, d2),
        shadow.len() <= wal.len(),
    ensures
        ({
            let e = spec_shadow_append_end(shadow, wal, ps);
            let s2 = shadow + wal.subrange(shadow.len() as int, e);
            spec_shadow_append_end(s2, wal, ps) == e
        }),
{
    let len = shadow.len() as int;
    let big = spec_is_big_endian_magic(shadow);
    let salt1 = spec_be_u32_at(shadow, 16);
    let salt2 = spec_be_u32_at(shadow, 20);
    lemma_shadow_seed(shadow, ps, d1, d2);
    let st0 = ScanState { off: len, c1: d1, c2: d2, last: len, lc1: d1, lc2: d2 };
    assert(spec_shadow_scan(shadow, wal, ps) == spec_scan(wal, ps, big, salt1, salt2, st0));
    let sc = spec_scan(wal, ps, big, salt1, salt2, st0);
    let e = sc.last;
    assert(spec_frames_chain(wal, len, len, ps, big, salt1, salt2, d1, d2, d1, d2, true));
    lemma_scan_props(wal, ps, big, salt1, salt2, st0);
    lemma_append_preserves_valid_shadow(shadow, wal, ps, d1, d2);
    lemma_chain_len(wal, len, e, ps, big, salt1, salt2, d1, d2, sc.lc1, sc.lc2, false);
    let tail = wal.subrange(len, e);
    let s2 = shadow + tail;
    lemma_concat_bytes(shadow, tail);
    lemma_shadow_seed(s2, ps, sc.lc1, sc.lc2);
    // the second scan starts at the end of the first append, seeded with
    // the checksum pair the first scan ended on
    lemma_header_transfer(shadow, s2);
    let st2 = ScanState { off: e, c1: sc.lc1, c2: sc.lc2, last: e, lc1: sc.lc1, lc2: sc.lc2 };
    assert(spec_shadow_scan(s2, wal, ps) == spec_scan(wal, ps, big, salt1, salt2, st2));
    // walking the accepted-but-uncommitted frames does not move the commit
    // point, and the frame the first scan stopped at still does not match
    lemma_scan_walk(
        wal,
        ps,
        big,
        salt1,
        salt2,
        e,
        sc.off,
        sc.lc1,
        sc.lc2,
        sc.c1,
        sc.c2,
        e,
        sc.lc1,
        sc.lc2,
    );
    assert(spec_scan(
        wal,
        ps,
        big,
        salt1,
        salt2,
        ScanState { off: sc.off, c1: sc.c1, c2: sc.c2, last: e, lc1: sc.lc1, lc2: sc.lc2 },
    ) == sc);
    assert(spec_shadow_append_end(s2, wal, ps) == e);
}

} // verus!
