use vstd::prelude::*;

use crate::error::Error;

verus! {

/// Size in bytes of a WAL frame header.
pub const WAL_FRAME_HEADER_SIZE: u64 = 24;

/// Size in bytes of a WAL file header.
pub const WAL_HEADER_SIZE: u64 = 32;

// ---------------------------------------------------------------------------
// Reading 32-bit words out of byte sequences
// ---------------------------------------------------------------------------
/// The big-endian 32-bit value of four bytes.
pub open spec fn spec_be_u32(b0: u8, b1: u8, b2: u8, b3: u8) -> u32 {
    (b0 * 0x1000000 + b1 * 0x10000 + b2 * 0x100 + b3) as u32
}

/// The big-endian 32-bit word of `data` at byte offset `i`.
pub open spec fn spec_be_u32_at(data: Seq<u8>, i: int) -> u32 {
    spec_be_u32(data[i], data[i + 1], data[i + 2], data[i + 3])
}

/// The little-endian 32-bit word of `data` at byte offset `i`.
pub open spec fn spec_le_u32_at(data: Seq<u8>, i: int) -> u32 {
    spec_be_u32(data[i + 3], data[i + 2], data[i + 1], data[i])
}

/// The 32-bit word of `data` at byte offset `i`, under either endianness.
pub open spec fn spec_u32_at(data: Seq<u8>, i: int, is_big_endian: bool) -> u32 {
    if is_big_endian {
        spec_be_u32_at(data, i)
    } else {
        spec_le_u32_at(data, i)
    }
}

/// Read the big-endian 32-bit word of `data` at byte offset `offset`.
pub fn from_be_bytes_at(data: &[u8], offset: usize) -> (r: Result<u32, Error>)
    requires
        offset + 4 <= data@.len(),
        offset + 4 <= usize::MAX,
    ensures
        r matches Ok(v) && v == spec_be_u32_at(data@, offset as int),
{
    let b0 = data[offset] as u32;
    let b1 = data[offset + 1] as u32;
    let b2 = data[offset + 2] as u32;
    let b3 = data[offset + 3] as u32;
    Ok(b0 * 0x1000000 + b1 * 0x10000 + b2 * 0x100 + b3)
}

/// Read the 32-bit word of `data` at `offset` under the given endianness.
pub fn u32_at(data: &[u8], offset: usize, is_big_endian: bool) -> (v: u32)
    requires
        offset + 4 <= data@.len(),
        offset + 4 <= usize::MAX,
    ensures
        v == spec_u32_at(data@, offset as int, is_big_endian),
{
    let b0 = data[offset] as u32;
    let b1 = data[offset + 1] as u32;
    let b2 = data[offset + 2] as u32;
    let b3 = data[offset + 3] as u32;
    if is_big_endian {
        b0 * 0x1000000 + b1 * 0x10000 + b2 * 0x100 + b3
    } else {
        b3 * 0x1000000 + b2 * 0x10000 + b1 * 0x100 + b0
    }
}

// ---------------------------------------------------------------------------
// The rolling checksum
// ---------------------------------------------------------------------------
/// One step of SQLite's rolling checksum: fold the pair of 32-bit words
/// `(n1, n2)` into the running pair `(s1, s2)` with wrapping additions.
pub open spec fn spec_checksum_step(s1: u32, s2: u32, n1: u32, n2: u32) -> (u32, u32) {
    let t1 = vstd::wrapping::u32_specs::wrapping_add(
        vstd::wrapping::u32_specs::wrapping_add(s1, n1),
        s2,
    );
    let t2 = vstd::wrapping::u32_specs::wrapping_add(
        vstd::wrapping::u32_specs::wrapping_add(s2, n2),
        t1,
    );
    (t1, t2)
}

/// SQLite's rolling checksum over `data`, folded 8 bytes at a time into the
/// running pair `(s1, s2)`. Trailing bytes short of a full 8-byte block are
/// ignored; callers hand in 8-byte-aligned input.
pub open spec fn spec_checksum(data: Seq<u8>, s1: u32, s2: u32, is_big_endian: bool) -> (u32, u32)
    decreases data.len(),
{
    if data.len() < 8 {
        (s1, s2)
    } else {
        let n1 = spec_u32_at(data, 0, is_big_endian);
        let n2 = spec_u32_at(data, 4, is_big_endian);
        let st = spec_checksum_step(s1, s2, n1, n2);
        spec_checksum(data.skip(8), st.0, st.1, is_big_endian)
    }
}

/// SQLite's rolling checksum over `data`, starting from `(s1, s2)`, with the
/// word endianness chosen by the WAL header magic.
pub fn checksum(data: &[u8], s1: u32, s2: u32, is_big_endian: bool) -> (r: (u32, u32))
    requires
        data@.len() % 8 == 0,
    ensures
        r == spec_checksum(data@, s1, s2, is_big_endian),
{
    let ghost full = data@;
    let ghost os1 = s1;
    let ghost os2 = s2;
    let mut i: usize = 0;
    let mut s1: u32 = s1;
    let mut s2: u32 = s2;
    proof {
        assert(full.skip(0) =~= full);
    }
    while i < data.len()
        invariant
            i <= data@.len(),
            data@ == full,
            i % 8 == 0,
            full.len() % 8 == 0,
            spec_checksum(full, os1, os2, is_big_endian) == spec_checksum(
                full.skip(i as int),
                s1,
                s2,
                is_big_endian,
            ),
        decreases data@.len() - i,
    {
        let n1 = u32_at(data, i, is_big_endian);
        let n2 = u32_at(data, i + 4, is_big_endian);
        proof {
            assert(full.skip(i as int).len() >= 8);
            assert(spec_u32_at(full.skip(i as int), 0, is_big_endian) == n1) by {
                assert(full.skip(i as int)[0] == full[i as int]);
                assert(full.skip(i as int)[1] == full[i as int + 1]);
                assert(full.skip(i as int)[2] == full[i as int + 2]);
                assert(full.skip(i as int)[3] == full[i as int + 3]);
            }
            assert(spec_u32_at(full.skip(i as int), 4, is_big_endian) == n2) by {
                assert(full.skip(i as int)[4] == full[i as int + 4]);
                assert(full.skip(i as int)[5] == full[i as int + 5]);
                assert(full.skip(i as int)[6] == full[i as int + 6]);
                assert(full.skip(i as int)[7] == full[i as int + 7]);
            }
            assert(full.skip(i as int).skip(8) =~= full.skip(i as int + 8));
        }
        let t1 = s1.wrapping_add(n1).wrapping_add(s2);
        let t2 = s2.wrapping_add(n2).wrapping_add(t1);
        s1 = t1;
        s2 = t2;
        i = i + 8;
    }
    proof {
        assert(full.skip(full.len() as int) =~= Seq::<u8>::empty());
    }
    (s1, s2)
}

// ---------------------------------------------------------------------------
// Frame alignment
// ---------------------------------------------------------------------------
/// The largest frame-aligned offset at or below `offset`: the header size
/// plus a whole number of frames. Zero when `offset` lies inside the header.
pub open spec fn spec_align_frame(page_size: int, offset: int) -> int {
    if offset < 32 {
        0
    } else {
        32 + ((offset - 32) / (24 + page_size)) * (24 + page_size)
    }
}

/// Round `offset` down to a frame boundary (the WAL header plus a whole
/// number of frames); zero when `offset` is smaller than the header.
pub fn align_frame(page_size: u64, offset: u64) -> (r: u64)
    requires
        1 <= page_size <= u32::MAX,
    ensures
        r == spec_align_frame(page_size as int, offset as int),
        r <= offset,
        offset >= 32 ==> 32 <= r,
        r >= 32 ==> (r - 32) % (24 + page_size as int) == 0,
{
    if offset < 32 {
        return 0;
    }
    let frame_size = WAL_FRAME_HEADER_SIZE + page_size;
    let frame_num = (offset - 32) / frame_size;
    proof {
        let d = frame_size as int;
        let x = offset as int - 32;
        assert(x / d * d <= x && x / d * d >= 0 && (x / d * d) % d == 0) by (nonlinear_arith)
            requires
                d >= 1,
                x >= 0,
        ;
    }
    frame_num * frame_size + 32
}

/// The byte offset inside a WAL file where the checksum pair that seeds the
/// next frame lives: inside the last full frame's header when the file has
/// frames, inside the WAL header otherwise.
pub open spec fn spec_last_checksum_offset(page_size: int, fsize: int) -> int {
    if fsize > 32 {
        spec_align_frame(page_size, fsize) - page_size - 8
    } else {
        24
    }
}

/// Read the last checksum pair recorded in a WAL or shadow WAL file given as
/// bytes: the two checksum words of the last full frame, or of the header
/// when no frame is complete. Fails with `UnexpectedEof` when the file is
/// too short to hold them.
pub fn read_last_checksum(data: &Vec<u8>, page_size: u64) -> (r: Result<(u32, u32), Error>)
    requires
        1 <= page_size <= u32::MAX,
    ensures
        (r is Ok) == ({
            let off = spec_last_checksum_offset(page_size as int, data@.len() as int);
            0 <= off && off + 8 <= data@.len()
        }),
        r matches Ok(v) ==> ({
            let off = spec_last_checksum_offset(page_size as int, data@.len() as int);
            v.0 == spec_be_u32_at(data@, off) && v.1 == spec_be_u32_at(data@, off + 4)
        }),
        r matches Err(e) ==> e is UnexpectedEof,
{
    let fsize = data.len();
    if fsize > 32 {
        let sz = align_frame(page_size, fsize as u64);
        if sz < page_size + 8 {
            return Err(
                Error::UnexpectedEof(
                    String::from_str("UnexpectedEOFError when read last checksum"),
                ),
            );
        }
        let off = (sz - page_size - 8) as usize;
        let c1 = match from_be_bytes_at(data.as_slice(), off) {
            Ok(v) => v,
            Err(e) => {
                return Err(Error::UnexpectedEof(String::from_str("short read")));
            },
        };
        let c2 = match from_be_bytes_at(data.as_slice(), off + 4) {
            Ok(v) => v,
            Err(e) => {
                return Err(Error::UnexpectedEof(String::from_str("short read")));
            },
        };
        Ok((c1, c2))
    } else {
        if fsize < 32 {
            return Err(
                Error::UnexpectedEof(
                    String::from_str("UnexpectedEOFError when read last checksum"),
                ),
            );
        }
        let c1 = match from_be_bytes_at(data.as_slice(), 24) {
            Ok(v) => v,
            Err(e) => {
                return Err(Error::UnexpectedEof(String::from_str("short read")));
            },
        };
        let c2 = match from_be_bytes_at(data.as_slice(), 28) {
            Ok(v) => v,
            Err(e) => {
                return Err(Error::UnexpectedEof(String::from_str("short read")));
            },
        };
        Ok((c1, c2))
    }
}

// ---------------------------------------------------------------------------
// Checkpoint modes
// ---------------------------------------------------------------------------
/// The SQLite checkpoint modes the replicator drives.
#[derive(Clone, Debug)]
pub enum CheckpointMode {
    Passive,
    Full,
    Restart,
    Truncate,
}

impl CheckpointMode {
    /// The PRAGMA argument naming this mode.
    pub fn as_str(&self) -> (r: &'static str)
        ensures
            self is Passive ==> r@ == "PASSIVE"@,
            self is Full ==> r@ == "FULL"@,
            self is Restart ==> r@ == "RESTART"@,
            self is Truncate ==> r@ == "TRUNCATE"@,
    {
        match self {
            CheckpointMode::Passive => "PASSIVE",
            CheckpointMode::Full => "FULL",
            CheckpointMode::Restart => "RESTART",
            CheckpointMode::Truncate => "TRUNCATE",
        }
    }
}

} // verus!
