use vstd::prelude::*;

use crate::base::numerical::spec_is_power_of_two;
use crate::base::numerical::is_power_of_two;
use crate::error::Error;
use crate::sqlite::common::spec_be_u32_at;
use crate::sqlite::common::spec_checksum;
use crate::sqlite::common::from_be_bytes_at;
use crate::sqlite::common::checksum;

verus! {

/// Whether the first four bytes of `data` are the big-endian WAL magic
/// `0x377f0683`.
pub open spec fn spec_is_big_endian_magic(data: Seq<u8>) -> bool {
    data[0] == 0x37u8 && data[1] == 0x7fu8 && data[2] == 0x06u8 && data[3] == 0x83u8
}

/// Whether the first four bytes of `data` are the little-endian WAL magic
/// `0x377f0682`.
pub open spec fn spec_is_little_endian_magic(data: Seq<u8>) -> bool {
    data[0] == 0x37u8 && data[1] == 0x7fu8 && data[2] == 0x06u8 && data[3] == 0x82u8
}

/// The page size recorded in a WAL header: the big-endian word at offset 8.
pub open spec fn spec_header_page_size(data: Seq<u8>) -> int {
    spec_be_u32_at(data, 8) as int
}

/// A well-formed WAL header prefix: at least 32 bytes whose magic is known,
/// whose page size is a power of two of at least 1024, and whose checksum
/// words at offsets 24 and 28 are the rolling checksum of bytes 0..24 under
/// the endianness the magic selects.
pub open spec fn spec_header_valid(data: Seq<u8>) -> bool {
    &&& data.len() >= 32
    &&& (spec_is_big_endian_magic(data) || spec_is_little_endian_magic(data))
    &&& spec_is_power_of_two(spec_header_page_size(data))
    &&& spec_header_page_size(data) >= 1024
    &&& ({
        let ck = spec_checksum(data.subrange(0, 24), 0, 0, spec_is_big_endian_magic(data));
        ck.0 == spec_be_u32_at(data, 24) && ck.1 == spec_be_u32_at(data, 28)
    })
}

/// A parsed and validated WAL header.
///
/// `data` holds the 32 header bytes exactly as they appear on disk; the
/// remaining fields are the decoded values that `wf` ties to those bytes.
#[derive(Clone, Debug)]
pub struct WALHeader {
    pub data: Vec<u8>,
    pub salt1: u32,
    pub salt2: u32,
    pub page_size: u64,
    pub is_big_endian: bool,
}

impl WALHeader {
    /// The decoded fields agree with the 32 stored header bytes, and those
    /// bytes pass validation.
    pub open spec fn wf(&self) -> bool {
        &&& self.data@.len() == 32
        &&& spec_header_valid(self.data@)
        &&& self.salt1 == spec_be_u32_at(self.data@, 16)
        &&& self.salt2 == spec_be_u32_at(self.data@, 20)
        &&& self.page_size as int == spec_header_page_size(self.data@)
        &&& self.is_big_endian == spec_is_big_endian_magic(self.data@)
    }

    /// Parse and validate a WAL header from the first 32 bytes of `data`.
    /// Succeeds exactly on input whose 32-byte prefix is a well-formed
    /// header; any failure is `SqliteInvalidWalHeader`.
    pub fn read_from(data: &Vec<u8>) -> (r: Result<WALHeader, Error>)
        ensures
            (r is Ok) == spec_header_valid(data@),
            r matches Ok(h) ==> h.wf() && h.data@ == data@.subrange(0, 32),
            r matches Ok(h) ==> h.salt1 == spec_be_u32_at(data@, 16) && h.salt2 == spec_be_u32_at(
                data@,
                20,
            ) && h.page_size as int == spec_header_page_size(data@) && h.is_big_endian
                == spec_is_big_endian_magic(data@),
            r matches Err(e) ==> e is SqliteInvalidWalHeader,
    {
        if data.len() < 32 {
            return Err(Error::SqliteInvalidWalHeader(String::from_str("Invalid WAL file")));
        }
        let b0 = data[0];
        let b1 = data[1];
        let b2 = data[2];
        let b3 = data[3];
        let is_big_endian: bool = if b0 == 0x37 && b1 == 0x7f && b2 == 0x06 && b3 == 0x83 {
            true
        } else if b0 == 0x37 && b1 == 0x7f && b2 == 0x06 && b3 == 0x82 {
            false
        } else {
            return Err(
                Error::SqliteInvalidWalHeader(String::from_str("Unknown WAL file header magic")),
            );
        };
        let page_size_w = match from_be_bytes_at(data.as_slice(), 8) {
            Ok(v) => v,
            Err(e) => {
                return Err(Error::SqliteInvalidWalHeader(String::from_str("short header")));
            },
        };
        let page_size = page_size_w as u64;
        if !is_power_of_two(page_size) || page_size < 1024 {
            return Err(Error::SqliteInvalidWalHeader(String::from_str("Invalid page size")));
        }
        let header = vstd::slice::slice_subrange(data.as_slice(), 0, 24);
        let (s1, s2) = checksum(header, 0, 0, is_big_endian);
        let checksum1 = match from_be_bytes_at(data.as_slice(), 24) {
            Ok(v) => v,
            Err(e) => {
                return Err(Error::SqliteInvalidWalHeader(String::from_str("short header")));
            },
        };
        let checksum2 = match from_be_bytes_at(data.as_slice(), 28) {
            Ok(v) => v,
            Err(e) => {
                return Err(Error::SqliteInvalidWalHeader(String::from_str("short header")));
            },
        };
        if checksum1 != s1 || checksum2 != s2 {
            return Err(
                Error::SqliteInvalidWalHeader(String::from_str("Invalid wal header checksum")),
            );
        }
        let salt1 = match from_be_bytes_at(data.as_slice(), 16) {
            Ok(v) => v,
            Err(e) => {
                return Err(Error::SqliteInvalidWalHeader(String::from_str("short header")));
            },
        };
        let salt2 = match from_be_bytes_at(data.as_slice(), 20) {
            Ok(v) => v,
            Err(e) => {
                return Err(Error::SqliteInvalidWalHeader(String::from_str("short header")));
            },
        };
        let bytes = vstd::slice::slice_to_vec(vstd::slice::slice_subrange(data.as_slice(), 0, 32));
        let h = WALHeader { data: bytes, salt1, salt2, page_size, is_big_endian };
        proof {
            assert(h.data@.subrange(0, 24) =~= data@.subrange(0, 24));
            assert(spec_header_valid(h.data@));
        }
        Ok(h)
    }
}

impl PartialEq for WALHeader {
    /// Two headers are equal when all their bytes and decoded fields are.
    fn eq(&self, other: &Self) -> (r: bool) {
        if self.salt1 != other.salt1 || self.salt2 != other.salt2 || self.page_size
            != other.page_size || self.is_big_endian != other.is_big_endian {
            return false;
        }
        if self.data.len() != other.data.len() {
            return false;
        }
        let mut i: usize = 0;
        while i < self.data.len()
            invariant
                i <= self.data@.len(),
                self.data@.len() == other.data@.len(),
                forall|j: int| 0 <= j < i ==> self.data@[j] == other.data@[j],
            decreases self.data@.len() - i,
        {
            if self.data[i] != other.data[i] {
                return false;
            }
            i = i + 1;
        }
        proof {
            assert(self.data@ =~= other.data@);
        }
        true
    }
}

impl vstd::std_specs::cmp::PartialEqSpecImpl for WALHeader {
    open spec fn obeys_eq_spec() -> bool {
        true
    }

    open spec fn eq_spec(&self, other: &Self) -> bool {
        self.data@ == other.data@ && self.salt1 == other.salt1 && self.salt2 == other.salt2
            && self.page_size == other.page_size && self.is_big_endian == other.is_big_endian
    }
}

/// Parsing the bytes of a well-formed header yields the header back: any
/// header whose stored bytes equal `h.data` decodes to `h`'s fields, and the
/// rolling checksum of those bytes reproduces the stored checksum words.
pub proof fn lemma_header_roundtrip(h: WALHeader, h2: WALHeader)
    requires
        h.wf(),
        h2.wf(),
        h2.data@ == h.data@,
    ensures
        h2.salt1 == h.salt1,
        h2.salt2 == h.salt2,
        h2.page_size == h.page_size,
        h2.is_big_endian == h.is_big_endian,
        spec_checksum(h.data@.subrange(0, 24), 0, 0, h.is_big_endian) == (
            spec_be_u32_at(h.data@, 24),
            spec_be_u32_at(h.data@, 28),
        ),
{
}

} // verus!
