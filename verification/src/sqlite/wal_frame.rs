use vstd::prelude::*;

use crate::error::Error;
use crate::sqlite::common::spec_be_u32_at;
use crate::sqlite::common::from_be_bytes_at;

verus! {

/// One WAL frame: a 24-byte frame header followed by one page of data.
///
/// `data` holds the whole frame as read; the other fields are the decoded
/// frame-header words. Parsing performs no checksum validation — callers
/// validate frames in context.
#[derive(Clone, Debug)]
pub struct WALFrame {
    pub data: Vec<u8>,
    pub page_num: u32,
    pub db_size: u32,
    pub salt1: u32,
    pub salt2: u32,
    pub checksum1: u32,
    pub checksum2: u32,
}

impl WALFrame {
    /// The decoded fields agree with the stored frame bytes.
    pub open spec fn wf(&self, page_size: int) -> bool {
        &&& self.data@.len() == 24 + page_size
        &&& self.page_num == spec_be_u32_at(self.data@, 0)
        &&& self.db_size == spec_be_u32_at(self.data@, 4)
        &&& self.salt1 == spec_be_u32_at(self.data@, 8)
        &&& self.salt2 == spec_be_u32_at(self.data@, 12)
        &&& self.checksum1 == spec_be_u32_at(self.data@, 16)
        &&& self.checksum2 == spec_be_u32_at(self.data@, 20)
    }

    /// Read the frame of `page_size`-byte pages that starts at byte
    /// `offset` of `data`. Succeeds exactly when a whole frame fits;
    /// otherwise fails with `UnexpectedEof`.
    pub fn read(data: &Vec<u8>, offset: usize, page_size: u64) -> (r: Result<WALFrame, Error>)
        requires
            1024 <= page_size <= 65536,
        ensures
            (r is Ok) == (offset + 24 + page_size <= data@.len()),
            r matches Ok(f) ==> f.wf(page_size as int) && f.data@ == data@.subrange(
                offset as int,
                offset as int + 24 + page_size as int,
            ),
            r matches Err(e) ==> e is UnexpectedEof,
    {
        let frame_size: usize = 24 + page_size as usize;
        if data.len() < frame_size || offset > data.len() - frame_size {
            return Err(Error::UnexpectedEof(String::from_str("short wal frame")));
        }
        let bytes = vstd::slice::slice_to_vec(
            vstd::slice::slice_subrange(data.as_slice(), offset, offset + frame_size),
        );
        let page_num = match from_be_bytes_at(bytes.as_slice(), 0) {
            Ok(v) => v,
            Err(e) => {
                return Err(Error::UnexpectedEof(String::from_str("short wal frame")));
            },
        };
        let db_size = match from_be_bytes_at(bytes.as_slice(), 4) {
            Ok(v) => v,
            Err(e) => {
                return Err(Error::UnexpectedEof(String::from_str("short wal frame")));
            },
        };
        let salt1 = match from_be_bytes_at(bytes.as_slice(), 8) {
            Ok(v) => v,
            Err(e) => {
                return Err(Error::UnexpectedEof(String::from_str("short wal frame")));
            },
        };
        let salt2 = match from_be_bytes_at(bytes.as_slice(), 12) {
            Ok(v) => v,
            Err(e) => {
                return Err(Error::UnexpectedEof(String::from_str("short wal frame")));
            },
        };
        let checksum1 = match from_be_bytes_at(bytes.as_slice(), 16) {
            Ok(v) => v,
            Err(e) => {
                return Err(Error::UnexpectedEof(String::from_str("short wal frame")));
            },
        };
        let checksum2 = match from_be_bytes_at(bytes.as_slice(), 20) {
            Ok(v) => v,
            Err(e) => {
                return Err(Error::UnexpectedEof(String::from_str("short wal frame")));
            },
        };
        Ok(WALFrame { data: bytes, page_num, db_size, salt1, salt2, checksum1, checksum2 })
    }
}

} // verus!
