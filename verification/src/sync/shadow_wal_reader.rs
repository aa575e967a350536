use vstd::prelude::*;

use crate::database::position::WalGenerationPos;
use crate::error::Error;
use crate::sqlite::common::spec_align_frame;
use crate::sqlite::common::align_frame;

verus! {

/// A cursor over one shadow WAL file: the position being read and how
/// many bytes remain before the file's frame-aligned end. `size` is that
/// aligned end, so `position.offset + left == size` always holds.
#[derive(Debug)]
pub struct ShadowWalReader {
    pub position: WalGenerationPos,
    pub left: u64,
    pub size: u64,
}

impl ShadowWalReader {
    /// The cursor never passes the aligned end of the file.
    pub open spec fn wf(&self) -> bool {
        self.position.offset + self.left == self.size
    }

    /// Open a reader over a shadow file of `file_size` bytes, at `pos`.
    /// The offset may not lie past the file's aligned end.
    pub fn new(pos: WalGenerationPos, file_size: u64, page_size: u64) -> (r: Result<
        ShadowWalReader,
        Error,
    >)
        requires
            1 <= page_size <= u32::MAX,
        ensures
            (r is Ok) == (pos.offset <= spec_align_frame(page_size as int, file_size as int)),
            r matches Ok(rd) ==> ({
                &&& rd.wf()
                &&& rd.size == spec_align_frame(page_size as int, file_size as int)
                &&& rd.position.generation@ == pos.generation@
                &&& rd.position.index == pos.index
                &&& rd.position.offset == pos.offset
                &&& rd.left == rd.size - pos.offset
            }),
            r matches Err(e) ==> e is WalReaderOffsetTooHigh,
    {
        let size = align_frame(page_size, file_size);
        if pos.offset > size {
            return Err(
                Error::WalReaderOffsetTooHigh(
                    String::from_str("wal reader offset is beyond file size"),
                ),
            );
        }
        let left = size - pos.offset;
        Ok(ShadowWalReader { position: pos, left, size })
    }

    /// Open a reader at `pos`, rolling to the start of the next index when
    /// the file at `pos.index` has nothing left after `pos.offset`.
    ///
    /// `cur_size` is the size of the shadow file at `pos.index` (`None`
    /// when it does not exist), `next_size` the size of the one at
    /// `pos.index + 1`. With no data at either place the stream is
    /// exhausted: `UnexpectedEof`.
    pub fn try_create(
        pos: WalGenerationPos,
        cur_size: Option<u64>,
        next_size: Option<u64>,
        page_size: u64,
    ) -> (r: Result<ShadowWalReader, Error>)
        requires
            1 <= page_size <= u32::MAX,
            pos.index < u64::MAX,
        ensures
            cur_size is None ==> (r matches Err(e) && e is StorageNotFound),
            cur_size matches Some(cs) ==> ({
                let size = spec_align_frame(page_size as int, cs as int);
                &&& (pos.offset > size ==> (r matches Err(e) && e is WalReaderOffsetTooHigh))
                &&& (pos.offset < size ==> (r matches Ok(rd) && rd.wf() && rd.size == size
                    && rd.position.index == pos.index && rd.position.offset == pos.offset
                    && rd.position.generation@ == pos.generation@ && rd.left > 0))
                &&& (pos.offset == size ==> match next_size {
                    None => (r matches Err(e) && e is UnexpectedEof),
                    Some(ns) => (r matches Ok(rd) && rd.wf() && rd.size == spec_align_frame(
                        page_size as int,
                        ns as int,
                    ) && rd.position.index == pos.index + 1 && rd.position.offset == 0
                        && rd.position.generation@ == pos.generation@),
                })
            }),
    {
        let cur = match cur_size {
            None => {
                return Err(Error::StorageNotFound(String::from_str("no wal shadow file")));
            },
            Some(c) => c,
        };
        let generation = pos.generation.clone();
        let index = pos.index;
        let reader = match ShadowWalReader::new(pos, cur, page_size) {
            Ok(rd) => rd,
            Err(e) => {
                return Err(e);
            },
        };
        if reader.left > 0 {
            return Ok(reader);
        }
        match next_size {
            None => Err(Error::UnexpectedEof(String::from_str("no wal shadow file"))),
            Some(ns) => {
                let next_pos = WalGenerationPos { generation, index: index + 1, offset: 0 };
                match ShadowWalReader::new(next_pos, ns, page_size) {
                    Ok(rd) => Ok(rd),
                    Err(e) => Err(e),
                }
            },
        }
    }

    /// Consume `n` bytes: the offset advances and `left` shrinks in
    /// lockstep, so the cursor stays within the file.
    pub fn advance(&mut self, n: u64)
        requires
            n <= old(self).left,
            old(self).wf(),
        ensures
            final(self).wf(),
            final(self).position.offset == old(self).position.offset + n,
            final(self).left == old(self).left - n,
            final(self).size == old(self).size,
            final(self).position.index == old(self).position.index,
            final(self).position.generation@ == old(self).position.generation@,
    {
        self.left = self.left - n;
        self.position.offset = self.position.offset + n;
    }

    /// The current position.
    pub fn position(&self) -> (r: WalGenerationPos)
        ensures
            r.generation@ == self.position.generation@,
            r.index == self.position.index,
            r.offset == self.position.offset,
    {
        self.position.clone()
    }
}

} // verus!
