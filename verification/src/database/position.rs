use vstd::prelude::*;

use crate::base::generation::Generation;

verus! {

/// A frame-aligned point in the replication stream of one database:
/// a generation, a shadow WAL index within it, and a byte offset within
/// that shadow file.
#[derive(Debug)]
pub struct WalGenerationPos {
    pub generation: Generation,
    pub index: u64,
    pub offset: u64,
}

impl WalGenerationPos {
    /// The empty position: no generation, index zero, offset zero.
    pub open spec fn spec_is_empty(&self) -> bool {
        self.generation.spec_is_empty() && self.index == 0 && self.offset == 0
    }

    /// Whether this is the empty position.
    pub fn is_empty(&self) -> (r: bool)
        ensures
            r == self.spec_is_empty(),
    {
        self.generation.is_empty() && self.index == 0 && self.offset == 0
    }
}

impl Default for WalGenerationPos {
    /// The empty position.
    fn default() -> (r: Self)
        ensures
            r.spec_is_empty(),
            r.generation@.len() == 0,
            r.index == 0,
            r.offset == 0,
    {
        WalGenerationPos { generation: Generation::default(), index: 0, offset: 0 }
    }
}

impl Clone for WalGenerationPos {
    /// An exact copy.
    fn clone(&self) -> (r: Self)
        ensures
            r.generation@ == self.generation@,
            r.index == self.index,
            r.offset == self.offset,
    {
        WalGenerationPos {
            generation: self.generation.clone(),
            index: self.index,
            offset: self.offset,
        }
    }
}

/// What replica workers need to know about their database: where its meta
/// directory lives and the page size of its WAL.
#[derive(Debug)]
pub struct DatabaseInfo {
    pub meta_dir: String,
    pub page_size: u64,
}

impl Clone for DatabaseInfo {
    /// An exact copy.
    fn clone(&self) -> (r: Self)
        ensures
            r.meta_dir@ == self.meta_dir@,
            r.page_size == self.page_size,
    {
        DatabaseInfo { meta_dir: self.meta_dir.clone(), page_size: self.page_size }
    }
}

/// A command a replica worker sends to its database: the worker at the
/// given position in the replica list asks for a snapshot.
#[derive(Clone, Debug)]
pub enum DbCommand {
    Snapshot(usize),
}

} // verus!
