//! Replica-side logic: the shadow WAL reader, the per-destination sync
//! worker decisions, and the restore planner.

pub mod shadow_wal_reader;
pub mod replicate;
pub mod restore;
