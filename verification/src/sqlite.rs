//! The SQLite WAL codec: header and frame parsing, the rolling checksum,
//! frame alignment, and the shadow-WAL append logic built on them.

pub mod common;
pub mod wal_header;
pub mod wal_frame;
pub mod shadow;

