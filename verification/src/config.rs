//! Configuration of the replicator: which databases to replicate, where
//! to, and under what checkpoint policy; and the restore command's options.

pub mod arg;
pub mod config;
pub mod storage_params;
