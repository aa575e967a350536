//! Continuous replication of SQLite databases through their write-ahead log.
//!
//! The library holds the verified core of the replicator: the WAL codec and
//! its rolling checksum, the shadow-WAL append logic, the verifier that
//! decides when a new generation must start, the checkpoint policy, the
//! shadow reader and replica cursor arithmetic, and the restore planner.
//! Reading and writing files, SQLite connections and object stores are left
//! to the surrounding program, which hands this library plain values.

pub mod error;

pub mod base;
pub mod sqlite;
pub mod database;
pub mod storage;
pub mod sync;
pub mod config;
pub mod restore_client;
