use vstd::prelude::*;

use crate::config::storage_params::StorageParams;
use crate::error::Error;

verus! {

/// Default minimum WAL size, in pages, before a passive checkpoint.
pub const DEFAULT_MIN_CHECKPOINT_PAGE_NUMBER: u64 = 1000;

/// Default maximum WAL size, in pages, before a forced restart checkpoint.
pub const DEFAULT_MAX_CHECKPOINT_PAGE_NUMBER: u64 = 10000;

/// Default WAL size, in pages, before a truncating checkpoint.
pub const DEFAULT_TRUNCATE_PAGE_NUMBER: u64 = 500000;

/// Default seconds between time-based checkpoints.
pub const DEFAULT_CHECKPOINT_INTERVAL_SECS: u64 = 60;

/// Default minimum threshold of WAL pages before a passive checkpoint.
pub fn default_min_checkpoint_page_number() -> (r: u64)
    ensures
        r == DEFAULT_MIN_CHECKPOINT_PAGE_NUMBER,
{
    DEFAULT_MIN_CHECKPOINT_PAGE_NUMBER
}

/// Default maximum threshold of WAL pages before a forced checkpoint.
pub fn default_max_checkpoint_page_number() -> (r: u64)
    ensures
        r == DEFAULT_MAX_CHECKPOINT_PAGE_NUMBER,
{
    DEFAULT_MAX_CHECKPOINT_PAGE_NUMBER
}

/// Default threshold of WAL pages before a truncating checkpoint.
pub fn default_truncate_page_number() -> (r: u64)
    ensures
        r == DEFAULT_TRUNCATE_PAGE_NUMBER,
{
    DEFAULT_TRUNCATE_PAGE_NUMBER
}

/// Default seconds between automatic checkpoints.
pub fn default_checkpoint_interval_secs() -> (r: u64)
    ensures
        r == DEFAULT_CHECKPOINT_INTERVAL_SECS,
{
    DEFAULT_CHECKPOINT_INTERVAL_SECS
}

/// Logging verbosity.
#[derive(Clone, Debug, PartialEq, Eq, Structural)]
pub enum LogLevel {
    Off,
    Error,
    Warn,
    Info,
    Debug,
    Trace,
}

/// Where and how verbosely to log.
#[derive(Clone, Debug)]
pub struct LogConfig {
    pub level: LogLevel,
    pub dir: String,
}

impl Default for LogConfig {
    /// Info level, logging under `/var/log/replited`.
    fn default() -> (r: Self)
        ensures
            r.level is Info,
            r.dir@ == "/var/log/replited"@,
    {
        LogConfig { level: LogLevel::Info, dir: String::from_str("/var/log/replited") }
    }
}

/// One replica destination: its storage parameters and whether insecure
/// connections are allowed.
#[derive(Debug, Clone)]
pub struct StorageConfig {
    pub allow_insecure: bool,
    pub params: StorageParams,
}

/// Replication settings of one database: its path, its replicas, and the
/// checkpoint policy thresholds.
#[derive(Debug, Clone)]
pub struct ReplicateDbConfig {
    pub db: String,
    pub replicate: Vec<StorageConfig>,
    pub min_checkpoint_page_number: u64,
    pub max_checkpoint_page_number: u64,
    pub truncate_page_number: u64,
    pub checkpoint_interval_secs: u64,
}

impl ReplicateDbConfig {
    /// A database entry must name at least one replica.
    pub fn validate(&self) -> (r: Result<(), Error>)
        ensures
            (r is Ok) == (self.replicate@.len() > 0),
            r matches Err(e) ==> e is InvalidConfig,
    {
        if self.replicate.len() == 0 {
            return Err(
                Error::InvalidConfig(
                    String::from_str("database MUST has at least one replicate config"),
                ),
            );
        }
        Ok(())
    }
}

/// The whole configuration of the `replicate` command.
#[derive(Debug, Clone)]
pub struct ReplicateConfig {
    pub log: LogConfig,
    pub database: Vec<ReplicateDbConfig>,
}

impl ReplicateConfig {
    /// At least one database, each naming at least one replica.
    pub fn validate(&self) -> (r: Result<(), Error>)
        ensures
            (r is Ok) == (self.database@.len() > 0 && forall|i: int|
                0 <= i < self.database@.len() ==> (#[trigger] self.database@[i]).replicate@.len()
                    > 0),
            r matches Err(e) ==> e is InvalidConfig,
    {
        if self.database.len() == 0 {
            return Err(
                Error::InvalidConfig(
                    String::from_str("config MUST has at least one database config"),
                ),
            );
        }
        let mut i: usize = 0;
        while i < self.database.len()
            invariant
                i <= self.database@.len(),
                forall|j: int|
                    0 <= j < i ==> (#[trigger] self.database@[j]).replicate@.len() > 0,
            decreases self.database@.len() - i,
        {
            match self.database[i].validate() {
                Ok(_) => {},
                Err(e) => {
                    return Err(e);
                },
            }
            i = i + 1;
        }
        Ok(())
    }
}

/// Restore settings of one database: its configured path and the replica
/// to restore from.
#[derive(Debug, Clone)]
pub struct RestoreDbConfig {
    pub db: String,
    pub replicate: StorageConfig,
}

impl RestoreDbConfig {
    /// Always valid on its own.
    pub fn validate(&self) -> (r: Result<(), Error>)
        ensures
            r is Ok,
    {
        Ok(())
    }
}

/// The whole configuration of the `restore` command.
#[derive(Debug, Clone)]
pub struct RestoreConfig {
    pub log: LogConfig,
    pub database: RestoreDbConfig,
}

impl RestoreConfig {
    /// Valid when its database entry is.
    pub fn validate(&self) -> (r: Result<(), Error>)
        ensures
            r is Ok,
    {
        self.database.validate()
    }
}

} // verus!
