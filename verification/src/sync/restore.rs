use vstd::prelude::*;

use crate::base::generation::spec_lex_gt;
use crate::config::arg::RestoreOptions;
use crate::config::config::StorageConfig;
use crate::error::Error;
use crate::storage::RestoreInfo;
use crate::storage::SnapshotInfo;

verus! {

/// A one-shot restore of a database: its path, the replicas to read from,
/// and the command-line options.
pub struct Restore {
    pub db: String,
    pub config: Vec<StorageConfig>,
    pub options: RestoreOptions,
}

impl Restore {
    /// Assemble a restore job.
    pub fn try_create(db: String, config: Vec<StorageConfig>, options: RestoreOptions) -> (r:
        Result<Restore, Error>)
        ensures
            r matches Ok(rs) ==> rs.db@ == db@ && rs.config@.len() == config@.len(),
            r is Ok,
    {
        Ok(Restore { db, config, options })
    }
}

/// Refuse to write the restored database over an existing file unless the
/// caller explicitly allowed overwriting.
pub fn check_overwrite(output_exists: bool, overwrite: bool) -> (r: Result<(), Error>)
    ensures
        (r is Ok) == (!output_exists || overwrite),
        r matches Err(e) ==> e is OverwriteDb,
{
    if output_exists && !overwrite {
        return Err(Error::OverwriteDb(String::from_str("cannot overwrite exist db")));
    }
    Ok(())
}

/// Whether a replica's restore candidate replaces the best one seen so
/// far: it does when there is none yet, or when its snapshot belongs to a
/// strictly newer generation (generation ids are time-ordered, so the
/// lexicographically larger id is newer).
pub fn replaces_candidate(best: Option<&RestoreInfo>, candidate: &RestoreInfo) -> (r: bool)
    requires
        candidate.snapshot.generation@.len() == 32,
        best matches Some(b) ==> b.snapshot.generation@.len() == 32,
    ensures
        best is None ==> r,
        best matches Some(b) ==> r == spec_lex_gt(
            candidate.snapshot.generation@,
            b.snapshot.generation@,
        ),
{
    match best {
        None => true,
        Some(b) => candidate.snapshot.generation.newer_than(&b.snapshot.generation),
    }
}

} // verus!
