use vstd::prelude::*;

use crate::config::config::StorageConfig;
use crate::error::Error;

verus! {

/// A restore driver: the database to restore and the replicas its remote
/// state may be read from.
pub struct RestoreClient {
    pub db: String,
    pub config: Vec<StorageConfig>,
}

impl RestoreClient {
    /// Assemble a restore client.
    pub fn try_create(db: String, config: Vec<StorageConfig>) -> (r: Result<RestoreClient, Error>)
        ensures
            r matches Ok(c) ==> c.db@ == db@ && c.config@.len() == config@.len(),
            r is Ok,
    {
        Ok(RestoreClient { db, config })
    }
}

} // verus!
