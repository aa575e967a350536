use vstd::prelude::*;

use crate::error::Error;

verus! {

/// The command-line options of a restore: which configured database to
/// restore, where to write the result, which generation to pick (empty
/// for the newest), and whether an existing output may be overwritten.
#[derive(Debug, Clone)]
pub struct RestoreOptions {
    pub db: String,
    pub output: String,
    pub generation: String,
    pub overwrite: bool,
}

impl RestoreOptions {
    /// A restore must name the database and the output path.
    pub fn validate(&self) -> (r: Result<(), Error>)
        ensures
            (r is Ok) == (self.db@.len() > 0 && self.output@.len() > 0),
            r matches Err(e) ==> e is InvalidArg,
    {
        if self.db.as_str().unicode_len() == 0 {
            return Err(Error::InvalidArg(String::from_str("arg MUST Specify db path in config")));
        }
        if self.output.as_str().unicode_len() == 0 {
            return Err(Error::InvalidArg(String::from_str("arg MUST Specify db output path")));
        }
        Ok(())
    }
}

/// What the command line asks for: run the replicator, or restore one
/// database.
#[derive(Debug, Clone)]
pub enum ArgCommand {
    Replicate,
    Restore(RestoreOptions),
}

/// The parsed command line: the configuration file and the command.
#[derive(Debug, Clone)]
pub struct Arg {
    pub config: String,
    pub cmd: ArgCommand,
}

} // verus!
