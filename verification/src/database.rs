//! Database-side logic: positions, the verifier, the checkpoint policy and
//! the maintenance planners that the orchestrator runs every tick.

pub mod position;
pub mod checkpoint;
pub mod maintain;
pub mod verify;
