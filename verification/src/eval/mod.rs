//! Tasks by which the agent is evaluated.
pub mod eval_laws;
pub mod stats;
pub mod task;
pub mod verify;
