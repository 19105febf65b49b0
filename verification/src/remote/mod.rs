//! Workspaces on other machines.
pub mod command;
pub mod executor;
pub mod remote_laws;
