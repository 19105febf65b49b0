//! Core logic of the `tpi` terminal coding agent.
pub mod agent;
pub mod app;
pub mod bytes;
pub mod clock;
pub mod config;
pub mod config_laws;
pub mod context;
pub mod context_laws;
pub mod digest;
pub mod doctor;
pub mod eval;
pub mod ids;
pub mod json;
pub mod maintenance;
pub mod mcp;
pub mod message;
pub mod order;
pub mod outcome;
pub mod path;
pub mod plan;
pub mod process;
pub mod provider;
pub mod record_laws;
pub mod remote;
pub mod replay;
pub mod session;
pub mod text;
pub mod text_laws;
pub mod tool;
pub mod upkeep_laws;
