//! Tools from outside, through servers that speak the Model Context Protocol.
pub mod config;
pub mod error;
pub mod manager;
pub mod mcp_laws;
