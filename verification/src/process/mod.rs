//! Processes: how they are started through a host, and how programs are found.
//!
//! A host is a copy of the program that starts the real command and hands its output on in
//! frames: the length of the payload in four bytes, the kind in one, and the payload.
pub mod frame;
pub mod host;
pub mod process_laws;
pub mod resolver;
