//! A host-level service supervisor: a registry of named process definitions,
//! the state machine of each supervised process with its restart policy and
//! exponential backoff, and the request dispatch of its line protocol.
//!
//! The library is generic over the handle of an operating-system process: the
//! decisions are made here, and the caller does the process and socket I/O
//! that they call for.

pub mod cli_config;
pub mod daemon_config;
pub mod manifest;
pub mod process;
pub mod registry;
pub mod rpc;
pub mod service;
pub mod text;
