//! Session lifecycle management for remote command execution over SSH.
//!
//! The crate models the core of an SSH tool server: a registry of
//! authenticated sessions, the connect/authenticate sequence, the remote
//! command execution exchange, the TCP port-forwarding relay decisions, and
//! the textual command interface, with machine-checked contracts.

pub mod commands;
pub mod connect;
pub mod execute;
pub mod forward;
pub mod outside;
pub mod registry;
pub mod ssh_commands;
pub mod textfmt;
pub mod tools;
