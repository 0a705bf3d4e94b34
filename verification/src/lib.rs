//! A one-shot build probe: it provisions an isolated, resource-bounded
//! sandbox for one untrusted archive, builds the archive's contents inside
//! it, discovers the executables the build produced, optionally exports the
//! workspace, and tears the sandbox down on every exit path.
//!
//! This crate holds the verified core: the sentinel-based remote-command
//! protocol, the executable-list normalization, the container plan and the
//! stage commands, and the pipeline state machine. The asynchronous container
//! runtime calls themselves live in the surrounding binary, which drives the
//! state machine and feeds each step's result back in.

pub mod channel;
pub mod config;
pub mod enumerate;
pub mod errors;
pub mod pipeline;
pub mod plan;
