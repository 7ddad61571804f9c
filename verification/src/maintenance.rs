//! Maintenance subcommands.

pub mod release_handles;
