//! Backups of a Nextcloud installation: retention of dated artifacts, the
//! anchor chain of incrementally synced snapshots, and the decisions around
//! the external tools that do the copying.

pub mod backends;
pub mod chain;
pub mod cli;
pub mod date;
pub mod listing;
pub mod masking;
pub mod nextcloud;
pub mod retention;
pub mod snapshot;
pub mod text;
pub mod transfer;
