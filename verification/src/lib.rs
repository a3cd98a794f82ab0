//! A front end to the `restic` backup tool: layered configuration, backup
//! and restore jobs as state machines whose steps are carried out by the
//! caller, and the reading of what the tool prints.

pub mod backup;
pub mod config;
pub mod interactive;
pub mod json;
pub mod restore;
pub mod restore_job;
pub mod summary;
pub mod text;
pub mod utils;
