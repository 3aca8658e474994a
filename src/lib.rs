//! Disk-space reclamation for a chat client's cached attachments: resolving
//! attachment records against the on-disk layout, per-group statistics,
//! filtering and selection, and the plans behind cleaning and migration.
use vstd::prelude::*;

pub mod app;
pub mod calendar;
pub mod config;
pub mod decryptor;
pub mod event;
pub mod file_checker;
pub mod keys;
pub mod logger;
pub mod migrator;
pub mod models;
pub mod text;
pub mod time_range;

verus! {

} // verus!
