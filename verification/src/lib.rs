//! ParamGuard: tracking, versioning and archival of small configuration
//! files.
//!
//! The heart of the crate is the archive subsystem: a store of archived
//! file snapshots that enforces retention windows before a record may be
//! deleted, computes derived statistics, and projects records into
//! presentation-ready views for the command line and the terminal UI.

pub mod retention;
pub mod text;
pub mod hashing;
pub mod errors;
pub mod record;
pub mod db;
pub mod service;
pub mod display;
pub mod config;
pub mod syntax;
pub mod editor;
pub mod laws;
