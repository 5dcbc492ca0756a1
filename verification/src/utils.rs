//! Utilities.

pub mod config_path;
