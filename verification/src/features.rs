//! Gateway features.

pub mod auth;
