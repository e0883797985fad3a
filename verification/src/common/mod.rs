//! Types, errors, limits and rules that all other modules share.

pub mod auth;
pub mod config;
pub mod error;
pub mod metrics;
pub mod redact;
pub mod security;
pub mod shutdown;
pub mod types;
