//! Metrics and log redaction.

pub mod metrics;
pub mod redact_layer;
