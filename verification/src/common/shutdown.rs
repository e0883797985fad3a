//! How long each phase of a shutdown may take.

use vstd::prelude::*;

verus! {

/// Seconds for the whole shutdown.
pub const SHUTDOWN_TIMEOUT_SECS: u64 = 30;

/// Seconds for active ingest streams to finish their segment.
pub const INGEST_DRAIN_TIMEOUT_SECS: u64 = 15;

/// Seconds for transcode jobs to complete.
pub const TRANSCODE_DRAIN_TIMEOUT_SECS: u64 = 10;

/// Seconds to flush segments to storage.
pub const STORAGE_FLUSH_TIMEOUT_SECS: u64 = 5;

/// Seconds for requests in flight.
pub const HTTP_DRAIN_TIMEOUT_SECS: u64 = 5;

} // verus!
