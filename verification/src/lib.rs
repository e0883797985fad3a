//! A live and on-demand video pipeline: ingest, transcode, package, store, deliver.

pub mod binary64;
pub mod buffer;
pub mod clock;
pub mod common;
pub mod control;
pub mod delivery;
pub mod ingest;
pub mod numbers;
pub mod observability;
pub mod package;
pub mod storage;
pub mod text;
pub mod transcode;
pub mod uuids;
