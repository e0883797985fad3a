//! Stored objects: their types, and the stores, caches and tasks around them.

pub mod cache;
pub mod cleanup;
pub mod memory;
pub mod s3;
pub mod sweep;
pub mod writer;

use bytes::Bytes;
use vstd::prelude::*;
use vstd::string::*;

use crate::text;
use crate::text::finishes_with;

verus! {

/// An object as it was read from storage.
#[derive(Debug)]
pub struct GetObjectOutput {
    pub body: Bytes,
    pub content_length: u64,
    pub content_type: String,
    /// Nanoseconds since the Unix epoch.
    pub last_modified: i128,
    pub etag: String,
}

/// An object as a listing tells of it.
#[derive(Debug)]
pub struct ObjectInfo {
    pub key: String,
    pub size: u64,
    /// Nanoseconds since the Unix epoch.
    pub last_modified: i128,
}

/// What is known of an object without its body.
#[derive(Debug)]
pub struct ObjectMeta {
    pub content_length: u64,
    pub content_type: String,
    /// Nanoseconds since the Unix epoch.
    pub last_modified: i128,
    pub etag: String,
}

/// The content type of a path, by its extension.
pub open spec fn content_type_of(path: Seq<char>) -> Seq<char> {
    if finishes_with(path, ".m4s"@) || finishes_with(path, ".mp4"@) {
        "video/mp4"@
    } else if finishes_with(path, ".m3u8"@) {
        "application/vnd.apple.mpegurl"@
    } else if finishes_with(path, ".json"@) {
        "application/json"@
    } else {
        "application/octet-stream"@
    }
}

/// The content type of a path, by its extension.
pub fn content_type_for_path(path: &str) -> (r: &'static str)
    ensures
        r@ == content_type_of(path@),
{
    if text::ends_with(path, ".m4s") || text::ends_with(path, ".mp4") {
        "video/mp4"
    } else if text::ends_with(path, ".m3u8") {
        "application/vnd.apple.mpegurl"
    } else if text::ends_with(path, ".json") {
        "application/json"
    } else {
        "application/octet-stream"
    }
}

/// The label of a path in storage metrics.
pub open spec fn object_label(path: Seq<char>) -> Seq<char> {
    if finishes_with(path, ".m4s"@) {
        "segment"@
    } else if finishes_with(path, "init.mp4"@) {
        "init_segment"@
    } else if finishes_with(path, "media.m3u8"@) {
        "media_playlist"@
    } else if finishes_with(path, "master.m3u8"@) {
        "master_playlist"@
    } else if finishes_with(path, "metadata.json"@) {
        "metadata"@
    } else {
        "other"@
    }
}

/// The label of a path in storage metrics.
pub fn object_type_label(path: &str) -> (r: &'static str)
    ensures
        r@ == object_label(path@),
{
    if text::ends_with(path, ".m4s") {
        "segment"
    } else if text::ends_with(path, "init.mp4") {
        "init_segment"
    } else if text::ends_with(path, "media.m3u8") {
        "media_playlist"
    } else if text::ends_with(path, "master.m3u8") {
        "master_playlist"
    } else if text::ends_with(path, "metadata.json") {
        "metadata"
    } else {
        "other"
    }
}

} // verus!
