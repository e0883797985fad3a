//! The errors of each stage, with the text that describes them.

use vstd::prelude::*;
use vstd::string::*;

use crate::common::types::StreamId;
use crate::text;
use crate::text::{decimal, zero_padded};

verus! {

/// The decimals of a fraction, without zeros at the end.
pub open spec fn decimals(n: nat, width: nat) -> Seq<char>
    decreases width,
{
    if width > 1 && n % 10 == 0 {
        decimals(n / 10, (width - 1) as nat)
    } else {
        zero_padded(n, width)
    }
}

/// A number of microseconds written in seconds, with as many decimals as it needs.
pub open spec fn seconds_text(micros: u64) -> Seq<char> {
    let whole = decimal((micros / 1_000_000) as nat);
    let rest = (micros % 1_000_000) as nat;
    if rest == 0 {
        whole
    } else {
        whole + "."@ + decimals(rest, 6)
    }
}

/// Appends a number of microseconds, written in seconds.
pub fn push_seconds(out: &mut String, micros: u64)
    ensures
        final(out)@ == old(out)@ + seconds_text(micros),
{
    text::push_decimal(out, micros / 1_000_000);
    let rest: u64 = micros % 1_000_000;
    if rest != 0 {
        out.append(".");
        let mut n: u64 = rest;
        let mut width: u64 = 6;
        while width > 1 && n % 10 == 0
            invariant
                1 <= width <= 6,
                decimals(rest as nat, 6) == decimals(n as nat, width as nat),
            decreases width,
        {
            n = n / 10;
            width = width - 1;
        }
        text::push_zero_padded(out, n, width as usize);
    }
    assert(out@ =~= old(out)@ + seconds_text(micros));
}

/// Errors of the ingest stage.
#[derive(Debug)]
pub enum IngestError {
    HandshakeTimeout { timeout_secs: u64 },
    InvalidRtmpVersion { version: u8 },
    MalformedAmf { reason: String },
    ConnectionReset { stream_id: StreamId },
    MissingSequenceHeader { timeout_secs: u64 },
    CorruptNalu { reason: String },
    InvalidCodec { expected: String, actual: String },
    UnsupportedCodec { codec: String },
    AuthFailed { reason: String },
    UnsupportedFormat { format: String },
    UploadTooLarge { size_bytes: u64, max_bytes: u64 },
    InvalidResolution { width: u32, height: u32 },
    DurationExceeded { duration_micros: u64, max_micros: u64 },
    CorruptFile { reason: String },
    ValidationFailed { reason: String },
    InsufficientStorage,
    Io { reason: String },
}

/// What an ingest error says.
#[verifier::ext_equal]
pub enum IngestFault {
    HandshakeTimeout { timeout_secs: u64 },
    InvalidRtmpVersion { version: u8 },
    MalformedAmf { reason: Seq<char> },
    ConnectionReset { stream_id: StreamId },
    MissingSequenceHeader { timeout_secs: u64 },
    CorruptNalu { reason: Seq<char> },
    InvalidCodec { expected: Seq<char>, actual: Seq<char> },
    UnsupportedCodec { codec: Seq<char> },
    AuthFailed { reason: Seq<char> },
    UnsupportedFormat { format: Seq<char> },
    UploadTooLarge { size_bytes: u64, max_bytes: u64 },
    InvalidResolution { width: u32, height: u32 },
    DurationExceeded { duration_micros: u64, max_micros: u64 },
    CorruptFile { reason: Seq<char> },
    ValidationFailed { reason: Seq<char> },
    InsufficientStorage,
    Io { reason: Seq<char> },
}

impl View for IngestError {
    type V = IngestFault;

    open spec fn view(&self) -> IngestFault {
        match *self {
            IngestError::HandshakeTimeout { timeout_secs } => IngestFault::HandshakeTimeout {
                timeout_secs,
            },
            IngestError::InvalidRtmpVersion { version } => IngestFault::InvalidRtmpVersion {
                version,
            },
            IngestError::MalformedAmf { reason } => IngestFault::MalformedAmf { reason: reason@ },
            IngestError::ConnectionReset { stream_id } => IngestFault::ConnectionReset {
                stream_id,
            },
            IngestError::MissingSequenceHeader { timeout_secs } =>
                IngestFault::MissingSequenceHeader { timeout_secs },
            IngestError::CorruptNalu { reason } => IngestFault::CorruptNalu { reason: reason@ },
            IngestError::InvalidCodec { expected, actual } => IngestFault::InvalidCodec {
                expected: expected@,
                actual: actual@,
            },
            IngestError::UnsupportedCodec { codec } => IngestFault::UnsupportedCodec {
                codec: codec@,
            },
            IngestError::AuthFailed { reason } => IngestFault::AuthFailed { reason: reason@ },
            IngestError::UnsupportedFormat { format } => IngestFault::UnsupportedFormat {
                format: format@,
            },
            IngestError::UploadTooLarge { size_bytes, max_bytes } => IngestFault::UploadTooLarge {
                size_bytes,
                max_bytes,
            },
            IngestError::InvalidResolution { width, height } => IngestFault::InvalidResolution {
                width,
                height,
            },
            IngestError::DurationExceeded { duration_micros, max_micros } =>
                IngestFault::DurationExceeded { duration_micros, max_micros },
            IngestError::CorruptFile { reason } => IngestFault::CorruptFile { reason: reason@ },
            IngestError::ValidationFailed { reason } => IngestFault::ValidationFailed {
                reason: reason@,
            },
            IngestError::InsufficientStorage => IngestFault::InsufficientStorage,
            IngestError::Io { reason } => IngestFault::Io { reason: reason@ },
        }
    }
}

impl IngestError {
    /// The description of the error.
    pub open spec fn text(self) -> Seq<char> {
        match self {
            IngestError::HandshakeTimeout { timeout_secs } => "RTMP handshake timeout after "@
                + decimal(timeout_secs as nat) + "s"@,
            IngestError::InvalidRtmpVersion { version } =>
                "invalid RTMP version: expected 3, got "@ + decimal(version as nat),
            IngestError::MalformedAmf { reason } => "malformed AMF data: "@ + reason@,
            IngestError::ConnectionReset { stream_id } => "RTMP connection reset for stream "@
                + stream_id.text(),
            IngestError::MissingSequenceHeader { timeout_secs } =>
                "missing AVC sequence header within "@ + decimal(timeout_secs as nat) + "s"@,
            IngestError::CorruptNalu { reason } => "corrupt NALU: "@ + reason@,
            IngestError::InvalidCodec { expected, actual } => "invalid codec detected: expected "@
                + expected@ + ", got "@ + actual@,
            IngestError::UnsupportedCodec { codec } => "unsupported codec: "@ + codec@,
            IngestError::AuthFailed { reason } => "authentication failed: "@ + reason@,
            IngestError::UnsupportedFormat { format } => "unsupported container format: "@
                + format@,
            IngestError::UploadTooLarge { size_bytes, max_bytes } => "upload too large: "@
                + decimal(size_bytes as nat) + " bytes exceeds limit "@ + decimal(
                max_bytes as nat,
            ) + " bytes"@,
            IngestError::InvalidResolution { width, height } => "invalid resolution: "@ + decimal(
                width as nat,
            ) + "x"@ + decimal(height as nat),
            IngestError::DurationExceeded { duration_micros, max_micros } => "duration exceeded: "@
                + seconds_text(duration_micros) + "s exceeds limit "@ + seconds_text(max_micros) + "s"@,
            IngestError::CorruptFile { reason } => "corrupt file: "@ + reason@,
            IngestError::ValidationFailed { reason } => "validation failed: "@ + reason@,
            IngestError::InsufficientStorage => "insufficient disk space for upload"@,
            IngestError::Io { reason } => "ingest I/O error: "@ + reason@,
        }
    }

    /// The description of the error.
    pub fn message(&self) -> (r: String)
        ensures
            r@ == self.text(),
    {
        match self {
            IngestError::HandshakeTimeout { timeout_secs } => {
                let mut s = text::owned("RTMP handshake timeout after ");
                text::push_decimal(&mut s, *timeout_secs);
                s.append("s");
                s
            },
            IngestError::InvalidRtmpVersion { version } => {
                let mut s = text::owned("invalid RTMP version: expected 3, got ");
                text::push_decimal(&mut s, *version as u64);
                s
            },
            IngestError::MalformedAmf { reason } => joined("malformed AMF data: ", reason),
            IngestError::ConnectionReset { stream_id } => {
                let id = stream_id.to_text();
                joined("RTMP connection reset for stream ", &id)
            },
            IngestError::MissingSequenceHeader { timeout_secs } => {
                let mut s = text::owned("missing AVC sequence header within ");
                text::push_decimal(&mut s, *timeout_secs);
                s.append("s");
                s
            },
            IngestError::CorruptNalu { reason } => joined("corrupt NALU: ", reason),
            IngestError::InvalidCodec { expected, actual } => {
                let mut s = joined("invalid codec detected: expected ", expected);
                s.append(", got ");
                s.append(actual);
                s
            },
            IngestError::UnsupportedCodec { codec } => joined("unsupported codec: ", codec),
            IngestError::AuthFailed { reason } => joined("authentication failed: ", reason),
            IngestError::UnsupportedFormat { format } => joined(
                "unsupported container format: ",
                format,
            ),
            IngestError::UploadTooLarge { size_bytes, max_bytes } => {
                let mut s = text::owned("upload too large: ");
                text::push_decimal(&mut s, *size_bytes);
                s.append(" bytes exceeds limit ");
                text::push_decimal(&mut s, *max_bytes);
                s.append(" bytes");
                s
            },
            IngestError::InvalidResolution { width, height } => {
                let mut s = text::owned("invalid resolution: ");
                text::push_decimal(&mut s, *width as u64);
                s.append("x");
                text::push_decimal(&mut s, *height as u64);
                s
            },
            IngestError::DurationExceeded { duration_micros, max_micros } => {
                let mut s = text::owned("duration exceeded: ");
                push_seconds(&mut s, *duration_micros);
                s.append("s exceeds limit ");
                push_seconds(&mut s, *max_micros);
                s.append("s");
                s
            },
            IngestError::CorruptFile { reason } => joined("corrupt file: ", reason),
            IngestError::ValidationFailed { reason } => joined("validation failed: ", reason),
            IngestError::InsufficientStorage => text::owned("insufficient disk space for upload"),
            IngestError::Io { reason } => joined("ingest I/O error: ", reason),
        }
    }
}

/// `a` followed by `b`.
pub fn joined(a: &str, b: &str) -> (r: String)
    ensures
        r@ == a@ + b@,
{
    let mut s = text::owned(a);
    s.append(b);
    s
}

/// Errors of the transcode stage.
#[derive(Debug)]
pub enum TranscodeError {
    FfmpegInit { reason: String },
    Cancelled { stream_id: StreamId },
    ConsecutiveDecodeErrors { stream_id: StreamId, count: u32 },
}

impl TranscodeError {
    /// The description of the error.
    pub open spec fn text(self) -> Seq<char> {
        match self {
            TranscodeError::FfmpegInit { reason } => "FFmpeg initialization failed: "@ + reason@,
            TranscodeError::Cancelled { stream_id } =>
                "transcode pipeline cancelled for stream "@ + stream_id.text(),
            TranscodeError::ConsecutiveDecodeErrors { stream_id, count } =>
                "consecutive decode errors ("@ + decimal(count as nat) + ") for stream "@
                + stream_id.text(),
        }
    }

    /// The description of the error.
    pub fn message(&self) -> (r: String)
        ensures
            r@ == self.text(),
    {
        match self {
            TranscodeError::FfmpegInit { reason } => joined(
                "FFmpeg initialization failed: ",
                reason,
            ),
            TranscodeError::Cancelled { stream_id } => {
                let id = stream_id.to_text();
                joined("transcode pipeline cancelled for stream ", &id)
            },
            TranscodeError::ConsecutiveDecodeErrors { stream_id, count } => {
                let mut s = text::owned("consecutive decode errors (");
                text::push_decimal(&mut s, *count as u64);
                s.append(") for stream ");
                let id = stream_id.to_text();
                s.append(&id);
                s
            },
        }
    }
}

/// Errors of the packaging stage.
#[derive(Debug)]
pub enum PackageError {
    InitSegmentFailed { reason: String },
    MediaSegmentFailed { reason: String },
    InvalidBoxStructure { reason: String },
}

impl PackageError {
    /// The description of the error.
    pub open spec fn text(self) -> Seq<char> {
        match self {
            PackageError::InitSegmentFailed { reason } => "failed to generate init segment: "@
                + reason@,
            PackageError::MediaSegmentFailed { reason } => "failed to generate media segment: "@
                + reason@,
            PackageError::InvalidBoxStructure { reason } => "invalid fMP4 box structure: "@
                + reason@,
        }
    }

    /// The description of the error.
    pub fn message(&self) -> (r: String)
        ensures
            r@ == self.text(),
    {
        match self {
            PackageError::InitSegmentFailed { reason } => joined(
                "failed to generate init segment: ",
                reason,
            ),
            PackageError::MediaSegmentFailed { reason } => joined(
                "failed to generate media segment: ",
                reason,
            ),
            PackageError::InvalidBoxStructure { reason } => joined(
                "invalid fMP4 box structure: ",
                reason,
            ),
        }
    }
}

/// Errors of the storage stage.
#[derive(Debug)]
pub enum StorageError {
    S3PutFailed { path: String, reason: String },
    S3GetFailed { path: String, reason: String },
    S3DeleteFailed { path: String, reason: String },
    RetriesExhausted { path: String },
    Io { reason: String },
}

/// What a storage error says.
#[verifier::ext_equal]
pub enum StorageFault {
    S3PutFailed { path: Seq<char>, reason: Seq<char> },
    S3GetFailed { path: Seq<char>, reason: Seq<char> },
    S3DeleteFailed { path: Seq<char>, reason: Seq<char> },
    RetriesExhausted { path: Seq<char> },
    Io { reason: Seq<char> },
}

impl View for StorageError {
    type V = StorageFault;

    open spec fn view(&self) -> StorageFault {
        match *self {
            StorageError::S3PutFailed { path, reason } => StorageFault::S3PutFailed {
                path: path@,
                reason: reason@,
            },
            StorageError::S3GetFailed { path, reason } => StorageFault::S3GetFailed {
                path: path@,
                reason: reason@,
            },
            StorageError::S3DeleteFailed { path, reason } => StorageFault::S3DeleteFailed {
                path: path@,
                reason: reason@,
            },
            StorageError::RetriesExhausted { path } => StorageFault::RetriesExhausted {
                path: path@,
            },
            StorageError::Io { reason } => StorageFault::Io { reason: reason@ },
        }
    }
}

impl StorageFault {
    /// The description of the error.
    pub open spec fn text(self) -> Seq<char> {
        match self {
            StorageFault::S3PutFailed { path, reason } => "S3 PUT failed for path "@ + path + ": "@
                + reason,
            StorageFault::S3GetFailed { path, reason } => "S3 GET failed for path "@ + path + ": "@
                + reason,
            StorageFault::S3DeleteFailed { path, reason } => "S3 DELETE failed for path "@ + path
                + ": "@ + reason,
            StorageFault::RetriesExhausted { path } => "retries exhausted for path "@ + path,
            StorageFault::Io { reason } => "storage I/O error: "@ + reason,
        }
    }
}

impl StorageError {
    /// The description of the error.
    pub fn message(&self) -> (r: String)
        ensures
            r@ == self@.text(),
    {
        match self {
            StorageError::S3PutFailed { path, reason } => {
                let mut s = joined("S3 PUT failed for path ", path);
                s.append(": ");
                s.append(reason);
                s
            },
            StorageError::S3GetFailed { path, reason } => {
                let mut s = joined("S3 GET failed for path ", path);
                s.append(": ");
                s.append(reason);
                s
            },
            StorageError::S3DeleteFailed { path, reason } => {
                let mut s = joined("S3 DELETE failed for path ", path);
                s.append(": ");
                s.append(reason);
                s
            },
            StorageError::RetriesExhausted { path } => joined("retries exhausted for path ", path),
            StorageError::Io { reason } => joined("storage I/O error: ", reason),
        }
    }
}

/// Errors of stream state changes.
#[derive(Debug)]
pub enum StateError {
    InvalidTransition { stream_id: StreamId, from: String, to: String },
    StreamNotFound { stream_id: StreamId },
}

impl StateError {
    /// The description of the error.
    pub open spec fn text(self) -> Seq<char> {
        match self {
            StateError::InvalidTransition { stream_id, from, to } =>
                "invalid state transition from "@ + from@ + " to "@ + to@ + " for stream "@
                + stream_id.text(),
            StateError::StreamNotFound { stream_id } => "stream not found: "@ + stream_id.text(),
        }
    }

    /// The description of the error.
    pub fn message(&self) -> (r: String)
        ensures
            r@ == self.text(),
    {
        match self {
            StateError::InvalidTransition { stream_id, from, to } => {
                let mut s = joined("invalid state transition from ", from);
                s.append(" to ");
                s.append(to);
                s.append(" for stream ");
                let id = stream_id.to_text();
                s.append(&id);
                s
            },
            StateError::StreamNotFound { stream_id } => {
                let id = stream_id.to_text();
                joined("stream not found: ", &id)
            },
        }
    }
}

} // verus!
