//! Uploads of files for playback on demand: what is accepted, and what is answered.

use vstd::prelude::*;
use vstd::string::*;

use crate::buffer::bytes_copy;
use crate::clock;
use crate::clock::in_calendar;
use crate::common::config::IngestConfig;
use crate::common::error::{IngestError, IngestFault};
use crate::common::types::{
    AudioCodec, Container, DemuxedFrame, FrameModel, FrameRate, IngestMode, Share, StreamId,
    StreamMetadata, Track, VideoCodec,
};
use crate::control::state::{
    counted_in, counted_out, EntryModel, StreamState, StreamStateManager,
};
use crate::delivery::response::{error_json, error_quoting, ErrorModel, ErrorReply};
use crate::ingest::validator::{upload_fault, validate_upload, ProbeResult};
use crate::text;
use crate::text::{decimal, has_part, views};

verus! {

/// Directory of files that are being uploaded.
pub const UPLOAD_DIR: &'static str = "/tmp/streaminfa/uploads";

// ---------------------------------------------------------------------------
// Probing
// ---------------------------------------------------------------------------

/// The container that the first bytes of a file tell.
pub open spec fn container_of(header: Seq<u8>) -> Option<Container> {
    if header.len() >= 12 && header.subrange(4, 8) == seq![0x66u8, 0x74, 0x79, 0x70] {
        Some(Container::Mp4)
    } else if header.len() >= 4 && header.subrange(0, 4) == seq![0x1Au8, 0x45, 0xDF, 0xA3] {
        Some(Container::Mkv)
    } else {
        None
    }
}

/// The container that the first bytes of a file tell: `ftyp` from the fifth byte on is MP4, and
/// the EBML mark at the start is Matroska.
pub fn detect_container(header: &[u8]) -> (r: Option<Container>)
    ensures
        r == container_of(header@),
{
    proof {
        let h = header@;
        if h.len() >= 12 {
            let s = h.subrange(4, 8);
            assert(s == seq![0x66u8, 0x74, 0x79, 0x70] <==> s[0] == 0x66 && s[1] == 0x74 && s[2]
                == 0x79 && s[3] == 0x70) by {
                if s[0] == 0x66 && s[1] == 0x74 && s[2] == 0x79 && s[3] == 0x70 {
                    assert(s =~= seq![0x66u8, 0x74, 0x79, 0x70]);
                }
            }
        }
        if h.len() >= 4 {
            let s = h.subrange(0, 4);
            assert(s == seq![0x1Au8, 0x45, 0xDF, 0xA3] <==> s[0] == 0x1A && s[1] == 0x45 && s[2]
                == 0xDF && s[3] == 0xA3) by {
                if s[0] == 0x1A && s[1] == 0x45 && s[2] == 0xDF && s[3] == 0xA3 {
                    assert(s =~= seq![0x1Au8, 0x45, 0xDF, 0xA3]);
                }
            }
        }
    }
    if header.len() >= 12 && header[4] == 0x66 && header[5] == 0x74 && header[6] == 0x79
        && header[7] == 0x70 {
        Some(Container::Mp4)
    } else if header.len() >= 4 && header[0] == 0x1A && header[1] == 0x45 && header[2] == 0xDF
        && header[3] == 0xA3 {
        Some(Container::Mkv)
    } else {
        None
    }
}

/// What is taken of a file of which only the container is known: full HD at 30 frames per second,
/// with stereo sound.
pub open spec fn assumed(container: Container) -> ProbeResult {
    ProbeResult {
        container,
        video_codec: VideoCodec::H264,
        video_width: 1920,
        video_height: 1080,
        frame_rate: FrameRate { num: 30, den: 1 },
        audio_codec: Some(AudioCodec::Aac),
        audio_sample_rate: Some(48000),
        audio_channels: Some(2),
        duration_micros: None,
        video_bitrate_kbps: None,
        audio_bitrate_kbps: Some(128),
    }
}

/// What the length and the first bytes of a file tell, or what is wrong with it.
pub open spec fn probed(file_len: u64, header: Seq<u8>) -> Result<ProbeResult, IngestFault> {
    if file_len == 0 {
        Err(IngestFault::CorruptFile { reason: "file is empty"@ })
    } else {
        match container_of(header) {
            Some(c) => Ok(assumed(c)),
            None => Err(
                IngestFault::UnsupportedFormat {
                    format: "unknown (could not detect container from magic bytes)"@,
                },
            ),
        }
    }
}

/// A probe, or what is wrong.
pub open spec fn probe_view(r: Result<ProbeResult, IngestError>) -> Result<
    ProbeResult,
    IngestFault,
> {
    match r {
        Ok(p) => Ok(p),
        Err(e) => Err(e@),
    }
}

/// Probes a file by its length and its first bytes.
pub fn probe_placeholder(file_len: u64, header: &[u8]) -> (r: Result<ProbeResult, IngestError>)
    ensures
        probe_view(r) == probed(file_len, header@),
{
    if file_len == 0 {
        return Err(IngestError::CorruptFile { reason: text::owned("file is empty") });
    }
    match detect_container(header) {
        Some(container) => Ok(
            ProbeResult {
                container,
                video_codec: VideoCodec::H264,
                video_width: 1920,
                video_height: 1080,
                frame_rate: FrameRate { num: 30, den: 1 },
                audio_codec: Some(AudioCodec::Aac),
                audio_sample_rate: Some(48000),
                audio_channels: Some(2),
                duration_micros: None,
                video_bitrate_kbps: None,
                audio_bitrate_kbps: Some(128),
            },
        ),
        None => Err(
            IngestError::UnsupportedFormat {
                format: text::owned("unknown (could not detect container from magic bytes)"),
            },
        ),
    }
}

/// The video stream of a file, as a demuxer tells of it.
#[derive(Debug, Clone, Copy)]
pub struct VideoFacts {
    pub rate_numerator: i32,
    pub rate_denominator: i32,
    pub width: u32,
    pub height: u32,
}

/// The audio stream of a file, as a demuxer tells of it: sample rate and channels where its
/// decoder opens.
#[derive(Debug, Clone, Copy)]
pub struct AudioFacts {
    pub format: Option<(u32, u16)>,
}

/// The container that a demuxer's name for a format stands for.
pub open spec fn container_called(name: Seq<char>) -> Option<Container> {
    if has_part(name, "mp4"@) || has_part(name, "mov"@) {
        Some(Container::Mp4)
    } else if has_part(name, "matroska"@) || has_part(name, "webm"@) {
        Some(Container::Mkv)
    } else {
        None
    }
}

/// The frame rate that a demuxer tells; 30 per second where it says nothing.
pub open spec fn told_rate(numerator: i32, denominator: i32) -> FrameRate {
    if numerator > 0 && denominator != 0 {
        FrameRate { num: numerator, den: denominator }
    } else {
        FrameRate { num: 30, den: 1 }
    }
}

/// `p` is what a demuxer tells of a file.
pub open spec fn told_by_demuxer(
    p: ProbeResult,
    container: Container,
    duration_micros: i64,
    video: VideoFacts,
    audio: Option<AudioFacts>,
) -> bool {
    &&& p.container == container
    &&& p.video_codec == VideoCodec::H264
    &&& p.video_width == video.width
    &&& p.video_height == video.height
    &&& p.frame_rate == told_rate(video.rate_numerator, video.rate_denominator)
    &&& p.duration_micros == if duration_micros > 0 {
        Some(duration_micros as u64)
    } else {
        None
    }
    &&& p.video_bitrate_kbps is None
    &&& match audio {
        Some(a) => {
            let f = match a.format {
                Some(f) => f,
                None => (48000u32, 2u16),
            };
            &&& p.audio_codec == Some(AudioCodec::Aac)
            &&& p.audio_sample_rate == Some(f.0)
            &&& p.audio_channels == Some((f.1 % 256) as u8)
            &&& p.audio_bitrate_kbps == Some(128u32)
        },
        None => {
            &&& p.audio_codec is None
            &&& p.audio_sample_rate is None
            &&& p.audio_channels is None
            &&& p.audio_bitrate_kbps is None
        },
    }
}

/// The container that a demuxer's name for a format stands for: MP4 or Matroska, and no other is
/// supported.
pub fn demuxed_container(format_name: &str) -> (r: Result<Container, IngestError>)
    ensures
        match container_called(format_name@) {
            None => r is Err && r->Err_0@ == (IngestFault::UnsupportedFormat {
                format: format_name@,
            }),
            Some(c) => r is Ok && r->Ok_0 == c,
        },
{
    if text::contains(format_name, "mp4") || text::contains(format_name, "mov") {
        Ok(Container::Mp4)
    } else if text::contains(format_name, "matroska") || text::contains(format_name, "webm") {
        Ok(Container::Mkv)
    } else {
        Err(IngestError::UnsupportedFormat { format: text::owned(format_name) })
    }
}

/// Reads what a demuxer tells of a file: the container must be MP4 or Matroska, and there must be
/// a video stream.
pub fn probe_demuxed(
    format_name: &str,
    duration_micros: i64,
    video: Option<VideoFacts>,
    audio: Option<AudioFacts>,
) -> (r: Result<ProbeResult, IngestError>)
    ensures
        match container_called(format_name@) {
            None => r is Err && r->Err_0@ == (IngestFault::UnsupportedFormat {
                format: format_name@,
            }),
            Some(c) => match video {
                None => r is Err && r->Err_0@ == (IngestFault::UnsupportedFormat {
                    format: "no video stream"@,
                }),
                Some(v) => r is Ok && told_by_demuxer(r->Ok_0, c, duration_micros, v, audio),
            },
        },
{
    let container = match demuxed_container(format_name) {
        Ok(c) => c,
        Err(e) => {
            return Err(e);
        },
    };
    let video = match video {
        Some(v) => v,
        None => {
            return Err(
                IngestError::UnsupportedFormat { format: text::owned("no video stream") },
            );
        },
    };
    let frame_rate = if video.rate_numerator > 0 && video.rate_denominator != 0 {
        FrameRate { num: video.rate_numerator, den: video.rate_denominator }
    } else {
        FrameRate { num: 30, den: 1 }
    };
    let duration: Option<u64> = if duration_micros > 0 {
        Some(duration_micros as u64)
    } else {
        None
    };
    let (audio_codec, audio_sample_rate, audio_channels, audio_bitrate_kbps) = match audio {
        Some(a) => {
            let f: (u32, u16) = match a.format {
                Some(f) => f,
                None => (48000, 2),
            };
            (Some(AudioCodec::Aac), Some(f.0), Some((f.1 % 256) as u8), Some(128u32))
        },
        None => (None, None, None, None),
    };
    Ok(
        ProbeResult {
            container,
            video_codec: VideoCodec::H264,
            video_width: video.width,
            video_height: video.height,
            frame_rate,
            audio_codec,
            audio_sample_rate,
            audio_channels,
            duration_micros: duration,
            video_bitrate_kbps: None,
            audio_bitrate_kbps,
        },
    )
}

// ---------------------------------------------------------------------------
// Receiving
// ---------------------------------------------------------------------------

/// The file of an upload that is being received.
pub open spec fn temp_path(stream_id: StreamId) -> Seq<char> {
    UPLOAD_DIR@ + "/"@ + stream_id.text() + ".tmp"@
}

/// The part of a form that carries the file: the one named `file`, or one with a file name.
pub fn is_file_part(name: Option<&str>, has_file_name: bool) -> (r: bool)
    ensures
        r == (has_file_name || (name matches Some(n) && n@ == "file"@)),
{
    has_file_name || match name {
        Some(n) => text::same(n, "file"),
        None => false,
    }
}

/// What can go wrong while an upload is received.
#[derive(Debug, Clone, Copy, PartialEq, Eq, Structural)]
pub enum ReceiveFault {
    PrepareDir,
    CreateFile,
    ReadForm,
    ReadChunk,
    WriteChunk,
    NoFile,
    Flush,
}

impl ReceiveFault {
    /// Whether the file is there and is to be removed.
    pub open spec fn leaves_a_file(self) -> bool {
        self != ReceiveFault::PrepareDir && self != ReceiveFault::CreateFile
    }

    /// The answer, with the cause in its words.
    pub open spec fn answered(self, cause: Seq<char>) -> ErrorModel {
        match self {
            ReceiveFault::PrepareDir => ErrorModel {
                status: 500,
                error: "upload_failed"@,
                message: "Failed to prepare upload: "@ + cause,
            },
            ReceiveFault::CreateFile => ErrorModel {
                status: 500,
                error: "upload_failed"@,
                message: "Failed to create upload temp file: "@ + cause,
            },
            ReceiveFault::ReadForm => ErrorModel {
                status: 400,
                error: "invalid_multipart"@,
                message: "Invalid multipart payload: "@ + cause,
            },
            ReceiveFault::ReadChunk => ErrorModel {
                status: 400,
                error: "invalid_upload"@,
                message: "Invalid file chunk: "@ + cause,
            },
            ReceiveFault::WriteChunk => ErrorModel {
                status: 500,
                error: "upload_failed"@,
                message: "Failed to write upload: "@ + cause,
            },
            ReceiveFault::NoFile => ErrorModel {
                status: 400,
                error: "missing_file"@,
                message: "No file part found in multipart payload."@,
            },
            ReceiveFault::Flush => ErrorModel {
                status: 500,
                error: "upload_failed"@,
                message: "Failed to flush upload file: "@ + cause,
            },
        }
    }

    /// Whether the file is there and is to be removed.
    pub fn removes_file(&self) -> (r: bool)
        ensures
            r == self.leaves_a_file(),
    {
        *self != ReceiveFault::PrepareDir && *self != ReceiveFault::CreateFile
    }

    /// The answer, with the cause in its words.
    pub fn reply(&self, cause: &str) -> (r: ErrorReply)
        ensures
            r@ == self.answered(cause@),
    {
        let r = match self {
            ReceiveFault::PrepareDir => error_quoting(
                500,
                "upload_failed",
                "Failed to prepare upload: ",
                cause,
                "",
            ),
            ReceiveFault::CreateFile => error_quoting(
                500,
                "upload_failed",
                "Failed to create upload temp file: ",
                cause,
                "",
            ),
            ReceiveFault::ReadForm => error_quoting(
                400,
                "invalid_multipart",
                "Invalid multipart payload: ",
                cause,
                "",
            ),
            ReceiveFault::ReadChunk => error_quoting(
                400,
                "invalid_upload",
                "Invalid file chunk: ",
                cause,
                "",
            ),
            ReceiveFault::WriteChunk => error_quoting(
                500,
                "upload_failed",
                "Failed to write upload: ",
                cause,
                "",
            ),
            ReceiveFault::NoFile => error_json(
                400,
                "missing_file",
                "No file part found in multipart payload.",
            ),
            ReceiveFault::Flush => error_quoting(
                500,
                "upload_failed",
                "Failed to flush upload file: ",
                cause,
                "",
            ),
        };
        proof {
            reveal_strlit("");
            assert(self.answered(cause@).message + ""@ =~= self.answered(cause@).message);
        }
        r
    }
}

/// `a + b`, or the greatest number where it does not fit.
pub open spec fn plus(a: u64, b: u64) -> u64 {
    if a + b > u64::MAX {
        u64::MAX
    } else {
        (a + b) as u64
    }
}

/// The answer to an upload that is too large while it is received.
pub open spec fn over_limit(max_bytes: u64) -> ErrorModel {
    ErrorModel {
        status: 413,
        error: "payload_too_large"@,
        message: "Upload exceeds max size ("@ + decimal(max_bytes as nat) + " bytes)."@,
    }
}

/// How much of an upload was received.
#[derive(Debug, Clone, Copy, PartialEq, Eq, Structural)]
pub struct UploadMeter {
    pub received: u64,
    pub max_bytes: u64,
}

impl UploadMeter {
    /// Nothing received yet.
    pub fn new(max_bytes: u64) -> (r: Self)
        ensures
            r == (UploadMeter { received: 0, max_bytes }),
    {
        UploadMeter { received: 0, max_bytes }
    }

    /// A chunk of `len` bytes was received. It is refused where the upload is now too large.
    pub fn on_chunk(&mut self, len: u64) -> (r: Result<(), ErrorReply>)
        ensures
            final(self).max_bytes == old(self).max_bytes,
            final(self).received == plus(old(self).received, len),
            r is Err <==> final(self).received > old(self).max_bytes,
            r matches Err(e) ==> e@ == over_limit(old(self).max_bytes),
    {
        self.received = self.received.saturating_add(len);
        if self.received > self.max_bytes {
            let mut message = text::owned("Upload exceeds max size (");
            text::push_decimal(&mut message, self.max_bytes);
            message.append(" bytes).");
            return Err(
                ErrorReply { status: 413, error: text::owned("payload_too_large"), message },
            );
        }
        Ok(())
    }
}

// ---------------------------------------------------------------------------
// The course of an upload
// ---------------------------------------------------------------------------

/// What is done next for an upload.
#[derive(Debug)]
pub enum UploadAction {
    /// Make sure that the upload directory is there.
    PrepareDir,
    /// Create the file.
    CreateFile,
    /// Read the next part of the form.
    NextPart,
    /// Read the next chunk of the file part.
    NextChunk,
    /// Append the chunk to the file.
    WriteChunk,
    /// Flush the file.
    Flush,
    /// Process the file, which has this size.
    Process { file_size: u64 },
    /// Answer with an error, after the file is removed where it is there.
    Refuse { reply: ErrorReply, remove_file: bool },
}

/// What came of the last action.
#[derive(Debug)]
pub enum UploadEvent {
    /// The directory, the file, the write or the flush went well.
    Done,
    /// A part of the form, with its name, and whether it has a file name.
    Part { name: Option<String>, has_file_name: bool },
    /// The form has no more parts.
    NoMoreParts,
    /// A chunk of this many bytes.
    Chunk { len: u64 },
    /// The file part has no more chunks.
    NoMoreChunks,
    /// The action failed.
    Failed { cause: String },
}

/// What an upload waits for.
#[derive(Debug, Clone, Copy, PartialEq, Eq, Structural)]
pub enum UploadPhase {
    Dir,
    File,
    Part,
    Chunk,
    Write,
    Flush,
    /// Nothing: it is over.
    Over,
}

/// What an action says.
#[verifier::ext_equal]
pub enum UploadStep {
    CreateFile,
    NextPart,
    NextChunk,
    WriteChunk,
    Flush,
    Process { file_size: u64 },
    Refuse { answer: ErrorModel, remove_file: bool },
    PrepareDir,
}

impl View for UploadAction {
    type V = UploadStep;

    open spec fn view(&self) -> UploadStep {
        match *self {
            UploadAction::PrepareDir => UploadStep::PrepareDir,
            UploadAction::CreateFile => UploadStep::CreateFile,
            UploadAction::NextPart => UploadStep::NextPart,
            UploadAction::NextChunk => UploadStep::NextChunk,
            UploadAction::WriteChunk => UploadStep::WriteChunk,
            UploadAction::Flush => UploadStep::Flush,
            UploadAction::Process { file_size } => UploadStep::Process { file_size },
            UploadAction::Refuse { reply, remove_file } => UploadStep::Refuse {
                answer: reply@,
                remove_file,
            },
        }
    }
}

impl UploadPhase {
    /// The event can come of what the upload waits for.
    pub open spec fn awaits(self, event: UploadEvent) -> bool {
        match self {
            UploadPhase::Dir => event is Done || event is Failed,
            UploadPhase::File => event is Done || event is Failed,
            UploadPhase::Part => event is Part || event is NoMoreParts || event is Failed,
            UploadPhase::Chunk => event is Chunk || event is NoMoreChunks || event is Failed,
            UploadPhase::Write => event is Done || event is Failed,
            UploadPhase::Flush => event is Done || event is Failed,
            UploadPhase::Over => false,
        }
    }

    /// What went wrong where the upload fails while it waits.
    pub open spec fn fault(self) -> ReceiveFault {
        match self {
            UploadPhase::Dir => ReceiveFault::PrepareDir,
            UploadPhase::File => ReceiveFault::CreateFile,
            UploadPhase::Part => ReceiveFault::ReadForm,
            UploadPhase::Chunk => ReceiveFault::ReadChunk,
            UploadPhase::Write => ReceiveFault::WriteChunk,
            _ => ReceiveFault::Flush,
        }
    }
}

/// An upload that is being received.
#[derive(Debug, Clone, Copy, PartialEq, Eq, Structural)]
pub struct UploadSession {
    pub phase: UploadPhase,
    pub meter: UploadMeter,
}

/// The answer to a fault.
pub open spec fn refused_for(fault: ReceiveFault, cause: Seq<char>) -> UploadStep {
    UploadStep::Refuse { answer: fault.answered(cause), remove_file: fault.leaves_a_file() }
}

/// The part carries the file.
pub open spec fn carries_file(event: UploadEvent) -> bool {
    event matches UploadEvent::Part { name, has_file_name } && (has_file_name || (
    name matches Some(n) && n@ == "file"@))
}

impl UploadSession {
    /// What comes after an event: the first part that carries a file is received chunk by chunk
    /// until there are no more, the file is too large or something fails; a form without such a
    /// part is refused.
    pub open spec fn after(self, event: UploadEvent) -> (UploadSession, UploadStep) {
        let over = UploadSession { phase: UploadPhase::Over, ..self };
        match event {
            UploadEvent::Failed { cause } => (over, refused_for(self.phase.fault(), cause@)),
            UploadEvent::Done => match self.phase {
                UploadPhase::Dir => (
                    UploadSession { phase: UploadPhase::File, ..self },
                    UploadStep::CreateFile,
                ),
                UploadPhase::File => (
                    UploadSession { phase: UploadPhase::Part, ..self },
                    UploadStep::NextPart,
                ),
                UploadPhase::Write => (
                    UploadSession { phase: UploadPhase::Chunk, ..self },
                    UploadStep::NextChunk,
                ),
                _ => (over, UploadStep::Process { file_size: self.meter.received }),
            },
            UploadEvent::Part { .. } => if carries_file(event) {
                (UploadSession { phase: UploadPhase::Chunk, ..self }, UploadStep::NextChunk)
            } else {
                (self, UploadStep::NextPart)
            },
            UploadEvent::NoMoreParts => (over, refused_for(ReceiveFault::NoFile, Seq::empty())),
            UploadEvent::Chunk { len } => {
                let meter = UploadMeter {
                    received: plus(self.meter.received, len),
                    max_bytes: self.meter.max_bytes,
                };
                if meter.received > meter.max_bytes {
                    (
                        UploadSession { phase: UploadPhase::Over, meter },
                        UploadStep::Refuse {
                            answer: over_limit(meter.max_bytes),
                            remove_file: true,
                        },
                    )
                } else {
                    (
                        UploadSession { phase: UploadPhase::Write, meter },
                        UploadStep::WriteChunk,
                    )
                }
            },
            UploadEvent::NoMoreChunks => (
                UploadSession { phase: UploadPhase::Flush, ..self },
                UploadStep::Flush,
            ),
        }
    }

    /// A new upload, and its first action.
    pub fn begin(max_bytes: u64) -> (r: (Self, UploadAction))
        ensures
            r.0 == (UploadSession {
                phase: UploadPhase::Dir,
                meter: UploadMeter { received: 0, max_bytes },
            }),
            r.1@ == UploadStep::PrepareDir,
    {
        (
            UploadSession { phase: UploadPhase::Dir, meter: UploadMeter::new(max_bytes) },
            UploadAction::PrepareDir,
        )
    }

    fn fail(&mut self, fault: ReceiveFault, cause: &str) -> (r: UploadAction)
        ensures
            *final(self) == (UploadSession { phase: UploadPhase::Over, ..*old(self) }),
            r@ == refused_for(fault, cause@),
    {
        self.phase = UploadPhase::Over;
        UploadAction::Refuse { reply: fault.reply(cause), remove_file: fault.removes_file() }
    }

    /// The next action, after what came of the last one.
    pub fn next(&mut self, event: UploadEvent) -> (r: UploadAction)
        requires
            old(self).phase.awaits(event),
        ensures
            (*final(self), r@) == old(self).after(event),
    {
        match event {
            UploadEvent::Failed { cause } => {
                let fault = match self.phase {
                    UploadPhase::Dir => ReceiveFault::PrepareDir,
                    UploadPhase::File => ReceiveFault::CreateFile,
                    UploadPhase::Part => ReceiveFault::ReadForm,
                    UploadPhase::Chunk => ReceiveFault::ReadChunk,
                    UploadPhase::Write => ReceiveFault::WriteChunk,
                    _ => ReceiveFault::Flush,
                };
                self.fail(fault, &cause)
            },
            UploadEvent::Done => match self.phase {
                UploadPhase::Dir => {
                    self.phase = UploadPhase::File;
                    UploadAction::CreateFile
                },
                UploadPhase::File => {
                    self.phase = UploadPhase::Part;
                    UploadAction::NextPart
                },
                UploadPhase::Write => {
                    self.phase = UploadPhase::Chunk;
                    UploadAction::NextChunk
                },
                _ => {
                    self.phase = UploadPhase::Over;
                    UploadAction::Process { file_size: self.meter.received }
                },
            },
            UploadEvent::Part { name, has_file_name } => {
                let is_file = match &name {
                    Some(n) => is_file_part(Some(n.as_str()), has_file_name),
                    None => is_file_part(None, has_file_name),
                };
                if is_file {
                    self.phase = UploadPhase::Chunk;
                    UploadAction::NextChunk
                } else {
                    UploadAction::NextPart
                }
            },
            UploadEvent::NoMoreParts => {
                proof {
                    reveal_strlit("");
                    assert(""@ =~= Seq::<char>::empty());
                }
                self.fail(ReceiveFault::NoFile, "")
            },
            UploadEvent::Chunk { len } => match self.meter.on_chunk(len) {
                Ok(()) => {
                    self.phase = UploadPhase::Write;
                    UploadAction::WriteChunk
                },
                Err(reply) => {
                    self.phase = UploadPhase::Over;
                    UploadAction::Refuse { reply, remove_file: true }
                },
            },
            UploadEvent::NoMoreChunks => {
                self.phase = UploadPhase::Flush;
                UploadAction::Flush
            },
        }
    }
}

// ---------------------------------------------------------------------------
// Accepting
// ---------------------------------------------------------------------------

/// An upload that was accepted.
#[derive(Debug)]
pub struct UploadResponse {
    pub stream_id: String,
    pub status: String,
    pub upload_size_bytes: u64,
    pub detected_codec: String,
    pub detected_audio: Option<String>,
    pub duration_micros: Option<u64>,
    pub resolution: String,
}

/// An upload that was not accepted.
#[derive(Debug)]
pub struct UploadErrorResponse {
    pub error: String,
    pub message: String,
    pub stream_id: Option<String>,
}

/// Why an upload is not accepted, and whether its file is to be removed.
#[derive(Debug)]
pub struct UploadRejection {
    pub error: IngestError,
    pub remove_file: bool,
}

/// `r` tells of the upload of a file with the given size and probe.
pub open spec fn tells_upload(
    r: UploadResponse,
    stream_id: StreamId,
    file_size: u64,
    probe: ProbeResult,
) -> bool {
    &&& r.stream_id@ == stream_id.text()
    &&& r.status@ == "processing"@
    &&& r.upload_size_bytes == file_size
    &&& r.detected_codec@ == probe.video_codec.name()
    &&& match probe.audio_codec {
        Some(c) => r.detected_audio matches Some(a) && a@ == c.name(),
        None => r.detected_audio is None,
    }
    &&& r.duration_micros == probe.duration_micros
    &&& r.resolution@ == decimal(probe.video_width as nat) + "x"@ + decimal(
        probe.video_height as nat,
    )
}

/// The entry of an upload that was accepted at `now`.
pub open spec fn upload_entry(stream_id: StreamId, probe: ProbeResult, now: i128) -> EntryModel {
    let e = EntryModel::fresh(stream_id, IngestMode::Vod, now).entering(
        StreamState::Processing,
        now,
    );
    EntryModel {
        metadata: StreamMetadata {
            media_info: Some(probe.media_info(stream_id)),
            ..e.metadata
        },
        ..e
    }
}

/// What is wrong with an upload, and whether its file is to be removed: the size is looked at
/// first, then the probe, then the rules.
pub open spec fn upload_refusal(
    file_size: u64,
    probe: Result<ProbeResult, IngestFault>,
    config: IngestConfig,
) -> Option<(IngestFault, bool)> {
    if file_size > config.max_upload_size_bytes {
        Some(
            (
                IngestFault::UploadTooLarge {
                    size_bytes: file_size,
                    max_bytes: config.max_upload_size_bytes,
                },
                true,
            ),
        )
    } else {
        match probe {
            Err(fault) => Some((fault, false)),
            Ok(p) => match upload_fault(p, config) {
                Some(fault) => Some((fault, true)),
                None => None,
            },
        }
    }
}

/// What an upload at `now` did, and what was returned.
pub open spec fn uploaded(
    manager: StreamStateManager,
    after: StreamStateManager,
    stream_id: StreamId,
    file_size: u64,
    probe: Result<ProbeResult, IngestFault>,
    config: IngestConfig,
    now: i128,
    r: Result<UploadResponse, UploadRejection>,
) -> bool {
    match upload_refusal(file_size, probe, config) {
        Some((fault, remove_file)) => {
            &&& r matches Err(e)
            &&& e.error@ == fault
            &&& e.remove_file == remove_file
            &&& after == manager
        },
        None => {
            &&& probe matches Ok(p)
            &&& r matches Ok(response)
            &&& tells_upload(response, stream_id, file_size, p)
            &&& after.table() == manager.table().insert(
                stream_id.value,
                upload_entry(stream_id, p, now),
            )
            &&& after.counts() == counted_in(
                counted_out(
                    counted_in(manager.counts(), StreamState::Pending),
                    StreamState::Pending,
                ),
                StreamState::Processing,
            )
        },
    }
}

/// Accepts uploads.
pub struct HttpUploadHandler {
    pub config: IngestConfig,
}

impl HttpUploadHandler {
    /// Uploads under the given configuration.
    pub fn new(config: IngestConfig) -> (r: Self)
        ensures
            r.config == config,
    {
        HttpUploadHandler { config }
    }

    /// The file of an upload that is being received.
    pub fn temp_file_path(&self, stream_id: StreamId) -> (r: String)
        ensures
            r@ == temp_path(stream_id),
    {
        let mut s = text::owned(UPLOAD_DIR);
        s.append("/");
        let id = stream_id.to_text();
        s.append(&id);
        s.append(".tmp");
        s
    }

    /// Whether an upload is small enough to be probed.
    pub fn accepts_size(&self, file_size: u64) -> (r: bool)
        ensures
            r == (file_size <= self.config.max_upload_size_bytes),
    {
        file_size <= self.config.max_upload_size_bytes
    }

    /// Takes an upload that was received and probed, now.
    pub fn process_upload(
        &self,
        manager: &mut StreamStateManager,
        stream_id: StreamId,
        file_size: u64,
        probe: Result<ProbeResult, IngestError>,
    ) -> (r: Result<UploadResponse, UploadRejection>)
        requires
            old(manager).wf(),
        ensures
            final(manager).wf(),
            exists|now: i128| #[trigger]
                uploaded(
                    *old(manager),
                    *final(manager),
                    stream_id,
                    file_size,
                    probe_view(probe),
                    self.config,
                    now,
                    r,
                ) && in_calendar(now),
    {
        let now = clock::now();
        let ghost given = probe_view(probe);
        let r = self.process_upload_at(manager, stream_id, file_size, probe, now);
        assert(uploaded(
            *old(manager),
            *manager,
            stream_id,
            file_size,
            given,
            self.config,
            now,
            r,
        ));
        r
    }

    /// Takes an upload that was received and probed, at `now`.
    pub fn process_upload_at(
        &self,
        manager: &mut StreamStateManager,
        stream_id: StreamId,
        file_size: u64,
        probe: Result<ProbeResult, IngestError>,
        now: i128,
    ) -> (r: Result<UploadResponse, UploadRejection>)
        requires
            old(manager).wf(),
            in_calendar(now),
        ensures
            final(manager).wf(),
            uploaded(
                *old(manager),
                *final(manager),
                stream_id,
                file_size,
                probe_view(probe),
                self.config,
                now,
                r,
            ),
    {
        if !self.accepts_size(file_size) {
            return Err(
                UploadRejection {
                    error: IngestError::UploadTooLarge {
                        size_bytes: file_size,
                        max_bytes: self.config.max_upload_size_bytes,
                    },
                    remove_file: true,
                },
            );
        }
        let probe = match probe {
            Ok(p) => p,
            Err(error) => {
                return Err(UploadRejection { error, remove_file: false });
            },
        };
        if let Err(error) = validate_upload(&probe, &self.config) {
            return Err(UploadRejection { error, remove_file: true });
        }
        let media_info = probe.to_media_info(stream_id);
        let _created = manager.create_stream_at(stream_id, IngestMode::Vod, now);
        if let Err(e) = manager.transition_at(stream_id, StreamState::Processing, now) {
            return Err(
                UploadRejection {
                    error: IngestError::ValidationFailed { reason: e.message() },
                    remove_file: false,
                },
            );
        }
        manager.set_media_info(stream_id, media_info);
        assert(manager.table() =~= old(manager).table().insert(
            stream_id.value,
            upload_entry(stream_id, probe, now),
        ));
        let mut resolution = text::decimal_string(probe.video_width as u64);
        resolution.append("x");
        text::push_decimal(&mut resolution, probe.video_height as u64);
        Ok(
            UploadResponse {
                stream_id: stream_id.to_text(),
                status: text::owned("processing"),
                upload_size_bytes: file_size,
                detected_codec: text::owned(probe.video_codec.as_str()),
                detected_audio: match probe.audio_codec {
                    Some(c) => Some(text::owned(c.as_str())),
                    None => None,
                },
                duration_micros: probe.duration_micros,
                resolution,
            },
        )
    }
}

// ---------------------------------------------------------------------------
// Error answers
// ---------------------------------------------------------------------------

/// The status code of an error.
pub open spec fn status_for(fault: IngestFault) -> u16 {
    match fault {
        IngestFault::AuthFailed { .. } => 401,
        IngestFault::UploadTooLarge { .. } => 413,
        IngestFault::UnsupportedFormat { .. } => 415,
        IngestFault::UnsupportedCodec { .. } => 422,
        IngestFault::InvalidResolution { .. } => 422,
        IngestFault::DurationExceeded { .. } => 422,
        IngestFault::CorruptFile { .. } => 422,
        IngestFault::InsufficientStorage => 507,
        _ => 500,
    }
}

/// The status code of an error.
pub fn ingest_error_to_status_code(err: &IngestError) -> (r: u16)
    ensures
        r == status_for(err@),
{
    match err {
        IngestError::AuthFailed { .. } => 401,
        IngestError::UploadTooLarge { .. } => 413,
        IngestError::UnsupportedFormat { .. } => 415,
        IngestError::UnsupportedCodec { .. } => 422,
        IngestError::InvalidResolution { .. } => 422,
        IngestError::DurationExceeded { .. } => 422,
        IngestError::CorruptFile { .. } => 422,
        IngestError::InsufficientStorage => 507,
        _ => 500,
    }
}

/// The code of an error in an answer.
pub open spec fn code_for(fault: IngestFault) -> Seq<char> {
    match fault {
        IngestFault::UnsupportedCodec { .. } => "unsupported_codec"@,
        IngestFault::UnsupportedFormat { .. } => "unsupported_format"@,
        IngestFault::InvalidResolution { .. } => "invalid_resolution"@,
        IngestFault::DurationExceeded { .. } => "duration_exceeded"@,
        IngestFault::CorruptFile { .. } => "corrupt_file"@,
        IngestFault::UploadTooLarge { .. } => "payload_too_large"@,
        IngestFault::AuthFailed { .. } => "unauthorized"@,
        _ => "internal_error"@,
    }
}

/// The answer for an error.
pub fn build_error_response(err: &IngestError, stream_id: Option<StreamId>) -> (r:
    UploadErrorResponse)
    ensures
        r.error@ == code_for(err@),
        r.message@ == err.text(),
        match stream_id {
            Some(id) => r.stream_id matches Some(t) && t@ == id.text(),
            None => r.stream_id is None,
        },
{
    let code = match err {
        IngestError::UnsupportedCodec { .. } => "unsupported_codec",
        IngestError::UnsupportedFormat { .. } => "unsupported_format",
        IngestError::InvalidResolution { .. } => "invalid_resolution",
        IngestError::DurationExceeded { .. } => "duration_exceeded",
        IngestError::CorruptFile { .. } => "corrupt_file",
        IngestError::UploadTooLarge { .. } => "payload_too_large",
        IngestError::AuthFailed { .. } => "unauthorized",
        _ => "internal_error",
    };
    UploadErrorResponse {
        error: text::owned(code),
        message: err.message(),
        stream_id: match stream_id {
            Some(id) => Some(id.to_text()),
            None => None,
        },
    }
}

// ---------------------------------------------------------------------------
// Feeding the transcoder
// ---------------------------------------------------------------------------

/// Ticks per frame at 30 frames per second.
pub const VOD_PTS_STEP: i64 = 3000;

/// Frames per group of pictures: two seconds.
pub const VOD_KEYFRAME_INTERVAL: u64 = 60;

/// Hands a file to the transcoder, chunk by chunk.
#[derive(Debug, Clone, Copy)]
pub struct VodFeeder {
    pub stream_id: StreamId,
    pub width: u32,
    pub height: u32,
    pub total_bytes: u64,
    pub read_bytes: u64,
    pub pts: i64,
    pub frame_index: u64,
}

impl VodFeeder {
    /// The total is known, and the next timestamp is in range.
    pub open spec fn wf(self) -> bool {
        self.total_bytes > 0 && self.pts >= 0
    }

    /// Nothing handed over yet; an empty file counts as one byte.
    pub fn new(stream_id: StreamId, width: u32, height: u32, file_len: u64) -> (r: Self)
        ensures
            r.wf(),
            r == (VodFeeder {
                stream_id,
                width,
                height,
                total_bytes: if file_len == 0 {
                    1
                } else {
                    file_len
                },
                read_bytes: 0,
                pts: 0,
                frame_index: 0,
            }),
    {
        let total_bytes: u64 = if file_len == 0 {
            1
        } else {
            file_len
        };
        VodFeeder { stream_id, width, height, total_bytes, read_bytes: 0, pts: 0, frame_index: 0 }
    }

    /// The frame of the next chunk.
    pub open spec fn frame(self, chunk: Seq<u8>) -> FrameModel {
        FrameModel {
            stream_id: self.stream_id,
            track: Track::Video {
                codec: VideoCodec::H264,
                width: self.width,
                height: self.height,
            },
            pts: self.pts,
            dts: self.pts,
            keyframe: self.frame_index % VOD_KEYFRAME_INTERVAL == 0,
            data: chunk,
        }
    }

    /// The frame of a chunk that was read, and the share of the file that has been read with it.
    pub fn next_frame(&mut self, chunk: &[u8]) -> (r: (DemuxedFrame, Share))
        requires
            old(self).wf(),
            old(self).pts + VOD_PTS_STEP <= i64::MAX,
        ensures
            final(self).wf(),
            r.0@ == old(self).frame(chunk@),
            r.1 == (Share { part: final(self).read_bytes, whole: old(self).total_bytes }),
            *final(self) == (VodFeeder {
                read_bytes: plus(old(self).read_bytes, chunk@.len() as u64),
                pts: (old(self).pts + VOD_PTS_STEP) as i64,
                frame_index: plus(old(self).frame_index, 1),
                ..*old(self)
            }),
    {
        self.read_bytes = self.read_bytes.saturating_add(chunk.len() as u64);
        let frame = DemuxedFrame {
            stream_id: self.stream_id,
            track: Track::Video {
                codec: VideoCodec::H264,
                width: self.width,
                height: self.height,
            },
            pts: self.pts,
            dts: self.pts,
            keyframe: self.frame_index % VOD_KEYFRAME_INTERVAL == 0,
            data: bytes_copy(chunk),
        };
        let progress = Share { part: self.read_bytes, whole: self.total_bytes };
        self.pts = self.pts + VOD_PTS_STEP;
        self.frame_index = self.frame_index.saturating_add(1);
        (frame, progress)
    }
}

/// Width, height and frame rate of the source of a stream; full HD at 30 frames per second where
/// nothing is known.
pub fn source_of(manager: &StreamStateManager, stream_id: StreamId) -> (r: (u32, u32, FrameRate))
    ensures
        r == if manager.table().contains_key(stream_id.value) {
            match manager.table()[stream_id.value].metadata.media_info {
                Some(m) => (m.video_width, m.video_height, m.frame_rate),
                None => (1920u32, 1080u32, FrameRate { num: 30, den: 1 }),
            }
        } else {
            (1920u32, 1080u32, FrameRate { num: 30, den: 1 })
        },
{
    match manager.get_stream(stream_id) {
        Some(e) => match e.metadata.media_info {
            Some(m) => (m.video_width, m.video_height, m.frame_rate),
            None => (1920, 1080, FrameRate { num: 30, den: 1 }),
        },
        None => (1920, 1080, FrameRate { num: 30, den: 1 }),
    }
}

// ---------------------------------------------------------------------------
// Laws
// ---------------------------------------------------------------------------

/// The bytes of an upload that is still under way never exceed the limit.
pub proof fn uploads_stay_within_the_limit(session: UploadSession, event: UploadEvent)
    requires
        session.meter.received <= session.meter.max_bytes,
        session.phase.awaits(event),
    ensures
        ({
            let (after, step) = session.after(event);
            &&& after.meter.max_bytes == session.meter.max_bytes
            &&& after.phase != UploadPhase::Over ==> after.meter.received
                <= after.meter.max_bytes
            &&& step matches UploadStep::Process { file_size } ==> file_size
                <= session.meter.max_bytes
        }),
{
}

/// A file is left behind by no upload that is refused: wherever it was created, it is removed.
pub proof fn refused_uploads_leave_no_file(session: UploadSession, event: UploadEvent)
    requires
        session.phase.awaits(event),
    ensures
        session.after(event).1 matches UploadStep::Refuse { remove_file, .. } ==> (remove_file
            <==> session.phase != UploadPhase::Dir && session.phase != UploadPhase::File),
{
}

/// An upload that breaks a rule creates no stream.
pub proof fn refused_uploads_leave_no_stream(
    manager: StreamStateManager,
    after: StreamStateManager,
    stream_id: StreamId,
    file_size: u64,
    probe: Result<ProbeResult, IngestFault>,
    config: IngestConfig,
    now: i128,
    r: Result<UploadResponse, UploadRejection>,
)
    requires
        uploaded(manager, after, stream_id, file_size, probe, config, now, r),
        r is Err,
    ensures
        after.table() == manager.table(),
        after.counts() == manager.counts(),
{
}

/// Every byte that comes in is counted, none is counted twice, and what is processed has the size
/// that was counted. A chunk is written, and the next one asked for once it is; the file is flushed
/// once there are no more, and processed once it is flushed.
pub proof fn uploads_count_every_byte(session: UploadSession, event: UploadEvent)
    requires
        session.phase.awaits(event),
        session.meter.received <= session.meter.max_bytes,
        session.meter.max_bytes < u64::MAX,
    ensures
        ({
            let (after, step) = session.after(event);
            &&& event matches UploadEvent::Chunk { len } ==> {
                if session.meter.received + len <= session.meter.max_bytes {
                    &&& step == UploadStep::WriteChunk
                    &&& after.meter.received == session.meter.received + len
                    &&& after.after(UploadEvent::Done).1 == UploadStep::NextChunk
                } else {
                    &&& step matches UploadStep::Refuse { answer, remove_file } && answer.status
                        == 413 && remove_file
                    &&& after.phase == UploadPhase::Over
                }
            }
            &&& !(event is Chunk) ==> after.meter == session.meter
            &&& event is NoMoreChunks ==> {
                &&& step == UploadStep::Flush
                &&& after.after(UploadEvent::Done).1 == (UploadStep::Process {
                    file_size: session.meter.received,
                })
            }
            &&& event is NoMoreParts ==> step is Refuse
            &&& event is Failed ==> step is Refuse && after.phase == UploadPhase::Over
            &&& step is Process ==> session.phase == UploadPhase::Flush && event is Done
        }),
{
}

/// An upload is refused exactly where it is too large, cannot be probed, or breaks a rule: FLV, a
/// codec that is not allowed, too long a duration, or a resolution outside the limits.
pub proof fn uploads_are_judged_by_the_rules(
    file_size: u64,
    probe: Result<ProbeResult, IngestFault>,
    config: IngestConfig,
)
    ensures
        upload_refusal(file_size, probe, config) is None <==> {
            &&& file_size <= config.max_upload_size_bytes
            &&& probe matches Ok(p) && {
                &&& p.container != Container::Flv
                &&& views(config.allowed_codecs@).contains(p.video_codec.name())
                &&& p.audio_codec matches Some(a) ==> views(config.allowed_audio_codecs@).contains(
                    a.name(),
                )
                &&& p.duration_micros matches Some(d) ==> d <= config.max_duration_micros
                &&& 0 < p.video_width <= 3840
                &&& 0 < p.video_height <= 2160
            }
        },
{
}

/// A file is told by its mark: "ftyp" behind four bytes, or the four bytes of EBML at its start.
pub proof fn containers_are_told_by_their_mark(size: Seq<u8>, rest: Seq<u8>)
    requires
        size.len() == 4,
    ensures
        rest.len() >= 4 ==> container_of(
            size + seq!['f' as u8, 't' as u8, 'y' as u8, 'p' as u8] + rest,
        ) == Some(Container::Mp4),
        rest.len() < 4 ==> container_of(seq![0x1Au8, 0x45u8, 0xDFu8, 0xA3u8] + rest) == Some(
            Container::Mkv,
        ),
{
    let a = size + seq!['f' as u8, 't' as u8, 'y' as u8, 'p' as u8] + rest;
    let b = seq![0x1Au8, 0x45u8, 0xDFu8, 0xA3u8] + rest;
    assert(a.subrange(4, 8) =~= seq![0x66u8, 0x74, 0x79, 0x70]);
    assert(b.subrange(0, 4) =~= seq![0x1Au8, 0x45, 0xDF, 0xA3]);
}

/// A file is handed over chunk by chunk, each as one frame of 1/30 s that holds exactly the chunk,
/// with a keyframe every two seconds.
pub proof fn fed_frames_hold_their_chunk(f: VodFeeder, chunk: Seq<u8>)
    requires
        f.pts == 3000 * f.frame_index,
    ensures
        f.frame(chunk).data == chunk,
        f.frame(chunk).pts == f.frame(chunk).dts,
        30 * f.frame(chunk).pts == 90_000 * f.frame_index,
        f.frame(chunk).keyframe <==> f.frame(chunk).pts % 180_000 == 0,
        f.frame(chunk).stream_id == f.stream_id,
{
}

/// What is wrong with the client's data is answered as such: 4xx where the client can mend it, and
/// 5xx where it cannot.
pub proof fn faults_are_answered_by_their_kind(fault: IngestFault)
    ensures
        400 <= status_for(fault) < 600,
        status_for(fault) == 401 <==> fault is AuthFailed,
        status_for(fault) == 413 <==> fault is UploadTooLarge,
        status_for(fault) == 415 <==> fault is UnsupportedFormat,
        status_for(fault) == 422 <==> fault is UnsupportedCodec || fault is InvalidResolution
            || fault is DurationExceeded || fault is CorruptFile,
        status_for(fault) == 507 <==> fault is InsufficientStorage,
{
}

} // verus!
