//! The vocabulary of the media pipeline.

use bytes::Bytes;
use vstd::prelude::*;
use vstd::string::*;

use crate::binary64;
use crate::binary64::{divided, TWO_53};
use crate::buffer::bytes_seq;
use crate::clock;
use crate::text;
use crate::text::decimal;
use crate::uuids;
use crate::uuids::{hyphenated, version_num};

verus! {

// ---------------------------------------------------------------------------
// Identifiers
// ---------------------------------------------------------------------------

/// Unique identifier of a stream: a UUID, of version 7 where the library makes it, so that
/// identifiers sort by creation time.
#[derive(Debug, Clone, Copy, PartialEq, Eq, Structural, Hash)]
pub struct StreamId {
    pub value: u128,
}

impl StreamId {
    /// A fresh identifier.
    pub fn new() -> (r: Self)
        ensures
            version_num(r.value) == 7,
    {
        StreamId { value: uuids::now_v7() }
    }

    /// The identifier with the given 128 bits.
    pub fn from_uuid(uuid: u128) -> (r: Self)
        ensures
            r.value == uuid,
    {
        StreamId { value: uuid }
    }

    /// The identifier as text.
    pub open spec fn text(self) -> Seq<char> {
        hyphenated(self.value)
    }

    /// The identifier as text, in the hyphenated form.
    pub fn to_text(&self) -> (r: String)
        ensures
            r@ == self.text(),
    {
        uuids::uuid_string(self.value)
    }
}

impl Default for StreamId {
    fn default() -> (r: Self)
        ensures
            version_num(r.value) == 7,
    {
        StreamId::new()
    }
}

/// Identifies a rendition in the transcoding profile ladder.
#[derive(Debug, Clone, Copy, PartialEq, Eq, Structural, Hash)]
pub enum RenditionId {
    High,
    Medium,
    Low,
    /// A rendition at the resolution of the source, for inputs below the ladder.
    Source,
}

impl RenditionId {
    /// The name of the rendition, as it stands in paths and playlists.
    pub open spec fn name(self) -> Seq<char> {
        match self {
            RenditionId::High => "high"@,
            RenditionId::Medium => "medium"@,
            RenditionId::Low => "low"@,
            RenditionId::Source => "source"@,
        }
    }

    /// The name of the rendition.
    pub fn as_str(&self) -> (r: &'static str)
        ensures
            r@ == self.name(),
    {
        match self {
            RenditionId::High => "high",
            RenditionId::Medium => "medium",
            RenditionId::Low => "low",
            RenditionId::Source => "source",
        }
    }
}

// ---------------------------------------------------------------------------
// Codecs and containers
// ---------------------------------------------------------------------------

/// Supported video codecs.
#[derive(Debug, Clone, Copy, PartialEq, Eq, Structural, Hash)]
pub enum VideoCodec {
    H264,
}

impl VideoCodec {
    pub open spec fn name(self) -> Seq<char> {
        "h264"@
    }

    /// The name of the codec.
    pub fn as_str(&self) -> (r: &'static str)
        ensures
            r@ == self.name(),
    {
        "h264"
    }
}

/// Supported audio codecs.
#[derive(Debug, Clone, Copy, PartialEq, Eq, Structural, Hash)]
pub enum AudioCodec {
    Aac,
    Mp3,
}

impl AudioCodec {
    pub open spec fn name(self) -> Seq<char> {
        match self {
            AudioCodec::Aac => "aac"@,
            AudioCodec::Mp3 => "mp3"@,
        }
    }

    /// The name of the codec.
    pub fn as_str(&self) -> (r: &'static str)
        ensures
            r@ == self.name(),
    {
        match self {
            AudioCodec::Aac => "aac",
            AudioCodec::Mp3 => "mp3",
        }
    }
}

/// Container format detected at ingest.
#[derive(Debug, Clone, Copy, PartialEq, Eq, Structural, Hash)]
pub enum Container {
    Flv,
    Mp4,
    Mkv,
}

impl Container {
    pub open spec fn name(self) -> Seq<char> {
        match self {
            Container::Flv => "flv"@,
            Container::Mp4 => "mp4"@,
            Container::Mkv => "mkv"@,
        }
    }

    /// The name of the container format.
    pub fn as_str(&self) -> (r: &'static str)
        ensures
            r@ == self.name(),
    {
        match self {
            Container::Flv => "flv",
            Container::Mp4 => "mp4",
            Container::Mkv => "mkv",
        }
    }
}

// ---------------------------------------------------------------------------
// Tracks
// ---------------------------------------------------------------------------

/// A track of a media stream, with the parameters of its codec.
#[derive(Debug, Clone, Copy, PartialEq, Eq, Structural, Hash)]
#[allow(inconsistent_fields)]
pub enum Track {
    Video { codec: VideoCodec, width: u32, height: u32 },
    Audio { codec: AudioCodec, sample_rate: u32, channels: u8 },
}

impl Track {
    /// Whether this is an audio track.
    pub fn is_audio(&self) -> (r: bool)
        ensures
            r == (*self is Audio),
    {
        matches!(self, Track::Audio { .. })
    }

    /// A one-line description of the track.
    pub open spec fn text(self) -> Seq<char> {
        match self {
            Track::Video { codec, width, height } => "video("@ + codec.name() + ", "@ + decimal(
                width as nat,
            ) + "x"@ + decimal(height as nat) + ")"@,
            Track::Audio { codec, sample_rate, channels } => "audio("@ + codec.name() + ", "@
                + decimal(sample_rate as nat) + "Hz, "@ + decimal(channels as nat) + "ch)"@,
        }
    }

    /// A one-line description of the track.
    pub fn to_text(&self) -> (r: String)
        ensures
            r@ == self.text(),
    {
        match self {
            Track::Video { codec, width, height } => {
                let mut s = text::owned("video(");
                s.append(codec.as_str());
                s.append(", ");
                text::push_decimal(&mut s, *width as u64);
                s.append("x");
                text::push_decimal(&mut s, *height as u64);
                s.append(")");
                s
            },
            Track::Audio { codec, sample_rate, channels } => {
                let mut s = text::owned("audio(");
                s.append(codec.as_str());
                s.append(", ");
                text::push_decimal(&mut s, *sample_rate as u64);
                s.append("Hz, ");
                text::push_decimal(&mut s, *channels as u64);
                s.append("ch)");
                s
            },
        }
    }
}

// ---------------------------------------------------------------------------
// Media information
// ---------------------------------------------------------------------------

/// Frames per second, as a quotient in double precision. A denominator of 0 counts as 1.
#[derive(Debug, Clone, Copy, PartialEq, Eq, Structural)]
pub struct FrameRate {
    pub num: i32,
    pub den: i32,
}

/// The magnitude of a number.
pub open spec fn magnitude(n: i32) -> nat {
    if n < 0 {
        (-n) as nat
    } else {
        n as nat
    }
}

fn magnitude_of(n: i32) -> (r: u32)
    ensures
        r == magnitude(n),
{
    if n < 0 {
        (-(n as i64)) as u32
    } else {
        n as u32
    }
}

impl FrameRate {
    /// The rate is below 0.
    pub open spec fn below_zero(self) -> bool {
        (self.num < 0) != (self.den < 0)
    }

    /// The rate without its sign, as a whole number and the power of two that divides it.
    pub open spec fn size(self) -> (nat, nat) {
        divided(
            magnitude(self.num),
            if self.den == 0 {
                1
            } else {
                magnitude(self.den)
            },
        )
    }

    /// Whether the rate is below 0.
    pub fn is_negative(&self) -> (r: bool)
        ensures
            r == self.below_zero(),
    {
        (self.num < 0) != (self.den < 0)
    }

    /// The rate without its sign, as a whole number and the power of two that divides it.
    pub fn divide(&self) -> (r: (u128, u128))
        ensures
            (r.0 as nat, r.1 as nat) == self.size(),
            r.0 <= TWO_53,
            0 < r.1 <= TWO_53 * 0xffff_ffff,
    {
        let den: u32 = if self.den == 0 {
            1
        } else {
            magnitude_of(self.den)
        };
        let r = binary64::divide(magnitude_of(self.num) as u64, den);
        assert(TWO_53 * den <= TWO_53 * 0xffff_ffff) by (nonlinear_arith)
            requires
                den <= 0xffff_ffffu32,
        ;
        r
    }
}

/// A part of a whole, told in percent: 100 times the quotient, and at most 100.
#[derive(Debug, Clone, Copy, PartialEq, Eq, Structural)]
pub struct Share {
    pub part: u64,
    pub whole: u64,
}

/// What was detected about the media of an ingest source.
///
/// Durations are counted in microseconds.
#[derive(Debug, Clone, Copy, PartialEq, Eq, Structural)]
pub struct MediaInfo {
    pub stream_id: StreamId,
    pub video_codec: VideoCodec,
    pub video_width: u32,
    pub video_height: u32,
    pub video_bitrate_kbps: Option<u32>,
    pub frame_rate: FrameRate,
    pub audio_codec: Option<AudioCodec>,
    pub audio_sample_rate: Option<u32>,
    pub audio_channels: Option<u8>,
    pub audio_bitrate_kbps: Option<u32>,
    pub duration_micros: Option<u64>,
    pub container: Container,
}

/// How a stream comes in.
#[derive(Debug, Clone, Copy, PartialEq, Eq, Structural)]
pub enum IngestMode {
    Live,
    Vod,
}

impl IngestMode {
    pub open spec fn name(self) -> Seq<char> {
        match self {
            IngestMode::Live => "live"@,
            IngestMode::Vod => "vod"@,
        }
    }

    /// The name of the mode.
    pub fn as_str(&self) -> (r: &'static str)
        ensures
            r@ == self.name(),
    {
        match self {
            IngestMode::Live => "live",
            IngestMode::Vod => "vod",
        }
    }
}

/// What is known of a stream throughout its life. Points in time are nanoseconds since the Unix
/// epoch.
#[derive(Debug, Clone, Copy, PartialEq, Eq, Structural)]
pub struct StreamMetadata {
    pub stream_id: StreamId,
    pub ingest_mode: IngestMode,
    pub media_info: Option<MediaInfo>,
    pub created_at: i128,
    pub started_at: Option<i128>,
    pub ended_at: Option<i128>,
}

impl StreamMetadata {
    /// A stream that was created at `now` and has neither started nor ended.
    pub open spec fn fresh(stream_id: StreamId, ingest_mode: IngestMode, now: i128) -> Self {
        StreamMetadata {
            stream_id,
            ingest_mode,
            media_info: None,
            created_at: now,
            started_at: None,
            ended_at: None,
        }
    }

    /// A stream created now.
    pub fn new(stream_id: StreamId, ingest_mode: IngestMode) -> (r: Self)
        ensures
            r == Self::fresh(stream_id, ingest_mode, r.created_at),
    {
        StreamMetadata::created(stream_id, ingest_mode, clock::now())
    }

    /// A stream created at `now`.
    pub fn created(stream_id: StreamId, ingest_mode: IngestMode, now: i128) -> (r: Self)
        ensures
            r == Self::fresh(stream_id, ingest_mode, now),
    {
        StreamMetadata {
            stream_id,
            ingest_mode,
            media_info: None,
            created_at: now,
            started_at: None,
            ended_at: None,
        }
    }
}

// ---------------------------------------------------------------------------
// Pipeline messages
// ---------------------------------------------------------------------------

/// Ticks per second of presentation and decode timestamps.
pub const TICKS_PER_SEC: i64 = 90_000;

/// A demuxed frame of the ingest source, on its way to the transcoder.
#[derive(Debug)]
pub struct DemuxedFrame {
    pub stream_id: StreamId,
    pub track: Track,
    /// Presentation timestamp in ticks of 1/90000 s.
    pub pts: i64,
    /// Decode timestamp in ticks of 1/90000 s.
    pub dts: i64,
    /// True for an IDR frame (video only).
    pub keyframe: bool,
    /// Start-code delimited units (video) or one raw AAC or MP3 frame (audio).
    pub data: Bytes,
}

/// What a demuxed frame says.
#[verifier::ext_equal]
pub struct FrameModel {
    pub stream_id: StreamId,
    pub track: Track,
    pub pts: i64,
    pub dts: i64,
    pub keyframe: bool,
    pub data: Seq<u8>,
}

impl View for DemuxedFrame {
    type V = FrameModel;

    open spec fn view(&self) -> FrameModel {
        FrameModel {
            stream_id: self.stream_id,
            track: self.track,
            pts: self.pts,
            dts: self.dts,
            keyframe: self.keyframe,
            data: bytes_seq(self.data),
        }
    }
}

/// An encoded segment of one rendition, on its way to the packager.
#[derive(Debug)]
pub struct EncodedSegment {
    pub stream_id: StreamId,
    pub rendition: RenditionId,
    /// Counts from 0 and grows by one per segment of a rendition.
    pub sequence: u64,
    /// Duration in ticks of 1/90000 s.
    pub duration_ticks: i64,
    /// Presentation timestamp of the first frame, in ticks of 1/90000 s.
    pub pts_start: i64,
    pub video_data: Bytes,
    /// `None` if the segment has no audio.
    pub audio_data: Option<Bytes>,
    /// True for the final segment of the rendition.
    pub is_last: bool,
    pub width: u32,
    pub height: u32,
    pub video_bitrate_kbps: u32,
    pub audio_bitrate_kbps: u32,
    /// H.264 profile name, such as "high".
    pub profile: String,
    /// H.264 level, such as "4.1".
    pub level: String,
    pub frame_rate: FrameRate,
}

/// What an encoded segment says.
#[verifier::ext_equal]
pub struct SegmentModel {
    pub stream_id: StreamId,
    pub rendition: RenditionId,
    pub sequence: nat,
    pub duration_ticks: int,
    pub pts_start: int,
    pub video: Seq<u8>,
    /// `None` if the segment has no audio.
    pub audio: Option<Seq<u8>>,
    pub is_last: bool,
    pub width: u32,
    pub height: u32,
    pub video_bitrate_kbps: u32,
    pub audio_bitrate_kbps: u32,
    pub profile: Seq<char>,
    pub level: Seq<char>,
    pub frame_rate: FrameRate,
}

impl View for EncodedSegment {
    type V = SegmentModel;

    open spec fn view(&self) -> SegmentModel {
        SegmentModel {
            stream_id: self.stream_id,
            rendition: self.rendition,
            sequence: self.sequence as nat,
            duration_ticks: self.duration_ticks as int,
            pts_start: self.pts_start as int,
            video: bytes_seq(self.video_data),
            audio: match self.audio_data {
                Some(a) => Some(bytes_seq(a)),
                None => None,
            },
            is_last: self.is_last,
            width: self.width,
            height: self.height,
            video_bitrate_kbps: self.video_bitrate_kbps,
            audio_bitrate_kbps: self.audio_bitrate_kbps,
            profile: self.profile@,
            level: self.level@,
            frame_rate: self.frame_rate,
        }
    }
}

/// A write to storage, on its way from the packager.
#[derive(Debug)]
pub struct StorageWrite {
    pub path: String,
    pub data: Bytes,
    pub content_type: String,
}

/// What a write stores, and where.
#[verifier::ext_equal]
pub struct WriteModel {
    pub path: Seq<char>,
    pub data: Seq<u8>,
    pub content_type: Seq<char>,
}

impl View for StorageWrite {
    type V = WriteModel;

    open spec fn view(&self) -> WriteModel {
        WriteModel {
            path: self.path@,
            data: bytes_seq(self.data),
            content_type: self.content_type@,
        }
    }
}

// ---------------------------------------------------------------------------
// Channel capacities
// ---------------------------------------------------------------------------

/// Capacity of the channel from ingest to transcode.
pub const INGEST_TRANSCODE_CHANNEL_CAP: usize = 64;

/// Capacity of the channel from transcode to packager.
pub const TRANSCODE_PACKAGER_CHANNEL_CAP: usize = 32;

/// Capacity of the channel from packager to storage.
pub const PACKAGER_STORAGE_CHANNEL_CAP: usize = 32;

} // verus!
