//! Which uploads and streams are accepted.

use vstd::prelude::*;
use vstd::string::*;

use crate::common::config::IngestConfig;
use crate::common::error::{IngestError, IngestFault};
use crate::common::types::{AudioCodec, Container, FrameRate, MediaInfo, StreamId, VideoCodec};
use crate::text;
use crate::text::{decimal, views};

verus! {

/// Largest accepted video width.
pub const MAX_RESOLUTION_WIDTH: u32 = 3840;

/// Largest accepted video height.
pub const MAX_RESOLUTION_HEIGHT: u32 = 2160;

/// What a probe found in an uploaded file. Frame rates are in thousandths of a frame per second,
/// durations in microseconds.
#[derive(Debug, Clone, Copy, PartialEq, Eq, Structural)]
pub struct ProbeResult {
    pub container: Container,
    pub video_codec: VideoCodec,
    pub video_width: u32,
    pub video_height: u32,
    pub frame_rate: FrameRate,
    pub audio_codec: Option<AudioCodec>,
    pub audio_sample_rate: Option<u32>,
    pub audio_channels: Option<u8>,
    pub duration_micros: Option<u64>,
    pub video_bitrate_kbps: Option<u32>,
    pub audio_bitrate_kbps: Option<u32>,
}

impl ProbeResult {
    /// The media information of a stream with this probe.
    pub open spec fn media_info(self, stream_id: StreamId) -> MediaInfo {
        MediaInfo {
            stream_id,
            video_codec: self.video_codec,
            video_width: self.video_width,
            video_height: self.video_height,
            video_bitrate_kbps: self.video_bitrate_kbps,
            frame_rate: self.frame_rate,
            audio_codec: self.audio_codec,
            audio_sample_rate: self.audio_sample_rate,
            audio_channels: self.audio_channels,
            audio_bitrate_kbps: self.audio_bitrate_kbps,
            duration_micros: self.duration_micros,
            container: self.container,
        }
    }

    /// The media information of a stream with this probe.
    pub fn to_media_info(&self, stream_id: StreamId) -> (r: MediaInfo)
        ensures
            r == self.media_info(stream_id),
    {
        MediaInfo {
            stream_id,
            video_codec: self.video_codec,
            video_width: self.video_width,
            video_height: self.video_height,
            video_bitrate_kbps: self.video_bitrate_kbps,
            frame_rate: self.frame_rate,
            audio_codec: self.audio_codec,
            audio_sample_rate: self.audio_sample_rate,
            audio_channels: self.audio_channels,
            audio_bitrate_kbps: self.audio_bitrate_kbps,
            duration_micros: self.duration_micros,
            container: self.container,
        }
    }
}

/// What is wrong with an upload, if anything. Container, video codec, audio codec, duration and
/// resolution are looked at in this order.
pub open spec fn upload_fault(p: ProbeResult, config: IngestConfig) -> Option<IngestFault> {
    if p.container == Container::Flv {
        Some(IngestFault::UnsupportedFormat { format: p.container.name() })
    } else if !views(config.allowed_codecs@).contains(p.video_codec.name()) {
        Some(IngestFault::UnsupportedCodec { codec: p.video_codec.name() })
    } else if p.audio_codec is Some && !views(config.allowed_audio_codecs@).contains(
        p.audio_codec->0.name(),
    ) {
        Some(IngestFault::UnsupportedCodec { codec: p.audio_codec->0.name() })
    } else if p.duration_micros is Some && p.duration_micros->0 > config.max_duration_micros {
        Some(
            IngestFault::DurationExceeded {
                duration_micros: p.duration_micros->0,
                max_micros: config.max_duration_micros,
            },
        )
    } else if p.video_width == 0 || p.video_height == 0 || p.video_width > MAX_RESOLUTION_WIDTH
        || p.video_height > MAX_RESOLUTION_HEIGHT {
        Some(IngestFault::InvalidResolution { width: p.video_width, height: p.video_height })
    } else {
        None
    }
}

/// Whether a name stands in a list.
pub fn listed(names: &Vec<String>, name: &str) -> (r: bool)
    ensures
        r == views(names@).contains(name@),
{
    let mut i: usize = 0;
    while i < names.len()
        invariant
            i <= names@.len(),
            forall|j: int| 0 <= j < i ==> (#[trigger] names@[j])@ != name@,
        decreases names@.len() - i,
    {
        if text::same(&names[i], name) {
            assert(views(names@)[i as int] == name@);
            return true;
        }
        i = i + 1;
    }
    assert forall|j: int| 0 <= j < views(names@).len() implies views(names@)[j] != name@ by {
        assert(names@[j]@ != name@);
    }
    false
}

/// Checks an upload against the configured rules.
pub fn validate_upload(probe: &ProbeResult, config: &IngestConfig) -> (r: Result<(), IngestError>)
    ensures
        r is Ok <==> upload_fault(*probe, *config) is None,
        r matches Err(e) ==> upload_fault(*probe, *config) == Some(e@),
{
    match probe.container {
        Container::Mp4 | Container::Mkv => {},
        Container::Flv => {
            return Err(
                IngestError::UnsupportedFormat { format: text::owned(probe.container.as_str()) },
            );
        },
    }
    if !listed(&config.allowed_codecs, probe.video_codec.as_str()) {
        return Err(
            IngestError::UnsupportedCodec { codec: text::owned(probe.video_codec.as_str()) },
        );
    }
    if let Some(audio) = probe.audio_codec {
        if !listed(&config.allowed_audio_codecs, audio.as_str()) {
            return Err(IngestError::UnsupportedCodec { codec: text::owned(audio.as_str()) });
        }
    }
    if let Some(duration) = probe.duration_micros {
        if duration > config.max_duration_micros {
            return Err(
                IngestError::DurationExceeded {
                    duration_micros: duration,
                    max_micros: config.max_duration_micros,
                },
            );
        }
    }
    if probe.video_width == 0 || probe.video_height == 0 || probe.video_width
        > MAX_RESOLUTION_WIDTH || probe.video_height > MAX_RESOLUTION_HEIGHT {
        return Err(
            IngestError::InvalidResolution {
                width: probe.video_width,
                height: probe.video_height,
            },
        );
    }
    Ok(())
}

/// The error for a video codec other than H.264, by its FLV number.
pub open spec fn wrong_video_codec(id: u8) -> IngestFault {
    IngestFault::InvalidCodec {
        expected: "h264 (CodecID=7)"@,
        actual: "CodecID="@ + decimal(id as nat),
    }
}

/// The error for a video codec other than H.264.
pub fn wrong_video_codec_error(id: u8) -> (r: IngestError)
    ensures
        r@ == wrong_video_codec(id),
{
    let mut actual = text::owned("CodecID=");
    text::push_decimal(&mut actual, id as u64);
    IngestError::InvalidCodec { expected: text::owned("h264 (CodecID=7)"), actual }
}

/// What is wrong with the codecs of a live stream, if anything: video must be H.264 (7), audio
/// AAC (10) or MP3 (2).
pub open spec fn rtmp_codec_fault(video: u8, audio: Option<u8>) -> Option<IngestFault> {
    if video != 7 {
        Some(wrong_video_codec(video))
    } else if audio is Some && audio->0 != 10 && audio->0 != 2 {
        Some(
            IngestFault::UnsupportedCodec { codec: "SoundFormat="@ + decimal(audio->0 as nat) },
        )
    } else {
        None
    }
}

/// Checks the codecs of a live stream, by their FLV numbers.
pub fn validate_rtmp_codecs(video_codec_id: u8, audio_sound_format: Option<u8>) -> (r: Result<
    (),
    IngestError,
>)
    ensures
        r is Ok <==> rtmp_codec_fault(video_codec_id, audio_sound_format) is None,
        r matches Err(e) ==> rtmp_codec_fault(video_codec_id, audio_sound_format) == Some(e@),
{
    if video_codec_id != 7 {
        return Err(wrong_video_codec_error(video_codec_id));
    }
    if let Some(fmt) = audio_sound_format {
        if fmt != 10 && fmt != 2 {
            let mut codec = text::owned("SoundFormat=");
            text::push_decimal(&mut codec, fmt as u64);
            return Err(IngestError::UnsupportedCodec { codec });
        }
    }
    Ok(())
}

/// A live stream needs H.264, and AAC or MP3 where it has audio.
pub proof fn live_codecs_are_few(video: u8, audio: Option<u8>)
    ensures
        rtmp_codec_fault(video, audio) is None <==> video == 7 && (audio is None || audio == Some(
            10u8,
        ) || audio == Some(2u8)),
{
}

} // verus!
