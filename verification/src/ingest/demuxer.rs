//! FLV tags into elementary frames.

use bytes::Bytes;
use vstd::prelude::*;
use vstd::string::*;

use crate::buffer::{bytes_copy, bytes_from_vec, bytes_seq, bytes_slice};
use crate::common::error::{IngestError, IngestFault};
use crate::common::security::MAX_FLV_TAG_SIZE;
use crate::common::types::{AudioCodec, DemuxedFrame, FrameModel, StreamId, Track, VideoCodec};
use crate::ingest::rtmp::{MessageModel, RtmpMessage, RtmpMessageType};
use crate::ingest::validator;
use crate::ingest::validator::wrong_video_codec;
use crate::text;
use crate::text::decimal;

verus! {

// ---------------------------------------------------------------------------
// FLV numbers
// ---------------------------------------------------------------------------

/// Codec number of H.264.
pub const FLV_CODEC_ID_H264: u8 = 7;

/// Sound format of AAC.
pub const FLV_SOUND_FORMAT_AAC: u8 = 10;

/// Sound format of MP3.
pub const FLV_SOUND_FORMAT_MP3: u8 = 2;

/// H.264 unit type of an IDR slice.
pub const NAL_TYPE_IDR: u8 = 5;

// ---------------------------------------------------------------------------
// Units: length-prefixed to start-code delimited
// ---------------------------------------------------------------------------

/// The two-byte number at `pos`.
pub open spec fn num16(s: Seq<u8>, pos: int) -> int {
    s[pos] * 0x100 + s[pos + 1]
}

/// The three-byte number at `pos`.
pub open spec fn num24(s: Seq<u8>, pos: int) -> int {
    s[pos] * 0x10000 + s[pos + 1] * 0x100 + s[pos + 2]
}

/// The four-byte number at `pos`.
pub open spec fn num32(s: Seq<u8>, pos: int) -> int {
    s[pos] * 0x1000000 + s[pos + 1] * 0x10000 + s[pos + 2] * 0x100 + s[pos + 3]
}

/// What a run of length-prefixed units holds.
#[verifier::ext_equal]
pub enum Units {
    /// These units; fewer than four bytes may be left over.
    All(Seq<Seq<u8>>),
    /// A length of `len` at a place where only `left` bytes follow, at offset `at`.
    Cut { len: int, left: int, at: int },
}

/// The units from `pos` on, each behind a length of four bytes.
pub open spec fn units_from(data: Seq<u8>, pos: int) -> Units
    decreases data.len() - pos,
{
    if pos < 0 || pos + 4 > data.len() {
        Units::All(Seq::empty())
    } else {
        let len = num32(data, pos);
        let start = pos + 4;
        if start + len > data.len() {
            Units::Cut { len, left: data.len() - start, at: start }
        } else {
            match units_from(data, start + len) {
                Units::All(rest) => Units::All(seq![data.subrange(start, start + len)] + rest),
                cut => cut,
            }
        }
    }
}

/// One unit behind a start code; an empty one leaves no trace.
pub open spec fn delimited(unit: Seq<u8>) -> Seq<u8> {
    if unit.len() == 0 {
        Seq::empty()
    } else {
        seq![0u8, 0u8, 0u8, 1u8] + unit
    }
}

/// All units behind start codes.
pub open spec fn annex_b(units: Seq<Seq<u8>>) -> Seq<u8>
    decreases units.len(),
{
    if units.len() == 0 {
        Seq::empty()
    } else {
        annex_b(units.drop_last()) + delimited(units.last())
    }
}

/// The unit is an IDR slice.
pub open spec fn is_idr(unit: Seq<u8>) -> bool {
    unit.len() > 0 && unit[0] % 32 == NAL_TYPE_IDR
}

/// One of the units is an IDR slice.
pub open spec fn has_idr(units: Seq<Seq<u8>>) -> bool {
    exists|i: int| 0 <= i < units.len() && is_idr(#[trigger] units[i])
}

/// The text for a unit that is cut off.
pub open spec fn cut_text(len: int, left: int, at: int) -> Seq<char> {
    "NALU length "@ + decimal(len as nat) + " exceeds remaining data "@ + decimal(left as nat)
        + " at offset "@ + decimal(at as nat)
}

/// `done`, then what `u` holds.
pub open spec fn after_units(done: Seq<Seq<u8>>, u: Units) -> Units {
    match u {
        Units::All(rest) => Units::All(done + rest),
        cut => cut,
    }
}

/// Units written one after the other, each behind its length.
pub open spec fn length_prefixed(units: Seq<Seq<u8>>) -> Seq<u8>
    decreases units.len(),
{
    if units.len() == 0 {
        Seq::empty()
    } else {
        crate::buffer::be32(units[0].len() as u32) + units[0] + length_prefixed(units.drop_first())
    }
}

pub(crate) proof fn lemma_units_shift(a: Seq<u8>, b: Seq<u8>, pos: int)
    requires
        0 <= pos,
    ensures
        units_from(a + b, a.len() + pos) == match units_from(b, pos) {
            Units::All(u) => Units::All(u),
            Units::Cut { len, left, at } => Units::Cut { len, left, at: at + a.len() },
        },
    decreases b.len() - pos,
{
    let s = a + b;
    if pos + 4 <= b.len() {
        let len = num32(b, pos);
        assert(num32(s, a.len() + pos) == len);
        if pos + 4 + len <= b.len() {
            lemma_units_shift(a, b, pos + 4 + len);
            assert(s.subrange(a.len() + pos + 4, a.len() + pos + 4 + len) =~= b.subrange(
                pos + 4,
                pos + 4 + len,
            ));
        }
    }
}

/// Units that were written length-prefixed are found again, in order.
pub proof fn length_prefixed_units_are_found(units: Seq<Seq<u8>>)
    requires
        forall|i: int| 0 <= i < units.len() ==> (#[trigger] units[i]).len() < 0x1_0000_0000,
    ensures
        units_from(length_prefixed(units), 0) == Units::All(units),
    decreases units.len(),
{
    let s = length_prefixed(units);
    if units.len() > 0 {
        let first = units[0];
        let rest = units.drop_first();
        assert forall|i: int| 0 <= i < rest.len() implies (#[trigger] rest[i]).len()
            < 0x1_0000_0000 by {
            assert(rest[i] == units[i + 1]);
        }
        length_prefixed_units_are_found(rest);
        let head = crate::buffer::be32(first.len() as u32) + first;
        lemma_units_shift(head, length_prefixed(rest), 0);
        assert(num32(s, 0) == first.len());
        assert(s.subrange(4, 4 + first.len() as int) =~= first);
        assert(seq![first] + rest =~= units);
    }
}

fn read_u16(data: &[u8], pos: usize) -> (r: usize)
    requires
        pos + 2 <= data@.len(),
    ensures
        r == num16(data@, pos as int),
        r < 0x10000,
{
    data[pos] as usize * 0x100 + data[pos + 1] as usize
}

fn read_u32(data: &[u8], pos: usize) -> (r: u32)
    requires
        pos + 4 <= data@.len(),
    ensures
        r == num32(data@, pos as int),
{
    data[pos] as u32 * 0x1000000 + data[pos + 1] as u32 * 0x10000 + data[pos + 2] as u32 * 0x100
        + data[pos + 3] as u32
}

fn push_slice(out: &mut Vec<u8>, data: &[u8], from: usize, to: usize)
    requires
        from <= to <= data@.len(),
    ensures
        final(out)@ == old(out)@ + data@.subrange(from as int, to as int),
{
    let mut i: usize = from;
    assert(out@ =~= old(out)@ + data@.subrange(from as int, from as int));
    while i < to
        invariant
            from <= i <= to <= data@.len(),
            out@ == old(out)@ + data@.subrange(from as int, i as int),
        decreases to - i,
    {
        out.push(data[i]);
        i = i + 1;
        assert(out@ =~= old(out)@ + data@.subrange(from as int, i as int));
    }
}

// ---------------------------------------------------------------------------
// The demuxer
// ---------------------------------------------------------------------------

/// Turns the FLV tags of a live stream into frames, with timestamps in ticks of 1/90000 s from
/// the first one.
#[derive(Debug)]
pub struct FlvDemuxer {
    pub stream_id: StreamId,
    /// Whether the video configuration has come.
    pub has_video_seq_header: bool,
    /// Whether the audio configuration has come.
    pub has_audio_seq_header: bool,
    /// The latest sequence parameter set.
    pub sps: Option<Bytes>,
    /// The latest picture parameter set.
    pub pps: Option<Bytes>,
    pub video_width: u32,
    pub video_height: u32,
    pub audio_sample_rate: u32,
    pub audio_channels: u8,
    pub audio_codec: Option<AudioCodec>,
    /// The first timestamp, which counts as 0.
    pub first_pts: Option<i64>,
}

/// What a demuxer knows.
#[verifier::ext_equal]
pub struct DemuxModel {
    pub stream_id: StreamId,
    pub has_video_seq_header: bool,
    pub has_audio_seq_header: bool,
    pub sps: Option<Seq<u8>>,
    pub pps: Option<Seq<u8>>,
    pub video_width: u32,
    pub video_height: u32,
    pub audio_sample_rate: u32,
    pub audio_channels: u8,
    pub audio_codec: Option<AudioCodec>,
    pub first_pts: Option<i64>,
}

/// What an optional run of bytes holds.
pub open spec fn opt_bytes(b: Option<Bytes>) -> Option<Seq<u8>> {
    match b {
        Some(x) => Some(bytes_seq(x)),
        None => None,
    }
}

impl View for FlvDemuxer {
    type V = DemuxModel;

    open spec fn view(&self) -> DemuxModel {
        DemuxModel {
            stream_id: self.stream_id,
            has_video_seq_header: self.has_video_seq_header,
            has_audio_seq_header: self.has_audio_seq_header,
            sps: opt_bytes(self.sps),
            pps: opt_bytes(self.pps),
            video_width: self.video_width,
            video_height: self.video_height,
            audio_sample_rate: self.audio_sample_rate,
            audio_channels: self.audio_channels,
            audio_codec: self.audio_codec,
            first_pts: self.first_pts,
        }
    }
}

/// What comes of a tag.
#[verifier::ext_equal]
pub enum Demuxed {
    Nothing,
    Frame(FrameModel),
    Fault(IngestFault),
}

/// The parameter sets behind `pos`, at most `count` of them, and where they end.
pub open spec fn parameter_sets(data: Seq<u8>, pos: int, count: nat) -> (Seq<Seq<u8>>, int)
    decreases count,
{
    if count == 0 || pos + 2 > data.len() {
        (Seq::empty(), pos)
    } else {
        let len = num16(data, pos);
        if pos + 2 + len > data.len() {
            (Seq::empty(), pos + 2)
        } else {
            let rest = parameter_sets(data, pos + 2 + len, (count - 1) as nat);
            (seq![data.subrange(pos + 2, pos + 2 + len)] + rest.0, rest.1)
        }
    }
}

/// The last set, or what was there before.
pub open spec fn last_or(sets: Seq<Seq<u8>>, before: Option<Seq<u8>>) -> Option<Seq<u8>> {
    if sets.len() == 0 {
        before
    } else {
        Some(sets.last())
    }
}

/// One of the sets is long enough to hold dimensions.
pub open spec fn has_long_set(sets: Seq<Seq<u8>>) -> bool {
    exists|i: int| 0 <= i < sets.len() && (#[trigger] sets[i]).len() > 4
}

/// A resolution outside the limits.
pub open spec fn bad_resolution(width: u32, height: u32) -> bool {
    width == 0 || height == 0 || width > 3840 || height > 2160
}

impl DemuxModel {
    /// The sequence parameter sets of a decoder configuration, and where they end.
    pub open spec fn config_sps(data: Seq<u8>) -> (Seq<Seq<u8>>, int) {
        parameter_sets(data, 6, (data[5] % 32) as nat)
    }

    /// The picture parameter sets of a decoder configuration.
    pub open spec fn config_pps(data: Seq<u8>) -> Seq<Seq<u8>> {
        let at = Self::config_sps(data).1;
        if at < data.len() {
            parameter_sets(data, at + 1, data[at] as nat).0
        } else {
            Seq::empty()
        }
    }

    /// What is known after a decoder configuration of at least seven bytes: the last parameter
    /// set of each kind; the dimensions become 1920 by 1080 where the width was unknown and a
    /// sequence parameter set of more than four bytes came.
    pub open spec fn configured(self, data: Seq<u8>) -> Self {
        let sps = Self::config_sps(data).0;
        let sized = self.video_width == 0 && has_long_set(sps);
        DemuxModel {
            sps: last_or(sps, self.sps),
            pps: last_or(Self::config_pps(data), self.pps),
            video_width: if sized {
                1920
            } else {
                self.video_width
            },
            video_height: if sized {
                1080
            } else {
                self.video_height
            },
            ..self
        }
    }

    /// The state and the outcome after a decoder configuration.
    pub open spec fn with_video_config(self, data: Seq<u8>) -> (Self, Demuxed) {
        if data.len() < 7 {
            (
                self,
                Demuxed::Fault(
                    IngestFault::CorruptNalu { reason: "AVC decoder config too short"@ },
                ),
            )
        } else {
            let c = self.configured(data);
            if bad_resolution(c.video_width, c.video_height) {
                (
                    c,
                    Demuxed::Fault(
                        IngestFault::InvalidResolution {
                            width: c.video_width,
                            height: c.video_height,
                        },
                    ),
                )
            } else {
                (DemuxModel { has_video_seq_header: true, ..c }, Demuxed::Nothing)
            }
        }
    }

    /// A timestamp counted from the first one.
    pub open spec fn relative(self, pts: int) -> int {
        match self.first_pts {
            Some(first) => pts - first,
            None => 0,
        }
    }

    /// What is known after a timestamp.
    pub open spec fn timed(self, pts: int) -> Self {
        DemuxModel {
            first_pts: match self.first_pts {
                Some(first) => Some(first),
                None => Some(pts as i64),
            },
            ..self
        }
    }

    /// The state and the outcome after a video tag.
    pub open spec fn with_video(self, data: Seq<u8>, timestamp_ms: u32) -> (Self, Demuxed) {
        if data.len() < 5 {
            (
                self,
                Demuxed::Fault(IngestFault::CorruptNalu { reason: "video tag too short"@ }),
            )
        } else if data[0] % 16 != FLV_CODEC_ID_H264 {
            (self, Demuxed::Fault(wrong_video_codec((data[0] % 16) as u8)))
        } else if data[1] == 0 {
            self.with_video_config(data.subrange(5, data.len() as int))
        } else if data[1] == 1 && self.has_video_seq_header {
            match units_from(data.subrange(5, data.len() as int), 0) {
                Units::Cut { len, left, at } => (
                    self,
                    Demuxed::Fault(IngestFault::CorruptNalu { reason: cut_text(len, left, at) }),
                ),
                Units::All(units) => {
                    let pts = (timestamp_ms + composition_ms(data)) * 90;
                    let after = self.timed(pts);
                    (
                        after,
                        Demuxed::Frame(
                            FrameModel {
                                stream_id: self.stream_id,
                                track: Track::Video {
                                    codec: VideoCodec::H264,
                                    width: self.video_width,
                                    height: self.video_height,
                                },
                                pts: self.relative(pts) as i64,
                                dts: after.relative(timestamp_ms * 90) as i64,
                                keyframe: has_idr(units) || data[0] / 16 == 1,
                                data: annex_b(units),
                            },
                        ),
                    )
                },
            }
        } else {
            (self, Demuxed::Nothing)
        }
    }

    /// What is known after an audio configuration; one of less than two bytes says nothing.
    pub open spec fn with_audio_config(self, data: Seq<u8>) -> Self {
        if data.len() < 2 {
            self
        } else {
            DemuxModel {
                audio_sample_rate: sample_rate_of(data[0] % 8 * 2 + data[1] / 128),
                audio_channels: if data[1] / 8 % 16 == 1 {
                    1
                } else {
                    2
                },
                ..self
            }
        }
    }

    /// An audio frame of the given codec.
    pub open spec fn audio_frame(
        self,
        codec: AudioCodec,
        timestamp_ms: u32,
        data: Seq<u8>,
    ) -> FrameModel {
        let pts = self.relative(timestamp_ms * 90) as i64;
        FrameModel {
            stream_id: self.stream_id,
            track: Track::Audio {
                codec,
                sample_rate: self.audio_sample_rate,
                channels: self.audio_channels,
            },
            pts,
            dts: pts,
            keyframe: true,
            data,
        }
    }

    /// The state and the outcome after an audio tag.
    pub open spec fn with_audio(self, data: Seq<u8>, timestamp_ms: u32) -> (Self, Demuxed) {
        if data.len() == 0 {
            (self, Demuxed::Nothing)
        } else if data[0] / 16 == FLV_SOUND_FORMAT_AAC {
            if data.len() >= 2 && data[1] == 0 {
                (
                    DemuxModel {
                        audio_codec: Some(AudioCodec::Aac),
                        has_audio_seq_header: true,
                        ..self.with_audio_config(data.subrange(2, data.len() as int))
                    },
                    Demuxed::Nothing,
                )
            } else if data.len() >= 2 && data[1] == 1 && self.has_audio_seq_header {
                (
                    self.timed(timestamp_ms * 90),
                    Demuxed::Frame(
                        self.audio_frame(
                            AudioCodec::Aac,
                            timestamp_ms,
                            data.subrange(2, data.len() as int),
                        ),
                    ),
                )
            } else {
                (self, Demuxed::Nothing)
            }
        } else if data[0] / 16 == FLV_SOUND_FORMAT_MP3 {
            (
                DemuxModel { audio_codec: Some(AudioCodec::Mp3), ..self.timed(timestamp_ms * 90) },
                Demuxed::Frame(
                    self.audio_frame(
                        AudioCodec::Mp3,
                        timestamp_ms,
                        data.subrange(1, data.len() as int),
                    ),
                ),
            )
        } else {
            (self, Demuxed::Nothing)
        }
    }

    /// The state and the outcome after a message.
    pub open spec fn with_tag(self, msg: MessageModel) -> (Self, Demuxed) {
        if msg.data.len() == 0 {
            (self, Demuxed::Nothing)
        } else if msg.data.len() > MAX_FLV_TAG_SIZE {
            (
                self,
                Demuxed::Fault(
                    IngestFault::CorruptNalu {
                        reason: "FLV tag size "@ + decimal(msg.data.len()) + " exceeds max "@
                            + decimal(MAX_FLV_TAG_SIZE as nat),
                    },
                ),
            )
        } else if msg.msg_type == RtmpMessageType::Video {
            self.with_video(msg.data, msg.timestamp)
        } else if msg.msg_type == RtmpMessageType::Audio {
            self.with_audio(msg.data, msg.timestamp)
        } else {
            (self, Demuxed::Nothing)
        }
    }
}

/// The composition time of a video tag in milliseconds: a signed number of three bytes.
pub open spec fn composition_ms(data: Seq<u8>) -> int {
    if data[2] >= 0x80 {
        num24(data, 2) - 0x1000000
    } else {
        num24(data, 2)
    }
}

/// The sample rate that an index stands for.
pub open spec fn sample_rate_of(index: int) -> u32 {
    if index == 0 {
        96000
    } else if index == 1 {
        88200
    } else if index == 2 {
        64000
    } else if index == 3 {
        48000
    } else if index == 4 {
        44100
    } else if index == 5 {
        32000
    } else if index == 6 {
        24000
    } else if index == 7 {
        22050
    } else if index == 8 {
        16000
    } else if index == 9 {
        12000
    } else if index == 10 {
        11025
    } else if index == 11 {
        8000
    } else {
        44100
    }
}

/// The outcome that a result stands for.
pub open spec fn outcome(r: Result<Option<DemuxedFrame>, IngestError>) -> Demuxed {
    match r {
        Ok(Some(f)) => Demuxed::Frame(f@),
        Ok(None) => Demuxed::Nothing,
        Err(e) => Demuxed::Fault(e@),
    }
}

impl FlvDemuxer {
    /// The first timestamp lies in the range that FLV timestamps span.
    pub open spec fn wf(self) -> bool {
        self.first_pts matches Some(first) ==> -0x4000_0000_0000_0000 <= first
            <= 0x4000_0000_0000_0000
    }

    /// What is known before the first tag.
    pub open spec fn fresh(stream_id: StreamId) -> DemuxModel {
        DemuxModel {
            stream_id,
            has_video_seq_header: false,
            has_audio_seq_header: false,
            sps: None,
            pps: None,
            video_width: 0,
            video_height: 0,
            audio_sample_rate: 44100,
            audio_channels: 2,
            audio_codec: None,
            first_pts: None,
        }
    }

    /// A demuxer before its first tag.
    pub fn new(stream_id: StreamId) -> (r: Self)
        ensures
            r.wf(),
            r@ == Self::fresh(stream_id),
    {
        FlvDemuxer {
            stream_id,
            has_video_seq_header: false,
            has_audio_seq_header: false,
            sps: None,
            pps: None,
            video_width: 0,
            video_height: 0,
            audio_sample_rate: 44100,
            audio_channels: 2,
            audio_codec: None,
            first_pts: None,
        }
    }

    /// Whether the video configuration has come.
    pub fn has_sequence_header(&self) -> (r: bool)
        ensures
            r == self@.has_video_seq_header,
    {
        self.has_video_seq_header
    }

    /// Demuxes one message. Configuration and foreign data give no frame; broken data is an
    /// error.
    pub fn demux_flv_tag(&mut self, msg: &RtmpMessage) -> (r: Result<
        Option<DemuxedFrame>,
        IngestError,
    >)
        requires
            old(self).wf(),
        ensures
            final(self).wf(),
            (final(self)@, outcome(r)) == old(self)@.with_tag(msg@),
    {
        let data = bytes_slice(&msg.data);
        if data.len() == 0 {
            return Ok(None);
        }
        if data.len() > MAX_FLV_TAG_SIZE {
            let mut reason = text::owned("FLV tag size ");
            text::push_decimal(&mut reason, data.len() as u64);
            reason.append(" exceeds max ");
            text::push_decimal(&mut reason, MAX_FLV_TAG_SIZE as u64);
            return Err(IngestError::CorruptNalu { reason });
        }
        match msg.msg_type {
            RtmpMessageType::Video => self.demux_video(data, msg.timestamp),
            RtmpMessageType::Audio => self.demux_audio(data, msg.timestamp),
            _ => Ok(None),
        }
    }

    fn demux_video(&mut self, data: &[u8], timestamp_ms: u32) -> (r: Result<
        Option<DemuxedFrame>,
        IngestError,
    >)
        requires
            old(self).wf(),
        ensures
            final(self).wf(),
            (final(self)@, outcome(r)) == old(self)@.with_video(data@, timestamp_ms),
    {
        if data.len() < 5 {
            return Err(IngestError::CorruptNalu { reason: text::owned("video tag too short") });
        }
        let codec_id: u8 = data[0] % 16;
        let frame_type: u8 = data[0] / 16;
        if codec_id != FLV_CODEC_ID_H264 {
            return Err(validator::wrong_video_codec_error(codec_id));
        }
        let body = vstd::slice::slice_subrange(data, 5, data.len());
        if data[1] == 0 {
            match self.parse_avc_decoder_config(body) {
                Ok(()) => {
                    self.has_video_seq_header = true;
                    Ok(None)
                },
                Err(e) => Err(e),
            }
        } else if data[1] == 1 && self.has_video_seq_header {
            let units = match self.extract_nalus(body) {
                Ok(units) => units,
                Err(e) => {
                    return Err(e);
                },
            };
            let raw: i64 = data[2] as i64 * 0x10000 + data[3] as i64 * 0x100 + data[4] as i64;
            let cts: i64 = if data[2] >= 0x80 {
                raw - 0x1000000
            } else {
                raw
            };
            let pts: i64 = (timestamp_ms as i64 + cts) * 90;
            let dts: i64 = timestamp_ms as i64 * 90;
            let pts = self.normalize_pts(pts);
            let dts = self.normalize_pts(dts);
            Ok(
                Some(
                    DemuxedFrame {
                        stream_id: self.stream_id,
                        track: Track::Video {
                            codec: VideoCodec::H264,
                            width: self.video_width,
                            height: self.video_height,
                        },
                        pts,
                        dts,
                        keyframe: units.0 || frame_type == 1,
                        data: bytes_from_vec(units.1),
                    },
                ),
            )
        } else {
            Ok(None)
        }
    }

    fn audio_frame(&mut self, codec: AudioCodec, timestamp_ms: u32, data: &[u8]) -> (r:
        DemuxedFrame)
        requires
            old(self).wf(),
        ensures
            final(self).wf(),
            final(self)@ == old(self)@.timed(timestamp_ms * 90),
            r@ == old(self)@.audio_frame(codec, timestamp_ms, data@),
    {
        let pts = self.normalize_pts(timestamp_ms as i64 * 90);
        DemuxedFrame {
            stream_id: self.stream_id,
            track: Track::Audio {
                codec,
                sample_rate: self.audio_sample_rate,
                channels: self.audio_channels,
            },
            pts,
            dts: pts,
            keyframe: true,
            data: bytes_copy(data),
        }
    }

    fn demux_audio(&mut self, data: &[u8], timestamp_ms: u32) -> (r: Result<
        Option<DemuxedFrame>,
        IngestError,
    >)
        requires
            old(self).wf(),
        ensures
            final(self).wf(),
            (final(self)@, outcome(r)) == old(self)@.with_audio(data@, timestamp_ms),
    {
        if data.len() == 0 {
            return Ok(None);
        }
        let sound_format: u8 = data[0] / 16;
        if sound_format == FLV_SOUND_FORMAT_AAC {
            if data.len() < 2 {
                return Ok(None);
            }
            let body = vstd::slice::slice_subrange(data, 2, data.len());
            if data[1] == 0 {
                let _parsed = self.parse_audio_specific_config(body);
                self.audio_codec = Some(AudioCodec::Aac);
                self.has_audio_seq_header = true;
                Ok(None)
            } else if data[1] == 1 && self.has_audio_seq_header {
                Ok(Some(self.audio_frame(AudioCodec::Aac, timestamp_ms, body)))
            } else {
                Ok(None)
            }
        } else if sound_format == FLV_SOUND_FORMAT_MP3 {
            self.audio_codec = Some(AudioCodec::Mp3);
            let body = vstd::slice::slice_subrange(data, 1, data.len());
            Ok(Some(self.audio_frame(AudioCodec::Mp3, timestamp_ms, body)))
        } else {
            Ok(None)
        }
    }

    /// Reads a decoder configuration: parameter sets, and whether the dimensions are acceptable.
    fn parse_avc_decoder_config(&mut self, data: &[u8]) -> (r: Result<(), IngestError>)
        ensures
            final(self).first_pts == old(self).first_pts,
            r is Ok ==> (old(self)@.with_video_config(data@).1 == Demuxed::Nothing && old(self)@.with_video_config(data@).0 == (DemuxModel {
                has_video_seq_header: true,
                ..final(self)@
            })),
            r matches Err(e) ==> (final(self)@, Demuxed::Fault(e@)) == old(self)@.with_video_config(data@),
    {
        if data.len() < 7 {
            return Err(
                IngestError::CorruptNalu { reason: text::owned("AVC decoder config too short") },
            );
        }
        let num_sps: usize = (data[5] % 32) as usize;
        let sets = read_parameter_sets(data, 6, num_sps);
        let ghost sps_spec = DemuxModel::config_sps(data@).0;
        let mut last: Option<Bytes> = None;
        let mut long = false;
        let mut i: usize = 0;
        while i < sets.0.len()
            invariant
                i <= sets.0@.len(),
                byte_views(sets.0@) == sps_spec,
                opt_bytes(last) == last_or(sps_spec.subrange(0, i as int), None),
                long == has_long_set(sps_spec.subrange(0, i as int)),
            decreases sets.0@.len() - i,
        {
            let ghost so_far = sps_spec.subrange(0, i as int);
            let ghost next = sps_spec.subrange(0, i + 1);
            assert(sps_spec[i as int] == sets.0@[i as int]@);
            assert(next.last() == sps_spec[i as int]);
            if sets.0[i].len() > 4 {
                long = true;
            }
            proof {
                if has_long_set(so_far) {
                    let k = choose|k: int| 0 <= k < so_far.len() && (#[trigger] so_far[k]).len() > 4;
                    assert(next[k].len() > 4);
                }
                if sets.0@[i as int]@.len() > 4 {
                    assert(next[i as int].len() > 4);
                }
                if has_long_set(next) {
                    let k = choose|k: int| 0 <= k < next.len() && (#[trigger] next[k]).len() > 4;
                    if k < i {
                        assert(so_far[k].len() > 4);
                    }
                }
            }
            last = Some(bytes_copy(sets.0[i].as_slice()));
            i = i + 1;
        }
        assert(sps_spec.subrange(0, i as int) =~= sps_spec);
        if last.is_some() {
            self.sps = last;
        }
        if long && self.video_width == 0 {
            self.video_width = 1920;
            self.video_height = 1080;
        }
        let pos = sets.1;
        if pos < data.len() {
            let num_pps: usize = data[pos] as usize;
            let more = read_parameter_sets(data, pos + 1, num_pps);
            let ghost pps_spec = DemuxModel::config_pps(data@);
            if more.0.len() > 0 {
                let k: usize = more.0.len() - 1;
                assert(pps_spec[k as int] == more.0@[k as int]@);
                self.pps = Some(bytes_copy(more.0[k].as_slice()));
            }
        }
        assert(self@ == old(self)@.configured(data@));
        if self.video_width == 0 || self.video_height == 0 || self.video_width > 3840
            || self.video_height > 2160 {
            return Err(
                IngestError::InvalidResolution {
                    width: self.video_width,
                    height: self.video_height,
                },
            );
        }
        Ok(())
    }

    /// Reads sample rate and channels out of an audio configuration.
    pub fn parse_audio_specific_config(&mut self, data: &[u8]) -> (r: Result<(), IngestError>)
        ensures
            r is Ok,
            final(self)@ == old(self)@.with_audio_config(data@),
            final(self).first_pts == old(self).first_pts,
    {
        if data.len() < 2 {
            return Ok(());
        }
        let freq_index: u8 = data[0] % 8 * 2 + data[1] / 128;
        let channel_config: u8 = data[1] / 8 % 16;
        self.audio_sample_rate = match freq_index {
            0 => 96000,
            1 => 88200,
            2 => 64000,
            3 => 48000,
            4 => 44100,
            5 => 32000,
            6 => 24000,
            7 => 22050,
            8 => 16000,
            9 => 12000,
            10 => 11025,
            11 => 8000,
            _ => 44100,
        };
        self.audio_channels = match channel_config {
            1 => 1,
            _ => 2,
        };
        Ok(())
    }

    /// Turns length-prefixed units into start-code delimited ones, and tells whether one of them is
    /// an IDR slice.
    pub fn extract_nalus(&self, data: &[u8]) -> (r: Result<(bool, Vec<u8>), IngestError>)
        ensures
            match units_from(data@, 0) {
                Units::All(units) => r matches Ok(x) && x.0 == has_idr(units) && x.1@ == annex_b(units),
                Units::Cut { len, left, at } => r matches Err(e) && e@ == (IngestFault::CorruptNalu {
                    reason: cut_text(len, left, at),
                }),
            },
    {
        let mut pos: usize = 0;
        let mut keyframe = false;
        let mut output: Vec<u8> = Vec::new();
        let ghost mut done: Seq<Seq<u8>> = Seq::empty();
        proof {
            assert(after_units(done, units_from(data@, 0)) == units_from(data@, 0)) by {
                match units_from(data@, 0) {
                    Units::All(u) => {
                        assert(done + u =~= u);
                    },
                    _ => {},
                }
            }
        }
        while data.len() >= 4 && pos <= data.len() - 4
            invariant
                pos <= data@.len(),
                units_from(data@, 0) == after_units(done, units_from(data@, pos as int)),
                output@ == annex_b(done),
                keyframe == has_idr(done),
            decreases data@.len() - pos,
        {
            let len: u32 = read_u32(data, pos);
            let start: usize = pos + 4;
            let left: usize = data.len() - start;
            if len as u64 > left as u64 {
                let mut reason = text::owned("NALU length ");
                text::push_decimal(&mut reason, len as u64);
                reason.append(" exceeds remaining data ");
                text::push_decimal(&mut reason, left as u64);
                reason.append(" at offset ");
                text::push_decimal(&mut reason, start as u64);
                return Err(IngestError::CorruptNalu { reason });
            }
            let end: usize = start + len as usize;
            let ghost unit = data@.subrange(start as int, end as int);
            let ghost before = done;
            let ghost out_before = output@;
            if len > 0 {
                if data[start] % 32 == NAL_TYPE_IDR {
                    keyframe = true;
                }
                output.push(0);
                output.push(0);
                output.push(0);
                output.push(1);
                push_slice(&mut output, data, start, end);
            }
            proof {
                done = before.push(unit);
                assert(done.drop_last() =~= before);
                assert(output@ =~= annex_b(before) + delimited(unit));
                match units_from(data@, end as int) {
                    Units::All(rest) => {
                        assert(before + (seq![unit] + rest) =~= done + rest);
                    },
                    _ => {},
                }
                if has_idr(before) {
                    let i = choose|i: int| 0 <= i < before.len() && is_idr(#[trigger] before[i]);
                    assert(is_idr(done[i]));
                }
                if is_idr(unit) {
                    assert(is_idr(done[done.len() - 1]));
                }
                if has_idr(done) {
                    let i = choose|i: int| 0 <= i < done.len() && is_idr(#[trigger] done[i]);
                    if i < before.len() {
                        assert(is_idr(before[i]));
                    }
                }
            }
            pos = end;
        }
        assert(done + Seq::<Seq<u8>>::empty() =~= done);
        Ok((keyframe, output))
    }

    /// A timestamp counted from the first one, which counts as 0.
    pub fn normalize_pts(&mut self, pts: i64) -> (r: i64)
        requires
            old(self).first_pts matches Some(first) ==> i64::MIN <= pts - first <= i64::MAX,
        ensures
            r == old(self)@.relative(pts as int),
            final(self)@ == old(self)@.timed(pts as int),
            old(self).wf() && -0x4000_0000_0000_0000 <= pts <= 0x4000_0000_0000_0000 ==> final(self).wf(),
    {
        match self.first_pts {
            Some(first) => pts - first,
            None => {
                self.first_pts = Some(pts);
                0
            },
        }
    }
}

/// The view of each vector in a list.
pub open spec fn byte_views(v: Seq<Vec<u8>>) -> Seq<Seq<u8>> {
    v.map_values(|b: Vec<u8>| b@)
}

fn read_parameter_sets(data: &[u8], from: usize, count: usize) -> (r: (Vec<Vec<u8>>, usize))
    requires
        from <= data@.len(),
    ensures
        byte_views(r.0@) == parameter_sets(data@, from as int, count as nat).0,
        r.1 == parameter_sets(data@, from as int, count as nat).1,
        from <= r.1 <= data@.len(),
{
    let mut sets: Vec<Vec<u8>> = Vec::new();
    let mut pos: usize = from;
    let mut n: usize = 0;
    let ghost whole = parameter_sets(data@, from as int, count as nat);
    proof {
        assert(byte_views(sets@) + whole.0 =~= whole.0);
    }
    while n < count && data.len() - pos >= 2
        invariant
            from <= pos <= data@.len(),
            n <= count,
            whole == parameter_sets(data@, from as int, count as nat),
            whole.0 == byte_views(sets@) + parameter_sets(
                data@,
                pos as int,
                (count - n) as nat,
            ).0,
            whole.1 == parameter_sets(data@, pos as int, (count - n) as nat).1,
        decreases count - n,
    {
        let len: usize = read_u16(data, pos);
        pos = pos + 2;
        if len > data.len() - pos {
            assert(byte_views(sets@) + Seq::<Seq<u8>>::empty() =~= byte_views(sets@));
            return (sets, pos);
        }
        let mut set: Vec<u8> = Vec::new();
        push_slice(&mut set, data, pos, pos + len);
        let ghost before = byte_views(sets@);
        let ghost rest = parameter_sets(data@, pos + len, (count - n - 1) as nat);
        assert(set@ =~= data@.subrange(pos as int, pos + len));
        let ghost added = set@;
        sets.push(set);
        assert(byte_views(sets@) =~= before.push(added));
        assert(before + (seq![added] + rest.0) =~= byte_views(sets@) + rest.0);
        pos = pos + len;
        n = n + 1;
    }
    assert(byte_views(sets@) + Seq::<Seq<u8>>::empty() =~= byte_views(sets@));
    (sets, pos)
}

// ---------------------------------------------------------------------------
// Laws
// ---------------------------------------------------------------------------

/// Timestamps are counted from the first one, which counts as 0, and keep their distances.
pub proof fn timestamps_start_at_zero(m: DemuxModel, first: i64, later: int)
    requires
        m.first_pts is None,
    ensures
        m.relative(first as int) == 0,
        m.timed(first as int).relative(later) == later - first,
        m.timed(first as int).timed(later) == m.timed(first as int),
{
}

/// No frame comes out of a stream before its configuration: video waits for that of the video,
/// and AAC for that of the audio.
pub proof fn frames_wait_for_their_configuration(m: DemuxModel, data: Seq<u8>, timestamp_ms: u32)
    ensures
        !m.has_video_seq_header ==> !(m.with_video(data, timestamp_ms).1 is Frame),
        !m.has_audio_seq_header && data.len() > 0 && data[0] / 16 == FLV_SOUND_FORMAT_AAC ==> !(
        m.with_audio(data, timestamp_ms).1 is Frame),
{
}

} // verus!
