//! The life of a live stream, from the publish command to its end.

use vstd::prelude::*;
use vstd::string::*;

use crate::buffer::bytes_len;
use crate::clock;
use crate::clock::in_calendar;
use crate::common::error::{IngestError, IngestFault};
use crate::common::security;
use crate::common::types::{
    Container, DemuxedFrame, FrameModel, FrameRate, IngestMode, MediaInfo, StreamId, VideoCodec,
};
use crate::control::events::{PipelineEvent, Report};
use crate::control::state::{
    counted_in, counted_out, EntryModel, StreamEntry, StreamState, StreamStateManager,
};
use crate::common::error::StateError;
use crate::ingest::demuxer::{DemuxModel, Demuxed, FlvDemuxer};
use crate::ingest::rtmp::{
    amf_command, chunk_size_after, follow_chunk_size, parse_amf_command, ChunkReader, Command,
    MessageModel, RtmpCommand, RtmpMessage, RtmpMessageType, MAX_CONSECUTIVE_ERRORS,
    SEQUENCE_HEADER_TIMEOUT_SECS,
};
use crate::ingest::validator;
use crate::observability::metrics as obs;
use crate::observability::metrics::{
    all_measured, measured1, measured2, Measurement, MetricChange, MetricUpdate,
};
use crate::text;
use crate::text::decimal;

verus! {

// ---------------------------------------------------------------------------
// Beginning and end
// ---------------------------------------------------------------------------

/// What is announced when a live stream starts.
#[derive(Debug)]
pub struct LiveStart {
    pub event: PipelineEvent,
    pub metrics: Vec<MetricUpdate>,
}

/// The media information with which a live stream starts: 1920 by 1080 at 30 frames per second.
pub open spec fn live_media_info(stream_id: StreamId) -> MediaInfo {
    MediaInfo {
        stream_id,
        video_codec: VideoCodec::H264,
        video_width: 1920,
        video_height: 1080,
        video_bitrate_kbps: None,
        frame_rate: FrameRate { num: 30, den: 1 },
        audio_codec: None,
        audio_sample_rate: None,
        audio_channels: None,
        audio_bitrate_kbps: None,
        duration_micros: None,
        container: Container::Flv,
    }
}

/// The entry of a live stream that starts at `now`.
pub open spec fn live_entry(stream_id: StreamId, now: i128) -> EntryModel {
    EntryModel::fresh(stream_id, IngestMode::Live, now).entering(StreamState::Live, now)
}

/// What the start of a live stream at `now` does and returns: the stream is created, goes live,
/// and is announced.
pub open spec fn live_began(
    before: StreamStateManager,
    after: StreamStateManager,
    stream_id: StreamId,
    now: i128,
    r: Result<LiveStart, IngestError>,
) -> bool {
    &&& r matches Ok(start)
    &&& start.event@ == (Report::StreamStarted {
        stream_id,
        media_info: live_media_info(stream_id),
    })
    &&& all_measured(start.metrics@) == seq![
        measured1(
            "streaminfa_ingest_active_streams"@,
            "protocol"@,
            "rtmp"@,
            MetricChange::GaugeAdd(1),
        ),
        measured1(
            "streaminfa_ingest_bitrate_bps"@,
            "stream_id"@,
            stream_id.text(),
            MetricChange::GaugeSet(0),
        ),
    ]
    &&& after.table() == before.table().insert(stream_id.value, live_entry(stream_id, now))
    &&& after.counts() == counted_in(
        counted_out(
            counted_in(before.counts(), StreamState::Pending),
            StreamState::Pending,
        ),
        StreamState::Live,
    )
}

/// Starts a live stream, now.
pub fn begin_live_stream(manager: &mut StreamStateManager, stream_id: StreamId) -> (r: Result<
    LiveStart,
    IngestError,
>)
    requires
        old(manager).wf(),
    ensures
        final(manager).wf(),
        exists|now: i128| #[trigger]
            live_began(*old(manager), *final(manager), stream_id, now, r) && in_calendar(now),
{
    let now = clock::now();
    let r = begin_live_stream_at(manager, stream_id, now);
    assert(live_began(*old(manager), *manager, stream_id, now, r));
    r
}

/// Starts a live stream at `now`: it is created, goes live, and is announced.
pub fn begin_live_stream_at(
    manager: &mut StreamStateManager,
    stream_id: StreamId,
    now: i128,
) -> (r: Result<LiveStart, IngestError>)
    requires
        old(manager).wf(),
        in_calendar(now),
    ensures
        final(manager).wf(),
        live_began(*old(manager), *final(manager), stream_id, now, r),
{
    let _created = manager.create_stream_at(stream_id, IngestMode::Live, now);
    match manager.transition_at(stream_id, StreamState::Live, now) {
        Ok(_) => {},
        Err(e) => {
            return Err(IngestError::ValidationFailed { reason: e.message() });
        },
    }
    match validator::validate_rtmp_codecs(7, Some(10)) {
        Ok(()) => {},
        Err(e) => {
            return Err(IngestError::ValidationFailed { reason: e.message() });
        },
    }
    match security::validate_resolution(1920, 1080) {
        Ok(()) => {},
        Err(reason) => {
            return Err(IngestError::ValidationFailed { reason });
        },
    }
    assert(manager.table() =~= old(manager).table().insert(
        stream_id.value,
        live_entry(stream_id, now),
    ));
    let id = stream_id.to_text();
    let mut metrics: Vec<MetricUpdate> = Vec::new();
    metrics.push(obs::inc_ingest_active_streams("rtmp"));
    metrics.push(obs::set_ingest_bitrate(&id, 0));
    assert(all_measured(metrics@) =~= seq![metrics@[0]@, metrics@[1]@]);
    let media_info = MediaInfo {
        stream_id,
        video_codec: VideoCodec::H264,
        video_width: 1920,
        video_height: 1080,
        video_bitrate_kbps: None,
        frame_rate: FrameRate { num: 30, den: 1 },
        audio_codec: None,
        audio_sample_rate: None,
        audio_channels: None,
        audio_bitrate_kbps: None,
        duration_micros: None,
        container: Container::Flv,
    };
    Ok(LiveStart { event: PipelineEvent::StreamStarted { stream_id, media_info }, metrics })
}

/// What is announced when a live stream ends.
#[derive(Debug)]
pub struct LiveEnd {
    pub event: PipelineEvent,
    pub metric: MetricUpdate,
}

/// What is reported of a live stream that ended.
pub open spec fn ended_report(stream_id: StreamId, result: Result<(), IngestError>) -> Report {
    match result {
        Ok(()) => Report::StreamEnded { stream_id },
        Err(e) => Report::StreamError { stream_id, error: e.text() },
    }
}

/// Announces how a live stream ended: that it did, or the text of the error, and one stream less.
pub fn announce_end(stream_id: StreamId, result: &Result<(), IngestError>) -> (r: LiveEnd)
    ensures
        r.metric@ == measured1(
            "streaminfa_ingest_active_streams"@,
            "protocol"@,
            "rtmp"@,
            MetricChange::GaugeAdd((-1) as i64),
        ),
        r.event@ == ended_report(stream_id, *result),
{
    let metric = obs::dec_ingest_active_streams("rtmp");
    let event = match result {
        Ok(()) => PipelineEvent::StreamEnded { stream_id },
        Err(e) => PipelineEvent::StreamError { stream_id, error: e.message() },
    };
    LiveEnd { event, metric }
}

/// The manager after a live stream ended at `now`: the stream goes on to processing, or fails with
/// the text of the error, where its state allows it.
pub open spec fn live_ended(
    before: StreamStateManager,
    after: StreamStateManager,
    stream_id: StreamId,
    result: Result<(), IngestError>,
    now: i128,
) -> bool {
    match result {
        Ok(()) => exists|x: Result<StreamEntry, StateError>| #[trigger]
            before.changed(after, stream_id, StreamState::Processing, now, x),
        Err(e) => exists|x: Result<StreamEntry, StateError>| #[trigger]
            before.failed(after, stream_id, e.text(), now, x),
    }
}

/// Ends a live stream at `now`, by how its demux loop ended: it goes on to processing, or fails
/// with the text of the error. A change that the state of the stream does not allow is passed
/// over.
pub fn end_live_stream_at(
    manager: &mut StreamStateManager,
    stream_id: StreamId,
    result: &Result<(), IngestError>,
    now: i128,
) -> (r: LiveEnd)
    requires
        old(manager).wf(),
        in_calendar(now),
    ensures
        final(manager).wf(),
        r.metric@ == measured1(
            "streaminfa_ingest_active_streams"@,
            "protocol"@,
            "rtmp"@,
            MetricChange::GaugeAdd((-1) as i64),
        ),
        r.event@ == ended_report(stream_id, *result),
        live_ended(*old(manager), *final(manager), stream_id, *result, now),
{
    match result {
        Ok(()) => {
            let x = manager.transition_at(stream_id, StreamState::Processing, now);
            assert(old(manager).changed(*manager, stream_id, StreamState::Processing, now, x));
        },
        Err(e) => {
            let x = manager.transition_to_error_at(stream_id, e.message(), now);
            assert(old(manager).failed(*manager, stream_id, e.text(), now, x));
        },
    }
    announce_end(stream_id, result)
}

/// Ends a live stream, now.
pub fn end_live_stream(
    manager: &mut StreamStateManager,
    stream_id: StreamId,
    result: &Result<(), IngestError>,
) -> (r: LiveEnd)
    requires
        old(manager).wf(),
    ensures
        final(manager).wf(),
        r.metric@ == measured1(
            "streaminfa_ingest_active_streams"@,
            "protocol"@,
            "rtmp"@,
            MetricChange::GaugeAdd((-1) as i64),
        ),
        r.event@ == ended_report(stream_id, *result),
        exists|now: i128| #[trigger]
            live_ended(*old(manager), *final(manager), stream_id, *result, now) && in_calendar(now),
{
    let now = clock::now();
    let r = end_live_stream_at(manager, stream_id, result, now);
    assert(live_ended(*old(manager), *manager, stream_id, *result, now));
    r
}

// ---------------------------------------------------------------------------
// The demux loop
// ---------------------------------------------------------------------------

/// What to do after an event of the demux loop.
#[derive(Debug)]
pub enum LoopStep {
    /// Read on.
    Continue,
    /// Record the measurements, hand the frame to the transcoder, then read on.
    Frame(DemuxedFrame, Vec<MetricUpdate>),
    /// The stream has ended.
    Stop,
}

/// What a step says.
#[verifier::ext_equal]
pub enum StepModel {
    Continue,
    Frame(FrameModel, Seq<Measurement>),
    Stop,
    Fault(IngestFault),
}

/// What the result of an event says.
pub open spec fn step_of(r: Result<LoopStep, IngestError>) -> StepModel {
    match r {
        Ok(LoopStep::Continue) => StepModel::Continue,
        Ok(LoopStep::Frame(f, m)) => StepModel::Frame(f@, all_measured(m@)),
        Ok(LoopStep::Stop) => StepModel::Stop,
        Err(e) => StepModel::Fault(e@),
    }
}

/// The demux loop of a live stream. Points in time are nanoseconds of a clock that never goes
/// back.
#[derive(Debug)]
pub struct DemuxLoop {
    pub demuxer: FlvDemuxer,
    /// Errors since the last message that could be read.
    pub consecutive_errors: u32,
    /// Until when the video configuration must have come.
    pub header_deadline_ns: u64,
}

/// The measurements for a frame.
pub open spec fn frame_measurements(stream_id: StreamId, f: FrameModel) -> Seq<Measurement> {
    seq![
        measured2(
            "streaminfa_ingest_frames_total"@,
            "stream_id"@,
            "rtmp"@,
            "track"@,
            if f.track is Audio {
                "audio"@
            } else {
                "video"@
            },
            MetricChange::CounterAdd(1),
        ),
        measured2(
            "streaminfa_ingest_bytes_total"@,
            "protocol"@,
            "rtmp"@,
            "stream_id"@,
            stream_id.text(),
            MetricChange::CounterAdd(f.data.len() as u64),
        ),
    ]
}

impl DemuxLoop {
    /// Fewer errors in a row than end the stream.
    pub open spec fn wf(self) -> bool {
        self.demuxer.wf() && self.consecutive_errors < MAX_CONSECUTIVE_ERRORS
    }

    /// A loop that starts at `now_ns`.
    pub fn new(stream_id: StreamId, now_ns: u64) -> (r: Self)
        requires
            now_ns + SEQUENCE_HEADER_TIMEOUT_SECS * 1_000_000_000 <= u64::MAX,
        ensures
            r.wf(),
            r.demuxer@ == FlvDemuxer::fresh(stream_id),
            r.consecutive_errors == 0,
            r.header_deadline_ns == now_ns + SEQUENCE_HEADER_TIMEOUT_SECS * 1_000_000_000,
    {
        DemuxLoop {
            demuxer: FlvDemuxer::new(stream_id),
            consecutive_errors: 0,
            header_deadline_ns: now_ns + SEQUENCE_HEADER_TIMEOUT_SECS * 1_000_000_000,
        }
    }

    /// The demuxer, the count of errors and the step after a message that was read at `now_ns`.
    pub open spec fn after_message(self, msg: MessageModel, now_ns: u64) -> (
        DemuxModel,
        u32,
        StepModel,
    ) {
        let d = self.demuxer@;
        if msg.msg_type == RtmpMessageType::Video || msg.msg_type == RtmpMessageType::Audio {
            if !d.has_video_seq_header && now_ns > self.header_deadline_ns {
                (
                    d,
                    0,
                    StepModel::Fault(
                        IngestFault::MissingSequenceHeader {
                            timeout_secs: SEQUENCE_HEADER_TIMEOUT_SECS,
                        },
                    ),
                )
            } else {
                match d.with_tag(msg) {
                    (after, Demuxed::Frame(f)) => (
                        after,
                        0,
                        StepModel::Frame(f, frame_measurements(d.stream_id, f)),
                    ),
                    (after, Demuxed::Nothing) => (after, 0, StepModel::Continue),
                    (after, Demuxed::Fault(_)) => (after, 1, StepModel::Continue),
                }
            }
        } else if (msg.msg_type == RtmpMessageType::AmfCommand || msg.msg_type
            == RtmpMessageType::AmfCommand3) && amf_command(msg.data) == Ok::<_, IngestFault>(
            Command::DeleteStream,
        ) {
            (d, 0, StepModel::Stop)
        } else {
            (d, 0, StepModel::Continue)
        }
    }

    /// Handles a message that was read at `now_ns`.
    pub fn on_message(&mut self, reader: &mut ChunkReader, msg: &RtmpMessage, now_ns: u64) -> (r:
        Result<LoopStep, IngestError>)
        requires
            old(self).wf(),
        ensures
            final(self).wf(),
            final(self).header_deadline_ns == old(self).header_deadline_ns,
            (final(self).demuxer@, final(self).consecutive_errors, step_of(r)) == old(
                self).after_message(msg@, now_ns),
            final(reader).size() == chunk_size_after(old(reader).size(), msg@),
    {
        self.consecutive_errors = 0;
        match msg.msg_type {
            RtmpMessageType::Video | RtmpMessageType::Audio => {
                if !self.demuxer.has_sequence_header() && now_ns > self.header_deadline_ns {
                    return Err(
                        IngestError::MissingSequenceHeader {
                            timeout_secs: SEQUENCE_HEADER_TIMEOUT_SECS,
                        },
                    );
                }
                let stream_id = self.demuxer.stream_id;
                match self.demuxer.demux_flv_tag(msg) {
                    Ok(Some(frame)) => {
                        let label = if frame.track.is_audio() {
                            "audio"
                        } else {
                            "video"
                        };
                        let id = stream_id.to_text();
                        let mut metrics: Vec<MetricUpdate> = Vec::new();
                        metrics.push(obs::inc_ingest_frames("rtmp", label));
                        metrics.push(
                            obs::add_ingest_bytes("rtmp", &id, bytes_len(&frame.data) as u64),
                        );
                        assert(all_measured(metrics@) =~= frame_measurements(stream_id, frame@));
                        Ok(LoopStep::Frame(frame, metrics))
                    },
                    Ok(None) => Ok(LoopStep::Continue),
                    Err(_) => {
                        self.consecutive_errors = 1;
                        Ok(LoopStep::Continue)
                    },
                }
            },
            RtmpMessageType::AmfCommand | RtmpMessageType::AmfCommand3 => {
                match parse_amf_command(crate::buffer::bytes_slice(&msg.data)) {
                    Ok(RtmpCommand::DeleteStream) => Ok(LoopStep::Stop),
                    _ => Ok(LoopStep::Continue),
                }
            },
            _ => {
                follow_chunk_size(reader, msg);
                Ok(LoopStep::Continue)
            },
        }
    }

    /// The text for too many errors in a row.
    pub open spec fn read_errors_text() -> Seq<char> {
        "too many consecutive read errors ("@ + decimal(MAX_CONSECUTIVE_ERRORS as nat) + ")"@
    }

    /// Handles a message that could not be read. A closed connection ends the stream; any other
    /// error is passed over until there are too many in a row.
    pub fn on_read_error(&mut self, closed: bool) -> (r: Result<LoopStep, IngestError>)
        requires
            old(self).wf(),
        ensures
            final(self).demuxer == old(self).demuxer,
            final(self).header_deadline_ns == old(self).header_deadline_ns,
            closed ==> final(self).consecutive_errors == old(self).consecutive_errors && r == Ok::<
                _,
                IngestError,
            >(LoopStep::Stop),
            !closed ==> final(self).consecutive_errors == old(self).consecutive_errors + 1,
            !closed && old(self).consecutive_errors + 1 < MAX_CONSECUTIVE_ERRORS ==> r == Ok::<
                _,
                IngestError,
            >(LoopStep::Continue),
            !closed && old(self).consecutive_errors + 1 >= MAX_CONSECUTIVE_ERRORS ==> (
            r matches Err(e) && e@ == (IngestFault::ValidationFailed {
                reason: Self::read_errors_text(),
            })),
            r is Ok ==> final(self).wf(),
    {
        if closed {
            return Ok(LoopStep::Stop);
        }
        self.consecutive_errors = self.consecutive_errors + 1;
        if self.consecutive_errors >= MAX_CONSECUTIVE_ERRORS {
            let mut reason = text::owned("too many consecutive read errors (");
            text::push_decimal(&mut reason, self.consecutive_errors as u64);
            reason.append(")");
            return Err(IngestError::ValidationFailed { reason });
        }
        Ok(LoopStep::Continue)
    }
}

/// Media is demuxed as it comes: a frame is handed on as it is, and broken data is passed over and
/// counted. Media without a configuration is refused once the time for it has passed. The stream
/// stops where the encoder deletes it, and every other message is passed over.
pub proof fn messages_lead_to_their_step(l: DemuxLoop, msg: MessageModel, now_ns: u64)
    ensures
        ({
            let (d, errors, step) = l.after_message(msg, now_ns);
            let media = msg.msg_type == RtmpMessageType::Video || msg.msg_type
                == RtmpMessageType::Audio;
            let late = !l.demuxer.has_video_seq_header && now_ns > l.header_deadline_ns;
            &&& media && late ==> step is Fault && d == l.demuxer@
            &&& media && !late ==> {
                &&& d == l.demuxer@.with_tag(msg).0
                &&& l.demuxer@.with_tag(msg).1 matches Demuxed::Frame(f) ==> (
                step matches StepModel::Frame(g, m) && g == f && errors == 0)
                &&& l.demuxer@.with_tag(msg).1 is Fault ==> step is Continue && errors == 1
                &&& l.demuxer@.with_tag(msg).1 is Nothing ==> step is Continue && errors == 0
            }
            &&& !media ==> d == l.demuxer@ && errors == 0 && (step is Stop || step is Continue)
            &&& step is Stop <==> (msg.msg_type == RtmpMessageType::AmfCommand || msg.msg_type
                == RtmpMessageType::AmfCommand3) && amf_command(msg.data) == Ok::<_, IngestFault>(
                Command::DeleteStream,
            )
        }),
{
}

/// A live stream starts now and is live at once; its end is reported as such, and its failure with
/// the words of the error.
pub proof fn live_streams_start_and_end(stream_id: StreamId, now: i128, e: IngestError)
    ensures
        live_entry(stream_id, now).state == StreamState::Live,
        live_entry(stream_id, now).metadata.stream_id == stream_id,
        live_entry(stream_id, now).metadata.created_at == now,
        live_entry(stream_id, now).metadata.started_at == Some(now),
        live_entry(stream_id, now).metadata.ended_at is None,
        live_entry(stream_id, now).metadata.ingest_mode == IngestMode::Live,
        ended_report(stream_id, Ok(())) == (Report::StreamEnded { stream_id }),
        ended_report(stream_id, Err(e)) == (Report::StreamError { stream_id, error: e.text() }),
{
}

} // verus!
