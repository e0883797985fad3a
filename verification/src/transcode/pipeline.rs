//! The decisions of a live transcode: which renditions are made, which segments each frame ends,
//! and when errors end the job.

use vstd::prelude::*;
use vstd::string::*;

use crate::buffer::bytes_clone;
use crate::common::config::TranscodeConfig;
use crate::common::error::TranscodeError;
use crate::common::types::{
    DemuxedFrame, EncodedSegment, FrameModel, FrameRate, RenditionId, SegmentModel, StreamId,
    Track, TICKS_PER_SEC,
};
use crate::control::state::{EntryModel, StreamStateManager};
use crate::observability::metrics as obs;
use crate::observability::metrics::{
    all_measured, measured, measured1, measured2, Measurement, MetricChange, MetricUpdate,
};
use crate::text;
use crate::transcode::profile::{is_selection, select_renditions, SelectedRendition};
use crate::transcode::segment::{
    packet_models, segment_view, takes_all, EncodedPacket, Gathered, PacketModel,
    SegmentAccumulator, SegmentParams,
};

verus! {

/// Consecutive decode errors that end a job.
pub const MAX_CONSECUTIVE_DECODE_ERRORS: u32 = 10;

/// Keyframe intervals per segment.
pub const KEYFRAME_INTERVALS_PER_SEGMENT: i64 = 3;

/// The target duration of a segment: three keyframe intervals.
pub open spec fn target_ticks(config: TranscodeConfig) -> int {
    config.keyframe_interval_secs * KEYFRAME_INTERVALS_PER_SEGMENT * TICKS_PER_SEC
}

/// The packet of a frame that passes through as it is.
pub open spec fn packet_of(f: FrameModel) -> PacketModel {
    PacketModel {
        pts: f.pts as int,
        dts: f.dts as int,
        keyframe: f.keyframe,
        data: f.data,
        is_audio: f.track is Audio,
    }
}

/// What a rendition starts with.
pub open spec fn nothing_gathered(
    r: SelectedRendition,
    stream_id: StreamId,
    target_ticks: int,
    frame_rate: FrameRate,
) -> Gathered {
    Gathered {
        params: SegmentParams {
            stream_id,
            rendition: r.id,
            target_ticks,
            width: r.width,
            height: r.height,
            video_bitrate_kbps: r.video_bitrate_kbps,
            audio_bitrate_kbps: r.audio_bitrate_kbps,
            profile: r.profile@,
            level: r.level@,
            frame_rate,
        },
        video: Seq::empty(),
        audio: Seq::empty(),
        start: None,
        last: 0,
        next_sequence: 0,
    }
}

/// The first rendition from `from` on for which the packet ends a segment; their number where
/// there is none.
pub open spec fn first_cut(gathered: Seq<Gathered>, p: PacketModel, from: int) -> int
    decreases gathered.len() - from,
{
    if from >= gathered.len() {
        gathered.len() as int
    } else if gathered[from].cut(p) is Some {
        from
    } else {
        first_cut(gathered, p, from + 1)
    }
}

/// The packet went to the renditions from `from` up to `to`, once each, and to no other.
pub open spec fn handed_out(
    before: Seq<Gathered>,
    after: Seq<Gathered>,
    p: PacketModel,
    from: int,
    to: int,
) -> bool {
    &&& after.len() == before.len()
    &&& forall|k: int|
        0 <= k < before.len() ==> #[trigger] after[k] == if from <= k < to {
            before[k].after(p)
        } else {
            before[k]
        }
}

/// The final segments of the renditions that have any video left, in order.
pub open spec fn flushed(gathered: Seq<Gathered>) -> Seq<SegmentModel>
    decreases gathered.len(),
{
    if gathered.len() == 0 {
        Seq::empty()
    } else if gathered.last().video.len() == 0 {
        flushed(gathered.drop_last())
    } else {
        flushed(gathered.drop_last()).push(gathered.last().segment(true))
    }
}

/// What segments say.
pub open spec fn segment_models(s: Seq<EncodedSegment>) -> Seq<SegmentModel> {
    s.map_values(|x: EncodedSegment| x@)
}

/// The measurements of a segment that a frame ended.
pub open spec fn segment_measured(stream_id: StreamId, s: SegmentModel) -> Seq<Measurement> {
    seq![
        measured2(
            "streaminfa_transcode_segments_total"@,
            "stream_id"@,
            stream_id.text(),
            "rendition"@,
            s.rendition.name(),
            MetricChange::CounterAdd(1),
        ),
        measured1(
            "streaminfa_transcode_segment_duration_seconds"@,
            "rendition"@,
            s.rendition.name(),
            MetricChange::HistogramTicks(s.duration_ticks as i64),
        ),
    ]
}

/// The measurements of a frame that took `nanos`, for one rendition: the latency, and the
/// frames per second, of which a millisecond per frame is the most that is told.
pub open spec fn frame_measured(stream_id: StreamId, id: RenditionId, nanos: u64) -> Seq<
    Measurement,
> {
    seq![
        measured1(
            "streaminfa_transcode_latency_seconds"@,
            "rendition"@,
            id.name(),
            MetricChange::HistogramNanos(nanos),
        ),
        measured2(
            "streaminfa_transcode_fps"@,
            "stream_id"@,
            stream_id.text(),
            "rendition"@,
            id.name(),
            MetricChange::GaugeRatio {
                part: 1_000_000_000,
                whole: if nanos < 1_000_000 {
                    1_000_000
                } else {
                    nanos
                },
            },
        ),
    ]
}

/// The measurements of a frame, for all renditions in order.
pub open spec fn frames_measured(stream_id: StreamId, ids: Seq<RenditionId>, nanos: u64) -> Seq<
    Measurement,
>
    decreases ids.len(),
{
    if ids.len() == 0 {
        Seq::empty()
    } else {
        frames_measured(stream_id, ids.drop_last(), nanos) + frame_measured(
            stream_id,
            ids.last(),
            nanos,
        )
    }
}

/// The label of an error in metrics.
pub open spec fn error_label(err: TranscodeError) -> Seq<char> {
    match err {
        TranscodeError::FfmpegInit { .. } => "ffmpeg_init"@,
        TranscodeError::Cancelled { .. } => "cancelled"@,
        TranscodeError::ConsecutiveDecodeErrors { .. } => "decode_failed"@,
    }
}

/// The label of an error in metrics.
pub fn transcode_error_type(err: &TranscodeError) -> (r: &'static str)
    ensures
        r@ == error_label(*err),
{
    match err {
        TranscodeError::FfmpegInit { .. } => "ffmpeg_init",
        TranscodeError::Cancelled { .. } => "cancelled",
        TranscodeError::ConsecutiveDecodeErrors { .. } => "decode_failed",
    }
}

/// Sets up transcode jobs.
pub struct TranscodePipeline {
    pub config: TranscodeConfig,
}

/// Whether a job can start, and what it starts with.
pub open spec fn job_started(
    config: TranscodeConfig,
    stream_id: StreamId,
    width: u32,
    height: u32,
    frame_rate: FrameRate,
    job: LiveTranscode,
) -> bool {
    &&& is_selection(job.selection(), width, height, config.profile_ladder@)
    &&& job.id() == stream_id
    &&& job.errors() == 0
    &&& job.gathered() == job.selection().map_values(
        |r: SelectedRendition|
            nothing_gathered(r, stream_id, target_ticks(config), frame_rate),
    )
}

impl TranscodePipeline {
    /// Jobs with the given configuration.
    pub fn new(config: TranscodeConfig) -> (r: Self)
        ensures
            r.config == config,
    {
        TranscodePipeline { config }
    }

    /// Starts a live transcode of a source of the given size and frame rate, and notes with the
    /// manager how many renditions the stream will have. It fails if and only if the ladder is
    /// empty.
    pub fn run_live(
        &self,
        manager: &mut StreamStateManager,
        stream_id: StreamId,
        source_width: u32,
        source_height: u32,
        frame_rate: FrameRate,
    ) -> (r: Result<(LiveTranscode, MetricUpdate), TranscodeError>)
        requires
            old(manager).wf(),
        ensures
            final(manager).wf(),
            final(manager).counts() == old(manager).counts(),
            r is Err <==> self.config.profile_ladder@.len() == 0,
            r matches Err(e) ==> {
                &&& e.text() == "FFmpeg initialization failed: "@
                    + "no renditions selected for source resolution"@
                &&& e is FfmpegInit
                &&& final(manager).table() == old(manager).table()
            },
            r matches Ok(started) ==> {
                &&& started.0.wf()
                &&& job_started(
                    self.config,
                    stream_id,
                    source_width,
                    source_height,
                    frame_rate,
                    started.0,
                )
                &&& started.1@ == measured(
                    "streaminfa_transcode_active_jobs"@,
                    MetricChange::GaugeAdd(1),
                )
                &&& final(manager).table() == if old(manager).table().contains_key(
                    stream_id.value,
                ) {
                    let e = old(manager).table()[stream_id.value];
                    old(manager).table().insert(
                        stream_id.value,
                        EntryModel {
                            expected_renditions: Some(started.0.selection().len() as usize),
                            ..e
                        },
                    )
                } else {
                    old(manager).table()
                }
            },
    {
        let renditions = select_renditions(
            source_width,
            source_height,
            self.config.profile_ladder.as_slice(),
        );
        if renditions.len() == 0 {
            return Err(
                TranscodeError::FfmpegInit {
                    reason: text::owned("no renditions selected for source resolution"),
                },
            );
        }
        manager.set_expected_renditions(stream_id, renditions.len());
        let target: i64 = self.config.keyframe_interval_secs as i64 * KEYFRAME_INTERVALS_PER_SEGMENT
            * TICKS_PER_SEC;
        let job = LiveTranscode::with_renditions(stream_id, renditions, target, frame_rate);
        Ok((job, obs::inc_transcode_active_jobs()))
    }
}

/// A frame that is being handed out to the renditions.
pub struct FrameJob {
    pub packet: EncodedPacket,
    /// The next rendition that gets it.
    pub next: usize,
}

/// A running live transcode.
pub struct LiveTranscode {
    stream_id: StreamId,
    renditions: Vec<SelectedRendition>,
    accumulators: Vec<SegmentAccumulator>,
    consecutive_errors: u32,
}

impl LiveTranscode {
    /// The stream.
    pub closed spec fn id(self) -> StreamId {
        self.stream_id
    }

    /// The renditions that are made.
    pub closed spec fn selection(self) -> Seq<SelectedRendition> {
        self.renditions@
    }

    /// The names of the renditions.
    pub open spec fn names(self) -> Seq<RenditionId> {
        self.selection().map_values(|r: SelectedRendition| r.id)
    }

    /// What each rendition has gathered.
    pub closed spec fn gathered(self) -> Seq<Gathered> {
        self.accumulators@.map_values(|a: SegmentAccumulator| a@)
    }

    /// Decode errors since the last frame that went well.
    pub closed spec fn errors(self) -> nat {
        self.consecutive_errors as nat
    }

    /// Every rendition gathers packets under its own name.
    pub closed spec fn wf(self) -> bool {
        &&& self.accumulators@.len() == self.renditions@.len()
        &&& forall|i: int|
            0 <= i < self.accumulators@.len() ==> {
                &&& (#[trigger] self.accumulators@[i])@.params.rendition == self.renditions@[i].id
                &&& self.accumulators@[i]@.params.target_ticks >= 0
            }
        &&& self.consecutive_errors <= MAX_CONSECUTIVE_DECODE_ERRORS
    }

    /// The renditions from `from` on can take the packet.
    pub open spec fn takes_from(self, p: PacketModel, from: int) -> bool {
        forall|i: int|
            from <= i < self.gathered().len() ==> (#[trigger] self.gathered()[i]).takes(p)
    }

    /// Every rendition can make what is left its final segment.
    pub open spec fn can_end(self) -> bool {
        forall|i: int| 0 <= i < self.gathered().len() ==> (#[trigger] self.gathered()[i]).can_end()
    }

    /// A job for the given renditions.
    pub fn with_renditions(
        stream_id: StreamId,
        renditions: Vec<SelectedRendition>,
        target_ticks: i64,
        frame_rate: FrameRate,
    ) -> (r: Self)
        requires
            target_ticks >= 0,
        ensures
            r.wf(),
            r.id() == stream_id,
            r.errors() == 0,
            r.selection() == renditions@,
            r.gathered() == renditions@.map_values(
                |r: SelectedRendition|
                    nothing_gathered(r, stream_id, target_ticks as int, frame_rate),
            ),
    {
        let mut accumulators: Vec<SegmentAccumulator> = Vec::new();
        let mut i: usize = 0;
        while i < renditions.len()
            invariant
                target_ticks >= 0,
                i <= renditions@.len(),
                accumulators@.len() == i,
                forall|j: int|
                    0 <= j < i ==> {
                        &&& (#[trigger] accumulators@[j])@ == nothing_gathered(
                            renditions@[j],
                            stream_id,
                            target_ticks as int,
                            frame_rate,
                        )
                    },
            decreases renditions@.len() - i,
        {
            let r = &renditions[i];
            let acc = SegmentAccumulator::new(
                stream_id,
                r.id,
                target_ticks,
                r.width,
                r.height,
                r.video_bitrate_kbps,
                r.audio_bitrate_kbps,
                r.profile.clone(),
                r.level.clone(),
                frame_rate,
            );
            accumulators.push(acc);
            i = i + 1;
        }
        let job = LiveTranscode { stream_id, renditions, accumulators, consecutive_errors: 0 };
        assert(job.gathered() =~= renditions@.map_values(
            |r: SelectedRendition|
                nothing_gathered(r, stream_id, target_ticks as int, frame_rate),
        ));
        job
    }

    /// The renditions that are made.
    pub fn renditions(&self) -> (r: &Vec<SelectedRendition>)
        ensures
            r@ == self.selection(),
    {
        &self.renditions
    }

    /// Whether the renditions that do not have a frame yet can take it.
    pub fn accepts(&self, job: &FrameJob) -> (r: bool)
        requires
            self.wf(),
        ensures
            r == self.takes_from(job.packet@, job.next as int),
    {
        let mut i: usize = job.next;
        while i < self.accumulators.len()
            invariant
                job.next <= i,
                i <= self.accumulators@.len() || i == job.next,
                forall|j: int|
                    job.next <= j < i && j < self.gathered().len() ==> (
                    #[trigger] self.gathered()[j]).takes(job.packet@),
            decreases self.accumulators@.len() - i,
        {
            assert(self.gathered()[i as int] == self.accumulators@[i as int]@);
            if !self.accumulators[i].accepts(&job.packet) {
                return false;
            }
            i = i + 1;
        }
        true
    }

    /// Whether a rendition can take all packets of a run, one after another.
    pub fn accepts_run(&self, rendition: usize, packets: &Vec<EncodedPacket>) -> (r: bool)
        requires
            self.wf(),
            rendition < self.gathered().len(),
        ensures
            r == takes_all(self.gathered()[rendition as int], packet_models(packets@)),
    {
        self.accumulators[rendition].accepts_all(packets)
    }

    /// Whether every rendition can make what is left its final segment.
    pub fn can_finish(&self) -> (r: bool)
        requires
            self.wf(),
        ensures
            r == self.can_end(),
    {
        let mut i: usize = 0;
        while i < self.accumulators.len()
            invariant
                i <= self.accumulators@.len(),
                forall|j: int| 0 <= j < i ==> (#[trigger] self.gathered()[j]).can_end(),
            decreases self.accumulators@.len() - i,
        {
            assert(self.gathered()[i as int] == self.accumulators@[i as int]@);
            if !self.accumulators[i].accepts_end() {
                return false;
            }
            i = i + 1;
        }
        true
    }

    /// Starts to hand out a frame, which passes through as it is.
    pub fn process_frame(&self, frame: &DemuxedFrame) -> (r: FrameJob)
        ensures
            r.packet@ == packet_of(frame@),
            r.next == 0,
    {
        let is_audio = match frame.track {
            Track::Audio { .. } => true,
            _ => false,
        };
        FrameJob {
            packet: EncodedPacket {
                pts: frame.pts,
                dts: frame.dts,
                keyframe: frame.keyframe,
                data: bytes_clone(&frame.data),
                is_audio,
            },
            next: 0,
        }
    }

    /// Hands the frame to the next renditions, up to and with the first for which it ends a
    /// segment. Returns that segment with its measurements; `None` once every rendition has the
    /// frame.
    pub fn next_segment(&mut self, job: &mut FrameJob) -> (r: Option<
        (EncodedSegment, Vec<MetricUpdate>),
    >)
        requires
            old(self).wf(),
            old(self).takes_from(old(job).packet@, old(job).next as int),
        ensures
            final(self).wf(),
            final(self).id() == old(self).id(),
            final(self).selection() == old(self).selection(),
            final(self).errors() == old(self).errors(),
            final(job).packet == old(job).packet,
            ({
                let p = old(job).packet@;
                let i = first_cut(old(self).gathered(), p, old(job).next as int);
                &&& handed_out(
                    old(self).gathered(),
                    final(self).gathered(),
                    p,
                    old(job).next as int,
                    i + 1,
                )
                &&& r is Some <==> i < old(self).gathered().len()
                &&& r matches Some(s) ==> {
                    &&& final(job).next == i + 1
                    &&& Some(s.0@) == old(self).gathered()[i].cut(p)
                    &&& all_measured(s.1@) == segment_measured(old(self).id(), s.0@)
                }
                &&& r is None ==> final(job).next >= old(self).gathered().len()
            }),
    {
        let ghost before = self.gathered();
        let ghost p = job.packet@;
        let ghost from = job.next as int;
        let ghost cut = first_cut(before, p, from);
        proof {
            lemma_first_cut(before, p, from);
        }
        while job.next < self.accumulators.len()
            invariant
                self.wf(),
                self.gathered().len() == before.len(),
                self.stream_id == old(self).stream_id,
                self.renditions == old(self).renditions,
                self.consecutive_errors == old(self).consecutive_errors,
                before == old(self).gathered(),
                old(self).takes_from(p, from),
                job.packet == old(job).packet,
                p == job.packet@,
                from == old(job).next,
                cut == first_cut(before, p, from),
                from <= job.next,
                job.next > before.len() ==> job.next == from,
                job.next <= before.len() ==> first_cut(before, p, job.next as int) == cut,
                handed_out(before, self.gathered(), p, from, job.next as int),
                cut == before.len() || job.next <= cut,
            decreases self.accumulators@.len() - job.next,
        {
            let i = job.next;
            let ghost mid = self.gathered();
            assert(mid[i as int] == before[i as int]);
            assert(self.accumulators@[i as int]@ == mid[i as int]);
            let segment = self.accumulators[i].push(&job.packet);
            job.next = i + 1;
            assert(self.gathered() =~= mid.update(i as int, before[i as int].after(p)));
            proof {
                lemma_first_cut(before, p, i + 1);
            }
            if let Some(s) = segment {
                let id = self.stream_id.to_text();
                let name = s.rendition.as_str();
                let mut metrics: Vec<MetricUpdate> = Vec::new();
                metrics.push(obs::inc_transcode_segments(&id, name));
                metrics.push(obs::record_transcode_segment_duration(name, s.duration_ticks));
                assert(all_measured(metrics@) =~= segment_measured(self.stream_id, s@));
                return Some((s, metrics));
            }
        }
        None
    }

    /// Hands a packet to one rendition. Returns the segment that it ends, if any.
    pub fn push_encoded(&mut self, rendition: usize, packet: &EncodedPacket) -> (r: Option<
        EncodedSegment,
    >)
        requires
            old(self).wf(),
            rendition < old(self).gathered().len(),
            old(self).gathered()[rendition as int].takes(packet@),
        ensures
            final(self).wf(),
            final(self).id() == old(self).id(),
            final(self).selection() == old(self).selection(),
            final(self).errors() == old(self).errors(),
            final(self).gathered() == old(self).gathered().update(
                rendition as int,
                old(self).gathered()[rendition as int].after(packet@),
            ),
            segment_view(r) == old(self).gathered()[rendition as int].cut(packet@),
    {
        let ghost before = self.gathered();
        assert(before[rendition as int] == self.accumulators@[rendition as int]@);
        let r = self.accumulators[rendition].push(packet);
        assert(self.gathered() =~= before.update(
            rendition as int,
            before[rendition as int].after(packet@),
        ));
        r
    }

    /// The frame went well and took `nanos`. Returns its measurements.
    pub fn on_frame_done(&mut self, nanos: u64) -> (r: Vec<MetricUpdate>)
        requires
            old(self).wf(),
        ensures
            final(self).wf(),
            final(self).id() == old(self).id(),
            final(self).selection() == old(self).selection(),
            final(self).gathered() == old(self).gathered(),
            final(self).errors() == 0,
            all_measured(r@) == frames_measured(old(self).id(), old(self).names(), nanos),
    {
        self.consecutive_errors = 0;
        let id = self.stream_id.to_text();
        let whole: u64 = if nanos < 1_000_000 {
            1_000_000
        } else {
            nanos
        };
        let mut out: Vec<MetricUpdate> = Vec::new();
        let mut i: usize = 0;
        let ghost names = self.names();
        assert(names.subrange(0, 0) =~= Seq::empty());
        assert(all_measured(out@) =~= Seq::empty());
        while i < self.renditions.len()
            invariant
                i <= self.renditions@.len(),
                names == self.names(),
                id@ == self.stream_id.text(),
                whole == if nanos < 1_000_000 {
                    1_000_000
                } else {
                    nanos
                },
                all_measured(out@) == frames_measured(
                    self.stream_id,
                    names.subrange(0, i as int),
                    nanos,
                ),
            decreases self.renditions@.len() - i,
        {
            let name = self.renditions[i].id.as_str();
            let ghost before = out@;
            out.push(obs::record_transcode_latency(name, nanos));
            out.push(obs::set_transcode_fps(&id, name, 1_000_000_000, whole));
            proof {
                assert(names.subrange(0, i + 1).drop_last() =~= names.subrange(0, i as int));
                assert(names.subrange(0, i + 1).last() == self.renditions@[i as int].id);
                assert(all_measured(out@) =~= all_measured(before) + frame_measured(
                    self.stream_id,
                    self.renditions@[i as int].id,
                    nanos,
                ));
            }
            i = i + 1;
        }
        assert(names.subrange(0, i as int) =~= names);
        out
    }

    /// The frame failed. Returns the error that ends the job, where there were too many in a row,
    /// and the measurement.
    pub fn on_frame_failed(&mut self, error: &TranscodeError) -> (r: (
        Option<TranscodeError>,
        MetricUpdate,
    ))
        requires
            old(self).wf(),
            old(self).errors() < MAX_CONSECUTIVE_DECODE_ERRORS,
        ensures
            final(self).wf(),
            final(self).id() == old(self).id(),
            final(self).selection() == old(self).selection(),
            final(self).gathered() == old(self).gathered(),
            final(self).errors() == old(self).errors() + 1,
            r.0 == if final(self).errors() == MAX_CONSECUTIVE_DECODE_ERRORS {
                Some(
                    TranscodeError::ConsecutiveDecodeErrors {
                        stream_id: old(self).id(),
                        count: MAX_CONSECUTIVE_DECODE_ERRORS,
                    },
                )
            } else {
                None
            },
            r.1@ == measured2(
                "streaminfa_transcode_errors_total"@,
                "stream_id"@,
                old(self).id().text(),
                "error_type"@,
                error_label(*error),
                MetricChange::CounterAdd(1),
            ),
    {
        self.consecutive_errors = self.consecutive_errors + 1;
        let id = self.stream_id.to_text();
        let metric = obs::inc_transcode_error(&id, transcode_error_type(error));
        let end = if self.consecutive_errors >= MAX_CONSECUTIVE_DECODE_ERRORS {
            Some(
                TranscodeError::ConsecutiveDecodeErrors {
                    stream_id: self.stream_id,
                    count: self.consecutive_errors,
                },
            )
        } else {
            None
        };
        (end, metric)
    }

    /// Ends the job. Returns the final segments, in the order of the renditions, and the
    /// measurement.
    pub fn finish(self) -> (r: (Vec<EncodedSegment>, MetricUpdate))
        requires
            self.wf(),
            self.can_end(),
        ensures
            segment_models(r.0@) == flushed(self.gathered()),
            r.1@ == measured(
                "streaminfa_transcode_active_jobs"@,
                MetricChange::GaugeAdd((-1) as i64),
            ),
    {
        let ghost gathered = self.gathered();
        let mut rest = self.accumulators;
        let ghost all = rest@;
        let ghost mut done: int = 0;
        let mut out: Vec<EncodedSegment> = Vec::new();
        proof {
            assert(all.subrange(0, all.len() as int) =~= rest@);
            assert(gathered.subrange(0, 0) =~= Seq::empty());
            assert(segment_models(out@) =~= Seq::empty());
        }
        while rest.len() > 0
            invariant
                gathered == all.map_values(|a: SegmentAccumulator| a@),
                0 <= done <= all.len(),
                rest@ == all.subrange(done, all.len() as int),
                forall|i: int| 0 <= i < all.len() ==> (#[trigger] gathered[i]).can_end(),
                segment_models(out@) == flushed(gathered.subrange(0, done)),
            decreases rest@.len(),
        {
            let ghost before = segment_models(out@);
            let acc = rest.remove(0);
            proof {
                assert(acc@ == gathered[done]);
                assert(gathered.subrange(0, done + 1).drop_last() =~= gathered.subrange(0, done));
                assert(rest@ =~= all.subrange(done + 1, all.len() as int));
                done = done + 1;
            }
            if let Some(s) = acc.flush() {
                out.push(s);
                assert(segment_models(out@) =~= before.push(s@));
            }
        }
        assert(gathered.subrange(0, done) =~= gathered);
        (out, obs::dec_transcode_active_jobs())
    }
}

// ---------------------------------------------------------------------------
// Laws
// ---------------------------------------------------------------------------

/// A frame that is handed out in two parts reaches every rendition once.
pub proof fn frame_reaches_every_rendition(
    before: Seq<Gathered>,
    mid: Seq<Gathered>,
    after: Seq<Gathered>,
    p: PacketModel,
    at: int,
)
    requires
        0 <= at <= before.len(),
        handed_out(before, mid, p, 0, at),
        handed_out(mid, after, p, at, before.len() as int),
    ensures
        after =~= before.map_values(|g: Gathered| g.after(p)),
{
    assert forall|k: int| 0 <= k < before.len() implies after[k] == before[k].after(p) by {
        assert(mid[k] == if k < at {
            before[k].after(p)
        } else {
            before[k]
        });
    }
}

proof fn lemma_first_cut(gathered: Seq<Gathered>, p: PacketModel, from: int)
    requires
        0 <= from,
    ensures
        first_cut(gathered, p, from) <= gathered.len(),
        from <= gathered.len() ==> from <= first_cut(gathered, p, from),
        first_cut(gathered, p, from) < gathered.len() ==> gathered[first_cut(
            gathered,
            p,
            from,
        )].cut(p) is Some,
    decreases gathered.len() - from,
{
    if from < gathered.len() && gathered[from].cut(p) is None {
        lemma_first_cut(gathered, p, from + 1);
    }
}

/// A segment is to last three keyframe intervals: six seconds of 90,000 ticks where a keyframe comes
/// every two.
pub proof fn segments_last_three_intervals(config: TranscodeConfig)
    ensures
        target_ticks(config) == 3 * config.keyframe_interval_secs * 90_000,
        config.keyframe_interval_secs == 2 ==> target_ticks(config) == 6 * 90_000,
{
}

/// A frame passes through as it is: its bytes, its times and whether it is a keyframe.
pub proof fn frames_pass_through(f: FrameModel)
    ensures
        packet_of(f).data == f.data,
        packet_of(f).pts == f.pts,
        packet_of(f).dts == f.dts,
        packet_of(f).keyframe == f.keyframe,
        packet_of(f).is_audio <==> f.track is Audio,
{
}

/// A rendition starts with nothing gathered, at number 0, and with the settings of its rung.
pub proof fn renditions_start_empty(
    r: SelectedRendition,
    stream_id: StreamId,
    target: int,
    frame_rate: FrameRate,
)
    ensures
        ({
            let g = nothing_gathered(r, stream_id, target, frame_rate);
            &&& g.video.len() == 0
            &&& g.audio.len() == 0
            &&& g.start is None
            &&& g.next_sequence == 0
            &&& g.params.target_ticks == target
            &&& g.params.stream_id == stream_id
            &&& g.params.rendition == r.id
            &&& g.params.width == r.width
            &&& g.params.height == r.height
            &&& g.params.video_bitrate_kbps == r.video_bitrate_kbps
            &&& g.params.audio_bitrate_kbps == r.audio_bitrate_kbps
            &&& g.params.profile == r.profile@
            &&& g.params.level == r.level@
            &&& g.params.frame_rate == frame_rate
        }),
{
}

/// At the end every rendition that has video left gives one more segment, marked as the last, and
/// no other rendition does.
pub proof fn what_is_left_becomes_the_last_segment(gathered: Seq<Gathered>, g: Gathered)
    ensures
        flushed(Seq::<Gathered>::empty()).len() == 0,
        g.video.len() == 0 ==> flushed(gathered.push(g)) == flushed(gathered),
        g.video.len() > 0 ==> {
            let all = flushed(gathered.push(g));
            &&& all.len() == flushed(gathered).len() + 1
            &&& all.drop_last() == flushed(gathered)
            &&& all.last().is_last
            &&& all.last().video == g.video
            &&& all.last().rendition == g.params.rendition
            &&& all.last().sequence == g.next_sequence
        },
{
    assert(gathered.push(g).drop_last() =~= gathered);
    if g.video.len() > 0 {
        assert(flushed(gathered.push(g)).drop_last() =~= flushed(gathered));
    }
}

} // verus!
