//! The decisions of a transcode with a decoder and one encoder per rendition: what is asked of
//! the codecs next, where their packets go, and which segments come out. Video is decoded once
//! and encoded for each rendition in turn; audio passes through to all of them.

use bytes::Bytes;
use vstd::prelude::*;

use crate::buffer::{bytes_clone, bytes_seq};
use crate::common::error::TranscodeError;
use crate::common::types::{DemuxedFrame, EncodedSegment, SegmentModel, StreamId, Track};
use crate::transcode::ffmpeg::passed_audio;
use crate::transcode::pipeline::{flushed, segment_models, LiveTranscode};
use crate::transcode::segment::{
    after_all, cut_all, lemma_takes_prefix, packet_models, segments_hold_every_byte, takes_all,
    video_fed, video_of, EncodedPacket, Gathered, PacketModel,
};

verus! {

/// What a session waits for.
#[derive(Debug, Clone, Copy)]
pub enum CodecPhase {
    /// The next piece of input.
    Input,
    /// Whether the decoder takes the packet at hand.
    Decode,
    /// That the decoder is told of the end.
    EndDecoder,
    /// A frame out of the decoder, which has been told of the end where `ending`.
    Frame { ending: bool },
    /// The packets that the encoder of a rendition makes of the frame at hand.
    Encode { rendition: usize, ending: bool },
    /// The packets that the encoder of a rendition still holds.
    Flush { rendition: usize },
    /// Nothing.
    Over,
}

/// What happened.
#[derive(Debug)]
pub enum CodecEvent {
    /// A packet of video is at hand.
    Video,
    /// A packet of audio came in.
    Audio(EncodedPacket),
    /// Something came in that is neither.
    Other,
    /// There is no more input.
    End,
    /// The decoder took what it was given.
    Accepted,
    /// The decoder did not take what it was given.
    Refused,
    /// A frame is at hand.
    Frame,
    /// The decoder has no frame ready.
    NoFrame,
    /// The packets of an encoder.
    Packets(Vec<EncodedPacket>),
    /// A segment was handed on.
    Sent,
    /// Nobody takes segments any more.
    Closed,
    /// A codec failed.
    Failed(TranscodeError),
}

/// What is to be done.
#[derive(Debug)]
pub enum CodecAction {
    /// Get the next piece of input.
    NextInput,
    /// Give the packet at hand to the decoder.
    Decode,
    /// Tell the decoder of the end.
    EndDecoder,
    /// Take a frame out of the decoder.
    ReceiveFrame,
    /// Encode the frame at hand for a rendition.
    Encode { rendition: usize },
    /// Take out what the encoder of a rendition still holds.
    FlushEncoder { rendition: usize },
    /// Hand on a segment.
    Send(EncodedSegment),
    /// Finish the session.
    Finish,
    /// Give up.
    Fail(TranscodeError),
}

// ---------------------------------------------------------------------------
// Model
// ---------------------------------------------------------------------------

/// What an event says.
#[verifier::ext_equal]
pub enum EventModel {
    Video,
    Audio(PacketModel),
    Other,
    End,
    Accepted,
    Refused,
    Frame,
    NoFrame,
    Packets(Seq<PacketModel>),
    Sent,
    Closed,
    Failed(TranscodeError),
}

impl View for CodecEvent {
    type V = EventModel;

    open spec fn view(&self) -> EventModel {
        match *self {
            CodecEvent::Video => EventModel::Video,
            CodecEvent::Audio(p) => EventModel::Audio(p@),
            CodecEvent::Other => EventModel::Other,
            CodecEvent::End => EventModel::End,
            CodecEvent::Accepted => EventModel::Accepted,
            CodecEvent::Refused => EventModel::Refused,
            CodecEvent::Frame => EventModel::Frame,
            CodecEvent::NoFrame => EventModel::NoFrame,
            CodecEvent::Packets(p) => EventModel::Packets(packet_models(p@)),
            CodecEvent::Sent => EventModel::Sent,
            CodecEvent::Closed => EventModel::Closed,
            CodecEvent::Failed(e) => EventModel::Failed(e),
        }
    }
}

/// What an action says.
#[verifier::ext_equal]
pub enum ActionModel {
    NextInput,
    Decode,
    EndDecoder,
    ReceiveFrame,
    Encode { rendition: usize },
    FlushEncoder { rendition: usize },
    Send(SegmentModel),
    Finish,
    Fail(TranscodeError),
}

impl View for CodecAction {
    type V = ActionModel;

    open spec fn view(&self) -> ActionModel {
        match *self {
            CodecAction::NextInput => ActionModel::NextInput,
            CodecAction::Decode => ActionModel::Decode,
            CodecAction::EndDecoder => ActionModel::EndDecoder,
            CodecAction::ReceiveFrame => ActionModel::ReceiveFrame,
            CodecAction::Encode { rendition } => ActionModel::Encode { rendition },
            CodecAction::FlushEncoder { rendition } => ActionModel::FlushEncoder { rendition },
            CodecAction::Send(s) => ActionModel::Send(s@),
            CodecAction::Finish => ActionModel::Finish,
            CodecAction::Fail(e) => ActionModel::Fail(e),
        }
    }
}

/// A packet taken as audio.
pub open spec fn as_audio(p: PacketModel) -> PacketModel {
    PacketModel { is_audio: true, ..p }
}

/// What a session asks for in a phase.
pub open spec fn asked(phase: CodecPhase) -> ActionModel {
    match phase {
        CodecPhase::Input => ActionModel::NextInput,
        CodecPhase::Decode => ActionModel::Decode,
        CodecPhase::EndDecoder => ActionModel::EndDecoder,
        CodecPhase::Frame { .. } => ActionModel::ReceiveFrame,
        CodecPhase::Encode { rendition, .. } => ActionModel::Encode { rendition },
        CodecPhase::Flush { rendition } => ActionModel::FlushEncoder { rendition },
        CodecPhase::Over => ActionModel::Finish,
    }
}

/// The end of the input has been met.
pub open spec fn is_ending(phase: CodecPhase) -> bool {
    match phase {
        CodecPhase::EndDecoder | CodecPhase::Flush { .. } | CodecPhase::Over => true,
        CodecPhase::Frame { ending } => ending,
        CodecPhase::Encode { ending, .. } => ending,
        CodecPhase::Input | CodecPhase::Decode => false,
    }
}

/// The state of a session.
#[verifier::ext_equal]
pub struct CodecModel {
    pub stream_id: StreamId,
    /// What each rendition has gathered.
    pub gathered: Seq<Gathered>,
    /// Segments that wait to be handed on.
    pub ready: Seq<SegmentModel>,
    pub phase: CodecPhase,
}

impl CodecModel {
    /// The phase with the frame at hand, before the encoder of a rendition.
    pub open spec fn encoding(self, rendition: int, ending: bool) -> CodecPhase {
        if rendition < self.gathered.len() {
            CodecPhase::Encode { rendition: rendition as usize, ending }
        } else {
            CodecPhase::Frame { ending }
        }
    }

    /// The phase with the decoder empty, before the encoder of a rendition.
    pub open spec fn flushing(self, rendition: int) -> CodecPhase {
        if rendition < self.gathered.len() {
            CodecPhase::Flush { rendition: rendition as usize }
        } else {
            CodecPhase::Over
        }
    }

    /// The packets of the encoder of a rendition have come.
    pub open spec fn fed(self, rendition: int, packets: Seq<PacketModel>, phase: CodecPhase) -> Self {
        CodecModel {
            gathered: self.gathered.update(
                rendition,
                after_all(self.gathered[rendition], packets),
            ),
            ready: self.ready + cut_all(self.gathered[rendition], packets),
            phase,
            ..self
        }
    }

    /// The state after an event. One that is no answer to what was asked for changes nothing; nor
    /// does any while segments wait.
    pub open spec fn moved(self, event: EventModel) -> Self {
        if self.ready.len() > 0 {
            self
        } else {
            match (self.phase, event) {
                (CodecPhase::Input, EventModel::Video) => CodecModel {
                    phase: CodecPhase::Decode,
                    ..self
                },
                (CodecPhase::Input, EventModel::Audio(p)) => CodecModel {
                    gathered: self.gathered.map_values(|g: Gathered| g.after(as_audio(p))),
                    ..self
                },
                (CodecPhase::Input, EventModel::End) => CodecModel {
                    phase: CodecPhase::EndDecoder,
                    ..self
                },
                (CodecPhase::Decode, EventModel::Accepted) => CodecModel {
                    phase: CodecPhase::Frame { ending: false },
                    ..self
                },
                (CodecPhase::Decode, EventModel::Refused) => CodecModel {
                    phase: CodecPhase::Input,
                    ..self
                },
                (CodecPhase::EndDecoder, EventModel::Accepted) => CodecModel {
                    phase: CodecPhase::Frame { ending: true },
                    ..self
                },
                (CodecPhase::EndDecoder, EventModel::Refused) => CodecModel {
                    phase: CodecPhase::Frame { ending: true },
                    ..self
                },
                (CodecPhase::Frame { ending }, EventModel::Frame) => CodecModel {
                    phase: self.encoding(0, ending),
                    ..self
                },
                (CodecPhase::Frame { ending }, EventModel::NoFrame) => CodecModel {
                    phase: if ending {
                        self.flushing(0)
                    } else {
                        CodecPhase::Input
                    },
                    ..self
                },
                (CodecPhase::Encode { rendition, ending }, EventModel::Packets(p)) => self.fed(
                    rendition as int,
                    p,
                    self.encoding(rendition + 1, ending),
                ),
                (CodecPhase::Flush { rendition }, EventModel::Packets(p)) => self.fed(
                    rendition as int,
                    p,
                    self.flushing(rendition + 1),
                ),
                _ => self,
            }
        }
    }

    /// What is done in a state, and the state once it is under way: segments are handed on first.
    pub open spec fn settled(self) -> (Self, ActionModel) {
        if self.ready.len() > 0 {
            (
                CodecModel { ready: self.ready.drop_first(), ..self },
                ActionModel::Send(self.ready.first()),
            )
        } else {
            (self, asked(self.phase))
        }
    }

    /// The state and the action after an event.
    pub open spec fn next(self, event: EventModel) -> (Self, ActionModel) {
        match event {
            EventModel::Closed => (
                self,
                ActionModel::Fail(TranscodeError::Cancelled { stream_id: self.stream_id }),
            ),
            EventModel::Failed(e) => (self, ActionModel::Fail(e)),
            _ => self.moved(event).settled(),
        }
    }

    /// The rendition that is waited for can take the packets of an event.
    pub open spec fn takes(self, event: EventModel) -> bool {
        self.ready.len() == 0 ==> match (self.phase, event) {
            (CodecPhase::Encode { rendition, .. }, EventModel::Packets(p)) => takes_all(
                self.gathered[rendition as int],
                p,
            ),
            (CodecPhase::Flush { rendition }, EventModel::Packets(p)) => takes_all(
                self.gathered[rendition as int],
                p,
            ),
            _ => true,
        }
    }

    /// Every rendition can make what is left its final segment.
    pub open spec fn can_end(self) -> bool {
        forall|i: int| 0 <= i < self.gathered.len() ==> (#[trigger] self.gathered[i]).can_end()
    }
}

// ---------------------------------------------------------------------------
// Input
// ---------------------------------------------------------------------------

/// What a frame of a live stream is to a session.
pub open spec fn live_event(f: DemuxedFrame) -> EventModel {
    if f.track is Audio {
        EventModel::Audio(
            PacketModel {
                pts: f.pts as int,
                dts: f.dts as int,
                keyframe: true,
                data: bytes_seq(f.data),
                is_audio: true,
            },
        )
    } else {
        EventModel::Video
    }
}

/// What a frame of a live stream is to a session: audio, which passes through, or video.
pub fn live_input(frame: &DemuxedFrame) -> (r: CodecEvent)
    ensures
        r@ == live_event(*frame),
{
    match frame.track {
        Track::Audio { .. } => CodecEvent::Audio(
            EncodedPacket {
                pts: frame.pts,
                dts: frame.dts,
                keyframe: true,
                data: bytes_clone(&frame.data),
                is_audio: true,
            },
        ),
        _ => CodecEvent::Video,
    }
}

/// What a packet of a file is to a session: video where it is of the video stream, audio where it
/// is of the audio stream and holds anything.
pub open spec fn file_event(
    stream: usize,
    video: usize,
    audio: Option<usize>,
    pts: Option<i64>,
    dts: Option<i64>,
    data: Option<Bytes>,
) -> EventModel {
    if stream == video {
        EventModel::Video
    } else if Some(stream) == audio && data is Some && bytes_seq(data->0).len() > 0 {
        EventModel::Audio(
            PacketModel {
                pts: pts.unwrap_or(0) as int,
                dts: dts.unwrap_or(pts.unwrap_or(0)) as int,
                keyframe: true,
                data: bytes_seq(data->0),
                is_audio: true,
            },
        )
    } else {
        EventModel::Other
    }
}

/// What a packet of a file is to a session, by the stream that it is of.
pub fn file_input(
    stream: usize,
    video: usize,
    audio: Option<usize>,
    pts: Option<i64>,
    dts: Option<i64>,
    data: Option<Bytes>,
) -> (r: CodecEvent)
    ensures
        r@ == file_event(stream, video, audio, pts, dts, data),
{
    if stream == video {
        return CodecEvent::Video;
    }
    match audio {
        Some(a) => if stream == a {
            match passed_audio(pts, dts, data) {
                Some(p) => CodecEvent::Audio(p),
                None => CodecEvent::Other,
            }
        } else {
            CodecEvent::Other
        },
        None => CodecEvent::Other,
    }
}

// ---------------------------------------------------------------------------
// The session
// ---------------------------------------------------------------------------

/// A transcode with a decoder and one encoder per rendition.
pub struct CodecSession {
    stream_id: StreamId,
    job: LiveTranscode,
    ready: Vec<EncodedSegment>,
    phase: CodecPhase,
}

impl View for CodecSession {
    type V = CodecModel;

    closed spec fn view(&self) -> CodecModel {
        CodecModel {
            stream_id: self.stream_id,
            gathered: self.job.gathered(),
            ready: segment_models(self.ready@),
            phase: self.phase,
        }
    }
}

impl CodecSession {
    /// The renditions are well-formed, and the one that is waited for exists.
    pub closed spec fn wf(self) -> bool {
        &&& self.job.wf()
        &&& self.job.id() == self.stream_id
        &&& self.job.gathered().len() == self.job.selection().len()
        &&& self.job.selection().len() <= usize::MAX
        &&& match self.phase {
            CodecPhase::Encode { rendition, .. } => rendition < self.job.gathered().len(),
            CodecPhase::Flush { rendition } => rendition < self.job.gathered().len(),
            _ => true,
        }
    }

    /// A session before its first input, which it asks for.
    pub fn begin(stream_id: StreamId, job: LiveTranscode) -> (r: (Self, CodecAction))
        requires
            job.wf(),
            job.id() == stream_id,
            job.gathered().len() == job.selection().len(),
        ensures
            r.0.wf(),
            r.0@ == (CodecModel {
                stream_id,
                gathered: job.gathered(),
                ready: Seq::empty(),
                phase: CodecPhase::Input,
            }),
            r.1 is NextInput,
    {
        let n: usize = job.renditions().len();
        assert(n == job.selection().len());
        let session = CodecSession { stream_id, job, ready: Vec::new(), phase: CodecPhase::Input };
        assert(session@.ready =~= Seq::empty());
        (session, CodecAction::NextInput)
    }

    /// Whether an event can be taken up.
    pub fn accepts(&self, event: &CodecEvent) -> (r: bool)
        requires
            self.wf(),
        ensures
            r == self@.takes(event@),
    {
        if self.ready.len() > 0 {
            return true;
        }
        match (self.phase, event) {
            (CodecPhase::Encode { rendition, .. }, CodecEvent::Packets(p)) => self.job.accepts_run(
                rendition,
                p,
            ),
            (CodecPhase::Flush { rendition }, CodecEvent::Packets(p)) => self.job.accepts_run(
                rendition,
                p,
            ),
            _ => true,
        }
    }

    fn push_all(&mut self, rendition: usize, packets: &Vec<EncodedPacket>)
        requires
            old(self).wf(),
            rendition < old(self)@.gathered.len(),
            takes_all(old(self)@.gathered[rendition as int], packet_models(packets@)),
        ensures
            final(self).job.wf(),
            final(self).job.id() == old(self).job.id(),
            final(self).job.selection() == old(self).job.selection(),
            final(self).stream_id == old(self).stream_id,
            final(self)@ == old(self)@.fed(
                rendition as int,
                packet_models(packets@),
                old(self).phase,
            ),
    {
        let ghost all = packet_models(packets@);
        let ghost start = self@;
        let ghost r = rendition as int;
        let mut i: usize = 0;
        proof {
            assert(all.subrange(0, 0) =~= Seq::empty());
            assert(self@ =~= start.fed(r, all.subrange(0, 0), start.phase));
        }
        while i < packets.len()
            invariant
                i <= packets@.len(),
                all == packet_models(packets@),
                r == rendition,
                0 <= r < start.gathered.len(),
                takes_all(start.gathered[r], all),
                self.job.wf(),
                self.job.id() == old(self).job.id(),
                self.job.selection() == old(self).job.selection(),
                self.stream_id == old(self).stream_id,
                self@ == start.fed(r, all.subrange(0, i as int), start.phase),
            decreases packets@.len() - i,
        {
            let ghost before = self@;
            let ghost p = all[i as int];
            proof {
                assert(p == packets@[i as int]@);
                assert(all.subrange(0, i + 1).drop_last() =~= all.subrange(0, i as int));
                lemma_takes_prefix(start.gathered[r], all, i + 1);
            }
            match self.job.push_encoded(rendition, &packets[i]) {
                Some(s) => {
                    let ghost queue = self.ready@;
                    self.ready.push(s);
                    assert(segment_models(self.ready@) =~= segment_models(queue).push(s@));
                },
                None => {},
            }
            proof {
                let cut = before.gathered[r].cut(p);
                assert(self@.ready =~= match cut {
                    Some(m) => before.ready.push(m),
                    None => before.ready,
                });
                assert(self@.gathered =~= before.gathered.update(r, before.gathered[r].after(p)));
                assert(self@ =~= start.fed(r, all.subrange(0, i + 1), start.phase));
            }
            i = i + 1;
        }
        assert(all.subrange(0, i as int) =~= all);
    }

    fn push_audio(&mut self, packet: &EncodedPacket)
        requires
            old(self).wf(),
            packet.is_audio,
        ensures
            final(self).wf(),
            final(self).stream_id == old(self).stream_id,
            final(self)@ == (CodecModel {
                gathered: old(self)@.gathered.map_values(|g: Gathered| g.after(packet@)),
                ..old(self)@
            }),
    {
        let ghost start = self@;
        let ghost p = packet@;
        let n: usize = self.job.renditions().len();
        let mut i: usize = 0;
        while i < n
            invariant
                i <= n,
                n == start.gathered.len(),
                n == self.job.selection().len(),
                p == packet@,
                p.is_audio,
                self.job.wf(),
                self.job.id() == old(self).job.id(),
                self.job.selection() == old(self).job.selection(),
                self.stream_id == old(self).stream_id,
                self.phase == old(self).phase,
                self.ready == old(self).ready,
                self.job.gathered().len() == n,
                forall|k: int|
                    0 <= k < n ==> #[trigger] self.job.gathered()[k] == if k < i {
                        start.gathered[k].after(p)
                    } else {
                        start.gathered[k]
                    },
            decreases n - i,
        {
            let _nothing = self.job.push_encoded(i, packet);
            i = i + 1;
        }
        assert(self@.gathered =~= start.gathered.map_values(|g: Gathered| g.after(p)));
    }

    fn encoding(&self, rendition: usize, ending: bool) -> (r: CodecPhase)
        requires
            self.job.gathered().len() == self.job.selection().len(),
        ensures
            r == self@.encoding(rendition as int, ending),
    {
        if rendition < self.job.renditions().len() {
            CodecPhase::Encode { rendition, ending }
        } else {
            CodecPhase::Frame { ending }
        }
    }

    fn flushing(&self, rendition: usize) -> (r: CodecPhase)
        requires
            self.job.gathered().len() == self.job.selection().len(),
        ensures
            r == self@.flushing(rendition as int),
    {
        if rendition < self.job.renditions().len() {
            CodecPhase::Flush { rendition }
        } else {
            CodecPhase::Over
        }
    }

    /// Takes up an answer to what was asked for, where no segment waits.
    fn take_up(&mut self, event: CodecEvent)
        requires
            old(self).wf(),
            old(self)@.ready.len() == 0,
            old(self)@.takes(event@),
        ensures
            final(self).wf(),
            final(self)@ == old(self)@.moved(event@),
    {
        let ghost start = self@;
        match (self.phase, event) {
            (CodecPhase::Input, CodecEvent::Video) => {
                self.phase = CodecPhase::Decode;
            },
            (CodecPhase::Input, CodecEvent::Audio(p)) => {
                let packet = EncodedPacket {
                    pts: p.pts,
                    dts: p.dts,
                    keyframe: p.keyframe,
                    data: p.data,
                    is_audio: true,
                };
                assert(packet@ =~= as_audio(p@));
                self.push_audio(&packet);
            },
            (CodecPhase::Input, CodecEvent::End) => {
                self.phase = CodecPhase::EndDecoder;
            },
            (CodecPhase::Decode, CodecEvent::Accepted) => {
                self.phase = CodecPhase::Frame { ending: false };
            },
            (CodecPhase::Decode, CodecEvent::Refused) => {
                self.phase = CodecPhase::Input;
            },
            (CodecPhase::EndDecoder, CodecEvent::Accepted) => {
                self.phase = CodecPhase::Frame { ending: true };
            },
            (CodecPhase::EndDecoder, CodecEvent::Refused) => {
                self.phase = CodecPhase::Frame { ending: true };
            },
            (CodecPhase::Frame { ending }, CodecEvent::Frame) => {
                self.phase = self.encoding(0, ending);
            },
            (CodecPhase::Frame { ending }, CodecEvent::NoFrame) => {
                self.phase = if ending {
                    self.flushing(0)
                } else {
                    CodecPhase::Input
                };
            },
            (CodecPhase::Encode { rendition, ending }, CodecEvent::Packets(p)) => {
                self.push_all(rendition, &p);
                self.phase = self.encoding(rendition + 1, ending);
            },
            (CodecPhase::Flush { rendition }, CodecEvent::Packets(p)) => {
                self.push_all(rendition, &p);
                self.phase = self.flushing(rendition + 1);
            },
            _ => {},
        }
        assert(self@ =~= start.moved(event@));
    }

    /// Takes up an event, and says what is to be done.
    pub fn next(&mut self, event: CodecEvent) -> (r: CodecAction)
        requires
            old(self).wf(),
            old(self)@.takes(event@),
        ensures
            final(self).wf(),
            (final(self)@, r@) == old(self)@.next(event@),
    {
        match event {
            CodecEvent::Closed => {
                return CodecAction::Fail(TranscodeError::Cancelled { stream_id: self.stream_id });
            },
            CodecEvent::Failed(e) => {
                return CodecAction::Fail(e);
            },
            _ => {},
        }
        let ghost start = self@;
        if self.ready.len() == 0 {
            self.take_up(event);
        }
        assert(self@ == start.moved(event@));
        if self.ready.len() > 0 {
            let ghost before = self.ready@;
            let s = self.ready.remove(0);
            assert(segment_models(self.ready@) =~= segment_models(before).drop_first());
            assert(segment_models(before).first() == s@);
            return CodecAction::Send(s);
        }
        match self.phase {
            CodecPhase::Input => CodecAction::NextInput,
            CodecPhase::Decode => CodecAction::Decode,
            CodecPhase::EndDecoder => CodecAction::EndDecoder,
            CodecPhase::Frame { .. } => CodecAction::ReceiveFrame,
            CodecPhase::Encode { rendition, .. } => CodecAction::Encode { rendition },
            CodecPhase::Flush { rendition } => CodecAction::FlushEncoder { rendition },
            CodecPhase::Over => CodecAction::Finish,
        }
    }

    /// Whether every rendition can make what is left its final segment.
    pub fn can_finish(&self) -> (r: bool)
        requires
            self.wf(),
        ensures
            r == self@.can_end(),
    {
        assert(self@.gathered == self.job.gathered());
        self.job.can_finish()
    }

    /// The final segments of all renditions, in order.
    pub fn finish(self) -> (r: Vec<EncodedSegment>)
        requires
            self.wf(),
            self@.can_end(),
        ensures
            segment_models(r@) == flushed(self@.gathered),
    {
        assert(self@.gathered == self.job.gathered());
        self.job.finish().0
    }
}

// ---------------------------------------------------------------------------
// Laws
// ---------------------------------------------------------------------------

/// Once the end of the input has been met, no more input is asked for.
pub proof fn ended_input_is_not_asked_for(m: CodecModel, event: EventModel)
    requires
        is_ending(m.phase),
    ensures
        is_ending(m.next(event).0.phase),
        !(m.next(event).1 is NextInput),
        !(m.next(event).1 is Decode),
{
}

/// A frame is encoded for every rendition in turn before the next one is taken out of the decoder.
pub proof fn frames_reach_every_encoder(
    m: CodecModel,
    rendition: usize,
    ending: bool,
    packets: Seq<PacketModel>,
)
    requires
        m.phase == (CodecPhase::Encode { rendition, ending }),
        m.ready.len() == 0,
        rendition < m.gathered.len() <= usize::MAX,
    ensures
        asked(m.phase) == (ActionModel::Encode { rendition }),
        asked(m.moved(EventModel::Packets(packets)).phase) == if rendition + 1
            < m.gathered.len() {
            ActionModel::Encode { rendition: (rendition + 1) as usize }
        } else {
            ActionModel::ReceiveFrame
        },
{
}

/// What an encoder puts out goes to its rendition alone, and no byte of it is lost: it is in the
/// segments that come out of it or still gathered.
pub proof fn encoded_video_is_kept(m: CodecModel, packets: Seq<PacketModel>)
    requires
        m.ready.len() == 0,
        m.phase matches CodecPhase::Encode { rendition, .. } ==> rendition < m.gathered.len(),
        m.phase matches CodecPhase::Flush { rendition } ==> rendition < m.gathered.len(),
        m.phase is Encode || m.phase is Flush,
    ensures
        ({
            let at: int = match m.phase {
                CodecPhase::Encode { rendition, .. } => rendition as int,
                CodecPhase::Flush { rendition } => rendition as int,
                _ => 0,
            };
            let after = m.moved(EventModel::Packets(packets));
            &&& video_of(after.ready) + after.gathered[at].video == m.gathered[at].video
                + video_fed(packets)
            &&& after.gathered.len() == m.gathered.len()
            &&& forall|k: int|
                0 <= k < m.gathered.len() && k != at ==> #[trigger] after.gathered[k]
                    == m.gathered[k]
        }),
{
    let at: int = match m.phase {
        CodecPhase::Encode { rendition, .. } => rendition as int,
        CodecPhase::Flush { rendition } => rendition as int,
        _ => 0,
    };
    segments_hold_every_byte(m.gathered[at], packets);
    let after = m.moved(EventModel::Packets(packets));
    assert(after.ready =~= cut_all(m.gathered[at], packets));
}

/// Audio goes to every rendition as it is and ends no segment; video is decoded, every frame that
/// comes out is encoded for the first rendition before any other, and where no more comes out the
/// next input is asked for, or, at the end, the encoders are emptied one after the other. Segments
/// are handed on, in order, before anything else is done.
pub proof fn sessions_take_one_step_at_a_time(m: CodecModel, p: PacketModel)
    requires
        m.gathered.len() > 0,
    ensures
        m.ready.len() == 0 && m.phase == CodecPhase::Input ==> {
            let audio = m.next(EventModel::Audio(p));
            &&& audio.1 == ActionModel::NextInput
            &&& audio.0.gathered.len() == m.gathered.len()
            &&& forall|i: int|
                0 <= i < m.gathered.len() ==> {
                    &&& (#[trigger] audio.0.gathered[i]).audio == m.gathered[i].audio + p.data
                    &&& audio.0.gathered[i].video == m.gathered[i].video
                    &&& audio.0.gathered[i].next_sequence == m.gathered[i].next_sequence
                }
            &&& m.next(EventModel::Video).1 == ActionModel::Decode
            &&& m.next(EventModel::Other).1 == ActionModel::NextInput
            &&& m.next(EventModel::End).1 == ActionModel::EndDecoder
        },
        m.ready.len() == 0 && m.phase == CodecPhase::Decode ==> {
            &&& m.next(EventModel::Accepted).1 == ActionModel::ReceiveFrame
            &&& m.next(EventModel::Refused).1 == ActionModel::NextInput
        },
        m.ready.len() == 0 && m.phase == CodecPhase::EndDecoder ==> m.next(EventModel::Accepted).1
            == ActionModel::ReceiveFrame,
        m.ready.len() == 0 && m.phase is Frame ==> m.next(EventModel::Frame).1
            == (ActionModel::Encode { rendition: 0 }),
        m.ready.len() == 0 && m.phase == (CodecPhase::Frame { ending: false }) ==> m.next(
            EventModel::NoFrame,
        ).1 == ActionModel::NextInput,
        m.ready.len() == 0 && m.phase == (CodecPhase::Frame { ending: true }) ==> m.next(
            EventModel::NoFrame,
        ).1 == (ActionModel::FlushEncoder { rendition: 0 }),
        m.ready.len() > 0 ==> m.next(EventModel::Sent).1 == ActionModel::Send(m.ready[0])
            && m.next(EventModel::Sent).0.ready == m.ready.drop_first(),
        m.next(EventModel::Closed).1 is Fail,
{
    if m.ready.len() == 0 && m.phase == CodecPhase::Input {
        let audio = m.next(EventModel::Audio(p)).0;
        assert forall|i: int| 0 <= i < m.gathered.len() implies {
            &&& (#[trigger] audio.gathered[i]).audio == m.gathered[i].audio + p.data
            &&& audio.gathered[i].video == m.gathered[i].video
            &&& audio.gathered[i].next_sequence == m.gathered[i].next_sequence
        } by {
            assert(m.gathered[i].video + Seq::<u8>::empty() =~= m.gathered[i].video);
        }
    }
}

/// Frames of a live stream come in as audio, with their own times and bytes, or as video.
pub proof fn live_frames_come_in_by_their_track(f: DemuxedFrame)
    ensures
        f.track is Audio ==> (live_event(f) matches EventModel::Audio(p) && p.pts == f.pts && p.dts
            == f.dts && p.data == bytes_seq(f.data) && p.is_audio),
        !(f.track is Audio) ==> live_event(f) == EventModel::Video,
{
}

} // verus!
