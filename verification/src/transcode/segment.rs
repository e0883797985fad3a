//! Cuts the output of an encoder into segments.

use bytes::{Bytes, BytesMut};
use vstd::prelude::*;

use crate::buffer::{buf_extend, buf_freeze, buf_new, buf_seq, buf_slice, buf_split};
use crate::buffer::{bytes_clone, bytes_seq, bytes_slice};
use crate::common::types::{EncodedSegment, FrameRate, RenditionId, SegmentModel, StreamId};

verus! {

/// An encoded packet, before segmentation.
#[derive(Debug)]
pub struct EncodedPacket {
    /// Presentation timestamp in ticks of 1/90000 s.
    pub pts: i64,
    /// Decode timestamp in ticks of 1/90000 s.
    pub dts: i64,
    pub keyframe: bool,
    pub data: Bytes,
    pub is_audio: bool,
}

/// What an encoded packet says.
#[verifier::ext_equal]
pub struct PacketModel {
    pub pts: int,
    pub dts: int,
    pub keyframe: bool,
    pub data: Seq<u8>,
    pub is_audio: bool,
}

impl View for EncodedPacket {
    type V = PacketModel;

    open spec fn view(&self) -> PacketModel {
        PacketModel {
            pts: self.pts as int,
            dts: self.dts as int,
            keyframe: self.keyframe,
            data: bytes_seq(self.data),
            is_audio: self.is_audio,
        }
    }
}

impl EncodedPacket {
    /// A copy of the packet.
    pub fn copy(&self) -> (r: Self)
        ensures
            r@ == self@,
    {
        EncodedPacket {
            pts: self.pts,
            dts: self.dts,
            keyframe: self.keyframe,
            data: bytes_clone(&self.data),
            is_audio: self.is_audio,
        }
    }
}

impl PacketModel {
    /// The video bytes of the packet.
    pub open spec fn video(self) -> Seq<u8> {
        if self.is_audio {
            Seq::empty()
        } else {
            self.data
        }
    }

    /// The audio bytes of the packet.
    pub open spec fn audio(self) -> Seq<u8> {
        if self.is_audio {
            self.data
        } else {
            Seq::empty()
        }
    }

    /// The packet is a video keyframe.
    pub open spec fn cuttable(self) -> bool {
        !self.is_audio && self.keyframe
    }
}

/// What holds of every segment of a rendition.
#[verifier::ext_equal]
pub struct SegmentParams {
    pub stream_id: StreamId,
    pub rendition: RenditionId,
    /// Least duration of a segment that is not the last, in ticks of 1/90000 s.
    pub target_ticks: int,
    pub width: u32,
    pub height: u32,
    pub video_bitrate_kbps: u32,
    pub audio_bitrate_kbps: u32,
    pub profile: Seq<char>,
    pub level: Seq<char>,
    pub frame_rate: FrameRate,
}

/// What has been gathered for the next segment.
#[verifier::ext_equal]
pub struct Gathered {
    pub params: SegmentParams,
    pub video: Seq<u8>,
    pub audio: Seq<u8>,
    /// Timestamp of the first packet.
    pub start: Option<int>,
    /// Timestamp of the most recent packet.
    pub last: int,
    /// Number of the next segment.
    pub next_sequence: nat,
}

impl Gathered {
    /// The timestamp at which the next segment starts.
    pub open spec fn start_pts(self) -> int {
        match self.start {
            Some(s) => s,
            None => 0,
        }
    }

    /// With one more packet.
    pub open spec fn fed(self, p: PacketModel) -> Gathered {
        Gathered {
            video: self.video + p.video(),
            audio: self.audio + p.audio(),
            start: match self.start {
                Some(s) => Some(s),
                None => Some(p.pts),
            },
            last: p.pts,
            ..self
        }
    }

    /// A segment ends with the packet `p`, which is the most recent one: it is a video keyframe,
    /// and the target duration is reached.
    pub open spec fn cuts(self, p: PacketModel) -> bool {
        p.cuttable() && p.pts - self.start_pts() >= self.params.target_ticks
    }

    /// The duration of what has been gathered fits in 64 bits.
    pub open spec fn measurable(self) -> bool {
        i64::MIN <= self.last - self.start_pts() <= i64::MAX
    }

    /// The packet `p` can be taken: where it may end a segment, the duration fits in 64 bits, and
    /// where it does, the segment can be numbered.
    pub open spec fn takes(self, p: PacketModel) -> bool {
        p.cuttable() ==> {
            &&& self.fed(p).measurable()
            &&& self.fed(p).cuts(p) ==> self.next_sequence < u64::MAX
        }
    }

    /// What is left can be made the final segment, if it has any video.
    pub open spec fn can_end(self) -> bool {
        self.video.len() > 0 ==> self.measurable() && self.next_sequence < u64::MAX
    }

    /// The segment made of what has been gathered.
    pub open spec fn segment(self, is_last: bool) -> SegmentModel {
        SegmentModel {
            stream_id: self.params.stream_id,
            rendition: self.params.rendition,
            sequence: self.next_sequence,
            duration_ticks: self.last - self.start_pts(),
            pts_start: self.start_pts(),
            video: self.video,
            audio: if self.audio.len() > 0 {
                Some(self.audio)
            } else {
                None
            },
            is_last,
            width: self.params.width,
            height: self.params.height,
            video_bitrate_kbps: self.params.video_bitrate_kbps,
            audio_bitrate_kbps: self.params.audio_bitrate_kbps,
            profile: self.params.profile,
            level: self.params.level,
            frame_rate: self.params.frame_rate,
        }
    }

    /// After a segment: nothing is gathered, and the next number is up.
    pub open spec fn cleared(self) -> Gathered {
        Gathered {
            video: Seq::empty(),
            audio: Seq::empty(),
            start: None,
            next_sequence: self.next_sequence + 1,
            ..self
        }
    }

    /// What is gathered after the packet `p`.
    pub open spec fn after(self, p: PacketModel) -> Gathered {
        let m = self.fed(p);
        if m.cuts(p) {
            m.cleared()
        } else {
            m
        }
    }

    /// The segment that the packet `p` ends, if any.
    pub open spec fn cut(self, p: PacketModel) -> Option<SegmentModel> {
        let m = self.fed(p);
        if m.cuts(p) {
            Some(m.segment(false))
        } else {
            None
        }
    }
}

/// What packets say.
pub open spec fn packet_models(p: Seq<EncodedPacket>) -> Seq<PacketModel> {
    p.map_values(|x: EncodedPacket| x@)
}

/// What a segment says, if there is one.
pub open spec fn segment_view(s: Option<EncodedSegment>) -> Option<SegmentModel> {
    match s {
        Some(s) => Some(s@),
        None => None,
    }
}

/// Gathers encoded packets and emits a segment at the first video keyframe at or after the
/// target duration.
pub struct SegmentAccumulator {
    stream_id: StreamId,
    rendition: RenditionId,
    target_ticks: i64,
    video_buffer: BytesMut,
    audio_buffer: BytesMut,
    segment_start_pts: Option<i64>,
    last_pts: i64,
    next_sequence: u64,
    width: u32,
    height: u32,
    video_bitrate_kbps: u32,
    audio_bitrate_kbps: u32,
    profile: String,
    level: String,
    frame_rate: FrameRate,
}

impl View for SegmentAccumulator {
    type V = Gathered;

    closed spec fn view(&self) -> Gathered {
        Gathered {
            params: SegmentParams {
                stream_id: self.stream_id,
                rendition: self.rendition,
                target_ticks: self.target_ticks as int,
                width: self.width,
                height: self.height,
                video_bitrate_kbps: self.video_bitrate_kbps,
                audio_bitrate_kbps: self.audio_bitrate_kbps,
                profile: self.profile@,
                level: self.level@,
                frame_rate: self.frame_rate,
            },
            video: buf_seq(self.video_buffer),
            audio: buf_seq(self.audio_buffer),
            start: match self.segment_start_pts {
                Some(s) => Some(s as int),
                None => None,
            },
            last: self.last_pts as int,
            next_sequence: self.next_sequence as nat,
        }
    }
}

impl SegmentAccumulator {
    /// Nothing gathered.
    pub fn new(
        stream_id: StreamId,
        rendition: RenditionId,
        target_ticks: i64,
        width: u32,
        height: u32,
        video_bitrate_kbps: u32,
        audio_bitrate_kbps: u32,
        profile: String,
        level: String,
        frame_rate: FrameRate,
    ) -> (r: Self)
        ensures
            r@ == (Gathered {
                params: SegmentParams {
                    stream_id,
                    rendition,
                    target_ticks: target_ticks as int,
                    width,
                    height,
                    video_bitrate_kbps,
                    audio_bitrate_kbps,
                    profile: profile@,
                    level: level@,
                    frame_rate,
                },
                video: Seq::empty(),
                audio: Seq::empty(),
                start: None,
                last: 0,
                next_sequence: 0,
            }),
    {
        SegmentAccumulator {
            stream_id,
            rendition,
            target_ticks,
            video_buffer: buf_new(),
            audio_buffer: buf_new(),
            segment_start_pts: None,
            last_pts: 0,
            next_sequence: 0,
            width,
            height,
            video_bitrate_kbps,
            audio_bitrate_kbps,
            profile,
            level,
            frame_rate,
        }
    }

    /// Whether a packet can be taken.
    pub fn accepts(&self, packet: &EncodedPacket) -> (r: bool)
        ensures
            r == self@.takes(packet@),
    {
        if packet.is_audio || !packet.keyframe {
            return true;
        }
        let start: i64 = match self.segment_start_pts {
            Some(s) => s,
            None => packet.pts,
        };
        let ticks: i128 = packet.pts as i128 - start as i128;
        ticks >= i64::MIN as i128 && ticks <= i64::MAX as i128 && (ticks
            < self.target_ticks as i128 || self.next_sequence < u64::MAX)
    }

    /// Whether all packets of a run can be taken, one after another.
    pub fn accepts_all(&self, packets: &Vec<EncodedPacket>) -> (r: bool)
        ensures
            r == takes_all(self@, packet_models(packets@)),
    {
        let ghost all = packet_models(packets@);
        let mut start: Option<i64> = self.segment_start_pts;
        let mut next: u64 = self.next_sequence;
        let mut i: usize = 0;
        assert(all.subrange(0, 0) =~= Seq::empty());
        while i < packets.len()
            invariant
                i <= packets@.len(),
                all == packet_models(packets@),
                takes_all(self@, all.subrange(0, i as int)),
                after_all(self@, all.subrange(0, i as int)).params == self@.params,
                after_all(self@, all.subrange(0, i as int)).next_sequence == next,
                after_all(self@, all.subrange(0, i as int)).start == match start {
                    Some(s) => Some(s as int),
                    None => None,
                },
            decreases packets@.len() - i,
        {
            let p = &packets[i];
            let ghost before = after_all(self@, all.subrange(0, i as int));
            proof {
                assert(all[i as int] == p@);
                assert(all.subrange(0, i + 1).drop_last() =~= all.subrange(0, i as int));
                assert(all.subrange(0, i + 1).last() == p@);
            }
            let from: i64 = match start {
                Some(s) => s,
                None => p.pts,
            };
            start = Some(from);
            if !p.is_audio && p.keyframe {
                let ticks: i128 = p.pts as i128 - from as i128;
                let cuts = ticks >= self.target_ticks as i128;
                if ticks < i64::MIN as i128 || ticks > i64::MAX as i128 || (cuts && next
                    == u64::MAX) {
                    proof {
                        assert(!before.takes(p@));
                        if takes_all(self@, all) {
                            lemma_takes_prefix(self@, all, i + 1);
                        }
                    }
                    return false;
                }
                if cuts {
                    start = None;
                    next = next + 1;
                }
            }
            assert(before.takes(p@));
            i = i + 1;
        }
        assert(all.subrange(0, i as int) =~= all);
        true
    }

    /// Whether what is left can be made the final segment.
    pub fn accepts_end(&self) -> (r: bool)
        ensures
            r == self@.can_end(),
    {
        if buf_slice(&self.video_buffer).len() == 0 {
            return true;
        }
        let start: i64 = match self.segment_start_pts {
            Some(s) => s,
            None => 0,
        };
        let ticks: i128 = self.last_pts as i128 - start as i128;
        ticks >= i64::MIN as i128 && ticks <= i64::MAX as i128 && self.next_sequence < u64::MAX
    }

    /// Takes an encoded packet. Returns a segment where the packet ends one.
    pub fn push(&mut self, packet: &EncodedPacket) -> (r: Option<EncodedSegment>)
        requires
            old(self)@.takes(packet@),
        ensures
            final(self)@ == old(self)@.after(packet@),
            segment_view(r) == old(self)@.cut(packet@),
    {
        if self.segment_start_pts.is_none() {
            self.segment_start_pts = Some(packet.pts);
        }
        self.last_pts = packet.pts;
        if packet.is_audio {
            buf_extend(&mut self.audio_buffer, bytes_slice(&packet.data));
        } else {
            buf_extend(&mut self.video_buffer, bytes_slice(&packet.data));
        }
        assert(self@ =~= old(self)@.fed(packet@));
        if !packet.is_audio && packet.keyframe {
            let start: i64 = match self.segment_start_pts {
                Some(s) => s,
                None => 0,
            };
            if packet.pts - start >= self.target_ticks {
                return Some(self.emit_segment(false));
            }
        }
        None
    }

    /// The rest as the final segment, unless there is no video.
    pub fn flush(self) -> (r: Option<EncodedSegment>)
        requires
            self@.can_end(),
        ensures
            segment_view(r) == if self@.video.len() == 0 {
                None
            } else {
                Some(self@.segment(true))
            },
    {
        let mut acc = self;
        if buf_slice(&acc.video_buffer).len() == 0 {
            return None;
        }
        Some(acc.emit_segment(true))
    }

    fn emit_segment(&mut self, is_last: bool) -> (r: EncodedSegment)
        requires
            old(self)@.measurable(),
            old(self)@.next_sequence < u64::MAX,
        ensures
            final(self)@ == old(self)@.cleared(),
            r@ == old(self)@.segment(is_last),
    {
        let start: i64 = match self.segment_start_pts {
            Some(s) => s,
            None => 0,
        };
        let video_data = buf_freeze(buf_split(&mut self.video_buffer));
        let audio_data = if buf_slice(&self.audio_buffer).len() > 0 {
            Some(buf_freeze(buf_split(&mut self.audio_buffer)))
        } else {
            None
        };
        let segment = EncodedSegment {
            stream_id: self.stream_id,
            rendition: self.rendition,
            sequence: self.next_sequence,
            duration_ticks: self.last_pts - start,
            pts_start: start,
            video_data,
            audio_data,
            is_last,
            width: self.width,
            height: self.height,
            video_bitrate_kbps: self.video_bitrate_kbps,
            audio_bitrate_kbps: self.audio_bitrate_kbps,
            profile: self.profile.clone(),
            level: self.level.clone(),
            frame_rate: self.frame_rate,
        };
        self.next_sequence = self.next_sequence + 1;
        self.segment_start_pts = None;
        assert(segment@ =~= old(self)@.segment(is_last));
        segment
    }
}

// ---------------------------------------------------------------------------
// Runs of packets
// ---------------------------------------------------------------------------

/// What is gathered after a run of packets.
pub open spec fn after_all(m: Gathered, packets: Seq<PacketModel>) -> Gathered
    decreases packets.len(),
{
    if packets.len() == 0 {
        m
    } else {
        after_all(m, packets.drop_last()).after(packets.last())
    }
}

/// The segments that a run of packets ends, in order.
pub open spec fn cut_all(m: Gathered, packets: Seq<PacketModel>) -> Seq<SegmentModel>
    decreases packets.len(),
{
    if packets.len() == 0 {
        Seq::empty()
    } else {
        let before = cut_all(m, packets.drop_last());
        match after_all(m, packets.drop_last()).cut(packets.last()) {
            Some(s) => before.push(s),
            None => before,
        }
    }
}

/// The packets of a run can be taken, one after another.
pub open spec fn takes_all(m: Gathered, packets: Seq<PacketModel>) -> bool
    decreases packets.len(),
{
    packets.len() == 0 || (takes_all(m, packets.drop_last()) && after_all(
        m,
        packets.drop_last(),
    ).takes(packets.last()))
}

pub(crate) proof fn lemma_takes_prefix(m: Gathered, packets: Seq<PacketModel>, n: int)
    requires
        0 <= n <= packets.len(),
        takes_all(m, packets),
    ensures
        takes_all(m, packets.subrange(0, n)),
    decreases packets.len(),
{
    if n == packets.len() {
        assert(packets.subrange(0, n) =~= packets);
    } else {
        lemma_takes_prefix(m, packets.drop_last(), n);
        assert(packets.drop_last().subrange(0, n) =~= packets.subrange(0, n));
    }
}

/// The video bytes of a run of packets.
pub open spec fn video_fed(packets: Seq<PacketModel>) -> Seq<u8>
    decreases packets.len(),
{
    if packets.len() == 0 {
        Seq::empty()
    } else {
        video_fed(packets.drop_last()) + packets.last().video()
    }
}

/// The audio bytes of a run of packets.
pub open spec fn audio_fed(packets: Seq<PacketModel>) -> Seq<u8>
    decreases packets.len(),
{
    if packets.len() == 0 {
        Seq::empty()
    } else {
        audio_fed(packets.drop_last()) + packets.last().audio()
    }
}

/// The video bytes of segments.
pub open spec fn video_of(segments: Seq<SegmentModel>) -> Seq<u8>
    decreases segments.len(),
{
    if segments.len() == 0 {
        Seq::empty()
    } else {
        video_of(segments.drop_last()) + segments.last().video
    }
}

/// The audio bytes of segments.
pub open spec fn audio_of(segments: Seq<SegmentModel>) -> Seq<u8>
    decreases segments.len(),
{
    if segments.len() == 0 {
        Seq::empty()
    } else {
        audio_of(segments.drop_last()) + match segments.last().audio {
            Some(a) => a,
            None => Seq::empty(),
        }
    }
}

proof fn lemma_moved_over(a: Seq<u8>, b: Seq<u8>, c: Seq<u8>, d: Seq<u8>, e: Seq<u8>)
    requires
        a + b == c + d,
    ensures
        a + (b + e) == c + (d + e),
{
    assert(a + (b + e) =~= (a + b) + e);
    assert(c + (d + e) =~= (c + d) + e);
}

/// Segments hold the bytes of the packets: put one after another, with what is still gathered,
/// they make up what was gathered before and all packets, video and audio each.
pub proof fn segments_hold_every_byte(m: Gathered, packets: Seq<PacketModel>)
    ensures
        video_of(cut_all(m, packets)) + after_all(m, packets).video == m.video + video_fed(packets),
        audio_of(cut_all(m, packets)) + after_all(m, packets).audio == m.audio + audio_fed(packets),
    decreases packets.len(),
{
    if packets.len() == 0 {
        assert(video_of(cut_all(m, packets)) + m.video =~= m.video + video_fed(packets));
        assert(audio_of(cut_all(m, packets)) + m.audio =~= m.audio + audio_fed(packets));
    } else {
        let rest = packets.drop_last();
        let p = packets.last();
        segments_hold_every_byte(m, rest);
        let mid = after_all(m, rest);
        let before = cut_all(m, rest);
        let all = cut_all(m, packets);
        lemma_moved_over(video_of(before), mid.video, m.video, video_fed(rest), p.video());
        lemma_moved_over(audio_of(before), mid.audio, m.audio, audio_fed(rest), p.audio());
        if mid.fed(p).cuts(p) {
            assert(all.drop_last() =~= before);
            let end = Seq::<u8>::empty();
            assert(video_of(all) + end =~= video_of(before) + (mid.video + p.video()));
            assert(audio_of(all) + end =~= audio_of(before) + (mid.audio + p.audio()));
        }
    }
}

/// The segments of a rendition are numbered one after another, none is the last, and each is at
/// least as long as the target.
pub proof fn segments_count_up_and_reach_the_target(m: Gathered, packets: Seq<PacketModel>)
    ensures
        after_all(m, packets).params == m.params,
        after_all(m, packets).next_sequence == m.next_sequence + cut_all(m, packets).len(),
        forall|i: int|
            0 <= i < cut_all(m, packets).len() ==> {
                &&& (#[trigger] cut_all(m, packets)[i]).sequence == m.next_sequence + i
                &&& cut_all(m, packets)[i].duration_ticks >= m.params.target_ticks
                &&& !cut_all(m, packets)[i].is_last
            },
    decreases packets.len(),
{
    if packets.len() > 0 {
        segments_count_up_and_reach_the_target(m, packets.drop_last());
    }
}

/// The packet could end a segment that began at `start`: it is video, a keyframe, and the target is
/// reached.
pub open spec fn could_end(p: PacketModel, start: int, target_ticks: int) -> bool {
    !p.is_audio && p.keyframe && p.pts - start >= target_ticks
}

proof fn lemma_uncut(m: Gathered, packets: Seq<PacketModel>)
    requires
        m.start is None,
        packets.len() > 0,
    ensures
        cut_all(m, packets).len() == 0 <==> forall|i: int|
            0 <= i < packets.len() ==> !could_end(
                #[trigger] packets[i],
                packets[0].pts,
                m.params.target_ticks,
            ),
        cut_all(m, packets).len() == 0 ==> after_all(m, packets).start == Some(packets[0].pts)
            && after_all(m, packets).last == packets.last().pts,
    decreases packets.len(),
{
    let rest = packets.drop_last();
    let target = m.params.target_ticks;
    segments_count_up_and_reach_the_target(m, rest);
    if rest.len() > 0 {
        lemma_uncut(m, rest);
        assert(rest[0] == packets[0]);
        if forall|i: int|
            0 <= i < packets.len() ==> !could_end(
                #[trigger] packets[i],
                packets[0].pts,
                target,
            ) {
            assert forall|i: int| 0 <= i < rest.len() implies !could_end(
                #[trigger] rest[i],
                rest[0].pts,
                target,
            ) by {
                assert(rest[i] == packets[i]);
            }
        }
        if cut_all(m, packets).len() == 0 {
            assert forall|i: int| 0 <= i < packets.len() implies !could_end(
                #[trigger] packets[i],
                packets[0].pts,
                target,
            ) by {
                if i < rest.len() {
                    assert(rest[i] == packets[i]);
                }
            }
        }
    } else {
        assert(after_all(m, rest) == m);
        assert(cut_all(m, rest).len() == 0);
    }
    if cut_all(m, packets).len() != 0 && cut_all(m, rest).len() == 0 {
        assert(could_end(packets[packets.len() - 1], packets[0].pts, target));
    }
}

/// A segment ends with the first video keyframe at which the target is reached, counted from its
/// first packet, and with no earlier packet. It starts at the time of its first packet, lasts until
/// that keyframe, and holds the bytes of all of them, video and audio apart; the next packet begins
/// the next segment.
pub proof fn segments_end_at_the_first_keyframe(m: Gathered, packets: Seq<PacketModel>)
    requires
        m.start is None,
        m.video.len() == 0,
        m.audio.len() == 0,
        packets.len() > 0,
        forall|i: int|
            0 <= i < packets.len() - 1 ==> !could_end(
                #[trigger] packets[i],
                packets[0].pts,
                m.params.target_ticks,
            ),
    ensures
        ({
            let start = packets[0].pts;
            let p = packets.last();
            let r = cut_all(m, packets);
            let end = after_all(m, packets);
            if could_end(p, start, m.params.target_ticks) {
                &&& r.len() == 1
                &&& r[0].pts_start == start
                &&& r[0].duration_ticks == p.pts - start
                &&& r[0].sequence == m.next_sequence
                &&& r[0].video == video_fed(packets)
                &&& audio_of(r) == audio_fed(packets)
                &&& r[0].audio is Some <==> audio_fed(packets).len() > 0
                &&& !r[0].is_last
                &&& end.start is None
                &&& end.video.len() == 0
                &&& end.audio.len() == 0
            } else {
                &&& r.len() == 0
                &&& end.video == video_fed(packets)
                &&& end.audio == audio_fed(packets)
                &&& end.segment(true).pts_start == start
                &&& end.segment(true).duration_ticks == p.pts - start
                &&& end.segment(true).video == video_fed(packets)
                &&& end.segment(true).is_last
            }
        }),
{
    let rest = packets.drop_last();
    let target = m.params.target_ticks;
    assert forall|i: int| 0 <= i < rest.len() implies !could_end(
        #[trigger] rest[i],
        rest[0].pts,
        target,
    ) by {
        assert(rest[i] == packets[i]);
        assert(rest[0] == packets[0]);
    }
    if rest.len() > 0 {
        lemma_uncut(m, rest);
        assert(rest[0] == packets[0]);
    }
    segments_count_up_and_reach_the_target(m, rest);
    lemma_uncut(m, packets);
    segments_hold_every_byte(m, packets);
    let r = cut_all(m, packets);
    let end = after_all(m, packets);
    assert(m.video + video_fed(packets) =~= video_fed(packets));
    assert(m.audio + audio_fed(packets) =~= audio_fed(packets));
    if r.len() == 0 {
        assert(video_of(r) + end.video =~= end.video);
        assert(audio_of(r) + end.audio =~= end.audio);
        if could_end(packets.last(), packets[0].pts, target) {
            assert(could_end(packets[packets.len() - 1], packets[0].pts, target));
            assert(false);
        }
    } else {
        assert(cut_all(m, rest).len() == 0);
        assert(r.drop_last() =~= Seq::<SegmentModel>::empty());
        assert(video_of(r.drop_last()) =~= Seq::<u8>::empty());
        assert(audio_of(r.drop_last()) =~= Seq::<u8>::empty());
        assert(video_of(r) =~= r[0].video);
        assert(video_of(r) + end.video =~= r[0].video);
        assert(audio_of(r) + end.audio =~= audio_of(r));
    }
}

/// A packet belongs to one track: its bytes are audio where it says so, and video otherwise.
pub proof fn packets_belong_to_one_track(p: PacketModel)
    ensures
        p.is_audio ==> p.audio() == p.data && p.video().len() == 0,
        !p.is_audio ==> p.video() == p.data && p.audio().len() == 0,
{
}

} // verus!
