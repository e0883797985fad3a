//! The packager of one stream: what it writes and reports for each encoded segment.

use bytes::Bytes;
use vstd::prelude::*;
use vstd::string::*;
use vstd::utf8::encode_utf8;

use crate::buffer::{
    bytes_clone, bytes_from_string, bytes_from_vec, bytes_len, bytes_seq,
};
use crate::binary64::{round_53, to_53_bits};
use crate::clock;
use crate::clock::in_calendar;
use crate::common::config::PackagingConfig;
use crate::common::types::{
    EncodedSegment, RenditionId, StorageWrite, StreamId, WriteModel,
};
use crate::control::events::{PipelineEvent, Report};
use crate::observability::metrics as obs;
use crate::observability::metrics::{measured2, Measurement, MetricChange, MetricUpdate};
use crate::package::hls;
use crate::package::hls::{
    field32, init_segment, media_segment, InitModel, InitSegmentParams, MediaModel,
    MediaSegmentParams, SampleInfo,
};
use crate::package::manifest;
use crate::package::manifest::{
    announceable_all, media_text, multivariant_text, rendition_file, seconds_of, segment_name,
    variants,
    Listing, RenditionInfo, Variant,
};
use crate::package::segment_index::{listing, window_listings, SegmentIndex};
use crate::storage;
use crate::storage::content_type_of;
use crate::text;
use crate::transcode::profile;

verus! {

/// Something the packager wants done.
#[derive(Debug)]
pub enum PackagerOutput {
    /// Store an object.
    Write(StorageWrite),
    /// Report to the control plane.
    Event(PipelineEvent),
    /// Record a measurement.
    Metric(MetricUpdate),
}

/// What an output says.
#[verifier::ext_equal]
pub enum Output {
    Write(WriteModel),
    Event(Report),
    Metric(Measurement),
}

impl View for PackagerOutput {
    type V = Output;

    open spec fn view(&self) -> Output {
        match *self {
            PackagerOutput::Write(w) => Output::Write(w@),
            PackagerOutput::Event(e) => Output::Event(e@),
            PackagerOutput::Metric(m) => Output::Metric(m@),
        }
    }
}

/// What each output says, in order.
pub open spec fn outputs(o: Seq<PackagerOutput>) -> Seq<Output> {
    o.map_values(|x: PackagerOutput| x@)
}

// ---------------------------------------------------------------------------
// What is made of a segment
// ---------------------------------------------------------------------------

/// The initialization segment of the rendition that `s` starts. The parameter sets and the audio
/// configuration are fixed.
pub open spec fn init_of(s: EncodedSegment) -> InitModel {
    InitModel {
        width: s.width,
        height: s.height,
        video_timescale: 90000,
        audio_timescale: 48000,
        sps: seq![0x67u8, 0x42u8, 0x00u8, 0x1eu8],
        pps: seq![0x68u8, 0xceu8, 0x38u8, 0x80u8],
        audio_specific_config: if s.audio_data is Some {
            Some(seq![0x12u8, 0x10u8])
        } else {
            None
        },
        has_audio: s.audio_data is Some,
    }
}

/// How the rendition that `s` starts is announced.
pub open spec fn variant_of(s: EncodedSegment) -> Variant {
    Variant {
        id: s.rendition,
        width: s.width,
        height: s.height,
        video_bitrate_kbps: s.video_bitrate_kbps,
        audio_bitrate_kbps: s.audio_bitrate_kbps,
        profile: s.profile@,
        level: s.level@,
        frame_rate: s.frame_rate,
        has_audio: s.audio_data is Some,
    }
}

/// A duration in seconds as a 32-bit sample duration in ticks, in double precision and cut to a
/// whole number: negative ones count as 0, and what is too long as the longest.
pub open spec fn sample_duration(ticks: i64) -> u32 {
    if ticks < 0 {
        0
    } else {
        let q = seconds_of(ticks as nat);
        let n = to_53_bits(q.0 * 90_000, 1) / q.1;
        if n > u32::MAX {
            u32::MAX
        } else {
            n as u32
        }
    }
}

fn sample_ticks(ticks: i64) -> (r: u32)
    ensures
        r == sample_duration(ticks),
{
    if ticks < 0 {
        return 0;
    }
    let q = manifest::in_seconds(ticks as u64);
    let n: u128 = round_53(q.0 * 90_000) / q.1;
    if n > u32::MAX as u128 {
        u32::MAX
    } else {
        n as u32
    }
}

/// The media segment of `s`: one sample with all of its video.
pub open spec fn media_of(s: EncodedSegment) -> MediaModel {
    MediaModel {
        sequence_number: s.sequence,
        base_decode_time: s.pts_start,
        samples: seq![
            SampleInfo {
                duration: sample_duration(s.duration_ticks),
                size: field32(bytes_seq(s.video_data).len() as int),
                flags: if s.sequence == 0 {
                    0x02000000
                } else {
                    0x01010000
                },
                composition_offset: 0,
            },
        ],
        media_data: bytes_seq(s.video_data),
        track_id: 1,
    }
}

/// The path of a file of the rendition.
pub open spec fn file_of(stream_id: StreamId, r: RenditionId, file: Seq<char>) -> Seq<char> {
    rendition_file(stream_id.text(), r.name(), file)
}

/// The write of the initialization segment.
pub open spec fn init_write(stream_id: StreamId, s: EncodedSegment) -> Output {
    Output::Write(
        WriteModel {
            path: file_of(stream_id, s.rendition, "init.mp4"@),
            data: init_segment(init_of(s)),
            content_type: "video/mp4"@,
        },
    )
}

/// The outputs for a segment after the initialization segment: the media segment, the playlist
/// that lists the window `w`, and the reports.
pub open spec fn segment_outputs(
    stream_id: StreamId,
    s: EncodedSegment,
    w: Seq<Listing>,
    hls_version: u32,
    is_vod: bool,
) -> Seq<Output> {
    let path = file_of(stream_id, s.rendition, segment_name(s.sequence));
    let all = seq![
        Output::Write(
            WriteModel {
                path,
                data: media_segment(media_of(s)),
                content_type: content_type_of(path),
            },
        ),
        Output::Metric(
            measured2(
                "streaminfa_package_segments_written_total"@,
                "stream_id"@,
                stream_id.text(),
                "rendition"@,
                s.rendition.name(),
                MetricChange::CounterAdd(1),
            ),
        ),
        Output::Write(
            WriteModel {
                path: file_of(stream_id, s.rendition, "media.m3u8"@),
                data: encode_utf8(media_text(w, hls_version, is_vod, s.is_last)),
                content_type: "application/vnd.apple.mpegurl"@,
            },
        ),
        Output::Metric(
            measured2(
                "streaminfa_package_manifest_updates_total"@,
                "stream_id"@,
                stream_id.text(),
                "rendition"@,
                s.rendition.name(),
                MetricChange::CounterAdd(1),
            ),
        ),
        Output::Event(
            Report::SegmentProduced {
                stream_id,
                rendition: s.rendition.name(),
                sequence: s.sequence,
            },
        ),
    ];
    if s.is_last {
        all.push(
            Output::Event(
                Report::RenditionComplete { stream_id, rendition: s.rendition.name() },
            ),
        )
    } else {
        all
    }
}

/// A window after an entry came in at the back: the oldest leaves where there is no room.
pub open spec fn slid(w: Seq<Listing>, l: Listing, capacity: nat) -> Seq<Listing> {
    if w.len() + 1 > capacity {
        w.push(l).drop_first()
    } else {
        w.push(l)
    }
}

// ---------------------------------------------------------------------------
// The packager
// ---------------------------------------------------------------------------

/// The packager of one stream.
#[derive(Debug)]
pub struct Packager {
    stream_id: StreamId,
    live_window_segments: usize,
    hls_version: u32,
    is_vod: bool,
    /// One per rendition, in the order in which the renditions came up.
    indexes: Vec<SegmentIndex>,
    infos: Vec<RenditionInfo>,
}

impl Packager {
    /// The stream that is packaged.
    pub closed spec fn stream(self) -> StreamId {
        self.stream_id
    }

    /// How many segments a playlist lists at most.
    pub closed spec fn capacity(self) -> nat {
        self.live_window_segments as nat
    }

    /// The HLS version of the playlists.
    pub closed spec fn version(self) -> u32 {
        self.hls_version
    }

    /// The stream is played on demand, not live.
    pub closed spec fn on_demand(self) -> bool {
        self.is_vod
    }

    /// The renditions that have come up, in order, as they are announced.
    pub closed spec fn announced(self) -> Seq<Variant> {
        variants(self.infos@)
    }

    /// The rendition has come up.
    pub open spec fn knows(self, r: RenditionId) -> bool {
        exists|i: int| 0 <= i < self.announced().len() && (#[trigger] self.announced()[i]).id == r
    }

    /// What the playlist of a rendition lists.
    pub closed spec fn listed(self, r: RenditionId) -> Seq<Listing> {
        if self.knows(r) {
            window_listings(self.indexes@[self.place(r)].window())
        } else {
            Seq::empty()
        }
    }

    /// The number of segments of a rendition so far.
    pub closed spec fn produced(self, r: RenditionId) -> u64 {
        if self.knows(r) {
            self.indexes@[self.place(r)].total()
        } else {
            0
        }
    }

    spec fn place(self, r: RenditionId) -> int {
        choose|i: int| 0 <= i < self.announced().len() && (#[trigger] self.announced()[i]).id == r
    }

    /// Each rendition comes up once, has its own well-formed window, and can be announced.
    pub closed spec fn wf(self) -> bool {
        &&& self.indexes@.len() == self.infos@.len()
        &&& forall|i: int|
            0 <= i < self.indexes@.len() ==> (#[trigger] self.indexes@[i]).wf()
                && self.indexes@[i].capacity() == self.live_window_segments
        &&& forall|i: int, j: int|
            0 <= i < j < self.infos@.len() ==> (#[trigger] self.infos@[i]).id != (
            #[trigger] self.infos@[j]).id
        &&& announceable_all(variants(self.infos@))
    }

    proof fn lemma_place(self, i: int)
        requires
            self.wf(),
            0 <= i < self.infos@.len(),
        ensures
            self.knows(self.infos@[i].id),
            self.place(self.infos@[i].id) == i,
    {
        let r = self.infos@[i].id;
        assert(self.announced()[i].id == r);
        let p = self.place(r);
        assert(self.announced()[p].id == r);
        assert(self.infos@[p].id == r);
    }

    /// A packager before its first segment. Live playlists list the latest segments; on-demand
    /// ones list all of them.
    pub fn new(stream_id: StreamId, config: &PackagingConfig, is_vod: bool) -> (r: Self)
        ensures
            r.wf(),
            r.stream() == stream_id,
            r.capacity() == if is_vod {
                usize::MAX as nat
            } else {
                config.live_window_segments as nat
            },
            r.version() == config.hls_version,
            r.on_demand() == is_vod,
            r.announced() == Seq::<Variant>::empty(),
            forall|q: RenditionId| #[trigger] r.produced(q) == 0,
            forall|q: RenditionId| #[trigger] r.listed(q) == Seq::<Listing>::empty(),
    {
        let r = Packager {
            stream_id,
            live_window_segments: if is_vod {
                usize::MAX
            } else {
                config.live_window_segments as usize
            },
            hls_version: config.hls_version,
            is_vod,
            indexes: Vec::new(),
            infos: Vec::new(),
        };
        assert(r.announced() =~= Seq::<Variant>::empty());
        r
    }

    /// The rendition is as it was before.
    pub open spec fn keeps(self, before: Self, r: RenditionId) -> bool {
        &&& self.knows(r) == before.knows(r)
        &&& self.listed(r) == before.listed(r)
        &&& self.produced(r) == before.produced(r)
    }

    /// What the packager is after a segment: its rendition is announced if it was not, the window
    /// of the rendition has slid, and all other windows are as they were.
    pub open spec fn advanced(self, s: EncodedSegment, now: i128, after: Self) -> bool {
        &&& after.wf()
        &&& after.stream() == self.stream()
        &&& after.capacity() == self.capacity()
        &&& after.version() == self.version()
        &&& after.on_demand() == self.on_demand()
        &&& after.announced() == if self.knows(s.rendition) {
            self.announced()
        } else {
            self.announced().push(variant_of(s))
        }
        &&& after.produced(s.rendition) == self.produced(s.rendition) + 1
        &&& after.listed(s.rendition) == slid(
            self.listed(s.rendition),
            Listing {
                sequence: self.produced(s.rendition),
                duration_ticks: s.duration_ticks,
                filename: segment_name(self.produced(s.rendition)),
                program_date_time: Some(now),
            },
            self.capacity(),
        )
        &&& forall|r: RenditionId| r != s.rendition ==> #[trigger] after.keeps(self, r)
    }

    /// What is put out for a segment, where `after` is the packager after it.
    pub open spec fn put_out(self, s: EncodedSegment, after: Self) -> Seq<Output> {
        let rest = segment_outputs(
            self.stream(),
            s,
            after.listed(s.rendition),
            self.version(),
            self.on_demand(),
        );
        if self.knows(s.rendition) {
            rest
        } else {
            seq![init_write(self.stream(), s)] + rest
        }
    }

    fn find(&self, r: RenditionId) -> (i: Option<usize>)
        requires
            self.wf(),
        ensures
            i is Some <==> self.knows(r),
            i matches Some(i) ==> i < self.infos@.len() && self.infos@[i as int].id == r
                && self.place(r) == i,
    {
        let mut i: usize = 0;
        while i < self.infos.len()
            invariant
                i <= self.infos@.len(),
                self.wf(),
                forall|j: int| 0 <= j < i ==> (#[trigger] self.infos@[j]).id != r,
            decreases self.infos@.len() - i,
        {
            if self.infos[i].id == r {
                proof {
                    self.lemma_place(i as int);
                }
                return Some(i);
            }
            i = i + 1;
        }
        assert(!self.knows(r)) by {
            if self.knows(r) {
                let j = self.place(r);
                assert(self.announced()[j].id == r);
                assert(self.infos@[j].id == r);
            }
        }
        None
    }

    /// Whether a segment can be packaged: its rendition has come up or can be announced, and has
    /// not run out of numbers.
    pub fn accepts(&self, segment: &EncodedSegment) -> (r: bool)
        requires
            self.wf(),
        ensures
            r == (self.produced(segment.rendition) < u64::MAX && (self.knows(segment.rendition)
                || variant_of(*segment).announceable())),
    {
        match self.find(segment.rendition) {
            Some(i) => self.indexes[i].total_segments_produced() < u64::MAX,
            None => segment.video_bitrate_kbps as u64 + segment.audio_bitrate_kbps as u64
                <= u32::MAX as u64 && profile::level_is_usable(&segment.level),
        }
    }

    /// Packages a segment that comes in now.
    pub fn package(&mut self, segment: &EncodedSegment) -> (r: Vec<PackagerOutput>)
        requires
            old(self).wf(),
            old(self).produced(segment.rendition) < u64::MAX,
            old(self).knows(segment.rendition) || variant_of(*segment).announceable(),
        ensures
            final(self).wf(),
            exists|now: i128| #[trigger]
                in_calendar(now) && old(self).advanced(*segment, now, *final(self)),
            outputs(r@) == old(self).put_out(*segment, *final(self)),
    {
        self.package_at(segment, clock::now())
    }

    /// Packages a segment that comes in at `now`.
    pub fn package_at(&mut self, segment: &EncodedSegment, now: i128) -> (r: Vec<PackagerOutput>)
        requires
            old(self).wf(),
            old(self).produced(segment.rendition) < u64::MAX,
            old(self).knows(segment.rendition) || variant_of(*segment).announceable(),
            in_calendar(now),
        ensures
            final(self).wf(),
            old(self).advanced(*segment, now, *final(self)),
            outputs(r@) == old(self).put_out(*segment, *final(self)),
    {
        let mut out: Vec<PackagerOutput> = Vec::new();
        let rendition = segment.rendition;
        let at: usize = match self.find(rendition) {
            Some(i) => i,
            None => {
                out.push(PackagerOutput::Write(init_segment_write(self.stream_id, segment)));
                let i = self.indexes.len();
                self.indexes.push(
                    SegmentIndex::new(self.stream_id, rendition, self.live_window_segments),
                );
                self.infos.push(rendition_info(segment));
                i
            },
        };
        let ghost mid = *self;
        proof {
            assert(variants(self.infos@) =~= if old(self).knows(rendition) {
                old(self).announced()
            } else {
                old(self).announced().push(variant_of(*segment))
            });
            if !old(self).knows(rendition) {
                assert forall|j: int| 0 <= j < old(self).infos@.len() implies (
                #[trigger] old(self).infos@[j]).id != rendition by {
                    assert(old(self).announced()[j].id == old(self).infos@[j].id);
                }
            }
            assert(self.wf());
            self.lemma_place(at as int);
            assert(mid.listed(rendition) =~= old(self).listed(rendition));
            assert(mid.produced(rendition) == old(self).produced(rendition));
        }
        let path = manifest::segment_path(
            &self.stream_id.to_text(),
            rendition.as_str(),
            segment.sequence,
        );
        let data = media_segment_data(segment);
        let size: u64 = bytes_len(&data) as u64;
        let content_type = text::owned(storage::content_type_for_path(&path));
        let copy = path.clone();
        let playlist = self.advance(at, segment.duration_ticks, path, size, now, segment.is_last);
        proof {
            self.lemma_others(*old(self), mid, rendition, at as int);
        }
        let ghost first = outputs(out@);
        let rest = finish_outputs(
            self.stream_id,
            segment,
            StorageWrite { path: copy, data, content_type },
            playlist,
            Ghost(self.listed(rendition)),
            Ghost(self.hls_version),
            Ghost(self.is_vod),
        );
        let ghost tail = outputs(rest@);
        let mut rest = rest;
        out.append(&mut rest);
        proof {
            assert(outputs(out@) =~= first + tail);
            if old(self).knows(rendition) {
                assert(first + tail =~= tail);
            } else {
                assert(first =~= seq![init_write(old(self).stream(), *segment)]);
            }
        }
        out
    }

    /// Only the window at `at` moved, so all other renditions are as they were.
    proof fn lemma_others(self, before: Self, mid: Self, r: RenditionId, at: int)
        requires
            before.wf(),
            mid.wf(),
            self.wf(),
            0 <= at < self.infos@.len(),
            self.infos@ == mid.infos@,
            self.infos@[at].id == r,
            self.indexes@.len() == mid.indexes@.len(),
            forall|i: int|
                0 <= i < self.indexes@.len() && i != at ==> #[trigger] self.indexes@[i]
                    == mid.indexes@[i],
            mid.infos@ == before.infos@ && mid.indexes@ == before.indexes@ || (mid.infos@.len()
                == before.infos@.len() + 1 && at == before.infos@.len() && forall|i: int|
                0 <= i < before.infos@.len() ==> #[trigger] mid.infos@[i] == before.infos@[i]
                    && mid.indexes@[i] == before.indexes@[i]),
        ensures
            forall|q: RenditionId| q != r ==> #[trigger] self.keeps(before, q),
    {
        assert forall|q: RenditionId| q != r implies #[trigger] self.keeps(before, q) by {
            if before.knows(q) {
                let j = before.place(q);
                assert(before.announced()[j].id == q);
                assert(before.infos@[j].id == q);
                assert(mid.infos@[j].id == q);
                self.lemma_place(j);
                before.lemma_place(j);
            }
            if self.knows(q) {
                let j = self.place(q);
                assert(self.announced()[j].id == q);
                assert(self.infos@[j].id == q);
                assert(j != at);
                if j < before.infos@.len() {
                    assert(before.infos@[j].id == q);
                    before.lemma_place(j);
                }
            }
            assert(self.knows(q) == before.knows(q));
            assert(self.produced(q) == before.produced(q));
            assert(self.listed(q) == before.listed(q));
        }
    }

    /// Adds a segment to the window at `at`, and gives the text of its playlist.
    fn advance(
        &mut self,
        at: usize,
        duration_ticks: i64,
        path: String,
        size: u64,
        now: i128,
        is_last: bool,
    ) -> (r: String)
        requires
            old(self).wf(),
            at < old(self).infos@.len(),
            old(self).produced(old(self).infos@[at as int].id) < u64::MAX,
            in_calendar(now),
        ensures
            final(self).wf(),
            final(self).stream_id == old(self).stream_id,
            final(self).live_window_segments == old(self).live_window_segments,
            final(self).hls_version == old(self).hls_version,
            final(self).is_vod == old(self).is_vod,
            final(self).infos@ == old(self).infos@,
            final(self).indexes@.len() == old(self).indexes@.len(),
            forall|i: int|
                0 <= i < final(self).indexes@.len() && i != at ==> (#[trigger] final(self).indexes@[i])
                    == old(self).indexes@[i],
            final(self).produced(old(self).infos@[at as int].id) == old(self).produced(
                old(self).infos@[at as int].id,
            ) + 1,
            final(self).listed(old(self).infos@[at as int].id) == slid(
                old(self).listed(old(self).infos@[at as int].id),
                Listing {
                    sequence: old(self).produced(old(self).infos@[at as int].id),
                    duration_ticks,
                    filename: segment_name(old(self).produced(old(self).infos@[at as int].id)),
                    program_date_time: Some(now),
                },
                old(self).capacity(),
            ),
            r@ == media_text(
                final(self).listed(old(self).infos@[at as int].id),
                old(self).hls_version,
                old(self).is_vod,
                is_last,
            ),
    {
        let ghost id = self.infos@[at as int].id;
        proof {
            self.lemma_place(at as int);
        }
        let ghost before = self.indexes@[at as int];
        let ghost old_self = *self;
        let index = &mut self.indexes[at];
        let _evicted = index.add_segment_at(duration_ticks, path, size, now);
        let r = self.indexes[at].generate_playlist(self.hls_version, self.is_vod, is_last);
        proof {
            self.lemma_place(at as int);
            let e = crate::package::segment_index::entry(
                before.total(),
                duration_ticks,
                path,
                now,
                size,
            );
            let after = self.indexes@[at as int];
            assert(SegmentIndex::added(before, after, e, _evicted));
            assert(window_listings(before.window().push(e)) =~= window_listings(
                before.window(),
            ).push(listing(e)));
            assert(window_listings(before.window().push(e).drop_first()) =~= window_listings(
                before.window().push(e),
            ).drop_first());
        }
        r
    }

    /// The multivariant playlist, at the end of the stream; nothing where no rendition came up.
    pub fn finish(&self) -> (r: Option<StorageWrite>)
        requires
            self.wf(),
        ensures
            r is Some <==> self.announced().len() > 0,
            r matches Some(w) ==> w@ == (WriteModel {
                path: self.stream().text() + "/master.m3u8"@,
                data: encode_utf8(multivariant_text(self.announced(), self.version())),
                content_type: "application/vnd.apple.mpegurl"@,
            }),
    {
        if self.infos.len() == 0 {
            return None;
        }
        let content = manifest::generate_multivariant_playlist(
            self.infos.as_slice(),
            self.hls_version,
        );
        let id = self.stream_id.to_text();
        Some(
            StorageWrite {
                path: manifest::master_playlist_path(&id),
                data: bytes_from_string(content),
                content_type: text::owned("application/vnd.apple.mpegurl"),
            },
        )
    }
}

fn init_segment_write(stream_id: StreamId, segment: &EncodedSegment) -> (r: StorageWrite)
    ensures
        Output::Write(r@) == init_write(stream_id, *segment),
{
    let has_audio = segment.audio_data.is_some();
    let config: Option<Bytes> = if has_audio {
        Some(bytes_from_vec(vec![0x12, 0x10]))
    } else {
        None
    };
    let params = InitSegmentParams {
        width: segment.width,
        height: segment.height,
        video_timescale: 90000,
        audio_timescale: 48000,
        sps: bytes_from_vec(vec![0x67, 0x42, 0x00, 0x1e]),
        pps: bytes_from_vec(vec![0x68, 0xce, 0x38, 0x80]),
        audio_specific_config: config,
        has_audio,
    };
    assert(params@ =~~= init_of(*segment));
    let data = hls::generate_init_segment(&params).unwrap();
    let id = stream_id.to_text();
    StorageWrite {
        path: manifest::init_segment_path(&id, segment.rendition.as_str()),
        data,
        content_type: text::owned("video/mp4"),
    }
}

fn rendition_info(segment: &EncodedSegment) -> (r: RenditionInfo)
    ensures
        r@ == variant_of(*segment),
{
    RenditionInfo {
        id: segment.rendition,
        width: segment.width,
        height: segment.height,
        video_bitrate_kbps: segment.video_bitrate_kbps,
        audio_bitrate_kbps: segment.audio_bitrate_kbps,
        profile: segment.profile.clone(),
        level: segment.level.clone(),
        frame_rate: segment.frame_rate,
        has_audio: segment.audio_data.is_some(),
    }
}

fn media_segment_data(segment: &EncodedSegment) -> (r: Bytes)
    ensures
        bytes_seq(r) == media_segment(media_of(*segment)),
{
    let duration = sample_ticks(segment.duration_ticks);
    let len: u64 = bytes_len(&segment.video_data) as u64;
    let sample = SampleInfo {
        duration,
        size: (len % 0x1_0000_0000) as u32,
        flags: if segment.sequence == 0 {
            0x02000000
        } else {
            0x01010000
        },
        composition_offset: 0,
    };
    let params = MediaSegmentParams {
        sequence_number: segment.sequence,
        base_decode_time: segment.pts_start,
        samples: vec![sample],
        media_data: bytes_clone(&segment.video_data),
        track_id: 1,
    };
    assert(params@ =~~= media_of(*segment));
    hls::generate_media_segment(&params).unwrap()
}

fn finish_outputs(
    stream_id: StreamId,
    segment: &EncodedSegment,
    write: StorageWrite,
    playlist: String,
    window: Ghost<Seq<Listing>>,
    hls_version: Ghost<u32>,
    is_vod: Ghost<bool>,
) -> (r: Vec<PackagerOutput>)
    requires
        write@ == (WriteModel {
            path: file_of(stream_id, segment.rendition, segment_name(segment.sequence)),
            data: media_segment(media_of(*segment)),
            content_type: content_type_of(
                file_of(stream_id, segment.rendition, segment_name(segment.sequence)),
            ),
        }),
        playlist@ == media_text(window@, hls_version@, is_vod@, segment.is_last),
    ensures
        outputs(r@) == segment_outputs(stream_id, *segment, window@, hls_version@, is_vod@),
{
    let id = stream_id.to_text();
    let name = segment.rendition.as_str();
    let mut out: Vec<PackagerOutput> = Vec::new();
    out.push(PackagerOutput::Write(write));
    out.push(PackagerOutput::Metric(obs::inc_package_segments_written(&id, name)));
    out.push(
        PackagerOutput::Write(
            StorageWrite {
                path: manifest::media_playlist_path(&id, name),
                data: bytes_from_string(playlist),
                content_type: text::owned("application/vnd.apple.mpegurl"),
            },
        ),
    );
    out.push(PackagerOutput::Metric(obs::inc_package_manifest_updates(&id, name)));
    out.push(
        PackagerOutput::Event(
            PipelineEvent::SegmentProduced {
                stream_id,
                rendition: text::owned(name),
                sequence: segment.sequence,
            },
        ),
    );
    if segment.is_last {
        out.push(
            PackagerOutput::Event(
                PipelineEvent::RenditionComplete { stream_id, rendition: text::owned(name) },
            ),
        );
    }
    assert(outputs(out@) =~= segment_outputs(stream_id, *segment, window@, hls_version@, is_vod@));
    out
}

/// The initialization segment of a rendition is written once: the segment that brings the
/// rendition up writes it, and no later one does.
pub proof fn init_segment_is_written_once(
    before: Packager,
    s: EncodedSegment,
    now: i128,
    after: Packager,
    next: EncodedSegment,
    last: Packager,
)
    requires
        before.advanced(s, now, after),
        next.rendition == s.rendition,
    ensures
        after.knows(s.rendition),
        after.put_out(next, last) == segment_outputs(
            after.stream(),
            next,
            last.listed(next.rendition),
            after.version(),
            after.on_demand(),
        ),
        !before.knows(s.rendition) ==> before.put_out(s, after)[0] == init_write(
            before.stream(),
            s,
        ),
{
    if before.knows(s.rendition) {
        assert(after.announced() == before.announced());
    } else {
        let n = after.announced().len() - 1;
        assert(after.announced()[n].id == s.rendition);
    }
}

/// An on-demand playlist keeps every segment that it lists, and each new one comes last.
pub proof fn on_demand_playlists_keep_every_segment(
    before: Packager,
    s: EncodedSegment,
    now: i128,
    after: Packager,
)
    requires
        before.advanced(s, now, after),
        before.capacity() == usize::MAX,
        before.listed(s.rendition).len() < usize::MAX,
    ensures
        after.listed(s.rendition).drop_last() == before.listed(s.rendition),
        after.listed(s.rendition).last().duration_ticks == s.duration_ticks,
{
    assert(after.listed(s.rendition).drop_last() =~= before.listed(s.rendition));
}

/// While segments are numbered as they come, a playlist lists each under the name under which it
/// is written.
pub proof fn playlists_list_what_is_written(
    before: Packager,
    s: EncodedSegment,
    now: i128,
    after: Packager,
)
    requires
        before.advanced(s, now, after),
        before.capacity() > 0,
        s.sequence == before.produced(s.rendition),
    ensures
        after.listed(s.rendition).last().sequence == s.sequence,
        before.put_out(s, after).contains(
            Output::Write(
                WriteModel {
                    path: file_of(
                        before.stream(),
                        s.rendition,
                        after.listed(s.rendition).last().filename,
                    ),
                    data: media_segment(media_of(s)),
                    content_type: content_type_of(
                        file_of(before.stream(), s.rendition, segment_name(s.sequence)),
                    ),
                },
            ),
        ),
{
    let all = before.put_out(s, after);
    let at: int = if before.knows(s.rendition) {
        0
    } else {
        1
    };
    let written = Output::Write(
        WriteModel {
            path: file_of(before.stream(), s.rendition, segment_name(s.sequence)),
            data: media_segment(media_of(s)),
            content_type: content_type_of(
                file_of(before.stream(), s.rendition, segment_name(s.sequence)),
            ),
        },
    );
    assert(all[at] == written);
    assert(all.contains(written));
}

/// A playlist never lists more segments than the window holds.
pub proof fn playlists_stay_in_the_window(
    before: Packager,
    s: EncodedSegment,
    now: i128,
    after: Packager,
)
    requires
        before.advanced(s, now, after),
        before.listed(s.rendition).len() <= before.capacity(),
    ensures
        after.listed(s.rendition).len() <= after.capacity(),
{
}

} // verus!
