//! The window of segments that a live playlist lists.

use std::collections::VecDeque;

use vstd::prelude::*;
use vstd::string::*;

use crate::clock;
use crate::clock::in_calendar;
use crate::common::types::{RenditionId, StreamId};
use crate::package::lines::lemma_playlist_references;
use crate::package::manifest;
use crate::package::manifest::{
    dated, listings, media_text, segment_name, Listing, PlaylistSegment,
};
use crate::storage::cleanup::refers_to;

verus! {

/// A segment of the window.
#[derive(Debug)]
pub struct SegmentEntry {
    pub sequence: u64,
    /// Duration in ticks of 1/90000 s.
    pub duration_ticks: i64,
    pub storage_path: String,
    /// Nanoseconds since the Unix epoch.
    pub program_date_time: i128,
    pub size_bytes: u64,
}

/// The latest segments of one rendition. A new segment goes to the back; where the window is
/// full, the oldest leaves at the front.
#[derive(Debug)]
pub struct SegmentIndex {
    stream_id: StreamId,
    rendition: RenditionId,
    segments: VecDeque<SegmentEntry>,
    live_window_segments: usize,
    next_sequence: u64,
    total_segments_produced: u64,
    max_duration_ticks: i64,
}

/// What the playlist says of a segment of the window.
pub open spec fn listing(e: SegmentEntry) -> Listing {
    Listing {
        sequence: e.sequence,
        duration_ticks: e.duration_ticks,
        filename: segment_name(e.sequence),
        program_date_time: Some(e.program_date_time),
    }
}

/// What the playlist says of the window.
pub open spec fn window_listings(w: Seq<SegmentEntry>) -> Seq<Listing> {
    w.map_values(|e: SegmentEntry| listing(e))
}

impl SegmentIndex {
    /// The stream whose segments these are.
    pub closed spec fn stream(self) -> StreamId {
        self.stream_id
    }

    /// The rendition whose segments these are.
    pub closed spec fn rendition_id(self) -> RenditionId {
        self.rendition
    }

    /// The segments of the window, oldest first.
    pub closed spec fn window(self) -> Seq<SegmentEntry> {
        self.segments@
    }

    /// The number of segments the window holds at most.
    pub closed spec fn capacity(self) -> nat {
        self.live_window_segments as nat
    }

    /// The number the next segment gets.
    pub closed spec fn next(self) -> u64 {
        self.next_sequence
    }

    /// The number of segments ever added.
    pub closed spec fn total(self) -> u64 {
        self.total_segments_produced
    }

    /// The longest duration ever added, and at least 0.
    pub closed spec fn longest(self) -> i64 {
        self.max_duration_ticks
    }

    /// The window never exceeds its capacity, holds consecutive numbers that end just before the
    /// next one, and is the tail of what was produced.
    pub open spec fn wf(self) -> bool {
        &&& self.window().len() <= self.capacity()
        &&& self.next() == self.total()
        &&& self.window().len() <= self.total()
        &&& forall|i: int|
            0 <= i < self.window().len() ==> (#[trigger] self.window()[i]).sequence == self.total()
                - self.window().len() + i
        &&& forall|i: int|
            0 <= i < self.window().len() ==> in_calendar(
                (#[trigger] self.window()[i]).program_date_time,
            )
    }

    /// An empty window.
    pub fn new(stream_id: StreamId, rendition: RenditionId, live_window_segments: usize) -> (r:
        Self)
        ensures
            r.wf(),
            r.window() == Seq::<SegmentEntry>::empty(),
            r.capacity() == live_window_segments,
            r.total() == 0,
            r.longest() == 0,
            r.stream() == stream_id,
            r.rendition_id() == rendition,
    {
        SegmentIndex {
            stream_id,
            rendition,
            segments: VecDeque::new(),
            live_window_segments,
            next_sequence: 0,
            total_segments_produced: 0,
            max_duration_ticks: 0,
        }
    }

    /// `after` is the index `before` with the entry `e` added, and `evicted` what left it.
    pub open spec fn added(
        before: Self,
        after: Self,
        e: SegmentEntry,
        evicted: Option<SegmentEntry>,
    ) -> bool {
        let all = before.window().push(e);
        &&& after.capacity() == before.capacity()
        &&& after.total() == before.total() + 1
        &&& after.longest() == if e.duration_ticks > before.longest() {
            e.duration_ticks
        } else {
            before.longest()
        }
        &&& after.stream() == before.stream()
        &&& after.rendition_id() == before.rendition_id()
        &&& if all.len() > before.capacity() {
            after.window() == all.drop_first() && evicted == Some(all[0])
        } else {
            after.window() == all && evicted is None
        }
    }

    /// Adds a segment, dated now. Returns the segment that left the window, if one did.
    pub fn add_segment(&mut self, duration_ticks: i64, storage_path: String, size_bytes: u64) -> (r:
        Option<SegmentEntry>)
        requires
            old(self).wf(),
            old(self).total() < u64::MAX,
        ensures
            final(self).wf(),
            exists|now: i128|
                in_calendar(now) && Self::added(
                    *old(self),
                    *final(self),
                    #[trigger] entry(
                        old(self).total(),
                        duration_ticks,
                        storage_path,
                        now,
                        size_bytes,
                    ),
                    r,
                ),
    {
        let now = clock::now();
        let ghost e = entry(old(self).total(), duration_ticks, storage_path, now, size_bytes);
        let r = self.add_segment_at(duration_ticks, storage_path, size_bytes, now);
        assert(Self::added(*old(self), *self, e, r));
        r
    }

    /// Adds a segment, dated `now`. Returns the segment that left the window, if one did.
    pub fn add_segment_at(
        &mut self,
        duration_ticks: i64,
        storage_path: String,
        size_bytes: u64,
        now: i128,
    ) -> (r: Option<SegmentEntry>)
        requires
            old(self).wf(),
            old(self).total() < u64::MAX,
            in_calendar(now),
        ensures
            final(self).wf(),
            Self::added(
                *old(self),
                *final(self),
                entry(old(self).total(), duration_ticks, storage_path, now, size_bytes),
                r,
            ),
    {
        let e = SegmentEntry {
            sequence: self.next_sequence,
            duration_ticks,
            storage_path,
            program_date_time: now,
            size_bytes,
        };
        self.segments.push_back(e);
        self.next_sequence = self.next_sequence + 1;
        self.total_segments_produced = self.total_segments_produced + 1;
        if duration_ticks > self.max_duration_ticks {
            self.max_duration_ticks = duration_ticks;
        }
        if self.segments.len() > self.live_window_segments {
            self.segments.pop_front()
        } else {
            None
        }
    }

    /// The segment at `i` in the window has the path `k` in the directory `dir`.
    pub open spec fn lists_at(self, dir: Seq<char>, k: Seq<char>, i: int) -> bool {
        0 <= i < self.window().len() && k == dir + "/"@ + segment_name(self.window()[i].sequence)
    }

    /// A segment of the window has the path `k` in the directory `dir`.
    pub open spec fn lists(self, dir: Seq<char>, k: Seq<char>) -> bool {
        exists|i: int| self.lists_at(dir, k, i)
    }

    /// Generates the media playlist of the window. Stored in the directory of its rendition, it
    /// refers to the segments of the window, and to no other.
    pub fn generate_playlist(&self, hls_version: u32, is_vod: bool, is_finished: bool) -> (r:
        String)
        requires
            self.wf(),
        ensures
            r@ == media_text(window_listings(self.window()), hls_version, is_vod, is_finished),
            forall|dir: Seq<char>, k: Seq<char>|
                dir.len() > 0 ==> (#[trigger] refers_to(dir + "/media.m3u8"@, r@, k)
                    <==> self.lists(dir, k)),
    {
        let mut list: Vec<PlaylistSegment> = Vec::new();
        let mut i: usize = 0;
        while i < self.segments.len()
            invariant
                i <= self.segments@.len(),
                self.wf(),
                listings(list@) == window_listings(self.window()).subrange(0, i as int),
            decreases self.segments@.len() - i,
        {
            let e = &self.segments[i];
            assert(*e == self.window()[i as int]);
            let ghost before = listings(list@);
            list.push(
                PlaylistSegment {
                    sequence: e.sequence,
                    duration_ticks: e.duration_ticks,
                    filename: manifest::segment_filename(e.sequence),
                    program_date_time: Some(e.program_date_time),
                },
            );
            assert(list@.last()@ == listing(*e));
            assert(listings(list@) =~= before.push(listing(*e)));
            i = i + 1;
            assert(listings(list@) =~= window_listings(self.window()).subrange(0, i as int));
        }
        assert(listings(list@) =~= window_listings(self.window()));
        assert(dated(listings(list@)));
        let r = manifest::generate_media_playlist(
            list.as_slice(),
            hls_version,
            is_vod,
            is_finished,
        );
        proof {
            let w = window_listings(self.window());
            assert forall|dir: Seq<char>, k: Seq<char>| dir.len() > 0 implies (
            #[trigger] refers_to(dir + "/media.m3u8"@, r@, k) <==> self.lists(dir, k)) by {
                lemma_playlist_references(w, hls_version, is_vod, is_finished, dir, k);
                if self.lists(dir, k) {
                    let i = choose|i: int| self.lists_at(dir, k, i);
                    assert(k == dir + "/"@ + w[i].filename);
                }
                if exists|i: int| 0 <= i < w.len() && k == dir + "/"@ + (#[trigger] w[i]).filename {
                    let i = choose|i: int|
                        0 <= i < w.len() && k == dir + "/"@ + (#[trigger] w[i]).filename;
                    assert(self.lists_at(dir, k, i));
                }
            }
        }
        r
    }

    /// The number the next segment gets.
    pub fn next_sequence(&self) -> (r: u64)
        ensures
            r == self.next(),
    {
        self.next_sequence
    }

    /// The number of segments ever added.
    pub fn total_segments_produced(&self) -> (r: u64)
        ensures
            r == self.total(),
    {
        self.total_segments_produced
    }

    /// The number of segments in the window.
    pub fn len(&self) -> (r: usize)
        ensures
            r == self.window().len(),
    {
        self.segments.len()
    }

    /// The number of the oldest segment in the window, or 0 where it is empty.
    pub fn media_sequence(&self) -> (r: u64)
        ensures
            r == if self.window().len() == 0 {
                0
            } else {
                self.window()[0].sequence
            },
    {
        if self.segments.len() == 0 {
            0
        } else {
            self.segments[0].sequence
        }
    }
}

/// An entry with these fields.
pub open spec fn entry(
    sequence: u64,
    duration_ticks: i64,
    storage_path: String,
    program_date_time: i128,
    size_bytes: u64,
) -> SegmentEntry {
    SegmentEntry { sequence, duration_ticks, storage_path, program_date_time, size_bytes }
}

/// A well-formed window with at least one segment starts at the number of segments that have
/// left it.
pub proof fn media_sequence_counts_evicted(index: SegmentIndex)
    requires
        index.wf(),
        index.window().len() > 0,
    ensures
        index.window()[0].sequence == index.total() - index.window().len(),
        index.window().last().sequence == index.next() - 1,
{
}

/// A window that is full stays full, and each added segment pushes out exactly the oldest.
pub proof fn full_window_slides(
    before: SegmentIndex,
    after: SegmentIndex,
    e: SegmentEntry,
    evicted: Option<SegmentEntry>,
)
    requires
        before.wf(),
        before.window().len() == before.capacity(),
        before.capacity() > 0,
        SegmentIndex::added(before, after, e, evicted),
    ensures
        after.window().len() == before.capacity(),
        evicted == Some(before.window()[0]),
        after.window().last() == e,
{
}

/// A window that is not full keeps what it has and takes up one more; the longest duration is that of
/// all segments ever added.
pub proof fn windows_fill_up(
    before: SegmentIndex,
    after: SegmentIndex,
    e: SegmentEntry,
    evicted: Option<SegmentEntry>,
)
    requires
        before.window().len() < before.capacity(),
        SegmentIndex::added(before, after, e, evicted),
    ensures
        evicted is None,
        after.window().last() == e,
        after.window().drop_last() == before.window(),
        after.total() == before.total() + 1,
        after.longest() >= e.duration_ticks,
        after.longest() >= before.longest(),
        after.longest() == e.duration_ticks || after.longest() == before.longest(),
{
    assert(after.window().drop_last() =~= before.window());
}

/// A segment is listed with its own number, duration and date, under the name of its number.
pub proof fn entries_are_listed_as_they_are(e: SegmentEntry)
    ensures
        listing(e).sequence == e.sequence,
        listing(e).duration_ticks == e.duration_ticks,
        listing(e).program_date_time == Some(e.program_date_time),
        listing(e).filename == segment_name(e.sequence),
{
}

} // verus!
