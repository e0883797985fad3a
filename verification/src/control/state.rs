//! The states of streams, and the changes between them.

use dashmap::DashMap;
use vstd::prelude::*;
use vstd::string::*;

use crate::clock;
use crate::clock::in_calendar;
use crate::common::error::StateError;
use crate::common::types::{IngestMode, MediaInfo, StreamId, StreamMetadata};
use crate::observability::metrics as obs;
use crate::observability::metrics::{all_measured, measured1, Measurement, MetricChange, MetricUpdate};
use crate::text;

verus! {

/// The state of a stream. A live stream goes from pending over live and processing to ready, an
/// uploaded one skips live; both end as deleted, and any state but that can turn into error.
#[derive(Debug, Clone, Copy, PartialEq, Eq, Structural, Hash)]
pub enum StreamState {
    /// Created, awaiting ingest.
    Pending,
    /// Receiving and processing media in real time.
    Live,
    /// Transcoding and packaging.
    Processing,
    /// All renditions can be played.
    Ready,
    /// Failed for good.
    Error,
    /// Removed; the record is kept for a while.
    Deleted,
}

impl StreamState {
    /// The name of the state.
    pub open spec fn name(self) -> Seq<char> {
        match self {
            StreamState::Pending => "pending"@,
            StreamState::Live => "live"@,
            StreamState::Processing => "processing"@,
            StreamState::Ready => "ready"@,
            StreamState::Error => "error"@,
            StreamState::Deleted => "deleted"@,
        }
    }

    /// The name of the state.
    pub fn as_str(&self) -> (r: &'static str)
        ensures
            r@ == self.name(),
    {
        match self {
            StreamState::Pending => "pending",
            StreamState::Live => "live",
            StreamState::Processing => "processing",
            StreamState::Ready => "ready",
            StreamState::Error => "error",
            StreamState::Deleted => "deleted",
        }
    }

    /// The place of the state in the life cycle.
    pub open spec fn place(self) -> int {
        match self {
            StreamState::Pending => 0,
            StreamState::Live => 1,
            StreamState::Processing => 2,
            StreamState::Ready => 3,
            StreamState::Error => 4,
            StreamState::Deleted => 5,
        }
    }
}

/// The state of one rendition.
#[derive(Debug, Clone, Copy, PartialEq, Eq, Structural)]
pub enum RenditionState {
    /// Segments are being produced.
    Active,
    /// All segments are written.
    Complete,
}

/// The progress of one rendition.
#[derive(Debug)]
pub struct RenditionStatus {
    pub rendition: String,
    /// The number of the latest segment.
    pub segments_produced: u64,
    pub last_segment_time: Option<i128>,
    pub status: RenditionState,
}

/// A stream with its state.
#[derive(Debug)]
pub struct StreamEntry {
    pub state: StreamState,
    pub metadata: StreamMetadata,
    pub error_message: Option<String>,
    /// One per rendition that has reported a segment.
    pub renditions: Vec<RenditionStatus>,
    /// The number of renditions the transcoder produces, once it is known.
    pub expected_renditions: Option<usize>,
}

// ---------------------------------------------------------------------------
// Model
// ---------------------------------------------------------------------------

/// What is known of a rendition.
#[verifier::ext_equal]
pub struct RenditionModel {
    pub rendition: Seq<char>,
    pub segments_produced: u64,
    pub last_segment_time: Option<i128>,
    pub status: RenditionState,
}

/// What is known of a stream.
#[verifier::ext_equal]
pub struct EntryModel {
    pub state: StreamState,
    pub metadata: StreamMetadata,
    pub error_message: Option<Seq<char>>,
    pub renditions: Seq<RenditionModel>,
    pub expected_renditions: Option<usize>,
}

impl View for RenditionStatus {
    type V = RenditionModel;

    open spec fn view(&self) -> RenditionModel {
        RenditionModel {
            rendition: self.rendition@,
            segments_produced: self.segments_produced,
            last_segment_time: self.last_segment_time,
            status: self.status,
        }
    }
}

/// What is known of each rendition.
pub open spec fn rendition_models(r: Seq<RenditionStatus>) -> Seq<RenditionModel> {
    r.map_values(|s: RenditionStatus| s@)
}

impl View for StreamEntry {
    type V = EntryModel;

    open spec fn view(&self) -> EntryModel {
        EntryModel {
            state: self.state,
            metadata: self.metadata,
            error_message: match self.error_message {
                Some(m) => Some(m@),
                None => None,
            },
            renditions: rendition_models(self.renditions@),
            expected_renditions: self.expected_renditions,
        }
    }
}

impl EntryModel {
    /// No rendition occurs twice.
    pub open spec fn renditions_differ(self) -> bool {
        forall|i: int, j: int|
            0 <= i < j < self.renditions.len() ==> (#[trigger] self.renditions[i]).rendition != (
            #[trigger] self.renditions[j]).rendition
    }

    /// No rendition occurs twice, and the calendar covers all times.
    pub open spec fn wf(self) -> bool {
        &&& self.renditions_differ()
        &&& in_calendar(self.metadata.created_at)
        &&& self.metadata.started_at matches Some(t) ==> in_calendar(t)
        &&& self.metadata.ended_at matches Some(t) ==> in_calendar(t)
    }

    /// A stream that was just created.
    pub open spec fn fresh(stream_id: StreamId, mode: IngestMode, now: i128) -> Self {
        EntryModel {
            state: StreamState::Pending,
            metadata: StreamMetadata::fresh(stream_id, mode, now),
            error_message: None,
            renditions: Seq::empty(),
            expected_renditions: None,
        }
    }

    /// The stream after it enters a state at `now`: going live is its start; becoming ready,
    /// failing and being deleted are its end.
    pub open spec fn entering(self, state: StreamState, now: i128) -> Self {
        EntryModel {
            state,
            metadata: StreamMetadata {
                started_at: if state == StreamState::Live {
                    Some(now)
                } else {
                    self.metadata.started_at
                },
                ended_at: if state == StreamState::Ready || state == StreamState::Error || state
                    == StreamState::Deleted {
                    Some(now)
                } else {
                    self.metadata.ended_at
                },
                ..self.metadata
            },
            ..self
        }
    }

    /// The stream after it fails at `now`.
    pub open spec fn failing(self, message: Seq<char>, now: i128) -> Self {
        EntryModel { error_message: Some(message), ..self.entering(StreamState::Error, now) }
    }

    /// Where the status of a rendition stands.
    pub open spec fn rendition_at(self, name: Seq<char>, i: int) -> bool {
        0 <= i < self.renditions.len() && self.renditions[i].rendition == name
    }

    /// The rendition has reported a segment.
    pub open spec fn has_rendition(self, name: Seq<char>) -> bool {
        exists|i: int| self.rendition_at(name, i)
    }

    /// The stream after a rendition reports its segment `sequence` at `now`.
    pub open spec fn progressed(self, name: Seq<char>, sequence: u64, now: i128) -> Self {
        if self.has_rendition(name) {
            let i = choose|i: int| self.rendition_at(name, i);
            EntryModel {
                renditions: self.renditions.update(
                    i,
                    RenditionModel {
                        segments_produced: sequence,
                        last_segment_time: Some(now),
                        ..self.renditions[i]
                    },
                ),
                ..self
            }
        } else {
            EntryModel {
                renditions: self.renditions.push(
                    RenditionModel {
                        rendition: name,
                        segments_produced: sequence,
                        last_segment_time: Some(now),
                        status: RenditionState::Active,
                    },
                ),
                ..self
            }
        }
    }

    /// The stream after a rendition is complete. A rendition that never reported is passed over.
    pub open spec fn completed(self, name: Seq<char>) -> Self {
        if self.has_rendition(name) {
            let i = choose|i: int| self.rendition_at(name, i);
            EntryModel {
                renditions: self.renditions.update(
                    i,
                    RenditionModel { status: RenditionState::Complete, ..self.renditions[i] },
                ),
                ..self
            }
        } else {
            self
        }
    }

    /// The number of complete renditions.
    pub open spec fn complete_count(self) -> nat {
        count_complete(self.renditions)
    }

    /// Processing, and all expected renditions are complete.
    pub open spec fn is_done(self) -> bool {
        self.state == StreamState::Processing && match self.expected_renditions {
            Some(n) => self.complete_count() >= n,
            None => false,
        }
    }
}

/// The number of complete renditions among `r`.
pub open spec fn count_complete(r: Seq<RenditionModel>) -> nat
    decreases r.len(),
{
    if r.len() == 0 {
        0
    } else {
        count_complete(r.drop_last()) + if r.last().status == RenditionState::Complete {
            1nat
        } else {
            0
        }
    }
}

/// The changes of state that are allowed.
pub open spec fn valid_transition(from: StreamState, to: StreamState, mode: IngestMode) -> bool {
    match to {
        StreamState::Pending => false,
        StreamState::Live => from == StreamState::Pending && mode == IngestMode::Live,
        StreamState::Processing => (from == StreamState::Live && mode == IngestMode::Live) || (from
            == StreamState::Pending && mode == IngestMode::Vod),
        StreamState::Ready => from == StreamState::Processing,
        StreamState::Error => from != StreamState::Deleted,
        StreamState::Deleted => from == StreamState::Ready || from == StreamState::Error,
    }
}

// ---------------------------------------------------------------------------
// Entries
// ---------------------------------------------------------------------------

impl RenditionStatus {
    /// A copy of the status.
    pub fn copy(&self) -> (r: Self)
        ensures
            r@ == self@,
    {
        RenditionStatus {
            rendition: self.rendition.clone(),
            segments_produced: self.segments_produced,
            last_segment_time: self.last_segment_time,
            status: self.status,
        }
    }
}

impl StreamEntry {
    /// A copy of the entry.
    pub fn copy(&self) -> (r: Self)
        ensures
            r@ == self@,
    {
        let mut renditions: Vec<RenditionStatus> = Vec::new();
        let mut i: usize = 0;
        while i < self.renditions.len()
            invariant
                i <= self.renditions@.len(),
                renditions@.len() == i,
                forall|j: int| 0 <= j < i ==> (#[trigger] renditions@[j])@ == self.renditions@[j]@,
            decreases self.renditions@.len() - i,
        {
            renditions.push(self.renditions[i].copy());
            i = i + 1;
        }
        assert(rendition_models(renditions@) =~= rendition_models(self.renditions@));
        StreamEntry {
            state: self.state,
            metadata: self.metadata,
            error_message: match &self.error_message {
                Some(m) => Some(m.clone()),
                None => None,
            },
            renditions,
            expected_renditions: self.expected_renditions,
        }
    }

    fn enter(&mut self, state: StreamState, now: i128)
        ensures
            final(self)@ == old(self)@.entering(state, now),
    {
        match state {
            StreamState::Live => {
                self.metadata.started_at = Some(now);
            },
            StreamState::Ready | StreamState::Error | StreamState::Deleted => {
                self.metadata.ended_at = Some(now);
            },
            _ => {},
        }
        self.state = state;
    }

    fn find_rendition(&self, name: &str) -> (r: Option<usize>)
        ensures
            r is Some <==> self@.has_rendition(name@),
            r matches Some(i) ==> self@.rendition_at(name@, i as int),
    {
        let mut i: usize = 0;
        while i < self.renditions.len()
            invariant
                i <= self.renditions@.len(),
                forall|j: int| 0 <= j < i ==> !self@.rendition_at(name@, j),
            decreases self.renditions@.len() - i,
        {
            assert(self@.renditions[i as int] == self.renditions@[i as int]@);
            if text::same(&self.renditions[i].rendition, name) {
                assert(self@.rendition_at(name@, i as int));
                return Some(i);
            }
            i = i + 1;
        }
        None
    }

    fn progress(&mut self, name: &str, sequence: u64, now: i128)
        requires
            old(self)@.wf(),
        ensures
            final(self)@ == old(self)@.progressed(name@, sequence, now),
            final(self)@.wf(),
    {
        let ghost before = self@;
        match self.find_rendition(name) {
            Some(i) => {
                self.renditions[i].segments_produced = sequence;
                self.renditions[i].last_segment_time = Some(now);
                proof {
                    let k = choose|k: int| before.rendition_at(name@, k);
                    assert(k == i);
                    assert(self@.renditions =~= before.progressed(name@, sequence, now).renditions);
                }
            },
            None => {
                self.renditions.push(
                    RenditionStatus {
                        rendition: text::owned(name),
                        segments_produced: sequence,
                        last_segment_time: Some(now),
                        status: RenditionState::Active,
                    },
                );
                proof {
                    assert(self@.renditions =~= before.progressed(name@, sequence, now).renditions);
                    assert forall|i: int| 0 <= i < before.renditions.len() implies (
                    #[trigger] before.renditions[i]).rendition != name@ by {
                        assert(!before.rendition_at(name@, i));
                    }
                }
            },
        }
    }

    fn complete(&mut self, name: &str)
        requires
            old(self)@.wf(),
        ensures
            final(self)@ == old(self)@.completed(name@),
            final(self)@.wf(),
    {
        let ghost before = self@;
        match self.find_rendition(name) {
            Some(i) => {
                self.renditions[i].status = RenditionState::Complete;
                proof {
                    let k = choose|k: int| before.rendition_at(name@, k);
                    assert(k == i);
                    assert(self@.renditions =~= before.completed(name@).renditions);
                }
            },
            None => {},
        }
    }

    fn count_complete(&self) -> (r: usize)
        ensures
            r == self@.complete_count(),
    {
        let mut n: usize = 0;
        let mut i: usize = 0;
        let ghost all = self@.renditions;
        assert(all.subrange(0, 0) =~= Seq::empty());
        while i < self.renditions.len()
            invariant
                i <= self.renditions@.len(),
                all == self@.renditions,
                n <= i,
                n == count_complete(all.subrange(0, i as int)),
            decreases self.renditions@.len() - i,
        {
            assert(all.subrange(0, i + 1).drop_last() =~= all.subrange(0, i as int));
            assert(all[i as int] == self.renditions@[i as int]@);
            if self.renditions[i].status == RenditionState::Complete {
                n = n + 1;
            }
            i = i + 1;
        }
        assert(all.subrange(0, i as int) =~= all);
        n
    }

    fn done(&self) -> (r: bool)
        ensures
            r == self@.is_done(),
    {
        match self.expected_renditions {
            Some(expected) => self.state == StreamState::Processing && self.count_complete()
                >= expected,
            None => false,
        }
    }
}

// ---------------------------------------------------------------------------
// The table of streams
// ---------------------------------------------------------------------------

#[verifier::external_type_specification]
#[verifier::external_body]
#[verifier::reject_recursive_types(K)]
#[verifier::reject_recursive_types(V)]
#[verifier::reject_recursive_types(S)]
pub struct ExDashMap<K, V, S>(dashmap::DashMap<K, V, S>);

/// The streams that a table holds, by the number of their identifier.
pub uninterp spec fn stream_table(m: DashMap<u128, StreamEntry>) -> Map<u128, EntryModel>;

/// No streams.
pub open spec fn no_streams() -> Map<u128, EntryModel> {
    Map::empty()
}

/// `DashMap::new`: holds nothing.
#[verifier::external_body]
pub(crate) fn table_new() -> (r: DashMap<u128, StreamEntry>)
    ensures
        stream_table(r) == no_streams(),
{
    DashMap::new()
}

/// `DashMap::insert`: the key stands for the new entry, in place of an earlier one.
#[verifier::external_body]
pub(crate) fn table_insert(m: &mut DashMap<u128, StreamEntry>, id: u128, entry: StreamEntry)
    ensures
        stream_table(*final(m)) == stream_table(*old(m)).insert(id, entry@),
{
    m.insert(id, entry);
}

/// `DashMap::get`: a copy of the entry that the key stands for.
#[verifier::external_body]
pub(crate) fn table_get(m: &DashMap<u128, StreamEntry>, id: u128) -> (r: Option<StreamEntry>)
    ensures
        r is Some <==> stream_table(*m).contains_key(id),
        r matches Some(e) ==> e@ == stream_table(*m)[id],
{
    m.get(&id).map(|e| e.copy())
}

/// `DashMap::remove`: takes the entry out, if there is one.
#[verifier::external_body]
pub(crate) fn table_remove(m: &mut DashMap<u128, StreamEntry>, id: u128) -> (r: Option<StreamEntry>)
    ensures
        stream_table(*final(m)) == stream_table(*old(m)).remove(id),
        r is Some <==> stream_table(*old(m)).contains_key(id),
        r matches Some(e) ==> e@ == stream_table(*old(m))[id],
{
    m.remove(&id).map(|e| e.1)
}

/// `DashMap::iter`: copies of all entries with their keys, each once. In what order they come is
/// not stated.
#[verifier::external_body]
pub(crate) fn table_entries(m: &DashMap<u128, StreamEntry>) -> (r: Vec<(u128, StreamEntry)>)
    ensures
        forall|i: int|
            0 <= i < r@.len() ==> stream_table(*m).contains_key((#[trigger] r@[i]).0)
                && stream_table(*m)[r@[i].0] == r@[i].1@,
        forall|i: int, j: int|
            0 <= i < j < r@.len() ==> (#[trigger] r@[i]).0 != (#[trigger] r@[j]).0,
        forall|k: u128| #[trigger]
            stream_table(*m).contains_key(k) ==> exists|i: int|
                0 <= i < r@.len() && (#[trigger] r@[i]).0 == k,
{
    m.iter().map(|e| (*e.key(), e.value().copy())).collect()
}

// ---------------------------------------------------------------------------
// The manager
// ---------------------------------------------------------------------------

/// Keeps the state of all streams, and counts the streams in each state.
pub struct StreamStateManager {
    streams: DashMap<u128, StreamEntry>,
    state_counts: [i64; 6],
}

/// The stream has the state that is asked for, where one is.
pub open spec fn matches_filter(e: EntryModel, filter: Option<StreamState>) -> bool {
    match filter {
        Some(s) => e.state == s,
        None => true,
    }
}

/// What the entries of a listing say.
pub open spec fn models(r: Seq<StreamEntry>) -> Seq<EntryModel> {
    r.map_values(|e: StreamEntry| e@)
}

/// `r` lists each stream of the table that matches exactly once, in any order.
pub open spec fn lists_matching(
    r: Seq<EntryModel>,
    table: Map<u128, EntryModel>,
    filter: Option<StreamState>,
) -> bool {
    &&& forall|i: int|
        0 <= i < r.len() ==> table.contains_key((#[trigger] r[i]).metadata.stream_id.value)
            && table[r[i].metadata.stream_id.value] == r[i] && matches_filter(r[i], filter)
    &&& forall|i: int, j: int|
        0 <= i < j < r.len() ==> (#[trigger] r[i]).metadata.stream_id != (
        #[trigger] r[j]).metadata.stream_id
    &&& forall|k: u128| #[trigger]
        table.contains_key(k) && matches_filter(table[k], filter) ==> exists|i: int|
            0 <= i < r.len() && (#[trigger] r[i]).metadata.stream_id.value == k
}

/// The streams are in the order of their identifiers.
pub open spec fn ascending(r: Seq<EntryModel>) -> bool {
    forall|i: int, j: int|
        0 <= i < j < r.len() ==> (#[trigger] r[i]).metadata.stream_id.value < (
        #[trigger] r[j]).metadata.stream_id.value
}

/// `r` is the list of the streams of the table that match, in the order of their identifiers.
pub open spec fn is_list(
    r: Seq<EntryModel>,
    table: Map<u128, EntryModel>,
    filter: Option<StreamState>,
) -> bool {
    lists_matching(r, table, filter) && ascending(r)
}

/// The part of `s` that starts at `offset` and has at most `limit` items.
pub open spec fn page_of<T>(s: Seq<T>, offset: nat, limit: nat) -> Seq<T> {
    if offset >= s.len() {
        Seq::empty()
    } else if offset + limit >= s.len() {
        s.subrange(offset as int, s.len() as int)
    } else {
        s.subrange(offset as int, (offset + limit) as int)
    }
}

/// The counters after one more stream is in a state.
pub open spec fn counted_in(c: Seq<i64>, s: StreamState) -> Seq<i64> {
    c.update(s.place(), c[s.place()].wrapping_add(1))
}

/// The counters after one stream less is in a state.
pub open spec fn counted_out(c: Seq<i64>, s: StreamState) -> Seq<i64> {
    c.update(s.place(), c[s.place()].wrapping_sub(1))
}

/// The streams in a state.
pub open spec fn in_state(table: Map<u128, EntryModel>, s: StreamState) -> Set<u128> {
    table.dom().filter(|k: u128| table[k].state == s)
}

/// The counters tell how many streams are in each state.
pub open spec fn counts_agree(c: Seq<i64>, table: Map<u128, EntryModel>) -> bool {
    forall|s: StreamState| #[trigger] c[s.place()] == in_state(table, s).len()
}

impl StreamStateManager {
    /// The streams, by the number of their identifier.
    pub closed spec fn table(self) -> Map<u128, EntryModel> {
        stream_table(self.streams)
    }

    /// The counters, one per state.
    pub closed spec fn counts(self) -> Seq<i64> {
        self.state_counts@
    }

    /// Each stream stands under its own identifier, with no rendition twice.
    pub open spec fn wf(self) -> bool {
        &&& self.counts().len() == 6
        &&& self.table().dom().finite()
        &&& forall|k: u128| #[trigger]
            self.table().contains_key(k) ==> self.table()[k].metadata.stream_id.value == k
                && self.table()[k].wf()
    }

    /// A manager without streams.
    pub fn new() -> (r: Self)
        ensures
            r.wf(),
            r.table() == no_streams(),
            r.counts() == Seq::new(6, |i: int| 0i64),
    {
        let r = StreamStateManager { streams: table_new(), state_counts: [0i64, 0, 0, 0, 0, 0] };
        assert(r.counts() =~= Seq::new(6, |i: int| 0i64));
        r
    }

    fn state_index(state: StreamState) -> (r: usize)
        ensures
            r == state.place(),
            r < 6,
    {
        match state {
            StreamState::Pending => 0,
            StreamState::Live => 1,
            StreamState::Processing => 2,
            StreamState::Ready => 3,
            StreamState::Error => 4,
            StreamState::Deleted => 5,
        }
    }

    fn count_in(&mut self, state: StreamState)
        ensures
            final(self).streams == old(self).streams,
            final(self).counts() == counted_in(old(self).counts(), state),
    {
        let i = Self::state_index(state);
        let n = self.state_counts[i].wrapping_add(1);
        self.state_counts[i] = n;
        assert(self.counts() =~= counted_in(old(self).counts(), state));
    }

    fn count_out(&mut self, state: StreamState)
        ensures
            final(self).streams == old(self).streams,
            final(self).counts() == counted_out(old(self).counts(), state),
    {
        let i = Self::state_index(state);
        let n = self.state_counts[i].wrapping_sub(1);
        self.state_counts[i] = n;
        assert(self.counts() =~= counted_out(old(self).counts(), state));
    }

    /// Creates a stream that awaits ingest.
    pub fn create_stream(&mut self, stream_id: StreamId, ingest_mode: IngestMode) -> (r:
        StreamEntry)
        requires
            old(self).wf(),
        ensures
            final(self).wf(),
            r@ == EntryModel::fresh(stream_id, ingest_mode, r@.metadata.created_at),
            in_calendar(r@.metadata.created_at),
            final(self).table() == old(self).table().insert(stream_id.value, r@),
            final(self).counts() == counted_in(old(self).counts(), StreamState::Pending),
    {
        self.create_stream_at(stream_id, ingest_mode, clock::now())
    }

    /// Creates a stream at `now`.
    pub fn create_stream_at(
        &mut self,
        stream_id: StreamId,
        ingest_mode: IngestMode,
        now: i128,
    ) -> (r: StreamEntry)
        requires
            old(self).wf(),
            in_calendar(now),
        ensures
            final(self).wf(),
            r@ == EntryModel::fresh(stream_id, ingest_mode, now),
            final(self).table() == old(self).table().insert(stream_id.value, r@),
            final(self).counts() == counted_in(old(self).counts(), StreamState::Pending),
    {
        let entry = StreamEntry {
            state: StreamState::Pending,
            metadata: StreamMetadata::created(stream_id, ingest_mode, now),
            error_message: None,
            renditions: Vec::new(),
            expected_renditions: None,
        };
        assert(entry@ =~= EntryModel::fresh(stream_id, ingest_mode, now));
        table_insert(&mut self.streams, stream_id.value, entry.copy());
        self.count_in(StreamState::Pending);
        entry
    }

    /// Changes the state of a stream, if the change is allowed.
    pub fn transition(&mut self, stream_id: StreamId, new_state: StreamState) -> (r: Result<
        StreamEntry,
        StateError,
    >)
        requires
            old(self).wf(),
        ensures
            final(self).wf(),
            exists|now: i128| #[trigger]
                old(self).changed(*final(self), stream_id, new_state, now, r) && in_calendar(now),
    {
        let now = clock::now();
        let r = self.transition_at(stream_id, new_state, now);
        assert(old(self).changed(*self, stream_id, new_state, now, r));
        r
    }

    /// What a change of state at `now` does and returns: an unknown stream and a change that is
    /// not allowed are refused, and leave everything as it is.
    pub open spec fn changed(
        self,
        after: Self,
        stream_id: StreamId,
        new_state: StreamState,
        now: i128,
        r: Result<StreamEntry, StateError>,
    ) -> bool {
        if !self.table().contains_key(stream_id.value) {
            &&& r == Err::<StreamEntry, _>(StateError::StreamNotFound { stream_id })
            &&& after.table() == self.table()
            &&& after.counts() == self.counts()
        } else {
            let e = self.table()[stream_id.value];
            if valid_transition(e.state, new_state, e.metadata.ingest_mode) {
                &&& r is Ok
                &&& r->Ok_0@ == e.entering(new_state, now)
                &&& after.table() == self.table().insert(
                    stream_id.value,
                    e.entering(new_state, now),
                )
                &&& after.counts() == counted_in(counted_out(self.counts(), e.state), new_state)
            } else {
                &&& refused(r, stream_id, e.state, new_state)
                &&& after.table() == self.table()
                &&& after.counts() == self.counts()
            }
        }
    }

    /// Changes the state of a stream at `now`, if the change is allowed.
    pub fn transition_at(&mut self, stream_id: StreamId, new_state: StreamState, now: i128) -> (r:
        Result<StreamEntry, StateError>)
        requires
            old(self).wf(),
            in_calendar(now),
        ensures
            final(self).wf(),
            old(self).changed(*final(self), stream_id, new_state, now, r),
    {
        let mut entry = match table_get(&self.streams, stream_id.value) {
            Some(e) => e,
            None => {
                return Err(StateError::StreamNotFound { stream_id });
            },
        };
        let current = entry.state;
        if !Self::is_valid_transition(current, new_state, entry.metadata.ingest_mode) {
            return Err(
                StateError::InvalidTransition {
                    stream_id,
                    from: text::owned(current.as_str()),
                    to: text::owned(new_state.as_str()),
                },
            );
        }
        entry.enter(new_state, now);
        table_insert(&mut self.streams, stream_id.value, entry.copy());
        self.count_out(current);
        self.count_in(new_state);
        Ok(entry)
    }

    /// Marks a stream as failed.
    pub fn transition_to_error(&mut self, stream_id: StreamId, error_message: String) -> (r: Result<
        StreamEntry,
        StateError,
    >)
        requires
            old(self).wf(),
        ensures
            final(self).wf(),
            exists|now: i128| #[trigger]
                old(self).failed(*final(self), stream_id, error_message@, now, r) && in_calendar(now),
    {
        let now = clock::now();
        let ghost message = error_message@;
        let r = self.transition_to_error_at(stream_id, error_message, now);
        assert(old(self).failed(*self, stream_id, message, now, r));
        r
    }

    /// What marking a stream as failed at `now` does and returns: only an unknown stream and a
    /// deleted one are refused.
    pub open spec fn failed(
        self,
        after: Self,
        stream_id: StreamId,
        message: Seq<char>,
        now: i128,
        r: Result<StreamEntry, StateError>,
    ) -> bool {
        if !self.table().contains_key(stream_id.value) {
            &&& r == Err::<StreamEntry, _>(StateError::StreamNotFound { stream_id })
            &&& after.table() == self.table()
            &&& after.counts() == self.counts()
        } else {
            let e = self.table()[stream_id.value];
            if e.state == StreamState::Deleted {
                &&& refused(r, stream_id, e.state, StreamState::Error)
                &&& after.table() == self.table()
                &&& after.counts() == self.counts()
            } else {
                &&& r is Ok
                &&& r->Ok_0@ == e.failing(message, now)
                &&& after.table() == self.table().insert(
                    stream_id.value,
                    e.failing(message, now),
                )
                &&& after.counts() == counted_in(
                    counted_out(self.counts(), e.state),
                    StreamState::Error,
                )
            }
        }
    }

    /// Marks a stream as failed at `now`.
    pub fn transition_to_error_at(
        &mut self,
        stream_id: StreamId,
        error_message: String,
        now: i128,
    ) -> (r: Result<StreamEntry, StateError>)
        requires
            old(self).wf(),
            in_calendar(now),
        ensures
            final(self).wf(),
            old(self).failed(*final(self), stream_id, error_message@, now, r),
    {
        let mut entry = match table_get(&self.streams, stream_id.value) {
            Some(e) => e,
            None => {
                return Err(StateError::StreamNotFound { stream_id });
            },
        };
        let current = entry.state;
        if current == StreamState::Deleted {
            return Err(
                StateError::InvalidTransition {
                    stream_id,
                    from: text::owned(current.as_str()),
                    to: text::owned(StreamState::Error.as_str()),
                },
            );
        }
        entry.enter(StreamState::Error, now);
        entry.error_message = Some(error_message);
        table_insert(&mut self.streams, stream_id.value, entry.copy());
        self.count_out(current);
        self.count_in(StreamState::Error);
        Ok(entry)
    }

    /// The state of a stream.
    pub fn get_stream_state(&self, stream_id: StreamId) -> (r: Option<StreamState>)
        ensures
            r == if self.table().contains_key(stream_id.value) {
                Some(self.table()[stream_id.value].state)
            } else {
                None
            },
    {
        match table_get(&self.streams, stream_id.value) {
            Some(e) => Some(e.state),
            None => None,
        }
    }

    /// All that is known of a stream.
    pub fn get_stream(&self, stream_id: StreamId) -> (r: Option<StreamEntry>)
        ensures
            r is Some <==> self.table().contains_key(stream_id.value),
            r matches Some(e) ==> e@ == self.table()[stream_id.value],
    {
        table_get(&self.streams, stream_id.value)
    }

    /// The streams in a state, or all of them, in the order of their identifiers.
    pub fn list_streams(&self, filter_state: Option<StreamState>) -> (r: Vec<StreamEntry>)
        requires
            self.wf(),
        ensures
            is_list(models(r@), self.table(), filter_state),
    {
        let all = table_entries(&self.streams);
        let mut out: Vec<StreamEntry> = Vec::new();
        let mut i: usize = 0;
        while i < all.len()
            invariant
                i <= all@.len(),
                self.wf(),
                forall|j: int|
                    0 <= j < all@.len() ==> self.table().contains_key((#[trigger] all@[j]).0)
                        && self.table()[all@[j].0] == all@[j].1@,
                forall|j: int, k: int|
                    0 <= j < k < all@.len() ==> (#[trigger] all@[j]).0 != (#[trigger] all@[k]).0,
                forall|j: int|
                    0 <= j < out@.len() ==> listed_from(
                        (#[trigger] out@[j])@,
                        all@,
                        i as int,
                        filter_state,
                    ),
                ascending(models(out@)),
                forall|j: int|
                    0 <= j < i && matches_filter((#[trigger] all@[j]).1@, filter_state) ==> exists|
                        k: int,
                    |
                        0 <= k < out@.len() && (#[trigger] out@[k])@ == all@[j].1@,
            decreases all@.len() - i,
        {
            let keep = match filter_state {
                Some(s) => all[i].1.state == s,
                None => true,
            };
            let ghost before = out@;
            let mut place: usize = out.len();
            if keep {
                let copy = all[i].1.copy();
                assert(listed_from(copy@, all@, i + 1, filter_state)) by {
                    assert(all@[i as int].1@ == copy@);
                }
                assert forall|j: int| 0 <= j < before.len() implies (
                #[trigger] before[j])@.metadata.stream_id != copy@.metadata.stream_id by {
                    assert(listed_from(before[j]@, all@, i as int, filter_state));
                    let m = choose|m: int|
                        0 <= m < i && (#[trigger] all@[m]).1@ == before[j]@ && matches_filter(
                            before[j]@,
                            filter_state,
                        );
                    assert(all@[m].0 != all@[i as int].0);
                }
                place = insert_in_order(&mut out, copy);
                assert(out@[place as int]@ == all@[i as int].1@);
            }
            assert forall|j: int| 0 <= j < out@.len() implies listed_from(
                (#[trigger] out@[j])@,
                all@,
                i + 1,
                filter_state,
            ) by {
                if j < place && j < before.len() {
                    assert(listed_from(before[j]@, all@, i as int, filter_state));
                } else if j > place {
                    assert(out@[j] == before[j - 1]);
                    assert(listed_from(before[j - 1]@, all@, i as int, filter_state));
                }
            }
            assert forall|j: int| 0 <= j < i + 1 && matches_filter(
                (#[trigger] all@[j]).1@,
                filter_state,
            ) implies exists|k: int| 0 <= k < out@.len() && (#[trigger] out@[k])@ == all@[j].1@ by {
                if j < i {
                    let k = choose|k: int|
                        0 <= k < before.len() && (#[trigger] before[k])@ == all@[j].1@;
                    let at = if k < place {
                        k
                    } else {
                        k + 1
                    };
                    if keep {
                        assert(out@[at]@ == all@[j].1@);
                    } else {
                        assert(out@[k]@ == all@[j].1@);
                    }
                }
            }
            i = i + 1;
        }
        proof {
            let m = models(out@);
            assert forall|j: int| 0 <= j < m.len() implies self.table().contains_key(
                (#[trigger] m[j]).metadata.stream_id.value,
            ) && self.table()[m[j].metadata.stream_id.value] == m[j] && matches_filter(
                m[j],
                filter_state,
            ) by {
                assert(listed_from(out@[j]@, all@, i as int, filter_state));
                let k = choose|k: int|
                    0 <= k < i && (#[trigger] all@[k]).1@ == out@[j]@ && matches_filter(
                        out@[j]@,
                        filter_state,
                    );
                assert(self.table().contains_key(all@[k].0));
            }
            assert forall|j: int, k: int| 0 <= j < k < m.len() implies (
            #[trigger] m[j]).metadata.stream_id != (#[trigger] m[k]).metadata.stream_id by {
                assert(m[j].metadata.stream_id.value < m[k].metadata.stream_id.value);
            }
            assert forall|key: u128| #[trigger]
                self.table().contains_key(key) && matches_filter(
                    self.table()[key],
                    filter_state,
                ) implies exists|j: int|
                0 <= j < m.len() && (#[trigger] m[j]).metadata.stream_id.value == key by {
                let a = choose|a: int| 0 <= a < all@.len() && (#[trigger] all@[a]).0 == key;
                assert(matches_filter(all@[a].1@, filter_state));
                let k = choose|k: int| 0 <= k < out@.len() && (#[trigger] out@[k])@ == all@[a].1@;
                assert(m[k].metadata.stream_id.value == key);
            }
        }
        out
    }

    /// One page of the streams in a state, or of all, and how many there are in all.
    pub fn list_streams_paginated(
        &self,
        filter_state: Option<StreamState>,
        offset: usize,
        limit: usize,
    ) -> (r: (Vec<StreamEntry>, usize))
        requires
            self.wf(),
        ensures
            exists|all: Seq<EntryModel>| #[trigger]
                is_list(all, self.table(), filter_state) && models(r.0@) == page_of(
                    all,
                    offset as nat,
                    limit as nat,
                ) && r.1 == all.len(),
    {
        let all = self.list_streams(filter_state);
        let total: usize = all.len();
        let mut page: Vec<StreamEntry> = Vec::new();
        let mut i: usize = offset;
        let ghost whole = models(all@);
        proof {
            assert(models(page@) =~= page_of(whole, offset as nat, 0));
        }
        while i < total && page.len() < limit
            invariant
                total == all@.len(),
                whole == models(all@),
                offset <= i,
                page@.len() <= limit,
                i > offset ==> i <= total,
                i - offset == page@.len(),
                models(page@) == page_of(whole, offset as nat, page@.len()),
            decreases total - i,
        {
            page.push(all[i].copy());
            i = i + 1;
            assert(models(page@) =~= page_of(whole, offset as nat, page@.len()));
        }
        assert(models(page@) =~= page_of(whole, offset as nat, limit as nat));
        (page, total)
    }

    /// Notes the media information of a stream; an unknown stream is passed over.
    pub fn set_media_info(&mut self, stream_id: StreamId, media_info: MediaInfo)
        requires
            old(self).wf(),
        ensures
            final(self).wf(),
            final(self).counts() == old(self).counts(),
            final(self).table() == if old(self).table().contains_key(stream_id.value) {
                let e = old(self).table()[stream_id.value];
                old(self).table().insert(
                    stream_id.value,
                    EntryModel {
                        metadata: StreamMetadata { media_info: Some(media_info), ..e.metadata },
                        ..e
                    },
                )
            } else {
                old(self).table()
            },
    {
        if let Some(mut entry) = table_get(&self.streams, stream_id.value) {
            entry.metadata.media_info = Some(media_info);
            table_insert(&mut self.streams, stream_id.value, entry);
        }
    }

    /// Notes how many renditions a stream will have; an unknown stream is passed over.
    pub fn set_expected_renditions(&mut self, stream_id: StreamId, count: usize)
        requires
            old(self).wf(),
        ensures
            final(self).wf(),
            final(self).counts() == old(self).counts(),
            final(self).table() == if old(self).table().contains_key(stream_id.value) {
                let e = old(self).table()[stream_id.value];
                old(self).table().insert(
                    stream_id.value,
                    EntryModel { expected_renditions: Some(count), ..e },
                )
            } else {
                old(self).table()
            },
    {
        if let Some(mut entry) = table_get(&self.streams, stream_id.value) {
            entry.expected_renditions = Some(count);
            table_insert(&mut self.streams, stream_id.value, entry);
        }
    }

    /// The table after a rendition reports a segment at `now`.
    pub open spec fn with_progress(
        self,
        stream_id: StreamId,
        rendition: Seq<char>,
        sequence: u64,
        now: i128,
    ) -> Map<u128, EntryModel> {
        if self.table().contains_key(stream_id.value) {
            self.table().insert(
                stream_id.value,
                self.table()[stream_id.value].progressed(rendition, sequence, now),
            )
        } else {
            self.table()
        }
    }

    /// Notes the latest segment of a rendition; an unknown stream is passed over.
    pub fn update_rendition_progress(
        &mut self,
        stream_id: StreamId,
        rendition: &str,
        sequence: u64,
    )
        requires
            old(self).wf(),
        ensures
            final(self).wf(),
            final(self).counts() == old(self).counts(),
            exists|now: i128|
                final(self).table() == #[trigger] old(self).with_progress(
                    stream_id,
                    rendition@,
                    sequence,
                    now,
                ) && in_calendar(now),
    {
        let now = clock::now();
        self.update_rendition_progress_at(stream_id, rendition, sequence, now);
        assert(self.table() == old(self).with_progress(stream_id, rendition@, sequence, now));
    }

    /// Notes the latest segment of a rendition, at `now`.
    pub fn update_rendition_progress_at(
        &mut self,
        stream_id: StreamId,
        rendition: &str,
        sequence: u64,
        now: i128,
    )
        requires
            old(self).wf(),
            in_calendar(now),
        ensures
            final(self).wf(),
            final(self).counts() == old(self).counts(),
            final(self).table() == old(self).with_progress(stream_id, rendition@, sequence, now),
    {
        if let Some(mut entry) = table_get(&self.streams, stream_id.value) {
            entry.progress(rendition, sequence, now);
            table_insert(&mut self.streams, stream_id.value, entry);
        }
    }

    /// What marking a rendition as complete at `now` does and returns: once all expected
    /// renditions are complete, a processing stream becomes ready.
    pub open spec fn rendition_completed(
        self,
        after: Self,
        stream_id: StreamId,
        rendition: Seq<char>,
        now: i128,
        r: Option<StreamEntry>,
    ) -> bool {
        if !self.table().contains_key(stream_id.value) {
            &&& r is None
            &&& after.table() == self.table()
            &&& after.counts() == self.counts()
        } else {
            let e = self.table()[stream_id.value].completed(rendition);
            let result = if e.is_done() {
                e.entering(StreamState::Ready, now)
            } else {
                e
            };
            &&& r is Some
            &&& r->0@ == result
            &&& after.table() == self.table().insert(stream_id.value, result)
            &&& after.counts() == if e.is_done() {
                counted_in(
                    counted_out(self.counts(), StreamState::Processing),
                    StreamState::Ready,
                )
            } else {
                self.counts()
            }
        }
    }

    /// Marks a rendition as complete.
    pub fn mark_rendition_complete(&mut self, stream_id: StreamId, rendition: &str) -> (r: Option<
        StreamEntry,
    >)
        requires
            old(self).wf(),
        ensures
            final(self).wf(),
            exists|now: i128| #[trigger]
                old(self).rendition_completed(*final(self), stream_id, rendition@, now, r) && in_calendar(now),
    {
        let now = clock::now();
        let r = self.mark_rendition_complete_at(stream_id, rendition, now);
        assert(old(self).rendition_completed(*self, stream_id, rendition@, now, r));
        r
    }

    /// Marks a rendition as complete, at `now`.
    pub fn mark_rendition_complete_at(
        &mut self,
        stream_id: StreamId,
        rendition: &str,
        now: i128,
    ) -> (r: Option<StreamEntry>)
        requires
            old(self).wf(),
            in_calendar(now),
        ensures
            final(self).wf(),
            old(self).rendition_completed(*final(self), stream_id, rendition@, now, r),
    {
        let mut entry = match table_get(&self.streams, stream_id.value) {
            Some(e) => e,
            None => {
                return None;
            },
        };
        entry.complete(rendition);
        let done = entry.done();
        let ghost completed = entry@;
        table_insert(&mut self.streams, stream_id.value, entry.copy());
        let ghost before = self.table();
        if done {
            match self.transition_at(stream_id, StreamState::Ready, now) {
                Ok(updated) => {
                    assert(self.table() =~= old(self).table().insert(
                        stream_id.value,
                        completed.entering(StreamState::Ready, now),
                    ));
                    Some(updated)
                },
                Err(_) => None,
            }
        } else {
            Some(entry)
        }
    }

    /// Forgets a stream. Returns whether there was one.
    pub fn remove_stream(&mut self, stream_id: StreamId) -> (r: bool)
        requires
            old(self).wf(),
        ensures
            final(self).wf(),
            r == old(self).table().contains_key(stream_id.value),
            final(self).table() == old(self).table().remove(stream_id.value),
            final(self).counts() == if r {
                counted_out(old(self).counts(), old(self).table()[stream_id.value].state)
            } else {
                old(self).counts()
            },
    {
        match table_remove(&mut self.streams, stream_id.value) {
            Some(removed) => {
                self.count_out(removed.state);
                true
            },
            None => {
                assert(self.table() =~= old(self).table());
                false
            },
        }
    }

    /// The gauge of a state: its counter, and never below 0.
    pub open spec fn gauge(self, s: StreamState) -> Measurement {
        let n = self.counts()[s.place()];
        measured1(
            "streaminfa_streams_total"@,
            "status"@,
            s.name(),
            MetricChange::GaugeSet(
                if n > 0 {
                    n
                } else {
                    0
                },
            ),
        )
    }

    fn state_gauge(&self, s: StreamState) -> (r: MetricUpdate)
        ensures
            r@ == self.gauge(s),
    {
        let n = self.state_counts[Self::state_index(s)];
        obs::set_streams_total(
            s.as_str(),
            if n > 0 {
                n
            } else {
                0
            },
        )
    }

    /// The gauges of all states, in the order of the life cycle.
    pub fn update_stream_gauges(&self) -> (r: Vec<MetricUpdate>)
        ensures
            all_measured(r@) == seq![
                self.gauge(StreamState::Pending),
                self.gauge(StreamState::Live),
                self.gauge(StreamState::Processing),
                self.gauge(StreamState::Ready),
                self.gauge(StreamState::Error),
                self.gauge(StreamState::Deleted),
            ],
    {
        let mut out: Vec<MetricUpdate> = Vec::new();
        out.push(self.state_gauge(StreamState::Pending));
        out.push(self.state_gauge(StreamState::Live));
        out.push(self.state_gauge(StreamState::Processing));
        out.push(self.state_gauge(StreamState::Ready));
        out.push(self.state_gauge(StreamState::Error));
        out.push(self.state_gauge(StreamState::Deleted));
        assert(all_measured(out@) =~= seq![
            self.gauge(StreamState::Pending),
            self.gauge(StreamState::Live),
            self.gauge(StreamState::Processing),
            self.gauge(StreamState::Ready),
            self.gauge(StreamState::Error),
            self.gauge(StreamState::Deleted),
        ]);
        out
    }

    /// Whether a change of state is allowed.
    pub fn is_valid_transition(from: StreamState, to: StreamState, ingest_mode: IngestMode) -> (r:
        bool)
        ensures
            r == valid_transition(from, to, ingest_mode),
    {
        match (from, to, ingest_mode) {
            (_, StreamState::Error, _) => from != StreamState::Deleted,
            (StreamState::Pending, StreamState::Live, IngestMode::Live) => true,
            (StreamState::Live, StreamState::Processing, IngestMode::Live) => true,
            (StreamState::Pending, StreamState::Processing, IngestMode::Vod) => true,
            (StreamState::Processing, StreamState::Ready, _) => true,
            (StreamState::Ready, StreamState::Deleted, _) => true,
            (StreamState::Error, StreamState::Deleted, _) => true,
            _ => false,
        }
    }
}

impl Default for StreamStateManager {
    fn default() -> (r: Self)
        ensures
            r.wf(),
            r.table() == no_streams(),
            r.counts() == Seq::new(6, |i: int| 0i64),
    {
        StreamStateManager::new()
    }
}

/// Inserts a stream into a list in the order of the identifiers. Returns its place.
fn insert_in_order(list: &mut Vec<StreamEntry>, entry: StreamEntry) -> (r: usize)
    requires
        ascending(models(old(list)@)),
        forall|j: int|
            0 <= j < old(list)@.len() ==> (#[trigger] old(list)@[j])@.metadata.stream_id
                != entry@.metadata.stream_id,
    ensures
        r <= old(list)@.len(),
        final(list)@ == old(list)@.insert(r as int, entry),
        ascending(models(final(list)@)),
{
    let mut i: usize = 0;
    while i < list.len() && list[i].metadata.stream_id.value < entry.metadata.stream_id.value
        invariant
            i <= list@.len(),
            forall|j: int|
                0 <= j < i ==> (#[trigger] list@[j])@.metadata.stream_id.value
                    < entry@.metadata.stream_id.value,
        decreases list@.len() - i,
    {
        i = i + 1;
    }
    let ghost before = models(list@);
    proof {
        if i < list@.len() {
            assert(list@[i as int]@.metadata.stream_id != entry@.metadata.stream_id);
            assert(before[i as int] == list@[i as int]@);
        }
    }
    list.insert(i, entry);
    proof {
        let after = models(list@);
        assert forall|j: int, k: int| 0 <= j < k < after.len() implies (
        #[trigger] after[j]).metadata.stream_id.value < (
        #[trigger] after[k]).metadata.stream_id.value by {
            let a = if j < i {
                j
            } else {
                j - 1
            };
            let b = if k < i {
                k
            } else {
                k - 1
            };
            if j != i {
                assert(after[j] == before[a]);
                assert(before[a] == old(list)@[a]@);
            }
            if k != i {
                assert(after[k] == before[b]);
                assert(before[b] == old(list)@[b]@);
            }
        }
    }
    i
}

/// The entry is one of the first `n` of a list, and matches.
pub open spec fn listed_from(
    e: EntryModel,
    all: Seq<(u128, StreamEntry)>,
    n: int,
    filter: Option<StreamState>,
) -> bool {
    exists|m: int| 0 <= m < n && (#[trigger] all[m]).1@ == e && matches_filter(e, filter)
}

/// The answer to a change that is not allowed.
pub open spec fn refused(
    r: Result<StreamEntry, StateError>,
    stream_id: StreamId,
    from: StreamState,
    to: StreamState,
) -> bool {
    match r {
        Err(StateError::InvalidTransition { stream_id: id, from: f, to: t }) => id == stream_id
            && f@ == from.name() && t@ == to.name(),
        _ => false,
    }
}

// ---------------------------------------------------------------------------
// Laws
// ---------------------------------------------------------------------------

/// Deleted is final: no change leads out of it.
pub proof fn deleted_is_final(to: StreamState, mode: IngestMode)
    ensures
        !valid_transition(StreamState::Deleted, to, mode),
{
}

/// Error is reached from every state but deleted.
pub proof fn error_is_reached_from_any_other_state(from: StreamState, mode: IngestMode)
    ensures
        valid_transition(from, StreamState::Error, mode) <==> from != StreamState::Deleted,
{
}

/// An uploaded stream never goes live.
pub proof fn uploads_never_go_live(from: StreamState)
    ensures
        !valid_transition(from, StreamState::Live, IngestMode::Vod),
{
}

/// A stream only moves forward in its life cycle; only error can follow itself.
pub proof fn states_only_move_forward(from: StreamState, to: StreamState, mode: IngestMode)
    requires
        valid_transition(from, to, mode),
    ensures
        from.place() < to.place() || (from == StreamState::Error && to == StreamState::Error),
{
}

proof fn lemma_in_state_finite(t: Map<u128, EntryModel>, s: StreamState)
    requires
        t.dom().finite(),
    ensures
        in_state(t, s).finite(),
        in_state(t, s).len() <= t.dom().len(),
{
    vstd::set_lib::lemma_len_subset(in_state(t, s), t.dom());
}

/// Replacing an entry moves its stream from one state to another.
proof fn lemma_moved(
    c: Seq<i64>,
    t: Map<u128, EntryModel>,
    k: u128,
    e: EntryModel,
)
    requires
        c.len() == 6,
        t.dom().finite(),
        t.dom().len() < i64::MAX,
        t.contains_key(k),
        counts_agree(c, t),
    ensures
        counts_agree(counted_in(counted_out(c, t[k].state), e.state), t.insert(k, e)),
{
    let from = t[k].state;
    let u = t.insert(k, e);
    let d = counted_in(counted_out(c, from), e.state);
    assert forall|s: StreamState| #[trigger] d[s.place()] == in_state(u, s).len() by {
        lemma_in_state_finite(t, s);
        lemma_in_state_finite(t, from);
        assert(c[s.place()] == in_state(t, s).len());
        assert(c[from.place()] == in_state(t, from).len());
        assert(in_state(t, from).contains(k));
        assert(in_state(t, from).len() > 0);
        if s == from && s == e.state {
            assert(in_state(u, s) =~= in_state(t, s));
        } else if s == from {
            assert(in_state(u, s) =~= in_state(t, s).remove(k));
        } else if s == e.state {
            assert(in_state(u, s) =~= in_state(t, s).insert(k));
        } else {
            assert(in_state(u, s) =~= in_state(t, s));
        }
    }
}

/// The counters keep telling how many streams are in each state, whatever a change of state
/// does.
pub proof fn counters_agree_after_change(
    before: StreamStateManager,
    after: StreamStateManager,
    stream_id: StreamId,
    new_state: StreamState,
    now: i128,
    r: Result<StreamEntry, StateError>,
)
    requires
        before.wf(),
        before.table().dom().len() < i64::MAX,
        counts_agree(before.counts(), before.table()),
        before.changed(after, stream_id, new_state, now, r),
    ensures
        counts_agree(after.counts(), after.table()),
{
    let k = stream_id.value;
    if before.table().contains_key(k) {
        let e = before.table()[k];
        if valid_transition(e.state, new_state, e.metadata.ingest_mode) {
            lemma_moved(before.counts(), before.table(), k, e.entering(new_state, now));
        }
    }
}

/// The counters keep telling how many streams are in each state when a stream fails.
pub proof fn counters_agree_after_failure(
    before: StreamStateManager,
    after: StreamStateManager,
    stream_id: StreamId,
    message: Seq<char>,
    now: i128,
    r: Result<StreamEntry, StateError>,
)
    requires
        before.wf(),
        before.table().dom().len() < i64::MAX,
        counts_agree(before.counts(), before.table()),
        before.failed(after, stream_id, message, now, r),
    ensures
        counts_agree(after.counts(), after.table()),
{
    let k = stream_id.value;
    if before.table().contains_key(k) {
        let e = before.table()[k];
        if e.state != StreamState::Deleted {
            lemma_moved(before.counts(), before.table(), k, e.failing(message, now));
        }
    }
}

/// The counters keep telling how many streams are in each state when a rendition is complete.
pub proof fn counters_agree_after_completion(
    before: StreamStateManager,
    after: StreamStateManager,
    stream_id: StreamId,
    rendition: Seq<char>,
    now: i128,
    r: Option<StreamEntry>,
)
    requires
        before.wf(),
        before.table().dom().len() < i64::MAX,
        counts_agree(before.counts(), before.table()),
        before.rendition_completed(after, stream_id, rendition, now, r),
    ensures
        counts_agree(after.counts(), after.table()),
{
    let k = stream_id.value;
    if before.table().contains_key(k) {
        let e = before.table()[k].completed(rendition);
        if e.is_done() {
            lemma_moved(before.counts(), before.table(), k, e.entering(StreamState::Ready, now));
        } else {
            assert forall|s: StreamState| #[trigger]
                before.counts()[s.place()] == in_state(after.table(), s).len() by {
                assert(in_state(after.table(), s) =~= in_state(before.table(), s));
            }
        }
    }
}

/// The counters keep telling how many streams are in each state when a stream is created under
/// an identifier that no stream has.
pub proof fn counters_agree_after_creation(
    before: StreamStateManager,
    after: StreamStateManager,
    stream_id: StreamId,
    mode: IngestMode,
    now: i128,
)
    requires
        before.wf(),
        before.table().dom().len() < i64::MAX,
        counts_agree(before.counts(), before.table()),
        !before.table().contains_key(stream_id.value),
        after.table() == before.table().insert(
            stream_id.value,
            EntryModel::fresh(stream_id, mode, now),
        ),
        after.counts() == counted_in(before.counts(), StreamState::Pending),
    ensures
        counts_agree(after.counts(), after.table()),
{
    let t = before.table();
    let u = after.table();
    let k = stream_id.value;
    assert forall|s: StreamState| #[trigger] after.counts()[s.place()] == in_state(u, s).len() by {
        lemma_in_state_finite(t, s);
        assert(before.counts()[s.place()] == in_state(t, s).len());
        if s == StreamState::Pending {
            assert(in_state(u, s) =~= in_state(t, s).insert(k));
        } else {
            assert(in_state(u, s) =~= in_state(t, s));
        }
    }
}

/// The counters keep telling how many streams are in each state when a stream is forgotten.
pub proof fn counters_agree_after_removal(
    before: StreamStateManager,
    after: StreamStateManager,
    stream_id: StreamId,
)
    requires
        before.wf(),
        before.table().dom().len() < i64::MAX,
        counts_agree(before.counts(), before.table()),
        after.table() == before.table().remove(stream_id.value),
        after.counts() == if before.table().contains_key(stream_id.value) {
            counted_out(before.counts(), before.table()[stream_id.value].state)
        } else {
            before.counts()
        },
    ensures
        counts_agree(after.counts(), after.table()),
{
    let t = before.table();
    let u = after.table();
    let k = stream_id.value;
    assert forall|s: StreamState| #[trigger] after.counts()[s.place()] == in_state(u, s).len() by {
        lemma_in_state_finite(t, s);
        assert(before.counts()[s.place()] == in_state(t, s).len());
        if t.contains_key(k) && t[k].state == s {
            assert(in_state(t, s).contains(k));
            assert(in_state(u, s) =~= in_state(t, s).remove(k));
        } else {
            assert(in_state(u, s) =~= in_state(t, s));
        }
    }
}

/// A complete rendition stays complete, and completing it never lowers the number of complete
/// ones.
pub proof fn completing_never_undoes(e: EntryModel, name: Seq<char>)
    requires
        e.wf(),
    ensures
        e.completed(name).complete_count() >= e.complete_count(),
        e.completed(name).has_rendition(name) == e.has_rendition(name),
        forall|i: int|
            0 <= i < e.renditions.len() && (#[trigger] e.renditions[i]).status
                == RenditionState::Complete ==> e.completed(name).renditions[i].status
                == RenditionState::Complete,
{
    if e.has_rendition(name) {
        let i = choose|i: int| e.rendition_at(name, i);
        let f = e.completed(name);
        lemma_count_update(e.renditions, i, f.renditions[i]);
        assert(f.rendition_at(name, i));
    }
}

/// The identifiers of listed streams.
pub open spec fn listed_ids(r: Seq<EntryModel>) -> Seq<u128> {
    r.map_values(|e: EntryModel| e.metadata.stream_id.value)
}

proof fn lemma_listed_ids(
    r: Seq<EntryModel>,
    table: Map<u128, EntryModel>,
    filter: Option<StreamState>,
    k: u128,
)
    requires
        lists_matching(r, table, filter),
    ensures
        listed_ids(r).no_duplicates(),
        listed_ids(r).contains(k) <==> table.contains_key(k) && matches_filter(table[k], filter),
{
    let ids = listed_ids(r);
    assert forall|i: int, j: int| 0 <= i < ids.len() && 0 <= j < ids.len() && i != j implies ids[i]
        != ids[j] by {
        if i < j {
            assert(r[i].metadata.stream_id != r[j].metadata.stream_id);
        } else {
            assert(r[j].metadata.stream_id != r[i].metadata.stream_id);
        }
    }
    if ids.contains(k) {
        let i = choose|i: int| 0 <= i < ids.len() && ids[i] == k;
        assert(r[i].metadata.stream_id.value == k);
    }
    if table.contains_key(k) && matches_filter(table[k], filter) {
        let i = choose|i: int| 0 <= i < r.len() && (#[trigger] r[i]).metadata.stream_id.value == k;
        assert(ids[i] == k);
    }
}

/// Any two lists of the same streams have the same length and hold the same streams, so the
/// total that a page tells does not depend on the page.
pub proof fn lists_hold_the_same_streams(
    a: Seq<EntryModel>,
    b: Seq<EntryModel>,
    table: Map<u128, EntryModel>,
    filter: Option<StreamState>,
)
    requires
        lists_matching(a, table, filter),
        lists_matching(b, table, filter),
    ensures
        a.len() == b.len(),
        forall|e: EntryModel| #[trigger] a.contains(e) <==> b.contains(e),
{
    let x = listed_ids(a);
    let y = listed_ids(b);
    assert forall|k: u128| #[trigger] x.to_set().contains(k) <==> y.to_set().contains(k) by {
        lemma_listed_ids(a, table, filter, k);
        lemma_listed_ids(b, table, filter, k);
    }
    assert(x.to_set() =~= y.to_set());
    lemma_listed_ids(a, table, filter, 0);
    lemma_listed_ids(b, table, filter, 0);
    x.unique_seq_to_set();
    y.unique_seq_to_set();
    assert forall|e: EntryModel| #[trigger] a.contains(e) <==> b.contains(e) by {
        if a.contains(e) {
            lemma_listed_elsewhere(a, b, table, filter, e);
        }
        if b.contains(e) {
            lemma_listed_elsewhere(b, a, table, filter, e);
        }
    }
}

proof fn lemma_listed_elsewhere(
    a: Seq<EntryModel>,
    b: Seq<EntryModel>,
    table: Map<u128, EntryModel>,
    filter: Option<StreamState>,
    e: EntryModel,
)
    requires
        lists_matching(a, table, filter),
        lists_matching(b, table, filter),
        a.contains(e),
    ensures
        b.contains(e),
{
    let i = choose|i: int| 0 <= i < a.len() && a[i] == e;
    let k = a[i].metadata.stream_id.value;
    assert(table.contains_key(k) && matches_filter(table[k], filter));
    let j = choose|j: int| 0 <= j < b.len() && (#[trigger] b[j]).metadata.stream_id.value == k;
    assert(b[j] == table[k]);
}

/// There is one list of the streams that match: any two calls on an unchanged table give the same.
pub proof fn lists_are_alike(
    a: Seq<EntryModel>,
    b: Seq<EntryModel>,
    table: Map<u128, EntryModel>,
    filter: Option<StreamState>,
)
    requires
        is_list(a, table, filter),
        is_list(b, table, filter),
    ensures
        a == b,
{
    lists_hold_the_same_streams(a, b, table, filter);
    lemma_alike_up_to(a, b, table, filter, a.len() as int);
    assert(a =~= b);
}

proof fn lemma_alike_up_to(
    a: Seq<EntryModel>,
    b: Seq<EntryModel>,
    table: Map<u128, EntryModel>,
    filter: Option<StreamState>,
    n: int,
)
    requires
        is_list(a, table, filter),
        is_list(b, table, filter),
        a.len() == b.len(),
        0 <= n <= a.len(),
    ensures
        forall|i: int| 0 <= i < n ==> a[i] == b[i],
    decreases n,
{
    if n > 0 {
        let i = n - 1;
        lemma_alike_up_to(a, b, table, filter, i);
        lemma_not_smaller(a, b, table, filter, i);
        lemma_not_smaller(b, a, table, filter, i);
        assert(table[a[i].metadata.stream_id.value] == a[i]);
        assert(table[b[i].metadata.stream_id.value] == b[i]);
    }
}

proof fn lemma_not_smaller(
    a: Seq<EntryModel>,
    b: Seq<EntryModel>,
    table: Map<u128, EntryModel>,
    filter: Option<StreamState>,
    i: int,
)
    requires
        is_list(a, table, filter),
        is_list(b, table, filter),
        a.len() == b.len(),
        0 <= i < a.len(),
        forall|j: int| 0 <= j < i ==> a[j] == b[j],
    ensures
        a[i].metadata.stream_id.value >= b[i].metadata.stream_id.value,
{
    let k = a[i].metadata.stream_id.value;
    assert(table.contains_key(k) && matches_filter(table[k], filter));
    let j = choose|j: int| 0 <= j < b.len() && (#[trigger] b[j]).metadata.stream_id.value == k;
    if j < i {
        assert(a[j].metadata.stream_id.value < a[i].metadata.stream_id.value);
    } else if j > i {
        assert(b[i].metadata.stream_id.value < b[j].metadata.stream_id.value);
    }
}

/// `page` is what a call on the table shows at an offset.
pub open spec fn is_page(
    page: Seq<EntryModel>,
    table: Map<u128, EntryModel>,
    filter: Option<StreamState>,
    offset: nat,
    limit: nat,
) -> bool {
    exists|all: Seq<EntryModel>| #[trigger]
        is_list(all, table, filter) && page == page_of(all, offset, limit)
}

/// Pages one after another.
pub open spec fn joined<T>(pages: Seq<Seq<T>>) -> Seq<T>
    decreases pages.len(),
{
    if pages.len() == 0 {
        Seq::empty()
    } else {
        joined(pages.drop_last()) + pages.last()
    }
}

/// The pages that calls at successive offsets show of an unchanged table make up the list of its
/// streams: no stream comes twice, and none is left out.
pub proof fn pages_of_calls_make_up_the_list(
    all: Seq<EntryModel>,
    table: Map<u128, EntryModel>,
    filter: Option<StreamState>,
    limit: nat,
    pages: Seq<Seq<EntryModel>>,
)
    requires
        is_list(all, table, filter),
        pages.len() * limit >= all.len(),
        forall|i: int|
            0 <= i < pages.len() ==> is_page(
                #[trigger] pages[i],
                table,
                filter,
                (i * limit) as nat,
                limit,
            ),
    ensures
        joined(pages) == all,
{
    lemma_joined_pages(all, table, filter, limit, pages);
    pages_make_up_the_list(all, limit, pages.len());
}

proof fn lemma_joined_pages(
    all: Seq<EntryModel>,
    table: Map<u128, EntryModel>,
    filter: Option<StreamState>,
    limit: nat,
    pages: Seq<Seq<EntryModel>>,
)
    requires
        is_list(all, table, filter),
        forall|i: int|
            0 <= i < pages.len() ==> is_page(
                #[trigger] pages[i],
                table,
                filter,
                (i * limit) as nat,
                limit,
            ),
    ensures
        joined(pages) == first_pages(all, limit, pages.len()),
    decreases pages.len(),
{
    if pages.len() > 0 {
        let n = pages.len() - 1;
        let rest = pages.drop_last();
        assert forall|i: int| 0 <= i < rest.len() implies is_page(
            #[trigger] rest[i],
            table,
            filter,
            (i * limit) as nat,
            limit,
        ) by {
            assert(rest[i] == pages[i]);
        }
        lemma_joined_pages(all, table, filter, limit, rest);
        assert(is_page(pages[n], table, filter, (n * limit) as nat, limit));
        let other = choose|other: Seq<EntryModel>| #[trigger]
            is_list(other, table, filter) && pages[n] == page_of(
                other,
                (n * limit) as nat,
                limit,
            );
        lists_are_alike(all, other, table, filter);
    }
}

/// The first `n` pages of a list, one after another.
pub open spec fn first_pages<T>(all: Seq<T>, limit: nat, n: nat) -> Seq<T>
    decreases n,
{
    if n == 0 {
        Seq::empty()
    } else {
        first_pages(all, limit, (n - 1) as nat) + page_of(all, ((n - 1) * limit) as nat, limit)
    }
}

/// A page is as long as it may be, and the pages of a list one after another make up the list:
/// nothing comes twice, and nothing is left out.
pub proof fn pages_make_up_the_list<T>(all: Seq<T>, limit: nat, n: nat)
    ensures
        forall|offset: nat| #[trigger]
            page_of(all, offset, limit).len() == if offset >= all.len() {
                0
            } else if all.len() - offset <= limit {
                all.len() - offset
            } else {
                limit as int
            },
        first_pages(all, limit, n) == if n * limit >= all.len() {
            all
        } else {
            all.subrange(0, (n * limit) as int)
        },
    decreases n,
{
    if n == 0 {
        assert(first_pages(all, limit, n) =~= if all.len() == 0 {
            all
        } else {
            all.subrange(0, 0)
        });
    } else {
        pages_make_up_the_list(all, limit, (n - 1) as nat);
        assert(n * limit == (n - 1) * limit + limit) by (nonlinear_arith)
            requires
                n > 0,
        ;
        assert((n - 1) * limit >= 0) by (nonlinear_arith)
            requires
                n > 0,
        ;
        assert(first_pages(all, limit, n) =~= if n * limit >= all.len() {
            all
        } else {
            all.subrange(0, (n * limit) as int)
        });
    }
}

/// The rendition that makes all expected ones complete makes the stream ready; one that does not
/// leaves its state as it is.
pub proof fn last_rendition_makes_ready(
    before: StreamStateManager,
    after: StreamStateManager,
    stream_id: StreamId,
    rendition: Seq<char>,
    now: i128,
    r: Option<StreamEntry>,
)
    requires
        before.wf(),
        before.table().contains_key(stream_id.value),
        before.rendition_completed(after, stream_id, rendition, now, r),
    ensures
        after.table().contains_key(stream_id.value),
        after.table()[stream_id.value].state == if before.table()[stream_id.value].completed(
            rendition,
        ).is_done() {
            StreamState::Ready
        } else {
            before.table()[stream_id.value].state
        },
{
}

proof fn lemma_count_update(r: Seq<RenditionModel>, i: int, x: RenditionModel)
    requires
        0 <= i < r.len(),
        x.status == RenditionState::Complete,
    ensures
        count_complete(r.update(i, x)) >= count_complete(r),
    decreases r.len(),
{
    let u = r.update(i, x);
    if i == r.len() - 1 {
        assert(u.drop_last() =~= r.drop_last());
    } else {
        assert(u.drop_last() =~= r.drop_last().update(i, x));
        lemma_count_update(r.drop_last(), i, x);
    }
}

/// A live stream goes from pending to live, from live to processing and from processing to ready; an
/// upload skips live. No other step leads there, none leads back to pending, and only what is ready
/// or has failed is deleted.
pub proof fn streams_pass_through_their_stages(from: StreamState, to: StreamState)
    ensures
        from != StreamState::Error && from != StreamState::Deleted && to != StreamState::Error && to
            != StreamState::Deleted ==> (valid_transition(from, to, IngestMode::Live)
            <==> to.place() == from.place() + 1),
        valid_transition(from, to, IngestMode::Vod) && to != StreamState::Error && to
            != StreamState::Deleted ==> to.place() == if from == StreamState::Pending {
            2
        } else {
            from.place() + 1
        },
        valid_transition(StreamState::Pending, StreamState::Processing, IngestMode::Vod),
        valid_transition(StreamState::Processing, StreamState::Ready, IngestMode::Vod),
        forall|mode: IngestMode| !#[trigger] valid_transition(from, StreamState::Pending, mode),
        forall|mode: IngestMode| #[trigger]
            valid_transition(from, StreamState::Deleted, mode) <==> from == StreamState::Ready
                || from == StreamState::Error,
        forall|mode: IngestMode|
            (from == StreamState::Error || from == StreamState::Deleted) && to != StreamState::Error
                && to != StreamState::Deleted ==> !#[trigger] valid_transition(from, to, mode),
{
}

/// The start of a stream is the time at which it went live; its end the time at which it became
/// ready, failed or was deleted. Nothing else of the stream changes with its state, and an error
/// keeps its words.
pub proof fn changes_of_state_keep_time(
    e: EntryModel,
    state: StreamState,
    message: Seq<char>,
    now: i128,
)
    ensures
        e.entering(state, now).state == state,
        state == StreamState::Live ==> e.entering(state, now).metadata.started_at == Some(now)
            && e.entering(state, now).metadata.ended_at == e.metadata.ended_at,
        state == StreamState::Ready || state == StreamState::Error || state == StreamState::Deleted
            ==> e.entering(state, now).metadata.ended_at == Some(now) && e.entering(
            state,
            now,
        ).metadata.started_at == e.metadata.started_at,
        state == StreamState::Pending || state == StreamState::Processing ==> e.entering(
            state,
            now,
        ).metadata == e.metadata,
        e.entering(state, now).metadata.stream_id == e.metadata.stream_id,
        e.entering(state, now).metadata.created_at == e.metadata.created_at,
        e.entering(state, now).metadata.media_info == e.metadata.media_info,
        e.entering(state, now).renditions == e.renditions,
        e.entering(state, now).error_message == e.error_message,
        e.entering(state, now).expected_renditions == e.expected_renditions,
        e.failing(message, now).state == StreamState::Error,
        e.failing(message, now).error_message == Some(message),
        e.failing(message, now).metadata.ended_at == Some(now),
{
}

/// A report of a segment is kept with the rendition that it names: its number and its time. Every
/// other rendition stays as it is, and a rendition that was not known comes last.
pub proof fn reports_change_one_rendition(
    e: EntryModel,
    name: Seq<char>,
    sequence: u64,
    now: i128,
    i: int,
)
    requires
        e.renditions_differ(),
        0 <= i < e.renditions.len(),
    ensures
        ({
            let r = e.progressed(name, sequence, now).renditions;
            let done = e.completed(name).renditions;
            &&& r.len() >= e.renditions.len()
            &&& done.len() == e.renditions.len()
            &&& e.renditions[i].rendition != name ==> r[i] == e.renditions[i] && done[i]
                == e.renditions[i]
            &&& e.renditions[i].rendition == name ==> {
                &&& r.len() == e.renditions.len()
                &&& r[i].rendition == name
                &&& r[i].segments_produced == sequence
                &&& r[i].last_segment_time == Some(now)
                &&& r[i].status == e.renditions[i].status
                &&& done[i].status == RenditionState::Complete
                &&& done[i].rendition == name
                &&& done[i].segments_produced == e.renditions[i].segments_produced
            }
            &&& (forall|j: int|
                0 <= j < e.renditions.len() ==> (#[trigger] e.renditions[j]).rendition != name)
                ==> {
                &&& r.len() == e.renditions.len() + 1
                &&& r.last().rendition == name
                &&& r.last().segments_produced == sequence
                &&& r.last().last_segment_time == Some(now)
                &&& r.last().status == RenditionState::Active
            }
        }),
{
    if e.has_rendition(name) {
        let k = choose|k: int| e.rendition_at(name, k);
        assert(e.renditions[k].rendition == name);
        if e.renditions[i].rendition == name {
            assert(i == k) by {
                if i < k {
                    assert(e.renditions[i].rendition != e.renditions[k].rendition);
                } else if k < i {
                    assert(e.renditions[k].rendition != e.renditions[i].rendition);
                }
            }
        }
    } else {
        assert(!e.rendition_at(name, i));
    }
}

/// A list for a state holds every stream in that state and no other; one for none holds them all.
pub proof fn lists_hold_what_was_asked_for(
    r: Seq<EntryModel>,
    table: Map<u128, EntryModel>,
    filter: Option<StreamState>,
    k: u128,
)
    requires
        is_list(r, table, filter),
        table.contains_key(k),
    ensures
        forall|i: int|
            0 <= i < r.len() ==> (filter matches Some(s) ==> (#[trigger] r[i]).state == s),
        filter is None || filter == Some(table[k].state) ==> exists|i: int|
            0 <= i < r.len() && (#[trigger] r[i]).metadata.stream_id.value == k && r[i]
                == table[k],
        forall|i: int, j: int|
            0 <= i < j < r.len() ==> (#[trigger] r[i]).metadata.stream_id.value < (
            #[trigger] r[j]).metadata.stream_id.value,
{
    if filter is None || filter == Some(table[k].state) {
        assert(table.contains_key(k) && matches_filter(table[k], filter));
        let i = choose|i: int| 0 <= i < r.len() && (#[trigger] r[i]).metadata.stream_id.value == k;
        assert(r[i] == table[k]);
    }
}

/// A stream that was just created waits, knows its own identifier, its mode and the time, and
/// nothing else.
pub proof fn created_streams_wait(stream_id: StreamId, mode: IngestMode, now: i128)
    ensures
        ({
            let e = EntryModel::fresh(stream_id, mode, now);
            &&& e.state == StreamState::Pending
            &&& e.metadata.stream_id == stream_id
            &&& e.metadata.ingest_mode == mode
            &&& e.metadata.created_at == now
            &&& e.metadata.started_at is None
            &&& e.metadata.ended_at is None
            &&& e.metadata.media_info is None
            &&& e.error_message is None
            &&& e.renditions.len() == 0
            &&& e.expected_renditions is None
        }),
{
}

} // verus!
