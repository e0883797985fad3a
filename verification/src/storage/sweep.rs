//! A cleanup of any store, step by step: what is asked of the store and of the stream table next,
//! by what came of the last step.

use bytes::Bytes;
use vstd::prelude::*;
use vstd::string::*;

use crate::buffer::{bytes_seq, bytes_slice};
use crate::common::types::StreamId;
use crate::control::state::{models, EntryModel, StreamEntry, StreamState};
use crate::storage::cleanup::{
    expired_keys, expired_segments, is_media_playlist, is_old, is_segment, is_stale,
    playlist_references, prefix_of, refers_to, stale, stream_prefix, MAX_RETENTION_MINUTES,
};
use crate::storage::ObjectInfo;
use crate::text::{finishes_with, lossy_text, views};

verus! {

/// What a cleanup waits for.
#[derive(Debug, Clone, Copy, PartialEq, Eq, Structural)]
pub enum SweepPhase {
    /// The live streams.
    Live,
    /// The objects of a live stream.
    Objects,
    /// A media playlist of a live stream.
    Playlist,
    /// The deletion of an expired segment.
    Expired,
    /// The failed streams.
    Failed,
    /// The deletion of the objects of a stale failed stream.
    Prefix,
    /// That a stale failed stream is marked as deleted.
    Mark,
    /// The deleted streams.
    Deleted,
    /// That a deleted stream is forgotten.
    Forget,
    /// Nothing.
    Over,
}

/// What came of a step.
#[derive(Debug)]
pub enum SweepEvent {
    /// The streams in the state that was asked for.
    Streams(Vec<StreamEntry>),
    /// The objects under the prefix that was asked for.
    Objects(Vec<ObjectInfo>),
    /// The body of the playlist that was asked for.
    Playlist(Bytes),
    /// It was done.
    Done,
    /// It could not be done.
    Failed,
}

/// What is to be done.
#[derive(Debug)]
pub enum SweepAction {
    ListStreams(StreamState),
    ListObjects { prefix: String },
    ReadObject { key: String },
    DeleteObject { key: String },
    DeletePrefix { prefix: String },
    MarkDeleted { stream_id: StreamId },
    Forget { stream_id: StreamId },
    /// Nothing more.
    Finish,
}

// ---------------------------------------------------------------------------
// Model
// ---------------------------------------------------------------------------

/// What an event says.
#[verifier::ext_equal]
pub enum SweepNews {
    Streams(Seq<EntryModel>),
    Objects(Seq<ObjectInfo>),
    Playlist(Seq<u8>),
    Done,
    Failed,
}

impl View for SweepEvent {
    type V = SweepNews;

    open spec fn view(&self) -> SweepNews {
        match *self {
            SweepEvent::Streams(s) => SweepNews::Streams(models(s@)),
            SweepEvent::Objects(o) => SweepNews::Objects(o@),
            SweepEvent::Playlist(b) => SweepNews::Playlist(bytes_seq(b)),
            SweepEvent::Done => SweepNews::Done,
            SweepEvent::Failed => SweepNews::Failed,
        }
    }
}

/// What an action says.
#[verifier::ext_equal]
pub enum SweepStep {
    ListStreams(StreamState),
    ListObjects { prefix: Seq<char> },
    ReadObject { key: Seq<char> },
    DeleteObject { key: Seq<char> },
    DeletePrefix { prefix: Seq<char> },
    MarkDeleted { stream_id: StreamId },
    Forget { stream_id: StreamId },
    Finish,
}

impl View for SweepAction {
    type V = SweepStep;

    open spec fn view(&self) -> SweepStep {
        match *self {
            SweepAction::ListStreams(s) => SweepStep::ListStreams(s),
            SweepAction::ListObjects { prefix } => SweepStep::ListObjects { prefix: prefix@ },
            SweepAction::ReadObject { key } => SweepStep::ReadObject { key: key@ },
            SweepAction::DeleteObject { key } => SweepStep::DeleteObject { key: key@ },
            SweepAction::DeletePrefix { prefix } => SweepStep::DeletePrefix { prefix: prefix@ },
            SweepAction::MarkDeleted { stream_id } => SweepStep::MarkDeleted { stream_id },
            SweepAction::Forget { stream_id } => SweepStep::Forget { stream_id },
            SweepAction::Finish => SweepStep::Finish,
        }
    }
}

/// The identifiers of streams, in order.
pub open spec fn ids_of(streams: Seq<EntryModel>) -> Seq<StreamId> {
    streams.map_values(|e: EntryModel| e.metadata.stream_id)
}

/// The identifiers of the streams that ended long enough before `now`, in order.
pub open spec fn stale_ids(streams: Seq<EntryModel>, now: i128) -> Seq<StreamId>
    decreases streams.len(),
{
    if streams.len() == 0 {
        Seq::empty()
    } else if is_stale(streams.last(), now) {
        stale_ids(streams.drop_last(), now).push(streams.last().metadata.stream_id)
    } else {
        stale_ids(streams.drop_last(), now)
    }
}

/// The paths of the media playlists among objects, in order.
pub open spec fn playlist_keys(objects: Seq<ObjectInfo>) -> Seq<Seq<char>>
    decreases objects.len(),
{
    if objects.len() == 0 {
        Seq::empty()
    } else if finishes_with(objects.last().key@, "media.m3u8"@) {
        playlist_keys(objects.drop_last()).push(objects.last().key@)
    } else {
        playlist_keys(objects.drop_last())
    }
}

/// The paths of the segments that are old and that nothing refers to, in order.
pub open spec fn expired_of(
    objects: Seq<ObjectInfo>,
    referenced: Set<Seq<char>>,
    retention_minutes: u64,
    now: i128,
) -> Seq<Seq<char>>
    decreases objects.len(),
{
    if objects.len() == 0 {
        Seq::empty()
    } else {
        let o = objects.last();
        let before = expired_of(objects.drop_last(), referenced, retention_minutes, now);
        if is_segment(o.key@) && is_old(o.last_modified, retention_minutes, now)
            && !referenced.contains(o.key@) {
            before.push(o.key@)
        } else {
            before
        }
    }
}

/// What a playlist refers to.
pub open spec fn references(path: Seq<char>, body: Seq<u8>) -> Set<Seq<char>> {
    Set::new(|k: Seq<char>| refers_to(path, lossy_text(body), k))
}

/// The state of a cleanup.
#[verifier::ext_equal]
pub struct SweepModel {
    pub retention_minutes: u64,
    pub now: i128,
    pub phase: SweepPhase,
    /// The streams that are left of those that are being cleaned up, the current one first.
    pub streams: Seq<StreamId>,
    /// The objects of the current live stream.
    pub objects: Seq<ObjectInfo>,
    /// Its media playlists that are left to be read.
    pub playlists: Seq<Seq<char>>,
    /// The segments that the others refer to.
    pub referenced: Set<Seq<char>>,
    /// Its segments that are left to be deleted.
    pub expired: Seq<Seq<char>>,
}

impl SweepModel {
    /// On to the first of the live streams that are left, or to the failed ones.
    pub open spec fn to_live(self) -> Self {
        SweepModel {
            phase: if self.streams.len() == 0 {
                SweepPhase::Failed
            } else {
                SweepPhase::Objects
            },
            ..self
        }
    }

    /// On to the next live stream.
    pub open spec fn past_live(self) -> Self {
        SweepModel { streams: self.streams.drop_first(), ..self }.to_live()
    }

    /// On to the first of the expired segments that are left, or to the next live stream.
    pub open spec fn to_expired(self) -> Self {
        if self.expired.len() == 0 {
            self.past_live()
        } else {
            SweepModel { phase: SweepPhase::Expired, ..self }
        }
    }

    /// On to the first of the playlists that are left; once all are read, to what has expired.
    pub open spec fn to_playlist(self) -> Self {
        if self.playlists.len() == 0 {
            SweepModel {
                expired: expired_of(
                    self.objects,
                    self.referenced,
                    self.retention_minutes,
                    self.now,
                ),
                ..self
            }.to_expired()
        } else {
            SweepModel { phase: SweepPhase::Playlist, ..self }
        }
    }

    /// On to the first of the failed streams that are left, or to the deleted ones.
    pub open spec fn to_failed(self) -> Self {
        SweepModel {
            phase: if self.streams.len() == 0 {
                SweepPhase::Deleted
            } else {
                SweepPhase::Prefix
            },
            ..self
        }
    }

    /// On to the first of the deleted streams that are left, or to the end.
    pub open spec fn to_deleted(self) -> Self {
        SweepModel {
            phase: if self.streams.len() == 0 {
                SweepPhase::Over
            } else {
                SweepPhase::Forget
            },
            ..self
        }
    }

    /// Without the first of the streams that are left.
    pub open spec fn past_stream(self) -> Self {
        SweepModel { streams: self.streams.drop_first(), ..self }
    }

    /// The state after an event. What could not be done is passed over; an event that is no
    /// answer to what was asked changes nothing.
    pub open spec fn moved(self, news: SweepNews) -> Self {
        match (self.phase, news) {
            (SweepPhase::Live, SweepNews::Streams(s)) => SweepModel {
                streams: ids_of(s),
                ..self
            }.to_live(),
            (SweepPhase::Objects, SweepNews::Objects(o)) => SweepModel {
                objects: o,
                playlists: playlist_keys(o),
                referenced: Set::empty(),
                ..self
            }.to_playlist(),
            (SweepPhase::Objects, SweepNews::Failed) => self.past_live(),
            (SweepPhase::Playlist, SweepNews::Playlist(body)) => SweepModel {
                referenced: self.referenced.union(references(self.playlists[0], body)),
                playlists: self.playlists.drop_first(),
                ..self
            }.to_playlist(),
            (SweepPhase::Playlist, SweepNews::Failed) => SweepModel {
                playlists: self.playlists.drop_first(),
                ..self
            }.to_playlist(),
            (SweepPhase::Expired, SweepNews::Done) => SweepModel {
                expired: self.expired.drop_first(),
                ..self
            }.to_expired(),
            (SweepPhase::Expired, SweepNews::Failed) => SweepModel {
                expired: self.expired.drop_first(),
                ..self
            }.to_expired(),
            (SweepPhase::Failed, SweepNews::Streams(s)) => SweepModel {
                streams: stale_ids(s, self.now),
                ..self
            }.to_failed(),
            (SweepPhase::Prefix, SweepNews::Done) => SweepModel {
                phase: SweepPhase::Mark,
                ..self
            },
            (SweepPhase::Prefix, SweepNews::Failed) => self.past_stream().to_failed(),
            (SweepPhase::Mark, SweepNews::Done) => self.past_stream().to_failed(),
            (SweepPhase::Mark, SweepNews::Failed) => self.past_stream().to_failed(),
            (SweepPhase::Deleted, SweepNews::Streams(s)) => SweepModel {
                streams: stale_ids(s, self.now),
                ..self
            }.to_deleted(),
            (SweepPhase::Forget, SweepNews::Done) => self.past_stream().to_deleted(),
            (SweepPhase::Forget, SweepNews::Failed) => self.past_stream().to_deleted(),
            _ => self,
        }
    }

    /// What is asked for in a state.
    pub open spec fn asked(self) -> SweepStep {
        match self.phase {
            SweepPhase::Live => SweepStep::ListStreams(StreamState::Live),
            SweepPhase::Objects => SweepStep::ListObjects {
                prefix: stream_prefix(self.streams[0].value),
            },
            SweepPhase::Playlist => SweepStep::ReadObject { key: self.playlists[0] },
            SweepPhase::Expired => SweepStep::DeleteObject { key: self.expired[0] },
            SweepPhase::Failed => SweepStep::ListStreams(StreamState::Error),
            SweepPhase::Prefix => SweepStep::DeletePrefix {
                prefix: stream_prefix(self.streams[0].value),
            },
            SweepPhase::Mark => SweepStep::MarkDeleted { stream_id: self.streams[0] },
            SweepPhase::Deleted => SweepStep::ListStreams(StreamState::Deleted),
            SweepPhase::Forget => SweepStep::Forget { stream_id: self.streams[0] },
            SweepPhase::Over => SweepStep::Finish,
        }
    }
}

// ---------------------------------------------------------------------------
// The cleanup
// ---------------------------------------------------------------------------

/// A cleanup of any store.
#[derive(Debug)]
pub struct CleanupSession {
    retention_minutes: u64,
    now: i128,
    phase: SweepPhase,
    streams: Vec<StreamId>,
    objects: Vec<ObjectInfo>,
    playlists: Vec<String>,
    referenced: Vec<String>,
    expired: Vec<String>,
}

impl View for CleanupSession {
    type V = SweepModel;

    closed spec fn view(&self) -> SweepModel {
        SweepModel {
            retention_minutes: self.retention_minutes,
            now: self.now,
            phase: self.phase,
            streams: self.streams@,
            objects: self.objects@,
            playlists: views(self.playlists@),
            referenced: views(self.referenced@).to_set(),
            expired: views(self.expired@),
        }
    }
}

impl CleanupSession {
    /// The retention can be counted, and what is waited for exists.
    pub closed spec fn wf(self) -> bool {
        &&& self.retention_minutes <= MAX_RETENTION_MINUTES
        &&& match self.phase {
            SweepPhase::Objects | SweepPhase::Prefix | SweepPhase::Mark | SweepPhase::Forget =>
                self.streams@.len() > 0,
            SweepPhase::Playlist => self.streams@.len() > 0 && self.playlists@.len() > 0,
            SweepPhase::Expired => self.streams@.len() > 0 && self.expired@.len() > 0,
            _ => true,
        }
    }

    /// A cleanup as of `now`, and its first step.
    pub fn begin(retention_minutes: u64, now: i128) -> (r: (Self, SweepAction))
        requires
            retention_minutes <= MAX_RETENTION_MINUTES,
        ensures
            r.0.wf(),
            r.0@ == (SweepModel {
                retention_minutes,
                now,
                phase: SweepPhase::Live,
                streams: Seq::empty(),
                objects: Seq::empty(),
                playlists: Seq::empty(),
                referenced: Set::empty(),
                expired: Seq::empty(),
            }),
            r.1@ == r.0@.asked(),
    {
        let session = CleanupSession {
            retention_minutes,
            now,
            phase: SweepPhase::Live,
            streams: Vec::new(),
            objects: Vec::new(),
            playlists: Vec::new(),
            referenced: Vec::new(),
            expired: Vec::new(),
        };
        proof {
            assert(session@.streams =~= Seq::empty());
            assert(session@.objects =~= Seq::empty());
            assert(session@.playlists =~= Seq::empty());
            assert(session@.expired =~= Seq::empty());
            assert(session@.referenced =~= Set::empty());
        }
        (session, SweepAction::ListStreams(StreamState::Live))
    }

    fn to_live(&mut self)
        requires
            old(self).retention_minutes <= MAX_RETENTION_MINUTES,
        ensures
            final(self).wf(),
            final(self)@ == old(self)@.to_live(),
    {
        self.phase = if self.streams.len() == 0 {
            SweepPhase::Failed
        } else {
            SweepPhase::Objects
        };
    }

    fn to_expired(&mut self)
        requires
            old(self).retention_minutes <= MAX_RETENTION_MINUTES,
            old(self).streams@.len() > 0,
        ensures
            final(self).wf(),
            final(self)@ == old(self)@.to_expired(),
    {
        if self.expired.len() == 0 {
            let _done = self.streams.remove(0);
            assert(self.streams@ =~= old(self).streams@.drop_first());
            self.to_live();
        } else {
            self.phase = SweepPhase::Expired;
        }
    }

    fn to_playlist(&mut self)
        requires
            old(self).retention_minutes <= MAX_RETENTION_MINUTES,
            old(self).streams@.len() > 0,
        ensures
            final(self).wf(),
            final(self)@ == old(self)@.to_playlist(),
    {
        if self.playlists.len() == 0 {
            self.expired = expired_segments(
                &self.objects,
                &self.referenced,
                self.retention_minutes,
                self.now,
            );
            proof {
                lemma_expired_of(
                    self.objects@,
                    views(self.referenced@),
                    self.retention_minutes,
                    self.now,
                );
            }
            self.to_expired();
        } else {
            self.phase = SweepPhase::Playlist;
        }
    }

    fn past_playlist(&mut self)
        requires
            old(self).playlists@.len() > 0,
        ensures
            *final(self) == (CleanupSession { playlists: final(self).playlists, ..*old(self) }),
            views(final(self).playlists@) == views(old(self).playlists@).drop_first(),
    {
        let _read = self.playlists.remove(0);
        assert(views(self.playlists@) =~= views(old(self).playlists@).drop_first());
    }

    fn past_expired(&mut self)
        requires
            old(self).expired@.len() > 0,
        ensures
            *final(self) == (CleanupSession { expired: final(self).expired, ..*old(self) }),
            views(final(self).expired@) == views(old(self).expired@).drop_first(),
    {
        let _deleted = self.expired.remove(0);
        assert(views(self.expired@) =~= views(old(self).expired@).drop_first());
    }

    fn past_stream(&mut self)
        requires
            old(self).streams@.len() > 0,
        ensures
            *final(self) == (CleanupSession { streams: final(self).streams, ..*old(self) }),
            final(self).streams@ == old(self).streams@.drop_first(),
    {
        let _done = self.streams.remove(0);
        assert(self.streams@ =~= old(self).streams@.drop_first());
    }

    fn to_failed(&mut self)
        requires
            old(self).retention_minutes <= MAX_RETENTION_MINUTES,
        ensures
            final(self).wf(),
            final(self)@ == old(self)@.to_failed(),
    {
        self.phase = if self.streams.len() == 0 {
            SweepPhase::Deleted
        } else {
            SweepPhase::Prefix
        };
    }

    fn to_deleted(&mut self)
        requires
            old(self).retention_minutes <= MAX_RETENTION_MINUTES,
        ensures
            final(self).wf(),
            final(self)@ == old(self)@.to_deleted(),
    {
        self.phase = if self.streams.len() == 0 {
            SweepPhase::Over
        } else {
            SweepPhase::Forget
        };
    }

    fn take_up(&mut self, event: SweepEvent)
        requires
            old(self).wf(),
        ensures
            final(self).wf(),
            final(self)@ == old(self)@.moved(event@),
    {
        match (self.phase, event) {
            (SweepPhase::Live, SweepEvent::Streams(s)) => {
                self.streams = all_ids(&s);
                self.to_live();
            },
            (SweepPhase::Objects, SweepEvent::Objects(o)) => {
                self.playlists = media_playlists(&o);
                self.objects = o;
                self.referenced = Vec::new();
                assert(views(self.referenced@).to_set() =~= Set::empty());
                self.to_playlist();
            },
            (SweepPhase::Objects, SweepEvent::Failed) => {
                self.past_stream();
                self.to_live();
            },
            (SweepPhase::Playlist, SweepEvent::Playlist(body)) => {
                let mut more = playlist_references(&self.playlists[0], bytes_slice(&body));
                let ghost path = self.playlists@[0]@;
                let ghost before = self.referenced@;
                let ghost added = more@;
                self.referenced.append(&mut more);
                proof {
                    assert(self.referenced@ =~= before + added);
                    lemma_more_references(before, added, path, bytes_seq(body));
                    assert(path == views(self.playlists@)[0]);
                }
                self.past_playlist();
                self.to_playlist();
            },
            (SweepPhase::Playlist, SweepEvent::Failed) => {
                self.past_playlist();
                self.to_playlist();
            },
            (SweepPhase::Expired, SweepEvent::Done) => {
                self.past_expired();
                self.to_expired();
            },
            (SweepPhase::Expired, SweepEvent::Failed) => {
                self.past_expired();
                self.to_expired();
            },
            (SweepPhase::Failed, SweepEvent::Streams(s)) => {
                self.streams = ids_of_stale(&s, self.now);
                self.to_failed();
            },
            (SweepPhase::Prefix, SweepEvent::Done) => {
                self.phase = SweepPhase::Mark;
            },
            (SweepPhase::Prefix, SweepEvent::Failed) => {
                self.past_stream();
                self.to_failed();
            },
            (SweepPhase::Mark, SweepEvent::Done) => {
                self.past_stream();
                self.to_failed();
            },
            (SweepPhase::Mark, SweepEvent::Failed) => {
                self.past_stream();
                self.to_failed();
            },
            (SweepPhase::Deleted, SweepEvent::Streams(s)) => {
                self.streams = ids_of_stale(&s, self.now);
                self.to_deleted();
            },
            (SweepPhase::Forget, SweepEvent::Done) => {
                self.past_stream();
                self.to_deleted();
            },
            (SweepPhase::Forget, SweepEvent::Failed) => {
                self.past_stream();
                self.to_deleted();
            },
            _ => {},
        }
    }

    /// Takes up what came of the last step, and says what the next one is.
    pub fn next(&mut self, event: SweepEvent) -> (r: SweepAction)
        requires
            old(self).wf(),
        ensures
            final(self).wf(),
            final(self)@ == old(self)@.moved(event@),
            r@ == final(self)@.asked(),
    {
        self.take_up(event);
        match self.phase {
            SweepPhase::Live => SweepAction::ListStreams(StreamState::Live),
            SweepPhase::Objects => SweepAction::ListObjects { prefix: prefix_of(self.streams[0]) },
            SweepPhase::Playlist => {
                assert(views(self.playlists@)[0] == self.playlists@[0]@);
                SweepAction::ReadObject { key: self.playlists[0].clone() }
            },
            SweepPhase::Expired => {
                assert(views(self.expired@)[0] == self.expired@[0]@);
                SweepAction::DeleteObject { key: self.expired[0].clone() }
            },
            SweepPhase::Failed => SweepAction::ListStreams(StreamState::Error),
            SweepPhase::Prefix => SweepAction::DeletePrefix { prefix: prefix_of(self.streams[0]) },
            SweepPhase::Mark => SweepAction::MarkDeleted { stream_id: self.streams[0] },
            SweepPhase::Deleted => SweepAction::ListStreams(StreamState::Deleted),
            SweepPhase::Forget => SweepAction::Forget { stream_id: self.streams[0] },
            SweepPhase::Over => SweepAction::Finish,
        }
    }
}

fn all_ids(streams: &Vec<StreamEntry>) -> (r: Vec<StreamId>)
    ensures
        r@ == ids_of(models(streams@)),
{
    let mut out: Vec<StreamId> = Vec::new();
    let mut i: usize = 0;
    while i < streams.len()
        invariant
            i <= streams@.len(),
            out@ == ids_of(models(streams@)).subrange(0, i as int),
        decreases streams@.len() - i,
    {
        out.push(streams[i].metadata.stream_id);
        i = i + 1;
        assert(out@ =~= ids_of(models(streams@)).subrange(0, i as int));
    }
    assert(out@ =~= ids_of(models(streams@)));
    out
}

fn ids_of_stale(streams: &Vec<StreamEntry>, now: i128) -> (r: Vec<StreamId>)
    ensures
        r@ == stale_ids(models(streams@), now),
{
    let mut out: Vec<StreamId> = Vec::new();
    let mut i: usize = 0;
    let ghost all = models(streams@);
    assert(all.subrange(0, 0) =~= Seq::empty());
    while i < streams.len()
        invariant
            i <= streams@.len(),
            all == models(streams@),
            out@ == stale_ids(all.subrange(0, i as int), now),
        decreases streams@.len() - i,
    {
        assert(all.subrange(0, i + 1).drop_last() =~= all.subrange(0, i as int));
        assert(all.subrange(0, i + 1).last() == streams@[i as int]@);
        if stale(&streams[i], now) {
            out.push(streams[i].metadata.stream_id);
        }
        i = i + 1;
    }
    assert(all.subrange(0, i as int) =~= all);
    out
}

fn media_playlists(objects: &Vec<ObjectInfo>) -> (r: Vec<String>)
    ensures
        views(r@) == playlist_keys(objects@),
{
    let mut out: Vec<String> = Vec::new();
    let mut i: usize = 0;
    assert(objects@.subrange(0, 0) =~= Seq::empty());
    assert(views(out@) =~= Seq::empty());
    while i < objects.len()
        invariant
            i <= objects@.len(),
            views(out@) == playlist_keys(objects@.subrange(0, i as int)),
        decreases objects@.len() - i,
    {
        assert(objects@.subrange(0, i + 1).drop_last() =~= objects@.subrange(0, i as int));
        let ghost before = views(out@);
        if is_media_playlist(&objects[i].key) {
            out.push(objects[i].key.clone());
            assert(views(out@) =~= before.push(objects@[i as int].key@));
        }
        i = i + 1;
    }
    assert(objects@.subrange(0, i as int) =~= objects@);
    out
}

proof fn lemma_expired_of(
    objects: Seq<ObjectInfo>,
    referenced: Seq<Seq<char>>,
    retention_minutes: u64,
    now: i128,
)
    ensures
        expired_of(objects, referenced.to_set(), retention_minutes, now) == expired_keys(
            objects,
            referenced,
            retention_minutes,
            now,
        ),
    decreases objects.len(),
{
    if objects.len() > 0 {
        lemma_expired_of(objects.drop_last(), referenced, retention_minutes, now);
        let k = objects.last().key@;
        assert(referenced.to_set().contains(k) == referenced.contains(k));
    }
}

proof fn lemma_more_references(
    before: Seq<String>,
    added: Seq<String>,
    path: Seq<char>,
    body: Seq<u8>,
)
    requires
        forall|k: Seq<char>| #[trigger]
            views(added).contains(k) <==> refers_to(path, lossy_text(body), k),
    ensures
        views(before + added).to_set() == views(before).to_set().union(references(path, body)),
{
    let a = views(before);
    let b = views(added);
    let all = views(before + added);
    assert(all =~= a + b);
    assert forall|k: Seq<char>| #[trigger] all.to_set().contains(k) <==> a.to_set().union(
        references(path, body),
    ).contains(k) by {
        if all.contains(k) {
            let i = choose|i: int| 0 <= i < all.len() && all[i] == k;
            if i < a.len() {
                assert(a[i] == k);
            } else {
                assert(b[i - a.len()] == k);
            }
        }
        if a.contains(k) {
            let i = choose|i: int| 0 <= i < a.len() && a[i] == k;
            assert(all[i] == k);
        }
        if b.contains(k) {
            let i = choose|i: int| 0 <= i < b.len() && b[i] == k;
            assert(all[a.len() + i] == k);
        }
    }
    assert(all.to_set() =~= a.to_set().union(references(path, body)));
}

// ---------------------------------------------------------------------------
// Laws
// ---------------------------------------------------------------------------

/// Only segments expire that are old and that no playlist refers to.
pub proof fn referenced_segments_do_not_expire(
    objects: Seq<ObjectInfo>,
    referenced: Set<Seq<char>>,
    retention_minutes: u64,
    now: i128,
    i: int,
)
    requires
        0 <= i < expired_of(objects, referenced, retention_minutes, now).len(),
    ensures
        ({
            let k = expired_of(objects, referenced, retention_minutes, now)[i];
            &&& is_segment(k)
            &&& !referenced.contains(k)
            &&& exists|j: int|
                0 <= j < objects.len() && (#[trigger] objects[j]).key@ == k && is_old(
                    objects[j].last_modified,
                    retention_minutes,
                    now,
                )
        }),
    decreases objects.len(),
{
    let shorter = objects.drop_last();
    let before = expired_of(shorter, referenced, retention_minutes, now);
    let k = expired_of(objects, referenced, retention_minutes, now)[i];
    if i < before.len() {
        referenced_segments_do_not_expire(shorter, referenced, retention_minutes, now, i);
        let j = choose|j: int|
            0 <= j < shorter.len() && (#[trigger] shorter[j]).key@ == k && is_old(
                shorter[j].last_modified,
                retention_minutes,
                now,
            );
        assert(objects[j] == shorter[j]);
    } else {
        assert(objects[objects.len() - 1].key@ == k);
    }
}

/// What is left to be deleted of a live stream are old segments of its own that none of its
/// playlists refers to, all of which were asked for before.
pub open spec fn spares_references(m: SweepModel) -> bool {
    m.phase is Expired ==> {
        &&& m.playlists.len() == 0
        &&& m.expired.len() > 0
        &&& forall|i: int|
            0 <= i < m.expired.len() ==> deletable(m, #[trigger] m.expired[i])
    }
}

/// An old segment of the current stream that nothing refers to.
pub open spec fn deletable(m: SweepModel, k: Seq<char>) -> bool {
    &&& is_segment(k)
    &&& !m.referenced.contains(k)
    &&& exists|j: int|
        0 <= j < m.objects.len() && (#[trigger] m.objects[j]).key@ == k && is_old(
            m.objects[j].last_modified,
            m.retention_minutes,
            m.now,
        )
}

proof fn lemma_to_playlist(m: SweepModel)
    ensures
        spares_references(m.to_playlist()),
{
    let n = m.to_playlist();
    if n.phase is Expired {
        assert forall|i: int| 0 <= i < n.expired.len() implies deletable(
            n,
            #[trigger] n.expired[i],
        ) by {
            referenced_segments_do_not_expire(
                m.objects,
                m.referenced,
                m.retention_minutes,
                m.now,
                i,
            );
            let k = n.expired[i];
            assert(n.expired == expired_of(m.objects, m.referenced, m.retention_minutes, m.now));
            let j = choose|j: int|
                0 <= j < m.objects.len() && (#[trigger] m.objects[j]).key@ == k && is_old(
                    m.objects[j].last_modified,
                    m.retention_minutes,
                    m.now,
                );
            assert(n.objects[j].key@ == k);
        }
    }
}

/// Whatever comes of its steps, a cleanup deletes of a live stream only old segments that none of
/// the playlists it read refers to, and only once it has asked for them all.
pub proof fn cleanups_spare_references(m: SweepModel, news: SweepNews)
    requires
        spares_references(m),
    ensures
        spares_references(m.moved(news)),
        m.moved(news).asked() matches SweepStep::DeleteObject { key } ==> deletable(
            m.moved(news),
            key,
        ),
{
    match (m.phase, news) {
        (SweepPhase::Objects, SweepNews::Objects(o)) => {
            lemma_to_playlist(
                SweepModel {
                    objects: o,
                    playlists: playlist_keys(o),
                    referenced: Set::empty(),
                    ..m
                },
            );
        },
        (SweepPhase::Playlist, SweepNews::Playlist(body)) => {
            lemma_to_playlist(
                SweepModel {
                    referenced: m.referenced.union(references(m.playlists[0], body)),
                    playlists: m.playlists.drop_first(),
                    ..m
                },
            );
        },
        (SweepPhase::Playlist, SweepNews::Failed) => {
            lemma_to_playlist(SweepModel { playlists: m.playlists.drop_first(), ..m });
        },
        (SweepPhase::Expired, _) => {
            let n = m.moved(news);
            if n.phase is Expired {
                assert forall|i: int| 0 <= i < n.expired.len() implies deletable(
                    n,
                    #[trigger] n.expired[i],
                ) by {
                    let j = if n.expired == m.expired {
                        i
                    } else {
                        i + 1
                    };
                    assert(n.expired[i] == m.expired[j]);
                    assert(deletable(m, m.expired[j]));
                }
            }
        },
        _ => {},
    }
    let n = m.moved(news);
    if n.phase is Expired {
        assert(deletable(n, n.expired[0]));
    }
}

/// A stream is marked as deleted only right after its objects were.
pub proof fn objects_go_before_their_stream(m: SweepModel, news: SweepNews)
    requires
        !(m.phase is Mark),
    ensures
        m.moved(news).asked() matches SweepStep::MarkDeleted { stream_id } ==> news is Done
            && m.asked() == (SweepStep::DeletePrefix { prefix: stream_prefix(stream_id.value) }),
{
}

/// What could not be done is passed over: a cleanup goes on with the next live stream where the
/// objects of one could not be listed, and keeps a failed stream whose objects could not be
/// deleted.
pub proof fn failures_are_passed_over(m: SweepModel)
    ensures
        m.phase is Objects ==> m.moved(SweepNews::Failed).streams == m.streams.drop_first(),
        m.phase is Prefix ==> m.moved(SweepNews::Failed).streams == m.streams.drop_first() && !(
        m.moved(SweepNews::Failed).asked() is MarkDeleted),
{
}

/// A cleanup goes through every live stream, then through the failed ones, then through the deleted
/// ones: it lists the objects of each live stream, deletes those of each failed one that is stale,
/// and forgets each deleted one that is.
pub proof fn cleanups_go_through_every_stream(m: SweepModel, s: Seq<EntryModel>)
    requires
        s.len() > 0,
    ensures
        m.phase is Live ==> m.asked() == SweepStep::ListStreams(StreamState::Live) && m.moved(
            SweepNews::Streams(s),
        ).asked() == (SweepStep::ListObjects {
            prefix: stream_prefix(s[0].metadata.stream_id.value),
        }) && m.moved(SweepNews::Streams(s)).streams.len() == s.len(),
        m.phase is Live ==> m.moved(SweepNews::Streams(Seq::empty())).asked()
            == SweepStep::ListStreams(StreamState::Error),
        m.phase is Failed && is_stale(s[0], m.now) ==> m.moved(SweepNews::Streams(seq![s[0]])).asked()
            == (SweepStep::DeletePrefix { prefix: stream_prefix(s[0].metadata.stream_id.value) }),
        m.phase is Failed && !is_stale(s[0], m.now) ==> m.moved(
            SweepNews::Streams(seq![s[0]]),
        ).asked() == SweepStep::ListStreams(StreamState::Deleted),
        m.phase is Deleted && is_stale(s[0], m.now) ==> m.moved(
            SweepNews::Streams(seq![s[0]]),
        ).asked() == (SweepStep::Forget { stream_id: s[0].metadata.stream_id }),
        m.phase is Deleted && !is_stale(s[0], m.now) ==> m.moved(
            SweepNews::Streams(seq![s[0]]),
        ).asked() == SweepStep::Finish,
{
    let one = seq![s[0]];
    assert(one.drop_last() =~= Seq::<EntryModel>::empty());
    assert(stale_ids(one.drop_last(), m.now).len() == 0);
    assert(ids_of(Seq::<EntryModel>::empty()).len() == 0);
}

/// Every segment that is old and that no playlist refers to expires.
pub proof fn old_segments_expire(
    objects: Seq<ObjectInfo>,
    referenced: Set<Seq<char>>,
    retention_minutes: u64,
    now: i128,
    j: int,
)
    requires
        0 <= j < objects.len(),
        is_segment(objects[j].key@),
        !referenced.contains(objects[j].key@),
        now - objects[j].last_modified > retention_minutes * 60 * 1_000_000_000,
    ensures
        exists|i: int|
            0 <= i < expired_of(objects, referenced, retention_minutes, now).len()
                && #[trigger] expired_of(objects, referenced, retention_minutes, now)[i]
                == objects[j].key@,
    decreases objects.len(),
{
    let all = expired_of(objects, referenced, retention_minutes, now);
    let shorter = objects.drop_last();
    let before = expired_of(shorter, referenced, retention_minutes, now);
    if j == objects.len() - 1 {
        assert(all[all.len() - 1] == objects[j].key@);
    } else {
        old_segments_expire(shorter, referenced, retention_minutes, now, j);
        let i = choose|i: int| 0 <= i < before.len() && #[trigger] before[i] == objects[j].key@;
        assert(all[i] == objects[j].key@);
    }
}

} // verus!
