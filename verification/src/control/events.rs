//! What the data plane reports to the control plane.

use vstd::prelude::*;
use vstd::string::*;

use crate::clock;
use crate::clock::in_calendar;
use crate::common::error::StateError;
use crate::common::types::{IngestMode, MediaInfo, Share, StreamId, StreamMetadata};
use crate::control::state::{
    count_complete, counted_in, counted_out, valid_transition, EntryModel, StreamState, StreamStateManager,
};
use crate::observability::metrics as obs;
use crate::observability::metrics::{measured1, MetricChange, MetricUpdate};

verus! {

/// A report from the data plane.
#[derive(Debug)]
pub enum PipelineEvent {
    /// Ingest has validated the stream and receives media.
    StreamStarted { stream_id: StreamId, media_info: MediaInfo },
    /// A segment was produced and written to storage.
    SegmentProduced { stream_id: StreamId, rendition: String, sequence: u64 },
    /// The stream has ended.
    StreamEnded { stream_id: StreamId },
    /// The data plane failed for good.
    StreamError { stream_id: StreamId, error: String },
    /// Progress of an on-demand transcode, in thousandths of a percent.
    VodProgress { stream_id: StreamId, share: Share },
    /// A rendition has produced all of its segments.
    RenditionComplete { stream_id: StreamId, rendition: String },
}

/// Capacity of the channel for events.
pub const EVENT_CHANNEL_CAPACITY: usize = 256;

/// What an event says.
#[verifier::ext_equal]
pub enum Report {
    StreamStarted { stream_id: StreamId, media_info: MediaInfo },
    SegmentProduced { stream_id: StreamId, rendition: Seq<char>, sequence: u64 },
    StreamEnded { stream_id: StreamId },
    StreamError { stream_id: StreamId, error: Seq<char> },
    VodProgress { stream_id: StreamId, share: Share },
    RenditionComplete { stream_id: StreamId, rendition: Seq<char> },
}

impl View for PipelineEvent {
    type V = Report;

    open spec fn view(&self) -> Report {
        match *self {
            PipelineEvent::StreamStarted { stream_id, media_info } => Report::StreamStarted {
                stream_id,
                media_info,
            },
            PipelineEvent::SegmentProduced { stream_id, rendition, sequence } =>
                Report::SegmentProduced { stream_id, rendition: rendition@, sequence },
            PipelineEvent::StreamEnded { stream_id } => Report::StreamEnded { stream_id },
            PipelineEvent::StreamError { stream_id, error } => Report::StreamError {
                stream_id,
                error: error@,
            },
            PipelineEvent::VodProgress { stream_id, share } => Report::VodProgress {
                stream_id,
                share,
            },
            PipelineEvent::RenditionComplete { stream_id, rendition } =>
                Report::RenditionComplete { stream_id, rendition: rendition@ },
        }
    }
}

impl Report {
    /// The stream that the event is about.
    pub open spec fn stream(self) -> StreamId {
        match self {
            Report::StreamStarted { stream_id, .. } => stream_id,
            Report::SegmentProduced { stream_id, .. } => stream_id,
            Report::StreamEnded { stream_id } => stream_id,
            Report::StreamError { stream_id, .. } => stream_id,
            Report::VodProgress { stream_id, .. } => stream_id,
            Report::RenditionComplete { stream_id, .. } => stream_id,
        }
    }

    /// The event changes the state of a stream that stands as `e`.
    pub open spec fn moves(self, e: EntryModel) -> bool {
        match self {
            Report::StreamStarted { .. } => valid_transition(
                e.state,
                StreamState::Live,
                e.metadata.ingest_mode,
            ),
            Report::StreamEnded { .. } => valid_transition(
                e.state,
                StreamState::Processing,
                e.metadata.ingest_mode,
            ),
            Report::StreamError { .. } => e.state != StreamState::Deleted,
            Report::RenditionComplete { rendition, .. } => e.completed(rendition).is_done(),
            _ => false,
        }
    }

    /// The event asks for a change of state that a stream that stands as `e` does not allow.
    pub open spec fn refused_by(self, e: EntryModel) -> bool {
        &&& self is StreamStarted || self is StreamEnded || self is StreamError
        &&& !self.moves(e)
    }

    /// A stream that stood as `e`, after the event at `now`.
    pub open spec fn applied(self, e: EntryModel, now: i128) -> EntryModel {
        match self {
            Report::StreamStarted { media_info, .. } => {
                let e1 = if self.moves(e) {
                    e.entering(StreamState::Live, now)
                } else {
                    e
                };
                EntryModel {
                    metadata: StreamMetadata { media_info: Some(media_info), ..e1.metadata },
                    ..e1
                }
            },
            Report::SegmentProduced { rendition, sequence, .. } => e.progressed(
                rendition,
                sequence,
                now,
            ),
            Report::StreamEnded { .. } => if self.moves(e) {
                e.entering(StreamState::Processing, now)
            } else {
                e
            },
            Report::StreamError { error, .. } => if self.moves(e) {
                e.failing(error, now)
            } else {
                e
            },
            Report::VodProgress { .. } => e,
            Report::RenditionComplete { rendition, .. } => if self.moves(e) {
                e.completed(rendition).entering(StreamState::Ready, now)
            } else {
                e.completed(rendition)
            },
        }
    }

    /// The manager after the event at `now`: only the stream of the event changes, and an
    /// unknown stream changes nothing.
    pub open spec fn handled(
        self,
        before: StreamStateManager,
        after: StreamStateManager,
        now: i128,
    ) -> bool {
        let id = self.stream().value;
        if before.table().contains_key(id) {
            let e = before.table()[id];
            &&& after.table() == before.table().insert(id, self.applied(e, now))
            &&& after.counts() == if self.moves(e) {
                counted_in(counted_out(before.counts(), e.state), self.applied(e, now).state)
            } else {
                before.counts()
            }
        } else {
            &&& after.table() == before.table()
            &&& after.counts() == before.counts()
        }
    }
}

/// What is left to do after an event.
#[derive(Debug)]
pub struct EventOutcome {
    /// The path at which to store the metadata of a stream that has started.
    pub metadata_path: Option<String>,
    /// A measurement.
    pub metric: Option<MetricUpdate>,
    /// Why the state of the stream was not changed.
    pub refusal: Option<StateError>,
}

/// The path of the metadata of a stream.
pub open spec fn metadata_path_of(stream_id: StreamId) -> Seq<char> {
    stream_id.text() + "/metadata.json"@
}

fn metadata_path(stream_id: StreamId) -> (r: String)
    ensures
        r@ == metadata_path_of(stream_id),
{
    let mut s = stream_id.to_text();
    s.append("/metadata.json");
    s
}

impl EventOutcome {
    /// What is left to do after the event `report`, on a manager that stood as `before`.
    pub open spec fn follows(self, report: Report, before: StreamStateManager) -> bool {
        let id = report.stream();
        &&& match self.metadata_path {
            Some(p) => report is StreamStarted && p@ == metadata_path_of(id),
            None => !(report is StreamStarted),
        }
        &&& match self.metric {
            Some(m) => report matches Report::VodProgress { share, .. } && m@ == measured1(
                "streaminfa_vod_progress_percent"@,
                "stream_id"@,
                id.text(),
                MetricChange::GaugePercent(share),
            ),
            None => !(report is VodProgress),
        }
        &&& self.refusal is Some <==> {
            &&& report is StreamStarted || report is StreamEnded || report is StreamError
            &&& before.table().contains_key(id.value) ==> report.refused_by(
                before.table()[id.value],
            )
        }
    }
}

/// Handles an event of the data plane, now.
pub fn handle_event(manager: &mut StreamStateManager, event: PipelineEvent) -> (r: EventOutcome)
    requires
        old(manager).wf(),
    ensures
        final(manager).wf(),
        r.follows(event@, *old(manager)),
        exists|now: i128| #[trigger] event@.handled(*old(manager), *final(manager), now) && in_calendar(now),
{
    let now = clock::now();
    let ghost report = event@;
    let r = handle_event_at(manager, event, now);
    assert(report.handled(*old(manager), *manager, now));
    r
}

/// Handles an event of the data plane at `now`.
pub fn handle_event_at(manager: &mut StreamStateManager, event: PipelineEvent, now: i128) -> (r:
    EventOutcome)
    requires
        old(manager).wf(),
        in_calendar(now),
    ensures
        final(manager).wf(),
        r.follows(event@, *old(manager)),
        event@.handled(*old(manager), *final(manager), now),
{
    let ghost report = event@;
    let ghost before = *manager;
    let mut out = EventOutcome { metadata_path: None, metric: None, refusal: None };
    match event {
        PipelineEvent::StreamStarted { stream_id, media_info } => {
            if let Err(e) = manager.transition_at(stream_id, StreamState::Live, now) {
                out.refusal = Some(e);
            }
            manager.set_media_info(stream_id, media_info);
            out.metadata_path = Some(metadata_path(stream_id));
        },
        PipelineEvent::SegmentProduced { stream_id, rendition, sequence } => {
            manager.update_rendition_progress_at(stream_id, &rendition, sequence, now);
        },
        PipelineEvent::StreamEnded { stream_id } => {
            if let Err(e) = manager.transition_at(stream_id, StreamState::Processing, now) {
                out.refusal = Some(e);
            }
        },
        PipelineEvent::StreamError { stream_id, error } => {
            if let Err(e) = manager.transition_to_error_at(stream_id, error, now) {
                out.refusal = Some(e);
            }
        },
        PipelineEvent::VodProgress { stream_id, share } => {
            let id = stream_id.to_text();
            out.metric = Some(obs::set_vod_progress(&id, share));
        },
        PipelineEvent::RenditionComplete { stream_id, rendition } => {
            let _ = manager.mark_rendition_complete_at(stream_id, &rendition, now);
        },
    }
    proof {
        let id = report.stream().value;
        if before.table().contains_key(id) {
            assert(manager.table() =~= before.table().insert(
                id,
                report.applied(before.table()[id], now),
            ));
        }
    }
    out
}

// ---------------------------------------------------------------------------
// Laws
// ---------------------------------------------------------------------------

/// An event leaves every other stream as it is.
pub proof fn events_touch_one_stream(
    report: Report,
    before: StreamStateManager,
    after: StreamStateManager,
    now: i128,
    other: u128,
)
    requires
        report.handled(before, after, now),
        other != report.stream().value,
    ensures
        after.table().contains_key(other) == before.table().contains_key(other),
        before.table().contains_key(other) ==> after.table()[other] == before.table()[other],
{
}

/// No event creates or removes a stream.
pub proof fn events_keep_the_streams(
    report: Report,
    before: StreamStateManager,
    after: StreamStateManager,
    now: i128,
)
    requires
        report.handled(before, after, now),
    ensures
        after.table().dom() == before.table().dom(),
{
    assert(after.table().dom() =~= before.table().dom());
}

/// A deleted stream stays deleted, whatever is reported of it.
pub proof fn deleted_streams_stay_deleted(report: Report, e: EntryModel, now: i128)
    requires
        e.state == StreamState::Deleted,
    ensures
        report.applied(e, now).state == StreamState::Deleted,
        !report.moves(e),
{
}

/// A stream that starts goes live and keeps what was told of its media; one that ends is processed;
/// one that fails keeps the words of its error, unless it was deleted before. A segment is kept with
/// its rendition, and the last rendition that is complete makes a stream that is processed ready.
/// Progress changes nothing.
pub proof fn events_lead_to_their_state(
    id: StreamId,
    e: EntryModel,
    info: MediaInfo,
    name: Seq<char>,
    words: Seq<char>,
    sequence: u64,
    share: Share,
    now: i128,
)
    ensures
        ({
            let started = Report::StreamStarted { stream_id: id, media_info: info }.applied(e, now);
            let ended = Report::StreamEnded { stream_id: id }.applied(e, now);
            let failed = Report::StreamError { stream_id: id, error: words }.applied(e, now);
            let produced = Report::SegmentProduced { stream_id: id, rendition: name, sequence };
            let complete = Report::RenditionComplete { stream_id: id, rendition: name };
            let live = e.metadata.ingest_mode == IngestMode::Live;
            &&& started.metadata.media_info == Some(info)
            &&& e.state == StreamState::Pending && live ==> started.state == StreamState::Live
                && started.metadata.started_at == Some(now)
            &&& !(e.state == StreamState::Pending && live) ==> started.state == e.state
            &&& e.state == StreamState::Live && live ==> ended.state == StreamState::Processing
            &&& e.state != StreamState::Deleted ==> failed.state == StreamState::Error
                && failed.error_message == Some(words) && failed.metadata.ended_at == Some(now)
            &&& e.state == StreamState::Deleted ==> failed == e
            &&& produced.applied(e, now) == e.progressed(name, sequence, now)
            &&& produced.applied(e, now).state == e.state
            &&& complete.applied(e, now).renditions == e.completed(name).renditions
            &&& complete.applied(e, now).state == if e.state == StreamState::Processing
                && e.expected_renditions is Some && count_complete(e.completed(name).renditions)
                >= e.expected_renditions->0 {
                StreamState::Ready
            } else {
                e.state
            }
            &&& Report::VodProgress { stream_id: id, share }.applied(e, now) == e
        }),
{
}

} // verus!
