//! Serves stored objects: from the cache where it has them, else from storage.

use vstd::prelude::*;
use vstd::string::*;

use crate::buffer::{bytes_clone, bytes_len, bytes_seq};
use crate::common::config::DeliveryConfig;
use crate::common::error::{StorageError, StorageFault};
use crate::common::types::StreamId;
use crate::control::state::{StreamState, StreamStateManager};
use crate::delivery::response::{
    answer, build_response, error_json, error_quoting, parse_range_header, range_asked,
    range_view, Answer, ErrorModel, Reply,
};
use crate::observability::metrics as obs;
use crate::observability::metrics::{
    all_measured, measured1, Measurement, MetricChange, MetricUpdate,
};
use crate::storage::cache::{lemma_found_as_written, lemma_missed, CacheModel, ObjectCache};
use crate::storage::memory::{etag_of, not_found, InMemoryMediaStore};
use crate::storage::GetObjectOutput;
use crate::text;
use crate::text::{finishes_with, has_part, occurs_at};
use crate::uuids;
use crate::uuids::{hyphenated, uuid_parsed};

verus! {

// ---------------------------------------------------------------------------
// What is answered
// ---------------------------------------------------------------------------

/// The state of the stream that a text names, if it names one that is known.
pub open spec fn state_named(manager: StreamStateManager, stream_id: Seq<char>) -> Option<
    StreamState,
> {
    match uuid_parsed(stream_id) {
        Some(u) => if manager.table().contains_key(u) {
            Some(manager.table()[u].state)
        } else {
            None
        },
        None => None,
    }
}

/// The answer for a stream whose objects are not served.
pub open spec fn refusal(state: Option<StreamState>, stream_id: Seq<char>) -> Option<ErrorModel> {
    match state {
        Some(StreamState::Pending) => Some(
            ErrorModel {
                status: 404,
                error: "stream_not_ready"@,
                message: "Stream '"@ + stream_id + "' is not yet ingesting."@,
            },
        ),
        Some(StreamState::Error) => Some(
            ErrorModel {
                status: 410,
                error: "stream_error"@,
                message: "Stream '"@ + stream_id + "' encountered an error."@,
            },
        ),
        Some(StreamState::Deleted) => Some(
            ErrorModel {
                status: 404,
                error: "stream_not_found"@,
                message: "Stream '"@ + stream_id + "' has been deleted."@,
            },
        ),
        _ => None,
    }
}

/// The answer to a `Range` header that is not understood.
pub open spec fn bad_range() -> ErrorModel {
    ErrorModel {
        status: 416,
        error: "range_not_satisfiable"@,
        message: "Invalid or unsupported Range header."@,
    }
}

/// What storage gave for a path.
#[verifier::ext_equal]
pub enum Fetched {
    Object { data: Seq<u8>, content_type: Seq<char>, etag: Seq<char> },
    Failed { fault: StorageFault },
}

/// What a read of storage gave.
pub open spec fn fetched(r: Result<GetObjectOutput, StorageError>) -> Fetched {
    match r {
        Ok(o) => Fetched::Object {
            data: bytes_seq(o.body),
            content_type: o.content_type@,
            etag: o.etag@,
        },
        Err(e) => Fetched::Failed { fault: e@ },
    }
}

/// The answer where storage failed: not found where it says so, else a failure of storage.
pub open spec fn storage_failure(path: Seq<char>, fault: StorageFault) -> ErrorModel {
    if has_part(fault.text(), "not found"@) {
        ErrorModel {
            status: 404,
            error: if finishes_with(path, ".m4s"@) {
                "segment_not_found"@
            } else if has_part(path, "media.m3u8"@) || has_part(path, "init.mp4"@) {
                "rendition_not_found"@
            } else {
                "stream_not_found"@
            },
            message: "Object '"@ + path + "' not found."@,
        }
    } else {
        ErrorModel {
            status: 502,
            error: "storage_error"@,
            message: "Failed to retrieve object from storage."@,
        }
    }
}

/// The answer with what storage gave.
pub open spec fn fetched_answer(
    path: Seq<char>,
    range: Option<(nat, nat)>,
    is_live: bool,
    config: DeliveryConfig,
    f: Fetched,
) -> Answer {
    match f {
        Fetched::Object { data, content_type, etag } => answer(
            data,
            content_type,
            etag,
            path,
            range,
            is_live,
            config,
        ),
        Fetched::Failed { fault } => Answer::Error(storage_failure(path, fault)),
    }
}

/// What is left to do for a request once the state of its stream and its `Range` header are
/// known: an answer, or the range to serve.
pub open spec fn admitted(
    state: Option<StreamState>,
    stream_id: Seq<char>,
    range_header: Option<Seq<char>>,
) -> Result<Option<(nat, nat)>, ErrorModel> {
    match refusal(state, stream_id) {
        Some(e) => Err(e),
        None => match range_header {
            None => Ok(None),
            Some(h) => match range_asked(h) {
                Some(r) => Ok(Some(r)),
                None => Err(bad_range()),
            },
        },
    }
}

/// The answer to a request for the object at `path`, given what the cache found, and what storage
/// gave or would give.
pub open spec fn response_to(
    state: Option<StreamState>,
    stream_id: Seq<char>,
    path: Seq<char>,
    range_header: Option<Seq<char>>,
    config: DeliveryConfig,
    found: Option<CacheModel>,
    f: Fetched,
) -> Answer {
    match admitted(state, stream_id, range_header) {
        Err(e) => Answer::Error(e),
        Ok(range) => {
            let is_live = state == Some(StreamState::Live);
            match found {
                Some(m) => answer(m.data, m.content_type, m.etag, path, range, is_live, config),
                None => fetched_answer(path, range, is_live, config, f),
            }
        },
    }
}

/// A header value, if the request has one.
pub open spec fn header_view(h: Option<&str>) -> Option<Seq<char>> {
    match h {
        Some(s) => Some(s@),
        None => None,
    }
}

// ---------------------------------------------------------------------------
// The first half: state, range and cache
// ---------------------------------------------------------------------------

/// What a request to storage is made for.
#[derive(Debug, Clone, Copy)]
pub struct PendingFetch {
    pub range: Option<(u64, u64)>,
    pub is_live: bool,
}

/// What comes after a look at the cache.
#[derive(Debug)]
pub enum ServeStep {
    /// The answer.
    Done(Reply),
    /// The object is to be read from storage.
    Fetch(PendingFetch),
}

/// What a look at the cache at `now` leads to.
pub open spec fn begun(
    state: Option<StreamState>,
    before: ObjectCache,
    after: ObjectCache,
    path: Seq<char>,
    stream_id: Seq<char>,
    range_header: Option<Seq<char>>,
    config: DeliveryConfig,
    object_type: Seq<char>,
    now_ns: u64,
    step: ServeStep,
    metric: Option<MetricUpdate>,
) -> bool {
    match admitted(state, stream_id, range_header) {
        Err(e) => {
            &&& step matches ServeStep::Done(reply)
            &&& reply@ == Answer::Error(e)
            &&& after == before
            &&& metric is None
        },
        Ok(range) => {
            let is_live = state == Some(StreamState::Live);
            &&& before.looked_up(after, path, now_ns)
            &&& match before.found(path, now_ns) {
                Some(m) => {
                    &&& step matches ServeStep::Done(reply)
                    &&& reply@ == answer(
                        m.data,
                        m.content_type,
                        m.etag,
                        path,
                        range,
                        is_live,
                        config,
                    )
                    &&& metric matches Some(update)
                    &&& update@ == measured1(
                        "streaminfa_cache_hits_total"@,
                        "object_type"@,
                        object_type,
                        MetricChange::CounterAdd(1),
                    )
                },
                None => {
                    &&& step matches ServeStep::Fetch(p)
                    &&& range_view(p.range) == range
                    &&& p.is_live == is_live
                    &&& metric matches Some(update)
                    &&& update@ == measured1(
                        "streaminfa_cache_misses_total"@,
                        "object_type"@,
                        object_type,
                        MetricChange::CounterAdd(1),
                    )
                },
            }
        },
    }
}

fn refuse(state: Option<StreamState>, stream_id: &str) -> (r: Option<Reply>)
    ensures
        match r {
            Some(reply) => refusal(state, stream_id@) is Some && reply@ == Answer::Error(
                refusal(state, stream_id@)->0,
            ),
            None => refusal(state, stream_id@) is None,
        },
{
    match state {
        Some(StreamState::Pending) => Some(
            Reply::Error(
                error_quoting(
                    404,
                    "stream_not_ready",
                    "Stream '",
                    stream_id,
                    "' is not yet ingesting.",
                ),
            ),
        ),
        Some(StreamState::Error) => Some(
            Reply::Error(
                error_quoting(410, "stream_error", "Stream '", stream_id, "' encountered an error."),
            ),
        ),
        Some(StreamState::Deleted) => Some(
            Reply::Error(
                error_quoting(404, "stream_not_found", "Stream '", stream_id, "' has been deleted."),
            ),
        ),
        _ => None,
    }
}

/// The state of the stream that a text names, if it names one that is known.
pub fn stream_state_named(manager: &StreamStateManager, stream_id: &str) -> (r: Option<StreamState>)
    ensures
        r == state_named(*manager, stream_id@),
        forall|v: u128|
            stream_id@ == #[trigger] hyphenated(v) ==> r == if manager.table().contains_key(v) {
                Some(manager.table()[v].state)
            } else {
                None
            },
{
    match uuids::parse_uuid(stream_id) {
        Some(value) => manager.get_stream_state(StreamId { value }),
        None => None,
    }
}

/// Looks at the `Range` header and the cache, at `now`, for a stream in the given state.
pub fn begin_serve_at(
    state: Option<StreamState>,
    cache: &mut ObjectCache,
    path: &str,
    stream_id: &str,
    range_header: Option<&str>,
    config: &DeliveryConfig,
    object_type: &str,
    now_ns: u64,
) -> (r: (ServeStep, Option<MetricUpdate>))
    requires
        old(cache).wf(),
    ensures
        final(cache).wf(),
        begun(
            state,
            *old(cache),
            *final(cache),
            path@,
            stream_id@,
            header_view(range_header),
            *config,
            object_type@,
            now_ns,
            r.0,
            r.1,
        ),
{
    if let Some(reply) = refuse(state, stream_id) {
        return (ServeStep::Done(reply), None);
    }
    let is_live = match state {
        Some(StreamState::Live) => true,
        _ => false,
    };
    let range = match range_header {
        Some(raw) => match parse_range_header(raw) {
            Some(r) => Some(r),
            None => {
                let reply = error_json(
                    416,
                    "range_not_satisfiable",
                    "Invalid or unsupported Range header.",
                );
                return (ServeStep::Done(Reply::Error(reply)), None);
            },
        },
        None => None,
    };
    match cache.get_at(path, now_ns) {
        Some((data, content_type, etag)) => {
            let reply = build_response(data, &content_type, &etag, path, range, is_live, config);
            (ServeStep::Done(reply), Some(obs::inc_cache_hit(object_type)))
        },
        None => {
            (
                ServeStep::Fetch(PendingFetch { range, is_live }),
                Some(obs::inc_cache_miss(object_type)),
            )
        },
    }
}

// ---------------------------------------------------------------------------
// The second half: what storage gave
// ---------------------------------------------------------------------------

/// What the cache holds after storage gave an object: a whole object is cached, a part is not.
pub open spec fn kept(
    before: ObjectCache,
    after: ObjectCache,
    path: Seq<char>,
    whole: bool,
    f: Fetched,
    now_ns: u64,
) -> bool {
    match f {
        Fetched::Object { data, content_type, etag } => if whole {
            before.written(after, path, data, content_type, etag, now_ns)
        } else {
            after == before
        },
        Fetched::Failed { .. } => after == before,
    }
}

/// The measurements of a read of storage that took `nanos`.
pub open spec fn fetch_measured(
    before: ObjectCache,
    after: ObjectCache,
    pending: PendingFetch,
    f: Fetched,
    object_type: Seq<char>,
    nanos: u64,
) -> Seq<Measurement> {
    match f {
        Fetched::Object { data, .. } => {
            seq![
                measured1(
                    "streaminfa_storage_get_duration_seconds"@,
                    "object_type"@,
                    object_type,
                    MetricChange::HistogramNanos(nanos),
                ),
                measured1(
                    "streaminfa_storage_get_bytes_total"@,
                    "object_type"@,
                    object_type,
                    MetricChange::CounterAdd(data.len() as u64),
                ),
            ] + if pending.range is None && before.takes(data) {
                after.gauged()
            } else {
                Seq::empty()
            }
        },
        Fetched::Failed { .. } => Seq::empty(),
    }
}

/// Answers with what storage gave, `nanos` after it was asked, at `now`.
pub fn finish_serve_at(
    cache: &mut ObjectCache,
    pending: PendingFetch,
    path: &str,
    result: Result<GetObjectOutput, StorageError>,
    config: &DeliveryConfig,
    object_type: &str,
    nanos: u64,
    now_ns: u64,
) -> (r: (Reply, Vec<MetricUpdate>))
    requires
        old(cache).wf(),
    ensures
        final(cache).wf(),
        r.0@ == fetched_answer(
            path@,
            range_view(pending.range),
            pending.is_live,
            *config,
            fetched(result),
        ),
        kept(*old(cache), *final(cache), path@, pending.range is None, fetched(result), now_ns),
        all_measured(r.1@) == fetch_measured(
            *old(cache),
            *final(cache),
            pending,
            fetched(result),
            object_type@,
            nanos,
        ),
{
    let mut metrics: Vec<MetricUpdate> = Vec::new();
    match result {
        Ok(output) => {
            metrics.push(obs::record_storage_get_duration(object_type, nanos));
            metrics.push(
                obs::add_storage_get_bytes(object_type, bytes_len(&output.body) as u64),
            );
            let ghost first = metrics@;
            if pending.range.is_none() {
                let mut more = cache.put_at(
                    path,
                    bytes_clone(&output.body),
                    &output.content_type,
                    &output.etag,
                    now_ns,
                );
                let ghost added = more@;
                metrics.append(&mut more);
                assert(all_measured(metrics@) =~= all_measured(first) + all_measured(added));
            }
            assert(all_measured(metrics@) =~= fetch_measured(
                *old(cache),
                *cache,
                pending,
                fetched(result),
                object_type@,
                nanos,
            ));
            let reply = build_response(
                output.body,
                &output.content_type,
                &output.etag,
                path,
                pending.range,
                pending.is_live,
                config,
            );
            (reply, metrics)
        },
        Err(e) => {
            assert(all_measured(metrics@) =~= Seq::empty());
            let failure = e.message();
            if text::contains(&failure, "not found") {
                let code = if text::ends_with(path, ".m4s") {
                    "segment_not_found"
                } else if text::contains(path, "media.m3u8") || text::contains(path, "init.mp4") {
                    "rendition_not_found"
                } else {
                    "stream_not_found"
                };
                (Reply::Error(error_quoting(404, code, "Object '", path, "' not found.")), metrics)
            } else {
                (
                    Reply::Error(
                        error_json(
                            502,
                            "storage_error",
                            "Failed to retrieve object from storage.",
                        ),
                    ),
                    metrics,
                )
            }
        },
    }
}

// ---------------------------------------------------------------------------
// Both halves
// ---------------------------------------------------------------------------

/// What a store in memory gives for a path.
pub open spec fn stored(store: InMemoryMediaStore, path: Seq<char>) -> Fetched {
    if store.objects().contains_key(path) {
        let o = store.objects()[path];
        Fetched::Object { data: o.data, content_type: o.content_type, etag: etag_of(o.data) }
    } else {
        Fetched::Failed { fault: not_found(path) }
    }
}

/// The answer from a store in memory, where the cache is looked at at `now`.
pub open spec fn answer_from(
    manager: StreamStateManager,
    cache: ObjectCache,
    store: InMemoryMediaStore,
    path: Seq<char>,
    stream_id: Seq<char>,
    range_header: Option<Seq<char>>,
    config: DeliveryConfig,
    now_ns: u64,
) -> Answer {
    response_to(
        state_named(manager, stream_id),
        stream_id,
        path,
        range_header,
        config,
        cache.found(path, now_ns),
        stored(store, path),
    )
}

/// What serving an object at `now` leaves of the cache: a look at it where the request is
/// admitted, and a copy of an object that came whole from storage.
pub open spec fn cache_after(
    state: Option<StreamState>,
    before: ObjectCache,
    after: ObjectCache,
    path: Seq<char>,
    stream_id: Seq<char>,
    range_header: Option<Seq<char>>,
    f: Fetched,
    now_ns: u64,
) -> bool {
    match admitted(state, stream_id, range_header) {
        Err(_) => after == before,
        Ok(range) => if before.found(path, now_ns) is Some {
            before.looked_up(after, path, now_ns)
        } else {
            exists|mid: ObjectCache| #[trigger]
                before.looked_up(mid, path, now_ns) && kept(
                    mid,
                    after,
                    path,
                    range is None,
                    f,
                    now_ns,
                )
        },
    }
}

/// What serving an object from the cache or from a store in memory at `now` does and returns.
pub open spec fn served(
    manager: StreamStateManager,
    before: ObjectCache,
    after: ObjectCache,
    store: InMemoryMediaStore,
    path: Seq<char>,
    stream_id: Seq<char>,
    range_header: Option<Seq<char>>,
    config: DeliveryConfig,
    now_ns: u64,
    r: Reply,
) -> bool {
    &&& r@ == answer_from(
        manager,
        before,
        store,
        path,
        stream_id,
        range_header,
        config,
        now_ns,
    )
    &&& cache_after(
        state_named(manager, stream_id),
        before,
        after,
        path,
        stream_id,
        range_header,
        stored(store, path),
        now_ns,
    )
}

/// Serves an object from the cache or from a store in memory. Nothing is measured.
pub fn serve_object(
    manager: &StreamStateManager,
    cache: &mut ObjectCache,
    store: &InMemoryMediaStore,
    path: &str,
    stream_id: &str,
    object_type: Option<&'static str>,
    range_header: Option<&str>,
    config: &DeliveryConfig,
) -> (r: Reply)
    requires
        old(cache).wf(),
        store.wf(),
    ensures
        final(cache).wf(),
        exists|now_ns: u64| #[trigger]
            served(
                *manager,
                *old(cache),
                *final(cache),
                *store,
                path@,
                stream_id@,
                header_view(range_header),
                *config,
                now_ns,
                r,
            ),
{
    let now_ns = cache.now_ns();
    serve_object_at(
        manager,
        cache,
        store,
        path,
        stream_id,
        object_type,
        range_header,
        config,
        now_ns,
    )
}

/// Serves an object from the cache or from a store in memory, at `now`. Nothing is measured.
pub fn serve_object_at(
    manager: &StreamStateManager,
    cache: &mut ObjectCache,
    store: &InMemoryMediaStore,
    path: &str,
    stream_id: &str,
    object_type: Option<&'static str>,
    range_header: Option<&str>,
    config: &DeliveryConfig,
    now_ns: u64,
) -> (r: Reply)
    requires
        old(cache).wf(),
        store.wf(),
    ensures
        final(cache).wf(),
        served(
            *manager,
            *old(cache),
            *final(cache),
            *store,
            path@,
            stream_id@,
            header_view(range_header),
            *config,
            now_ns,
            r,
        ),
{
    let label = match object_type {
        Some(t) => t,
        None => obs::classify_object_type(path),
    };
    let begin = begin_serve_at(
        stream_state_named(manager, stream_id),
        cache,
        path,
        stream_id,
        range_header,
        config,
        label,
        now_ns,
    );
    match begin.0 {
        ServeStep::Done(reply) => reply,
        ServeStep::Fetch(pending) => {
            let ghost mid = *cache;
            assert(old(cache).looked_up(mid, path@, now_ns));
            let result = store.get_object(path);
            assert(fetched(result) =~= stored(*store, path@));
            finish_serve_at(cache, pending, path, result, config, label, 0, now_ns).0
        },
    }
}

// ---------------------------------------------------------------------------
// Paths
// ---------------------------------------------------------------------------

/// The path of the master playlist of a stream.
pub fn master_playlist_object(stream_id: &str) -> (r: String)
    ensures
        r@ == stream_id@ + "/master.m3u8"@,
{
    let mut s = text::owned(stream_id);
    s.append("/master.m3u8");
    s
}

/// The path of an object of a rendition.
pub fn rendition_object(stream_id: &str, rendition: &str, name: &str) -> (r: String)
    ensures
        r@ == stream_id@ + "/"@ + rendition@ + "/"@ + name@,
{
    let mut s = text::owned(stream_id);
    s.append("/");
    s.append(rendition);
    s.append("/");
    s.append(name);
    s
}

// ---------------------------------------------------------------------------
// Laws
// ---------------------------------------------------------------------------

/// The objects of a stream that waits, failed or was deleted are never served, whatever the cache
/// and storage hold.
pub proof fn closed_streams_are_not_served(
    state: StreamState,
    stream_id: Seq<char>,
    path: Seq<char>,
    range_header: Option<Seq<char>>,
    config: DeliveryConfig,
    found: Option<CacheModel>,
    f: Fetched,
)
    requires
        state == StreamState::Pending || state == StreamState::Error || state
            == StreamState::Deleted,
    ensures
        ({
            let a = response_to(Some(state), stream_id, path, range_header, config, found, f);
            a matches Answer::Error(e) && e.status == if state == StreamState::Error {
                410u16
            } else {
                404u16
            }
        }),
{
}

/// An object of any other stream is served whole, as it was stored, where neither the cache has a
/// copy nor a range is asked for.
pub proof fn stored_objects_are_served(
    manager: StreamStateManager,
    cache: ObjectCache,
    store: InMemoryMediaStore,
    path: Seq<char>,
    stream_id: Seq<char>,
    config: DeliveryConfig,
    now_ns: u64,
)
    requires
        refusal(state_named(manager, stream_id), stream_id) is None,
        cache.found(path, now_ns) is None,
        store.objects().contains_key(path),
    ensures
        ({
            let a = answer_from(manager, cache, store, path, stream_id, None, config, now_ns);
            let o = store.objects()[path];
            &&& a matches Answer::Object(reply)
            &&& reply.status == 200
            &&& reply.body == o.data
            &&& reply.headers[0] == ("content-type"@, o.content_type)
        }),
{
}

/// An object that was served from storage is answered in the same way again, whether or not the
/// cache still has its copy, for as long as the store and the stream stay as they are.
pub proof fn answers_stay_the_same(
    manager: StreamStateManager,
    before: ObjectCache,
    after: ObjectCache,
    store: InMemoryMediaStore,
    path: Seq<char>,
    stream_id: Seq<char>,
    config: DeliveryConfig,
    now_ns: u64,
    later_ns: u64,
)
    requires
        before.wf(),
        after.wf(),
        refusal(state_named(manager, stream_id), stream_id) is None,
        before.found(path, now_ns) is None,
        store.objects().contains_key(path),
        cache_after(
            state_named(manager, stream_id),
            before,
            after,
            path,
            stream_id,
            None,
            stored(store, path),
            now_ns,
        ),
    ensures
        answer_from(manager, after, store, path, stream_id, None, config, later_ns) == answer_from(
            manager,
            before,
            store,
            path,
            stream_id,
            None,
            config,
            now_ns,
        ),
{
    let o = store.objects()[path];
    let f = stored(store, path);
    let mid = choose|mid: ObjectCache| #[trigger]
        before.looked_up(mid, path, now_ns) && kept(mid, after, path, true, f, now_ns);
    lemma_missed(before, mid, path, now_ns);
    lemma_found_as_written(
        mid,
        after,
        path,
        o.data,
        o.content_type,
        etag_of(o.data),
        now_ns,
        later_ns,
    );
}

/// A path that storage does not have is answered with "not found".
pub proof fn missing_objects_are_not_found(
    manager: StreamStateManager,
    cache: ObjectCache,
    store: InMemoryMediaStore,
    path: Seq<char>,
    stream_id: Seq<char>,
    config: DeliveryConfig,
    now_ns: u64,
)
    requires
        refusal(state_named(manager, stream_id), stream_id) is None,
        cache.found(path, now_ns) is None,
        !store.objects().contains_key(path),
    ensures
        ({
            let a = answer_from(manager, cache, store, path, stream_id, None, config, now_ns);
            a matches Answer::Error(e) && e.status == 404
        }),
{
    let reason = "not found"@;
    let head = "S3 GET failed for path "@ + path + ": "@;
    let whole = head + reason;
    assert(not_found(path).text() == whole);
    assert(whole.subrange(head.len() as int, whole.len() as int) =~= reason);
    assert(occurs_at(whole, reason, head.len() as int));
    assert(has_part(whole, reason));
}

/// Streams that are live, processed or ready are served, and so are those that are not known; a
/// header that asks for no range that can be read is refused.
pub proof fn open_streams_are_served(
    state: Option<StreamState>,
    stream_id: Seq<char>,
    range_header: Option<Seq<char>>,
)
    requires
        state is None || state == Some(StreamState::Live) || state == Some(StreamState::Processing)
            || state == Some(StreamState::Ready),
    ensures
        range_header is None ==> admitted(state, stream_id, range_header) == Ok::<_, ErrorModel>(
            None::<(nat, nat)>,
        ),
        range_header matches Some(h) ==> match range_asked(h) {
            Some(r) => admitted(state, stream_id, range_header) == Ok::<_, ErrorModel>(Some(r)),
            None => admitted(state, stream_id, range_header) matches Err(e) && e.status == 416,
        },
{
}

/// A copy in the cache is served in place of the stored object; where there is none, only a whole
/// object that was read is kept.
pub proof fn copies_are_served_and_kept_whole(
    state: Option<StreamState>,
    stream_id: Seq<char>,
    path: Seq<char>,
    config: DeliveryConfig,
    m: CacheModel,
    f: Fetched,
    before: ObjectCache,
    after: ObjectCache,
    whole: bool,
    now_ns: u64,
)
    requires
        refusal(state, stream_id) is None,
        kept(before, after, path, whole, f, now_ns),
    ensures
        response_to(state, stream_id, path, None, config, Some(m), f) matches Answer::Object(o)
            && o.status == 200 && o.body == m.data,
        !whole || f is Failed ==> after == before,
        f matches Fetched::Object { data, content_type, etag } ==> (whole ==> before.written(
            after,
            path,
            data,
            content_type,
            etag,
            now_ns,
        )),
{
}

} // verus!
