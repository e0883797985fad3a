//! The requests of administrators: creating, listing, showing and deleting streams, and new stream
//! keys.

use vstd::prelude::*;
use vstd::string::*;

use crate::clock;
use crate::clock::{in_calendar, rfc3339_text};
use crate::common::auth::{
    accepts, fresh_key_is_good, key_added, resolves_to, without_stream, AuthProvider, TokenStatus,
};
use crate::common::config::ServerConfig;
use crate::common::security::{
    metadata_failure, metadata_fits, validate_metadata, DEFAULT_LIST_LIMIT, MAX_LIST_LIMIT,
};
use crate::common::types::{IngestMode, StreamId};
use crate::control::state::{
    counted_in, counted_out, is_list, models, page_of, EntryModel, StreamEntry, StreamState,
    StreamStateManager,
};
use crate::delivery::response::{error_json, error_quoting, ErrorModel, ErrorReply};
use crate::delivery::serve::refusal;
use crate::observability::metrics as obs;
use crate::observability::metrics::{
    all_measured, measured, Measurement, MetricChange, MetricUpdate,
};
use crate::storage::cleanup::{prefix_of, stream_prefix};
use crate::storage::memory::{under, without_prefix, InMemoryMediaStore};
use crate::text;
use crate::text::{begins_with, decimal, stripped};
use crate::uuids;
use crate::uuids::{hyphenated, uuid_parsed, version_num};

verus! {

// ---------------------------------------------------------------------------
// Authentication
// ---------------------------------------------------------------------------

/// The token of an `Authorization` header.
pub open spec fn bearer_of(authorization: Option<Seq<char>>) -> Option<Seq<char>> {
    match authorization {
        Some(h) => stripped(h, "Bearer "@),
        None => None,
    }
}

/// Why a request was refused.
#[derive(Debug)]
pub struct AuthRefusal {
    pub reply: ErrorReply,
    /// The label of the refusal in metrics.
    pub reason: &'static str,
}

/// The answer to a request without a token.
pub open spec fn unauthorized() -> ErrorModel {
    ErrorModel {
        status: 401,
        error: "unauthorized"@,
        message: "Missing or invalid Authorization header."@,
    }
}

/// The answer to a request with a token that is not accepted.
pub open spec fn forbidden() -> ErrorModel {
    ErrorModel { status: 403, error: "forbidden"@, message: "Invalid bearer token."@ }
}

/// Checks the `Authorization` header of a request. Where no token is configured, every request
/// passes; else one without a bearer token is unauthorized, and one with a token that is not
/// among the accepted ones is forbidden.
pub fn authenticate_admin(auth: &AuthProvider, authorization: Option<&str>) -> (r: Result<
    (),
    AuthRefusal,
>)
    ensures
        ({
            let token = bearer_of(
                match authorization {
                    Some(h) => Some(h@),
                    None => None,
                },
            );
            match r {
                Ok(()) => auth.tokens().len() == 0 || (token matches Some(t)
                    && auth.tokens().contains(t)),
                Err(e) => auth.tokens().len() > 0 && match token {
                    None => e.reply@ == unauthorized() && e.reason@
                        == "missing_or_invalid_header"@,
                    Some(t) => !auth.tokens().contains(t) && e.reply@ == forbidden() && e.reason@
                        == "invalid_token"@,
                },
            }
        }),
{
    let token = match authorization {
        Some(h) => text::strip_prefix(h, "Bearer "),
        None => None,
    };
    let status = match &token {
        Some(t) => auth.check_bearer_token(Some(t.as_str())),
        None => auth.check_bearer_token(None),
    };
    match status {
        TokenStatus::Valid => Ok(()),
        TokenStatus::Missing => Err(
            AuthRefusal {
                reply: error_json(401, "unauthorized", "Missing or invalid Authorization header."),
                reason: "missing_or_invalid_header",
            },
        ),
        TokenStatus::Forbidden => Err(
            AuthRefusal {
                reply: error_json(403, "forbidden", "Invalid bearer token."),
                reason: "invalid_token",
            },
        ),
    }
}

// ---------------------------------------------------------------------------
// Parameters
// ---------------------------------------------------------------------------

/// The state that a name stands for.
pub open spec fn state_called(name: Seq<char>) -> Option<StreamState> {
    if name == "pending"@ {
        Some(StreamState::Pending)
    } else if name == "live"@ {
        Some(StreamState::Live)
    } else if name == "processing"@ {
        Some(StreamState::Processing)
    } else if name == "ready"@ {
        Some(StreamState::Ready)
    } else if name == "error"@ {
        Some(StreamState::Error)
    } else if name == "deleted"@ {
        Some(StreamState::Deleted)
    } else {
        None
    }
}

/// The state that a name stands for.
pub fn parse_stream_state(s: &str) -> (r: Option<StreamState>)
    ensures
        r == state_called(s@),
{
    if text::same(s, "pending") {
        Some(StreamState::Pending)
    } else if text::same(s, "live") {
        Some(StreamState::Live)
    } else if text::same(s, "processing") {
        Some(StreamState::Processing)
    } else if text::same(s, "ready") {
        Some(StreamState::Ready)
    } else if text::same(s, "error") {
        Some(StreamState::Error)
    } else if text::same(s, "deleted") {
        Some(StreamState::Deleted)
    } else {
        None
    }
}

/// The stream that a parsed parameter names, or the answer where it names none.
pub open spec fn id_or_answer(parsed: Option<u128>) -> Result<StreamId, ErrorModel> {
    match parsed {
        None => Err(
            ErrorModel {
                status: 400,
                error: "invalid_stream_id"@,
                message: "Invalid stream ID format."@,
            },
        ),
        Some(v) => if version_num(v) != 7 {
            Err(
                ErrorModel {
                    status: 400,
                    error: "invalid_stream_id"@,
                    message: "Invalid stream ID version. Expected UUIDv7."@,
                },
            )
        } else {
            Ok(StreamId { value: v })
        },
    }
}

/// What a parameter was found to be.
pub open spec fn id_view(r: Result<StreamId, ErrorReply>) -> Result<StreamId, ErrorModel> {
    match r {
        Ok(id) => Ok(id),
        Err(e) => Err(e@),
    }
}

/// The stream that a parsed parameter names: only a UUID of version 7 names one.
pub fn stream_id_of(parsed: Option<u128>) -> (r: Result<StreamId, ErrorReply>)
    ensures
        id_view(r) == id_or_answer(parsed),
{
    match parsed {
        None => Err(error_json(400, "invalid_stream_id", "Invalid stream ID format.")),
        Some(v) => {
            if uuids::uuid_version(v) != 7 {
                return Err(
                    error_json(
                        400,
                        "invalid_stream_id",
                        "Invalid stream ID version. Expected UUIDv7.",
                    ),
                );
            }
            Ok(StreamId::from_uuid(v))
        },
    }
}

/// The stream that a parameter names.
pub fn parse_stream_id_param(raw: &str) -> (r: Result<StreamId, ErrorReply>)
    ensures
        id_view(r) == id_or_answer(uuid_parsed(raw@)),
        forall|v: u128|
            raw@ == #[trigger] hyphenated(v) ==> id_view(r) == id_or_answer(Some(v)),
{
    stream_id_of(uuids::parse_uuid(raw))
}

/// The answer where a stream is not known.
pub open spec fn no_such_stream(raw: Seq<char>) -> ErrorModel {
    ErrorModel {
        status: 404,
        error: "stream_not_found"@,
        message: "Stream '"@ + raw + "' not found."@,
    }
}

fn unknown_stream(raw: &str) -> (r: ErrorReply)
    ensures
        r@ == no_such_stream(raw@),
{
    error_quoting(404, "stream_not_found", "Stream '", raw, "' not found.")
}

// ---------------------------------------------------------------------------
// Creating streams
// ---------------------------------------------------------------------------

/// A request for a new stream.
#[derive(Debug)]
pub struct CreateStreamRequest {
    pub ingest_type: String,
    pub metadata: Option<Vec<(String, String)>>,
}

/// A new stream.
#[derive(Debug)]
pub struct CreateStreamResponse {
    pub stream_id: String,
    pub status: String,
    pub stream_key: Option<String>,
    pub rtmp_url: Option<String>,
    pub created_at: String,
}

/// What a request for a new stream led to.
#[derive(Debug)]
pub enum CreateOutcome {
    Created(CreateStreamResponse),
    Refused(ErrorReply),
    /// The stream was created, but no key could be made for it.
    NoKey,
}

/// How a kind of ingest is called in requests.
pub open spec fn mode_called(name: Seq<char>) -> Option<IngestMode> {
    if name == "rtmp"@ {
        Some(IngestMode::Live)
    } else if name == "upload"@ {
        Some(IngestMode::Vod)
    } else {
        None
    }
}

/// `e` is the answer to a request for a new stream that is not accepted.
pub open spec fn create_refusal(request: CreateStreamRequest, e: ErrorModel) -> bool {
    if mode_called(request.ingest_type@) is None {
        e == (ErrorModel {
            status: 400,
            error: "invalid_ingest_type"@,
            message: "Invalid ingest_type: '"@ + request.ingest_type@
                + "'. Must be 'rtmp' or 'upload'."@,
        })
    } else {
        &&& e.status == 400
        &&& e.error == "invalid_metadata"@
        &&& request.metadata matches Some(m) && metadata_failure(m@, e.message)
    }
}

/// A request for a new stream is accepted.
pub open spec fn creatable(request: CreateStreamRequest) -> bool {
    &&& mode_called(request.ingest_type@) is Some
    &&& request.metadata matches Some(m) ==> metadata_fits(m@)
}

/// Checks a request for a new stream.
pub fn check_create(request: &CreateStreamRequest) -> (r: Result<IngestMode, ErrorReply>)
    ensures
        r is Ok <==> creatable(*request),
        r matches Ok(mode) ==> mode_called(request.ingest_type@) == Some(mode),
        r matches Err(e) ==> create_refusal(*request, e@),
{
    let mode = if text::same(&request.ingest_type, "rtmp") {
        IngestMode::Live
    } else if text::same(&request.ingest_type, "upload") {
        IngestMode::Vod
    } else {
        return Err(
            error_quoting(
                400,
                "invalid_ingest_type",
                "Invalid ingest_type: '",
                &request.ingest_type,
                "'. Must be 'rtmp' or 'upload'.",
            ),
        );
    };
    if let Some(metadata) = &request.metadata {
        if let Err(e) = validate_metadata(metadata) {
            return Err(error_json(400, "invalid_metadata", &e));
        }
    }
    Ok(mode)
}

/// Where a stream is published with a key.
pub open spec fn publish_url(server: ServerConfig, key: Seq<char>) -> Seq<char> {
    "rtmp://"@ + server.host@ + ":"@ + decimal(server.rtmp_port as nat) + "/live/"@ + key
}

fn rtmp_url(server: &ServerConfig, key: &str) -> (r: String)
    ensures
        r@ == publish_url(*server, key@),
{
    let mut s = text::owned("rtmp://");
    s.append(&server.host);
    s.append(":");
    text::push_decimal(&mut s, server.rtmp_port as u64);
    s.append("/live/");
    s.append(key);
    s
}

/// `r` announces the stream `stream_id`, with a key that `auth` now accepts where the stream is
/// live.
pub open spec fn announces(
    r: CreateStreamResponse,
    stream_id: StreamId,
    mode: IngestMode,
    before: AuthProvider,
    after: AuthProvider,
    server: ServerConfig,
) -> bool {
    &&& r.stream_id@ == stream_id.text()
    &&& r.status@ == "pending"@
    &&& if mode == IngestMode::Live {
        &&& r.stream_key matches Some(key)
        &&& r.rtmp_url matches Some(url)
        &&& url@ == publish_url(server, key@)
        &&& exists|hash: String| #[trigger]
            key_added(before.keys(), after.keys(), Some(stream_id), Some((key, hash)))
    } else {
        &&& r.stream_key is None
        &&& r.rtmp_url is None
        &&& after.keys() == before.keys()
    }
}

/// What a request for a new stream at `now` did, for a stream that got the identifier `stream_id`.
pub open spec fn created(
    request: CreateStreamRequest,
    server: ServerConfig,
    stream_id: StreamId,
    now: i128,
    manager: StreamStateManager,
    manager_after: StreamStateManager,
    auth: AuthProvider,
    auth_after: AuthProvider,
    r: CreateOutcome,
) -> bool {
    if creatable(request) {
        let mode = mode_called(request.ingest_type@)->0;
        &&& version_num(stream_id.value) == 7
        &&& manager_after.table() == manager.table().insert(
            stream_id.value,
            EntryModel::fresh(stream_id, mode, now),
        )
        &&& manager_after.counts() == counted_in(manager.counts(), StreamState::Pending)
        &&& match r {
            CreateOutcome::Created(c) => {
                &&& announces(c, stream_id, mode, auth, auth_after, server)
                &&& c.created_at@ == rfc3339_text(now)
            },
            CreateOutcome::Refused(_) => false,
            CreateOutcome::NoKey => mode == IngestMode::Live && auth_after.keys() == auth.keys(),
        }
    } else {
        &&& manager_after == manager
        &&& auth_after == auth
        &&& r matches CreateOutcome::Refused(e)
        &&& create_refusal(request, e@)
    }
}

/// Creates a stream, and a key for it where it is live.
pub fn create_stream(
    manager: &mut StreamStateManager,
    auth: &mut AuthProvider,
    request: &CreateStreamRequest,
    server: &ServerConfig,
) -> (r: CreateOutcome)
    requires
        old(manager).wf(),
        old(auth).wf(),
    ensures
        final(manager).wf(),
        final(auth).wf(),
        final(auth).keeps_all_but_keys(*old(auth)),
        exists|stream_id: StreamId, now: i128| #[trigger]
            created(
                *request,
                *server,
                stream_id,
                now,
                *old(manager),
                *final(manager),
                *old(auth),
                *final(auth),
                r,
            ) && in_calendar(now),
{
    let stream_id = StreamId::new();
    let now = clock::now();
    let r = create_stream_at(manager, auth, request, server, stream_id, now);
    assert(created(
        *request,
        *server,
        stream_id,
        now,
        *old(manager),
        *manager,
        *old(auth),
        *auth,
        r,
    ));
    r
}

/// Creates the stream `stream_id` at `now`, and a key for it where it is live.
pub fn create_stream_at(
    manager: &mut StreamStateManager,
    auth: &mut AuthProvider,
    request: &CreateStreamRequest,
    server: &ServerConfig,
    stream_id: StreamId,
    now: i128,
) -> (r: CreateOutcome)
    requires
        old(manager).wf(),
        old(auth).wf(),
        version_num(stream_id.value) == 7,
        in_calendar(now),
    ensures
        final(manager).wf(),
        final(auth).wf(),
        final(auth).keeps_all_but_keys(*old(auth)),
        created(
            *request,
            *server,
            stream_id,
            now,
            *old(manager),
            *final(manager),
            *old(auth),
            *final(auth),
            r,
        ),
{
    let mode = match check_create(request) {
        Ok(mode) => mode,
        Err(e) => {
            return CreateOutcome::Refused(e);
        },
    };
    let _entry = manager.create_stream_at(stream_id, mode, now);
    let mut stream_key: Option<String> = None;
    let mut url: Option<String> = None;
    if mode == IngestMode::Live {
        match auth.generate_stream_key_for_stream(Some(stream_id)) {
            Some((key, hash)) => {
                assert(key_added(
                    old(auth).keys(),
                    auth.keys(),
                    Some(stream_id),
                    Some((key, hash)),
                ));
                url = Some(rtmp_url(server, &key));
                stream_key = Some(key);
            },
            None => {
                return CreateOutcome::NoKey;
            },
        }
    }
    CreateOutcome::Created(
        CreateStreamResponse {
            stream_id: stream_id.to_text(),
            status: text::owned("pending"),
            stream_key,
            rtmp_url: url,
            created_at: clock::format_rfc3339(now),
        },
    )
}

// ---------------------------------------------------------------------------
// Listing streams
// ---------------------------------------------------------------------------

/// A request for a list of streams.
#[derive(Debug)]
pub struct ListStreamsQuery {
    pub status: Option<String>,
    pub limit: Option<usize>,
    pub offset: Option<usize>,
}

/// A stream in a list.
#[derive(Debug)]
pub struct StreamSummary {
    pub stream_id: String,
    pub status: String,
    pub ingest_type: String,
    pub created_at: String,
}

/// What a stream in a list says.
#[verifier::ext_equal]
pub struct SummaryModel {
    pub stream_id: Seq<char>,
    pub status: Seq<char>,
    pub ingest_type: Seq<char>,
    pub created_at: Seq<char>,
}

impl View for StreamSummary {
    type V = SummaryModel;

    open spec fn view(&self) -> SummaryModel {
        SummaryModel {
            stream_id: self.stream_id@,
            status: self.status@,
            ingest_type: self.ingest_type@,
            created_at: self.created_at@,
        }
    }
}

/// A page of a list of streams.
#[derive(Debug)]
pub struct StreamListResponse {
    pub streams: Vec<StreamSummary>,
    pub total: usize,
    pub limit: usize,
    pub offset: usize,
}

/// What a list says of a stream.
pub open spec fn summary(e: EntryModel) -> SummaryModel {
    SummaryModel {
        stream_id: e.metadata.stream_id.text(),
        status: e.state.name(),
        ingest_type: e.metadata.ingest_mode.name(),
        created_at: rfc3339_text(e.metadata.created_at),
    }
}

/// What the streams of a list say.
pub open spec fn summaries(s: Seq<StreamSummary>) -> Seq<SummaryModel> {
    s.map_values(|x: StreamSummary| x@)
}

/// What a request for a list asks for.
#[derive(Debug, Clone, Copy, PartialEq, Eq, Structural)]
pub struct ListRequest {
    pub filter: Option<StreamState>,
    pub limit: usize,
    pub offset: usize,
}

/// What a request for a list asks for, or the answer where it cannot be met.
pub open spec fn list_asked(query: ListStreamsQuery) -> Result<ListRequest, ErrorModel> {
    let filter = match query.status {
        Some(s) => match state_called(s@) {
            Some(state) => Ok(Some(state)),
            None => Err(()),
        },
        None => Ok(None),
    };
    match filter {
        Err(_) => Err(
            ErrorModel {
                status: 400,
                error: "invalid_status"@,
                message:
                    "Invalid status filter. Expected one of: pending, live, processing, ready, error, deleted."@,
            },
        ),
        Ok(filter) => {
            let limit = query.limit.unwrap_or(DEFAULT_LIST_LIMIT);
            if limit == 0 || limit > MAX_LIST_LIMIT {
                Err(
                    ErrorModel {
                        status: 400,
                        error: "invalid_limit"@,
                        message: "Invalid limit: "@ + decimal(limit as nat)
                            + ". Expected range 1..="@ + decimal(MAX_LIST_LIMIT as nat) + "."@,
                    },
                )
            } else {
                Ok(ListRequest { filter, limit, offset: query.offset.unwrap_or(0) })
            }
        },
    }
}

/// What a check of a request for a list found.
pub open spec fn list_view(r: Result<ListRequest, ErrorReply>) -> Result<ListRequest, ErrorModel> {
    match r {
        Ok(q) => Ok(q),
        Err(e) => Err(e@),
    }
}

/// Checks a request for a list of streams.
pub fn check_list(query: &ListStreamsQuery) -> (r: Result<ListRequest, ErrorReply>)
    ensures
        list_view(r) == list_asked(*query),
{
    let filter = match &query.status {
        Some(raw) => match parse_stream_state(raw) {
            Some(s) => Some(s),
            None => {
                return Err(
                    error_json(
                        400,
                        "invalid_status",
                        "Invalid status filter. Expected one of: pending, live, processing, ready, error, deleted.",
                    ),
                );
            },
        },
        None => None,
    };
    let limit: usize = query.limit.unwrap_or(DEFAULT_LIST_LIMIT);
    if limit == 0 || limit > MAX_LIST_LIMIT {
        let mut message = text::owned("Invalid limit: ");
        text::push_decimal(&mut message, limit as u64);
        message.append(". Expected range 1..=");
        text::push_decimal(&mut message, MAX_LIST_LIMIT as u64);
        message.append(".");
        return Err(ErrorReply { status: 400, error: text::owned("invalid_limit"), message });
    }
    Ok(ListRequest { filter, limit, offset: query.offset.unwrap_or(0) })
}

/// `r` is the page that `q` asks for, of the streams `all`.
pub open spec fn page_shown(r: StreamListResponse, q: ListRequest, all: Seq<EntryModel>) -> bool {
    &&& summaries(r.streams@) == page_of(all, q.offset as nat, q.limit as nat).map_values(
        |e: EntryModel| summary(e),
    )
    &&& r.total == all.len()
    &&& r.limit == q.limit
    &&& r.offset == q.offset
}

fn summarize(e: &StreamEntry) -> (r: StreamSummary)
    requires
        in_calendar(e@.metadata.created_at),
    ensures
        r@ == summary(e@),
{
    StreamSummary {
        stream_id: e.metadata.stream_id.to_text(),
        status: text::owned(e.state.as_str()),
        ingest_type: text::owned(e.metadata.ingest_mode.as_str()),
        created_at: clock::format_rfc3339(e.metadata.created_at),
    }
}

/// Lists the streams in the asked state, in the order of their identifiers, page by page.
pub fn list_streams(manager: &StreamStateManager, query: &ListStreamsQuery) -> (r: Result<
    StreamListResponse,
    ErrorReply,
>)
    requires
        manager.wf(),
    ensures
        match r {
            Ok(page) => {
                &&& list_asked(*query) matches Ok(q)
                &&& exists|all: Seq<EntryModel>| #[trigger]
                    is_list(all, manager.table(), q.filter) && page_shown(page, q, all)
            },
            Err(e) => list_asked(*query) == Err::<ListRequest, _>(e@),
        },
{
    let q = match check_list(query) {
        Ok(q) => q,
        Err(e) => {
            return Err(e);
        },
    };
    let (page, total) = manager.list_streams_paginated(q.filter, q.offset, q.limit);
    let ghost all = choose|all: Seq<EntryModel>| #[trigger]
        is_list(all, manager.table(), q.filter) && models(page@) == page_of(
            all,
            q.offset as nat,
            q.limit as nat,
        ) && total == all.len();
    let mut streams: Vec<StreamSummary> = Vec::new();
    let mut i: usize = 0;
    proof {
        assert(summaries(streams@) =~= Seq::empty());
        assert(models(page@).subrange(0, 0).map_values(|e: EntryModel| summary(e)) =~= Seq::empty());
    }
    while i < page.len()
        invariant
            i <= page@.len(),
            manager.wf(),
            is_list(all, manager.table(), q.filter),
            models(page@) == page_of(all, q.offset as nat, q.limit as nat),
            summaries(streams@) == models(page@).subrange(0, i as int).map_values(
                |e: EntryModel| summary(e),
            ),
        decreases page@.len() - i,
    {
        let ghost e = models(page@)[i as int];
        proof {
            assert(e == page@[i as int]@);
            lemma_in_page(all, q.offset as nat, q.limit as nat, i as int);
            let at = q.offset + i;
            assert(e == all[at]);
            assert(manager.table().contains_key(all[at].metadata.stream_id.value));
        }
        let s = summarize(&page[i]);
        let ghost before = summaries(streams@);
        streams.push(s);
        proof {
            assert(summaries(streams@) =~= before.push(summary(e)));
            assert(models(page@).subrange(0, i + 1) =~= models(page@).subrange(0, i as int).push(e));
            assert(models(page@).subrange(0, i + 1).map_values(|e: EntryModel| summary(e))
                =~= before.push(summary(e)));
        }
        i = i + 1;
    }
    assert(models(page@).subrange(0, i as int) =~= models(page@));
    let r = StreamListResponse { streams, total, limit: q.limit, offset: q.offset };
    assert(page_shown(r, q, all));
    Ok(r)
}

proof fn lemma_in_page(all: Seq<EntryModel>, offset: nat, limit: nat, i: int)
    requires
        0 <= i < page_of(all, offset, limit).len(),
    ensures
        offset + i < all.len(),
        page_of(all, offset, limit)[i] == all[offset + i],
{
}

// ---------------------------------------------------------------------------
// Showing a stream
// ---------------------------------------------------------------------------

/// A stream in detail.
#[derive(Debug)]
pub struct StreamDetailResponse {
    pub stream_id: String,
    pub status: String,
    pub ingest_type: String,
    pub created_at: String,
    pub updated_at: Option<String>,
    pub playback_url: Option<String>,
    pub error: Option<String>,
}

/// Where a stream is played.
pub open spec fn play_url(server: ServerConfig, raw: Seq<char>) -> Seq<char> {
    "http://"@ + server.host@ + ":"@ + decimal(server.control_port as nat) + "/streams/"@ + raw
        + "/master.m3u8"@
}

/// A text, if there is one.
pub open spec fn text_view(s: Option<String>) -> Option<Seq<char>> {
    match s {
        Some(t) => Some(t@),
        None => None,
    }
}

/// `r` shows the stream `e` under the name `raw`: it can be played while it is live and once it
/// is ready.
pub open spec fn shows(
    r: StreamDetailResponse,
    e: EntryModel,
    raw: Seq<char>,
    server: ServerConfig,
) -> bool {
    &&& r.stream_id@ == raw
    &&& r.status@ == e.state.name()
    &&& r.ingest_type@ == e.metadata.ingest_mode.name()
    &&& r.created_at@ == rfc3339_text(e.metadata.created_at)
    &&& text_view(r.updated_at) == match e.metadata.ended_at {
        Some(t) => Some(rfc3339_text(t)),
        None => None,
    }
    &&& text_view(r.playback_url) == if e.state == StreamState::Live || e.state
        == StreamState::Ready {
        Some(play_url(server, raw))
    } else {
        None
    }
    &&& text_view(r.error) == e.error_message
}

fn playback_url(server: &ServerConfig, raw: &str) -> (r: String)
    ensures
        r@ == play_url(*server, raw@),
{
    let mut s = text::owned("http://");
    s.append(&server.host);
    s.append(":");
    text::push_decimal(&mut s, server.control_port as u64);
    s.append("/streams/");
    s.append(raw);
    s.append("/master.m3u8");
    s
}

/// Shows a stream, under the name `raw` that the request gave it.
pub fn show_stream(
    manager: &StreamStateManager,
    stream_id: StreamId,
    raw: &str,
    server: &ServerConfig,
) -> (r: Result<StreamDetailResponse, ErrorReply>)
    requires
        manager.wf(),
    ensures
        r is Ok <==> manager.table().contains_key(stream_id.value),
        r matches Ok(d) ==> shows(d, manager.table()[stream_id.value], raw@, *server),
        r matches Err(e) ==> e@ == no_such_stream(raw@),
{
    match manager.get_stream(stream_id) {
        Some(entry) => {
            let playable = match entry.state {
                StreamState::Live => true,
                StreamState::Ready => true,
                _ => false,
            };
            let url = if playable {
                Some(playback_url(server, raw))
            } else {
                None
            };
            let updated_at = match entry.metadata.ended_at {
                Some(t) => Some(clock::format_rfc3339(t)),
                None => None,
            };
            Ok(
                StreamDetailResponse {
                    stream_id: text::owned(raw),
                    status: text::owned(entry.state.as_str()),
                    ingest_type: text::owned(entry.metadata.ingest_mode.as_str()),
                    created_at: clock::format_rfc3339(entry.metadata.created_at),
                    updated_at,
                    playback_url: url,
                    error: entry.error_message,
                },
            )
        },
        None => Err(unknown_stream(raw)),
    }
}

/// Shows the stream that a parameter names.
pub fn get_stream(manager: &StreamStateManager, raw: &str, server: &ServerConfig) -> (r: Result<
    StreamDetailResponse,
    ErrorReply,
>)
    requires
        manager.wf(),
    ensures
        match id_or_answer(uuid_parsed(raw@)) {
            Err(e) => r is Err && r->Err_0@ == e,
            Ok(id) => {
                &&& r is Ok <==> manager.table().contains_key(id.value)
                &&& r matches Ok(d) ==> shows(d, manager.table()[id.value], raw@, *server)
                &&& r matches Err(e) ==> e@ == no_such_stream(raw@)
            },
        },
{
    match parse_stream_id_param(raw) {
        Ok(id) => show_stream(manager, id, raw, server),
        Err(e) => Err(e),
    }
}

// ---------------------------------------------------------------------------
// Deleting a stream
// ---------------------------------------------------------------------------

/// A deleted stream.
#[derive(Debug)]
pub struct DeleteStreamResponse {
    pub stream_id: String,
    pub status: String,
    pub segments_deleted: u64,
    pub storage_freed_bytes: u64,
}

/// Finds the prefix of all objects of a stream that is to be deleted.
pub fn begin_delete(manager: &StreamStateManager, stream_id: StreamId, raw: &str) -> (r: Result<
    String,
    ErrorReply,
>)
    ensures
        r is Ok <==> manager.table().contains_key(stream_id.value),
        r matches Ok(prefix) ==> prefix@ == stream_prefix(stream_id.value),
        r matches Err(e) ==> e@ == no_such_stream(raw@),
{
    if manager.get_stream_state(stream_id).is_none() {
        return Err(unknown_stream(raw));
    }
    Ok(prefix_of(stream_id))
}

/// One measurement for each object that was deleted.
pub open spec fn deletions_measured(n: u64) -> Seq<Measurement> {
    Seq::new(
        n as nat,
        |i: int|
            measured("streaminfa_storage_segments_deleted_total"@, MetricChange::CounterAdd(1)),
    )
}

/// `r` tells that a stream is deleted with a number of objects.
pub open spec fn tells_deleted(r: DeleteStreamResponse, raw: Seq<char>, deleted: u64) -> bool {
    &&& r.stream_id@ == raw
    &&& r.status@ == "deleted"@
    &&& r.segments_deleted == deleted
    &&& r.storage_freed_bytes == 0
}

/// A stream after it is deleted at `now`: one that is still under way is aborted first.
pub open spec fn deleted_entry(e: EntryModel, now: i128) -> EntryModel {
    if e.state == StreamState::Deleted {
        e
    } else if e.state == StreamState::Ready || e.state == StreamState::Error {
        e.entering(StreamState::Deleted, now)
    } else {
        e.failing("stream deleted"@, now).entering(StreamState::Deleted, now)
    }
}

/// The table after a stream is deleted at `now`: its record stays, as that of a deleted stream.
pub open spec fn table_deleted(table: Map<u128, EntryModel>, stream_id: StreamId, now: i128) -> Map<
    u128,
    EntryModel,
> {
    if table.contains_key(stream_id.value) {
        table.insert(stream_id.value, deleted_entry(table[stream_id.value], now))
    } else {
        table
    }
}

/// The counters of the states after a stream that stood as `e` is deleted.
pub open spec fn counts_deleted(counts: Seq<i64>, e: EntryModel) -> Seq<i64> {
    if e.state == StreamState::Deleted {
        counts
    } else if e.state == StreamState::Ready || e.state == StreamState::Error {
        counted_in(counted_out(counts, e.state), StreamState::Deleted)
    } else {
        counted_in(
            counted_out(
                counted_in(counted_out(counts, e.state), StreamState::Error),
                StreamState::Error,
            ),
            StreamState::Deleted,
        )
    }
}

/// Marks a stream as deleted at `now`, once its objects are gone. Returns the answer for the
/// number of objects that were deleted, and the measurements.
pub fn finish_delete_at(
    manager: &mut StreamStateManager,
    stream_id: StreamId,
    raw: &str,
    deleted: u64,
    now: i128,
) -> (r: (DeleteStreamResponse, Vec<MetricUpdate>))
    requires
        old(manager).wf(),
        in_calendar(now),
    ensures
        final(manager).wf(),
        final(manager).table() == table_deleted(old(manager).table(), stream_id, now),
        final(manager).counts() == if old(manager).table().contains_key(stream_id.value) {
            counts_deleted(old(manager).counts(), old(manager).table()[stream_id.value])
        } else {
            old(manager).counts()
        },
        tells_deleted(r.0, raw@, deleted),
        all_measured(r.1@) == deletions_measured(deleted),
{
    let under_way = match manager.get_stream_state(stream_id) {
        Some(StreamState::Pending) => true,
        Some(StreamState::Live) => true,
        Some(StreamState::Processing) => true,
        _ => false,
    };
    if under_way {
        let _ = manager.transition_to_error_at(stream_id, text::owned("stream deleted"), now);
    }
    let _ = manager.transition_at(stream_id, StreamState::Deleted, now);
    assert(manager.table() =~= table_deleted(old(manager).table(), stream_id, now));
    let mut metrics: Vec<MetricUpdate> = Vec::new();
    let mut i: u64 = 0;
    assert(all_measured(metrics@) =~= deletions_measured(0));
    while i < deleted
        invariant
            i <= deleted,
            all_measured(metrics@) == deletions_measured(i),
        decreases deleted - i,
    {
        let ghost before = all_measured(metrics@);
        metrics.push(obs::inc_storage_segments_deleted());
        proof {
            assert(all_measured(metrics@) =~= before.push(metrics@.last()@));
            assert(all_measured(metrics@) =~= deletions_measured((i + 1) as u64));
        }
        i = i + 1;
    }
    let response = DeleteStreamResponse {
        stream_id: text::owned(raw),
        status: text::owned("deleted"),
        segments_deleted: deleted,
        storage_freed_bytes: 0,
    };
    (response, metrics)
}

/// What the deletion of a stream with its objects in a store in memory at `now` does and returns.
pub open spec fn deletion(
    manager: StreamStateManager,
    manager_after: StreamStateManager,
    store: InMemoryMediaStore,
    store_after: InMemoryMediaStore,
    stream_id: StreamId,
    raw: Seq<char>,
    now: i128,
    r: Result<(DeleteStreamResponse, Vec<MetricUpdate>), ErrorReply>,
) -> bool {
    let prefix = stream_prefix(stream_id.value);
    if manager.table().contains_key(stream_id.value) {
        &&& r matches Ok(done)
        &&& store_after.objects() == without_prefix(store.objects(), prefix)
        &&& manager_after.table() == table_deleted(manager.table(), stream_id, now)
        &&& manager_after.counts() == counts_deleted(
            manager.counts(),
            manager.table()[stream_id.value],
        )
        &&& tells_deleted(done.0, raw, under(store.objects(), prefix).len() as u64)
        &&& all_measured(done.1@) == deletions_measured(done.0.segments_deleted)
    } else {
        &&& r matches Err(e)
        &&& e@ == no_such_stream(raw)
        &&& store_after == store
        &&& manager_after == manager
    }
}

/// Deletes a stream, with all of its objects in a store in memory, now.
pub fn delete_stream(
    manager: &mut StreamStateManager,
    store: &mut InMemoryMediaStore,
    stream_id: StreamId,
    raw: &str,
) -> (r: Result<(DeleteStreamResponse, Vec<MetricUpdate>), ErrorReply>)
    requires
        old(manager).wf(),
        old(store).wf(),
    ensures
        final(manager).wf(),
        final(store).wf(),
        exists|now: i128| #[trigger]
            deletion(
                *old(manager),
                *final(manager),
                *old(store),
                *final(store),
                stream_id,
                raw@,
                now,
                r,
            ) && in_calendar(now),
{
    let now = clock::now();
    let r = delete_stream_at(manager, store, stream_id, raw, now);
    assert(deletion(
        *old(manager),
        *manager,
        *old(store),
        *store,
        stream_id,
        raw@,
        now,
        r,
    ));
    r
}

/// Deletes a stream, with all of its objects in a store in memory, at `now`.
pub fn delete_stream_at(
    manager: &mut StreamStateManager,
    store: &mut InMemoryMediaStore,
    stream_id: StreamId,
    raw: &str,
    now: i128,
) -> (r: Result<(DeleteStreamResponse, Vec<MetricUpdate>), ErrorReply>)
    requires
        old(manager).wf(),
        old(store).wf(),
        in_calendar(now),
    ensures
        final(manager).wf(),
        final(store).wf(),
        deletion(
            *old(manager),
            *final(manager),
            *old(store),
            *final(store),
            stream_id,
            raw@,
            now,
            r,
        ),
{
    let prefix = match begin_delete(manager, stream_id, raw) {
        Ok(p) => p,
        Err(e) => {
            return Err(e);
        },
    };
    let deleted: u64 = match store.delete_prefix(&prefix) {
        Ok(n) => n,
        Err(_) => 0,
    };
    Ok(finish_delete_at(manager, stream_id, raw, deleted, now))
}

// ---------------------------------------------------------------------------
// New stream keys
// ---------------------------------------------------------------------------

/// A new stream key.
#[derive(Debug)]
pub struct RotateKeyResponse {
    pub stream_id: String,
    pub stream_key: String,
    pub rtmp_url: String,
}

/// What a request for a new stream key led to.
#[derive(Debug)]
pub enum RotateOutcome {
    Rotated(RotateKeyResponse),
    Refused(ErrorReply),
    /// The old keys are dropped, but no new one could be made.
    NoKey,
}

/// Drops the keys of a stream, and makes a new one for it. Other keys stay as they are.
pub fn rotate_stream_key(
    manager: &StreamStateManager,
    auth: &mut AuthProvider,
    stream_id: StreamId,
    raw: &str,
    server: &ServerConfig,
) -> (r: RotateOutcome)
    requires
        old(auth).wf(),
    ensures
        final(auth).wf(),
        final(auth).keeps_all_but_keys(*old(auth)),
        r is Refused <==> !manager.table().contains_key(stream_id.value),
        match r {
            RotateOutcome::Rotated(k) => {
                &&& k.stream_id@ == raw@
                &&& k.rtmp_url@ == publish_url(*server, k.stream_key@)
                &&& exists|hash: String| #[trigger]
                    key_added(
                        without_stream(old(auth).keys(), stream_id),
                        final(auth).keys(),
                        Some(stream_id),
                        Some((k.stream_key, hash)),
                    )
            },
            RotateOutcome::Refused(e) => {
                &&& e@ == no_such_stream(raw@)
                &&& *final(auth) == *old(auth)
            },
            RotateOutcome::NoKey => final(auth).keys() == without_stream(
                old(auth).keys(),
                stream_id,
            ),
        },
{
    if manager.get_stream_state(stream_id).is_none() {
        return RotateOutcome::Refused(unknown_stream(raw));
    }
    match auth.rotate_stream_key_for_stream(stream_id) {
        Some((key, hash)) => {
            let url = rtmp_url(server, &key);
            assert(key_added(
                without_stream(old(auth).keys(), stream_id),
                auth.keys(),
                Some(stream_id),
                Some((key, hash)),
            ));
            RotateOutcome::Rotated(
                RotateKeyResponse { stream_id: text::owned(raw), stream_key: key, rtmp_url: url },
            )
        },
        None => RotateOutcome::NoKey,
    }
}

// ---------------------------------------------------------------------------
// Laws
// ---------------------------------------------------------------------------

/// A list never shows more streams than it was asked for, and never more than a hundred.
pub proof fn pages_stay_within_the_limit(
    query: ListStreamsQuery,
    q: ListRequest,
    r: StreamListResponse,
    all: Seq<EntryModel>,
)
    requires
        list_asked(query) == Ok::<ListRequest, ErrorModel>(q),
        page_shown(r, q, all),
    ensures
        r.streams@.len() <= q.limit <= MAX_LIST_LIMIT,
{
    assert(summaries(r.streams@).len() == r.streams@.len());
}

/// The names of states are read back as the states that they name.
pub proof fn state_names_read_back(state: StreamState)
    ensures
        state_called(state.name()) == Some(state),
{
    reveal_strlit("pending");
    reveal_strlit("live");
    reveal_strlit("processing");
    reveal_strlit("ready");
    reveal_strlit("error");
    reveal_strlit("deleted");
    assert("pending"@[0] == 'p' && "live"@[0] == 'l' && "processing"@.len() == 10);
    assert("ready"@[0] == 'r' && "error"@[0] == 'e' && "deleted"@[0] == 'd');
}

/// A stream that is deleted stays known, and as deleted.
pub proof fn deleted_streams_leave_a_record(
    table: Map<u128, EntryModel>,
    stream_id: StreamId,
    now: i128,
)
    requires
        table.contains_key(stream_id.value),
    ensures
        ({
            let after = table_deleted(table, stream_id, now);
            &&& after.contains_key(stream_id.value)
            &&& after[stream_id.value].state == StreamState::Deleted
        }),
{
}

/// Nothing of a deleted stream is left in storage or served: no object lies under its path, and a
/// request for one is refused.
pub proof fn deleted_streams_are_gone(
    manager: StreamStateManager,
    manager_after: StreamStateManager,
    store: InMemoryMediaStore,
    store_after: InMemoryMediaStore,
    stream_id: StreamId,
    raw: Seq<char>,
    now: i128,
    r: Result<(DeleteStreamResponse, Vec<MetricUpdate>), ErrorReply>,
    path: Seq<char>,
)
    requires
        manager.table().contains_key(stream_id.value),
        deletion(manager, manager_after, store, store_after, stream_id, raw, now, r),
        begins_with(path, stream_prefix(stream_id.value)),
    ensures
        !store_after.objects().contains_key(path),
        refusal(Some(manager_after.table()[stream_id.value].state), raw) is Some,
{
}

/// The token of a request is what follows "Bearer "; any other header carries none.
pub proof fn tokens_follow_their_scheme(token: Seq<char>, header: Seq<char>)
    ensures
        bearer_of(Some("Bearer "@ + token)) == Some(token),
        bearer_of(None) is None,
        bearer_of(Some(header)) is Some ==> header == "Bearer "@ + bearer_of(Some(header))->0,
{
    let s = "Bearer "@ + token;
    let n = "Bearer "@.len() as int;
    assert(s.subrange(0, n) =~= "Bearer "@);
    assert(s.subrange(n, s.len() as int) =~= token);
    if bearer_of(Some(header)) is Some {
        assert(header =~= header.subrange(0, n) + header.subrange(n, header.len() as int));
    }
}

/// Only a UUID of version 7 names a stream: its thirteenth digit is a 7.
pub proof fn streams_are_named_by_version_seven(v: u128)
    ensures
        id_or_answer(Some(v)) is Ok <==> v / 0x1000_0000_0000_0000_0000 % 16 == 7,
        id_or_answer(Some(v)) matches Ok(id) ==> id.value == v,
        id_or_answer(Some(v)) matches Err(e) ==> e.status == 400,
        id_or_answer(None) matches Err(e) && e.status == 400,
{
}

/// A stream is created for "rtmp" as live and for "upload" as an upload, and for no other word.
pub proof fn ingest_types_have_their_mode(name: Seq<char>)
    ensures
        mode_called("rtmp"@) == Some(IngestMode::Live),
        mode_called("upload"@) == Some(IngestMode::Vod),
        name != "rtmp"@ && name != "upload"@ ==> mode_called(name) is None,
{
    reveal_strlit("rtmp");
    reveal_strlit("upload");
    assert("rtmp"@.len() == 4 && "upload"@.len() == 6);
}

/// A list shows the streams that were asked for: a page of 10 where no size is given, from the
/// start where no offset is, and only sizes from 1 to 100.
pub proof fn lists_are_asked_for_by_page(query: ListStreamsQuery)
    ensures
        query.status is None && query.limit is None && query.offset is None ==> list_asked(query)
            == Ok::<_, ErrorModel>(ListRequest { filter: None, limit: 10, offset: 0 }),
        query.limit matches Some(n) ==> (n == 0 || n > 100 ==> list_asked(query) is Err),
        list_asked(query) matches Ok(q) ==> {
            &&& query.limit matches Some(n) ==> q.limit == n
            &&& query.offset matches Some(n) ==> q.offset == n
            &&& query.status matches Some(s) ==> q.filter == state_called(s@) && q.filter is Some
            &&& query.status is None ==> q.filter is None
        },
        list_asked(query) matches Err(e) ==> e.status == 400,
{
}

/// A stream that is asked for with a known type and metadata within its limits is there from then
/// on, as pending and beside all others. A live one comes with a key that is accepted from then on
/// and leads to the stream, and with the place to publish to under that key.
pub proof fn created_streams_can_be_published_to(
    request: CreateStreamRequest,
    server: ServerConfig,
    stream_id: StreamId,
    now: i128,
    manager: StreamStateManager,
    manager_after: StreamStateManager,
    auth: AuthProvider,
    auth_after: AuthProvider,
    r: CreateOutcome,
    other: u128,
)
    requires
        created(
            request,
            server,
            stream_id,
            now,
            manager,
            manager_after,
            auth,
            auth_after,
            r,
        ),
    ensures
        r is Created ==> {
            &&& request.ingest_type@ == "rtmp"@ || request.ingest_type@ == "upload"@
            &&& manager_after.table().contains_key(stream_id.value)
            &&& manager_after.table()[stream_id.value].state == StreamState::Pending
            &&& manager_after.table()[stream_id.value].metadata.created_at == now
            &&& other != stream_id.value ==> manager_after.table().contains_key(other)
                == manager.table().contains_key(other)
        },
        r is Refused ==> manager_after.table() == manager.table() && auth_after.keys()
            == auth.keys(),
        r matches CreateOutcome::Created(c) ==> {
            &&& c.stream_id@ == stream_id.text()
            &&& request.ingest_type@ == "upload"@ ==> c.stream_key is None && c.rtmp_url is None
            &&& request.ingest_type@ == "rtmp"@ ==> {
                &&& c.stream_key matches Some(key) && {
                    &&& accepts(auth_after.keys(), key@)
                    &&& resolves_to(auth_after.keys(), key@) == Some(stream_id)
                    &&& c.rtmp_url matches Some(url) && url@ == "rtmp://"@ + server.host@ + ":"@
                        + decimal(server.rtmp_port as nat) + "/live/"@ + key@
                }
            }
        },
{
    ingest_types_have_their_mode(request.ingest_type@);
    match r {
        CreateOutcome::Created(c) => {
            if request.ingest_type@ == "rtmp"@ {
                let key = c.stream_key->0;
                let hash = choose|hash: String| #[trigger]
                    key_added(auth.keys(), auth_after.keys(), Some(stream_id), Some((key, hash)));
                fresh_key_is_good(
                    auth.keys(),
                    auth_after.keys(),
                    Some(stream_id),
                    Some((key, hash)),
                );
            }
        },
        _ => {},
    }
}

/// A stream is shown as it stands: where it can be played only while it is live or once it is ready,
/// and with the words of its error where it has one.
pub proof fn streams_are_shown_as_they_stand(
    r: StreamDetailResponse,
    e: EntryModel,
    raw: Seq<char>,
    server: ServerConfig,
)
    requires
        shows(r, e, raw, server),
    ensures
        state_called(r.status@) == Some(e.state),
        r.playback_url is Some <==> e.state == StreamState::Live || e.state == StreamState::Ready,
        r.playback_url matches Some(url) ==> url@ == "http://"@ + server.host@ + ":"@ + decimal(
            server.control_port as nat,
        ) + "/streams/"@ + raw + "/master.m3u8"@,
        r.error is Some <==> e.error_message is Some,
        r.error matches Some(t) ==> t@ == e.error_message->0,
        r.updated_at is Some <==> e.metadata.ended_at is Some,
{
    state_names_read_back(e.state);
}

/// Each stream of a list is shown with its own identifier, state and mode, in order, from the offset
/// on.
pub proof fn pages_show_their_streams(
    r: StreamListResponse,
    q: ListRequest,
    all: Seq<EntryModel>,
    i: int,
)
    requires
        page_shown(r, q, all),
        0 <= i < r.streams@.len(),
        q.offset + i < all.len(),
    ensures
        r.total == all.len(),
        r.streams@[i].stream_id@ == all[q.offset + i].metadata.stream_id.text(),
        state_called(r.streams@[i].status@) == Some(all[q.offset + i].state),
{
    let page = page_of(all, q.offset as nat, q.limit as nat);
    let shown = page.map_values(|e: EntryModel| summary(e));
    assert(summaries(r.streams@).len() == r.streams@.len());
    assert(summaries(r.streams@) == shown);
    assert(shown.len() == page.len());
    assert(summaries(r.streams@)[i] == r.streams@[i]@);
    assert(shown[i] == summary(page[i]));
    state_names_read_back(all[q.offset + i].state);
}

/// Deleting a stream ends it now, in whatever state it was; one that was under way is aborted with a
/// word about it, and one that was deleted before stays as it is.
pub proof fn deletions_end_streams(e: EntryModel, now: i128)
    ensures
        deleted_entry(e, now).state == StreamState::Deleted,
        e.state != StreamState::Deleted ==> deleted_entry(e, now).metadata.ended_at == Some(now),
        e.state == StreamState::Deleted ==> deleted_entry(e, now) == e,
        e.state == StreamState::Pending || e.state == StreamState::Live || e.state
            == StreamState::Processing ==> deleted_entry(e, now).error_message == Some(
            "stream deleted"@,
        ),
        deleted_entry(e, now).metadata.stream_id == e.metadata.stream_id,
{
}

} // verus!
