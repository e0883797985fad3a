use bytes::Bytes;

use streaminfa::common::auth::AuthProvider;
use streaminfa::common::config::{AppConfig, AuthConfig, DeliveryConfig};
use streaminfa::common::error::StorageError;
use streaminfa::common::types::{IngestMode, StreamId};
use streaminfa::control::state::{StreamState, StreamStateManager};
use streaminfa::delivery::handlers::{
    authenticate_admin, create_stream, delete_stream, get_stream, list_streams,
    parse_stream_id_param, parse_stream_state, rotate_stream_key, CreateOutcome,
    CreateStreamRequest, ListStreamsQuery, RotateOutcome,
};
use streaminfa::delivery::middleware::request_id;
use streaminfa::delivery::readiness::{
    parse_df_available_bytes, probe_address, readiness, Readiness, ReadyChecks, ReadyValue,
    READYZ_MIN_DISK_BYTES,
};
use streaminfa::delivery::response::{
    build_response, finalize_delivery_metrics, parse_range_header, status_bucket, Reply,
};
use streaminfa::delivery::router::{allowed_origins, AllowedOrigins};
use streaminfa::delivery::serve::{
    begin_serve_at, finish_serve_at, master_playlist_object, rendition_object, serve_object,
    serve_object_at, PendingFetch, ServeStep,
};
use streaminfa::observability::metrics::MetricChange;
use streaminfa::storage::cache::ObjectCache;
use streaminfa::storage::memory::InMemoryMediaStore;

const TEST_ADMIN_TOKEN: &str = "at_phase_e_test_token";

#[test]
fn test_parse_df_available_bytes_success() {
    let sample = "Filesystem 1024-blocks Used Available Capacity Mounted on\n/dev/sda1 100000 25000 75000 25% /\n";
    let bytes = parse_df_available_bytes(sample).unwrap();
    assert_eq!(bytes, 75000 * 1024);
}

#[test]
fn test_parse_df_available_bytes_invalid_output() {
    let sample = "bad output";
    assert!(parse_df_available_bytes(sample).is_err());
}

#[test]
fn df_errors_tell_what_is_wrong() {
    assert_eq!(
        parse_df_available_bytes("one line\n"),
        Err("unexpected df output".to_string())
    );
    assert_eq!(
        parse_df_available_bytes("head\na b c\n"),
        Err("unexpected df output format".to_string())
    );
    assert_eq!(
        parse_df_available_bytes("head\na b c x\n"),
        Err("cannot parse available space: invalid digit found in string".to_string())
    );
    assert_eq!(
        parse_df_available_bytes("head\r\na\tb  c 18446744073709551615"),
        Ok(u64::MAX)
    );
}

#[test]
fn test_parse_range_header_valid_and_invalid() {
    assert_eq!(parse_range_header("bytes=0-100"), Some((0, 100)));
    assert_eq!(parse_range_header("bytes=100-"), Some((100, u64::MAX)));
    assert_eq!(parse_range_header("bytes=100-10"), None);
    assert_eq!(parse_range_header("bytes=-5"), None);
    assert_eq!(parse_range_header("not-a-range"), None);
}

#[test]
fn ranges_are_read_strictly() {
    assert_eq!(parse_range_header(" bytes=7-7 "), Some((7, 7)));
    assert_eq!(parse_range_header("bytes=0-1,3-4"), None);
    assert_eq!(parse_range_header("bytes=0-1-2"), None);
    assert_eq!(parse_range_header("bytes=18446744073709551616-"), None);
}

fn delivery_config() -> DeliveryConfig {
    DeliveryConfig {
        cache_control_live: "no-cache, no-store".to_string(),
        cache_control_vod: "public, max-age=86400".to_string(),
        cors_allowed_origins: vec!["*".to_string()],
    }
}

fn status(reply: &Reply) -> u16 {
    match reply {
        Reply::Error(e) => e.status,
        Reply::Object(o) => o.status,
    }
}

#[test]
fn test_build_response_range_not_satisfiable() {
    let data = Bytes::from_static(b"abcdef");
    let resp = build_response(
        data,
        "video/mp4",
        "\"etag\"",
        "stream/high/000000.m4s",
        Some((10, 20)),
        false,
        &delivery_config(),
    );
    assert_eq!(status(&resp), 416);
}

fn header<'a>(reply: &'a Reply, name: &str) -> Option<&'a str> {
    match reply {
        Reply::Object(o) => o
            .headers
            .iter()
            .find(|h| h.0 == name)
            .map(|h| h.1.as_str()),
        Reply::Error(_) => None,
    }
}

fn body(reply: &Reply) -> &[u8] {
    match reply {
        Reply::Object(o) => &o.body,
        Reply::Error(_) => &[],
    }
}

#[test]
fn parts_are_answered_with_their_place() {
    let config = delivery_config();
    let part = build_response(
        Bytes::from_static(b"abcdef"),
        "video/mp4",
        "\"e\"",
        "stream/high/000000.m4s",
        Some((2, u64::MAX)),
        true,
        &config,
    );
    assert_eq!(status(&part), 206);
    assert_eq!(body(&part), b"cdef");
    assert_eq!(header(&part, "content-range"), Some("bytes 2-5/6"));
    assert_eq!(header(&part, "content-length"), Some("4"));
    assert_eq!(
        header(&part, "cache-control"),
        Some("public, max-age=86400")
    );
    assert_eq!(header(&part, "x-streaminfa-stream-id"), Some("stream"));

    let whole = build_response(
        Bytes::from_static(b"abcdef"),
        "application/vnd.apple.mpegurl",
        "\"e\"",
        "stream/high/media.m3u8",
        None,
        true,
        &config,
    );
    assert_eq!(status(&whole), 200);
    assert_eq!(header(&whole, "cache-control"), Some("no-cache, no-store"));
    assert_eq!(header(&whole, "etag"), Some("\"e\""));
    assert_eq!(header(&whole, "accept-ranges"), Some("bytes"));

    match build_response(
        Bytes::from_static(b"abcdef"),
        "t",
        "e",
        "p",
        Some((6, 9)),
        false,
        &config,
    ) {
        Reply::Error(e) => assert_eq!(
            e.message,
            "Requested range bytes=6-5 is outside object size 6."
        ),
        _ => panic!("the range starts behind the end"),
    }
    match build_response(Bytes::new(), "t", "e", "p", Some((0, 9)), false, &config) {
        Reply::Error(e) => assert_eq!(
            e.message,
            "Cannot satisfy range request for empty object."
        ),
        _ => panic!("an empty object has no parts"),
    }
}

#[test]
fn answers_are_measured() {
    let reply = build_response(
        Bytes::from_static(b"abc"),
        "t",
        "e",
        "p",
        None,
        false,
        &delivery_config(),
    );
    let metrics = finalize_delivery_metrics(&reply, "segment", 1500);
    assert_eq!(metrics.len(), 3);
    assert_eq!(metrics[0].labels[0], ("status", "2xx".to_string()));
    assert_eq!(metrics[1].change, MetricChange::HistogramNanos(1500));
    assert_eq!(metrics[2].change, MetricChange::CounterAdd(3));
    assert_eq!(status_bucket(304), "3xx");
    assert_eq!(status_bucket(404), "4xx");
    assert_eq!(status_bucket(100), "5xx");
}

struct Setup {
    manager: StreamStateManager,
    cache: ObjectCache,
    store: InMemoryMediaStore,
    auth: AuthProvider,
    config: AppConfig,
}

fn setup(require_auth: bool) -> Setup {
    let mut config = AppConfig::default();
    config.auth.admin_bearer_tokens = if require_auth {
        vec![TEST_ADMIN_TOKEN.to_string()]
    } else {
        Vec::new()
    };
    Setup {
        manager: StreamStateManager::new(),
        cache: ObjectCache::new(&config.cache),
        store: InMemoryMediaStore::new(),
        auth: AuthProvider::new(&config.auth),
        config,
    }
}

fn ready_stream(manager: &mut StreamStateManager) -> StreamId {
    let stream_id = StreamId::new();
    manager.create_stream(stream_id, IngestMode::Vod);
    manager
        .transition(stream_id, StreamState::Processing)
        .unwrap();
    manager.transition(stream_id, StreamState::Ready).unwrap();
    stream_id
}

#[test]
fn test_master_playlist_playback_flow() {
    let mut s = setup(false);
    let sid = ready_stream(&mut s.manager).to_text();

    let manifest_path = master_playlist_object(&sid);
    assert_eq!(manifest_path, format!("{}/master.m3u8", sid));
    let manifest_body = "#EXTM3U\n#EXT-X-VERSION:7\n";
    s.store.put_manifest(&manifest_path, manifest_body).unwrap();

    let resp = serve_object(
        &s.manager,
        &mut s.cache,
        &s.store,
        &manifest_path,
        &sid,
        Some("master_playlist"),
        None,
        &s.config.delivery,
    );

    assert_eq!(status(&resp), 200);
    assert_eq!(
        header(&resp, "content-type"),
        Some("application/vnd.apple.mpegurl")
    );
    assert_eq!(body(&resp), manifest_body.as_bytes());
}

#[test]
fn test_invalid_range_header_returns_416() {
    let mut s = setup(false);
    let sid = ready_stream(&mut s.manager).to_text();
    let seg_path = rendition_object(&sid, "high", "000000.m4s");
    s.store
        .put_segment(&seg_path, Bytes::from_static(b"0123456789"), "video/mp4")
        .unwrap();

    let resp = serve_object(
        &s.manager,
        &mut s.cache,
        &s.store,
        &seg_path,
        &sid,
        Some("segment"),
        Some("bytes=-5"),
        &s.config.delivery,
    );
    assert_eq!(status(&resp), 416);
}

#[test]
fn objects_are_served_whole_and_in_parts() {
    let mut s = setup(false);
    let sid = ready_stream(&mut s.manager).to_text();
    let path = rendition_object(&sid, "high", "000000.m4s");
    s.store
        .put_segment(&path, Bytes::from_static(b"0123456789"), "video/mp4")
        .unwrap();
    let mut ask = |range: Option<&str>, now: u64| {
        serve_object_at(
            &s.manager,
            &mut s.cache,
            &s.store,
            &path,
            &sid,
            None,
            range,
            &s.config.delivery,
            now,
        )
    };
    let part = ask(Some("bytes=3-4"), 0);
    assert_eq!((status(&part), body(&part)), (206, &b"34"[..]));
    let whole = ask(None, 1);
    assert_eq!((status(&whole), body(&whole)), (200, &b"0123456789"[..]));
    // From the cache now, and from storage once its copy is too old.
    for later in [2, 100_000_000_000_000_000] {
        let again = ask(None, later);
        assert_eq!((status(&again), body(&again)), (200, &b"0123456789"[..]));
        assert_eq!(header(&again, "etag"), header(&whole, "etag"));
    }
    let part = ask(Some("bytes=8-"), 2);
    assert_eq!((status(&part), body(&part)), (206, &b"89"[..]));
}

#[test]
fn cached_objects_are_served_without_storage() {
    let mut s = setup(false);
    let (step, metric) = begin_serve_at(
        Some(StreamState::Live),
        &mut s.cache,
        "a/high/000001.m4s",
        "a",
        None,
        &s.config.delivery,
        "segment",
        0,
    );
    assert_eq!(metric.unwrap().name, "streaminfa_cache_misses_total");
    let pending = match step {
        ServeStep::Fetch(p) => p,
        ServeStep::Done(_) => panic!("the cache is empty"),
    };
    assert!(pending.is_live && pending.range.is_none());
    let mut other = InMemoryMediaStore::new();
    other
        .put_segment("a/high/000001.m4s", Bytes::from_static(b"xyz"), "video/mp4")
        .unwrap();
    let (reply, metrics) = finish_serve_at(
        &mut s.cache,
        pending,
        "a/high/000001.m4s",
        other.get_object("a/high/000001.m4s"),
        &s.config.delivery,
        "segment",
        77,
        0,
    );
    assert_eq!(body(&reply), b"xyz");
    assert_eq!(metrics.len(), 4);
    let (step, metric) = begin_serve_at(
        Some(StreamState::Live),
        &mut s.cache,
        "a/high/000001.m4s",
        "a",
        None,
        &s.config.delivery,
        "segment",
        1,
    );
    assert_eq!(metric.unwrap().name, "streaminfa_cache_hits_total");
    assert!(matches!(step, ServeStep::Done(r) if body(&r) == b"xyz"));
}

#[test]
fn storage_failures_are_told_apart() {
    let mut s = setup(false);
    let pending = PendingFetch {
        range: None,
        is_live: false,
    };
    let mut ask = |path: &str, e: StorageError| {
        let (reply, _) = finish_serve_at(
            &mut s.cache,
            pending,
            path,
            Err(e),
            &s.config.delivery,
            "segment",
            0,
            0,
        );
        match reply {
            Reply::Error(e) => (e.status, e.error),
            Reply::Object(_) => panic!("there is no object"),
        }
    };
    let missing = |path: &str| StorageError::S3GetFailed {
        path: path.to_string(),
        reason: "not found".to_string(),
    };
    for (path, code) in [
        ("s/high/1.m4s", "segment_not_found"),
        ("s/high/media.m3u8", "rendition_not_found"),
        ("s/high/init.mp4", "rendition_not_found"),
        ("s/master.m3u8", "stream_not_found"),
    ] {
        assert_eq!(ask(path, missing(path)), (404, code.to_string()));
    }
    assert_eq!(
        ask(
            "s/master.m3u8",
            StorageError::RetriesExhausted {
                path: "s/master.m3u8".to_string()
            }
        ),
        (502, "storage_error".to_string())
    );
}

#[test]
fn closed_streams_are_refused() {
    let mut s = setup(false);
    let id = StreamId::new();
    s.manager.create_stream(id, IngestMode::Live);
    let sid = id.to_text();
    let path = master_playlist_object(&sid);
    s.store.put_manifest(&path, "#EXTM3U\n").unwrap();
    let mut ask = |manager: &StreamStateManager| {
        match serve_object(
            manager,
            &mut s.cache,
            &s.store,
            &path,
            &sid,
            None,
            None,
            &s.config.delivery,
        ) {
            Reply::Error(e) => (e.status, e.error),
            Reply::Object(o) => (o.status, String::new()),
        }
    };
    assert_eq!(ask(&s.manager), (404, "stream_not_ready".to_string()));
    s.manager.transition(id, StreamState::Live).unwrap();
    assert_eq!(ask(&s.manager).0, 200);
    s.manager.transition_to_error(id, "x".to_string()).unwrap();
    assert_eq!(ask(&s.manager), (410, "stream_error".to_string()));
    s.manager.transition(id, StreamState::Deleted).unwrap();
    assert_eq!(ask(&s.manager), (404, "stream_not_found".to_string()));
}

#[test]
fn test_list_streams_invalid_status_returns_400() {
    let s = setup(false);
    let resp = list_streams(
        &s.manager,
        &ListStreamsQuery {
            status: Some("unknown".to_string()),
            limit: None,
            offset: None,
        },
    );
    assert_eq!(resp.unwrap_err().status, 400);
}

#[test]
fn test_list_streams_invalid_limit_returns_400() {
    let s = setup(false);
    let resp = list_streams(
        &s.manager,
        &ListStreamsQuery {
            status: None,
            limit: Some(0),
            offset: None,
        },
    );
    assert_eq!(resp.unwrap_err().status, 400);
}

#[test]
fn lists_are_paged() {
    let mut s = setup(false);
    for i in 0..12 {
        let mode = if i % 2 == 0 {
            IngestMode::Live
        } else {
            IngestMode::Vod
        };
        s.manager
            .create_stream_at(StreamId::new(), mode, 1_700_000_000_123_456_789);
    }
    let query = |status: Option<&str>, limit: Option<usize>, offset: Option<usize>| {
        list_streams(
            &s.manager,
            &ListStreamsQuery {
                status: status.map(|x| x.to_string()),
                limit,
                offset,
            },
        )
    };
    let page = query(None, None, None).unwrap();
    assert_eq!((page.streams.len(), page.total, page.limit), (10, 12, 10));
    assert_eq!(page.streams[0].status, "pending");
    assert_eq!(page.streams[0].created_at, "2023-11-14T22:13:20.123456789+00:00");
    assert_eq!(query(None, None, Some(10)).unwrap().streams.len(), 2);
    assert_eq!(query(Some("live"), None, None).unwrap().total, 0);
    assert_eq!(
        query(None, Some(101), None).unwrap_err().message,
        "Invalid limit: 101. Expected range 1..=100."
    );
    assert_eq!(parse_stream_state("deleted"), Some(StreamState::Deleted));
    assert_eq!(parse_stream_state("Deleted"), None);
}

#[test]
fn test_parse_stream_id_param_requires_v7() {
    let v4 = uuid::Uuid::new_v4().to_string();
    let result = parse_stream_id_param(&v4);
    assert!(result.is_err());
}

#[test]
fn test_parse_stream_id_param_accepts_v7() {
    let v7 = uuid::Uuid::now_v7().to_string();
    let result = parse_stream_id_param(&v7);
    assert!(result.is_ok());
}

#[test]
fn bad_parameters_are_told_apart() {
    assert_eq!(
        parse_stream_id_param("nonsense").unwrap_err().message,
        "Invalid stream ID format."
    );
    assert_eq!(
        parse_stream_id_param("f47ac10b-58cc-4372-a567-0e02b2c3d479")
            .unwrap_err()
            .message,
        "Invalid stream ID version. Expected UUIDv7."
    );
    let id = StreamId::new();
    assert_eq!(parse_stream_id_param(&id.to_text()).unwrap(), id);
}

fn bearer(token: &str) -> String {
    format!("Bearer {}", token)
}

fn create(s: &mut Setup, ingest_type: &str) -> streaminfa::delivery::handlers::CreateStreamResponse {
    match create_stream(
        &mut s.manager,
        &mut s.auth,
        &CreateStreamRequest {
            ingest_type: ingest_type.to_string(),
            metadata: Some(vec![("suite".to_string(), "phase-e".to_string())]),
        },
        &s.config.server,
    ) {
        CreateOutcome::Created(c) => c,
        _ => panic!("the request is good"),
    }
}

#[test]
fn control_plane_auth_and_crud_round_trip() {
    let mut s = setup(true);

    let refused = authenticate_admin(&s.auth, None).unwrap_err();
    assert_eq!(refused.reply.status, 401);
    let refused = authenticate_admin(&s.auth, Some(&bearer("at_invalid"))).unwrap_err();
    assert_eq!(refused.reply.status, 403);
    assert!(authenticate_admin(&s.auth, Some(&bearer(TEST_ADMIN_TOKEN))).is_ok());

    let created = create(&mut s, "rtmp");
    assert_eq!(created.status, "pending");
    assert!(created.stream_key.is_some());

    let page = list_streams(
        &s.manager,
        &ListStreamsQuery {
            status: None,
            limit: Some(10),
            offset: Some(0),
        },
    )
    .unwrap();
    assert!(!page.streams.is_empty());

    let shown = get_stream(&s.manager, &created.stream_id, &s.config.server).unwrap();
    assert_eq!(shown.stream_id, created.stream_id);

    let id = parse_stream_id_param(&created.stream_id).unwrap();
    let (deleted, _) =
        delete_stream(&mut s.manager, &mut s.store, id, &created.stream_id).unwrap();
    assert_eq!(deleted.status, "deleted");
    assert_eq!(s.manager.get_stream_state(id), Some(StreamState::Deleted));
}

#[test]
fn create_ready_playback_delete_flow() {
    let mut s = setup(true);
    let created = create(&mut s, "upload");
    assert!(created.stream_key.is_none() && created.rtmp_url.is_none());
    let id = parse_stream_id_param(&created.stream_id).unwrap();
    s.manager.transition(id, StreamState::Processing).unwrap();
    s.manager.transition(id, StreamState::Ready).unwrap();

    let manifest_path = format!("{}/master.m3u8", created.stream_id);
    let manifest_body = "#EXTM3U\n#EXT-X-VERSION:7\n";
    s.store.put_manifest(&manifest_path, manifest_body).unwrap();

    let playback = serve_object(
        &s.manager,
        &mut s.cache,
        &s.store,
        &manifest_path,
        &created.stream_id,
        Some("master_playlist"),
        None,
        &s.config.delivery,
    );
    assert_eq!(status(&playback), 200);
    assert!(header(&playback, "content-type")
        .unwrap()
        .starts_with("application/vnd.apple.mpegurl"));
    assert_eq!(body(&playback), manifest_body.as_bytes());

    let (deleted, metrics) =
        delete_stream(&mut s.manager, &mut s.store, id, &created.stream_id).unwrap();
    assert_eq!(deleted.segments_deleted, 1);
    assert_eq!(metrics.len(), 1);

    let after = serve_object(
        &s.manager,
        &mut s.cache,
        &s.store,
        &manifest_path,
        &created.stream_id,
        Some("master_playlist"),
        None,
        &s.config.delivery,
    );
    assert_eq!(status(&after), 404);
}

#[test]
fn live_streams_get_a_key_and_an_address() {
    let mut s = setup(true);
    let created = create(&mut s, "rtmp");
    let key = created.stream_key.clone().unwrap();
    assert_eq!(
        created.rtmp_url.unwrap(),
        format!(
            "rtmp://{}:{}/live/{}",
            s.config.server.host, s.config.server.rtmp_port, key
        )
    );
    assert!(s.auth.validate_stream_key(&key).is_ok());
    let id = parse_stream_id_param(&created.stream_id).unwrap();

    match rotate_stream_key(
        &s.manager,
        &mut s.auth,
        id,
        &created.stream_id,
        &s.config.server,
    ) {
        RotateOutcome::Rotated(k) => {
            assert!(s.auth.validate_stream_key(&k.stream_key).is_ok());
            assert!(k.rtmp_url.ends_with(&k.stream_key));
        }
        _ => panic!("the stream is known"),
    }
    assert!(s.auth.validate_stream_key(&key).is_err());
    let unknown = StreamId::new();
    assert!(matches!(
        rotate_stream_key(
            &s.manager,
            &mut s.auth,
            unknown,
            &unknown.to_text(),
            &s.config.server
        ),
        RotateOutcome::Refused(e) if e.status == 404
    ));
}

#[test]
fn bad_requests_create_nothing() {
    let mut s = setup(false);
    let mut ask = |ingest_type: &str, metadata: Option<Vec<(String, String)>>| {
        match create_stream(
            &mut s.manager,
            &mut s.auth,
            &CreateStreamRequest {
                ingest_type: ingest_type.to_string(),
                metadata,
            },
            &s.config.server,
        ) {
            CreateOutcome::Refused(e) => e,
            _ => panic!("the request is bad"),
        }
    };
    let e = ask("srt", None);
    assert_eq!(e.status, 400);
    assert_eq!(
        e.message,
        "Invalid ingest_type: 'srt'. Must be 'rtmp' or 'upload'."
    );
    let e = ask("rtmp", Some(vec![("k".repeat(65), "v".to_string())]));
    assert_eq!(e.error, "invalid_metadata");
    assert!(s.manager.list_streams(None).is_empty());
}

#[test]
fn streams_are_shown_in_detail() {
    let mut s = setup(false);
    let id = ready_stream(&mut s.manager);
    let sid = id.to_text();
    let shown = get_stream(&s.manager, &sid, &s.config.server).unwrap();
    assert_eq!(
        shown.playback_url,
        Some(format!(
            "http://{}:{}/streams/{}/master.m3u8",
            s.config.server.host, s.config.server.control_port, sid
        ))
    );
    assert_eq!(shown.ingest_type, "vod");
    assert!(shown.updated_at.is_some() && shown.error.is_none());
    let other = StreamId::new().to_text();
    let e = get_stream(&s.manager, &other, &s.config.server).unwrap_err();
    assert_eq!(e.message, format!("Stream '{}' not found.", other));
    let e = get_stream(&s.manager, "x", &s.config.server).unwrap_err();
    assert_eq!(e.status, 400);
}

#[test]
fn deleting_a_live_stream_aborts_it() {
    let mut s = setup(false);
    let id = StreamId::new();
    s.manager.create_stream(id, IngestMode::Live);
    s.manager.transition(id, StreamState::Live).unwrap();
    let sid = id.to_text();
    delete_stream(&mut s.manager, &mut s.store, id, &sid).unwrap();
    assert_eq!(s.manager.get_stream_state(id), Some(StreamState::Deleted));
    let gone = StreamId::new();
    let e = delete_stream(&mut s.manager, &mut s.store, gone, &gone.to_text()).unwrap_err();
    assert_eq!(e.status, 404);
}

#[test]
fn open_services_need_no_token() {
    let auth = AuthProvider::new(&AuthConfig {
        ingest_stream_keys: Vec::new(),
        admin_bearer_tokens: Vec::new(),
    });
    assert!(authenticate_admin(&auth, None).is_ok());
    let closed = AuthProvider::new(&AuthConfig {
        ingest_stream_keys: Vec::new(),
        admin_bearer_tokens: vec!["at_x".to_string()],
    });
    let e = authenticate_admin(&closed, Some("Basic at_x")).unwrap_err();
    assert_eq!(e.reason, "missing_or_invalid_header");
}

#[test]
fn readiness_needs_every_check() {
    let mut checks = ReadyChecks {
        storage: Ok(()),
        storage_latency_ms: 7,
        ffmpeg: Ok(()),
        rtmp_listener: Ok("127.0.0.1:1935".to_string()),
        rtmp_port: 1935,
        disk: Ok(READYZ_MIN_DISK_BYTES),
        auth_open_mode: true,
    };
    let shown = |r: &Readiness, at: usize| -> String {
        let fields: Vec<String> = r.checks[at]
            .fields
            .iter()
            .map(|(name, value)| match value {
                ReadyValue::Text(s) => format!("{name}={s}"),
                ReadyValue::Number(n) => format!("{name}={n}"),
                ReadyValue::Gib(n) => format!("{name}={}", *n as f64 / 1_073_741_824.0),
            })
            .collect();
        format!("{}: {}", r.checks[at].name, fields.join(" "))
    };
    let r = readiness(&checks);
    assert_eq!((r.http_status, r.status), (200, "ready"));
    assert!(r.auth_open_mode);
    assert_eq!(r.checks.len(), 4);
    assert_eq!(shown(&r, 0), "storage: status=ok latency_ms=7");
    assert_eq!(shown(&r, 1), "ffmpeg: status=ok");
    assert_eq!(
        shown(&r, 2),
        "rtmp_listener: status=ok port=1935 address=127.0.0.1:1935"
    );
    assert_eq!(
        shown(&r, 3),
        "disk_space: status=ok path=/tmp/streaminfa/uploads available_gb=10 min_required_gb=10"
    );
    checks.disk = Ok(5_368_709_120);
    let r = readiness(&checks);
    assert_eq!((r.http_status, r.status), (503, "not_ready"));
    assert_eq!(
        shown(&r, 3),
        "disk_space: status=error path=/tmp/streaminfa/uploads available_gb=5 min_required_gb=10 error=insufficient disk space"
    );
    checks.disk = Err("no df".to_string());
    checks.storage = Err("down".to_string());
    let r = readiness(&checks);
    assert_eq!(r.http_status, 503);
    assert_eq!(
        shown(&r, 3),
        "disk_space: status=error path=/tmp/streaminfa/uploads error=no df"
    );
    assert_eq!(
        shown(&r, 0),
        "storage: status=error latency_ms=7 error=down"
    );
    assert_eq!(probe_address("0.0.0.0", 1935), "127.0.0.1:1935");
    assert_eq!(probe_address("::", 1), "::1:1");
    assert_eq!(probe_address("example.org", 80), "example.org:80");
}

#[test]
fn request_identifiers_are_kept_or_made() {
    assert_eq!(request_id(Some("abc")), "abc");
    let fresh = request_id(None);
    assert_eq!(
        uuid::Uuid::parse_str(&fresh).unwrap().get_version_num(),
        4
    );
    assert_ne!(fresh, request_id(None));
}

#[test]
fn origins_are_listed_or_all() {
    let of = |l: &[&str]| allowed_origins(&l.iter().map(|s| s.to_string()).collect());
    assert!(matches!(of(&["https://a", "*"]), AllowedOrigins::Any));
    assert!(matches!(of(&[]), AllowedOrigins::Any));
    assert!(matches!(of(&["bad\n"]), AllowedOrigins::Any));
    match of(&["https://a", "bad\n", "https://b"]) {
        AllowedOrigins::List(l) => assert_eq!(l, vec!["https://a", "https://b"]),
        AllowedOrigins::Any => panic!("origins are listed"),
    }
}

#[test]
fn streams_are_deleted_under_any_spelling() {
    let mut s = setup(false);
    let id = ready_stream(&mut s.manager);
    let path = rendition_object(&id.to_text(), "high", "000000.m4s");
    s.store
        .put_segment(&path, Bytes::from_static(b"x"), "video/mp4")
        .unwrap();
    let raw = id.to_text().to_uppercase();
    let (done, _) = delete_stream(&mut s.manager, &mut s.store, id, &raw).unwrap();
    assert_eq!((done.stream_id, done.segments_deleted), (raw, 1));
    assert!(s.store.get_object(&path).is_err());
}
