use bytes::Bytes;

use streaminfa::common::config::{CacheConfig, PackagingConfig};
use streaminfa::common::error::StorageError;
use streaminfa::common::types::{IngestMode, StorageWrite, StreamId};
use streaminfa::control::state::{StreamState, StreamStateManager};
use streaminfa::observability::metrics::MetricChange;
use streaminfa::storage::cache::ObjectCache;
use streaminfa::storage::cleanup::{
    playlist_references, run_cleanup_cycle, run_cleanup_cycle_at, DELETED_STATE_RETENTION_HOURS,
};
use streaminfa::storage::memory::InMemoryMediaStore;
use streaminfa::storage::s3::{
    listed_object_at, next_page, on_get_failure, on_put_failure, range_header, read_output,
    read_output_at, NextPage,
};
use streaminfa::storage::sweep::{CleanupSession, SweepAction, SweepEvent};
use streaminfa::storage::writer::{put_call, PutCall, WriteJob, WriteStep, WriteTally};
use streaminfa::storage::{content_type_for_path, object_type_label, ObjectInfo};

fn test_config() -> CacheConfig {
    CacheConfig {
        enabled: true,
        max_size_bytes: 10_000,
        ttl_secs: 300,
        segment_ttl_secs: 3600,
    }
}

#[test]
fn test_put_and_get() {
    let mut cache = ObjectCache::new(&test_config());
    let data = Bytes::from(vec![0xAA; 100]);

    cache.put(
        "stream/high/seg_000000.m4s",
        data.clone(),
        "video/mp4",
        "\"etag1\"",
    );

    let result = cache.get("stream/high/seg_000000.m4s");
    assert!(result.is_some());
    let (cached_data, ct, etag) = result.unwrap();
    assert_eq!(cached_data, data);
    assert_eq!(ct, "video/mp4");
    assert_eq!(etag, "\"etag1\"");
}

#[test]
fn test_cache_miss() {
    let mut cache = ObjectCache::new(&test_config());
    assert!(cache.get("nonexistent").is_none());
}

#[test]
fn test_invalidation() {
    let mut cache = ObjectCache::new(&test_config());
    cache.put("key", Bytes::from("data"), "text/plain", "\"e\"");
    assert!(cache.get("key").is_some());

    cache.invalidate("key");
    assert!(cache.get("key").is_none());
}

#[test]
fn test_size_tracking() {
    let mut cache = ObjectCache::new(&test_config());

    cache.put("a", Bytes::from(vec![0u8; 100]), "t", "e");
    assert_eq!(cache.current_size_bytes(), 100);

    cache.put("b", Bytes::from(vec![0u8; 200]), "t", "e");
    assert_eq!(cache.current_size_bytes(), 300);

    cache.invalidate("a");
    assert_eq!(cache.current_size_bytes(), 200);
}

#[test]
fn test_eviction_on_size_limit() {
    let config = CacheConfig {
        enabled: true,
        max_size_bytes: 500,
        ttl_secs: 300,
        segment_ttl_secs: 3600,
    };
    let mut cache = ObjectCache::new(&config);

    cache.put("a", Bytes::from(vec![0u8; 200]), "t", "e");
    cache.put("b", Bytes::from(vec![0u8; 200]), "t", "e");
    assert_eq!(cache.entry_count(), 2);
    assert_eq!(cache.current_size_bytes(), 400);

    cache.put("c", Bytes::from(vec![0u8; 200]), "t", "e");
    assert!(cache.current_size_bytes() <= 500);
    assert!(cache.get("a").is_none());
    assert!(cache.get("b").is_some());
    assert!(cache.get("c").is_some());
}

#[test]
fn test_disabled_cache() {
    let config = CacheConfig {
        enabled: false,
        max_size_bytes: 10_000,
        ttl_secs: 300,
        segment_ttl_secs: 3600,
    };
    let mut cache = ObjectCache::new(&config);

    cache.put("key", Bytes::from("data"), "t", "e");
    assert!(cache.get("key").is_none());
    assert_eq!(cache.entry_count(), 0);
}

#[test]
fn test_ttl_for_segments() {
    let cache = ObjectCache::new(&test_config());
    let ttl = cache.ttl_for_key("stream/high/seg_000042.m4s");
    assert_eq!(ttl, 3600);
}

#[test]
fn test_ttl_for_init_segment() {
    let cache = ObjectCache::new(&test_config());
    let ttl = cache.ttl_for_key("stream/high/init.mp4");
    assert_eq!(ttl, 3600);
}

#[test]
fn test_ttl_for_live_manifest() {
    let cache = ObjectCache::new(&test_config());
    let ttl = cache.ttl_for_key("stream/high/media.m3u8");
    assert_eq!(ttl, 1);
}

#[test]
fn test_ttl_for_master_playlist() {
    let cache = ObjectCache::new(&test_config());
    let ttl = cache.ttl_for_key("stream/master.m3u8");
    assert_eq!(ttl, 300);
}

#[test]
fn test_replace_existing_key() {
    let mut cache = ObjectCache::new(&test_config());

    cache.put("key", Bytes::from(vec![0u8; 100]), "t", "e1");
    assert_eq!(cache.current_size_bytes(), 100);

    cache.put("key", Bytes::from(vec![0u8; 200]), "t", "e2");
    assert_eq!(cache.current_size_bytes(), 200);
    assert_eq!(cache.entry_count(), 1);

    let (_, _, etag) = cache.get("key").unwrap();
    assert_eq!(etag, "e2");
}

#[test]
fn cached_objects_outlive_their_time() {
    let mut cache = ObjectCache::new(&test_config());
    let metrics = cache.put_at("s/high/media.m3u8", Bytes::from("x"), "t", "e", 5_000_000_000);
    assert_eq!(metrics[0].change, MetricChange::GaugeCount(1));
    assert_eq!(metrics[1].change, MetricChange::GaugeSet(1));
    assert!(cache.get_at("s/high/media.m3u8", 6_000_000_000).is_some());
    assert!(cache.get_at("s/high/media.m3u8", 6_000_000_001).is_none());
    assert_eq!(cache.entry_count(), 0);
    assert_eq!(cache.current_size_bytes(), 0);
}

#[test]
fn reads_keep_objects_in_the_cache() {
    let config = CacheConfig {
        enabled: true,
        max_size_bytes: 500,
        ttl_secs: 300,
        segment_ttl_secs: 3600,
    };
    let mut cache = ObjectCache::new(&config);
    cache.put_at("a", Bytes::from(vec![0u8; 200]), "t", "e", 0);
    cache.put_at("b", Bytes::from(vec![0u8; 200]), "t", "e", 0);
    assert!(cache.get_at("a", 1).is_some());
    cache.put_at("c", Bytes::from(vec![0u8; 200]), "t", "e", 2);
    assert!(cache.get_at("a", 3).is_some());
    assert!(cache.get_at("b", 3).is_none());
    let none = cache.put_at("large", Bytes::from(vec![0u8; 251]), "t", "e", 4);
    assert!(none.is_empty());
    assert!(cache.get_at("large", 4).is_none());
}

#[test]
fn test_put_and_get_segment() {
    let mut store = InMemoryMediaStore::new();
    let data = Bytes::from(vec![0xAA; 1000]);

    store
        .put_segment("stream1/high/seg_000000.m4s", data.clone(), "video/mp4")
        .unwrap();

    let output = store.get_object("stream1/high/seg_000000.m4s").unwrap();
    assert_eq!(output.body, data);
    assert_eq!(output.content_type, "video/mp4");
    assert_eq!(output.content_length, 1000);
}

#[test]
fn test_put_and_get_manifest() {
    let mut store = InMemoryMediaStore::new();
    let content = "#EXTM3U\n#EXT-X-VERSION:7\n";

    store
        .put_manifest("stream1/high/media.m3u8", content)
        .unwrap();

    let output = store.get_object("stream1/high/media.m3u8").unwrap();
    assert_eq!(output.body, Bytes::from(content));
    assert_eq!(output.content_type, "application/vnd.apple.mpegurl");
}

#[test]
fn test_get_nonexistent_returns_error() {
    let store = InMemoryMediaStore::new();
    let result = store.get_object("nonexistent");
    assert!(result.is_err());
}

#[test]
fn test_range_get() {
    let mut store = InMemoryMediaStore::new();
    let data = Bytes::from(vec![0, 1, 2, 3, 4, 5, 6, 7, 8, 9]);

    store.put_segment("test.m4s", data, "video/mp4").unwrap();

    let output = store.get_object_range("test.m4s", 2, 5).unwrap();
    assert_eq!(output.body.as_ref(), &[2, 3, 4, 5]);
    assert_eq!(output.content_length, 4);
}

#[test]
fn test_delete_object() {
    let mut store = InMemoryMediaStore::new();
    store
        .put_segment("test.m4s", Bytes::from("data"), "video/mp4")
        .unwrap();

    assert!(store.has_object("test.m4s"));
    store.delete_object("test.m4s").unwrap();
    assert!(!store.has_object("test.m4s"));
}

#[test]
fn test_delete_prefix() {
    let mut store = InMemoryMediaStore::new();
    store
        .put_segment("stream1/high/seg_000000.m4s", Bytes::from("a"), "video/mp4")
        .unwrap();
    store
        .put_segment("stream1/high/seg_000001.m4s", Bytes::from("b"), "video/mp4")
        .unwrap();
    store
        .put_segment("stream2/high/seg_000000.m4s", Bytes::from("c"), "video/mp4")
        .unwrap();

    let deleted = store.delete_prefix("stream1/").unwrap();
    assert_eq!(deleted, 2);
    assert_eq!(store.object_count(), 1);
}

#[test]
fn test_list_objects() {
    let mut store = InMemoryMediaStore::new();
    store
        .put_segment("stream1/high/seg_000000.m4s", Bytes::from("a"), "video/mp4")
        .unwrap();
    store
        .put_segment("stream1/high/seg_000001.m4s", Bytes::from("b"), "video/mp4")
        .unwrap();
    store
        .put_segment("stream1/low/seg_000000.m4s", Bytes::from("c"), "video/mp4")
        .unwrap();

    let objects = store.list_objects("stream1/high/").unwrap();
    assert_eq!(objects.len(), 2);
    assert_eq!(objects[0].key, "stream1/high/seg_000000.m4s");
    assert_eq!(objects[1].key, "stream1/high/seg_000001.m4s");
}

#[test]
fn stores_answer_with_their_errors() {
    let mut store = InMemoryMediaStore::new();
    match store.get_object("none") {
        Err(StorageError::S3GetFailed { path, reason }) => {
            assert_eq!((path.as_str(), reason.as_str()), ("none", "not found"));
        }
        _ => panic!("nothing is there"),
    }
    store
        .put_segment_at("a", Bytes::from_static(b"abc"), "video/mp4", 77)
        .unwrap();
    match store.get_object_range("a", 3, 9) {
        Err(StorageError::S3GetFailed { reason, .. }) => {
            assert_eq!(reason, "range start 3 exceeds object size 3")
        }
        _ => panic!("the range starts behind the end"),
    }
    let meta = store.head_object("a").unwrap();
    assert_eq!((meta.content_length, meta.last_modified), (3, 77));
    store.put_metadata("m.json", "{}").unwrap();
    assert_eq!(
        store.get_object("m.json").unwrap().content_type,
        "application/json"
    );
}

fn test_packaging_config() -> PackagingConfig {
    PackagingConfig {
        segment_duration_secs: 6,
        live_window_segments: 5,
        hls_version: 7,
        segment_retention_minutes: 60,
    }
}

const HOUR_NS: i128 = 3_600_000_000_000;

fn now_ns() -> i128 {
    chrono::Utc::now().timestamp_micros() as i128 * 1000
}

fn deleted_stream(manager: &mut StreamStateManager) -> StreamId {
    let stream_id = StreamId::new();
    manager.create_stream(stream_id, IngestMode::Live);
    manager.transition(stream_id, StreamState::Live).unwrap();
    manager
        .transition(stream_id, StreamState::Processing)
        .unwrap();
    manager.transition(stream_id, StreamState::Ready).unwrap();
    manager.transition(stream_id, StreamState::Deleted).unwrap();
    stream_id
}

#[test]
fn test_deleted_tombstone_removed_after_retention() {
    let mut store = InMemoryMediaStore::new();
    let mut manager = StreamStateManager::new();
    let stream_id = deleted_stream(&mut manager);

    let future_now = now_ns() + (DELETED_STATE_RETENTION_HOURS as i128 + 1) * HOUR_NS;
    run_cleanup_cycle(&mut store, &mut manager, &test_packaging_config(), future_now);

    assert!(manager.get_stream(stream_id).is_none());
}

#[test]
fn test_deleted_tombstone_kept_before_retention() {
    let mut store = InMemoryMediaStore::new();
    let mut manager = StreamStateManager::new();
    let stream_id = deleted_stream(&mut manager);

    let near_now = now_ns() + HOUR_NS;
    run_cleanup_cycle(&mut store, &mut manager, &test_packaging_config(), near_now);

    assert!(manager.get_stream(stream_id).is_some());
}

#[test]
fn test_live_cleanup_keeps_manifest_referenced_segment() {
    let mut store = InMemoryMediaStore::new();
    let mut manager = StreamStateManager::new();
    let stream_id = StreamId::new();
    let sid = stream_id.to_text();

    manager.create_stream(stream_id, IngestMode::Live);
    manager.transition(stream_id, StreamState::Live).unwrap();

    let seg_key = format!("{}/high/000000.m4s", sid);
    let playlist_key = format!("{}/high/media.m3u8", sid);
    store
        .put_segment(&seg_key, Bytes::from_static(b"segment"), "video/mp4")
        .unwrap();
    store
        .put_manifest(&playlist_key, "#EXTM3U\n#EXTINF:6.0,\n000000.m4s\n")
        .unwrap();

    let mut cfg = test_packaging_config();
    cfg.segment_retention_minutes = 0;
    run_cleanup_cycle(&mut store, &mut manager, &cfg, now_ns() + 1_000_000_000);

    assert!(store.has_object(&seg_key));
}

#[test]
fn test_live_cleanup_deletes_unreferenced_segment() {
    let mut store = InMemoryMediaStore::new();
    let mut manager = StreamStateManager::new();
    let stream_id = StreamId::new();
    let sid = stream_id.to_text();

    manager.create_stream(stream_id, IngestMode::Live);
    manager.transition(stream_id, StreamState::Live).unwrap();

    let seg_key = format!("{}/high/000000.m4s", sid);
    let playlist_key = format!("{}/high/media.m3u8", sid);
    store
        .put_segment(&seg_key, Bytes::from_static(b"segment"), "video/mp4")
        .unwrap();
    store
        .put_manifest(&playlist_key, "#EXTM3U\n#EXTINF:6.0,\n000001.m4s\n")
        .unwrap();

    let mut cfg = test_packaging_config();
    cfg.segment_retention_minutes = 0;
    run_cleanup_cycle(&mut store, &mut manager, &cfg, now_ns() + 1_000_000_000);

    assert!(!store.has_object(&seg_key));
}

#[test]
fn stale_failures_are_deleted_with_their_objects() {
    let mut store = InMemoryMediaStore::new();
    let mut manager = StreamStateManager::new();
    let start = 1_700_000_000_000;
    let failed = StreamId::new();
    manager.create_stream_at(failed, IngestMode::Live, start);
    manager
        .transition_to_error_at(failed, "gone".to_string(), start)
        .unwrap();
    let other = StreamId::new();
    manager.create_stream_at(other, IngestMode::Live, start);
    let mine = format!("{}/high/init.mp4", failed.to_text());
    let kept = format!("{}/high/init.mp4", other.to_text());
    for key in [&mine, &kept] {
        store
            .put_segment_at(key, Bytes::from_static(b"x"), "video/mp4", start)
            .unwrap();
    }
    let later = start + 25 * HOUR_NS;
    run_cleanup_cycle_at(
        &mut store,
        &mut manager,
        &test_packaging_config(),
        later,
        later,
    );
    assert!(!store.has_object(&mine));
    assert!(store.has_object(&kept));
    assert_eq!(manager.get_stream_state(failed), Some(StreamState::Deleted));
    assert_eq!(manager.get_stream_state(other), Some(StreamState::Pending));
}

#[test]
fn references_are_relative_to_the_playlist() {
    assert_eq!(
        playlist_references(
            "s/high/media.m3u8",
            b"#EXTM3U\n 000001.m4s \r\nother/000002.m4s\n#000003.m4s\ninit.mp4\n"
        ),
        vec!["s/high/000001.m4s", "other/000002.m4s"]
    );
    assert_eq!(playlist_references("media.m3u8", b"1.m4s"), vec!["1.m4s"]);
}

#[test]
fn paths_have_types() {
    assert_eq!(content_type_for_path("a/b.m4s"), "video/mp4");
    assert_eq!(content_type_for_path("a/b.json"), "application/json");
    assert_eq!(content_type_for_path("a/b"), "application/octet-stream");
    assert_eq!(object_type_label("a/init.mp4"), "init_segment");
    assert_eq!(object_type_label("a/media.m3u8"), "media_playlist");
    assert_eq!(object_type_label("a/x"), "other");
}

fn write_of(path: &str, data: &'static [u8]) -> StorageWrite {
    StorageWrite {
        path: path.to_string(),
        data: Bytes::from_static(data),
        content_type: "video/mp4".to_string(),
    }
}

#[test]
fn playlists_are_written_as_text() {
    match put_call(&write_of("s/media.m3u8", b"#EXTM3U\xff")) {
        PutCall::Manifest { path, content } => {
            assert_eq!(path, "s/media.m3u8");
            assert_eq!(content, "#EXTM3U\u{fffd}");
        }
        _ => panic!("playlists are text"),
    }
    match put_call(&write_of("s/1.m4s", b"abc")) {
        PutCall::Segment {
            data, content_type, ..
        } => {
            assert_eq!(&data[..], b"abc");
            assert_eq!(content_type, "video/mp4");
        }
        _ => panic!("segments are bytes"),
    }
}

#[test]
fn writes_are_tried_four_times() {
    let mut job = WriteJob::new(&write_of("s/1.m4s", b"abc"));
    let mut tally = WriteTally::new();
    for delay_ms in [100, 200, 400] {
        let (step, metrics) = job.on_result(false, 10);
        assert_eq!(step, WriteStep::Retry { delay_ms });
        assert_eq!(metrics[0].name, "streaminfa_storage_retries_total");
    }
    let (step, metrics) = job.on_result(false, 10);
    assert_eq!(step, WriteStep::GaveUp);
    assert_eq!(metrics[0].name, "streaminfa_storage_errors_total");
    tally.count(step);
    assert_eq!(tally, WriteTally::new());

    let mut job = WriteJob::new(&write_of("s/1.m4s", b"abc"));
    job.on_result(false, 10);
    let (step, metrics) = job.on_result(true, 10);
    assert_eq!(step, WriteStep::Written { size: 3 });
    assert_eq!(metrics[0].change, MetricChange::CounterAdd(3));
    tally.count(step);
    assert_eq!((tally.segments_written, tally.bytes_written), (1, 3));
}

#[test]
fn s3_failures_are_retried_or_not() {
    assert_eq!(on_put_failure("k", 0, "timeout").unwrap(), 100);
    assert_eq!(on_put_failure("k", 1, "timeout").unwrap(), 200);
    assert_eq!(on_put_failure("k", 2, "timeout").unwrap(), 400);
    assert!(matches!(
        on_put_failure("k", 3, "timeout"),
        Err(StorageError::RetriesExhausted { .. })
    ));
    match on_put_failure("k", 0, "status 403") {
        Err(StorageError::S3PutFailed { reason, .. }) => {
            assert_eq!(reason, "forbidden (credentials issue): status 403")
        }
        _ => panic!("forbidden writes are not tried again"),
    }
    match on_get_failure("k", 0, "NoSuchKey") {
        Err(StorageError::S3GetFailed { reason, .. }) => assert_eq!(reason, "not found"),
        _ => panic!("missing objects are not tried again"),
    }
    match on_get_failure("k", 0, "Forbidden") {
        Err(StorageError::S3GetFailed { reason, .. }) => {
            assert_eq!(reason, "forbidden: Forbidden")
        }
        _ => panic!("forbidden reads are not tried again"),
    }
    for (attempt, wait) in [(0, 100), (1, 200), (2, 400)] {
        assert_eq!(on_get_failure("k", attempt, "reset").unwrap(), wait);
    }
    assert!(matches!(
        on_get_failure("k", 3, "reset"),
        Err(StorageError::RetriesExhausted { .. })
    ));
}

#[test]
fn s3_replies_have_defaults() {
    assert_eq!(range_header(2, 5), "bytes=2-5");
    let o = read_output_at(Bytes::from_static(b"x"), None, None, None, None, 42);
    assert_eq!(o.content_length, 0);
    assert_eq!(o.content_type, "application/octet-stream");
    assert_eq!(o.etag, "");
    assert_eq!(o.last_modified, 42);
    let o = read_output(
        Bytes::from_static(b"x"),
        Some(1),
        Some("video/mp4".to_string()),
        Some("e".to_string()),
        Some((1_700_000_000, 123_456_789)),
    );
    assert_eq!(o.last_modified, 1_700_000_000_123_456_789);
    let o = read_output_at(
        Bytes::from_static(b"x"),
        None,
        None,
        None,
        Some((i64::MAX, 0)),
        42,
    );
    assert_eq!(o.last_modified, 42);
    let l = listed_object_at(None, Some(9), Some((1, 0)), 42);
    assert_eq!((l.key.as_str(), l.size, l.last_modified), ("", 9, 1_000_000_000));
    assert!(matches!(next_page(None, None), NextPage::Done));
    assert!(matches!(
        next_page(Some(true), Some("t".to_string())),
        NextPage::More { token: Some(_) }
    ));
}

#[test]
fn replacing_an_object_evicts_no_other() {
    let config = CacheConfig {
        enabled: true,
        max_size_bytes: 500,
        ttl_secs: 300,
        segment_ttl_secs: 3600,
    };
    let mut cache = ObjectCache::new(&config);
    cache.put("a", Bytes::from(vec![0u8; 200]), "t", "e");
    cache.put("b", Bytes::from(vec![0u8; 200]), "t", "e");
    assert!(cache.get("a").is_some());
    cache.put("a", Bytes::from(vec![1u8; 200]), "t", "e2");
    assert!(cache.get("b").is_some());
    let (data, content_type, etag) = cache.get("a").unwrap();
    assert_eq!(data, Bytes::from(vec![1u8; 200]));
    assert_eq!((content_type.as_str(), etag.as_str()), ("t", "e2"));
    assert_eq!(cache.entry_count(), 2);
    assert_eq!(cache.current_size_bytes(), 400);
}

#[test]
fn on_demand_playlists_are_cached_like_segments() {
    let mut cache = ObjectCache::new(&test_config());
    let key = "stream/high/media.m3u8";
    let vod = Bytes::from("#EXTM3U\n#EXT-X-PLAYLIST-TYPE:VOD\n#EXT-X-ENDLIST\n");
    let live = Bytes::from("#EXTM3U\n");
    assert_eq!(cache.ttl_for_object(key, &vod), 3600);
    assert_eq!(cache.ttl_for_object(key, &live), 1);
    assert_eq!(cache.ttl_for_object("stream/master.m3u8", &vod), 300);
    assert_eq!(cache.ttl_for_object(key, &Bytes::from_static(&[0xFF])), 1);
    cache.put_at(key, vod, "t", "e", 0);
    assert!(cache.get_at(key, 3_600_000_000_000).is_some());
    assert!(cache.get_at(key, 3_600_000_000_001).is_none());
    cache.put_at(key, live, "t", "e", 0);
    assert!(cache.get_at(key, 1_000_000_001).is_none());
}

#[test]
fn replies_before_the_calendar_are_dated_now() {
    let o = listed_object_at(None, None, Some((-8_334_601_228_800, 0)), 42);
    assert_eq!(o.last_modified, -8_334_601_228_800_000_000_000);
    let o = listed_object_at(None, None, Some((-8_334_601_228_801, 0)), 42);
    assert_eq!(o.last_modified, 42);
    let o = listed_object_at(None, None, Some((8_210_266_876_799, 0)), 42);
    assert_eq!(o.last_modified, 8_210_266_876_799_000_000_000);
    let o = listed_object_at(None, None, Some((8_210_266_876_800, 0)), 42);
    assert_eq!(o.last_modified, 42);
}

fn object(key: String, last_modified: i128) -> ObjectInfo {
    ObjectInfo {
        key,
        size: 1,
        last_modified,
    }
}

#[test]
fn cleanups_spare_references_and_pass_over_failures() {
    let start: i128 = 1_700_000_000_000_000_000;
    let now = start + 25 * HOUR_NS;
    let mut manager = StreamStateManager::new();
    let live = StreamId::new();
    let id = live.to_text();

    let (mut session, action) = CleanupSession::begin(60, now);
    assert!(matches!(action, SweepAction::ListStreams(StreamState::Live)));
    manager.create_stream_at(live, IngestMode::Live, start);
    manager.transition_at(live, StreamState::Live, start).unwrap();
    let action = session.next(SweepEvent::Streams(
        manager.list_streams(Some(StreamState::Live)),
    ));
    assert!(matches!(action, SweepAction::ListObjects { prefix } if prefix == format!("{id}/")));
    let action = session.next(SweepEvent::Objects(vec![
        object(format!("{id}/high/000001.m4s"), start),
        object(format!("{id}/high/000002.m4s"), start),
        object(format!("{id}/high/000003.m4s"), now - 1_000_000_000),
        object(format!("{id}/high/init.mp4"), start),
        object(format!("{id}/high/media.m3u8"), start),
        object(format!("{id}/low/000002.m4s"), start),
        object(format!("{id}/low/media.m3u8"), start),
    ]));
    assert!(
        matches!(action, SweepAction::ReadObject { key } if key == format!("{id}/high/media.m3u8"))
    );
    let action = session.next(SweepEvent::Playlist(Bytes::from_static(
        b"#EXTM3U\n000002.m4s\n",
    )));
    assert!(
        matches!(action, SweepAction::ReadObject { key } if key == format!("{id}/low/media.m3u8"))
    );
    let action = session.next(SweepEvent::Failed);
    assert!(
        matches!(action, SweepAction::DeleteObject { key } if key == format!("{id}/high/000001.m4s"))
    );
    let action = session.next(SweepEvent::Failed);
    assert!(
        matches!(action, SweepAction::DeleteObject { key } if key == format!("{id}/low/000002.m4s"))
    );
    let action = session.next(SweepEvent::Done);
    assert!(matches!(action, SweepAction::ListStreams(StreamState::Error)));
}

#[test]
fn cleanups_delete_objects_before_their_stream() {
    let start: i128 = 1_700_000_000_000_000_000;
    let now = start + 24 * HOUR_NS;
    let mut manager = StreamStateManager::new();
    for at in [start, start, start + 1] {
        let id = StreamId::new();
        manager.create_stream_at(id, IngestMode::Live, start);
        manager
            .transition_to_error_at(id, "gone".to_string(), at)
            .unwrap();
    }
    let (mut session, _) = CleanupSession::begin(60, now);
    let action = session.next(SweepEvent::Streams(Vec::new()));
    assert!(matches!(action, SweepAction::ListStreams(StreamState::Error)));
    let failed = manager.list_streams(Some(StreamState::Error));
    let old: Vec<StreamId> = failed
        .iter()
        .filter(|s| s.metadata.ended_at == Some(start))
        .map(|s| s.metadata.stream_id)
        .collect();
    assert_eq!(old.len(), 2);
    let action = session.next(SweepEvent::Streams(failed));
    let prefix_of_first = format!("{}/", old[0].to_text());
    assert!(matches!(action, SweepAction::DeletePrefix { prefix } if prefix == prefix_of_first));
    let action = session.next(SweepEvent::Failed);
    let prefix_of_second = format!("{}/", old[1].to_text());
    assert!(matches!(action, SweepAction::DeletePrefix { prefix } if prefix == prefix_of_second));
    let action = session.next(SweepEvent::Done);
    assert!(matches!(action, SweepAction::MarkDeleted { stream_id } if stream_id == old[1]));
    manager
        .transition_at(old[1], StreamState::Deleted, start)
        .unwrap();
    let action = session.next(SweepEvent::Done);
    assert!(matches!(action, SweepAction::ListStreams(StreamState::Deleted)));
    let deleted = manager.list_streams(Some(StreamState::Deleted));
    let action = session.next(SweepEvent::Streams(deleted));
    assert!(matches!(action, SweepAction::Forget { stream_id } if stream_id == old[1]));
    let action = session.next(SweepEvent::Done);
    assert!(matches!(action, SweepAction::Finish));
}
