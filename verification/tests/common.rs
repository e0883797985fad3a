use streaminfa::common::config::{split_list, AppConfig};
use streaminfa::common::error::{
    IngestError, PackageError, StateError, StorageError, TranscodeError,
};
use streaminfa::common::metrics::{
    describe_backpressure_metrics, measure_after_send, measure_before_send,
    record_channel_metrics,
};
use streaminfa::common::redact::{
    is_sensitive_field, redact_bearer_token, redact_stream_key, Redacted,
};
use streaminfa::common::security::{validate_metadata, validate_resolution};
use streaminfa::common::types::{RenditionId, StreamId};
use streaminfa::observability::metrics::{
    classify_object_type, describe_all_metrics, inc_auth_failure, inc_ingest_connections,
    MetricChange, MetricKind,
};
use streaminfa::observability::redact_layer::{
    check_event_for_sensitive_fields, shown_value, SensitiveFieldDetector,
};

#[test]
fn test_redacted_display() {
    let secret = Redacted::new("super_secret_value");
    assert_eq!(secret.to_string(), "[REDACTED]");
}

#[test]
fn test_redacted_debug() {
    let secret = Redacted::new("super_secret_value");
    assert_eq!(secret.to_debug_string(), "[REDACTED]");
}

#[test]
fn test_redact_stream_key() {
    assert_eq!(
        redact_stream_key("sk_a1b2c3d4e5f6g7h8i9j0k1l2"),
        "sk_a1b***"
    );
    assert_eq!(redact_stream_key("sk_a"), "****");
    assert_eq!(redact_stream_key("abc"), "****");
}

#[test]
fn test_redact_bearer_token() {
    assert_eq!(redact_bearer_token("Bearer at_abc123"), "Bearer [REDACTED]");
    assert_eq!(redact_bearer_token("some_other"), "[REDACTED]");
}

#[test]
fn test_is_sensitive_field() {
    assert!(is_sensitive_field("auth_token"));
    assert!(is_sensitive_field("stream_key"));
    assert!(is_sensitive_field("secret_access_key"));
    assert!(is_sensitive_field("password"));
    assert!(is_sensitive_field("Authorization"));
    assert!(!is_sensitive_field("stream_id"));
    assert!(!is_sensitive_field("status"));
}

#[test]
fn test_valid_resolution() {
    assert!(validate_resolution(1920, 1080).is_ok());
    assert!(validate_resolution(1, 1).is_ok());
    assert!(validate_resolution(3840, 2160).is_ok());
}

#[test]
fn security_test_invalid_resolution_zero() {
    assert!(validate_resolution(0, 1080).is_err());
    assert!(validate_resolution(1920, 0).is_err());
}

#[test]
fn security_test_invalid_resolution_too_large() {
    assert!(validate_resolution(3841, 2160).is_err());
    assert!(validate_resolution(3840, 2161).is_err());
}

#[test]
fn test_valid_metadata() {
    let meta = vec![
        ("title".to_string(), "My Stream".to_string()),
        ("category".to_string(), "gaming".to_string()),
    ];
    assert!(validate_metadata(&meta).is_ok());
}

#[test]
fn test_metadata_key_too_long() {
    let meta = vec![("k".repeat(65), "value".to_string())];
    assert!(validate_metadata(&meta).is_err());
}

#[test]
fn test_metadata_value_too_long() {
    let meta = vec![("key".to_string(), "v".repeat(1025))];
    assert!(validate_metadata(&meta).is_err());
}

#[test]
fn test_metadata_too_many_entries() {
    let mut meta = Vec::new();
    for i in 0..51 {
        meta.push((format!("key_{}", i), "value".to_string()));
    }
    assert!(validate_metadata(&meta).is_err());
}

#[test]
fn metadata_errors_tell_what_is_wrong() {
    let mut meta: Vec<(String, String)> = Vec::new();
    for i in 0..51 {
        meta.push((format!("key_{}", i), "value".to_string()));
    }
    assert_eq!(
        validate_metadata(&meta),
        Err("too many metadata entries: 51 (max 50)".to_string())
    );
    meta.truncate(50);
    assert_eq!(validate_metadata(&meta), Ok(()));
    meta[3].1 = "v".repeat(1025);
    assert_eq!(
        validate_metadata(&meta),
        Err("metadata value for key 'key_3' exceeds max length 1024 chars".to_string())
    );
}

#[test]
fn limits_count_characters() {
    let meta = vec![("é".repeat(64), "ü".repeat(1024))];
    assert!(validate_metadata(&meta).is_ok());
}

#[test]
fn test_utilization_tracking() {
    let m = record_channel_metrics("test_chan", 4, 8);
    assert_eq!(m.name, "streaminfa_channel_utilization");
    assert_eq!(m.change, MetricChange::GaugeRatio { part: 4, whole: 8 });
}

#[test]
fn sends_are_measured() {
    let before = measure_before_send("test", 1, 4);
    assert_eq!(before.change, MetricChange::GaugeRatio { part: 3, whole: 4 });
    let quick = measure_after_send("test", 50_000_000, 4, 4);
    let slow = measure_after_send("test", 150_000_000, 0, 4);
    assert_eq!(slow.len(), quick.len() + 1);
    assert!(slow
        .iter()
        .any(|m| m.name == "streaminfa_backpressure_events_total"));
}

#[test]
fn test_classify_object_type() {
    assert_eq!(classify_object_type("stream/master.m3u8"), "manifest");
    assert_eq!(classify_object_type("stream/high/media.m3u8"), "manifest");
    assert_eq!(classify_object_type("stream/high/init.mp4"), "init");
    assert_eq!(
        classify_object_type("stream/high/seg_000001.m4s"),
        "segment"
    );
    assert_eq!(classify_object_type("stream/metadata.json"), "metadata");
}

#[test]
fn test_sensitive_field_detector() {
    let detector = SensitiveFieldDetector::new();
    assert!(!detector.found_sensitive);
    assert!(detector.field_names.is_empty());
}

#[test]
fn sensitive_fields_are_collected() {
    let detector = check_event_for_sensitive_fields(&vec![
        "stream_id".to_string(),
        "Stream_Key".to_string(),
        "status".to_string(),
        "password".to_string(),
    ]);
    assert!(detector.found_sensitive);
    assert_eq!(detector.field_names, vec!["Stream_Key", "password"]);
}

#[test]
fn metrics_are_described_once() {
    let mut names: Vec<&str> = describe_all_metrics().iter().map(|d| d.name).collect();
    let n = names.len();
    names.sort();
    names.dedup();
    assert_eq!(names.len(), n);
    assert!(!describe_backpressure_metrics().is_empty());
    let m = inc_ingest_connections("rtmp");
    let d = describe_all_metrics();
    let found = d.iter().find(|d| d.name == m.name).unwrap();
    assert_eq!(found.kind, MetricKind::Counter);
}

#[test]
fn errors_describe_themselves() {
    let id = StreamId::from_uuid(0x018f_0000_0000_7000_8000_0000_0000_0001);
    let text = id.to_text();
    assert_eq!(text, "018f0000-0000-7000-8000-000000000001");
    let cases: Vec<(IngestError, String)> = vec![
        (
            IngestError::HandshakeTimeout { timeout_secs: 5 },
            "RTMP handshake timeout after 5s".to_string(),
        ),
        (
            IngestError::InvalidRtmpVersion { version: 6 },
            "invalid RTMP version: expected 3, got 6".to_string(),
        ),
        (
            IngestError::ConnectionReset { stream_id: id },
            format!("RTMP connection reset for stream {}", text),
        ),
        (
            IngestError::UploadTooLarge {
                size_bytes: 11,
                max_bytes: 10,
            },
            "upload too large: 11 bytes exceeds limit 10 bytes".to_string(),
        ),
        (
            IngestError::InvalidResolution {
                width: 0,
                height: 9,
            },
            "invalid resolution: 0x9".to_string(),
        ),
        (
            IngestError::DurationExceeded {
                duration_micros: 30_000_000_000,
                max_micros: 21_600_500_000,
            },
            "duration exceeded: 30000s exceeds limit 21600.5s".to_string(),
        ),
    ];
    for (e, want) in cases {
        assert_eq!(e.message(), want);
    }
    assert_eq!(
        TranscodeError::ConsecutiveDecodeErrors {
            stream_id: id,
            count: 10
        }
        .message(),
        format!("consecutive decode errors (10) for stream {}", text)
    );
    assert_eq!(
        StorageError::S3GetFailed {
            path: "a/b".to_string(),
            reason: "not found".to_string()
        }
        .message(),
        "S3 GET failed for path a/b: not found"
    );
    assert_eq!(
        StateError::StreamNotFound { stream_id: id }.message(),
        format!("stream not found: {}", text)
    );
    let _: Option<PackageError> = None;
}

#[test]
fn identifiers_are_fresh_and_read_back() {
    let a = StreamId::new();
    let b = StreamId::new();
    assert_ne!(a, b);
    let parsed = uuid::Uuid::parse_str(&a.to_text()).unwrap();
    assert_eq!(parsed.get_version_num(), 7);
    assert_eq!(StreamId::from_uuid(parsed.as_u128()), a);
    assert_eq!(RenditionId::High.as_str(), "high");
}

#[test]
fn default_configuration_holds_the_ladder() {
    let config = AppConfig::default();
    assert_eq!(config.transcode.profile_ladder.len(), 3);
    assert_eq!(config.transcode.keyframe_interval_secs, 2);
    assert_eq!(split_list("a, b ,,c"), vec!["a", "b", "", "c"]);
}

#[test]
fn sensitive_values_are_not_shown() {
    assert_eq!(shown_value("Stream_KEY", "sk_1"), "[REDACTED]");
    assert_eq!(shown_value("status", "live"), "live");
}

#[test]
fn refused_requests_are_counted() {
    let m = inc_auth_failure("http", "list_streams", "invalid_token");
    assert_eq!(m.name, "streaminfa_auth_failures_total");
    assert_eq!(m.labels[1], ("endpoint", "list_streams".to_string()));
    assert_eq!(m.labels[2], ("reason", "invalid_token".to_string()));
    assert_eq!(m.change, MetricChange::CounterAdd(1));
}
