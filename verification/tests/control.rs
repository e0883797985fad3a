use streaminfa::common::error::StateError;
use streaminfa::common::types::{
    AudioCodec, Container, FrameRate, IngestMode, MediaInfo, Share, StreamId, VideoCodec,
};
use streaminfa::control::drain::{drain_step, DrainStep};
use streaminfa::control::events::{handle_event, handle_event_at, PipelineEvent};
use streaminfa::control::pipeline::create_pipeline_metrics;
use streaminfa::control::state::{RenditionState, StreamState, StreamStateManager};
use streaminfa::observability::metrics::MetricChange;

#[test]
fn test_live_stream_lifecycle() {
    let mut manager = StreamStateManager::new();
    let stream_id = StreamId::new();

    let entry = manager.create_stream(stream_id, IngestMode::Live);
    assert_eq!(entry.state, StreamState::Pending);

    let entry = manager.transition(stream_id, StreamState::Live).unwrap();
    assert_eq!(entry.state, StreamState::Live);
    assert!(entry.metadata.started_at.is_some());

    let entry = manager
        .transition(stream_id, StreamState::Processing)
        .unwrap();
    assert_eq!(entry.state, StreamState::Processing);

    let entry = manager.transition(stream_id, StreamState::Ready).unwrap();
    assert_eq!(entry.state, StreamState::Ready);
    assert!(entry.metadata.ended_at.is_some());

    let entry = manager.transition(stream_id, StreamState::Deleted).unwrap();
    assert_eq!(entry.state, StreamState::Deleted);
}

#[test]
fn test_vod_stream_lifecycle() {
    let mut manager = StreamStateManager::new();
    let stream_id = StreamId::new();
    manager.create_stream(stream_id, IngestMode::Vod);

    let entry = manager
        .transition(stream_id, StreamState::Processing)
        .unwrap();
    assert_eq!(entry.state, StreamState::Processing);

    let entry = manager.transition(stream_id, StreamState::Ready).unwrap();
    assert_eq!(entry.state, StreamState::Ready);
}

#[test]
fn test_invalid_transition_vod_to_live() {
    let mut manager = StreamStateManager::new();
    let stream_id = StreamId::new();
    manager.create_stream(stream_id, IngestMode::Vod);
    let result = manager.transition(stream_id, StreamState::Live);
    assert!(result.is_err());
}

#[test]
fn test_error_from_any_state() {
    let mut manager = StreamStateManager::new();
    let stream_id = StreamId::new();
    manager.create_stream(stream_id, IngestMode::Live);

    let entry = manager
        .transition_to_error(stream_id, "test error".to_string())
        .unwrap();
    assert_eq!(entry.state, StreamState::Error);
    assert_eq!(entry.error_message.as_deref(), Some("test error"));
}

#[test]
fn test_error_from_live_state() {
    let mut manager = StreamStateManager::new();
    let stream_id = StreamId::new();
    manager.create_stream(stream_id, IngestMode::Live);
    manager.transition(stream_id, StreamState::Live).unwrap();

    let entry = manager
        .transition_to_error(stream_id, "ffmpeg crash".to_string())
        .unwrap();
    assert_eq!(entry.state, StreamState::Error);
}

#[test]
fn test_cannot_error_from_deleted() {
    let mut manager = StreamStateManager::new();
    let stream_id = StreamId::new();
    manager.create_stream(stream_id, IngestMode::Live);
    manager.transition(stream_id, StreamState::Live).unwrap();
    manager
        .transition(stream_id, StreamState::Processing)
        .unwrap();
    manager.transition(stream_id, StreamState::Ready).unwrap();
    manager.transition(stream_id, StreamState::Deleted).unwrap();

    let result = manager.transition_to_error(stream_id, "should fail".to_string());
    assert!(result.is_err());
}

#[test]
fn test_stream_not_found() {
    let mut manager = StreamStateManager::new();
    let stream_id = StreamId::new();
    let result = manager.transition(stream_id, StreamState::Live);
    assert!(result.is_err());
}

#[test]
fn test_list_streams_with_filter() {
    let mut manager = StreamStateManager::new();
    let id1 = StreamId::new();
    let id2 = StreamId::new();

    manager.create_stream(id1, IngestMode::Live);
    manager.create_stream(id2, IngestMode::Vod);
    manager.transition(id1, StreamState::Live).unwrap();

    let pending = manager.list_streams(Some(StreamState::Pending));
    assert_eq!(pending.len(), 1);

    let live = manager.list_streams(Some(StreamState::Live));
    assert_eq!(live.len(), 1);

    let all = manager.list_streams(None);
    assert_eq!(all.len(), 2);
}

#[test]
fn test_list_streams_paginated_returns_page_and_total() {
    let mut manager = StreamStateManager::new();
    manager.create_stream(StreamId::new(), IngestMode::Live);
    manager.create_stream(StreamId::new(), IngestMode::Vod);
    manager.create_stream(StreamId::new(), IngestMode::Vod);

    let (page1, total1) = manager.list_streams_paginated(None, 0, 2);
    assert_eq!(total1, 3);
    assert_eq!(page1.len(), 2);

    let (page2, total2) = manager.list_streams_paginated(None, 2, 2);
    assert_eq!(total2, 3);
    assert_eq!(page2.len(), 1);
}

#[test]
fn test_get_stream_state_no_clone() {
    let mut manager = StreamStateManager::new();
    let stream_id = StreamId::new();

    assert_eq!(manager.get_stream_state(stream_id), None);

    manager.create_stream(stream_id, IngestMode::Live);
    assert_eq!(
        manager.get_stream_state(stream_id),
        Some(StreamState::Pending)
    );

    manager.transition(stream_id, StreamState::Live).unwrap();
    assert_eq!(manager.get_stream_state(stream_id), Some(StreamState::Live));
}

#[test]
fn refused_changes_name_both_states() {
    let mut manager = StreamStateManager::new();
    let id = StreamId::new();
    match manager.transition(id, StreamState::Live) {
        Err(StateError::StreamNotFound { stream_id }) => assert_eq!(stream_id, id),
        _ => panic!("an unknown stream must be refused"),
    }
    manager.create_stream(id, IngestMode::Live);
    match manager.transition(id, StreamState::Ready) {
        Err(StateError::InvalidTransition {
            stream_id,
            from,
            to,
        }) => {
            assert_eq!(stream_id, id);
            assert_eq!(from, "pending");
            assert_eq!(to, "ready");
        }
        _ => panic!("pending streams are not ready"),
    }
}

#[test]
fn last_rendition_makes_the_stream_ready() {
    let mut manager = StreamStateManager::new();
    let id = StreamId::new();
    manager.create_stream(id, IngestMode::Vod);
    manager.transition(id, StreamState::Processing).unwrap();
    manager.set_expected_renditions(id, 2);
    manager.update_rendition_progress(id, "high", 0);
    manager.update_rendition_progress(id, "high", 1);

    let entry = manager.mark_rendition_complete(id, "high").unwrap();
    assert_eq!(entry.state, StreamState::Processing);
    assert_eq!(entry.renditions.len(), 1);
    assert_eq!(entry.renditions[0].status, RenditionState::Complete);

    manager.update_rendition_progress(id, "low", 0);
    let entry = manager.mark_rendition_complete(id, "low").unwrap();
    assert_eq!(entry.state, StreamState::Ready);
    assert!(manager.mark_rendition_complete(StreamId::new(), "low").is_none());
}

#[test]
fn gauges_count_the_streams_of_each_state() {
    let mut manager = StreamStateManager::new();
    let a = StreamId::new();
    let b = StreamId::new();
    manager.create_stream(a, IngestMode::Live);
    manager.create_stream(b, IngestMode::Live);
    manager.transition(a, StreamState::Live).unwrap();
    let gauges = manager.update_stream_gauges();
    assert_eq!(gauges.len(), 6);
    for g in &gauges {
        let want = match g.labels[0].1.as_str() {
            "pending" | "live" => 1,
            _ => 0,
        };
        assert_eq!(g.change, MetricChange::GaugeSet(want));
    }
    assert!(manager.remove_stream(b));
    assert!(!manager.remove_stream(b));
    assert_eq!(
        manager.update_stream_gauges()[0].change,
        MetricChange::GaugeSet(0)
    );
}

fn media_info(stream_id: StreamId) -> MediaInfo {
    MediaInfo {
        stream_id,
        video_codec: VideoCodec::H264,
        video_width: 1280,
        video_height: 720,
        video_bitrate_kbps: None,
        frame_rate: FrameRate { num: 25, den: 1 },
        audio_codec: Some(AudioCodec::Aac),
        audio_sample_rate: Some(48_000),
        audio_channels: Some(2),
        audio_bitrate_kbps: None,
        duration_micros: None,
        container: Container::Flv,
    }
}

#[test]
fn events_drive_a_live_stream() {
    let mut manager = StreamStateManager::new();
    let id = StreamId::new();
    manager.create_stream(id, IngestMode::Live);

    let out = handle_event(
        &mut manager,
        PipelineEvent::StreamStarted {
            stream_id: id,
            media_info: media_info(id),
        },
    );
    assert!(out.refusal.is_none());
    assert_eq!(
        out.metadata_path,
        Some(format!("{}/metadata.json", id.to_text()))
    );
    let entry = manager.get_stream(id).unwrap();
    assert_eq!(entry.state, StreamState::Live);
    assert_eq!(entry.metadata.media_info.unwrap().video_width, 1280);

    let out = handle_event(
        &mut manager,
        PipelineEvent::SegmentProduced {
            stream_id: id,
            rendition: "high".to_string(),
            sequence: 7,
        },
    );
    assert!(out.metadata_path.is_none() && out.metric.is_none() && out.refusal.is_none());
    assert_eq!(manager.get_stream(id).unwrap().renditions.len(), 1);

    handle_event(&mut manager, PipelineEvent::StreamEnded { stream_id: id });
    assert_eq!(
        manager.get_stream_state(id),
        Some(StreamState::Processing)
    );
    handle_event(
        &mut manager,
        PipelineEvent::RenditionComplete {
            stream_id: id,
            rendition: "high".to_string(),
        },
    );
    assert_eq!(
        manager.get_stream_state(id),
        Some(StreamState::Processing)
    );
}

#[test]
fn events_that_do_not_fit_are_refused() {
    let mut manager = StreamStateManager::new();
    let id = StreamId::new();
    let out = handle_event(&mut manager, PipelineEvent::StreamEnded { stream_id: id });
    assert!(matches!(
        out.refusal,
        Some(StateError::StreamNotFound { .. })
    ));

    manager.create_stream(id, IngestMode::Live);
    let out = handle_event(&mut manager, PipelineEvent::StreamEnded { stream_id: id });
    assert!(matches!(
        out.refusal,
        Some(StateError::InvalidTransition { .. })
    ));

    let out = handle_event(
        &mut manager,
        PipelineEvent::StreamError {
            stream_id: id,
            error: "encoder died".to_string(),
        },
    );
    assert!(out.refusal.is_none());
    assert_eq!(
        manager.get_stream(id).unwrap().error_message.as_deref(),
        Some("encoder died")
    );
}

#[test]
fn progress_is_measured() {
    let mut manager = StreamStateManager::new();
    let id = StreamId::new();
    let out = handle_event_at(
        &mut manager,
        PipelineEvent::VodProgress {
            stream_id: id,
            share: Share {
                part: 1,
                whole: 8,
            },
        },
        1_700_000_000_000,
    );
    let metric = out.metric.unwrap();
    assert_eq!(metric.name, "streaminfa_vod_progress_percent");
    assert_eq!(metric.labels, vec![("stream_id", id.to_text())]);
    assert_eq!(
        metric.change,
        MetricChange::GaugePercent(Share {
            part: 1,
            whole: 8,
        })
    );
}

#[test]
fn new_pipelines_are_measured() {
    let metrics = create_pipeline_metrics();
    let names: Vec<String> = metrics.iter().map(|m| m.labels[0].1.clone()).collect();
    assert_eq!(
        names,
        vec!["ingest_transcode", "transcode_packager", "packager_storage"]
    );
}

#[test]
fn test_wait_for_state_drain_immediate_when_empty() {
    let manager = StreamStateManager::new();
    assert_eq!(
        drain_step(&manager, StreamState::Live, 0, 1),
        DrainStep::Complete
    );
}

#[test]
fn test_wait_for_state_drain_times_out_when_state_remains() {
    let mut manager = StreamStateManager::new();
    let stream_id = StreamId::new();
    manager.create_stream(stream_id, IngestMode::Live);
    manager.transition(stream_id, StreamState::Live).unwrap();

    assert_eq!(
        drain_step(&manager, StreamState::Live, 0, 1),
        DrainStep::Wait { ms: 250 }
    );
    assert_eq!(
        drain_step(&manager, StreamState::Live, 999, 1),
        DrainStep::Wait { ms: 250 }
    );
    assert_eq!(
        drain_step(&manager, StreamState::Live, 1000, 1),
        DrainStep::TimedOut
    );
    assert_eq!(
        drain_step(&manager, StreamState::Processing, 1000, 1),
        DrainStep::Complete
    );
}

#[test]
fn pages_make_up_the_list() {
    let mut manager = StreamStateManager::new();
    for _ in 0..7 {
        manager.create_stream(StreamId::new(), IngestMode::Live);
    }
    let whole: Vec<String> = manager
        .list_streams(None)
        .iter()
        .map(|e| e.metadata.stream_id.to_text())
        .collect();
    let mut sorted = whole.clone();
    sorted.sort();
    assert_eq!(whole, sorted);
    let mut pages: Vec<String> = Vec::new();
    for offset in [0, 3, 6] {
        let (page, total) = manager.list_streams_paginated(None, offset, 3);
        assert_eq!(total, 7);
        pages.extend(page.iter().map(|e| e.metadata.stream_id.to_text()));
    }
    assert_eq!(pages, whole);
}
