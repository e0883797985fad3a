use bytes::{Bytes, BytesMut};

use streaminfa::common::config::IngestConfig;
use streaminfa::common::error::IngestError;
use streaminfa::common::security;
use streaminfa::common::types::{
    AudioCodec, Container, FrameRate, IngestMode, StreamId, VideoCodec,
};
use streaminfa::control::state::{StreamState, StreamStateManager};
use streaminfa::ingest::demuxer::FlvDemuxer;
use streaminfa::ingest::http_upload::{
    build_error_response, detect_container, ingest_error_to_status_code, is_file_part,
    probe_demuxed, probe_placeholder, source_of, AudioFacts, HttpUploadHandler, ReceiveFault,
    UploadAction, UploadEvent, UploadMeter, UploadPhase, UploadSession, VideoFacts, VodFeeder,
};
use streaminfa::ingest::rtmp::{
    check_version, command_result, connect_result, create_stream_result, handshake_response,
    parse_amf_command, process_command, write_rtmp_message, ChunkReader, CommandStep, Progress,
    RtmpCommand, RtmpMessage, RtmpMessageType,
};
use streaminfa::ingest::session::{begin_live_stream, end_live_stream, DemuxLoop, LoopStep};
use streaminfa::ingest::validator::{validate_rtmp_codecs, validate_upload, ProbeResult};

#[test]
fn test_normalize_pts() {
    let mut demuxer = FlvDemuxer::new(StreamId::new());

    assert_eq!(demuxer.normalize_pts(90000), 0);
    assert_eq!(demuxer.normalize_pts(180000), 90000);
    assert_eq!(demuxer.normalize_pts(270000), 180000);
}

#[test]
fn test_audio_specific_config_parsing() {
    let mut demuxer = FlvDemuxer::new(StreamId::new());

    let config = [0x12, 0x10];
    demuxer.parse_audio_specific_config(&config).unwrap();
    assert_eq!(demuxer.audio_sample_rate, 44100);
    assert_eq!(demuxer.audio_channels, 2);
}

#[test]
fn test_audio_specific_config_48khz() {
    let mut demuxer = FlvDemuxer::new(StreamId::new());

    let config = [0x11, 0x90];
    demuxer.parse_audio_specific_config(&config).unwrap();
    assert_eq!(demuxer.audio_sample_rate, 48000);
    assert_eq!(demuxer.audio_channels, 2);
}

#[test]
fn test_extract_nalus_keyframe() {
    let demuxer = FlvDemuxer::new(StreamId::new());

    let data = [0x00, 0x00, 0x00, 0x03, 0x65, 0xAA, 0xBB];

    let (keyframe, output) = demuxer.extract_nalus(&data).unwrap();
    assert!(keyframe);
    assert_eq!(&output[..4], &[0x00, 0x00, 0x00, 0x01]);
    assert_eq!(&output[4..], &[0x65, 0xAA, 0xBB]);
}

#[test]
fn test_extract_nalus_non_keyframe() {
    let demuxer = FlvDemuxer::new(StreamId::new());

    let data = [0x00, 0x00, 0x00, 0x02, 0x41, 0xCC];

    let (keyframe, _output) = demuxer.extract_nalus(&data).unwrap();
    assert!(!keyframe);
}

#[test]
fn test_extract_nalus_corrupt() {
    let demuxer = FlvDemuxer::new(StreamId::new());

    let data = [0x00, 0x00, 0x00, 0xFF, 0x65];

    assert!(demuxer.extract_nalus(&data).is_err());
}

fn default_config() -> IngestConfig {
    IngestConfig {
        max_bitrate_kbps: 20000,
        max_upload_size_bytes: 10_737_418_240,
        allowed_codecs: vec!["h264".to_string()],
        allowed_audio_codecs: vec!["aac".to_string(), "mp3".to_string()],
        max_duration_micros: 21_600_000_000,
        upload_timeout_secs: 60,
        max_concurrent_rtmp_connections: 50,
        max_concurrent_live_streams: 10,
        max_concurrent_uploads: 10,
        max_pending_connections: 100,
    }
}

fn valid_probe() -> ProbeResult {
    ProbeResult {
        container: Container::Mp4,
        video_codec: VideoCodec::H264,
        video_width: 1920,
        video_height: 1080,
        frame_rate: FrameRate { num: 30, den: 1 },
        audio_codec: Some(AudioCodec::Aac),
        audio_sample_rate: Some(44100),
        audio_channels: Some(2),
        duration_micros: Some(600_000_000),
        video_bitrate_kbps: Some(3500),
        audio_bitrate_kbps: Some(128),
    }
}

#[test]
fn test_valid_upload() {
    let config = default_config();
    let probe = valid_probe();
    assert!(validate_upload(&probe, &config).is_ok());
}

#[test]
fn test_unsupported_container() {
    let config = default_config();
    let mut probe = valid_probe();
    probe.container = Container::Flv;
    assert!(matches!(
        validate_upload(&probe, &config),
        Err(IngestError::UnsupportedFormat { .. })
    ));
}

#[test]
fn test_duration_exceeded() {
    let config = default_config();
    let mut probe = valid_probe();
    probe.duration_micros = Some(30_000_000_000);
    assert!(matches!(
        validate_upload(&probe, &config),
        Err(IngestError::DurationExceeded { .. })
    ));
}

#[test]
fn validator_test_invalid_resolution_zero() {
    let config = default_config();
    let mut probe = valid_probe();
    probe.video_width = 0;
    assert!(matches!(
        validate_upload(&probe, &config),
        Err(IngestError::InvalidResolution { .. })
    ));
}

#[test]
fn validator_test_invalid_resolution_too_large() {
    let config = default_config();
    let mut probe = valid_probe();
    probe.video_width = 7680;
    probe.video_height = 4320;
    assert!(matches!(
        validate_upload(&probe, &config),
        Err(IngestError::InvalidResolution { .. })
    ));
}

#[test]
fn test_no_audio_is_valid() {
    let config = default_config();
    let mut probe = valid_probe();
    probe.audio_codec = None;
    assert!(validate_upload(&probe, &config).is_ok());
}

#[test]
fn test_mkv_container_valid() {
    let config = default_config();
    let mut probe = valid_probe();
    probe.container = Container::Mkv;
    assert!(validate_upload(&probe, &config).is_ok());
}

#[test]
fn test_rtmp_codec_validation() {
    assert!(validate_rtmp_codecs(7, Some(10)).is_ok());
    assert!(validate_rtmp_codecs(7, Some(2)).is_ok());
    assert!(validate_rtmp_codecs(7, None).is_ok());
    assert!(validate_rtmp_codecs(4, Some(10)).is_err());
    assert!(validate_rtmp_codecs(7, Some(5)).is_err());
}

#[test]
fn codecs_that_are_not_allowed_are_refused() {
    let mut config = default_config();
    config.allowed_audio_codecs = vec!["mp3".to_string()];
    match validate_upload(&valid_probe(), &config) {
        Err(IngestError::UnsupportedCodec { codec }) => assert_eq!(codec, "aac"),
        _ => panic!("aac is not allowed"),
    }
    config.allowed_codecs = Vec::new();
    match validate_upload(&valid_probe(), &config) {
        Err(IngestError::UnsupportedCodec { codec }) => assert_eq!(codec, "h264"),
        _ => panic!("h264 is not allowed"),
    }
}

#[test]
fn test_probe_file_allows_large_file_and_detects_mp4() {
    let header = [
        0x00, 0x00, 0x00, 0x18, b'f', b't', b'y', b'p', b'i', b's', b'o', b'm',
    ];
    let probe = probe_placeholder((security::FFMPEG_PROBE_MAX_SIZE as u64) + 1, &header).unwrap();
    assert_eq!(probe.container, Container::Mp4);
}

#[test]
fn test_probe_file_rejects_unknown_magic() {
    let err = probe_placeholder(18, &b"not-a-media-header"[..12]).unwrap_err();
    assert!(matches!(err, IngestError::UnsupportedFormat { .. }));
}

#[test]
fn containers_are_told_by_their_first_bytes() {
    assert_eq!(
        detect_container(&[0x1A, 0x45, 0xDF, 0xA3]),
        Some(Container::Mkv)
    );
    assert_eq!(detect_container(b"\0\0\0\x18ftypiso"), None);
    match probe_placeholder(0, b"") {
        Err(IngestError::CorruptFile { reason }) => assert_eq!(reason, "file is empty"),
        _ => panic!("empty files are corrupt"),
    }
}

#[test]
fn demuxers_tell_of_files() {
    let video = VideoFacts {
        rate_numerator: 30_000,
        rate_denominator: 1001,
        width: 640,
        height: 360,
    };
    let p = probe_demuxed(
        "mov,mp4,m4a",
        1_500_000,
        Some(video),
        Some(AudioFacts { format: None }),
    )
    .unwrap();
    assert_eq!((p.frame_rate.num, p.frame_rate.den), (30_000, 1001));
    assert_eq!(p.duration_micros, Some(1_500_000));
    let odd = VideoFacts {
        rate_numerator: 30,
        rate_denominator: 7,
        width: 640,
        height: 360,
    };
    let q = probe_demuxed("mov,mp4", 21_600_000_500, Some(odd), None).unwrap();
    assert_eq!((q.frame_rate.num, q.frame_rate.den), (30, 7));
    let backwards = VideoFacts {
        rate_denominator: -7,
        ..odd
    };
    let q = probe_demuxed("mov,mp4", 21_600_000_500, Some(backwards), None).unwrap();
    assert_eq!((q.frame_rate.num, q.frame_rate.den), (30, -7));
    assert_eq!(q.duration_micros, Some(21_600_000_500));
    assert!(matches!(
        validate_upload(&q, &default_config()),
        Err(IngestError::DurationExceeded { .. })
    ));
    assert_eq!((p.audio_sample_rate, p.audio_channels), (Some(48_000), Some(2)));
    let p = probe_demuxed("matroska,webm", 0, Some(video), None).unwrap();
    assert_eq!(p.container, Container::Mkv);
    assert_eq!((p.duration_micros, p.audio_codec), (None, None));
    assert!(matches!(
        probe_demuxed("avi", 0, Some(video), None),
        Err(IngestError::UnsupportedFormat { .. })
    ));
    match probe_demuxed("mp4", 0, None, None) {
        Err(IngestError::UnsupportedFormat { format }) => assert_eq!(format, "no video stream"),
        _ => panic!("there is no video"),
    }
}

#[test]
fn uploads_are_accepted_or_refused() {
    let handler = HttpUploadHandler::new(default_config());
    let mut manager = StreamStateManager::new();
    let id = StreamId::new();
    assert_eq!(
        handler.temp_file_path(id),
        format!("/tmp/streaminfa/uploads/{}.tmp", id.to_text())
    );

    let r = handler
        .process_upload(&mut manager, id, 1000, Ok(valid_probe()))
        .unwrap();
    assert_eq!(r.stream_id, id.to_text());
    assert_eq!(r.status, "processing");
    assert_eq!(r.detected_codec, "h264");
    assert_eq!(r.detected_audio.as_deref(), Some("aac"));
    assert_eq!(r.resolution, "1920x1080");
    let entry = manager.get_stream(id).unwrap();
    assert_eq!(entry.state, StreamState::Processing);
    assert_eq!(entry.metadata.ingest_mode, IngestMode::Vod);
    assert_eq!(source_of(&manager, id), (1920, 1080, FrameRate { num: 30, den: 1 }));

    let other = StreamId::new();
    let e = handler
        .process_upload(&mut manager, other, 10_737_418_241, Ok(valid_probe()))
        .unwrap_err();
    assert!(e.remove_file);
    assert_eq!(ingest_error_to_status_code(&e.error), 413);
    let body = build_error_response(&e.error, Some(other));
    assert_eq!(body.error, "payload_too_large");
    assert_eq!(body.stream_id, Some(other.to_text()));

    let e = handler
        .process_upload(
            &mut manager,
            other,
            5,
            Err(IngestError::CorruptFile {
                reason: "x".to_string(),
            }),
        )
        .unwrap_err();
    assert!(!e.remove_file);
    assert_eq!(ingest_error_to_status_code(&e.error), 422);
    assert_eq!(build_error_response(&e.error, None).error, "corrupt_file");

    let mut flv = valid_probe();
    flv.container = Container::Flv;
    let e = handler
        .process_upload(&mut manager, other, 5, Ok(flv))
        .unwrap_err();
    assert!(e.remove_file);
    assert_eq!(ingest_error_to_status_code(&e.error), 415);
    assert!(manager.get_stream(other).is_none());
    assert_eq!(source_of(&manager, other), (1920, 1080, FrameRate { num: 30, den: 1 }));
}

#[test]
fn uploads_are_metered() {
    let mut meter = UploadMeter::new(10);
    assert!(meter.on_chunk(10).is_ok());
    let e = meter.on_chunk(1).unwrap_err();
    assert_eq!(e.status, 413);
    assert_eq!(e.message, "Upload exceeds max size (10 bytes).");
    assert!(is_file_part(Some("file"), false));
    assert!(is_file_part(None, true));
    assert!(!is_file_part(Some("title"), false));
    let e = ReceiveFault::NoFile.reply("");
    assert_eq!((e.status, e.error.as_str()), (400, "missing_file"));
    let e = ReceiveFault::WriteChunk.reply("disk full");
    assert_eq!(e.message, "Failed to write upload: disk full");
    assert!(ReceiveFault::WriteChunk.removes_file());
    assert!(!ReceiveFault::CreateFile.removes_file());
}

#[test]
fn files_are_fed_frame_by_frame() {
    let id = StreamId::new();
    let mut feeder = VodFeeder::new(id, 1920, 1080, 4);
    let (first, progress) = feeder.next_frame(b"a");
    assert!(first.keyframe);
    assert_eq!(first.pts, 0);
    assert_eq!((progress.part, progress.whole), (1, 4));
    let (second, progress) = feeder.next_frame(b"bcd");
    assert!(!second.keyframe);
    assert_eq!(second.pts, 3000);
    assert_eq!(&second.data[..], b"bcd");
    assert_eq!((progress.part, progress.whole), (4, 4));
    for _ in 2..60 {
        assert!(!feeder.next_frame(b"x").0.keyframe);
    }
    assert!(feeder.next_frame(b"x").0.keyframe);
}

#[test]
fn messages_are_read_back() {
    let mut buf = BytesMut::new();
    let payload: Vec<u8> = (0..300).map(|i| (i % 251) as u8).collect();
    write_rtmp_message(&mut buf, 9, 1, &payload);
    let mut reader = ChunkReader::new();
    reader.set_chunk_size(4096);
    let bytes: Vec<u8> = buf.to_vec();
    match reader.read_message(&bytes) {
        Progress::Done(message, consumed) => {
            assert_eq!(message.msg_type, RtmpMessageType::Video);
            assert_eq!(&message.data[..], &payload[..]);
            assert_eq!(consumed, bytes.len());
        }
        _ => panic!("the message is complete"),
    }
    assert!(matches!(
        reader.read_message(&bytes[..10].to_vec()),
        Progress::Need(_)
    ));
}

#[test]
fn handshakes_echo_the_client() {
    assert!(check_version(3).is_ok());
    assert!(matches!(
        check_version(6),
        Err(IngestError::InvalidRtmpVersion { version: 6 })
    ));
    let c1 = vec![7u8; 1536];
    let reply = handshake_response(&c1);
    assert_eq!(reply.len(), 1 + 1536 + 1536);
    assert_eq!(reply[0], 3);
    assert_eq!(&reply[1 + 1536..], &c1[..]);
}

#[test]
fn live_streams_begin_and_end() {
    let mut manager = StreamStateManager::new();
    let id = StreamId::new();
    begin_live_stream(&mut manager, id).unwrap();
    assert_eq!(manager.get_stream_state(id), Some(StreamState::Live));
    end_live_stream(&mut manager, id, &Ok(()));
    assert_eq!(
        manager.get_stream_state(id),
        Some(StreamState::Processing)
    );

    let failed = StreamId::new();
    begin_live_stream(&mut manager, failed).unwrap();
    end_live_stream(
        &mut manager,
        failed,
        &Err(IngestError::ConnectionReset { stream_id: failed }),
    );
    let entry = manager.get_stream(failed).unwrap();
    assert_eq!(entry.state, StreamState::Error);
    assert_eq!(
        entry.error_message,
        Some(format!(
            "RTMP connection reset for stream {}",
            failed.to_text()
        ))
    );
}

#[test]
fn uploads_run_their_course() {
    let (mut session, first) = UploadSession::begin(10);
    assert!(matches!(first, UploadAction::PrepareDir));
    assert!(matches!(
        session.next(UploadEvent::Done),
        UploadAction::CreateFile
    ));
    assert!(matches!(
        session.next(UploadEvent::Done),
        UploadAction::NextPart
    ));
    let title = UploadEvent::Part {
        name: Some("title".to_string()),
        has_file_name: false,
    };
    assert!(matches!(session.next(title), UploadAction::NextPart));
    let file = UploadEvent::Part {
        name: Some("file".to_string()),
        has_file_name: false,
    };
    assert!(matches!(session.next(file), UploadAction::NextChunk));
    let mut large = session;
    assert!(matches!(
        session.next(UploadEvent::Chunk { len: 10 }),
        UploadAction::WriteChunk
    ));
    assert!(matches!(
        session.next(UploadEvent::Done),
        UploadAction::NextChunk
    ));
    assert!(matches!(
        session.next(UploadEvent::NoMoreChunks),
        UploadAction::Flush
    ));
    assert!(matches!(
        session.next(UploadEvent::Done),
        UploadAction::Process { file_size: 10 }
    ));
    assert_eq!(session.phase, UploadPhase::Over);

    match large.next(UploadEvent::Chunk { len: 11 }) {
        UploadAction::Refuse { reply, remove_file } => {
            assert_eq!(reply.status, 413);
            assert!(remove_file);
        }
        _ => panic!("the file is too large"),
    }
}

#[test]
fn uploads_without_a_file_are_refused() {
    let (mut session, _) = UploadSession::begin(10);
    session.next(UploadEvent::Done);
    let mut broken = session;
    session.next(UploadEvent::Done);
    match session.next(UploadEvent::NoMoreParts) {
        UploadAction::Refuse { reply, remove_file } => {
            assert_eq!(reply.error, "missing_file");
            assert!(remove_file);
        }
        _ => panic!("there is no file"),
    }
    match broken.next(UploadEvent::Failed {
        cause: "denied".to_string(),
    }) {
        UploadAction::Refuse { reply, remove_file } => {
            assert_eq!(reply.message, "Failed to create upload temp file: denied");
            assert!(!remove_file);
        }
        _ => panic!("the file was not created"),
    }
}

fn amf_string(s: &str) -> Vec<u8> {
    let mut out = vec![0x02, (s.len() / 256) as u8, (s.len() % 256) as u8];
    out.extend_from_slice(s.as_bytes());
    out
}

fn message(msg_type: RtmpMessageType, data: Vec<u8>) -> RtmpMessage {
    RtmpMessage {
        msg_type,
        timestamp: 0,
        stream_id: 1,
        data: Bytes::from(data),
    }
}

#[test]
fn messages_span_chunks() {
    let payload: Vec<u8> = (0..200).map(|i| i as u8).collect();
    let mut bytes = vec![0x03, 0, 0, 5, 0, 0, 200, 8, 1, 0, 0, 0];
    bytes.extend_from_slice(&payload[..128]);
    bytes.push(0xC3);
    bytes.extend_from_slice(&payload[128..]);
    bytes.push(0xFF);
    let reader = ChunkReader::new();
    match reader.read_message(&bytes) {
        Progress::Done(m, consumed) => {
            assert_eq!(m.msg_type, RtmpMessageType::Audio);
            assert_eq!(m.timestamp, 5);
            assert_eq!(m.stream_id, 1);
            assert_eq!(&m.data[..], &payload[..]);
            assert_eq!(consumed, bytes.len() - 1);
        }
        other => panic!("the message is complete, not {other:?}"),
    }
}

#[test]
fn commands_are_answered() {
    let mut reader = ChunkReader::new();
    let mut step = |name: &str| {
        let m = message(RtmpMessageType::AmfCommand, amf_string(name));
        process_command(&mut reader, &m)
    };
    match step("connect") {
        Ok(CommandStep::Reply(b)) => assert_eq!(b, connect_result()),
        other => panic!("a reply is due, not {other:?}"),
    }
    match step("FCPublish") {
        Ok(CommandStep::Reply(b)) => assert_eq!(b, command_result()),
        other => panic!("a reply is due, not {other:?}"),
    }
    match step("createStream") {
        Ok(CommandStep::Reply(b)) => {
            assert_eq!(b, create_stream_result());
            assert!(b.ends_with(&1.0f64.to_be_bytes()));
        }
        other => panic!("a reply is due, not {other:?}"),
    }
    assert!(matches!(step("noSuchThing"), Ok(CommandStep::Continue)));
    assert!(matches!(
        step("deleteStream"),
        Err(IngestError::ConnectionReset { .. })
    ));
    let mut publish = amf_string("publish");
    publish.push(0x00);
    publish.extend_from_slice(&4.0f64.to_be_bytes());
    publish.push(0x05);
    publish.extend_from_slice(&amf_string("sk_key"));
    let m = message(RtmpMessageType::AmfCommand, publish);
    match process_command(&mut reader, &m) {
        Ok(CommandStep::Publish(key)) => assert_eq!(key, "sk_key"),
        other => panic!("the key is due, not {other:?}"),
    }
}

#[test]
fn malformed_commands_are_refused() {
    let reason = |data: Vec<u8>| match parse_amf_command(&data) {
        Err(IngestError::MalformedAmf { reason }) => reason,
        other => panic!("malformed, not {other:?}"),
    };
    assert_eq!(reason(vec![0x03, 0, 0]), "expected AMF0 string marker");
    assert_eq!(
        reason(vec![0x02, 0x10, 0x01]),
        "AMF string length 4097 exceeds max 4096"
    );
    assert_eq!(
        reason(vec![0x02, 0, 9, b'x']),
        "AMF0 string length exceeds data"
    );
    assert_eq!(
        reason(vec![0x02, 0, 1, 0xFF]),
        "invalid UTF-8 in command name"
    );
    match parse_amf_command(&amf_string("connect")) {
        Ok(RtmpCommand::Connect { app }) => assert_eq!(app, "live"),
        other => panic!("a connect, not {other:?}"),
    }
}

#[test]
fn demux_loops_end_for_their_reasons() {
    let mut reader = ChunkReader::new();
    let mut demux = DemuxLoop::new(StreamId::new(), 0);
    let audio = || message(RtmpMessageType::Audio, vec![0xAF, 0x00, 0x12, 0x10]);
    assert!(matches!(
        demux.on_message(&mut reader, &audio(), 10_000_000_000),
        Ok(LoopStep::Continue)
    ));
    assert!(matches!(
        demux.on_message(&mut reader, &audio(), 10_000_000_001),
        Err(IngestError::MissingSequenceHeader { timeout_secs: 10 })
    ));
    let delete = message(RtmpMessageType::AmfCommand, amf_string("deleteStream"));
    assert!(matches!(
        demux.on_message(&mut reader, &delete, 0),
        Ok(LoopStep::Stop)
    ));
    assert!(matches!(demux.on_read_error(true), Ok(LoopStep::Stop)));
    for _ in 0..9 {
        assert!(matches!(demux.on_read_error(false), Ok(LoopStep::Continue)));
    }
    match demux.on_read_error(false) {
        Err(IngestError::ValidationFailed { reason }) => {
            assert_eq!(reason, "too many consecutive read errors (10)");
        }
        other => panic!("too many errors, not {other:?}"),
    }
}

#[test]
fn live_frames_are_demuxed() {
    let mut reader = ChunkReader::new();
    let id = StreamId::new();
    let mut demux = DemuxLoop::new(id, 0);
    let early = message(RtmpMessageType::Audio, vec![0xAF, 0x01, 9]);
    assert!(matches!(
        demux.on_message(&mut reader, &early, 0),
        Ok(LoopStep::Continue)
    ));
    let audio_header = message(RtmpMessageType::Audio, vec![0xAF, 0x00, 0x12, 0x10]);
    demux.on_message(&mut reader, &audio_header, 0).unwrap();
    let frame = message(RtmpMessageType::Audio, vec![0xAF, 0x01, 1, 2, 3]);
    match demux.on_message(&mut reader, &frame, 0) {
        Ok(LoopStep::Frame(f, metrics)) => {
            assert!(f.track.is_audio());
            assert_eq!(f.stream_id, id);
            assert_eq!(&f.data[..], &[1, 2, 3]);
            assert_eq!((f.pts, f.dts), (0, 0));
            assert_eq!(metrics.len(), 2);
        }
        other => panic!("a frame is due, not {other:?}"),
    }
}
