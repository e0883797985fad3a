use bytes::Bytes;

use streaminfa::common::config::{AppConfig, TranscodeConfig, TranscodeProfile};
use streaminfa::common::error::TranscodeError;
use streaminfa::common::types::{
    AudioCodec, DemuxedFrame, FrameRate, IngestMode, RenditionId, StreamId, Track, VideoCodec,
};
use streaminfa::control::state::StreamStateManager;
use streaminfa::observability::metrics::MetricChange;
use streaminfa::transcode::codec::{file_input, CodecAction, CodecEvent, CodecSession};
use streaminfa::transcode::ffmpeg::{
    encoded_packet, encoder_failure, passed_audio, EncoderSettings,
};
use streaminfa::transcode::pipeline::{transcode_error_type, LiveTranscode, TranscodePipeline};
use streaminfa::transcode::profile::{
    bandwidth, codec_string, codecs_attribute, name_to_rendition_id, select_renditions,
};
use streaminfa::transcode::segment::{EncodedPacket, SegmentAccumulator};

fn test_ladder() -> Vec<TranscodeProfile> {
    vec![
        TranscodeProfile {
            name: "high".to_string(),
            width: 1920,
            height: 1080,
            bitrate_kbps: 3500,
            audio_bitrate_kbps: 128,
            profile: "high".to_string(),
            level: "4.1".to_string(),
            preset: "medium".to_string(),
        },
        TranscodeProfile {
            name: "medium".to_string(),
            width: 1280,
            height: 720,
            bitrate_kbps: 2000,
            audio_bitrate_kbps: 128,
            profile: "main".to_string(),
            level: "3.1".to_string(),
            preset: "medium".to_string(),
        },
        TranscodeProfile {
            name: "low".to_string(),
            width: 854,
            height: 480,
            bitrate_kbps: 1000,
            audio_bitrate_kbps: 96,
            profile: "main".to_string(),
            level: "3.0".to_string(),
            preset: "medium".to_string(),
        },
    ]
}

#[test]
fn test_select_all_renditions_for_1080p() {
    let ladder = test_ladder();
    let selected = select_renditions(1920, 1080, &ladder);
    assert_eq!(selected.len(), 3);
    assert_eq!(selected[0].id, RenditionId::High);
    assert_eq!(selected[1].id, RenditionId::Medium);
    assert_eq!(selected[2].id, RenditionId::Low);
}

#[test]
fn test_select_renditions_for_720p() {
    let ladder = test_ladder();
    let selected = select_renditions(1280, 720, &ladder);
    assert_eq!(selected.len(), 2);
    assert_eq!(selected[0].id, RenditionId::Medium);
    assert_eq!(selected[1].id, RenditionId::Low);
}

#[test]
fn test_select_renditions_for_480p() {
    let ladder = test_ladder();
    let selected = select_renditions(854, 480, &ladder);
    assert_eq!(selected.len(), 1);
    assert_eq!(selected[0].id, RenditionId::Low);
}

#[test]
fn test_select_renditions_below_minimum() {
    let ladder = test_ladder();
    let selected = select_renditions(640, 360, &ladder);
    assert_eq!(selected.len(), 1);
    assert_eq!(selected[0].id, RenditionId::Source);
    assert_eq!(selected[0].width, 640);
    assert_eq!(selected[0].height, 360);
}

#[test]
fn test_codec_string_high() {
    assert_eq!(codec_string("high", "4.1"), "avc1.640029");
}

#[test]
fn test_codec_string_main_31() {
    assert_eq!(codec_string("main", "3.1"), "avc1.4d001f");
}

#[test]
fn test_codec_string_main_30() {
    assert_eq!(codec_string("main", "3.0"), "avc1.4d001e");
}

#[test]
fn test_codecs_attribute_with_audio() {
    assert_eq!(
        codecs_attribute("high", "4.1", true),
        "avc1.640029,mp4a.40.2"
    );
}

#[test]
fn test_bandwidth_calculation() {
    let bw = bandwidth(3500, 128);
    assert_eq!(bw, 3990800);
}

#[test]
fn names_stand_for_renditions() {
    assert_eq!(name_to_rendition_id("medium"), RenditionId::Medium);
    assert_eq!(name_to_rendition_id("anything"), RenditionId::Source);
    assert_eq!(codecs_attribute("main", "3.0", false), "avc1.4d001e");
}

fn make_packet(pts: i64, keyframe: bool, is_audio: bool) -> EncodedPacket {
    EncodedPacket {
        pts,
        dts: pts,
        keyframe,
        data: Bytes::from(vec![0xAA; 100]),
        is_audio,
    }
}

fn accumulator(rendition: RenditionId, target_secs: i64) -> SegmentAccumulator {
    SegmentAccumulator::new(
        StreamId::new(),
        rendition,
        target_secs * 90_000,
        1920,
        1080,
        3500,
        128,
        "high".to_string(),
        "4.1".to_string(),
        FrameRate { num: 30, den: 1 },
    )
}

#[test]
fn test_segment_at_idr_after_target_duration() {
    let mut acc = accumulator(RenditionId::High, 6);

    assert!(acc.push(&make_packet(0, true, false)).is_none());
    assert!(acc.push(&make_packet(180000, true, false)).is_none());
    assert!(acc.push(&make_packet(360000, true, false)).is_none());
    let seg = acc.push(&make_packet(540000, true, false));
    assert!(seg.is_some());

    let seg = seg.unwrap();
    assert_eq!(seg.sequence, 0);
    assert_eq!(seg.pts_start, 0);
    assert_eq!(seg.duration_ticks, 540_000);
    assert!(!seg.is_last);
}

#[test]
fn test_no_segment_before_target_duration() {
    let mut acc = SegmentAccumulator::new(
        StreamId::new(),
        RenditionId::Low,
        540_000,
        854,
        480,
        1000,
        96,
        "main".to_string(),
        "3.0".to_string(),
        FrameRate { num: 30, den: 1 },
    );

    assert!(acc.push(&make_packet(0, true, false)).is_none());
    assert!(acc.push(&make_packet(180000, true, false)).is_none());
    assert!(acc.push(&make_packet(360000, true, false)).is_none());
}

#[test]
fn test_flush_emits_final_segment() {
    let mut acc = SegmentAccumulator::new(
        StreamId::new(),
        RenditionId::Medium,
        540_000,
        1280,
        720,
        2000,
        128,
        "main".to_string(),
        "3.1".to_string(),
        FrameRate { num: 30, den: 1 },
    );

    acc.push(&make_packet(0, true, false));
    acc.push(&make_packet(180000, false, false));

    let seg = acc.flush().unwrap();
    assert!(seg.is_last);
    assert_eq!(seg.sequence, 0);
}

#[test]
fn test_sequence_numbers_increment() {
    let mut acc = accumulator(RenditionId::High, 2);

    acc.push(&make_packet(0, true, false));
    let seg1 = acc.push(&make_packet(180000, true, false)).unwrap();
    assert_eq!(seg1.sequence, 0);

    acc.push(&make_packet(180000, false, false));
    let seg2 = acc.push(&make_packet(360000, true, false)).unwrap();
    assert_eq!(seg2.sequence, 1);
}

#[test]
fn test_audio_data_included() {
    let mut acc = accumulator(RenditionId::High, 6);

    acc.push(&make_packet(0, true, false));
    acc.push(&make_packet(0, true, true));
    acc.push(&make_packet(180000, false, false));
    acc.push(&make_packet(180000, true, true));
    let seg = acc.push(&make_packet(540000, true, false));
    assert!(seg.is_some());
    let seg = seg.unwrap();
    assert!(seg.audio_data.is_some());
}

#[test]
fn test_no_audio_when_none_provided() {
    let mut acc = accumulator(RenditionId::High, 6);

    acc.push(&make_packet(0, true, false));
    let seg = acc.push(&make_packet(540000, true, false)).unwrap();
    assert!(seg.audio_data.is_none());
}

#[test]
fn segments_hold_the_bytes_of_their_packets() {
    let mut acc = accumulator(RenditionId::High, 1);
    let mut video = Vec::new();
    let mut audio = Vec::new();
    let mut out_video = Vec::new();
    let mut out_audio = Vec::new();
    for i in 0..53u8 {
        let packet = EncodedPacket {
            pts: i as i64 * 20_000,
            dts: i as i64 * 20_000,
            keyframe: i % 6 == 0,
            data: Bytes::from(vec![i; 3]),
            is_audio: i % 4 == 1,
        };
        if packet.is_audio {
            audio.extend_from_slice(&packet.data);
        } else {
            video.extend_from_slice(&packet.data);
        }
        if let Some(s) = acc.push(&packet) {
            assert!(s.duration_ticks >= 90_000);
            out_video.extend_from_slice(&s.video_data);
            if let Some(a) = s.audio_data {
                out_audio.extend_from_slice(&a);
            }
        }
    }
    let last = acc.flush().unwrap();
    out_video.extend_from_slice(&last.video_data);
    if let Some(a) = last.audio_data {
        out_audio.extend_from_slice(&a);
    }
    assert_eq!(out_video, video);
    assert_eq!(out_audio, audio);
}

#[test]
fn nothing_is_flushed_without_video() {
    let mut acc = accumulator(RenditionId::High, 1);
    acc.push(&make_packet(0, true, true));
    assert!(acc.flush().is_none());
}

fn frame(stream_id: StreamId, pts: i64, keyframe: bool) -> DemuxedFrame {
    DemuxedFrame {
        stream_id,
        track: Track::Video {
            codec: VideoCodec::H264,
            width: 1920,
            height: 1080,
        },
        pts,
        dts: pts,
        keyframe,
        data: Bytes::from_static(b"frame"),
    }
}

#[test]
fn frames_reach_every_rendition() {
    let pipeline = TranscodePipeline::new(AppConfig::default().transcode);
    let mut manager = StreamStateManager::new();
    let id = StreamId::new();
    manager.create_stream(id, IngestMode::Live);
    let (mut job, started) = pipeline
        .run_live(&mut manager, id, 1920, 1080, FrameRate { num: 30, den: 1 })
        .unwrap();
    assert_eq!(started.change, MetricChange::GaugeAdd(1));
    assert_eq!(manager.get_stream(id).unwrap().expected_renditions, Some(3));

    let mut cut = job.process_frame(&frame(id, 0, true));
    assert!(job.next_segment(&mut cut).is_none());
    let mut cut = job.process_frame(&frame(id, 540_000, true));
    let mut renditions = Vec::new();
    while let Some((segment, metrics)) = job.next_segment(&mut cut) {
        assert_eq!(segment.duration_ticks, 540_000);
        assert_eq!(&segment.video_data[..], b"frameframe");
        assert_eq!(metrics.len(), 2);
        renditions.push(segment.rendition);
    }
    assert_eq!(
        renditions,
        vec![RenditionId::High, RenditionId::Medium, RenditionId::Low]
    );
    assert_eq!(job.on_frame_done(500).len(), 6);

    let mut rest = job.process_frame(&frame(id, 560_000, false));
    assert!(job.next_segment(&mut rest).is_none());
    let (last, ended) = job.finish();
    assert_eq!(last.len(), 3);
    assert!(last.iter().all(|s| s.is_last && s.sequence == 1));
    assert_eq!(ended.change, MetricChange::GaugeAdd(-1));
}

#[test]
fn ten_errors_in_a_row_end_a_job() {
    let pipeline = TranscodePipeline::new(AppConfig::default().transcode);
    let mut manager = StreamStateManager::new();
    let id = StreamId::new();
    let (mut job, _) = pipeline
        .run_live(&mut manager, id, 640, 360, FrameRate { num: 30, den: 1 })
        .unwrap();
    let error = TranscodeError::Cancelled { stream_id: id };
    for _ in 0..9 {
        assert!(job.on_frame_failed(&error).0.is_none());
    }
    job.on_frame_done(1000);
    for _ in 0..9 {
        assert!(job.on_frame_failed(&error).0.is_none());
    }
    let (end, metric) = job.on_frame_failed(&error);
    match end {
        Some(TranscodeError::ConsecutiveDecodeErrors { stream_id, count }) => {
            assert_eq!(stream_id, id);
            assert_eq!(count, 10);
        }
        _ => panic!("the tenth error must end the job"),
    }
    assert_eq!(metric.labels[1], ("error_type", "cancelled".to_string()));
}

#[test]
fn an_empty_ladder_starts_no_job() {
    let pipeline = TranscodePipeline::new(TranscodeConfig {
        profile_ladder: Vec::new(),
        keyframe_interval_secs: 2,
        max_blocking_threads: 64,
    });
    let mut manager = StreamStateManager::new();
    match pipeline.run_live(&mut manager, StreamId::new(), 640, 360, FrameRate { num: 30, den: 1 }) {
        Err(e) => {
            assert_eq!(transcode_error_type(&e), "ffmpeg_init");
            assert_eq!(
                e.message(),
                "FFmpeg initialization failed: no renditions selected for source resolution"
            );
        }
        Ok(_) => panic!("there is nothing to make"),
    }
}

#[test]
fn encoded_packets_go_to_one_rendition() {
    let selected = select_renditions(1280, 720, &test_ladder());
    let mut job = LiveTranscode::with_renditions(StreamId::new(), selected, 90_000, FrameRate { num: 25, den: 1 });
    assert!(job.push_encoded(0, &make_packet(0, true, false)).is_none());
    let s = job.push_encoded(0, &make_packet(90_000, true, false)).unwrap();
    assert_eq!(s.rendition, RenditionId::Medium);
    assert_eq!(s.frame_rate, FrameRate { num: 25, den: 1 });
    let (rest, _) = job.finish();
    assert!(rest.is_empty());
}

#[test]
fn audio_frames_pass_as_audio() {
    let id = StreamId::new();
    let selected = select_renditions(640, 360, &test_ladder());
    let job = LiveTranscode::with_renditions(id, selected, 90_000, FrameRate { num: 25, den: 1 });
    let audio = DemuxedFrame {
        stream_id: id,
        track: Track::Audio {
            codec: AudioCodec::Aac,
            sample_rate: 48_000,
            channels: 2,
        },
        pts: 5,
        dts: 4,
        keyframe: true,
        data: Bytes::from_static(b"aac"),
    };
    let packet = job.process_frame(&audio).packet;
    assert!(packet.is_audio);
    assert_eq!(packet.dts, 4);
}

#[test]
fn encoders_get_two_second_groups() {
    let selected = select_renditions(1280, 720, &test_ladder());
    let s = EncoderSettings::for_rendition(
        &selected[0],
        FrameRate {
            num: 30_000,
            den: 1001,
        },
    );
    assert_eq!(s.bit_rate, 2_000_000);
    assert_eq!(s.max_bit_rate, 3_000_000);
    assert_eq!(s.gop, 60);
    assert_eq!(s.frame_rate_num, 29_970);
    assert_eq!(s.x264_params, "keyint=60:min-keyint=60:scenecut=0");
    assert_eq!(EncoderSettings::for_rendition(&selected[0], FrameRate { num: -30, den: 7 }).gop, 1);
    assert_eq!(
        encoder_failure(&selected[0], "boom").message(),
        "FFmpeg initialization failed: x264 open (medium 720p 2000kbps): boom"
    );
}

#[test]
fn encoder_packets_have_defaults() {
    let p = encoded_packet(None, Some(3), true, None);
    assert_eq!((p.pts, p.dts), (0, 3));
    assert!(p.data.is_empty() && p.keyframe && !p.is_audio);
    assert!(passed_audio(Some(1), None, Some(Bytes::new())).is_none());
    let a = passed_audio(Some(7), None, Some(Bytes::from_static(b"x"))).unwrap();
    assert_eq!((a.pts, a.dts), (7, 7));
    assert!(a.is_audio && a.keyframe);
}

fn session_action(session: &mut CodecSession, event: CodecEvent) -> CodecAction {
    assert!(session.accepts(&event));
    session.next(event)
}

#[test]
fn codecs_are_asked_in_turn() {
    let id = StreamId::new();
    let selected = select_renditions(1280, 720, &test_ladder());
    let n = selected.len();
    assert_eq!(n, 2);
    let job = LiveTranscode::with_renditions(id, selected, 90_000, FrameRate { num: 25, den: 1 });
    let (mut s, first) = CodecSession::begin(id, job);
    assert!(matches!(first, CodecAction::NextInput));
    assert!(matches!(
        session_action(&mut s, CodecEvent::Other),
        CodecAction::NextInput
    ));
    assert!(matches!(
        session_action(&mut s, CodecEvent::Video),
        CodecAction::Decode
    ));
    assert!(matches!(
        session_action(&mut s, CodecEvent::Refused),
        CodecAction::NextInput
    ));
    session_action(&mut s, CodecEvent::Video);
    assert!(matches!(
        session_action(&mut s, CodecEvent::Accepted),
        CodecAction::ReceiveFrame
    ));
    assert!(matches!(
        session_action(&mut s, CodecEvent::Frame),
        CodecAction::Encode { rendition: 0 }
    ));
    let key = |pts: i64| CodecEvent::Packets(vec![make_packet(pts, true, false)]);
    assert!(matches!(
        session_action(&mut s, key(0)),
        CodecAction::Encode { rendition: 1 }
    ));
    assert!(matches!(
        session_action(&mut s, key(0)),
        CodecAction::ReceiveFrame
    ));
    assert!(matches!(
        session_action(&mut s, CodecEvent::NoFrame),
        CodecAction::NextInput
    ));
    assert!(matches!(
        session_action(&mut s, CodecEvent::Audio(make_packet(10, true, true))),
        CodecAction::NextInput
    ));
    assert!(matches!(
        session_action(&mut s, CodecEvent::End),
        CodecAction::EndDecoder
    ));
    session_action(&mut s, CodecEvent::Accepted);
    session_action(&mut s, CodecEvent::Frame);
    match session_action(&mut s, key(90_000)) {
        CodecAction::Send(segment) => {
            assert_eq!(segment.sequence, 0);
            assert_eq!(segment.duration_ticks, 90_000);
            assert!(segment.audio_data.is_some());
        }
        other => panic!("a segment is due, not {other:?}"),
    }
    assert!(matches!(
        session_action(&mut s, CodecEvent::Sent),
        CodecAction::Encode { rendition: 1 }
    ));
    assert!(matches!(
        session_action(&mut s, CodecEvent::Packets(Vec::new())),
        CodecAction::ReceiveFrame
    ));
    assert!(matches!(
        session_action(&mut s, CodecEvent::NoFrame),
        CodecAction::FlushEncoder { rendition: 0 }
    ));
    assert!(matches!(
        session_action(&mut s, CodecEvent::Packets(Vec::new())),
        CodecAction::FlushEncoder { rendition: 1 }
    ));
    assert!(matches!(
        session_action(&mut s, CodecEvent::Packets(Vec::new())),
        CodecAction::Finish
    ));
    assert!(s.can_finish());
    let rest = s.finish();
    assert_eq!(rest.len(), 1);
    assert!(rest[0].is_last);
}

#[test]
fn codec_failures_end_a_session() {
    let id = StreamId::new();
    let selected = select_renditions(640, 360, &test_ladder());
    let job = LiveTranscode::with_renditions(id, selected, 90_000, FrameRate { num: 25, den: 1 });
    let (mut s, _) = CodecSession::begin(id, job);
    match s.next(CodecEvent::Closed) {
        CodecAction::Fail(TranscodeError::Cancelled { stream_id }) => assert_eq!(stream_id, id),
        other => panic!("the session is over, not {other:?}"),
    }
    let e = TranscodeError::FfmpegInit {
        reason: "boom".to_string(),
    };
    assert!(matches!(
        s.next(CodecEvent::Failed(e)),
        CodecAction::Fail(TranscodeError::FfmpegInit { .. })
    ));
    s.next(CodecEvent::Video);
    s.next(CodecEvent::Accepted);
    s.next(CodecEvent::Frame);
    let far = || make_packet(i64::MAX, true, false);
    assert!(s.accepts(&CodecEvent::Packets(vec![far()])));
    let early = make_packet(-1, true, false);
    assert!(!s.accepts(&CodecEvent::Packets(vec![early, far()])));
}

#[test]
fn input_is_sorted_by_its_stream() {
    let data = || Some(Bytes::from_static(b"x"));
    assert!(matches!(
        file_input(0, 0, Some(1), Some(5), None, data()),
        CodecEvent::Video
    ));
    match file_input(1, 0, Some(1), Some(5), None, data()) {
        CodecEvent::Audio(p) => assert_eq!((p.pts, p.dts, p.is_audio), (5, 5, true)),
        other => panic!("audio, not {other:?}"),
    }
    assert!(matches!(
        file_input(1, 0, Some(1), Some(5), None, Some(Bytes::new())),
        CodecEvent::Other
    ));
    assert!(matches!(
        file_input(2, 0, Some(1), Some(5), None, data()),
        CodecEvent::Other
    ));
    assert!(matches!(
        file_input(1, 0, None, Some(5), None, data()),
        CodecEvent::Other
    ));
}

#[test]
fn timestamps_may_lie_anywhere_close_together() {
    let mut acc = accumulator(RenditionId::High, 1);
    let start = i64::MAX - 100_000;
    assert!(acc.push(&make_packet(start, true, false)).is_none());
    let s = acc.push(&make_packet(start + 90_000, true, false)).unwrap();
    assert_eq!((s.pts_start, s.duration_ticks), (start, 90_000));
    assert!(acc.push(&make_packet(i64::MIN, true, false)).is_none());
    assert!(!acc.accepts(&make_packet(0, true, false)));
    assert!(acc.accepts(&make_packet(-1, true, false)));
}

#[test]
fn encoder_rates_are_those_of_double_precision() {
    let selected = select_renditions(640, 360, &test_ladder());
    for num in [1, 7, 15, 24, 30, 30_000, 24_000, 60_000, 1_000_003, i32::MAX] {
        for den in [1, 2, 3, 7, 16, 1000, 1001, -7, 2000, 9_999_991, i32::MIN] {
            let fps = num as f64 / den as f64;
            let s = EncoderSettings::for_rendition(&selected[0], FrameRate { num, den });
            assert_eq!(s.gop, ((2.0 * fps).round() as u32).max(1), "{num}/{den}");
            assert_eq!(s.frame_rate_num, (fps * 1000.0).round() as i32, "{num}/{den}");
        }
    }
}
