use bytes::Bytes;

use streaminfa::common::config::PackagingConfig;
use streaminfa::common::types::{
    EncodedSegment, FrameRate, RenditionId, StorageWrite, StreamId,
};
use streaminfa::control::events::PipelineEvent;
use streaminfa::package::hls::{
    generate_init_segment, generate_media_segment, InitSegmentParams, MediaSegmentParams,
    SampleInfo,
};
use streaminfa::package::manifest::{
    generate_media_playlist, generate_multivariant_playlist, init_segment_path,
    master_playlist_path, media_playlist_path, segment_filename, segment_path, PlaylistSegment,
    RenditionInfo,
};
use streaminfa::package::runner::{Packager, PackagerOutput};
use streaminfa::package::segment_index::SegmentIndex;
use streaminfa::storage::cleanup::playlist_references;

#[test]
fn test_generate_init_segment() {
    let params = InitSegmentParams {
        width: 1920,
        height: 1080,
        video_timescale: 90000,
        audio_timescale: 48000,
        sps: Bytes::from_static(&[0x67, 0x64, 0x00, 0x29]),
        pps: Bytes::from_static(&[0x68, 0xEE, 0x3C, 0x80]),
        audio_specific_config: Some(Bytes::from_static(&[0x12, 0x10])),
        has_audio: true,
    };

    let result = generate_init_segment(&params);
    assert!(result.is_ok());

    let data = result.unwrap();
    assert_eq!(&data[4..8], b"ftyp");
    assert!(data.len() > 100);
}

#[test]
fn test_generate_init_segment_video_only() {
    let params = InitSegmentParams {
        width: 854,
        height: 480,
        video_timescale: 90000,
        audio_timescale: 48000,
        sps: Bytes::from_static(&[0x67, 0x4D, 0x00, 0x1E]),
        pps: Bytes::from_static(&[0x68, 0xEE, 0x3C, 0x80]),
        audio_specific_config: None,
        has_audio: false,
    };

    let result = generate_init_segment(&params);
    assert!(result.is_ok());
}

#[test]
fn test_generate_media_segment() {
    let params = MediaSegmentParams {
        sequence_number: 1,
        base_decode_time: 540000,
        samples: vec![SampleInfo {
            duration: 3000,
            size: 1000,
            flags: 0x02000000,
            composition_offset: 0,
        }],
        media_data: Bytes::from(vec![0xAA; 1000]),
        track_id: 1,
    };

    let result = generate_media_segment(&params);
    assert!(result.is_ok());

    let data = result.unwrap();
    assert_eq!(&data[4..8], b"styp");
}

/// Reads the boxes at one level: their kinds and contents.
fn boxes(data: &[u8]) -> Vec<(String, Vec<u8>)> {
    let mut out = Vec::new();
    let mut at = 0;
    while at < data.len() {
        let size = u32::from_be_bytes([data[at], data[at + 1], data[at + 2], data[at + 3]]) as usize;
        let kind = String::from_utf8(data[at + 4..at + 8].to_vec()).unwrap();
        out.push((kind, data[at + 8..at + size].to_vec()));
        at += size;
    }
    out
}

#[test]
fn init_segments_hold_a_track_per_medium() {
    let mut params = InitSegmentParams {
        width: 1920,
        height: 1080,
        video_timescale: 90000,
        audio_timescale: 48000,
        sps: Bytes::from_static(&[0x67, 0x64, 0x00, 0x29]),
        pps: Bytes::from_static(&[0x68, 0xEE, 0x3C, 0x80]),
        audio_specific_config: Some(Bytes::from_static(&[0x12, 0x10])),
        has_audio: true,
    };
    let top = boxes(&generate_init_segment(&params).unwrap());
    assert_eq!(top[0].0, "ftyp");
    assert_eq!(top[1].0, "moov");
    let kinds: Vec<String> = boxes(&top[1].1).into_iter().map(|b| b.0).collect();
    assert_eq!(kinds, vec!["mvhd", "trak", "trak", "mvex"]);

    params.has_audio = false;
    params.audio_specific_config = None;
    let top = boxes(&generate_init_segment(&params).unwrap());
    let kinds: Vec<String> = boxes(&top[1].1).into_iter().map(|b| b.0).collect();
    assert_eq!(kinds, vec!["mvhd", "trak", "mvex"]);
}

#[test]
fn media_segments_carry_their_data() {
    let params = MediaSegmentParams {
        sequence_number: 9,
        base_decode_time: 540000,
        samples: vec![SampleInfo {
            duration: 3000,
            size: 5,
            flags: 0x02000000,
            composition_offset: 0,
        }],
        media_data: Bytes::from_static(b"hello"),
        track_id: 1,
    };
    let data = generate_media_segment(&params).unwrap();
    let top = boxes(&data);
    let kinds: Vec<&str> = top.iter().map(|b| b.0.as_str()).collect();
    assert_eq!(kinds, vec!["styp", "moof", "mdat"]);
    assert_eq!(top[2].1, b"hello");
    let moof = boxes(&top[1].1);
    assert_eq!(moof[0].0, "mfhd");
    assert_eq!(&moof[0].1[4..8], &[0, 0, 0, 9]);
}

fn ladder_infos() -> Vec<RenditionInfo> {
    vec![
        RenditionInfo {
            id: RenditionId::High,
            width: 1920,
            height: 1080,
            video_bitrate_kbps: 3500,
            audio_bitrate_kbps: 128,
            profile: "high".to_string(),
            level: "4.1".to_string(),
            frame_rate: FrameRate { num: 30, den: 1 },
            has_audio: true,
        },
        RenditionInfo {
            id: RenditionId::Medium,
            width: 1280,
            height: 720,
            video_bitrate_kbps: 2000,
            audio_bitrate_kbps: 128,
            profile: "main".to_string(),
            level: "3.1".to_string(),
            frame_rate: FrameRate { num: 30, den: 1 },
            has_audio: true,
        },
        RenditionInfo {
            id: RenditionId::Low,
            width: 854,
            height: 480,
            video_bitrate_kbps: 1000,
            audio_bitrate_kbps: 96,
            profile: "main".to_string(),
            level: "3.0".to_string(),
            frame_rate: FrameRate { num: 30, den: 1 },
            has_audio: true,
        },
    ]
}

#[test]
fn test_multivariant_playlist() {
    let playlist = generate_multivariant_playlist(&ladder_infos(), 7);

    assert!(playlist.contains("#EXTM3U"));
    assert!(playlist.contains("#EXT-X-VERSION:7"));
    assert!(playlist.contains("#EXT-X-INDEPENDENT-SEGMENTS"));
    assert!(playlist.contains("BANDWIDTH=3990800"));
    assert!(playlist.contains("RESOLUTION=1920x1080"));
    assert!(playlist.contains("avc1.640029,mp4a.40.2"));
    assert!(playlist.contains("high/media.m3u8"));
    assert!(playlist.contains("medium/media.m3u8"));
    assert!(playlist.contains("low/media.m3u8"));
}

#[test]
fn multivariant_entries_are_exact() {
    let mut infos = ladder_infos();
    infos.truncate(1);
    infos[0].frame_rate = FrameRate {
        num: 30_000,
        den: 1001,
    };
    infos[0].has_audio = false;
    assert_eq!(
        generate_multivariant_playlist(&infos, 7),
        "#EXTM3U\n#EXT-X-VERSION:7\n#EXT-X-INDEPENDENT-SEGMENTS\n\n\
         #EXT-X-STREAM-INF:BANDWIDTH=3990800,RESOLUTION=1920x1080,CODECS=\"avc1.640029\",FRAME-RATE=29.970\n\
         high/media.m3u8\n\n"
    );
}

fn listed(sequence: u64, duration_ticks: i64) -> PlaylistSegment {
    PlaylistSegment {
        sequence,
        duration_ticks,
        filename: format!("{:06}.m4s", sequence),
        program_date_time: None,
    }
}

#[test]
fn test_live_media_playlist() {
    // 6.006 s, 6.006 s and 5.972 s
    let segments = vec![listed(42, 540_540), listed(43, 540_540), listed(44, 537_480)];

    let playlist = generate_media_playlist(&segments, 7, false, false);

    assert!(playlist.contains("#EXTM3U"));
    assert!(playlist.contains("#EXT-X-VERSION:7"));
    assert!(playlist.contains("#EXT-X-TARGETDURATION:7"));
    assert!(playlist.contains("#EXT-X-MEDIA-SEQUENCE:42"));
    assert!(playlist.contains("#EXT-X-MAP:URI=\"init.mp4\""));
    assert!(playlist.contains("#EXTINF:6.006,"));
    assert!(playlist.contains("#EXTINF:5.972,"));
    assert!(playlist.contains("000042.m4s"));
    assert!(!playlist.contains("#EXT-X-ENDLIST"));
    assert!(!playlist.contains("#EXT-X-PLAYLIST-TYPE:VOD"));
}

#[test]
fn test_vod_media_playlist() {
    // 6.006 s and 4.238 s
    let segments = vec![listed(0, 540_540), listed(1, 381_420)];

    let playlist = generate_media_playlist(&segments, 7, true, true);

    assert!(playlist.contains("#EXT-X-PLAYLIST-TYPE:VOD"));
    assert!(playlist.contains("#EXT-X-MEDIA-SEQUENCE:0"));
    assert!(playlist.contains("#EXT-X-ENDLIST"));
}

#[test]
fn test_finished_live_playlist_has_endlist() {
    let segments = vec![listed(10, 540_000)];

    let playlist = generate_media_playlist(&segments, 7, false, true);
    assert!(playlist.contains("#EXT-X-ENDLIST"));
}

#[test]
fn program_dates_stand_before_their_segment() {
    let mut s = listed(3, 540_000);
    s.program_date_time = Some(1_700_000_000_123_456_789);
    let playlist = generate_media_playlist(&vec![s], 7, false, false);
    assert!(playlist.ends_with(
        "#EXT-X-PROGRAM-DATE-TIME:2023-11-14T22:13:20.123Z\n#EXTINF:6.000,\n000003.m4s\n"
    ));
}

#[test]
fn test_storage_paths() {
    let sid = "abc-123";
    assert_eq!(segment_path(sid, "high", 42), "abc-123/high/000042.m4s");
    assert_eq!(init_segment_path(sid, "high"), "abc-123/high/init.mp4");
    assert_eq!(media_playlist_path(sid, "high"), "abc-123/high/media.m3u8");
    assert_eq!(master_playlist_path(sid), "abc-123/master.m3u8");
    assert_eq!(segment_filename(1), "000001.m4s");
}

const SIX_SECS: i64 = 540_000;

#[test]
fn test_add_segments_within_window() {
    let mut index = SegmentIndex::new(StreamId::new(), RenditionId::High, 5);

    for i in 0..5 {
        let evicted = index.add_segment(SIX_SECS, format!("{:06}.m4s", i), 200000);
        assert!(evicted.is_none());
    }

    assert_eq!(index.len(), 5);
    assert_eq!(index.next_sequence(), 5);
    assert_eq!(index.total_segments_produced(), 5);
}

#[test]
fn test_eviction_on_window_overflow() {
    let mut index = SegmentIndex::new(StreamId::new(), RenditionId::High, 3);

    for i in 0..3 {
        index.add_segment(SIX_SECS, format!("{:06}.m4s", i), 200000);
    }
    assert_eq!(index.len(), 3);

    let evicted = index.add_segment(SIX_SECS, "000003.m4s".to_string(), 200000);
    assert!(evicted.is_some());
    let evicted = evicted.unwrap();
    assert_eq!(evicted.sequence, 0);
    assert_eq!(index.len(), 3);
    assert_eq!(index.media_sequence(), 1);
}

#[test]
fn test_media_sequence_tracks_window() {
    let mut index = SegmentIndex::new(StreamId::new(), RenditionId::Low, 2);

    index.add_segment(SIX_SECS, "000000.m4s".to_string(), 100);
    assert_eq!(index.media_sequence(), 0);

    index.add_segment(SIX_SECS, "000001.m4s".to_string(), 100);
    assert_eq!(index.media_sequence(), 0);

    index.add_segment(SIX_SECS, "000002.m4s".to_string(), 100);
    assert_eq!(index.media_sequence(), 1);

    index.add_segment(SIX_SECS, "000003.m4s".to_string(), 100);
    assert_eq!(index.media_sequence(), 2);
}

#[test]
fn test_generate_live_playlist() {
    let mut index = SegmentIndex::new(StreamId::new(), RenditionId::High, 5);

    for i in 0..3 {
        index.add_segment(540_540, format!("{:06}.m4s", i), 200000);
    }

    let playlist = index.generate_playlist(7, false, false);
    assert!(playlist.contains("#EXTM3U"));
    assert!(playlist.contains("#EXT-X-VERSION:7"));
    assert!(playlist.contains("#EXT-X-TARGETDURATION:7"));
    assert!(playlist.contains("#EXT-X-MEDIA-SEQUENCE:0"));
    assert!(playlist.contains("#EXTINF:6.006,"));
    assert!(playlist.contains("000000.m4s"));
    assert!(playlist.contains("000001.m4s"));
    assert!(playlist.contains("000002.m4s"));
    assert!(!playlist.contains("#EXT-X-ENDLIST"));
}

#[test]
fn test_generate_vod_playlist() {
    let mut index = SegmentIndex::new(StreamId::new(), RenditionId::Medium, 100);

    index.add_segment(540_540, "000000.m4s".to_string(), 200000);
    index.add_segment(381_420, "000001.m4s".to_string(), 150000);

    let playlist = index.generate_playlist(7, true, true);
    assert!(playlist.contains("#EXT-X-PLAYLIST-TYPE:VOD"));
    assert!(playlist.contains("#EXT-X-ENDLIST"));
    assert!(playlist.contains("#EXT-X-MEDIA-SEQUENCE:0"));
}

#[test]
fn test_generate_finished_live_playlist() {
    let mut index = SegmentIndex::new(StreamId::new(), RenditionId::High, 5);
    index.add_segment(SIX_SECS, "000000.m4s".to_string(), 200000);

    let playlist = index.generate_playlist(7, false, true);
    assert!(playlist.contains("#EXT-X-ENDLIST"));
}

#[test]
fn test_total_segments_vs_window() {
    let mut index = SegmentIndex::new(StreamId::new(), RenditionId::Low, 2);

    for i in 0..10 {
        index.add_segment(SIX_SECS, format!("{:06}.m4s", i), 100);
    }

    assert_eq!(index.len(), 2);
    assert_eq!(index.total_segments_produced(), 10);
    assert_eq!(index.next_sequence(), 10);
}

#[test]
fn playlists_refer_to_the_segments_of_the_window() {
    let mut index = SegmentIndex::new(StreamId::new(), RenditionId::Low, 2);
    for i in 0..4 {
        index.add_segment(SIX_SECS, format!("{:06}.m4s", i), 100);
    }
    let playlist = index.generate_playlist(7, false, false);
    assert_eq!(
        playlist_references("s/low/media.m3u8", playlist.as_bytes()),
        vec!["s/low/000002.m4s", "s/low/000003.m4s"]
    );
}

fn encoded(stream_id: StreamId, sequence: u64, is_last: bool) -> EncodedSegment {
    EncodedSegment {
        stream_id,
        rendition: RenditionId::High,
        sequence,
        duration_ticks: SIX_SECS,
        pts_start: sequence as i64 * SIX_SECS,
        video_data: Bytes::from_static(b"\x00\x00\x00\x01\x65video"),
        audio_data: None,
        is_last,
        width: 1920,
        height: 1080,
        video_bitrate_kbps: 3500,
        audio_bitrate_kbps: 128,
        profile: "high".to_string(),
        level: "4.1".to_string(),
        frame_rate: FrameRate { num: 30, den: 1 },
    }
}

fn written(outputs: &[PackagerOutput]) -> Vec<&StorageWrite> {
    outputs
        .iter()
        .filter_map(|o| match o {
            PackagerOutput::Write(w) => Some(w),
            _ => None,
        })
        .collect()
}

#[test]
fn packagers_write_each_segment_with_its_playlists() {
    let id = StreamId::new();
    let config = PackagingConfig {
        segment_duration_secs: 6,
        live_window_segments: 2,
        hls_version: 7,
        segment_retention_minutes: 60,
    };
    let mut packager = Packager::new(id, &config, false);
    let first = packager.package(&encoded(id, 0, false));
    let sid = id.to_text();
    let paths: Vec<String> = written(&first).iter().map(|w| w.path.clone()).collect();
    for wanted in ["high/init.mp4", "high/000000.m4s", "high/media.m3u8"] {
        assert!(
            paths.contains(&format!("{}/{}", sid, wanted)),
            "missing {}",
            wanted
        );
    }
    assert!(first
        .iter()
        .any(|o| matches!(o, PackagerOutput::Event(PipelineEvent::SegmentProduced { .. }))));

    let second = packager.package(&encoded(id, 1, true));
    let paths: Vec<String> = written(&second).iter().map(|w| w.path.clone()).collect();
    assert!(!paths.contains(&format!("{}/high/init.mp4", sid)));
    assert!(paths.contains(&format!("{}/high/000001.m4s", sid)));
    let playlist = written(&second)
        .into_iter()
        .rfind(|w| w.path.ends_with("media.m3u8"))
        .unwrap();
    let text = String::from_utf8(playlist.data.to_vec()).unwrap();
    assert!(text.contains("#EXT-X-ENDLIST"));
    assert!(second
        .iter()
        .any(|o| matches!(o, PackagerOutput::Event(PipelineEvent::RenditionComplete { .. }))));

    let master = packager.finish().unwrap();
    assert_eq!(master.path, format!("{}/master.m3u8", sid));
    let text = String::from_utf8(master.data.to_vec()).unwrap();
    assert!(text.contains("high/media.m3u8"));
    assert!(Packager::new(id, &config, false).finish().is_none());
}

#[test]
fn on_demand_playlists_list_every_segment() {
    let id = StreamId::new();
    let config = PackagingConfig {
        segment_duration_secs: 6,
        live_window_segments: 2,
        hls_version: 7,
        segment_retention_minutes: 60,
    };
    let mut packager = Packager::new(id, &config, true);
    let mut last = Vec::new();
    for i in 0..4 {
        last = packager.package(&encoded(id, i, i == 3));
    }
    let playlist = written(&last)
        .into_iter()
        .rfind(|w| w.path.ends_with("media.m3u8"))
        .unwrap();
    let text = String::from_utf8(playlist.data.to_vec()).unwrap();
    assert!(text.contains("#EXT-X-PLAYLIST-TYPE:VOD"));
    assert!(text.contains("#EXT-X-ENDLIST"));
    for i in 0..4 {
        assert!(text.contains(&format!("{:06}.m4s", i)));
    }
}

#[test]
fn segment_names_follow_their_numbers() {
    assert_eq!(segment_filename(42), "000042.m4s");
    assert_eq!(segment_filename(1_234_567), "1234567.m4s");
    assert_ne!(segment_filename(999_999), segment_filename(1_000_000));
    assert!(segment_filename(9) < segment_filename(10));
    assert!(segment_filename(99_999) < segment_filename(999_999));
}

#[test]
fn durations_are_those_of_double_precision() {
    let ticks = (0..3000)
        .chain((45..2_000_000).step_by(90))
        .chain([5625, 540_045, 1 << 40, (1 << 53) + 1, i64::MAX, -45, -405, i64::MIN + 1]);
    for n in ticks {
        let secs = n as f64 / 90_000.0;
        let playlist = generate_media_playlist(&vec![listed(0, n)], 7, false, false);
        assert!(playlist.contains(&format!("#EXTINF:{secs:.3},\n")), "{n}");
        let target = (f64::max(0.0, secs).ceil() as u32).max(1);
        assert!(
            playlist.contains(&format!("#EXT-X-TARGETDURATION:{target}\n")),
            "{n}"
        );
    }
}

#[test]
fn sample_durations_are_those_of_double_precision() {
    let id = StreamId::new();
    let config = streaminfa::common::config::AppConfig::default().packaging;
    for n in [0i64, 27, 31, 49, 540_000, 540_001, -5, i64::MAX] {
        let mut packager = Packager::new(id, &config, false);
        let mut segment = encoded(id, 0, false);
        segment.duration_ticks = n;
        let outputs = packager.package(&segment);
        let writes = written(&outputs);
        let data = &writes
            .iter()
            .find(|w| w.path.ends_with(".m4s"))
            .expect("the segment is written")
            .data;
        let at = data
            .windows(4)
            .position(|w| w == b"trun")
            .expect("there is a run of samples");
        let duration = u32::from_be_bytes(data[at + 16..at + 20].try_into().unwrap());
        assert_eq!(duration, (n as f64 / 90_000.0 * 90_000.0) as u32, "{n}");
    }
}

#[test]
fn frame_rates_are_those_of_double_precision() {
    let mut infos = ladder_infos();
    infos.truncate(1);
    for num in [1, 15, 24, 30, 30_000, 60_000, 1_000_003, i32::MAX] {
        for den in [1, 2, 7, 16, 1001, 2000, -7, -1001, i32::MIN] {
            infos[0].frame_rate = FrameRate { num, den };
            let rate = num as f64 / den as f64;
            assert!(
                generate_multivariant_playlist(&infos, 7)
                    .contains(&format!(",FRAME-RATE={rate:.3}\n")),
                "{num}/{den}"
            );
        }
    }
}
