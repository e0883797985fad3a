//! What becomes of the tags of a live stream, told by how the tags are written.

use vstd::prelude::*;

use crate::buffer::be32;
use crate::common::types::{AudioCodec, Track, VideoCodec};
use crate::ingest::demuxer::{
    annex_b, delimited, has_idr, is_idr, length_prefixed, length_prefixed_units_are_found, num16,
    num24, num32, parameter_sets, units_from, DemuxModel, Demuxed,
};
use crate::ingest::rtmp::{MessageModel, RtmpMessageType};
use crate::numbers::{
    fields_are_read_from_the_top, number, numbers_of, written, written_numbers_read_back,
};

verus! {

/// The first timestamp, where it is known, lies far from the limits of its type.
pub open spec fn clock_fits(m: DemuxModel) -> bool {
    m.first_pts matches Some(first) ==> -0x4000_0000_0000_0000 <= first <= 0x4000_0000_0000_0000
}

/// A video message.
pub open spec fn video_tag(data: Seq<u8>, timestamp: u32) -> MessageModel {
    MessageModel { msg_type: RtmpMessageType::Video, timestamp, stream_id: 0, data }
}

/// An audio message.
pub open spec fn audio_tag(data: Seq<u8>, timestamp: u32) -> MessageModel {
    MessageModel { msg_type: RtmpMessageType::Audio, timestamp, stream_id: 0, data }
}

// ---------------------------------------------------------------------------
// Time
// ---------------------------------------------------------------------------

/// A frame is shown as long after it is decoded as its tag says: by a signed number of
/// milliseconds in three bytes for video, at once for audio.
pub proof fn frames_keep_their_composition_time(m: DemuxModel, msg: MessageModel)
    requires
        clock_fits(m),
    ensures
        m.with_tag(msg).1 matches Demuxed::Frame(f) ==> {
            &&& msg.msg_type == RtmpMessageType::Video ==> {
                let c = number(msg.data.subrange(2, 5));
                &&& msg.data.len() >= 5
                &&& c < 0x80_0000 ==> f.pts - f.dts == 90 * c
                &&& c >= 0x80_0000 ==> f.pts - f.dts == 90 * (c - 0x100_0000)
            }
            &&& msg.msg_type == RtmpMessageType::Audio ==> f.pts == f.dts
        },
{
    if msg.data.len() >= 5 {
        fields_are_read_from_the_top(msg.data, 2);
        assert(num24(msg.data, 2) == number(msg.data.subrange(2, 5)));
    }
}

/// The first frame of a stream is shown at 0, and from then on frames of both tracks are decoded
/// as far apart, in ticks of 1/90000 s, as their tags are in milliseconds; the clock that they are
/// counted by no longer changes.
pub proof fn frames_keep_their_distance(
    m: DemuxModel,
    a: MessageModel,
    later: DemuxModel,
    b: MessageModel,
)
    requires
        clock_fits(m),
    ensures
        m.with_tag(a).1 matches Demuxed::Frame(f) ==> {
            &&& m.with_tag(a).0.first_pts is Some
            &&& m.first_pts is None ==> f.pts == 0
            &&& later.first_pts == m.with_tag(a).0.first_pts ==> (later.with_tag(b).1 matches
                Demuxed::Frame(g) ==> g.dts - f.dts == 90 * (b.timestamp - a.timestamp))
        },
        m.first_pts is Some ==> m.with_tag(a).0.first_pts == m.first_pts,
        !(m.with_tag(a).1 is Frame) ==> m.with_tag(a).0.first_pts == m.first_pts,
{
}

// ---------------------------------------------------------------------------
// What a frame holds
// ---------------------------------------------------------------------------

proof fn lemma_annex_b_push(units: Seq<Seq<u8>>, unit: Seq<u8>)
    ensures
        annex_b(units.push(unit)) == annex_b(units) + delimited(unit),
{
    assert(units.push(unit).drop_last() =~= units);
}

/// All units are short enough for their lengths.
pub open spec fn short_units(units: Seq<Seq<u8>>) -> bool {
    forall|i: int| 0 <= i < units.len() ==> (#[trigger] units[i]).len() < 0x1_0000_0000
}

/// A tag of units gives a frame that holds every unit behind a start code, in order, and nothing
/// else; an empty unit leaves no trace. It is a keyframe where the tag says so or one of the units
/// is an IDR slice.
#[verifier::spinoff_prover]
#[verifier::rlimit(40)]
pub proof fn frames_hold_every_unit(
    m: DemuxModel,
    head: Seq<u8>,
    units: Seq<Seq<u8>>,
    unit: Seq<u8>,
    timestamp: u32,
)
    requires
        m.has_video_seq_header,
        head.len() == 5,
        head[0] % 16 == 7,
        head[1] == 1,
        short_units(units),
        unit.len() < 0x1_0000_0000,
        5 + length_prefixed(units).len() <= 16 * 1024 * 1024,
        5 + length_prefixed(units.push(unit)).len() <= 16 * 1024 * 1024,
    ensures
        ({
            let without = m.with_tag(video_tag(head + length_prefixed(units), timestamp)).1;
            let with = m.with_tag(video_tag(head + length_prefixed(units.push(unit)), timestamp)).1;
            &&& without matches Demuxed::Frame(f) && with matches Demuxed::Frame(g) && {
                &&& units.len() == 0 ==> f.data == Seq::<u8>::empty()
                &&& g.data == f.data + if unit.len() == 0 {
                    Seq::<u8>::empty()
                } else {
                    seq![0u8, 0u8, 0u8, 1u8] + unit
                }
                &&& f.keyframe <==> (head[0] / 16 == 1 || exists|i: int|
                    0 <= i < units.len() && (#[trigger] units[i]).len() > 0 && units[i][0] % 32
                        == 5)
                &&& f.stream_id == m.stream_id
                &&& f.track == (Track::Video {
                    codec: VideoCodec::H264,
                    width: m.video_width,
                    height: m.video_height,
                })
            }
        }),
{
    let s = head + length_prefixed(units);
    let more = units.push(unit);
    let t = head + length_prefixed(more);
    assert(short_units(more));
    length_prefixed_units_are_found(units);
    length_prefixed_units_are_found(more);
    assert(s.subrange(5, s.len() as int) =~= length_prefixed(units));
    assert(t.subrange(5, t.len() as int) =~= length_prefixed(more));
    lemma_annex_b_push(units, unit);
    if has_idr(units) {
        let i = choose|i: int| 0 <= i < units.len() && is_idr(#[trigger] units[i]);
        assert(units[i].len() > 0 && units[i][0] % 32 == 5);
    }
    if exists|i: int|
        0 <= i < units.len() && (#[trigger] units[i]).len() > 0 && units[i][0] % 32 == 5 {
        let i = choose|i: int|
            0 <= i < units.len() && (#[trigger] units[i]).len() > 0 && units[i][0] % 32 == 5;
        assert(is_idr(units[i]));
    }
}

proof fn lemma_cut(units: Seq<Seq<u8>>, len: nat, part: Seq<u8>)
    requires
        short_units(units),
        part.len() < len < 0x1_0000_0000,
    ensures
        units_from(length_prefixed(units) + (written(len, 4) + part), 0) is Cut,
    decreases units.len(),
{
    let end = written(len, 4) + part;
    let s = length_prefixed(units) + end;
    if units.len() == 0 {
        assert(s =~= end);
        lemma_cut_alone(len, part);
    } else {
        let first = units[0];
        let rest = units.drop_first();
        assert forall|i: int| 0 <= i < rest.len() implies (#[trigger] rest[i]).len()
            < 0x1_0000_0000 by {
            assert(rest[i] == units[i + 1]);
        }
        lemma_cut(rest, len, part);
        let front = be32(first.len() as u32) + first;
        let tail = length_prefixed(rest) + end;
        assert(s =~= front + tail);
        lemma_cut_behind(first, tail);
    }
}

proof fn lemma_cut_alone(len: nat, part: Seq<u8>)
    requires
        part.len() < len < 0x1_0000_0000,
    ensures
        units_from(written(len, 4) + part, 0) is Cut,
{
    let s = written(len, 4) + part;
    reveal_with_fuel(numbers_of, 5);
    written_numbers_read_back(len, 4);
    assert(s.subrange(0, 4) =~= written(len, 4));
    fields_are_read_from_the_top(s, 0);
}

proof fn lemma_cut_behind(first: Seq<u8>, tail: Seq<u8>)
    requires
        first.len() < 0x1_0000_0000,
        units_from(tail, 0) is Cut,
    ensures
        units_from(be32(first.len() as u32) + first + tail, 0) is Cut,
{
    let front = be32(first.len() as u32) + first;
    let s = front + tail;
    crate::ingest::demuxer::lemma_units_shift(front, tail, 0);
    assert(num32(s, 0) == first.len());
}

/// A tag that breaks off inside a unit is refused, and leaves the demuxer as it was.
#[verifier::spinoff_prover]
#[verifier::rlimit(40)]
pub proof fn cut_units_are_refused(
    m: DemuxModel,
    head: Seq<u8>,
    units: Seq<Seq<u8>>,
    len: nat,
    part: Seq<u8>,
    timestamp: u32,
)
    requires
        m.has_video_seq_header,
        head.len() == 5,
        head[0] % 16 == 7,
        head[1] == 1,
        short_units(units),
        part.len() < len < 0x1_0000_0000,
        head.len() + length_prefixed(units).len() + 4 + part.len() <= 16 * 1024 * 1024,
    ensures
        ({
            let data = head + (length_prefixed(units) + (written(len, 4) + part));
            let r = m.with_tag(video_tag(data, timestamp));
            r.0 == m && r.1 is Fault
        }),
{
    let body = length_prefixed(units) + (written(len, 4) + part);
    let data = head + body;
    reveal_with_fuel(written, 5);
    lemma_cut(units, len, part);
    assert(data.subrange(5, data.len() as int) =~= body);
}

/// An audio tag gives a frame of exactly the bytes behind its head: two bytes for AAC, once its
/// configuration has come, and one for MP3.
pub proof fn audio_frames_hold_their_data(
    m: DemuxModel,
    first: u8,
    raw: Seq<u8>,
    timestamp: u32,
)
    requires
        raw.len() + 2 <= 16 * 1024 * 1024,
    ensures
        first / 16 == 10 && m.has_audio_seq_header ==> {
            m.with_tag(audio_tag(seq![first, 1u8] + raw, timestamp)).1 matches Demuxed::Frame(f) && {
                &&& f.data == raw
                &&& f.keyframe
                &&& f.stream_id == m.stream_id
                &&& f.track == (Track::Audio {
                    codec: AudioCodec::Aac,
                    sample_rate: m.audio_sample_rate,
                    channels: m.audio_channels,
                })
            }
        },
        first / 16 == 2 ==> {
            m.with_tag(audio_tag(seq![first] + raw, timestamp)).1 matches Demuxed::Frame(f) && {
                &&& f.data == raw
                &&& f.keyframe
                &&& f.stream_id == m.stream_id
                &&& f.track == (Track::Audio {
                    codec: AudioCodec::Mp3,
                    sample_rate: m.audio_sample_rate,
                    channels: m.audio_channels,
                })
            }
        },
{
    let aac = seq![first, 1u8] + raw;
    let mp3 = seq![first] + raw;
    assert(aac.subrange(2, aac.len() as int) =~= raw);
    assert(mp3.subrange(1, mp3.len() as int) =~= raw);
}

/// Messages of other kinds, empty ones and too large ones give no frame and change nothing; too
/// large ones are refused.
pub proof fn foreign_messages_change_nothing(m: DemuxModel, msg: MessageModel)
    ensures
        msg.data.len() == 0 || (msg.data.len() <= 16 * 1024 * 1024 && msg.msg_type
            != RtmpMessageType::Video && msg.msg_type != RtmpMessageType::Audio) ==> m.with_tag(msg)
            == (m, Demuxed::Nothing),
        msg.data.len() > 16 * 1024 * 1024 ==> m.with_tag(msg).0 == m && m.with_tag(msg).1 is Fault,
{
}

// ---------------------------------------------------------------------------
// Configurations
// ---------------------------------------------------------------------------

/// Parameter sets written one after the other, each behind its length in two bytes.
pub open spec fn written_sets(sets: Seq<Seq<u8>>) -> Seq<u8>
    decreases sets.len(),
{
    if sets.len() == 0 {
        Seq::empty()
    } else {
        written(sets[0].len(), 2) + sets[0] + written_sets(sets.drop_first())
    }
}

/// All sets are short enough for their lengths.
pub open spec fn short_sets(sets: Seq<Seq<u8>>) -> bool {
    forall|i: int| 0 <= i < sets.len() ==> (#[trigger] sets[i]).len() < 0x1_0000
}

/// Parameter sets are found again behind what stands before them.
#[verifier::spinoff_prover]
#[verifier::rlimit(40)]
pub proof fn written_sets_are_found(before: Seq<u8>, sets: Seq<Seq<u8>>, rest: Seq<u8>)
    requires
        short_sets(sets),
    ensures
        parameter_sets(
            before + (written_sets(sets) + rest),
            before.len() as int,
            sets.len(),
        ) == (sets, (before + written_sets(sets)).len() as int),
    decreases sets.len(),
{
    let s = before + (written_sets(sets) + rest);
    if sets.len() == 0 {
        assert(parameter_sets(s, before.len() as int, 0).0 =~= sets);
    } else {
        let first = sets[0];
        let tail = sets.drop_first();
        assert forall|i: int| 0 <= i < tail.len() implies (#[trigger] tail[i]).len() < 0x1_0000 by {
            assert(tail[i] == sets[i + 1]);
        }
        reveal_with_fuel(numbers_of, 3);
        written_numbers_read_back(first.len(), 2);
        let front = before + written(first.len(), 2) + first;
        let at = before.len() as int;
        assert(s =~= front + (written_sets(tail) + rest));
        assert(s.subrange(at, at + 2) =~= written(first.len(), 2));
        fields_are_read_from_the_top(s, at);
        assert(num16(s, at) == first.len());
        assert(s.subrange(at + 2, at + 2 + first.len()) =~= first);
        written_sets_are_found(front, tail, rest);
        assert(seq![first] + tail =~= sets);
        assert(before + written_sets(sets) =~= front + written_sets(tail));
    }
}

/// A decoder configuration: five bytes of profile and level, the sequence parameter sets behind
/// their number, the picture parameter sets behind theirs.
pub open spec fn decoder_config(
    front: Seq<u8>,
    upper: u8,
    sps: Seq<Seq<u8>>,
    pps: Seq<Seq<u8>>,
) -> Seq<u8> {
    front + seq![(upper * 32 + sps.len()) as u8] + written_sets(sps) + seq![pps.len() as u8]
        + written_sets(pps)
}

/// The sets of a decoder configuration are read as they were written.
#[verifier::spinoff_prover]
#[verifier::rlimit(40)]
pub proof fn decoder_configs_read_back(
    front: Seq<u8>,
    upper: u8,
    sps: Seq<Seq<u8>>,
    pps: Seq<Seq<u8>>,
)
    requires
        front.len() == 5,
        upper < 8,
        sps.len() < 32,
        pps.len() < 256,
        short_sets(sps),
        short_sets(pps),
    ensures
        DemuxModel::config_sps(decoder_config(front, upper, sps, pps)).0 == sps,
        DemuxModel::config_pps(decoder_config(front, upper, sps, pps)) == pps,
{
    let c = decoder_config(front, upper, sps, pps);
    let head = front + seq![(upper * 32 + sps.len()) as u8];
    let end = seq![pps.len() as u8] + written_sets(pps);
    assert(c =~= head + (written_sets(sps) + end));
    assert(c[5] == upper * 32 + sps.len());
    assert(c[5] % 32 == sps.len());
    written_sets_are_found(head, sps, end);
    let middle = head + written_sets(sps) + seq![pps.len() as u8];
    assert(c =~= middle + (written_sets(pps) + Seq::<u8>::empty()));
    written_sets_are_found(middle, pps, Seq::empty());
    let at = (head + written_sets(sps)).len() as int;
    assert(c[at] == pps.len());
}

/// After a video configuration the demuxer holds the last parameter set of each kind, and frames
/// may follow; where the dimensions were not known, they are 1920 by 1080. It gives no frame.
#[verifier::spinoff_prover]
#[verifier::rlimit(40)]
pub proof fn video_configs_are_taken_up(
    m: DemuxModel,
    head: Seq<u8>,
    front: Seq<u8>,
    upper: u8,
    sps: Seq<Seq<u8>>,
    pps: Seq<Seq<u8>>,
    timestamp: u32,
)
    requires
        head.len() == 5,
        head[0] % 16 == 7,
        head[1] == 0,
        front.len() == 5,
        upper < 8,
        0 < sps.len() < 32,
        0 < pps.len() < 256,
        short_sets(sps),
        short_sets(pps),
        sps.last().len() > 4,
        5 + decoder_config(front, upper, sps, pps).len() <= 16 * 1024 * 1024,
        m.video_width == 0 || (0 < m.video_width <= 3840 && 0 < m.video_height <= 2160),
    ensures
        ({
            let r = m.with_tag(
                video_tag(head + decoder_config(front, upper, sps, pps), timestamp),
            );
            &&& r.1 == Demuxed::Nothing
            &&& r.0 == (DemuxModel {
                has_video_seq_header: true,
                sps: Some(sps.last()),
                pps: Some(pps.last()),
                video_width: if m.video_width == 0 {
                    1920
                } else {
                    m.video_width
                },
                video_height: if m.video_width == 0 {
                    1080
                } else {
                    m.video_height
                },
                ..m
            })
        }),
{
    let config = decoder_config(front, upper, sps, pps);
    let data = head + config;
    decoder_configs_read_back(front, upper, sps, pps);
    assert(data.subrange(5, data.len() as int) =~= config);
    assert(sps[sps.len() - 1].len() > 4);
}

/// The sample rates by their index.
pub open spec fn rates() -> Seq<u32> {
    seq![
        96000u32, 88200u32, 64000u32, 48000u32, 44100u32, 32000u32, 24000u32, 22050u32, 16000u32,
        12000u32, 11025u32, 8000u32
    ]
}

/// An AAC configuration holds five bits of object type, four of the index of the sample rate and
/// four of the channels. After it the demuxer knows the rate, 44100 where the index stands for
/// none, and one channel or two; AAC frames may follow.
pub proof fn audio_configs_are_taken_up(
    m: DemuxModel,
    first: u8,
    config: Seq<u8>,
    object: nat,
    index: nat,
    channels: nat,
    low: nat,
    timestamp: u32,
)
    requires
        first / 16 == 10,
        2 <= config.len() <= 1024 * 1024,
        object < 32,
        index < 16,
        channels < 16,
        low < 8,
        number(config.subrange(0, 2)) == object * 2048 + index * 128 + channels * 8 + low,
    ensures
        ({
            let r = m.with_tag(audio_tag(seq![first, 0u8] + config, timestamp));
            &&& r.1 == Demuxed::Nothing
            &&& r.0 == (DemuxModel {
                has_audio_seq_header: true,
                audio_codec: Some(AudioCodec::Aac),
                audio_sample_rate: if index < 12 {
                    rates()[index as int]
                } else {
                    44100
                },
                audio_channels: if channels == 1 {
                    1
                } else {
                    2
                },
                ..m
            })
        }),
{
    let data = seq![first, 0u8] + config;
    assert(data.subrange(2, data.len() as int) =~= config);
    fields_are_read_from_the_top(config, 0);
    let n = num16(config, 0);
    assert(config[0] == n / 256 && config[1] == n % 256);
    assert(n / 256 == object * 8 + index / 2);
    assert(n % 256 == index % 2 * 128 + channels * 8 + low);
    assert(config[0] % 8 * 2 + config[1] / 128 == index);
    assert(config[1] / 8 % 16 == channels);
}

} // verus!
