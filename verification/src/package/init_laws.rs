//! What a player finds in an initialization segment, reading it box by box.

use vstd::prelude::*;
use vstd::string::*;
use vstd::utf8::*;

use crate::buffer::{be16, be32, zeros};
use crate::ingest::demux_laws::{decoder_config, decoder_configs_read_back, written_sets};
use crate::ingest::demuxer::DemuxModel;
use crate::numbers::fields_are_written_from_the_top;
use crate::package::box_laws::{
    behind, boxed, child, children, field, lemma_behind, lemma_boxed, lemma_field16, lemma_field32,
    lemma_first, lemma_full_box, lemma_only, lemma_three, lemma_two, lemma_versioned, named,
    versioned,
};
use crate::package::hls::{
    audio_trak_box, avc1_box, avcc_box, dinf_box, esds_box, field16, field32, field8, ftyp_content,
    hdlr_box, identity_matrix, init_segment, mdhd_box, moov_content, mp4a_box, mvex_box, mvhd_box,
    sps_byte, stbl_box, tkhd_box, trex_box, video_trak_box, InitModel, AVC1, AVCC, DINF, DREF, ESDS,
    FTYP, HDLR, ISO6, ISOM, MDHD, MDIA, MINF, MOOV, MP41, MP4A, MVEX, MVHD, SMHD, SOUN, STBL, STCO,
    STSC, STSD, STSZ, STTS, TKHD, TRAK, TREX, URL, VIDE, VMHD,
};

verus! {

// ---------------------------------------------------------------------------
// Sample entries
// ---------------------------------------------------------------------------

/// A decoder configuration gives the profile, its compatibility and the level out of the sequence
/// parameter set, says that units stand behind lengths of four bytes, and holds the two parameter
/// sets, each in its place.
pub open spec fn tells_decoder(avcc: Option<Seq<u8>>, sps: Seq<u8>, pps: Seq<u8>) -> bool {
    &&& avcc matches Some(c) && {
        &&& c.len() == 11 + sps.len() + pps.len()
        &&& c[0] == 1
        &&& c[1] == if sps.len() > 1 {
            sps[1]
        } else {
            100
        }
        &&& c[2] == if sps.len() > 2 {
            sps[2]
        } else {
            0
        }
        &&& c[3] == if sps.len() > 3 {
            sps[3]
        } else {
            41
        }
        &&& c[4] == 255
        &&& c[5] / 32 == 7
        &&& DemuxModel::config_sps(c).0 == seq![sps]
        &&& DemuxModel::config_pps(c) == seq![pps]
    }
}

/// The content of a decoder configuration box.
spec fn avcc_content(sps: Seq<u8>, pps: Seq<u8>) -> Seq<u8> {
    seq![1u8].push(sps_byte(sps, 1, 100)).push(sps_byte(sps, 2, 0)).push(
        sps_byte(sps, 3, 41),
    ).push(0xFF).push(0xE1) + be16(field16(sps.len() as int)) + sps + seq![1u8] + be16(
        field16(pps.len() as int),
    ) + pps
}

#[verifier::spinoff_prover]
#[verifier::rlimit(40)]
proof fn lemma_avcc_content(sps: Seq<u8>, pps: Seq<u8>)
    requires
        sps.len() < 0x1_0000,
        pps.len() < 0x1_0000,
    ensures
        ({
            let front = seq![
                1u8,
                sps_byte(sps, 1, 100),
                sps_byte(sps, 2, 0),
                sps_byte(sps, 3, 41),
                0xFFu8,
            ];
            avcc_content(sps, pps) == decoder_config(front, 7, seq![sps], seq![pps])
        }),
{
    let c = avcc_content(sps, pps);
    let front = seq![
        1u8,
        sps_byte(sps, 1, 100),
        sps_byte(sps, 2, 0),
        sps_byte(sps, 3, 41),
        0xFFu8,
    ];
    reveal_with_fuel(written_sets, 2);
    fields_are_written_from_the_top(sps.len() as u16, 0, 0);
    fields_are_written_from_the_top(pps.len() as u16, 0, 0);
    let one = seq![sps];
    let other = seq![pps];
    assert(one.drop_first() =~= Seq::<Seq<u8>>::empty());
    assert(other.drop_first() =~= Seq::<Seq<u8>>::empty());
    assert(written_sets(one) =~= be16(sps.len() as u16) + sps);
    assert(written_sets(other) =~= be16(pps.len() as u16) + pps);
    assert(c =~= decoder_config(front, 7, one, other));
}

#[verifier::spinoff_prover]
#[verifier::rlimit(40)]
proof fn lemma_avcc_head(sps: Seq<u8>, pps: Seq<u8>)
    ensures
        ({
            let c = avcc_content(sps, pps);
            &&& c.len() == 11 + sps.len() + pps.len()
            &&& c[0] == 1
            &&& c[1] == sps_byte(sps, 1, 100)
            &&& c[2] == sps_byte(sps, 2, 0)
            &&& c[3] == sps_byte(sps, 3, 41)
            &&& c[4] == 255
            &&& c[5] / 32 == 7
        }),
{
}

#[verifier::spinoff_prover]
#[verifier::rlimit(40)]
proof fn lemma_avcc(sps: Seq<u8>, pps: Seq<u8>)
    requires
        sps.len() < 0x1_0000,
        pps.len() < 0x1_0000,
    ensures
        exists|c: Seq<u8>|
            avcc_box(sps, pps) == #[trigger] boxed(AVCC, c) && tells_decoder(Some(c), sps, pps),
{
    let c = avcc_content(sps, pps);
    assert(avcc_box(sps, pps) == boxed(AVCC, c)) by {
        reveal(boxed);
    }
    assert(tells_decoder(Some(c), sps, pps)) by {
        let front = seq![
            1u8,
            sps_byte(sps, 1, 100),
            sps_byte(sps, 2, 0),
            sps_byte(sps, 3, 41),
            0xFFu8,
        ];
        lemma_avcc_head(sps, pps);
        lemma_avcc_content(sps, pps);
        decoder_configs_read_back(front, 7, seq![sps], seq![pps]);
    }
}

/// A video sample entry gives the dimensions, one picture per sample at 72 dpi and 24 bits, and the
/// decoder configuration.
pub open spec fn tells_video_entry(entry: Option<Seq<u8>>, p: InitModel) -> bool {
    &&& field(entry, 6, 2) == 1
    &&& field(entry, 24, 2) == p.width % 0x1_0000
    &&& field(entry, 26, 2) == p.height % 0x1_0000
    &&& field(entry, 28, 4) == 72 * 0x1_0000
    &&& field(entry, 32, 4) == 72 * 0x1_0000
    &&& field(entry, 40, 2) == 1
    &&& field(entry, 74, 2) == 24
    &&& field(entry, 76, 2) == 0xFFFF
    &&& children(behind(entry, 78)) == 1
    &&& tells_decoder(child(behind(entry, 78), 0, named('a', 'v', 'c', 'C')), p.sps, p.pps)
}

/// The front of a video sample entry.
spec fn avc1_front(p: InitModel) -> Seq<u8> {
    zeros(6) + be16(1) + zeros(16) + be16(field16(p.width as int)) + be16(field16(p.height as int))
        + be32(0x00480000) + be32(0x00480000) + be32(0) + be16(1) + zeros(32) + be16(0x0018)
        + be16(0xFFFF)
}

#[verifier::spinoff_prover]
#[verifier::rlimit(40)]
proof fn lemma_avc1_front(p: InitModel, rest: Seq<u8>)
    ensures
        avc1_front(p).len() == 78,
        ({
            let entry = Some(avc1_front(p) + rest);
            &&& field(entry, 6, 2) == 1
            &&& field(entry, 24, 2) == p.width % 0x1_0000
            &&& field(entry, 26, 2) == p.height % 0x1_0000
            &&& field(entry, 28, 4) == 72 * 0x1_0000
            &&& field(entry, 32, 4) == 72 * 0x1_0000
            &&& field(entry, 40, 2) == 1
            &&& field(entry, 74, 2) == 24
            &&& field(entry, 76, 2) == 0xFFFF
        }),
{
    let s = avc1_front(p) + rest;
    assert(s.subrange(6, 8) =~= be16(1));
    assert(s.subrange(24, 26) =~= be16(field16(p.width as int)));
    assert(s.subrange(26, 28) =~= be16(field16(p.height as int)));
    assert(s.subrange(28, 32) =~= be32(0x00480000));
    assert(s.subrange(32, 36) =~= be32(0x00480000));
    assert(s.subrange(40, 42) =~= be16(1));
    assert(s.subrange(74, 76) =~= be16(0x0018));
    assert(s.subrange(76, 78) =~= be16(0xFFFF));
    lemma_field16(s, 6, 1);
    lemma_field16(s, 24, field16(p.width as int));
    lemma_field16(s, 26, field16(p.height as int));
    lemma_field32(s, 28, 0x00480000);
    lemma_field32(s, 32, 0x00480000);
    lemma_field16(s, 40, 1);
    lemma_field16(s, 74, 0x0018);
    lemma_field16(s, 76, 0xFFFF);
}

#[verifier::spinoff_prover]
#[verifier::rlimit(40)]
proof fn lemma_avc1(p: InitModel)
    requires
        p.sps.len() < 0x1_0000,
        p.pps.len() < 0x1_0000,
    ensures
        exists|c: Seq<u8>|
            avc1_box(p) == #[trigger] boxed(AVC1, c) && tells_video_entry(Some(c), p) && c.len()
                < 0x10_0000,
{
    lemma_avcc(p.sps, p.pps);
    let a = choose|a: Seq<u8>|
        avcc_box(p.sps, p.pps) == #[trigger] boxed(AVCC, a) && tells_decoder(
            Some(a),
            p.sps,
            p.pps,
        );
    let front = avc1_front(p);
    let c = front + boxed(AVCC, a);
    lemma_boxed(AVCC, a);
    assert(avc1_box(p) == boxed(AVC1, c)) by {
        reveal(boxed);
    }
    lemma_avc1_front(p, boxed(AVCC, a));
    assert(c.subrange(78, c.len() as int) =~= boxed(AVCC, a));
    assert(behind(Some(c), 78) == Some(boxed(AVCC, a)));
    lemma_only(AVCC, a);
    assert(named('a', 'v', 'c', 'C') == AVCC);
}

/// The descriptors that stand one after the other in `s`, each with its tag and its content; its
/// length takes one byte. `None` if `s` is not made of whole descriptors.
pub open spec fn descriptors(s: Seq<u8>) -> Option<Seq<(u8, Seq<u8>)>>
    decreases s.len(),
{
    if s.len() == 0 {
        Some(Seq::empty())
    } else if s.len() < 2 || s[1] >= 0x80 || 2 + s[1] > s.len() {
        None
    } else {
        match descriptors(s.subrange(2 + s[1], s.len() as int)) {
            None => None,
            Some(rest) => Some(seq![(s[0], s.subrange(2, 2 + s[1]))] + rest),
        }
    }
}

proof fn lemma_descriptor(tag: u8, content: Seq<u8>, rest: Seq<u8>)
    requires
        content.len() < 0x80,
        descriptors(rest) is Some,
    ensures
        descriptors(seq![tag, content.len() as u8] + content + rest) == Some(
            seq![(tag, content)] + descriptors(rest)->0,
        ),
{
    let s = seq![tag, content.len() as u8] + content + rest;
    assert(s.subrange(2, 2 + content.len() as int) =~= content);
    assert(s.subrange(2 + content.len() as int, s.len() as int) =~= rest);
}

/// A stream descriptor holds the description of the decoder, which says MPEG-4 audio and holds the
/// configuration, and the mark of the container.
pub open spec fn tells_audio_config(esds: Option<Seq<u8>>, asc: Seq<u8>) -> bool {
    &&& field(esds, 0, 4) == 0
    &&& behind(esds, 4) matches Some(s) && descriptors(s) matches Some(stream) && {
        &&& stream.len() == 1
        &&& stream[0].0 == 3
        &&& stream[0].1.len() > 3
        &&& descriptors(stream[0].1.subrange(3, stream[0].1.len() as int)) matches Some(d) && {
            &&& d.len() == 2
            &&& d[0].0 == 4
            &&& d[0].1.len() > 13
            &&& d[0].1[0] == 0x40
            &&& d[0].1[1] == 0x15
            &&& descriptors(d[0].1.subrange(13, d[0].1.len() as int)) == Some(seq![(5u8, asc)])
            &&& d[1] == (6u8, seq![2u8])
        }
    }
}

#[verifier::spinoff_prover]
#[verifier::rlimit(40)]
proof fn lemma_esds(asc: Seq<u8>)
    requires
        asc.len() <= 100,
    ensures
        exists|c: Seq<u8>|
            esds_box(asc) == #[trigger] boxed(ESDS, c) && tells_audio_config(Some(c), asc)
                && c.len() == 29 + asc.len(),
{
    let n = asc.len() as int;
    let none = Seq::<u8>::empty();
    assert(descriptors(none) == Some(Seq::<(u8, Seq<u8>)>::empty()));
    let info = seq![5u8, n as u8] + asc;
    let d4 = seq![0x40u8, 0x15u8, 0u8, 0u8, 0u8] + be32(128000) + be32(128000) + info;
    let mark = seq![6u8, 1u8, 2u8];
    let d3 = be16(1) + seq![0u8] + (seq![4u8, (15 + n) as u8] + d4 + mark);
    let inner = seq![3u8, (23 + n) as u8] + d3;
    lemma_descriptor(5, asc, none);
    assert(seq![5u8, n as u8] + asc + none =~= info);
    let empty = Seq::<(u8, Seq<u8>)>::empty();
    assert(seq![(5u8, asc)] + empty =~= seq![(5u8, asc)]);
    assert(d4.subrange(13, d4.len() as int) =~= info);
    lemma_descriptor(6, seq![2u8], none);
    assert(seq![6u8, 1u8] + seq![2u8] + none =~= mark);
    assert(seq![(6u8, seq![2u8])] + empty =~= seq![(6u8, seq![2u8])]);
    assert(d4.len() == 15 + n);
    lemma_descriptor(4, d4, mark);
    assert(d3.subrange(3, d3.len() as int) =~= seq![4u8, (15 + n) as u8] + d4 + mark);
    assert(d3.len() == 23 + n);
    lemma_descriptor(3, d3, none);
    assert(seq![3u8, (23 + n) as u8] + d3 + none =~= inner);
    assert(seq![(3u8, d3)] + empty =~= seq![(3u8, d3)]);
    let text = (seq![0x03u8].push(field8(23int + asc.len())) + be16(1)).push(0).push(0x04).push(
        field8(15int + asc.len()),
    ).push(0x40).push(0x15).push(0).push(0).push(0).add(be32(128000)).add(be32(128000)).push(
        0x05,
    ).push(field8(0int + asc.len())).add(asc).push(0x06).push(1).push(0x02);
    assert(text =~= inner);
    lemma_full_box(ESDS, 0, 0, text);
    let c = versioned(0, 0, text);
    lemma_versioned(0, 0, text);
    assert(c.subrange(0, 4) =~= be32(0));
    lemma_field32(c, 0, 0);
    assert(behind(Some(c), 4) == Some(inner));
    assert(esds_box(asc) == boxed(ESDS, c)) by {
        reveal(boxed);
    }
}

/// An audio sample entry gives two channels of 16 bits, the sample rate in 16.16 fixed point, and
/// the stream descriptor where there is a configuration.
pub open spec fn tells_audio_entry(entry: Option<Seq<u8>>, p: InitModel) -> bool {
    &&& field(entry, 6, 2) == 1
    &&& field(entry, 16, 2) == 2
    &&& field(entry, 18, 2) == 16
    &&& field(entry, 24, 4) == p.audio_timescale % 0x1_0000 * 0x1_0000
    &&& match p.audio_specific_config {
        Some(asc) => {
            &&& children(behind(entry, 28)) == 1
            &&& tells_audio_config(child(behind(entry, 28), 0, named('e', 's', 'd', 's')), asc)
        },
        None => behind(entry, 28) == Some(Seq::<u8>::empty()),
    }
}

#[verifier::spinoff_prover]
#[verifier::rlimit(40)]
proof fn lemma_fixed_point(n: u32)
    ensures
        field32(n * 0x10000) == n % 0x1_0000 * 0x1_0000,
{
}

spec fn mp4a_front(p: InitModel) -> Seq<u8> {
    zeros(6) + be16(1) + zeros(8) + be16(2) + be16(16) + be16(0) + be16(0) + be32(
        field32(p.audio_timescale * 0x10000),
    )
}

#[verifier::spinoff_prover]
#[verifier::rlimit(40)]
proof fn lemma_mp4a_front(p: InitModel, rest: Seq<u8>)
    ensures
        mp4a_front(p).len() == 28,
        ({
            let entry = Some(mp4a_front(p) + rest);
            &&& field(entry, 6, 2) == 1
            &&& field(entry, 16, 2) == 2
            &&& field(entry, 18, 2) == 16
            &&& field(entry, 24, 4) == p.audio_timescale % 0x1_0000 * 0x1_0000
        }),
{
    let s = mp4a_front(p) + rest;
    lemma_fixed_point(p.audio_timescale);
    assert(s.subrange(6, 8) =~= be16(1));
    assert(s.subrange(16, 18) =~= be16(2));
    assert(s.subrange(18, 20) =~= be16(16));
    assert(s.subrange(24, 28) =~= be32(field32(p.audio_timescale * 0x10000)));
    lemma_field16(s, 6, 1);
    lemma_field16(s, 16, 2);
    lemma_field16(s, 18, 16);
    lemma_field32(s, 24, field32(p.audio_timescale * 0x10000));
}

proof fn lemma_mp4a(p: InitModel)
    requires
        p.audio_specific_config matches Some(asc) ==> asc.len() <= 100,
    ensures
        exists|c: Seq<u8>|
            mp4a_box(p) == #[trigger] boxed(MP4A, c) && tells_audio_entry(Some(c), p) && c.len()
                < 0x10_0000,
{
    let front = mp4a_front(p);
    assert(named('e', 's', 'd', 's') == ESDS);
    match p.audio_specific_config {
        Some(asc) => {
            lemma_esds(asc);
            let e = choose|e: Seq<u8>|
                esds_box(asc) == #[trigger] boxed(ESDS, e) && tells_audio_config(Some(e), asc)
                    && e.len() == 29 + asc.len();
            let c = front + boxed(ESDS, e);
            lemma_boxed(ESDS, e);
            lemma_mp4a_front(p, boxed(ESDS, e));
            assert(c.subrange(28, c.len() as int) =~= boxed(ESDS, e));
            assert(behind(Some(c), 28) == Some(boxed(ESDS, e)));
            lemma_only(ESDS, e);
            assert(mp4a_box(p) == boxed(MP4A, c)) by {
        reveal(boxed);
    }
        },
        None => {
            let none = Seq::<u8>::empty();
            let c = front + none;
            lemma_mp4a_front(p, none);
            assert(c.subrange(28, c.len() as int) =~= none);
            assert(mp4a_box(p) == boxed(MP4A, c)) by {
        reveal(boxed);
    }
        },
    }
}

// ---------------------------------------------------------------------------
// Tracks
// ---------------------------------------------------------------------------

/// A sample table describes one kind of sample and holds no samples.
pub open spec fn tells_table(stbl: Option<Seq<u8>>) -> bool {
    &&& children(stbl) == 5
    &&& field(child(stbl, 0, named('s', 't', 's', 'd')), 0, 4) == 0
    &&& field(child(stbl, 0, named('s', 't', 's', 'd')), 4, 4) == 1
    &&& children(behind(child(stbl, 0, named('s', 't', 's', 'd')), 8)) == 1
    &&& field(child(stbl, 1, named('s', 't', 't', 's')), 4, 4) == 0
    &&& field(child(stbl, 2, named('s', 't', 's', 'c')), 4, 4) == 0
    &&& field(child(stbl, 3, named('s', 't', 's', 'z')), 8, 4) == 0
    &&& field(child(stbl, 4, named('s', 't', 'c', 'o')), 4, 4) == 0
}

/// The entry of a sample table with the given kind.
pub open spec fn entry_of(stbl: Option<Seq<u8>>, kind: u32) -> Option<Seq<u8>> {
    child(behind(child(stbl, 0, named('s', 't', 's', 'd')), 8), 0, kind)
}

proof fn lemma_table_parts(kind: u32, entry: Seq<u8>)
    requires
        entry.len() < 0x10_0000,
    ensures
        ({
            let stsd = Some(versioned(0, 0, be32(1) + boxed(kind, entry)));
            let short = Some(versioned(0, 0, be32(0)));
            let sizes = Some(versioned(0, 0, zeros(8)));
            &&& field(stsd, 0, 4) == 0
            &&& field(stsd, 4, 4) == 1
            &&& children(behind(stsd, 8)) == 1
            &&& child(behind(stsd, 8), 0, kind) == Some(entry)
            &&& field(short, 4, 4) == 0
            &&& field(sizes, 8, 4) == 0
            &&& stsd->0.len() == 16 + entry.len()
            &&& short->0.len() == 8
            &&& sizes->0.len() == 12
        }),
{
    let s = versioned(0, 0, be32(1) + boxed(kind, entry));
    lemma_boxed(kind, entry);
    assert(s.subrange(0, 4) =~= be32(0));
    lemma_field32(s, 0, 0);
    assert(s.subrange(4, 8) =~= be32(1));
    lemma_field32(s, 4, 1);
    assert(s.subrange(8, s.len() as int) =~= boxed(kind, entry));
    assert(behind(Some(s), 8) == Some(boxed(kind, entry)));
    lemma_only(kind, entry);
    let t = versioned(0, 0, be32(0));
    assert(t.subrange(4, 8) =~= be32(0));
    lemma_field32(t, 4, 0);
    let u = versioned(0, 0, zeros(8));
    assert(u.subrange(8, 12) =~= be32(0));
    lemma_field32(u, 8, 0);
}

/// Five boxes are read one after the other.
proof fn lemma_five(
    k1: u32,
    c1: Seq<u8>,
    k2: u32,
    c2: Seq<u8>,
    k3: u32,
    c3: Seq<u8>,
    k4: u32,
    c4: Seq<u8>,
    k5: u32,
    c5: Seq<u8>,
)
    requires
        c1.len() + 8 < 0x1_0000_0000,
        c2.len() + 8 < 0x1_0000_0000,
        c3.len() + 8 < 0x1_0000_0000,
        c4.len() + 8 < 0x1_0000_0000,
        c5.len() + 8 < 0x1_0000_0000,
    ensures
        ({
            let s = Some(
                boxed(k1, c1) + boxed(k2, c2) + boxed(k3, c3) + boxed(k4, c4) + boxed(
                    k5,
                    c5,
                ),
            );
            &&& children(s) == 5
            &&& child(s, 0, k1) == Some(c1)
            &&& child(s, 1, k2) == Some(c2)
            &&& child(s, 2, k3) == Some(c3)
            &&& child(s, 3, k4) == Some(c4)
            &&& child(s, 4, k5) == Some(c5)
        }),
{
    lemma_three(k3, c3, k4, c4, k5, c5);
    let t3 = boxed(k3, c3) + boxed(k4, c4) + boxed(k5, c5);
    lemma_first(k2, c2, t3);
    let t4 = boxed(k2, c2) + t3;
    lemma_first(k1, c1, t4);
    let s = boxed(k1, c1) + boxed(k2, c2) + boxed(k3, c3) + boxed(k4, c4) + boxed(k5, c5);
    assert(s =~= boxed(k1, c1) + t4);
    assert(child(Some(s), 1, k2) == child(Some(t4), 0, k2));
    assert(child(Some(s), 2, k3) == child(Some(t4), 1, k3));
    assert(child(Some(s), 3, k4) == child(Some(t4), 2, k4));
    assert(child(Some(s), 4, k5) == child(Some(t4), 3, k5));
    assert(child(Some(t4), 1, k3) == child(Some(t3), 0, k3));
    assert(child(Some(t4), 2, k4) == child(Some(t3), 1, k4));
    assert(child(Some(t4), 3, k5) == child(Some(t3), 2, k5));
}

#[verifier::spinoff_prover]
#[verifier::rlimit(40)]
proof fn lemma_table(kind: u32, entry: Seq<u8>)
    requires
        entry.len() < 0x10_0000,
    ensures
        exists|c: Seq<u8>|
            stbl_box(boxed(kind, entry)) == #[trigger] boxed(STBL, c) && tells_table(Some(c))
                && entry_of(Some(c), kind) == Some(entry) && c.len() < 0x11_0000,
{
    let stsd = versioned(0, 0, be32(1) + boxed(kind, entry));
    let short = versioned(0, 0, be32(0));
    let sizes = versioned(0, 0, zeros(8));
    let c = boxed(STSD, stsd) + boxed(STTS, short) + boxed(STSC, short) + boxed(STSZ, sizes)
        + boxed(STCO, short);
    lemma_boxed(kind, entry);
    lemma_boxed(STSD, stsd);
    lemma_boxed(STTS, short);
    lemma_boxed(STSC, short);
    lemma_boxed(STSZ, sizes);
    lemma_boxed(STCO, short);
    lemma_full_box(STSD, 0, 0, be32(1) + boxed(kind, entry));
    lemma_full_box(STTS, 0, 0, be32(0));
    lemma_full_box(STSC, 0, 0, be32(0));
    lemma_full_box(STSZ, 0, 0, zeros(8));
    lemma_full_box(STCO, 0, 0, be32(0));
    assert(stbl_box(boxed(kind, entry)) == boxed(STBL, c)) by {
        reveal(boxed);
    }
    lemma_table_parts(kind, entry);
    lemma_five(STSD, stsd, STTS, short, STSC, short, STSZ, sizes, STCO, short);
    lemma_track_names();
}

proof fn lemma_track_names()
    ensures
        named('t', 'r', 'a', 'k') == TRAK,
        named('t', 'k', 'h', 'd') == TKHD,
        named('m', 'd', 'i', 'a') == MDIA,
        named('m', 'd', 'h', 'd') == MDHD,
        named('h', 'd', 'l', 'r') == HDLR,
        named('v', 'i', 'd', 'e') == VIDE,
        named('s', 'o', 'u', 'n') == SOUN,
        named('m', 'i', 'n', 'f') == MINF,
        named('v', 'm', 'h', 'd') == VMHD,
        named('s', 'm', 'h', 'd') == SMHD,
        named('d', 'i', 'n', 'f') == DINF,
        named('d', 'r', 'e', 'f') == DREF,
        named('u', 'r', 'l', ' ') == URL,
        named('s', 't', 'b', 'l') == STBL,
        named('s', 't', 's', 'd') == STSD,
        named('s', 't', 't', 's') == STTS,
        named('s', 't', 's', 'c') == STSC,
        named('s', 't', 's', 'z') == STSZ,
        named('s', 't', 'c', 'o') == STCO,
        named('a', 'v', 'c', '1') == AVC1,
        named('m', 'p', '4', 'a') == MP4A,
        named('m', 'v', 'e', 'x') == MVEX,
        named('t', 'r', 'e', 'x') == TREX,
        named('m', 'v', 'h', 'd') == MVHD,
        named('m', 'o', 'o', 'v') == MOOV,
        named('f', 't', 'y', 'p') == FTYP,
        named('i', 's', 'o', 'm') == ISOM,
        named('i', 's', 'o', '6') == ISO6,
        named('m', 'p', '4', '1') == MP41,
{
}

/// A track header says that the track is enabled and in the movie, and gives its number, its volume
/// and, in 16.16 fixed point, its dimensions.
pub open spec fn tells_track_header(
    tkhd: Option<Seq<u8>>,
    track_id: int,
    volume: int,
    width: int,
    height: int,
) -> bool {
    &&& tkhd matches Some(s) && s.len() == 84
    &&& field(tkhd, 0, 1) == 0
    &&& field(tkhd, 1, 3) == 3
    &&& field(tkhd, 12, 4) == track_id
    &&& field(tkhd, 36, 2) == volume
    &&& field(tkhd, 40, 4) == 0x1_0000
    &&& field(tkhd, 56, 4) == 0x1_0000
    &&& field(tkhd, 72, 4) == 0x4000_0000
    &&& field(tkhd, 76, 4) == width % 0x1_0000 * 0x1_0000
    &&& field(tkhd, 80, 4) == height % 0x1_0000 * 0x1_0000
}

spec fn tkhd_content(track_id: u32, width: u32, height: u32, is_video: bool) -> Seq<u8> {
    be32(0) + be32(0) + be32(track_id) + be32(0) + be32(0) + zeros(8) + be16(0) + be16(0) + be16(
        if is_video {
            0
        } else {
            0x0100
        },
    ) + be16(0) + identity_matrix() + be32(field32(width * 0x10000)) + be32(
        field32(height * 0x10000),
    )
}

#[verifier::spinoff_prover]
#[verifier::rlimit(40)]
proof fn lemma_track_header(track_id: u32, width: u32, height: u32, is_video: bool)
    ensures
        exists|c: Seq<u8>|
            tkhd_box(track_id, width, height, is_video) == #[trigger] boxed(TKHD, c)
                && tells_track_header(
                Some(c),
                track_id as int,
                if is_video {
                    0
                } else {
                    0x100
                },
                width as int,
                height as int,
            ),
{
    let content = tkhd_content(track_id, width, height, is_video);
    let c = versioned(0, 3, content);
    let volume: u16 = if is_video {
        0
    } else {
        0x0100
    };
    assert(content.len() == 80);
    lemma_full_box(TKHD, 0, 3, content);
    lemma_versioned(0, 3, content);
    lemma_fixed_point(width);
    lemma_fixed_point(height);
    assert(content.subrange(8, 12) =~= be32(track_id));
    assert(content.subrange(32, 34) =~= be16(volume));
    assert(content.subrange(36, 40) =~= be32(0x10000));
    assert(content.subrange(52, 56) =~= be32(0x10000));
    assert(content.subrange(68, 72) =~= be32(0x40000000));
    assert(content.subrange(72, 76) =~= be32(field32(width * 0x10000)));
    assert(content.subrange(76, 80) =~= be32(field32(height * 0x10000)));
    lemma_field32(content, 8, track_id);
    lemma_field16(content, 32, volume);
    lemma_field32(content, 36, 0x10000);
    lemma_field32(content, 52, 0x10000);
    lemma_field32(content, 68, 0x40000000);
    lemma_field32(content, 72, field32(width * 0x10000));
    lemma_field32(content, 76, field32(height * 0x10000));
    lemma_behind(0, 3, content, 8, 4);
    lemma_behind(0, 3, content, 32, 2);
    lemma_behind(0, 3, content, 36, 4);
    lemma_behind(0, 3, content, 52, 4);
    lemma_behind(0, 3, content, 68, 4);
    lemma_behind(0, 3, content, 72, 4);
    lemma_behind(0, 3, content, 76, 4);
    assert(tkhd_box(track_id, width, height, is_video) == boxed(TKHD, c)) by {
        reveal(boxed);
    }
}

/// A media header gives the timescale and the language "und".
pub open spec fn tells_media_header(mdhd: Option<Seq<u8>>, timescale: int) -> bool {
    &&& mdhd matches Some(s) && s.len() == 24
    &&& field(mdhd, 0, 4) == 0
    &&& field(mdhd, 12, 4) == timescale
    &&& field(mdhd, 20, 2) == 0x55C4
}

proof fn lemma_media_header(timescale: u32)
    ensures
        exists|c: Seq<u8>|
            mdhd_box(timescale) == #[trigger] boxed(MDHD, c) && tells_media_header(
                Some(c),
                timescale as int,
            ),
{
    let content = be32(0) + be32(0) + be32(timescale) + be32(0) + be16(0x55C4) + be16(0);
    let c = versioned(0, 0, content);
    lemma_full_box(MDHD, 0, 0, content);
    assert(c.subrange(0, 4) =~= be32(0));
    assert(c.subrange(12, 16) =~= be32(timescale));
    assert(c.subrange(20, 22) =~= be16(0x55C4));
    lemma_field32(c, 0, 0);
    lemma_field32(c, 12, timescale);
    lemma_field16(c, 20, 0x55C4);
    assert(mdhd_box(timescale) == boxed(MDHD, c)) by {
        reveal(boxed);
    }
}

/// A handler gives the type of its track, and its name with a zero byte behind it.
pub open spec fn tells_handler(hdlr: Option<Seq<u8>>, handler: u32, name: Seq<char>) -> bool {
    &&& field(hdlr, 0, 4) == 0
    &&& field(hdlr, 8, 4) == handler
    &&& behind(hdlr, 24) == Some(encode_utf8(name).push(0))
}

proof fn lemma_handler(handler: u32, name: Seq<char>)
    requires
        encode_utf8(name).len() < 100,
    ensures
        exists|c: Seq<u8>|
            hdlr_box(handler, name) == #[trigger] boxed(HDLR, c) && tells_handler(
                Some(c),
                handler,
                name,
            ) && c.len() < 200,
{
    let bytes = encode_utf8(name);
    let content = be32(0) + be32(handler) + zeros(12) + bytes + seq![0u8];
    let c = versioned(0, 0, content);
    lemma_full_box(HDLR, 0, 0, content);
    assert(c.subrange(0, 4) =~= be32(0));
    assert(c.subrange(8, 12) =~= be32(handler));
    lemma_field32(c, 0, 0);
    lemma_field32(c, 8, handler);
    assert(c.subrange(24, c.len() as int) =~= bytes.push(0));
    assert(hdlr_box(handler, name) == boxed(HDLR, c)) by {
        reveal(boxed);
    }
}

/// The data reference names one place, the file itself.
pub open spec fn tells_data_reference(dinf: Option<Seq<u8>>) -> bool {
    let dref = child(dinf, 0, named('d', 'r', 'e', 'f'));
    let url = child(behind(dref, 8), 0, named('u', 'r', 'l', ' '));
    &&& children(dinf) == 1
    &&& field(dref, 0, 4) == 0
    &&& field(dref, 4, 4) == 1
    &&& children(behind(dref, 8)) == 1
    &&& field(url, 0, 4) == 1
    &&& url matches Some(s) && s.len() == 4
}

proof fn lemma_data_reference()
    ensures
        exists|c: Seq<u8>|
            dinf_box() == #[trigger] boxed(DINF, c) && tells_data_reference(Some(c)) && c.len()
                == 28,
{
    let none = Seq::<u8>::empty();
    let url = versioned(0, 1, none);
    lemma_full_box(URL, 0, 1, none);
    assert(url.subrange(0, 4) =~= be32(1));
    lemma_field32(url, 0, 1);
    let entries = be32(1) + boxed(URL, url);
    lemma_boxed(URL, url);
    let dref = versioned(0, 0, entries);
    lemma_full_box(DREF, 0, 0, entries);
    assert(dref.subrange(0, 4) =~= be32(0));
    lemma_field32(dref, 0, 0);
    assert(dref.subrange(4, 8) =~= be32(1));
    lemma_field32(dref, 4, 1);
    assert(dref.subrange(8, dref.len() as int) =~= boxed(URL, url));
    assert(behind(Some(dref), 8) == Some(boxed(URL, url)));
    lemma_only(URL, url);
    let c = boxed(DREF, dref);
    lemma_boxed(DREF, dref);
    lemma_only(DREF, dref);
    lemma_track_names();
    assert(dinf_box() == boxed(DINF, c)) by {
        reveal(boxed);
    }
}

/// A track: its header, and in its media the header, the handler and the information, which holds
/// a header of its own, the data reference and the sample table.
pub open spec fn tells_track(
    trak: Option<Seq<u8>>,
    track_id: int,
    volume: int,
    width: int,
    height: int,
    timescale: int,
    handler: u32,
    name: Seq<char>,
) -> bool {
    let mdia = child(trak, 1, named('m', 'd', 'i', 'a'));
    let minf = child(mdia, 2, named('m', 'i', 'n', 'f'));
    &&& children(trak) == 2
    &&& tells_track_header(
        child(trak, 0, named('t', 'k', 'h', 'd')),
        track_id,
        volume,
        width,
        height,
    )
    &&& children(mdia) == 3
    &&& tells_media_header(child(mdia, 0, named('m', 'd', 'h', 'd')), timescale)
    &&& tells_handler(child(mdia, 1, named('h', 'd', 'l', 'r')), handler, name)
    &&& children(minf) == 3
    &&& tells_data_reference(child(minf, 1, named('d', 'i', 'n', 'f')))
    &&& tells_table(table_of(trak))
}

/// The media information of a track.
pub open spec fn information_of(trak: Option<Seq<u8>>) -> Option<Seq<u8>> {
    child(child(trak, 1, named('m', 'd', 'i', 'a')), 2, named('m', 'i', 'n', 'f'))
}

/// The sample table of a track.
pub open spec fn table_of(trak: Option<Seq<u8>>) -> Option<Seq<u8>> {
    child(information_of(trak), 2, named('s', 't', 'b', 'l'))
}

/// What a track box is made of.
spec fn trak_of(
    tkhd: Seq<u8>,
    mdhd: Seq<u8>,
    hdlr: Seq<u8>,
    head_kind: u32,
    head: Seq<u8>,
    dinf: Seq<u8>,
    stbl: Seq<u8>,
) -> Seq<u8> {
    boxed(TKHD, tkhd) + boxed(
        MDIA,
        boxed(MDHD, mdhd) + boxed(HDLR, hdlr) + boxed(
            MINF,
            boxed(head_kind, head) + boxed(DINF, dinf) + boxed(STBL, stbl),
        ),
    )
}

#[verifier::spinoff_prover]
#[verifier::rlimit(40)]
proof fn lemma_trak(
    tkhd: Seq<u8>,
    mdhd: Seq<u8>,
    hdlr: Seq<u8>,
    head_kind: u32,
    head: Seq<u8>,
    dinf: Seq<u8>,
    stbl: Seq<u8>,
)
    requires
        tkhd.len() < 0x1000,
        mdhd.len() < 0x1000,
        hdlr.len() < 0x1000,
        head.len() < 0x1000,
        dinf.len() < 0x1000,
        stbl.len() < 0x11_0000,
    ensures
        ({
            let s = trak_of(tkhd, mdhd, hdlr, head_kind, head, dinf, stbl);
            let trak = Some(s);
            let mdia = child(trak, 1, named('m', 'd', 'i', 'a'));
            &&& s.len() < 0x20_0000
            &&& children(trak) == 2
            &&& child(trak, 0, named('t', 'k', 'h', 'd')) == Some(tkhd)
            &&& children(mdia) == 3
            &&& child(mdia, 0, named('m', 'd', 'h', 'd')) == Some(mdhd)
            &&& child(mdia, 1, named('h', 'd', 'l', 'r')) == Some(hdlr)
            &&& children(information_of(trak)) == 3
            &&& child(information_of(trak), 0, head_kind) == Some(head)
            &&& child(information_of(trak), 1, named('d', 'i', 'n', 'f')) == Some(dinf)
            &&& table_of(trak) == Some(stbl)
        }),
{
    let minf = boxed(head_kind, head) + boxed(DINF, dinf) + boxed(STBL, stbl);
    lemma_boxed(head_kind, head);
    lemma_boxed(DINF, dinf);
    lemma_boxed(STBL, stbl);
    lemma_three(head_kind, head, DINF, dinf, STBL, stbl);
    assert(minf.len() == 24 + head.len() + dinf.len() + stbl.len());
    let mdia = boxed(MDHD, mdhd) + boxed(HDLR, hdlr) + boxed(MINF, minf);
    lemma_boxed(MDHD, mdhd);
    lemma_boxed(HDLR, hdlr);
    lemma_boxed(MINF, minf);
    lemma_boxed(TKHD, tkhd);
    lemma_boxed(MDIA, mdia);
    lemma_three(MDHD, mdhd, HDLR, hdlr, MINF, minf);
    assert(mdia.len() == 24 + mdhd.len() + hdlr.len() + minf.len());
    lemma_two(TKHD, tkhd, MDIA, mdia);
    lemma_track_names();
}

proof fn lemma_handler_names()
    ensures
        encode_utf8("VideoHandler"@).len() == 12,
        encode_utf8("SoundHandler"@).len() == 12,
{
    reveal_strlit("VideoHandler");
    reveal_strlit("SoundHandler");
    is_ascii_chars_encode_utf8("VideoHandler"@);
    is_ascii_chars_encode_utf8("SoundHandler"@);
}

/// The video track: number 1, with the dimensions and the video timescale, and an H.264 entry.
pub open spec fn tells_video_track(trak: Option<Seq<u8>>, p: InitModel) -> bool {
    &&& tells_track(
        trak,
        1,
        0,
        p.width as int,
        p.height as int,
        p.video_timescale as int,
        named('v', 'i', 'd', 'e'),
        "VideoHandler"@,
    )
    &&& field(child(information_of(trak), 0, named('v', 'm', 'h', 'd')), 0, 4) == 1
    &&& tells_video_entry(entry_of(table_of(trak), named('a', 'v', 'c', '1')), p)
}

#[verifier::spinoff_prover]
#[verifier::rlimit(40)]
proof fn lemma_video_track(p: InitModel)
    requires
        p.sps.len() < 0x1_0000,
        p.pps.len() < 0x1_0000,
    ensures
        exists|c: Seq<u8>|
            video_trak_box(p) == #[trigger] boxed(TRAK, c) && tells_video_track(Some(c), p)
                && c.len() < 0x20_0000,
{
    lemma_track_header(1, p.width, p.height, true);
    let tkhd = choose|c: Seq<u8>|
        tkhd_box(1, p.width, p.height, true) == #[trigger] boxed(TKHD, c) && tells_track_header(
            Some(c),
            1,
            0,
            p.width as int,
            p.height as int,
        );
    lemma_media_header(p.video_timescale);
    let mdhd = choose|c: Seq<u8>|
        mdhd_box(p.video_timescale) == #[trigger] boxed(MDHD, c) && tells_media_header(
            Some(c),
            p.video_timescale as int,
        );
    lemma_handler_names();
    lemma_handler(VIDE, "VideoHandler"@);
    let hdlr = choose|c: Seq<u8>|
        hdlr_box(VIDE, "VideoHandler"@) == #[trigger] boxed(HDLR, c) && tells_handler(
            Some(c),
            VIDE,
            "VideoHandler"@,
        ) && c.len() < 200;
    lemma_data_reference();
    let dinf = choose|c: Seq<u8>|
        dinf_box() == #[trigger] boxed(DINF, c) && tells_data_reference(Some(c)) && c.len() == 28;
    lemma_avc1(p);
    let entry = choose|c: Seq<u8>|
        avc1_box(p) == #[trigger] boxed(AVC1, c) && tells_video_entry(Some(c), p) && c.len()
            < 0x10_0000;
    lemma_table(AVC1, entry);
    let stbl = choose|c: Seq<u8>|
        stbl_box(boxed(AVC1, entry)) == #[trigger] boxed(STBL, c) && tells_table(Some(c))
            && entry_of(Some(c), AVC1) == Some(entry) && c.len() < 0x11_0000;
    let head = versioned(0, 1, zeros(8));
    lemma_full_box(VMHD, 0, 1, zeros(8));
    assert(head.subrange(0, 4) =~= be32(1));
    lemma_field32(head, 0, 1);
    lemma_trak(tkhd, mdhd, hdlr, VMHD, head, dinf, stbl);
    lemma_track_names();
    let c = trak_of(tkhd, mdhd, hdlr, VMHD, head, dinf, stbl);
    assert(video_trak_box(p) == boxed(TRAK, c)) by {
        reveal(boxed);
    }
}

/// The audio track: number 2, with full volume and the audio timescale, and an AAC entry.
pub open spec fn tells_audio_track(trak: Option<Seq<u8>>, p: InitModel) -> bool {
    &&& tells_track(
        trak,
        2,
        0x100,
        0,
        0,
        p.audio_timescale as int,
        named('s', 'o', 'u', 'n'),
        "SoundHandler"@,
    )
    &&& field(child(information_of(trak), 0, named('s', 'm', 'h', 'd')), 0, 4) == 0
    &&& tells_audio_entry(entry_of(table_of(trak), named('m', 'p', '4', 'a')), p)
}

#[verifier::spinoff_prover]
#[verifier::rlimit(40)]
proof fn lemma_audio_track(p: InitModel)
    requires
        p.audio_specific_config matches Some(asc) ==> asc.len() <= 100,
    ensures
        exists|c: Seq<u8>|
            audio_trak_box(p) == #[trigger] boxed(TRAK, c) && tells_audio_track(Some(c), p)
                && c.len() < 0x20_0000,
{
    lemma_track_header(2, 0, 0, false);
    let tkhd = choose|c: Seq<u8>|
        tkhd_box(2, 0, 0, false) == #[trigger] boxed(TKHD, c) && tells_track_header(
            Some(c),
            2,
            0x100,
            0,
            0,
        );
    lemma_media_header(p.audio_timescale);
    let mdhd = choose|c: Seq<u8>|
        mdhd_box(p.audio_timescale) == #[trigger] boxed(MDHD, c) && tells_media_header(
            Some(c),
            p.audio_timescale as int,
        );
    lemma_handler_names();
    lemma_handler(SOUN, "SoundHandler"@);
    let hdlr = choose|c: Seq<u8>|
        hdlr_box(SOUN, "SoundHandler"@) == #[trigger] boxed(HDLR, c) && tells_handler(
            Some(c),
            SOUN,
            "SoundHandler"@,
        ) && c.len() < 200;
    lemma_data_reference();
    let dinf = choose|c: Seq<u8>|
        dinf_box() == #[trigger] boxed(DINF, c) && tells_data_reference(Some(c)) && c.len() == 28;
    lemma_mp4a(p);
    let entry = choose|c: Seq<u8>|
        mp4a_box(p) == #[trigger] boxed(MP4A, c) && tells_audio_entry(Some(c), p) && c.len()
            < 0x10_0000;
    lemma_table(MP4A, entry);
    let stbl = choose|c: Seq<u8>|
        stbl_box(boxed(MP4A, entry)) == #[trigger] boxed(STBL, c) && tells_table(Some(c))
            && entry_of(Some(c), MP4A) == Some(entry) && c.len() < 0x11_0000;
    let head = versioned(0, 0, zeros(4));
    lemma_full_box(SMHD, 0, 0, zeros(4));
    assert(head.subrange(0, 4) =~= be32(0));
    lemma_field32(head, 0, 0);
    lemma_trak(tkhd, mdhd, hdlr, SMHD, head, dinf, stbl);
    lemma_track_names();
    let c = trak_of(tkhd, mdhd, hdlr, SMHD, head, dinf, stbl);
    assert(audio_trak_box(p) == boxed(TRAK, c)) by {
        reveal(boxed);
    }
}

// ---------------------------------------------------------------------------
// The movie
// ---------------------------------------------------------------------------

/// A movie header gives the timescale, an unknown duration, normal speed and volume, and the next
/// track number.
pub open spec fn tells_movie_header(mvhd: Option<Seq<u8>>, timescale: int) -> bool {
    &&& mvhd matches Some(s) && s.len() == 100
    &&& field(mvhd, 0, 4) == 0
    &&& field(mvhd, 12, 4) == timescale
    &&& field(mvhd, 16, 4) == 0
    &&& field(mvhd, 20, 4) == 0x1_0000
    &&& field(mvhd, 24, 2) == 0x100
    &&& field(mvhd, 36, 4) == 0x1_0000
    &&& field(mvhd, 52, 4) == 0x1_0000
    &&& field(mvhd, 68, 4) == 0x4000_0000
    &&& field(mvhd, 96, 4) == 2
}

#[verifier::spinoff_prover]
#[verifier::rlimit(40)]
proof fn lemma_movie_header(timescale: u32)
    ensures
        exists|c: Seq<u8>|
            mvhd_box(timescale) == #[trigger] boxed(MVHD, c) && tells_movie_header(
                Some(c),
                timescale as int,
            ),
{
    let content = be32(0) + be32(0) + be32(timescale) + be32(0) + be32(0x00010000) + be16(0x0100)
        + zeros(10) + identity_matrix() + zeros(24) + be32(2);
    let c = versioned(0, 0, content);
    assert(content.len() == 96);
    lemma_full_box(MVHD, 0, 0, content);
    assert(c.subrange(0, 4) =~= be32(0));
    lemma_field32(c, 0, 0);
    assert(content.subrange(8, 12) =~= be32(timescale));
    assert(content.subrange(12, 16) =~= be32(0));
    assert(content.subrange(16, 20) =~= be32(0x10000));
    assert(content.subrange(20, 22) =~= be16(0x100));
    assert(content.subrange(32, 36) =~= be32(0x10000));
    assert(content.subrange(48, 52) =~= be32(0x10000));
    assert(content.subrange(64, 68) =~= be32(0x40000000));
    assert(content.subrange(92, 96) =~= be32(2));
    lemma_field32(content, 8, timescale);
    lemma_field32(content, 12, 0);
    lemma_field32(content, 16, 0x10000);
    lemma_field16(content, 20, 0x100);
    lemma_field32(content, 32, 0x10000);
    lemma_field32(content, 48, 0x10000);
    lemma_field32(content, 64, 0x40000000);
    lemma_field32(content, 92, 2);
    lemma_behind(0, 0, content, 8, 4);
    lemma_behind(0, 0, content, 12, 4);
    lemma_behind(0, 0, content, 16, 4);
    lemma_behind(0, 0, content, 20, 2);
    lemma_behind(0, 0, content, 32, 4);
    lemma_behind(0, 0, content, 48, 4);
    lemma_behind(0, 0, content, 64, 4);
    lemma_behind(0, 0, content, 92, 4);
    assert(mvhd_box(timescale) == boxed(MVHD, c)) by {
        reveal(boxed);
    }
}

/// The defaults of a track's fragments: its number, the first kind of sample, and nothing else.
pub open spec fn tells_defaults(trex: Option<Seq<u8>>, track_id: int) -> bool {
    &&& trex matches Some(s) && s.len() == 24
    &&& field(trex, 0, 4) == 0
    &&& field(trex, 4, 4) == track_id
    &&& field(trex, 8, 4) == 1
    &&& field(trex, 12, 4) == 0
    &&& field(trex, 16, 4) == 0
    &&& field(trex, 20, 4) == 0
}

proof fn lemma_defaults(track_id: u32)
    ensures
        exists|c: Seq<u8>|
            trex_box(track_id) == #[trigger] boxed(TREX, c) && tells_defaults(
                Some(c),
                track_id as int,
            ),
{
    let content = be32(track_id) + be32(1) + be32(0) + be32(0) + be32(0);
    let c = versioned(0, 0, content);
    lemma_full_box(TREX, 0, 0, content);
    assert(c.subrange(0, 4) =~= be32(0));
    assert(c.subrange(4, 8) =~= be32(track_id));
    assert(c.subrange(8, 12) =~= be32(1));
    assert(c.subrange(12, 16) =~= be32(0));
    assert(c.subrange(16, 20) =~= be32(0));
    assert(c.subrange(20, 24) =~= be32(0));
    lemma_field32(c, 0, 0);
    lemma_field32(c, 4, track_id);
    lemma_field32(c, 8, 1);
    lemma_field32(c, 12, 0);
    lemma_field32(c, 16, 0);
    lemma_field32(c, 20, 0);
    assert(trex_box(track_id) == boxed(TREX, c)) by {
        reveal(boxed);
    }
}

/// The defaults of all tracks.
pub open spec fn tells_all_defaults(mvex: Option<Seq<u8>>, has_audio: bool) -> bool {
    &&& children(mvex) == if has_audio {
        2int
    } else {
        1
    }
    &&& tells_defaults(child(mvex, 0, named('t', 'r', 'e', 'x')), 1)
    &&& has_audio ==> tells_defaults(child(mvex, 1, named('t', 'r', 'e', 'x')), 2)
}

proof fn lemma_all_defaults(has_audio: bool)
    ensures
        exists|c: Seq<u8>|
            mvex_box(has_audio) == #[trigger] boxed(MVEX, c) && tells_all_defaults(
                Some(c),
                has_audio,
            ) && c.len() < 100,
{
    lemma_defaults(1);
    lemma_defaults(2);
    lemma_track_names();
    let a = choose|c: Seq<u8>|
        trex_box(1) == #[trigger] boxed(TREX, c) && tells_defaults(Some(c), 1);
    let b = choose|c: Seq<u8>|
        trex_box(2) == #[trigger] boxed(TREX, c) && tells_defaults(Some(c), 2);
    if has_audio {
        let c = boxed(TREX, a) + boxed(TREX, b);
        lemma_boxed(TREX, a);
        lemma_boxed(TREX, b);
        lemma_two(TREX, a, TREX, b);
        assert(mvex_box(has_audio) == boxed(MVEX, c)) by {
        reveal(boxed);
    }
    } else {
        let c = boxed(TREX, a);
        lemma_boxed(TREX, a);
        lemma_only(TREX, a);
        assert(trex_box(1) + Seq::<u8>::empty() =~= trex_box(1));
        assert(mvex_box(has_audio) == boxed(MVEX, c)) by {
        reveal(boxed);
    }
    }
}

/// A file type: major brand, version and the brands that it is compatible with.
pub open spec fn tells_file_type(ftyp: Option<Seq<u8>>) -> bool {
    &&& ftyp matches Some(s) && s.len() == 20
    &&& field(ftyp, 0, 4) == named('i', 's', 'o', 'm')
    &&& field(ftyp, 4, 4) == 0x200
    &&& field(ftyp, 8, 4) == named('i', 's', 'o', 'm')
    &&& field(ftyp, 12, 4) == named('i', 's', 'o', '6')
    &&& field(ftyp, 16, 4) == named('m', 'p', '4', '1')
}

proof fn lemma_file_type()
    ensures
        tells_file_type(Some(ftyp_content())),
{
    reveal(ftyp_content);
    lemma_track_names();
    let c = ftyp_content();
    assert(c.subrange(0, 4) =~= be32(ISOM));
    assert(c.subrange(4, 8) =~= be32(0x200));
    assert(c.subrange(8, 12) =~= be32(ISOM));
    assert(c.subrange(12, 16) =~= be32(ISO6));
    assert(c.subrange(16, 20) =~= be32(MP41));
    lemma_field32(c, 0, ISOM);
    lemma_field32(c, 4, 0x200);
    lemma_field32(c, 8, ISOM);
    lemma_field32(c, 12, ISO6);
    lemma_field32(c, 16, MP41);
}

/// What a movie box says: its header, the video track, the audio track where there is one, and the
/// defaults of their fragments.
pub open spec fn tells_movie(moov: Option<Seq<u8>>, p: InitModel) -> bool {
    &&& children(moov) == if p.has_audio {
        4int
    } else {
        3
    }
    &&& tells_movie_header(child(moov, 0, named('m', 'v', 'h', 'd')), p.video_timescale as int)
    &&& tells_video_track(child(moov, 1, named('t', 'r', 'a', 'k')), p)
    &&& p.has_audio ==> tells_audio_track(child(moov, 2, named('t', 'r', 'a', 'k')), p)
    &&& tells_all_defaults(
        child(
            moov,
            if p.has_audio {
                3
            } else {
                2
            },
            named('m', 'v', 'e', 'x'),
        ),
        p.has_audio,
    )
}

/// Four boxes are read one after the other.
proof fn lemma_four(
    k1: u32,
    c1: Seq<u8>,
    k2: u32,
    c2: Seq<u8>,
    k3: u32,
    c3: Seq<u8>,
    k4: u32,
    c4: Seq<u8>,
)
    requires
        c1.len() + 8 < 0x1_0000_0000,
        c2.len() + 8 < 0x1_0000_0000,
        c3.len() + 8 < 0x1_0000_0000,
        c4.len() + 8 < 0x1_0000_0000,
    ensures
        ({
            let s = Some(boxed(k1, c1) + boxed(k2, c2) + boxed(k3, c3) + boxed(k4, c4));
            &&& children(s) == 4
            &&& child(s, 0, k1) == Some(c1)
            &&& child(s, 1, k2) == Some(c2)
            &&& child(s, 2, k3) == Some(c3)
            &&& child(s, 3, k4) == Some(c4)
        }),
{
    lemma_three(k2, c2, k3, c3, k4, c4);
    let tail = boxed(k2, c2) + boxed(k3, c3) + boxed(k4, c4);
    lemma_first(k1, c1, tail);
    let s = boxed(k1, c1) + boxed(k2, c2) + boxed(k3, c3) + boxed(k4, c4);
    assert(s =~= boxed(k1, c1) + tail);
    assert(child(Some(s), 1, k2) == child(Some(tail), 0, k2));
    assert(child(Some(s), 2, k3) == child(Some(tail), 1, k3));
    assert(child(Some(s), 3, k4) == child(Some(tail), 2, k4));
}

#[verifier::spinoff_prover]
#[verifier::rlimit(40)]
proof fn lemma_movie(p: InitModel)
    requires
        p.sps.len() < 0x1_0000,
        p.pps.len() < 0x1_0000,
        p.audio_specific_config matches Some(asc) ==> asc.len() <= 100,
    ensures
        tells_movie(Some(moov_content(p)), p),
        moov_content(p).len() < 0x60_0000,
{
    lemma_movie_header(p.video_timescale);
    let mvhd = choose|c: Seq<u8>|
        mvhd_box(p.video_timescale) == #[trigger] boxed(MVHD, c) && tells_movie_header(
            Some(c),
            p.video_timescale as int,
        );
    lemma_video_track(p);
    let video = choose|c: Seq<u8>|
        video_trak_box(p) == #[trigger] boxed(TRAK, c) && tells_video_track(Some(c), p) && c.len()
            < 0x20_0000;
    lemma_all_defaults(p.has_audio);
    let mvex = choose|c: Seq<u8>|
        mvex_box(p.has_audio) == #[trigger] boxed(MVEX, c) && tells_all_defaults(
            Some(c),
            p.has_audio,
        ) && c.len() < 100;
    assert(mvhd.len() == 100);
    lemma_boxed(MVHD, mvhd);
    lemma_boxed(TRAK, video);
    lemma_boxed(MVEX, mvex);
    if p.has_audio {
        lemma_audio_track(p);
        let audio = choose|c: Seq<u8>|
            audio_trak_box(p) == #[trigger] boxed(TRAK, c) && tells_audio_track(Some(c), p)
                && c.len() < 0x20_0000;
        lemma_boxed(TRAK, audio);
        lemma_movie_with_audio(p, mvhd, video, audio, mvex);
    } else {
        lemma_movie_without_audio(p, mvhd, video, mvex);
    }
}

proof fn lemma_movie_with_audio(
    p: InitModel,
    mvhd: Seq<u8>,
    video: Seq<u8>,
    audio: Seq<u8>,
    mvex: Seq<u8>,
)
    requires
        p.has_audio,
        mvhd_box(p.video_timescale) == boxed(MVHD, mvhd),
        video_trak_box(p) == boxed(TRAK, video),
        audio_trak_box(p) == boxed(TRAK, audio),
        mvex_box(true) == boxed(MVEX, mvex),
        mvhd.len() == 100,
        video.len() < 0x20_0000,
        audio.len() < 0x20_0000,
        mvex.len() < 100,
    ensures
        children(Some(moov_content(p))) == 4,
        child(Some(moov_content(p)), 0, named('m', 'v', 'h', 'd')) == Some(mvhd),
        child(Some(moov_content(p)), 1, named('t', 'r', 'a', 'k')) == Some(video),
        child(Some(moov_content(p)), 2, named('t', 'r', 'a', 'k')) == Some(audio),
        child(Some(moov_content(p)), 3, named('m', 'v', 'e', 'x')) == Some(mvex),
        moov_content(p).len() < 0x60_0000,
{
    lemma_four(MVHD, mvhd, TRAK, video, TRAK, audio, MVEX, mvex);
    lemma_boxed(MVHD, mvhd);
    lemma_boxed(TRAK, video);
    lemma_boxed(TRAK, audio);
    lemma_boxed(MVEX, mvex);
    lemma_track_names();
    reveal(moov_content);
}

proof fn lemma_movie_without_audio(p: InitModel, mvhd: Seq<u8>, video: Seq<u8>, mvex: Seq<u8>)
    requires
        !p.has_audio,
        mvhd_box(p.video_timescale) == boxed(MVHD, mvhd),
        video_trak_box(p) == boxed(TRAK, video),
        mvex_box(false) == boxed(MVEX, mvex),
        mvhd.len() == 100,
        video.len() < 0x20_0000,
        mvex.len() < 100,
    ensures
        children(Some(moov_content(p))) == 3,
        child(Some(moov_content(p)), 0, named('m', 'v', 'h', 'd')) == Some(mvhd),
        child(Some(moov_content(p)), 1, named('t', 'r', 'a', 'k')) == Some(video),
        child(Some(moov_content(p)), 2, named('m', 'v', 'e', 'x')) == Some(mvex),
        moov_content(p).len() < 0x60_0000,
{
    lemma_three(MVHD, mvhd, TRAK, video, MVEX, mvex);
    lemma_boxed(MVHD, mvhd);
    lemma_boxed(TRAK, video);
    lemma_boxed(MVEX, mvex);
    lemma_track_names();
    reveal(moov_content);
    let front = boxed(MVHD, mvhd) + boxed(TRAK, video);
    assert(front + Seq::<u8>::empty() =~= front);
}

/// An initialization segment holds a file type and a movie. The movie gives the timescales, the
/// dimensions and the parameter sets that the segment was made from, and, where there is audio,
/// its timescale and its configuration.
pub proof fn init_segments_tell_what_they_hold(p: InitModel)
    requires
        p.sps.len() < 0x1_0000,
        p.pps.len() < 0x1_0000,
        p.audio_specific_config matches Some(asc) ==> asc.len() <= 100,
    ensures
        children(Some(init_segment(p))) == 2,
        tells_file_type(child(Some(init_segment(p)), 0, named('f', 't', 'y', 'p'))),
        tells_movie(child(Some(init_segment(p)), 1, named('m', 'o', 'o', 'v')), p),
{
    lemma_file_type();
    lemma_movie(p);
    lemma_track_names();
    lemma_boxed(FTYP, ftyp_content());
    lemma_boxed(MOOV, moov_content(p));
    lemma_two(FTYP, ftyp_content(), MOOV, moov_content(p));
}

} // verus!
