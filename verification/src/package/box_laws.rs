//! What a player finds in the segments, reading them box by box.

use vstd::prelude::*;

use crate::buffer::{be16, be32, be64};
use crate::numbers::{
    fields_are_written_from_the_top, number, numbers_of, written, written_numbers_read_back,
};
use crate::package::hls::{
    be24, box_reads_back, field32, media_segment, moof_content, mp4_box, mp4_full_box, read_boxes,
    sample_entries, sample_entry, styp_content, MediaModel, SampleInfo, MDAT, MFHD, MOOF, MSDH,
    MSIX, STYP, TFDT, TFHD, TRAF, TRUN,
};

verus! {

// ---------------------------------------------------------------------------
// Reading
// ---------------------------------------------------------------------------

/// The kind of box with a name of four letters.
pub open spec fn named(a: char, b: char, c: char, d: char) -> u32 {
    (a as u32 * 0x1000000 + b as u32 * 0x10000 + c as u32 * 0x100 + d as u32) as u32
}

/// The content of box number `i` among the boxes that `s` is made of, if it has that kind.
#[verifier::opaque]
pub open spec fn child(s: Option<Seq<u8>>, i: int, kind: u32) -> Option<Seq<u8>> {
    match s {
        None => None,
        Some(s) => match read_boxes(s) {
            None => None,
            Some(boxes) => if 0 <= i < boxes.len() && boxes[i].0 == kind {
                Some(boxes[i].1)
            } else {
                None
            },
        },
    }
}

/// The number of boxes that `s` is made of.
#[verifier::opaque]
pub open spec fn children(s: Option<Seq<u8>>) -> int {
    match s {
        None => -1,
        Some(s) => match read_boxes(s) {
            None => -1,
            Some(boxes) => boxes.len() as int,
        },
    }
}

/// What stands behind the first `n` bytes of a content.
pub open spec fn behind(s: Option<Seq<u8>>, n: int) -> Option<Seq<u8>> {
    match s {
        None => None,
        Some(s) => if 0 <= n <= s.len() {
            Some(s.subrange(n, s.len() as int))
        } else {
            None
        },
    }
}

/// The number in `width` bytes of a content, from `at` on; -1 where they are not all there.
#[verifier::opaque]
pub open spec fn field(s: Option<Seq<u8>>, at: int, width: int) -> int {
    match s {
        None => -1,
        Some(s) => if 0 <= at && 0 <= width && at + width <= s.len() {
            number(s.subrange(at, at + width)) as int
        } else {
            -1
        },
    }
}

/// A signed number of 64 bits, as it stands in eight bytes.
pub open spec fn unsigned64(n: i64) -> int {
    if n >= 0 {
        n as int
    } else {
        n + 0x1_0000_0000_0000_0000
    }
}

/// A signed number of 32 bits, as it stands in four bytes.
pub open spec fn unsigned32(n: i32) -> int {
    if n >= 0 {
        n as int
    } else {
        n + 0x1_0000_0000
    }
}

// ---------------------------------------------------------------------------
// Boxes and fields
// ---------------------------------------------------------------------------

/// The content of a box with a version and flags.
pub open spec fn versioned(version: u8, flags: u32, content: Seq<u8>) -> Seq<u8> {
    seq![version] + be24(flags) + content
}

pub(crate) proof fn lemma_full_box(kind: u32, version: u8, flags: u32, content: Seq<u8>)
    ensures
        mp4_full_box(kind, version, flags, content) == boxed(
            kind,
            versioned(version, flags, content),
        ),
        versioned(version, flags, content).len() == content.len() + 4,
{
    reveal(boxed);
    assert(mp4_full_box(kind, version, flags, content) =~= mp4_box(
        kind,
        versioned(version, flags, content),
    ));
}

/// A box as a whole.
#[verifier::opaque]
pub open spec fn boxed(kind: u32, content: Seq<u8>) -> Seq<u8> {
    mp4_box(kind, content)
}

pub(crate) proof fn lemma_boxed(kind: u32, content: Seq<u8>)
    ensures
        boxed(kind, content) == mp4_box(kind, content),
        boxed(kind, content).len() == content.len() + 8,
{
    reveal(boxed);
}

/// A box is read in front of others.
pub(crate) proof fn lemma_first(kind: u32, content: Seq<u8>, rest: Seq<u8>)
    requires
        content.len() + 8 < 0x1_0000_0000,
        read_boxes(rest) is Some,
    ensures
        read_boxes(boxed(kind, content) + rest) is Some,
        children(Some(boxed(kind, content) + rest)) == 1 + children(Some(rest)),
        forall|k: u32| #[trigger]
            child(Some(boxed(kind, content) + rest), 0, k) == if k == kind {
                Some(content)
            } else {
                None
            },
        forall|i: int, k: u32|
            i > 0 ==> #[trigger] child(Some(boxed(kind, content) + rest), i, k) == child(
                Some(rest),
                i - 1,
                k,
            ),
{
    reveal(boxed);
    reveal(child);
    reveal(children);
    box_reads_back(kind, content, rest);
}

/// A box is read that stands alone.
pub(crate) proof fn lemma_only(kind: u32, content: Seq<u8>)
    requires
        content.len() + 8 < 0x1_0000_0000,
    ensures
        read_boxes(boxed(kind, content)) is Some,
        children(Some(boxed(kind, content))) == 1,
        child(Some(boxed(kind, content)), 0, kind) == Some(content),
{
    reveal(children);
    let none = Seq::<u8>::empty();
    lemma_first(kind, content, none);
    assert(boxed(kind, content) + none =~= boxed(kind, content));
}

/// A number is found where it was written.
pub(crate) proof fn lemma_field(s: Seq<u8>, at: int, n: nat, width: nat)
    requires
        0 <= at,
        at + width <= s.len(),
        n < numbers_of(width),
        s.subrange(at, at + width) == written(n, width),
    ensures
        field(Some(s), at, width as int) == n,
{
    reveal(field);
    written_numbers_read_back(n, width);
}

pub(crate) proof fn lemma_field16(s: Seq<u8>, at: int, n: u16)
    requires
        0 <= at <= s.len() - 2,
        s.subrange(at, at + 2) == be16(n),
    ensures
        field(Some(s), at, 2) == n,
{
    reveal_with_fuel(numbers_of, 3);
    fields_are_written_from_the_top(n, 0, 0);
    lemma_field(s, at, n as nat, 2);
}

pub(crate) proof fn lemma_field24(s: Seq<u8>, at: int, n: u32)
    requires
        0 <= at <= s.len() - 3,
        n < 0x100_0000,
        s.subrange(at, at + 3) == be24(n),
    ensures
        field(Some(s), at, 3) == n,
{
    reveal_with_fuel(numbers_of, 4);
    fields_are_written_from_the_top(0, n, 0);
    lemma_field(s, at, n as nat, 3);
}

pub(crate) proof fn lemma_field32(s: Seq<u8>, at: int, n: u32)
    requires
        0 <= at <= s.len() - 4,
        s.subrange(at, at + 4) == be32(n),
    ensures
        field(Some(s), at, 4) == n,
{
    reveal_with_fuel(numbers_of, 5);
    fields_are_written_from_the_top(0, n, 0);
    lemma_field(s, at, n as nat, 4);
}

pub(crate) proof fn lemma_field64(s: Seq<u8>, at: int, n: u64)
    requires
        0 <= at <= s.len() - 8,
        s.subrange(at, at + 8) == be64(n),
    ensures
        field(Some(s), at, 8) == n,
{
    reveal_with_fuel(numbers_of, 9);
    fields_are_written_from_the_top(0, 0, n);
    lemma_field(s, at, n as nat, 8);
}

/// Version and flags of a content.
pub(crate) proof fn lemma_versioned(version: u8, flags: u32, content: Seq<u8>)
    requires
        flags < 0x100_0000,
    ensures
        field(Some(versioned(version, flags, content)), 0, 1) == version,
        field(Some(versioned(version, flags, content)), 1, 3) == flags,
        behind(Some(versioned(version, flags, content)), 4) == Some(content),
{
    let s = versioned(version, flags, content);
    reveal_with_fuel(numbers_of, 2);
    reveal_with_fuel(written, 2);
    assert(s.subrange(0, 1) =~= written(version as nat, 1));
    lemma_field(s, 0, version as nat, 1);
    assert(s.subrange(1, 4) =~= be24(flags));
    lemma_field24(s, 1, flags);
    assert(s.subrange(4, s.len() as int) =~= content);
}

/// A field behind version and flags.
pub(crate) proof fn lemma_behind(version: u8, flags: u32, content: Seq<u8>, at: int, width: int)
    requires
        0 <= at,
        0 <= width,
        at + width <= content.len(),
    ensures
        field(Some(versioned(version, flags, content)), 4 + at, width) == field(
            Some(content),
            at,
            width,
        ),
{
    reveal(field);
    let s = versioned(version, flags, content);
    assert(s.subrange(4 + at, 4 + at + width) =~= content.subrange(at, at + width));
}

proof fn lemma_signed64(n: i64)
    ensures
        n as u64 == unsigned64(n),
{
    assert(n < 0 ==> (n as u64) == 0xffff_ffff_ffff_ffffu64 - (!n as u64) && !n >= 0) by (
    bit_vector);
    assert(!n == -1 - n) by (bit_vector);
}

proof fn lemma_signed32(n: i32)
    ensures
        n as u32 == unsigned32(n),
{
    assert(n < 0 ==> (n as u32) == 0xffff_ffffu32 - (!n as u32) && !n >= 0) by (bit_vector);
    assert(!n == -1 - n) by (bit_vector);
}

// ---------------------------------------------------------------------------
// Media segments
// ---------------------------------------------------------------------------

proof fn lemma_sample_entries(samples: Seq<SampleInfo>)
    ensures
        sample_entries(samples).len() == 16 * samples.len(),
        forall|i: int|
            0 <= i < samples.len() ==> sample_entries(samples).subrange(16 * i, 16 * i + 16)
                == sample_entry(#[trigger] samples[i]),
    decreases samples.len(),
{
    if samples.len() > 0 {
        let before = samples.drop_last();
        lemma_sample_entries(before);
        let all = sample_entries(samples);
        assert forall|i: int| 0 <= i < samples.len() implies all.subrange(16 * i, 16 * i + 16)
            == sample_entry(#[trigger] samples[i]) by {
            if i < before.len() {
                assert(before[i] == samples[i]);
                assert(all.subrange(16 * i, 16 * i + 16) =~= sample_entries(before).subrange(
                    16 * i,
                    16 * i + 16,
                ));
            } else {
                assert(all.subrange(16 * i, 16 * i + 16) =~= sample_entry(samples[i]));
            }
        }
    }
}

/// A track run says of one sample what the sample is.
pub open spec fn tells_sample(run: Option<Seq<u8>>, i: int, s: SampleInfo) -> bool {
    &&& field(run, 12 + 16 * i, 4) == s.duration
    &&& field(run, 16 + 16 * i, 4) == s.size
    &&& field(run, 20 + 16 * i, 4) == s.flags
    &&& field(run, 24 + 16 * i, 4) == unsigned32(s.composition_offset)
}

#[verifier::spinoff_prover]
#[verifier::rlimit(40)]
proof fn lemma_run(samples: Seq<SampleInfo>)
    requires
        samples.len() < 0x1000_0000,
    ensures
        ({
            let run = Some(
                versioned(
                    0,
                    0xF01,
                    be32(field32(samples.len() as int)) + be32(0) + sample_entries(samples),
                ),
            );
            &&& run->0.len() == 12 + 16 * samples.len()
            &&& field(run, 0, 1) == 0
            &&& field(run, 1, 3) == 0xF01
            &&& field(run, 4, 4) == samples.len()
            &&& field(run, 8, 4) == 0
            &&& forall|i: int|
                0 <= i < samples.len() ==> tells_sample(run, i, #[trigger] samples[i])
        }),
{
    let entries = sample_entries(samples);
    let content = be32(field32(samples.len() as int)) + be32(0) + entries;
    let s = versioned(0, 0xF01, content);
    lemma_sample_entries(samples);
    lemma_versioned(0, 0xF01, content);
    assert(s.subrange(4, 8) =~= be32(field32(samples.len() as int)));
    lemma_field32(s, 4, samples.len() as u32);
    assert(s.subrange(8, 12) =~= be32(0));
    lemma_field32(s, 8, 0);
    assert forall|i: int| 0 <= i < samples.len() implies tells_sample(
        Some(s),
        i,
        #[trigger] samples[i],
    ) by {
        let at = 12 + 16 * i;
        assert(s.subrange(at, at + 16) =~= entries.subrange(16 * i, 16 * i + 16));
        lemma_sample(s, at, samples[i]);
    }
}

#[verifier::spinoff_prover]
#[verifier::rlimit(40)]
proof fn lemma_sample(s: Seq<u8>, at: int, x: SampleInfo)
    requires
        0 <= at <= s.len() - 16,
        s.subrange(at, at + 16) == sample_entry(x),
    ensures
        field(Some(s), at, 4) == x.duration,
        field(Some(s), at + 4, 4) == x.size,
        field(Some(s), at + 8, 4) == x.flags,
        field(Some(s), at + 12, 4) == unsigned32(x.composition_offset),
{
    let e = s.subrange(at, at + 16);
    assert(s.subrange(at, at + 4) =~= e.subrange(0, 4));
    assert(s.subrange(at + 4, at + 8) =~= e.subrange(4, 8));
    assert(s.subrange(at + 8, at + 12) =~= e.subrange(8, 12));
    assert(s.subrange(at + 12, at + 16) =~= e.subrange(12, 16));
    assert(e.subrange(0, 4) =~= be32(x.duration));
    assert(e.subrange(4, 8) =~= be32(x.size));
    assert(e.subrange(8, 12) =~= be32(x.flags));
    assert(e.subrange(12, 16) =~= be32(x.composition_offset as u32));
    lemma_field32(s, at, x.duration);
    lemma_field32(s, at + 4, x.size);
    lemma_field32(s, at + 8, x.flags);
    lemma_field32(s, at + 12, x.composition_offset as u32);
    lemma_signed32(x.composition_offset);
}

/// What a movie fragment says of a segment: its number, its track, its base decode time and its
/// samples, in this order of boxes and with nothing else.
pub open spec fn tells_fragment(moof: Option<Seq<u8>>, p: MediaModel) -> bool {
    let mfhd = child(moof, 0, named('m', 'f', 'h', 'd'));
    let traf = child(moof, 1, named('t', 'r', 'a', 'f'));
    let tfhd = child(traf, 0, named('t', 'f', 'h', 'd'));
    let tfdt = child(traf, 1, named('t', 'f', 'd', 't'));
    let trun = child(traf, 2, named('t', 'r', 'u', 'n'));
    &&& children(moof) == 2
    &&& children(traf) == 3
    &&& field(mfhd, 0, 4) == 0
    &&& field(mfhd, 4, 4) == p.sequence_number % 0x1_0000_0000
    // The data offsets count from the beginning of the fragment.
    &&& field(tfhd, 0, 1) == 0
    &&& field(tfhd, 1, 3) == 0x20000
    &&& field(tfhd, 4, 4) == p.track_id
    // The time has eight bytes.
    &&& field(tfdt, 0, 1) == 1
    &&& field(tfdt, 1, 3) == 0
    &&& field(tfdt, 4, 8) == unsigned64(p.base_decode_time)
    // A data offset, and of each sample duration, size, flags and composition offset.
    &&& field(trun, 0, 1) == 0
    &&& field(trun, 1, 3) == 0xF01
    &&& field(trun, 4, 4) == p.samples.len()
    &&& field(trun, 8, 4) == 0
    &&& trun matches Some(s) && s.len() == 12 + 16 * p.samples.len()
    &&& forall|i: int| 0 <= i < p.samples.len() ==> tells_sample(trun, i, #[trigger] p.samples[i])
}

proof fn lemma_small(version: u8, flags: u32, n: u32)
    requires
        flags < 0x100_0000,
    ensures
        field(Some(versioned(version, flags, be32(n))), 4, 4) == n,
{
    let s = versioned(version, flags, be32(n));
    assert(s.subrange(4, 8) =~= be32(n));
    lemma_field32(s, 4, n);
}

#[verifier::spinoff_prover]
#[verifier::rlimit(40)]
proof fn lemma_fragment_heads(p: MediaModel)
    ensures
        ({
            let mfhd = Some(versioned(0, 0, be32(field32(p.sequence_number as int))));
            let tfhd = Some(versioned(0, 0x20000, be32(p.track_id)));
            let tfdt = Some(versioned(1, 0, be64(p.base_decode_time as u64)));
            &&& field(mfhd, 0, 4) == 0
            &&& field(mfhd, 4, 4) == p.sequence_number % 0x1_0000_0000
            &&& field(tfhd, 0, 1) == 0
            &&& field(tfhd, 1, 3) == 0x20000
            &&& field(tfhd, 4, 4) == p.track_id
            &&& field(tfdt, 0, 1) == 1
            &&& field(tfdt, 1, 3) == 0
            &&& field(tfdt, 4, 8) == unsigned64(p.base_decode_time)
        }),
{
    let number = field32(p.sequence_number as int);
    let mfhd = versioned(0, 0, be32(number));
    let time = p.base_decode_time as u64;
    let tfdt = versioned(1, 0, be64(time));
    lemma_small(0, 0, number);
    lemma_small(0, 0x20000, p.track_id);
    assert(mfhd.subrange(0, 4) =~= be32(0));
    lemma_field32(mfhd, 0, 0);
    lemma_versioned(0, 0x20000, be32(p.track_id));
    lemma_versioned(1, 0, be64(time));
    assert(tfdt.subrange(4, 12) =~= be64(time));
    lemma_field64(tfdt, 4, time);
    lemma_signed64(p.base_decode_time);
}

/// Two boxes are read one after the other.
pub(crate) proof fn lemma_two(k1: u32, c1: Seq<u8>, k2: u32, c2: Seq<u8>)
    requires
        c1.len() + 8 < 0x1_0000_0000,
        c2.len() + 8 < 0x1_0000_0000,
    ensures
        children(Some(boxed(k1, c1) + boxed(k2, c2))) == 2,
        child(Some(boxed(k1, c1) + boxed(k2, c2)), 0, k1) == Some(c1),
        child(Some(boxed(k1, c1) + boxed(k2, c2)), 1, k2) == Some(c2),
        read_boxes(boxed(k1, c1) + boxed(k2, c2)) is Some,
{
    lemma_only(k2, c2);
    lemma_first(k1, c1, boxed(k2, c2));
}

/// Three boxes are read one after the other.
pub(crate) proof fn lemma_three(
    k1: u32,
    c1: Seq<u8>,
    k2: u32,
    c2: Seq<u8>,
    k3: u32,
    c3: Seq<u8>,
)
    requires
        c1.len() + 8 < 0x1_0000_0000,
        c2.len() + 8 < 0x1_0000_0000,
        c3.len() + 8 < 0x1_0000_0000,
    ensures
        ({
            let s = Some(boxed(k1, c1) + boxed(k2, c2) + boxed(k3, c3));
            &&& children(s) == 3
            &&& child(s, 0, k1) == Some(c1)
            &&& child(s, 1, k2) == Some(c2)
            &&& child(s, 2, k3) == Some(c3)
            &&& read_boxes(s->0) is Some
        }),
{
    lemma_two(k2, c2, k3, c3);
    let tail = boxed(k2, c2) + boxed(k3, c3);
    lemma_first(k1, c1, tail);
    let s = boxed(k1, c1) + boxed(k2, c2) + boxed(k3, c3);
    assert(s =~= boxed(k1, c1) + tail);
    assert(child(Some(s), 1, k2) == child(Some(tail), 0, k2));
    assert(child(Some(s), 2, k3) == child(Some(tail), 1, k3));
}

#[verifier::spinoff_prover]
#[verifier::rlimit(40)]
proof fn lemma_fragment(p: MediaModel)
    requires
        p.samples.len() <= 0xfff_fff0,
    ensures
        tells_fragment(Some(moof_content(p)), p),
        moof_content(p).len() == 80 + 16 * p.samples.len(),
{
    let mfhd = versioned(0, 0, be32(field32(p.sequence_number as int)));
    let tfhd = versioned(0, 0x20000, be32(p.track_id));
    let tfdt = versioned(1, 0, be64(p.base_decode_time as u64));
    let run = be32(field32(p.samples.len() as int)) + be32(0) + sample_entries(p.samples);
    let trun = versioned(0, 0xF01, run);
    let traf = boxed(TFHD, tfhd) + boxed(TFDT, tfdt) + boxed(TRUN, trun);
    lemma_run(p.samples);
    assert(moof_content(p) == boxed(MFHD, mfhd) + boxed(TRAF, traf)) by {
        reveal(moof_content);
        reveal(boxed);
        lemma_full_box(MFHD, 0, 0, be32(field32(p.sequence_number as int)));
        lemma_full_box(TFHD, 0, 0x20000, be32(p.track_id));
        lemma_full_box(TFDT, 1, 0, be64(p.base_decode_time as u64));
        lemma_full_box(TRUN, 0, 0xF01, run);
    }
    lemma_boxed(TFHD, tfhd);
    lemma_boxed(TFDT, tfdt);
    lemma_boxed(TRUN, trun);
    lemma_boxed(MFHD, mfhd);
    lemma_boxed(TRAF, traf);
    assert(mfhd.len() == 8 && tfhd.len() == 8 && tfdt.len() == 12);
    assert(traf.len() == 56 + 16 * p.samples.len());
    lemma_three(TFHD, tfhd, TFDT, tfdt, TRUN, trun);
    lemma_two(MFHD, mfhd, TRAF, traf);
    lemma_fragment_heads(p);
    lemma_names();
}

proof fn lemma_names()
    ensures
        named('s', 't', 'y', 'p') == STYP,
        named('m', 's', 'd', 'h') == MSDH,
        named('m', 's', 'i', 'x') == MSIX,
        named('m', 'o', 'o', 'f') == MOOF,
        named('m', 'f', 'h', 'd') == MFHD,
        named('t', 'r', 'a', 'f') == TRAF,
        named('t', 'f', 'h', 'd') == TFHD,
        named('t', 'f', 'd', 't') == TFDT,
        named('t', 'r', 'u', 'n') == TRUN,
        named('m', 'd', 'a', 't') == MDAT,
{
}

/// A media segment holds a segment type, a movie fragment and the media data. The fragment gives
/// the number, the track, the base decode time and the samples that the segment was made from, and
/// the data box holds exactly its data.
pub proof fn media_segments_tell_what_they_hold(p: MediaModel)
    requires
        p.samples.len() <= 0xfff_fff0,
        p.media_data.len() + 8 < 0x1_0000_0000,
    ensures
        ({
            let s = Some(media_segment(p));
            let styp = child(s, 0, named('s', 't', 'y', 'p'));
            &&& children(s) == 3
            &&& styp->0.len() == 16
            &&& field(styp, 0, 4) == named('m', 's', 'd', 'h')
            &&& field(styp, 4, 4) == 0
            &&& field(styp, 8, 4) == named('m', 's', 'd', 'h')
            &&& field(styp, 12, 4) == named('m', 's', 'i', 'x')
            &&& tells_fragment(child(s, 1, named('m', 'o', 'o', 'f')), p)
            &&& child(s, 2, named('m', 'd', 'a', 't')) == Some(p.media_data)
        }),
{
    lemma_fragment(p);
    let moof = moof_content(p);
    let styp = styp_content();
    reveal(styp_content);
    lemma_boxed(STYP, styp);
    lemma_boxed(MOOF, moof);
    lemma_boxed(MDAT, p.media_data);
    lemma_three(STYP, styp, MOOF, moof, MDAT, p.media_data);
    lemma_names();
    assert(styp.subrange(0, 4) =~= be32(MSDH));
    lemma_field32(styp, 0, MSDH);
    assert(styp.subrange(4, 8) =~= be32(0));
    lemma_field32(styp, 4, 0);
    assert(styp.subrange(8, 12) =~= be32(MSDH));
    lemma_field32(styp, 8, MSDH);
    assert(styp.subrange(12, 16) =~= be32(MSIX));
    lemma_field32(styp, 12, MSIX);
}

} // verus!
