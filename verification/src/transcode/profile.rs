//! The profile ladder: which renditions a source gets, and how each is announced.

use vstd::prelude::*;
use vstd::string::*;

use crate::common::config::TranscodeProfile;
use crate::common::types::RenditionId;
use crate::text;
use crate::text::{pieces, unsigned_value, views};
use crate::uuids::hex_char;

verus! {

// ---------------------------------------------------------------------------
// Rendition selection
// ---------------------------------------------------------------------------

/// A rendition to produce, with its encoding parameters.
#[derive(Debug)]
pub struct SelectedRendition {
    pub id: RenditionId,
    pub width: u32,
    pub height: u32,
    pub video_bitrate_kbps: u32,
    pub audio_bitrate_kbps: u32,
    pub profile: String,
    pub level: String,
    pub preset: String,
}

impl SelectedRendition {
    /// A copy of the rendition.
    pub fn copy(&self) -> (r: Self)
        ensures
            r == *self,
    {
        SelectedRendition {
            id: self.id,
            width: self.width,
            height: self.height,
            video_bitrate_kbps: self.video_bitrate_kbps,
            audio_bitrate_kbps: self.audio_bitrate_kbps,
            profile: self.profile.clone(),
            level: self.level.clone(),
            preset: self.preset.clone(),
        }
    }
}

/// The rung `p` is no larger than the source.
pub open spec fn fits(p: TranscodeProfile, width: u32, height: u32) -> bool {
    p.width <= width && p.height <= height
}

/// The rungs of the ladder that the source can fill, in ladder order.
pub open spec fn fitting(
    ladder: Seq<TranscodeProfile>,
    width: u32,
    height: u32,
) -> Seq<TranscodeProfile> {
    ladder.filter(|p: TranscodeProfile| fits(p, width, height))
}

/// The rendition that a name stands for.
pub open spec fn rendition_named(name: Seq<char>) -> RenditionId {
    if name == "high"@ {
        RenditionId::High
    } else if name == "medium"@ {
        RenditionId::Medium
    } else if name == "low"@ {
        RenditionId::Low
    } else {
        RenditionId::Source
    }
}

/// `r` takes its parameters from the rung `p`, under the name `id` and at the given size.
pub open spec fn made_from(
    r: SelectedRendition,
    p: TranscodeProfile,
    id: RenditionId,
    width: u32,
    height: u32,
) -> bool {
    &&& r.id == id
    &&& r.width == width
    &&& r.height == height
    &&& r.video_bitrate_kbps == p.bitrate_kbps
    &&& r.audio_bitrate_kbps == p.audio_bitrate_kbps
    &&& r.profile@ == p.profile@
    &&& r.level@ == p.level@
    &&& r.preset@ == p.preset@
}

/// `r` is what the ladder gives for a source of the given size: one rendition per fitting rung;
/// where none fits, one at the size of the source with the settings of the last rung.
pub open spec fn is_selection(
    r: Seq<SelectedRendition>,
    width: u32,
    height: u32,
    ladder: Seq<TranscodeProfile>,
) -> bool {
    let rungs = fitting(ladder, width, height);
    if rungs.len() > 0 {
        &&& r.len() == rungs.len()
        &&& forall|i: int|
            0 <= i < r.len() ==> made_from(
                #[trigger] r[i],
                rungs[i],
                rendition_named(rungs[i].name@),
                rungs[i].width,
                rungs[i].height,
            )
    } else if ladder.len() > 0 {
        &&& r.len() == 1
        &&& made_from(r[0], ladder.last(), RenditionId::Source, width, height)
    } else {
        r.len() == 0
    }
}

fn select(p: &TranscodeProfile, id: RenditionId, width: u32, height: u32) -> (r: SelectedRendition)
    ensures
        made_from(r, *p, id, width, height),
{
    SelectedRendition {
        id,
        width,
        height,
        video_bitrate_kbps: p.bitrate_kbps,
        audio_bitrate_kbps: p.audio_bitrate_kbps,
        profile: p.profile.clone(),
        level: p.level.clone(),
        preset: p.preset.clone(),
    }
}

/// Selects the renditions to produce for a source of the given size. Nothing is upscaled; a
/// source below every rung gets one rendition at its own size.
pub fn select_renditions(
    input_width: u32,
    input_height: u32,
    ladder: &[TranscodeProfile],
) -> (r: Vec<SelectedRendition>)
    ensures
        is_selection(r@, input_width, input_height, ladder@),
{
    let mut selected: Vec<SelectedRendition> = Vec::new();
    let mut i: usize = 0;
    let ghost pred = |p: TranscodeProfile| fits(p, input_width, input_height);
    proof {
        reveal(Seq::filter);
    }
    while i < ladder.len()
        invariant
            i <= ladder@.len(),
            pred == (|p: TranscodeProfile| fits(p, input_width, input_height)),
            selected@.len() == ladder@.subrange(0, i as int).filter(pred).len(),
            forall|j: int|
                0 <= j < selected@.len() ==> made_from(
                    #[trigger] selected@[j],
                    ladder@.subrange(0, i as int).filter(pred)[j],
                    rendition_named(ladder@.subrange(0, i as int).filter(pred)[j].name@),
                    ladder@.subrange(0, i as int).filter(pred)[j].width,
                    ladder@.subrange(0, i as int).filter(pred)[j].height,
                ),
        decreases ladder@.len() - i,
    {
        let p = &ladder[i];
        proof {
            reveal(Seq::filter);
            assert(ladder@.subrange(0, i + 1).drop_last() =~= ladder@.subrange(0, i as int));
        }
        if p.width <= input_width && p.height <= input_height {
            let id = name_to_rendition_id(&p.name);
            selected.push(select(p, id, p.width, p.height));
        }
        i = i + 1;
    }
    assert(ladder@.subrange(0, i as int) =~= ladder@);
    if selected.len() == 0 && ladder.len() > 0 {
        let lowest = &ladder[ladder.len() - 1];
        selected.push(select(lowest, RenditionId::Source, input_width, input_height));
    }
    selected
}

/// The rendition that a name stands for; `Source` for any name outside the ladder.
pub fn name_to_rendition_id(name: &str) -> (r: RenditionId)
    ensures
        r == rendition_named(name@),
{
    if text::same(name, "high") {
        RenditionId::High
    } else if text::same(name, "medium") {
        RenditionId::Medium
    } else if text::same(name, "low") {
        RenditionId::Low
    } else {
        RenditionId::Source
    }
}

/// No rendition is larger than its source.
pub proof fn nothing_is_upscaled(
    r: Seq<SelectedRendition>,
    width: u32,
    height: u32,
    ladder: Seq<TranscodeProfile>,
)
    requires
        is_selection(r, width, height, ladder),
    ensures
        forall|i: int|
            0 <= i < r.len() ==> (#[trigger] r[i]).width <= width && r[i].height <= height,
{
    let pred = |p: TranscodeProfile| fits(p, width, height);
    let rungs = fitting(ladder, width, height);
    if rungs.len() > 0 {
        assert forall|i: int| 0 <= i < r.len() implies (#[trigger] r[i]).width <= width
            && r[i].height <= height by {
            broadcast use vstd::seq_lib::group_filter_ensures;

            assert(pred(rungs[i]));
        }
    }
}

/// A ladder with at least one rung gives every source at least one rendition.
pub proof fn every_source_gets_a_rendition(
    r: Seq<SelectedRendition>,
    width: u32,
    height: u32,
    ladder: Seq<TranscodeProfile>,
)
    requires
        is_selection(r, width, height, ladder),
        ladder.len() > 0,
    ensures
        r.len() > 0,
{
}

// ---------------------------------------------------------------------------
// Codec strings
// ---------------------------------------------------------------------------

/// Two lower-case hexadecimal digits.
pub open spec fn hex2(n: u8) -> Seq<char> {
    seq![hex_char((n / 16) as int), hex_char((n % 16) as int)]
}

/// The H.264 profile number of a profile name; Main for any other name.
pub open spec fn profile_idc(profile: Seq<char>) -> u8 {
    if profile == "baseline"@ {
        66
    } else if profile == "high"@ {
        100
    } else {
        77
    }
}

/// The byte that a text writes in decimal, or a default.
pub open spec fn byte_or_default(s: Seq<char>, default: nat) -> nat {
    match unsigned_value(s, 255) {
        Some(n) => n,
        None => default,
    }
}

/// The H.264 level number of a level such as "4.1": ten times the part before the point plus the
/// part behind it.
pub open spec fn level_number(level: Seq<char>) -> nat {
    let parts = pieces(level, '.');
    if parts.len() == 2 {
        byte_or_default(parts[0], 3) * 10 + byte_or_default(parts[1], 0)
    } else if parts.len() == 1 {
        byte_or_default(parts[0], 3) * 10
    } else {
        31
    }
}

/// The level number fits in its byte.
pub open spec fn level_fits(level: Seq<char>) -> bool {
    level_number(level) <= 255
}

/// The HLS codec string of an H.264 profile and level.
pub open spec fn codec_text(profile: Seq<char>, level: Seq<char>) -> Seq<char> {
    "avc1."@ + hex2(profile_idc(profile)) + "00"@ + hex2(level_number(level) as u8)
}

/// The codecs of a rendition: video, and AAC where it has audio.
pub open spec fn codecs_text(profile: Seq<char>, level: Seq<char>, has_audio: bool) -> Seq<char> {
    if has_audio {
        codec_text(profile, level) + ",mp4a.40.2"@
    } else {
        codec_text(profile, level)
    }
}

/// Bits per second to announce: both bitrates and a tenth more.
pub open spec fn announced_bandwidth(video_kbps: u32, audio_kbps: u32) -> int {
    let bps = (video_kbps + audio_kbps) * 1100;
    if bps <= u32::MAX {
        bps
    } else {
        u32::MAX as int
    }
}

fn hex_digit(n: u8) -> (r: char)
    requires
        n < 16,
    ensures
        r == hex_char(n as int),
{
    if n < 10 {
        (48 + n) as char
    } else {
        (87 + n) as char
    }
}

fn push_hex2(out: &mut String, n: u8)
    ensures
        final(out)@ == old(out)@ + hex2(n),
{
    out.push(hex_digit(n / 16));
    out.push(hex_digit(n % 16));
    assert(out@ =~= old(out)@ + hex2(n));
}

/// The HLS codec string `avc1.PPCCLL` of a rendition: profile, constraint flags (none) and level
/// in hexadecimal.
pub fn codec_string(profile: &str, level: &str) -> (r: String)
    requires
        level_fits(level@),
    ensures
        r@ == codec_text(profile@, level@),
{
    proof {
        reveal_strlit("baseline");
        reveal_strlit("high");
        reveal_strlit("main");
    }
    let idc: u8 = if text::same(profile, "baseline") {
        66
    } else if text::same(profile, "high") {
        100
    } else {
        77
    };
    let mut out = text::owned("avc1.");
    push_hex2(&mut out, idc);
    out.append("00");
    push_hex2(&mut out, parse_level(level));
    out
}

/// The codecs attribute of a rendition in a multivariant playlist.
pub fn codecs_attribute(profile: &str, level: &str, has_audio: bool) -> (r: String)
    requires
        level_fits(level@),
    ensures
        r@ == codecs_text(profile@, level@, has_audio),
{
    let mut video = codec_string(profile, level);
    if has_audio {
        video.append(",mp4a.40.2");
    }
    video
}

/// The bandwidth attribute of a rendition, in bits per second.
pub fn bandwidth(video_bitrate_kbps: u32, audio_bitrate_kbps: u32) -> (r: u32)
    requires
        video_bitrate_kbps + audio_bitrate_kbps <= u32::MAX,
    ensures
        r == announced_bandwidth(video_bitrate_kbps, audio_bitrate_kbps),
{
    let total: u32 = video_bitrate_kbps + audio_bitrate_kbps;
    let bps: u64 = total as u64 * 1100;
    if bps <= u32::MAX as u64 {
        bps as u32
    } else {
        u32::MAX
    }
}

fn parse_byte(s: &str, default: u8) -> (r: u8)
    ensures
        r == byte_or_default(s@, default as nat),
{
    let v = text::to_chars(s);
    match text::parse_unsigned(&v, 255) {
        Some(n) => n as u8,
        None => default,
    }
}

/// Whether the number of a level fits in its byte.
pub fn level_is_usable(level: &str) -> (r: bool)
    ensures
        r == level_fits(level@),
{
    let parts = text::split(level, '.');
    let ghost p = pieces(level@, '.');
    assert(parts@.len() == views(parts@).len());
    if parts.len() == 2 {
        assert(p[0] == parts@[0]@ && p[1] == parts@[1]@);
        parse_byte(&parts[0], 3) as u32 * 10 + parse_byte(&parts[1], 0) as u32 <= 255
    } else if parts.len() == 1 {
        assert(p[0] == parts@[0]@);
        parse_byte(&parts[0], 3) as u32 * 10 <= 255
    } else {
        true
    }
}

/// The level number of a level such as "4.1".
pub fn parse_level(level: &str) -> (r: u8)
    requires
        level_fits(level@),
    ensures
        r == level_number(level@),
{
    let parts = text::split(level, '.');
    let ghost p = pieces(level@, '.');
    assert(parts@.len() == views(parts@).len());
    if parts.len() == 2 {
        assert(p[0] == parts@[0]@ && p[1] == parts@[1]@);
        let major = parse_byte(&parts[0], 3);
        let minor = parse_byte(&parts[1], 0);
        major * 10 + minor
    } else if parts.len() == 1 {
        assert(p[0] == parts@[0]@);
        let major = parse_byte(&parts[0], 3);
        major * 10
    } else {
        31
    }
}

// ---------------------------------------------------------------------------
// Laws
// ---------------------------------------------------------------------------

proof fn lemma_fitting_push(
    ladder: Seq<TranscodeProfile>,
    p: TranscodeProfile,
    width: u32,
    height: u32,
)
    ensures
        fitting(ladder.push(p), width, height) == if p.width <= width && p.height <= height {
            fitting(ladder, width, height).push(p)
        } else {
            fitting(ladder, width, height)
        },
{
    reveal(Seq::filter);
    assert(ladder.push(p).drop_last() =~= ladder);
}

proof fn lemma_none_fits(ladder: Seq<TranscodeProfile>, width: u32, height: u32)
    ensures
        fitting(ladder, width, height).len() == 0 <==> forall|i: int|
            0 <= i < ladder.len() ==> !((#[trigger] ladder[i]).width <= width && ladder[i].height
                <= height),
    decreases ladder.len(),
{
    if ladder.len() == 0 {
        reveal(Seq::filter);
    } else {
        let rest = ladder.drop_last();
        let p = ladder.last();
        lemma_none_fits(rest, width, height);
        lemma_fitting_push(rest, p, width, height);
        assert(rest.push(p) =~= ladder);
        if forall|i: int|
            0 <= i < rest.len() ==> !((#[trigger] rest[i]).width <= width && rest[i].height
                <= height) {
            assert forall|i: int| 0 <= i < ladder.len() - 1 implies !((
            #[trigger] ladder[i]).width <= width && ladder[i].height <= height) by {
                assert(rest[i] == ladder[i]);
            }
        } else {
            let i = choose|i: int|
                0 <= i < rest.len() && (#[trigger] rest[i]).width <= width && rest[i].height
                    <= height;
            assert(ladder[i] == rest[i]);
        }
    }
}

/// The rendition is that of a rung, at the size of the rung and with all of its settings.
pub open spec fn is_rung(r: SelectedRendition, p: TranscodeProfile) -> bool {
    &&& r.id == rendition_named(p.name@)
    &&& r.width == p.width
    &&& r.height == p.height
    &&& r.video_bitrate_kbps == p.bitrate_kbps
    &&& r.audio_bitrate_kbps == p.audio_bitrate_kbps
    &&& r.profile@ == p.profile@
    &&& r.level@ == p.level@
    &&& r.preset@ == p.preset@
}

/// Two renditions are made alike.
pub open spec fn alike(a: SelectedRendition, b: SelectedRendition) -> bool {
    &&& a.id == b.id
    &&& a.width == b.width
    &&& a.height == b.height
    &&& a.video_bitrate_kbps == b.video_bitrate_kbps
    &&& a.audio_bitrate_kbps == b.audio_bitrate_kbps
    &&& a.profile@ == b.profile@
    &&& a.level@ == b.level@
    &&& a.preset@ == b.preset@
}

/// A source gets every rung that it can fill, in the order of the ladder: one more rung at the end
/// of the ladder adds its rendition at the end where the source can fill it, and changes nothing
/// where it cannot. Where the source can fill none, it gets one rendition at its own size with the
/// settings of the last rung.
pub proof fn every_fitting_rung_is_selected(
    r: Seq<SelectedRendition>,
    more: Seq<SelectedRendition>,
    width: u32,
    height: u32,
    ladder: Seq<TranscodeProfile>,
    p: TranscodeProfile,
)
    requires
        is_selection(r, width, height, ladder),
        is_selection(more, width, height, ladder.push(p)),
    ensures
        ({
            let fits_now = p.width <= width && p.height <= height;
            let fitted = exists|i: int|
                0 <= i < ladder.len() && (#[trigger] ladder[i]).width <= width && ladder[i].height
                    <= height;
            &&& fitted ==> {
                &&& more.len() == r.len() + if fits_now {
                    1int
                } else {
                    0
                }
                &&& forall|i: int| 0 <= i < r.len() ==> alike(#[trigger] more[i], r[i])
            }
            &&& !fitted && fits_now ==> more.len() == 1
            &&& fits_now ==> is_rung(more.last(), p)
            &&& !fitted && !fits_now ==> {
                &&& more.len() == 1
                &&& more[0].id == RenditionId::Source
                &&& more[0].width == width
                &&& more[0].height == height
                &&& more[0].video_bitrate_kbps == p.bitrate_kbps
                &&& more[0].audio_bitrate_kbps == p.audio_bitrate_kbps
                &&& more[0].profile@ == p.profile@
                &&& more[0].level@ == p.level@
                &&& more[0].preset@ == p.preset@
            }
        }),
{
    lemma_fitting_push(ladder, p, width, height);
    lemma_none_fits(ladder, width, height);
    let before = fitting(ladder, width, height);
    let after = fitting(ladder.push(p), width, height);
    if before.len() > 0 {
        assert forall|i: int| 0 <= i < r.len() implies alike(#[trigger] more[i], r[i]) by {
            assert(after[i] == before[i]);
        }
    }
    if after.len() > 0 {
        assert(made_from(
            more[more.len() - 1],
            after[more.len() - 1],
            rendition_named(after[more.len() - 1].name@),
            after[more.len() - 1].width,
            after[more.len() - 1].height,
        ));
    }
}

/// Each rendition of the ladder has a name of its own, by which it is found again.
pub proof fn rendition_names_read_back(a: RenditionId, b: RenditionId)
    ensures
        rendition_named(a.name()) == a,
        a.name() == b.name() ==> a == b,
{
    reveal_strlit("high");
    reveal_strlit("medium");
    reveal_strlit("low");
    reveal_strlit("source");
    assert("high"@[0] == 'h');
    assert("medium"@[0] == 'm');
    assert("low"@[0] == 'l');
    assert("source"@[0] == 's');
}

/// The value of a hexadecimal digit.
pub open spec fn hex_value(c: char) -> int {
    if '0' <= c && c <= '9' {
        c as int - '0' as int
    } else if 'a' <= c && c <= 'f' {
        c as int - 'a' as int + 10
    } else {
        -1
    }
}

/// The codec string names H.264 with the number of the profile, no constraints and the number of
/// the level, in two hexadecimal digits each; with audio, AAC-LC follows.
pub proof fn codec_strings_read_back(profile: Seq<char>, level: Seq<char>, has_audio: bool)
    requires
        level_number(level) <= 255,
    ensures
        ({
            let s = codecs_text(profile, level, has_audio);
            &&& s.subrange(0, 5) == "avc1."@
            &&& hex_value(s[5]) * 16 + hex_value(s[6]) == if profile == "baseline"@ {
                66int
            } else if profile == "high"@ {
                100
            } else {
                77
            }
            &&& s[7] == '0' && s[8] == '0'
            &&& hex_value(s[9]) * 16 + hex_value(s[10]) == level_number(level)
            &&& s.subrange(11, s.len() as int) == if has_audio {
                ",mp4a.40.2"@
            } else {
                Seq::<char>::empty()
            }
        }),
{
    reveal_strlit("avc1.");
    reveal_strlit("00");
    reveal_strlit(",mp4a.40.2");
    reveal_strlit("baseline");
    reveal_strlit("high");
    let s = codecs_text(profile, level, has_audio);
    assert(s.subrange(0, 5) =~= "avc1."@);
    assert(s.subrange(11, s.len() as int) =~= if has_audio {
        ",mp4a.40.2"@
    } else {
        Seq::<char>::empty()
    });
}

/// A level of one digit before and one behind the point has the number that both digits write.
pub proof fn levels_have_their_numbers(a: char, b: char)
    requires
        '0' <= a <= '9',
        '0' <= b <= '9',
    ensures
        level_number(seq![a, '.', b]) == 10 * (a as int - '0' as int) + (b as int - '0' as int),
        level_number(seq![a]) == 10 * (a as int - '0' as int),
{
    let none = Seq::<char>::empty();
    let one = seq![a];
    let two = seq![a, '.'];
    let three = seq![a, '.', b];
    assert(one.drop_last() =~= none);
    assert(two.drop_last() =~= one);
    assert(three.drop_last() =~= two);
    assert(none.push(a) =~= one);
    assert(none.push(b) =~= seq![b]);
    assert(pieces(none, '.') =~= seq![none]);
    assert(pieces(one, '.') =~= seq![one]);
    assert(pieces(two, '.') =~= seq![one, none]);
    assert(pieces(three, '.') =~= seq![one, seq![b]]);
    lemma_one_digit(a);
    lemma_one_digit(b);
}

proof fn lemma_one_digit(c: char)
    requires
        '0' <= c <= '9',
    ensures
        unsigned_value(seq![c], 255) == Some((c as int - '0' as int) as nat),
{
    let s = seq![c];
    assert(s.drop_last() =~= Seq::<char>::empty());
    assert(text::digits_value(s.drop_last()) == 0);
    assert(text::is_digit(c));
    assert(text::all_digits(s));
}

/// The bandwidth that is announced is a tenth above both bitrates together, in bits per second, as
/// far as 32 bits can tell.
pub proof fn bandwidth_leaves_a_tenth(video_kbps: u32, audio_kbps: u32)
    ensures
        ({
            let bits = (video_kbps + audio_kbps) * 1000;
            let b = announced_bandwidth(video_kbps, audio_kbps);
            &&& 11 * bits <= 10 * u32::MAX ==> 10 * b == 11 * bits
            &&& 11 * bits > 10 * u32::MAX ==> b == u32::MAX
        }),
{
}

} // verus!
