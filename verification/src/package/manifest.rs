//! HLS playlists and the paths under which a stream is stored.

use vstd::prelude::*;
use vstd::string::*;

use crate::binary64;
use crate::binary64::{
    ceiling, ceilings_are_exact, divided, large_ceilings_are_large, thousandths,
    thousandths_are_nearest, TWO_53,
};
use crate::clock;
use crate::clock::{in_calendar, utc_text};
use crate::common::types::{FrameRate, RenditionId, TICKS_PER_SEC};
use crate::package::lines::{date_on_one_line, dates_on_one_line};
use crate::text;
use crate::text::{
    all_digits, decimal, decimals_read_back, digits_are_ordered_as_numbers, digits_value, has_part,
    lemma_precedes_extends, occurs_at, padded_numbers_read_back, precedes, zero_padded,
};
use crate::transcode::profile;
use crate::transcode::profile::{announced_bandwidth, codecs_text, level_fits};

verus! {

/// A rendition as the multivariant playlist announces it.
#[derive(Debug)]
pub struct RenditionInfo {
    pub id: RenditionId,
    pub width: u32,
    pub height: u32,
    pub video_bitrate_kbps: u32,
    pub audio_bitrate_kbps: u32,
    pub profile: String,
    pub level: String,
    pub frame_rate: FrameRate,
    pub has_audio: bool,
}

/// What the multivariant playlist says of one rendition.
#[verifier::ext_equal]
pub struct Variant {
    pub id: RenditionId,
    pub width: u32,
    pub height: u32,
    pub video_bitrate_kbps: u32,
    pub audio_bitrate_kbps: u32,
    pub profile: Seq<char>,
    pub level: Seq<char>,
    pub frame_rate: FrameRate,
    pub has_audio: bool,
}

impl View for RenditionInfo {
    type V = Variant;

    open spec fn view(&self) -> Variant {
        Variant {
            id: self.id,
            width: self.width,
            height: self.height,
            video_bitrate_kbps: self.video_bitrate_kbps,
            audio_bitrate_kbps: self.audio_bitrate_kbps,
            profile: self.profile@,
            level: self.level@,
            frame_rate: self.frame_rate,
            has_audio: self.has_audio,
        }
    }
}

/// What the multivariant playlist says of each rendition.
pub open spec fn variants(r: Seq<RenditionInfo>) -> Seq<Variant> {
    r.map_values(|i: RenditionInfo| i@)
}

impl Variant {
    /// The sum of the bitrates and the level number fit in their fields.
    pub open spec fn announceable(self) -> bool {
        &&& self.video_bitrate_kbps + self.audio_bitrate_kbps <= u32::MAX
        &&& level_fits(self.level)
    }
}

/// A segment as the media playlist lists it.
#[derive(Debug)]
pub struct PlaylistSegment {
    pub sequence: u64,
    /// Duration in ticks of 1/90000 s.
    pub duration_ticks: i64,
    pub filename: String,
    /// Nanoseconds since the Unix epoch.
    pub program_date_time: Option<i128>,
}

/// What a media playlist says of one segment.
#[verifier::ext_equal]
pub struct Listing {
    pub sequence: u64,
    pub duration_ticks: i64,
    pub filename: Seq<char>,
    pub program_date_time: Option<i128>,
}

impl View for PlaylistSegment {
    type V = Listing;

    open spec fn view(&self) -> Listing {
        Listing {
            sequence: self.sequence,
            duration_ticks: self.duration_ticks,
            filename: self.filename@,
            program_date_time: self.program_date_time,
        }
    }
}

/// What a media playlist says of each segment.
pub open spec fn listings(segments: Seq<PlaylistSegment>) -> Seq<Listing> {
    segments.map_values(|s: PlaylistSegment| s@)
}

// ---------------------------------------------------------------------------
// Numbers with three decimals
// ---------------------------------------------------------------------------

/// `n` thousandths, written with three decimals.
pub open spec fn thousandths_text(n: nat) -> Seq<char> {
    decimal(n / 1000) + "."@ + zero_padded(n % 1000, 3)
}

/// A number of ticks in seconds, as a whole number and the power of two that divides it.
pub open spec fn seconds_of(ticks: nat) -> (nat, nat) {
    divided(ticks, TICKS_PER_SEC as nat)
}

/// A duration in seconds with three decimals.
pub open spec fn duration_text(ticks: i64) -> Seq<char> {
    if ticks >= 0 {
        thousandths_text(thousandths(seconds_of(ticks as nat)))
    } else {
        "-"@ + thousandths_text(thousandths(seconds_of((-ticks) as nat)))
    }
}

/// A frame rate with three decimals.
pub open spec fn rate_text(rate: FrameRate) -> Seq<char> {
    if rate.below_zero() {
        "-"@ + thousandths_text(thousandths(rate.size()))
    } else {
        thousandths_text(thousandths(rate.size()))
    }
}

/// A number of ticks in seconds, as a whole number and the power of two that divides it.
pub(crate) fn in_seconds(ticks: u64) -> (r: (u128, u128))
    ensures
        (r.0 as nat, r.1 as nat) == seconds_of(ticks as nat),
        r.0 <= TWO_53,
        0 < r.1 <= TWO_53 * 0xffff_ffff,
{
    binary64::divide(ticks, 90_000)
}

fn push_rate(out: &mut String, rate: FrameRate)
    ensures
        final(out)@ == old(out)@ + rate_text(rate),
{
    if rate.is_negative() {
        out.append("-");
    }
    push_thousandths(out, binary64::nearest_thousandths(rate.divide()));
    assert(out@ =~= old(out)@ + rate_text(rate));
}

fn push_thousandths(out: &mut String, n: u64)
    ensures
        final(out)@ == old(out)@ + thousandths_text(n as nat),
{
    text::push_decimal(out, n / 1000);
    out.append(".");
    text::push_zero_padded(out, n % 1000, 3);
    assert(out@ =~= old(out)@ + thousandths_text(n as nat));
}

fn push_duration(out: &mut String, ticks: i64)
    ensures
        final(out)@ == old(out)@ + duration_text(ticks),
{
    if ticks >= 0 {
        push_thousandths(out, binary64::nearest_thousandths(in_seconds(ticks as u64)));
    } else {
        out.append("-");
        let magnitude: u64 = (-(ticks + 1)) as u64 + 1;
        push_thousandths(out, binary64::nearest_thousandths(in_seconds(magnitude)));
        assert(out@ =~= old(out)@ + duration_text(ticks));
    }
}

// ---------------------------------------------------------------------------
// Multivariant playlist
// ---------------------------------------------------------------------------

/// The entry of one rendition in the multivariant playlist.
pub open spec fn variant_text(r: Variant) -> Seq<char> {
    "#EXT-X-STREAM-INF:BANDWIDTH="@ + decimal(
        announced_bandwidth(r.video_bitrate_kbps, r.audio_bitrate_kbps) as nat,
    ) + ",RESOLUTION="@ + decimal(r.width as nat) + "x"@ + decimal(r.height as nat)
        + ",CODECS=\""@ + codecs_text(r.profile, r.level, r.has_audio) + "\",FRAME-RATE="@
        + rate_text(r.frame_rate) + "\n"@ + r.id.name() + "/media.m3u8\n\n"@
}

/// The entries of all renditions.
pub open spec fn variants_text(r: Seq<Variant>) -> Seq<char>
    decreases r.len(),
{
    if r.len() == 0 {
        Seq::empty()
    } else {
        variants_text(r.drop_last()) + variant_text(r.last())
    }
}

/// The multivariant playlist.
pub open spec fn multivariant_text(renditions: Seq<Variant>, hls_version: u32) -> Seq<char> {
    "#EXTM3U\n#EXT-X-VERSION:"@ + decimal(hls_version as nat)
        + "\n#EXT-X-INDEPENDENT-SEGMENTS\n\n"@ + variants_text(renditions)
}

fn push_variant(out: &mut String, r: &RenditionInfo)
    requires
        r@.announceable(),
    ensures
        final(out)@ == old(out)@ + variant_text(r@),
{
    let mut s = text::owned("#EXT-X-STREAM-INF:BANDWIDTH=");
    text::push_decimal(
        &mut s,
        profile::bandwidth(r.video_bitrate_kbps, r.audio_bitrate_kbps) as u64,
    );
    s.append(",RESOLUTION=");
    text::push_decimal(&mut s, r.width as u64);
    s.append("x");
    text::push_decimal(&mut s, r.height as u64);
    s.append(",CODECS=\"");
    let codecs = profile::codecs_attribute(&r.profile, &r.level, r.has_audio);
    s.append(&codecs);
    s.append("\",FRAME-RATE=");
    push_rate(&mut s, r.frame_rate);
    s.append("\n");
    s.append(r.id.as_str());
    s.append("/media.m3u8\n\n");
    out.append(&s);
}

/// Every rendition can be announced.
pub open spec fn announceable_all(v: Seq<Variant>) -> bool {
    forall|i: int| 0 <= i < v.len() ==> (#[trigger] v[i]).announceable()
}

/// Generates the multivariant playlist of a stream.
pub fn generate_multivariant_playlist(
    renditions: &[RenditionInfo],
    hls_version: u32,
) -> (r: String)
    requires
        announceable_all(variants(renditions@)),
    ensures
        r@ == multivariant_text(variants(renditions@), hls_version),
{
    let mut out = text::owned("#EXTM3U\n#EXT-X-VERSION:");
    text::push_decimal(&mut out, hls_version as u64);
    out.append("\n#EXT-X-INDEPENDENT-SEGMENTS\n\n");
    let ghost head = out@;
    let mut i: usize = 0;
    assert(variants(renditions@).subrange(0, 0) =~= Seq::empty());
    assert(out@ =~= head + variants_text(variants(renditions@).subrange(0, 0)));
    while i < renditions.len()
        invariant
            i <= renditions@.len(),
            announceable_all(variants(renditions@)),
            out@ == head + variants_text(variants(renditions@).subrange(0, i as int)),
        decreases renditions@.len() - i,
    {
        assert(variants(renditions@).subrange(0, i + 1).drop_last() =~= variants(
            renditions@,
        ).subrange(0, i as int));
        assert(variants(renditions@)[i as int] == renditions@[i as int]@);
        push_variant(&mut out, &renditions[i]);
        i = i + 1;
        assert(out@ =~= head + variants_text(variants(renditions@).subrange(0, i as int)));
    }
    assert(variants(renditions@).subrange(0, i as int) =~= variants(renditions@));
    out
}

// ---------------------------------------------------------------------------
// Media playlist
// ---------------------------------------------------------------------------

/// The longest duration among the segments, and at least 0.
pub open spec fn longest_ticks(segments: Seq<Listing>) -> int
    decreases segments.len(),
{
    if segments.len() == 0 {
        0
    } else {
        let before = longest_ticks(segments.drop_last());
        let last = segments.last().duration_ticks as int;
        if last > before {
            last
        } else {
            before
        }
    }
}

/// The target duration: the longest duration in whole seconds, rounded up, and at least 1.
pub open spec fn target_duration(segments: Seq<Listing>) -> int {
    let q = seconds_of(longest_ticks(segments) as nat);
    let secs = (q.0 + q.1 - 1) / q.1 as int;
    if secs < 1 {
        1
    } else if secs > u32::MAX {
        u32::MAX as int
    } else {
        secs
    }
}

/// The media sequence number: that of the first segment; 0 for on-demand playlists and where
/// there is no segment.
pub open spec fn media_sequence(segments: Seq<Listing>, is_vod: bool) -> u64 {
    if is_vod || segments.len() == 0 {
        0
    } else {
        segments[0].sequence
    }
}

/// The entry of one segment in the media playlist.
pub open spec fn segment_text(s: Listing) -> Seq<char> {
    (match s.program_date_time {
        Some(t) => "#EXT-X-PROGRAM-DATE-TIME:"@ + utc_text(t) + "\n"@,
        None => ""@,
    }) + "#EXTINF:"@ + duration_text(s.duration_ticks) + ",\n"@ + s.filename + "\n"@
}

/// The entries of all segments.
pub open spec fn segments_text(segments: Seq<Listing>) -> Seq<char>
    decreases segments.len(),
{
    if segments.len() == 0 {
        Seq::empty()
    } else {
        segments_text(segments.drop_last()) + segment_text(segments.last())
    }
}

/// The head of a media playlist.
pub open spec fn media_head(
    segments: Seq<Listing>,
    hls_version: u32,
    is_vod: bool,
) -> Seq<char> {
    "#EXTM3U\n#EXT-X-VERSION:"@ + decimal(hls_version as nat) + "\n#EXT-X-TARGETDURATION:"@
        + decimal(target_duration(segments) as nat) + "\n"@ + (if is_vod {
        "#EXT-X-PLAYLIST-TYPE:VOD\n"@
    } else {
        ""@
    }) + "#EXT-X-MEDIA-SEQUENCE:"@ + decimal(media_sequence(segments, is_vod) as nat)
        + "\n#EXT-X-MAP:URI=\"init.mp4\"\n\n"@
}

/// The media playlist: head, segments, and an end mark where nothing more will come.
pub open spec fn media_text(
    segments: Seq<Listing>,
    hls_version: u32,
    is_vod: bool,
    is_finished: bool,
) -> Seq<char> {
    media_head(segments, hls_version, is_vod) + segments_text(segments) + (if is_vod
        || is_finished {
        "#EXT-X-ENDLIST\n"@
    } else {
        ""@
    })
}

/// Every program date lies in the calendar.
pub open spec fn dated(segments: Seq<Listing>) -> bool {
    forall|i: int|
        0 <= i < segments.len() ==> ((#[trigger] segments[i]).program_date_time matches Some(t)
            ==> in_calendar(t))
}

fn compute_target_duration(segments: &[PlaylistSegment]) -> (r: u32)
    ensures
        r == target_duration(listings(segments@)),
{
    let mut longest: i64 = 0;
    let mut i: usize = 0;
    assert(listings(segments@).subrange(0, 0) =~= Seq::empty());
    while i < segments.len()
        invariant
            i <= segments@.len(),
            longest >= 0,
            longest == longest_ticks(listings(segments@).subrange(0, i as int)),
        decreases segments@.len() - i,
    {
        assert(listings(segments@).subrange(0, i + 1).drop_last() =~= listings(segments@).subrange(
            0,
            i as int,
        ));
        if segments[i].duration_ticks > longest {
            longest = segments[i].duration_ticks;
        }
        i = i + 1;
    }
    assert(listings(segments@).subrange(0, i as int) =~= listings(segments@));
    let q = in_seconds(longest as u64);
    let secs: u128 = (q.0 + q.1 - 1) / q.1;
    if secs < 1 {
        1
    } else if secs > u32::MAX as u128 {
        u32::MAX
    } else {
        secs as u32
    }
}

fn push_segment(out: &mut String, s: &PlaylistSegment)
    requires
        s.program_date_time matches Some(t) ==> in_calendar(t),
    ensures
        final(out)@ == old(out)@ + segment_text(s@),
        date_on_one_line(s@),
{
    let mut line = String::new();
    match s.program_date_time {
        Some(t) => {
            line.append("#EXT-X-PROGRAM-DATE-TIME:");
            let date = clock::format_utc(t);
            line.append(&date);
            line.append("\n");
            assert(line@ =~= "#EXT-X-PROGRAM-DATE-TIME:"@ + utc_text(t) + "\n"@);
        },
        None => {
            proof {
                reveal_strlit("");
            }
            assert(line@ =~= ""@);
        },
    }
    line.append("#EXTINF:");
    push_duration(&mut line, s.duration_ticks);
    line.append(",\n");
    line.append(&s.filename);
    line.append("\n");
    out.append(&line);
}

/// Generates the media playlist of one rendition. On-demand and finished playlists carry the end
/// mark; live ones do not.
pub fn generate_media_playlist(
    segments: &[PlaylistSegment],
    hls_version: u32,
    is_vod: bool,
    is_finished: bool,
) -> (r: String)
    requires
        dated(listings(segments@)),
    ensures
        r@ == media_text(listings(segments@), hls_version, is_vod, is_finished),
        dates_on_one_line(listings(segments@)),
{
    let mut out = text::owned("#EXTM3U\n#EXT-X-VERSION:");
    text::push_decimal(&mut out, hls_version as u64);
    out.append("\n#EXT-X-TARGETDURATION:");
    text::push_decimal(&mut out, compute_target_duration(segments) as u64);
    out.append("\n");
    if is_vod {
        out.append("#EXT-X-PLAYLIST-TYPE:VOD\n");
    } else {
        out.append("");
    }
    out.append("#EXT-X-MEDIA-SEQUENCE:");
    let first: u64 = if is_vod || segments.len() == 0 {
        0
    } else {
        segments[0].sequence
    };
    text::push_decimal(&mut out, first);
    out.append("\n#EXT-X-MAP:URI=\"init.mp4\"\n\n");
    let ghost head = out@;
    assert(head == media_head(listings(segments@), hls_version, is_vod));
    let mut i: usize = 0;
    assert(listings(segments@).subrange(0, 0) =~= Seq::empty());
    assert(out@ =~= head + segments_text(listings(segments@).subrange(0, 0)));
    while i < segments.len()
        invariant
            i <= segments@.len(),
            dated(listings(segments@)),
            forall|j: int|
                0 <= j < i ==> date_on_one_line(#[trigger] listings(segments@)[j]),
            out@ == head + segments_text(listings(segments@).subrange(0, i as int)),
        decreases segments@.len() - i,
    {
        assert(listings(segments@).subrange(0, i + 1).drop_last() =~= listings(segments@).subrange(
            0,
            i as int,
        ));
        assert(listings(segments@)[i as int] == segments@[i as int]@);
        push_segment(&mut out, &segments[i]);
        i = i + 1;
        assert(out@ =~= head + segments_text(listings(segments@).subrange(0, i as int)));
    }
    assert(listings(segments@).subrange(0, i as int) =~= listings(segments@));
    if is_vod || is_finished {
        out.append("#EXT-X-ENDLIST\n");
    } else {
        out.append("");
    }
    out
}

// ---------------------------------------------------------------------------
// Paths
// ---------------------------------------------------------------------------

/// The file name of a segment: its number with at least six digits.
pub open spec fn segment_name(sequence: u64) -> Seq<char> {
    zero_padded(sequence as nat, 6) + ".m4s"@
}

/// The path of a file of a rendition.
pub open spec fn rendition_file(
    stream_id: Seq<char>,
    rendition: Seq<char>,
    file: Seq<char>,
) -> Seq<char> {
    stream_id + "/"@ + rendition + "/"@ + file
}

fn join_path(stream_id: &str, rendition: &str, file: &str) -> (r: String)
    ensures
        r@ == rendition_file(stream_id@, rendition@, file@),
{
    let mut s = text::owned(stream_id);
    s.append("/");
    s.append(rendition);
    s.append("/");
    s.append(file);
    s
}

/// The storage path of a segment.
pub fn segment_path(stream_id: &str, rendition: &str, sequence: u64) -> (r: String)
    ensures
        r@ == rendition_file(stream_id@, rendition@, segment_name(sequence)),
{
    let name = segment_filename(sequence);
    join_path(stream_id, rendition, &name)
}

/// The storage path of an initialization segment.
pub fn init_segment_path(stream_id: &str, rendition: &str) -> (r: String)
    ensures
        r@ == rendition_file(stream_id@, rendition@, "init.mp4"@),
{
    join_path(stream_id, rendition, "init.mp4")
}

/// The storage path of a media playlist.
pub fn media_playlist_path(stream_id: &str, rendition: &str) -> (r: String)
    ensures
        r@ == rendition_file(stream_id@, rendition@, "media.m3u8"@),
{
    join_path(stream_id, rendition, "media.m3u8")
}

/// The storage path of the multivariant playlist.
pub fn master_playlist_path(stream_id: &str) -> (r: String)
    ensures
        r@ == stream_id@ + "/master.m3u8"@,
{
    let mut s = text::owned(stream_id);
    s.append("/master.m3u8");
    s
}

/// The file name of a segment.
pub fn segment_filename(sequence: u64) -> (r: String)
    ensures
        r@ == segment_name(sequence),
{
    let mut s = String::new();
    text::push_zero_padded(&mut s, sequence, 6);
    assert(s@ =~= zero_padded(sequence as nat, 6));
    s.append(".m4s");
    s
}

// ---------------------------------------------------------------------------
// Laws
// ---------------------------------------------------------------------------

/// An on-demand playlist says that it is one.
pub proof fn on_demand_playlists_carry_their_mark(
    segments: Seq<Listing>,
    hls_version: u32,
    is_finished: bool,
)
    ensures
        has_part(
            media_text(segments, hls_version, true, is_finished),
            "#EXT-X-PLAYLIST-TYPE:VOD"@,
        ),
{
    reveal_strlit("#EXT-X-PLAYLIST-TYPE:VOD");
    reveal_strlit("#EXT-X-PLAYLIST-TYPE:VOD\n");
    let mark = "#EXT-X-PLAYLIST-TYPE:VOD"@;
    let line = "#EXT-X-PLAYLIST-TYPE:VOD\n"@;
    let front = "#EXTM3U\n#EXT-X-VERSION:"@ + decimal(hls_version as nat)
        + "\n#EXT-X-TARGETDURATION:"@ + decimal(target_duration(segments) as nat) + "\n"@;
    let text = media_text(segments, hls_version, true, is_finished);
    let at = front.len() as int;
    assert(text.subrange(at, at + line.len()) =~= line);
    assert(line.subrange(0, mark.len() as int) =~= mark);
    assert(text.subrange(at, at + mark.len()) =~= mark);
    assert(occurs_at(text, mark, at));
}

/// Segments with different numbers have different names.
pub proof fn segment_names_differ(a: u64, b: u64)
    ensures
        segment_name(a) == segment_name(b) <==> a == b,
{
    let x = zero_padded(a as nat, 6);
    let y = zero_padded(b as nat, 6);
    padded_numbers_read_back(a as nat, 6);
    padded_numbers_read_back(b as nat, 6);
    if segment_name(a) == segment_name(b) {
        assert(segment_name(a).len() == x.len() + ".m4s"@.len());
        assert(segment_name(b).len() == y.len() + ".m4s"@.len());
        assert(x =~= segment_name(a).subrange(0, x.len() as int));
        assert(y =~= segment_name(b).subrange(0, y.len() as int));
    }
}

/// The names of the first million segments are in the order of their numbers.
pub proof fn segment_names_grow(a: u64, b: u64)
    requires
        a < b < 1_000_000,
    ensures
        precedes(segment_name(a), segment_name(b)),
{
    let x = zero_padded(a as nat, 6);
    let y = zero_padded(b as nat, 6);
    padded_numbers_read_back(a as nat, 6);
    padded_numbers_read_back(b as nat, 6);
    lemma_six_digits(a as nat);
    lemma_six_digits(b as nat);
    digits_are_ordered_as_numbers(x, y);
    lemma_precedes_extends(x, y, ".m4s"@, ".m4s"@);
}

proof fn lemma_six_digits(n: nat)
    requires
        n < 1_000_000,
    ensures
        zero_padded(n, 6).len() == 6,
{
    reveal_with_fuel(decimal, 7);
}

proof fn lemma_longest(segments: Seq<Listing>)
    ensures
        longest_ticks(segments) >= 0,
        forall|i: int|
            0 <= i < segments.len() ==> (#[trigger] segments[i]).duration_ticks <= longest_ticks(
                segments,
            ),
        longest_ticks(segments) == 0 || exists|i: int|
            0 <= i < segments.len() && (#[trigger] segments[i]).duration_ticks == longest_ticks(
                segments,
            ),
    decreases segments.len(),
{
    if segments.len() > 0 {
        let before = segments.drop_last();
        lemma_longest(before);
        assert forall|i: int| 0 <= i < segments.len() implies (
        #[trigger] segments[i]).duration_ticks <= longest_ticks(segments) by {
            if i < before.len() {
                assert(before[i] == segments[i]);
            }
        }
        if longest_ticks(segments) == longest_ticks(before) {
            if longest_ticks(before) != 0 {
                let i = choose|i: int|
                    0 <= i < before.len() && (#[trigger] before[i]).duration_ticks
                        == longest_ticks(before);
                assert(segments[i] == before[i]);
            }
        } else {
            assert(segments[segments.len() - 1].duration_ticks == longest_ticks(segments));
        }
    }
}

/// No segment of a playlist is longer than its target duration, as far as that can be told in 32
/// bits; and it is no longer than it must be: it is 1 s, or some segment is longer than one second
/// less.
pub proof fn target_durations_cover_every_segment(segments: Seq<Listing>)
    ensures
        1 <= target_duration(segments) <= u32::MAX,
        forall|i: int|
            0 <= i < segments.len() && (#[trigger] segments[i]).duration_ticks <= u32::MAX * 90000
                ==> segments[i].duration_ticks <= target_duration(segments) * 90000,
        target_duration(segments) == 1 || exists|i: int|
            0 <= i < segments.len() && (#[trigger] segments[i]).duration_ticks > (target_duration(
                segments,
            ) - 1) * 90000,
{
    lemma_longest(segments);
    let n = longest_ticks(segments) as nat;
    let t = target_duration(segments);
    assert(t == 1 || t <= ceiling(seconds_of(n)));
    if 0 < n <= u32::MAX * 90000 {
        let c = (n + 89999) / 90000;
        ceilings_are_exact(n, 90000, c);
        assert(t == c);
    } else if n > u32::MAX * 90000 {
        assert(n <= i64::MAX) by {
            let i = choose|i: int|
                0 <= i < segments.len() && (#[trigger] segments[i]).duration_ticks == longest_ticks(
                    segments,
                );
            assert(segments[i].duration_ticks <= i64::MAX);
        }
        large_ceilings_are_large(n, 90000);
        assert(t == u32::MAX);
    }
    if n > 0 {
        let i = choose|i: int|
            0 <= i < segments.len() && (#[trigger] segments[i]).duration_ticks == longest_ticks(
                segments,
            );
        assert(t == 1 || segments[i].duration_ticks > (t - 1) * 90000);
    } else {
        assert(divided(0, 90000) == (0nat, 1nat)) by {
            assert(crate::binary64::to_53_bits(0, 1) == 0);
        }
    }
}

/// The thousandths that a text with three decimals writes, if it is one.
pub open spec fn thousandths_read(s: Seq<char>) -> Option<nat> {
    let n = s.len() as int;
    if n >= 5 && s[n - 4] == '.' && all_digits(s.subrange(0, n - 4)) && all_digits(
        s.subrange(n - 3, n),
    ) {
        Some(digits_value(s.subrange(0, n - 4)) * 1000 + digits_value(s.subrange(n - 3, n)))
    } else {
        None
    }
}

proof fn lemma_thousandths_read(n: nat)
    ensures
        thousandths_read(thousandths_text(n)) == Some(n),
{
    reveal_strlit(".");
    let s = thousandths_text(n);
    let whole = decimal(n / 1000);
    let part = zero_padded(n % 1000, 3);
    decimals_read_back(n / 1000);
    padded_numbers_read_back(n % 1000, 3);
    assert(part.len() == 3) by {
        reveal_with_fuel(decimal, 4);
    }
    let k = s.len() as int;
    assert(s.subrange(0, k - 4) =~= whole);
    assert(s.subrange(k - 3, k) =~= part);
}

/// A duration is written in seconds, to the nearest of three decimals, for up to a year and more.
pub proof fn durations_are_written_to_the_nearest(ticks: i64)
    requires
        0 <= ticks < 0x400_0000_0000,
    ensures
        thousandths_read(duration_text(ticks)) matches Some(k) && -45000 <= k * 90000 - 1000 * ticks
            <= 45000,
{
    if ticks > 0 {
        thousandths_are_nearest(ticks as nat, 90000);
    } else {
        assert(thousandths(divided(0, 90000)) == 0) by {
            assert(crate::binary64::to_53_bits(0, 1) == 0);
            assert(divided(0, 90000) == (0nat, 1nat));
        }
    }
    lemma_thousandths_read(thousandths(seconds_of(ticks as nat)));
}

/// A frame rate is written to the nearest of three decimals.
pub proof fn rates_are_written_to_the_nearest(rate: FrameRate)
    requires
        rate.num > 0,
        rate.den > 0,
    ensures
        thousandths_read(rate_text(rate)) matches Some(k) && -rate.den <= 2 * (k * rate.den - 1000
            * rate.num) <= rate.den,
{
    thousandths_are_nearest(rate.num as nat, rate.den as nat);
    lemma_thousandths_read(thousandths(rate.size()));
}

} // verus!
