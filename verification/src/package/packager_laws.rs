//! What the packager makes of a segment, told by what a player finds in its files.

use vstd::prelude::*;
use vstd::string::*;
use vstd::utf8::*;

use crate::binary64::{divided, products_come_back, to_53_bits};
use crate::buffer::bytes_seq;
use crate::common::types::{EncodedSegment, RenditionId, StreamId, WriteModel};
use crate::control::events::Report;
use crate::package::box_laws::{
    child, children, field, media_segments_tell_what_they_hold, named, tells_sample, unsigned64,
};
use crate::package::hls::{init_segment, media_segment};
use crate::package::init_laws::{init_segments_tell_what_they_hold, tells_movie};
use crate::package::manifest::{media_text, segment_name};
use crate::package::runner::{file_of, init_of, media_of, sample_duration, Output, Packager};
use crate::storage::content_type_of;
use crate::text::{finishes_with, zero_padded};

verus! {

/// A sample lasts as many ticks as its segment, or one less where the seconds cannot be told
/// exactly; one of less than no time lasts none.
pub proof fn samples_last_as_long_as_their_segment(ticks: i64)
    requires
        ticks <= u32::MAX,
    ensures
        ticks > 0 ==> ticks - 1 <= sample_duration(ticks) <= ticks,
        ticks <= 0 ==> sample_duration(ticks) == 0,
{
    if ticks > 0 {
        products_come_back(ticks as nat, 90_000);
    } else if ticks == 0 {
        assert(to_53_bits(0, 1) == 0);
        assert(divided(0, 90_000) == (0nat, 1nat));
    }
}

/// The file of a segment starts at the segment's own time on track 1, carries its number, and holds
/// one sample: all of its video.
pub proof fn segment_files_hold_their_segment(s: EncodedSegment)
    requires
        bytes_seq(s.video_data).len() + 8 < 0x1_0000_0000,
    ensures
        ({
            let f = Some(media_segment(media_of(s)));
            let moof = child(f, 1, named('m', 'o', 'o', 'f'));
            let traf = child(moof, 1, named('t', 'r', 'a', 'f'));
            let trun = child(traf, 2, named('t', 'r', 'u', 'n'));
            &&& children(f) == 3
            &&& field(child(moof, 0, named('m', 'f', 'h', 'd')), 4, 4) == s.sequence
                % 0x1_0000_0000
            &&& field(child(traf, 0, named('t', 'f', 'h', 'd')), 4, 4) == 1
            &&& field(child(traf, 1, named('t', 'f', 'd', 't')), 4, 8) == unsigned64(s.pts_start)
            &&& field(trun, 4, 4) == 1
            &&& field(trun, 12, 4) == sample_duration(s.duration_ticks)
            &&& field(trun, 16, 4) == bytes_seq(s.video_data).len()
            &&& field(trun, 20, 4) == if s.sequence == 0 {
                0x0200_0000int
            } else {
                0x0101_0000
            }
            &&& field(trun, 24, 4) == 0
            &&& child(f, 2, named('m', 'd', 'a', 't')) == Some(bytes_seq(s.video_data))
        }),
{
    let p = media_of(s);
    media_segments_tell_what_they_hold(p);
    let f = Some(media_segment(p));
    let moof = child(f, 1, named('m', 'o', 'o', 'f'));
    let traf = child(moof, 1, named('t', 'r', 'a', 'f'));
    let trun = child(traf, 2, named('t', 'r', 'u', 'n'));
    assert(tells_sample(trun, 0, p.samples[0]));
}

/// The initialization file of a rendition gives the dimensions of its segments, the clock of their
/// times, and an audio track exactly where they have audio.
pub proof fn init_files_tell_of_their_rendition(s: EncodedSegment)
    ensures
        tells_movie(
            child(Some(init_segment(init_of(s))), 1, named('m', 'o', 'o', 'v')),
            init_of(s),
        ),
        init_of(s).width == s.width,
        init_of(s).height == s.height,
        init_of(s).video_timescale == 90_000,
        init_of(s).audio_timescale == 48_000,
        init_of(s).has_audio <==> s.audio_data is Some,
        init_of(s).audio_specific_config is Some <==> s.audio_data is Some,
{
    init_segments_tell_what_they_hold(init_of(s));
}

proof fn lemma_ends(path: Seq<char>, end: Seq<char>)
    ensures
        finishes_with(path + end, end),
{
    let s = path + end;
    assert(s.subrange(s.len() - end.len(), s.len() as int) =~= end);
}

/// Segments and initialization segments are served as MP4, playlists as playlists.
pub proof fn files_have_their_types(path: Seq<char>)
    ensures
        content_type_of(path + ".m4s"@) == "video/mp4"@,
        content_type_of(path + ".mp4"@) == "video/mp4"@,
        content_type_of(path + ".m3u8"@) == "application/vnd.apple.mpegurl"@,
        content_type_of(path + ".json"@) == "application/json"@,
{
    reveal_strlit(".m4s");
    reveal_strlit(".mp4");
    reveal_strlit(".m3u8");
    reveal_strlit(".json");
    lemma_ends(path, ".m4s"@);
    lemma_ends(path, ".mp4"@);
    lemma_ends(path, ".m3u8"@);
    lemma_ends(path, ".json"@);
    let p = path + ".m3u8"@;
    let j = path + ".json"@;
    assert(p.last() == '8');
    assert(j.last() == 'n');
    if finishes_with(p, ".m4s"@) {
        assert(p.subrange(p.len() - 4, p.len() as int)[3] == p.last());
    }
    if finishes_with(p, ".mp4"@) {
        assert(p.subrange(p.len() - 4, p.len() as int)[3] == p.last());
    }
    if finishes_with(j, ".m4s"@) {
        assert(j.subrange(j.len() - 4, j.len() as int)[3] == j.last());
    }
    if finishes_with(j, ".mp4"@) {
        assert(j.subrange(j.len() - 4, j.len() as int)[3] == j.last());
    }
    if finishes_with(j, ".m3u8"@) {
        assert(j.subrange(j.len() - 5, j.len() as int)[4] == j.last());
    }
}

/// The write of a file of a rendition.
pub open spec fn writes_file(
    o: Output,
    stream_id: StreamId,
    r: RenditionId,
    file: Seq<char>,
    data: Seq<u8>,
    content_type: Seq<char>,
) -> bool {
    o == Output::Write(
        WriteModel {
            path: stream_id.text() + "/"@ + r.name() + "/"@ + file,
            data,
            content_type,
        },
    )
}

/// For a segment its file is written, then the playlist that lists it, and both under the stream and
/// the rendition; the initialization file is written before them where the rendition is new. The
/// segment is reported behind them, and the end of the rendition behind the last segment, and only
/// then.
pub proof fn files_are_written_before_they_are_listed(
    before: Packager,
    s: EncodedSegment,
    now: i128,
    after: Packager,
)
    requires
        before.advanced(s, now, after),
    ensures
        ({
            let out = before.put_out(s, after);
            let k: int = if before.knows(s.rendition) {
                0
            } else {
                1
            };
            let id = before.stream();
            let r = s.rendition;
            &&& k == 1 ==> writes_file(
                out[0],
                id,
                r,
                "init.mp4"@,
                init_segment(init_of(s)),
                "video/mp4"@,
            )
            &&& writes_file(
                out[k],
                id,
                r,
                zero_padded(s.sequence as nat, 6) + ".m4s"@,
                media_segment(media_of(s)),
                "video/mp4"@,
            )
            &&& writes_file(
                out[k + 2],
                id,
                r,
                "media.m3u8"@,
                encode_utf8(
                    media_text(
                        after.listed(r),
                        before.version(),
                        before.on_demand(),
                        s.is_last,
                    ),
                ),
                "application/vnd.apple.mpegurl"@,
            )
            &&& out[k + 4] == Output::Event(
                Report::SegmentProduced {
                    stream_id: id,
                    rendition: r.name(),
                    sequence: s.sequence,
                },
            )
            &&& s.is_last ==> out.len() == k + 6 && out[k + 5] == Output::Event(
                Report::RenditionComplete { stream_id: id, rendition: r.name() },
            )
            &&& !s.is_last ==> out.len() == k + 5
        }),
{
    let path = file_of(before.stream(), s.rendition, segment_name(s.sequence));
    let front = before.stream().text() + "/"@ + s.rendition.name() + "/"@ + zero_padded(
        s.sequence as nat,
        6,
    );
    files_have_their_types(front);
    assert(path =~= front + ".m4s"@);
}

/// A playlist takes up each segment at its end, with its duration and the time at which it came. The
/// oldest leaves where the window is full, and only then; other renditions stay as they are.
pub proof fn windows_lose_only_their_oldest(
    before: Packager,
    s: EncodedSegment,
    now: i128,
    after: Packager,
    other: RenditionId,
)
    requires
        before.advanced(s, now, after),
        before.capacity() > 0,
        before.listed(s.rendition).len() <= before.capacity(),
    ensures
        ({
            let old_list = before.listed(s.rendition);
            let list = after.listed(s.rendition);
            &&& list.len() > 0
            &&& list.last().duration_ticks == s.duration_ticks
            &&& list.last().program_date_time == Some(now)
            &&& list.last().sequence == before.produced(s.rendition)
            &&& list.last().filename == segment_name(list.last().sequence)
            &&& old_list.len() < before.capacity() ==> list.drop_last() == old_list
            &&& old_list.len() == before.capacity() ==> list.drop_last() == old_list.drop_first()
            &&& after.produced(s.rendition) == before.produced(s.rendition) + 1
        }),
        other != s.rendition ==> after.listed(other) == before.listed(other) && after.produced(
            other,
        ) == before.produced(other),
{
    let old_list = before.listed(s.rendition);
    let list = after.listed(s.rendition);
    if old_list.len() < before.capacity() {
        assert(list.drop_last() =~= old_list);
    } else {
        assert(list.drop_last() =~= old_list.drop_first());
    }
    if other != s.rendition {
        assert(after.keeps(before, other));
    }
}

} // verus!
