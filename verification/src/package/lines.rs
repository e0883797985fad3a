//! Media playlists as lines, and the segments that their lines refer to.

use vstd::prelude::*;
use vstd::string::*;

use crate::binary64::thousandths;
use crate::clock::utc_text;
use crate::common::types::FrameRate;
use crate::package::manifest::{
    duration_text, media_head, media_sequence, media_text, multivariant_text, rate_text, seconds_of,
    segment_name, segment_text, segments_text, target_duration, thousandths_text, variant_text,
    variants_text, Listing, Variant,
};
use crate::storage::cleanup::{line_reference, parent_of, refers_to};
use crate::text::{
    all_digits, begins_with, decimal, decimals_read_back, digits_value, finishes_with, is_digit,
    is_space, pieces, stripped, trimmed_end, trimmed_start, zero_padded,
};
use crate::transcode::profile::{announced_bandwidth, codecs_text};

verus! {

// ---------------------------------------------------------------------------
// Lines
// ---------------------------------------------------------------------------

/// A text without a line end.
pub open spec fn one_line(s: Seq<char>) -> bool {
    forall|i: int| 0 <= i < s.len() ==> s[i] != '\n'
}

/// The program date, if there is one, is written on one line.
pub open spec fn date_on_one_line(segment: Listing) -> bool {
    segment.program_date_time matches Some(t) ==> one_line(utc_text(t))
}

/// Every program date is written on one line.
pub open spec fn dates_on_one_line(segments: Seq<Listing>) -> bool {
    forall|i: int| 0 <= i < segments.len() ==> date_on_one_line(#[trigger] segments[i])
}

/// Lines, each with its end.
spec fn lines_text(lines: Seq<Seq<char>>) -> Seq<char>
    decreases lines.len(),
{
    if lines.len() == 0 {
        Seq::empty()
    } else {
        lines_text(lines.drop_last()) + lines.last() + seq!['\n']
    }
}

proof fn lemma_pieces_grow(s: Seq<char>, x: Seq<char>)
    requires
        one_line(x),
    ensures
        pieces(s, '\n').len() > 0,
        pieces(s + x, '\n') == pieces(s, '\n').update(
            pieces(s, '\n').len() - 1,
            pieces(s, '\n').last() + x,
        ),
    decreases x.len(), s.len(),
{
    let p = pieces(s, '\n');
    if x.len() == 0 {
        if s.len() > 0 {
            lemma_pieces_grow(s.drop_last(), x);
        }
        assert(s + x =~= s);
        assert(p.last() + x =~= p.last());
        assert(p.update(p.len() - 1, p.last()) =~= p);
    } else {
        let y = x.drop_last();
        assert forall|i: int| 0 <= i < y.len() implies y[i] != '\n' by {
            assert(y[i] == x[i]);
        }
        lemma_pieces_grow(s, y);
        assert((s + x).drop_last() =~= s + y);
        assert((s + x).last() == x.last());
        let q = pieces(s + y, '\n');
        assert((p.last() + y).push(x.last()) =~= p.last() + x);
        assert(pieces(s + x, '\n') =~= q.update(q.len() - 1, q.last().push(x.last())));
        assert(q.update(q.len() - 1, q.last().push(x.last())) =~= p.update(
            p.len() - 1,
            p.last() + x,
        ));
    }
}

proof fn lemma_pieces_of_lines(lines: Seq<Seq<char>>)
    requires
        forall|i: int| 0 <= i < lines.len() ==> one_line(#[trigger] lines[i]),
    ensures
        pieces(lines_text(lines), '\n') == lines.push(Seq::empty()),
    decreases lines.len(),
{
    if lines.len() == 0 {
        assert(pieces(lines_text(lines), '\n') =~= lines.push(Seq::empty()));
    } else {
        let rest = lines.drop_last();
        assert forall|i: int| 0 <= i < rest.len() implies one_line(#[trigger] rest[i]) by {
            assert(rest[i] == lines[i]);
        }
        lemma_pieces_of_lines(rest);
        let t = lines_text(rest);
        let x = lines.last();
        lemma_pieces_grow(t, x);
        assert(Seq::<char>::empty() + x =~= x);
        assert(pieces(t + x, '\n') =~= lines);
        let whole = lines_text(lines);
        assert(whole.last() == '\n');
        assert(whole.drop_last() =~= t + x);
    }
}

/// One more line.
proof fn lemma_lines_push(a: Seq<Seq<char>>, x: Seq<char>)
    ensures
        lines_text(a.push(x)) == lines_text(a) + x + seq!['\n'],
{
    assert(a.push(x).drop_last() =~= a);
}

// ---------------------------------------------------------------------------
// Digits
// ---------------------------------------------------------------------------

proof fn lemma_decimal(n: nat)
    ensures
        decimal(n).len() > 0,
        forall|i: int| 0 <= i < decimal(n).len() ==> is_digit(#[trigger] decimal(n)[i]),
    decreases n,
{
    if n >= 10 {
        lemma_decimal(n / 10);
    }
}

proof fn lemma_padded(n: nat, width: nat)
    ensures
        zero_padded(n, width).len() > 0,
        forall|i: int|
            0 <= i < zero_padded(n, width).len() ==> is_digit(#[trigger] zero_padded(n, width)[i]),
{
    lemma_decimal(n);
}

proof fn lemma_duration(ticks: i64)
    ensures
        one_line(duration_text(ticks)),
{
    reveal_strlit(".");
    reveal_strlit("-");
    let n = if ticks >= 0 {
        thousandths(seconds_of(ticks as nat))
    } else {
        thousandths(seconds_of((-ticks) as nat))
    };
    lemma_decimal(n / 1000);
    lemma_padded(n % 1000, 3);
    let t = thousandths_text(n);
    assert(one_line(t)) by {
        assert forall|i: int| 0 <= i < t.len() implies t[i] != '\n' by {
            let a = decimal(n / 1000);
            let b = zero_padded(n % 1000, 3);
            if i < a.len() {
                assert(is_digit(a[i]));
            } else if i > a.len() {
                assert(is_digit(b[i - a.len() - 1]));
            }
        }
    }
}

// ---------------------------------------------------------------------------
// What a line refers to
// ---------------------------------------------------------------------------

proof fn lemma_trimmed_end(s: Seq<char>)
    requires
        s.len() > 0,
        !is_space(s[0]),
    ensures
        trimmed_end(s).len() > 0,
        trimmed_end(s)[0] == s[0],
    decreases s.len(),
{
    if is_space(s.last()) {
        lemma_trimmed_end(s.drop_last());
    }
}

/// Comments and empty lines refer to nothing.
proof fn lemma_comment(parent: Seq<char>, line: Seq<char>)
    requires
        line.len() == 0 || line[0] == '#',
    ensures
        line_reference(parent, line) is None,
{
    if line.len() > 0 {
        assert(!is_space('#'));
        assert(trimmed_start(line) == line);
        lemma_trimmed_end(line);
    }
}

/// A line that is the name of a segment file.
pub open spec fn plain_name(name: Seq<char>) -> bool {
    &&& name.len() > 0
    &&& is_digit(name[0])
    &&& finishes_with(name, ".m4s"@)
    &&& !name.contains('/')
    &&& one_line(name)
}

proof fn lemma_plain_name(sequence: u64)
    ensures
        plain_name(segment_name(sequence)),
{
    reveal_strlit(".m4s");
    let d = zero_padded(sequence as nat, 6);
    let name = segment_name(sequence);
    lemma_padded(sequence as nat, 6);
    assert(is_digit(d[0]));
    assert(name.subrange(d.len() as int, name.len() as int) =~= ".m4s"@);
    assert forall|i: int| 0 <= i < name.len() implies name[i] != '/' && name[i] != '\n' by {
        if i < d.len() {
            assert(is_digit(d[i]));
        } else {
            assert(name[i] == ".m4s"@[i - d.len()]);
        }
    }
}

proof fn lemma_name(parent: Seq<char>, name: Seq<char>)
    requires
        plain_name(name),
        parent.len() > 0,
    ensures
        line_reference(parent, name) == Some(parent + "/"@ + name),
{
    reveal_strlit(".m4s");
    assert(name.subrange(name.len() - 4, name.len() as int) == ".m4s"@);
    assert(name.last() == name.subrange(name.len() - 4, name.len() as int)[3]);
    assert(name.last() == 's');
    assert(!is_space('s'));
    assert(trimmed_start(name) == name);
    assert(trimmed_end(name) == name);
}

/// One of the lines refers to `k`.
spec fn some_refers(parent: Seq<char>, lines: Seq<Seq<char>>, k: Seq<char>) -> bool {
    exists|i: int| 0 <= i < lines.len() && line_reference(parent, #[trigger] lines[i]) == Some(k)
}

proof fn lemma_refers_push(parent: Seq<char>, lines: Seq<Seq<char>>, x: Seq<char>, k: Seq<char>)
    ensures
        some_refers(parent, lines.push(x), k) <==> some_refers(parent, lines, k)
            || line_reference(parent, x) == Some(k),
{
    let all = lines.push(x);
    if some_refers(parent, all, k) {
        let i = choose|i: int|
            0 <= i < all.len() && line_reference(parent, #[trigger] all[i]) == Some(k);
        if i < lines.len() {
            assert(lines[i] == all[i]);
        }
    }
    if some_refers(parent, lines, k) {
        let i = choose|i: int|
            0 <= i < lines.len() && line_reference(parent, #[trigger] lines[i]) == Some(k);
        assert(all[i] == lines[i]);
    }
    if line_reference(parent, x) == Some(k) {
        assert(all[lines.len() as int] == x);
    }
}

proof fn lemma_parent(dir: Seq<char>, name: Seq<char>)
    requires
        !name.contains('/'),
    ensures
        parent_of(dir + seq!['/'] + name) == dir,
    decreases name.len(),
{
    let path = dir + seq!['/'] + name;
    if name.len() == 0 {
        assert(path.drop_last() =~= dir);
    } else {
        assert(name.contains(name.last()));
        assert(path.last() == name.last());
        let rest = name.drop_last();
        assert forall|i: int| 0 <= i < rest.len() implies rest[i] != '/' by {
            assert(name.contains(name[i]));
        }
        assert(path.drop_last() =~= dir + seq!['/'] + rest);
        lemma_parent(dir, rest);
    }
}

// ---------------------------------------------------------------------------
// The lines of a playlist
// ---------------------------------------------------------------------------

/// The lines of the head.
spec fn head_lines(segments: Seq<Listing>, hls_version: u32, is_vod: bool) -> Seq<Seq<char>> {
    let first = seq![
        "#EXTM3U"@,
        "#EXT-X-VERSION:"@ + decimal(hls_version as nat),
        "#EXT-X-TARGETDURATION:"@ + decimal(target_duration(segments) as nat),
    ];
    let kind = if is_vod {
        first.push("#EXT-X-PLAYLIST-TYPE:VOD"@)
    } else {
        first
    };
    kind.push(
        "#EXT-X-MEDIA-SEQUENCE:"@ + decimal(media_sequence(segments, is_vod) as nat),
    ).push("#EXT-X-MAP:URI=\"init.mp4\""@).push(Seq::empty())
}

/// The lines of one segment, after others.
spec fn with_segment(lines: Seq<Seq<char>>, s: Listing) -> Seq<Seq<char>> {
    let dated = match s.program_date_time {
        Some(t) => lines.push("#EXT-X-PROGRAM-DATE-TIME:"@ + utc_text(t)),
        None => lines,
    };
    dated.push("#EXTINF:"@ + duration_text(s.duration_ticks) + ","@).push(s.filename)
}

/// The lines of the head and of all segments.
spec fn body_lines(head: Seq<Seq<char>>, segments: Seq<Listing>) -> Seq<Seq<char>>
    decreases segments.len(),
{
    if segments.len() == 0 {
        head
    } else {
        with_segment(body_lines(head, segments.drop_last()), segments.last())
    }
}

/// Every line is one line.
spec fn all_one_line(lines: Seq<Seq<char>>) -> bool {
    forall|i: int| 0 <= i < lines.len() ==> one_line(#[trigger] lines[i])
}

/// Only comments and empty lines.
spec fn all_comments(lines: Seq<Seq<char>>) -> bool {
    forall|i: int| 0 <= i < lines.len() ==> (#[trigger] lines[i]).len() == 0 || lines[i][0] == '#'
}

proof fn lemma_labelled_number(label: Seq<char>, n: nat)
    requires
        label.len() > 0,
        label[0] == '#',
        one_line(label),
    ensures
        one_line(label + decimal(n)),
        (label + decimal(n)).len() > 0,
        (label + decimal(n))[0] == '#',
{
    lemma_decimal(n);
    let s = label + decimal(n);
    assert forall|i: int| 0 <= i < s.len() implies s[i] != '\n' by {
        if i >= label.len() {
            assert(is_digit(decimal(n)[i - label.len()]));
        }
    }
}

proof fn lemma_head(segments: Seq<Listing>, hls_version: u32, is_vod: bool)
    ensures
        all_one_line(head_lines(segments, hls_version, is_vod)),
        all_comments(head_lines(segments, hls_version, is_vod)),
{
    reveal_strlit("#EXTM3U");
    reveal_strlit("#EXT-X-VERSION:");
    reveal_strlit("#EXT-X-TARGETDURATION:");
    reveal_strlit("#EXT-X-PLAYLIST-TYPE:VOD");
    reveal_strlit("#EXT-X-MEDIA-SEQUENCE:");
    reveal_strlit("#EXT-X-MAP:URI=\"init.mp4\"");
    lemma_labelled_number("#EXT-X-VERSION:"@, hls_version as nat);
    lemma_labelled_number("#EXT-X-TARGETDURATION:"@, target_duration(segments) as nat);
    lemma_labelled_number(
        "#EXT-X-MEDIA-SEQUENCE:"@,
        media_sequence(segments, is_vod) as nat,
    );
}

proof fn lemma_head_text(segments: Seq<Listing>, hls_version: u32, is_vod: bool)
    ensures
        lines_text(head_lines(segments, hls_version, is_vod)) == media_head(
            segments,
            hls_version,
            is_vod,
        ),
{
    let nl = seq!['\n'];
    let e = Seq::<char>::empty();
    let v = decimal(hls_version as nat);
    let t = decimal(target_duration(segments) as nat);
    let m = decimal(media_sequence(segments, is_vod) as nat);
    let l1 = "#EXTM3U"@;
    let l2 = "#EXT-X-VERSION:"@ + v;
    let l3 = "#EXT-X-TARGETDURATION:"@ + t;
    let l4 = "#EXT-X-PLAYLIST-TYPE:VOD"@;
    let l5 = "#EXT-X-MEDIA-SEQUENCE:"@ + m;
    let l6 = "#EXT-X-MAP:URI=\"init.mp4\""@;
    assert("#EXTM3U\n#EXT-X-VERSION:"@ =~= l1 + nl + "#EXT-X-VERSION:"@) by {
        reveal_strlit("#EXTM3U\n#EXT-X-VERSION:");
        reveal_strlit("#EXTM3U");
        reveal_strlit("#EXT-X-VERSION:");
    }
    assert("\n#EXT-X-TARGETDURATION:"@ =~= nl + "#EXT-X-TARGETDURATION:"@) by {
        reveal_strlit("\n#EXT-X-TARGETDURATION:");
        reveal_strlit("#EXT-X-TARGETDURATION:");
    }
    assert("\n"@ =~= nl) by {
        reveal_strlit("\n");
    }
    assert("#EXT-X-PLAYLIST-TYPE:VOD\n"@ =~= l4 + nl) by {
        reveal_strlit("#EXT-X-PLAYLIST-TYPE:VOD\n");
        reveal_strlit("#EXT-X-PLAYLIST-TYPE:VOD");
    }
    assert(""@ =~= e) by {
        reveal_strlit("");
    }
    assert("\n#EXT-X-MAP:URI=\"init.mp4\"\n\n"@ =~= nl + l6 + nl + nl) by {
        reveal_strlit("\n#EXT-X-MAP:URI=\"init.mp4\"\n\n");
        reveal_strlit("#EXT-X-MAP:URI=\"init.mp4\"");
    }
    let none = Seq::<Seq<char>>::empty();
    let first = seq![l1, l2, l3];
    assert(first =~= none.push(l1).push(l2).push(l3));
    lemma_lines_push(none, l1);
    lemma_lines_push(none.push(l1), l2);
    lemma_lines_push(none.push(l1).push(l2), l3);
    let head = e + l1 + nl + l2 + nl + l3 + nl;
    assert(lines_text(first) == head);
    let kind = if is_vod {
        first.push(l4)
    } else {
        first
    };
    lemma_lines_push(first, l4);
    let kind_text = if is_vod {
        l4 + nl
    } else {
        e
    };
    assert(lines_text(kind) =~= head + kind_text);
    lemma_lines_push(kind, l5);
    lemma_lines_push(kind.push(l5), l6);
    lemma_lines_push(kind.push(l5).push(l6), e);
    let whole = head + kind_text + l5 + nl + l6 + nl + e + nl;
    assert(lines_text(head_lines(segments, hls_version, is_vod)) == whole);
    let mh = (l1 + nl + "#EXT-X-VERSION:"@) + v + (nl + "#EXT-X-TARGETDURATION:"@) + t + nl
        + kind_text + "#EXT-X-MEDIA-SEQUENCE:"@ + m + (nl + l6 + nl + nl);
    assert(media_head(segments, hls_version, is_vod) == mh);
    assert(head =~= (l1 + nl + "#EXT-X-VERSION:"@) + v + (nl + "#EXT-X-TARGETDURATION:"@) + t + nl);
    assert(whole =~= mh);
}

proof fn lemma_segment_text(lines: Seq<Seq<char>>, s: Listing)
    ensures
        lines_text(with_segment(lines, s)) == lines_text(lines) + segment_text(s),
{
    let nl = seq!['\n'];
    let d = duration_text(s.duration_ticks);
    let info = "#EXTINF:"@ + d + ","@;
    assert("\n"@ =~= nl) by {
        reveal_strlit("\n");
    }
    assert(",\n"@ =~= ","@ + nl) by {
        reveal_strlit(",\n");
        reveal_strlit(",");
    }
    assert(""@ =~= Seq::<char>::empty()) by {
        reveal_strlit("");
    }
    let t = lines_text(lines);
    let dated = match s.program_date_time {
        Some(x) => lines.push("#EXT-X-PROGRAM-DATE-TIME:"@ + utc_text(x)),
        None => lines,
    };
    let date = match s.program_date_time {
        Some(x) => "#EXT-X-PROGRAM-DATE-TIME:"@ + utc_text(x) + nl,
        None => Seq::<char>::empty(),
    };
    if let Some(x) = s.program_date_time {
        lemma_lines_push(lines, "#EXT-X-PROGRAM-DATE-TIME:"@ + utc_text(x));
    }
    assert(lines_text(dated) =~= t + date);
    lemma_lines_push(dated, info);
    lemma_lines_push(dated.push(info), s.filename);
    assert(segment_text(s) == date + "#EXTINF:"@ + d + (","@ + nl) + s.filename + nl);
    assert(t + date + info + nl + s.filename + nl =~= t + (date + "#EXTINF:"@ + d + (","@ + nl)
        + s.filename + nl));
}

proof fn lemma_body_text(head: Seq<Seq<char>>, segments: Seq<Listing>)
    ensures
        lines_text(body_lines(head, segments)) == lines_text(head) + segments_text(segments),
    decreases segments.len(),
{
    if segments.len() == 0 {
        assert(lines_text(head) + segments_text(segments) =~= lines_text(head));
    } else {
        let rest = segments.drop_last();
        lemma_body_text(head, rest);
        lemma_segment_text(body_lines(head, rest), segments.last());
        assert(lines_text(head) + segments_text(rest) + segment_text(segments.last())
            =~= lines_text(head) + (segments_text(rest) + segment_text(segments.last())));
    }
}

/// Some segment has the path `k`.
spec fn names_one(dir: Seq<char>, segments: Seq<Listing>, k: Seq<char>) -> bool {
    exists|i: int|
        0 <= i < segments.len() && k == dir + "/"@ + (#[trigger] segments[i]).filename
}

proof fn lemma_body(head: Seq<Seq<char>>, segments: Seq<Listing>, dir: Seq<char>, k: Seq<char>)
    requires
        all_one_line(head),
        all_comments(head),
        dir.len() > 0,
        dates_on_one_line(segments),
        forall|i: int| 0 <= i < segments.len() ==> plain_name((#[trigger] segments[i]).filename),
    ensures
        all_one_line(body_lines(head, segments)),
        some_refers(dir, body_lines(head, segments), k) <==> names_one(dir, segments, k),
    decreases segments.len(),
{
    if segments.len() == 0 {
        assert forall|i: int| 0 <= i < head.len() implies line_reference(
            dir,
            #[trigger] head[i],
        ) is None by {
            lemma_comment(dir, head[i]);
        }
    } else {
        let rest = segments.drop_last();
        let s = segments.last();
        assert forall|i: int| 0 <= i < rest.len() implies plain_name(
            (#[trigger] rest[i]).filename,
        ) && date_on_one_line(rest[i]) by {
            assert(rest[i] == segments[i]);
        }
        lemma_body(head, rest, dir, k);
        let lines = body_lines(head, rest);
        let info = "#EXTINF:"@ + duration_text(s.duration_ticks) + ","@;
        reveal_strlit("#EXT-X-PROGRAM-DATE-TIME:");
        reveal_strlit("#EXTINF:");
        reveal_strlit(",");
        lemma_duration(s.duration_ticks);
        lemma_comment(dir, info);
        lemma_name(dir, s.filename);
        let dated = match s.program_date_time {
            Some(t) => lines.push("#EXT-X-PROGRAM-DATE-TIME:"@ + utc_text(t)),
            None => lines,
        };
        if let Some(t) = s.program_date_time {
            let date = "#EXT-X-PROGRAM-DATE-TIME:"@ + utc_text(t);
            lemma_comment(dir, date);
            lemma_refers_push(dir, lines, date, k);
        }
        lemma_refers_push(dir, dated, info, k);
        lemma_refers_push(dir, dated.push(info), s.filename, k);
        if names_one(dir, segments, k) {
            let i = choose|i: int|
                0 <= i < segments.len() && k == dir + "/"@ + (#[trigger] segments[i]).filename;
            if i < rest.len() {
                assert(rest[i] == segments[i]);
            }
        }
        if names_one(dir, rest, k) {
            let i = choose|i: int|
                0 <= i < rest.len() && k == dir + "/"@ + (#[trigger] rest[i]).filename;
            assert(segments[i] == rest[i]);
        }
        assert(segments[segments.len() - 1] == s);
    }
}

/// A media playlist refers to the segments that it lists, in its own directory, and to no other.
pub(crate) proof fn lemma_playlist_references(
    segments: Seq<Listing>,
    hls_version: u32,
    is_vod: bool,
    is_finished: bool,
    dir: Seq<char>,
    k: Seq<char>,
)
    requires
        dir.len() > 0,
        dates_on_one_line(segments),
        forall|i: int|
            0 <= i < segments.len() ==> (#[trigger] segments[i]).filename == segment_name(
                segments[i].sequence,
            ),
    ensures
        refers_to(
            dir + "/media.m3u8"@,
            media_text(segments, hls_version, is_vod, is_finished),
            k,
        ) <==> exists|i: int|
            0 <= i < segments.len() && k == dir + "/"@ + (#[trigger] segments[i]).filename,
{
    let content = media_text(segments, hls_version, is_vod, is_finished);
    let path = dir + "/media.m3u8"@;
    assert(parent_of(path) == dir) by {
        reveal_strlit("/media.m3u8");
        reveal_strlit("media.m3u8");
        assert("/media.m3u8"@ =~= seq!['/'] + "media.m3u8"@);
        assert(path =~= dir + seq!['/'] + "media.m3u8"@);
        lemma_parent(dir, "media.m3u8"@);
    }
    assert forall|i: int| 0 <= i < segments.len() implies plain_name(
        (#[trigger] segments[i]).filename,
    ) by {
        lemma_plain_name(segments[i].sequence);
    }
    let head = head_lines(segments, hls_version, is_vod);
    lemma_head(segments, hls_version, is_vod);
    lemma_head_text(segments, hls_version, is_vod);
    let body = body_lines(head, segments);
    lemma_body(head, segments, dir, k);
    lemma_body_text(head, segments);
    let end = "#EXT-X-ENDLIST"@;
    let all = if is_vod || is_finished {
        body.push(end)
    } else {
        body
    };
    reveal_strlit("#EXT-X-ENDLIST");
    lemma_comment(dir, end);
    lemma_refers_push(dir, body, end, k);
    assert("#EXT-X-ENDLIST\n"@ =~= end + seq!['\n']) by {
        reveal_strlit("#EXT-X-ENDLIST\n");
    }
    assert(""@ =~= Seq::<char>::empty()) by {
        reveal_strlit("");
    }
    lemma_lines_push(body, end);
    assert(lines_text(all) =~= content);
    assert(all_one_line(all));
    lemma_pieces_of_lines(all);
    lemma_comment(dir, Seq::empty());
    lemma_refers_push(dir, all, Seq::empty(), k);
    assert(refers_to(path, content, k) <==> some_refers(dir, all.push(Seq::empty()), k));
}

// ---------------------------------------------------------------------------
// Reading a playlist
// ---------------------------------------------------------------------------

/// A segment as a playlist lists it: what its date line says, if it has one, what its information
/// line says, and its name.
#[verifier::ext_equal]
pub struct Entry {
    pub date: Option<Seq<char>>,
    pub info: Seq<char>,
    pub name: Seq<char>,
}

/// The segments that lines list: behind each information line stands a name, and before it a date
/// may stand.
pub open spec fn entries_in(lines: Seq<Seq<char>>) -> Seq<Entry>
    decreases lines.len(),
{
    let n = lines.len() as int;
    if n < 2 {
        Seq::empty()
    } else {
        let before = entries_in(lines.drop_last());
        match stripped(lines[n - 2], "#EXTINF:"@) {
            None => before,
            Some(info) => before.push(
                Entry {
                    date: if n >= 3 {
                        stripped(lines[n - 3], "#EXT-X-PROGRAM-DATE-TIME:"@)
                    } else {
                        None
                    },
                    info,
                    name: lines[n - 1],
                },
            ),
        }
    }
}

/// A line is a label with a number behind it.
pub open spec fn numbered(line: Seq<char>, label: Seq<char>, n: nat) -> bool {
    stripped(line, label) matches Some(d) && d.len() > 0 && all_digits(d) && digits_value(d) == n
}

/// An entry lists a segment: its duration, its name, and its date where it has one.
pub open spec fn lists(e: Entry, s: Listing) -> bool {
    &&& e.info == duration_text(s.duration_ticks) + seq![',']
    &&& e.name == s.filename
    &&& e.date == match s.program_date_time {
        Some(t) => Some(utc_text(t)),
        None => None,
    }
}

/// A line that is neither an information line nor a date.
spec fn neutral(line: Seq<char>) -> bool {
    stripped(line, "#EXTINF:"@) is None && stripped(line, "#EXT-X-PROGRAM-DATE-TIME:"@) is None
}

proof fn lemma_neutral(line: Seq<char>)
    requires
        line.len() == 0 || is_digit(line[0]) || (line.len() > 4 && line[4] != 'I' && line[4] != '-')
            || (line.len() > 7 && line[4] == '-' && line[7] != 'P') || (line.len() > 8 && line[4]
            == '-' && line[8] != 'R'),
    ensures
        neutral(line),
{
    reveal_strlit("#EXTINF:");
    reveal_strlit("#EXT-X-PROGRAM-DATE-TIME:");
    let a = "#EXTINF:"@;
    let b = "#EXT-X-PROGRAM-DATE-TIME:"@;
    if begins_with(line, a) {
        assert(line.subrange(0, a.len() as int)[0] == line[0]);
        assert(line.subrange(0, a.len() as int)[4] == line[4]);
    }
    if begins_with(line, b) {
        assert(line.subrange(0, b.len() as int)[0] == line[0]);
        assert(line.subrange(0, b.len() as int)[4] == line[4]);
        assert(line.subrange(0, b.len() as int)[7] == line[7]);
        assert(line.subrange(0, b.len() as int)[8] == line[8]);
    }
}

proof fn lemma_stripped(label: Seq<char>, rest: Seq<char>)
    ensures
        stripped(label + rest, label) == Some(rest),
{
    let s = label + rest;
    assert(s.subrange(0, label.len() as int) =~= label);
    assert(s.subrange(label.len() as int, s.len() as int) =~= rest);
}

proof fn lemma_entries_push(lines: Seq<Seq<char>>, x: Seq<char>)
    requires
        lines.len() > 0,
    ensures
        entries_in(lines.push(x)) == match stripped(lines.last(), "#EXTINF:"@) {
            None => entries_in(lines),
            Some(info) => entries_in(lines).push(
                Entry {
                    date: if lines.len() >= 2 {
                        stripped(lines[lines.len() - 2], "#EXT-X-PROGRAM-DATE-TIME:"@)
                    } else {
                        None
                    },
                    info,
                    name: x,
                },
            ),
        },
{
    assert(lines.push(x).drop_last() =~= lines);
}

proof fn lemma_entries_head(segments: Seq<Listing>, hls_version: u32, is_vod: bool)
    ensures
        entries_in(head_lines(segments, hls_version, is_vod)).len() == 0,
        neutral(head_lines(segments, hls_version, is_vod).last()),
{
    let head = head_lines(segments, hls_version, is_vod);
    reveal_strlit("#EXTM3U");
    reveal_strlit("#EXT-X-VERSION:");
    reveal_strlit("#EXT-X-TARGETDURATION:");
    reveal_strlit("#EXT-X-PLAYLIST-TYPE:VOD");
    reveal_strlit("#EXT-X-MEDIA-SEQUENCE:");
    reveal_strlit("#EXT-X-MAP:URI=\"init.mp4\"");
    assert forall|i: int| 0 <= i < head.len() implies neutral(#[trigger] head[i]) by {
        lemma_neutral(head[i]);
    }
    lemma_no_entries(head);
}

proof fn lemma_no_entries(lines: Seq<Seq<char>>)
    requires
        forall|i: int| 0 <= i < lines.len() ==> neutral(#[trigger] lines[i]),
    ensures
        entries_in(lines).len() == 0,
    decreases lines.len(),
{
    if lines.len() >= 2 {
        let before = lines.drop_last();
        assert forall|i: int| 0 <= i < before.len() implies neutral(#[trigger] before[i]) by {
            assert(before[i] == lines[i]);
        }
        lemma_no_entries(before);
        assert(neutral(lines[lines.len() - 2]));
    }
}

#[verifier::spinoff_prover]
#[verifier::rlimit(40)]
proof fn lemma_entries_segment(lines: Seq<Seq<char>>, s: Listing)
    requires
        lines.len() > 0,
        neutral(lines.last()),
        plain_name(s.filename),
    ensures
        neutral(with_segment(lines, s).last()),
        entries_in(with_segment(lines, s)).len() == entries_in(lines).len() + 1,
        entries_in(with_segment(lines, s)).drop_last() == entries_in(lines),
        lists(entries_in(with_segment(lines, s)).last(), s),
{
    let info = "#EXTINF:"@ + duration_text(s.duration_ticks) + ","@;
    let text = duration_text(s.duration_ticks) + seq![','];
    reveal_strlit(",");
    assert(","@ =~= seq![',']);
    assert(info =~= "#EXTINF:"@ + text);
    lemma_stripped("#EXTINF:"@, text);
    lemma_neutral(s.filename);
    match s.program_date_time {
        Some(t) => {
            let date = "#EXT-X-PROGRAM-DATE-TIME:"@ + utc_text(t);
            lemma_stripped("#EXT-X-PROGRAM-DATE-TIME:"@, utc_text(t));
            let dated = lines.push(date);
            lemma_entries_push(lines, date);
            assert(stripped(date, "#EXTINF:"@) is None) by {
                reveal_strlit("#EXTINF:");
                reveal_strlit("#EXT-X-PROGRAM-DATE-TIME:");
                if begins_with(date, "#EXTINF:"@) {
                    assert(date.subrange(0, 8)[4] == date[4]);
                }
            }
            lemma_entries_push(dated, info);
            lemma_entries_push(dated.push(info), s.filename);
            assert(entries_in(with_segment(lines, s)).drop_last() =~= entries_in(lines));
        },
        None => {
            lemma_entries_push(lines, info);
            lemma_entries_push(lines.push(info), s.filename);
            assert(entries_in(with_segment(lines, s)).drop_last() =~= entries_in(lines));
        },
    }
}

proof fn lemma_entries_body(head: Seq<Seq<char>>, segments: Seq<Listing>)
    requires
        head.len() > 0,
        neutral(head.last()),
        entries_in(head).len() == 0,
        forall|i: int| 0 <= i < segments.len() ==> plain_name((#[trigger] segments[i]).filename),
    ensures
        body_lines(head, segments).len() >= head.len(),
        body_lines(head, segments).subrange(0, head.len() as int) == head,
        neutral(body_lines(head, segments).last()),
        entries_in(body_lines(head, segments)).len() == segments.len(),
        forall|i: int|
            0 <= i < segments.len() ==> lists(
                #[trigger] entries_in(body_lines(head, segments))[i],
                segments[i],
            ),
        segments.len() > 0 ==> body_lines(head, segments).last() == segments.last().filename,
    decreases segments.len(),
{
    let body = body_lines(head, segments);
    if segments.len() == 0 {
        assert(body.subrange(0, head.len() as int) =~= head);
    } else {
        let rest = segments.drop_last();
        assert forall|i: int| 0 <= i < rest.len() implies plain_name(
            (#[trigger] rest[i]).filename,
        ) by {
            assert(rest[i] == segments[i]);
        }
        lemma_entries_body(head, rest);
        let before = body_lines(head, rest);
        lemma_entries_segment(before, segments.last());
        let all = entries_in(body);
        assert forall|i: int| 0 <= i < segments.len() implies lists(
            #[trigger] all[i],
            segments[i],
        ) by {
            if i < rest.len() {
                assert(all[i] == all.drop_last()[i]);
                assert(rest[i] == segments[i]);
            }
        }
        assert(body.subrange(0, head.len() as int) =~= before.subrange(0, head.len() as int));
    }
}

/// A media playlist says its version, the target duration, whether it is on demand, the number of
/// its first segment and where its initialization segment stands. It lists every segment, in
/// order, with its duration, name and date, and nothing else. It ends with the end mark exactly
/// where nothing more will come.
#[verifier::spinoff_prover]
#[verifier::rlimit(40)]
pub proof fn media_playlists_read_back(
    segments: Seq<Listing>,
    hls_version: u32,
    is_vod: bool,
    is_finished: bool,
)
    requires
        dates_on_one_line(segments),
        forall|i: int|
            0 <= i < segments.len() ==> (#[trigger] segments[i]).filename == segment_name(
                segments[i].sequence,
            ),
    ensures
        ({
            let lines = pieces(media_text(segments, hls_version, is_vod, is_finished), '\n');
            let k: int = if is_vod {
                4
            } else {
                3
            };
            &&& lines.len() >= k + 4
            &&& lines[0] == "#EXTM3U"@
            &&& numbered(lines[1], "#EXT-X-VERSION:"@, hls_version as nat)
            &&& numbered(lines[2], "#EXT-X-TARGETDURATION:"@, target_duration(segments) as nat)
            &&& is_vod ==> lines[3] == "#EXT-X-PLAYLIST-TYPE:VOD"@
            &&& numbered(
                lines[k],
                "#EXT-X-MEDIA-SEQUENCE:"@,
                if is_vod || segments.len() == 0 {
                    0
                } else {
                    segments[0].sequence as nat
                },
            )
            &&& lines[k + 1] == "#EXT-X-MAP:URI=\"init.mp4\""@
            &&& lines[k + 2].len() == 0
            &&& entries_in(lines).len() == segments.len()
            &&& forall|i: int|
                0 <= i < segments.len() ==> lists(#[trigger] entries_in(lines)[i], segments[i])
            &&& lines.last().len() == 0
            &&& lines[lines.len() - 2] == "#EXT-X-ENDLIST"@ <==> is_vod || is_finished
        }),
{
    let content = media_text(segments, hls_version, is_vod, is_finished);
    assert forall|i: int| 0 <= i < segments.len() implies plain_name(
        (#[trigger] segments[i]).filename,
    ) by {
        lemma_plain_name(segments[i].sequence);
    }
    let head = head_lines(segments, hls_version, is_vod);
    lemma_head(segments, hls_version, is_vod);
    lemma_head_text(segments, hls_version, is_vod);
    lemma_entries_head(segments, hls_version, is_vod);
    let body = body_lines(head, segments);
    lemma_entries_body(head, segments);
    lemma_body(head, segments, seq!['d'], Seq::empty());
    lemma_body_text(head, segments);
    let end = "#EXT-X-ENDLIST"@;
    let all = if is_vod || is_finished {
        body.push(end)
    } else {
        body
    };
    reveal_strlit("#EXT-X-ENDLIST");
    assert("#EXT-X-ENDLIST\n"@ =~= end + seq!['\n']) by {
        reveal_strlit("#EXT-X-ENDLIST\n");
    }
    assert(""@ =~= Seq::<char>::empty()) by {
        reveal_strlit("");
    }
    lemma_lines_push(body, end);
    assert(lines_text(all) =~= content);
    assert(all_one_line(all));
    lemma_pieces_of_lines(all);
    let lines = all.push(Seq::empty());
    lemma_entries_push(body, end);
    lemma_neutral(end);
    lemma_entries_push(all, Seq::empty());
    assert forall|i: int| 0 <= i < head.len() implies lines[i] == head[i] by {
        assert(body.subrange(0, head.len() as int)[i] == head[i]);
    }
    lemma_head_numbers(segments, hls_version, is_vod);
    assert(end.len() > 0 && end[0] == '#');
    if segments.len() > 0 {
        assert(plain_name(segments[segments.len() - 1].filename));
    }
}

proof fn lemma_head_numbers(segments: Seq<Listing>, hls_version: u32, is_vod: bool)
    ensures
        ({
            let head = head_lines(segments, hls_version, is_vod);
            let k: int = if is_vod {
                4
            } else {
                3
            };
            &&& head.len() == k + 3
            &&& numbered(head[1], "#EXT-X-VERSION:"@, hls_version as nat)
            &&& numbered(head[2], "#EXT-X-TARGETDURATION:"@, target_duration(segments) as nat)
            &&& numbered(
                head[k],
                "#EXT-X-MEDIA-SEQUENCE:"@,
                media_sequence(segments, is_vod) as nat,
            )
        }),
{
    let t = target_duration(segments) as nat;
    let m = media_sequence(segments, is_vod) as nat;
    lemma_stripped("#EXT-X-VERSION:"@, decimal(hls_version as nat));
    lemma_stripped("#EXT-X-TARGETDURATION:"@, decimal(t));
    lemma_stripped("#EXT-X-MEDIA-SEQUENCE:"@, decimal(m));
    decimals_read_back(hls_version as nat);
    decimals_read_back(t);
    decimals_read_back(m);
}

// ---------------------------------------------------------------------------
// Reading a multivariant playlist
// ---------------------------------------------------------------------------

/// A text writes a number in decimal.
pub open spec fn writes(s: Seq<char>, n: nat) -> bool {
    s.len() > 0 && all_digits(s) && digits_value(s) == n
}

/// A line announces a rendition: its bandwidth, its dimensions, its codecs and its frame rate.
pub open spec fn announces(line: Seq<char>, v: Variant) -> bool {
    exists|b: Seq<char>, w: Seq<char>, h: Seq<char>| #[trigger]
        announced_as(line, v, b, w, h) && writes(
            b,
            announced_bandwidth(v.video_bitrate_kbps, v.audio_bitrate_kbps) as nat,
        ) && writes(w, v.width as nat) && writes(h, v.height as nat)
}

/// The line holds these numbers behind their labels.
pub open spec fn announced_as(
    line: Seq<char>,
    v: Variant,
    b: Seq<char>,
    w: Seq<char>,
    h: Seq<char>,
) -> bool {
    line == "#EXT-X-STREAM-INF:BANDWIDTH="@ + b + ",RESOLUTION="@ + w + "x"@ + h + ",CODECS=\""@
        + codecs_text(v.profile, v.level, v.has_audio) + "\",FRAME-RATE="@ + rate_text(v.frame_rate)
}

/// The line that announces a rendition.
spec fn variant_line(v: Variant) -> Seq<char> {
    "#EXT-X-STREAM-INF:BANDWIDTH="@ + decimal(
        announced_bandwidth(v.video_bitrate_kbps, v.audio_bitrate_kbps) as nat,
    ) + ",RESOLUTION="@ + decimal(v.width as nat) + "x"@ + decimal(v.height as nat) + ",CODECS=\""@
        + codecs_text(v.profile, v.level, v.has_audio) + "\",FRAME-RATE="@ + rate_text(v.frame_rate)
}

proof fn lemma_one_line_sum(a: Seq<char>, b: Seq<char>)
    requires
        one_line(a),
        one_line(b),
    ensures
        one_line(a + b),
{
}

proof fn lemma_one_line_decimal(n: nat)
    ensures
        one_line(decimal(n)),
{
    lemma_decimal(n);
    assert forall|i: int| 0 <= i < decimal(n).len() implies decimal(n)[i] != '\n' by {
        assert(is_digit(decimal(n)[i]));
    }
}

proof fn lemma_one_line_rate(rate: FrameRate)
    ensures
        one_line(rate_text(rate)),
{
    reveal_strlit(".");
    reveal_strlit("-");
    let n = thousandths(rate.size());
    lemma_one_line_decimal(n / 1000);
    lemma_padded(n % 1000, 3);
    let p = zero_padded(n % 1000, 3);
    assert forall|i: int| 0 <= i < p.len() implies p[i] != '\n' by {
        assert(is_digit(p[i]));
    }
    lemma_one_line_sum(decimal(n / 1000), "."@);
    lemma_one_line_sum(decimal(n / 1000) + "."@, p);
    lemma_one_line_sum("-"@, thousandths_text(n));
}

proof fn lemma_one_line_codecs(v: Variant)
    ensures
        one_line(codecs_text(v.profile, v.level, v.has_audio)),
{
    reveal_strlit("avc1.");
    reveal_strlit("00");
    reveal_strlit(",mp4a.40.2");
}

#[verifier::spinoff_prover]
#[verifier::rlimit(40)]
proof fn lemma_variant_line(v: Variant)
    ensures
        one_line(variant_line(v)),
        announces(variant_line(v), v),
{
    let b = announced_bandwidth(v.video_bitrate_kbps, v.audio_bitrate_kbps) as nat;
    let w = v.width as nat;
    let h = v.height as nat;
    let c = codecs_text(v.profile, v.level, v.has_audio);
    let f = rate_text(v.frame_rate);
    decimals_read_back(b);
    decimals_read_back(w);
    decimals_read_back(h);
    assert(announced_as(variant_line(v), v, decimal(b), decimal(w), decimal(h)));
    lemma_one_line_decimal(b);
    lemma_one_line_decimal(w);
    lemma_one_line_decimal(h);
    lemma_one_line_codecs(v);
    lemma_one_line_rate(v.frame_rate);
    let l1 = "#EXT-X-STREAM-INF:BANDWIDTH="@;
    let l2 = ",RESOLUTION="@;
    let l3 = "x"@;
    let l4 = ",CODECS=\""@;
    let l5 = "\",FRAME-RATE="@;
    assert(one_line(l1) && one_line(l2) && one_line(l3) && one_line(l4) && one_line(l5)) by {
        reveal_strlit("#EXT-X-STREAM-INF:BANDWIDTH=");
        reveal_strlit(",RESOLUTION=");
        reveal_strlit("x");
        reveal_strlit(",CODECS=\"");
        reveal_strlit("\",FRAME-RATE=");
    }
    lemma_one_line_sum(l1, decimal(b));
    lemma_one_line_sum(l1 + decimal(b), l2);
    lemma_one_line_sum(l1 + decimal(b) + l2, decimal(w));
    lemma_one_line_sum(l1 + decimal(b) + l2 + decimal(w), l3);
    lemma_one_line_sum(l1 + decimal(b) + l2 + decimal(w) + l3, decimal(h));
    lemma_one_line_sum(l1 + decimal(b) + l2 + decimal(w) + l3 + decimal(h), l4);
    lemma_one_line_sum(l1 + decimal(b) + l2 + decimal(w) + l3 + decimal(h) + l4, c);
    lemma_one_line_sum(l1 + decimal(b) + l2 + decimal(w) + l3 + decimal(h) + l4 + c, l5);
    lemma_one_line_sum(l1 + decimal(b) + l2 + decimal(w) + l3 + decimal(h) + l4 + c + l5, f);
}

/// The lines of a multivariant playlist.
spec fn variant_lines(head: Seq<Seq<char>>, v: Seq<Variant>) -> Seq<Seq<char>>
    decreases v.len(),
{
    if v.len() == 0 {
        head
    } else {
        with_variant(variant_lines(head, v.drop_last()), v.last())
    }
}

proof fn lemma_variant_text(v: Variant)
    ensures
        variant_text(v) == variant_line(v) + seq!['\n'] + (v.id.name() + "/media.m3u8"@) + seq!['\n']
            + Seq::<char>::empty() + seq!['\n'],
        one_line(v.id.name() + "/media.m3u8"@),
{
    let nl = seq!['\n'];
    let x = variant_line(v);
    let n = v.id.name();
    assert("/media.m3u8\n\n"@ =~= "/media.m3u8"@ + nl + nl) by {
        reveal_strlit("/media.m3u8");
        reveal_strlit("/media.m3u8\n\n");
    }
    assert("\n"@ =~= nl) by {
        reveal_strlit("\n");
    }
    assert(variant_text(v) == x + nl + n + ("/media.m3u8"@ + nl + nl));
    assert(x + nl + n + ("/media.m3u8"@ + nl + nl) =~= x + nl + (n + "/media.m3u8"@) + nl + Seq::<
        char,
    >::empty() + nl);
    assert(one_line("/media.m3u8"@)) by {
        reveal_strlit("/media.m3u8");
    }
    assert(one_line(n)) by {
        reveal_strlit("high");
        reveal_strlit("medium");
        reveal_strlit("low");
        reveal_strlit("source");
    }
    lemma_one_line_sum(n, "/media.m3u8"@);
}

/// The lines of one more rendition.
spec fn with_variant(lines: Seq<Seq<char>>, v: Variant) -> Seq<Seq<char>> {
    lines.push(variant_line(v)).push(v.id.name() + "/media.m3u8"@).push(Seq::empty())
}

proof fn lemma_with_variant(lines: Seq<Seq<char>>, v: Variant)
    requires
        all_one_line(lines),
    ensures
        all_one_line(with_variant(lines, v)),
        lines_text(with_variant(lines, v)) == lines_text(lines) + variant_text(v),
        announces(with_variant(lines, v)[lines.len() as int], v),
{
    let a = variant_line(v);
    let b = v.id.name() + "/media.m3u8"@;
    let none = Seq::<char>::empty();
    let nl = seq!['\n'];
    lemma_variant_line(v);
    lemma_variant_text(v);
    lemma_lines_push(lines, a);
    lemma_lines_push(lines.push(a), b);
    lemma_lines_push(lines.push(a).push(b), none);
    let t = lines_text(lines);
    assert(t + a + nl + b + nl + none + nl =~= t + (a + nl + b + nl + none + nl));
}

#[verifier::spinoff_prover]
#[verifier::rlimit(40)]
proof fn lemma_variant_lines(head: Seq<Seq<char>>, v: Seq<Variant>)
    requires
        all_one_line(head),
        head.len() == 4,
    ensures
        ({
            let lines = variant_lines(head, v);
            &&& all_one_line(lines)
            &&& lines.len() == 4 + 3 * v.len()
            &&& lines.subrange(0, 4) == head
            &&& lines_text(lines) == lines_text(head) + variants_text(v)
            &&& forall|i: int|
                0 <= i < v.len() ==> {
                    &&& announces(lines[4 + 3 * i], #[trigger] v[i])
                    &&& lines[5 + 3 * i] == v[i].id.name() + "/media.m3u8"@
                    &&& lines[6 + 3 * i].len() == 0
                }
        }),
    decreases v.len(),
{
    let lines = variant_lines(head, v);
    if v.len() == 0 {
        assert(lines.subrange(0, 4) =~= head);
        assert(lines_text(head) + variants_text(v) =~= lines_text(head));
    } else {
        let rest = v.drop_last();
        let last = v.last();
        lemma_variant_lines(head, rest);
        let before = variant_lines(head, rest);
        lemma_with_variant(before, last);
        assert(lines_text(head) + variants_text(rest) + variant_text(last) =~= lines_text(head) + (
        variants_text(rest) + variant_text(last)));
        assert(lines.subrange(0, 4) =~= before.subrange(0, 4));
        assert forall|i: int| 0 <= i < v.len() implies {
            &&& announces(lines[4 + 3 * i], #[trigger] v[i])
            &&& lines[5 + 3 * i] == v[i].id.name() + "/media.m3u8"@
            &&& lines[6 + 3 * i].len() == 0
        } by {
            if i < rest.len() {
                assert(rest[i] == v[i]);
                assert(lines[4 + 3 * i] == before[4 + 3 * i]);
                assert(lines[5 + 3 * i] == before[5 + 3 * i]);
                assert(lines[6 + 3 * i] == before[6 + 3 * i]);
            }
        }
    }
}

/// A multivariant playlist says its version and that segments stand alone, and announces every
/// rendition, in order, each with the place of its media playlist, and nothing else.
#[verifier::spinoff_prover]
#[verifier::rlimit(40)]
pub proof fn multivariant_playlists_read_back(v: Seq<Variant>, hls_version: u32)
    ensures
        ({
            let lines = pieces(multivariant_text(v, hls_version), '\n');
            &&& lines.len() == 5 + 3 * v.len()
            &&& lines[0] == "#EXTM3U"@
            &&& numbered(lines[1], "#EXT-X-VERSION:"@, hls_version as nat)
            &&& lines[2] == "#EXT-X-INDEPENDENT-SEGMENTS"@
            &&& lines[3].len() == 0
            &&& forall|i: int|
                0 <= i < v.len() ==> {
                    &&& announces(lines[4 + 3 * i], #[trigger] v[i])
                    &&& lines[5 + 3 * i] == v[i].id.name() + "/media.m3u8"@
                    &&& lines[6 + 3 * i].len() == 0
                }
            &&& lines.last().len() == 0
        }),
{
    let nl = seq!['\n'];
    let e = Seq::<char>::empty();
    let d = decimal(hls_version as nat);
    let l1 = "#EXTM3U"@;
    let l2 = "#EXT-X-VERSION:"@ + d;
    let l3 = "#EXT-X-INDEPENDENT-SEGMENTS"@;
    assert("#EXTM3U\n#EXT-X-VERSION:"@ =~= l1 + nl + "#EXT-X-VERSION:"@) by {
        reveal_strlit("#EXTM3U\n#EXT-X-VERSION:");
        reveal_strlit("#EXTM3U");
        reveal_strlit("#EXT-X-VERSION:");
    }
    assert("\n#EXT-X-INDEPENDENT-SEGMENTS\n\n"@ =~= nl + l3 + nl + nl) by {
        reveal_strlit("\n#EXT-X-INDEPENDENT-SEGMENTS\n\n");
        reveal_strlit("#EXT-X-INDEPENDENT-SEGMENTS");
    }
    let none = Seq::<Seq<char>>::empty();
    let head = none.push(l1).push(l2).push(l3).push(e);
    lemma_lines_push(none, l1);
    lemma_lines_push(none.push(l1), l2);
    lemma_lines_push(none.push(l1).push(l2), l3);
    lemma_lines_push(none.push(l1).push(l2).push(l3), e);
    assert(all_one_line(head)) by {
        reveal_strlit("#EXTM3U");
        reveal_strlit("#EXT-X-VERSION:");
        reveal_strlit("#EXT-X-INDEPENDENT-SEGMENTS");
        lemma_labelled_number("#EXT-X-VERSION:"@, hls_version as nat);
    }
    lemma_variant_lines(head, v);
    let lines = variant_lines(head, v);
    assert(lines_text(head) =~= (l1 + nl + "#EXT-X-VERSION:"@) + d + (nl + l3 + nl + nl));
    assert(lines_text(lines) == multivariant_text(v, hls_version));
    lemma_pieces_of_lines(lines);
    lemma_stripped("#EXT-X-VERSION:"@, d);
    decimals_read_back(hls_version as nat);
    assert forall|i: int| 0 <= i < 4 implies lines[i] == head[i] by {
        assert(lines.subrange(0, 4)[i] == head[i]);
    }
}

/// A media playlist refers to the segments that it lists, in its own directory, and to no other.
pub proof fn playlists_refer_to_what_they_list(
    segments: Seq<Listing>,
    hls_version: u32,
    is_vod: bool,
    is_finished: bool,
    dir: Seq<char>,
    k: Seq<char>,
)
    requires
        dir.len() > 0,
        dates_on_one_line(segments),
        forall|i: int|
            0 <= i < segments.len() ==> (#[trigger] segments[i]).filename == segment_name(
                segments[i].sequence,
            ),
    ensures
        refers_to(
            dir + "/media.m3u8"@,
            media_text(segments, hls_version, is_vod, is_finished),
            k,
        ) <==> exists|i: int|
            0 <= i < segments.len() && k == dir + "/"@ + (#[trigger] segments[i]).filename,
{
    lemma_playlist_references(segments, hls_version, is_vod, is_finished, dir, k);
}

} // verus!
