//! Deleting what is no longer needed: old segments of live streams, the objects of failed
//! streams, and the records of deleted ones.

use vstd::prelude::*;
use vstd::string::*;

use crate::buffer::bytes_slice;
use crate::clock;
use crate::clock::in_calendar;
use crate::common::config::PackagingConfig;
use crate::common::types::StreamId;
use crate::control::state::{
    counters_agree_after_change, counters_agree_after_removal, counts_agree, lists_matching,
    matches_filter, models, EntryModel, StreamEntry, StreamState, StreamStateManager,
};
use crate::storage::memory::{lists_object, lists_prefix, InMemoryMediaStore, Objects};
use crate::storage::ObjectInfo;
use crate::text;
use crate::text::{begins_with, finishes_with, has_part, lossy_text, pieces, trimmed, views};
use crate::uuids::{hyphenated, texts_tell_uuids_apart};

verus! {

/// Seconds between two cleanups.
pub const CLEANUP_INTERVAL_SECS: u64 = 300;

/// Hours after which a failed stream is deleted.
pub const ERROR_STATE_MAX_AGE_HOURS: i64 = 24;

/// Hours for which the record of a deleted stream is kept.
pub const DELETED_STATE_RETENTION_HOURS: i64 = 24;

/// The longest retention of segments, in minutes, that can be counted in milliseconds.
pub const MAX_RETENTION_MINUTES: u64 = 153_722_867_280_912;

// ---------------------------------------------------------------------------
// What playlists refer to
// ---------------------------------------------------------------------------

/// What stands before the last `/` of a path; nothing where it has none.
pub open spec fn parent_of(path: Seq<char>) -> Seq<char>
    decreases path.len(),
{
    if path.len() == 0 {
        path
    } else if path.last() == '/' {
        path.drop_last()
    } else {
        parent_of(path.drop_last())
    }
}

/// The path of the segment that a line of a playlist refers to, if it refers to one. A line
/// without `/` is relative to the playlist's own directory.
pub open spec fn line_reference(parent: Seq<char>, line: Seq<char>) -> Option<Seq<char>> {
    let t = trimmed(line);
    if t.len() == 0 || t[0] == '#' || !finishes_with(t, ".m4s"@) {
        None
    } else if t.contains('/') || parent.len() == 0 {
        Some(t)
    } else {
        Some(parent + "/"@ + t)
    }
}

/// The playlist with the given path and text refers to the segment `k`.
pub open spec fn refers_to(path: Seq<char>, content: Seq<char>, k: Seq<char>) -> bool {
    exists|i: int|
        0 <= i < pieces(content, '\n').len() && line_reference(
            parent_of(path),
            #[trigger] pieces(content, '\n')[i],
        ) == Some(k)
}

fn parent(path: &str) -> (r: String)
    ensures
        r@ == parent_of(path@),
{
    let v = text::to_chars(path);
    let mut n: usize = v.len();
    assert(v@.subrange(0, v@.len() as int) =~= v@);
    while n > 0 && v[n - 1] != '/'
        invariant
            n <= v@.len(),
            parent_of(path@) == parent_of(v@.subrange(0, n as int)),
        decreases n,
    {
        assert(v@.subrange(0, n as int).drop_last() =~= v@.subrange(0, n - 1));
        n = n - 1;
    }
    if n == 0 {
        assert(v@.subrange(0, 0) =~= Seq::empty());
        String::new()
    } else {
        assert(v@.subrange(0, n as int).drop_last() =~= v@.subrange(0, n - 1));
        text::from_chars(&v, 0, n - 1)
    }
}

fn has_slash(v: &Vec<char>) -> (r: bool)
    ensures
        r == v@.contains('/'),
{
    let mut i: usize = 0;
    while i < v.len()
        invariant
            i <= v@.len(),
            forall|j: int| 0 <= j < i ==> v@[j] != '/',
        decreases v@.len() - i,
    {
        if v[i] == '/' {
            return true;
        }
        i = i + 1;
    }
    false
}

fn read_line(parent: &str, line: &str) -> (r: Option<String>)
    ensures
        match line_reference(parent@, line@) {
            Some(k) => r matches Some(s) && s@ == k,
            None => r is None,
        },
{
    let t = text::trim(line);
    let v = text::to_chars(&t);
    if v.len() == 0 || v[0] == '#' || !text::ends_with(&t, ".m4s") {
        return None;
    }
    if has_slash(&v) || text::to_chars(parent).len() == 0 {
        Some(t)
    } else {
        let mut s = text::owned(parent);
        s.append("/");
        s.append(&t);
        Some(s)
    }
}

/// The segments that a playlist refers to, in the order of its lines.
pub fn playlist_references(path: &str, body: &[u8]) -> (r: Vec<String>)
    ensures
        forall|k: Seq<char>| #[trigger]
            views(r@).contains(k) <==> refers_to(path@, lossy_text(body@), k),
{
    let content = text::lossy(body);
    let lines = text::split(&content, '\n');
    let dir = parent(path);
    let mut out: Vec<String> = Vec::new();
    let mut i: usize = 0;
    let ghost all = pieces(content@, '\n');
    proof {
        assert(views(lines@).len() == lines@.len());
    }
    while i < lines.len()
        invariant
            i <= lines@.len() == all.len(),
            views(lines@) == all,
            dir@ == parent_of(path@),
            forall|k: Seq<char>| #[trigger]
                views(out@).contains(k) <==> exists|j: int|
                    0 <= j < i && line_reference(dir@, #[trigger] all[j]) == Some(k),
        decreases lines@.len() - i,
    {
        assert(all[i as int] == lines@[i as int]@);
        let ghost before = views(out@);
        match read_line(&dir, &lines[i]) {
            Some(k) => {
                out.push(k);
                assert(views(out@) =~= before.push(k@));
                assert(views(out@)[views(out@).len() - 1] == k@);
            },
            None => {},
        }
        proof {
            assert forall|k: Seq<char>| #[trigger] views(out@).contains(k) <==> exists|j: int|
                0 <= j < i + 1 && line_reference(dir@, #[trigger] all[j]) == Some(k) by {
                if views(out@).contains(k) {
                    if before.contains(k) {
                        let j = choose|j: int|
                            0 <= j < i && line_reference(dir@, #[trigger] all[j]) == Some(k);
                        assert(line_reference(dir@, all[j]) == Some(k));
                    } else {
                        assert(line_reference(dir@, all[i as int]) == Some(k));
                    }
                }
                if exists|j: int|
                    0 <= j < i + 1 && line_reference(dir@, #[trigger] all[j]) == Some(k) {
                    let j = choose|j: int|
                        0 <= j < i + 1 && line_reference(dir@, #[trigger] all[j]) == Some(k);
                    if j < i {
                        assert(before.contains(k));
                        let m = choose|m: int| 0 <= m < before.len() && before[m] == k;
                        assert(views(out@)[m] == k);
                    }
                }
            }
        }
        i = i + 1;
    }
    out
}

// ---------------------------------------------------------------------------
// Which segments have expired
// ---------------------------------------------------------------------------

/// The path is that of a media segment.
pub open spec fn is_segment(path: Seq<char>) -> bool {
    finishes_with(path, ".m4s"@) && !has_part(path, "init.mp4"@)
}

/// Older than the retention at `now`.
pub open spec fn is_old(last_modified: i128, retention_minutes: u64, now: i128) -> bool {
    now - last_modified > retention_minutes * 60_000_000_000
}

/// The segment is old and nothing refers to it.
pub open spec fn is_expired(
    o: ObjectInfo,
    referenced: Seq<Seq<char>>,
    retention_minutes: u64,
    now: i128,
) -> bool {
    is_segment(o.key@) && is_old(o.last_modified, retention_minutes, now) && !referenced.contains(
        o.key@,
    )
}

/// The paths of the expired segments, in order.
pub open spec fn expired_keys(
    objects: Seq<ObjectInfo>,
    referenced: Seq<Seq<char>>,
    retention_minutes: u64,
    now: i128,
) -> Seq<Seq<char>>
    decreases objects.len(),
{
    if objects.len() == 0 {
        Seq::empty()
    } else {
        let before = expired_keys(objects.drop_last(), referenced, retention_minutes, now);
        if is_expired(objects.last(), referenced, retention_minutes, now) {
            before.push(objects.last().key@)
        } else {
            before
        }
    }
}

/// The listed segments to delete: those that are old and that no playlist refers to.
pub fn expired_segments(
    objects: &Vec<ObjectInfo>,
    referenced: &Vec<String>,
    retention_minutes: u64,
    now: i128,
) -> (r: Vec<String>)
    requires
        retention_minutes <= MAX_RETENTION_MINUTES,
    ensures
        views(r@) == expired_keys(objects@, views(referenced@), retention_minutes, now),
{
    let mut out: Vec<String> = Vec::new();
    let mut i: usize = 0;
    let ghost refs = views(referenced@);
    assert(objects@.subrange(0, 0) =~= Seq::empty());
    assert(views(out@) =~= expired_keys(objects@.subrange(0, 0), refs, retention_minutes, now));
    while i < objects.len()
        invariant
            i <= objects@.len(),
            refs == views(referenced@),
            retention_minutes <= MAX_RETENTION_MINUTES,
            views(out@) == expired_keys(
                objects@.subrange(0, i as int),
                refs,
                retention_minutes,
                now,
            ),
        decreases objects@.len() - i,
    {
        let o = &objects[i];
        let ghost before = views(out@);
        assert(objects@.subrange(0, i + 1).drop_last() =~= objects@.subrange(0, i as int));
        let old = clock::is_longer_ago(
            o.last_modified,
            now,
            retention_minutes as i128 * 60_000_000_000,
        );
        if text::ends_with(&o.key, ".m4s") && !text::contains(&o.key, "init.mp4") && old
            && !crate::ingest::validator::listed(referenced, &o.key) {
            out.push(o.key.clone());
            assert(views(out@) =~= before.push(o.key@));
        }
        i = i + 1;
    }
    assert(objects@.subrange(0, i as int) =~= objects@);
    out
}

proof fn lemma_expired_member(
    objects: Seq<ObjectInfo>,
    referenced: Seq<Seq<char>>,
    retention_minutes: u64,
    now: i128,
    k: Seq<char>,
)
    ensures
        expired_keys(objects, referenced, retention_minutes, now).contains(k) <==> exists|i: int|
            0 <= i < objects.len() && (#[trigger] objects[i]).key@ == k && is_expired(
                objects[i],
                referenced,
                retention_minutes,
                now,
            ),
    decreases objects.len(),
{
    if objects.len() > 0 {
        let shorter = objects.drop_last();
        lemma_expired_member(shorter, referenced, retention_minutes, now, k);
        let before = expired_keys(shorter, referenced, retention_minutes, now);
        let all = expired_keys(objects, referenced, retention_minutes, now);
        if all.contains(k) {
            if before.contains(k) {
                let i = choose|i: int|
                    0 <= i < shorter.len() && (#[trigger] shorter[i]).key@ == k && is_expired(
                        shorter[i],
                        referenced,
                        retention_minutes,
                        now,
                    );
                assert(objects[i] == shorter[i]);
            } else {
                assert(objects[objects.len() - 1].key@ == k);
            }
        }
        if exists|i: int|
            0 <= i < objects.len() && (#[trigger] objects[i]).key@ == k && is_expired(
                objects[i],
                referenced,
                retention_minutes,
                now,
            ) {
            let i = choose|i: int|
                0 <= i < objects.len() && (#[trigger] objects[i]).key@ == k && is_expired(
                    objects[i],
                    referenced,
                    retention_minutes,
                    now,
                );
            if i < shorter.len() {
                assert(shorter[i] == objects[i]);
                let m = choose|m: int| 0 <= m < before.len() && before[m] == k;
                assert(all[m] == k);
            } else {
                assert(all[all.len() - 1] == k);
            }
        }
    }
}

// ---------------------------------------------------------------------------
// Age of streams
// ---------------------------------------------------------------------------

/// When the stream ended, or was created where it has not.
pub open spec fn ended(e: EntryModel) -> i128 {
    match e.metadata.ended_at {
        Some(t) => t,
        None => e.metadata.created_at,
    }
}

/// The stream ended at least 24 hours before `now`.
pub open spec fn is_stale(e: EntryModel, now: i128) -> bool {
    now - ended(e) >= 86_400_000_000_000
}

/// Whether a stream ended at least 24 hours before `now`.
pub fn stale(e: &StreamEntry, now: i128) -> (r: bool)
    ensures
        r == is_stale(e@, now),
{
    let t = match e.metadata.ended_at {
        Some(t) => t,
        None => e.metadata.created_at,
    };
    clock::is_longer_ago(t, now, ERROR_STATE_MAX_AGE_HOURS as i128 * 3_600_000_000_000 - 1)
}

// ---------------------------------------------------------------------------
// A cleanup
// ---------------------------------------------------------------------------

/// The path under which all objects of a stream lie.
pub open spec fn stream_prefix(id: u128) -> Seq<char> {
    hyphenated(id) + "/"@
}

/// A media playlist of the stream refers to the segment `k`.
pub open spec fn is_referenced(objects: Objects, id: u128, k: Seq<char>) -> bool {
    exists|p: Seq<char>| #[trigger]
        objects.contains_key(p) && begins_with(p, stream_prefix(id)) && finishes_with(
            p,
            "media.m3u8"@,
        ) && refers_to(p, lossy_text(objects[p].data), k)
}

/// The object `k` is a segment of the stream that is old and that none of its playlists refers to.
pub open spec fn expires(
    objects: Objects,
    id: u128,
    k: Seq<char>,
    retention_minutes: u64,
    now: i128,
) -> bool {
    &&& objects.contains_key(k)
    &&& begins_with(k, stream_prefix(id))
    &&& is_segment(k)
    &&& is_old(objects[k].created_at, retention_minutes, now)
    &&& !is_referenced(objects, id, k)
}

/// The objects whose paths meet a condition.
pub open spec fn keep(objects: Objects, f: spec_fn(Seq<char>) -> bool) -> Objects {
    Map::new(|k: Seq<char>| objects.contains_key(k) && f(k), |k: Seq<char>| objects[k])
}

/// The objects after the old segments of one live stream are gone.
pub open spec fn live_cleaned(
    objects: Objects,
    id: u128,
    retention_minutes: u64,
    now: i128,
) -> Objects {
    keep(objects, |k: Seq<char>| !expires(objects, id, k, retention_minutes, now))
}

/// The path under which all objects of a stream lie.
pub fn prefix_of(id: StreamId) -> (r: String)
    ensures
        r@ == stream_prefix(id.value),
{
    let mut s = id.to_text();
    s.append("/");
    s
}

/// An object is a media playlist.
pub fn is_media_playlist(key: &str) -> (r: bool)
    ensures
        r == finishes_with(key@, "media.m3u8"@),
{
    text::ends_with(key, "media.m3u8")
}

/// All segments that the media playlists of a stream refer to.
fn collect_references(store: &InMemoryMediaStore, id: StreamId, objects: &Vec<ObjectInfo>) -> (r:
    Vec<String>)
    requires
        store.wf(),
        lists_prefix(objects@, store.objects(), stream_prefix(id.value)),
    ensures
        forall|k: Seq<char>| #[trigger]
            views(r@).contains(k) <==> is_referenced(store.objects(), id.value, k),
{
    let mut out: Vec<String> = Vec::new();
    let mut i: usize = 0;
    let ghost all = store.objects();
    while i < objects.len()
        invariant
            i <= objects@.len(),
            store.wf(),
            all == store.objects(),
            lists_prefix(objects@, all, stream_prefix(id.value)),
            forall|k: Seq<char>| #[trigger]
                views(out@).contains(k) <==> exists|j: int|
                    0 <= j < i && playlist_refers(all, (#[trigger] objects@[j]).key@, k),
        decreases objects@.len() - i,
    {
        let o = &objects[i];
        assert(lists_object(objects@[i as int], all));
        let ghost before = views(out@);
        if is_media_playlist(&o.key) {
            match store.get_object(&o.key) {
                Ok(playlist) => {
                    let mut more = playlist_references(&o.key, bytes_slice(&playlist.body));
                    let ghost added = views(more@);
                    let ghost out_before = out@;
                    let ghost more_before = more@;
                    out.append(&mut more);
                    proof {
                        assert(out@ =~= out_before + more_before);
                        assert(views(out@) =~= before + added);
                        assert forall|k: Seq<char>| #[trigger] views(out@).contains(k) <==> (
                        before.contains(k) || added.contains(k)) by {
                            lemma_concat_contains(before, added, k);
                        }
                    }
                },
                Err(_) => {},
            }
        }
        proof {
            assert forall|k: Seq<char>| #[trigger] views(out@).contains(k) <==> exists|j: int|
                0 <= j < i + 1 && playlist_refers(all, (#[trigger] objects@[j]).key@, k) by {
                if views(out@).contains(k) {
                    if before.contains(k) {
                        let j = choose|j: int|
                            0 <= j < i && playlist_refers(all, (#[trigger] objects@[j]).key@, k);
                        assert(playlist_refers(all, objects@[j].key@, k));
                    } else {
                        assert(playlist_refers(all, objects@[i as int].key@, k));
                    }
                }
                if exists|j: int|
                    0 <= j < i + 1 && playlist_refers(all, (#[trigger] objects@[j]).key@, k) {
                    let j = choose|j: int|
                        0 <= j < i + 1 && playlist_refers(all, (#[trigger] objects@[j]).key@, k);
                    if j < i {
                        assert(before.contains(k));
                    }
                }
            }
        }
        i = i + 1;
    }
    proof {
        assert forall|k: Seq<char>| #[trigger] views(out@).contains(k) <==> is_referenced(
            all,
            id.value,
            k,
        ) by {
            if views(out@).contains(k) {
                let j = choose|j: int|
                    0 <= j < i && playlist_refers(all, (#[trigger] objects@[j]).key@, k);
                assert(lists_object(objects@[j], all));
                let p = objects@[j].key@;
                assert(all.contains_key(p) && begins_with(p, stream_prefix(id.value)));
            }
            if is_referenced(all, id.value, k) {
                let p = choose|p: Seq<char>| #[trigger]
                    all.contains_key(p) && begins_with(p, stream_prefix(id.value))
                        && finishes_with(p, "media.m3u8"@) && refers_to(
                        p,
                        lossy_text(all[p].data),
                        k,
                    );
                let j = choose|j: int| 0 <= j < objects@.len() && (#[trigger] objects@[j]).key@ == p;
                assert(playlist_refers(all, objects@[j].key@, k));
            }
        }
    }
    out
}

/// The object `p` is a media playlist that refers to `k`.
pub open spec fn playlist_refers(objects: Objects, p: Seq<char>, k: Seq<char>) -> bool {
    finishes_with(p, "media.m3u8"@) && refers_to(p, lossy_text(objects[p].data), k)
}

proof fn lemma_concat_contains(a: Seq<Seq<char>>, b: Seq<Seq<char>>, k: Seq<char>)
    ensures
        (a + b).contains(k) <==> a.contains(k) || b.contains(k),
{
    if a.contains(k) {
        let i = choose|i: int| 0 <= i < a.len() && a[i] == k;
        assert((a + b)[i] == k);
    }
    if b.contains(k) {
        let i = choose|i: int| 0 <= i < b.len() && b[i] == k;
        assert((a + b)[a.len() + i] == k);
    }
    if (a + b).contains(k) {
        let i = choose|i: int| 0 <= i < (a + b).len() && (a + b)[i] == k;
        if i < a.len() {
            assert(a[i] == k);
        } else {
            assert(b[i - a.len()] == k);
        }
    }
}

/// Deletes the expired segments of a live stream.
pub fn clean_live_stream(
    store: &mut InMemoryMediaStore,
    id: StreamId,
    retention_minutes: u64,
    now: i128,
)
    requires
        old(store).wf(),
        retention_minutes <= MAX_RETENTION_MINUTES,
    ensures
        final(store).wf(),
        final(store).objects() == live_cleaned(
            old(store).objects(),
            id.value,
            retention_minutes,
            now,
        ),
{
    let ghost all = store.objects();
    let prefix = prefix_of(id);
    let objects = match store.list_objects(&prefix) {
        Ok(objects) => objects,
        Err(_) => {
            return ;
        },
    };
    let referenced = collect_references(store, id, &objects);
    let expired = expired_segments(&objects, &referenced, retention_minutes, now);
    let mut i: usize = 0;
    let ghost keys = views(expired@);
    proof {
        assert(keep(all, |k: Seq<char>| !keys.subrange(0, 0).contains(k)) =~= all);
        assert(keys.len() == expired@.len());
    }
    while i < expired.len()
        invariant
            i <= expired@.len(),
            keys == views(expired@),
            store.wf(),
            store.objects() == keep(all, |k: Seq<char>| !keys.subrange(0, i as int).contains(k)),
        decreases expired@.len() - i,
    {
        assert(keys[i as int] == expired@[i as int]@);
        let _deleted = store.delete_object(&expired[i]);
        proof {
            let before = keys.subrange(0, i as int);
            let after = keys.subrange(0, i + 1);
            assert forall|k: Seq<char>| after.contains(k) == (before.contains(k) || k
                == keys[i as int]) by {
                if before.contains(k) {
                    let m = choose|m: int| 0 <= m < before.len() && before[m] == k;
                    assert(after[m] == k);
                }
                if k == keys[i as int] {
                    assert(after[i as int] == k);
                }
                if after.contains(k) {
                    let m = choose|m: int| 0 <= m < after.len() && after[m] == k;
                    if m < i {
                        assert(before[m] == k);
                    }
                }
            }
            assert(store.objects() =~= keep(all, |k: Seq<char>| !after.contains(k)));
        }
        i = i + 1;
    }
    proof {
        assert(keys.subrange(0, i as int) =~= keys);
        let refs = views(referenced@);
        assert forall|k: Seq<char>| all.contains_key(k) implies keys.contains(k) == expires(
            all,
            id.value,
            k,
            retention_minutes,
            now,
        ) by {
            lemma_expired_member(objects@, refs, retention_minutes, now, k);
            if keys.contains(k) {
                let j = choose|j: int|
                    0 <= j < objects@.len() && (#[trigger] objects@[j]).key@ == k && is_expired(
                        objects@[j],
                        refs,
                        retention_minutes,
                        now,
                    );
                assert(lists_object(objects@[j], all));
                assert(begins_with(objects@[j].key@, prefix@));
            }
            if expires(all, id.value, k, retention_minutes, now) {
                let j = choose|j: int| 0 <= j < objects@.len() && (#[trigger] objects@[j]).key@ == k;
                assert(lists_object(objects@[j], all));
            }
        }
        assert(store.objects() =~= live_cleaned(all, id.value, retention_minutes, now));
    }
}

/// Some live stream lets the object `k` expire.
pub open spec fn expires_for_any(
    objects: Objects,
    table: Map<u128, EntryModel>,
    k: Seq<char>,
    retention_minutes: u64,
    now: i128,
) -> bool {
    exists|id: u128| #[trigger]
        table.contains_key(id) && table[id].state == StreamState::Live && expires(
            objects,
            id,
            k,
            retention_minutes,
            now,
        )
}

/// A stale failed stream owns the object `k`.
pub open spec fn owned_by_stale(table: Map<u128, EntryModel>, k: Seq<char>, now: i128) -> bool {
    exists|id: u128| #[trigger]
        table.contains_key(id) && table[id].state == StreamState::Error && is_stale(table[id], now)
            && begins_with(k, stream_prefix(id))
}

/// The objects after a cleanup.
pub open spec fn objects_after(
    objects: Objects,
    table: Map<u128, EntryModel>,
    retention_minutes: u64,
    now: i128,
) -> Objects {
    keep(
        objects,
        |k: Seq<char>|
            !expires_for_any(objects, table, k, retention_minutes, now) && !owned_by_stale(
                table,
                k,
                now,
            ),
    )
}

/// A stream after the failed ones are looked at: a stale one is deleted at `wall`.
pub open spec fn after_failures(e: EntryModel, now: i128, wall: i128) -> EntryModel {
    if e.state == StreamState::Error && is_stale(e, now) {
        e.entering(StreamState::Deleted, wall)
    } else {
        e
    }
}

/// The record of a deleted stream that is no longer kept.
pub open spec fn is_forgotten(e: EntryModel, now: i128) -> bool {
    e.state == StreamState::Deleted && is_stale(e, now)
}

/// The streams after the failed ones are looked at.
pub open spec fn table_after_failures(
    table: Map<u128, EntryModel>,
    now: i128,
    wall: i128,
) -> Map<u128, EntryModel> {
    table.map_values(|e: EntryModel| after_failures(e, now, wall))
}

/// The streams after a cleanup.
pub open spec fn table_after(
    table: Map<u128, EntryModel>,
    now: i128,
    wall: i128,
) -> Map<u128, EntryModel> {
    let t = table_after_failures(table, now, wall);
    Map::new(|id: u128| t.contains_key(id) && !is_forgotten(t[id], now), |id: u128| t[id])
}

proof fn lemma_playlists_are_no_segments(p: Seq<char>)
    requires
        finishes_with(p, "media.m3u8"@),
    ensures
        !is_segment(p),
{
    reveal_strlit("media.m3u8");
    reveal_strlit(".m4s");
    let a = "media.m3u8"@;
    let b = ".m4s"@;
    assert(p.subrange(p.len() - a.len(), p.len() as int) == a);
    assert(p.last() == p.subrange(p.len() - a.len(), p.len() as int)[9]);
    if finishes_with(p, b) {
        assert(p.subrange(p.len() - b.len(), p.len() as int) == b);
        assert(p.last() == p.subrange(p.len() - b.len(), p.len() as int)[3]);
    }
}

/// Where only segments have gone, the same segments are referred to and expire as before.
proof fn lemma_expiry_is_stable(
    objects: Objects,
    rest: Objects,
    id: u128,
    k: Seq<char>,
    retention_minutes: u64,
    now: i128,
)
    requires
        forall|p: Seq<char>| #[trigger] rest.contains_key(p) ==> objects.contains_key(p) && rest[p]
            == objects[p],
        forall|p: Seq<char>| #[trigger]
            objects.contains_key(p) && !is_segment(p) ==> rest.contains_key(p),
        rest.contains_key(k),
    ensures
        expires(rest, id, k, retention_minutes, now) == expires(
            objects,
            id,
            k,
            retention_minutes,
            now,
        ),
{
    if is_referenced(rest, id, k) {
        let p = choose|p: Seq<char>| #[trigger]
            rest.contains_key(p) && begins_with(p, stream_prefix(id)) && finishes_with(
                p,
                "media.m3u8"@,
            ) && refers_to(p, lossy_text(rest[p].data), k);
        assert(objects.contains_key(p));
    }
    if is_referenced(objects, id, k) {
        let p = choose|p: Seq<char>| #[trigger]
            objects.contains_key(p) && begins_with(p, stream_prefix(id)) && finishes_with(
                p,
                "media.m3u8"@,
            ) && refers_to(p, lossy_text(objects[p].data), k);
        lemma_playlists_are_no_segments(p);
        assert(rest.contains_key(p));
    }
}

/// One of the first `n` listed streams lets the object `k` expire.
spec fn expires_for_first(
    objects: Objects,
    streams: Seq<EntryModel>,
    n: int,
    k: Seq<char>,
    retention_minutes: u64,
    now: i128,
) -> bool {
    exists|i: int|
        0 <= i < n && expires(
            objects,
            (#[trigger] streams[i]).metadata.stream_id.value,
            k,
            retention_minutes,
            now,
        )
}

/// Deletes the expired segments of all live streams.
fn clean_live_streams(
    store: &mut InMemoryMediaStore,
    manager: &StreamStateManager,
    retention_minutes: u64,
    now: i128,
)
    requires
        old(store).wf(),
        manager.wf(),
        retention_minutes <= MAX_RETENTION_MINUTES,
    ensures
        final(store).wf(),
        final(store).objects() == keep(
            old(store).objects(),
            |k: Seq<char>|
                !expires_for_any(
                    old(store).objects(),
                    manager.table(),
                    k,
                    retention_minutes,
                    now,
                ),
        ),
{
    let ghost all = store.objects();
    let live = manager.list_streams(Some(StreamState::Live));
    let ghost streams = models(live@);
    let mut i: usize = 0;
    proof {
        assert(keep(
            all,
            |k: Seq<char>| !expires_for_first(all, streams, 0, k, retention_minutes, now),
        ) =~= all);
    }
    while i < live.len()
        invariant
            i <= live@.len(),
            streams == models(live@),
            store.wf(),
            retention_minutes <= MAX_RETENTION_MINUTES,
            store.objects() == keep(
                all,
                |k: Seq<char>|
                    !expires_for_first(all, streams, i as int, k, retention_minutes, now),
            ),
        decreases live@.len() - i,
    {
        assert(streams[i as int] == live@[i as int]@);
        let ghost before = store.objects();
        let id = live[i].metadata.stream_id;
        clean_live_stream(store, id, retention_minutes, now);
        proof {
            let target = keep(
                all,
                |k: Seq<char>| !expires_for_first(all, streams, i + 1, k, retention_minutes, now),
            );
            assert forall|p: Seq<char>| #[trigger]
                all.contains_key(p) && !is_segment(p) implies before.contains_key(p) by {
                if expires_for_first(all, streams, i as int, p, retention_minutes, now) {
                    let j = choose|j: int|
                        0 <= j < i && expires(
                            all,
                            (#[trigger] streams[j]).metadata.stream_id.value,
                            p,
                            retention_minutes,
                            now,
                        );
                    assert(is_segment(p));
                }
            }
            assert forall|k: Seq<char>| store.objects().contains_key(k) == target.contains_key(
                k,
            ) by {
                if before.contains_key(k) {
                    lemma_expiry_is_stable(all, before, id.value, k, retention_minutes, now);
                }
                if expires_for_first(all, streams, i + 1, k, retention_minutes, now) {
                    let j = choose|j: int|
                        0 <= j < i + 1 && expires(
                            all,
                            (#[trigger] streams[j]).metadata.stream_id.value,
                            k,
                            retention_minutes,
                            now,
                        );
                    if j < i {
                        assert(expires_for_first(all, streams, i as int, k, retention_minutes, now));
                    }
                } else {
                    assert(!expires(
                        all,
                        streams[i as int].metadata.stream_id.value,
                        k,
                        retention_minutes,
                        now,
                    ));
                    if expires_for_first(all, streams, i as int, k, retention_minutes, now) {
                        let j = choose|j: int|
                            0 <= j < i && expires(
                                all,
                                (#[trigger] streams[j]).metadata.stream_id.value,
                                k,
                                retention_minutes,
                                now,
                            );
                        assert(expires_for_first(all, streams, i + 1, k, retention_minutes, now));
                    }
                }
            }
            assert(store.objects() =~= target);
        }
        i = i + 1;
    }
    proof {
        let table = manager.table();
        assert forall|k: Seq<char>| all.contains_key(k) implies expires_for_first(
            all,
            streams,
            i as int,
            k,
            retention_minutes,
            now,
        ) == expires_for_any(all, table, k, retention_minutes, now) by {
            if expires_for_first(all, streams, i as int, k, retention_minutes, now) {
                let j = choose|j: int|
                    0 <= j < i && expires(
                        all,
                        (#[trigger] streams[j]).metadata.stream_id.value,
                        k,
                        retention_minutes,
                        now,
                    );
                assert(table.contains_key(streams[j].metadata.stream_id.value));
            }
            if expires_for_any(all, table, k, retention_minutes, now) {
                let id = choose|id: u128| #[trigger]
                    table.contains_key(id) && table[id].state == StreamState::Live && expires(
                        all,
                        id,
                        k,
                        retention_minutes,
                        now,
                    );
                assert(matches_filter(table[id], Some(StreamState::Live)));
                let j = choose|j: int|
                    0 <= j < streams.len() && (#[trigger] streams[j]).metadata.stream_id.value == id;
                assert(expires(
                    all,
                    streams[j].metadata.stream_id.value,
                    k,
                    retention_minutes,
                    now,
                ));
            }
        }
        assert(store.objects() =~= keep(
            all,
            |k: Seq<char>| !expires_for_any(all, table, k, retention_minutes, now),
        ));
    }
}

/// The stream is one of the first `n` listed ones.
spec fn among_first(streams: Seq<EntryModel>, n: int, id: u128) -> bool {
    exists|i: int| 0 <= i < n && (#[trigger] streams[i]).metadata.stream_id.value == id
}

/// One of the first `n` listed streams is stale and owns the object `k`.
spec fn owned_by_first(streams: Seq<EntryModel>, n: int, k: Seq<char>, now: i128) -> bool {
    exists|i: int|
        0 <= i < n && is_stale(#[trigger] streams[i], now) && begins_with(
            k,
            stream_prefix(streams[i].metadata.stream_id.value),
        )
}

/// Deletes the stale failed streams with all of their objects.
fn clean_failed_streams(
    store: &mut InMemoryMediaStore,
    manager: &mut StreamStateManager,
    now: i128,
    wall: i128,
)
    requires
        old(store).wf(),
        old(manager).wf(),
        in_calendar(wall),
    ensures
        final(store).wf(),
        final(manager).wf(),
        final(store).objects() == keep(
            old(store).objects(),
            |k: Seq<char>| !owned_by_stale(old(manager).table(), k, now),
        ),
        final(manager).table() == table_after_failures(old(manager).table(), now, wall),
        old(manager).table().dom().len() < i64::MAX && counts_agree(
            old(manager).counts(),
            old(manager).table(),
        ) ==> counts_agree(final(manager).counts(), final(manager).table()),
{
    let ghost all = store.objects();
    let ghost table = manager.table();
    let ghost counted = table.dom().len() < i64::MAX && counts_agree(manager.counts(), table);
    let failed = manager.list_streams(Some(StreamState::Error));
    let ghost streams = models(failed@);
    let mut i: usize = 0;
    proof {
        assert(keep(all, |k: Seq<char>| !owned_by_first(streams, 0, k, now)) =~= all);
    }
    while i < failed.len()
        invariant
            i <= failed@.len(),
            streams == models(failed@),
            lists_matching(streams, table, Some(StreamState::Error)),
            in_calendar(wall),
            store.wf(),
            manager.wf(),
            store.objects() == keep(
                all,
                |k: Seq<char>| !owned_by_first(streams, i as int, k, now),
            ),
            manager.table().dom() == table.dom(),
            forall|id: u128| #[trigger]
                table.contains_key(id) ==> manager.table()[id] == if among_first(
                    streams,
                    i as int,
                    id,
                ) {
                    after_failures(table[id], now, wall)
                } else {
                    table[id]
                },
            counted ==> table.dom().len() < i64::MAX && counts_agree(
                manager.counts(),
                manager.table(),
            ),
        decreases failed@.len() - i,
    {
        assert(streams[i as int] == failed@[i as int]@);
        let ghost before = store.objects();
        let ghost manager_before = *manager;
        let entry = &failed[i];
        let id = entry.metadata.stream_id;
        proof {
            assert(table.contains_key(streams[i as int].metadata.stream_id.value));
            assert(!among_first(streams, i as int, id.value)) by {
                if among_first(streams, i as int, id.value) {
                    let j = choose|j: int|
                        0 <= j < i && (#[trigger] streams[j]).metadata.stream_id.value == id.value;
                    assert(streams[j].metadata.stream_id != streams[i as int].metadata.stream_id);
                }
            }
            assert(manager.table()[id.value] == table[id.value]);
            assert(manager.table().contains_key(id.value));
        }
        if stale(entry, now) {
            let prefix = prefix_of(id);
            match store.delete_prefix(&prefix) {
                Ok(_) => {
                    let r = manager.transition_at(id, StreamState::Deleted, wall);
                    proof {
                        if counted {
                            counters_agree_after_change(
                                manager_before,
                                *manager,
                                id,
                                StreamState::Deleted,
                                wall,
                                r,
                            );
                        }
                    }
                },
                Err(_) => {},
            }
        }
        proof {
            let target = keep(all, |k: Seq<char>| !owned_by_first(streams, i + 1, k, now));
            assert forall|k: Seq<char>| store.objects().contains_key(k) == target.contains_key(
                k,
            ) by {
                if owned_by_first(streams, i + 1, k, now) {
                    let j = choose|j: int|
                        0 <= j < i + 1 && is_stale(#[trigger] streams[j], now) && begins_with(
                            k,
                            stream_prefix(streams[j].metadata.stream_id.value),
                        );
                    if j < i {
                        assert(owned_by_first(streams, i as int, k, now));
                    }
                } else {
                    if owned_by_first(streams, i as int, k, now) {
                        let j = choose|j: int|
                            0 <= j < i && is_stale(#[trigger] streams[j], now) && begins_with(
                                k,
                                stream_prefix(streams[j].metadata.stream_id.value),
                            );
                        assert(owned_by_first(streams, i + 1, k, now));
                    }
                    assert(!(is_stale(streams[i as int], now) && begins_with(
                        k,
                        stream_prefix(streams[i as int].metadata.stream_id.value),
                    )));
                }
            }
            assert(store.objects() =~= target);
            assert(manager.table().dom() =~= table.dom());
            assert forall|other: u128| #[trigger] table.contains_key(other) implies manager.table()[other]
                == if among_first(streams, i + 1, other) {
                after_failures(table[other], now, wall)
            } else {
                table[other]
            } by {
                if other == id.value {
                    assert(streams[i as int].metadata.stream_id.value == other);
                } else {
                    if among_first(streams, i + 1, other) {
                        let j = choose|j: int|
                            0 <= j < i + 1 && (#[trigger] streams[j]).metadata.stream_id.value
                                == other;
                        assert(among_first(streams, i as int, other));
                    }
                    if among_first(streams, i as int, other) {
                        let j = choose|j: int|
                            0 <= j < i && (#[trigger] streams[j]).metadata.stream_id.value == other;
                        assert(among_first(streams, i + 1, other));
                    }
                    assert(manager_before.table()[other] == if among_first(
                        streams,
                        i as int,
                        other,
                    ) {
                        after_failures(table[other], now, wall)
                    } else {
                        table[other]
                    });
                }
            }
        }
        i = i + 1;
    }
    proof {
        assert forall|k: Seq<char>| owned_by_first(streams, i as int, k, now) == owned_by_stale(
            table,
            k,
            now,
        ) by {
            if owned_by_first(streams, i as int, k, now) {
                let j = choose|j: int|
                    0 <= j < i && is_stale(#[trigger] streams[j], now) && begins_with(
                        k,
                        stream_prefix(streams[j].metadata.stream_id.value),
                    );
                assert(table.contains_key(streams[j].metadata.stream_id.value));
            }
            if owned_by_stale(table, k, now) {
                let id = choose|id: u128| #[trigger]
                    table.contains_key(id) && table[id].state == StreamState::Error && is_stale(
                        table[id],
                        now,
                    ) && begins_with(k, stream_prefix(id));
                assert(matches_filter(table[id], Some(StreamState::Error)));
                let j = choose|j: int|
                    0 <= j < streams.len() && (#[trigger] streams[j]).metadata.stream_id.value == id;
                assert(is_stale(streams[j], now));
            }
        }
        assert(store.objects() =~= keep(all, |k: Seq<char>| !owned_by_stale(table, k, now)));
        let target = table_after_failures(table, now, wall);
        assert forall|id: u128| table.contains_key(id) implies manager.table()[id] == target[id] by {
            if !among_first(streams, i as int, id) {
                if table[id].state == StreamState::Error {
                    assert(matches_filter(table[id], Some(StreamState::Error)));
                    let j = choose|j: int|
                        0 <= j < streams.len() && (#[trigger] streams[j]).metadata.stream_id.value
                            == id;
                    assert(among_first(streams, i as int, id));
                }
            }
        }
        assert(manager.table() =~= target);
    }
}

/// Forgets the deleted streams whose time is over.
pub fn forget_deleted_streams(manager: &mut StreamStateManager, now: i128)
    requires
        old(manager).wf(),
    ensures
        final(manager).wf(),
        final(manager).table() == Map::new(
            |id: u128|
                old(manager).table().contains_key(id) && !is_forgotten(
                    old(manager).table()[id],
                    now,
                ),
            |id: u128| old(manager).table()[id],
        ),
        old(manager).table().dom().len() < i64::MAX && counts_agree(
            old(manager).counts(),
            old(manager).table(),
        ) ==> counts_agree(final(manager).counts(), final(manager).table()),
{
    let ghost table = manager.table();
    let ghost counted = table.dom().len() < i64::MAX && counts_agree(manager.counts(), table);
    let deleted = manager.list_streams(Some(StreamState::Deleted));
    let ghost streams = models(deleted@);
    let mut i: usize = 0;
    while i < deleted.len()
        invariant
            i <= deleted@.len(),
            streams == models(deleted@),
            lists_matching(streams, table, Some(StreamState::Deleted)),
            manager.wf(),
            table.dom().finite(),
            forall|id: u128| #[trigger]
                manager.table().contains_key(id) <==> table.contains_key(id) && !(among_first(
                    streams,
                    i as int,
                    id,
                ) && is_stale(table[id], now)),
            forall|id: u128| #[trigger]
                manager.table().contains_key(id) ==> manager.table()[id] == table[id],
            counted ==> table.dom().len() < i64::MAX && counts_agree(
                manager.counts(),
                manager.table(),
            ),
        decreases deleted@.len() - i,
    {
        assert(streams[i as int] == deleted@[i as int]@);
        let ghost manager_before = *manager;
        let entry = &deleted[i];
        let id = entry.metadata.stream_id;
        proof {
            assert(table.contains_key(streams[i as int].metadata.stream_id.value));
        }
        if stale(entry, now) {
            let _removed = manager.remove_stream(id);
            proof {
                if counted {
                    assert(manager_before.table().dom().subset_of(table.dom()));
                    vstd::set_lib::lemma_len_subset(manager_before.table().dom(), table.dom());
                    counters_agree_after_removal(manager_before, *manager, id);
                }
            }
        }
        proof {
            assert forall|other: u128| #[trigger] manager.table().contains_key(other) <==> (
            table.contains_key(other) && !(among_first(streams, i + 1, other) && is_stale(
                table[other],
                now,
            ))) by {
                if among_first(streams, i + 1, other) && other != id.value {
                    let j = choose|j: int|
                        0 <= j < i + 1 && (#[trigger] streams[j]).metadata.stream_id.value == other;
                    assert(among_first(streams, i as int, other));
                }
                if among_first(streams, i as int, other) {
                    let j = choose|j: int|
                        0 <= j < i && (#[trigger] streams[j]).metadata.stream_id.value == other;
                    assert(among_first(streams, i + 1, other));
                }
                assert(streams[i as int].metadata.stream_id.value == id.value);
                assert(manager_before.table().contains_key(other) <==> table.contains_key(other)
                    && !(among_first(streams, i as int, other) && is_stale(table[other], now)));
            }
        }
        i = i + 1;
    }
    proof {
        let target = Map::new(
            |id: u128| table.contains_key(id) && !is_forgotten(table[id], now),
            |id: u128| table[id],
        );
        assert forall|id: u128| manager.table().contains_key(id) == target.contains_key(id) by {
            if table.contains_key(id) {
                if among_first(streams, i as int, id) {
                    let j = choose|j: int|
                        0 <= j < i && (#[trigger] streams[j]).metadata.stream_id.value == id;
                    assert(table[streams[j].metadata.stream_id.value] == streams[j]);
                } else if table[id].state == StreamState::Deleted {
                    assert(matches_filter(table[id], Some(StreamState::Deleted)));
                    let j = choose|j: int|
                        0 <= j < streams.len() && (#[trigger] streams[j]).metadata.stream_id.value
                            == id;
                    assert(among_first(streams, i as int, id));
                }
            }
        }
        assert(manager.table() =~= target);
    }
}

/// Cleans up, as of `now`: the expired segments of live streams, the stale failed streams with
/// all of their objects, and the records of streams deleted long ago. Streams that are deleted
/// by this are dated at the current time.
pub fn run_cleanup_cycle(
    store: &mut InMemoryMediaStore,
    manager: &mut StreamStateManager,
    config: &PackagingConfig,
    now: i128,
)
    requires
        old(store).wf(),
        old(manager).wf(),
        config.segment_retention_minutes <= MAX_RETENTION_MINUTES,
    ensures
        final(store).wf(),
        final(manager).wf(),
        final(store).objects() == objects_after(
            old(store).objects(),
            old(manager).table(),
            config.segment_retention_minutes,
            now,
        ),
        exists|wall: i128|
            final(manager).table() == #[trigger] table_after(old(manager).table(), now, wall) && in_calendar(wall),
{
    run_cleanup_cycle_at(store, manager, config, now, clock::now())
}

/// Cleans up as of `now`, where streams that are deleted by this are dated at `wall`.
pub fn run_cleanup_cycle_at(
    store: &mut InMemoryMediaStore,
    manager: &mut StreamStateManager,
    config: &PackagingConfig,
    now: i128,
    wall: i128,
)
    requires
        old(store).wf(),
        old(manager).wf(),
        in_calendar(wall),
        config.segment_retention_minutes <= MAX_RETENTION_MINUTES,
    ensures
        final(store).wf(),
        final(manager).wf(),
        final(store).objects() == objects_after(
            old(store).objects(),
            old(manager).table(),
            config.segment_retention_minutes,
            now,
        ),
        final(manager).table() == table_after(old(manager).table(), now, wall),
        old(manager).table().dom().len() < i64::MAX && counts_agree(
            old(manager).counts(),
            old(manager).table(),
        ) ==> counts_agree(final(manager).counts(), final(manager).table()),
{
    clean_live_streams(store, manager, config.segment_retention_minutes, now);
    clean_failed_streams(store, manager, now, wall);
    assert(store.objects() =~= objects_after(
        old(store).objects(),
        old(manager).table(),
        config.segment_retention_minutes,
        now,
    ));
    assert(manager.table().dom() =~= old(manager).table().dom());
    forget_deleted_streams(manager, now);
    assert(manager.table() =~= table_after(old(manager).table(), now, wall));
}

// ---------------------------------------------------------------------------
// Laws
// ---------------------------------------------------------------------------

/// An object lies under the path of at most one stream.
pub proof fn objects_have_one_stream(k: Seq<char>, a: u128, b: u128)
    requires
        begins_with(k, stream_prefix(a)),
        begins_with(k, stream_prefix(b)),
    ensures
        a == b,
{
    let x = stream_prefix(a);
    let y = stream_prefix(b);
    reveal_strlit("/");
    assert(x.len() == 37 && y.len() == 37);
    assert(k.subrange(0, 37) == x && k.subrange(0, 37) == y);
    assert(x.subrange(0, 36) =~= hyphenated(a));
    assert(y.subrange(0, 36) =~= hyphenated(b));
    texts_tell_uuids_apart(a, b);
}

/// A cleanup never deletes a segment of a live stream that one of its playlists refers to.
pub proof fn referenced_segments_stay(
    objects: Objects,
    table: Map<u128, EntryModel>,
    retention_minutes: u64,
    now: i128,
    id: u128,
    k: Seq<char>,
)
    requires
        objects.contains_key(k),
        begins_with(k, stream_prefix(id)),
        table.contains_key(id),
        table[id].state == StreamState::Live,
        is_referenced(objects, id, k),
    ensures
        objects_after(objects, table, retention_minutes, now).contains_key(k),
        objects_after(objects, table, retention_minutes, now)[k] == objects[k],
{
    if expires_for_any(objects, table, k, retention_minutes, now) {
        let other = choose|other: u128| #[trigger]
            table.contains_key(other) && table[other].state == StreamState::Live && expires(
                objects,
                other,
                k,
                retention_minutes,
                now,
            );
        objects_have_one_stream(k, id, other);
    }
    if owned_by_stale(table, k, now) {
        let other = choose|other: u128| #[trigger]
            table.contains_key(other) && table[other].state == StreamState::Error && is_stale(
                table[other],
                now,
            ) && begins_with(k, stream_prefix(other));
        objects_have_one_stream(k, id, other);
    }
}

/// A cleanup only deletes segments, but for the objects of stale failed streams.
pub proof fn only_segments_go(
    objects: Objects,
    table: Map<u128, EntryModel>,
    retention_minutes: u64,
    now: i128,
    k: Seq<char>,
)
    requires
        objects.contains_key(k),
        !is_segment(k),
        !owned_by_stale(table, k, now),
    ensures
        objects_after(objects, table, retention_minutes, now).contains_key(k),
{
}

/// A segment younger than the retention stays, unless a stale failed stream owns it.
pub proof fn young_segments_stay(
    objects: Objects,
    table: Map<u128, EntryModel>,
    retention_minutes: u64,
    now: i128,
    k: Seq<char>,
)
    requires
        objects.contains_key(k),
        !is_old(objects[k].created_at, retention_minutes, now),
        !owned_by_stale(table, k, now),
    ensures
        objects_after(objects, table, retention_minutes, now).contains_key(k),
{
}

/// A cleanup changes no stream but stale failed ones and stale deleted ones.
pub proof fn other_streams_stay(
    table: Map<u128, EntryModel>,
    now: i128,
    wall: i128,
    id: u128,
)
    requires
        table.contains_key(id),
        !is_stale(table[id], now) || (table[id].state != StreamState::Error && table[id].state
            != StreamState::Deleted),
    ensures
        table_after(table, now, wall).contains_key(id),
        table_after(table, now, wall)[id] == table[id],
{
}

/// A cleanup deletes every segment of a live stream that was changed longer ago than the retention
/// and that none of the stream's playlists refers to.
pub proof fn old_unreferenced_segments_go(
    objects: Objects,
    table: Map<u128, EntryModel>,
    retention_minutes: u64,
    now: i128,
    id: u128,
    rest: Seq<char>,
)
    requires
        ({
            let k = hyphenated(id) + "/"@ + rest + ".m4s"@;
            &&& objects.contains_key(k)
            &&& !has_part(k, "init.mp4"@)
            &&& now - objects[k].created_at > retention_minutes * 60 * 1_000_000_000
            &&& !is_referenced(objects, id, k)
        }),
        table.contains_key(id),
        table[id].state == StreamState::Live,
    ensures
        !objects_after(objects, table, retention_minutes, now).contains_key(
            hyphenated(id) + "/"@ + rest + ".m4s"@,
        ),
{
    let k = hyphenated(id) + "/"@ + rest + ".m4s"@;
    let p = stream_prefix(id);
    assert(k.subrange(0, p.len() as int) =~= p);
    assert(k.subrange(k.len() - ".m4s"@.len(), k.len() as int) =~= ".m4s"@);
    assert(expires(objects, id, k, retention_minutes, now));
    assert(expires_for_any(objects, table, k, retention_minutes, now));
}

/// What was changed within the retention stays, unless a failed stream owns it.
pub proof fn recent_objects_stay(
    objects: Objects,
    table: Map<u128, EntryModel>,
    retention_minutes: u64,
    now: i128,
    k: Seq<char>,
)
    requires
        objects.contains_key(k),
        now - objects[k].created_at <= retention_minutes * 60 * 1_000_000_000,
        forall|id: u128| #[trigger]
            table.contains_key(id) && table[id].state == StreamState::Error ==> !begins_with(
                k,
                hyphenated(id) + "/"@,
            ),
    ensures
        objects_after(objects, table, retention_minutes, now).contains_key(k),
        objects_after(objects, table, retention_minutes, now)[k] == objects[k],
{
}

/// A stream that failed a day ago or longer is marked as deleted, and its objects go; the record of
/// one that was deleted a day ago or longer is forgotten. Until the day is over both stay.
pub proof fn streams_are_kept_for_a_day(
    objects: Objects,
    table: Map<u128, EntryModel>,
    retention_minutes: u64,
    now: i128,
    wall: i128,
    id: u128,
    rest: Seq<char>,
)
    requires
        table.contains_key(id),
        table[id].metadata.ended_at is Some,
        wall > now - 24 * 3600 * 1_000_000_000,
    ensures
        ({
            let day_over = now - table[id].metadata.ended_at->0 >= 24 * 3600 * 1_000_000_000;
            let after = table_after(table, now, wall);
            let k = hyphenated(id) + "/"@ + rest;
            &&& table[id].state == StreamState::Error && day_over ==> {
                &&& after.contains_key(id)
                &&& after[id].state == StreamState::Deleted
                &&& after[id].metadata.ended_at == Some(wall)
                &&& !objects_after(objects, table, retention_minutes, now).contains_key(k)
            }
            &&& table[id].state == StreamState::Deleted ==> (after.contains_key(id) <==> !day_over)
            &&& !day_over ==> after.contains_key(id) && after[id] == table[id]
        }),
{
    let k = hyphenated(id) + "/"@ + rest;
    let p = stream_prefix(id);
    assert(k.subrange(0, p.len() as int) =~= p);
    if table[id].state == StreamState::Error && is_stale(table[id], now) {
        assert(owned_by_stale(table, k, now));
    }
}

} // verus!
