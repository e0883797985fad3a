//! The decisions of a store on S3: which failures are tried again, what a reply says, and how a
//! listing goes on.

use bytes::Bytes;
use vstd::prelude::*;
use vstd::string::*;

use crate::buffer::bytes_seq;
use crate::clock;
use crate::clock::{in_calendar, is_timestamp};
use crate::common::error::{joined, StorageError, StorageFault};
use crate::storage::{GetObjectOutput, ObjectInfo};
use crate::text;
use crate::text::{decimal, has_part};

verus! {

/// Times that a failed request is tried again.
pub const MAX_RETRIES: u32 = 3;

/// Milliseconds before the second try; each further one waits twice as long.
pub const INITIAL_BACKOFF_MS: u64 = 100;

/// Content type of playlists.
pub const MANIFEST_CONTENT_TYPE: &'static str = "application/vnd.apple.mpegurl";

// ---------------------------------------------------------------------------
// Retries
// ---------------------------------------------------------------------------

/// A failure says that access is forbidden.
pub open spec fn says_forbidden(failure: Seq<char>) -> bool {
    has_part(failure, "403"@) || has_part(failure, "Forbidden"@)
}

/// A failure says that there is no such object.
pub open spec fn says_missing(failure: Seq<char>) -> bool {
    has_part(failure, "NoSuchKey"@) || has_part(failure, "404"@)
}

/// Milliseconds to wait before a retry, counted from 1.
pub open spec fn backoff(retry: int) -> int
    decreases retry,
{
    if retry <= 1 {
        INITIAL_BACKOFF_MS as int
    } else {
        2 * backoff(retry - 1)
    }
}

/// What a failed PUT leads to: the next wait, or the error.
pub open spec fn after_put(key: Seq<char>, attempt: u32, failure: Seq<char>) -> Result<
    int,
    StorageFault,
> {
    if says_forbidden(failure) {
        Err(
            StorageFault::S3PutFailed {
                path: key,
                reason: "forbidden (credentials issue): "@ + failure,
            },
        )
    } else if attempt < MAX_RETRIES {
        Ok(backoff(attempt + 1))
    } else {
        Err(StorageFault::RetriesExhausted { path: key })
    }
}

/// What a failed GET leads to: the next wait, or the error.
pub open spec fn after_get(key: Seq<char>, attempt: u32, failure: Seq<char>) -> Result<
    int,
    StorageFault,
> {
    if says_missing(failure) {
        Err(StorageFault::S3GetFailed { path: key, reason: "not found"@ })
    } else if says_forbidden(failure) {
        Err(StorageFault::S3GetFailed { path: key, reason: "forbidden: "@ + failure })
    } else if attempt < MAX_RETRIES {
        Ok(backoff(attempt + 1))
    } else {
        Err(StorageFault::RetriesExhausted { path: key })
    }
}

/// What a decision says.
pub open spec fn decision(r: Result<u64, StorageError>) -> Result<int, StorageFault> {
    match r {
        Ok(ms) => Ok(ms as int),
        Err(e) => Err(e@),
    }
}

fn forbidden(failure: &str) -> (r: bool)
    ensures
        r == says_forbidden(failure@),
{
    text::contains(failure, "403") || text::contains(failure, "Forbidden")
}

fn retry(key: &str, attempt: u32) -> (r: Result<u64, StorageError>)
    requires
        attempt <= MAX_RETRIES,
    ensures
        decision(r) == if attempt < MAX_RETRIES {
            Ok(backoff(attempt + 1))
        } else {
            Err(StorageFault::RetriesExhausted { path: key@ })
        },
{
    if attempt < MAX_RETRIES {
        proof {
            reveal_with_fuel(backoff, 4);
        }
        Ok(
            if attempt == 0 {
                INITIAL_BACKOFF_MS
            } else if attempt == 1 {
                INITIAL_BACKOFF_MS * 2
            } else {
                INITIAL_BACKOFF_MS * 4
            },
        )
    } else {
        Err(StorageError::RetriesExhausted { path: text::owned(key) })
    }
}

/// A PUT failed at a try, counted from 0. Returns the milliseconds to wait before the next try,
/// or the error that ends the request: at once where access is forbidden, else after the last
/// try.
pub fn on_put_failure(key: &str, attempt: u32, failure: &str) -> (r: Result<u64, StorageError>)
    requires
        attempt <= MAX_RETRIES,
    ensures
        decision(r) == after_put(key@, attempt, failure@),
{
    if forbidden(failure) {
        return Err(
            StorageError::S3PutFailed {
                path: text::owned(key),
                reason: joined("forbidden (credentials issue): ", failure),
            },
        );
    }
    retry(key, attempt)
}

/// A GET failed at a try, counted from 0. Returns the milliseconds to wait before the next try,
/// or the error that ends the request: at once where there is no such object or access is
/// forbidden, else after the last try.
pub fn on_get_failure(key: &str, attempt: u32, failure: &str) -> (r: Result<u64, StorageError>)
    requires
        attempt <= MAX_RETRIES,
    ensures
        decision(r) == after_get(key@, attempt, failure@),
{
    if text::contains(failure, "NoSuchKey") || text::contains(failure, "404") {
        return Err(
            StorageError::S3GetFailed { path: text::owned(key), reason: text::owned("not found") },
        );
    }
    if forbidden(failure) {
        return Err(
            StorageError::S3GetFailed {
                path: text::owned(key),
                reason: joined("forbidden: ", failure),
            },
        );
    }
    retry(key, attempt)
}

/// The error of a read that is not tried again.
pub fn get_failed(path: &str, failure: &str) -> (r: StorageError)
    ensures
        r@ == (StorageFault::S3GetFailed { path: path@, reason: failure@ }),
{
    StorageError::S3GetFailed { path: text::owned(path), reason: text::owned(failure) }
}

/// The error of a deletion.
pub fn delete_failed(path: &str, failure: &str) -> (r: StorageError)
    ensures
        r@ == (StorageFault::S3DeleteFailed { path: path@, reason: failure@ }),
{
    StorageError::S3DeleteFailed { path: text::owned(path), reason: text::owned(failure) }
}

// ---------------------------------------------------------------------------
// Replies
// ---------------------------------------------------------------------------

/// The value of a `Range` header, with both ends in the range.
pub open spec fn range_text(start: u64, end: u64) -> Seq<char> {
    "bytes="@ + decimal(start as nat) + "-"@ + decimal(end as nat)
}

/// The value of a `Range` header, with both ends in the range.
pub fn range_header(start: u64, end: u64) -> (r: String)
    ensures
        r@ == range_text(start, end),
{
    let mut s = text::owned("bytes=");
    text::push_decimal(&mut s, start);
    s.append("-");
    text::push_decimal(&mut s, end);
    s
}

/// A time of last change; `now` where the reply has none that the calendar
/// covers.
pub open spec fn modified_at(stamp: Option<(i64, u32)>, now: i128) -> int {
    match stamp {
        Some(t) => if is_timestamp(t.0, t.1) {
            t.0 * 1_000_000_000 + t.1
        } else {
            now as int
        },
        None => now as int,
    }
}

fn modified(stamp: Option<(i64, u32)>, now: i128) -> (r: i128)
    ensures
        r == modified_at(stamp, now),
{
    match stamp {
        Some((secs, nanos)) => match clock::point_in_time(secs, nanos) {
            Some(t) => t,
            None => now,
        },
        None => now,
    }
}

/// A size as a reply gives it: 0 where it gives none.
fn size_of(size: Option<i64>) -> (r: u64)
    ensures
        r == size.unwrap_or(0) as u64,
{
    size.unwrap_or(0) as u64
}

/// `r` is the object of a reply at `now`.
pub open spec fn output_of(
    r: GetObjectOutput,
    body: Bytes,
    content_length: Option<i64>,
    content_type: Option<String>,
    etag: Option<String>,
    stamp: Option<(i64, u32)>,
    now: i128,
) -> bool {
    &&& bytes_seq(r.body) == bytes_seq(body)
    &&& r.content_length == content_length.unwrap_or(0) as u64
    &&& r.content_type@ == match content_type {
        Some(t) => t@,
        None => "application/octet-stream"@,
    }
    &&& r.etag@ == match etag {
        Some(t) => t@,
        None => Seq::<char>::empty(),
    }
    &&& r.last_modified == modified_at(stamp, now)
}

/// The object of a reply: what the reply leaves out has its default.
pub fn read_output(
    body: Bytes,
    content_length: Option<i64>,
    content_type: Option<String>,
    etag: Option<String>,
    stamp: Option<(i64, u32)>,
) -> (r: GetObjectOutput)
    ensures
        exists|now: i128| #[trigger]
            output_of(r, body, content_length, content_type, etag, stamp, now) && in_calendar(now),
{
    let now = clock::now();
    let r = read_output_at(body, content_length, content_type, etag, stamp, now);
    assert(output_of(r, body, content_length, content_type, etag, stamp, now));
    r
}

/// The object of a reply at `now`: what the reply leaves out has its default.
pub fn read_output_at(
    body: Bytes,
    content_length: Option<i64>,
    content_type: Option<String>,
    etag: Option<String>,
    stamp: Option<(i64, u32)>,
    now: i128,
) -> (r: GetObjectOutput)
    ensures
        output_of(r, body, content_length, content_type, etag, stamp, now),
{
    GetObjectOutput {
        body,
        content_length: size_of(content_length),
        content_type: match content_type {
            Some(t) => t,
            None => text::owned("application/octet-stream"),
        },
        last_modified: modified(stamp, now),
        etag: match etag {
            Some(t) => t,
            None => String::new(),
        },
    }
}

/// `r` is the entry of a listing at `now`.
pub open spec fn entry_of(
    r: ObjectInfo,
    key: Option<String>,
    size: Option<i64>,
    stamp: Option<(i64, u32)>,
    now: i128,
) -> bool {
    &&& r.key@ == match key {
        Some(k) => k@,
        None => Seq::<char>::empty(),
    }
    &&& r.size == size.unwrap_or(0) as u64
    &&& r.last_modified == modified_at(stamp, now)
}

/// The entry of a listing: what the reply leaves out has its default.
pub fn listed_object(key: Option<String>, size: Option<i64>, stamp: Option<(i64, u32)>) -> (r:
    ObjectInfo)
    ensures
        exists|now: i128| #[trigger] entry_of(r, key, size, stamp, now) && in_calendar(now),
{
    let now = clock::now();
    let r = listed_object_at(key, size, stamp, now);
    assert(entry_of(r, key, size, stamp, now));
    r
}

/// The entry of a listing at `now`: what the reply leaves out has its default.
pub fn listed_object_at(
    key: Option<String>,
    size: Option<i64>,
    stamp: Option<(i64, u32)>,
    now: i128,
) -> (r: ObjectInfo)
    ensures
        entry_of(r, key, size, stamp, now),
{
    ObjectInfo {
        key: match key {
            Some(k) => k,
            None => String::new(),
        },
        size: size_of(size),
        last_modified: modified(stamp, now),
    }
}

/// How a listing goes on.
#[derive(Debug)]
pub enum NextPage {
    /// With a further request, from the token on where there is one.
    More { token: Option<String> },
    /// Not at all.
    Done,
}

/// How a listing goes on after a reply: with the next page if and only if it says that there is
/// one.
pub fn next_page(is_truncated: Option<bool>, token: Option<String>) -> (r: NextPage)
    ensures
        r == if is_truncated == Some(true) {
            NextPage::More { token }
        } else {
            NextPage::Done
        },
{
    match is_truncated {
        Some(true) => NextPage::More { token },
        _ => NextPage::Done,
    }
}

// ---------------------------------------------------------------------------
// Laws
// ---------------------------------------------------------------------------

/// A forbidden request is never tried again.
pub proof fn forbidden_is_never_retried(key: Seq<char>, attempt: u32, failure: Seq<char>)
    requires
        says_forbidden(failure),
    ensures
        after_put(key, attempt, failure) is Err,
        after_get(key, attempt, failure) is Err,
{
}

/// A request is tried again three times, after 100, 200 and 400 milliseconds, where its failures
/// say neither that access is forbidden nor that there is no such object.
pub proof fn three_retries_follow_a_failure(key: Seq<char>, failure: Seq<char>)
    requires
        !says_forbidden(failure),
    ensures
        after_put(key, 0, failure) == Ok::<int, StorageFault>(100),
        after_put(key, 1, failure) == Ok::<int, StorageFault>(200),
        after_put(key, 2, failure) == Ok::<int, StorageFault>(400),
        after_put(key, 3, failure) == Err::<int, _>(StorageFault::RetriesExhausted { path: key }),
        !says_missing(failure) ==> {
            &&& after_get(key, 0, failure) == Ok::<int, StorageFault>(100)
            &&& after_get(key, 1, failure) == Ok::<int, StorageFault>(200)
            &&& after_get(key, 2, failure) == Ok::<int, StorageFault>(400)
            &&& after_get(key, 3, failure) == Err::<int, _>(
                StorageFault::RetriesExhausted { path: key },
            )
        },
{
    reveal_with_fuel(backoff, 4);
}

/// The last try is followed by no other.
pub proof fn tries_come_to_an_end(key: Seq<char>, attempt: u32, failure: Seq<char>)
    requires
        attempt >= MAX_RETRIES,
    ensures
        after_put(key, attempt, failure) is Err,
        after_get(key, attempt, failure) is Err,
{
}

} // verus!
