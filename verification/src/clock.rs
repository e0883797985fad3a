//! Calendar time, through the `chrono` crate. A point in time is a number of nanoseconds since the
//! Unix epoch.

use chrono::{DateTime, Utc};
use vstd::prelude::*;

verus! {

/// The points in time that the calendar of `chrono` covers.
pub open spec fn in_calendar(t: i128) -> bool {
    -8_334_601_228_800_000_000_000 <= t <= 8_210_266_876_799_999_999_999
}

/// `chrono` has a point in time for these seconds and nanoseconds: the seconds lie in its
/// calendar, and the nanoseconds are below one second, or below two at the last second of a
/// minute.
pub open spec fn is_timestamp(secs: i64, nanos: u32) -> bool {
    &&& -8_334_601_228_800 <= secs <= 8_210_266_876_799
    &&& nanos < 1_000_000_000 || (nanos < 2_000_000_000 && secs % 60 == 59)
}

/// The whole seconds of a point in time.
pub open spec fn secs_of(t: i128) -> i64 {
    (t as int / 1_000_000_000) as i64
}

/// The nanoseconds of a point in time since its last whole second.
pub open spec fn nanos_of(t: i128) -> u32 {
    (t as int % 1_000_000_000) as u32
}

/// The whole seconds of a point in time, and the nanoseconds since.
fn parts(t: i128) -> (r: (i64, u32))
    requires
        in_calendar(t),
    ensures
        r == (secs_of(t), nanos_of(t)),
        is_timestamp(r.0, r.1),
{
    let first: i128 = 8_334_601_228_800_000_000_000;
    let since: u128 = (t + first) as u128;
    let secs: u128 = since / 1_000_000_000;
    let nanos: u128 = since % 1_000_000_000;
    proof {
        assert(t as int / 1_000_000_000 == secs - 8_334_601_228_800);
        assert(t as int % 1_000_000_000 == nanos);
    }
    ((secs as i128 - 8_334_601_228_800) as i64, nanos as u32)
}

// ---------------------------------------------------------------------------
// The current time
// ---------------------------------------------------------------------------

/// `chrono::Utc::now`, in seconds and nanoseconds: the current time, which lies in the calendar.
/// Two calls may differ in any way.
#[verifier::external_body]
fn utc_now() -> (r: (i64, u32))
    ensures
        is_timestamp(r.0, r.1),
        r.1 < 1_000_000_000,
{
    let t = Utc::now();
    (t.timestamp(), t.timestamp_subsec_nanos())
}

/// The current time.
pub(crate) fn now() -> (r: i128)
    ensures
        in_calendar(r),
{
    let (secs, nanos) = utc_now();
    secs as i128 * 1_000_000_000 + nanos as i128
}

/// Whether more than `span` nanoseconds lie between `t` and `now`.
pub(crate) fn is_longer_ago(t: i128, now: i128, span: i128) -> (r: bool)
    requires
        span >= 0,
    ensures
        r == (now - t > span),
{
    t <= i128::MAX - span && now > t + span
}

// ---------------------------------------------------------------------------
// Texts
// ---------------------------------------------------------------------------

/// A point in time as `chrono` writes it with the format `%Y-%m-%dT%H:%M:%S%.3fZ`.
pub uninterp spec fn utc_written(secs: i64, nanos: u32) -> Seq<char>;

/// A point in time with the format `%Y-%m-%dT%H:%M:%S%.3fZ`.
pub open spec fn utc_text(t: i128) -> Seq<char> {
    utc_written(secs_of(t), nanos_of(t))
}

/// `chrono::DateTime::format` with `%Y-%m-%dT%H:%M:%S%.3fZ`: depends on the point in time alone,
/// and holds digits, `T`, `Z`, signs, colons and points only, so it is one line.
#[verifier::external_body]
fn write_utc(secs: i64, nanos: u32) -> (r: String)
    requires
        is_timestamp(secs, nanos),
    ensures
        r@ == utc_written(secs, nanos),
        forall|i: int| 0 <= i < r@.len() ==> r@[i] != '\n',
{
    let t: DateTime<Utc> = DateTime::from_timestamp(secs, nanos).expect("time in the calendar");
    t.format("%Y-%m-%dT%H:%M:%S%.3fZ").to_string()
}

/// Writes a point in time with the format `%Y-%m-%dT%H:%M:%S%.3fZ`, on one line.
pub(crate) fn format_utc(t: i128) -> (r: String)
    requires
        in_calendar(t),
    ensures
        r@ == utc_text(t),
        forall|i: int| 0 <= i < r@.len() ==> r@[i] != '\n',
{
    let (secs, nanos) = parts(t);
    write_utc(secs, nanos)
}

/// A point in time as `chrono` writes it in the form of RFC 3339.
pub uninterp spec fn rfc3339_written(secs: i64, nanos: u32) -> Seq<char>;

/// A point in time in the form of RFC 3339.
pub open spec fn rfc3339_text(t: i128) -> Seq<char> {
    rfc3339_written(secs_of(t), nanos_of(t))
}

/// `chrono::DateTime::to_rfc3339`: depends on the point in time alone.
#[verifier::external_body]
fn write_rfc3339(secs: i64, nanos: u32) -> (r: String)
    requires
        is_timestamp(secs, nanos),
    ensures
        r@ == rfc3339_written(secs, nanos),
{
    let t: DateTime<Utc> = DateTime::from_timestamp(secs, nanos).expect("time in the calendar");
    t.to_rfc3339()
}

/// Writes a point in time in the form of RFC 3339.
pub(crate) fn format_rfc3339(t: i128) -> (r: String)
    requires
        in_calendar(t),
    ensures
        r@ == rfc3339_text(t),
{
    let (secs, nanos) = parts(t);
    write_rfc3339(secs, nanos)
}

// ---------------------------------------------------------------------------
// Timestamps of others
// ---------------------------------------------------------------------------

/// `chrono::DateTime::from_timestamp`, with the seconds and nanoseconds of the point in time.
#[verifier::external_body]
fn from_timestamp(secs: i64, nanos: u32) -> (r: Option<(i64, u32)>)
    ensures
        r == if is_timestamp(secs, nanos) {
            Some((secs, nanos))
        } else {
            None
        },
{
    DateTime::from_timestamp(secs, nanos).map(|t| (t.timestamp(), t.timestamp_subsec_nanos()))
}

/// The point in time of seconds and nanoseconds, where the calendar has one.
pub(crate) fn point_in_time(secs: i64, nanos: u32) -> (r: Option<i128>)
    ensures
        r is Some <==> is_timestamp(secs, nanos),
        r matches Some(t) ==> t == secs * 1_000_000_000 + nanos,
{
    match from_timestamp(secs, nanos) {
        Some((secs, nanos)) => Some(secs as i128 * 1_000_000_000 + nanos as i128),
        None => None,
    }
}

/// A point in time is its whole seconds and the nanoseconds since.
pub proof fn times_are_their_parts(t: i128)
    requires
        in_calendar(t),
    ensures
        t == secs_of(t) * 1_000_000_000 + nanos_of(t),
        nanos_of(t) < 1_000_000_000,
{
}

} // verus!
