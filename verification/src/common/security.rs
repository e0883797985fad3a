//! Limits on what clients send.

use vstd::prelude::*;
use vstd::string::*;

use crate::text;
use crate::text::decimal;

verus! {

/// Largest RTMP chunk size in bytes.
pub const MAX_RTMP_CHUNK_SIZE: usize = 65536;

/// Longest AMF string in bytes.
pub const MAX_AMF_STRING_LENGTH: usize = 4096;

/// Largest FLV tag in bytes.
pub const MAX_FLV_TAG_SIZE: usize = 16777216;

/// Largest video width.
pub const MAX_RESOLUTION_WIDTH: u32 = 3840;

/// Largest video height.
pub const MAX_RESOLUTION_HEIGHT: u32 = 2160;

/// Smallest video width and height.
pub const MIN_RESOLUTION: u32 = 1;

/// Longest metadata key in characters.
pub const MAX_METADATA_KEY_LENGTH: usize = 64;

/// Longest metadata value in characters.
pub const MAX_METADATA_VALUE_LENGTH: usize = 1024;

/// Most metadata entries of a stream.
pub const MAX_METADATA_ENTRIES: usize = 50;

/// Largest page of a listing.
pub const MAX_LIST_LIMIT: usize = 100;

/// Page size of a listing that names none.
pub const DEFAULT_LIST_LIMIT: usize = 10;

/// Failed logins from one address before it is blocked.
pub const BRUTE_FORCE_MAX_ATTEMPTS: u32 = 5;

/// Seconds in which failed logins are counted together.
pub const BRUTE_FORCE_WINDOW_SECS: u64 = 60;

/// Seconds for which an address stays blocked.
pub const BRUTE_FORCE_BLOCK_SECS: u64 = 300;

/// Bytes that a media probe reads at most.
pub const FFMPEG_PROBE_MAX_SIZE: usize = 10485760;

/// Seconds of media that a probe analyses at most.
pub const FFMPEG_PROBE_MAX_DURATION_SECS: u64 = 10;

/// Seconds that a probe takes at most.
pub const FFMPEG_PROBE_TIMEOUT_SECS: u64 = 30;

/// What every stream key starts with.
pub const STREAM_KEY_PREFIX: &'static str = "sk_";

/// Characters of the random part of a stream key.
pub const STREAM_KEY_RANDOM_LENGTH: usize = 24;

/// The text for a resolution that breaks a limit.
pub open spec fn resolution_text(
    width: u32,
    height: u32,
    problem: Seq<char>,
    limit_width: u32,
    limit_height: u32,
) -> Seq<char> {
    "resolution "@ + decimal(width as nat) + "x"@ + decimal(height as nat) + problem + decimal(
        limit_width as nat,
    ) + "x"@ + decimal(limit_height as nat) + ")"@
}

/// Both sides are at least 1.
pub open spec fn large_enough(width: u32, height: u32) -> bool {
    width >= MIN_RESOLUTION && height >= MIN_RESOLUTION
}

/// The picture is at most 3840 wide and 2160 high.
pub open spec fn small_enough(width: u32, height: u32) -> bool {
    width <= MAX_RESOLUTION_WIDTH && height <= MAX_RESOLUTION_HEIGHT
}

fn resolution_problem(
    width: u32,
    height: u32,
    problem: &str,
    limit_width: u32,
    limit_height: u32,
) -> (r: String)
    ensures
        r@ == resolution_text(width, height, problem@, limit_width, limit_height),
{
    let mut s = text::owned("resolution ");
    text::push_decimal(&mut s, width as u64);
    s.append("x");
    text::push_decimal(&mut s, height as u64);
    s.append(problem);
    text::push_decimal(&mut s, limit_width as u64);
    s.append("x");
    text::push_decimal(&mut s, limit_height as u64);
    s.append(")");
    s
}

/// Checks that a resolution is within the limits.
pub fn validate_resolution(width: u32, height: u32) -> (r: Result<(), String>)
    ensures
        r is Ok <==> large_enough(width, height) && small_enough(width, height),
        r matches Err(e) ==> e@ == if !large_enough(width, height) {
            resolution_text(width, height, " is below minimum ("@, MIN_RESOLUTION, MIN_RESOLUTION)
        } else {
            resolution_text(
                width,
                height,
                " exceeds maximum ("@,
                MAX_RESOLUTION_WIDTH,
                MAX_RESOLUTION_HEIGHT,
            )
        },
{
    if width < MIN_RESOLUTION || height < MIN_RESOLUTION {
        return Err(
            resolution_problem(
                width,
                height,
                " is below minimum (",
                MIN_RESOLUTION,
                MIN_RESOLUTION,
            ),
        );
    }
    if width > MAX_RESOLUTION_WIDTH || height > MAX_RESOLUTION_HEIGHT {
        return Err(
            resolution_problem(
                width,
                height,
                " exceeds maximum (",
                MAX_RESOLUTION_WIDTH,
                MAX_RESOLUTION_HEIGHT,
            ),
        );
    }
    Ok(())
}

/// Key and value are short enough.
pub open spec fn entry_fits(e: (String, String)) -> bool {
    e.0@.len() <= MAX_METADATA_KEY_LENGTH && e.1@.len() <= MAX_METADATA_VALUE_LENGTH
}

/// The text for an entry that is too long.
pub open spec fn entry_text(e: (String, String)) -> Seq<char> {
    if e.0@.len() > MAX_METADATA_KEY_LENGTH {
        "metadata key '"@ + e.0@.subrange(0, 32) + "...' exceeds max length "@ + decimal(
            MAX_METADATA_KEY_LENGTH as nat,
        ) + " chars"@
    } else {
        "metadata value for key '"@ + e.0@ + "' exceeds max length "@ + decimal(
            MAX_METADATA_VALUE_LENGTH as nat,
        ) + " chars"@
    }
}

/// The text for too many entries.
pub open spec fn entries_text(n: nat) -> Seq<char> {
    "too many metadata entries: "@ + decimal(n) + " (max "@ + decimal(MAX_METADATA_ENTRIES as nat)
        + ")"@
}

fn check_entry(e: &(String, String)) -> (r: Result<(), String>)
    ensures
        r is Ok <==> entry_fits(*e),
        r matches Err(m) ==> m@ == entry_text(*e),
{
    let key = text::to_chars(&e.0);
    if key.len() > MAX_METADATA_KEY_LENGTH {
        let mut s = text::owned("metadata key '");
        let shown = text::from_chars(&key, 0, 32);
        s.append(&shown);
        s.append("...' exceeds max length ");
        text::push_decimal(&mut s, MAX_METADATA_KEY_LENGTH as u64);
        s.append(" chars");
        return Err(s);
    }
    let value = text::to_chars(&e.1);
    if value.len() > MAX_METADATA_VALUE_LENGTH {
        let mut s = text::owned("metadata value for key '");
        s.append(&e.0);
        s.append("' exceeds max length ");
        text::push_decimal(&mut s, MAX_METADATA_VALUE_LENGTH as u64);
        s.append(" chars");
        return Err(s);
    }
    Ok(())
}

/// The metadata of a stream keeps all limits.
pub open spec fn metadata_fits(metadata: Seq<(String, String)>) -> bool {
    metadata.len() <= MAX_METADATA_ENTRIES && forall|i: int|
        0 <= i < metadata.len() ==> entry_fits(#[trigger] metadata[i])
}

/// `e` tells that there are too many entries, or else of the first entry that breaks a limit.
pub open spec fn metadata_failure(metadata: Seq<(String, String)>, e: Seq<char>) -> bool {
    if metadata.len() > MAX_METADATA_ENTRIES {
        e == entries_text(metadata.len())
    } else {
        exists|i: int|
            0 <= i < metadata.len() && !entry_fits(#[trigger] metadata[i]) && e == entry_text(
                metadata[i],
            ) && forall|j: int| 0 <= j < i ==> entry_fits(#[trigger] metadata[j])
    }
}

/// Checks the metadata of a stream: at most 50 entries, keys of at most 64 and values of at most
/// 1024 characters. The error tells of the first entry that breaks a limit.
pub fn validate_metadata(metadata: &Vec<(String, String)>) -> (r: Result<(), String>)
    ensures
        r is Ok <==> metadata_fits(metadata@),
        r matches Err(e) ==> metadata_failure(metadata@, e@),
{
    if metadata.len() > MAX_METADATA_ENTRIES {
        let mut s = text::owned("too many metadata entries: ");
        text::push_decimal(&mut s, metadata.len() as u64);
        s.append(" (max ");
        text::push_decimal(&mut s, MAX_METADATA_ENTRIES as u64);
        s.append(")");
        return Err(s);
    }
    let mut i: usize = 0;
    while i < metadata.len()
        invariant
            i <= metadata@.len() <= MAX_METADATA_ENTRIES,
            forall|j: int| 0 <= j < i ==> entry_fits(#[trigger] metadata@[j]),
        decreases metadata@.len() - i,
    {
        match check_entry(&metadata[i]) {
            Ok(()) => {},
            Err(e) => {
                assert(!entry_fits(metadata@[i as int]));
                return Err(e);
            },
        }
        i = i + 1;
    }
    Ok(())
}

/// Metadata may have 50 entries, keys of 64 and values of 1024 characters, and no more.
pub proof fn metadata_keeps_its_limits(m: Seq<(String, String)>, e: (String, String))
    requires
        metadata_fits(m),
    ensures
        m.len() <= 50,
        forall|i: int|
            0 <= i < m.len() ==> (#[trigger] m[i]).0@.len() <= 64 && m[i].1@.len() <= 1024,
        metadata_fits(m.push(e)) <==> m.len() < 50 && e.0@.len() <= 64 && e.1@.len() <= 1024,
{
    let all = m.push(e);
    if m.len() < 50 && e.0@.len() <= 64 && e.1@.len() <= 1024 {
        assert forall|i: int| 0 <= i < all.len() implies entry_fits(#[trigger] all[i]) by {
            if i < m.len() {
                assert(entry_fits(m[i]));
            }
        }
    }
    if metadata_fits(all) {
        assert(entry_fits(all[m.len() as int]));
    }
}

} // verus!
