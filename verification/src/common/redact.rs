//! Keeping secrets out of logs.

use vstd::prelude::*;
use vstd::string::*;
use vstd::utf8::*;

use crate::text;
use crate::text::{ascii_lower, begins_with, has_part, lowered};

verus! {

/// A value that is never shown: its text is `[REDACTED]`, whatever it holds.
pub struct Redacted<T>(T);

impl<T> Redacted<T> {
    /// The hidden value.
    pub closed spec fn hidden(self) -> T {
        self.0
    }

    /// Hides a value.
    pub fn new(value: T) -> (r: Self)
        ensures
            r.hidden() == value,
    {
        Redacted(value)
    }

    /// The text to show in place of the value.
    pub fn to_string(&self) -> (r: String)
        ensures
            r@ == "[REDACTED]"@,
    {
        text::owned("[REDACTED]")
    }

    /// The text to show in place of the value in debug output.
    pub fn to_debug_string(&self) -> (r: String)
        ensures
            r@ == "[REDACTED]"@,
    {
        text::owned("[REDACTED]")
    }
}

/// A stream key as logs show it: `****` if it has at most four bytes, else its first six bytes
/// (or all of it, if it is shorter) and `***`.
pub open spec fn redacted_key(key: Seq<char>) -> Seq<char> {
    let bytes = encode_utf8(key);
    if bytes.len() <= 4 {
        "****"@
    } else {
        decode_utf8(
            bytes.subrange(
                0,
                if bytes.len() < 6 {
                    bytes.len() as int
                } else {
                    6
                },
            ),
        ) + "***"@
    }
}

/// The first six bytes of the key are whole characters.
pub open spec fn key_sliceable(key: Seq<char>) -> bool {
    let bytes = encode_utf8(key);
    bytes.len() >= 6 ==> is_char_boundary(bytes, 6)
}

/// A stream key for logs: only its beginning is shown.
pub fn redact_stream_key(key: &str) -> (r: String)
    requires
        key_sliceable(key@),
    ensures
        r@ == redacted_key(key@),
{
    broadcast use group_utf8_lib;

    let len = key.as_bytes().len();
    if len <= 4 {
        return text::owned("****");
    }
    let cut: usize = if len < 6 {
        len
    } else {
        6
    };
    proof {
        is_char_boundary_start_end_of_seq(key.spec_bytes());
    }
    let (visible, _rest) = key.split_at(cut);
    let mut s = text::owned(visible);
    s.append("***");
    s
}

/// The value of an `Authorization` header as logs show it.
pub open spec fn redacted_header(value: Seq<char>) -> Seq<char> {
    if begins_with(value, "Bearer "@) {
        "Bearer [REDACTED]"@
    } else {
        "[REDACTED]"@
    }
}

/// The value of an `Authorization` header for logs: at most its scheme is shown.
pub fn redact_bearer_token(header_value: &str) -> (r: String)
    ensures
        r@ == redacted_header(header_value@),
{
    if text::starts_with(header_value, "Bearer ") {
        text::owned("Bearer [REDACTED]")
    } else {
        text::owned("[REDACTED]")
    }
}

/// A field name in lower case that tells of a secret.
pub open spec fn names_secret(lower: Seq<char>) -> bool {
    has_part(lower, "token"@) || has_part(lower, "key"@) || has_part(lower, "secret"@) || has_part(
        lower,
        "password"@,
    ) || has_part(lower, "authorization"@)
}

/// Whether a field must be redacted, by its name in any letter case.
pub fn is_sensitive_field(field_name: &str) -> (r: bool)
    ensures
        r == names_secret(lowered(field_name@)),
        is_ascii_chars(field_name@) ==> r == names_secret(
            field_name@.map_values(|c: char| ascii_lower(c)),
        ),
{
    let lower = text::lowercase(field_name);
    is_sensitive_lowered(&lower)
}

/// Whether a field must be redacted, by its name in lower case.
pub fn is_sensitive_lowered(lower: &str) -> (r: bool)
    ensures
        r == names_secret(lower@),
{
    text::contains(lower, "token") || text::contains(lower, "key") || text::contains(
        lower,
        "secret",
    ) || text::contains(lower, "password") || text::contains(lower, "authorization")
}

/// A shown stream key never gives away more than six bytes of it.
pub proof fn redaction_hides_the_rest(key: Seq<char>)
    requires
        key_sliceable(key),
    ensures
        encode_utf8(key).len() > 4 ==> exists|shown: Seq<char>|
            redacted_key(key) == shown + "***"@ && (#[trigger] encode_utf8(shown)).len() <= 6
                && encode_utf8(shown).is_prefix_of(encode_utf8(key)),
{
    broadcast use group_utf8_lib;

    let bytes = encode_utf8(key);
    if bytes.len() > 4 {
        let cut = if bytes.len() < 6 {
            bytes.len() as int
        } else {
            6
        };
        encode_utf8_valid_utf8(key);
        is_char_boundary_start_end_of_seq(bytes);
        valid_utf8_split(bytes, cut);
        let part = bytes.subrange(0, cut);
        decode_utf8_encode_utf8(part);
        let shown = decode_utf8(part);
        assert(encode_utf8(shown) == part);
    }
}

/// A name that holds one of the words for secrets is taken as one, wherever in the name it stands.
pub proof fn secrets_are_told_by_their_name(a: Seq<char>, b: Seq<char>)
    ensures
        names_secret(a + "token"@ + b),
        names_secret(a + "key"@ + b),
        names_secret(a + "secret"@ + b),
        names_secret(a + "password"@ + b),
        names_secret(a + "authorization"@ + b),
{
    lemma_part(a, "token"@, b);
    lemma_part(a, "key"@, b);
    lemma_part(a, "secret"@, b);
    lemma_part(a, "password"@, b);
    lemma_part(a, "authorization"@, b);
}

proof fn lemma_part(a: Seq<char>, word: Seq<char>, b: Seq<char>)
    ensures
        has_part(a + word + b, word),
{
    let s = a + word + b;
    assert(s.subrange(a.len() as int, (a.len() + word.len()) as int) =~= word);
    assert(text::occurs_at(s, word, a.len() as int));
}

/// Nothing of a short key is shown, and nothing of a token.
pub proof fn short_secrets_are_not_shown(key: Seq<char>, other: Seq<char>, token: Seq<char>)
    ensures
        encode_utf8(key).len() <= 4 ==> redacted_key(key) == "****"@,
        encode_utf8(key).len() >= 6 && encode_utf8(other).len() >= 6 && encode_utf8(key).subrange(
            0,
            6,
        ) == encode_utf8(other).subrange(0, 6) ==> redacted_key(key) == redacted_key(other),
        redacted_header("Bearer "@ + token) == "Bearer [REDACTED]"@,
        redacted_header(token) == "Bearer [REDACTED]"@ || redacted_header(token) == "[REDACTED]"@,
{
    let s = "Bearer "@ + token;
    assert(s.subrange(0, "Bearer "@.len() as int) =~= "Bearer "@);
}

} // verus!
