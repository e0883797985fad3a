//! Finding sensitive fields in log events.

use vstd::prelude::*;
use vstd::string::*;
use vstd::utf8::is_ascii_chars;

use crate::common::redact::{is_sensitive_field, names_secret};
use crate::text;
use crate::text::{ascii_lower, lowered, views};

verus! {

/// What a log shows of a field: nothing of its value where its name tells of a secret, else the
/// value as it is.
pub open spec fn shown(field_name: Seq<char>, value: Seq<char>) -> Seq<char> {
    if names_secret(lowered(field_name)) {
        "[REDACTED]"@
    } else {
        value
    }
}

/// What a log shows of a field.
pub fn shown_value(field_name: &str, value: &str) -> (r: String)
    ensures
        r@ == shown(field_name@, value@),
        is_ascii_chars(field_name@) && names_secret(
            field_name@.map_values(|c: char| ascii_lower(c)),
        ) ==> r@ == "[REDACTED]"@,
        is_ascii_chars(field_name@) && !names_secret(
            field_name@.map_values(|c: char| ascii_lower(c)),
        ) ==> r@ == value@,
{
    if is_sensitive_field(field_name) {
        text::owned("[REDACTED]")
    } else {
        text::owned(value)
    }
}

/// A logging layer in front of another one, which gets to see of every field what is shown of it.
pub struct RedactingLayer<S> {
    pub inner: S,
}

impl<S> RedactingLayer<S> {
    /// A layer in front of `inner`.
    pub fn new(inner: S) -> (r: Self)
        ensures
            r.inner == inner,
    {
        RedactingLayer { inner }
    }
}

/// The names of the fields that are sensitive, in order.
pub open spec fn sensitive_names(fields: Seq<Seq<char>>) -> Seq<Seq<char>> {
    fields.filter(|f: Seq<char>| names_secret(lowered(f)))
}

/// Collects the sensitive fields of a log event.
#[derive(Debug)]
pub struct SensitiveFieldDetector {
    pub found_sensitive: bool,
    pub field_names: Vec<String>,
}

impl SensitiveFieldDetector {
    /// Something sensitive was found if and only if its name was noted.
    pub open spec fn wf(self) -> bool {
        self.found_sensitive == (self.field_names@.len() > 0)
    }

    /// Nothing found yet.
    pub fn new() -> (r: Self)
        ensures
            r.wf(),
            !r.found_sensitive,
            r.field_names@.len() == 0,
    {
        SensitiveFieldDetector { found_sensitive: false, field_names: Vec::new() }
    }

    /// Looks at one field. Only its name matters.
    pub fn record(&mut self, field_name: &str)
        requires
            old(self).wf(),
        ensures
            final(self).wf(),
            views(final(self).field_names@) == if names_secret(lowered(field_name@)) {
                views(old(self).field_names@).push(field_name@)
            } else {
                views(old(self).field_names@)
            },
    {
        if is_sensitive_field(field_name) {
            self.found_sensitive = true;
            self.field_names.push(text::owned(field_name));
            assert(views(self.field_names@) =~= views(old(self).field_names@).push(field_name@));
        }
    }
}

/// Looks at all fields of a log event, by their names.
pub fn check_event_for_sensitive_fields(fields: &Vec<String>) -> (r: SensitiveFieldDetector)
    ensures
        views(r.field_names@) == sensitive_names(views(fields@)),
        r.found_sensitive == (sensitive_names(views(fields@)).len() > 0),
{
    let mut detector = SensitiveFieldDetector::new();
    let mut i: usize = 0;
    proof {
        reveal(Seq::filter);
        assert(views(fields@).subrange(0, 0) =~= Seq::empty());
        assert(views(detector.field_names@) =~= sensitive_names(views(fields@).subrange(0, 0)));
    }
    while i < fields.len()
        invariant
            i <= fields@.len(),
            detector.wf(),
            views(detector.field_names@) == sensitive_names(views(fields@).subrange(0, i as int)),
        decreases fields@.len() - i,
    {
        detector.record(&fields[i]);
        proof {
            reveal(Seq::filter);
            assert(views(fields@).subrange(0, i + 1).drop_last() =~= views(fields@).subrange(
                0,
                i as int,
            ));
        }
        i = i + 1;
    }
    proof {
        assert(views(fields@).subrange(0, i as int) =~= views(fields@));
        assert(views(detector.field_names@).len() == detector.field_names@.len());
    }
    detector
}

} // verus!
