//! Answers to requests for stored objects: ranges, headers, error answers and their measurements.

use bytes::Bytes;
use vstd::prelude::*;
use vstd::string::*;

use crate::buffer::{bytes_len, bytes_seq, bytes_subrange};
use crate::common::config::DeliveryConfig;
use crate::observability::metrics as obs;
use crate::observability::metrics::{
    all_measured, measured, measured1, measured2, Measurement, MetricChange, MetricUpdate,
};
use crate::text;
use crate::text::{
    decimal, decimals_read_back, finishes_with, pieces, stripped, trimmed, unsigned_value, views,
};

verus! {

/// An error answer. Its body is an object with these fields.
#[derive(Debug)]
pub struct ErrorReply {
    pub status: u16,
    pub error: String,
    pub message: String,
}

/// What an error answer says.
#[verifier::ext_equal]
pub struct ErrorModel {
    pub status: u16,
    pub error: Seq<char>,
    pub message: Seq<char>,
}

impl View for ErrorReply {
    type V = ErrorModel;

    open spec fn view(&self) -> ErrorModel {
        ErrorModel { status: self.status, error: self.error@, message: self.message@ }
    }
}

/// An answer that carries an object, or a part of one.
#[derive(Debug)]
pub struct ObjectReply {
    pub status: u16,
    /// Names and values, in order.
    pub headers: Vec<(&'static str, String)>,
    pub body: Bytes,
}

/// What an answer with an object says.
#[verifier::ext_equal]
pub struct ObjectAnswer {
    pub status: u16,
    pub headers: Seq<(Seq<char>, Seq<char>)>,
    pub body: Seq<u8>,
}

impl View for ObjectReply {
    type V = ObjectAnswer;

    open spec fn view(&self) -> ObjectAnswer {
        ObjectAnswer {
            status: self.status,
            headers: self.headers@.map_values(|h: (&'static str, String)| (h.0@, h.1@)),
            body: bytes_seq(self.body),
        }
    }
}

/// The answer to a request for an object.
#[derive(Debug)]
pub enum Reply {
    Error(ErrorReply),
    Object(ObjectReply),
}

/// What an answer says.
#[verifier::ext_equal]
pub enum Answer {
    Error(ErrorModel),
    Object(ObjectAnswer),
}

impl View for Reply {
    type V = Answer;

    open spec fn view(&self) -> Answer {
        match *self {
            Reply::Error(e) => Answer::Error(e@),
            Reply::Object(o) => Answer::Object(o@),
        }
    }
}

/// An error answer.
pub fn error_json(status: u16, error: &str, message: &str) -> (r: ErrorReply)
    ensures
        r@ == (ErrorModel { status, error: error@, message: message@ }),
{
    ErrorReply { status, error: text::owned(error), message: text::owned(message) }
}

/// The error answer for a text between two others.
pub(crate) fn error_quoting(status: u16, error: &str, before: &str, quoted: &str, after: &str) -> (r:
    ErrorReply)
    ensures
        r@ == (ErrorModel { status, error: error@, message: before@ + quoted@ + after@ }),
{
    let mut message = text::owned(before);
    message.append(quoted);
    message.append(after);
    ErrorReply { status, error: text::owned(error), message }
}

// ---------------------------------------------------------------------------
// Range header
// ---------------------------------------------------------------------------

/// The first and the last byte that a `Range` header asks for; the greatest number stands for an
/// open end. Only one range with a start is understood.
pub open spec fn range_asked(value: Seq<char>) -> Option<(nat, nat)> {
    match stripped(trimmed(value), "bytes="@) {
        Some(rest) => {
            let p = pieces(rest, '-');
            if p.len() != 2 || p[0].len() == 0 {
                None
            } else {
                match unsigned_value(p[0], u64::MAX as nat) {
                    Some(start) => {
                        let end = if p[1].len() == 0 {
                            Some(u64::MAX as nat)
                        } else {
                            unsigned_value(p[1], u64::MAX as nat)
                        };
                        match end {
                            Some(end) => if end != u64::MAX && start > end {
                                None
                            } else {
                                Some((start, end))
                            },
                            None => None,
                        }
                    },
                    None => None,
                }
            }
        },
        None => None,
    }
}

/// A range in mathematical numbers.
pub open spec fn range_view(r: Option<(u64, u64)>) -> Option<(nat, nat)> {
    match r {
        Some((a, b)) => Some((a as nat, b as nat)),
        None => None,
    }
}

/// Reads a `Range` header such as `bytes=0-1048575`.
pub fn parse_range_header(value: &str) -> (r: Option<(u64, u64)>)
    ensures
        range_view(r) == range_asked(value@),
{
    let trimmed = text::trim(value);
    let rest = match text::strip_prefix(&trimmed, "bytes=") {
        Some(s) => s,
        None => {
            return None;
        },
    };
    let parts = text::split(&rest, '-');
    assert(views(parts@).len() == parts@.len());
    if parts.len() != 2 {
        return None;
    }
    assert(views(parts@)[0] == parts@[0]@);
    assert(views(parts@)[1] == parts@[1]@);
    let first = text::to_chars(&parts[0]);
    if first.len() == 0 {
        return None;
    }
    let start: u64 = match text::parse_unsigned(&first, 0xffff_ffff_ffff_ffff) {
        Some(n) => n,
        None => {
            return None;
        },
    };
    let last = text::to_chars(&parts[1]);
    let end: u64 = if last.len() == 0 {
        0xffff_ffff_ffff_ffff
    } else {
        match text::parse_unsigned(&last, 0xffff_ffff_ffff_ffff) {
            Some(n) => n,
            None => {
                return None;
            },
        }
    };
    if end != 0xffff_ffff_ffff_ffff && start > end {
        return None;
    }
    Some((start, end))
}

// ---------------------------------------------------------------------------
// Answers
// ---------------------------------------------------------------------------

/// The caching that clients are told.
pub open spec fn cache_control(path: Seq<char>, is_live: bool, config: DeliveryConfig) -> Seq<
    char,
> {
    if is_live && finishes_with(path, ".m3u8"@) {
        config.cache_control_live@
    } else {
        config.cache_control_vod@
    }
}

/// The answer that carries a whole object.
pub open spec fn whole_answer(
    data: Seq<u8>,
    content_type: Seq<char>,
    etag: Seq<char>,
    path: Seq<char>,
    is_live: bool,
    config: DeliveryConfig,
) -> ObjectAnswer {
    ObjectAnswer {
        status: 200,
        headers: seq![
            ("content-type"@, content_type),
            ("content-length"@, decimal(data.len())),
            ("cache-control"@, cache_control(path, is_live, config)),
            ("etag"@, etag),
            ("accept-ranges"@, "bytes"@),
            ("x-streaminfa-stream-id"@, pieces(path, '/')[0]),
        ],
        body: data,
    }
}

/// The answer that carries the bytes from `start` to `end`, both of them included.
pub open spec fn part_answer(
    data: Seq<u8>,
    content_type: Seq<char>,
    etag: Seq<char>,
    path: Seq<char>,
    start: nat,
    end: nat,
    is_live: bool,
    config: DeliveryConfig,
) -> ObjectAnswer {
    let body = data.subrange(start as int, end + 1int);
    ObjectAnswer {
        status: 206,
        headers: seq![
            ("content-type"@, content_type),
            ("content-length"@, decimal(body.len())),
            (
                "content-range"@,
                "bytes "@ + decimal(start) + "-"@ + decimal(end) + "/"@ + decimal(data.len()),
            ),
            ("cache-control"@, cache_control(path, is_live, config)),
            ("etag"@, etag),
            ("accept-ranges"@, "bytes"@),
            ("x-streaminfa-stream-id"@, pieces(path, '/')[0]),
        ],
        body,
    }
}

/// The last byte of a range in an object of the given length.
pub open spec fn range_end(end: nat, len: nat) -> nat {
    if end < len {
        end
    } else {
        (len - 1) as nat
    }
}

/// The answer to a request for an object, or for a part of it.
pub open spec fn answer(
    data: Seq<u8>,
    content_type: Seq<char>,
    etag: Seq<char>,
    path: Seq<char>,
    range: Option<(nat, nat)>,
    is_live: bool,
    config: DeliveryConfig,
) -> Answer {
    match range {
        None => Answer::Object(whole_answer(data, content_type, etag, path, is_live, config)),
        Some((start, end)) => if data.len() == 0 {
            Answer::Error(
                ErrorModel {
                    status: 416,
                    error: "range_not_satisfiable"@,
                    message: "Cannot satisfy range request for empty object."@,
                },
            )
        } else {
            let last = range_end(end, data.len());
            if start > last {
                Answer::Error(
                    ErrorModel {
                        status: 416,
                        error: "range_not_satisfiable"@,
                        message: "Requested range bytes="@ + decimal(start) + "-"@ + decimal(last)
                            + " is outside object size "@ + decimal(data.len()) + "."@,
                    },
                )
            } else {
                Answer::Object(
                    part_answer(data, content_type, etag, path, start, last, is_live, config),
                )
            }
        },
    }
}

proof fn lemma_pieces(s: Seq<char>, sep: char)
    ensures
        pieces(s, sep).len() > 0,
    decreases s.len(),
{
    if s.len() > 0 {
        lemma_pieces(s.drop_last(), sep);
    }
}

fn header(headers: &mut Vec<(&'static str, String)>, name: &'static str, value: String)
    ensures
        final(headers)@.map_values(|h: (&'static str, String)| (h.0@, h.1@)) == old(
            headers,
        )@.map_values(|h: (&'static str, String)| (h.0@, h.1@)).push((name@, value@)),
{
    let ghost view = |h: (&'static str, String)| (h.0@, h.1@);
    headers.push((name, value));
    assert(headers@.map_values(view) =~= old(headers)@.map_values(view).push((name@, value@)));
}

/// Builds the answer to a request for an object, or for a part of it.
pub fn build_response(
    data: Bytes,
    content_type: &str,
    etag: &str,
    path: &str,
    range: Option<(u64, u64)>,
    is_live: bool,
    config: &DeliveryConfig,
) -> (r: Reply)
    ensures
        r@ == answer(
            bytes_seq(data),
            content_type@,
            etag@,
            path@,
            range_view(range),
            is_live,
            *config,
        ),
{
    let control = if is_live && text::ends_with(path, ".m3u8") {
        config.cache_control_live.clone()
    } else {
        config.cache_control_vod.clone()
    };
    proof {
        lemma_pieces(path@, '/');
    }
    let mut first = text::split(path, '/');
    assert(views(first@)[0] == first@[0]@);
    let stream_id = first.remove(0);
    let total: usize = bytes_len(&data);
    let mut headers: Vec<(&'static str, String)> = Vec::new();
    assert(headers@.map_values(|h: (&'static str, String)| (h.0@, h.1@)) =~= Seq::empty());
    header(&mut headers, "content-type", text::owned(content_type));
    match range {
        Some((start, end)) => {
            if total == 0 {
                return Reply::Error(
                    error_json(
                        416,
                        "range_not_satisfiable",
                        "Cannot satisfy range request for empty object.",
                    ),
                );
            }
            let last: u64 = if end < total as u64 {
                end
            } else {
                total as u64 - 1
            };
            if start > last {
                let mut message = text::owned("Requested range bytes=");
                text::push_decimal(&mut message, start);
                message.append("-");
                text::push_decimal(&mut message, last);
                message.append(" is outside object size ");
                text::push_decimal(&mut message, total as u64);
                message.append(".");
                return Reply::Error(
                    ErrorReply { status: 416, error: text::owned("range_not_satisfiable"), message },
                );
            }
            let body = bytes_subrange(&data, start as usize, last as usize + 1);
            header(&mut headers, "content-length", text::decimal_string(last - start + 1));
            let mut content_range = text::owned("bytes ");
            text::push_decimal(&mut content_range, start);
            content_range.append("-");
            text::push_decimal(&mut content_range, last);
            content_range.append("/");
            text::push_decimal(&mut content_range, total as u64);
            header(&mut headers, "content-range", content_range);
            header(&mut headers, "cache-control", control);
            header(&mut headers, "etag", text::owned(etag));
            header(&mut headers, "accept-ranges", text::owned("bytes"));
            header(&mut headers, "x-streaminfa-stream-id", stream_id);
            let r = ObjectReply { status: 206, headers, body };
            assert(r@ =~= part_answer(
                bytes_seq(data),
                content_type@,
                etag@,
                path@,
                start as nat,
                last as nat,
                is_live,
                *config,
            ));
            Reply::Object(r)
        },
        None => {
            header(&mut headers, "content-length", text::decimal_string(total as u64));
            header(&mut headers, "cache-control", control);
            header(&mut headers, "etag", text::owned(etag));
            header(&mut headers, "accept-ranges", text::owned("bytes"));
            header(&mut headers, "x-streaminfa-stream-id", stream_id);
            let r = ObjectReply { status: 200, headers, body: data };
            assert(r@ =~= whole_answer(
                bytes_seq(data),
                content_type@,
                etag@,
                path@,
                is_live,
                *config,
            ));
            Reply::Object(r)
        },
    }
}

// ---------------------------------------------------------------------------
// Measurements
// ---------------------------------------------------------------------------

/// The label of a status code in metrics.
pub open spec fn bucket_of(status: u16) -> Seq<char> {
    if 200 <= status <= 299 {
        "2xx"@
    } else if 300 <= status <= 399 {
        "3xx"@
    } else if 400 <= status <= 499 {
        "4xx"@
    } else {
        "5xx"@
    }
}

/// The label of a status code in metrics.
pub fn status_bucket(status: u16) -> (r: &'static str)
    ensures
        r@ == bucket_of(status),
{
    if status >= 200 && status <= 299 {
        "2xx"
    } else if status >= 300 && status <= 399 {
        "3xx"
    } else if status >= 400 && status <= 499 {
        "4xx"
    } else {
        "5xx"
    }
}

/// The status code of an answer.
pub open spec fn status_of(a: Answer) -> u16 {
    match a {
        Answer::Error(e) => e.status,
        Answer::Object(o) => o.status,
    }
}

/// The measurements of an answer: that it was given, how long it took, and the bytes of an object
/// that is not empty.
pub open spec fn delivery_measured(a: Answer, object_type: Seq<char>, nanos: u64) -> Seq<
    Measurement,
> {
    let given = seq![
        measured2(
            "streaminfa_delivery_requests_total"@,
            "status"@,
            bucket_of(status_of(a)),
            "object_type"@,
            object_type,
            MetricChange::CounterAdd(1),
        ),
        measured1(
            "streaminfa_delivery_request_duration_seconds"@,
            "object_type"@,
            object_type,
            MetricChange::HistogramNanos(nanos),
        ),
    ];
    match a {
        Answer::Object(o) => if o.body.len() > 0 {
            given.push(
                measured(
                    "streaminfa_delivery_bytes_sent_total"@,
                    MetricChange::CounterAdd(o.body.len() as u64),
                ),
            )
        } else {
            given
        },
        Answer::Error(_) => given,
    }
}

/// The measurements of an answer that took `nanos`.
pub fn finalize_delivery_metrics(reply: &Reply, object_type: &str, nanos: u64) -> (r: Vec<
    MetricUpdate,
>)
    ensures
        all_measured(r@) == delivery_measured(reply@, object_type@, nanos),
{
    let status: u16 = match reply {
        Reply::Error(e) => e.status,
        Reply::Object(o) => o.status,
    };
    let mut out: Vec<MetricUpdate> = Vec::new();
    out.push(obs::inc_delivery_request(status_bucket(status), object_type));
    out.push(obs::record_delivery_request_duration(object_type, nanos));
    if let Reply::Object(o) = reply {
        let sent: u64 = bytes_len(&o.body) as u64;
        if sent > 0 {
            out.push(obs::add_delivery_bytes_sent(sent));
        }
    }
    assert(all_measured(out@) =~= delivery_measured(reply@, object_type@, nanos));
    out
}

// ---------------------------------------------------------------------------
// Laws
// ---------------------------------------------------------------------------

/// The answer to a range carries exactly the bytes that were asked for and that the object has.
pub proof fn range_answers_carry_what_was_asked(
    data: Seq<u8>,
    content_type: Seq<char>,
    etag: Seq<char>,
    path: Seq<char>,
    start: nat,
    end: nat,
    is_live: bool,
    config: DeliveryConfig,
)
    requires
        start <= end,
        start < data.len(),
    ensures
        ({
            let a = answer(data, content_type, etag, path, Some((start, end)), is_live, config);
            &&& a matches Answer::Object(o)
            &&& o.status == 206
            &&& forall|i: int|
                0 <= i < o.body.len() ==> #[trigger] o.body[i] == data[start + i]
            &&& o.body.len() == if end < data.len() {
                end + 1 - start
            } else {
                data.len() - start
            }
        }),
{
}

/// Only what an object has is ever sent: a range that starts behind its end is refused.
pub proof fn ranges_behind_the_end_are_refused(
    data: Seq<u8>,
    content_type: Seq<char>,
    etag: Seq<char>,
    path: Seq<char>,
    start: nat,
    end: nat,
    is_live: bool,
    config: DeliveryConfig,
)
    requires
        start >= data.len(),
    ensures
        ({
            let a = answer(data, content_type, etag, path, Some((start, end)), is_live, config);
            a matches Answer::Error(e) && e.status == 416
        }),
{
}

/// A header that asks for the bytes from `a` to `b` is read as such; without an end it asks for all
/// from `a` on. One whose end comes before its start is refused.
#[verifier::spinoff_prover]
#[verifier::rlimit(40)]
pub proof fn range_headers_read_back(a: u64, b: u64)
    requires
        b < u64::MAX,
    ensures
        a <= b ==> range_asked("bytes="@ + decimal(a as nat) + "-"@ + decimal(b as nat)) == Some(
            (a as nat, b as nat),
        ),
        a > b ==> range_asked("bytes="@ + decimal(a as nat) + "-"@ + decimal(b as nat)) is None,
        range_asked("bytes="@ + decimal(a as nat) + "-"@) == Some((a as nat, u64::MAX as nat)),
{
    let x = decimal(a as nat);
    let y = decimal(b as nat);
    let none = Seq::<char>::empty();
    decimals_read_back(a as nat);
    decimals_read_back(b as nat);
    reveal_strlit("bytes=");
    reveal_strlit("-");
    let s = "bytes="@ + x + "-"@ + y;
    let t = "bytes="@ + x + "-"@;
    lemma_range_pieces(x, y);
    lemma_range_pieces(x, none);
    assert(text::is_digit(y[y.len() - 1]));
    assert(s.last() == y.last());
    assert(trimmed(s) == s);
    assert(trimmed(t) == t);
    let rest = x + seq!['-'] + y;
    let open = x + seq!['-'] + none;
    assert("-"@ =~= seq!['-']);
    assert(s =~= "bytes="@ + rest);
    assert(t =~= "bytes="@ + open);
    assert(s.subrange(0, 6) =~= "bytes="@);
    assert(s.subrange(6, s.len() as int) =~= rest);
    assert(t.subrange(0, 6) =~= "bytes="@);
    assert(t.subrange(6, t.len() as int) =~= open);
    assert(text::is_digit(x[0]));
    assert(text::is_digit(y[0]));
}

proof fn lemma_range_pieces(x: Seq<char>, y: Seq<char>)
    requires
        text::all_digits(x),
        text::all_digits(y),
    ensures
        pieces(x + seq!['-'] + y, '-') == seq![x, y],
    decreases y.len(),
{
    let s = x + seq!['-'] + y;
    if y.len() == 0 {
        lemma_no_dash(x);
        assert(s.drop_last() =~= x);
        assert(s.last() == '-');
        assert(y =~= Seq::empty());
        assert(pieces(s, '-') =~= seq![x, y]);
    } else {
        let z = y.drop_last();
        assert(text::all_digits(z));
        lemma_range_pieces(x, z);
        assert(s.drop_last() =~= x + seq!['-'] + z);
        assert(text::is_digit(y[y.len() - 1]));
        assert(s.last() == y.last());
        assert(z.push(y.last()) =~= y);
        assert(pieces(s, '-') =~= seq![x, y]);
    }
}

proof fn lemma_no_dash(x: Seq<char>)
    requires
        text::all_digits(x),
    ensures
        pieces(x, '-') == seq![x],
    decreases x.len(),
{
    if x.len() > 0 {
        let z = x.drop_last();
        assert(text::all_digits(z));
        lemma_no_dash(z);
        assert(text::is_digit(x[x.len() - 1]));
        assert(z.push(x.last()) =~= x);
        assert(pieces(x, '-') =~= seq![x]);
    }
}

/// The value of a header.
pub open spec fn header_at(o: ObjectAnswer, name: Seq<char>, i: int) -> Option<Seq<char>> {
    if 0 <= i < o.headers.len() && o.headers[i].0 == name {
        Some(o.headers[i].1)
    } else {
        None
    }
}

/// Every answer with an object tells the type of the object, its mark, the bytes that follow, and
/// that parts can be asked for; a whole object is told with 200. Only playlists of live streams are
/// told the caching of live streams.
pub proof fn answers_tell_what_they_carry(
    data: Seq<u8>,
    content_type: Seq<char>,
    etag: Seq<char>,
    path: Seq<char>,
    range: Option<(nat, nat)>,
    is_live: bool,
    config: DeliveryConfig,
)
    requires
        range matches Some(r) ==> r.0 <= r.1,
    ensures
        range is None ==> {
            answer(data, content_type, etag, path, range, is_live, config) matches Answer::Object(o)
                && o.status == 200 && o.body == data
        },
        answer(data, content_type, etag, path, range, is_live, config) matches Answer::Object(o)
            ==> {
            let k: int = if range is None {
                0
            } else {
                1
            };
            &&& header_at(o, "content-type"@, 0) == Some(content_type)
            &&& header_at(o, "content-length"@, 1) matches Some(n) && text::digits_value(n)
                == o.body.len()
            &&& header_at(o, "cache-control"@, 2 + k) == Some(
                if is_live && finishes_with(path, ".m3u8"@) {
                    config.cache_control_live@
                } else {
                    config.cache_control_vod@
                },
            )
            &&& header_at(o, "etag"@, 3 + k) == Some(etag)
            &&& header_at(o, "accept-ranges"@, 4 + k) == Some("bytes"@)
            &&& header_at(o, "x-streaminfa-stream-id"@, 5 + k) == Some(pieces(path, '/')[0])
            &&& range matches Some(r) ==> header_at(o, "content-range"@, 2) == Some(
                "bytes "@ + decimal(r.0) + "-"@ + decimal((r.0 + o.body.len() - 1) as nat) + "/"@
                    + decimal(data.len()),
            )
        },
{
    match answer(data, content_type, etag, path, range, is_live, config) {
        Answer::Object(o) => {
            decimals_read_back(o.body.len());
        },
        _ => {},
    }
}

} // verus!
