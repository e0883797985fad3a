//! What the reader of messages makes of a chunk stream, told by how the stream is written.

use vstd::prelude::*;

use crate::buffer::le32;
use crate::ingest::demuxer::{num24, num32};
use crate::ingest::rtmp::{
    basic_header_len, chunked_len, dechunked, message_bytes, message_header_len, num32_le,
    parse_message, MessageModel, Parsed, RtmpMessageType,
};
use crate::numbers::{
    fields_are_read_from_the_top, fields_are_written_from_the_top, number, numbers_of, written,
    written_numbers_read_back,
};
use crate::package::hls::be24;

verus! {

/// A payload in chunks of `chunk` bytes, with one byte in front of each chunk but the first.
pub open spec fn in_chunks(payload: Seq<u8>, chunk: nat, mark: u8) -> Seq<u8>
    decreases payload.len(),
{
    if chunk == 0 || payload.len() <= chunk {
        payload
    } else {
        payload.subrange(0, chunk as int) + seq![mark] + in_chunks(
            payload.subrange(chunk as int, payload.len() as int),
            chunk,
            mark,
        )
    }
}

/// The first bytes of a chunk: its format, and the number of its chunk stream.
pub open spec fn opening(format: nat, channel: nat) -> Seq<u8> {
    if channel < 64 {
        seq![(format * 64 + channel) as u8]
    } else if channel < 320 {
        seq![(format * 64) as u8, (channel - 64) as u8]
    } else {
        seq![
            (format * 64 + 1) as u8,
            ((channel - 64) % 256) as u8,
            ((channel - 64) / 256) as u8,
        ]
    }
}

/// The three bytes of a time; all ones where it does not fit.
pub open spec fn short_time(time: u32) -> Seq<u8> {
    if time < 0xFF_FFFF {
        written(time as nat, 3)
    } else {
        seq![0xFFu8, 0xFFu8, 0xFFu8]
    }
}

/// The four bytes of a time that does not fit in three.
pub open spec fn long_time(time: u32) -> Seq<u8> {
    if time < 0xFF_FFFF {
        Seq::empty()
    } else {
        written(time as nat, 4)
    }
}

/// What stands between the opening and the payload: time, length, kind and message stream in
/// format 0; time, length and kind in format 1; the time alone in format 2; nothing in format 3.
pub open spec fn heading(format: nat, time: u32, len: nat, kind: u8, stream_id: u32) -> Seq<u8> {
    if format == 0 {
        short_time(time) + written(len, 3) + seq![kind] + written(stream_id as nat, 4).reverse()
            + long_time(time)
    } else if format == 1 {
        short_time(time) + written(len, 3) + seq![kind] + long_time(time)
    } else if format == 2 {
        short_time(time) + long_time(time)
    } else {
        Seq::empty()
    }
}

/// A message as it is sent on a chunk stream.
pub open spec fn sent(
    format: nat,
    channel: nat,
    time: u32,
    kind: u8,
    stream_id: u32,
    payload: Seq<u8>,
    chunk: nat,
    mark: u8,
) -> Seq<u8> {
    opening(format, channel) + heading(format, time, payload.len(), kind, stream_id) + in_chunks(
        payload,
        chunk,
        mark,
    )
}

proof fn lemma_in_chunks(payload: Seq<u8>, chunk: nat, mark: u8)
    requires
        chunk > 0,
    ensures
        in_chunks(payload, chunk, mark).len() == chunked_len(payload.len() as int, chunk as int),
        forall|i: int|
            0 <= i < payload.len() ==> {
                &&& 0 <= i + i / chunk as int
                &&& i + i / (chunk as int) < in_chunks(payload, chunk, mark).len()
                &&& in_chunks(payload, chunk, mark)[i + #[trigger] (i / chunk as int)]
                    == payload[i]
            },
    decreases payload.len(),
{
    let c = chunk as int;
    let len = payload.len() as int;
    let s = in_chunks(payload, chunk, mark);
    if len <= c {
        if len > 0 {
            vstd::arithmetic::div_mod::lemma_basic_div(len - 1, c);
        }
        assert forall|i: int| 0 <= i < len implies {
            &&& 0 <= i + i / c
            &&& i + i / c < s.len()
            &&& s[i + #[trigger] (i / c)] == payload[i]
        } by {
            vstd::arithmetic::div_mod::lemma_basic_div(i, c);
        }
    } else {
        let tail = payload.subrange(c, len);
        let t = in_chunks(tail, chunk, mark);
        lemma_in_chunks(tail, chunk, mark);
        lemma_div_step(len - 1, c);
        assert forall|i: int| 0 <= i < len implies {
            &&& 0 <= i + i / c
            &&& i + i / c < s.len()
            &&& s[i + #[trigger] (i / c)] == payload[i]
        } by {
            if i < c {
                vstd::arithmetic::div_mod::lemma_basic_div(i, c);
            } else {
                lemma_div_step(i, c);
                let j = i - c;
                assert(t[j + j / c] == tail[j]);
            }
        }
    }
}

proof fn lemma_div_step(i: int, c: int)
    requires
        0 < c <= i,
    ensures
        i / c == (i - c) / c + 1,
{
    vstd::arithmetic::div_mod::lemma_div_plus_one(i - c, c);
}

proof fn lemma_opening(format: nat, channel: nat, rest: Seq<u8>)
    requires
        format <= 3,
        2 <= channel < 65600,
    ensures
        basic_header_len((opening(format, channel) + rest)[0]) == opening(format, channel).len(),
        message_header_len((opening(format, channel) + rest)[0]) == if format == 0 {
            11
        } else if format == 1 {
            7int
        } else if format == 2 {
            3
        } else {
            0
        },
{
}

/// The number at `at`, where it was written in three bytes.
proof fn lemma_three(s: Seq<u8>, at: int, n: nat)
    requires
        0 <= at <= s.len() - 3,
        n < 0x1000000,
        s.subrange(at, at + 3) == written(n, 3),
    ensures
        num24(s, at) == n,
{
    fields_are_read_from_the_top(s, at);
    reveal_with_fuel(numbers_of, 4);
    written_numbers_read_back(n, 3);
}

proof fn lemma_four(s: Seq<u8>, at: int, n: nat)
    requires
        0 <= at <= s.len() - 4,
        n < 0x1_0000_0000,
    ensures
        s.subrange(at, at + 4) == written(n, 4) ==> num32(s, at) == n,
        s.subrange(at, at + 4) == written(n, 4).reverse() ==> num32_le(s, at) == n,
{
    fields_are_read_from_the_top(s, at);
    reveal_with_fuel(numbers_of, 5);
    written_numbers_read_back(n, 4);
    assert(written(n, 4).reverse().reverse() =~= written(n, 4));
}

proof fn lemma_widths(n: nat, time: u32)
    ensures
        written(n, 3).len() == 3,
        written(n, 4).len() == 4,
        short_time(time).len() == 3,
        short_time(time) == written(
            if time < 0xFF_FFFF {
                time as nat
            } else {
                0xFF_FFFF
            },
            3,
        ),
        long_time(time).len() == if time < 0xFF_FFFF {
            0nat
        } else {
            4
        },
{
    reveal_with_fuel(written, 5);
    assert(written(0xFF_FFFF, 3) =~= seq![0xFFu8, 0xFFu8, 0xFFu8]);
}

/// What the fields of a sent message are read as.
#[verifier::spinoff_prover]
#[verifier::rlimit(40)]
proof fn lemma_fields(
    format: nat,
    channel: nat,
    time: u32,
    len: nat,
    kind: u8,
    stream_id: u32,
    rest: Seq<u8>,
)
    requires
        format <= 3,
        2 <= channel < 65600,
        len < 0x100_0000,
    ensures
        ({
            let basic = opening(format, channel).len() as int;
            let front = opening(format, channel) + heading(format, time, len, kind, stream_id);
            let s = front + rest;
            let fixed = basic + message_header_len(s[0]);
            let short = if time < 0xFF_FFFF {
                time as int
            } else {
                0xFF_FFFF
            };
            &&& format <= 2 ==> num24(s, basic) == short
            &&& format <= 1 ==> num24(s, basic + 3) == len && s[basic + 6] == kind
            &&& format == 0 ==> num32_le(s, basic + 7) == stream_id
            &&& format <= 2 && time >= 0xFF_FFFF ==> num32(s, fixed) == time
            &&& front.len() == fixed + if format <= 2 && time >= 0xFF_FFFF {
                4int
            } else {
                0
            }
        }),
{
    let open = opening(format, channel);
    let basic = open.len() as int;
    let head = heading(format, time, len, kind, stream_id);
    let front = open + head;
    let s = front + rest;
    lemma_opening(format, channel, head + rest);
    assert(s[0] == (open + (head + rest))[0]);
    lemma_widths(len, time);
    lemma_widths(stream_id as nat, time);
    let short = if time < 0xFF_FFFF {
        time as nat
    } else {
        0xFF_FFFF
    };
    if format <= 2 {
        assert(s.subrange(basic, basic + 3) =~= short_time(time));
        lemma_three(s, basic, short);
        lemma_widths(time as nat, time);
    }
    if format <= 1 {
        assert(s.subrange(basic + 3, basic + 6) =~= written(len, 3));
        lemma_three(s, basic + 3, len);
    }
    if format == 0 {
        assert(s.subrange(basic + 7, basic + 11) =~= written(stream_id as nat, 4).reverse());
        lemma_four(s, basic + 7, stream_id as nat);
    }
    if format <= 2 && time >= 0xFF_FFFF {
        let fixed = basic + message_header_len(s[0]);
        assert(s.subrange(fixed, fixed + 4) =~= written(time as nat, 4));
        lemma_four(s, fixed, time as nat);
    }
}

/// A message that is sent with its length, in as many chunks as it takes, is read back with its
/// kind, its time and its whole payload, and takes up all of its bytes and none of the next
/// message. Its message stream is known where the header gives it.
#[verifier::spinoff_prover]
#[verifier::rlimit(40)]
pub proof fn sent_messages_read_back(
    format: nat,
    channel: nat,
    time: u32,
    kind: u8,
    stream_id: u32,
    payload: Seq<u8>,
    chunk: nat,
    mark: u8,
    rest: Seq<u8>,
)
    requires
        format <= 1,
        2 <= channel < 65600,
        payload.len() < 0x100_0000,
        chunk > 0,
    ensures
        ({
            let message = sent(format, channel, time, kind, stream_id, payload, chunk, mark);
            parse_message(message + rest, chunk) == Parsed::Done(
                MessageModel {
                    msg_type: RtmpMessageType::of_id(kind),
                    timestamp: time,
                    stream_id: if format == 0 {
                        stream_id
                    } else {
                        0
                    },
                    data: payload,
                },
                message.len() as int,
            )
        }),
{
    let body = in_chunks(payload, chunk, mark);
    let front = opening(format, channel) + heading(format, time, payload.len(), kind, stream_id);
    let message = sent(format, channel, time, kind, stream_id, payload, chunk, mark);
    let s = message + rest;
    assert(s =~= front + (body + rest));
    lemma_fields(format, channel, time, payload.len(), kind, stream_id, body + rest);
    lemma_opening(
        format,
        channel,
        heading(format, time, payload.len(), kind, stream_id) + (body + rest),
    );
    assert(s[0] == (opening(format, channel) + (heading(
        format,
        time,
        payload.len(),
        kind,
        stream_id,
    ) + (body + rest)))[0]);
    lemma_in_chunks(payload, chunk, mark);
    let at = front.len() as int;
    assert forall|i: int| 0 <= i < payload.len() implies #[trigger] dechunked(
        s,
        at,
        payload.len() as int,
        chunk as int,
    )[i] == payload[i] by {
        assert(body[i + i / chunk as int] == payload[i]);
    }
    assert(dechunked(s, at, payload.len() as int, chunk as int) =~= payload);
}

/// A message that is sent without its length has no payload, and the time that its header gives.
#[verifier::spinoff_prover]
#[verifier::rlimit(40)]
pub proof fn messages_without_length_are_empty(
    format: nat,
    channel: nat,
    time: u32,
    chunk: nat,
    rest: Seq<u8>,
)
    requires
        2 <= format <= 3,
        2 <= channel < 65600,
    ensures
        ({
            let message = sent(format, channel, time, 0, 0, Seq::empty(), chunk, 0);
            parse_message(message + rest, chunk) == Parsed::Done(
                MessageModel {
                    msg_type: RtmpMessageType::Unknown(0),
                    timestamp: if format == 2 {
                        time
                    } else {
                        0
                    },
                    stream_id: 0,
                    data: Seq::empty(),
                },
                message.len() as int,
            )
        }),
{
    let message = sent(format, channel, time, 0, 0, Seq::empty(), chunk, 0);
    let head = heading(format, time, 0, 0, 0);
    let front = opening(format, channel) + head;
    assert(message =~= front);
    let s = message + rest;
    lemma_fields(format, channel, time, 0, 0, 0, rest);
    lemma_opening(format, channel, head + rest);
    assert(s[0] == (opening(format, channel) + (head + rest))[0]);
    assert(dechunked(s, front.len() as int, 0, chunk as int) =~= Seq::<u8>::empty());
}

/// Nothing is made of a message before its last byte has come, and no byte is waited for that is
/// not its own.
#[verifier::spinoff_prover]
#[verifier::rlimit(40)]
pub proof fn parts_of_messages_are_waited_for(
    format: nat,
    channel: nat,
    time: u32,
    kind: u8,
    stream_id: u32,
    payload: Seq<u8>,
    chunk: nat,
    mark: u8,
    n: int,
)
    requires
        format <= 1,
        2 <= channel < 65600,
        payload.len() < 0x100_0000,
        chunk > 0,
        0 <= n < sent(format, channel, time, kind, stream_id, payload, chunk, mark).len(),
    ensures
        ({
            let message = sent(format, channel, time, kind, stream_id, payload, chunk, mark);
            parse_message(message.subrange(0, n), chunk) matches Parsed::Need(more) && 1 <= more
                <= message.len() - n
        }),
{
    let body = in_chunks(payload, chunk, mark);
    let head = heading(format, time, payload.len(), kind, stream_id);
    let front = opening(format, channel) + head;
    let message = sent(format, channel, time, kind, stream_id, payload, chunk, mark);
    let s = message.subrange(0, n);
    if n > 0 {
        assert(message =~= front + body);
        lemma_fields(format, channel, time, payload.len(), kind, stream_id, body);
        lemma_opening(format, channel, head + body);
        assert(message[0] == (opening(format, channel) + (head + body))[0]);
        lemma_in_chunks(payload, chunk, mark);
        let basic = opening(format, channel).len() as int;
        let fixed = basic + message_header_len(message[0]);
        if n >= fixed {
            assert(num24(s, basic) == num24(message, basic));
            assert(num24(s, basic + 3) == num24(message, basic + 3));
        }
    }
}

/// A number stands for one kind of message.
pub proof fn kinds_have_their_numbers(id: u8)
    ensures
        RtmpMessageType::of_id(id) == RtmpMessageType::SetChunkSize <==> id == 1,
        RtmpMessageType::of_id(id) == RtmpMessageType::Acknowledgement <==> id == 3,
        RtmpMessageType::of_id(id) == RtmpMessageType::UserControl <==> id == 4,
        RtmpMessageType::of_id(id) == RtmpMessageType::WindowAckSize <==> id == 5,
        RtmpMessageType::of_id(id) == RtmpMessageType::SetPeerBw <==> id == 6,
        RtmpMessageType::of_id(id) == RtmpMessageType::Audio <==> id == 8,
        RtmpMessageType::of_id(id) == RtmpMessageType::Video <==> id == 9,
        RtmpMessageType::of_id(id) == RtmpMessageType::AmfCommand3 <==> id == 17,
        RtmpMessageType::of_id(id) == RtmpMessageType::AmfCommand <==> id == 20,
        RtmpMessageType::of_id(id) matches RtmpMessageType::Unknown(n) ==> n == id,
{
}

/// What is written is a message of time 0 in one chunk, with its length, its kind and its message
/// stream; commands go on chunk stream 3, the rest on 2.
#[verifier::spinoff_prover]
#[verifier::rlimit(40)]
pub proof fn written_messages_are_sent_whole(
    kind: u8,
    stream_id: u32,
    data: Seq<u8>,
    chunk: nat,
    mark: u8,
)
    requires
        data.len() < 0x100_0000,
        data.len() <= chunk,
    ensures
        message_bytes(kind, stream_id, data) == sent(
            0,
            if kind == 20 {
                3
            } else {
                2
            },
            0,
            kind,
            stream_id,
            data,
            chunk,
            mark,
        ),
{
    fields_are_written_from_the_top(0, data.len() as u32, 0);
    fields_are_written_from_the_top(0, stream_id, 0);
    fields_are_written_from_the_top(0, 0, 0);
    assert(be24(0) =~= seq![0u8, 0u8, 0u8]);
    assert(le32(stream_id) =~= crate::buffer::be32(stream_id).reverse());
    assert(message_bytes(kind, stream_id, data) =~= sent(
        0,
        if kind == 20 {
            3
        } else {
            2
        },
        0,
        kind,
        stream_id,
        data,
        chunk,
        mark,
    ));
}

} // verus!
