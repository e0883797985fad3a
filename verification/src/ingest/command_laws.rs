//! What an encoder's commands lead to, told by how the commands are written.

use vstd::prelude::*;
use vstd::string::*;
use vstd::utf8::*;

use crate::buffer::{be16, be32};
use crate::ingest::chunk_laws::{sent_messages_read_back, written_messages_are_sent_whole};
use crate::ingest::demuxer::num16;
use crate::ingest::rtmp::{
    amf_command, amf_one, amf_zero, chunk_size_after, command_step, connect_result_body,
    create_stream_result_body, first_string, generic_result_body, handshake_answer, message_bytes,
    named_command, parse_message, publish_key, result_name, string_at, string_value, Command,
    MessageModel, Parsed, RtmpMessageType, StepModel,
};
use crate::numbers::{
    fields_are_read_from_the_top, fields_are_written_from_the_top, number, numbers_of, written,
    written_numbers_read_back,
};

verus! {

/// A text as a value: a marker, its length in two bytes, and its bytes.
pub open spec fn text_value(s: Seq<char>) -> Seq<u8> {
    seq![2u8] + written(encode_utf8(s).len(), 2) + encode_utf8(s)
}

/// A number as a value: a marker and eight bytes.
pub open spec fn number_value(bytes: Seq<u8>) -> Seq<u8> {
    seq![0u8] + bytes
}

/// A command message.
pub open spec fn command_message(data: Seq<u8>) -> MessageModel {
    MessageModel { msg_type: RtmpMessageType::AmfCommand, timestamp: 0, stream_id: 0, data }
}

proof fn lemma_text_value(before: Seq<u8>, s: Seq<char>, rest: Seq<u8>)
    requires
        encode_utf8(s).len() < 0x1_0000,
    ensures
        ({
            let data = before + (text_value(s) + rest);
            let at = before.len() as int;
            &&& data[at] == 2
            &&& num16(data, at + 1) == encode_utf8(s).len()
            &&& at + 3 + encode_utf8(s).len() <= data.len()
            &&& data.subrange(at + 3, at + 3 + encode_utf8(s).len()) == encode_utf8(s)
            &&& data.subrange(at + 3 + encode_utf8(s).len(), data.len() as int) == rest
            &&& string_at(data, at)
            &&& string_value(data, at) == s
        }),
{
    let bytes = encode_utf8(s);
    let data = before + (text_value(s) + rest);
    let at = before.len() as int;
    reveal_with_fuel(numbers_of, 3);
    written_numbers_read_back(bytes.len(), 2);
    assert(data.subrange(at + 1, at + 3) =~= written(bytes.len(), 2));
    fields_are_read_from_the_top(data, at + 1);
    assert(data.subrange(at + 3, at + 3 + bytes.len()) =~= bytes);
    assert(data.subrange(at + 3 + bytes.len(), data.len() as int) =~= rest);
    encode_utf8_valid_utf8(s);
    encode_utf8_decode_utf8(s);
}

/// A body that begins with a name is the command of that name; one that begins with anything else
/// than a text, or whose name is cut off, is refused.
pub proof fn commands_go_by_their_name(name: Seq<char>, rest: Seq<u8>, data: Seq<u8>)
    requires
        encode_utf8(name).len() <= 4096,
    ensures
        amf_command(text_value(name) + rest) == Ok::<_, crate::common::error::IngestFault>(
            named_command(name, rest),
        ),
        data.len() < 3 || data[0] != 2 ==> amf_command(data) is Err,
        data.len() >= 3 && data[0] == 2 && data.len() < 3 + number(data.subrange(1, 3))
            ==> amf_command(data) is Err,
        data.len() >= 3 && number(data.subrange(1, 3)) > 4096 ==> amf_command(data) is Err,
{
    let none = Seq::<u8>::empty();
    lemma_text_value(none, name, rest);
    assert(none + (text_value(name) + rest) =~= text_value(name) + rest);
    encode_utf8_valid_utf8(name);
    encode_utf8_decode_utf8(name);
    if data.len() >= 3 {
        fields_are_read_from_the_top(data, 1);
    }
}

proof fn lemma_publish_key(transaction: Seq<u8>, key: Seq<char>, rest: Seq<u8>)
    requires
        transaction.len() == 8,
        encode_utf8(key).len() < 0x1_0000,
    ensures
        publish_key(number_value(transaction) + seq![5u8] + (text_value(key) + rest), 0) == Some(
            key,
        ),
{
    let before = number_value(transaction) + seq![5u8];
    let data = before + (text_value(key) + rest);
    lemma_text_value(before, key, rest);
    assert(data[0] == 0);
    assert(data[9] == 5);
    assert(publish_key(data, 10) == Some(key));
    assert(publish_key(data, 9) == publish_key(data, 10));
    assert(publish_key(data, 0) == publish_key(data, 9));
}

/// An encoder publishes with the key that it names behind the transaction and a null, whatever
/// follows, in either kind of command message.
#[verifier::spinoff_prover]
#[verifier::rlimit(40)]
pub proof fn encoders_publish_with_their_key(
    transaction: Seq<u8>,
    key: Seq<char>,
    rest: Seq<u8>,
    msg: MessageModel,
)
    requires
        transaction.len() == 8,
        encode_utf8(key).len() < 0x1_0000,
        msg.msg_type == RtmpMessageType::AmfCommand || msg.msg_type == RtmpMessageType::AmfCommand3,
        msg.data == text_value("publish"@) + (number_value(transaction) + seq![5u8] + (text_value(
            key,
        ) + rest)),
    ensures
        command_step(msg) == StepModel::Publish(key),
{
    reveal_strlit("publish");
    reveal_strlit("connect");
    reveal_strlit("releaseStream");
    reveal_strlit("FCPublish");
    reveal_strlit("createStream");
    let name = "publish"@;
    is_ascii_chars_encode_utf8(name);
    commands_go_by_their_name(
        name,
        number_value(transaction) + seq![5u8] + (text_value(key) + rest),
        Seq::empty(),
    );
    lemma_publish_key(transaction, key, rest);
    assert(name[0] == 'p');
    assert("connect"@[0] == 'c');
    assert("releaseStream"@[0] == 'r');
    assert("FCPublish"@[0] == 'F');
    assert("createStream"@[0] == 'c');
}

proof fn lemma_first_string(before: Seq<u8>, s: Seq<char>, rest: Seq<u8>, pos: int)
    requires
        0 <= pos <= before.len(),
        forall|i: int| 0 <= i < before.len() ==> before[i] != 2,
        0 < encode_utf8(s).len() < 0x1_0000,
    ensures
        first_string(before + (text_value(s) + rest), pos) == Some(s),
    decreases before.len() - pos,
{
    let data = before + (text_value(s) + rest);
    lemma_text_value(before, s, rest);
    if pos < before.len() {
        assert(data[pos] == before[pos]);
        lemma_first_string(before, s, rest, pos + 1);
    }
}

/// An encoder connects to the first text behind the name of the command, and to "live" where there
/// is none.
#[verifier::spinoff_prover]
#[verifier::rlimit(40)]
pub proof fn encoders_connect_to_their_app(before: Seq<u8>, app: Seq<char>, rest: Seq<u8>)
    requires
        forall|i: int| 0 <= i < before.len() ==> before[i] != 2,
        0 < encode_utf8(app).len() < 0x1_0000,
    ensures
        amf_command(text_value("connect"@) + (before + (text_value(app) + rest))) == Ok::<
            _,
            crate::common::error::IngestFault,
        >(Command::Connect { app }),
        amf_command(text_value("connect"@) + before) == Ok::<_, crate::common::error::IngestFault>(
            Command::Connect { app: "live"@ },
        ),
{
    reveal_strlit("connect");
    is_ascii_chars_encode_utf8("connect"@);
    commands_go_by_their_name("connect"@, before + (text_value(app) + rest), Seq::empty());
    commands_go_by_their_name("connect"@, before, Seq::empty());
    lemma_first_string(before, app, rest, 0);
    lemma_no_string(before, 0);
}

proof fn lemma_no_string(data: Seq<u8>, pos: int)
    requires
        0 <= pos,
        forall|i: int| 0 <= i < data.len() ==> data[i] != 2,
    ensures
        first_string(data, pos) is None,
    decreases data.len() - pos,
{
    if pos + 3 < data.len() {
        lemma_no_string(data, pos + 1);
    }
}

// ---------------------------------------------------------------------------
// Answers
// ---------------------------------------------------------------------------

/// The first message of an answer, and the bytes that it takes up.
#[verifier::opaque]
pub open spec fn first_message(s: Seq<u8>) -> Option<(MessageModel, int)> {
    match parse_message(s, 128) {
        Parsed::Done(m, n) => Some((m, n)),
        _ => None,
    }
}

/// The answer is one message with the given kind and body.
pub open spec fn answers_with(s: Seq<u8>, kind: RtmpMessageType, body: Seq<u8>) -> bool {
    first_message(s) matches Some(x) && x.1 == s.len() && x.0 == (MessageModel {
        msg_type: kind,
        timestamp: 0,
        stream_id: 0,
        data: body,
    })
}

proof fn lemma_message(kind: u8, data: Seq<u8>, rest: Seq<u8>)
    requires
        data.len() <= 128,
    ensures
        message_bytes(kind, 0, data).len() == 12 + data.len(),
        first_message(message_bytes(kind, 0, data) + rest) == Some(
            (
                MessageModel {
                    msg_type: RtmpMessageType::of_id(kind),
                    timestamp: 0,
                    stream_id: 0,
                    data,
                },
                12 + data.len() as int,
            ),
        ),
{
    reveal(first_message);
    written_messages_are_sent_whole(kind, 0, data, 128, 0);
    sent_messages_read_back(
        0,
        if kind == 20 {
            3
        } else {
            2
        },
        0,
        kind,
        0,
        data,
        128,
        0,
        rest,
    );
}

/// The eight bytes of the number 1 in double precision.
pub open spec fn one() -> Seq<u8> {
    written(0x3ff0_0000_0000_0000, 8)
}

/// The eight bytes of the number 0 in double precision.
pub open spec fn nought() -> Seq<u8> {
    written(0, 8)
}

/// A text in an object: its name, and the text as a value.
pub open spec fn property(name: Seq<char>, s: Seq<char>) -> Seq<u8> {
    written(encode_utf8(name).len(), 2) + encode_utf8(name) + text_value(s)
}

proof fn lemma_numbers()
    ensures
        amf_one() == number_value(one()),
        amf_zero() == number_value(nought()),
        be32(2_500_000) == written(2_500_000, 4),
        be16(7) == written(7, 2),
        be16(4) == written(4, 2),
        be16(29) == written(29, 2),
{
    fields_are_written_from_the_top(7, 2_500_000, 0x3ff0_0000_0000_0000);
    fields_are_written_from_the_top(4, 0, 0);
    fields_are_written_from_the_top(29, 0, 0);
    assert(amf_one() =~= number_value(one()));
    assert(amf_zero() =~= number_value(nought()));
}

proof fn lemma_result_name()
    ensures
        result_name() == text_value("_result"@),
        encode_utf8("_result"@).len() == 7,
{
    reveal_strlit("_result");
    is_ascii_chars_encode_utf8("_result"@);
    lemma_numbers();
}

#[verifier::spinoff_prover]
#[verifier::rlimit(40)]
proof fn lemma_connect_body()
    ensures
        connect_result_body() == text_value("_result"@) + number_value(one()) + seq![
            3u8,
            0u8,
            0u8,
            9u8,
            3u8,
        ] + property("code"@, "NetConnection.Connect.Success"@) + seq![0u8, 0u8, 9u8],
        connect_result_body().len() < 128,
{
    reveal_strlit("code");
    reveal_strlit("NetConnection.Connect.Success");
    is_ascii_chars_encode_utf8("code"@);
    is_ascii_chars_encode_utf8("NetConnection.Connect.Success"@);
    lemma_numbers();
    lemma_result_name();
    assert(connect_result_body() =~= text_value("_result"@) + number_value(one()) + seq![
        3u8,
        0u8,
        0u8,
        9u8,
        3u8,
    ] + property("code"@, "NetConnection.Connect.Success"@) + seq![0u8, 0u8, 9u8]);
}

/// Three messages stand one after the other, with nothing behind them.
pub open spec fn three_messages(
    s: Seq<u8>,
    k1: RtmpMessageType,
    d1: Seq<u8>,
    k2: RtmpMessageType,
    d2: Seq<u8>,
    k3: RtmpMessageType,
    d3: Seq<u8>,
) -> bool {
    first_message(s) matches Some(a) && {
        &&& a.0.msg_type == k1
        &&& a.0.data == d1
        &&& 0 < a.1 < s.len()
        &&& first_message(s.subrange(a.1, s.len() as int)) matches Some(b) && {
            &&& b.0.msg_type == k2
            &&& b.0.data == d2
            &&& 0 < b.1 < s.len() - a.1
            &&& answers_with(s.subrange(a.1 + b.1, s.len() as int), k3, d3)
        }
    }
}

#[verifier::spinoff_prover]
#[verifier::rlimit(40)]
proof fn lemma_three_messages(k1: u8, d1: Seq<u8>, k2: u8, d2: Seq<u8>, k3: u8, d3: Seq<u8>)
    requires
        d1.len() <= 128,
        d2.len() <= 128,
        d3.len() <= 128,
    ensures
        three_messages(
            message_bytes(k1, 0, d1) + message_bytes(k2, 0, d2) + message_bytes(k3, 0, d3),
            RtmpMessageType::of_id(k1),
            d1,
            RtmpMessageType::of_id(k2),
            d2,
            RtmpMessageType::of_id(k3),
            d3,
        ),
{
    let none = Seq::<u8>::empty();
    lemma_message(k1, d1, message_bytes(k2, 0, d2) + message_bytes(k3, 0, d3));
    lemma_message(k2, d2, message_bytes(k3, 0, d3));
    lemma_message(k3, d3, none);
    lemma_joined(
        message_bytes(k1, 0, d1),
        message_bytes(k2, 0, d2),
        message_bytes(k3, 0, d3),
    );
}

proof fn lemma_joined(a: Seq<u8>, b: Seq<u8>, c: Seq<u8>)
    ensures
        a + b + c == a + (b + c),
        (a + b + c).subrange(a.len() as int, (a + b + c).len() as int) == b + c,
        (a + b + c).subrange(a.len() + b.len() as int, (a + b + c).len() as int) == c,
        c + Seq::<u8>::empty() == c,
{
    assert(a + b + c =~= a + (b + c));
    assert((a + b + c).subrange(a.len() as int, (a + b + c).len() as int) =~= b + c);
    assert((a + b + c).subrange(a.len() + b.len() as int, (a + b + c).len() as int) =~= c);
    assert(c + Seq::<u8>::empty() =~= c);
}

/// A connection is answered with a window and a bandwidth of 2,500,000 bytes and a result that says
/// success for transaction 1: three messages that a reader of chunks takes one after the other.
#[verifier::spinoff_prover]
#[verifier::rlimit(40)]
pub proof fn connections_are_answered(rest: Seq<u8>)
    ensures
        command_step(command_message(text_value("connect"@) + rest)) matches StepModel::Reply(s)
            && three_messages(
            s,
            RtmpMessageType::WindowAckSize,
            written(2_500_000, 4),
            RtmpMessageType::SetPeerBw,
            written(2_500_000, 4).push(2),
            RtmpMessageType::AmfCommand,
            text_value("_result"@) + number_value(one()) + seq![3u8, 0u8, 0u8, 9u8, 3u8] + property(
                "code"@,
                "NetConnection.Connect.Success"@,
            ) + seq![0u8, 0u8, 9u8],
        ),
{
    let d1 = be32(2_500_000);
    let d2 = be32(2_500_000) + seq![2u8];
    assert(d2 == written(2_500_000, 4).push(2)) by {
        lemma_numbers();
        assert(d2 =~= written(2_500_000, 4).push(2));
    }
    assert(d1 == written(2_500_000, 4)) by {
        lemma_numbers();
    }
    lemma_connect_body();
    lemma_three_messages(5, d1, 6, d2, 20, connect_result_body());
    lemma_connect_step(rest);
}

#[verifier::spinoff_prover]
#[verifier::rlimit(40)]
proof fn lemma_connect_step(rest: Seq<u8>)
    ensures
        command_step(command_message(text_value("connect"@) + rest)) == StepModel::Reply(
            message_bytes(5, 0, be32(2_500_000)) + message_bytes(6, 0, be32(2_500_000) + seq![2u8])
                + message_bytes(20, 0, connect_result_body()),
        ),
{
    reveal_strlit("connect");
    is_ascii_chars_encode_utf8("connect"@);
    commands_go_by_their_name("connect"@, rest, Seq::empty());
}

/// Releasing and announcing a stream are answered with a plain result; creating one with the number
/// 1 of the stream.
#[verifier::spinoff_prover]
#[verifier::rlimit(40)]
pub proof fn stream_commands_are_answered(rest: Seq<u8>)
    ensures
        command_step(command_message(text_value("releaseStream"@) + rest)) matches StepModel::Reply(
            s,
        ) && answers_with(
            s,
            RtmpMessageType::AmfCommand,
            text_value("_result"@) + number_value(nought()) + seq![5u8],
        ),
        command_step(command_message(text_value("FCPublish"@) + rest)) matches StepModel::Reply(s)
            && answers_with(
            s,
            RtmpMessageType::AmfCommand,
            text_value("_result"@) + number_value(nought()) + seq![5u8],
        ),
        command_step(command_message(text_value("createStream"@) + rest)) matches StepModel::Reply(
            s,
        ) && answers_with(
            s,
            RtmpMessageType::AmfCommand,
            text_value("_result"@) + number_value(nought()) + seq![5u8] + number_value(one()),
        ),
{
    lemma_names();
    commands_go_by_their_name("releaseStream"@, rest, Seq::empty());
    commands_go_by_their_name("FCPublish"@, rest, Seq::empty());
    commands_go_by_their_name("createStream"@, rest, Seq::empty());
    lemma_numbers();
    lemma_result_name();
    let none = Seq::<u8>::empty();
    let plain = generic_result_body();
    let numbered = create_stream_result_body();
    lemma_message(20, plain, none);
    lemma_message(20, numbered, none);
    assert(message_bytes(20, 0, plain) + none =~= message_bytes(20, 0, plain));
    assert(message_bytes(20, 0, numbered) + none =~= message_bytes(20, 0, numbered));
}

proof fn lemma_names()
    ensures
        encode_utf8("releaseStream"@).len() == 13,
        encode_utf8("FCPublish"@).len() == 9,
        encode_utf8("createStream"@).len() == 12,
        encode_utf8("deleteStream"@).len() == 12,
        "releaseStream"@ != "connect"@,
        "FCPublish"@ != "connect"@,
        "FCPublish"@ != "releaseStream"@,
        "createStream"@ != "connect"@,
        "createStream"@ != "releaseStream"@,
        "createStream"@ != "FCPublish"@,
        "deleteStream"@ != "connect"@,
        "deleteStream"@ != "releaseStream"@,
        "deleteStream"@ != "FCPublish"@,
        "deleteStream"@ != "createStream"@,
        "deleteStream"@ != "publish"@,
{
    reveal_strlit("connect");
    reveal_strlit("releaseStream");
    reveal_strlit("FCPublish");
    reveal_strlit("createStream");
    reveal_strlit("deleteStream");
    reveal_strlit("publish");
    is_ascii_chars_encode_utf8("releaseStream"@);
    is_ascii_chars_encode_utf8("FCPublish"@);
    is_ascii_chars_encode_utf8("createStream"@);
    is_ascii_chars_encode_utf8("deleteStream"@);
    assert("createStream"@[0] == 'c');
    assert("deleteStream"@[0] == 'd');
}

/// Deleting the stream ends the connection; commands of other names, and messages that are no
/// commands, are passed over.
#[verifier::spinoff_prover]
#[verifier::rlimit(40)]
pub proof fn other_commands_are_passed_over(name: Seq<char>, rest: Seq<u8>, msg: MessageModel)
    requires
        encode_utf8(name).len() <= 4096,
    ensures
        command_step(command_message(text_value("deleteStream"@) + rest)) == StepModel::Reset,
        name != "connect"@ && name != "releaseStream"@ && name != "FCPublish"@ && name
            != "createStream"@ && name != "publish"@ && name != "deleteStream"@ ==> command_step(
            command_message(text_value(name) + rest),
        ) == StepModel::Continue,
        msg.msg_type != RtmpMessageType::AmfCommand && msg.msg_type != RtmpMessageType::AmfCommand3
            ==> command_step(msg) == StepModel::Continue,
{
    lemma_names();
    commands_go_by_their_name("deleteStream"@, rest, Seq::empty());
    commands_go_by_their_name(name, rest, Seq::empty());
}

/// A message that sets the chunk size is followed up to 65536; no other message changes it.
pub proof fn chunk_sizes_are_followed(size: nat, asked: nat, rest: Seq<u8>, msg: MessageModel)
    requires
        asked < 0x1_0000_0000,
    ensures
        msg.msg_type == RtmpMessageType::SetChunkSize && msg.data == written(asked, 4) + rest
            ==> chunk_size_after(size, msg) == if asked <= 65536 {
            asked
        } else {
            65536
        },
        msg.msg_type != RtmpMessageType::SetChunkSize || msg.data.len() < 4 ==> chunk_size_after(
            size,
            msg,
        ) == size,
{
    if msg.data == written(asked, 4) + rest {
        reveal_with_fuel(numbers_of, 5);
        written_numbers_read_back(asked, 4);
        assert(msg.data.subrange(0, 4) =~= written(asked, 4));
        fields_are_read_from_the_top(msg.data, 0);
    }
}

/// The handshake is answered with version 3, a packet of 1536 bytes with time 0, and the encoder's
/// own packet.
pub proof fn handshakes_echo_the_encoder(c1: Seq<u8>)
    requires
        c1.len() == 1536,
    ensures
        handshake_answer(c1).len() == 1 + 1536 + 1536,
        handshake_answer(c1)[0] == 3,
        number(handshake_answer(c1).subrange(1, 5)) == 0,
        number(handshake_answer(c1).subrange(5, 9)) == 0,
        handshake_answer(c1).subrange(1537, 3073) == c1,
{
    let s = handshake_answer(c1);
    assert(s.subrange(1537, 3073) =~= c1);
    fields_are_written_from_the_top(0, 0, 0);
    reveal_with_fuel(numbers_of, 5);
    written_numbers_read_back(0, 4);
    assert(s.subrange(1, 5) =~= be32(0));
    assert(s.subrange(5, 9) =~= be32(0));
}

} // verus!
