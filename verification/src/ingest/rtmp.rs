//! The RTMP side of ingest: messages, commands and the life of a connection.

use bytes::{Bytes, BytesMut};
use vstd::prelude::*;
use vstd::string::*;
use vstd::utf8::*;

use crate::buffer::{
    be16, be32, buf_extend, buf_freeze, buf_new, buf_put_u16, buf_put_u32, buf_put_u32_le,
    buf_put_u8, buf_put_zeros, buf_seq, buf_slice, bytes_seq, bytes_slice, le32, zeros,
};
use crate::common::error::{IngestError, IngestFault};
use crate::common::security::{MAX_AMF_STRING_LENGTH, MAX_RTMP_CHUNK_SIZE};
use crate::common::types::StreamId;
use crate::ingest::demuxer::{num16, num24, num32};
use crate::package::hls::be24;
use crate::text;
use crate::text::decimal;

verus! {

/// The RTMP version spoken.
pub const RTMP_VERSION: u8 = 3;

/// Bytes of the handshake packets C1, C2, S1 and S2.
pub const HANDSHAKE_SIZE: usize = 1536;

/// Seconds that a handshake may take.
pub const HANDSHAKE_TIMEOUT_SECS: u64 = 5;

/// Seconds in which the video configuration must come.
pub const SEQUENCE_HEADER_TIMEOUT_SECS: u64 = 10;

/// Seconds without a message after which a stream has ended.
pub const INACTIVITY_TIMEOUT_SECS: u64 = 30;

/// Errors in a row after which a stream has failed.
pub const MAX_CONSECUTIVE_ERRORS: u32 = 10;

// ---------------------------------------------------------------------------
// Messages
// ---------------------------------------------------------------------------

/// The kinds of RTMP message.
#[derive(Debug, Clone, Copy, PartialEq, Eq, Structural)]
pub enum RtmpMessageType {
    Audio,
    Video,
    AmfCommand,
    AmfCommand3,
    SetChunkSize,
    Acknowledgement,
    WindowAckSize,
    SetPeerBw,
    UserControl,
    Unknown(u8),
}

impl RtmpMessageType {
    /// The kind that a number stands for.
    pub open spec fn of_id(id: u8) -> Self {
        if id == 1 {
            RtmpMessageType::SetChunkSize
        } else if id == 3 {
            RtmpMessageType::Acknowledgement
        } else if id == 4 {
            RtmpMessageType::UserControl
        } else if id == 5 {
            RtmpMessageType::WindowAckSize
        } else if id == 6 {
            RtmpMessageType::SetPeerBw
        } else if id == 8 {
            RtmpMessageType::Audio
        } else if id == 9 {
            RtmpMessageType::Video
        } else if id == 17 {
            RtmpMessageType::AmfCommand3
        } else if id == 20 {
            RtmpMessageType::AmfCommand
        } else {
            RtmpMessageType::Unknown(id)
        }
    }

    /// The kind that a number stands for.
    pub fn from_id(id: u8) -> (r: Self)
        ensures
            r == Self::of_id(id),
    {
        match id {
            1 => RtmpMessageType::SetChunkSize,
            3 => RtmpMessageType::Acknowledgement,
            4 => RtmpMessageType::UserControl,
            5 => RtmpMessageType::WindowAckSize,
            6 => RtmpMessageType::SetPeerBw,
            8 => RtmpMessageType::Audio,
            9 => RtmpMessageType::Video,
            17 => RtmpMessageType::AmfCommand3,
            20 => RtmpMessageType::AmfCommand,
            other => RtmpMessageType::Unknown(other),
        }
    }
}

/// An RTMP message.
#[derive(Debug)]
pub struct RtmpMessage {
    pub msg_type: RtmpMessageType,
    /// Milliseconds.
    pub timestamp: u32,
    pub stream_id: u32,
    pub data: Bytes,
}

/// What an RTMP message says.
#[verifier::ext_equal]
pub struct MessageModel {
    pub msg_type: RtmpMessageType,
    pub timestamp: u32,
    pub stream_id: u32,
    pub data: Seq<u8>,
}

impl View for RtmpMessage {
    type V = MessageModel;

    open spec fn view(&self) -> MessageModel {
        MessageModel {
            msg_type: self.msg_type,
            timestamp: self.timestamp,
            stream_id: self.stream_id,
            data: bytes_seq(self.data),
        }
    }
}

// ---------------------------------------------------------------------------
// Reading messages
// ---------------------------------------------------------------------------

/// The four-byte number at `pos`, least significant byte first.
pub open spec fn num32_le(s: Seq<u8>, pos: int) -> int {
    s[pos + 3] * 0x1000000 + s[pos + 2] * 0x10000 + s[pos + 1] * 0x100 + s[pos]
}

/// The length of the basic header that starts with `first`.
pub open spec fn basic_header_len(first: u8) -> int {
    if first % 64 == 0 {
        2
    } else if first % 64 == 1 {
        3
    } else {
        1
    }
}

/// The length of the message header, by the format in the upper two bits of `first`.
pub open spec fn message_header_len(first: u8) -> int {
    if first / 64 == 0 {
        11
    } else if first / 64 == 1 {
        7
    } else if first / 64 == 2 {
        3
    } else {
        0
    }
}

/// The bytes that a payload takes up: behind each full chunk but the last stands a one-byte
/// header.
pub open spec fn chunked_len(len: int, chunk: int) -> int {
    if len == 0 {
        0
    } else {
        len + (len - 1) / chunk
    }
}

/// The payload of `len` bytes that starts at `at`, without the headers between its chunks.
pub open spec fn dechunked(s: Seq<u8>, at: int, len: int, chunk: int) -> Seq<u8> {
    Seq::new(len as nat, |i: int| s[at + i + i / chunk])
}

/// What can be said of the bytes read so far.
#[verifier::ext_equal]
pub enum Parsed {
    /// At least this many bytes more belong to the message.
    Need(int),
    /// A whole message, which takes up this many bytes.
    Done(MessageModel, int),
    /// Chunks of no bytes never make up the message.
    Endless,
}

/// The message at the beginning of `s`, read with the given chunk size.
pub open spec fn parse_message(s: Seq<u8>, chunk: nat) -> Parsed {
    if s.len() == 0 {
        Parsed::Need(1)
    } else {
        let basic = basic_header_len(s[0]);
        let header = message_header_len(s[0]);
        let fixed = basic + header;
        if s.len() < fixed {
            Parsed::Need(fixed - s.len())
        } else {
            let short_time = if header >= 3 {
                num24(s, basic)
            } else {
                0
            };
            let extended = short_time == 0xFFFFFF;
            let at = if extended {
                fixed + 4
            } else {
                fixed
            };
            let len = if header >= 7 {
                num24(s, basic + 3)
            } else {
                0
            };
            if s.len() < at {
                Parsed::Need(at - s.len())
            } else if len > 0 && chunk == 0 {
                Parsed::Endless
            } else if s.len() < at + chunked_len(len, chunk as int) {
                Parsed::Need(at + chunked_len(len, chunk as int) - s.len())
            } else {
                Parsed::Done(
                    MessageModel {
                        msg_type: RtmpMessageType::of_id(
                            if header >= 7 {
                                s[basic + 6]
                            } else {
                                0
                            },
                        ),
                        timestamp: (if extended {
                            num32(s, fixed)
                        } else {
                            short_time
                        }) as u32,
                        stream_id: (if header == 11 {
                            num32_le(s, basic + 7)
                        } else {
                            0
                        }) as u32,
                        data: dechunked(s, at, len, chunk as int),
                    },
                    at + chunked_len(len, chunk as int),
                )
            }
        }
    }
}

/// How far a message has been read.
#[derive(Debug)]
pub enum Progress {
    /// At least this many bytes more belong to the message.
    Need(usize),
    /// A whole message, and the number of bytes it took up.
    Done(RtmpMessage, usize),
    /// The message can never be completed, because the chunk size is 0.
    Endless,
}

/// What the progress says.
pub open spec fn progress_of(p: Progress) -> Parsed {
    match p {
        Progress::Need(n) => Parsed::Need(n as int),
        Progress::Done(m, n) => Parsed::Done(m@, n as int),
        Progress::Endless => Parsed::Endless,
    }
}

fn read_u24(s: &[u8], pos: usize) -> (r: u32)
    requires
        pos + 3 <= s@.len(),
    ensures
        r == num24(s@, pos as int),
        r < 0x1000000,
{
    s[pos] as u32 * 0x10000 + s[pos + 1] as u32 * 0x100 + s[pos + 2] as u32
}

fn read_u32(s: &[u8], pos: usize) -> (r: u32)
    requires
        pos + 4 <= s@.len(),
    ensures
        r == num32(s@, pos as int),
{
    s[pos] as u32 * 0x1000000 + s[pos + 1] as u32 * 0x10000 + s[pos + 2] as u32 * 0x100
        + s[pos + 3] as u32
}

fn read_u32_le(s: &[u8], pos: usize) -> (r: u32)
    requires
        pos + 4 <= s@.len(),
    ensures
        r == num32_le(s@, pos as int),
{
    s[pos] as u32 + s[pos + 1] as u32 * 0x100 + s[pos + 2] as u32 * 0x10000 + s[pos + 3] as u32
        * 0x1000000
}

/// Reads RTMP messages out of the bytes of a connection.
#[derive(Debug)]
pub struct ChunkReader {
    chunk_size: usize,
}

impl ChunkReader {
    /// The number of payload bytes in a full chunk.
    pub closed spec fn size(self) -> nat {
        self.chunk_size as nat
    }

    /// A reader with the chunk size that RTMP starts with.
    pub fn new() -> (r: Self)
        ensures
            r.size() == 128,
    {
        ChunkReader { chunk_size: 128 }
    }

    /// Changes the chunk size; it never exceeds its limit.
    pub fn set_chunk_size(&mut self, size: usize)
        ensures
            final(self).size() == if size <= MAX_RTMP_CHUNK_SIZE {
                size as nat
            } else {
                MAX_RTMP_CHUNK_SIZE as nat
            },
    {
        self.chunk_size = if size <= MAX_RTMP_CHUNK_SIZE {
            size
        } else {
            MAX_RTMP_CHUNK_SIZE
        };
    }

    /// Reads the message at the beginning of `input`, which holds the bytes received since the
    /// previous message.
    pub fn read_message(&self, input: &Vec<u8>) -> (r: Progress)
        ensures
            progress_of(r) == parse_message(input@, self.size()),
    {
        if input.len() == 0 {
            return Progress::Need(1);
        }
        let first = input[0];
        let basic: usize = match first % 64 {
            0 => 2,
            1 => 3,
            _ => 1,
        };
        let header: usize = match first / 64 {
            0 => 11,
            1 => 7,
            2 => 3,
            _ => 0,
        };
        let fixed: usize = basic + header;
        if input.len() < fixed {
            return Progress::Need(fixed - input.len());
        }
        let short_time: u32 = if header >= 3 {
            read_u24(input.as_slice(), basic)
        } else {
            0
        };
        let extended = short_time == 0xFFFFFF;
        let at: usize = if extended {
            fixed + 4
        } else {
            fixed
        };
        let len: usize = if header >= 7 {
            read_u24(input.as_slice(), basic + 3) as usize
        } else {
            0
        };
        if input.len() < at {
            return Progress::Need(at - input.len());
        }
        if len > 0 && self.chunk_size == 0 {
            return Progress::Endless;
        }
        let total: usize = if len == 0 {
            0
        } else {
            proof {
                assert((len - 1) / self.chunk_size as int <= len - 1) by (nonlinear_arith)
                    requires
                        len >= 1,
                        self.chunk_size >= 1,
                ;
            }
            len + (len - 1) / self.chunk_size
        };
        if input.len() < at + total {
            return Progress::Need(at + total - input.len());
        }
        let timestamp: u32 = if extended {
            read_u32(input.as_slice(), fixed)
        } else {
            short_time
        };
        let stream_id: u32 = if header == 11 {
            read_u32_le(input.as_slice(), basic + 7)
        } else {
            0
        };
        let msg_type = RtmpMessageType::from_id(
            if header >= 7 {
                input[basic + 6]
            } else {
                0
            },
        );
        let mut data = buf_new();
        let mut i: usize = 0;
        let chunk = self.chunk_size;
        while i < len
            invariant
                i <= len,
                len > 0 ==> chunk > 0,
                len < 0x1000000,
                at <= 18,
                at + chunked_len(len as int, chunk as int) <= input@.len(),
                buf_seq(data) == dechunked(input@, at as int, i as int, chunk as int),
            decreases len - i,
        {
            proof {
                vstd::arithmetic::div_mod::lemma_div_is_ordered(
                    i as int,
                    len - 1,
                    chunk as int,
                );
                assert(i as int / chunk as int <= i) by (nonlinear_arith)
                    requires
                        chunk >= 1,
                        i >= 0,
                ;
            }
            buf_put_u8(&mut data, input[at + i + i / chunk]);
            i = i + 1;
            assert(buf_seq(data) =~= dechunked(input@, at as int, i as int, chunk as int));
        }
        proof {
            assert(buf_seq(data) =~= dechunked(input@, at as int, len as int, chunk as int));
        }
        Progress::Done(RtmpMessage { msg_type, timestamp, stream_id, data: buf_freeze(data) }, at + total)
    }
}

// ---------------------------------------------------------------------------
// Writing messages
// ---------------------------------------------------------------------------

/// A message in one chunk, with a full header and timestamp 0. Commands go on chunk stream 3, the
/// rest on 2.
pub open spec fn message_bytes(msg_type: u8, stream_id: u32, data: Seq<u8>) -> Seq<u8> {
    seq![
        if msg_type == 20 {
            3u8
        } else {
            2u8
        },
        0u8,
        0u8,
        0u8,
    ] + be24((data.len() % 0x1_0000_0000) as u32) + seq![msg_type] + le32(stream_id) + data
}

/// Appends a message.
pub fn write_rtmp_message(buf: &mut BytesMut, msg_type: u8, stream_id: u32, data: &[u8])
    ensures
        buf_seq(*final(buf)) == buf_seq(*old(buf)) + message_bytes(msg_type, stream_id, data@),
{
    let csid: u8 = if msg_type == 20 {
        3
    } else {
        2
    };
    buf_put_u8(buf, csid);
    buf_put_u8(buf, 0);
    buf_put_u8(buf, 0);
    buf_put_u8(buf, 0);
    let len64: u64 = data.len() as u64;
    let len: u32 = (len64 % 0x1_0000_0000) as u32;
    buf_put_u8(buf, (len / 0x10000 % 0x100) as u8);
    buf_put_u8(buf, (len / 0x100 % 0x100) as u8);
    buf_put_u8(buf, (len % 0x100) as u8);
    buf_put_u8(buf, msg_type);
    buf_put_u32_le(buf, stream_id);
    buf_extend(buf, data);
    assert(buf_seq(*buf) =~= buf_seq(*old(buf)) + message_bytes(msg_type, stream_id, data@));
}

/// A written message is read back as it was, by a reader whose chunk size holds it whole.
pub proof fn written_message_reads_back(msg_type: u8, stream_id: u32, data: Seq<u8>, chunk: nat)
    requires
        data.len() <= chunk,
        data.len() < 0x1000000,
    ensures
        parse_message(message_bytes(msg_type, stream_id, data), chunk) == Parsed::Done(
            MessageModel {
                msg_type: RtmpMessageType::of_id(msg_type),
                timestamp: 0,
                stream_id,
                data,
            },
            12 + data.len() as int,
        ),
{
    let s = message_bytes(msg_type, stream_id, data);
    let len = data.len() as int;
    assert(num24(s, 1) == 0);
    assert(num24(s, 4) == len);
    assert(num32_le(s, 8) == stream_id);
    if len > 0 {
        assert((len - 1) / chunk as int == 0) by (nonlinear_arith)
            requires
                0 <= len - 1 < chunk,
        ;
    }
    assert forall|i: int| 0 <= i < len implies #[trigger] s[12 + i + i / chunk as int] == data[i] by {
        assert(i / chunk as int == 0) by (nonlinear_arith)
            requires
                0 <= i < chunk,
        ;
    }
    assert(dechunked(s, 12, len, chunk as int) =~= data);
}

// ---------------------------------------------------------------------------
// Handshake
// ---------------------------------------------------------------------------

/// The answer to the client's first packets: the version, a packet of time 0 and fill bytes, and
/// the client's packet again.
pub open spec fn handshake_answer(c1: Seq<u8>) -> Seq<u8> {
    seq![RTMP_VERSION] + be32(0) + be32(0) + Seq::new((HANDSHAKE_SIZE - 8) as nat, |i: int| 0xABu8)
        + c1
}

/// Checks the version that the client sent.
pub fn check_version(version: u8) -> (r: Result<(), IngestError>)
    ensures
        r is Ok <==> version == RTMP_VERSION,
        r matches Err(e) ==> e@ == (IngestFault::InvalidRtmpVersion { version }),
{
    if version != RTMP_VERSION {
        Err(IngestError::InvalidRtmpVersion { version })
    } else {
        Ok(())
    }
}

/// Builds the answer to the client's first packets.
pub fn handshake_response(c1: &[u8]) -> (r: Bytes)
    ensures
        bytes_seq(r) == handshake_answer(c1@),
{
    let mut out = buf_new();
    buf_put_u8(&mut out, RTMP_VERSION);
    assert(buf_seq(out) =~= seq![RTMP_VERSION]);
    buf_put_u32(&mut out, 0);
    buf_put_u32(&mut out, 0);
    let ghost head = buf_seq(out);
    let fill: usize = HANDSHAKE_SIZE - 8;
    let mut i: usize = 0;
    assert(buf_seq(out) =~= head + Seq::new(0, |i: int| 0xABu8));
    while i < fill
        invariant
            i <= fill,
            buf_seq(out) == head + Seq::new(i as nat, |i: int| 0xABu8),
        decreases fill - i,
    {
        buf_put_u8(&mut out, 0xAB);
        i = i + 1;
        assert(buf_seq(out) =~= head + Seq::new(i as nat, |i: int| 0xABu8));
    }
    buf_extend(&mut out, c1);
    buf_freeze(out)
}

// ---------------------------------------------------------------------------
// Commands
// ---------------------------------------------------------------------------

/// The commands of an encoder.
#[derive(Debug)]
pub enum RtmpCommand {
    Connect { app: String },
    ReleaseStream,
    FcPublish,
    CreateStream,
    Publish { stream_key: String },
    DeleteStream,
    Unknown(String),
}

/// What a command says.
#[verifier::ext_equal]
pub enum Command {
    Connect { app: Seq<char> },
    ReleaseStream,
    FcPublish,
    CreateStream,
    Publish { stream_key: Seq<char> },
    DeleteStream,
    Unknown(Seq<char>),
}

impl View for RtmpCommand {
    type V = Command;

    open spec fn view(&self) -> Command {
        match *self {
            RtmpCommand::Connect { app } => Command::Connect { app: app@ },
            RtmpCommand::ReleaseStream => Command::ReleaseStream,
            RtmpCommand::FcPublish => Command::FcPublish,
            RtmpCommand::CreateStream => Command::CreateStream,
            RtmpCommand::Publish { stream_key } => Command::Publish { stream_key: stream_key@ },
            RtmpCommand::DeleteStream => Command::DeleteStream,
            RtmpCommand::Unknown(name) => Command::Unknown(name@),
        }
    }
}

/// A string stands at `pos`: a marker, a length of two bytes, and that many bytes of UTF-8.
pub open spec fn string_at(data: Seq<u8>, pos: int) -> bool {
    data[pos] == 0x02 && pos + 3 + num16(data, pos + 1) <= data.len() && valid_utf8(
        data.subrange(pos + 3, pos + 3 + num16(data, pos + 1)),
    )
}

/// The string at `pos`.
pub open spec fn string_value(data: Seq<u8>, pos: int) -> Seq<char> {
    decode_utf8(data.subrange(pos + 3, pos + 3 + num16(data, pos + 1)))
}

/// The first string that stands at `pos` or behind it. At least one byte must follow its length.
pub open spec fn first_string(data: Seq<u8>, pos: int) -> Option<Seq<char>>
    decreases data.len() - pos,
{
    if pos < 0 || pos + 3 >= data.len() {
        None
    } else if string_at(data, pos) {
        Some(string_value(data, pos))
    } else {
        first_string(data, pos + 1)
    }
}

/// The first string among the values from `pos` on: numbers take nine bytes, anything else that
/// is no string one.
pub open spec fn publish_key(data: Seq<u8>, pos: int) -> Option<Seq<char>>
    decreases data.len() - pos,
{
    if pos < 0 || pos >= data.len() {
        None
    } else if data[pos] == 0x00 {
        if pos + 9 < data.len() {
            publish_key(data, pos + 9)
        } else {
            None
        }
    } else if data[pos] == 0x02 {
        if pos + 2 < data.len() && string_at(data, pos) {
            Some(string_value(data, pos))
        } else {
            None
        }
    } else {
        publish_key(data, pos + 1)
    }
}

/// The command of the given name with the arguments `rest`.
pub open spec fn named_command(name: Seq<char>, rest: Seq<u8>) -> Command {
    if name == "connect"@ {
        Command::Connect {
            app: match first_string(rest, 0) {
                Some(app) => app,
                None => "live"@,
            },
        }
    } else if name == "releaseStream"@ {
        Command::ReleaseStream
    } else if name == "FCPublish"@ {
        Command::FcPublish
    } else if name == "createStream"@ {
        Command::CreateStream
    } else if name == "publish"@ {
        Command::Publish {
            stream_key: match publish_key(rest, 0) {
                Some(key) => key,
                None => Seq::empty(),
            },
        }
    } else if name == "deleteStream"@ {
        Command::DeleteStream
    } else {
        Command::Unknown(name)
    }
}

/// The command that a message body holds, or why it holds none.
pub open spec fn amf_command(data: Seq<u8>) -> Result<Command, IngestFault> {
    if data.len() < 3 || data[0] != 0x02 {
        Err(IngestFault::MalformedAmf { reason: "expected AMF0 string marker"@ })
    } else {
        let len = num16(data, 1);
        if len > MAX_AMF_STRING_LENGTH {
            Err(
                IngestFault::MalformedAmf {
                    reason: "AMF string length "@ + decimal(len as nat) + " exceeds max "@
                        + decimal(MAX_AMF_STRING_LENGTH as nat),
                },
            )
        } else if data.len() < 3 + len {
            Err(IngestFault::MalformedAmf { reason: "AMF0 string length exceeds data"@ })
        } else if !valid_utf8(data.subrange(3, 3 + len)) {
            Err(IngestFault::MalformedAmf { reason: "invalid UTF-8 in command name"@ })
        } else {
            Ok(
                named_command(
                    decode_utf8(data.subrange(3, 3 + len)),
                    data.subrange(3 + len, data.len() as int),
                ),
            )
        }
    }
}

fn malformed(reason: &str) -> (r: IngestError)
    ensures
        r@ == (IngestFault::MalformedAmf { reason: reason@ }),
{
    IngestError::MalformedAmf { reason: text::owned(reason) }
}

/// Reads the command of a message body.
pub fn parse_amf_command(data: &[u8]) -> (r: Result<RtmpCommand, IngestError>)
    ensures
        match amf_command(data@) {
            Ok(c) => r matches Ok(x) && x@ == c,
            Err(f) => r matches Err(e) && e@ == f,
        },
{
    if data.len() < 3 || data[0] != 0x02 {
        return Err(malformed("expected AMF0 string marker"));
    }
    let len: usize = data[1] as usize * 0x100 + data[2] as usize;
    if len > MAX_AMF_STRING_LENGTH {
        let mut reason = text::owned("AMF string length ");
        text::push_decimal(&mut reason, len as u64);
        reason.append(" exceeds max ");
        text::push_decimal(&mut reason, MAX_AMF_STRING_LENGTH as u64);
        return Err(IngestError::MalformedAmf { reason });
    }
    if data.len() < 3 + len {
        return Err(malformed("AMF0 string length exceeds data"));
    }
    let name = match text::text_of_utf8(vstd::slice::slice_subrange(data, 3, 3 + len)) {
        Some(name) => name,
        None => {
            return Err(malformed("invalid UTF-8 in command name"));
        },
    };
    let rest = vstd::slice::slice_subrange(data, 3 + len, data.len());
    if text::same(&name, "connect") {
        let app = match extract_amf_string_field(rest) {
            Some(app) => app,
            None => text::owned("live"),
        };
        Ok(RtmpCommand::Connect { app })
    } else if text::same(&name, "releaseStream") {
        Ok(RtmpCommand::ReleaseStream)
    } else if text::same(&name, "FCPublish") {
        Ok(RtmpCommand::FcPublish)
    } else if text::same(&name, "createStream") {
        Ok(RtmpCommand::CreateStream)
    } else if text::same(&name, "publish") {
        let stream_key = match extract_publish_stream_key(rest) {
            Some(key) => key,
            None => String::new(),
        };
        Ok(RtmpCommand::Publish { stream_key })
    } else if text::same(&name, "deleteStream") {
        Ok(RtmpCommand::DeleteStream)
    } else {
        Ok(RtmpCommand::Unknown(name))
    }
}

/// The string at `pos`, if one stands there.
fn read_string(data: &[u8], pos: usize) -> (r: Option<String>)
    requires
        pos + 2 < data@.len(),
    ensures
        r is Some <==> string_at(data@, pos as int),
        r matches Some(s) ==> s@ == string_value(data@, pos as int),
{
    if data[pos] != 0x02 {
        return None;
    }
    let len: usize = data[pos + 1] as usize * 0x100 + data[pos + 2] as usize;
    let start: usize = pos + 3;
    if len > data.len() - start {
        return None;
    }
    text::text_of_utf8(vstd::slice::slice_subrange(data, start, start + len))
}

/// The first string in the arguments of a command, wherever it stands.
pub fn extract_amf_string_field(data: &[u8]) -> (r: Option<String>)
    ensures
        match first_string(data@, 0) {
            Some(s) => r matches Some(x) && x@ == s,
            None => r is None,
        },
{
    let mut pos: usize = 0;
    while data.len() > 3 && pos < data.len() - 3
        invariant
            pos <= data@.len(),
            first_string(data@, 0) == first_string(data@, pos as int),
        decreases data@.len() - pos,
    {
        let found = read_string(data, pos);
        if found.is_some() {
            return found;
        }
        pos = pos + 1;
    }
    None
}

/// The stream key in the arguments of a publish command: its first string.
pub fn extract_publish_stream_key(data: &[u8]) -> (r: Option<String>)
    ensures
        match publish_key(data@, 0) {
            Some(s) => r matches Some(x) && x@ == s,
            None => r is None,
        },
{
    let mut pos: usize = 0;
    while pos < data.len()
        invariant
            pos <= data@.len(),
            publish_key(data@, 0) == publish_key(data@, pos as int),
        decreases data@.len() - pos,
    {
        if data[pos] == 0x00 {
            if data.len() - pos <= 9 {
                return None;
            }
            pos = pos + 9;
        } else if data[pos] == 0x02 {
            if data.len() - pos <= 2 {
                return None;
            }
            return read_string(data, pos);
        } else {
            pos = pos + 1;
        }
    }
    None
}

// ---------------------------------------------------------------------------
// Answers
// ---------------------------------------------------------------------------

/// The AMF0 string "_result".
pub open spec fn result_name() -> Seq<u8> {
    seq![0x02u8] + be16(7) + encode_utf8("_result"@)
}

/// The AMF0 number 0.
pub open spec fn amf_zero() -> Seq<u8> {
    seq![0x00u8] + zeros(8)
}

/// The AMF0 number 1.
pub open spec fn amf_one() -> Seq<u8> {
    seq![0x00u8, 0x3Fu8, 0xF0u8] + zeros(6)
}

/// The body of the answer to "connect": transaction 1, an empty object, and an object that says
/// so.
pub open spec fn connect_result_body() -> Seq<u8> {
    result_name() + amf_one() + seq![0x03u8, 0x00u8, 0x00u8, 0x09u8, 0x03u8] + be16(4)
        + encode_utf8("code"@) + seq![0x02u8] + be16(29) + encode_utf8(
        "NetConnection.Connect.Success"@,
    ) + seq![0x00u8, 0x00u8, 0x09u8]
}

/// The body of a plain answer: transaction 0 and null.
pub open spec fn generic_result_body() -> Seq<u8> {
    result_name() + amf_zero() + seq![0x05u8]
}

/// The body of the answer to "createStream": transaction 0, null, and the stream number 1.
pub open spec fn create_stream_result_body() -> Seq<u8> {
    generic_result_body() + amf_one()
}

/// The answer to "connect": window size, peer bandwidth, result.
pub open spec fn connect_answer() -> Seq<u8> {
    message_bytes(5, 0, be32(2500000)) + message_bytes(6, 0, be32(2500000) + seq![2u8])
        + message_bytes(20, 0, connect_result_body())
}

fn put_result_name(b: &mut BytesMut)
    ensures
        buf_seq(*final(b)) == buf_seq(*old(b)) + result_name(),
{
    buf_put_u8(b, 0x02);
    buf_put_u16(b, 7);
    let name = "_result";
    buf_extend(b, name.as_bytes());
    assert(buf_seq(*b) =~= buf_seq(*old(b)) + result_name());
}

fn put_amf_one(b: &mut BytesMut)
    ensures
        buf_seq(*final(b)) == buf_seq(*old(b)) + amf_one(),
{
    buf_put_u8(b, 0x00);
    buf_put_u8(b, 0x3F);
    buf_put_u8(b, 0xF0);
    buf_put_zeros(b, 6);
    assert(buf_seq(*b) =~= buf_seq(*old(b)) + amf_one());
}

fn put_amf_zero(b: &mut BytesMut)
    ensures
        buf_seq(*final(b)) == buf_seq(*old(b)) + amf_zero(),
{
    buf_put_u8(b, 0x00);
    buf_put_zeros(b, 8);
    assert(buf_seq(*b) =~= buf_seq(*old(b)) + amf_zero());
}

/// Builds the body of the answer to "connect".
pub fn build_connect_result_amf() -> (r: Bytes)
    ensures
        bytes_seq(r) == connect_result_body(),
{
    let mut b = buf_new();
    put_result_name(&mut b);
    assert(buf_seq(b) =~= result_name());
    put_amf_one(&mut b);
    let ghost before = buf_seq(b);
    buf_put_u8(&mut b, 0x03);
    buf_put_u8(&mut b, 0x00);
    buf_put_u8(&mut b, 0x00);
    buf_put_u8(&mut b, 0x09);
    buf_put_u8(&mut b, 0x03);
    assert(buf_seq(b) =~= before + seq![0x03u8, 0x00u8, 0x00u8, 0x09u8, 0x03u8]);
    buf_put_u16(&mut b, 4);
    let label = "code";
    buf_extend(&mut b, label.as_bytes());
    let ghost before = buf_seq(b);
    buf_put_u8(&mut b, 0x02);
    assert(buf_seq(b) =~= before + seq![0x02u8]);
    buf_put_u16(&mut b, 29);
    let code = "NetConnection.Connect.Success";
    buf_extend(&mut b, code.as_bytes());
    let ghost before = buf_seq(b);
    buf_put_u8(&mut b, 0x00);
    buf_put_u8(&mut b, 0x00);
    buf_put_u8(&mut b, 0x09);
    assert(buf_seq(b) =~= before + seq![0x00u8, 0x00u8, 0x09u8]);
    buf_freeze(b)
}

fn generic_result() -> (r: BytesMut)
    ensures
        buf_seq(r) == generic_result_body(),
{
    let mut b = buf_new();
    put_result_name(&mut b);
    assert(buf_seq(b) =~= result_name());
    put_amf_zero(&mut b);
    let ghost before = buf_seq(b);
    buf_put_u8(&mut b, 0x05);
    assert(buf_seq(b) =~= before + seq![0x05u8]);
    b
}

/// Builds the body of a plain answer.
pub fn build_generic_result_amf() -> (r: Bytes)
    ensures
        bytes_seq(r) == generic_result_body(),
{
    buf_freeze(generic_result())
}

/// Builds the body of the answer to "createStream".
pub fn build_create_stream_result_amf() -> (r: Bytes)
    ensures
        bytes_seq(r) == create_stream_result_body(),
{
    let mut b = generic_result();
    put_amf_one(&mut b);
    buf_freeze(b)
}

/// What is sent back for "connect".
pub fn connect_result() -> (r: Bytes)
    ensures
        bytes_seq(r) == connect_answer(),
{
    let mut window = buf_new();
    buf_put_u32(&mut window, 2500000);
    assert(buf_seq(window) =~= be32(2500000));
    let mut out = buf_new();
    write_rtmp_message(&mut out, 5, 0, buf_slice(&window));
    assert(buf_seq(out) =~= message_bytes(5, 0, be32(2500000)));
    let ghost before = buf_seq(window);
    buf_put_u8(&mut window, 2);
    assert(buf_seq(window) =~= before + seq![2u8]);
    write_rtmp_message(&mut out, 6, 0, buf_slice(&window));
    let body = build_connect_result_amf();
    write_rtmp_message(&mut out, 20, 0, bytes_slice(&body));
    buf_freeze(out)
}

fn command_reply(body: &Bytes) -> (r: Bytes)
    ensures
        bytes_seq(r) == message_bytes(20, 0, bytes_seq(*body)),
{
    let mut out = buf_new();
    write_rtmp_message(&mut out, 20, 0, bytes_slice(body));
    assert(buf_seq(out) =~= message_bytes(20, 0, bytes_seq(*body)));
    buf_freeze(out)
}

/// What is sent back for a command that is only acknowledged.
pub fn command_result() -> (r: Bytes)
    ensures
        bytes_seq(r) == message_bytes(20, 0, generic_result_body()),
{
    let body = build_generic_result_amf();
    command_reply(&body)
}

/// What is sent back for "createStream".
pub fn create_stream_result() -> (r: Bytes)
    ensures
        bytes_seq(r) == message_bytes(20, 0, create_stream_result_body()),
{
    let body = build_create_stream_result_amf();
    command_reply(&body)
}

// ---------------------------------------------------------------------------
// The command phase
// ---------------------------------------------------------------------------

/// What to do after a message of the command phase.
#[derive(Debug)]
pub enum CommandStep {
    /// Read on.
    Continue,
    /// Send these bytes, then read on.
    Reply(Bytes),
    /// The encoder publishes with this stream key.
    Publish(String),
}

/// What a step says.
#[verifier::ext_equal]
pub enum StepModel {
    Continue,
    Reply(Seq<u8>),
    Publish(Seq<char>),
    /// The encoder deletes its stream: the connection ends.
    Reset,
    Fault(IngestFault),
}

/// What to do after a message of the command phase.
pub open spec fn command_step(msg: MessageModel) -> StepModel {
    if msg.msg_type == RtmpMessageType::AmfCommand || msg.msg_type
        == RtmpMessageType::AmfCommand3 {
        match amf_command(msg.data) {
            Err(f) => StepModel::Fault(f),
            Ok(Command::Connect { .. }) => StepModel::Reply(connect_answer()),
            Ok(Command::ReleaseStream) => StepModel::Reply(
                message_bytes(20, 0, generic_result_body()),
            ),
            Ok(Command::FcPublish) => StepModel::Reply(message_bytes(20, 0, generic_result_body())),
            Ok(Command::CreateStream) => StepModel::Reply(
                message_bytes(20, 0, create_stream_result_body()),
            ),
            Ok(Command::Publish { stream_key }) => StepModel::Publish(stream_key),
            Ok(Command::DeleteStream) => StepModel::Reset,
            Ok(Command::Unknown(_)) => StepModel::Continue,
        }
    } else {
        StepModel::Continue
    }
}

/// The chunk size after a message.
pub open spec fn chunk_size_after(size: nat, msg: MessageModel) -> nat {
    if msg.msg_type == RtmpMessageType::SetChunkSize && msg.data.len() >= 4 {
        let asked = num32(msg.data, 0) as nat;
        if asked <= MAX_RTMP_CHUNK_SIZE {
            asked
        } else {
            MAX_RTMP_CHUNK_SIZE as nat
        }
    } else {
        size
    }
}

pub(crate) fn follow_chunk_size(reader: &mut ChunkReader, msg: &RtmpMessage)
    ensures
        final(reader).size() == chunk_size_after(old(reader).size(), msg@),
{
    if msg.msg_type == RtmpMessageType::SetChunkSize {
        let data = bytes_slice(&msg.data);
        if data.len() >= 4 {
            let asked: u32 = read_u32(data, 0);
            reader.set_chunk_size(asked as usize);
        }
    }
}

/// Handles a message before the encoder publishes.
pub fn process_command(reader: &mut ChunkReader, msg: &RtmpMessage) -> (r: Result<
    CommandStep,
    IngestError,
>)
    ensures
        final(reader).size() == chunk_size_after(old(reader).size(), msg@),
        match command_step(msg@) {
            StepModel::Continue => r == Ok::<_, IngestError>(CommandStep::Continue),
            StepModel::Reply(b) => r matches Ok(CommandStep::Reply(x)) && bytes_seq(x) == b,
            StepModel::Publish(k) => r matches Ok(CommandStep::Publish(x)) && x@ == k,
            StepModel::Reset => r matches Err(e) && e is ConnectionReset,
            StepModel::Fault(f) => r matches Err(e) && e@ == f,
        },
{
    match msg.msg_type {
        RtmpMessageType::AmfCommand | RtmpMessageType::AmfCommand3 => {
            match parse_amf_command(bytes_slice(&msg.data)) {
                Err(e) => Err(e),
                Ok(command) => match command {
                    RtmpCommand::Connect { .. } => Ok(CommandStep::Reply(connect_result())),
                    RtmpCommand::ReleaseStream | RtmpCommand::FcPublish => Ok(
                        CommandStep::Reply(command_result()),
                    ),
                    RtmpCommand::CreateStream => Ok(CommandStep::Reply(create_stream_result())),
                    RtmpCommand::Publish { stream_key } => Ok(CommandStep::Publish(stream_key)),
                    RtmpCommand::DeleteStream => Err(
                        IngestError::ConnectionReset { stream_id: StreamId::new() },
                    ),
                    RtmpCommand::Unknown(_) => Ok(CommandStep::Continue),
                },
            }
        },
        _ => {
            follow_chunk_size(reader, msg);
            Ok(CommandStep::Continue)
        },
    }
}

} // verus!
