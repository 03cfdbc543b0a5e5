//! Chunk headers, message decoding, the handshake and the server's replies.
use vstd::prelude::*;
use vstd::slice::slice_to_vec;
use vstd::string::*;

use crate::amf0::{
    ScalarModel,
    be32_bytes,
    ValueModel,
    leading_values,
    lemma_decode_encode,
    lemma_leading_values_prefix,
    lemma_number_roundtrip,
    number_to_u32,
    props_view,
    push_bytes,
    scalar_encodable,
    u32_to_number,
    value_encodable,
    values_bytes,
};
use crate::error::ProtocolError;
use crate::message::{
    AcknowledgementMessage,
    AudioData,
    BasicCommand,
    CommandObject,
    ConnectMessage,
    CreateStream,
    Event,
    FCPublish,
    OnStatus,
    Publish,
    ReleaseStream,
    ResultObject,
    RtmpMessage,
    SetChunkSizeMessage,
    SetDataFrame,
    VideoData,
    bytes_eq,
    command_name_of,
    command_object_value,
    connect_matches,
    connect_model,
    create_stream_model,
    data_frame_model,
    keyed_command_model,
    lemma_command_names_distinct,
    lemma_on_status_encodable,
    number_of,
    on_status_values,
    props_of,
    str_of,
    publish_model,
    result_values,
};
use crate::msg_type_id;

verus! {

/// The window acknowledgement size the server announces.
pub const WINDOW_ACKNOWLEDGEMENT_SIZE: u32 = 4096;

/// The peer bandwidth the server announces.
pub const SET_BANDWIDTH_SIZE: u32 = 4096;

/// The size of C1, C2, S1 and S2 in the handshake.
pub const HANDSHAKE_CHUNK_SIZE: usize = 1536;

/// The chunk size in force until the peer sets another.
pub const DEFAULT_CHUNK_SIZE: usize = 128;

// ---------------------------------------------------------------- bytes

/// The number that three bytes give, most significant first.
pub open spec fn be24(b0: u8, b1: u8, b2: u8) -> u32 {
    (b0 * 65536 + b1 * 256 + b2) as u32
}

/// The number that four bytes give, most significant first.
pub open spec fn be32(b0: u8, b1: u8, b2: u8, b3: u8) -> u32 {
    (b0 * 16777216 + b1 * 65536 + b2 * 256 + b3) as u32
}

/// The four bytes of `x`, most significant first.
pub open spec fn be_bytes(x: u32) -> Seq<u8> {
    be32_bytes(x as int)
}

/// `x` with its four bytes in the opposite order.
pub open spec fn swap_bytes(x: u32) -> u32 {
    let b = be_bytes(x);
    be32(b[3], b[2], b[1], b[0])
}

fn read_be24(b0: u8, b1: u8, b2: u8) -> (r: u32)
    ensures
        r == be24(b0, b1, b2),
{
    (b0 as u32) * 65536 + (b1 as u32) * 256 + (b2 as u32)
}

fn read_be32(b0: u8, b1: u8, b2: u8, b3: u8) -> (r: u32)
    ensures
        r == be32(b0, b1, b2, b3),
{
    (b0 as u32) * 16777216 + (b1 as u32) * 65536 + (b2 as u32) * 256 + (b3 as u32)
}

fn to_be_bytes(x: u32) -> (r: [u8; 4])
    ensures
        r@ == be_bytes(x),
{
    let r = [(x / 16777216) as u8, ((x / 65536) % 256) as u8, ((x / 256) % 256) as u8, (x % 256) as u8];
    assert(r@ =~= be_bytes(x));
    r
}

// --------------------------------------------------------- basic header

/// The first byte of a chunk: its format (two bits) and chunk stream id (six bits).
#[derive(Debug, Clone, Copy)]
pub struct ChunkBasicHeader {
    pub fmt: u8,
    pub cs: u8,
}

impl ChunkBasicHeader {
    /// Splits a chunk's first byte into its format and chunk stream id.
    pub fn new(byte: &u8) -> (h: ChunkBasicHeader)
        ensures
            h.fmt == *byte / 64,
            h.cs == *byte % 64,
            h.fmt <= 3,
            h.cs <= 63,
            *byte == h.fmt * 64 + h.cs,
    {
        let b = *byte;
        let cs = b & 0b_00111111;
        let fmt = (b >> 6) & 0b_00000011;
        assert(cs == b % 64) by (bit_vector)
            requires
                cs == b & 0b_00111111,
        ;
        assert(fmt == b / 64) by (bit_vector)
            requires
                fmt == (b >> 6) & 0b_00000011,
        ;
        ChunkBasicHeader { fmt, cs }
    }
}

enum ChunkFmt {
    Type0,
    Type1,
    Type2,
    Type3,
}

impl ChunkFmt {
    fn from_u8(value: u8) -> (r: Option<Self>)
        ensures
            value == 0 <==> r matches Some(ChunkFmt::Type0),
            value == 1 <==> r matches Some(ChunkFmt::Type1),
            value == 2 <==> r matches Some(ChunkFmt::Type2),
            value == 3 <==> r matches Some(ChunkFmt::Type3),
            value > 3 <==> r is None,
    {
        match value {
            0 => Some(Self::Type0),
            1 => Some(Self::Type1),
            2 => Some(Self::Type2),
            3 => Some(Self::Type3),
            _ => None,
        }
    }
}

/// How many bytes of message header follow a basic header of format `fmt`.
pub open spec fn header_size(fmt: u8) -> Option<usize> {
    if fmt == 0 {
        Some(11usize)
    } else if fmt == 1 {
        Some(7usize)
    } else if fmt == 2 {
        Some(3usize)
    } else if fmt == 3 {
        Some(0usize)
    } else {
        None
    }
}

/// The size of the message header that follows `header`: 11, 7, 3 or 0
/// bytes for formats 0 to 3; any other format is refused.
pub fn header_size_from_type(header: &ChunkBasicHeader) -> (r: Result<usize, ProtocolError>)
    ensures
        match header_size(header.fmt) {
            Some(n) => r == Ok::<usize, ProtocolError>(n),
            None => r == Err::<usize, ProtocolError>(ProtocolError::UnknownChunkFormat),
        },
{
    match ChunkFmt::from_u8(header.fmt) {
        Some(ChunkFmt::Type0) => return Ok(11usize),
        Some(ChunkFmt::Type1) => return Ok(7usize),
        Some(ChunkFmt::Type2) => return Ok(3usize),
        Some(ChunkFmt::Type3) => return Ok(0usize),
        _ => {},
    }
    Err(ProtocolError::UnknownChunkFormat)
}

// ------------------------------------------------------- message header

/// What the message header of a chunk says, and what a later chunk of
/// the same stream inherits from it.
#[derive(Debug, Clone, Copy, PartialEq, Eq, Structural)]
pub struct ChunkMessageHeader {
    pub timestamp: Option<u32>,
    pub timestamp_delta: Option<u32>,
    pub message_length: Option<u32>,
    pub stored_message_length: Option<u32>,
    pub message_type_id: Option<u8>,
    pub message_stream_id: Option<u32>,
}

/// The header with no field known.
pub open spec fn empty_header() -> ChunkMessageHeader {
    ChunkMessageHeader {
        timestamp: None,
        timestamp_delta: None,
        message_length: None,
        stored_message_length: None,
        message_type_id: None,
        message_stream_id: None,
    }
}

/// The header that an 11-byte type 0 message header gives: a 3-byte
/// timestamp and length, the type id, and the stream id read from the
/// last four bytes taken least significant first.
pub open spec fn type0_header(s: Seq<u8>) -> ChunkMessageHeader {
    let len = be24(s[3], s[4], s[5]);
    ChunkMessageHeader {
        timestamp: Some(be24(s[0], s[1], s[2])),
        timestamp_delta: None,
        message_length: Some(len),
        stored_message_length: Some(len),
        message_type_id: Some(s[6]),
        message_stream_id: Some(be32(s[10], s[9], s[8], s[7])),
    }
}

/// The header that a 7-byte type 1 message header gives: a timestamp
/// delta, a length and a type id.
pub open spec fn type1_header(s: Seq<u8>) -> ChunkMessageHeader {
    let len = be24(s[3], s[4], s[5]);
    ChunkMessageHeader {
        timestamp: None,
        timestamp_delta: Some(be24(s[0], s[1], s[2])),
        message_length: Some(len),
        stored_message_length: Some(len),
        message_type_id: Some(s[6]),
        message_stream_id: None,
    }
}

/// The header that a 3-byte type 2 message header gives: a timestamp delta.
pub open spec fn type2_header(s: Seq<u8>) -> ChunkMessageHeader {
    ChunkMessageHeader { timestamp_delta: Some(be24(s[0], s[1], s[2])), ..empty_header() }
}

impl ChunkMessageHeader {
    /// The header with no field known.
    pub fn default() -> (h: ChunkMessageHeader)
        ensures
            h == empty_header(),
    {
        ChunkMessageHeader {
            timestamp: None,
            timestamp_delta: None,
            message_length: None,
            stored_message_length: None,
            message_type_id: None,
            message_stream_id: None,
        }
    }

    /// Reads a type 0 message header.
    pub fn type0(bytes: &[u8]) -> (h: ChunkMessageHeader)
        requires
            bytes@.len() >= 11,
        ensures
            h == type0_header(bytes@),
    {
        let mut chunk_message_header = ChunkMessageHeader::default();
        let timestamp = read_be24(bytes[0], bytes[1], bytes[2]);
        let message_length = read_be24(bytes[3], bytes[4], bytes[5]);
        let message_type_id = bytes[6];
        let message_stream_id = read_be32(bytes[10], bytes[9], bytes[8], bytes[7]);
        chunk_message_header.timestamp = Some(timestamp);
        chunk_message_header.message_length = Some(message_length);
        chunk_message_header.stored_message_length = Some(message_length);
        chunk_message_header.message_type_id = Some(message_type_id);
        chunk_message_header.message_stream_id = Some(message_stream_id);
        chunk_message_header
    }

    /// Reads a type 1 message header.
    pub fn type1(bytes: &[u8]) -> (h: ChunkMessageHeader)
        requires
            bytes@.len() >= 7,
        ensures
            h == type1_header(bytes@),
    {
        let mut chunk_message_header = ChunkMessageHeader::default();
        let timestamp_delta = read_be24(bytes[0], bytes[1], bytes[2]);
        let message_length = read_be24(bytes[3], bytes[4], bytes[5]);
        let message_type_id = bytes[6];
        chunk_message_header.timestamp_delta = Some(timestamp_delta);
        chunk_message_header.message_length = Some(message_length);
        chunk_message_header.stored_message_length = Some(message_length);
        chunk_message_header.message_type_id = Some(message_type_id);
        chunk_message_header
    }

    /// Reads a type 2 message header.
    pub fn type2(bytes: &[u8]) -> (h: ChunkMessageHeader)
        requires
            bytes@.len() >= 3,
        ensures
            h == type2_header(bytes@),
    {
        let mut chunk_message_header = ChunkMessageHeader::default();
        chunk_message_header.timestamp_delta = Some(read_be24(bytes[0], bytes[1], bytes[2]));
        chunk_message_header
    }

    /// A type 3 chunk has no message header: nothing is known from it.
    pub fn type3() -> (h: ChunkMessageHeader)
        ensures
            h == empty_header(),
    {
        ChunkMessageHeader::default()
    }
}

/// The header in force after a chunk whose basic header has format `fmt`
/// and whose message header bytes are `data`, given the header `prev` in
/// force before it. Type 1 keeps the previous timestamp and stream id;
/// type 2 keeps those, the type id, and restores the length that the
/// previous header stored; type 3 keeps the previous header whole.
pub open spec fn next_header(data: Seq<u8>, fmt: u8, prev: ChunkMessageHeader) -> Result<
    ChunkMessageHeader,
    ProtocolError,
> {
    if fmt == 0 {
        Ok(type0_header(data))
    } else if fmt == 1 {
        Ok(
            ChunkMessageHeader {
                timestamp: prev.timestamp,
                message_stream_id: prev.message_stream_id,
                ..type1_header(data)
            },
        )
    } else if fmt == 2 {
        Ok(
            ChunkMessageHeader {
                timestamp: prev.timestamp,
                message_length: prev.stored_message_length,
                message_type_id: prev.message_type_id,
                message_stream_id: prev.message_stream_id,
                ..type2_header(data)
            },
        )
    } else if fmt == 3 {
        Ok(prev)
    } else {
        Err(ProtocolError::UnknownChunkFormat)
    }
}

/// Reads the message header `data` of a chunk whose basic header is
/// `header`, given the header `chunk` of the stream's previous chunk.
pub fn read_header(data: &Vec<u8>, header: ChunkBasicHeader, chunk: ChunkMessageHeader) -> (r:
    Result<ChunkMessageHeader, ProtocolError>)
    requires
        header_size(header.fmt) matches Some(n) ==> data@.len() >= n,
    ensures
        r == next_header(data@, header.fmt, chunk),
{
    match ChunkFmt::from_u8(header.fmt) {
        Some(ChunkFmt::Type0) => {
            let chunk_message_header = ChunkMessageHeader::type0(data.as_slice());
            return Ok(chunk_message_header);
        },
        Some(ChunkFmt::Type1) => {
            let mut chunk_message_header = ChunkMessageHeader::type1(data.as_slice());
            chunk_message_header.timestamp = chunk.timestamp;
            chunk_message_header.message_stream_id = chunk.message_stream_id;
            return Ok(chunk_message_header);
        },
        Some(ChunkFmt::Type2) => {
            let mut chunk_message_header = ChunkMessageHeader::type2(data.as_slice());
            chunk_message_header.timestamp = chunk.timestamp;
            chunk_message_header.message_length = chunk.stored_message_length;
            chunk_message_header.message_type_id = chunk.message_type_id;
            chunk_message_header.message_stream_id = chunk.message_stream_id;
            return Ok(chunk_message_header);
        },
        Some(ChunkFmt::Type3) => {
            return Ok(chunk);
        },
        _ => {},
    }
    Err(ProtocolError::UnknownChunkFormat)
}

// ------------------------------------------------------- writing headers

/// `dst` after `insert_bytes(dst, data, start, end)`: positions
/// `start..end` hold the last `end - start` bytes of `data` when that
/// count is three, its first `end - start` bytes otherwise.
pub open spec fn inserted(dst: Seq<u8>, data: u32, start: int, end: int) -> Seq<u8> {
    let off: int = if end - start == 3 {
        1
    } else {
        0
    };
    Seq::new(
        dst.len(),
        |k: int|
            if start <= k < end {
                be_bytes(data)[k - start + off]
            } else {
                dst[k]
            },
    )
}

fn insert_bytes(dst: &mut [u8; 12], data: u32, start_idx: usize, end_idx: usize)
    requires
        start_idx <= end_idx <= 12,
        end_idx - start_idx <= 4,
    ensures
        final(dst)@ == inserted(old(dst)@, data, start_idx as int, end_idx as int),
{
    let data_as_bytes = to_be_bytes(data);
    let mut i: usize = 0;
    if end_idx - start_idx == 3 {
        i = 1;
    }
    let ghost off: int = i as int;
    let mut idx: usize = start_idx;
    while idx < end_idx
        invariant
            start_idx <= idx <= end_idx <= 12,
            end_idx - start_idx <= 4,
            off == (if end_idx - start_idx == 3 {
                1int
            } else {
                0int
            }),
            i == idx - start_idx + off,
            data_as_bytes@ == be_bytes(data),
            dst@.len() == 12,
            forall|k: int|
                0 <= k < 12 ==> dst@[k] == (if start_idx <= k < idx {
                    be_bytes(data)[k - start_idx + off]
                } else {
                    old(dst)@[k]
                }),
        decreases end_idx - idx,
    {
        dst[idx] = data_as_bytes[i];
        i += 1;
        idx += 1;
    }
    assert(dst@ =~= inserted(old(dst)@, data, start_idx as int, end_idx as int));
}

/// The twelve bytes of a chunk with a type 0 header: the basic header
/// byte, the timestamp and the message length in three bytes each, the
/// type id, and the stream id in four bytes, most significant first.
pub open spec fn header_bytes(
    msg_type_id: u8,
    msg_len: u32,
    timestamp: u32,
    stream_id: u32,
    chunk_basic_header: u8,
) -> Seq<u8> {
    seq![chunk_basic_header] + be_bytes(timestamp).subrange(1, 4) + be_bytes(msg_len).subrange(1, 4)
        + seq![msg_type_id] + be_bytes(stream_id)
}

fn write_header(
    msg_type_id: u8,
    msg_len: u32,
    timestamp: u32,
    stream_id: u32,
    chunk_basic_header: u8,
) -> (header: [u8; 12])
    ensures
        header@ == header_bytes(msg_type_id, msg_len, timestamp, stream_id, chunk_basic_header),
{
    let mut header = [0u8; 12];
    header[0] = chunk_basic_header;
    insert_bytes(&mut header, timestamp, 1, 4);
    insert_bytes(&mut header, msg_len, 4, 7);
    header[7] = msg_type_id;
    insert_bytes(&mut header, stream_id, 8, 12);
    assert(header@ =~= header_bytes(msg_type_id, msg_len, timestamp, stream_id, chunk_basic_header));
    header
}


// ------------------------------------------------------------- messages

/// The 31 low bits of four bytes, most significant first: the payload of
/// Set Chunk Size and of Acknowledgement.
pub open spec fn be31(s: Seq<u8>) -> u32 {
    be32((s[0] % 128) as u8, s[1], s[2], s[3])
}

/// `r` is what `parse_message` gives for a message of header `chunk` and
/// payload `data`.
pub open spec fn parsed_message(
    chunk: ChunkMessageHeader,
    data: Seq<u8>,
    r: Result<RtmpMessage, ProtocolError>,
) -> bool {
    let t = chunk.message_type_id;
    if t == Some(msg_type_id::SET_CHUNK_SIZE) {
        r matches Ok(RtmpMessage::SetChunkSize(m)) && m.chunk_size == be31(data)
    } else if t == Some(msg_type_id::ACKNOWLEDGEMENT) {
        r matches Ok(RtmpMessage::Acknowledgement(m)) && m.sequence_number == be31(data)
    } else if t == Some(msg_type_id::AUDIO) {
        r matches Ok(RtmpMessage::AudioData(m)) && m.stream_id == chunk.message_stream_id->0
            && m.data@ == data
    } else if t == Some(msg_type_id::VIDEO) {
        r matches Ok(RtmpMessage::VideoData(m)) && m.stream_id == chunk.message_stream_id->0
            && m.data@ == data
    } else if t == Some(msg_type_id::DATA_AMF0) {
        match command_name_of(data) {
            None => r == Err::<RtmpMessage, ProtocolError>(ProtocolError::MalformedAmf),
            Some(name) => if name == "@setDataFrame".spec_bytes() {
                match data_frame_model(data) {
                    Some((n, d, p)) => r matches Ok(RtmpMessage::SetDataFrame(m))
                        && m.command_name@ == n && m.data_name@ == d && props_view(m.metadata@) == p,
                    None => r == Err::<RtmpMessage, ProtocolError>(ProtocolError::MalformedAmf),
                }
            } else {
                r == Err::<RtmpMessage, ProtocolError>(ProtocolError::UnknownData)
            },
        }
    } else if t == Some(msg_type_id::COMMAND_AMF0) {
        match command_name_of(data) {
            None => r == Err::<RtmpMessage, ProtocolError>(ProtocolError::MalformedAmf),
            Some(name) => if name == "connect".spec_bytes() {
                if connect_model(data) is Some {
                    r matches Ok(RtmpMessage::Connect(m)) && connect_matches(m, data)
                } else {
                    r == Err::<RtmpMessage, ProtocolError>(ProtocolError::MalformedAmf)
                }
            } else if name == "releaseStream".spec_bytes() {
                match keyed_command_model(data) {
                    Some((n, tid, k)) => r matches Ok(RtmpMessage::ReleaseStream(m))
                        && m.command_name@ == n && m.transaction_id == number_to_u32(tid)
                        && m.stream_key@ == k,
                    None => r == Err::<RtmpMessage, ProtocolError>(ProtocolError::MalformedAmf),
                }
            } else if name == "FCPublish".spec_bytes() {
                match keyed_command_model(data) {
                    Some((n, tid, k)) => r matches Ok(RtmpMessage::FCPublish(m))
                        && m.command_name@ == n && m.transaction_id == number_to_u32(tid)
                        && m.stream_key@ == k,
                    None => r == Err::<RtmpMessage, ProtocolError>(ProtocolError::MalformedAmf),
                }
            } else if name == "createStream".spec_bytes() {
                match create_stream_model(data) {
                    Some((n, tid)) => r matches Ok(RtmpMessage::CreateStream(m))
                        && m.command_name@ == n && m.transaction_id == number_to_u32(tid),
                    None => r == Err::<RtmpMessage, ProtocolError>(ProtocolError::MalformedAmf),
                }
            } else if name == "publish".spec_bytes() {
                match publish_model(data) {
                    Some((n, tid, k, ty)) => r matches Ok(RtmpMessage::Publish(m))
                        && m.command_name@ == n && m.transaction_id == number_to_u32(tid)
                        && m.stream_key@ == k && m.publish_type@ == ty,
                    None => r == Err::<RtmpMessage, ProtocolError>(ProtocolError::MalformedAmf),
                }
            } else {
                r == Err::<RtmpMessage, ProtocolError>(ProtocolError::UnknownCommand)
            },
        }
    } else {
        r == Err::<RtmpMessage, ProtocolError>(ProtocolError::UnknownMessageType)
    }
}

/// The error `parse_message` gives for a message of header `chunk` and
/// payload `data`, or nothing when it reads the message.
pub open spec fn parse_failure(chunk: ChunkMessageHeader, data: Seq<u8>) -> Option<ProtocolError> {
    let t = chunk.message_type_id;
    if t == Some(msg_type_id::SET_CHUNK_SIZE) || t == Some(msg_type_id::ACKNOWLEDGEMENT) || t
        == Some(msg_type_id::AUDIO) || t == Some(msg_type_id::VIDEO) {
        None
    } else if t == Some(msg_type_id::DATA_AMF0) {
        match command_name_of(data) {
            None => Some(ProtocolError::MalformedAmf),
            Some(name) => if name == "@setDataFrame".spec_bytes() {
                if data_frame_model(data) is Some {
                    None
                } else {
                    Some(ProtocolError::MalformedAmf)
                }
            } else {
                Some(ProtocolError::UnknownData)
            },
        }
    } else if t == Some(msg_type_id::COMMAND_AMF0) {
        match command_name_of(data) {
            None => Some(ProtocolError::MalformedAmf),
            Some(name) => {
                let found = if name == "connect".spec_bytes() {
                    connect_model(data) is Some
                } else if name == "releaseStream".spec_bytes() || name == "FCPublish".spec_bytes() {
                    keyed_command_model(data) is Some
                } else if name == "createStream".spec_bytes() {
                    create_stream_model(data) is Some
                } else if name == "publish".spec_bytes() {
                    publish_model(data) is Some
                } else {
                    true
                };
                if !found {
                    Some(ProtocolError::MalformedAmf)
                } else if name == "connect".spec_bytes() || name == "releaseStream".spec_bytes()
                    || name == "FCPublish".spec_bytes() || name == "createStream".spec_bytes()
                    || name == "publish".spec_bytes() {
                    None
                } else {
                    Some(ProtocolError::UnknownCommand)
                }
            },
        }
    } else {
        Some(ProtocolError::UnknownMessageType)
    }
}

/// Whether a command named `name` prepares a stream (releaseStream,
/// FCPublish), tried in the order `parse_message` tries the names it
/// knows.
pub open spec fn prepares_stream(name: Seq<u8>) -> bool {
    if name == "connect".spec_bytes() {
        false
    } else {
        name == "releaseStream".spec_bytes() || name == "FCPublish".spec_bytes()
    }
}

/// Whether the message of header `chunk` and payload `data` is one that a
/// read passes over when more bytes follow: Set Chunk Size, releaseStream
/// or FCPublish.
pub open spec fn passed_over(chunk: ChunkMessageHeader, data: Seq<u8>) -> bool {
    ||| chunk.message_type_id == Some(msg_type_id::SET_CHUNK_SIZE)
    ||| chunk.message_type_id == Some(msg_type_id::COMMAND_AMF0) && (command_name_of(data) matches Some(
        name,
    ) && prepares_stream(name))
}

/// What `parsed_message` says of failure, of the messages a read passes
/// over, and of Set Chunk Size.
pub proof fn lemma_parsed_message_shape(
    chunk: ChunkMessageHeader,
    data: Seq<u8>,
    r: Result<RtmpMessage, ProtocolError>,
)
    requires
        parsed_message(chunk, data, r),
    ensures
        r is Err <==> parse_failure(chunk, data) is Some,
        r matches Err(e) ==> parse_failure(chunk, data) == Some(e),
        r matches Ok(m) ==> (passed_over(chunk, data) <==> (m is SetChunkSize || m is ReleaseStream
            || m is FCPublish)),
        (r is Ok && chunk.message_type_id == Some(msg_type_id::SET_CHUNK_SIZE)) ==> (r matches Ok(
            RtmpMessage::SetChunkSize(c),
        ) && c.chunk_size == be31(data)),
{
}

/// What `parse_message` needs of its input: four payload bytes for Set
/// Chunk Size and Acknowledgement, and a stream id for audio and video.
pub open spec fn parse_message_requires(chunk: ChunkMessageHeader, data: Seq<u8>) -> bool {
    &&& (chunk.message_type_id == Some(msg_type_id::SET_CHUNK_SIZE) || chunk.message_type_id
        == Some(msg_type_id::ACKNOWLEDGEMENT)) ==> data.len() >= 4
    &&& (chunk.message_type_id == Some(msg_type_id::AUDIO) || chunk.message_type_id == Some(
        msg_type_id::VIDEO,
    )) ==> chunk.message_stream_id is Some
}

fn read_be31(data: &Vec<u8>) -> (r: u32)
    requires
        data@.len() >= 4,
    ensures
        r == be31(data@),
{
    let b0 = data[0];
    let tmp_data = (b0 << 1) >> 1;
    assert(tmp_data == b0 % 128) by (bit_vector)
        requires
            tmp_data == (b0 << 1) >> 1,
    ;
    read_be32(tmp_data, data[1], data[2], data[3])
}

/// Reads the payload `data` of a message whose header is `chunk`: Set
/// Chunk Size and Acknowledgement carry a 31-bit number; audio and video
/// carry their payload; AMF0 data and commands are told apart by their
/// name. Every other type of message is refused.
pub fn parse_message(chunk: ChunkMessageHeader, data: Vec<u8>) -> (r: Result<
    RtmpMessage,
    ProtocolError,
>)
    requires
        parse_message_requires(chunk, data@),
    ensures
        parsed_message(chunk, data@, r),
{
    match chunk.message_type_id {
        Some(msg_type_id::SET_CHUNK_SIZE) => {
            let chunk_size = read_be31(&data) as usize;
            let set_chunk_size = SetChunkSizeMessage::new(chunk_size);
            return Ok(RtmpMessage::SetChunkSize(set_chunk_size));
        },
        Some(msg_type_id::ACKNOWLEDGEMENT) => {
            let ack = AcknowledgementMessage::new(read_be31(&data));
            return Ok(RtmpMessage::Acknowledgement(ack));
        },
        Some(msg_type_id::AUDIO) => {
            let message = AudioData::new(chunk.message_stream_id.unwrap(), data);
            return Ok(RtmpMessage::AudioData(message));
        },
        Some(msg_type_id::VIDEO) => {
            let message = VideoData::new(chunk.message_stream_id.unwrap(), data);
            return Ok(RtmpMessage::VideoData(message));
        },
        Some(msg_type_id::DATA_AMF0) => {
            let msg_name = BasicCommand::parse(&data)?.command_name;
            if bytes_eq(msg_name.as_slice(), "@setDataFrame".as_bytes()) {
                let message = SetDataFrame::parse(&data)?;
                return Ok(RtmpMessage::SetDataFrame(message));
            } else {
                return Err(ProtocolError::UnknownData);
            }
        },
        Some(msg_type_id::COMMAND_AMF0) => {
            let command_name = BasicCommand::parse(&data)?.command_name;
            let name = command_name.as_slice();
            if bytes_eq(name, "connect".as_bytes()) {
                let message = ConnectMessage::parse(&data)?;
                return Ok(RtmpMessage::Connect(message));
            } else if bytes_eq(name, "releaseStream".as_bytes()) {
                let message = ReleaseStream::parse(&data)?;
                return Ok(RtmpMessage::ReleaseStream(message));
            } else if bytes_eq(name, "FCPublish".as_bytes()) {
                let message = FCPublish::parse(&data)?;
                return Ok(RtmpMessage::FCPublish(message));
            } else if bytes_eq(name, "createStream".as_bytes()) {
                let message = CreateStream::parse(&data)?;
                return Ok(RtmpMessage::CreateStream(message));
            } else if bytes_eq(name, "publish".as_bytes()) {
                let message = Publish::parse(&data)?;
                return Ok(RtmpMessage::Publish(message));
            } else {
                return Err(ProtocolError::UnknownCommand);
            }
        },
        _ => {},
    }
    Err(ProtocolError::UnknownMessageType)
}


// -------------------------------------------------------------- replies

/// A message whose body is `body`, behind a type 0 chunk header with a
/// zero timestamp and the body's length.
pub open spec fn framed(msg_type_id: u8, stream_id: u32, chunk_basic_header: u8, body: Seq<u8>) -> Seq<u8> {
    header_bytes(msg_type_id, body.len() as u32, 0, stream_id, chunk_basic_header) + body
}

/// Window Acknowledgement Size: 4096.
pub open spec fn ack_bytes() -> Seq<u8> {
    header_bytes(msg_type_id::WIN_ACKNOWLEDGEMENT_SIZE, 4, 0, 0, 2) + be_bytes(WINDOW_ACKNOWLEDGEMENT_SIZE)
}

/// The `_result` of connect: transaction 1, the server's version and
/// capabilities, and 0.
pub open spec fn connect_result_values() -> Seq<ValueModel> {
    seq![
        ValueModel::Scalar(ScalarModel::Str("_result".spec_bytes())),
        ValueModel::Scalar(ScalarModel::Number(u32_to_number(1))),
        command_object_value("FMS/3,0,1,123".spec_bytes(), 31),
        ValueModel::Scalar(ScalarModel::Number(u32_to_number(0))),
    ]
}

/// Set Peer Bandwidth (4096, dynamic) followed by the `_result` of connect.
pub open spec fn band_bytes() -> Seq<u8> {
    header_bytes(msg_type_id::SET_PEER_BANDWIDTH, 5, 0, 0, 2) + be_bytes(SET_BANDWIDTH_SIZE) + seq![2u8]
        + framed(msg_type_id::COMMAND_AMF0, 0, 2, values_bytes(connect_result_values()))
}

/// The `_result` of createStream: the transaction it answers, null, and
/// stream id 1.
pub open spec fn create_stream_result_values(transaction_id: u32) -> Seq<ValueModel> {
    seq![
        ValueModel::Scalar(ScalarModel::Str("_result".spec_bytes())),
        ValueModel::Scalar(ScalarModel::Number(u32_to_number(transaction_id))),
        ValueModel::Scalar(ScalarModel::Null),
        ValueModel::Scalar(ScalarModel::Number(u32_to_number(1))),
    ]
}

/// User control event Stream Begin for stream 1.
pub open spec fn stream_begin_bytes() -> Seq<u8> {
    header_bytes(msg_type_id::USER_CONTROL_EVENT, 6, 0, 0, 2) + seq![0u8, 0u8, 0u8, 0u8, 0u8, 1u8]
}

fn append_header(out: &mut Vec<u8>, header: &[u8; 12])
    ensures
        final(out)@ == old(out)@ + header@,
{
    push_bytes(out, header);
}

/// The Window Acknowledgement Size message the server sends after connect.
pub fn ack_msg() -> (r: Result<[u8; 16], ProtocolError>)
    ensures
        r matches Ok(b) && b@ == ack_bytes(),
{
    let ack_header = write_header(msg_type_id::WIN_ACKNOWLEDGEMENT_SIZE, 4, 0, 0, 2);
    let size = to_be_bytes(WINDOW_ACKNOWLEDGEMENT_SIZE);
    let mut ack_msg: [u8; 16] = [0u8; 16];
    let mut i: usize = 0;
    while i < 12
        invariant
            i <= 12,
            ack_msg@.len() == 16,
            forall|j: int| 0 <= j < i ==> ack_msg@[j] == ack_header@[j],
        decreases 12 - i,
    {
        ack_msg[i] = ack_header[i];
        i += 1;
    }
    while i < 16
        invariant
            12 <= i <= 16,
            ack_msg@.len() == 16,
            forall|j: int| 0 <= j < 12 ==> ack_msg@[j] == ack_header@[j],
            forall|j: int| 12 <= j < i ==> ack_msg@[j] == size@[j - 12],
        decreases 16 - i,
    {
        ack_msg[i] = size[i - 12];
        i += 1;
    }
    assert(ack_msg@ =~= ack_bytes());
    Ok(ack_msg)
}

proof fn lemma_text_facts()
    ensures
        "_result".spec_bytes().len() == 7,
        "FMS/3,0,1,123".spec_bytes().len() == 13,
        "fmsVer".spec_bytes().len() == 6,
        "capabilities".spec_bytes().len() == 12,
{
    reveal_strlit("_result");
    reveal_strlit("FMS/3,0,1,123");
    reveal_strlit("fmsVer");
    reveal_strlit("capabilities");
    assert(is_ascii("_result"));
    assert(is_ascii("FMS/3,0,1,123"));
    assert(is_ascii("fmsVer"));
    assert(is_ascii("capabilities"));
}

/// Set Peer Bandwidth, then the `_result` that accepts the connect.
pub fn band_msg() -> (r: Result<Vec<u8>, ProtocolError>)
    ensures
        r matches Ok(b) && b@ == band_bytes(),
{
    let bandwidth_header = write_header(msg_type_id::SET_PEER_BANDWIDTH, 5, 0, 0, 2);
    let mut set_peer_bandwidth: Vec<u8> = Vec::new();
    append_header(&mut set_peer_bandwidth, &bandwidth_header);
    let bandwidth_as_bytes = to_be_bytes(SET_BANDWIDTH_SIZE);
    push_bytes(&mut set_peer_bandwidth, &bandwidth_as_bytes);
    set_peer_bandwidth.push(2u8);
    let e = CommandObject::new(slice_to_vec("FMS/3,0,1,123".as_bytes()), 31);
    let mut result_obj = ResultObject::new(slice_to_vec("_result".as_bytes()), 1, 0);
    result_obj.set_command_object(e);
    proof {
        lemma_text_facts();
        let vs = result_values(result_obj);
        assert(vs =~= connect_result_values());
        let p = vs[2]->Object_0;
        assert forall|i: int| 0 <= i < p.len() implies 0 < #[trigger] p[i].0.len() <= 65535
            && scalar_encodable(p[i].1) by {}
        assert forall|i: int| 0 <= i < vs.len() implies value_encodable(#[trigger] vs[i]) by {}
    }
    let command_vec = result_obj.parse()?;
    let command_header = write_header(
        msg_type_id::COMMAND_AMF0,
        command_vec.len() as u32,
        0,
        0,
        2,
    );
    append_header(&mut set_peer_bandwidth, &command_header);
    push_bytes(&mut set_peer_bandwidth, command_vec.as_slice());
    assert(set_peer_bandwidth@ =~= band_bytes());
    Ok(set_peer_bandwidth)
}

/// The `_result` that answers createStream `msg`: stream id 1.
pub fn result_msg(msg: CreateStream) -> (r: Result<Vec<u8>, ProtocolError>)
    ensures
        r matches Ok(b) && b@ == framed(
            msg_type_id::COMMAND_AMF0,
            0,
            3,
            values_bytes(create_stream_result_values(msg.transaction_id)),
        ),
{
    let result_obj = ResultObject::new(slice_to_vec("_result".as_bytes()), msg.transaction_id, 1);
    proof {
        lemma_text_facts();
        let vs = result_values(result_obj);
        assert(vs =~= create_stream_result_values(msg.transaction_id));
        assert forall|i: int| 0 <= i < vs.len() implies value_encodable(#[trigger] vs[i]) by {}
    }
    let command_vec = result_obj.parse()?;
    let result_header = write_header(msg_type_id::COMMAND_AMF0, command_vec.len() as u32, 0, 0, 3);
    let mut result_msg: Vec<u8> = Vec::new();
    append_header(&mut result_msg, &result_header);
    push_bytes(&mut result_msg, command_vec.as_slice());
    Ok(result_msg)
}

/// User control event Stream Begin, for stream 1.
pub fn stream_begin_msg() -> (r: Result<Vec<u8>, ProtocolError>)
    ensures
        r matches Ok(b) && b@ == stream_begin_bytes(),
{
    let stream_begin_header = write_header(msg_type_id::USER_CONTROL_EVENT, 6, 0, 0, 2);
    let stream_begin = Event::new(0, 1).parse();
    let mut stream_begin_msg: Vec<u8> = Vec::new();
    append_header(&mut stream_begin_msg, &stream_begin_header);
    push_bytes(&mut stream_begin_msg, stream_begin.as_slice());
    assert(stream_begin_msg@ =~= stream_begin_bytes());
    Ok(stream_begin_msg)
}

/// The onStatus that tells the publisher of `msg` that publishing started.
pub fn on_status_msg(msg: Publish) -> (r: Result<Vec<u8>, ProtocolError>)
    ensures
        r matches Ok(b) && b@ == framed(
            msg_type_id::COMMAND_AMF0,
            1,
            3,
            values_bytes(on_status_values(msg.transaction_id)),
        ),
{
    let on_status = OnStatus::new(msg.transaction_id).parse();
    let mut on_status_vec: Vec<u8> = Vec::new();
    push_bytes(&mut on_status_vec, on_status.unwrap().as_slice());
    let on_status_header = write_header(
        msg_type_id::COMMAND_AMF0,
        on_status_vec.len() as u32,
        0,
        1,
        3,
    );
    let mut on_status_msg: Vec<u8> = Vec::new();
    append_header(&mut on_status_msg, &on_status_header);
    push_bytes(&mut on_status_msg, on_status_vec.as_slice());
    Ok(on_status_msg)
}


// ------------------------------------------------------------ handshake

/// The random number generator that S1 is filled from.
#[verifier::external_type_specification]
#[verifier::external_body]
pub struct ExStdRng(rand::rngs::StdRng);

/// Calls rand's `StdRng::from_entropy` (from `SeedableRng`), which seeds
/// a generator from the operating system. Nothing is stated of the
/// generator; the call panics only when the operating system yields no
/// randomness, which no argument can rule out.
#[verifier::external_body]
fn rng_from_entropy() -> rand::rngs::StdRng {
    <rand::rngs::StdRng as rand::SeedableRng>::from_entropy()
}

/// Calls rand's `Rng::fill` on the bytes of `buf`, which overwrites each
/// of them with a random byte. What is stated is only what holds of
/// every outcome: the length stays.
#[verifier::external_body]
fn fill_random(rng: &mut rand::rngs::StdRng, buf: &mut Vec<u8>)
    ensures
        final(buf)@.len() == old(buf)@.len(),
{
    rand::Rng::fill(rng, buf.as_mut_slice());
}

/// S0, S1 and S2 for a client's C0 and C1: S0 repeats the version, S1 is
/// four zero bytes of server time and then `random`, S2 echoes C1.
pub fn server_handshake(c0: [u8; 1], c1: [u8; HANDSHAKE_CHUNK_SIZE], random: &Vec<u8>) -> (r: (
    [u8; 1],
    [u8; HANDSHAKE_CHUNK_SIZE],
    [u8; HANDSHAKE_CHUNK_SIZE],
))
    requires
        random@.len() == 1532,
    ensures
        r.0@ == c0@,
        r.1@ == seq![0u8, 0u8, 0u8, 0u8] + random@,
        r.2@ == c1@,
{
    let mut s0 = [0u8; 1];
    s0[0] = c0[0];
    let mut s1 = [0u8; 1536];
    let mut i: usize = 4;
    while i < 1536
        invariant
            4 <= i <= 1536,
            random@.len() == 1532,
            s1@.len() == 1536,
            forall|j: int| 0 <= j < 4 ==> s1@[j] == 0,
            forall|j: int| 4 <= j < i ==> s1@[j] == random@[j - 4],
        decreases 1536 - i,
    {
        s1[i] = random[i - 4];
        i += 1;
    }
    let s2 = c1;
    assert(s0@ =~= c0@);
    assert(s1@ =~= seq![0u8, 0u8, 0u8, 0u8] + random@);
    (s0, s1, s2)
}

/// The server's side of the handshake: refuses any RTMP version but 3;
/// otherwise S0 repeats the version, S1 starts with four zero bytes and
/// goes on with random bytes, and S2 echoes C1.
pub fn s_chunk(c0: [u8; 1], c1: [u8; HANDSHAKE_CHUNK_SIZE]) -> (r: Result<
    ([u8; 1], [u8; HANDSHAKE_CHUNK_SIZE], [u8; HANDSHAKE_CHUNK_SIZE]),
    ProtocolError,
>)
    ensures
        c0[0] != 3 ==> r == Err::<([u8; 1], [u8; HANDSHAKE_CHUNK_SIZE], [u8; HANDSHAKE_CHUNK_SIZE]), ProtocolError>(
            ProtocolError::UnsupportedVersion,
        ),
        c0[0] == 3 ==> (r matches Ok((s0, s1, s2)) && s0@ == c0@ && s1@.len() == 1536
            && s1@.subrange(0, 4) == seq![0u8, 0u8, 0u8, 0u8] && s2@ == c1@),
{
    let version = c0[0];
    if version != 3 {
        return Err(ProtocolError::UnsupportedVersion);
    }
    let mut rng = rng_from_entropy();
    let mut random: Vec<u8> = vec![0u8; 1532];
    fill_random(&mut rng, &mut random);
    let (s0, s1, s2) = server_handshake(c0, c1, &random);
    assert(s1@.subrange(0, 4) =~= seq![0u8, 0u8, 0u8, 0u8]);
    Ok((s0, s1, s2))
}

/// The client's C2 must echo the server's S1.
pub fn check_c2(c2: &[u8; HANDSHAKE_CHUNK_SIZE], s1: &[u8; HANDSHAKE_CHUNK_SIZE]) -> (r: Result<(), ProtocolError>)
    ensures
        c2@ == s1@ ==> r is Ok,
        c2@ != s1@ ==> r == Err::<(), ProtocolError>(ProtocolError::HandshakeMismatch),
{
    if bytes_eq(c2, s1) {
        Ok(())
    } else {
        Err(ProtocolError::HandshakeMismatch)
    }
}


// ----------------------------------------------------------------- laws

/// A basic header's format has a message header size exactly when a
/// chunk of that format can be read.
pub proof fn lemma_header_size_agrees(data: Seq<u8>, fmt: u8, prev: ChunkMessageHeader)
    ensures
        header_size(fmt) is Some <==> next_header(data, fmt, prev) is Ok,
        header_size(fmt) is None ==> next_header(data, fmt, prev) == Err::<
            ChunkMessageHeader,
            ProtocolError,
        >(ProtocolError::UnknownChunkFormat),
{
}

/// A type 3 chunk continues with the header in force, unchanged.
pub proof fn lemma_type3_keeps_header(data: Seq<u8>, prev: ChunkMessageHeader)
    ensures
        next_header(data, 3, prev) == Ok::<ChunkMessageHeader, ProtocolError>(prev),
{
}

/// A header the server writes reads back as a type 0 header with the
/// timestamp, length and type id written, when the timestamp and the
/// length fit in three bytes; the stream id reads back with its bytes in
/// the opposite order, since it is written most significant byte first
/// and read least significant byte first.
#[verifier::rlimit(40)]
#[verifier::spinoff_prover]
pub proof fn lemma_written_header_reads_back(
    msg_type_id: u8,
    msg_len: u32,
    timestamp: u32,
    stream_id: u32,
    chunk_basic_header: u8,
)
    requires
        msg_len < 0x1000000,
        timestamp < 0x1000000,
    ensures
        header_bytes(msg_type_id, msg_len, timestamp, stream_id, chunk_basic_header).len() == 12,
        header_bytes(msg_type_id, msg_len, timestamp, stream_id, chunk_basic_header)[0]
            == chunk_basic_header,
        type0_header(
            header_bytes(msg_type_id, msg_len, timestamp, stream_id, chunk_basic_header).subrange(
                1,
                12,
            ),
        ) == (ChunkMessageHeader {
            timestamp: Some(timestamp),
            timestamp_delta: None,
            message_length: Some(msg_len),
            stored_message_length: Some(msg_len),
            message_type_id: Some(msg_type_id),
            message_stream_id: Some(swap_bytes(stream_id)),
        }),
{
    let b = header_bytes(msg_type_id, msg_len, timestamp, stream_id, chunk_basic_header);
    let s = b.subrange(1, 12);
    assert(s[0] == be_bytes(timestamp)[1] && s[1] == be_bytes(timestamp)[2] && s[2] == be_bytes(
        timestamp,
    )[3]);
    assert(s[3] == be_bytes(msg_len)[1] && s[4] == be_bytes(msg_len)[2] && s[5] == be_bytes(
        msg_len,
    )[3]);
    assert(s[6] == msg_type_id);
    assert(s[7] == be_bytes(stream_id)[0] && s[8] == be_bytes(stream_id)[1] && s[9] == be_bytes(
        stream_id,
    )[2] && s[10] == be_bytes(stream_id)[3]);
    assert(be24(s[0], s[1], s[2]) == timestamp);
    assert(be24(s[3], s[4], s[5]) == msg_len);
}

/// The `_result` that answers createStream decodes back to its values:
/// the transaction number of the request, and stream id 1.
pub proof fn lemma_create_stream_result_decodes(transaction_id: u32)
    ensures
        leading_values(values_bytes(create_stream_result_values(transaction_id)), 4) == Some(
            create_stream_result_values(transaction_id),
        ),
        number_to_u32(number_of(create_stream_result_values(transaction_id)[1])->0)
            == transaction_id,
        number_to_u32(number_of(create_stream_result_values(transaction_id)[3])->0) == 1,
{
    let vs = create_stream_result_values(transaction_id);
    lemma_text_facts();
    assert forall|i: int| 0 <= i < vs.len() implies value_encodable(#[trigger] vs[i]) by {}
    lemma_decode_encode(vs, Seq::empty());
    assert(values_bytes(vs) + Seq::<u8>::empty() =~= values_bytes(vs));
    lemma_number_roundtrip(transaction_id);
    lemma_number_roundtrip(1);
}


/// The onStatus that answers publish decodes back to its values, with the
/// transaction number of the request.
pub proof fn lemma_on_status_decodes(transaction_id: u32)
    ensures
        leading_values(values_bytes(on_status_values(transaction_id)), 4) == Some(
            on_status_values(transaction_id),
        ),
        number_to_u32(number_of(on_status_values(transaction_id)[1])->0) == transaction_id,
{
    let vs = on_status_values(transaction_id);
    lemma_on_status_encodable(transaction_id);
    lemma_decode_encode(vs, Seq::empty());
    assert(values_bytes(vs) + Seq::<u8>::empty() =~= values_bytes(vs));
    lemma_number_roundtrip(transaction_id);
}


/// Every header format reads its fields from its own bytes, most
/// significant first (the type 0 stream id least significant first), and
/// takes the rest from the previous header: type 1 its timestamp and
/// stream id, type 2 also its type id and the length it stored, type 3
/// everything.
pub proof fn lemma_header_fields(data: Seq<u8>, prev: ChunkMessageHeader)
    ensures
        data.len() >= 11 ==> next_header(data, 0, prev) == Ok::<ChunkMessageHeader, ProtocolError>(
            ChunkMessageHeader {
                timestamp: Some((data[0] * 65536 + data[1] * 256 + data[2]) as u32),
                timestamp_delta: None,
                message_length: Some((data[3] * 65536 + data[4] * 256 + data[5]) as u32),
                stored_message_length: Some((data[3] * 65536 + data[4] * 256 + data[5]) as u32),
                message_type_id: Some(data[6]),
                message_stream_id: Some(
                    (data[10] * 16777216 + data[9] * 65536 + data[8] * 256 + data[7]) as u32,
                ),
            },
        ),
        data.len() >= 7 ==> next_header(data, 1, prev) == Ok::<ChunkMessageHeader, ProtocolError>(
            ChunkMessageHeader {
                timestamp: prev.timestamp,
                timestamp_delta: Some((data[0] * 65536 + data[1] * 256 + data[2]) as u32),
                message_length: Some((data[3] * 65536 + data[4] * 256 + data[5]) as u32),
                stored_message_length: Some((data[3] * 65536 + data[4] * 256 + data[5]) as u32),
                message_type_id: Some(data[6]),
                message_stream_id: prev.message_stream_id,
            },
        ),
        data.len() >= 3 ==> next_header(data, 2, prev) == Ok::<ChunkMessageHeader, ProtocolError>(
            ChunkMessageHeader {
                timestamp: prev.timestamp,
                timestamp_delta: Some((data[0] * 65536 + data[1] * 256 + data[2]) as u32),
                message_length: prev.stored_message_length,
                stored_message_length: None,
                message_type_id: prev.message_type_id,
                message_stream_id: prev.message_stream_id,
            },
        ),
        next_header(data, 3, prev) == Ok::<ChunkMessageHeader, ProtocolError>(prev),
{
}

/// An AMF0 command is read as the message its name calls for, with the
/// values that follow the name: connect (a number and an object),
/// releaseStream and FCPublish (a number, null and the stream key),
/// createStream (a number) and publish (a number, null, the stream key
/// and the publishing type).
pub proof fn lemma_command_name_decides_message(
    chunk: ChunkMessageHeader,
    data: Seq<u8>,
    r: Result<RtmpMessage, ProtocolError>,
)
    requires
        parsed_message(chunk, data, r),
        chunk.message_type_id == Some(msg_type_id::COMMAND_AMF0),
    ensures
        leading_values(data, 3) matches Some(v) ==> (v[0] == ValueModel::Scalar(
            ScalarModel::Str("connect".spec_bytes()),
        ) && number_of(v[1]) is Some && v[2] is Object ==> (r matches Ok(RtmpMessage::Connect(m))
            && m.command_name@ == "connect".spec_bytes() && m.id == number_to_u32(
            number_of(v[1])->0,
        ))),
        leading_values(data, 4) matches Some(v) ==> (v[0] == ValueModel::Scalar(
            ScalarModel::Str("releaseStream".spec_bytes()),
        ) && number_of(v[1]) is Some && v[2] == ValueModel::Scalar(ScalarModel::Null) && str_of(v[3])
            is Some ==> (r matches Ok(RtmpMessage::ReleaseStream(m)) && m.command_name@
            == "releaseStream".spec_bytes() && m.transaction_id == number_to_u32(number_of(v[1])->0)
            && m.stream_key@ == str_of(v[3])->0)),
        leading_values(data, 4) matches Some(v) ==> (v[0] == ValueModel::Scalar(
            ScalarModel::Str("FCPublish".spec_bytes()),
        ) && number_of(v[1]) is Some && v[2] == ValueModel::Scalar(ScalarModel::Null) && str_of(v[3])
            is Some ==> (r matches Ok(RtmpMessage::FCPublish(m)) && m.command_name@
            == "FCPublish".spec_bytes() && m.transaction_id == number_to_u32(number_of(v[1])->0)
            && m.stream_key@ == str_of(v[3])->0)),
        leading_values(data, 2) matches Some(v) ==> (v[0] == ValueModel::Scalar(
            ScalarModel::Str("createStream".spec_bytes()),
        ) && number_of(v[1]) is Some ==> (r matches Ok(RtmpMessage::CreateStream(m))
            && m.command_name@ == "createStream".spec_bytes() && m.transaction_id == number_to_u32(
            number_of(v[1])->0,
        ))),
        leading_values(data, 5) matches Some(v) ==> (v[0] == ValueModel::Scalar(
            ScalarModel::Str("publish".spec_bytes()),
        ) && number_of(v[1]) is Some && v[2] == ValueModel::Scalar(ScalarModel::Null) && str_of(v[3])
            is Some && str_of(v[4]) is Some ==> (r matches Ok(RtmpMessage::Publish(m))
            && m.command_name@ == "publish".spec_bytes() && m.transaction_id == number_to_u32(
            number_of(v[1])->0,
        ) && m.stream_key@ == str_of(v[3])->0 && m.publish_type@ == str_of(v[4])->0)),
        r matches Ok(m) ==> (command_name_of(data) == Some("connect".spec_bytes()) <==> m is Connect),
        r matches Ok(m) ==> (command_name_of(data) == Some("releaseStream".spec_bytes())
            <==> m is ReleaseStream),
        r matches Ok(m) ==> (command_name_of(data) == Some("FCPublish".spec_bytes()) <==> m is FCPublish),
        r matches Ok(m) ==> (command_name_of(data) == Some("createStream".spec_bytes())
            <==> m is CreateStream),
        r matches Ok(m) ==> (command_name_of(data) == Some("publish".spec_bytes()) <==> m is Publish),
{
    lemma_command_names_distinct();
    let n: nat = if leading_values(data, 5) is Some {
        5
    } else if leading_values(data, 4) is Some {
        4
    } else if leading_values(data, 3) is Some {
        3
    } else if leading_values(data, 2) is Some {
        2
    } else {
        0
    };
    if n > 0 {
        lemma_leading_values_prefix(data, n, 1);
        if n >= 2 {
            lemma_leading_values_prefix(data, n, 2);
        }
        if n >= 3 {
            lemma_leading_values_prefix(data, n, 3);
        }
        if n >= 4 {
            lemma_leading_values_prefix(data, n, 4);
        }
    }
}

/// An AMF0 data message named `@setDataFrame`, followed by a data name
/// and an object or ECMA array, is read as that metadata.
pub proof fn lemma_set_data_frame_is_read(
    chunk: ChunkMessageHeader,
    data: Seq<u8>,
    r: Result<RtmpMessage, ProtocolError>,
)
    requires
        parsed_message(chunk, data, r),
        chunk.message_type_id == Some(msg_type_id::DATA_AMF0),
    ensures
        leading_values(data, 3) matches Some(v) ==> (v[0] == ValueModel::Scalar(
            ScalarModel::Str("@setDataFrame".spec_bytes()),
        ) && str_of(v[1]) is Some && props_of(v[2]) is Some ==> (r matches Ok(
            RtmpMessage::SetDataFrame(m),
        ) && m.data_name@ == str_of(v[1])->0 && props_view(m.metadata@) == props_of(v[2])->0)),
        r is Ok ==> command_name_of(data) == Some("@setDataFrame".spec_bytes()),
{
    if leading_values(data, 3) is Some {
        lemma_leading_values_prefix(data, 3, 1);
    }
}


/// Set Chunk Size and Acknowledgement carry the number in their first four
/// bytes, most significant first, with the top bit dropped; audio and
/// video carry their whole payload and the stream id of their header.
/// Every type other than these and the AMF0 commands and data is refused
/// as unknown.
pub proof fn lemma_control_and_media_messages(
    chunk: ChunkMessageHeader,
    data: Seq<u8>,
    r: Result<RtmpMessage, ProtocolError>,
)
    requires
        parsed_message(chunk, data, r),
        parse_message_requires(chunk, data),
    ensures
        chunk.message_type_id == Some(msg_type_id::SET_CHUNK_SIZE) ==> (r matches Ok(
            RtmpMessage::SetChunkSize(m),
        ) && m.chunk_size == (data[0] % 128) * 16777216 + data[1] * 65536 + data[2] * 256 + data[3]),
        chunk.message_type_id == Some(msg_type_id::ACKNOWLEDGEMENT) ==> (r matches Ok(
            RtmpMessage::Acknowledgement(m),
        ) && m.sequence_number == (data[0] % 128) * 16777216 + data[1] * 65536 + data[2] * 256
            + data[3]),
        chunk.message_type_id == Some(msg_type_id::AUDIO) ==> (r matches Ok(RtmpMessage::AudioData(m))
            && Some(m.stream_id) == chunk.message_stream_id && m.data@ == data),
        chunk.message_type_id == Some(msg_type_id::VIDEO) ==> (r matches Ok(RtmpMessage::VideoData(m))
            && Some(m.stream_id) == chunk.message_stream_id && m.data@ == data),
        !(chunk.message_type_id == Some(msg_type_id::SET_CHUNK_SIZE) || chunk.message_type_id == Some(
            msg_type_id::ACKNOWLEDGEMENT,
        ) || chunk.message_type_id == Some(msg_type_id::AUDIO) || chunk.message_type_id == Some(
            msg_type_id::VIDEO,
        ) || chunk.message_type_id == Some(msg_type_id::DATA_AMF0) || chunk.message_type_id == Some(
            msg_type_id::COMMAND_AMF0,
        )) ==> r == Err::<RtmpMessage, ProtocolError>(ProtocolError::UnknownMessageType),
{
}

} // verus!
