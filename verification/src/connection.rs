//! What a connection decides, apart from the reading and writing: the
//! chunk header and chunk size it keeps between chunks, how much of a
//! message a chunk carries, and what it answers to each message.
use vstd::prelude::*;
use vstd::slice::{slice_subrange, slice_to_vec};
use vstd::string::StringSliceAdditionalSpecFns;

use crate::error::ProtocolError;
use crate::message::RtmpMessage;
use crate::protocol::{
    ChunkBasicHeader,
    ChunkMessageHeader,
    DEFAULT_CHUNK_SIZE,
    ack_bytes,
    ack_msg,
    band_bytes,
    band_msg,
    create_stream_result_values,
    empty_header,
    framed,
    be31,
    header_size,
    header_size_from_type,
    lemma_parsed_message_shape,
    passed_over,
    next_header,
    parse_failure,
    on_status_msg,
    parse_message,
    parse_message_requires,
    parsed_message,
    read_header,
    result_msg,
    stream_begin_bytes,
    stream_begin_msg,
};
use crate::amf0::values_bytes;
use crate::message::{command_name_of, lemma_command_names_distinct, on_status_values};
use crate::msg_type_id;

verus! {

/// What a connection keeps from one chunk to the next.
#[derive(Debug, Clone, Copy)]
pub struct ConnectionState {
    /// The header in force for the current chunk stream.
    pub chunk_header: ChunkMessageHeader,
    /// The size of the chunks the peer sends.
    pub chunk_size: usize,
}

/// How many payload bytes the next chunk carries: what is left of the
/// message, but no more than a chunk.
pub open spec fn chunk_payload_size(state: ConnectionState) -> usize {
    let left = state.chunk_header.message_length->0 as usize;
    if left < state.chunk_size {
        left
    } else {
        state.chunk_size
    }
}

/// What the connection does after a message, besides what it records.
#[derive(Debug)]
pub struct Reply {
    /// The messages to send, in order.
    pub outgoing: Vec<Vec<u8>>,
    /// Whether to read one more message, and drop it, before going on.
    pub await_message: bool,
}

/// The models of the messages to send.
pub open spec fn outgoing_view(r: Reply) -> Seq<Seq<u8>> {
    r.outgoing@.map_values(|m: Vec<u8>| m@)
}


/// `header` once `n` payload bytes of its message have been read.
pub open spec fn after_payload(header: ChunkMessageHeader, n: nat) -> ChunkMessageHeader {
    ChunkMessageHeader {
        message_length: Some((header.message_length->0 - n) as u32),
        ..header
    }
}

/// What a reply sends, whether it waits for a message, and the state
/// that goes with it.
pub open spec fn reply_model(reply: Reply, state: ConnectionState) -> (Seq<Seq<u8>>, bool, ConnectionState) {
    (outgoing_view(reply), reply.await_message, state)
}

/// What the server answers to `message` in state `state`, whether it
/// then waits for one more message, and its state afterwards.
pub open spec fn reaction(message: RtmpMessage, state: ConnectionState) -> (Seq<Seq<u8>>, bool, ConnectionState) {
    match message {
        RtmpMessage::Connect(_) => (seq![ack_bytes(), band_bytes()], true, state),
        RtmpMessage::CreateStream(m) => (
            seq![
                framed(
                    msg_type_id::COMMAND_AMF0,
                    0,
                    3,
                    values_bytes(create_stream_result_values(m.transaction_id)),
                ),
            ],
            false,
            state,
        ),
        RtmpMessage::SetChunkSize(m) => (
            Seq::empty(),
            false,
            ConnectionState { chunk_size: m.chunk_size, ..state },
        ),
        RtmpMessage::Publish(m) => (
            seq![
                stream_begin_bytes(),
                framed(msg_type_id::COMMAND_AMF0, 1, 3, values_bytes(on_status_values(m.transaction_id))),
            ],
            false,
            state,
        ),
        _ => (Seq::empty(), false, state),
    }
}


// ------------------------------------------------------ reading bytes

/// One message read from `input` at `pos` in state `state`.
pub enum ReadStep {
    /// The bytes end inside the chunk.
    Truncated,
    /// The chunk cannot be read: its header leaves the message length
    /// unknown, or its payload is too short for Set Chunk Size or
    /// Acknowledgement, or audio or video has no stream id.
    Unreadable,
    /// The chunk is refused with this error, and the state it leaves: the
    /// header it read stays in force, and nothing of its payload is
    /// counted off.
    Failed(ProtocolError, ConnectionState),
    /// A message: the header in force for it, where its payload starts
    /// and ends in `input`, and the state after it (the header with the
    /// payload counted off, and the chunk size that a Set Chunk Size sets).
    Message(ChunkMessageHeader, int, int, ConnectionState),
}

/// Reads the chunk that starts at `pos`: its basic header, its message
/// header, and as much payload as the chunk carries.
pub open spec fn read_step(state: ConnectionState, input: Seq<u8>, pos: int) -> ReadStep {
    if pos < 0 || pos >= input.len() {
        ReadStep::Truncated
    } else {
        let fmt = (input[pos] / 64) as u8;
        match header_size(fmt) {
            None => ReadStep::Failed(ProtocolError::UnknownChunkFormat, state),
            Some(n) => if pos + 1 + n > input.len() {
                ReadStep::Truncated
            } else {
                match next_header(input.subrange(pos + 1, pos + 1 + n), fmt, state.chunk_header) {
                    Err(e) => ReadStep::Failed(e, state),
                    Ok(h) => if h.message_length is None {
                        ReadStep::Unreadable
                    } else {
                        let size = chunk_payload_size(ConnectionState { chunk_header: h, ..state });
                        let start = pos + 1 + n;
                        let end = start + size;
                        if end > input.len() {
                            ReadStep::Truncated
                        } else {
                            let data = input.subrange(start, end);
                            if !parse_message_requires(h, data) {
                                ReadStep::Unreadable
                            } else {
                                match parse_failure(h, data) {
                                    Some(e) => ReadStep::Failed(
                                        e,
                                        ConnectionState { chunk_header: h, ..state },
                                    ),
                                    None => ReadStep::Message(
                                        h,
                                        start,
                                        end,
                                        ConnectionState {
                                            chunk_header: after_payload(h, size as nat),
                                            chunk_size: if h.message_type_id == Some(
                                                msg_type_id::SET_CHUNK_SIZE,
                                            ) {
                                                be31(data) as usize
                                            } else {
                                                state.chunk_size
                                            },
                                        },
                                    ),
                                }
                            }
                        }
                    },
                }
            },
        }
    }
}

/// Reads messages from `pos` on, applying each Set Chunk Size, and passes
/// over Set Chunk Size, releaseStream and FCPublish as long as more bytes
/// follow: the first other message, or the last one the bytes hold.
pub open spec fn read_from(state: ConnectionState, input: Seq<u8>, pos: int) -> ReadStep
    decreases input.len() - pos,
{
    match read_step(state, input, pos) {
        ReadStep::Message(h, start, end, after) => if pos < end < input.len() && passed_over(
            h,
            input.subrange(start, end),
        ) {
            read_from(after, input, end)
        } else {
            ReadStep::Message(h, start, end, after)
        },
        other => other,
    }
}

proof fn lemma_read_step_advances(state: ConnectionState, input: Seq<u8>, pos: int)
    ensures
        read_step(state, input, pos) matches ReadStep::Message(h, start, end, after) ==> pos
            < start <= end <= input.len() && end - start <= state.chunk_size && after.chunk_header
            == after_payload(h, (end - start) as nat),
{
}

/// Once Set Chunk Size is handled, the chunk size is the one it carries,
/// and from then on every chunk read carries at most that many payload
/// bytes and keeps that chunk size, until a chunk brings another Set
/// Chunk Size.
pub proof fn lemma_set_chunk_size_bounds_reads(
    message: RtmpMessage,
    state: ConnectionState,
    later: ConnectionState,
    input: Seq<u8>,
    pos: int,
)
    requires
        message is SetChunkSize,
        later.chunk_size == reaction(message, state).2.chunk_size,
    ensures
        message matches RtmpMessage::SetChunkSize(m) && later.chunk_size == m.chunk_size,
        read_step(later, input, pos) matches ReadStep::Message(h, start, end, after) ==> end - start
            <= later.chunk_size && (h.message_type_id != Some(msg_type_id::SET_CHUNK_SIZE)
            ==> after.chunk_size == later.chunk_size),
{
    lemma_read_step_advances(later, input, pos);
}

/// Only connect makes the server wait for one more message. Connect and
/// publish are answered with two messages, createStream with one, and
/// nothing else is answered. Only Set Chunk Size changes the state, and
/// only its chunk size.
pub proof fn lemma_reaction_shape(message: RtmpMessage, state: ConnectionState)
    ensures
        reaction(message, state).1 == (message is Connect),
        reaction(message, state).0.len() == (if message is Connect || message is Publish {
            2int
        } else if message is CreateStream {
            1int
        } else {
            0int
        }),
        !(message is SetChunkSize) ==> reaction(message, state).2 == state,
        message matches RtmpMessage::SetChunkSize(m) ==> reaction(message, state).2 == (
        ConnectionState { chunk_header: state.chunk_header, chunk_size: m.chunk_size }),
{
}

/// A read passes over a message only when it is Set Chunk Size,
/// releaseStream or FCPublish and more bytes follow; any other message
/// read is the result. When a chunk is not a message, that is the result.
pub proof fn lemma_read_passes_over_only_preparation(
    state: ConnectionState,
    input: Seq<u8>,
    pos: int,
)
    ensures
        !(read_step(state, input, pos) is Message) ==> read_from(state, input, pos) == read_step(
            state,
            input,
            pos,
        ),
        read_step(state, input, pos) matches ReadStep::Message(h, start, end, after) ==> (!(
        h.message_type_id == Some(msg_type_id::SET_CHUNK_SIZE) || (h.message_type_id == Some(
            msg_type_id::COMMAND_AMF0,
        ) && (command_name_of(input.subrange(start, end)) == Some("releaseStream".spec_bytes())
            || command_name_of(input.subrange(start, end)) == Some("FCPublish".spec_bytes()))))
            ==> read_from(state, input, pos) == read_step(state, input, pos)),
        read_step(state, input, pos) matches ReadStep::Message(h, start, end, after) ==> (((
        h.message_type_id == Some(msg_type_id::SET_CHUNK_SIZE) || (h.message_type_id == Some(
            msg_type_id::COMMAND_AMF0,
        ) && (command_name_of(input.subrange(start, end)) == Some("releaseStream".spec_bytes())
            || command_name_of(input.subrange(start, end)) == Some("FCPublish".spec_bytes()))))
            && end < input.len()) ==> read_from(state, input, pos) == read_from(after, input, end)),
{
    lemma_read_step_advances(state, input, pos);
    lemma_command_names_distinct();
}

fn is_passed_over(m: &RtmpMessage) -> (b: bool)
    ensures
        b == (m is SetChunkSize || m is ReleaseStream || m is FCPublish),
{
    match m {
        RtmpMessage::SetChunkSize(_) => true,
        RtmpMessage::ReleaseStream(_) => true,
        RtmpMessage::FCPublish(_) => true,
        _ => false,
    }
}

impl ConnectionState {
    /// A new connection: no header known, the default chunk size.
    pub fn new() -> (s: ConnectionState)
        ensures
            s.chunk_header == empty_header(),
            s.chunk_size == DEFAULT_CHUNK_SIZE,
    {
        ConnectionState { chunk_header: ChunkMessageHeader::default(), chunk_size: DEFAULT_CHUNK_SIZE }
    }

    fn read_outcome(&self, input: &[u8]) -> (r: Option<
        Result<(RtmpMessage, usize, ConnectionState), (ProtocolError, ConnectionState)>,
    >)
        ensures
            match read_from(*self, input@, 0) {
                ReadStep::Unreadable => r is None,
                ReadStep::Truncated => r matches Some(Err((e, s))) && e == ProtocolError::Truncated
                    && s == *self,
                ReadStep::Failed(f, fs) => r matches Some(Err((e, s))) && e == f && s == fs,
                ReadStep::Message(h, start, end, after) => r matches Some(Ok((m, n, st))) && n
                    == end && st == after && parsed_message(h, input@.subrange(start, end), Ok(m)),
            },
    {
        let mut st: ConnectionState = *self;
        let mut pos: usize = 0;
        loop
            invariant
                pos <= input@.len(),
                read_from(*self, input@, 0) == read_from(st, input@, pos as int),
            decreases input@.len() - pos,
        {
            proof {
                lemma_read_step_advances(st, input@, pos as int);
            }
            if pos >= input.len() {
                return Some(Err((ProtocolError::Truncated, *self)));
            }
            let basic_header = ChunkBasicHeader::new(&input[pos]);
            let n = match header_size_from_type(&basic_header) {
                Ok(n) => n,
                Err(e) => {
                    return Some(Err((e, st)));
                },
            };
            if n > input.len() - pos - 1 {
                return Some(Err((ProtocolError::Truncated, *self)));
            }
            let header = slice_to_vec(slice_subrange(input, pos + 1, pos + 1 + n));
            let mut next: ConnectionState = st;
            match next.read_chunk_header(basic_header, &header) {
                Ok(()) => {},
                Err(e) => {
                    return Some(Err((e, st)));
                },
            }
            if next.chunk_header.message_length.is_none() {
                return None;
            }
            let size = next.message_size();
            if size > input.len() - pos - 1 - n {
                return Some(Err((ProtocolError::Truncated, *self)));
            }
            let start = pos + 1 + n;
            let end = start + size;
            let payload = slice_to_vec(slice_subrange(input, start, end));
            let t = next.chunk_header.message_type_id;
            let short = (t == Some(msg_type_id::SET_CHUNK_SIZE) || t == Some(
                msg_type_id::ACKNOWLEDGEMENT,
            )) && payload.len() < 4;
            let no_stream = (t == Some(msg_type_id::AUDIO) || t == Some(msg_type_id::VIDEO))
                && next.chunk_header.message_stream_id.is_none();
            if short || no_stream {
                return None;
            }
            let ghost h = next.chunk_header;
            let ghost data = input@.subrange(start as int, end as int);
            let r = next.receive_message(payload);
            proof {
                lemma_parsed_message_shape(h, data, r);
            }
            let message = match r {
                Ok(m) => m,
                Err(e) => {
                    return Some(Err((e, next)));
                },
            };
            if let RtmpMessage::SetChunkSize(m) = &message {
                next.chunk_size = m.chunk_size;
            }
            if end < input.len() && is_passed_over(&message) {
                st = next;
                pos = end;
            } else {
                return Some(Ok((message, end, next)));
            }
        }
    }

    /// Whether `read_message` can read `input`: whether no chunk on the
    /// way leaves the message length unknown, or has too short a payload
    /// for Set Chunk Size or Acknowledgement, or is audio or video with no
    /// stream id.
    pub fn can_read(&self, input: &[u8]) -> (b: bool)
        ensures
            b == !(read_from(*self, input@, 0) is Unreadable),
    {
        self.read_outcome(input).is_some()
    }

    /// Reads the next message from `input`: messages are read one after
    /// another, each Set Chunk Size is applied, and Set Chunk Size,
    /// releaseStream and FCPublish are passed over while more bytes follow.
    /// Gives the first other message, or the last one the bytes hold, with
    /// how many bytes were used. Refused, and nothing changed, when the
    /// bytes end inside a chunk; refused when a chunk is refused, with the
    /// messages before it taken in and its header kept.
    pub fn read_message(&mut self, input: &[u8]) -> (r: Result<(RtmpMessage, usize), ProtocolError>)
        requires
            !(read_from(*old(self), input@, 0) is Unreadable),
        ensures
            match read_from(*old(self), input@, 0) {
                ReadStep::Message(h, start, end, after) => r matches Ok((m, n)) && n == end
                    && parsed_message(h, input@.subrange(start, end), Ok(m)) && *final(self)
                    == after,
                ReadStep::Failed(f, fs) => r == Err::<(RtmpMessage, usize), ProtocolError>(f)
                    && *final(self) == fs,
                _ => r == Err::<(RtmpMessage, usize), ProtocolError>(ProtocolError::Truncated)
                    && *final(self) == *old(self),
            },
    {
        match self.read_outcome(input) {
            Some(Ok((m, n, st))) => {
                *self = st;
                Ok((m, n))
            },
            Some(Err((e, st))) => {
                *self = st;
                Err(e)
            },
            None => Err(ProtocolError::Truncated),
        }
    }

    /// Takes in the message header `header` of a chunk whose basic header
    /// is `basic_header`; refused, and nothing changed, when the format is
    /// unknown.
    pub fn read_chunk_header(&mut self, basic_header: ChunkBasicHeader, header: &Vec<u8>) -> (r:
        Result<(), ProtocolError>)
        requires
            header_size(basic_header.fmt) matches Some(n) ==> header@.len() >= n,
        ensures
            final(self).chunk_size == old(self).chunk_size,
            match next_header(header@, basic_header.fmt, old(self).chunk_header) {
                Ok(h) => r is Ok && final(self).chunk_header == h,
                Err(e) => r == Err::<(), ProtocolError>(e) && final(self).chunk_header == old(
                    self,
                ).chunk_header,
            },
    {
        self.chunk_header = read_header(header, basic_header, self.chunk_header)?;
        Ok(())
    }

    /// How many payload bytes to read for the current chunk.
    pub fn message_size(&self) -> (n: usize)
        requires
            self.chunk_header.message_length is Some,
        ensures
            n == chunk_payload_size(*self),
    {
        let left = self.chunk_header.message_length.unwrap() as usize;
        if left < self.chunk_size {
            left
        } else {
            self.chunk_size
        }
    }

    /// Reads the message whose payload, as far as this chunk carries it,
    /// is `msg`, and records how much of the message is left.
    pub fn receive_message(&mut self, msg: Vec<u8>) -> (r: Result<RtmpMessage, ProtocolError>)
        requires
            old(self).chunk_header.message_length is Some,
            msg@.len() == chunk_payload_size(*old(self)),
            parse_message_requires(old(self).chunk_header, msg@),
        ensures
            parsed_message(old(self).chunk_header, msg@, r),
            final(self).chunk_size == old(self).chunk_size,
            r is Ok ==> final(self).chunk_header == after_payload(old(self).chunk_header, msg@.len()),
            r is Err ==> final(self).chunk_header == old(self).chunk_header,
    {
        let msg_size = msg.len();
        let message = parse_message(self.chunk_header, msg)?;
        let left = self.chunk_header.message_length.unwrap();
        self.chunk_header.message_length = Some(left - msg_size as u32);
        Ok(message)
    }

    /// What the server does after `message`: to connect it sends Window
    /// Acknowledgement Size and Set Peer Bandwidth with the `_result`, then
    /// reads one more message; to createStream the `_result` with stream
    /// id 1; to publish Stream Begin and onStatus; Set Chunk Size changes
    /// the chunk size; anything else changes nothing.
    pub fn handle_message(&mut self, message: RtmpMessage) -> (r: Result<Reply, ProtocolError>)
        ensures
            r matches Ok(reply) && reply_model(reply, *final(self)) == reaction(message, *old(self)),
    {
        let mut outgoing: Vec<Vec<u8>> = Vec::new();
        let mut await_message = false;
        match message {
            RtmpMessage::Connect(_) => {
                let ack = ack_msg()?;
                outgoing.push(slice_to_vec(&ack));
                outgoing.push(band_msg()?);
                await_message = true;
            },
            RtmpMessage::CreateStream(m) => {
                outgoing.push(result_msg(m)?);
            },
            RtmpMessage::SetChunkSize(m) => {
                self.chunk_size = m.chunk_size;
            },
            RtmpMessage::Publish(m) => {
                outgoing.push(stream_begin_msg()?);
                outgoing.push(on_status_msg(m)?);
            },
            _ => {},
        }
        let reply = Reply { outgoing, await_message };
        assert(outgoing_view(reply) =~= reaction(message, *old(self)).0);
        Ok(reply)
    }
}

} // verus!
