//! Reading chunks back into messages.
//!
//! Bytes arrive in pieces of any size. The unpacketizer buffers them, takes
//! one whole chunk at a time off the front, and keeps one reassembly unit
//! per chunk stream, so that chunks of different streams may interleave.

use std::collections::HashMap;
use vstd::prelude::*;
use crate::chunk::chunk::{ChunkBasicHeader, ChunkHeader, ChunkInfo, ChunkInfoView, ChunkMessageHeader};
use crate::chunk::define::{
    EXTENDED_TIMESTAMP, FORMAT_FULL, FORMAT_NONE, FORMAT_SAME_STREAM, FORMAT_TIME_ONLY,
    INIT_CHUNK_SIZE, MAX_MESSAGE_LENGTH,
};
use crate::chunk::errors::UnpackError;
use crate::chunk::packetizer::{chunk_size_after, next_chunk_size};
use crate::chunk::wire::{be24_at, be32_at, get_be24, get_be32, get_le32, le32_at, put_range, put_slice};
use crate::message::{MessageView, RtmpMessage, MSG_ABORT};

verus! {

/// What reading one item off the front of the bytes came to.
#[derive(Debug, Copy, Clone, PartialEq, Eq, Structural)]
pub enum Parsed<T> {
    /// The bytes end before the item does.
    Incomplete,
    /// The bytes cannot be the item.
    Malformed,
    /// The item, and the position just behind it.
    Done { value: T, end: usize },
}

/// The basic header at the front of `bytes`.
///
/// The low six bits of the first byte are the chunk stream id, unless they
/// are 0 (the id is 64 plus the second byte) or 1 (the id is 64 plus the
/// second byte plus 256 times the third).
#[verifier::opaque]
pub open spec fn basic_header_at(bytes: Seq<u8>) -> Parsed<ChunkBasicHeader> {
    if bytes.len() < 1 {
        Parsed::Incomplete
    } else {
        let format = bytes[0] / 64;
        let low = bytes[0] % 64;
        if low == 0 {
            if bytes.len() < 2 {
                Parsed::Incomplete
            } else {
                Parsed::Done {
                    value: ChunkBasicHeader { format, chunk_stream_id: (64 + bytes[1]) as u32 },
                    end: 2,
                }
            }
        } else if low == 1 {
            if bytes.len() < 3 {
                Parsed::Incomplete
            } else {
                Parsed::Done {
                    value: ChunkBasicHeader {
                        format,
                        chunk_stream_id: (64 + bytes[1] + 256 * bytes[2]) as u32,
                    },
                    end: 3,
                }
            }
        } else {
            Parsed::Done { value: ChunkBasicHeader { format, chunk_stream_id: low as u32 }, end: 1 }
        }
    }
}

/// The timestamp whose three-byte field sits at `at` and whose four-byte
/// extension, if the field says `0xFFFFFF`, sits at `ext`. Meant for bytes
/// that reach up to `ext`.
pub open spec fn timestamp_at(bytes: Seq<u8>, at: int, ext: int) -> Parsed<u32> {
    if be24_at(bytes, at) == EXTENDED_TIMESTAMP {
        if bytes.len() < ext + 4 {
            Parsed::Incomplete
        } else {
            Parsed::Done { value: be32_at(bytes, ext), end: (ext + 4) as usize }
        }
    } else {
        Parsed::Done { value: be24_at(bytes, at), end: ext as usize }
    }
}

/// The timestamp `delta` after `timestamp`; timestamps roll over at 2^32.
pub open spec fn advance(timestamp: u32, delta: u32) -> u32 {
    if timestamp + delta > u32::MAX {
        (timestamp + delta - 0x1_0000_0000) as u32
    } else {
        (timestamp + delta) as u32
    }
}

/// The full header of a message whose first chunk has the basic header
/// `basic` and whose message header starts at `at`, given the header `prev`
/// of the message before on the same chunk stream.
///
/// Formats 1, 2 and 3 fill in from `prev` what they leave out, and are
/// malformed without it.
#[verifier::opaque]
pub open spec fn message_header_at(
    basic: ChunkBasicHeader,
    prev: Option<ChunkHeader>,
    bytes: Seq<u8>,
    at: int,
) -> Parsed<ChunkHeader> {
    if basic.format == FORMAT_FULL {
        if bytes.len() < at + 11 {
            Parsed::Incomplete
        } else {
            match timestamp_at(bytes, at, at + 11) {
                Parsed::Done { value, end } => Parsed::Done {
                    value: ChunkHeader {
                        basic_header: basic,
                        message_header: ChunkMessageHeader {
                            timestamp: value,
                            timestamp_delta: value,
                            message_length: be24_at(bytes, at + 3),
                            message_type_id: bytes[at + 6],
                            message_stream_id: le32_at(bytes, at + 7),
                        },
                    },
                    end,
                },
                Parsed::Incomplete => Parsed::Incomplete,
                Parsed::Malformed => Parsed::Malformed,
            }
        }
    } else {
        match prev {
            None => Parsed::Malformed,
            Some(p) => {
                let q = p.message_header;
                if basic.format == FORMAT_SAME_STREAM {
                    if bytes.len() < at + 7 {
                        Parsed::Incomplete
                    } else {
                        match timestamp_at(bytes, at, at + 7) {
                            Parsed::Done { value, end } => Parsed::Done {
                                value: ChunkHeader {
                                    basic_header: basic,
                                    message_header: ChunkMessageHeader {
                                        timestamp: advance(q.timestamp, value),
                                        timestamp_delta: value,
                                        message_length: be24_at(bytes, at + 3),
                                        message_type_id: bytes[at + 6],
                                        message_stream_id: q.message_stream_id,
                                    },
                                },
                                end,
                            },
                            Parsed::Incomplete => Parsed::Incomplete,
                            Parsed::Malformed => Parsed::Malformed,
                        }
                    }
                } else if basic.format == FORMAT_TIME_ONLY {
                    if bytes.len() < at + 3 {
                        Parsed::Incomplete
                    } else {
                        match timestamp_at(bytes, at, at + 3) {
                            Parsed::Done { value, end } => Parsed::Done {
                                value: ChunkHeader {
                                    basic_header: basic,
                                    message_header: ChunkMessageHeader {
                                        timestamp: advance(q.timestamp, value),
                                        timestamp_delta: value,
                                        ..q
                                    },
                                },
                                end,
                            },
                            Parsed::Incomplete => Parsed::Incomplete,
                            Parsed::Malformed => Parsed::Malformed,
                        }
                    }
                } else {
                    Parsed::Done {
                        value: ChunkHeader {
                            basic_header: basic,
                            message_header: ChunkMessageHeader {
                                timestamp: advance(q.timestamp, q.timestamp_delta),
                                ..q
                            },
                        },
                        end: at as usize,
                    }
                }
            },
        }
    }
}

/// How an attempt to read ended.
pub ghost enum Outcome {
    /// The bytes end in the middle of a chunk. Nothing of it was consumed.
    Incomplete,
    /// The bytes are no valid chunk stream.
    Malformed,
    /// A chunk was consumed that does not complete its message.
    Partial,
    /// A chunk was consumed that completes this message.
    Message(MessageView),
}

/// The result of an attempt to read: how many bytes were consumed, the
/// state afterwards, and how it ended.
pub ghost struct Step {
    pub consumed: int,
    pub next: DecoderView,
    pub outcome: Outcome,
}

/// The reading side of one connection, without its buffer: the chunk size
/// in force, and the reassembly unit of each chunk stream seen so far.
pub ghost struct DecoderView {
    pub max_chunk_size: u32,
    pub streams: Map<u32, ChunkInfoView>,
}

impl DecoderView {
    pub open spec fn wf(self) -> bool {
        &&& self.max_chunk_size >= 1
        &&& forall|csid: u32| #[trigger]
            self.streams.contains_key(csid) ==> {
                &&& self.streams[csid].wf()
                &&& self.streams[csid].message_header.message_length <= MAX_MESSAGE_LENGTH
                &&& self.streams[csid].basic_header.chunk_stream_id == csid
            }
    }

    /// The state of a connection on which nothing has been read.
    pub open spec fn initial() -> DecoderView {
        DecoderView { max_chunk_size: INIT_CHUNK_SIZE, streams: Map::empty() }
    }

    /// The header of the message read last, or being read, on `csid`.
    pub open spec fn previous(self, csid: u32) -> Option<ChunkHeader> {
        if self.streams.contains_key(csid) {
            Some(self.streams[csid].header())
        } else {
            None
        }
    }

    /// The payload received so far of the message being read on `csid`.
    pub open spec fn pending(self, csid: u32) -> Seq<u8> {
        if self.streams.contains_key(csid) {
            self.streams[csid].payload
        } else {
            Seq::empty()
        }
    }

    /// The header that the chunk with basic header `basic` belongs to. In
    /// the middle of a message only format 3 is in order, and the header is
    /// that of the message; else the chunk opens a message.
    pub open spec fn header_at(self, basic: ChunkBasicHeader, bytes: Seq<u8>, at: int) -> Parsed<
        ChunkHeader,
    > {
        let csid = basic.chunk_stream_id;
        if self.pending(csid).len() > 0 {
            if basic.format == FORMAT_NONE {
                Parsed::Done { value: self.streams[csid].header(), end: at as usize }
            } else {
                Parsed::Malformed
            }
        } else {
            message_header_at(basic, self.previous(csid), bytes, at)
        }
    }

    /// Nothing consumed, nothing changed.
    pub open spec fn stay(self, outcome: Outcome) -> Step {
        Step { consumed: 0, next: self, outcome }
    }

    /// The state with `header` and `payload` as the reassembly unit of the
    /// header's chunk stream.
    pub open spec fn store(self, header: ChunkHeader, payload: Seq<u8>) -> DecoderView {
        DecoderView {
            streams: self.streams.insert(
                header.basic_header.chunk_stream_id,
                ChunkInfoView {
                    basic_header: header.basic_header,
                    message_header: header.message_header,
                    payload,
                },
            ),
            ..self
        }
    }

    /// The state after the complete message `m` has been read: a Set Chunk
    /// Size message changes the chunk size for the chunks that follow, an
    /// Abort message drops what was received of the message on the chunk
    /// stream it names.
    pub open spec fn apply_control(self, m: MessageView) -> DecoderView {
        let sized = DecoderView { max_chunk_size: chunk_size_after(self.max_chunk_size, m), ..self };
        if m.type_id == MSG_ABORT && m.payload.len() >= 4 && self.streams.contains_key(
            be32_at(m.payload, 0),
        ) {
            let csid = be32_at(m.payload, 0);
            DecoderView {
                streams: self.streams.insert(
                    csid,
                    ChunkInfoView { payload: Seq::empty(), ..self.streams[csid] },
                ),
                ..sized
            }
        } else {
            sized
        }
    }

    /// How many payload bytes the next chunk of a message with `header`
    /// carries when `have` bytes have been received: what is missing, but
    /// at most the chunk size.
    pub open spec fn chunk_payload_len(self, header: ChunkHeader, have: nat) -> int {
        let missing = header.message_header.message_length - have;
        if missing <= self.max_chunk_size {
            missing
        } else {
            self.max_chunk_size as int
        }
    }

    /// Reads one chunk off the front of `bytes`.
    #[verifier::opaque]
    pub open spec fn read_chunk(self, bytes: Seq<u8>) -> Step {
        match basic_header_at(bytes) {
            Parsed::Incomplete => self.stay(Outcome::Incomplete),
            Parsed::Malformed => self.stay(Outcome::Malformed),
            Parsed::Done { value: basic, end: at } => match self.header_at(
                basic,
                bytes,
                at as int,
            ) {
                Parsed::Incomplete => self.stay(Outcome::Incomplete),
                Parsed::Malformed => self.stay(Outcome::Malformed),
                Parsed::Done { value: header, end: start } => {
                    let have = self.pending(basic.chunk_stream_id);
                    let want = self.chunk_payload_len(header, have.len());
                    if bytes.len() < start + want {
                        self.stay(Outcome::Incomplete)
                    } else {
                        let payload = have + bytes.subrange(start as int, start + want);
                        if payload.len() == header.message_header.message_length {
                            let m = MessageView {
                                type_id: header.message_header.message_type_id,
                                timestamp: header.message_header.timestamp,
                                message_stream_id: header.message_header.message_stream_id,
                                payload,
                            };
                            Step {
                                consumed: start + want,
                                next: self.store(header, Seq::empty()).apply_control(m),
                                outcome: Outcome::Message(m),
                            }
                        } else {
                            Step {
                                consumed: start + want,
                                next: self.store(header, payload),
                                outcome: Outcome::Partial,
                            }
                        }
                    }
                },
            },
        }
    }

    /// Reads chunks off the front of `bytes` until one completes a message,
    /// the bytes run out, or a chunk is malformed.
    pub open spec fn read_message(self, bytes: Seq<u8>) -> Step
        decreases bytes.len(),
    {
        let step = self.read_chunk(bytes);
        if step.outcome is Partial && 0 < step.consumed <= bytes.len() {
            let rest = step.next.read_message(bytes.skip(step.consumed));
            Step { consumed: step.consumed + rest.consumed, ..rest }
        } else {
            step
        }
    }
}

/// Reads the basic header at the front of `bytes`.
pub fn read_basic_header(bytes: &Vec<u8>) -> (parsed: Parsed<ChunkBasicHeader>)
    ensures
        parsed == basic_header_at(bytes@),
        parsed matches Parsed::Done { value, end } ==> 1 <= end <= bytes@.len() && end <= 3
            && value.format <= 3,
{
    reveal(basic_header_at);
    if bytes.len() < 1 {
        return Parsed::Incomplete;
    }
    let format = bytes[0] / 64;
    let low = bytes[0] % 64;
    if low == 0 {
        if bytes.len() < 2 {
            return Parsed::Incomplete;
        }
        Parsed::Done {
            value: ChunkBasicHeader { format, chunk_stream_id: 64 + bytes[1] as u32 },
            end: 2,
        }
    } else if low == 1 {
        if bytes.len() < 3 {
            return Parsed::Incomplete;
        }
        Parsed::Done {
            value: ChunkBasicHeader {
                format,
                chunk_stream_id: 64 + bytes[1] as u32 + 256 * (bytes[2] as u32),
            },
            end: 3,
        }
    } else {
        Parsed::Done { value: ChunkBasicHeader { format, chunk_stream_id: low as u32 }, end: 1 }
    }
}

fn read_timestamp(bytes: &Vec<u8>, at: usize, ext: usize) -> (parsed: Parsed<u32>)
    requires
        at + 3 <= ext <= bytes.len(),
    ensures
        parsed == timestamp_at(bytes@, at as int, ext as int),
        parsed matches Parsed::Done { value, end } ==> ext <= end <= bytes@.len(),
        !(parsed is Malformed),
{
    let field = get_be24(bytes, at);
    if field == EXTENDED_TIMESTAMP {
        if bytes.len() - ext < 4 {
            Parsed::Incomplete
        } else {
            Parsed::Done { value: get_be32(bytes, ext), end: ext + 4 }
        }
    } else {
        Parsed::Done { value: field, end: ext }
    }
}

fn advance_timestamp(timestamp: u32, delta: u32) -> (t: u32)
    ensures
        t == advance(timestamp, delta),
{
    let sum = timestamp as u64 + delta as u64;
    if sum > 0xFFFF_FFFF {
        (sum - 0x1_0000_0000) as u32
    } else {
        sum as u32
    }
}

/// Reads the message header that starts at `at`, in the format that
/// `basic` names.
pub(crate) fn read_message_header(
    basic: ChunkBasicHeader,
    prev: Option<ChunkHeader>,
    bytes: &Vec<u8>,
    at: usize,
) -> (parsed: Parsed<ChunkHeader>)
    requires
        at <= bytes.len(),
    ensures
        parsed == message_header_at(basic, prev, bytes@, at as int),
        parsed matches Parsed::Done { value, end } ==> {
            &&& at <= end <= bytes@.len()
            &&& value.basic_header == basic
            &&& (prev matches Some(p) ==> p.message_header.message_length <= MAX_MESSAGE_LENGTH)
                ==> value.message_header.message_length <= MAX_MESSAGE_LENGTH
        },
{
    reveal(message_header_at);
    if basic.format == FORMAT_FULL {
        if bytes.len() - at < 11 {
            return Parsed::Incomplete;
        }
        match read_timestamp(bytes, at, at + 11) {
            Parsed::Done { value, end } => Parsed::Done {
                value: ChunkHeader {
                    basic_header: basic,
                    message_header: ChunkMessageHeader {
                        timestamp: value,
                        timestamp_delta: value,
                        message_length: get_be24(bytes, at + 3),
                        message_type_id: bytes[at + 6],
                        message_stream_id: get_le32(bytes, at + 7),
                    },
                },
                end,
            },
            Parsed::Incomplete => Parsed::Incomplete,
            Parsed::Malformed => Parsed::Malformed,
        }
    } else {
        match prev {
            None => Parsed::Malformed,
            Some(p) => {
                let q = p.message_header;
                if basic.format == FORMAT_SAME_STREAM {
                    if bytes.len() - at < 7 {
                        return Parsed::Incomplete;
                    }
                    match read_timestamp(bytes, at, at + 7) {
                        Parsed::Done { value, end } => Parsed::Done {
                            value: ChunkHeader {
                                basic_header: basic,
                                message_header: ChunkMessageHeader {
                                    timestamp: advance_timestamp(q.timestamp, value),
                                    timestamp_delta: value,
                                    message_length: get_be24(bytes, at + 3),
                                    message_type_id: bytes[at + 6],
                                    message_stream_id: q.message_stream_id,
                                },
                            },
                            end,
                        },
                        Parsed::Incomplete => Parsed::Incomplete,
                        Parsed::Malformed => Parsed::Malformed,
                    }
                } else if basic.format == FORMAT_TIME_ONLY {
                    if bytes.len() - at < 3 {
                        return Parsed::Incomplete;
                    }
                    match read_timestamp(bytes, at, at + 3) {
                        Parsed::Done { value, end } => Parsed::Done {
                            value: ChunkHeader {
                                basic_header: basic,
                                message_header: ChunkMessageHeader {
                                    timestamp: advance_timestamp(q.timestamp, value),
                                    timestamp_delta: value,
                                    message_length: q.message_length,
                                    message_type_id: q.message_type_id,
                                    message_stream_id: q.message_stream_id,
                                },
                            },
                            end,
                        },
                        Parsed::Incomplete => Parsed::Incomplete,
                        Parsed::Malformed => Parsed::Malformed,
                    }
                } else {
                    Parsed::Done {
                        value: ChunkHeader {
                            basic_header: basic,
                            message_header: ChunkMessageHeader {
                                timestamp: advance_timestamp(q.timestamp, q.timestamp_delta),
                                timestamp_delta: q.timestamp_delta,
                                message_length: q.message_length,
                                message_type_id: q.message_type_id,
                                message_stream_id: q.message_stream_id,
                            },
                        },
                        end: at,
                    }
                }
            },
        }
    }
}

/// What one call of [`ChunkUnpacketizer::read_chunk`] came to.
#[derive(Debug, PartialEq, Eq)]
pub enum UnpackResult {
    /// The buffer ends in the middle of a chunk; nothing was consumed.
    NotEnoughBytes,
    /// A chunk was consumed that does not complete its message.
    Chunk,
    /// A chunk was consumed that completes this message.
    Message(RtmpMessage),
}

/// The outcome that a result of `read_chunk` stands for.
pub open spec fn outcome_of(result: Result<UnpackResult, UnpackError>) -> Outcome {
    match result {
        Ok(UnpackResult::NotEnoughBytes) => Outcome::Incomplete,
        Ok(UnpackResult::Chunk) => Outcome::Partial,
        Ok(UnpackResult::Message(m)) => Outcome::Message(m@),
        Err(UnpackError::MalformedChunk) => Outcome::Malformed,
    }
}

/// The outcome that a result of `read_message` stands for.
pub open spec fn message_outcome_of(result: Result<Option<RtmpMessage>, UnpackError>) -> Outcome {
    match result {
        Ok(None) => Outcome::Incomplete,
        Ok(Some(m)) => Outcome::Message(m@),
        Err(UnpackError::MalformedChunk) => Outcome::Malformed,
    }
}

/// The reading side of one connection.
pub struct ChunkUnpacketizer {
    buffer: Vec<u8>,
    max_chunk_size: u32,
    streams: HashMap<u32, ChunkInfo>,
}

/// The reading side of one connection: the bytes received and not yet
/// consumed, and the decoder's state.
pub ghost struct UnpacketizerView {
    pub buffer: Seq<u8>,
    pub decoder: DecoderView,
}

/// The views of the reassembly units, under the same keys.
spec fn stream_views(streams: Map<u32, ChunkInfo>) -> Map<u32, ChunkInfoView> {
    Map::new(|csid: u32| streams.contains_key(csid), |csid: u32| streams[csid]@)
}

impl View for ChunkUnpacketizer {
    type V = UnpacketizerView;

    closed spec fn view(&self) -> UnpacketizerView {
        UnpacketizerView {
            buffer: self.buffer@,
            decoder: DecoderView {
                max_chunk_size: self.max_chunk_size,
                streams: stream_views(self.streams@),
            },
        }
    }
}

impl ChunkUnpacketizer {
    pub closed spec fn wf(&self) -> bool {
        self@.decoder.wf()
    }

    /// Every state that the operations can reach is well formed.
    pub proof fn lemma_wf_view(&self)
        requires
            self.wf(),
        ensures
            self@.decoder.wf(),
    {
    }

    /// An unpacketizer for a fresh connection: chunk size 128, nothing
    /// received.
    pub fn new() -> (u: Self)
        ensures
            u.wf(),
            u@ == (UnpacketizerView { buffer: Seq::empty(), decoder: DecoderView::initial() }),
    {
        let u = ChunkUnpacketizer {
            buffer: Vec::new(),
            max_chunk_size: INIT_CHUNK_SIZE,
            streams: HashMap::new(),
        };
        assert(u@.decoder.streams =~= Map::<u32, ChunkInfoView>::empty());
        u
    }

    /// The chunk size in force.
    pub fn max_chunk_size(&self) -> (size: u32)
        ensures
            size == self@.decoder.max_chunk_size,
    {
        self.max_chunk_size
    }

    /// How many bytes are waiting to be read.
    pub fn buffered(&self) -> (n: usize)
        ensures
            n == self@.buffer.len(),
    {
        self.buffer.len()
    }

    /// Appends bytes received from the peer.
    pub fn extend_data(&mut self, data: &[u8])
        requires
            old(self).wf(),
        ensures
            final(self).wf(),
            final(self)@ == (UnpacketizerView {
                buffer: old(self)@.buffer + data@,
                ..old(self)@
            }),
    {
        put_slice(&mut self.buffer, data);
    }

    /// Applies what a complete message changes in the decoder itself.
    fn apply_control(&mut self, m: &RtmpMessage)
        requires
            old(self).wf(),
        ensures
            final(self).wf(),
            final(self)@.buffer == old(self)@.buffer,
            final(self)@.decoder == old(self)@.decoder.apply_control(m@),
    {
        self.max_chunk_size = next_chunk_size(self.max_chunk_size, m);
        if m.type_id == MSG_ABORT && m.payload.len() >= 4 {
            let csid = get_be32(&m.payload, 0);
            if let Some(info) = self.streams.remove(&csid) {
                let cleared = ChunkInfo {
                    basic_header: info.basic_header,
                    message_header: info.message_header,
                    payload: Vec::new(),
                };
                self.streams.insert(csid, cleared);
            }
        }
        assert(self@.decoder.streams =~= old(self)@.decoder.apply_control(m@).streams);
    }

    /// Reads one chunk off the front of the buffer.
    ///
    /// If the buffer holds a whole chunk, the chunk is consumed and its
    /// payload added to the reassembly unit of its chunk stream; if that
    /// completes a message, the message is returned. If the buffer ends in
    /// the middle of a chunk, or the chunk is malformed, nothing changes.
    pub fn read_chunk(&mut self) -> (result: Result<UnpackResult, UnpackError>)
        requires
            old(self).wf(),
        ensures
            final(self).wf(),
            outcome_of(result) == old(self)@.decoder.read_chunk(old(self)@.buffer).outcome,
            final(self)@.decoder == old(self)@.decoder.read_chunk(old(self)@.buffer).next,
            final(self)@.buffer == old(self)@.buffer.skip(
                old(self)@.decoder.read_chunk(old(self)@.buffer).consumed,
            ),
    {
        let ghost before = self@.decoder;
        let ghost bytes = self@.buffer;
        reveal(DecoderView::read_chunk);
        assert(bytes.skip(0) =~= bytes);
        let (basic, at) = match read_basic_header(&self.buffer) {
            Parsed::Incomplete => {
                return Ok(UnpackResult::NotEnoughBytes);
            },
            Parsed::Malformed => {
                return Err(UnpackError::MalformedChunk);
            },
            Parsed::Done { value, end } => (value, end),
        };
        let csid = basic.chunk_stream_id;
        let (prev, have) = match self.streams.get(&csid) {
            Some(info) => (Some(info.header()), info.payload.len()),
            None => (None, 0),
        };
        assert(prev == before.previous(csid));
        assert(have == before.pending(csid).len());
        let parsed = if have > 0 {
            if basic.format == FORMAT_NONE {
                match prev {
                    Some(p) => Parsed::Done { value: p, end: at },
                    None => Parsed::Malformed,
                }
            } else {
                Parsed::Malformed
            }
        } else {
            read_message_header(basic, prev, &self.buffer, at)
        };
        assert(parsed == before.header_at(basic, bytes, at as int));
        let (header, start) = match parsed {
            Parsed::Incomplete => {
                return Ok(UnpackResult::NotEnoughBytes);
            },
            Parsed::Malformed => {
                return Err(UnpackError::MalformedChunk);
            },
            Parsed::Done { value, end } => (value, end),
        };
        let length = header.message_header.message_length as usize;
        let missing = length - have;
        let limit = self.max_chunk_size as usize;
        let want = if missing <= limit {
            missing
        } else {
            limit
        };
        assert(want == before.chunk_payload_len(header, have as nat));
        if self.buffer.len() - start < want {
            return Ok(UnpackResult::NotEnoughBytes);
        }
        let mut payload = match self.streams.remove(&csid) {
            Some(info) => info.payload,
            None => Vec::new(),
        };
        assert(payload@ =~= before.pending(csid));
        put_range(&mut payload, &self.buffer, start, start + want);
        let rest = self.buffer.split_off(start + want);
        self.buffer = rest;
        assert(self.buffer@ =~= bytes.skip(start + want));
        if payload.len() == length {
            let message = RtmpMessage {
                type_id: header.message_header.message_type_id,
                timestamp: header.message_header.timestamp,
                message_stream_id: header.message_header.message_stream_id,
                payload,
            };
            self.streams.insert(csid, ChunkInfo::new(header, Vec::new()));
            assert(self@.decoder.streams =~= before.store(header, Seq::empty()).streams);
            self.apply_control(&message);
            Ok(UnpackResult::Message(message))
        } else {
            let ghost collected = payload@;
            self.streams.insert(csid, ChunkInfo::new(header, payload));
            assert(self@.decoder.streams =~= before.store(header, collected).streams);
            Ok(UnpackResult::Chunk)
        }
    }

    /// Reads chunks off the front of the buffer until one completes a
    /// message.
    ///
    /// Returns the message, or `None` when the buffer has run out first:
    /// the chunks consumed up to there stay consumed, and the call may be
    /// repeated once more bytes have arrived.
    pub fn read_message(&mut self) -> (result: Result<Option<RtmpMessage>, UnpackError>)
        requires
            old(self).wf(),
        ensures
            final(self).wf(),
            message_outcome_of(result) == old(self)@.decoder.read_message(
                old(self)@.buffer,
            ).outcome,
            final(self)@.decoder == old(self)@.decoder.read_message(old(self)@.buffer).next,
            final(self)@.buffer == old(self)@.buffer.skip(
                old(self)@.decoder.read_message(old(self)@.buffer).consumed,
            ),
    {
        let ghost whole = old(self)@.decoder.read_message(old(self)@.buffer);
        let ghost consumed: int = 0;
        assert(self@.buffer.skip(0) =~= self@.buffer);
        loop
            invariant
                self.wf(),
                0 <= consumed <= old(self)@.buffer.len(),
                self@.buffer == old(self)@.buffer.skip(consumed),
                whole == old(self)@.decoder.read_message(old(self)@.buffer),
                whole.outcome == self@.decoder.read_message(self@.buffer).outcome,
                whole.next == self@.decoder.read_message(self@.buffer).next,
                whole.consumed == consumed + self@.decoder.read_message(self@.buffer).consumed,
            decreases self@.buffer.len(),
        {
            let ghost now = self@;
            let ghost step = now.decoder.read_chunk(now.buffer);
            proof {
                lemma_read_chunk_bounds(now.decoder, now.buffer);
            }
            match self.read_chunk() {
                Ok(UnpackResult::NotEnoughBytes) => {
                    assert(now.buffer.skip(0) =~= now.buffer);
                    return Ok(None);
                },
                Ok(UnpackResult::Message(m)) => {
                    assert(old(self)@.buffer.skip(consumed).skip(step.consumed) =~= old(
                        self,
                    )@.buffer.skip(consumed + step.consumed));
                    return Ok(Some(m));
                },
                Ok(UnpackResult::Chunk) => {
                    proof {
                        assert(old(self)@.buffer.skip(consumed).skip(step.consumed) =~= old(
                            self,
                        )@.buffer.skip(consumed + step.consumed));
                        consumed = consumed + step.consumed;
                    }
                },
                Err(e) => {
                    assert(now.buffer.skip(0) =~= now.buffer);
                    return Err(e);
                },
            }
        }
    }
}

/// A chunk that is consumed takes at least one byte, and no more than
/// there are; an attempt that consumes nothing changes nothing.
pub proof fn lemma_read_chunk_bounds(d: DecoderView, bytes: Seq<u8>)
    requires
        d.wf(),
    ensures
        0 <= d.read_chunk(bytes).consumed <= bytes.len(),
        d.read_chunk(bytes).outcome is Partial || d.read_chunk(bytes).outcome is Message
            ==> d.read_chunk(bytes).consumed >= 1,
        d.read_chunk(bytes).outcome is Incomplete || d.read_chunk(bytes).outcome is Malformed
            ==> d.read_chunk(bytes).consumed == 0 && d.read_chunk(bytes).next == d,
{
    reveal(DecoderView::read_chunk);
    reveal(basic_header_at);
    reveal(message_header_at);
}

/// Reading up to a message consumes no more bytes than there are, and at
/// least one if a message comes out; it leaves a well-formed state.
pub proof fn lemma_read_message_bounds(d: DecoderView, bytes: Seq<u8>)
    requires
        d.wf(),
    ensures
        0 <= d.read_message(bytes).consumed <= bytes.len(),
        d.read_message(bytes).outcome is Message ==> d.read_message(bytes).consumed >= 1,
        !(d.read_message(bytes).outcome is Partial),
        d.read_message(bytes).next.wf(),
    decreases bytes.len(),
{
    lemma_read_chunk_bounds(d, bytes);
    lemma_read_chunk_wf(d, bytes);
    let step = d.read_chunk(bytes);
    if step.outcome is Partial && 0 < step.consumed <= bytes.len() {
        lemma_read_message_bounds(step.next, bytes.skip(step.consumed));
    }
}

/// Reading a chunk leaves a well-formed state.
pub proof fn lemma_read_chunk_wf(d: DecoderView, bytes: Seq<u8>)
    requires
        d.wf(),
    ensures
        d.read_chunk(bytes).next.wf(),
{
    reveal(DecoderView::read_chunk);
    reveal(basic_header_at);
    reveal(message_header_at);
    let step = d.read_chunk(bytes);
    assert forall|c: u32| #[trigger] step.next.streams.contains_key(c) implies {
        &&& step.next.streams[c].wf()
        &&& step.next.streams[c].message_header.message_length <= MAX_MESSAGE_LENGTH
        &&& step.next.streams[c].basic_header.chunk_stream_id == c
    } by {
        if !d.streams.contains_key(c) {
        }
    }
}

} // verus!
