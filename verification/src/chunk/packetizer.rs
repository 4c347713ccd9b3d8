//! Writing messages as chunks.
//!
//! The first chunk of a message carries the smallest header that the header
//! sent before on the same chunk stream allows; the rest of the payload
//! follows in chunks of at most the chunk size, each behind a one-to-three
//! byte basic header of format 3.

use std::collections::HashMap;
use vstd::prelude::*;
use crate::chunk::chunk::{ChunkBasicHeader, ChunkHeader, ChunkMessageHeader};
use crate::chunk::define::{
    EXTENDED_TIMESTAMP, FORMAT_FULL, FORMAT_NONE, FORMAT_SAME_STREAM, FORMAT_TIME_ONLY,
    INIT_CHUNK_SIZE, MAX_CHUNK_SIZE, MAX_CHUNK_STREAM_ID, MAX_MESSAGE_LENGTH, MIN_CHUNK_STREAM_ID,
};
use crate::chunk::errors::PackError;
use crate::chunk::wire::{be24, be32, be32_at, get_be32, le32, put_be24, put_be32, put_le32, put_range};
use crate::message::{MessageView, RtmpMessage, MSG_SET_CHUNK_SIZE};

verus! {

/// The chunk stream ids that a basic header can carry.
pub open spec fn valid_chunk_stream_id(csid: u32) -> bool {
    MIN_CHUNK_STREAM_ID <= csid <= MAX_CHUNK_STREAM_ID
}

/// The basic header on the wire: one byte for ids below 64, two for ids
/// below 320, three for the rest. The format sits in the two high bits of
/// the first byte.
#[verifier::opaque]
pub open spec fn basic_header_bytes(h: ChunkBasicHeader) -> Seq<u8> {
    let f = h.format as int;
    let id = h.chunk_stream_id as int;
    if id < 64 {
        seq![(f * 64 + id) as u8]
    } else if id < 320 {
        seq![(f * 64) as u8, (id - 64) as u8]
    } else {
        seq![(f * 64 + 1) as u8, ((id - 64) % 256) as u8, ((id - 64) / 256) as u8]
    }
}

/// What the three-byte timestamp field holds for the value `v`: `v` itself,
/// or `0xFFFFFF` if `v` does not fit below that.
pub open spec fn timestamp_field(v: u32) -> u32 {
    if v >= EXTENDED_TIMESTAMP {
        EXTENDED_TIMESTAMP
    } else {
        v
    }
}

/// The extended timestamp field for the value `v`: its four bytes if the
/// three-byte field could not hold it, else nothing.
pub open spec fn extended_timestamp_bytes(v: u32) -> Seq<u8> {
    if v >= EXTENDED_TIMESTAMP {
        be32(v)
    } else {
        Seq::empty()
    }
}

/// The message header on the wire, as the format in the basic header asks:
/// 11, 7, 3 or 0 bytes, and 4 more where the timestamp field overflows.
pub open spec fn message_header_bytes(h: ChunkHeader) -> Seq<u8> {
    let m = h.message_header;
    if h.basic_header.format == FORMAT_FULL {
        be24(timestamp_field(m.timestamp)) + be24(m.message_length) + seq![m.message_type_id]
            + le32(m.message_stream_id) + extended_timestamp_bytes(m.timestamp)
    } else if h.basic_header.format == FORMAT_SAME_STREAM {
        be24(timestamp_field(m.timestamp_delta)) + be24(m.message_length) + seq![
            m.message_type_id,
        ] + extended_timestamp_bytes(m.timestamp_delta)
    } else if h.basic_header.format == FORMAT_TIME_ONLY {
        be24(timestamp_field(m.timestamp_delta)) + extended_timestamp_bytes(m.timestamp_delta)
    } else {
        Seq::empty()
    }
}

/// The header format for `m`, given the header sent before on the same chunk
/// stream.
///
/// With nothing sent before, or a different message stream, type or length,
/// or a timestamp that went backwards: 0. With the same stream, type and
/// length: 3 if the timestamp advanced by the same delta as before, else 1.
pub open spec fn choose_format(prev: Option<ChunkHeader>, m: MessageView) -> u8 {
    match prev {
        None => FORMAT_FULL,
        Some(p) => {
            let q = p.message_header;
            if m.message_stream_id == q.message_stream_id && m.type_id == q.message_type_id
                && m.payload.len() == q.message_length && m.timestamp >= q.timestamp {
                if m.timestamp - q.timestamp == q.timestamp_delta {
                    FORMAT_NONE
                } else {
                    FORMAT_SAME_STREAM
                }
            } else {
                FORMAT_FULL
            }
        },
    }
}

/// The full header of `m` on chunk stream `csid`, in the format chosen.
pub open spec fn next_header(prev: Option<ChunkHeader>, csid: u32, m: MessageView) -> ChunkHeader {
    let format = choose_format(prev, m);
    ChunkHeader {
        basic_header: ChunkBasicHeader { format, chunk_stream_id: csid },
        message_header: ChunkMessageHeader {
            timestamp: m.timestamp,
            timestamp_delta: if format == FORMAT_FULL {
                m.timestamp
            } else {
                (m.timestamp - prev->0.message_header.timestamp) as u32
            },
            message_length: m.payload.len() as u32,
            message_type_id: m.type_id,
            message_stream_id: m.message_stream_id,
        },
    }
}

/// The chunks after the first: `rest` cut into pieces of at most `max`
/// bytes, each behind a basic header of format 3.
pub open spec fn continuation_bytes(csid: u32, rest: Seq<u8>, max: nat) -> Seq<u8>
    decreases rest.len(),
{
    if rest.len() == 0 || max == 0 {
        Seq::empty()
    } else {
        let n = if rest.len() <= max {
            rest.len()
        } else {
            max
        };
        basic_header_bytes(ChunkBasicHeader { format: FORMAT_NONE, chunk_stream_id: csid })
            + rest.take(n as int) + continuation_bytes(csid, rest.skip(n as int), max)
    }
}

/// The chunk size in force after `m` has gone over the wire: what `m`
/// announces if it is a Set Chunk Size message with a size in
/// `1..=0x7FFFFFFF`, else `current`.
pub open spec fn chunk_size_after(current: u32, m: MessageView) -> u32 {
    if m.type_id == MSG_SET_CHUNK_SIZE && m.payload.len() >= 4 && 1 <= be32_at(m.payload, 0)
        <= MAX_CHUNK_SIZE {
        be32_at(m.payload, 0)
    } else {
        current
    }
}

/// Why `m` cannot be written on chunk stream `csid`, if it cannot.
pub open spec fn pack_error(csid: u32, m: MessageView) -> Option<PackError> {
    if !valid_chunk_stream_id(csid) {
        Some(PackError::InvalidChunkStreamId)
    } else if m.payload.len() > MAX_MESSAGE_LENGTH {
        Some(PackError::PayloadTooLarge)
    } else {
        None
    }
}

/// The writing side of one connection: the chunk size in force, and for
/// each chunk stream the header sent last.
pub ghost struct EncoderView {
    pub max_chunk_size: u32,
    pub headers: Map<u32, ChunkHeader>,
}

impl EncoderView {
    pub open spec fn wf(self) -> bool {
        self.max_chunk_size >= 1
    }

    /// The state of a connection on which nothing has been written.
    pub open spec fn initial() -> EncoderView {
        EncoderView { max_chunk_size: INIT_CHUNK_SIZE, headers: Map::empty() }
    }

    /// The header sent last on `csid`.
    pub open spec fn previous(self, csid: u32) -> Option<ChunkHeader> {
        if self.headers.contains_key(csid) {
            Some(self.headers[csid])
        } else {
            None
        }
    }

    /// The header that `m` is sent with on `csid`.
    pub open spec fn header_for(self, csid: u32, m: MessageView) -> ChunkHeader {
        next_header(self.previous(csid), csid, m)
    }

    /// How many payload bytes the first chunk of `m` carries.
    pub open spec fn first_chunk_len(self, m: MessageView) -> int {
        if m.payload.len() <= self.max_chunk_size {
            m.payload.len() as int
        } else {
            self.max_chunk_size as int
        }
    }

    /// The bytes that `m` is written as on chunk stream `csid`.
    pub open spec fn encode(self, csid: u32, m: MessageView) -> Seq<u8> {
        let header = self.header_for(csid, m);
        let first = self.first_chunk_len(m);
        basic_header_bytes(header.basic_header) + message_header_bytes(header) + m.payload.take(
            first,
        ) + continuation_bytes(csid, m.payload.skip(first), self.max_chunk_size as nat)
    }

    /// The state after `m` has been written on `csid`. A new chunk size
    /// holds from the next message on.
    pub open spec fn after(self, csid: u32, m: MessageView) -> EncoderView {
        EncoderView {
            max_chunk_size: chunk_size_after(self.max_chunk_size, m),
            headers: self.headers.insert(csid, self.header_for(csid, m)),
        }
    }
}

/// Appends the basic header of a chunk.
pub(crate) fn put_basic_header(out: &mut Vec<u8>, h: ChunkBasicHeader)
    requires
        h.format <= 3,
        valid_chunk_stream_id(h.chunk_stream_id),
    ensures
        final(out)@ == old(out)@ + basic_header_bytes(h),
{
    let id = h.chunk_stream_id;
    if id < 64 {
        out.push(h.format * 64 + (id as u8));
    } else if id < 320 {
        out.push(h.format * 64);
        out.push((id - 64) as u8);
    } else {
        out.push(h.format * 64 + 1);
        out.push(((id - 64) % 256) as u8);
        out.push(((id - 64) / 256) as u8);
    }
    reveal(basic_header_bytes);
    assert(out@ =~= old(out)@ + basic_header_bytes(h));
}

fn put_timestamp_field(out: &mut Vec<u8>, v: u32)
    ensures
        final(out)@ == old(out)@ + be24(timestamp_field(v)),
{
    if v >= EXTENDED_TIMESTAMP {
        put_be24(out, EXTENDED_TIMESTAMP);
    } else {
        put_be24(out, v);
    }
}

fn put_extended_timestamp(out: &mut Vec<u8>, v: u32)
    ensures
        final(out)@ == old(out)@ + extended_timestamp_bytes(v),
{
    if v >= EXTENDED_TIMESTAMP {
        put_be32(out, v);
    } else {
        assert(out@ =~= old(out)@ + extended_timestamp_bytes(v));
    }
}

/// Appends the message header of a chunk, as the format in `h` asks.
pub(crate) fn put_message_header(out: &mut Vec<u8>, h: ChunkHeader)
    requires
        h.message_header.message_length <= MAX_MESSAGE_LENGTH,
    ensures
        final(out)@ == old(out)@ + message_header_bytes(h),
{
    let m = h.message_header;
    if h.basic_header.format == FORMAT_FULL {
        put_timestamp_field(out, m.timestamp);
        put_be24(out, m.message_length);
        out.push(m.message_type_id);
        put_le32(out, m.message_stream_id);
        put_extended_timestamp(out, m.timestamp);
    } else if h.basic_header.format == FORMAT_SAME_STREAM {
        put_timestamp_field(out, m.timestamp_delta);
        put_be24(out, m.message_length);
        out.push(m.message_type_id);
        put_extended_timestamp(out, m.timestamp_delta);
    } else if h.basic_header.format == FORMAT_TIME_ONLY {
        put_timestamp_field(out, m.timestamp_delta);
        put_extended_timestamp(out, m.timestamp_delta);
    }
    assert(out@ =~= old(out)@ + message_header_bytes(h));
}

/// Computes the header that `m` is sent with, given the header sent before.
pub(crate) fn make_header(prev: Option<ChunkHeader>, csid: u32, m: &RtmpMessage) -> (h: ChunkHeader)
    requires
        m@.payload.len() <= MAX_MESSAGE_LENGTH,
    ensures
        h == next_header(prev, csid, m@),
{
    let length = m.payload.len() as u32;
    let mut format = FORMAT_FULL;
    let mut delta = m.timestamp;
    if let Some(p) = prev {
        let q = p.message_header;
        if m.message_stream_id == q.message_stream_id && m.type_id == q.message_type_id && length
            == q.message_length && m.timestamp >= q.timestamp {
            delta = m.timestamp - q.timestamp;
            if delta == q.timestamp_delta {
                format = FORMAT_NONE;
            } else {
                format = FORMAT_SAME_STREAM;
            }
        }
    }
    ChunkHeader {
        basic_header: ChunkBasicHeader { format, chunk_stream_id: csid },
        message_header: ChunkMessageHeader {
            timestamp: m.timestamp,
            timestamp_delta: delta,
            message_length: length,
            message_type_id: m.type_id,
            message_stream_id: m.message_stream_id,
        },
    }
}

/// Computes the chunk size in force after `m`.
pub fn next_chunk_size(current: u32, m: &RtmpMessage) -> (size: u32)
    ensures
        size == chunk_size_after(current, m@),
{
    if m.type_id == MSG_SET_CHUNK_SIZE && m.payload.len() >= 4 {
        let announced = get_be32(&m.payload, 0);
        if 1 <= announced && announced <= MAX_CHUNK_SIZE {
            return announced;
        }
    }
    current
}

/// The writing side of one connection.
pub struct ChunkPacketizer {
    max_chunk_size: u32,
    headers: HashMap<u32, ChunkHeader>,
}

impl View for ChunkPacketizer {
    type V = EncoderView;

    closed spec fn view(&self) -> EncoderView {
        EncoderView { max_chunk_size: self.max_chunk_size, headers: self.headers@ }
    }
}

impl ChunkPacketizer {
    pub closed spec fn wf(&self) -> bool {
        self@.wf()
    }

    /// Every state that the operations can reach is well formed.
    pub proof fn lemma_wf_view(&self)
        requires
            self.wf(),
        ensures
            self@.wf(),
    {
    }

    /// A packetizer for a fresh connection: chunk size 128, nothing sent.
    pub fn new() -> (p: Self)
        ensures
            p.wf(),
            p@ == EncoderView::initial(),
    {
        ChunkPacketizer { max_chunk_size: INIT_CHUNK_SIZE, headers: HashMap::new() }
    }

    /// The chunk size in force.
    pub fn max_chunk_size(&self) -> (size: u32)
        ensures
            size == self@.max_chunk_size,
    {
        self.max_chunk_size
    }

    /// Writes `message` on chunk stream `csid` and returns the bytes.
    ///
    /// Fails, and changes nothing, if `csid` is outside `2..=65599` or the
    /// payload is longer than `0xFFFFFF` bytes. If the message is a Set
    /// Chunk Size message, the new size holds from the next message on.
    pub fn write_message(&mut self, csid: u32, message: &RtmpMessage) -> (result: Result<
        Vec<u8>,
        PackError,
    >)
        requires
            old(self).wf(),
        ensures
            final(self).wf(),
            match pack_error(csid, message@) {
                Some(e) => result == Err::<Vec<u8>, PackError>(e) && final(self)@ == old(self)@,
                None => {
                    &&& result matches Ok(bytes)
                    &&& bytes@ == old(self)@.encode(csid, message@)
                    &&& final(self)@ == old(self)@.after(csid, message@)
                },
            },
    {
        if csid < MIN_CHUNK_STREAM_ID || csid > MAX_CHUNK_STREAM_ID {
            return Err(PackError::InvalidChunkStreamId);
        }
        if message.payload.len() > MAX_MESSAGE_LENGTH as usize {
            return Err(PackError::PayloadTooLarge);
        }
        let prev = match self.headers.get(&csid) {
            Some(h) => Some(*h),
            None => None,
        };
        assert(prev == self@.previous(csid));
        let header = make_header(prev, csid, message);
        let ghost target = self@.encode(csid, message@);
        let ghost max = self.max_chunk_size as nat;
        let len = message.payload.len();
        let limit = self.max_chunk_size as usize;
        let first = if len <= limit {
            len
        } else {
            limit
        };
        let mut out: Vec<u8> = Vec::new();
        put_basic_header(&mut out, header.basic_header);
        put_message_header(&mut out, header);
        put_range(&mut out, &message.payload, 0, first);
        let continuation = ChunkBasicHeader { format: FORMAT_NONE, chunk_stream_id: csid };
        let mut pos = first;
        assert(message@.payload.subrange(0, first as int) =~= message@.payload.take(first as int));
        while pos < len
            invariant
                pos <= len,
                len == message@.payload.len(),
                limit == max,
                max >= 1,
                valid_chunk_stream_id(csid),
                continuation == (ChunkBasicHeader { format: FORMAT_NONE, chunk_stream_id: csid }),
                out@ + continuation_bytes(csid, message@.payload.skip(pos as int), max) == target,
            decreases len - pos,
        {
            let n = if len - pos <= limit {
                len - pos
            } else {
                limit
            };
            let ghost rest = message@.payload.skip(pos as int);
            let ghost before = out@;
            put_basic_header(&mut out, continuation);
            put_range(&mut out, &message.payload, pos, pos + n);
            proof {
                assert(rest.take(n as int) =~= message@.payload.subrange(pos as int, pos + n));
                assert(rest.skip(n as int) =~= message@.payload.skip(pos + n));
                assert(out@ + continuation_bytes(csid, message@.payload.skip(pos + n), max)
                    =~= before + continuation_bytes(csid, rest, max));
            }
            pos = pos + n;
        }
        assert(continuation_bytes(csid, message@.payload.skip(pos as int), max) =~= Seq::<
            u8,
        >::empty());
        assert(out@ =~= target);
        self.headers.insert(csid, header);
        self.max_chunk_size = next_chunk_size(self.max_chunk_size, message);
        Ok(out)
    }
}

} // verus!
