//! What holds of the codec whatever the messages: reading gives back what
//! was written.

use vstd::prelude::*;
use crate::chunk::chunk::{ChunkBasicHeader, ChunkHeader, ChunkInfoView};
use crate::chunk::define::{
    EXTENDED_TIMESTAMP, FORMAT_FULL, FORMAT_NONE, FORMAT_SAME_STREAM, FORMAT_TIME_ONLY,
    MAX_MESSAGE_LENGTH,
};
use crate::chunk::packetizer::{
    basic_header_bytes, continuation_bytes, extended_timestamp_bytes, message_header_bytes,
    next_header, pack_error, timestamp_field, valid_chunk_stream_id, EncoderView,
};
use crate::chunk::unpacketizer::{
    advance, basic_header_at, message_header_at, timestamp_at, DecoderView, Outcome, Parsed, Step,
};
use crate::chunk::wire::{
    be24, be32, be32_at, le32, lemma_be24_round_trip, lemma_be32_round_trip, lemma_le32_round_trip,
    lemma_wire_lengths,
};
use crate::message::MessageView;

verus! {

/// A basic header that was written is read back as it was, whatever
/// follows it.
pub proof fn basic_header_round_trip(h: ChunkBasicHeader, post: Seq<u8>)
    requires
        h.format <= 3,
        valid_chunk_stream_id(h.chunk_stream_id),
    ensures
        basic_header_at(basic_header_bytes(h) + post) == (Parsed::Done {
            value: h,
            end: basic_header_bytes(h).len() as usize,
        }),
        1 <= basic_header_bytes(h).len() <= 3,
{
    reveal(basic_header_bytes);
    reveal(basic_header_at);
    let b = basic_header_bytes(h);
    let bytes = b + post;
    let f = h.format as int;
    let id = h.chunk_stream_id as int;
    assert(bytes[0] == b[0]);
    if id < 64 {
        assert(b[0] == f * 64 + id);
    } else if id < 320 {
        assert(b[0] == f * 64);
        assert(bytes[1] == b[1]);
    } else {
        assert(b[0] == f * 64 + 1);
        assert(bytes[1] == b[1]);
        assert(bytes[2] == b[2]);
    }
}

/// `h` is what its own compressed form expands to after `prev`: each field
/// that the format of `h` leaves out agrees with `prev`.
pub open spec fn expands_from(prev: Option<ChunkHeader>, h: ChunkHeader) -> bool {
    let m = h.message_header;
    if h.basic_header.format == FORMAT_FULL {
        m.timestamp_delta == m.timestamp
    } else {
        &&& prev matches Some(p)
        &&& m.message_stream_id == p.message_header.message_stream_id
        &&& if h.basic_header.format == FORMAT_SAME_STREAM {
            m.timestamp == advance(p.message_header.timestamp, m.timestamp_delta)
        } else {
            &&& m.message_length == p.message_header.message_length
            &&& m.message_type_id == p.message_header.message_type_id
            &&& if h.basic_header.format == FORMAT_TIME_ONLY {
                m.timestamp == advance(p.message_header.timestamp, m.timestamp_delta)
            } else {
                &&& m.timestamp_delta == p.message_header.timestamp_delta
                &&& m.timestamp == advance(
                    p.message_header.timestamp,
                    p.message_header.timestamp_delta,
                )
            }
        }
    }
}

/// A timestamp field that was written, with its extension where it has
/// one, is read back as the value it was written for.
proof fn timestamp_round_trip(v: u32, bytes: Seq<u8>, at: int, ext: int)
    requires
        0 <= at,
        at + 3 <= ext,
        ext + extended_timestamp_bytes(v).len() <= bytes.len(),
        ext + 4 <= usize::MAX,
        bytes.subrange(at, at + 3) == be24(timestamp_field(v)),
        bytes.subrange(ext, ext + extended_timestamp_bytes(v).len()) == extended_timestamp_bytes(
            v,
        ),
    ensures
        timestamp_at(bytes, at, ext) == (Parsed::Done {
            value: v,
            end: (ext + extended_timestamp_bytes(v).len()) as usize,
        }),
{
    lemma_wire_lengths(v);
    lemma_be24_round_trip(timestamp_field(v), bytes, at);
    if v >= EXTENDED_TIMESTAMP {
        lemma_be32_round_trip(v, bytes, ext);
    }
}

/// Where the pieces of a byte string lie that was put together from a
/// front, five pieces of a header, and a back.
proof fn layout(
    pre: Seq<u8>,
    a: Seq<u8>,
    b: Seq<u8>,
    c: Seq<u8>,
    d: Seq<u8>,
    e: Seq<u8>,
    post: Seq<u8>,
)
    ensures
        ({
            let bytes = pre + (a + b + c + d + e) + post;
            let at = pre.len() as int;
            let at_b = at + a.len();
            let at_c = at_b + b.len();
            let at_d = at_c + c.len();
            let at_e = at_d + d.len();
            &&& bytes.len() == at_e + e.len() + post.len()
            &&& bytes.subrange(at, at_b) == a
            &&& bytes.subrange(at_b, at_c) == b
            &&& bytes.subrange(at_c, at_d) == c
            &&& bytes.subrange(at_d, at_e) == d
            &&& bytes.subrange(at_e, at_e + e.len()) == e
        }),
{
    let bytes = pre + (a + b + c + d + e) + post;
    let at = pre.len() as int;
    let at_b = at + a.len();
    let at_c = at_b + b.len();
    let at_d = at_c + c.len();
    let at_e = at_d + d.len();
    assert(bytes.subrange(at, at_b) =~= a);
    assert(bytes.subrange(at_b, at_c) =~= b);
    assert(bytes.subrange(at_c, at_d) =~= c);
    assert(bytes.subrange(at_d, at_e) =~= d);
    assert(bytes.subrange(at_e, at_e + e.len()) =~= e);
}

proof fn full_header_round_trip(
    prev: Option<ChunkHeader>,
    h: ChunkHeader,
    pre: Seq<u8>,
    post: Seq<u8>,
)
    requires
        h.basic_header.format == FORMAT_FULL,
        h.message_header.message_length <= MAX_MESSAGE_LENGTH,
        expands_from(prev, h),
        pre.len() <= 3,
    ensures
        message_header_at(
            h.basic_header,
            prev,
            pre + message_header_bytes(h) + post,
            pre.len() as int,
        ) == (Parsed::Done { value: h, end: (pre.len() + message_header_bytes(h).len()) as usize }),
        message_header_bytes(h).len() <= 15,
{
    reveal(message_header_at);
    lemma_wire_lengths(h.message_header.timestamp);
    lemma_wire_lengths(h.message_header.timestamp_delta);
    lemma_wire_lengths(h.message_header.message_length);
    lemma_wire_lengths(h.message_header.message_stream_id);
    lemma_wire_lengths(EXTENDED_TIMESTAMP);
    let m = h.message_header;
    let bytes = pre + message_header_bytes(h) + post;
    let at = pre.len() as int;
    let a = be24(timestamp_field(m.timestamp));
    let b = be24(m.message_length);
    let c = seq![m.message_type_id];
    let d = le32(m.message_stream_id);
    let e = extended_timestamp_bytes(m.timestamp);
    assert(message_header_bytes(h) == a + b + c + d + e);
    layout(pre, a, b, c, d, e, post);
    assert(bytes.subrange(at + 6, at + 7)[0] == bytes[at + 6]);
    timestamp_round_trip(m.timestamp, bytes, at, at + 11);
    lemma_be24_round_trip(m.message_length, bytes, at + 3);
    lemma_le32_round_trip(m.message_stream_id, bytes, at + 7);
}

proof fn same_stream_header_round_trip(
    prev: Option<ChunkHeader>,
    h: ChunkHeader,
    pre: Seq<u8>,
    post: Seq<u8>,
)
    requires
        h.basic_header.format == FORMAT_SAME_STREAM,
        h.message_header.message_length <= MAX_MESSAGE_LENGTH,
        expands_from(prev, h),
        pre.len() <= 3,
    ensures
        message_header_at(
            h.basic_header,
            prev,
            pre + message_header_bytes(h) + post,
            pre.len() as int,
        ) == (Parsed::Done { value: h, end: (pre.len() + message_header_bytes(h).len()) as usize }),
        message_header_bytes(h).len() <= 15,
{
    reveal(message_header_at);
    lemma_wire_lengths(h.message_header.timestamp);
    lemma_wire_lengths(h.message_header.timestamp_delta);
    lemma_wire_lengths(h.message_header.message_length);
    lemma_wire_lengths(h.message_header.message_stream_id);
    lemma_wire_lengths(EXTENDED_TIMESTAMP);
    let m = h.message_header;
    let bytes = pre + message_header_bytes(h) + post;
    let at = pre.len() as int;
    let a = be24(timestamp_field(m.timestamp_delta));
    let b = be24(m.message_length);
    let c = seq![m.message_type_id];
    let d = Seq::<u8>::empty();
    let e = extended_timestamp_bytes(m.timestamp_delta);
    assert(message_header_bytes(h) =~= a + b + c + d + e);
    layout(pre, a, b, c, d, e, post);
    assert(bytes.subrange(at + 6, at + 7)[0] == bytes[at + 6]);
    timestamp_round_trip(m.timestamp_delta, bytes, at, at + 7);
    lemma_be24_round_trip(m.message_length, bytes, at + 3);
}

proof fn time_only_header_round_trip(
    prev: Option<ChunkHeader>,
    h: ChunkHeader,
    pre: Seq<u8>,
    post: Seq<u8>,
)
    requires
        h.basic_header.format == FORMAT_TIME_ONLY,
        h.message_header.message_length <= MAX_MESSAGE_LENGTH,
        expands_from(prev, h),
        pre.len() <= 3,
    ensures
        message_header_at(
            h.basic_header,
            prev,
            pre + message_header_bytes(h) + post,
            pre.len() as int,
        ) == (Parsed::Done { value: h, end: (pre.len() + message_header_bytes(h).len()) as usize }),
        message_header_bytes(h).len() <= 15,
{
    reveal(message_header_at);
    lemma_wire_lengths(h.message_header.timestamp);
    lemma_wire_lengths(h.message_header.timestamp_delta);
    lemma_wire_lengths(h.message_header.message_length);
    lemma_wire_lengths(h.message_header.message_stream_id);
    lemma_wire_lengths(EXTENDED_TIMESTAMP);
    let m = h.message_header;
    let bytes = pre + message_header_bytes(h) + post;
    let at = pre.len() as int;
    let a = be24(timestamp_field(m.timestamp_delta));
    let none = Seq::<u8>::empty();
    let e = extended_timestamp_bytes(m.timestamp_delta);
    assert(message_header_bytes(h) =~= a + none + none + none + e);
    layout(pre, a, none, none, none, e, post);
    timestamp_round_trip(m.timestamp_delta, bytes, at, at + 3);
}

/// A message header that was written is read back in full, whatever stands
/// before and behind it, if the reader has the header before that the
/// writer compressed against.
pub proof fn message_header_round_trip(
    prev: Option<ChunkHeader>,
    h: ChunkHeader,
    pre: Seq<u8>,
    post: Seq<u8>,
)
    requires
        h.basic_header.format <= 3,
        h.message_header.message_length <= MAX_MESSAGE_LENGTH,
        expands_from(prev, h),
        pre.len() <= 3,
    ensures
        message_header_at(
            h.basic_header,
            prev,
            pre + message_header_bytes(h) + post,
            pre.len() as int,
        ) == (Parsed::Done { value: h, end: (pre.len() + message_header_bytes(h).len()) as usize }),
        message_header_bytes(h).len() <= 15,
{
    if h.basic_header.format == FORMAT_FULL {
        full_header_round_trip(prev, h, pre, post);
    } else if h.basic_header.format == FORMAT_SAME_STREAM {
        same_stream_header_round_trip(prev, h, pre, post);
    } else if h.basic_header.format == FORMAT_TIME_ONLY {
        time_only_header_round_trip(prev, h, pre, post);
    } else {
        reveal(message_header_at);
        assert(pre + message_header_bytes(h) + post =~= pre + post);
    }
}

/// The header that the writer chooses for a message is one that a reader
/// with the same header before expands to the same header.
pub proof fn chosen_header_expands(prev: Option<ChunkHeader>, csid: u32, m: MessageView)
    requires
        m.payload.len() <= MAX_MESSAGE_LENGTH,
    ensures
        expands_from(prev, next_header(prev, csid, m)),
        next_header(prev, csid, m).basic_header.format <= 3,
        next_header(prev, csid, m).basic_header.format != FORMAT_TIME_ONLY,
{
}

/// The reader has read everything that the writer has written on chunk
/// stream `csid`: both hold the same header for it, no message is half
/// read on it, and both count chunks by the same size.
pub open spec fn in_step(d: DecoderView, e: EncoderView, csid: u32) -> bool {
    &&& d.max_chunk_size == e.max_chunk_size
    &&& d.previous(csid) == e.previous(csid)
    &&& d.pending(csid).len() == 0
}

/// The message that a reader reports for the header `h` and the payload
/// `payload`.
pub open spec fn message_of(h: ChunkHeader, payload: Seq<u8>) -> MessageView {
    MessageView {
        type_id: h.message_header.message_type_id,
        timestamp: h.message_header.timestamp,
        message_stream_id: h.message_header.message_stream_id,
        payload,
    }
}

/// The reader's state after the whole of `m` has been read with header `h`.
pub open spec fn after_message(d: DecoderView, h: ChunkHeader, m: MessageView) -> DecoderView {
    d.store(h, Seq::empty()).apply_control(m)
}

/// Reading the first chunk of a written message: the header comes back in
/// full, and with it the first piece of the payload.
proof fn first_chunk_round_trip(
    d: DecoderView,
    e: EncoderView,
    csid: u32,
    m: MessageView,
    rest: Seq<u8>,
)
    requires
        d.wf(),
        e.wf(),
        in_step(d, e, csid),
        pack_error(csid, m) is None,
    ensures
        ({
            let h = e.header_for(csid, m);
            let first = e.first_chunk_len(m);
            let tail = continuation_bytes(csid, m.payload.skip(first), e.max_chunk_size as nat);
            let bytes = e.encode(csid, m) + rest;
            let step = d.read_chunk(bytes);
            &&& 1 <= step.consumed
            &&& step.consumed + tail.len() == e.encode(csid, m).len()
            &&& bytes.skip(step.consumed) == tail + rest
            &&& if first == m.payload.len() {
                &&& step.outcome == Outcome::Message(m)
                &&& step.next == after_message(d, h, m)
            } else {
                &&& step.outcome == Outcome::Partial
                &&& step.next == d.store(h, m.payload.take(first))
            }
        }),
{
    reveal(DecoderView::read_chunk);
    let h = e.header_for(csid, m);
    let first = e.first_chunk_len(m);
    let tail = continuation_bytes(csid, m.payload.skip(first), e.max_chunk_size as nat);
    let basic = basic_header_bytes(h.basic_header);
    let header = message_header_bytes(h);
    let piece = m.payload.take(first);
    let bytes = e.encode(csid, m) + rest;
    chosen_header_expands(e.previous(csid), csid, m);
    assert(bytes =~= basic + (header + piece + tail + rest));
    basic_header_round_trip(h.basic_header, header + piece + tail + rest);
    assert(bytes =~= basic + header + (piece + tail + rest));
    message_header_round_trip(e.previous(csid), h, basic, piece + tail + rest);
    let start = basic.len() + header.len();
    assert(d.header_at(h.basic_header, bytes, basic.len() as int) == (Parsed::Done {
        value: h,
        end: start as usize,
    }));
    assert(d.chunk_payload_len(h, 0) == first);
    assert(bytes.subrange(start as int, start + first) =~= piece);
    assert(d.pending(csid) + piece =~= piece);
    assert(bytes.skip(start + first) =~= tail + rest);
    if first == m.payload.len() {
        assert(piece =~= m.payload);
    }
}

/// Reading the chunks after the first: each adds its piece to what has
/// been received, and the last one completes the message.
proof fn continuation_round_trip(
    d: DecoderView,
    h: ChunkHeader,
    have: Seq<u8>,
    missing: Seq<u8>,
    rest: Seq<u8>,
)
    requires
        d.wf(),
        valid_chunk_stream_id(h.basic_header.chunk_stream_id),
        d.streams.contains_key(h.basic_header.chunk_stream_id),
        d.streams[h.basic_header.chunk_stream_id] == (ChunkInfoView {
            basic_header: h.basic_header,
            message_header: h.message_header,
            payload: have,
        }),
        have.len() > 0,
        missing.len() > 0,
        have.len() + missing.len() == h.message_header.message_length,
    ensures
        ({
            let csid = h.basic_header.chunk_stream_id;
            let tail = continuation_bytes(csid, missing, d.max_chunk_size as nat);
            let m = message_of(h, have + missing);
            d.read_message(tail + rest) == (Step {
                consumed: tail.len() as int,
                next: after_message(d, h, m),
                outcome: Outcome::Message(m),
            })
        }),
    decreases missing.len(),
{
    let csid = h.basic_header.chunk_stream_id;
    let max = d.max_chunk_size as nat;
    let tail = continuation_bytes(csid, missing, max);
    let m = message_of(h, have + missing);
    let bytes = tail + rest;
    let n = if missing.len() <= max {
        missing.len() as int
    } else {
        max as int
    };
    let mark = ChunkBasicHeader { format: FORMAT_NONE, chunk_stream_id: csid };
    let basic = basic_header_bytes(mark);
    let piece = missing.take(n);
    let later = continuation_bytes(csid, missing.skip(n), max);
    assert(tail == basic + piece + later);
    assert(bytes =~= basic + (piece + later + rest));
    basic_header_round_trip(mark, piece + later + rest);
    let at = basic.len() as int;
    assert(bytes.subrange(at, at + n) =~= piece);
    assert(bytes.skip(at + n) =~= later + rest);
    let step = d.read_chunk(bytes);
    assert(step.consumed == at + n && step.outcome == (if n == missing.len() {
        Outcome::Message(m)
    } else {
        Outcome::Partial
    }) && step.next == (if n == missing.len() {
        after_message(d, h, m)
    } else {
        d.store(h, have + piece)
    })) by {
        reveal(DecoderView::read_chunk);
        assert(d.header_at(mark, bytes, at) == (Parsed::Done { value: h, end: at as usize }));
        assert(d.chunk_payload_len(h, have.len()) == n);
        if n == missing.len() {
            assert(piece =~= missing);
        }
    }
    if n == missing.len() {
        assert(missing.skip(n).len() == 0);
        assert(later =~= Seq::<u8>::empty());
    } else {
        let next = d.store(h, have + piece);
        assert(next.wf()) by {
            assert forall|c: u32| #[trigger] next.streams.contains_key(c) implies {
                &&& next.streams[c].wf()
                &&& next.streams[c].message_header.message_length <= MAX_MESSAGE_LENGTH
                &&& next.streams[c].basic_header.chunk_stream_id == c
            } by {
                if c != csid {
                    assert(d.streams.contains_key(c));
                }
            }
        }
        continuation_round_trip(next, h, have + piece, missing.skip(n), rest);
        assert((have + piece) + missing.skip(n) =~= have + missing);
        assert(next.store(h, Seq::empty()).streams =~= d.store(h, Seq::empty()).streams);
        assert(after_message(next, h, m) == after_message(d, h, m));
    }
}

/// Round trip: a message that was written is read back as it was — type,
/// timestamp, message stream and payload — however many chunks it was cut
/// into and whatever header compression was used, provided the reader has
/// read everything written before on that chunk stream. Exactly the bytes
/// of the message are consumed, and reader and writer are in step again
/// afterwards.
pub proof fn round_trip(d: DecoderView, e: EncoderView, csid: u32, m: MessageView, rest: Seq<u8>)
    requires
        d.wf(),
        e.wf(),
        in_step(d, e, csid),
        pack_error(csid, m) is None,
    ensures
        d.read_message(e.encode(csid, m) + rest) == (Step {
            consumed: e.encode(csid, m).len() as int,
            next: after_message(d, e.header_for(csid, m), m),
            outcome: Outcome::Message(m),
        }),
        after_message(d, e.header_for(csid, m), m).wf(),
        in_step(after_message(d, e.header_for(csid, m), m), e.after(csid, m), csid),
        e.after(csid, m).wf(),
{
    let h = e.header_for(csid, m);
    let first = e.first_chunk_len(m);
    let bytes = e.encode(csid, m) + rest;
    first_chunk_round_trip(d, e, csid, m, rest);
    let step = d.read_chunk(bytes);
    if first < m.payload.len() {
        let next = d.store(h, m.payload.take(first));
        assert(next.wf()) by {
            assert forall|c: u32| #[trigger] next.streams.contains_key(c) implies {
                &&& next.streams[c].wf()
                &&& next.streams[c].message_header.message_length <= MAX_MESSAGE_LENGTH
                &&& next.streams[c].basic_header.chunk_stream_id == c
            } by {
                if c != csid {
                    assert(d.streams.contains_key(c));
                }
            }
        }
        continuation_round_trip(next, h, m.payload.take(first), m.payload.skip(first), rest);
        assert(m.payload.take(first) + m.payload.skip(first) =~= m.payload);
        assert(next.store(h, Seq::empty()).streams =~= d.store(h, Seq::empty()).streams);
        assert(after_message(next, h, m) == after_message(d, h, m));
    }
    after_message_wf(d, h, m);
}

/// The reader's state stays well formed over a complete message.
proof fn after_message_wf(d: DecoderView, h: ChunkHeader, m: MessageView)
    requires
        d.wf(),
        h.message_header.message_length <= MAX_MESSAGE_LENGTH,
    ensures
        after_message(d, h, m).wf(),
{
    let stored = d.store(h, Seq::empty());
    let next = after_message(d, h, m);
    assert forall|c: u32| #[trigger] next.streams.contains_key(c) implies {
        &&& next.streams[c].wf()
        &&& next.streams[c].message_header.message_length <= MAX_MESSAGE_LENGTH
        &&& next.streams[c].basic_header.chunk_stream_id == c
    } by {
        assert(stored.streams.contains_key(c));
        if c != h.basic_header.chunk_stream_id {
            assert(d.streams.contains_key(c));
        }
    }
}

/// The format of a chunk sits in the two high bits of its first byte.
pub proof fn format_on_wire(h: ChunkBasicHeader)
    requires
        h.format <= 3,
        valid_chunk_stream_id(h.chunk_stream_id),
    ensures
        basic_header_bytes(h).len() >= 1,
        basic_header_bytes(h)[0] / 64 == h.format,
{
    reveal(basic_header_bytes);
}

/// Header compression: after `m1`, a message `m2` with the same message
/// stream, type and length whose timestamp advances by another delta than
/// the one before goes out with a format 1 header; a message `m3` that
/// agrees with `m2` in all of these and advances by the same delta again
/// goes out with a format 3 header. A reader in step reads each back with
/// its full header.
pub proof fn compression_formats(
    d: DecoderView,
    e: EncoderView,
    csid: u32,
    m1: MessageView,
    m2: MessageView,
    m3: MessageView,
    rest: Seq<u8>,
)
    requires
        d.wf(),
        e.wf(),
        pack_error(csid, m1) is None,
        m2.message_stream_id == m1.message_stream_id,
        m2.type_id == m1.type_id,
        m2.payload.len() == m1.payload.len(),
        m2.timestamp >= m1.timestamp,
        m2.timestamp - m1.timestamp != e.header_for(csid, m1).message_header.timestamp_delta,
        m3.message_stream_id == m2.message_stream_id,
        m3.type_id == m2.type_id,
        m3.payload.len() == m2.payload.len(),
        m3.timestamp >= m2.timestamp,
        m3.timestamp - m2.timestamp == m2.timestamp - m1.timestamp,
        in_step(d, e.after(csid, m1), csid),
    ensures
        ({
            let e1 = e.after(csid, m1);
            let e2 = e1.after(csid, m2);
            let d2 = after_message(d, e1.header_for(csid, m2), m2);
            &&& e1.header_for(csid, m2).basic_header.format == FORMAT_SAME_STREAM
            &&& e1.encode(csid, m2)[0] / 64 == FORMAT_SAME_STREAM
            &&& e2.header_for(csid, m3).basic_header.format == FORMAT_NONE
            &&& e2.encode(csid, m3)[0] / 64 == FORMAT_NONE
            &&& d.read_message(e1.encode(csid, m2) + e2.encode(csid, m3) + rest).outcome
                == Outcome::Message(m2)
            &&& d.read_message(e1.encode(csid, m2) + e2.encode(csid, m3) + rest).next == d2
            &&& d2.previous(csid) == Some(e1.header_for(csid, m2))
            &&& d2.read_message(e2.encode(csid, m3) + rest).outcome == Outcome::Message(m3)
            &&& after_message(d2, e2.header_for(csid, m3), m3).previous(csid) == Some(
                e2.header_for(csid, m3),
            )
        }),
{
    let e1 = e.after(csid, m1);
    let e2 = e1.after(csid, m2);
    let h2 = e1.header_for(csid, m2);
    let h3 = e2.header_for(csid, m3);
    assert(e1.previous(csid) == Some(e.header_for(csid, m1)));
    assert(h2.basic_header.format == FORMAT_SAME_STREAM);
    assert(e2.previous(csid) == Some(h2));
    assert(h3.basic_header.format == FORMAT_NONE);
    format_on_wire(h2.basic_header);
    format_on_wire(h3.basic_header);
    assert(e1.encode(csid, m2)[0] == basic_header_bytes(h2.basic_header)[0]);
    assert(e2.encode(csid, m3)[0] == basic_header_bytes(h3.basic_header)[0]);
    assert(e1.wf() && e2.wf()) by {
        reveal(be32);
    }
    let d2 = after_message(d, h2, m2);
    round_trip(d, e1, csid, m2, e2.encode(csid, m3) + rest);
    assert(e1.encode(csid, m2) + (e2.encode(csid, m3) + rest) =~= e1.encode(csid, m2) + e2.encode(
        csid,
        m3,
    ) + rest);
    round_trip(d2, e2, csid, m3, rest);
}

/// Extended timestamp: where a message goes out with a full header and its
/// timestamp is `0xFFFFFF` or more, the three-byte timestamp field holds
/// exactly `0xFFFFFF`, and the four bytes behind the header hold the
/// timestamp itself. A reader in step recovers it.
pub proof fn extended_timestamp_on_wire(
    d: DecoderView,
    e: EncoderView,
    csid: u32,
    m: MessageView,
    rest: Seq<u8>,
)
    requires
        d.wf(),
        e.wf(),
        in_step(d, e, csid),
        pack_error(csid, m) is None,
        e.header_for(csid, m).basic_header.format == FORMAT_FULL,
        m.timestamp >= EXTENDED_TIMESTAMP,
    ensures
        ({
            let at = basic_header_bytes(e.header_for(csid, m).basic_header).len() as int;
            let bytes = e.encode(csid, m);
            &&& bytes.len() >= at + 15
            &&& bytes.subrange(at, at + 3) == seq![0xFFu8, 0xFFu8, 0xFFu8]
            &&& bytes.subrange(at + 11, at + 15) == be32(m.timestamp)
            &&& be32_at(bytes, at + 11) == m.timestamp
            &&& d.read_message(bytes + rest).outcome == Outcome::Message(m)
        }),
{
    let h = e.header_for(csid, m);
    let basic = basic_header_bytes(h.basic_header);
    let at = basic.len() as int;
    let first = e.first_chunk_len(m);
    let bytes = e.encode(csid, m);
    let a = be24(timestamp_field(m.timestamp));
    let b = be24(h.message_header.message_length);
    let c = seq![m.type_id];
    let dd = le32(m.message_stream_id);
    let x = be32(m.timestamp);
    let post = m.payload.take(first) + continuation_bytes(
        csid,
        m.payload.skip(first),
        e.max_chunk_size as nat,
    );
    lemma_wire_lengths(m.timestamp);
    lemma_wire_lengths(h.message_header.message_length);
    lemma_wire_lengths(m.message_stream_id);
    lemma_wire_lengths(EXTENDED_TIMESTAMP);
    assert(message_header_bytes(h) == a + b + c + dd + x);
    assert(bytes =~= basic + (a + b + c + dd + x) + post);
    layout(basic, a, b, c, dd, x, post);
    assert(a =~= seq![0xFFu8, 0xFFu8, 0xFFu8]) by {
        reveal(be24);
    }
    lemma_be32_round_trip(m.timestamp, bytes, at + 11);
    round_trip(d, e, csid, m, rest);
}

/// The same for a compressed header: where the timestamp delta that a
/// format 1 header carries is `0xFFFFFF` or more, the three-byte field
/// holds exactly `0xFFFFFF` and the four bytes behind the header hold the
/// delta.
pub proof fn extended_delta_on_wire(e: EncoderView, csid: u32, m: MessageView)
    requires
        e.wf(),
        pack_error(csid, m) is None,
        e.header_for(csid, m).basic_header.format == FORMAT_SAME_STREAM,
        e.header_for(csid, m).message_header.timestamp_delta >= EXTENDED_TIMESTAMP,
    ensures
        ({
            let at = basic_header_bytes(e.header_for(csid, m).basic_header).len() as int;
            let bytes = e.encode(csid, m);
            &&& bytes.len() >= at + 11
            &&& bytes.subrange(at, at + 3) == seq![0xFFu8, 0xFFu8, 0xFFu8]
            &&& bytes.subrange(at + 7, at + 11) == be32(
                e.header_for(csid, m).message_header.timestamp_delta,
            )
        }),
{
    let h = e.header_for(csid, m);
    let basic = basic_header_bytes(h.basic_header);
    let first = e.first_chunk_len(m);
    let bytes = e.encode(csid, m);
    let delta = h.message_header.timestamp_delta;
    let a = be24(timestamp_field(delta));
    let b = be24(h.message_header.message_length);
    let c = seq![m.type_id];
    let none = Seq::<u8>::empty();
    let x = be32(delta);
    let post = m.payload.take(first) + continuation_bytes(
        csid,
        m.payload.skip(first),
        e.max_chunk_size as nat,
    );
    lemma_wire_lengths(delta);
    lemma_wire_lengths(h.message_header.message_length);
    lemma_wire_lengths(EXTENDED_TIMESTAMP);
    assert(message_header_bytes(h) =~= a + b + c + none + x);
    assert(bytes =~= basic + (a + b + c + none + x) + post);
    layout(basic, a, b, c, none, x, post);
    assert(a =~= seq![0xFFu8, 0xFFu8, 0xFFu8]) by {
        reveal(be24);
    }
}

/// One message on its way out: the chunk stream it is written on, and the
/// message.
pub ghost struct Written {
    pub csid: u32,
    pub message: MessageView,
}

/// The bytes that a writer in state `e` produces for `items`, one after the
/// other.
pub open spec fn encode_all(e: EncoderView, items: Seq<Written>) -> Seq<u8>
    decreases items.len(),
{
    if items.len() == 0 {
        Seq::empty()
    } else {
        let w = items.first();
        e.encode(w.csid, w.message) + encode_all(e.after(w.csid, w.message), items.drop_first())
    }
}

/// The messages that a reader in state `d` gets out of `bytes`, in the
/// order in which they are completed, up to where the bytes run out or a
/// chunk is malformed.
pub open spec fn read_all(d: DecoderView, bytes: Seq<u8>) -> Seq<MessageView>
    decreases bytes.len(),
{
    let step = d.read_message(bytes);
    match step.outcome {
        Outcome::Message(m) if 0 < step.consumed <= bytes.len() => seq![m] + read_all(
            step.next,
            bytes.skip(step.consumed),
        ),
        _ => Seq::empty(),
    }
}

/// The messages of `items`, in order.
pub open spec fn messages_of(items: Seq<Written>) -> Seq<MessageView> {
    Seq::new(items.len(), |i: int| items[i].message)
}

/// The reader has read everything that the writer has written, on every
/// chunk stream.
pub open spec fn in_step_everywhere(d: DecoderView, e: EncoderView) -> bool {
    forall|csid: u32| in_step(d, e, csid)
}

/// A written message takes at least one byte.
pub proof fn encoding_is_not_empty(e: EncoderView, csid: u32, m: MessageView)
    requires
        pack_error(csid, m) is None,
    ensures
        e.encode(csid, m).len() >= 1,
{
    chosen_header_expands(e.previous(csid), csid, m);
    format_on_wire(e.header_for(csid, m).basic_header);
}

/// Reader and writer that were in step on every chunk stream are so again
/// after one message has been written and read.
proof fn stays_in_step(d: DecoderView, e: EncoderView, csid: u32, m: MessageView)
    requires
        d.wf(),
        e.wf(),
        in_step_everywhere(d, e),
        pack_error(csid, m) is None,
    ensures
        in_step_everywhere(after_message(d, e.header_for(csid, m), m), e.after(csid, m)),
{
    let h = e.header_for(csid, m);
    let d2 = after_message(d, h, m);
    let e2 = e.after(csid, m);
    assert forall|c: u32| in_step(d2, e2, c) by {
        assert(in_step(d, e, c));
        assert(d.store(h, Seq::empty()).streams.contains_key(c) == (c == csid
            || d.streams.contains_key(c)));
    }
}

/// Arrival order: whatever messages are written on one connection, on
/// whatever chunk streams, a reader that was in step gets exactly those
/// messages out of the bytes, in the order in which they were written.
pub proof fn read_all_round_trip(d: DecoderView, e: EncoderView, items: Seq<Written>)
    requires
        d.wf(),
        e.wf(),
        in_step_everywhere(d, e),
        forall|i: int| 0 <= i < items.len() ==> pack_error(items[i].csid, items[i].message) is None,
    ensures
        read_all(d, encode_all(e, items)) == messages_of(items),
    decreases items.len(),
{
    if items.len() == 0 {
        let step = d.read_message(Seq::<u8>::empty());
        lemma_nothing_from_nothing(d);
        assert(messages_of(items) =~= Seq::<MessageView>::empty());
    } else {
        let w = items.first();
        let later = items.drop_first();
        let e2 = e.after(w.csid, w.message);
        let d2 = after_message(d, e.header_for(w.csid, w.message), w.message);
        let head = e.encode(w.csid, w.message);
        let tail = encode_all(e2, later);
        assert(in_step(d, e, w.csid));
        round_trip(d, e, w.csid, w.message, tail);
        encoding_is_not_empty(e, w.csid, w.message);
        stays_in_step(d, e, w.csid, w.message);
        assert((head + tail).skip(head.len() as int) =~= tail);
        assert forall|i: int| 0 <= i < later.len() implies pack_error(
            later[i].csid,
            later[i].message,
        ) is None by {
            assert(later[i] == items[i + 1]);
        }
        read_all_round_trip(d2, e2, later);
        assert(seq![w.message] + messages_of(later) =~= messages_of(items));
    }
}

/// No bytes, no message.
proof fn lemma_nothing_from_nothing(d: DecoderView)
    ensures
        read_all(d, Seq::<u8>::empty()) == Seq::<MessageView>::empty(),
{
}

} // verus!
