//! What holds of a connection whatever the bytes.

use vstd::prelude::*;
use crate::chunk::laws::{after_message, in_step, round_trip};
use crate::chunk::packetizer::{pack_error, EncoderView};
use crate::chunk::unpacketizer::{lemma_read_chunk_bounds, UnpacketizerView};
use crate::connection::{perform, react, ConnectionView, OutputView};
use crate::message::MessageView;
use crate::session::{ActionView, EventView, SessionState};

verus! {

/// A closed connection takes no notice of anything: whatever is reported
/// and whatever bytes come in, it orders nothing.
pub proof fn closed_connection_is_silent(c: ConnectionView, event: EventView, data: Seq<u8>, now: u32)
    requires
        c.session.state == SessionState::Closed,
    ensures
        c.notify(event) == (c, Seq::<OutputView>::empty()),
        c.on_bytes(data, now).1 == Seq::<OutputView>::empty(),
        c.on_bytes(data, now).0.session == c.session,
{
    reveal(react);
}

/// With nothing left to read, nothing happens.
proof fn empty_buffer_drains_to_nothing(c: ConnectionView)
    requires
        c.wf(),
        c.reader.buffer.len() == 0,
    ensures
        c.drain() == (c, Seq::<OutputView>::empty()),
{
    lemma_read_chunk_bounds(c.reader.decoder, c.reader.buffer);
    let step = c.reader.decoder.read_message(c.reader.buffer);
    let first = c.reader.decoder.read_chunk(c.reader.buffer);
    assert(first.outcome is Incomplete) by {
        reveal(crate::chunk::unpacketizer::DecoderView::read_chunk);
        reveal(crate::chunk::unpacketizer::basic_header_at);
    }
    assert(step == first);
    assert(c.reader.buffer.skip(0) =~= c.reader.buffer);
}

/// What the peer writes reaches the session as it was written: if the
/// reader of this connection is in step with the writer of the peer, and
/// the peer writes the message `m`, then taking in the bytes comes to the
/// same as giving `m` itself to the session. The session sees the type,
/// the timestamp, the message stream and the payload that the peer sent,
/// however many chunks they came in.
pub proof fn sent_message_reaches_the_session(
    c: ConnectionView,
    peer: EncoderView,
    csid: u32,
    m: MessageView,
    now: u32,
)
    requires
        c.wf(),
        peer.wf(),
        c.session.state != SessionState::Closed,
        c.session.state != SessionState::Handshaking,
        c.reader.buffer.len() == 0,
        in_step(c.reader.decoder, peer, csid),
        pack_error(csid, m) is None,
    ensures
        ({
            let read = ConnectionView {
                reader: UnpacketizerView {
                    buffer: Seq::empty(),
                    decoder: after_message(c.reader.decoder, peer.header_for(csid, m), m),
                },
                ..c
            };
            &&& c.on_bytes(peer.encode(csid, m), now) == read.notify(EventView::Message(m))
            &&& in_step(read.reader.decoder, peer.after(csid, m), csid)
        }),
{
    let bytes = peer.encode(csid, m);
    let none = Seq::<u8>::empty();
    let fed = c.feed(bytes);
    assert(fed.reader.buffer =~= bytes + none);
    round_trip(c.reader.decoder, peer, csid, m, none);
    let step = fed.reader.decoder.read_message(fed.reader.buffer);
    crate::chunk::laws::encoding_is_not_empty(peer, csid, m);
    assert(fed.reader.buffer.skip(step.consumed) =~= none);
    let read = ConnectionView {
        reader: UnpacketizerView {
            buffer: none,
            decoder: after_message(c.reader.decoder, peer.header_for(csid, m), m),
        },
        ..c
    };
    let (handled, outputs) = read.notify(EventView::Message(m));
    assert(handled.wf()) by {
        reveal(react);
        crate::session_laws::step_preserves_wf(c.session, EventView::Message(m));
        lemma_perform_keeps_wf(c.writer, react(c.session, EventView::Message(m)).1);
    }
    empty_buffer_drains_to_nothing(handled);
    assert(outputs + Seq::<OutputView>::empty() =~= outputs);
}

/// Carrying out actions leaves the writer well formed.
pub proof fn lemma_perform_keeps_wf(e: EncoderView, actions: Seq<ActionView>)
    requires
        e.wf(),
    ensures
        perform(e, actions).0.wf(),
    decreases actions.len(),
{
    if actions.len() > 0 {
        lemma_perform_keeps_wf(
            crate::connection::perform_one(e, actions.first()).0,
            actions.drop_first(),
        );
    }
}

} // verus!
