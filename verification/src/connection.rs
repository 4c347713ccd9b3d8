//! One connection, end to end: the handshake, the chunk codec in both
//! directions, and the session, put together.
//!
//! The host reads bytes from the socket and hands them in, together with
//! the notices that the hub sends to this connection; it gets back what
//! to write to the socket, what to ask of the hub, and when to close.

use vstd::prelude::*;
use crate::channels::{HubNotice, HubRequest, HubRequestView, SessionHandle, StreamKey};
use crate::chunk::packetizer::{pack_error, ChunkPacketizer, EncoderView};
use crate::chunk::unpacketizer::{
    lemma_read_message_bounds, ChunkUnpacketizer, DecoderView, Outcome, UnpacketizerView,
};
use crate::handshake::{
    hello, Handshake, HandshakeState, HandshakeStep, HandshakeStepView, HandshakeView, RTMP_VERSION,
};
use crate::session::{
    action_views, ActionView, CloseReason, EventView, Role, RtmpSession, SessionAction,
    SessionEvent, SessionState, SessionView,
};

verus! {

/// What the host is to do for a connection.
#[derive(Debug)]
pub enum Output {
    /// Write these bytes to the peer.
    Write(Vec<u8>),
    /// Send this request to the hub.
    Hub(HubRequest),
    /// Close the connection.
    Close(CloseReason),
}

pub ghost enum OutputView {
    Write(Seq<u8>),
    Hub(HubRequestView),
    Close(CloseReason),
}

impl View for Output {
    type V = OutputView;

    open spec fn view(&self) -> OutputView {
        match *self {
            Output::Write(bytes) => OutputView::Write(bytes@),
            Output::Hub(r) => OutputView::Hub(r@),
            Output::Close(reason) => OutputView::Close(reason),
        }
    }
}

/// The views of a list of outputs, in order.
pub open spec fn output_views(outputs: Seq<Output>) -> Seq<OutputView> {
    outputs.map_values(|o: Output| o@)
}

/// What carrying out one action of the session comes to: a message to send
/// is written as chunks with the writer's state, and dropped if it cannot
/// be written; all else is handed on.
pub open spec fn perform_one(e: EncoderView, a: ActionView) -> (EncoderView, Seq<OutputView>) {
    match a {
        ActionView::Send { chunk_stream_id, message } => match pack_error(
            chunk_stream_id,
            message,
        ) {
            None => (
                e.after(chunk_stream_id, message),
                seq![OutputView::Write(e.encode(chunk_stream_id, message))],
            ),
            Some(_) => (e, Seq::empty()),
        },
        ActionView::Hub(r) => (e, seq![OutputView::Hub(r)]),
        ActionView::Close(reason) => (e, seq![OutputView::Close(reason)]),
    }
}

/// What carrying out a list of actions comes to, one after the other.
pub open spec fn perform(e: EncoderView, actions: Seq<ActionView>) -> (
    EncoderView,
    Seq<OutputView>,
)
    decreases actions.len(),
{
    if actions.len() == 0 {
        (e, Seq::empty())
    } else {
        let (e1, first) = perform_one(e, actions.first());
        let (e2, rest) = perform(e1, actions.drop_first());
        (e2, first + rest)
    }
}

/// What the session makes of an event.
#[verifier::opaque]
pub open spec fn react(s: SessionView, event: EventView) -> (SessionView, Seq<ActionView>) {
    s.step(event)
}

/// The order to write `bytes`, if there are any.
pub open spec fn written(bytes: Seq<u8>) -> Seq<OutputView> {
    if bytes.len() > 0 {
        seq![OutputView::Write(bytes)]
    } else {
        Seq::empty()
    }
}

/// One connection, as the mathematics sees it.
pub ghost struct ConnectionView {
    pub handshake: HandshakeView,
    pub reader: UnpacketizerView,
    pub writer: EncoderView,
    pub session: SessionView,
}

impl ConnectionView {
    pub open spec fn wf(self) -> bool {
        &&& self.handshake.wf()
        &&& self.reader.decoder.wf()
        &&& self.writer.wf()
        &&& self.session.wf()
    }

    /// The session takes `event`, and what it orders is carried out.
    pub open spec fn notify(self, event: EventView) -> (ConnectionView, Seq<OutputView>) {
        let (session, actions) = react(self.session, event);
        let (writer, outputs) = perform(self.writer, actions);
        (ConnectionView { session, writer, ..self }, outputs)
    }

    /// The connection with `data` behind what the reader has buffered.
    pub open spec fn feed(self, data: Seq<u8>) -> ConnectionView {
        ConnectionView {
            reader: UnpacketizerView { buffer: self.reader.buffer + data, ..self.reader },
            ..self
        }
    }

    /// Messages are read off the buffer and given to the session, one
    /// after the other, until the bytes run out, a chunk is malformed, or
    /// the session is closed.
    pub open spec fn drain(self) -> (ConnectionView, Seq<OutputView>)
        decreases self.reader.buffer.len(),
    {
        if self.session.state == SessionState::Closed {
            (self, Seq::empty())
        } else {
            let step = self.reader.decoder.read_message(self.reader.buffer);
            let advanced = ConnectionView {
                reader: UnpacketizerView {
                    buffer: self.reader.buffer.skip(step.consumed),
                    decoder: step.next,
                },
                ..self
            };
            match step.outcome {
                Outcome::Message(m) if 0 < step.consumed <= self.reader.buffer.len() => {
                    let (handled, outputs) = advanced.notify(EventView::Message(m));
                    let (later, more) = handled.drain();
                    (later, outputs + more)
                },
                Outcome::Malformed => advanced.notify(EventView::MalformedChunk),
                _ => (advanced, Seq::empty()),
            }
        }
    }

    /// The handshake is over: its last bytes are written, the session is
    /// told, and what the peer sent behind the handshake is read as
    /// chunks.
    pub open spec fn begin(self, send: Seq<u8>, leftover: Seq<u8>) -> (
        ConnectionView,
        Seq<OutputView>,
    ) {
        let (told, outputs) = self.notify(EventView::HandshakeDone);
        let (later, more) = told.feed(leftover).drain();
        (later, written(send) + outputs + more)
    }

    /// The handshake goes on with what has been taken in: up to two steps,
    /// since a server that has answered the hello may find the echo
    /// already there.
    pub open spec fn shake(self, now: u32) -> (ConnectionView, Seq<OutputView>) {
        let (h1, r1) = self.handshake.step(now);
        let c1 = ConnectionView { handshake: h1, ..self };
        match r1 {
            Err(_) => c1.notify(EventView::HandshakeFailed),
            Ok(HandshakeStepView::NeedMoreData) => (c1, Seq::empty()),
            Ok(HandshakeStepView::Done { send, leftover }) => c1.begin(send, leftover),
            Ok(HandshakeStepView::Send(bytes)) => {
                let (h2, r2) = h1.step(now);
                let c2 = ConnectionView { handshake: h2, ..self };
                match r2 {
                    Err(_) => {
                        let (c3, outputs) = c2.notify(EventView::HandshakeFailed);
                        (c3, seq![OutputView::Write(bytes)] + outputs)
                    },
                    Ok(HandshakeStepView::Done { send, leftover }) => {
                        let (c3, outputs) = c2.begin(send, leftover);
                        (c3, seq![OutputView::Write(bytes)] + outputs)
                    },
                    _ => (c2, seq![OutputView::Write(bytes)]),
                }
            },
        }
    }

    /// The peer has sent `data`, at time `now`. During the handshake the
    /// bytes go to the handshake, afterwards to the chunk reader.
    pub open spec fn on_bytes(self, data: Seq<u8>, now: u32) -> (ConnectionView, Seq<OutputView>) {
        if self.session.state == SessionState::Handshaking {
            (ConnectionView {
                handshake: HandshakeView {
                    buffer: self.handshake.buffer + data,
                    ..self.handshake
                },
                ..self
            }).shake(now)
        } else {
            self.feed(data).drain()
        }
    }
}

proof fn lemma_output_views_push(outputs: Seq<Output>, o: Output)
    ensures
        output_views(outputs.push(o)) == output_views(outputs).push(o@),
{
    assert(output_views(outputs.push(o)) =~= output_views(outputs).push(o@));
}

/// One connection.
pub struct Connection {
    handshake: Handshake,
    reader: ChunkUnpacketizer,
    writer: ChunkPacketizer,
    session: RtmpSession,
}

impl View for Connection {
    type V = ConnectionView;

    closed spec fn view(&self) -> ConnectionView {
        ConnectionView {
            handshake: self.handshake@,
            reader: self.reader@,
            writer: self.writer@,
            session: self.session@,
        }
    }
}

impl Connection {
    pub closed spec fn wf(&self) -> bool {
        &&& self.handshake.wf()
        &&& self.reader.wf()
        &&& self.writer.wf()
        &&& self.session.wf()
    }

    /// Every connection that the operations can reach is well formed.
    pub proof fn lemma_wf_view(&self)
        requires
            self.wf(),
        ensures
            self@.wf(),
    {
        self.handshake.lemma_wf_view();
        self.reader.lemma_wf_view();
        self.writer.lemma_wf_view();
        self.session.lemma_wf_view();
    }

    /// A connection that a peer has opened to this server. `time` and
    /// `seed` go into the server's hello; at most `capacity` messages may
    /// wait to be written to the peer.
    pub fn server(handle: SessionHandle, capacity: usize, time: u32, seed: &[u8]) -> (c: Self)
        ensures
            c.wf(),
            c@.handshake == (HandshakeView {
                server: true,
                state: HandshakeState::AwaitingHello,
                buffer: Seq::empty(),
                sent: hello(time, seed@),
            }),
            c@.reader == (UnpacketizerView {
                buffer: Seq::empty(),
                decoder: DecoderView::initial(),
            }),
            c@.writer == EncoderView::initial(),
            c@.session == (SessionView {
                role: Role::Server,
                state: SessionState::Handshaking,
                handle,
                app_name: Seq::empty(),
                stream_name: Seq::empty(),
                tc_url: Seq::empty(),
                waiting_for_hub: false,
                requested: false,
                queued: 0,
                capacity,
            }),
    {
        Connection {
            handshake: Handshake::server(time, seed),
            reader: ChunkUnpacketizer::new(),
            writer: ChunkPacketizer::new(),
            session: RtmpSession::server(handle, capacity),
        }
    }

    /// A connection that a relay has opened to another server, over which
    /// `session` is to run. Returns the connection and the bytes to write
    /// first: the version byte and the client's hello.
    pub fn client(session: RtmpSession, time: u32, seed: &[u8]) -> (made: (Self, Vec<u8>))
        requires
            session.wf(),
        ensures
            made.0.wf(),
            made.0@.handshake == (HandshakeView {
                server: false,
                state: HandshakeState::AwaitingHello,
                buffer: Seq::empty(),
                sent: hello(time, seed@),
            }),
            made.0@.reader == (UnpacketizerView {
                buffer: Seq::empty(),
                decoder: DecoderView::initial(),
            }),
            made.0@.writer == EncoderView::initial(),
            made.0@.session == session@,
            made.1@ == seq![RTMP_VERSION] + hello(time, seed@),
    {
        let handshake = Handshake::client(time, seed);
        let greeting = handshake.greeting();
        (
            Connection {
                handshake,
                reader: ChunkUnpacketizer::new(),
                writer: ChunkPacketizer::new(),
                session,
            },
            greeting,
        )
    }

    /// Where the session of the connection stands.
    pub fn state(&self) -> (state: SessionState)
        ensures
            state == self@.session.state,
    {
        self.session.state()
    }

    /// Whether the connection waits for the peer to say something: the
    /// host is to report a timeout if nothing comes in time.
    pub fn awaits(&self) -> (b: bool)
        ensures
            b == self@.session.awaits(),
    {
        self.session.awaits()
    }

    /// The key of the stream that the connection publishes or subscribes
    /// to.
    pub fn key(&self) -> (key: StreamKey)
        ensures
            key@ == self@.session.key(),
    {
        self.session.key()
    }

    /// Carries out what the session has ordered.
    fn perform(&mut self, actions: Vec<SessionAction>, out: &mut Vec<Output>)
        requires
            old(self).wf(),
        ensures
            final(self).wf(),
            final(self)@ == (ConnectionView {
                writer: perform(old(self)@.writer, action_views(actions@)).0,
                ..old(self)@
            }),
            output_views(final(out)@) == output_views(old(out)@) + perform(
                old(self)@.writer,
                action_views(actions@),
            ).1,
    {
        let mut actions = actions;
        let ghost all = action_views(actions@);
        let ghost start = self@.writer;
        assert(output_views(out@) + Seq::<OutputView>::empty() =~= output_views(out@));
        while actions.len() > 0
            invariant
                self.wf(),
                self@ == (ConnectionView { writer: self@.writer, ..old(self)@ }),
                perform(self@.writer, action_views(actions@)).0 == perform(start, all).0,
                output_views(out@) + perform(self@.writer, action_views(actions@)).1
                    == output_views(old(out)@) + perform(start, all).1,
            decreases actions@.len(),
        {
            let ghost before = action_views(actions@);
            let ghost writer = self@.writer;
            let ghost done = output_views(out@);
            let a = actions.remove(0);
            proof {
                assert(action_views(actions@) =~= before.drop_first());
                assert(before.first() == a@);
            }
            match a {
                SessionAction::Send { chunk_stream_id, message } => {
                    match self.writer.write_message(chunk_stream_id, &message) {
                        Ok(bytes) => {
                            proof {
                                lemma_output_views_push(out@, Output::Write(bytes));
                            }
                            out.push(Output::Write(bytes));
                        },
                        Err(_) => {},
                    }
                },
                SessionAction::Hub(r) => {
                    proof {
                        lemma_output_views_push(out@, Output::Hub(r));
                    }
                    out.push(Output::Hub(r));
                },
                SessionAction::Close(reason) => {
                    proof {
                        lemma_output_views_push(out@, Output::Close(reason));
                    }
                    out.push(Output::Close(reason));
                },
            }
            proof {
                let (e1, first) = perform_one(writer, before.first());
                assert(self@.writer == e1);
                assert(output_views(out@) =~= done + first);
                assert(done + (first + perform(e1, before.drop_first()).1) =~= (done + first)
                    + perform(e1, before.drop_first()).1);
            }
        }
        assert(output_views(out@) + Seq::<OutputView>::empty() =~= output_views(out@));
    }

    /// Gives the session an event and carries out what it orders.
    fn notify(&mut self, event: SessionEvent, out: &mut Vec<Output>)
        requires
            old(self).wf(),
        ensures
            final(self).wf(),
            final(self)@ == old(self)@.notify(event@).0,
            output_views(final(out)@) == output_views(old(out)@) + old(self)@.notify(event@).1,
    {
        reveal(react);
        let actions = self.session.handle(event);
        self.perform(actions, out);
    }

    /// Reads messages off the buffer and gives each to the session.
    fn drain(&mut self, out: &mut Vec<Output>)
        requires
            old(self).wf(),
        ensures
            final(self).wf(),
            final(self)@ == old(self)@.drain().0,
            output_views(final(out)@) == output_views(old(out)@) + old(self)@.drain().1,
    {
        let ghost goal = old(self)@.drain();
        let ghost base = output_views(old(out)@);
        loop
            invariant_except_break
                self@.drain().0 == goal.0,
                output_views(out@) + self@.drain().1 == base + goal.1,
            invariant
                self.wf(),
            ensures
                self.wf(),
                self@ == goal.0,
                output_views(out@) == base + goal.1,
            decreases self@.reader.buffer.len(),
        {
            let ghost now = self@;
            let ghost done = output_views(out@);
            proof {
                self.reader.lemma_wf_view();
                lemma_read_message_bounds(now.reader.decoder, now.reader.buffer);
            }
            if self.session.state() == SessionState::Closed {
                assert(done + Seq::<OutputView>::empty() =~= done);
                break;
            }
            match self.reader.read_message() {
                Ok(Some(m)) => {
                    let ghost advanced = self@;
                    self.notify(SessionEvent::Message(m), out);
                    proof {
                        let (handled, outputs) = advanced.notify(EventView::Message(m@));
                        assert(done + (outputs + handled.drain().1) =~= (done + outputs)
                            + handled.drain().1);
                    }
                },
                Ok(None) => {
                    assert(done + Seq::<OutputView>::empty() =~= done);
                    break;
                },
                Err(_) => {
                    self.notify(SessionEvent::MalformedChunk, out);
                    break;
                },
            }
        }
    }

    /// Starts the session once the handshake is over.
    fn begin(&mut self, send: Vec<u8>, leftover: Vec<u8>, out: &mut Vec<Output>)
        requires
            old(self).wf(),
        ensures
            final(self).wf(),
            final(self)@ == old(self)@.begin(send@, leftover@).0,
            output_views(final(out)@) == output_views(old(out)@) + old(self)@.begin(
                send@,
                leftover@,
            ).1,
    {
        let ghost base = output_views(out@);
        let ghost goal = self@.begin(send@, leftover@);
        let ghost sent = written(send@);
        if send.len() > 0 {
            proof {
                lemma_output_views_push(out@, Output::Write(send));
            }
            out.push(Output::Write(send));
        }
        assert(output_views(out@) =~= base + sent);
        let ghost told = self@.notify(EventView::HandshakeDone);
        self.notify(SessionEvent::HandshakeDone, out);
        self.reader.extend_data(leftover.as_slice());
        let ghost fed = self@;
        assert(fed == told.0.feed(leftover@));
        self.drain(out);
        assert(output_views(out@) =~= base + (sent + told.1 + fed.drain().1));
    }

    /// Takes in bytes that the peer has sent; `now` is the host's clock.
    pub fn on_bytes(&mut self, data: &[u8], now: u32) -> (out: Vec<Output>)
        requires
            old(self).wf(),
        ensures
            final(self).wf(),
            final(self)@ == old(self)@.on_bytes(data@, now).0,
            output_views(out@) == old(self)@.on_bytes(data@, now).1,
    {
        let mut out: Vec<Output> = Vec::new();
        let ghost none = output_views(out@);
        assert(none =~= Seq::<OutputView>::empty());
        if self.session.state() != SessionState::Handshaking {
            self.reader.extend_data(data);
            self.drain(&mut out);
            assert(none + old(self)@.on_bytes(data@, now).1 =~= old(self)@.on_bytes(data@, now).1);
            return out;
        }
        self.handshake.extend_data(data);
        let ghost goal = self@.shake(now);
        match self.handshake.advance(now) {
            Err(_) => {
                self.notify(SessionEvent::HandshakeFailed, &mut out);
            },
            Ok(HandshakeStep::NeedMoreData) => {},
            Ok(HandshakeStep::Done { send, leftover }) => {
                self.begin(send, leftover, &mut out);
            },
            Ok(HandshakeStep::Send(bytes)) => {
                proof {
                    lemma_output_views_push(out@, Output::Write(bytes));
                }
                out.push(Output::Write(bytes));
                let ghost first = output_views(out@);
                assert(first =~= seq![OutputView::Write(bytes@)]);
                match self.handshake.advance(now) {
                    Err(_) => {
                        self.notify(SessionEvent::HandshakeFailed, &mut out);
                    },
                    Ok(HandshakeStep::Done { send, leftover }) => {
                        self.begin(send, leftover, &mut out);
                    },
                    _ => {},
                }
            },
        }
        assert(none + goal.1 =~= goal.1);
        out
    }

    /// Takes in a notice that the hub has sent to this connection.
    pub fn on_hub(&mut self, notice: HubNotice) -> (out: Vec<Output>)
        requires
            old(self).wf(),
        ensures
            final(self).wf(),
            final(self)@ == old(self)@.notify(EventView::Hub(notice@)).0,
            output_views(out@) == old(self)@.notify(EventView::Hub(notice@)).1,
    {
        self.on_event(SessionEvent::Hub(notice))
    }

    /// Takes in anything else that has happened: messages were written,
    /// the peer is gone, time has run out.
    pub fn on_event(&mut self, event: SessionEvent) -> (out: Vec<Output>)
        requires
            old(self).wf(),
        ensures
            final(self).wf(),
            final(self)@ == old(self)@.notify(event@).0,
            output_views(out@) == old(self)@.notify(event@).1,
    {
        let mut out: Vec<Output> = Vec::new();
        assert(output_views(out@) =~= Seq::<OutputView>::empty());
        self.notify(event, &mut out);
        assert(Seq::<OutputView>::empty() + old(self)@.notify(event@).1 =~= old(self)@.notify(
            event@,
        ).1);
        out
    }
}

} // verus!
