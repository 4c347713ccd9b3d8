//! The RTMP handshake: three fixed-size packets each way, before any chunk.
//!
//! Each side sends a version byte and a hello packet (time, four zero
//! bytes, 1528 random bytes), and answers the peer's hello with an echo of
//! it. A side is done once the echo it receives carries the random bytes it
//! sent. The engines here do no I/O: the host feeds them what it has read
//! and writes what they hand back.

use vstd::prelude::*;
use crate::chunk::wire::{be32, lemma_wire_lengths, put_be32, put_range, put_slice};

verus! {

/// The only protocol version there is.
pub const RTMP_VERSION: u8 = 3;

/// The size of a hello packet and of an echo packet.
pub const PACKET_SIZE: usize = 1536;

/// Where the random bytes start in a packet.
pub const RANDOM_OFFSET: usize = 8;

#[derive(Debug, Copy, Clone, PartialEq, Eq, Structural)]
pub enum HandshakeError {
    /// The peer speaks another version, or its echo does not carry the
    /// random bytes it was sent.
    HandshakeFailed,
}

/// Where a handshake stands.
#[derive(Debug, Copy, Clone, PartialEq, Eq, Structural)]
pub enum HandshakeState {
    /// Waiting for the peer's version byte and hello (and, on the client,
    /// the peer's echo with them).
    AwaitingHello,
    /// Waiting for the peer's echo of our hello.
    AwaitingEcho,
    Done,
    /// Terminal: the connection is to be closed.
    Failed,
}

/// What the host is to do next.
#[derive(Debug, PartialEq, Eq)]
pub enum HandshakeStep {
    /// Read more from the peer and feed it in.
    NeedMoreData,
    /// Write these bytes to the peer, then go on.
    Send(Vec<u8>),
    /// Write `send` to the peer; the handshake is over. `leftover` is what
    /// the peer has sent beyond the handshake: the start of its chunk
    /// stream.
    Done { send: Vec<u8>, leftover: Vec<u8> },
}

pub ghost enum HandshakeStepView {
    NeedMoreData,
    Send(Seq<u8>),
    Done { send: Seq<u8>, leftover: Seq<u8> },
}

impl View for HandshakeStep {
    type V = HandshakeStepView;

    open spec fn view(&self) -> HandshakeStepView {
        match *self {
            HandshakeStep::NeedMoreData => HandshakeStepView::NeedMoreData,
            HandshakeStep::Send(bytes) => HandshakeStepView::Send(bytes@),
            HandshakeStep::Done { send, leftover } => HandshakeStepView::Done {
                send: send@,
                leftover: leftover@,
            },
        }
    }
}

/// The view of the result of a step.
pub open spec fn step_view(result: Result<HandshakeStep, HandshakeError>) -> Result<
    HandshakeStepView,
    HandshakeError,
> {
    match result {
        Ok(step) => Ok(step@),
        Err(e) => Err(e),
    }
}

/// The 1528 random bytes of a hello made from `seed`: the seed, cut off or
/// filled up with zeros.
pub open spec fn random_block(seed: Seq<u8>) -> Seq<u8> {
    Seq::new(
        (PACKET_SIZE - RANDOM_OFFSET) as nat,
        |i: int|
            if i < seed.len() {
                seed[i]
            } else {
                0u8
            },
    )
}

/// A hello packet: the time, four zero bytes, the random bytes.
pub open spec fn hello(time: u32, seed: Seq<u8>) -> Seq<u8> {
    be32(time) + seq![0u8, 0u8, 0u8, 0u8] + random_block(seed)
}

/// The echo of a hello received: its time, the time at which it was read,
/// and its random bytes.
pub open spec fn echo(received: Seq<u8>, read_at: u32) -> Seq<u8> {
    received.subrange(0, 4) + be32(read_at) + received.subrange(
        RANDOM_OFFSET as int,
        PACKET_SIZE as int,
    )
}

/// Whether `packet` carries the random bytes of `sent`, byte for byte. The
/// time fields are not looked at.
pub open spec fn echoes(packet: Seq<u8>, sent: Seq<u8>) -> bool {
    packet.subrange(RANDOM_OFFSET as int, PACKET_SIZE as int) == sent.subrange(
        RANDOM_OFFSET as int,
        PACKET_SIZE as int,
    )
}

/// One side of a handshake: where it stands, what it has received and not
/// yet looked at, and the hello it sends.
pub ghost struct HandshakeView {
    /// Whether this is the side that was connected to.
    pub server: bool,
    pub state: HandshakeState,
    pub buffer: Seq<u8>,
    pub sent: Seq<u8>,
}

impl HandshakeView {
    pub open spec fn wf(self) -> bool {
        self.sent.len() == PACKET_SIZE
    }

    pub open spec fn failed(self) -> (HandshakeView, Result<HandshakeStepView, HandshakeError>) {
        (
            HandshakeView { state: HandshakeState::Failed, ..self },
            Err(HandshakeError::HandshakeFailed),
        )
    }

    pub open spec fn waiting(self) -> (HandshakeView, Result<HandshakeStepView, HandshakeError>) {
        (self, Ok(HandshakeStepView::NeedMoreData))
    }

    /// Done: whatever is in the buffer is handed out as leftover.
    pub open spec fn finish(self, send: Seq<u8>, from: int) -> (
        HandshakeView,
        Result<HandshakeStepView, HandshakeError>,
    ) {
        (
            HandshakeView { state: HandshakeState::Done, buffer: Seq::empty(), ..self },
            Ok(HandshakeStepView::Done { send, leftover: self.buffer.skip(from) }),
        )
    }

    /// One step at time `now`, of the server or of the client.
    pub open spec fn step(self, now: u32) -> (
        HandshakeView,
        Result<HandshakeStepView, HandshakeError>,
    ) {
        if self.server {
            self.server_step(now)
        } else {
            self.client_step(now)
        }
    }

    /// One step of the server at time `now`.
    ///
    /// Awaiting the hello, it needs the version byte and the hello packet:
    /// 1537 bytes. A version other than 3 fails. It answers with its own
    /// version byte, its hello, and the echo of the peer's. Awaiting the
    /// echo, it needs 1536 bytes, which must carry the random bytes of its
    /// hello.
    pub open spec fn server_step(self, now: u32) -> (
        HandshakeView,
        Result<HandshakeStepView, HandshakeError>,
    ) {
        match self.state {
            HandshakeState::AwaitingHello => {
                if self.buffer.len() < 1 + PACKET_SIZE {
                    self.waiting()
                } else if self.buffer[0] != RTMP_VERSION {
                    self.failed()
                } else {
                    (
                        HandshakeView {
                            state: HandshakeState::AwaitingEcho,
                            buffer: self.buffer.skip(1 + PACKET_SIZE),
                            ..self
                        },
                        Ok(
                            HandshakeStepView::Send(
                                seq![RTMP_VERSION] + self.sent + echo(
                                    self.buffer.subrange(1, 1 + PACKET_SIZE),
                                    now,
                                ),
                            ),
                        ),
                    )
                }
            },
            HandshakeState::AwaitingEcho => {
                if self.buffer.len() < PACKET_SIZE {
                    self.waiting()
                } else if !echoes(self.buffer.subrange(0, PACKET_SIZE as int), self.sent) {
                    self.failed()
                } else {
                    self.finish(Seq::empty(), PACKET_SIZE as int)
                }
            },
            HandshakeState::Done => self.finish(Seq::empty(), 0),
            HandshakeState::Failed => self.failed(),
        }
    }

    /// One step of the client at time `now`.
    ///
    /// Having sent its version byte and hello, it needs the server's
    /// version byte, hello and echo: 3073 bytes. A version other than 3
    /// fails, and so does an echo that does not carry the random bytes of
    /// the client's hello. It answers with the echo of the server's hello
    /// and is done.
    pub open spec fn client_step(self, now: u32) -> (
        HandshakeView,
        Result<HandshakeStepView, HandshakeError>,
    ) {
        match self.state {
            HandshakeState::AwaitingHello | HandshakeState::AwaitingEcho => {
                if self.buffer.len() < 1 + 2 * PACKET_SIZE {
                    self.waiting()
                } else if self.buffer[0] != RTMP_VERSION {
                    self.failed()
                } else if !echoes(
                    self.buffer.subrange(1 + PACKET_SIZE, 1 + 2 * PACKET_SIZE),
                    self.sent,
                ) {
                    self.failed()
                } else {
                    self.finish(
                        echo(self.buffer.subrange(1, 1 + PACKET_SIZE), now),
                        1 + 2 * PACKET_SIZE,
                    )
                }
            },
            HandshakeState::Done => self.finish(Seq::empty(), 0),
            HandshakeState::Failed => self.failed(),
        }
    }
}

/// Builds a hello packet.
fn make_hello(time: u32, seed: &[u8]) -> (packet: Vec<u8>)
    ensures
        packet@ == hello(time, seed@),
        packet@.len() == PACKET_SIZE,
{
    let mut packet: Vec<u8> = Vec::new();
    put_be32(&mut packet, time);
    packet.push(0);
    packet.push(0);
    packet.push(0);
    packet.push(0);
    proof {
        lemma_wire_lengths(time);
    }
    let ghost head = packet@;
    assert(head =~= be32(time) + seq![0u8, 0u8, 0u8, 0u8]);
    let mut i: usize = 0;
    while i < PACKET_SIZE - RANDOM_OFFSET
        invariant
            i <= PACKET_SIZE - RANDOM_OFFSET,
            head.len() == 8,
            packet@ == head + random_block(seed@).take(i as int),
        decreases PACKET_SIZE - RANDOM_OFFSET - i,
    {
        let b = if i < seed.len() {
            seed[i]
        } else {
            0
        };
        packet.push(b);
        assert(packet@ =~= head + random_block(seed@).take(i + 1));
        i += 1;
    }
    assert(random_block(seed@).take(i as int) =~= random_block(seed@));
    packet
}

/// Builds the echo of the packet that starts at `from` in `bytes`.
fn make_echo(out: &mut Vec<u8>, bytes: &Vec<u8>, from: usize, read_at: u32)
    requires
        from + PACKET_SIZE <= bytes.len(),
    ensures
        final(out)@ == old(out)@ + echo(
            bytes@.subrange(from as int, from + PACKET_SIZE),
            read_at,
        ),
{
    let ghost received = bytes@.subrange(from as int, from + PACKET_SIZE);
    put_range(out, bytes, from, from + 4);
    put_be32(out, read_at);
    put_range(out, bytes, from + RANDOM_OFFSET, from + PACKET_SIZE);
    assert(bytes@.subrange(from as int, from + 4) =~= received.subrange(0, 4));
    assert(bytes@.subrange(from + RANDOM_OFFSET, from + PACKET_SIZE) =~= received.subrange(
        RANDOM_OFFSET as int,
        PACKET_SIZE as int,
    ));
    assert(out@ =~= old(out)@ + echo(received, read_at));
}

/// Whether the packet that starts at `from` in `bytes` carries the random
/// bytes of `sent`.
fn check_echo(bytes: &Vec<u8>, from: usize, sent: &Vec<u8>) -> (ok: bool)
    requires
        from + PACKET_SIZE <= bytes.len(),
        sent@.len() == PACKET_SIZE,
    ensures
        ok == echoes(bytes@.subrange(from as int, from + PACKET_SIZE), sent@),
{
    let ghost packet = bytes@.subrange(from as int, from + PACKET_SIZE);
    let ghost got = packet.subrange(RANDOM_OFFSET as int, PACKET_SIZE as int);
    let ghost want = sent@.subrange(RANDOM_OFFSET as int, PACKET_SIZE as int);
    let mut i: usize = RANDOM_OFFSET;
    while i < PACKET_SIZE
        invariant
            RANDOM_OFFSET <= i <= PACKET_SIZE,
            from + PACKET_SIZE <= bytes.len(),
            sent@.len() == PACKET_SIZE,
            packet == bytes@.subrange(from as int, from + PACKET_SIZE),
            got == packet.subrange(RANDOM_OFFSET as int, PACKET_SIZE as int),
            want == sent@.subrange(RANDOM_OFFSET as int, PACKET_SIZE as int),
            forall|j: int| 0 <= j < i - RANDOM_OFFSET ==> got[j] == want[j],
        decreases PACKET_SIZE - i,
    {
        if bytes[from + i] != sent[i] {
            assert(got[i - RANDOM_OFFSET] != want[i - RANDOM_OFFSET]);
            return false;
        }
        i += 1;
    }
    assert(got =~= want);
    true
}

/// Takes everything from `from` on out of `buffer`, which is left empty.
fn drain_from(buffer: &mut Vec<u8>, from: usize) -> (rest: Vec<u8>)
    requires
        from <= old(buffer).len(),
    ensures
        rest@ == old(buffer)@.skip(from as int),
        final(buffer)@ == Seq::<u8>::empty(),
{
    let rest = buffer.split_off(from);
    buffer.clear();
    assert(rest@ =~= old(buffer)@.skip(from as int));
    rest
}

/// Drops the first `n` bytes of `buffer`.
fn drop_front(buffer: &mut Vec<u8>, n: usize)
    requires
        n <= old(buffer).len(),
    ensures
        final(buffer)@ == old(buffer)@.skip(n as int),
{
    let rest = buffer.split_off(n);
    *buffer = rest;
    assert(buffer@ =~= old(buffer)@.skip(n as int));
}

/// One side of a handshake.
pub struct Handshake {
    server: bool,
    state: HandshakeState,
    buffer: Vec<u8>,
    sent: Vec<u8>,
}

impl View for Handshake {
    type V = HandshakeView;

    closed spec fn view(&self) -> HandshakeView {
        HandshakeView {
            server: self.server,
            state: self.state,
            buffer: self.buffer@,
            sent: self.sent@,
        }
    }
}

impl Handshake {
    pub closed spec fn wf(&self) -> bool {
        self@.wf()
    }

    /// Every handshake that the operations can reach is well formed.
    pub proof fn lemma_wf_view(&self)
        requires
            self.wf(),
        ensures
            self@.wf(),
    {
    }

    /// The server side, whose hello carries `time` and random bytes made
    /// from `seed`. The host supplies both: this crate has no clock and no
    /// source of randomness.
    pub fn server(time: u32, seed: &[u8]) -> (handshake: Self)
        ensures
            handshake.wf(),
            handshake@ == (HandshakeView {
                server: true,
                state: HandshakeState::AwaitingHello,
                buffer: Seq::empty(),
                sent: hello(time, seed@),
            }),
    {
        Handshake {
            server: true,
            state: HandshakeState::AwaitingHello,
            buffer: Vec::new(),
            sent: make_hello(time, seed),
        }
    }

    /// The client side, whose hello carries `time` and random bytes made
    /// from `seed`.
    pub fn client(time: u32, seed: &[u8]) -> (handshake: Self)
        ensures
            handshake.wf(),
            handshake@ == (HandshakeView {
                server: false,
                state: HandshakeState::AwaitingHello,
                buffer: Seq::empty(),
                sent: hello(time, seed@),
            }),
    {
        Handshake {
            server: false,
            state: HandshakeState::AwaitingHello,
            buffer: Vec::new(),
            sent: make_hello(time, seed),
        }
    }

    pub fn state(&self) -> (state: HandshakeState)
        ensures
            state == self@.state,
    {
        self.state
    }

    /// What a client writes first: the version byte and its hello.
    pub fn greeting(&self) -> (bytes: Vec<u8>)
        requires
            self.wf(),
        ensures
            bytes@ == seq![RTMP_VERSION] + self@.sent,
    {
        let mut bytes: Vec<u8> = Vec::new();
        bytes.push(RTMP_VERSION);
        put_range(&mut bytes, &self.sent, 0, PACKET_SIZE);
        assert(self.sent@.subrange(0, PACKET_SIZE as int) =~= self.sent@);
        bytes
    }

    /// Takes in bytes read from the peer.
    pub fn extend_data(&mut self, data: &[u8])
        requires
            old(self).wf(),
        ensures
            final(self).wf(),
            final(self)@ == (HandshakeView { buffer: old(self)@.buffer + data@, ..old(self)@ }),
    {
        put_slice(&mut self.buffer, data);
    }

    fn advance_server(&mut self, now: u32) -> (result: Result<HandshakeStep, HandshakeError>)
        requires
            old(self).wf(),
        ensures
            final(self).wf(),
            final(self)@ == old(self)@.server_step(now).0,
            step_view(result) == old(self)@.server_step(now).1,
    {
        match self.state {
            HandshakeState::AwaitingHello => {
                if self.buffer.len() < 1 + PACKET_SIZE {
                    return Ok(HandshakeStep::NeedMoreData);
                }
                if self.buffer[0] != RTMP_VERSION {
                    self.state = HandshakeState::Failed;
                    return Err(HandshakeError::HandshakeFailed);
                }
                let mut out: Vec<u8> = Vec::new();
                out.push(RTMP_VERSION);
                put_range(&mut out, &self.sent, 0, PACKET_SIZE);
                assert(self.sent@.subrange(0, PACKET_SIZE as int) =~= self.sent@);
                make_echo(&mut out, &self.buffer, 1, now);
                assert(out@ =~= seq![RTMP_VERSION] + self.sent@ + echo(
                    self.buffer@.subrange(1, 1 + PACKET_SIZE),
                    now,
                ));
                drop_front(&mut self.buffer, 1 + PACKET_SIZE);
                self.state = HandshakeState::AwaitingEcho;
                Ok(HandshakeStep::Send(out))
            },
            HandshakeState::AwaitingEcho => {
                if self.buffer.len() < PACKET_SIZE {
                    return Ok(HandshakeStep::NeedMoreData);
                }
                if !check_echo(&self.buffer, 0, &self.sent) {
                    self.state = HandshakeState::Failed;
                    return Err(HandshakeError::HandshakeFailed);
                }
                let leftover = drain_from(&mut self.buffer, PACKET_SIZE);
                self.state = HandshakeState::Done;
                Ok(HandshakeStep::Done { send: Vec::new(), leftover })
            },
            HandshakeState::Done => {
                let leftover = drain_from(&mut self.buffer, 0);
                Ok(HandshakeStep::Done { send: Vec::new(), leftover })
            },
            HandshakeState::Failed => Err(HandshakeError::HandshakeFailed),
        }
    }

    fn advance_client(&mut self, now: u32) -> (result: Result<HandshakeStep, HandshakeError>)
        requires
            old(self).wf(),
        ensures
            final(self).wf(),
            final(self)@ == old(self)@.client_step(now).0,
            step_view(result) == old(self)@.client_step(now).1,
    {
        match self.state {
            HandshakeState::AwaitingHello | HandshakeState::AwaitingEcho => {
                if self.buffer.len() < 1 + 2 * PACKET_SIZE {
                    return Ok(HandshakeStep::NeedMoreData);
                }
                if self.buffer[0] != RTMP_VERSION {
                    self.state = HandshakeState::Failed;
                    return Err(HandshakeError::HandshakeFailed);
                }
                if !check_echo(&self.buffer, 1 + PACKET_SIZE, &self.sent) {
                    self.state = HandshakeState::Failed;
                    return Err(HandshakeError::HandshakeFailed);
                }
                let mut send: Vec<u8> = Vec::new();
                make_echo(&mut send, &self.buffer, 1, now);
                assert(send@ =~= echo(self.buffer@.subrange(1, 1 + PACKET_SIZE), now));
                let leftover = drain_from(&mut self.buffer, 1 + 2 * PACKET_SIZE);
                self.state = HandshakeState::Done;
                Ok(HandshakeStep::Done { send, leftover })
            },
            HandshakeState::Done => {
                let leftover = drain_from(&mut self.buffer, 0);
                Ok(HandshakeStep::Done { send: Vec::new(), leftover })
            },
            HandshakeState::Failed => Err(HandshakeError::HandshakeFailed),
        }
    }

    /// Makes one step with what has been taken in so far; `now` is the
    /// host's clock.
    pub fn advance(&mut self, now: u32) -> (result: Result<HandshakeStep, HandshakeError>)
        requires
            old(self).wf(),
        ensures
            final(self).wf(),
            final(self)@ == old(self)@.step(now).0,
            step_view(result) == old(self)@.step(now).1,
    {
        if self.server {
            self.advance_server(now)
        } else {
            self.advance_client(now)
        }
    }
}

/// An echo carries the random bytes of the hello it answers.
pub proof fn echo_echoes(packet: Seq<u8>, read_at: u32)
    requires
        packet.len() == PACKET_SIZE,
    ensures
        echo(packet, read_at).len() == PACKET_SIZE,
        echoes(echo(packet, read_at), packet),
{
    lemma_wire_lengths(read_at);
    assert(echo(packet, read_at).subrange(RANDOM_OFFSET as int, PACKET_SIZE as int)
        =~= packet.subrange(RANDOM_OFFSET as int, PACKET_SIZE as int));
}

/// A client and a server that talk to each other both get through: the
/// server answers the client's greeting, the client accepts the answer and
/// is done, and the server accepts the client's echo and is done. This
/// holds whatever the clocks and the random bytes.
pub proof fn handshake_completes(
    client_time: u32,
    client_seed: Seq<u8>,
    server_time: u32,
    server_seed: Seq<u8>,
    t1: u32,
    t2: u32,
    t3: u32,
)
    ensures
        ({
            let c1 = hello(client_time, client_seed);
            let s1 = hello(server_time, server_seed);
            let client = HandshakeView {
                server: false,
                state: HandshakeState::AwaitingHello,
                buffer: Seq::empty(),
                sent: c1,
            };
            let server = HandshakeView {
                server: true,
                state: HandshakeState::AwaitingHello,
                buffer: seq![RTMP_VERSION] + c1,
                sent: s1,
            };
            let reply = seq![RTMP_VERSION] + s1 + echo(c1, t1);
            let (server2, answered) = server.step(t1);
            let (client2, accepted) = (HandshakeView { buffer: reply, ..client }).step(t2);
            let (server3, finished) = (HandshakeView {
                buffer: echo(s1, t2),
                ..server2
            }).step(t3);
            &&& answered == Ok::<HandshakeStepView, HandshakeError>(HandshakeStepView::Send(reply))
            &&& accepted == Ok::<HandshakeStepView, HandshakeError>(
                HandshakeStepView::Done { send: echo(s1, t2), leftover: Seq::empty() },
            )
            &&& client2.state == HandshakeState::Done
            &&& finished == Ok::<HandshakeStepView, HandshakeError>(
                HandshakeStepView::Done { send: Seq::empty(), leftover: Seq::empty() },
            )
            &&& server3.state == HandshakeState::Done
        }),
{
    let c1 = hello(client_time, client_seed);
    let s1 = hello(server_time, server_seed);
    lemma_wire_lengths(client_time);
    lemma_wire_lengths(server_time);
    assert(c1.len() == PACKET_SIZE);
    assert(s1.len() == PACKET_SIZE);
    let greeting = seq![RTMP_VERSION] + c1;
    assert(greeting.subrange(1, 1 + PACKET_SIZE) =~= c1);
    echo_echoes(c1, t1);
    echo_echoes(s1, t2);
    let reply = seq![RTMP_VERSION] + s1 + echo(c1, t1);
    assert(reply.subrange(1, 1 + PACKET_SIZE) =~= s1);
    assert(reply.subrange(1 + PACKET_SIZE, 1 + 2 * PACKET_SIZE) =~= echo(c1, t1));
    assert(reply.skip(1 + 2 * PACKET_SIZE) =~= Seq::<u8>::empty());
    assert(greeting.skip(1 + PACKET_SIZE) =~= Seq::<u8>::empty());
    assert(echo(s1, t2).subrange(0, PACKET_SIZE as int) =~= echo(s1, t2));
    assert(echo(s1, t2).skip(PACKET_SIZE as int) =~= Seq::<u8>::empty());
}

} // verus!
