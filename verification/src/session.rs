//! The session: the state machine of one RTMP connection.
//!
//! A session owns no socket. Its host feeds it events — the handshake is
//! over, a message has been decoded, the hub has sent a notice, the peer is
//! gone — and carries out the actions that come back: messages to encode
//! and write, requests to send to the hub, and in the end the order to
//! close. The same machine serves a connection that a peer opened to this
//! server and a connection that a relay opened to another server.

use vstd::prelude::*;
use vstd::string::*;
use crate::amf0::{is_text, text, NUMBER_ONE};
use crate::channels::{
    HubNotice, HubNoticeView, HubRequest, HubRequestView, SessionHandle, StreamKey, StreamKeyView,
};
use crate::chunk::wire::{be32, put_be32};
use crate::command::{
    command_of, connect_command, connect_result, create_stream_command, create_stream_result,
    make_connect, make_connect_result, make_create_stream, make_create_stream_result, make_play,
    make_publish, make_status, parse_command, play_command, publish_command, status_command,
    Command, CommandView, MAX_STRING, NUMBER_TWO,
};
use crate::message::{
    copy_bytes, MessageView, RtmpMessage, MSG_AUDIO, MSG_COMMAND_AMF0, MSG_DATA_AMF0,
    MSG_SET_CHUNK_SIZE, MSG_SET_PEER_BANDWIDTH, MSG_VIDEO, MSG_WINDOW_ACK_SIZE,
};

verus! {

/// The window acknowledgement size and peer bandwidth that a server
/// announces.
pub const WINDOW_SIZE: u32 = 2_500_000;

/// The chunk size that a server announces for what it writes.
pub const OUT_CHUNK_SIZE: u32 = 4096;

/// The one message stream of a connection.
pub const STREAM_ID: u32 = 1;

/// The chunk stream of protocol control messages.
pub const CSID_CONTROL: u32 = 2;

/// The chunk stream of command messages.
pub const CSID_COMMAND: u32 = 3;

/// The chunk stream of audio messages.
pub const CSID_AUDIO: u32 = 4;

/// The chunk stream of data messages.
pub const CSID_DATA: u32 = 5;

/// The chunk stream of video messages.
pub const CSID_VIDEO: u32 = 6;

/// Where a session stands.
#[derive(Debug, Copy, Clone, PartialEq, Eq, Structural)]
pub enum SessionState {
    Handshaking,
    /// A server waits for `connect`; a client waits for the answer to its
    /// `connect`.
    AwaitingConnect,
    /// A server waits for `publish` or `play`; a client waits for the
    /// answers to its `createStream` and its `publish` or `play`.
    AwaitingPublishOrPlay,
    /// Messages flow from the peer to the hub.
    Publishing,
    /// Messages flow from the hub to the peer.
    Subscribing,
    Closed,
}

/// Which end of which kind of connection a session is.
#[derive(Debug, Copy, Clone, PartialEq, Eq, Structural)]
pub enum Role {
    /// The peer connected to this server.
    Server,
    /// This side connected to another server, to publish a local stream
    /// there.
    Push,
    /// This side connected to another server, to play a stream from there
    /// and publish it locally.
    Pull,
}

/// Why a session was closed.
#[derive(Debug, Copy, Clone, PartialEq, Eq, Structural)]
pub enum CloseReason {
    HandshakeFailed,
    MalformedChunk,
    /// The key that the session asked to publish under has a publisher.
    ChannelConflict,
    /// The peer reads slower than the stream flows.
    BackpressureExceeded,
    /// The socket failed, or the peer closed it.
    PeerClosed,
    /// The publisher of the stream that the session subscribes to is gone.
    StreamEnded,
    /// The peer ended its stream.
    Finished,
    /// The peer did not answer in time.
    Timeout,
    /// The server that a relay connected to refused a request.
    Refused,
}

/// What happened on the connection, or around it.
#[derive(Debug)]
pub enum SessionEvent {
    HandshakeDone,
    HandshakeFailed,
    /// The peer sent this message.
    Message(RtmpMessage),
    /// What the peer sent is no valid chunk stream.
    MalformedChunk,
    /// The hub sent this notice.
    Hub(HubNotice),
    /// This many of the stream's messages that the hub sent, and that were
    /// handed out for sending, have been written.
    Written(usize),
    PeerClosed,
    Timeout,
}

pub ghost enum EventView {
    HandshakeDone,
    HandshakeFailed,
    Message(MessageView),
    MalformedChunk,
    Hub(HubNoticeView),
    Written(usize),
    PeerClosed,
    Timeout,
}

impl View for SessionEvent {
    type V = EventView;

    open spec fn view(&self) -> EventView {
        match *self {
            SessionEvent::HandshakeDone => EventView::HandshakeDone,
            SessionEvent::HandshakeFailed => EventView::HandshakeFailed,
            SessionEvent::Message(m) => EventView::Message(m@),
            SessionEvent::MalformedChunk => EventView::MalformedChunk,
            SessionEvent::Hub(n) => EventView::Hub(n@),
            SessionEvent::Written(n) => EventView::Written(n),
            SessionEvent::PeerClosed => EventView::PeerClosed,
            SessionEvent::Timeout => EventView::Timeout,
        }
    }
}

/// What the host is to do.
#[derive(Debug)]
pub enum SessionAction {
    /// Encode this message on this chunk stream and write it to the peer.
    Send { chunk_stream_id: u32, message: RtmpMessage },
    /// Send this request to the hub.
    Hub(HubRequest),
    /// Close the connection.
    Close(CloseReason),
}

pub ghost enum ActionView {
    Send { chunk_stream_id: u32, message: MessageView },
    Hub(HubRequestView),
    Close(CloseReason),
}

impl View for SessionAction {
    type V = ActionView;

    open spec fn view(&self) -> ActionView {
        match *self {
            SessionAction::Send { chunk_stream_id, message } => ActionView::Send {
                chunk_stream_id,
                message: message@,
            },
            SessionAction::Hub(r) => ActionView::Hub(r@),
            SessionAction::Close(reason) => ActionView::Close(reason),
        }
    }
}

/// The views of a list of actions, in order.
pub open spec fn action_views(actions: Seq<SessionAction>) -> Seq<ActionView> {
    actions.map_values(|a: SessionAction| a@)
}

/// A protocol control message: timestamp 0, message stream 0.
pub open spec fn control_message(type_id: u8, payload: Seq<u8>) -> MessageView {
    MessageView { type_id, timestamp: 0, message_stream_id: 0, payload }
}

/// A command about the connection: timestamp 0, message stream 0.
pub open spec fn connection_command(payload: Seq<u8>) -> MessageView {
    MessageView { type_id: MSG_COMMAND_AMF0, timestamp: 0, message_stream_id: 0, payload }
}

/// A command about the stream: timestamp 0, message stream 1.
pub open spec fn stream_command(payload: Seq<u8>) -> MessageView {
    MessageView { type_id: MSG_COMMAND_AMF0, timestamp: 0, message_stream_id: STREAM_ID, payload }
}

/// The order to send `message` on chunk stream `chunk_stream_id`.
pub open spec fn send(chunk_stream_id: u32, message: MessageView) -> ActionView {
    ActionView::Send { chunk_stream_id, message }
}

/// The chunk stream that a message of the given type is sent on.
pub open spec fn chunk_stream_for(type_id: u8) -> u32 {
    if type_id == MSG_AUDIO {
        CSID_AUDIO
    } else if type_id == MSG_VIDEO {
        CSID_VIDEO
    } else if type_id == MSG_DATA_AMF0 {
        CSID_DATA
    } else if type_id == MSG_COMMAND_AMF0 {
        CSID_COMMAND
    } else {
        CSID_CONTROL
    }
}

/// Whether a message of the given type is part of the stream itself:
/// audio, video or data.
pub open spec fn is_media(type_id: u8) -> bool {
    type_id == MSG_AUDIO || type_id == MSG_VIDEO || type_id == MSG_DATA_AMF0
}

/// What a server sends in answer to `connect`: the window
/// acknowledgement size, the peer bandwidth, its chunk size, and the
/// result.
pub open spec fn connect_answer(transaction_id: u64) -> Seq<ActionView> {
    seq![
        send(CSID_CONTROL, control_message(MSG_WINDOW_ACK_SIZE, be32(WINDOW_SIZE))),
        send(
            CSID_CONTROL,
            control_message(MSG_SET_PEER_BANDWIDTH, be32(WINDOW_SIZE) + seq![2u8]),
        ),
        send(CSID_CONTROL, control_message(MSG_SET_CHUNK_SIZE, be32(OUT_CHUNK_SIZE))),
        send(CSID_COMMAND, connection_command(connect_result(transaction_id))),
    ]
}

/// The `onStatus` message with the given level and code.
pub open spec fn status_message(level: Seq<u8>, code: Seq<u8>) -> ActionView {
    send(CSID_COMMAND, stream_command(status_command(level, code)))
}

/// One session, as the mathematics sees it.
pub ghost struct SessionView {
    pub role: Role,
    pub state: SessionState,
    pub handle: SessionHandle,
    pub app_name: Seq<u8>,
    pub stream_name: Seq<u8>,
    /// The URL under which a relay reaches the application on the other
    /// server.
    pub tc_url: Seq<u8>,
    /// The session has asked the hub to make it a publisher, and the hub
    /// has not answered.
    pub waiting_for_hub: bool,
    /// A relay has sent its `publish` or `play`.
    pub requested: bool,
    /// How many messages of the hub have been handed out for sending and
    /// are not written yet.
    pub queued: usize,
    /// How many such messages there may be.
    pub capacity: usize,
}

impl SessionView {
    pub open spec fn wf(self) -> bool {
        &&& self.app_name.len() <= MAX_STRING
        &&& self.stream_name.len() <= MAX_STRING
        &&& self.tc_url.len() <= MAX_STRING
        &&& self.queued <= self.capacity
        &&& self.waiting_for_hub ==> self.state == SessionState::AwaitingPublishOrPlay
    }

    /// The key of the stream that the session publishes or subscribes to.
    pub open spec fn key(self) -> StreamKeyView {
        StreamKeyView { app_name: self.app_name, stream_name: self.stream_name }
    }

    /// Whether the hub knows the session, or is about to.
    pub open spec fn registered(self) -> bool {
        self.state == SessionState::Publishing || self.state == SessionState::Subscribing
            || self.waiting_for_hub
    }

    /// Whether the session waits for the peer to say something, so that
    /// silence is a failure.
    pub open spec fn awaits(self) -> bool {
        self.state == SessionState::Handshaking || self.state == SessionState::AwaitingConnect
            || self.state == SessionState::AwaitingPublishOrPlay
    }

    pub open spec fn stay(self) -> (SessionView, Seq<ActionView>) {
        (self, Seq::empty())
    }

    pub open spec fn closed(self) -> SessionView {
        SessionView { state: SessionState::Closed, waiting_for_hub: false, ..self }
    }

    /// The request that takes the session off the hub.
    pub open spec fn unregister(self) -> ActionView {
        ActionView::Hub(HubRequestView::Unregister { key: self.key(), handle: self.handle })
    }

    /// The way out: the session leaves the hub if the hub knows it, and
    /// closes.
    pub open spec fn leave(self, reason: CloseReason) -> (SessionView, Seq<ActionView>) {
        (
            self.closed(),
            if self.registered() {
                seq![self.unregister(), ActionView::Close(reason)]
            } else {
                seq![ActionView::Close(reason)]
            },
        )
    }

    /// After the handshake a server waits for `connect`; a relay sends it.
    pub open spec fn on_handshake_done(self) -> (SessionView, Seq<ActionView>) {
        if self.state != SessionState::Handshaking {
            self.stay()
        } else {
            (
                SessionView { state: SessionState::AwaitingConnect, ..self },
                if self.role == Role::Server {
                    Seq::empty()
                } else {
                    seq![
                        send(
                            CSID_COMMAND,
                            connection_command(connect_command(self.app_name, self.tc_url)),
                        ),
                    ]
                },
            )
        }
    }

    /// A command from a peer that connected to this server.
    pub open spec fn on_server_command(self, c: CommandView) -> (SessionView, Seq<ActionView>) {
        match c {
            CommandView::Connect { transaction_id, app } => {
                if self.state == SessionState::AwaitingConnect && app.len() <= MAX_STRING {
                    (
                        SessionView {
                            state: SessionState::AwaitingPublishOrPlay,
                            app_name: app,
                            ..self
                        },
                        connect_answer(transaction_id),
                    )
                } else {
                    self.stay()
                }
            },
            CommandView::CreateStream { transaction_id } => {
                if self.state == SessionState::AwaitingPublishOrPlay {
                    (
                        self,
                        seq![
                            send(
                                CSID_COMMAND,
                                connection_command(create_stream_result(transaction_id)),
                            ),
                        ],
                    )
                } else {
                    self.stay()
                }
            },
            CommandView::Publish { stream_name } => {
                if self.state == SessionState::AwaitingPublishOrPlay && !self.waiting_for_hub
                    && stream_name.len() <= MAX_STRING {
                    let next = SessionView { stream_name, waiting_for_hub: true, ..self };
                    (
                        next,
                        seq![
                            ActionView::Hub(
                                HubRequestView::RegisterPublisher {
                                    key: next.key(),
                                    handle: self.handle,
                                },
                            ),
                        ],
                    )
                } else {
                    self.stay()
                }
            },
            CommandView::Play { stream_name } => {
                if self.state == SessionState::AwaitingPublishOrPlay && !self.waiting_for_hub
                    && stream_name.len() <= MAX_STRING {
                    let next = SessionView {
                        state: SessionState::Subscribing,
                        stream_name,
                        ..self
                    };
                    (
                        next,
                        seq![
                            status_message(text("status"), text("NetStream.Play.Start")),
                            ActionView::Hub(
                                HubRequestView::RegisterSubscriber {
                                    key: next.key(),
                                    handle: self.handle,
                                },
                            ),
                        ],
                    )
                } else {
                    self.stay()
                }
            },
            CommandView::DeleteStream => {
                if self.state == SessionState::AwaitingPublishOrPlay || self.state
                    == SessionState::Publishing || self.state == SessionState::Subscribing {
                    self.leave(CloseReason::Finished)
                } else {
                    self.stay()
                }
            },
            _ => self.stay(),
        }
    }

    /// A command from the server that a relay connected to.
    pub open spec fn on_client_command(self, c: CommandView) -> (SessionView, Seq<ActionView>) {
        match c {
            CommandView::Result { transaction_id } => {
                if self.state == SessionState::AwaitingConnect && transaction_id == NUMBER_ONE {
                    (
                        SessionView { state: SessionState::AwaitingPublishOrPlay, ..self },
                        seq![send(CSID_COMMAND, connection_command(create_stream_command()))],
                    )
                } else if self.state == SessionState::AwaitingPublishOrPlay && transaction_id
                    == NUMBER_TWO && !self.requested {
                    (
                        SessionView { requested: true, ..self },
                        seq![
                            send(
                                CSID_COMMAND,
                                stream_command(
                                    if self.role == Role::Push {
                                        publish_command(self.stream_name)
                                    } else {
                                        play_command(self.stream_name)
                                    },
                                ),
                            ),
                        ],
                    )
                } else {
                    self.stay()
                }
            },
            CommandView::Error { transaction_id } => {
                if self.awaits() {
                    self.leave(CloseReason::Refused)
                } else {
                    self.stay()
                }
            },
            CommandView::Status { code } => {
                if self.state == SessionState::AwaitingPublishOrPlay && self.requested
                    && !self.waiting_for_hub {
                    if self.role == Role::Push && code == text("NetStream.Publish.Start") {
                        (
                            SessionView { state: SessionState::Subscribing, ..self },
                            seq![
                                ActionView::Hub(
                                    HubRequestView::RegisterSubscriber {
                                        key: self.key(),
                                        handle: self.handle,
                                    },
                                ),
                            ],
                        )
                    } else if self.role == Role::Pull && code == text("NetStream.Play.Start") {
                        (
                            SessionView { waiting_for_hub: true, ..self },
                            seq![
                                ActionView::Hub(
                                    HubRequestView::RegisterPublisher {
                                        key: self.key(),
                                        handle: self.handle,
                                    },
                                ),
                            ],
                        )
                    } else if code == text("NetStream.Publish.BadName") || code == text(
                        "NetStream.Play.StreamNotFound",
                    ) {
                        self.leave(CloseReason::Refused)
                    } else {
                        self.stay()
                    }
                } else if self.state == SessionState::Publishing && code == text(
                    "NetStream.Play.UnpublishNotify",
                ) {
                    self.leave(CloseReason::StreamEnded)
                } else {
                    self.stay()
                }
            },
            _ => self.stay(),
        }
    }

    /// A message from the peer. Commands are acted on; while the session
    /// publishes, audio, video and data go to the hub as they are; all
    /// else is passed over.
    pub open spec fn on_message(self, m: MessageView) -> (SessionView, Seq<ActionView>) {
        if self.state == SessionState::Handshaking {
            self.stay()
        } else if m.type_id == MSG_COMMAND_AMF0 {
            match command_of(m.payload) {
                Some(c) => if self.role == Role::Server {
                    self.on_server_command(c)
                } else {
                    self.on_client_command(c)
                },
                None => self.stay(),
            }
        } else if is_media(m.type_id) && self.state == SessionState::Publishing {
            (self, seq![ActionView::Hub(HubRequestView::Route { key: self.key(), message: m })])
        } else {
            self.stay()
        }
    }

    /// A notice from the hub.
    pub open spec fn on_hub(self, n: HubNoticeView) -> (SessionView, Seq<ActionView>) {
        match n {
            HubNoticeView::PublishAccepted => {
                if self.waiting_for_hub {
                    (
                        SessionView {
                            state: SessionState::Publishing,
                            waiting_for_hub: false,
                            ..self
                        },
                        if self.role == Role::Server {
                            seq![status_message(text("status"), text("NetStream.Publish.Start"))]
                        } else {
                            Seq::empty()
                        },
                    )
                } else {
                    self.stay()
                }
            },
            HubNoticeView::PublishRejected(e) => {
                if self.waiting_for_hub {
                    (
                        self.closed(),
                        if self.role == Role::Server {
                            seq![
                                status_message(text("error"), text("NetStream.Publish.BadName")),
                                ActionView::Close(CloseReason::ChannelConflict),
                            ]
                        } else {
                            seq![ActionView::Close(CloseReason::ChannelConflict)]
                        },
                    )
                } else {
                    self.stay()
                }
            },
            HubNoticeView::Message(m) => {
                if self.state != SessionState::Subscribing {
                    self.stay()
                } else if self.queued >= self.capacity {
                    self.leave(CloseReason::BackpressureExceeded)
                } else {
                    (
                        SessionView { queued: (self.queued + 1) as usize, ..self },
                        seq![
                            send(
                                chunk_stream_for(m.type_id),
                                MessageView { message_stream_id: STREAM_ID, ..m },
                            ),
                        ],
                    )
                }
            },
            HubNoticeView::StreamEnded => {
                if self.state == SessionState::Subscribing {
                    self.leave(CloseReason::StreamEnded)
                } else {
                    self.stay()
                }
            },
        }
    }

    /// The session and its actions after one event. A closed session
    /// takes no notice of anything.
    pub open spec fn step(self, event: EventView) -> (SessionView, Seq<ActionView>) {
        if self.state == SessionState::Closed {
            self.stay()
        } else {
            match event {
                EventView::HandshakeDone => self.on_handshake_done(),
                EventView::HandshakeFailed => {
                    if self.state == SessionState::Handshaking {
                        self.leave(CloseReason::HandshakeFailed)
                    } else {
                        self.stay()
                    }
                },
                EventView::Message(m) => self.on_message(m),
                EventView::MalformedChunk => self.leave(CloseReason::MalformedChunk),
                EventView::Hub(n) => self.on_hub(n),
                EventView::Written(n) => (
                    SessionView {
                        queued: if n >= self.queued {
                            0
                        } else {
                            (self.queued - n) as usize
                        },
                        ..self
                    },
                    Seq::empty(),
                ),
                EventView::PeerClosed => self.leave(CloseReason::PeerClosed),
                EventView::Timeout => {
                    if self.awaits() {
                        self.leave(CloseReason::Timeout)
                    } else {
                        self.stay()
                    }
                },
            }
        }
    }
}

/// How long the status texts are.
pub proof fn lemma_status_lengths()
    ensures
        text("status").len() == 6,
        text("error").len() == 5,
        text("NetStream.Publish.Start").len() == 23,
        text("NetStream.Play.Start").len() == 20,
        text("NetStream.Publish.BadName").len() == 25,
{
    reveal_strlit("status");
    reveal_strlit("error");
    reveal_strlit("NetStream.Publish.Start");
    reveal_strlit("NetStream.Play.Start");
    reveal_strlit("NetStream.Publish.BadName");
    assert(is_ascii("status"));
    assert(is_ascii("error"));
    assert(is_ascii("NetStream.Publish.Start"));
    assert(is_ascii("NetStream.Play.Start"));
    assert(is_ascii("NetStream.Publish.BadName"));
}

proof fn lemma_action_views_push(actions: Seq<SessionAction>, a: SessionAction)
    ensures
        action_views(actions.push(a)) == action_views(actions).push(a@),
{
    assert(action_views(actions.push(a)) =~= action_views(actions).push(a@));
}

fn no_actions() -> (actions: Vec<SessionAction>)
    ensures
        action_views(actions@) == Seq::<ActionView>::empty(),
{
    let actions: Vec<SessionAction> = Vec::new();
    assert(action_views(actions@) =~= Seq::<ActionView>::empty());
    actions
}

fn push_action(actions: &mut Vec<SessionAction>, a: SessionAction)
    ensures
        action_views(final(actions)@) == action_views(old(actions)@).push(a@),
{
    proof {
        lemma_action_views_push(actions@, a);
    }
    actions.push(a);
}

fn one(a: SessionAction) -> (actions: Vec<SessionAction>)
    ensures
        action_views(actions@) == seq![a@],
{
    let mut actions = no_actions();
    push_action(&mut actions, a);
    assert(action_views(actions@) =~= seq![a@]);
    actions
}

fn send_control(type_id: u8, payload: Vec<u8>) -> (a: SessionAction)
    ensures
        a@ == send(CSID_CONTROL, control_message(type_id, payload@)),
{
    SessionAction::Send {
        chunk_stream_id: CSID_CONTROL,
        message: RtmpMessage { type_id, timestamp: 0, message_stream_id: 0, payload },
    }
}

fn send_connection_command(payload: Vec<u8>) -> (a: SessionAction)
    ensures
        a@ == send(CSID_COMMAND, connection_command(payload@)),
{
    SessionAction::Send {
        chunk_stream_id: CSID_COMMAND,
        message: RtmpMessage {
            type_id: MSG_COMMAND_AMF0,
            timestamp: 0,
            message_stream_id: 0,
            payload,
        },
    }
}

fn send_stream_command(payload: Vec<u8>) -> (a: SessionAction)
    ensures
        a@ == send(CSID_COMMAND, stream_command(payload@)),
{
    SessionAction::Send {
        chunk_stream_id: CSID_COMMAND,
        message: RtmpMessage {
            type_id: MSG_COMMAND_AMF0,
            timestamp: 0,
            message_stream_id: STREAM_ID,
            payload,
        },
    }
}

fn send_status(level: &str, code: &str) -> (a: SessionAction)
    requires
        text(level).len() <= MAX_STRING,
        text(code).len() <= MAX_STRING,
    ensures
        a@ == status_message(text(level), text(code)),
{
    send_stream_command(make_status(level, code))
}

fn size_payload(size: u32) -> (payload: Vec<u8>)
    ensures
        payload@ == be32(size),
{
    let mut payload: Vec<u8> = Vec::new();
    put_be32(&mut payload, size);
    assert(payload@ =~= be32(size));
    payload
}

/// The chunk stream that a message of the given type is sent on.
pub fn chunk_stream_of(type_id: u8) -> (csid: u32)
    ensures
        csid == chunk_stream_for(type_id),
{
    if type_id == MSG_AUDIO {
        CSID_AUDIO
    } else if type_id == MSG_VIDEO {
        CSID_VIDEO
    } else if type_id == MSG_DATA_AMF0 {
        CSID_DATA
    } else if type_id == MSG_COMMAND_AMF0 {
        CSID_COMMAND
    } else {
        CSID_CONTROL
    }
}

/// One session.
pub struct RtmpSession {
    role: Role,
    state: SessionState,
    handle: SessionHandle,
    app_name: Vec<u8>,
    stream_name: Vec<u8>,
    tc_url: Vec<u8>,
    waiting_for_hub: bool,
    requested: bool,
    queued: usize,
    capacity: usize,
}

impl View for RtmpSession {
    type V = SessionView;

    closed spec fn view(&self) -> SessionView {
        SessionView {
            role: self.role,
            state: self.state,
            handle: self.handle,
            app_name: self.app_name@,
            stream_name: self.stream_name@,
            tc_url: self.tc_url@,
            waiting_for_hub: self.waiting_for_hub,
            requested: self.requested,
            queued: self.queued,
            capacity: self.capacity,
        }
    }
}

impl RtmpSession {
    pub closed spec fn wf(&self) -> bool {
        self@.wf()
    }

    /// Every session that the operations can reach is well formed.
    pub proof fn lemma_wf_view(&self)
        requires
            self.wf(),
        ensures
            self@.wf(),
    {
    }

    /// A session for a connection that a peer opened to this server. At
    /// most `capacity` messages may wait to be written to the peer.
    pub fn server(handle: SessionHandle, capacity: usize) -> (session: Self)
        ensures
            session.wf(),
            session@ == (SessionView {
                role: Role::Server,
                state: SessionState::Handshaking,
                handle,
                app_name: Seq::empty(),
                stream_name: Seq::empty(),
                tc_url: Seq::empty(),
                waiting_for_hub: false,
                requested: false,
                queued: 0,
                capacity,
            }),
    {
        RtmpSession {
            role: Role::Server,
            state: SessionState::Handshaking,
            handle,
            app_name: Vec::new(),
            stream_name: Vec::new(),
            tc_url: Vec::new(),
            waiting_for_hub: false,
            requested: false,
            queued: 0,
            capacity,
        }
    }

    /// A session for a connection that a relay opens to another server:
    /// `Role::Push` to publish the local stream `key` there, `Role::Pull`
    /// to play `key` from there and publish it locally. `tc_url` is the URL
    /// of the application on the other server.
    ///
    /// Returns nothing if a name or the URL is longer than 65535 bytes, or
    /// the role is `Role::Server`.
    pub fn client(
        role: Role,
        handle: SessionHandle,
        key: &StreamKey,
        tc_url: &Vec<u8>,
        capacity: usize,
    ) -> (session: Option<Self>)
        ensures
            session is Some <==> role != Role::Server && key@.app_name.len() <= MAX_STRING
                && key@.stream_name.len() <= MAX_STRING && tc_url@.len() <= MAX_STRING,
            session matches Some(s) ==> s.wf() && s@ == (SessionView {
                role,
                state: SessionState::Handshaking,
                handle,
                app_name: key@.app_name,
                stream_name: key@.stream_name,
                tc_url: tc_url@,
                waiting_for_hub: false,
                requested: false,
                queued: 0,
                capacity,
            }),
    {
        let is_server = match role {
            Role::Server => true,
            _ => false,
        };
        if is_server || key.app_name.len() > MAX_STRING || key.stream_name.len() > MAX_STRING
            || tc_url.len() > MAX_STRING {
            return None;
        }
        Some(
            RtmpSession {
                role,
                state: SessionState::Handshaking,
                handle,
                app_name: copy_bytes(&key.app_name),
                stream_name: copy_bytes(&key.stream_name),
                tc_url: copy_bytes(tc_url),
                waiting_for_hub: false,
                requested: false,
                queued: 0,
                capacity,
            },
        )
    }

    pub fn state(&self) -> (state: SessionState)
        ensures
            state == self@.state,
    {
        self.state
    }

    pub fn role(&self) -> (role: Role)
        ensures
            role == self@.role,
    {
        self.role
    }

    /// Whether the session waits for the peer to say something: the host
    /// is to send `Timeout` if nothing comes in time.
    pub fn awaits(&self) -> (b: bool)
        ensures
            b == self@.awaits(),
    {
        self.state == SessionState::Handshaking || self.state == SessionState::AwaitingConnect
            || self.state == SessionState::AwaitingPublishOrPlay
    }

    /// The key of the stream that the session publishes or subscribes to.
    pub fn key(&self) -> (key: StreamKey)
        ensures
            key@ == self@.key(),
    {
        StreamKey {
            app_name: copy_bytes(&self.app_name),
            stream_name: copy_bytes(&self.stream_name),
        }
    }

    fn is_server(&self) -> (b: bool)
        ensures
            b == (self@.role == Role::Server),
    {
        self.role == Role::Server
    }

    fn leave(&mut self, reason: CloseReason) -> (actions: Vec<SessionAction>)
        requires
            old(self).wf(),
        ensures
            final(self).wf(),
            final(self)@ == old(self)@.leave(reason).0,
            action_views(actions@) == old(self)@.leave(reason).1,
    {
        let mut actions = no_actions();
        if self.state == SessionState::Publishing || self.state == SessionState::Subscribing
            || self.waiting_for_hub {
            push_action(
                &mut actions,
                SessionAction::Hub(HubRequest::Unregister { key: self.key(), handle: self.handle }),
            );
        }
        push_action(&mut actions, SessionAction::Close(reason));
        self.state = SessionState::Closed;
        self.waiting_for_hub = false;
        assert(action_views(actions@) =~= old(self)@.leave(reason).1);
        actions
    }

    fn on_handshake_done(&mut self) -> (actions: Vec<SessionAction>)
        requires
            old(self).wf(),
        ensures
            final(self).wf(),
            final(self)@ == old(self)@.on_handshake_done().0,
            action_views(actions@) == old(self)@.on_handshake_done().1,
    {
        if self.state != SessionState::Handshaking {
            return no_actions();
        }
        self.state = SessionState::AwaitingConnect;
        if self.is_server() {
            no_actions()
        } else {
            one(send_connection_command(make_connect(&self.app_name, &self.tc_url)))
        }
    }

    fn connect_answer(transaction_id: u64) -> (actions: Vec<SessionAction>)
        ensures
            action_views(actions@) == connect_answer(transaction_id),
    {
        let mut actions = no_actions();
        push_action(&mut actions, send_control(MSG_WINDOW_ACK_SIZE, size_payload(WINDOW_SIZE)));
        let mut bandwidth = size_payload(WINDOW_SIZE);
        bandwidth.push(2);
        assert(bandwidth@ =~= be32(WINDOW_SIZE) + seq![2u8]);
        push_action(&mut actions, send_control(MSG_SET_PEER_BANDWIDTH, bandwidth));
        push_action(&mut actions, send_control(MSG_SET_CHUNK_SIZE, size_payload(OUT_CHUNK_SIZE)));
        push_action(&mut actions, send_connection_command(make_connect_result(transaction_id)));
        assert(action_views(actions@) =~= connect_answer(transaction_id));
        actions
    }

    fn on_server_command(&mut self, c: Command) -> (actions: Vec<SessionAction>)
        requires
            old(self).wf(),
            old(self)@.state != SessionState::Closed,
        ensures
            final(self).wf(),
            final(self)@ == old(self)@.on_server_command(c@).0,
            action_views(actions@) == old(self)@.on_server_command(c@).1,
    {
        proof {
            lemma_status_lengths();
        }
        match c {
            Command::Connect { transaction_id, app } => {
                if self.state == SessionState::AwaitingConnect && app.len() <= MAX_STRING {
                    self.state = SessionState::AwaitingPublishOrPlay;
                    self.app_name = app;
                    Self::connect_answer(transaction_id)
                } else {
                    no_actions()
                }
            },
            Command::CreateStream { transaction_id } => {
                if self.state == SessionState::AwaitingPublishOrPlay {
                    one(send_connection_command(make_create_stream_result(transaction_id)))
                } else {
                    no_actions()
                }
            },
            Command::Publish { stream_name } => {
                if self.state == SessionState::AwaitingPublishOrPlay && !self.waiting_for_hub
                    && stream_name.len() <= MAX_STRING {
                    self.stream_name = stream_name;
                    self.waiting_for_hub = true;
                    one(
                        SessionAction::Hub(
                            HubRequest::RegisterPublisher { key: self.key(), handle: self.handle },
                        ),
                    )
                } else {
                    no_actions()
                }
            },
            Command::Play { stream_name } => {
                if self.state == SessionState::AwaitingPublishOrPlay && !self.waiting_for_hub
                    && stream_name.len() <= MAX_STRING {
                    self.stream_name = stream_name;
                    self.state = SessionState::Subscribing;
                    let mut actions = no_actions();
                    push_action(&mut actions, send_status("status", "NetStream.Play.Start"));
                    push_action(
                        &mut actions,
                        SessionAction::Hub(
                            HubRequest::RegisterSubscriber { key: self.key(), handle: self.handle },
                        ),
                    );
                    assert(action_views(actions@) =~= old(self)@.on_server_command(c@).1);
                    actions
                } else {
                    no_actions()
                }
            },
            Command::DeleteStream => {
                if self.state == SessionState::AwaitingPublishOrPlay || self.state
                    == SessionState::Publishing || self.state == SessionState::Subscribing {
                    self.leave(CloseReason::Finished)
                } else {
                    no_actions()
                }
            },
            _ => no_actions(),
        }
    }

    fn on_client_command(&mut self, c: Command) -> (actions: Vec<SessionAction>)
        requires
            old(self).wf(),
            old(self)@.state != SessionState::Closed,
        ensures
            final(self).wf(),
            final(self)@ == old(self)@.on_client_command(c@).0,
            action_views(actions@) == old(self)@.on_client_command(c@).1,
    {
        match c {
            Command::Result { transaction_id } => {
                if self.state == SessionState::AwaitingConnect && transaction_id == NUMBER_ONE {
                    self.state = SessionState::AwaitingPublishOrPlay;
                    one(send_connection_command(make_create_stream()))
                } else if self.state == SessionState::AwaitingPublishOrPlay && transaction_id
                    == NUMBER_TWO && !self.requested {
                    self.requested = true;
                    let payload = if self.role == Role::Push {
                        make_publish(&self.stream_name)
                    } else {
                        make_play(&self.stream_name)
                    };
                    one(send_stream_command(payload))
                } else {
                    no_actions()
                }
            },
            Command::Error { transaction_id } => {
                if self.awaits() {
                    self.leave(CloseReason::Refused)
                } else {
                    no_actions()
                }
            },
            Command::Status { code } => {
                if self.state == SessionState::AwaitingPublishOrPlay && self.requested
                    && !self.waiting_for_hub {
                    if self.role == Role::Push && is_text(&code, "NetStream.Publish.Start") {
                        self.state = SessionState::Subscribing;
                        one(
                            SessionAction::Hub(
                                HubRequest::RegisterSubscriber {
                                    key: self.key(),
                                    handle: self.handle,
                                },
                            ),
                        )
                    } else if self.role == Role::Pull && is_text(&code, "NetStream.Play.Start") {
                        self.waiting_for_hub = true;
                        one(
                            SessionAction::Hub(
                                HubRequest::RegisterPublisher {
                                    key: self.key(),
                                    handle: self.handle,
                                },
                            ),
                        )
                    } else if is_text(&code, "NetStream.Publish.BadName") || is_text(
                        &code,
                        "NetStream.Play.StreamNotFound",
                    ) {
                        self.leave(CloseReason::Refused)
                    } else {
                        no_actions()
                    }
                } else if self.state == SessionState::Publishing && is_text(
                    &code,
                    "NetStream.Play.UnpublishNotify",
                ) {
                    self.leave(CloseReason::StreamEnded)
                } else {
                    no_actions()
                }
            },
            _ => no_actions(),
        }
    }

    fn on_message(&mut self, m: RtmpMessage) -> (actions: Vec<SessionAction>)
        requires
            old(self).wf(),
            old(self)@.state != SessionState::Closed,
        ensures
            final(self).wf(),
            final(self)@ == old(self)@.on_message(m@).0,
            action_views(actions@) == old(self)@.on_message(m@).1,
    {
        if self.state == SessionState::Handshaking {
            no_actions()
        } else if m.type_id == MSG_COMMAND_AMF0 {
            match parse_command(&m.payload) {
                Some(c) => if self.is_server() {
                    self.on_server_command(c)
                } else {
                    self.on_client_command(c)
                },
                None => no_actions(),
            }
        } else if (m.type_id == MSG_AUDIO || m.type_id == MSG_VIDEO || m.type_id == MSG_DATA_AMF0)
            && self.state == SessionState::Publishing {
            one(SessionAction::Hub(HubRequest::Route { key: self.key(), message: m }))
        } else {
            no_actions()
        }
    }

    fn on_hub(&mut self, n: HubNotice) -> (actions: Vec<SessionAction>)
        requires
            old(self).wf(),
            old(self)@.state != SessionState::Closed,
        ensures
            final(self).wf(),
            final(self)@ == old(self)@.on_hub(n@).0,
            action_views(actions@) == old(self)@.on_hub(n@).1,
    {
        proof {
            lemma_status_lengths();
        }
        match n {
            HubNotice::PublishAccepted => {
                if self.waiting_for_hub {
                    self.state = SessionState::Publishing;
                    self.waiting_for_hub = false;
                    if self.is_server() {
                        one(send_status("status", "NetStream.Publish.Start"))
                    } else {
                        no_actions()
                    }
                } else {
                    no_actions()
                }
            },
            HubNotice::PublishRejected(e) => {
                if self.waiting_for_hub {
                    self.state = SessionState::Closed;
                    self.waiting_for_hub = false;
                    let mut actions = no_actions();
                    if self.is_server() {
                        push_action(&mut actions, send_status("error", "NetStream.Publish.BadName"));
                    }
                    push_action(&mut actions, SessionAction::Close(CloseReason::ChannelConflict));
                    assert(action_views(actions@) =~= old(self)@.on_hub(n@).1);
                    actions
                } else {
                    no_actions()
                }
            },
            HubNotice::Message(m) => {
                if self.state != SessionState::Subscribing {
                    no_actions()
                } else if self.queued >= self.capacity {
                    self.leave(CloseReason::BackpressureExceeded)
                } else {
                    self.queued = self.queued + 1;
                    one(
                        SessionAction::Send {
                            chunk_stream_id: chunk_stream_of(m.type_id),
                            message: RtmpMessage {
                                type_id: m.type_id,
                                timestamp: m.timestamp,
                                message_stream_id: STREAM_ID,
                                payload: m.payload,
                            },
                        },
                    )
                }
            },
            HubNotice::StreamEnded => {
                if self.state == SessionState::Subscribing {
                    self.leave(CloseReason::StreamEnded)
                } else {
                    no_actions()
                }
            },
        }
    }

    /// Takes one event and returns what the host is to do about it, in
    /// order.
    pub fn handle(&mut self, event: SessionEvent) -> (actions: Vec<SessionAction>)
        requires
            old(self).wf(),
        ensures
            final(self).wf(),
            final(self)@ == old(self)@.step(event@).0,
            action_views(actions@) == old(self)@.step(event@).1,
    {
        if self.state == SessionState::Closed {
            return no_actions();
        }
        match event {
            SessionEvent::HandshakeDone => self.on_handshake_done(),
            SessionEvent::HandshakeFailed => {
                if self.state == SessionState::Handshaking {
                    self.leave(CloseReason::HandshakeFailed)
                } else {
                    no_actions()
                }
            },
            SessionEvent::Message(m) => self.on_message(m),
            SessionEvent::MalformedChunk => self.leave(CloseReason::MalformedChunk),
            SessionEvent::Hub(n) => self.on_hub(n),
            SessionEvent::Written(n) => {
                if n >= self.queued {
                    self.queued = 0;
                } else {
                    self.queued = self.queued - n;
                }
                no_actions()
            },
            SessionEvent::PeerClosed => self.leave(CloseReason::PeerClosed),
            SessionEvent::Timeout => {
                if self.awaits() {
                    self.leave(CloseReason::Timeout)
                } else {
                    no_actions()
                }
            },
        }
    }
}

} // verus!
