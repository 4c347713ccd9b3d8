//! What holds of a session whatever the events.

use vstd::prelude::*;
use vstd::string::*;
use crate::amf0::{text, NUMBER_ONE};
use crate::channels::{ChannelError, HubNoticeView, HubRequestView};
use crate::command::{
    command_of, connect_command, create_stream_command, create_stream_result, publish_command,
    CommandView, MAX_STRING, NUMBER_TWO,
};
use crate::command_laws::{
    connect_result_round_trip, connect_round_trip, create_stream_result_round_trip,
    publish_round_trip, status_round_trip,
};
use crate::message::MessageView;
use crate::session::{
    connect_answer, connection_command, is_media, lemma_status_lengths, send, status_message,
    stream_command, ActionView, CloseReason, EventView, Role, SessionState, SessionView,
    CSID_COMMAND,
};

verus! {

/// A closed session stays closed and does nothing.
pub proof fn closed_is_final(s: SessionView, event: EventView)
    requires
        s.state == SessionState::Closed,
    ensures
        s.step(event) == (s, Seq::<ActionView>::empty()),
{
}

/// Every event takes a well-formed session to a well-formed session: in
/// particular, never more messages wait to be written than the session
/// allows.
pub proof fn step_preserves_wf(s: SessionView, event: EventView)
    requires
        s.wf(),
    ensures
        s.step(event).0.wf(),
        s.step(event).0.queued <= s.step(event).0.capacity,
        s.step(event).0.capacity == s.capacity,
        s.step(event).0.handle == s.handle,
        s.step(event).0.role == s.role,
{
}

/// The moves that the state of a session can make in one step.
pub open spec fn may_follow(from: SessionState, to: SessionState) -> bool {
    from == to || to == SessionState::Closed || match from {
        SessionState::Handshaking => to == SessionState::AwaitingConnect,
        SessionState::AwaitingConnect => to == SessionState::AwaitingPublishOrPlay,
        SessionState::AwaitingPublishOrPlay => to == SessionState::Publishing || to
            == SessionState::Subscribing,
        _ => false,
    }
}

/// A session moves forward only: from the handshake to `connect`, from
/// there to `publish` or `play`, from there to publishing or subscribing,
/// and from anywhere to closed.
pub proof fn states_move_forward(s: SessionView, event: EventView)
    requires
        s.wf(),
    ensures
        may_follow(s.state, s.step(event).0.state),
{
}

/// Whether `event` is the hub's refusal to make the session a publisher.
pub open spec fn is_refusal(event: EventView) -> bool {
    event matches EventView::Hub(HubNoticeView::PublishRejected(_))
}

/// While a session publishes, every audio, video and data message of the
/// peer goes to the hub as it is, under the session's key; the session
/// itself does not change.
pub proof fn media_goes_to_the_hub_unchanged(s: SessionView, m: MessageView)
    requires
        s.state == SessionState::Publishing,
        is_media(m.type_id),
    ensures
        s.step(EventView::Message(m)) == (
            s,
            seq![ActionView::Hub(HubRequestView::Route { key: s.key(), message: m })],
        ),
{
}

/// While a session subscribes, a message of the hub is handed on with its
/// type, timestamp and payload as they are, unless as many messages wait
/// to be written as the session allows: then the session leaves the hub
/// and closes with `BackpressureExceeded`.
pub proof fn slow_readers_are_closed(s: SessionView, m: MessageView)
    requires
        s.wf(),
        s.state == SessionState::Subscribing,
    ensures
        s.queued < s.capacity ==> {
            &&& s.step(EventView::Hub(HubNoticeView::Message(m))).0 == (SessionView {
                queued: (s.queued + 1) as usize,
                ..s
            })
            &&& s.step(EventView::Hub(HubNoticeView::Message(m))).1.len() == 1
            &&& s.step(EventView::Hub(HubNoticeView::Message(m))).1[0] matches ActionView::Send {
                message,
                ..
            } && message.type_id == m.type_id && message.timestamp == m.timestamp
                && message.payload == m.payload
        },
        s.queued == s.capacity ==> s.step(EventView::Hub(HubNoticeView::Message(m))) == (
            s.closed(),
            seq![s.unregister(), ActionView::Close(CloseReason::BackpressureExceeded)],
        ),
{
}

/// A conflict closes the session that ran into it: when the hub refuses to
/// make a peer the publisher, the server tells the peer and closes with
/// `ChannelConflict`, and asks nothing more of the hub.
pub proof fn conflict_closes_the_session(s: SessionView, e: ChannelError)
    requires
        s.wf(),
        s.role == Role::Server,
        s.waiting_for_hub,
    ensures
        s.step(EventView::Hub(HubNoticeView::PublishRejected(e))) == (
            s.closed(),
            seq![
                status_message(text("error"), text("NetStream.Publish.BadName")),
                ActionView::Close(CloseReason::ChannelConflict),
            ],
        ),
{
}

/// A relay and a server of this crate understand each other: the
/// `connect` that a relay sends after the handshake takes a server that
/// waits for it on to wait for `publish` or `play`, with the relay's
/// application as its own, and makes it answer.
pub proof fn server_accepts_the_relays_connect(relay: SessionView, server: SessionView)
    requires
        relay.wf(),
        relay.role != Role::Server,
        relay.state == SessionState::Handshaking,
        server.role == Role::Server,
        server.state == SessionState::AwaitingConnect,
    ensures
        ({
            let (relay2, sent) = relay.step(EventView::HandshakeDone);
            let (server2, answer) = server.step(
                EventView::Message(connection_command(connect_command(relay.app_name, relay.tc_url))),
            );
            &&& relay2.state == SessionState::AwaitingConnect
            &&& sent == seq![
                send(CSID_COMMAND, connection_command(connect_command(relay.app_name, relay.tc_url))),
            ]
            &&& server2 == (SessionView {
                state: SessionState::AwaitingPublishOrPlay,
                app_name: relay.app_name,
                ..server
            })
            &&& answer == connect_answer(NUMBER_ONE)
        }),
{
    connect_round_trip(relay.app_name, relay.tc_url);
}

/// The server's answers take the relay on: the result of `connect` makes
/// it ask for a stream, and the result of that makes a push relay send
/// `publish` for its stream.
pub proof fn relay_follows_the_servers_answers(relay: SessionView)
    requires
        relay.wf(),
        relay.role == Role::Push,
        relay.state == SessionState::AwaitingConnect,
        !relay.requested,
    ensures
        ({
            let (relay2, asked) = relay.step(
                EventView::Message(connection_command(crate::command::connect_result(NUMBER_ONE))),
            );
            let (relay3, published) = relay2.step(
                EventView::Message(connection_command(create_stream_result(NUMBER_TWO))),
            );
            &&& relay2.state == SessionState::AwaitingPublishOrPlay
            &&& asked == seq![send(CSID_COMMAND, connection_command(create_stream_command()))]
            &&& relay3 == (SessionView { requested: true, ..relay2 })
            &&& published == seq![
                send(CSID_COMMAND, stream_command(publish_command(relay.stream_name))),
            ]
        }),
{
    connect_result_round_trip(NUMBER_ONE);
    create_stream_result_round_trip(NUMBER_TWO);
}

/// The relay's `publish` makes the server ask the hub to register a
/// publisher under the relay's key; once the hub agrees, the server's
/// status makes a push relay subscribe to the same key on its own hub.
pub proof fn publish_reaches_the_hub(relay: SessionView, server: SessionView)
    requires
        relay.wf(),
        relay.role == Role::Push,
        relay.state == SessionState::AwaitingPublishOrPlay,
        relay.requested,
        !relay.waiting_for_hub,
        server.wf(),
        server.role == Role::Server,
        server.state == SessionState::AwaitingPublishOrPlay,
        !server.waiting_for_hub,
        server.app_name == relay.app_name,
    ensures
        ({
            let (server2, asked) = server.step(
                EventView::Message(stream_command(publish_command(relay.stream_name))),
            );
            let (server3, told) = server2.step(EventView::Hub(HubNoticeView::PublishAccepted));
            let (relay2, joined) = relay.step(
                EventView::Message(
                    stream_command(
                        crate::command::status_command(
                            text("status"),
                            text("NetStream.Publish.Start"),
                        ),
                    ),
                ),
            );
            &&& asked == seq![
                ActionView::Hub(
                    HubRequestView::RegisterPublisher { key: relay.key(), handle: server.handle },
                ),
            ]
            &&& server3.state == SessionState::Publishing
            &&& server3.key() == relay.key()
            &&& told == seq![status_message(text("status"), text("NetStream.Publish.Start"))]
            &&& relay2.state == SessionState::Subscribing
            &&& joined == seq![
                ActionView::Hub(
                    HubRequestView::RegisterSubscriber { key: relay.key(), handle: relay.handle },
                ),
            ]
        }),
{
    publish_round_trip(relay.stream_name);
    lemma_status_lengths();
    status_round_trip(text("status"), text("NetStream.Publish.Start"));
}

/// Whether a request to the hub is made under `handle` and for `key`, and
/// routes only if `publishing`.
pub open spec fn request_is_proper(
    request: HubRequestView,
    key: crate::channels::StreamKeyView,
    handle: crate::channels::SessionHandle,
    publishing: bool,
) -> bool {
    match request {
        HubRequestView::RegisterPublisher { key: k, handle: h } => k == key && h == handle,
        HubRequestView::RegisterSubscriber { key: k, handle: h } => k == key && h == handle,
        HubRequestView::Unregister { key: k, handle: h } => k == key && h == handle,
        HubRequestView::Route { key: k, message } => k == key && publishing,
    }
}

/// Whether a step from `s` to `next` with `actions` is orderly: the hub is
/// only asked under the session's own handle and key, and only a
/// publishing session routes; and if the step closes the session, it ends
/// with the order to close, and starts with the request to take the
/// session off the hub if the hub knew it, unless the step answers the
/// hub's own refusal.
pub open spec fn orderly(
    s: SessionView,
    next: SessionView,
    actions: Seq<ActionView>,
    refusal: bool,
) -> bool {
    &&& forall|i: int|
        0 <= i < actions.len() && (#[trigger] actions[i]) is Hub ==> request_is_proper(
            actions[i]->Hub_0,
            next.key(),
            s.handle,
            s.state == SessionState::Publishing,
        )
    &&& s.state != SessionState::Closed && next.state == SessionState::Closed ==> {
        &&& actions.len() >= 1
        &&& actions.last() is Close
        &&& s.registered() && !refusal ==> actions.first() == s.unregister()
        &&& !next.registered()
    }
}

proof fn leaving_is_orderly(s: SessionView, reason: CloseReason)
    requires
        s.wf(),
        s.state != SessionState::Closed,
    ensures
        orderly(s, s.leave(reason).0, s.leave(reason).1, false),
{
}

proof fn staying_is_orderly(s: SessionView)
    requires
        s.wf(),
        s.state != SessionState::Closed,
    ensures
        orderly(s, s, Seq::<ActionView>::empty(), false),
{
}

proof fn server_commands_are_orderly(s: SessionView, c: CommandView)
    requires
        s.wf(),
        s.state != SessionState::Closed,
    ensures
        orderly(s, s.on_server_command(c).0, s.on_server_command(c).1, false),
{
    leaving_is_orderly(s, CloseReason::Finished);
    staying_is_orderly(s);
    match c {
        CommandView::Connect { transaction_id, app } => {
            assert(forall|i: int|
                0 <= i < connect_answer(transaction_id).len() ==> !(#[trigger] connect_answer(
                    transaction_id,
                )[i] is Hub));
        },
        _ => {},
    }
}

proof fn client_commands_are_orderly(s: SessionView, c: CommandView)
    requires
        s.wf(),
        s.state != SessionState::Closed,
    ensures
        orderly(s, s.on_client_command(c).0, s.on_client_command(c).1, false),
{
    leaving_is_orderly(s, CloseReason::Refused);
    leaving_is_orderly(s, CloseReason::StreamEnded);
    staying_is_orderly(s);
}

proof fn hub_notices_are_orderly(s: SessionView, n: HubNoticeView)
    requires
        s.wf(),
        s.state != SessionState::Closed,
    ensures
        orderly(s, s.on_hub(n).0, s.on_hub(n).1, n is PublishRejected),
{
    leaving_is_orderly(s, CloseReason::BackpressureExceeded);
    leaving_is_orderly(s, CloseReason::StreamEnded);
    staying_is_orderly(s);
}

proof fn messages_are_orderly(s: SessionView, m: MessageView)
    requires
        s.wf(),
        s.state != SessionState::Closed,
    ensures
        orderly(s, s.on_message(m).0, s.on_message(m).1, false),
{
    staying_is_orderly(s);
    match command_of(m.payload) {
        Some(c) => {
            server_commands_are_orderly(s, c);
            client_commands_are_orderly(s, c);
        },
        None => {},
    }
}

/// Every step of a session is orderly.
pub proof fn steps_are_orderly(s: SessionView, event: EventView)
    requires
        s.wf(),
    ensures
        orderly(s, s.step(event).0, s.step(event).1, is_refusal(event)),
{
    if s.state != SessionState::Closed {
        staying_is_orderly(s);
        match event {
            EventView::HandshakeDone => {},
            EventView::HandshakeFailed => {
                leaving_is_orderly(s, CloseReason::HandshakeFailed);
            },
            EventView::Message(m) => {
                messages_are_orderly(s, m);
            },
            EventView::MalformedChunk => {
                leaving_is_orderly(s, CloseReason::MalformedChunk);
            },
            EventView::Hub(n) => {
                hub_notices_are_orderly(s, n);
            },
            EventView::Written(n) => {},
            EventView::PeerClosed => {
                leaving_is_orderly(s, CloseReason::PeerClosed);
            },
            EventView::Timeout => {
                leaving_is_orderly(s, CloseReason::Timeout);
            },
        }
    }
}

/// Release on every way out: whenever a session closes, the last thing it
/// orders is to close the connection; and if the hub knew the session, or
/// was about to, the first thing it orders is to take the session off the
/// hub, under its own key and handle. The one way out without that is the
/// hub's own refusal, after which there is nothing to take off.
pub proof fn every_exit_releases(s: SessionView, event: EventView)
    requires
        s.wf(),
        s.state != SessionState::Closed,
        s.step(event).0.state == SessionState::Closed,
    ensures
        s.step(event).1.len() >= 1,
        s.step(event).1.last() is Close,
        s.registered() && !is_refusal(event) ==> s.step(event).1.first() == s.unregister(),
        !s.step(event).0.registered(),
{
    steps_are_orderly(s, event);
}

/// Whatever a session asks of the hub, it asks under its own handle and
/// for the key it holds after the step; and it routes only while it
/// publishes.
pub proof fn requests_are_proper(s: SessionView, event: EventView, i: int)
    requires
        s.wf(),
        0 <= i < s.step(event).1.len(),
        s.step(event).1[i] is Hub,
    ensures
        request_is_proper(
            s.step(event).1[i]->Hub_0,
            s.step(event).0.key(),
            s.handle,
            s.state == SessionState::Publishing,
        ),
{
    steps_are_orderly(s, event);
}

/// A second publisher is turned away: when a peer asks a server to
/// publish under a key that has a publisher, the server asks the hub, the
/// hub refuses with `ChannelConflict` and stays as it is, and the server
/// tells the peer and closes.
pub proof fn second_publisher_is_turned_away(
    hub: crate::channels::HubView,
    s: SessionView,
    stream_name: Seq<u8>,
)
    requires
        s.wf(),
        s.role == Role::Server,
        s.state == SessionState::AwaitingPublishOrPlay,
        !s.waiting_for_hub,
        stream_name.len() <= MAX_STRING,
        hub.publisher(
            crate::channels::StreamKeyView { app_name: s.app_name, stream_name },
        ) is Some,
    ensures
        ({
            let key = crate::channels::StreamKeyView { app_name: s.app_name, stream_name };
            let request = HubRequestView::RegisterPublisher { key, handle: s.handle };
            let (s2, asked) = s.step(EventView::Message(stream_command(publish_command(stream_name))));
            let refusal = HubNoticeView::PublishRejected(ChannelError::ChannelConflict);
            let (s3, told) = s2.step(EventView::Hub(refusal));
            &&& asked == seq![ActionView::Hub(request)]
            &&& hub.step(request) == hub
            &&& hub.deliveries(request) == seq![
                crate::channels::DeliveryView { to: s.handle, notice: refusal },
            ]
            &&& s3.state == SessionState::Closed
            &&& told == seq![
                status_message(text("error"), text("NetStream.Publish.BadName")),
                ActionView::Close(CloseReason::ChannelConflict),
            ]
        }),
{
    publish_round_trip(stream_name);
}

} // verus!
