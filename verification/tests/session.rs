use xiu::channels::{ChannelError, HubNotice, HubRequest, SessionHandle, StreamKey};
use xiu::command::{parse_command, Command};
use xiu::message::RtmpMessage;
use xiu::session::{
    chunk_stream_of, CloseReason, Role, RtmpSession, SessionAction, SessionEvent, SessionState,
};

fn string(s: &str) -> Vec<u8> {
    let mut v = vec![0x02, (s.len() >> 8) as u8, s.len() as u8];
    v.extend_from_slice(s.as_bytes());
    v
}

fn number(x: f64) -> Vec<u8> {
    let mut v = vec![0x00];
    v.extend_from_slice(&x.to_be_bytes());
    v
}

fn object(properties: &[(&str, Vec<u8>)]) -> Vec<u8> {
    let mut v = vec![0x03];
    for (k, value) in properties {
        v.extend([(k.len() >> 8) as u8, k.len() as u8]);
        v.extend_from_slice(k.as_bytes());
        v.extend(value.clone());
    }
    v.extend([0, 0, 9]);
    v
}

fn command(parts: &[Vec<u8>]) -> SessionEvent {
    SessionEvent::Message(RtmpMessage::new(20, 0, 0, parts.concat()))
}

fn connect(app: &str) -> SessionEvent {
    command(&[string("connect"), number(1.0), object(&[("app", string(app))])])
}

fn publish(name: &str) -> SessionEvent {
    command(&[string("publish"), number(3.0), vec![5], string(name), string("live")])
}

fn play(name: &str) -> SessionEvent {
    command(&[string("play"), number(3.0), vec![5], string(name)])
}

fn status(code: &str) -> SessionEvent {
    command(&[
        string("onStatus"),
        number(0.0),
        vec![5],
        object(&[("level", string("status")), ("code", string(code))]),
    ])
}

fn result(txn: f64) -> SessionEvent {
    command(&[string("_result"), number(txn), vec![5], number(1.0)])
}

fn key(app: &str, stream: &str) -> StreamKey {
    StreamKey::new(app.as_bytes().to_vec(), stream.as_bytes().to_vec())
}

fn h(id: u64) -> SessionHandle {
    SessionHandle { id }
}

fn video(ts: u32) -> RtmpMessage {
    RtmpMessage::new(9, ts, 1, vec![0x27, 1, 0, 0, 0, 7])
}

/// A short rendering of an action for comparisons.
fn show(a: &SessionAction) -> String {
    match a {
        SessionAction::Send { chunk_stream_id, message } => {
            if message.type_id == 20 {
                let what = match parse_command(&message.payload) {
                    Some(Command::Status { code }) => {
                        format!("status {}", String::from_utf8_lossy(&code))
                    }
                    Some(Command::Result { transaction_id }) => {
                        format!("result {}", f64::from_bits(transaction_id))
                    }
                    Some(Command::Connect { app, .. }) => {
                        format!("connect {}", String::from_utf8_lossy(&app))
                    }
                    Some(Command::CreateStream { .. }) => "createStream".to_string(),
                    Some(Command::Publish { stream_name }) => {
                        format!("publish {}", String::from_utf8_lossy(&stream_name))
                    }
                    Some(Command::Play { stream_name }) => {
                        format!("play {}", String::from_utf8_lossy(&stream_name))
                    }
                    other => format!("{:?}", other),
                };
                format!("send {} {} on {}", what, message.message_stream_id, chunk_stream_id)
            } else {
                format!(
                    "send type {} at {} stream {} {:?} on {}",
                    message.type_id,
                    message.timestamp,
                    message.message_stream_id,
                    message.payload,
                    chunk_stream_id
                )
            }
        }
        SessionAction::Hub(HubRequest::RegisterPublisher { key, handle }) => format!(
            "hub publish {}/{} {}",
            String::from_utf8_lossy(&key.app_name),
            String::from_utf8_lossy(&key.stream_name),
            handle.id
        ),
        SessionAction::Hub(HubRequest::RegisterSubscriber { key, handle }) => format!(
            "hub subscribe {}/{} {}",
            String::from_utf8_lossy(&key.app_name),
            String::from_utf8_lossy(&key.stream_name),
            handle.id
        ),
        SessionAction::Hub(HubRequest::Unregister { key, handle }) => format!(
            "hub unregister {}/{} {}",
            String::from_utf8_lossy(&key.app_name),
            String::from_utf8_lossy(&key.stream_name),
            handle.id
        ),
        SessionAction::Hub(HubRequest::Route { key, message }) => format!(
            "hub route {}/{} type {} at {} {:?}",
            String::from_utf8_lossy(&key.app_name),
            String::from_utf8_lossy(&key.stream_name),
            message.type_id,
            message.timestamp,
            message.payload
        ),
        SessionAction::Close(reason) => format!("close {:?}", reason),
    }
}

fn shown(actions: Vec<SessionAction>) -> Vec<String> {
    actions.iter().map(show).collect()
}

fn server_awaiting_publish(id: u64, capacity: usize) -> RtmpSession {
    let mut s = RtmpSession::server(h(id), capacity);
    assert!(s.handle(SessionEvent::HandshakeDone).is_empty());
    s.handle(connect("live"));
    s
}

fn publishing(id: u64) -> RtmpSession {
    let mut s = server_awaiting_publish(id, 4);
    s.handle(publish("cam"));
    s.handle(SessionEvent::Hub(HubNotice::PublishAccepted));
    assert_eq!(s.state(), SessionState::Publishing);
    s
}

fn subscribing(id: u64, capacity: usize) -> RtmpSession {
    let mut s = server_awaiting_publish(id, capacity);
    s.handle(play("cam"));
    assert_eq!(s.state(), SessionState::Subscribing);
    s
}

#[test]
fn server_answers_connect() {
    let mut s = RtmpSession::server(h(1), 4);
    assert_eq!(s.state(), SessionState::Handshaking);
    assert!(s.awaits());
    assert!(s.handle(SessionEvent::HandshakeDone).is_empty());
    assert_eq!(s.state(), SessionState::AwaitingConnect);
    let answer = shown(s.handle(connect("live")));
    assert_eq!(
        answer,
        vec![
            "send type 5 at 0 stream 0 [0, 38, 37, 160] on 2",
            "send type 6 at 0 stream 0 [0, 38, 37, 160, 2] on 2",
            "send type 1 at 0 stream 0 [0, 0, 16, 0] on 2",
            "send result 1 0 on 3",
        ]
    );
    assert_eq!(s.state(), SessionState::AwaitingPublishOrPlay);
    assert_eq!(s.key(), key("live", ""));
}

#[test]
fn server_answers_create_stream() {
    let mut s = server_awaiting_publish(1, 4);
    let answer = shown(s.handle(command(&[string("createStream"), number(4.0), vec![5]])));
    assert_eq!(answer, vec!["send result 4 0 on 3"]);
    assert_eq!(s.state(), SessionState::AwaitingPublishOrPlay);
}

#[test]
fn publish_goes_through_the_hub() {
    let mut s = server_awaiting_publish(7, 4);
    assert_eq!(shown(s.handle(publish("cam"))), vec!["hub publish live/cam 7"]);
    assert_eq!(s.state(), SessionState::AwaitingPublishOrPlay);
    // a second publish while the hub has not answered is passed over
    assert!(s.handle(publish("other")).is_empty());
    assert!(s.handle(play("other")).is_empty());
    assert_eq!(
        shown(s.handle(SessionEvent::Hub(HubNotice::PublishAccepted))),
        vec!["send status NetStream.Publish.Start 1 on 3"]
    );
    assert_eq!(s.state(), SessionState::Publishing);
    assert!(!s.awaits());
    assert_eq!(s.key(), key("live", "cam"));
}

#[test]
fn conflict_is_reported_and_closes() {
    let mut s = server_awaiting_publish(7, 4);
    s.handle(publish("cam"));
    let told = shown(
        s.handle(SessionEvent::Hub(HubNotice::PublishRejected(ChannelError::ChannelConflict))),
    );
    assert_eq!(
        told,
        vec!["send status NetStream.Publish.BadName 1 on 3", "close ChannelConflict"]
    );
    assert_eq!(s.state(), SessionState::Closed);
}

#[test]
fn media_is_routed_unchanged_while_publishing() {
    let mut s = publishing(7);
    assert_eq!(
        shown(s.handle(SessionEvent::Message(video(40)))),
        vec!["hub route live/cam type 9 at 40 [39, 1, 0, 0, 0, 7]"]
    );
    let audio = RtmpMessage::new(8, 41, 1, vec![0xAF, 1, 9]);
    assert_eq!(
        shown(s.handle(SessionEvent::Message(audio))),
        vec!["hub route live/cam type 8 at 41 [175, 1, 9]"]
    );
    let data = RtmpMessage::new(18, 0, 1, vec![2, 0, 0]);
    assert_eq!(
        shown(s.handle(SessionEvent::Message(data))),
        vec!["hub route live/cam type 18 at 0 [2, 0, 0]"]
    );
    // control messages are not part of the stream
    assert!(s.handle(SessionEvent::Message(RtmpMessage::new(3, 0, 0, vec![0, 0, 0, 1]))).is_empty());
    assert_eq!(s.state(), SessionState::Publishing);
}

#[test]
fn media_before_publishing_is_passed_over() {
    let mut s = server_awaiting_publish(7, 4);
    assert!(s.handle(SessionEvent::Message(video(1))).is_empty());
    s.handle(publish("cam"));
    assert!(s.handle(SessionEvent::Message(video(1))).is_empty());
    let mut sub = subscribing(8, 4);
    assert!(sub.handle(SessionEvent::Message(video(1))).is_empty());
}

#[test]
fn play_subscribes_at_once() {
    let mut s = server_awaiting_publish(9, 4);
    assert_eq!(
        shown(s.handle(play("cam"))),
        vec!["send status NetStream.Play.Start 1 on 3", "hub subscribe live/cam 9"]
    );
    assert_eq!(s.state(), SessionState::Subscribing);
}

#[test]
fn hub_messages_are_sent_on_the_stream_of_their_kind() {
    let mut s = subscribing(9, 4);
    let from_hub = RtmpMessage::new(9, 77, 5, vec![0x17, 1, 2]);
    assert_eq!(
        shown(s.handle(SessionEvent::Hub(HubNotice::Message(from_hub)))),
        vec!["send type 9 at 77 stream 1 [23, 1, 2] on 6"]
    );
    let audio = RtmpMessage::new(8, 78, 5, vec![1]);
    assert_eq!(
        shown(s.handle(SessionEvent::Hub(HubNotice::Message(audio)))),
        vec!["send type 8 at 78 stream 1 [1] on 4"]
    );
    assert_eq!(chunk_stream_of(18), 5);
    assert_eq!(chunk_stream_of(20), 3);
    assert_eq!(chunk_stream_of(1), 2);
}

#[test]
fn slow_reader_is_closed_with_backpressure() {
    let mut s = subscribing(9, 2);
    assert_eq!(s.handle(SessionEvent::Hub(HubNotice::Message(video(1)))).len(), 1);
    assert_eq!(s.handle(SessionEvent::Hub(HubNotice::Message(video(2)))).len(), 1);
    assert_eq!(
        shown(s.handle(SessionEvent::Hub(HubNotice::Message(video(3))))),
        vec!["hub unregister live/cam 9", "close BackpressureExceeded"]
    );
    assert_eq!(s.state(), SessionState::Closed);
}

#[test]
fn written_messages_make_room() {
    let mut s = subscribing(9, 2);
    for ts in 0..20 {
        assert_eq!(s.handle(SessionEvent::Hub(HubNotice::Message(video(ts)))).len(), 1);
        assert!(s.handle(SessionEvent::Written(1)).is_empty());
    }
    s.handle(SessionEvent::Hub(HubNotice::Message(video(30))));
    s.handle(SessionEvent::Hub(HubNotice::Message(video(31))));
    assert!(s.handle(SessionEvent::Written(100)).is_empty());
    assert_eq!(s.handle(SessionEvent::Hub(HubNotice::Message(video(32)))).len(), 1);
    assert_eq!(s.handle(SessionEvent::Hub(HubNotice::Message(video(33)))).len(), 1);
    assert_eq!(s.state(), SessionState::Subscribing);
}

#[test]
fn zero_capacity_closes_on_the_first_message() {
    let mut s = subscribing(9, 0);
    assert_eq!(
        shown(s.handle(SessionEvent::Hub(HubNotice::Message(video(3))))),
        vec!["hub unregister live/cam 9", "close BackpressureExceeded"]
    );
}

#[test]
fn every_way_out_releases_the_registration() {
    let ways: Vec<(SessionEvent, &str)> = vec![
        (SessionEvent::PeerClosed, "close PeerClosed"),
        (SessionEvent::MalformedChunk, "close MalformedChunk"),
        (command(&[string("deleteStream"), number(0.0), vec![5], number(1.0)]), "close Finished"),
        (command(&[string("FCUnpublish"), number(0.0), vec![5], string("cam")]), "close Finished"),
    ];
    for (event, close) in ways {
        let mut s = publishing(7);
        assert_eq!(shown(s.handle(event)), vec!["hub unregister live/cam 7", close]);
        assert_eq!(s.state(), SessionState::Closed);
    }
    let mut s = subscribing(9, 4);
    assert_eq!(
        shown(s.handle(SessionEvent::Hub(HubNotice::StreamEnded))),
        vec!["hub unregister live/cam 9", "close StreamEnded"]
    );
    // a registration that is still on its way is released too
    let mut s = server_awaiting_publish(7, 4);
    s.handle(publish("cam"));
    assert_eq!(
        shown(s.handle(SessionEvent::PeerClosed)),
        vec!["hub unregister live/cam 7", "close PeerClosed"]
    );
}

#[test]
fn a_session_the_hub_does_not_know_just_closes() {
    let mut s = RtmpSession::server(h(1), 4);
    assert_eq!(shown(s.handle(SessionEvent::HandshakeFailed)), vec!["close HandshakeFailed"]);
    assert_eq!(s.state(), SessionState::Closed);
    let mut s = server_awaiting_publish(1, 4);
    assert_eq!(shown(s.handle(SessionEvent::PeerClosed)), vec!["close PeerClosed"]);
    let mut s = server_awaiting_publish(1, 4);
    assert_eq!(shown(s.handle(SessionEvent::Timeout)), vec!["close Timeout"]);
}

#[test]
fn timeout_counts_only_while_waiting() {
    let mut s = publishing(7);
    assert!(s.handle(SessionEvent::Timeout).is_empty());
    assert_eq!(s.state(), SessionState::Publishing);
    let mut s = RtmpSession::server(h(1), 4);
    assert_eq!(shown(s.handle(SessionEvent::Timeout)), vec!["close Timeout"]);
}

#[test]
fn a_closed_session_does_nothing() {
    let mut s = publishing(7);
    s.handle(SessionEvent::PeerClosed);
    let events = vec![
        SessionEvent::HandshakeDone,
        SessionEvent::Message(video(1)),
        publish("cam"),
        SessionEvent::Hub(HubNotice::PublishAccepted),
        SessionEvent::Hub(HubNotice::Message(video(1))),
        SessionEvent::PeerClosed,
        SessionEvent::Timeout,
        SessionEvent::MalformedChunk,
        SessionEvent::Written(3),
    ];
    for event in events {
        assert!(s.handle(event).is_empty());
        assert_eq!(s.state(), SessionState::Closed);
    }
}

#[test]
fn commands_out_of_turn_are_passed_over() {
    let mut s = RtmpSession::server(h(1), 4);
    assert!(s.handle(connect("live")).is_empty());
    s.handle(SessionEvent::HandshakeDone);
    assert!(s.handle(publish("cam")).is_empty());
    assert!(s.handle(play("cam")).is_empty());
    assert!(s.handle(SessionEvent::Hub(HubNotice::PublishAccepted)).is_empty());
    assert!(s.handle(SessionEvent::Hub(HubNotice::Message(video(1)))).is_empty());
    assert!(s.handle(SessionEvent::Hub(HubNotice::StreamEnded)).is_empty());
    assert!(s.handle(SessionEvent::HandshakeFailed).is_empty());
    assert!(s.handle(SessionEvent::Message(RtmpMessage::new(20, 0, 0, vec![1, 2, 3]))).is_empty());
    assert_eq!(s.state(), SessionState::AwaitingConnect);
    s.handle(connect("live"));
    assert!(s.handle(connect("other")).is_empty());
    assert_eq!(s.key(), key("live", ""));
}

#[test]
fn push_relay_walks_through_its_requests() {
    let k = key("live", "cam");
    let mut s = RtmpSession::client(Role::Push, h(3), &k, &b"rtmp://far/live".to_vec(), 4).unwrap();
    assert_eq!(shown(s.handle(SessionEvent::HandshakeDone)), vec!["send connect live 0 on 3"]);
    assert_eq!(s.state(), SessionState::AwaitingConnect);
    assert!(s.handle(result(2.0)).is_empty());
    assert_eq!(shown(s.handle(result(1.0))), vec!["send createStream 0 on 3"]);
    assert_eq!(s.state(), SessionState::AwaitingPublishOrPlay);
    assert!(s.handle(status("NetStream.Publish.Start")).is_empty());
    assert_eq!(shown(s.handle(result(2.0))), vec!["send publish cam 1 on 3"]);
    assert!(s.handle(result(2.0)).is_empty());
    assert!(s.handle(status("NetStream.Play.Start")).is_empty());
    assert_eq!(
        shown(s.handle(status("NetStream.Publish.Start"))),
        vec!["hub subscribe live/cam 3"]
    );
    assert_eq!(s.state(), SessionState::Subscribing);
    assert_eq!(
        shown(s.handle(SessionEvent::Hub(HubNotice::Message(video(5))))),
        vec!["send type 9 at 5 stream 1 [39, 1, 0, 0, 0, 7] on 6"]
    );
}

#[test]
fn pull_relay_publishes_locally() {
    let k = key("live", "cam");
    let mut s = RtmpSession::client(Role::Pull, h(3), &k, &b"rtmp://far/live".to_vec(), 4).unwrap();
    s.handle(SessionEvent::HandshakeDone);
    s.handle(result(1.0));
    assert_eq!(shown(s.handle(result(2.0))), vec!["send play cam 1 on 3"]);
    assert_eq!(shown(s.handle(status("NetStream.Play.Start"))), vec!["hub publish live/cam 3"]);
    assert_eq!(s.state(), SessionState::AwaitingPublishOrPlay);
    assert!(s.handle(SessionEvent::Hub(HubNotice::PublishAccepted)).is_empty());
    assert_eq!(s.state(), SessionState::Publishing);
    assert_eq!(
        shown(s.handle(SessionEvent::Message(video(5)))),
        vec!["hub route live/cam type 9 at 5 [39, 1, 0, 0, 0, 7]"]
    );
    assert_eq!(
        shown(s.handle(status("NetStream.Play.UnpublishNotify"))),
        vec!["hub unregister live/cam 3", "close StreamEnded"]
    );
}

#[test]
fn pull_relay_gives_way_to_a_local_publisher() {
    let k = key("live", "cam");
    let mut s = RtmpSession::client(Role::Pull, h(3), &k, &b"u".to_vec(), 4).unwrap();
    s.handle(SessionEvent::HandshakeDone);
    s.handle(result(1.0));
    s.handle(result(2.0));
    s.handle(status("NetStream.Play.Start"));
    let told = shown(
        s.handle(SessionEvent::Hub(HubNotice::PublishRejected(ChannelError::ChannelConflict))),
    );
    assert_eq!(told, vec!["close ChannelConflict"]);
}

#[test]
fn a_refusing_server_closes_the_relay_session() {
    let k = key("live", "cam");
    let error = || command(&[string("_error"), number(1.0), vec![5]]);
    let mut s = RtmpSession::client(Role::Push, h(3), &k, &b"u".to_vec(), 4).unwrap();
    s.handle(SessionEvent::HandshakeDone);
    assert_eq!(shown(s.handle(error())), vec!["close Refused"]);
    let mut s = RtmpSession::client(Role::Push, h(3), &k, &b"u".to_vec(), 4).unwrap();
    s.handle(SessionEvent::HandshakeDone);
    s.handle(result(1.0));
    s.handle(result(2.0));
    assert_eq!(shown(s.handle(status("NetStream.Publish.BadName"))), vec!["close Refused"]);
    let mut s = RtmpSession::client(Role::Pull, h(3), &k, &b"u".to_vec(), 4).unwrap();
    s.handle(SessionEvent::HandshakeDone);
    s.handle(result(1.0));
    s.handle(result(2.0));
    assert_eq!(shown(s.handle(status("NetStream.Play.StreamNotFound"))), vec!["close Refused"]);
}

#[test]
fn client_sessions_need_a_client_role_and_short_names() {
    let k = key("live", "cam");
    assert!(RtmpSession::client(Role::Server, h(3), &k, &b"u".to_vec(), 4).is_none());
    assert!(RtmpSession::client(Role::Push, h(3), &k, &vec![b'u'; 65536], 4).is_none());
    assert!(RtmpSession::client(Role::Push, h(3), &k, &vec![b'u'; 65535], 4).is_some());
    let long = StreamKey::new(b"live".to_vec(), vec![b'x'; 65536]);
    assert!(RtmpSession::client(Role::Pull, h(3), &long, &b"u".to_vec(), 4).is_none());
}
