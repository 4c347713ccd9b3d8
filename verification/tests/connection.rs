use xiu::channels::{
    ChannelsManager, Delivery, HubNotice, HubRequest, SessionHandle, StreamKey,
};
use xiu::chunk::packetizer::ChunkPacketizer;
use xiu::connection::{Connection, Output};
use xiu::handshake::{Handshake, HandshakeStep};
use xiu::message::RtmpMessage;
use xiu::relay::RelayClient;
use xiu::session::{CloseReason, SessionEvent, SessionState};

fn h(id: u64) -> SessionHandle {
    SessionHandle { id }
}

fn key(app: &str, stream: &str) -> StreamKey {
    StreamKey::new(app.as_bytes().to_vec(), stream.as_bytes().to_vec())
}

fn seed(n: u8) -> Vec<u8> {
    (0..1528usize).map(|i| (i as u8).wrapping_add(n)).collect()
}

/// A small world: one hub and the connections around it, wired as a host
/// would wire them, with sockets replaced by byte queues.
struct World {
    hub: ChannelsManager,
    connections: Vec<(u64, Connection)>,
    /// For each connection, what it has been told to write.
    written: Vec<(u64, Vec<u8>)>,
    closed: Vec<(u64, CloseReason)>,
}

impl World {
    fn new() -> World {
        World {
            hub: ChannelsManager::new(),
            connections: Vec::new(),
            written: Vec::new(),
            closed: Vec::new(),
        }
    }

    fn add(&mut self, id: u64, c: Connection) {
        self.connections.push((id, c));
    }

    fn take_written(&mut self, id: u64) -> Vec<u8> {
        let mut all = Vec::new();
        self.written.retain(|(to, bytes)| {
            if *to == id {
                all.extend_from_slice(bytes);
                false
            } else {
                true
            }
        });
        all
    }

    fn apply(&mut self, id: u64, outputs: Vec<Output>) {
        let mut pending: Vec<(u64, Vec<Output>)> = vec![(id, outputs)];
        while !pending.is_empty() {
            let (from, outputs) = pending.remove(0);
            for o in outputs {
                match o {
                    Output::Write(bytes) => self.written.push((from, bytes)),
                    Output::Close(reason) => self.closed.push((from, reason)),
                    Output::Hub(request) => {
                        for Delivery { to, notice } in self.hub.process(&request) {
                            let at = self.connections.iter().position(|(i, _)| *i == to.id);
                            if let Some(at) = at {
                                let out = self.connections[at].1.on_hub(notice);
                                pending.push((to.id, out));
                            }
                        }
                    }
                }
            }
        }
    }

    fn feed(&mut self, id: u64, bytes: &[u8]) {
        let at = self.connections.iter().position(|(i, _)| *i == id).unwrap();
        let out = self.connections[at].1.on_bytes(bytes, 1000);
        self.apply(id, out);
    }

    fn event(&mut self, id: u64, event: SessionEvent) {
        let at = self.connections.iter().position(|(i, _)| *i == id).unwrap();
        let out = self.connections[at].1.on_event(event);
        self.apply(id, out);
    }

    fn state(&self, id: u64) -> SessionState {
        self.connections.iter().find(|(i, _)| *i == id).unwrap().1.state()
    }
}

/// An RTMP peer written by hand: a handshake and a packetizer of its own.
struct Peer {
    handshake: Handshake,
    writer: ChunkPacketizer,
}

fn amf_string(s: &str) -> Vec<u8> {
    let mut v = vec![0x02, (s.len() >> 8) as u8, s.len() as u8];
    v.extend_from_slice(s.as_bytes());
    v
}

fn amf_number(x: f64) -> Vec<u8> {
    let mut v = vec![0x00];
    v.extend_from_slice(&x.to_be_bytes());
    v
}

impl Peer {
    fn new(n: u8) -> Peer {
        Peer { handshake: Handshake::client(5, &seed(n)), writer: ChunkPacketizer::new() }
    }

    /// Runs the handshake against the server connection `id`.
    fn shake(&mut self, world: &mut World, id: u64) {
        world.feed(id, &self.handshake.greeting());
        let reply = world.take_written(id);
        self.handshake.extend_data(&reply);
        match self.handshake.advance(7) {
            Ok(HandshakeStep::Done { send, leftover }) => {
                assert!(leftover.is_empty());
                world.feed(id, &send);
            }
            other => panic!("unexpected {:?}", other),
        }
    }

    fn command(&mut self, stream: u32, parts: &[Vec<u8>]) -> Vec<u8> {
        self.writer.write_message(3, &RtmpMessage::new(20, 0, stream, parts.concat())).unwrap()
    }

    fn connect(&mut self, app: &str) -> Vec<u8> {
        let mut object = vec![0x03, 0, 3, b'a', b'p', b'p'];
        object.extend(amf_string(app));
        object.extend([0, 0, 9]);
        self.command(0, &[amf_string("connect"), amf_number(1.0), object])
    }

    fn publish(&mut self, name: &str) -> Vec<u8> {
        self.command(
            1,
            &[amf_string("publish"), amf_number(0.0), vec![5], amf_string(name), amf_string("live")],
        )
    }

    fn play(&mut self, name: &str) -> Vec<u8> {
        self.command(1, &[amf_string("play"), amf_number(0.0), vec![5], amf_string(name)])
    }

    fn media(&mut self, m: &RtmpMessage) -> Vec<u8> {
        let csid = if m.type_id == 8 { 4 } else { 6 };
        self.writer.write_message(csid, m).unwrap()
    }
}

/// Reads back, with a fresh unpacketizer, all the messages in `bytes`.
fn messages_in(reader: &mut xiu::chunk::unpacketizer::ChunkUnpacketizer, bytes: &[u8]) -> Vec<RtmpMessage> {
    reader.extend_data(bytes);
    let mut all = Vec::new();
    while let Ok(Some(m)) = reader.read_message() {
        all.push(m);
    }
    all
}

fn server(world: &mut World, id: u64, capacity: usize) {
    world.add(id, Connection::server(h(id), capacity, 9, &seed(id as u8)));
}

fn publisher(world: &mut World, id: u64, app: &str, stream: &str) -> Peer {
    server(world, id, 16);
    let mut peer = Peer::new(100 + id as u8);
    peer.shake(world, id);
    assert_eq!(world.state(id), SessionState::AwaitingConnect);
    let bytes = peer.connect(app);
    world.feed(id, &bytes);
    let bytes = peer.publish(stream);
    world.feed(id, &bytes);
    peer
}

fn viewer(world: &mut World, id: u64, app: &str, stream: &str, capacity: usize) -> Peer {
    server(world, id, capacity);
    let mut peer = Peer::new(100 + id as u8);
    peer.shake(world, id);
    let bytes = peer.connect(app);
    world.feed(id, &bytes);
    let bytes = peer.play(stream);
    world.feed(id, &bytes);
    assert_eq!(world.state(id), SessionState::Subscribing);
    peer
}

fn video_header() -> RtmpMessage {
    RtmpMessage::new(9, 0, 1, vec![0x17, 0, 0, 0, 0, 1, 2, 3])
}

fn keyframe(ts: u32) -> RtmpMessage {
    let mut payload = vec![0x17, 1, 0, 0, 0];
    payload.extend((0..5000u32).map(|i| (i % 251) as u8));
    RtmpMessage::new(9, ts, 1, payload)
}

fn frame(ts: u32) -> RtmpMessage {
    RtmpMessage::new(9, ts, 1, vec![0x27, 1, 0, 0, 0, ts as u8])
}

#[test]
fn handshake_then_connect_over_bytes() {
    let mut world = World::new();
    server(&mut world, 1, 16);
    let mut peer = Peer::new(3);
    // the greeting arrives in two pieces
    let greeting = peer.handshake.greeting();
    world.feed(1, &greeting[..10]);
    assert!(world.take_written(1).is_empty());
    world.feed(1, &greeting[10..]);
    let reply = world.take_written(1);
    assert_eq!(reply.len(), 3073);
    peer.handshake.extend_data(&reply);
    let echo = match peer.handshake.advance(7) {
        Ok(HandshakeStep::Done { send, .. }) => send,
        other => panic!("unexpected {:?}", other),
    };
    // the echo and the connect command arrive together
    let mut bytes = echo;
    bytes.extend(peer.connect("live"));
    world.feed(1, &bytes);
    assert_eq!(world.state(1), SessionState::AwaitingPublishOrPlay);
    let mut reader = xiu::chunk::unpacketizer::ChunkUnpacketizer::new();
    let answers = messages_in(&mut reader, &world.take_written(1));
    let types: Vec<u8> = answers.iter().map(|m| m.type_id).collect();
    assert_eq!(types, vec![5, 6, 1, 20]);
    // the server's chunk size holds for what it writes after announcing it
    assert_eq!(reader.max_chunk_size(), 4096);
}

#[test]
fn failed_handshake_closes() {
    let mut world = World::new();
    server(&mut world, 1, 16);
    let mut greeting = Peer::new(3).handshake.greeting();
    greeting[0] = 9;
    world.feed(1, &greeting);
    assert_eq!(world.closed, vec![(1, CloseReason::HandshakeFailed)]);
    assert_eq!(world.state(1), SessionState::Closed);
    assert!(world.take_written(1).is_empty());
}

#[test]
fn malformed_chunk_closes_and_leaves_the_hub() {
    let mut world = World::new();
    let _peer = publisher(&mut world, 1, "live", "cam");
    assert_eq!(world.state(1), SessionState::Publishing);
    assert_eq!(world.hub.publisher(&key("live", "cam")), Some(h(1)));
    // format 1 on a chunk stream that has never carried a message
    world.feed(1, &[0x49, 0, 0, 0, 0, 0, 1, 9, 0]);
    assert_eq!(world.closed, vec![(1, CloseReason::MalformedChunk)]);
    assert_eq!(world.hub.publisher(&key("live", "cam")), None);
    assert!(!world.hub.has_channel(&key("live", "cam")));
}

#[test]
fn published_stream_reaches_viewers_in_order() {
    let mut world = World::new();
    let mut camera = publisher(&mut world, 1, "live", "cam");
    let _a = viewer(&mut world, 2, "live", "cam", 64);
    let _b = viewer(&mut world, 3, "live", "cam", 64);
    world.take_written(2);
    world.take_written(3);
    let sent = vec![video_header(), keyframe(10), frame(20), frame(30)];
    for m in &sent {
        let bytes = camera.media(m);
        world.feed(1, &bytes);
    }
    for id in [2, 3] {
        let mut reader = xiu::chunk::unpacketizer::ChunkUnpacketizer::new();
        // the viewer's reader has seen the server's Set Chunk Size
        reader.extend_data(&ChunkPacketizer::new()
            .write_message(2, &RtmpMessage::new(1, 0, 0, vec![0, 0, 16, 0]))
            .unwrap());
        reader.read_message().unwrap();
        let got = messages_in(&mut reader, &world.take_written(id));
        assert_eq!(got, sent, "for viewer {}", id);
    }
}

#[test]
fn late_viewer_gets_header_and_keyframe_first() {
    let mut world = World::new();
    let mut camera = publisher(&mut world, 1, "live", "cam");
    for m in [video_header(), keyframe(10), frame(20)] {
        let bytes = camera.media(&m);
        world.feed(1, &bytes);
    }
    let _late = viewer(&mut world, 2, "live", "cam", 64);
    let bytes = camera.media(&frame(30));
    world.feed(1, &bytes);
    let mut reader = xiu::chunk::unpacketizer::ChunkUnpacketizer::new();
    let got = messages_in(&mut reader, &world.take_written(2));
    let media: Vec<RtmpMessage> = got.into_iter().filter(|m| m.type_id == 9).collect();
    assert_eq!(media, vec![video_header(), keyframe(10), frame(30)]);
}

#[test]
fn second_publisher_is_closed_and_the_first_goes_on() {
    let mut world = World::new();
    let mut first = publisher(&mut world, 1, "live", "cam");
    let _second = publisher(&mut world, 2, "live", "cam");
    assert_eq!(world.closed, vec![(2, CloseReason::ChannelConflict)]);
    assert_eq!(world.state(2), SessionState::Closed);
    assert_eq!(world.state(1), SessionState::Publishing);
    assert_eq!(world.hub.publisher(&key("live", "cam")), Some(h(1)));
    let _v = viewer(&mut world, 3, "live", "cam", 64);
    world.take_written(3);
    let bytes = first.media(&frame(5));
    world.feed(1, &bytes);
    assert!(!world.take_written(3).is_empty());
}

#[test]
fn slow_viewer_is_dropped_and_the_others_go_on() {
    let mut world = World::new();
    let mut camera = publisher(&mut world, 1, "live", "cam");
    let _slow = viewer(&mut world, 2, "live", "cam", 2);
    let _fast = viewer(&mut world, 3, "live", "cam", 1000);
    for ts in 0..3 {
        let bytes = camera.media(&frame(ts));
        world.feed(1, &bytes);
    }
    assert_eq!(world.closed, vec![(2, CloseReason::BackpressureExceeded)]);
    assert_eq!(world.hub.subscribers(&key("live", "cam")), vec![h(3)]);
    assert_eq!(world.state(1), SessionState::Publishing);
    assert_eq!(world.state(3), SessionState::Subscribing);
}

#[test]
fn publisher_leaving_ends_the_viewers() {
    let mut world = World::new();
    let _camera = publisher(&mut world, 1, "live", "cam");
    let _v = viewer(&mut world, 2, "live", "cam", 64);
    world.event(1, SessionEvent::PeerClosed);
    assert_eq!(world.closed, vec![(1, CloseReason::PeerClosed), (2, CloseReason::StreamEnded)]);
    assert!(!world.hub.has_channel(&key("live", "cam")));
    // the key is free again
    let _again = publisher(&mut world, 5, "live", "cam");
    assert_eq!(world.state(5), SessionState::Publishing);
}

#[test]
fn push_relay_publishes_to_a_server_of_this_crate() {
    // two worlds: the local server with a camera, and a far server
    let mut near = World::new();
    let mut far = World::new();
    let mut camera = publisher(&mut near, 1, "live", "cam");

    let mut relay = RelayClient::push_client("far:1935");
    relay.set_enabled(true);
    let session = relay.session(h(50), &key("live", "cam"), 64).unwrap();
    let (connection, greeting) = Connection::client(session, 11, &seed(50));
    near.add(50, connection);
    server(&mut far, 9, 64);

    // shuttle bytes between the relay (in the near world) and the far server
    let mut to_far = greeting;
    for _ in 0..10 {
        if !to_far.is_empty() {
            far.feed(9, &to_far);
        }
        let to_near = far.take_written(9);
        if !to_near.is_empty() {
            near.feed(50, &to_near);
        }
        to_far = near.take_written(50);
        if to_far.is_empty() && far.written.is_empty() {
            break;
        }
    }
    assert_eq!(near.state(50), SessionState::Subscribing);
    assert_eq!(far.state(9), SessionState::Publishing);
    assert_eq!(far.hub.publisher(&key("live", "cam")), Some(h(9)));
    assert_eq!(near.hub.subscribers(&key("live", "cam")), vec![h(50)]);

    // what the camera sends arrives at a viewer of the far server
    let _v = viewer(&mut far, 10, "live", "cam", 64);
    far.take_written(10);
    let bytes = camera.media(&frame(77));
    near.feed(1, &bytes);
    let relayed = near.take_written(50);
    assert!(!relayed.is_empty());
    far.feed(9, &relayed);
    let mut reader = xiu::chunk::unpacketizer::ChunkUnpacketizer::new();
    reader.extend_data(&ChunkPacketizer::new()
        .write_message(2, &RtmpMessage::new(1, 0, 0, vec![0, 0, 16, 0]))
        .unwrap());
    reader.read_message().unwrap();
    assert_eq!(messages_in(&mut reader, &far.take_written(10)), vec![frame(77)]);
}

#[test]
fn notices_for_a_closed_connection_are_dropped() {
    let mut world = World::new();
    let _v = viewer(&mut world, 2, "live", "cam", 64);
    world.event(2, SessionEvent::PeerClosed);
    world.take_written(2);
    let at = world.connections.iter().position(|(i, _)| *i == 2).unwrap();
    assert!(world.connections[at].1.on_hub(HubNotice::Message(frame(1))).is_empty());
    assert!(world.connections[at].1.on_bytes(&[1, 2, 3], 0).is_empty());
    let request = HubRequest::Route { key: key("live", "cam"), message: frame(1) };
    assert!(world.hub.process(&request).is_empty());
}
