use xiu::channels::{
    ChannelError, ChannelsManager, Delivery, HubNotice, HubRequest, RelayHint, SessionHandle,
    StreamKey,
};
use xiu::message::RtmpMessage;

fn key(app: &str, stream: &str) -> StreamKey {
    StreamKey::new(app.as_bytes().to_vec(), stream.as_bytes().to_vec())
}

fn h(id: u64) -> SessionHandle {
    SessionHandle { id }
}

fn video_header() -> RtmpMessage {
    RtmpMessage::new(9, 0, 1, vec![0x17, 0x00, 0, 0, 0, 1, 2, 3])
}

fn audio_header() -> RtmpMessage {
    RtmpMessage::new(8, 0, 1, vec![0xAF, 0x00, 0x12, 0x10])
}

fn keyframe(ts: u32) -> RtmpMessage {
    RtmpMessage::new(9, ts, 1, vec![0x17, 0x01, 0, 0, 0, 9, 9])
}

fn inter_frame(ts: u32) -> RtmpMessage {
    RtmpMessage::new(9, ts, 1, vec![0x27, 0x01, 0, 0, 0, 4, 4])
}

#[test]
fn fan_out_keeps_order_for_every_subscriber() {
    let mut hub = ChannelsManager::new();
    let k = key("live", "one");
    assert_eq!(hub.register_publisher(&k, h(1)), Ok(()));
    assert!(hub.register_subscriber(&k, h(2)).is_empty());
    assert!(hub.register_subscriber(&k, h(3)).is_empty());
    let messages = vec![inter_frame(1), inter_frame(2), inter_frame(3)];
    let mut seen_by_2 = Vec::new();
    let mut seen_by_3 = Vec::new();
    for m in &messages {
        let request = HubRequest::Route { key: key("live", "one"), message: m.clone() };
        for d in hub.process(&request) {
            match d {
                Delivery { to, notice: HubNotice::Message(m) } if to == h(2) => seen_by_2.push(m),
                Delivery { to, notice: HubNotice::Message(m) } if to == h(3) => seen_by_3.push(m),
                other => panic!("unexpected {:?}", other),
            }
        }
    }
    assert_eq!(seen_by_2, messages);
    assert_eq!(seen_by_3, messages);
}

#[test]
fn route_names_the_subscribers_in_order_of_registration() {
    let mut hub = ChannelsManager::new();
    let k = key("live", "one");
    hub.register_subscriber(&k, h(9));
    hub.register_subscriber(&k, h(4));
    hub.register_subscriber(&k, h(9));
    hub.register_subscriber(&k, h(7));
    assert_eq!(hub.route(&k, &inter_frame(1)), vec![h(9), h(4), h(7)]);
    assert_eq!(hub.subscribers(&k), vec![h(9), h(4), h(7)]);
    assert_eq!(hub.route(&key("live", "two"), &inter_frame(1)), Vec::new());
}

#[test]
fn second_publisher_is_refused_and_the_first_stays() {
    let mut hub = ChannelsManager::new();
    let k = key("live", "one");
    assert_eq!(hub.register_publisher(&k, h(1)), Ok(()));
    assert_eq!(hub.register_publisher(&k, h(2)), Err(ChannelError::ChannelConflict));
    assert_eq!(hub.publisher(&k), Some(h(1)));
    assert_eq!(hub.register_publisher(&k, h(1)), Err(ChannelError::ChannelConflict));
    assert_eq!(hub.register_publisher(&key("live", "two"), h(2)), Ok(()));
    assert_eq!(hub.register_publisher(&key("vod", "one"), h(3)), Ok(()));
}

#[test]
fn late_joiner_gets_the_cache_first() {
    let mut hub = ChannelsManager::new();
    let k = key("live", "one");
    hub.register_publisher(&k, h(1)).unwrap();
    assert!(hub.route(&k, &video_header()).is_empty());
    assert!(hub.route(&k, &audio_header()).is_empty());
    assert!(hub.route(&k, &keyframe(10)).is_empty());
    assert!(hub.route(&k, &inter_frame(20)).is_empty());
    assert!(hub.route(&k, &keyframe(30)).is_empty());
    let replay = hub.register_subscriber(&k, h(2));
    assert_eq!(replay, vec![video_header(), audio_header(), keyframe(30)]);
    assert_eq!(hub.route(&k, &inter_frame(40)), vec![h(2)]);
}

#[test]
fn subscriber_may_wait_for_a_publisher() {
    let mut hub = ChannelsManager::new();
    let k = key("live", "one");
    assert!(hub.register_subscriber(&k, h(2)).is_empty());
    assert!(hub.has_channel(&k));
    assert_eq!(hub.publisher(&k), None);
    assert_eq!(hub.register_publisher(&k, h(1)), Ok(()));
    assert_eq!(hub.route(&k, &video_header()), vec![h(2)]);
}

#[test]
fn nothing_is_cached_without_a_publisher() {
    let mut hub = ChannelsManager::new();
    let k = key("live", "one");
    hub.register_subscriber(&k, h(2));
    assert_eq!(hub.route(&k, &video_header()), vec![h(2)]);
    assert!(hub.register_subscriber(&k, h(3)).is_empty());
}

#[test]
fn publisher_leaving_ends_the_stream_and_clears_the_cache() {
    let mut hub = ChannelsManager::new();
    let k = key("live", "one");
    hub.register_publisher(&k, h(1)).unwrap();
    hub.register_subscriber(&k, h(2));
    hub.register_subscriber(&k, h(3));
    hub.route(&k, &video_header());
    assert_eq!(hub.unregister(&k, h(1)), vec![h(2), h(3)]);
    assert_eq!(hub.publisher(&k), None);
    assert_eq!(hub.subscribers(&k), vec![h(2), h(3)]);
    assert_eq!(hub.register_publisher(&k, h(4)), Ok(()));
    assert!(hub.register_subscriber(&k, h(5)).is_empty());
}

#[test]
fn empty_channel_is_pruned() {
    let mut hub = ChannelsManager::new();
    let k = key("live", "one");
    hub.register_publisher(&k, h(1)).unwrap();
    hub.route(&k, &video_header());
    assert!(hub.unregister(&k, h(1)).is_empty());
    assert!(!hub.has_channel(&k));
    assert_eq!(hub.register_publisher(&k, h(2)), Ok(()));
    assert!(hub.register_subscriber(&k, h(3)).is_empty());
    assert!(hub.unregister(&k, h(3)).is_empty());
    assert!(hub.has_channel(&k));
    assert!(hub.unregister(&k, h(2)).is_empty());
    assert!(!hub.has_channel(&k));
}

#[test]
fn subscriber_leaving_notifies_nobody() {
    let mut hub = ChannelsManager::new();
    let k = key("live", "one");
    hub.register_publisher(&k, h(1)).unwrap();
    hub.register_subscriber(&k, h(2));
    hub.register_subscriber(&k, h(3));
    assert!(hub.unregister(&k, h(2)).is_empty());
    assert_eq!(hub.route(&k, &inter_frame(1)), vec![h(3)]);
    assert!(hub.unregister(&k, h(8)).is_empty());
    assert!(hub.unregister(&key("live", "none"), h(3)).is_empty());
    assert_eq!(hub.publisher(&k), Some(h(1)));
}

#[test]
fn feature_flags_start_off_and_are_independent() {
    let mut hub = ChannelsManager::new();
    assert!(!hub.hls_enabled() && !hub.rtmp_push_enabled() && !hub.rtmp_pull_enabled());
    hub.set_rtmp_push_enabled(true);
    assert!(!hub.hls_enabled() && hub.rtmp_push_enabled() && !hub.rtmp_pull_enabled());
    hub.set_hls_enabled(true);
    hub.set_rtmp_pull_enabled(true);
    hub.set_rtmp_push_enabled(false);
    assert!(hub.hls_enabled() && !hub.rtmp_push_enabled() && hub.rtmp_pull_enabled());
}

#[test]
fn process_reports_the_publish_result_to_the_asker() {
    let mut hub = ChannelsManager::new();
    let first = HubRequest::RegisterPublisher { key: key("live", "one"), handle: h(1) };
    let second = HubRequest::RegisterPublisher { key: key("live", "one"), handle: h(2) };
    assert_eq!(hub.process(&first), vec![Delivery { to: h(1), notice: HubNotice::PublishAccepted }]);
    assert_eq!(
        hub.process(&second),
        vec![Delivery {
            to: h(2),
            notice: HubNotice::PublishRejected(ChannelError::ChannelConflict)
        }]
    );
}

#[test]
fn process_replays_and_ends_streams() {
    let mut hub = ChannelsManager::new();
    hub.process(&HubRequest::RegisterPublisher { key: key("a", "b"), handle: h(1) });
    hub.process(&HubRequest::Route { key: key("a", "b"), message: video_header() });
    let joined = hub.process(&HubRequest::RegisterSubscriber { key: key("a", "b"), handle: h(2) });
    assert_eq!(joined, vec![Delivery { to: h(2), notice: HubNotice::Message(video_header()) }]);
    let left = hub.process(&HubRequest::Unregister { key: key("a", "b"), handle: h(1) });
    assert_eq!(left, vec![Delivery { to: h(2), notice: HubNotice::StreamEnded }]);
}

#[test]
fn relay_hints_follow_the_flags_and_the_publisher() {
    let mut hub = ChannelsManager::new();
    let publish = HubRequest::RegisterPublisher { key: key("a", "b"), handle: h(1) };
    let subscribe = HubRequest::RegisterSubscriber { key: key("a", "b"), handle: h(2) };
    let leave = HubRequest::Unregister { key: key("a", "b"), handle: h(2) };
    assert_eq!(hub.relay_hint(&publish), RelayHint::Nothing);
    assert_eq!(hub.relay_hint(&subscribe), RelayHint::Nothing);
    hub.set_rtmp_push_enabled(true);
    hub.set_rtmp_pull_enabled(true);
    assert_eq!(hub.relay_hint(&publish), RelayHint::Push);
    assert_eq!(hub.relay_hint(&subscribe), RelayHint::Pull);
    assert_eq!(hub.relay_hint(&leave), RelayHint::Nothing);
    hub.process(&publish);
    assert_eq!(hub.relay_hint(&publish), RelayHint::Nothing);
    assert_eq!(hub.relay_hint(&subscribe), RelayHint::Nothing);
    let route = HubRequest::Route { key: key("a", "b"), message: inter_frame(1) };
    assert_eq!(hub.relay_hint(&route), RelayHint::Nothing);
}
