//! What holds of the hub whatever the requests: laws over the registry as a
//! mathematical map.

use vstd::prelude::*;
use crate::channels::{
    fan, feed, lemma_without_no_duplicates, messages_to, routes, ChannelError, DeliveryView,
    HubNoticeView, HubRequestView, HubView, SessionHandle, StreamKeyView, opt_seq, CacheView,
    ChannelView, without,
};
use crate::message::MessageView;

verus! {

/// Every request takes a well-formed registry to a well-formed registry:
/// no subscriber is listed twice, no entry is left with nobody on it, and a
/// channel without a publisher has an empty cache.
pub proof fn step_preserves_wf(hub: HubView, request: HubRequestView)
    requires
        hub.wf(),
    ensures
        hub.step(request).wf(),
{
    let next = hub.step(request);
    match request {
        HubRequestView::RegisterPublisher { key, handle } => {
            assert forall|k: StreamKeyView| #[trigger]
                next.channels.contains_key(k) implies next.channels[k].wf() by {
                if k != key {
                    assert(hub.channels.contains_key(k));
                } else if hub.channels.contains_key(key) {
                }
            }
        },
        HubRequestView::RegisterSubscriber { key, handle } => {
            assert forall|k: StreamKeyView| #[trigger]
                next.channels.contains_key(k) implies next.channels[k].wf() by {
                if k != key {
                    assert(hub.channels.contains_key(k));
                } else {
                    let c = hub.channel(key);
                    assert(c.subscribers.no_duplicates());
                    if !c.subscribers.contains(handle) {
                        assert(c.subscribers.push(handle).last() == handle);
                    }
                }
            }
        },
        HubRequestView::Unregister { key, handle } => {
            assert forall|k: StreamKeyView| #[trigger]
                next.channels.contains_key(k) implies next.channels[k].wf() by {
                if k != key {
                    assert(hub.channels.contains_key(k));
                } else {
                    assert(hub.channels.contains_key(key));
                    lemma_without_no_duplicates(hub.channels[key].subscribers, handle);
                }
            }
        },
        HubRequestView::Route { key, message } => {
            assert forall|k: StreamKeyView| #[trigger]
                next.channels.contains_key(k) implies next.channels[k].wf() by {
                assert(hub.channels.contains_key(k));
            }
        },
    }
}

/// Every sequence of requests takes a well-formed registry to a well-formed
/// registry.
pub proof fn after_preserves_wf(hub: HubView, requests: Seq<HubRequestView>)
    requires
        hub.wf(),
    ensures
        hub.after(requests).wf(),
    decreases requests.len(),
{
    if requests.len() > 0 {
        step_preserves_wf(hub, requests.first());
        after_preserves_wf(hub.step(requests.first()), requests.drop_first());
    }
}

/// While `a` publishes under `key`, any request to publish under `key` is
/// refused with `ChannelConflict`, and `a` is still the publisher afterwards:
/// the registry is unchanged.
pub proof fn conflict_keeps_publisher(
    hub: HubView,
    key: StreamKeyView,
    a: SessionHandle,
    b: SessionHandle,
)
    requires
        hub.publisher(key) == Some(a),
    ensures
        hub.publish_result(key) == Err::<(), ChannelError>(ChannelError::ChannelConflict),
        hub.register_publisher(key, b) == hub,
        hub.register_publisher(key, b).publisher(key) == Some(a),
{
}

/// On a key without a publisher, a request to publish succeeds and makes the
/// caller the publisher; subscribers that were waiting stay.
pub proof fn publish_succeeds_on_free_key(hub: HubView, key: StreamKeyView, a: SessionHandle)
    requires
        hub.publisher(key) is None,
    ensures
        hub.publish_result(key) == Ok::<(), ChannelError>(()),
        hub.register_publisher(key, a).publisher(key) == Some(a),
        hub.register_publisher(key, a).subscribers(key) == hub.subscribers(key),
{
}

/// After the publisher of `key` has unregistered, the key has no publisher
/// and nothing cached. If no subscriber remains, the key has no entry at
/// all, and whoever registers on it next finds a fresh channel.
pub proof fn unregister_cleans_up(
    hub: HubView,
    key: StreamKeyView,
    p: SessionHandle,
    next: SessionHandle,
)
    requires
        hub.wf(),
        hub.publisher(key) == Some(p),
    ensures
        hub.unregister(key, p).publisher(key) is None,
        hub.unregister(key, p).replay(key) == Seq::<MessageView>::empty(),
        hub.unregister(key, p).subscribers(key) == without(hub.subscribers(key), p),
        without(hub.subscribers(key), p).len() == 0 ==> {
            &&& !hub.unregister(key, p).channels.contains_key(key)
            &&& hub.unregister(key, p).register_publisher(key, next).channel(key)
                == ChannelView::vacant().with_publisher(next)
            &&& hub.unregister(key, p).register_subscriber(key, next).channel(key)
                == ChannelView::vacant().with_subscriber(next)
        },
{
    let after = hub.unregister(key, p);
    assert(hub.channels.contains_key(key));
    assert(CacheView::empty().replay() =~= Seq::<MessageView>::empty());
}

/// The messages that go to `to` out of two runs of deliveries, one after the
/// other, are those of the first followed by those of the second.
pub proof fn messages_to_concat(a: Seq<DeliveryView>, b: Seq<DeliveryView>, to: SessionHandle)
    ensures
        messages_to(a + b, to) == messages_to(a, to) + messages_to(b, to),
    decreases b.len(),
{
    if b.len() == 0 {
        assert(a + b =~= a);
        assert(messages_to(a, to) + messages_to(b, to) =~= messages_to(a, to));
    } else {
        assert((a + b).drop_last() =~= a + b.drop_last());
        messages_to_concat(a, b.drop_last(), to);
        assert((a + b).last() == b.last());
        match b.last().notice {
            HubNoticeView::Message(m) if b.last().to == to => {
                assert(messages_to(a + b, to) =~= messages_to(a, to) + messages_to(b, to));
            },
            _ => {},
        }
    }
}

/// A message fanned out to a list without repetitions reaches each listed
/// session exactly once, and nobody else.
pub proof fn messages_to_fan(recipients: Seq<SessionHandle>, m: MessageView, to: SessionHandle)
    requires
        recipients.no_duplicates(),
    ensures
        messages_to(fan(recipients, HubNoticeView::Message(m)), to) == if recipients.contains(to) {
            seq![m]
        } else {
            Seq::empty()
        },
    decreases recipients.len(),
{
    let notice = HubNoticeView::Message(m);
    if recipients.len() > 0 {
        let front = recipients.drop_last();
        assert(fan(recipients, notice).drop_last() =~= fan(front, notice));
        messages_to_fan(front, m, to);
        if recipients.last() == to {
            if front.contains(to) {
                let i = choose|i: int| 0 <= i < front.len() && front[i] == to;
                assert(recipients[i] == recipients[recipients.len() - 1]);
            }
            assert(recipients[recipients.len() - 1] == to);
            assert(messages_to(fan(recipients, notice), to) =~= seq![m]);
        } else {
            if recipients.contains(to) {
                let i = choose|i: int| 0 <= i < recipients.len() && recipients[i] == to;
                assert(front[i] == to);
            }
            if front.contains(to) {
                let i = choose|i: int| 0 <= i < front.len() && front[i] == to;
                assert(recipients[i] == to);
            }
        }
    }
}

/// A notice that is no message adds nothing to what a session is sent.
pub proof fn messages_to_stream_end(recipients: Seq<SessionHandle>, to: SessionHandle)
    ensures
        messages_to(fan(recipients, HubNoticeView::StreamEnded), to) == Seq::<MessageView>::empty(),
    decreases recipients.len(),
{
    if recipients.len() > 0 {
        assert(fan(recipients, HubNoticeView::StreamEnded).drop_last() =~= fan(
            recipients.drop_last(),
            HubNoticeView::StreamEnded,
        ));
        messages_to_stream_end(recipients.drop_last(), to);
    }
}

/// Messages fed to one session reach that session, all of them and in order.
pub proof fn messages_to_feed(messages: Seq<MessageView>, to: SessionHandle)
    ensures
        messages_to(feed(to, messages), to) == messages,
    decreases messages.len(),
{
    if messages.len() > 0 {
        assert(feed(to, messages).drop_last() =~= feed(to, messages.drop_last()));
        messages_to_feed(messages.drop_last(), to);
        assert(messages_to(feed(to, messages), to) =~= messages);
    } else {
        assert(messages =~= Seq::<MessageView>::empty());
    }
}

/// Fan-out preserves order: whatever a publisher routes under `key`, every
/// session that subscribes to `key` throughout is sent exactly those
/// messages, in the order in which they were routed.
pub proof fn fan_out_in_order(
    hub: HubView,
    key: StreamKeyView,
    messages: Seq<MessageView>,
    subscriber: SessionHandle,
)
    requires
        hub.wf(),
        hub.subscribers(key).contains(subscriber),
    ensures
        messages_to(hub.run(routes(key, messages)), subscriber) == messages,
        hub.after(routes(key, messages)).subscribers(key) == hub.subscribers(key),
    decreases messages.len(),
{
    let requests = routes(key, messages);
    if messages.len() == 0 {
        assert(messages =~= Seq::<MessageView>::empty());
    } else {
        let m = messages.first();
        let next = hub.route(key, m);
        assert(requests.first() == HubRequestView::Route { key, message: m });
        assert(requests.drop_first() =~= routes(key, messages.drop_first()));
        step_preserves_wf(hub, requests.first());
        assert(hub.channels.contains_key(key));
        assert(next.subscribers(key) == hub.subscribers(key));
        fan_out_in_order(next, key, messages.drop_first(), subscriber);
        let now = fan(hub.subscribers(key), HubNoticeView::Message(m));
        let later = next.run(routes(key, messages.drop_first()));
        messages_to_concat(now, later, subscriber);
        messages_to_fan(hub.subscribers(key), m, subscriber);
        assert(seq![m] + messages.drop_first() =~= messages);
    }
}

/// A late joiner is sent the cache first: if the publisher of `key` has sent
/// a video sequence header and then a key frame, a session that subscribes
/// afterwards is sent the header, the cached audio sequence header if there
/// is one, and the key frame, and only then the next live message.
pub proof fn late_joiner_gets_cache_first(
    hub: HubView,
    key: StreamKeyView,
    header: MessageView,
    frame: MessageView,
    joiner: SessionHandle,
    live: MessageView,
)
    requires
        hub.wf(),
        hub.publisher(key) is Some,
        !hub.subscribers(key).contains(joiner),
        header.is_video_sequence_header(),
        frame.is_video_keyframe(),
        !frame.is_video_sequence_header(),
    ensures
        messages_to(
            hub.run(
                seq![
                    HubRequestView::Route { key, message: header },
                    HubRequestView::Route { key, message: frame },
                    HubRequestView::RegisterSubscriber { key, handle: joiner },
                    HubRequestView::Route { key, message: live },
                ],
            ),
            joiner,
        ) == seq![header] + opt_seq(hub.channel(key).cache.audio_sequence_header) + seq![
            frame,
            live,
        ],
{
    let r0 = HubRequestView::Route { key, message: header };
    let r1 = HubRequestView::Route { key, message: frame };
    let r2 = HubRequestView::RegisterSubscriber { key, handle: joiner };
    let r3 = HubRequestView::Route { key, message: live };
    let requests = seq![r0, r1, r2, r3];
    let h0 = hub;
    let h1 = h0.step(r0);
    let h2 = h1.step(r1);
    let h3 = h2.step(r2);
    let h4 = h3.step(r3);
    step_preserves_wf(h0, r0);
    step_preserves_wf(h1, r1);
    step_preserves_wf(h2, r2);
    assert(h0.channels.contains_key(key));
    assert(h1.channels.contains_key(key));
    assert(h2.channels.contains_key(key));
    let d0 = h0.deliveries(r0);
    let d1 = h1.deliveries(r1);
    let d2 = h2.deliveries(r2);
    let d3 = h3.deliveries(r3);
    let t1 = requests.drop_first();
    let t2 = t1.drop_first();
    let t3 = t2.drop_first();
    let t4 = t3.drop_first();
    assert(t1 =~= seq![r1, r2, r3]);
    assert(t2 =~= seq![r2, r3]);
    assert(t3 =~= seq![r3]);
    assert(t4 =~= Seq::<HubRequestView>::empty());
    assert(h4.run(t4) =~= Seq::<DeliveryView>::empty());
    assert(h3.run(t3) =~= d3) by {
        assert(t3.first() == r3);
        assert(h3.run(t3) == d3 + h4.run(t4));
    }
    assert(h2.run(t2) == d2 + d3) by {
        assert(t2.first() == r2);
    }
    assert(h1.run(t1) == d1 + (d2 + d3)) by {
        assert(t1.first() == r1);
    }
    assert(h0.run(requests) == d0 + (d1 + (d2 + d3))) by {
        assert(requests.first() == r0);
    }
    messages_to_concat(d0, d1 + (d2 + d3), joiner);
    messages_to_concat(d1, d2 + d3, joiner);
    messages_to_concat(d2, d3, joiner);
    let subs = hub.subscribers(key);
    assert(h1.subscribers(key) == subs);
    assert(h2.subscribers(key) == subs);
    assert(h3.subscribers(key) == subs.push(joiner));
    messages_to_fan(subs, header, joiner);
    messages_to_fan(subs, frame, joiner);
    messages_to_feed(h2.replay(key), joiner);
    messages_to_fan(subs.push(joiner), live, joiner);
    assert(subs.push(joiner)[subs.len() as int] == joiner);
    let audio = opt_seq(hub.channel(key).cache.audio_sequence_header);
    assert(h2.replay(key) =~= seq![header] + audio + seq![frame]);
    assert(Seq::<MessageView>::empty() + (Seq::<MessageView>::empty() + (h2.replay(key)
        + seq![live])) =~= seq![header] + audio + seq![frame, live]);
}

} // verus!
