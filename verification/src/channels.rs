//! The channel hub: a registry from stream key to one publisher and any
//! number of subscribers.
//!
//! The hub owns no sockets and no queues. Every operation takes the current
//! registry to the next one and hands back what its caller has to deliver:
//! the cached messages for a late joiner, the recipients of a routed message,
//! the sessions to tell that a stream has ended.

use vstd::prelude::*;
use crate::message::{copy_bytes, same_bytes, view_opt, views, MessageView, RtmpMessage};

verus! {

/// The identity of a live stream: application name and stream name, each
/// the byte string that came over the wire.
#[derive(Debug, PartialEq, Eq)]
pub struct StreamKey {
    pub app_name: Vec<u8>,
    pub stream_name: Vec<u8>,
}

pub ghost struct StreamKeyView {
    pub app_name: Seq<u8>,
    pub stream_name: Seq<u8>,
}

impl View for StreamKey {
    type V = StreamKeyView;

    open spec fn view(&self) -> StreamKeyView {
        StreamKeyView { app_name: self.app_name@, stream_name: self.stream_name@ }
    }
}

impl Clone for StreamKey {
    fn clone(&self) -> (copy: Self)
        ensures
            copy@ == self@,
    {
        StreamKey {
            app_name: copy_bytes(&self.app_name),
            stream_name: copy_bytes(&self.stream_name),
        }
    }
}

impl StreamKey {
    pub fn new(app_name: Vec<u8>, stream_name: Vec<u8>) -> (key: Self)
        ensures
            key@ == (StreamKeyView { app_name: app_name@, stream_name: stream_name@ }),
    {
        StreamKey { app_name, stream_name }
    }

    /// Whether both names agree.
    pub fn same(&self, other: &StreamKey) -> (b: bool)
        ensures
            b == (self@ == other@),
    {
        same_bytes(&self.app_name, &other.app_name) && same_bytes(
            &self.stream_name,
            &other.stream_name,
        )
    }
}

/// The address of one session's inbound event queue. The hub never looks
/// behind it.
#[derive(Debug, Copy, Clone, PartialEq, Eq, Structural)]
pub struct SessionHandle {
    pub id: u64,
}

#[derive(Debug, Copy, Clone, PartialEq, Eq, Structural)]
pub enum ChannelError {
    /// A publisher is already registered under the key.
    ChannelConflict,
}

/// What a late joiner needs to start decoding in the middle of a stream.
pub ghost struct CacheView {
    pub video_sequence_header: Option<MessageView>,
    pub audio_sequence_header: Option<MessageView>,
    pub keyframe: Option<MessageView>,
}

impl CacheView {
    pub open spec fn empty() -> CacheView {
        CacheView { video_sequence_header: None, audio_sequence_header: None, keyframe: None }
    }

    /// The cache after the publisher has sent `m`: the most recent sequence
    /// header of each kind and the most recent key frame are kept.
    pub open spec fn observe(self, m: MessageView) -> CacheView {
        if m.is_video_sequence_header() {
            CacheView { video_sequence_header: Some(m), ..self }
        } else if m.is_audio_sequence_header() {
            CacheView { audio_sequence_header: Some(m), ..self }
        } else if m.is_video_keyframe() {
            CacheView { keyframe: Some(m), ..self }
        } else {
            self
        }
    }

    /// The cached messages in the order a late joiner receives them: video
    /// sequence header, audio sequence header, key frame.
    pub open spec fn replay(self) -> Seq<MessageView> {
        opt_seq(self.video_sequence_header) + opt_seq(self.audio_sequence_header) + opt_seq(
            self.keyframe,
        )
    }
}

/// The sequence of zero or one message.
pub open spec fn opt_seq(m: Option<MessageView>) -> Seq<MessageView> {
    match m {
        Some(m) => seq![m],
        None => Seq::empty(),
    }
}

/// `s` without every occurrence of `h`, the rest in order.
pub open spec fn without(s: Seq<SessionHandle>, h: SessionHandle) -> Seq<SessionHandle>
    decreases s.len(),
{
    if s.len() == 0 {
        s
    } else if s.last() == h {
        without(s.drop_last(), h)
    } else {
        without(s.drop_last(), h).push(s.last())
    }
}

pub ghost struct ChannelView {
    pub publisher: Option<SessionHandle>,
    /// In the order of registration, each handle once.
    pub subscribers: Seq<SessionHandle>,
    pub cache: CacheView,
}

impl ChannelView {
    /// The channel of a key that nobody has registered on.
    pub open spec fn vacant() -> ChannelView {
        ChannelView { publisher: None, subscribers: Seq::empty(), cache: CacheView::empty() }
    }

    /// Nobody publishes and nobody listens: the entry is to be dropped.
    pub open spec fn is_garbage(self) -> bool {
        self.publisher is None && self.subscribers.len() == 0
    }

    pub open spec fn wf(self) -> bool {
        &&& self.subscribers.no_duplicates()
        &&& !self.is_garbage()
        &&& self.publisher is None ==> self.cache == CacheView::empty()
    }

    pub open spec fn with_publisher(self, h: SessionHandle) -> ChannelView {
        ChannelView { publisher: Some(h), ..self }
    }

    pub open spec fn with_subscriber(self, h: SessionHandle) -> ChannelView {
        if self.subscribers.contains(h) {
            self
        } else {
            ChannelView { subscribers: self.subscribers.push(h), ..self }
        }
    }

    /// The channel after `h` has left it, as publisher, as subscriber, or as
    /// both. When the publisher leaves, the cache goes with it.
    pub open spec fn leave(self, h: SessionHandle) -> ChannelView {
        if self.publisher == Some(h) {
            ChannelView {
                publisher: None,
                subscribers: without(self.subscribers, h),
                cache: CacheView::empty(),
            }
        } else {
            ChannelView { subscribers: without(self.subscribers, h), ..self }
        }
    }

    /// The channel after its publisher has sent `m`.
    pub open spec fn observe(self, m: MessageView) -> ChannelView {
        if self.publisher is Some {
            ChannelView { cache: self.cache.observe(m), ..self }
        } else {
            self
        }
    }
}

/// The registry as a mathematical map, with the process-wide feature flags.
pub ghost struct HubView {
    pub channels: Map<StreamKeyView, ChannelView>,
    pub hls_enabled: bool,
    pub rtmp_push_enabled: bool,
    pub rtmp_pull_enabled: bool,
}

impl HubView {
    pub open spec fn empty() -> HubView {
        HubView {
            channels: Map::empty(),
            hls_enabled: false,
            rtmp_push_enabled: false,
            rtmp_pull_enabled: false,
        }
    }

    pub open spec fn wf(self) -> bool {
        forall|k: StreamKeyView| #[trigger]
            self.channels.contains_key(k) ==> self.channels[k].wf()
    }

    /// The channel under `key`; vacant if there is no entry.
    pub open spec fn channel(self, key: StreamKeyView) -> ChannelView {
        if self.channels.contains_key(key) {
            self.channels[key]
        } else {
            ChannelView::vacant()
        }
    }

    pub open spec fn publisher(self, key: StreamKeyView) -> Option<SessionHandle> {
        self.channel(key).publisher
    }

    pub open spec fn subscribers(self, key: StreamKeyView) -> Seq<SessionHandle> {
        self.channel(key).subscribers
    }

    /// The registry with `c` under `key`, or without an entry for `key` if `c`
    /// is garbage.
    pub open spec fn put(self, key: StreamKeyView, c: ChannelView) -> HubView {
        if c.is_garbage() {
            HubView { channels: self.channels.remove(key), ..self }
        } else {
            HubView { channels: self.channels.insert(key, c), ..self }
        }
    }

    /// The outcome of a publisher's registration: a conflict exactly when the
    /// key has a publisher already.
    pub open spec fn publish_result(self, key: StreamKeyView) -> Result<(), ChannelError> {
        if self.publisher(key) is Some {
            Err(ChannelError::ChannelConflict)
        } else {
            Ok(())
        }
    }

    /// The registry after `h` has asked to publish under `key`: unchanged on a
    /// conflict.
    pub open spec fn register_publisher(self, key: StreamKeyView, h: SessionHandle) -> HubView {
        if self.publisher(key) is Some {
            self
        } else {
            self.put(key, self.channel(key).with_publisher(h))
        }
    }

    pub open spec fn register_subscriber(self, key: StreamKeyView, h: SessionHandle) -> HubView {
        self.put(key, self.channel(key).with_subscriber(h))
    }

    /// What a subscriber that registers now is sent before any live message.
    pub open spec fn replay(self, key: StreamKeyView) -> Seq<MessageView> {
        self.channel(key).cache.replay()
    }

    pub open spec fn unregister(self, key: StreamKeyView, h: SessionHandle) -> HubView {
        if self.channels.contains_key(key) {
            self.put(key, self.channels[key].leave(h))
        } else {
            self
        }
    }

    /// The sessions to tell that the stream has ended when `h` leaves `key`:
    /// the remaining subscribers if `h` was the publisher, else nobody.
    pub open spec fn stream_end_notices(self, key: StreamKeyView, h: SessionHandle) -> Seq<
        SessionHandle,
    > {
        if self.publisher(key) == Some(h) {
            without(self.subscribers(key), h)
        } else {
            Seq::empty()
        }
    }

    /// The registry after the publisher of `key` has sent `m`.
    pub open spec fn route(self, key: StreamKeyView, m: MessageView) -> HubView {
        if self.channels.contains_key(key) {
            HubView { channels: self.channels.insert(key, self.channels[key].observe(m)), ..self }
        } else {
            self
        }
    }
}

/// The sequence-header and key-frame cache of one channel.
pub struct StreamCache {
    video_sequence_header: Option<RtmpMessage>,
    audio_sequence_header: Option<RtmpMessage>,
    keyframe: Option<RtmpMessage>,
}

impl View for StreamCache {
    type V = CacheView;

    closed spec fn view(&self) -> CacheView {
        CacheView {
            video_sequence_header: view_opt(self.video_sequence_header),
            audio_sequence_header: view_opt(self.audio_sequence_header),
            keyframe: view_opt(self.keyframe),
        }
    }
}

/// One entry of the registry.
pub struct Channel {
    key: StreamKey,
    publisher: Option<SessionHandle>,
    subscribers: Vec<SessionHandle>,
    cache: StreamCache,
}

impl View for Channel {
    type V = ChannelView;

    closed spec fn view(&self) -> ChannelView {
        ChannelView {
            publisher: self.publisher,
            subscribers: self.subscribers@,
            cache: self.cache@,
        }
    }
}

/// The map that a list of entries stands for; a later entry wins.
spec fn channels_map(s: Seq<Channel>) -> Map<StreamKeyView, ChannelView>
    decreases s.len(),
{
    if s.len() == 0 {
        Map::empty()
    } else {
        channels_map(s.drop_last()).insert(s.last().key@, s.last()@)
    }
}

spec fn unique_keys(s: Seq<Channel>) -> bool {
    forall|i: int, j: int| 0 <= i < j < s.len() ==> s[i].key@ != s[j].key@
}

proof fn lemma_channels_map_dom(s: Seq<Channel>, k: StreamKeyView)
    ensures
        channels_map(s).contains_key(k) <==> exists|i: int| 0 <= i < s.len() && s[i].key@ == k,
    decreases s.len(),
{
    if s.len() > 0 {
        lemma_channels_map_dom(s.drop_last(), k);
        if channels_map(s).contains_key(k) {
            if s.last().key@ == k {
                assert(s[s.len() - 1].key@ == k);
            } else {
                let i = choose|i: int| 0 <= i < s.drop_last().len() && s.drop_last()[i].key@ == k;
                assert(s[i].key@ == k);
            }
        }
        if exists|i: int| 0 <= i < s.len() && s[i].key@ == k {
            let i = choose|i: int| 0 <= i < s.len() && s[i].key@ == k;
            if i < s.len() - 1 {
                assert(s.drop_last()[i].key@ == k);
            }
        }
    }
}

proof fn lemma_channels_map_lookup(s: Seq<Channel>, i: int)
    requires
        unique_keys(s),
        0 <= i < s.len(),
    ensures
        channels_map(s).contains_key(s[i].key@),
        channels_map(s)[s[i].key@] == s[i]@,
    decreases s.len(),
{
    if i < s.len() - 1 {
        assert(s.drop_last()[i] == s[i]);
        lemma_channels_map_lookup(s.drop_last(), i);
    }
}

proof fn lemma_channels_map_push(s: Seq<Channel>, c: Channel)
    ensures
        channels_map(s.push(c)) == channels_map(s).insert(c.key@, c@),
{
    assert(s.push(c).drop_last() =~= s);
}

proof fn lemma_channels_map_remove(s: Seq<Channel>, i: int)
    requires
        unique_keys(s),
        0 <= i < s.len(),
    ensures
        channels_map(s.remove(i)) == channels_map(s).remove(s[i].key@),
        unique_keys(s.remove(i)),
    decreases s.len(),
{
    let k = s[i].key@;
    let front = s.drop_last();
    if i == s.len() - 1 {
        assert(s.remove(i) =~= front);
        lemma_channels_map_dom(front, k);
        assert(channels_map(s).remove(k) =~= channels_map(front));
    } else {
        assert(front[i] == s[i]);
        lemma_channels_map_remove(front, i);
        assert(s.remove(i) =~= front.remove(i).push(s.last()));
        lemma_channels_map_push(front.remove(i), s.last());
        assert(channels_map(s).remove(k) =~= channels_map(front).remove(k).insert(
            s.last().key@,
            s.last()@,
        ));
    }
}

proof fn lemma_unique_keys_push(s: Seq<Channel>, c: Channel)
    requires
        unique_keys(s),
        !channels_map(s).contains_key(c.key@),
    ensures
        unique_keys(s.push(c)),
{
    assert forall|i: int, j: int| 0 <= i < j < s.push(c).len() implies s.push(c)[i].key@
        != s.push(c)[j].key@ by {
        if j == s.len() {
            lemma_channels_map_dom(s, c.key@);
        }
    }
}

pub proof fn lemma_without_members(s: Seq<SessionHandle>, h: SessionHandle)
    ensures
        forall|x: SessionHandle| #[trigger]
            without(s, h).contains(x) <==> s.contains(x) && x != h,
    decreases s.len(),
{
    if s.len() > 0 {
        let front = s.drop_last();
        lemma_without_members(front, h);
        assert forall|x: SessionHandle| #[trigger]
            without(s, h).contains(x) <==> s.contains(x) && x != h by {
            if without(s, h).contains(x) {
                let i = choose|i: int| 0 <= i < without(s, h).len() && without(s, h)[i] == x;
                if s.last() != h && i == without(front, h).len() {
                    assert(s[s.len() - 1] == x);
                } else {
                    assert(without(front, h)[i] == x);
                    assert(without(front, h).contains(x));
                    let j = choose|j: int| 0 <= j < front.len() && front[j] == x;
                    assert(s[j] == x);
                }
            }
            if s.contains(x) && x != h {
                let j = choose|j: int| 0 <= j < s.len() && s[j] == x;
                if j == s.len() - 1 {
                    assert(without(s, h)[without(front, h).len() as int] == x);
                } else {
                    assert(front[j] == x);
                    assert(front.contains(x));
                    assert(without(front, h).contains(x));
                    let i = choose|i: int|
                        0 <= i < without(front, h).len() && without(front, h)[i] == x;
                    assert(without(s, h)[i] == x);
                }
            }
        }
    }
}

pub proof fn lemma_without_no_duplicates(s: Seq<SessionHandle>, h: SessionHandle)
    requires
        s.no_duplicates(),
    ensures
        without(s, h).no_duplicates(),
    decreases s.len(),
{
    if s.len() > 0 {
        let front = s.drop_last();
        lemma_without_no_duplicates(front, h);
        lemma_without_members(front, h);
        if s.last() != h {
            let w = without(front, h);
            assert forall|i: int, j: int|
                0 <= i < without(s, h).len() && 0 <= j < without(s, h).len() && i
                    != j implies without(s, h)[i] != without(s, h)[j] by {
                if i == w.len() {
                    if w[j] == s.last() {
                        assert(w.contains(s.last()));
                        let m = choose|m: int| 0 <= m < front.len() && front[m] == s.last();
                        assert(s[m] == s[s.len() - 1]);
                    }
                } else if j == w.len() {
                    if w[i] == s.last() {
                        assert(w.contains(s.last()));
                        let m = choose|m: int| 0 <= m < front.len() && front[m] == s.last();
                        assert(s[m] == s[s.len() - 1]);
                    }
                }
            }
        }
    }
}

fn contains_handle(s: &Vec<SessionHandle>, h: SessionHandle) -> (b: bool)
    ensures
        b == s@.contains(h),
{
    let mut i: usize = 0;
    while i < s.len()
        invariant
            i <= s@.len(),
            forall|j: int| 0 <= j < i ==> s@[j] != h,
        decreases s@.len() - i,
    {
        if s[i] == h {
            return true;
        }
        i += 1;
    }
    false
}

fn copy_handles(s: &Vec<SessionHandle>) -> (copy: Vec<SessionHandle>)
    ensures
        copy@ == s@,
{
    let mut copy: Vec<SessionHandle> = Vec::new();
    let mut i: usize = 0;
    while i < s.len()
        invariant
            i <= s@.len(),
            copy@ == s@.take(i as int),
        decreases s@.len() - i,
    {
        copy.push(s[i]);
        assert(s@.take(i + 1) =~= s@.take(i as int).push(s@[i as int]));
        i += 1;
    }
    assert(s@.take(s@.len() as int) =~= s@);
    copy
}

fn handles_without(s: &Vec<SessionHandle>, h: SessionHandle) -> (rest: Vec<SessionHandle>)
    ensures
        rest@ == without(s@, h),
{
    let mut rest: Vec<SessionHandle> = Vec::new();
    let mut i: usize = 0;
    while i < s.len()
        invariant
            i <= s@.len(),
            rest@ == without(s@.take(i as int), h),
        decreases s@.len() - i,
    {
        assert(s@.take(i + 1).drop_last() =~= s@.take(i as int));
        if s[i] != h {
            rest.push(s[i]);
        }
        i += 1;
    }
    assert(s@.take(s@.len() as int) =~= s@);
    rest
}

impl StreamCache {
    fn new() -> (cache: Self)
        ensures
            cache@ == CacheView::empty(),
    {
        StreamCache { video_sequence_header: None, audio_sequence_header: None, keyframe: None }
    }

    fn observe(&mut self, m: &RtmpMessage)
        ensures
            final(self)@ == old(self)@.observe(m@),
    {
        if m.is_video_sequence_header() {
            self.video_sequence_header = Some(m.clone());
        } else if m.is_audio_sequence_header() {
            self.audio_sequence_header = Some(m.clone());
        } else if m.is_video_keyframe() {
            self.keyframe = Some(m.clone());
        }
    }

    fn replay(&self) -> (out: Vec<RtmpMessage>)
        ensures
            views(out@) == self@.replay(),
    {
        let mut out: Vec<RtmpMessage> = Vec::new();
        assert(views(out@) =~= Seq::<MessageView>::empty());
        if let Some(m) = &self.video_sequence_header {
            out.push(m.clone());
        }
        assert(views(out@) =~= opt_seq(self@.video_sequence_header));
        if let Some(m) = &self.audio_sequence_header {
            out.push(m.clone());
        }
        assert(views(out@) =~= opt_seq(self@.video_sequence_header) + opt_seq(
            self@.audio_sequence_header,
        ));
        if let Some(m) = &self.keyframe {
            out.push(m.clone());
        }
        assert(views(out@) =~= self@.replay());
        out
    }
}

/// The hub: every live channel, and the process-wide feature flags.
pub struct ChannelsManager {
    channels: Vec<Channel>,
    hls_enabled: bool,
    rtmp_push_enabled: bool,
    rtmp_pull_enabled: bool,
}

impl View for ChannelsManager {
    type V = HubView;

    closed spec fn view(&self) -> HubView {
        HubView {
            channels: channels_map(self.channels@),
            hls_enabled: self.hls_enabled,
            rtmp_push_enabled: self.rtmp_push_enabled,
            rtmp_pull_enabled: self.rtmp_pull_enabled,
        }
    }
}

impl ChannelsManager {
    /// The representation invariant: one entry per key, and every entry well
    /// formed.
    pub closed spec fn wf(&self) -> bool {
        &&& unique_keys(self.channels@)
        &&& self@.wf()
    }

    /// Every registry that the operations can reach is well formed as a map.
    pub proof fn lemma_wf_view(&self)
        requires
            self.wf(),
        ensures
            self@.wf(),
    {
    }

    /// An empty registry with every feature flag off.
    pub fn new() -> (hub: Self)
        ensures
            hub.wf(),
            hub@ == HubView::empty(),
    {
        ChannelsManager {
            channels: Vec::new(),
            hls_enabled: false,
            rtmp_push_enabled: false,
            rtmp_pull_enabled: false,
        }
    }

    pub fn set_hls_enabled(&mut self, enabled: bool)
        requires
            old(self).wf(),
        ensures
            final(self).wf(),
            final(self)@ == (HubView { hls_enabled: enabled, ..old(self)@ }),
    {
        self.hls_enabled = enabled;
    }

    pub fn set_rtmp_push_enabled(&mut self, enabled: bool)
        requires
            old(self).wf(),
        ensures
            final(self).wf(),
            final(self)@ == (HubView { rtmp_push_enabled: enabled, ..old(self)@ }),
    {
        self.rtmp_push_enabled = enabled;
    }

    pub fn set_rtmp_pull_enabled(&mut self, enabled: bool)
        requires
            old(self).wf(),
        ensures
            final(self).wf(),
            final(self)@ == (HubView { rtmp_pull_enabled: enabled, ..old(self)@ }),
    {
        self.rtmp_pull_enabled = enabled;
    }

    pub fn hls_enabled(&self) -> (b: bool)
        ensures
            b == self@.hls_enabled,
    {
        self.hls_enabled
    }

    pub fn rtmp_push_enabled(&self) -> (b: bool)
        ensures
            b == self@.rtmp_push_enabled,
    {
        self.rtmp_push_enabled
    }

    pub fn rtmp_pull_enabled(&self) -> (b: bool)
        ensures
            b == self@.rtmp_pull_enabled,
    {
        self.rtmp_pull_enabled
    }

    /// The position of the entry for `key`.
    fn find(&self, key: &StreamKey) -> (found: Option<usize>)
        requires
            self.wf(),
        ensures
            match found {
                Some(i) => {
                    &&& i < self.channels@.len()
                    &&& self.channels@[i as int].key@ == key@
                    &&& self@.channels.contains_key(key@)
                    &&& self@.channels[key@] == self.channels@[i as int]@
                },
                None => !self@.channels.contains_key(key@),
            },
    {
        let mut i: usize = 0;
        while i < self.channels.len()
            invariant
                self.wf(),
                i <= self.channels@.len(),
                forall|j: int| 0 <= j < i ==> self.channels@[j].key@ != key@,
            decreases self.channels@.len() - i,
        {
            if self.channels[i].key.same(key) {
                proof {
                    lemma_channels_map_lookup(self.channels@, i as int);
                }
                return Some(i);
            }
            i += 1;
        }
        proof {
            lemma_channels_map_dom(self.channels@, key@);
        }
        None
    }

    /// Takes the entry at `i` out of the registry.
    fn take(&mut self, i: usize) -> (c: Channel)
        requires
            old(self).wf(),
            i < old(self).channels@.len(),
        ensures
            final(self).wf(),
            c == old(self).channels@[i as int],
            old(self)@.channels.contains_key(c.key@),
            c@ == old(self)@.channels[c.key@],
            c@.wf(),
            final(self)@ == (HubView {
                channels: old(self)@.channels.remove(c.key@),
                ..old(self)@
            }),
    {
        proof {
            lemma_channels_map_remove(self.channels@, i as int);
            lemma_channels_map_lookup(self.channels@, i as int);
        }
        let c = self.channels.remove(i);
        proof {
            let before = old(self)@.channels;
            assert forall|k: StreamKeyView| #[trigger]
                before.remove(c.key@).contains_key(k) implies before.remove(c.key@)[k].wf() by {
                assert(before.contains_key(k));
            }
        }
        c
    }

    /// Puts `c` under its key, which has no entry; a garbage `c` is dropped.
    fn put(&mut self, c: Channel)
        requires
            old(self).wf(),
            !old(self)@.channels.contains_key(c.key@),
            c@.is_garbage() || c@.wf(),
        ensures
            final(self).wf(),
            final(self)@ == old(self)@.put(c.key@, c@),
    {
        if c.publisher.is_none() && c.subscribers.len() == 0 {
            assert(self@.channels.remove(c.key@) =~= self@.channels);
        } else {
            proof {
                lemma_channels_map_push(self.channels@, c);
                lemma_unique_keys_push(self.channels@, c);
            }
            self.channels.push(c);
        }
    }

    /// Registers `handle` as the publisher of `key`.
    ///
    /// Fails with `ChannelConflict` exactly when the key has a publisher
    /// already; the registry is then left as it was.
    pub fn register_publisher(&mut self, key: &StreamKey, handle: SessionHandle) -> (result: Result<
        (),
        ChannelError,
    >)
        requires
            old(self).wf(),
        ensures
            final(self).wf(),
            result == old(self)@.publish_result(key@),
            final(self)@ == old(self)@.register_publisher(key@, handle),
    {
        match self.find(key) {
            Some(i) => {
                if self.channels[i].publisher.is_some() {
                    return Err(ChannelError::ChannelConflict);
                }
                let mut c = self.take(i);
                c.publisher = Some(handle);
                self.put(c);
                assert(final(self)@.channels =~= old(self)@.register_publisher(
                    key@,
                    handle,
                ).channels);
                Ok(())
            },
            None => {
                let c = Channel {
                    key: key.clone(),
                    publisher: Some(handle),
                    subscribers: Vec::new(),
                    cache: StreamCache::new(),
                };
                self.put(c);
                Ok(())
            },
        }
    }
    /// Registers `handle` as a subscriber of `key`; the channel is created if
    /// there is none. This always succeeds.
    ///
    /// Returns the cached messages that the new subscriber is to be sent
    /// before any live one.
    pub fn register_subscriber(&mut self, key: &StreamKey, handle: SessionHandle) -> (replay: Vec<
        RtmpMessage,
    >)
        requires
            old(self).wf(),
        ensures
            final(self).wf(),
            final(self)@ == old(self)@.register_subscriber(key@, handle),
            views(replay@) == old(self)@.replay(key@),
    {
        match self.find(key) {
            Some(i) => {
                let mut c = self.take(i);
                let replay = c.cache.replay();
                if !contains_handle(&c.subscribers, handle) {
                    c.subscribers.push(handle);
                }
                self.put(c);
                assert(final(self)@.channels =~= old(self)@.register_subscriber(
                    key@,
                    handle,
                ).channels);
                replay
            },
            None => {
                let mut subscribers: Vec<SessionHandle> = Vec::new();
                subscribers.push(handle);
                let c = Channel {
                    key: key.clone(),
                    publisher: None,
                    subscribers,
                    cache: StreamCache::new(),
                };
                assert(!Seq::<SessionHandle>::empty().contains(handle));
                self.put(c);
                let replay: Vec<RtmpMessage> = Vec::new();
                assert(views(replay@) =~= CacheView::empty().replay());
                replay
            },
        }
    }

    /// Removes `handle` from `key`, whether it publishes, subscribes or both.
    ///
    /// If the publisher leaves, the channel's cache is cleared and the
    /// remaining subscribers are returned: each is to be told that the stream
    /// has ended. An entry that is left with nobody on it is dropped.
    pub fn unregister(&mut self, key: &StreamKey, handle: SessionHandle) -> (notices: Vec<
        SessionHandle,
    >)
        requires
            old(self).wf(),
        ensures
            final(self).wf(),
            final(self)@ == old(self)@.unregister(key@, handle),
            notices@ == old(self)@.stream_end_notices(key@, handle),
    {
        match self.find(key) {
            Some(i) => {
                let mut c = self.take(i);
                let rest = handles_without(&c.subscribers, handle);
                proof {
                    lemma_without_no_duplicates(c.subscribers@, handle);
                }
                let was_publisher = match c.publisher {
                    Some(p) => p == handle,
                    None => false,
                };
                let notices = if was_publisher {
                    c.publisher = None;
                    c.cache = StreamCache::new();
                    copy_handles(&rest)
                } else {
                    Vec::new()
                };
                c.subscribers = rest;
                self.put(c);
                assert(final(self)@.channels =~= old(self)@.unregister(key@, handle).channels);
                notices
            },
            None => Vec::new(),
        }
    }

    /// Routes one message of the publisher of `key`.
    ///
    /// Returns the subscribers that the message is to be delivered to, in the
    /// order in which they registered. The channel remembers the message if
    /// it is a sequence header or a key frame.
    pub fn route(&mut self, key: &StreamKey, message: &RtmpMessage) -> (recipients: Vec<
        SessionHandle,
    >)
        requires
            old(self).wf(),
        ensures
            final(self).wf(),
            final(self)@ == old(self)@.route(key@, message@),
            recipients@ == old(self)@.subscribers(key@),
    {
        match self.find(key) {
            Some(i) => {
                let mut c = self.take(i);
                let recipients = copy_handles(&c.subscribers);
                if c.publisher.is_some() {
                    c.cache.observe(message);
                }
                self.put(c);
                assert(final(self)@.channels =~= old(self)@.route(key@, message@).channels);
                recipients
            },
            None => Vec::new(),
        }
    }

    /// The publisher registered under `key`, if any.
    pub fn publisher(&self, key: &StreamKey) -> (p: Option<SessionHandle>)
        requires
            self.wf(),
        ensures
            p == self@.publisher(key@),
    {
        match self.find(key) {
            Some(i) => self.channels[i].publisher,
            None => None,
        }
    }

    /// The subscribers registered under `key`, in the order of registration.
    pub fn subscribers(&self, key: &StreamKey) -> (s: Vec<SessionHandle>)
        requires
            self.wf(),
        ensures
            s@ == self@.subscribers(key@),
    {
        match self.find(key) {
            Some(i) => copy_handles(&self.channels[i].subscribers),
            None => Vec::new(),
        }
    }

    /// Whether the registry has an entry for `key`.
    pub fn has_channel(&self, key: &StreamKey) -> (b: bool)
        requires
            self.wf(),
        ensures
            b == self@.channels.contains_key(key@),
    {
        self.find(key).is_some()
    }
}

/// A request to the hub. Sessions never touch the registry; they send one
/// of these and act on what comes back.
#[derive(Debug)]
pub enum HubRequest {
    RegisterPublisher { key: StreamKey, handle: SessionHandle },
    RegisterSubscriber { key: StreamKey, handle: SessionHandle },
    Unregister { key: StreamKey, handle: SessionHandle },
    Route { key: StreamKey, message: RtmpMessage },
}

pub ghost enum HubRequestView {
    RegisterPublisher { key: StreamKeyView, handle: SessionHandle },
    RegisterSubscriber { key: StreamKeyView, handle: SessionHandle },
    Unregister { key: StreamKeyView, handle: SessionHandle },
    Route { key: StreamKeyView, message: MessageView },
}

impl View for HubRequest {
    type V = HubRequestView;

    open spec fn view(&self) -> HubRequestView {
        match *self {
            HubRequest::RegisterPublisher { key, handle } => HubRequestView::RegisterPublisher {
                key: key@,
                handle,
            },
            HubRequest::RegisterSubscriber { key, handle } => HubRequestView::RegisterSubscriber {
                key: key@,
                handle,
            },
            HubRequest::Unregister { key, handle } => HubRequestView::Unregister {
                key: key@,
                handle,
            },
            HubRequest::Route { key, message } => HubRequestView::Route {
                key: key@,
                message: message@,
            },
        }
    }
}

/// What the hub sends to one session.
#[derive(Debug, PartialEq, Eq)]
pub enum HubNotice {
    /// The session is now the publisher of the key it asked for.
    PublishAccepted,
    /// The session's request to publish was refused.
    PublishRejected(ChannelError),
    /// A message of the stream that the session subscribes to.
    Message(RtmpMessage),
    /// The publisher of the stream that the session subscribes to has left.
    StreamEnded,
}

pub ghost enum HubNoticeView {
    PublishAccepted,
    PublishRejected(ChannelError),
    Message(MessageView),
    StreamEnded,
}

impl View for HubNotice {
    type V = HubNoticeView;

    open spec fn view(&self) -> HubNoticeView {
        match *self {
            HubNotice::PublishAccepted => HubNoticeView::PublishAccepted,
            HubNotice::PublishRejected(e) => HubNoticeView::PublishRejected(e),
            HubNotice::Message(m) => HubNoticeView::Message(m@),
            HubNotice::StreamEnded => HubNoticeView::StreamEnded,
        }
    }
}

/// One notice on its way to one session.
#[derive(Debug, PartialEq, Eq)]
pub struct Delivery {
    pub to: SessionHandle,
    pub notice: HubNotice,
}

pub ghost struct DeliveryView {
    pub to: SessionHandle,
    pub notice: HubNoticeView,
}

impl View for Delivery {
    type V = DeliveryView;

    open spec fn view(&self) -> DeliveryView {
        DeliveryView { to: self.to, notice: self.notice@ }
    }
}

/// The views of a sequence of deliveries, in order.
pub open spec fn delivery_views(s: Seq<Delivery>) -> Seq<DeliveryView> {
    s.map_values(|d: Delivery| d@)
}

proof fn lemma_delivery_views_push(s: Seq<Delivery>, d: Delivery)
    ensures
        delivery_views(s.push(d)) == delivery_views(s).push(d@),
{
    assert(delivery_views(s.push(d)) =~= delivery_views(s).push(d@));
}

/// The same notice to each of `to`, in order.
pub open spec fn fan(to: Seq<SessionHandle>, notice: HubNoticeView) -> Seq<DeliveryView> {
    Seq::new(to.len(), |i: int| DeliveryView { to: to[i], notice })
}

/// Each of `messages` to the one session `to`, in order.
pub open spec fn feed(to: SessionHandle, messages: Seq<MessageView>) -> Seq<DeliveryView> {
    Seq::new(
        messages.len(),
        |i: int| DeliveryView { to, notice: HubNoticeView::Message(messages[i]) },
    )
}

/// The messages among `deliveries` that go to `to`, in order.
pub open spec fn messages_to(deliveries: Seq<DeliveryView>, to: SessionHandle) -> Seq<MessageView>
    decreases deliveries.len(),
{
    if deliveries.len() == 0 {
        Seq::empty()
    } else {
        let before = messages_to(deliveries.drop_last(), to);
        match deliveries.last().notice {
            HubNoticeView::Message(m) if deliveries.last().to == to => before.push(m),
            _ => before,
        }
    }
}

/// The requests that route each of `messages` under `key`, in order.
pub open spec fn routes(key: StreamKeyView, messages: Seq<MessageView>) -> Seq<HubRequestView> {
    Seq::new(messages.len(), |i: int| HubRequestView::Route { key, message: messages[i] })
}

impl HubView {
    /// The registry after one request.
    pub open spec fn step(self, request: HubRequestView) -> HubView {
        match request {
            HubRequestView::RegisterPublisher { key, handle } => self.register_publisher(
                key,
                handle,
            ),
            HubRequestView::RegisterSubscriber { key, handle } => self.register_subscriber(
                key,
                handle,
            ),
            HubRequestView::Unregister { key, handle } => self.unregister(key, handle),
            HubRequestView::Route { key, message } => self.route(key, message),
        }
    }

    /// What one request makes the hub send, in order.
    pub open spec fn deliveries(self, request: HubRequestView) -> Seq<DeliveryView> {
        match request {
            HubRequestView::RegisterPublisher { key, handle } => seq![
                DeliveryView {
                    to: handle,
                    notice: match self.publish_result(key) {
                        Ok(_) => HubNoticeView::PublishAccepted,
                        Err(e) => HubNoticeView::PublishRejected(e),
                    },
                },
            ],
            HubRequestView::RegisterSubscriber { key, handle } => feed(handle, self.replay(key)),
            HubRequestView::Unregister { key, handle } => fan(
                self.stream_end_notices(key, handle),
                HubNoticeView::StreamEnded,
            ),
            HubRequestView::Route { key, message } => fan(
                self.subscribers(key),
                HubNoticeView::Message(message),
            ),
        }
    }

    /// The registry after a sequence of requests.
    pub open spec fn after(self, requests: Seq<HubRequestView>) -> HubView
        decreases requests.len(),
    {
        if requests.len() == 0 {
            self
        } else {
            self.step(requests.first()).after(requests.drop_first())
        }
    }

    /// Everything that a sequence of requests makes the hub send, in order.
    pub open spec fn run(self, requests: Seq<HubRequestView>) -> Seq<DeliveryView>
        decreases requests.len(),
    {
        if requests.len() == 0 {
            Seq::empty()
        } else {
            self.deliveries(requests.first()) + self.step(requests.first()).run(
                requests.drop_first(),
            )
        }
    }
}

impl ChannelsManager {
    /// Serves one request: updates the registry and returns what is to be
    /// sent, and to whom, in order.
    pub fn process(&mut self, request: &HubRequest) -> (out: Vec<Delivery>)
        requires
            old(self).wf(),
        ensures
            final(self).wf(),
            final(self)@ == old(self)@.step(request@),
            delivery_views(out@) == old(self)@.deliveries(request@),
    {
        let mut out: Vec<Delivery> = Vec::new();
        match request {
            HubRequest::RegisterPublisher { key, handle } => {
                let notice = match self.register_publisher(key, *handle) {
                    Ok(_) => HubNotice::PublishAccepted,
                    Err(e) => HubNotice::PublishRejected(e),
                };
                out.push(Delivery { to: *handle, notice });
                assert(delivery_views(out@) =~= old(self)@.deliveries(request@));
            },
            HubRequest::RegisterSubscriber { key, handle } => {
                let replay = self.register_subscriber(key, *handle);
                let ghost expected = old(self)@.deliveries(request@);
                let mut i: usize = 0;
                while i < replay.len()
                    invariant
                        i <= replay@.len(),
                        expected == feed(*handle, views(replay@)),
                        delivery_views(out@) == expected.take(i as int),
                    decreases replay@.len() - i,
                {
                    let d = Delivery { to: *handle, notice: HubNotice::Message(replay[i].clone()) };
                    proof {
                        lemma_delivery_views_push(out@, d);
                        assert(expected.take(i + 1) =~= expected.take(i as int).push(d@));
                    }
                    out.push(d);
                    i += 1;
                }
                assert(expected.take(i as int) =~= expected);
            },
            HubRequest::Unregister { key, handle } => {
                let notices = self.unregister(key, *handle);
                let ghost expected = old(self)@.deliveries(request@);
                let mut i: usize = 0;
                while i < notices.len()
                    invariant
                        i <= notices@.len(),
                        expected == fan(notices@, HubNoticeView::StreamEnded),
                        delivery_views(out@) == expected.take(i as int),
                    decreases notices@.len() - i,
                {
                    let d = Delivery { to: notices[i], notice: HubNotice::StreamEnded };
                    proof {
                        lemma_delivery_views_push(out@, d);
                        assert(expected.take(i + 1) =~= expected.take(i as int).push(d@));
                    }
                    out.push(d);
                    i += 1;
                }
                assert(expected.take(i as int) =~= expected);
            },
            HubRequest::Route { key, message } => {
                let recipients = self.route(key, message);
                let ghost expected = old(self)@.deliveries(request@);
                let mut i: usize = 0;
                while i < recipients.len()
                    invariant
                        i <= recipients@.len(),
                        expected == fan(recipients@, HubNoticeView::Message(message@)),
                        delivery_views(out@) == expected.take(i as int),
                    decreases recipients@.len() - i,
                {
                    let d = Delivery {
                        to: recipients[i],
                        notice: HubNotice::Message(message.clone()),
                    };
                    proof {
                        lemma_delivery_views_push(out@, d);
                        assert(expected.take(i + 1) =~= expected.take(i as int).push(d@));
                    }
                    out.push(d);
                    i += 1;
                }
                assert(expected.take(i as int) =~= expected);
            },
        }
        out
    }
}

/// Which relay a request calls for.
#[derive(Debug, Copy, Clone, PartialEq, Eq, Structural)]
pub enum RelayHint {
    Nothing,
    /// A stream is about to be published, and is to be pushed on.
    Push,
    /// A stream is asked for that nobody publishes, and is to be pulled.
    Pull,
}

impl HubView {
    /// The relay that `request` calls for, seen from the registry before
    /// the request is served: a push when a key without a publisher gets
    /// one and pushing is enabled, a pull when a key without a publisher
    /// gets a subscriber and pulling is enabled.
    pub open spec fn relay_hint(self, request: HubRequestView) -> RelayHint {
        match request {
            HubRequestView::RegisterPublisher { key, handle } => {
                if self.rtmp_push_enabled && self.publisher(key) is None {
                    RelayHint::Push
                } else {
                    RelayHint::Nothing
                }
            },
            HubRequestView::RegisterSubscriber { key, handle } => {
                if self.rtmp_pull_enabled && self.publisher(key) is None {
                    RelayHint::Pull
                } else {
                    RelayHint::Nothing
                }
            },
            _ => RelayHint::Nothing,
        }
    }
}

impl ChannelsManager {
    /// Tells which relay `request` calls for. This is to be asked before
    /// the request is served.
    pub fn relay_hint(&self, request: &HubRequest) -> (hint: RelayHint)
        requires
            self.wf(),
        ensures
            hint == self@.relay_hint(request@),
    {
        match request {
            HubRequest::RegisterPublisher { key, handle } => {
                if self.rtmp_push_enabled && self.publisher(key).is_none() {
                    RelayHint::Push
                } else {
                    RelayHint::Nothing
                }
            },
            HubRequest::RegisterSubscriber { key, handle } => {
                if self.rtmp_pull_enabled && self.publisher(key).is_none() {
                    RelayHint::Pull
                } else {
                    RelayHint::Nothing
                }
            },
            _ => RelayHint::Nothing,
        }
    }
}

} // verus!
