//! RTMP messages: the application-level units that chunks reassemble into.

use vstd::prelude::*;

verus! {

/// Set Chunk Size, a protocol control message.
pub const MSG_SET_CHUNK_SIZE: u8 = 1;

/// Abort Message, a protocol control message.
pub const MSG_ABORT: u8 = 2;

/// Acknowledgement, a protocol control message.
pub const MSG_ACKNOWLEDGEMENT: u8 = 3;

/// User Control Message.
pub const MSG_USER_CONTROL: u8 = 4;

/// Window Acknowledgement Size, a protocol control message.
pub const MSG_WINDOW_ACK_SIZE: u8 = 5;

/// Set Peer Bandwidth, a protocol control message.
pub const MSG_SET_PEER_BANDWIDTH: u8 = 6;

/// An audio message.
pub const MSG_AUDIO: u8 = 8;

/// A video message.
pub const MSG_VIDEO: u8 = 9;

/// A data message in AMF0 encoding.
pub const MSG_DATA_AMF0: u8 = 18;

/// A command message in AMF0 encoding.
pub const MSG_COMMAND_AMF0: u8 = 20;

/// One complete RTMP message.
#[derive(Debug, PartialEq, Eq)]
pub struct RtmpMessage {
    pub type_id: u8,
    pub timestamp: u32,
    pub message_stream_id: u32,
    pub payload: Vec<u8>,
}

/// The mathematical content of an [`RtmpMessage`].
pub ghost struct MessageView {
    pub type_id: u8,
    pub timestamp: u32,
    pub message_stream_id: u32,
    pub payload: Seq<u8>,
}

impl View for RtmpMessage {
    type V = MessageView;

    open spec fn view(&self) -> MessageView {
        MessageView {
            type_id: self.type_id,
            timestamp: self.timestamp,
            message_stream_id: self.message_stream_id,
            payload: self.payload@,
        }
    }
}

impl Clone for RtmpMessage {
    fn clone(&self) -> (copy: Self)
        ensures
            copy@ == self@,
    {
        let payload = copy_bytes(&self.payload);
        RtmpMessage {
            type_id: self.type_id,
            timestamp: self.timestamp,
            message_stream_id: self.message_stream_id,
            payload,
        }
    }
}

/// A fresh vector holding the same bytes.
pub fn copy_bytes(bytes: &Vec<u8>) -> (copy: Vec<u8>)
    ensures
        copy@ == bytes@,
{
    let copy = bytes.clone();
    assert(copy@ =~= bytes@);
    copy
}

/// Whether two byte strings are the same.
pub fn same_bytes(a: &Vec<u8>, b: &Vec<u8>) -> (same: bool)
    ensures
        same == (a@ == b@),
{
    if a.len() != b.len() {
        return false;
    }
    let mut i: usize = 0;
    while i < a.len()
        invariant
            i <= a@.len(),
            a@.len() == b@.len(),
            forall|j: int| 0 <= j < i ==> a@[j] == b@[j],
        decreases a@.len() - i,
    {
        if a[i] != b[i] {
            return false;
        }
        i += 1;
    }
    assert(a@ =~= b@);
    true
}

/// The views of a sequence of messages, in order.
pub open spec fn views(s: Seq<RtmpMessage>) -> Seq<MessageView> {
    s.map_values(|m: RtmpMessage| m@)
}

/// The view of an optional message.
pub open spec fn view_opt(m: Option<RtmpMessage>) -> Option<MessageView> {
    match m {
        Some(m) => Some(m@),
        None => None,
    }
}

impl MessageView {
    /// A video message whose first payload byte marks a key frame.
    pub open spec fn is_video_keyframe(self) -> bool {
        self.type_id == MSG_VIDEO && self.payload.len() >= 1 && self.payload[0] / 16 == 1
    }

    /// An AVC video message that carries the decoder configuration.
    pub open spec fn is_video_sequence_header(self) -> bool {
        self.type_id == MSG_VIDEO && self.payload.len() >= 2 && self.payload[0] % 16 == 7
            && self.payload[1] == 0
    }

    /// An AAC audio message that carries the decoder configuration.
    pub open spec fn is_audio_sequence_header(self) -> bool {
        self.type_id == MSG_AUDIO && self.payload.len() >= 2 && self.payload[0] / 16 == 10
            && self.payload[1] == 0
    }
}

impl RtmpMessage {
    pub fn new(type_id: u8, timestamp: u32, message_stream_id: u32, payload: Vec<u8>) -> (m: Self)
        ensures
            m@ == (MessageView { type_id, timestamp, message_stream_id, payload: payload@ }),
    {
        RtmpMessage { type_id, timestamp, message_stream_id, payload }
    }

    /// Whether this is a video key frame: a video message whose frame-type
    /// nibble is 1.
    pub fn is_video_keyframe(&self) -> (b: bool)
        ensures
            b == self@.is_video_keyframe(),
    {
        self.type_id == MSG_VIDEO && self.payload.len() >= 1 && self.payload[0] / 16 == 1
    }

    /// Whether this is an AVC sequence header: a video message with codec
    /// nibble 7 and packet type 0.
    pub fn is_video_sequence_header(&self) -> (b: bool)
        ensures
            b == self@.is_video_sequence_header(),
    {
        self.type_id == MSG_VIDEO && self.payload.len() >= 2 && self.payload[0] % 16 == 7
            && self.payload[1] == 0
    }

    /// Whether this is an AAC sequence header: an audio message with format
    /// nibble 10 and packet type 0.
    pub fn is_audio_sequence_header(&self) -> (b: bool)
        ensures
            b == self@.is_audio_sequence_header(),
    {
        self.type_id == MSG_AUDIO && self.payload.len() >= 2 && self.payload[0] / 16 == 10
            && self.payload[1] == 0
    }
}

} // verus!
