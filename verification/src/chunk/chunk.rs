//! The headers of a chunk, and the unit in which a message is reassembled.

use vstd::prelude::*;

verus! {

/// The first one to three bytes of every chunk.
#[derive(Debug, Copy, Clone, PartialEq, Eq, Structural)]
pub struct ChunkBasicHeader {
    /// Which fields of the message header follow: 0, 1, 2 or 3.
    pub format: u8,
    /// Which of the interleaved chunk streams the chunk belongs to.
    pub chunk_stream_id: u32,
}

/// The header of the message that a chunk belongs to, in full: what a
/// compressed header leaves out has been filled in from the header before.
#[derive(Debug, Copy, Clone, PartialEq, Eq, Structural)]
pub struct ChunkMessageHeader {
    pub timestamp: u32,
    /// The distance from the timestamp of the message before; after a full
    /// header, the timestamp itself.
    pub timestamp_delta: u32,
    /// At most `0xFFFFFF`.
    pub message_length: u32,
    pub message_type_id: u8,
    pub message_stream_id: u32,
}

/// Both headers of the chunk that opened a message.
#[derive(Debug, Copy, Clone, PartialEq, Eq, Structural)]
pub struct ChunkHeader {
    pub basic_header: ChunkBasicHeader,
    pub message_header: ChunkMessageHeader,
}

/// The reassembly unit of one chunk stream: the header of the message that
/// is being put together, and the payload bytes received for it so far.
#[derive(Debug, PartialEq, Eq)]
pub struct ChunkInfo {
    pub basic_header: ChunkBasicHeader,
    pub message_header: ChunkMessageHeader,
    pub payload: Vec<u8>,
}

pub ghost struct ChunkInfoView {
    pub basic_header: ChunkBasicHeader,
    pub message_header: ChunkMessageHeader,
    pub payload: Seq<u8>,
}

impl View for ChunkInfo {
    type V = ChunkInfoView;

    open spec fn view(&self) -> ChunkInfoView {
        ChunkInfoView {
            basic_header: self.basic_header,
            message_header: self.message_header,
            payload: self.payload@,
        }
    }
}

impl ChunkInfoView {
    /// Both headers as one value.
    pub open spec fn header(self) -> ChunkHeader {
        ChunkHeader { basic_header: self.basic_header, message_header: self.message_header }
    }

    /// Either nothing has been received of the message, or less than all of
    /// it: a complete payload is never held back.
    pub open spec fn wf(self) -> bool {
        self.payload.len() == 0 || self.payload.len() < self.message_header.message_length
    }
}

impl ChunkInfo {
    pub fn new(header: ChunkHeader, payload: Vec<u8>) -> (info: Self)
        ensures
            info@ == (ChunkInfoView {
                basic_header: header.basic_header,
                message_header: header.message_header,
                payload: payload@,
            }),
    {
        ChunkInfo {
            basic_header: header.basic_header,
            message_header: header.message_header,
            payload,
        }
    }

    /// Both headers as one value.
    pub fn header(&self) -> (h: ChunkHeader)
        ensures
            h == self@.header(),
    {
        ChunkHeader { basic_header: self.basic_header, message_header: self.message_header }
    }
}

} // verus!
