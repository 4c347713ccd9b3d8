//! The numbers of the chunk format.

use vstd::prelude::*;

verus! {

/// The chunk size that both sides start with.
pub const INIT_CHUNK_SIZE: u32 = 128;

/// The largest chunk size that a Set Chunk Size message can announce.
pub const MAX_CHUNK_SIZE: u32 = 0x7FFF_FFFF;

/// The smallest chunk stream id that the basic header can carry.
pub const MIN_CHUNK_STREAM_ID: u32 = 2;

/// The largest chunk stream id that the basic header can carry.
pub const MAX_CHUNK_STREAM_ID: u32 = 65599;

/// The value of the three-byte timestamp field that announces a four-byte
/// extended timestamp.
pub const EXTENDED_TIMESTAMP: u32 = 0xFF_FFFF;

/// The largest message length that the three-byte length field can carry.
pub const MAX_MESSAGE_LENGTH: u32 = 0xFF_FFFF;

/// A full message header: timestamp, length, type and stream id.
pub const FORMAT_FULL: u8 = 0;

/// A header without the stream id: timestamp delta, length and type.
pub const FORMAT_SAME_STREAM: u8 = 1;

/// A header with the timestamp delta only.
pub const FORMAT_TIME_ONLY: u8 = 2;

/// No message header at all.
pub const FORMAT_NONE: u8 = 3;

} // verus!
