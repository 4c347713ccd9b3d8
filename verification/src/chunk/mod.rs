//! The chunk codec: RTMP's interleaved, header-compressed framing of
//! messages.

pub use self::chunk::{ChunkBasicHeader, ChunkHeader, ChunkInfo, ChunkMessageHeader};

pub mod chunk;
pub mod define;
pub mod errors;
pub mod packetizer;
pub mod unpacketizer;
pub mod laws;
pub mod wire;
