//! What can go wrong in the chunk codec.

use vstd::prelude::*;

verus! {

/// Why a message cannot be written as chunks.
#[derive(Debug, Copy, Clone, PartialEq, Eq, Structural)]
pub enum PackError {
    /// The chunk stream id is outside `2..=65599`.
    InvalidChunkStreamId,
    /// The payload is longer than the three-byte length field can say.
    PayloadTooLarge,
}

/// Why the bytes received are no valid chunk stream. The connection cannot
/// go on after it.
#[derive(Debug, Copy, Clone, PartialEq, Eq, Structural)]
pub enum UnpackError {
    /// A chunk leans on an earlier header that was never sent, or interrupts
    /// a message with a header of its own.
    MalformedChunk,
}

} // verus!
