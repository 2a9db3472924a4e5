//! Plain values exchanged between a cursor, its caller and the fetch
//! capability: seek targets, range requests and responses, and errors.

use vstd::prelude::*;

verus! {

/// Where a seek goes: an absolute offset, an offset relative to the end of
/// the stream, or an offset relative to the current read position.
#[derive(Clone, Copy, Debug, PartialEq, Eq, Structural)]
pub enum SeekFrom {
    /// The given offset from the start of the stream.
    Start(u64),
    /// The total length of the stream plus the given (usually negative) delta.
    End(i64),
    /// The current read position plus the given delta.
    Current(i64),
}

/// One contiguous range of the stream: `length` bytes starting at the
/// absolute offset `start`.
#[derive(Clone, Copy, Debug, PartialEq, Eq, Structural)]
pub struct RangeRequest {
    pub start: u64,
    pub length: usize,
}

/// The answer to a [`RangeRequest`]. It repeats the offset it answers, so
/// that an answer to some other request can be told apart and refused.
#[derive(Debug, PartialEq, Eq)]
pub struct RangeOutput {
    pub start: u64,
    pub data: Vec<u8>,
}

/// What a cursor refuses by itself, without the fetch capability having
/// failed.
#[derive(Clone, Copy, Debug, PartialEq, Eq, Structural)]
pub enum RangeError {
    /// An offset left the range of `u64`: a seek named a negative offset
    /// or one past `u64::MAX`, or the range that a read needs fetched would
    /// end past `u64::MAX`.
    OutOfRange,
    /// A response answers a request that starts elsewhere than the
    /// outstanding one.
    StartMismatch,
    /// A response holds fewer or more bytes than were requested.
    LengthMismatch,
    /// A response arrived while no request was outstanding.
    Unsolicited,
}

/// Why a read failed.
#[derive(Debug, PartialEq, Eq)]
pub enum ReadError<E> {
    /// The fetch capability failed; its error is handed on unchanged.
    Fetch(E),
    /// The cursor refused the request or the response.
    Range(RangeError),
}

} // verus!
