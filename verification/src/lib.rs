//! Buffered, seekable reading over a capability that fetches byte ranges.
//!
//! A stream of known length is reached only through a function that
//! returns the bytes of a given range, such as a ranged request to a blob
//! store. A cursor keeps a window of fetched bytes, serves reads of any
//! size from it, and refills it with one fetch at a time, each sized to
//! at least a minimum chunk.
//!
//! * [`RangedReader`] binds a cursor to a blocking fetch function.
//! * [`RangedStreamer`] is the same cursor as a state machine, for a fetch
//!   that suspends: it names the range to fetch and takes the response
//!   when it is there.
//!
//! Both are specified against the model in [`state`], and [`laws`] proves
//! what the model promises: the bytes delivered are those of the stream,
//! whatever the minimum chunk size.

mod cursor;
pub mod laws;
pub mod range;
pub mod state;
pub mod stream;
pub mod sync;

pub use range::{RangeError, RangeOutput, RangeRequest, ReadError, SeekFrom};
pub use state::CursorState;
pub use stream::{Phase, RangedStreamer, ReadPoll, StreamerState};
pub use sync::RangedReader;
