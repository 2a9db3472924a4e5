//! The mathematical model of a cursor: what it holds, how a refill, a
//! delivery and a seek change it, and what it means for it to follow a
//! stream.
//!
//! The executable cursors are specified against these functions, and the
//! laws of the library are proved about them.

use crate::range::{RangeError, RangeOutput, RangeRequest, ReadError, SeekFrom};
use vstd::prelude::*;

verus! {

/// The state of a cursor over a stream of bytes.
///
/// `buffer` is a sliding window over the stream. Its first `delivered` bytes
/// were already handed to the caller; the rest is fetched and waiting. The
/// byte after the last one in `buffer` lies at the absolute offset
/// `next_fetch`.
pub struct CursorState {
    /// Total length of the stream, as given when the cursor was made.
    pub length: nat,
    /// Floor on the number of bytes that a refill brings the window to.
    pub min_chunk: nat,
    /// Absolute offset at which the next fetch starts.
    pub next_fetch: nat,
    /// The window.
    pub buffer: Seq<u8>,
    /// How many leading bytes of the window were already delivered.
    pub delivered: nat,
}

/// The larger of two numbers.
pub open spec fn larger(a: nat, b: nat) -> nat {
    if a >= b {
        a
    } else {
        b
    }
}

/// Whether `data`, laid over `src` from the offset `start` on, shows the
/// bytes of `src` wherever `src` has any. Nothing is asked of bytes that
/// lie past the end of `src`.
pub open spec fn agree(data: Seq<u8>, src: Seq<u8>, start: int) -> bool {
    forall|i: int| 0 <= i < data.len() && 0 <= start + i < src.len() ==> data[i] == src[start + i]
}

/// The absolute offset that a seek names in a stream of `length` bytes
/// that is being read at `position`. It may be negative.
pub open spec fn seek_target(length: nat, position: nat, pos: SeekFrom) -> int {
    match pos {
        SeekFrom::Start(offset) => offset as int,
        SeekFrom::End(delta) => length + delta,
        SeekFrom::Current(delta) => position + delta,
    }
}

impl CursorState {
    /// A cursor at the start of a stream, with nothing buffered.
    pub open spec fn fresh(length: nat, min_chunk: nat) -> CursorState {
        CursorState { length, min_chunk, next_fetch: 0, buffer: Seq::empty(), delivered: 0 }
    }

    /// The invariant of every cursor: the delivered prefix lies within the
    /// window, and the window does not reach back before offset zero.
    pub open spec fn wf(self) -> bool {
        self.delivered <= self.buffer.len() <= self.next_fetch
    }

    /// Whether the state can be held in machine integers.
    pub open spec fn fits(self) -> bool {
        &&& self.length <= u64::MAX
        &&& self.min_chunk <= usize::MAX
        &&& self.next_fetch <= u64::MAX
        &&& self.buffer.len() <= usize::MAX
    }

    /// The number of bytes fetched and not yet delivered.
    pub open spec fn remaining(self) -> nat {
        (self.buffer.len() - self.delivered) as nat
    }

    /// The bytes fetched and not yet delivered.
    pub open spec fn pending(self) -> Seq<u8> {
        self.buffer.subrange(self.delivered as int, self.buffer.len() as int)
    }

    /// The read position: the absolute offset of the next byte that a read
    /// delivers.
    pub open spec fn position(self) -> nat {
        (self.next_fetch - self.remaining()) as nat
    }

    /// The `n` bytes of the stream `src` that lie at the read position.
    pub open spec fn ahead(self, src: Seq<u8>, n: nat) -> Seq<u8> {
        src.subrange(self.position() as int, self.position() + n as int)
    }

    /// Whether a read of `n` bytes refills the window first. It does so
    /// unless the window holds strictly more than `n` undelivered bytes: a
    /// read that would empty the window exactly refills it beforehand.
    pub open spec fn needs_fetch(self, n: nat) -> bool {
        n >= self.remaining()
    }

    /// The number of bytes that the refill before a read of `n` bytes
    /// fetches: enough to bring the window to `n` bytes, to the minimum
    /// chunk, and to as many bytes as were delivered from it.
    pub open spec fn fetch_len(self, n: nat) -> nat {
        (larger(larger(self.delivered, n), self.min_chunk) - self.remaining()) as nat
    }

    /// What a read of `n` bytes asks of the fetch capability: nothing where
    /// the window already serves it, else the one range to fetch, and no
    /// range at all where its end would pass `u64::MAX`.
    pub open spec fn request(self, n: nat) -> Result<Option<RangeRequest>, RangeError> {
        if !self.needs_fetch(n) {
            Ok(None)
        } else if self.next_fetch + self.fetch_len(n) > u64::MAX {
            Err(RangeError::OutOfRange)
        } else {
            Ok(Some(RangeRequest { start: self.next_fetch as u64, length: self.fetch_len(n) as usize }))
        }
    }

    /// Whether `response` answers the request for `length` bytes at
    /// `next_fetch`, and if not, why. The start is looked at first, then
    /// the length.
    pub open spec fn admits(self, length: usize, response: RangeOutput) -> Result<(), RangeError> {
        if response.start != self.next_fetch {
            Err(RangeError::StartMismatch)
        } else if response.data@.len() != length {
            Err(RangeError::LengthMismatch)
        } else {
            Ok(())
        }
    }

    /// What completing a refill yields, for each thing that the fetch of
    /// `length` bytes at `next_fetch` can have come back with: the error of
    /// a failed fetch is handed on as it is, a response that is not
    /// admitted is refused, and in both cases the state stays; an admitted
    /// response refills the window.
    pub open spec fn complete<E>(self, length: usize, response: Result<RangeOutput, E>) -> (
        Result<(), ReadError<E>>,
        CursorState,
    ) {
        match response {
            Err(e) => (Err(ReadError::Fetch(e)), self),
            Ok(output) => match self.admits(length, output) {
                Err(e) => (Err(ReadError::Range(e)), self),
                Ok(()) => (Ok(()), self.refill(output.data@)),
            },
        }
    }

    /// The state after a refill with `data`: the delivered prefix is
    /// dropped, the undelivered bytes move to the front, `data` follows
    /// them, and the fetch offset moves on by the length of `data`.
    pub open spec fn refill(self, data: Seq<u8>) -> CursorState {
        CursorState {
            next_fetch: self.next_fetch + data.len(),
            buffer: self.pending() + data,
            delivered: 0,
            ..self
        }
    }

    /// The state after `n` more bytes of the window were delivered.
    pub open spec fn advance(self, n: nat) -> CursorState {
        CursorState { delivered: self.delivered + n, ..self }
    }

    /// The absolute offset that a seek names. It may be negative or past
    /// `u64::MAX`, in which case the seek is refused.
    pub open spec fn target(self, pos: SeekFrom) -> int {
        seek_target(self.length, self.position(), pos)
    }

    /// The state after a seek to the absolute offset `target`: the window
    /// is empty, and the next fetch starts at `target`.
    pub open spec fn seek_to(self, target: nat) -> CursorState {
        CursorState { next_fetch: target, buffer: Seq::empty(), delivered: 0, ..self }
    }

    /// What a seek returns: the offset sought, or a refusal where that
    /// offset is negative or past `u64::MAX`.
    pub open spec fn seek(self, pos: SeekFrom) -> Result<u64, RangeError> {
        if 0 <= self.target(pos) <= u64::MAX {
            Ok(self.target(pos) as u64)
        } else {
            Err(RangeError::OutOfRange)
        }
    }

    /// The state after a seek: moved to the offset sought, or unchanged
    /// where the seek is refused.
    pub open spec fn after_seek(self, pos: SeekFrom) -> CursorState {
        if 0 <= self.target(pos) <= u64::MAX {
            self.seek_to(self.target(pos) as nat)
        } else {
            self
        }
    }

    /// The state after a read of `n` bytes and the bytes it delivers, where
    /// `data` is what the fetch returned, if the read needed one.
    pub open spec fn read(self, n: nat, data: Seq<u8>) -> (CursorState, Seq<u8>) {
        let filled = if self.needs_fetch(n) {
            self.refill(data)
        } else {
            self
        };
        (filled.advance(n), filled.pending().take(n as int))
    }

    /// Whether the cursor follows the stream `src`: its length is that of
    /// `src`, and every byte of the window that lies within `src` is the
    /// byte of `src` at that offset.
    pub open spec fn tracks(self, src: Seq<u8>) -> bool {
        &&& self.wf()
        &&& self.length == src.len()
        &&& agree(self.buffer, src, self.next_fetch - self.buffer.len())
    }

    /// A refill covers the read it was sized for, and brings the window to
    /// exactly the largest of the read, the minimum chunk and the number of
    /// bytes delivered before.
    pub proof fn lemma_refill_covers(self, n: nat, data: Seq<u8>)
        requires
            self.wf(),
            self.needs_fetch(n),
            data.len() == self.fetch_len(n),
        ensures
            self.refill(data).wf(),
            self.refill(data).remaining() == larger(larger(self.delivered, n), self.min_chunk),
            self.refill(data).remaining() >= n,
            self.refill(data).position() == self.position(),
    {
    }

    /// A cursor that follows a stream still follows it after a refill with
    /// bytes of that stream.
    pub proof fn lemma_refill_tracks(self, src: Seq<u8>, data: Seq<u8>)
        requires
            self.tracks(src),
            agree(data, src, self.next_fetch as int),
        ensures
            self.refill(data).tracks(src),
    {
        let after = self.refill(data);
        let start = self.position();
        assert forall|i: int| 0 <= i < after.buffer.len() && 0 <= start + i < src.len() implies after.buffer[i]
            == src[start + i] by {
            if i < self.remaining() {
                assert(after.buffer[i] == self.buffer[self.delivered + i]);
            } else {
                assert(after.buffer[i] == data[i - self.remaining()]);
            }
        }
    }

    /// Delivering bytes of the window keeps the invariant, and keeps the
    /// cursor on its stream.
    pub proof fn lemma_advance_tracks(self, src: Seq<u8>, n: nat)
        requires
            self.tracks(src),
            n <= self.remaining(),
        ensures
            self.advance(n).tracks(src),
            self.advance(n).position() == self.position() + n,
    {
    }

    /// What a cursor on a stream has waiting is the stream from the read
    /// position on.
    pub proof fn lemma_pending_is_stream(self, src: Seq<u8>, n: nat)
        requires
            self.tracks(src),
            n <= self.remaining(),
            self.position() + n <= src.len(),
        ensures
            self.pending().take(n as int) == self.ahead(src, n),
    {
        assert(self.pending().take(n as int) =~= self.ahead(src, n));
    }

    /// A seek leaves a cursor on its stream, at the offset sought.
    pub proof fn lemma_seek_tracks(self, src: Seq<u8>, target: nat)
        requires
            self.length == src.len(),
        ensures
            self.seek_to(target).tracks(src),
            self.seek_to(target).position() == target,
            self.seek_to(target).remaining() == 0,
    {
    }
}

} // verus!
