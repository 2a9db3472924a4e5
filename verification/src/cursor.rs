//! The buffering engine that the blocking and the suspending reader share:
//! one growable window over the stream, compacted before each refill.
//!
//! The engine performs no fetch. It says which range a read needs, takes
//! the bytes that were fetched for it, and hands out what it holds.

use crate::range::{RangeError, RangeOutput, RangeRequest, ReadError, SeekFrom};
use crate::state::CursorState;
use vstd::prelude::*;

verus! {

/// A sliding window over a stream of known length.
pub(crate) struct Cursor {
    /// Absolute offset at which the next fetch starts.
    pos: u64,
    /// Total length of the stream.
    length: u64,
    /// The window. `buffer[..offset]` was delivered already.
    buffer: Vec<u8>,
    /// Number of leading bytes of `buffer` that were delivered.
    offset: usize,
    /// Floor on the size of the window after a refill.
    min_chunk: usize,
}

impl View for Cursor {
    type V = CursorState;

    closed spec fn view(&self) -> CursorState {
        CursorState {
            length: self.length as nat,
            min_chunk: self.min_chunk as nat,
            next_fetch: self.pos as nat,
            buffer: self.buffer@,
            delivered: self.offset as nat,
        }
    }
}

impl Cursor {
    /// The invariant that every operation keeps.
    pub open spec fn wf(&self) -> bool {
        self@.wf() && self@.fits()
    }

    /// A cursor at the start of a stream of `length` bytes. The contents of
    /// `buffer` are discarded; its allocation becomes the window.
    pub fn new(length: usize, min_chunk: usize, buffer: Vec<u8>) -> (cursor: Cursor)
        ensures
            cursor.wf(),
            cursor@ == CursorState::fresh(length as nat, min_chunk as nat),
    {
        let mut buffer = buffer;
        buffer.clear();
        Cursor { pos: 0, length: length as u64, buffer, offset: 0, min_chunk }
    }

    /// The absolute offset of the next byte that a read delivers.
    pub fn position(&self) -> (position: u64)
        requires
            self.wf(),
        ensures
            position == self@.position(),
    {
        self.pos - ((self.buffer.len() - self.offset) as u64)
    }

    /// The number of bytes fetched and not yet delivered.
    pub fn remaining(&self) -> (remaining: usize)
        requires
            self.wf(),
        ensures
            remaining == self@.remaining(),
    {
        self.buffer.len() - self.offset
    }

    /// The floor on the size of the window after a refill.
    pub fn min_chunk_size(&self) -> (min_chunk: usize)
        ensures
            min_chunk == self@.min_chunk,
    {
        self.min_chunk
    }

    /// The range that a read of `to_consume` bytes needs fetched before it
    /// can be served, if any. Nothing changes: the range is only named.
    pub fn request(&self, to_consume: usize) -> (request: Result<Option<RangeRequest>, RangeError>)
        requires
            self.wf(),
        ensures
            request == self@.request(to_consume as nat),
    {
        let remaining = self.buffer.len() - self.offset;
        if to_consume < remaining {
            return Ok(None);
        }
        let mut target = self.offset;
        if to_consume > target {
            target = to_consume;
        }
        if self.min_chunk > target {
            target = self.min_chunk;
        }
        let to_fetch = target - remaining;
        if to_fetch as u64 > u64::MAX - self.pos {
            return Err(RangeError::OutOfRange);
        }
        Ok(Some(RangeRequest { start: self.pos, length: to_fetch }))
    }

    /// Refills the window with the response to a request for `length` bytes
    /// at the next fetch offset, a request that [`Cursor::request`] has
    /// named.
    ///
    /// A response that starts elsewhere, or that holds another number of
    /// bytes, is refused and leaves the cursor as it was. An accepted one
    /// replaces the delivered prefix: the undelivered bytes move to the
    /// front of the window and the fetched bytes follow them.
    pub fn refill(&mut self, length: usize, response: RangeOutput) -> (outcome: Result<(), RangeError>)
        requires
            old(self).wf(),
            old(self)@.next_fetch + length <= u64::MAX,
            old(self)@.remaining() + length <= usize::MAX,
        ensures
            final(self).wf(),
            outcome == old(self)@.admits(length, response),
            outcome is Ok ==> final(self)@ == old(self)@.refill(response.data@),
            outcome is Err ==> final(self)@ == old(self)@,
    {
        if response.start != self.pos {
            return Err(RangeError::StartMismatch);
        }
        if response.data.len() != length {
            return Err(RangeError::LengthMismatch);
        }
        let remaining = self.buffer.len() - self.offset;
        let ghost before = self@;
        if self.offset > 0 {
            let mut i: usize = 0;
            while i < remaining
                invariant
                    i <= remaining,
                    remaining == before.remaining(),
                    self.offset == before.delivered,
                    self.pos == before.next_fetch,
                    self.length == before.length,
                    self.min_chunk == before.min_chunk,
                    self.buffer@.len() == before.buffer.len(),
                    self.offset + remaining == self.buffer@.len() <= usize::MAX,
                    forall|j: int| 0 <= j < i ==> self.buffer@[j] == before.buffer[before.delivered + j],
                    forall|j: int| i <= j < self.buffer@.len() ==> self.buffer@[j] == before.buffer[j],
                decreases remaining - i,
            {
                let byte = self.buffer[self.offset + i];
                self.buffer[i] = byte;
                i += 1;
            }
        }
        self.buffer.truncate(remaining);
        let mut data = response.data;
        self.buffer.append(&mut data);
        self.pos = self.pos + length as u64;
        self.offset = 0;
        assert(self.buffer@ =~= before.pending() + response.data@);
        Ok(())
    }

    /// Ends a fetch of `length` bytes at the next fetch offset with what
    /// came back. A failed fetch is reported with its own error, a
    /// response that does not answer the request is refused, and either
    /// way the cursor stays as it was; a fitting response refills the
    /// window.
    pub fn complete<E>(&mut self, length: usize, response: Result<RangeOutput, E>) -> (outcome: Result<
        (),
        ReadError<E>,
    >)
        requires
            old(self).wf(),
            old(self)@.next_fetch + length <= u64::MAX,
            old(self)@.remaining() + length <= usize::MAX,
        ensures
            final(self).wf(),
            (outcome, final(self)@) == old(self)@.complete(length, response),
    {
        match response {
            Err(e) => Err(ReadError::Fetch(e)),
            Ok(output) => match self.refill(length, output) {
                Err(e) => Err(ReadError::Range(e)),
                Ok(()) => Ok(()),
            },
        }
    }

    /// Hands out the next `buf.len()` bytes of the window, which must hold
    /// that many, and moves the read position past them.
    pub fn deliver(&mut self, buf: &mut [u8])
        requires
            old(self).wf(),
            old(buf)@.len() <= old(self)@.remaining(),
        ensures
            final(self).wf(),
            final(self)@ == old(self)@.advance(old(buf)@.len()),
            final(buf)@ == old(self)@.pending().take(old(buf)@.len() as int),
    {
        let count = buf.len();
        let mut i: usize = 0;
        while i < count
            invariant
                i <= count,
                count == buf@.len(),
                self.offset + count <= self.buffer@.len() <= usize::MAX,
                forall|j: int| 0 <= j < i ==> buf@[j] == self.buffer@[self.offset + j],
            decreases count - i,
        {
            buf[i] = self.buffer[self.offset + i];
            i += 1;
        }
        self.offset = self.offset + count;
    }

    /// Moves the read position. The window is emptied and nothing is
    /// fetched: the next read fetches from the new position. A target
    /// before the start of the stream or past `u64::MAX` is refused, and
    /// the cursor stays as it was.
    pub fn seek(&mut self, pos: SeekFrom) -> (outcome: Result<u64, RangeError>)
        requires
            old(self).wf(),
        ensures
            final(self).wf(),
            outcome == old(self)@.seek(pos),
            final(self)@ == old(self)@.after_seek(pos),
    {
        let target = match pos {
            SeekFrom::Start(offset) => Some(offset),
            SeekFrom::End(delta) => self.length.checked_add_signed(delta),
            SeekFrom::Current(delta) => self.position().checked_add_signed(delta),
        };
        match target {
            Some(target) => {
                self.pos = target;
                self.offset = 0;
                self.buffer.clear();
                Ok(target)
            },
            None => Err(RangeError::OutOfRange),
        }
    }
}

} // verus!
