//! The blocking reader: a cursor bound to a function that fetches a range
//! and returns when it has it.

use crate::cursor::Cursor;
use crate::range::{RangeError, RangeOutput, RangeRequest, ReadError, SeekFrom};
use crate::state::{agree, CursorState};
use vstd::prelude::*;

verus! {

/// Sequential reads and seeks over a stream that is reached through a
/// blocking range fetch.
///
/// `range_fn(start, length)` returns the `length` bytes of the stream that
/// begin at the absolute offset `start`, or fails. Reads are served from an
/// internal window that is refilled by one fetch at a time.
pub struct RangedReader<F> {
    cursor: Cursor,
    range_fn: F,
}

impl<F> View for RangedReader<F> {
    type V = CursorState;

    closed spec fn view(&self) -> CursorState {
        self.cursor@
    }
}

/// A fetch result as the response to `request`: the bytes, under the
/// start that was asked for.
pub open spec fn answer<E>(request: RangeRequest, fetched: Result<Vec<u8>, E>) -> Result<RangeOutput, E> {
    match fetched {
        Ok(data) => Ok(RangeOutput { start: request.start, data }),
        Err(e) => Err(e),
    }
}

/// The bytes that a fetch returned; none where it failed.
pub open spec fn bytes_of<E>(fetched: Result<Vec<u8>, E>) -> Seq<u8> {
    match fetched {
        Ok(data) => data@,
        Err(_) => Seq::empty(),
    }
}

/// Whether the fetch function `range_fn` is known to serve the stream
/// `src`: whatever it returns for a range is a success, holds as many
/// bytes as were asked for, and these are the bytes of `src` wherever the
/// range lies within `src`.
pub open spec fn serves<E, F: Fn(u64, usize) -> Result<Vec<u8>, E>>(range_fn: F, src: Seq<u8>) -> bool {
    forall|start: u64, length: usize, fetched: Result<Vec<u8>, E>| #[trigger]
        call_ensures(range_fn, (start, length), fetched) ==> {
            &&& fetched is Ok
            &&& bytes_of(fetched).len() == length
            &&& agree(bytes_of(fetched), src, start as int)
        }
}

/// `Vec::capacity`: the number of bytes that `buffer` can hold without
/// reallocating. It is at least the length of `buffer`; beyond that it is
/// whatever the allocator gave.
#[verifier::external_body]
fn capacity_of(buffer: &Vec<u8>) -> (capacity: usize)
    ensures
        capacity >= buffer@.len(),
{
    buffer.capacity()
}

impl<E, F: Fn(u64, usize) -> Result<Vec<u8>, E>> RangedReader<F> {
    /// The fetch function that this reader was made with.
    pub closed spec fn fetcher(&self) -> F {
        self.range_fn
    }

    /// The invariant that every operation keeps: the cursor is sound, and
    /// the fetch function can be called on every range.
    pub open spec fn wf(&self) -> bool {
        &&& self@.wf()
        &&& self@.fits()
        &&& forall|start: u64, length: usize| #[trigger] call_requires(self.fetcher(), (start, length))
    }

    /// A reader at the start of a stream of `length` bytes, with a given
    /// minimum chunk size and an empty window.
    pub fn with_min_chunk_size(length: usize, min_chunk_size: usize, range_fn: F) -> (reader: Self)
        requires
            forall|start: u64, length: usize| #[trigger] call_requires(range_fn, (start, length)),
        ensures
            reader.wf(),
            reader.fetcher() == range_fn,
            reader@ == CursorState::fresh(length as nat, min_chunk_size as nat),
    {
        RangedReader { cursor: Cursor::new(length, min_chunk_size, Vec::new()), range_fn }
    }

    /// A reader at the start of a stream of `length` bytes that uses
    /// `buffer` as its window. The contents of `buffer` are discarded; its
    /// capacity becomes the minimum chunk size.
    pub fn new(length: usize, range_fn: F, buffer: Vec<u8>) -> (reader: Self)
        requires
            forall|start: u64, length: usize| #[trigger] call_requires(range_fn, (start, length)),
        ensures
            reader.wf(),
            reader.fetcher() == range_fn,
            reader@ == CursorState::fresh(length as nat, reader@.min_chunk),
            reader@.min_chunk >= buffer@.len(),
    {
        let min_chunk_size = capacity_of(&buffer);
        RangedReader { cursor: Cursor::new(length, min_chunk_size, buffer), range_fn }
    }

    /// The absolute offset of the next byte that a read delivers.
    pub fn position(&self) -> (position: u64)
        requires
            self.wf(),
        ensures
            position == self@.position(),
    {
        self.cursor.position()
    }

    /// The minimum chunk size that this reader was made with.
    pub fn min_chunk_size(&self) -> (min_chunk: usize)
        ensures
            min_chunk == self@.min_chunk,
    {
        self.cursor.min_chunk_size()
    }

    /// Makes sure that the window holds `to_consume` undelivered bytes,
    /// with at most one fetch.
    ///
    /// Nothing is fetched where the window holds more than `to_consume`
    /// bytes. Otherwise the one range that the cursor names is fetched, and
    /// what comes back decides: the window is refilled, or the fetch
    /// function's error, or the refusal of a response of the wrong length,
    /// is returned and the reader stays as it was.
    ///
    /// With a fetch function that serves the stream, this succeeds
    /// whenever the range fits below `u64::MAX`, and the reader stays on
    /// the stream.
    pub fn read_more(&mut self, to_consume: usize) -> (outcome: Result<(), ReadError<E>>)
        requires
            old(self).wf(),
        ensures
            final(self).wf(),
            final(self).fetcher() == old(self).fetcher(),
            final(self)@.position() == old(self)@.position(),
            outcome is Ok ==> final(self)@.remaining() >= to_consume,
            outcome is Err ==> final(self)@ == old(self)@,
            match old(self)@.request(to_consume as nat) {
                Err(e) => outcome == Err::<(), ReadError<E>>(ReadError::Range(e)),
                Ok(None) => outcome is Ok && final(self)@ == old(self)@,
                Ok(Some(request)) => exists|fetched: Result<Vec<u8>, E>|
                    {
                        &&& #[trigger] call_ensures(
                            old(self).fetcher(),
                            (request.start, request.length),
                            fetched,
                        )
                        &&& (outcome, final(self)@) == old(self)@.complete(
                            request.length,
                            answer(request, fetched),
                        )
                    },
            },
            forall|src: Seq<u8>|
                {
                    &&& #[trigger] old(self)@.tracks(src)
                    &&& serves(old(self).fetcher(), src)
                    &&& old(self)@.request(to_consume as nat) is Ok
                } ==> outcome is Ok && final(self)@.tracks(src),
    {
        match self.cursor.request(to_consume) {
            Err(e) => Err(ReadError::Range(e)),
            Ok(None) => Ok(()),
            Ok(Some(request)) => {
                assert(call_requires(self.fetcher(), (request.start, request.length)));
                let fetched = (self.range_fn)(request.start, request.length);
                let ghost bytes = bytes_of(fetched);
                let response = match fetched {
                    Ok(data) => Ok(RangeOutput { start: request.start, data }),
                    Err(e) => Err(e),
                };
                let outcome = self.cursor.complete(request.length, response);
                proof {
                    assert forall|src: Seq<u8>|
                        {
                            &&& #[trigger] old(self)@.tracks(src)
                            &&& serves(old(self).fetcher(), src)
                        } implies outcome is Ok && self@.tracks(src) by {
                        old(self)@.lemma_refill_tracks(src, bytes);
                    }
                }
                outcome
            },
        }
    }

    /// Reads exactly `buf.len()` bytes at the read position into `buf` and
    /// moves the read position past them, or fails and delivers nothing.
    ///
    /// The window is refilled first, as [`RangedReader::read_more`] says.
    /// A read that reaches past the end of the stream is not refused here:
    /// its request goes to the fetch function like any other, and what that
    /// returns decides.
    ///
    /// With a fetch function that serves the stream, a read that ends
    /// within the stream delivers the bytes of the stream at the read
    /// position.
    pub fn read(&mut self, buf: &mut [u8]) -> (outcome: Result<usize, ReadError<E>>)
        requires
            old(self).wf(),
        ensures
            final(self).wf(),
            final(self).fetcher() == old(self).fetcher(),
            outcome matches Ok(count) ==> {
                &&& count == old(buf)@.len()
                &&& final(self)@.position() == old(self)@.position() + count
            },
            outcome is Err ==> final(self)@ == old(self)@ && final(buf)@ == old(buf)@,
            match old(self)@.request(old(buf)@.len()) {
                Err(e) => outcome == Err::<usize, ReadError<E>>(ReadError::Range(e)),
                Ok(None) => {
                    &&& outcome is Ok
                    &&& (final(self)@, final(buf)@) == old(self)@.read(old(buf)@.len(), Seq::empty())
                },
                Ok(Some(request)) => exists|fetched: Result<Vec<u8>, E>|
                    {
                        &&& #[trigger] call_ensures(
                            old(self).fetcher(),
                            (request.start, request.length),
                            fetched,
                        )
                        &&& match old(self)@.complete(request.length, answer(request, fetched)).0 {
                            Err(e) => outcome == Err::<usize, ReadError<E>>(e),
                            Ok(()) => {
                                &&& outcome is Ok
                                &&& (final(self)@, final(buf)@) == old(self)@.read(
                                    old(buf)@.len(),
                                    bytes_of(fetched),
                                )
                            },
                        }
                    },
            },
            forall|src: Seq<u8>|
                {
                    &&& #[trigger] old(self)@.tracks(src)
                    &&& serves(old(self).fetcher(), src)
                    &&& old(self)@.request(old(buf)@.len()) is Ok
                } ==> {
                    &&& outcome is Ok
                    &&& final(self)@.tracks(src)
                    &&& old(self)@.position() + old(buf)@.len() <= src.len() ==> final(buf)@ == old(
                        self,
                    )@.ahead(src, old(buf)@.len())
                },
    {
        let to_consume = buf.len();
        match self.read_more(to_consume) {
            Err(e) => Err(e),
            Ok(()) => {
                let ghost filled = self@;
                self.cursor.deliver(buf);
                proof {
                    assert forall|src: Seq<u8>|
                        {
                            &&& #[trigger] old(self)@.tracks(src)
                            &&& serves(old(self).fetcher(), src)
                        } implies {
                        &&& self@.tracks(src)
                        &&& old(self)@.position() + to_consume <= src.len() ==> buf@ == old(self)@.ahead(
                            src,
                            to_consume as nat,
                        )
                    } by {
                        filled.lemma_advance_tracks(src, to_consume as nat);
                        if old(self)@.position() + to_consume <= src.len() {
                            filled.lemma_pending_is_stream(src, to_consume as nat);
                        }
                    }
                }
                Ok(to_consume)
            },
        }
    }

    /// Moves the read position. The window is emptied and nothing is
    /// fetched: the next read fetches from the new position. A target
    /// before the start of the stream or past `u64::MAX` is refused, and
    /// the reader stays as it was.
    pub fn seek(&mut self, pos: SeekFrom) -> (outcome: Result<u64, RangeError>)
        requires
            old(self).wf(),
        ensures
            final(self).wf(),
            final(self).fetcher() == old(self).fetcher(),
            outcome == old(self)@.seek(pos),
            final(self)@ == old(self)@.after_seek(pos),
    {
        let outcome = self.cursor.seek(pos);
        assert(self.fetcher() == old(self).fetcher());
        outcome
    }
}

} // verus!
