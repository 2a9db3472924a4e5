//! The suspending reader, as a state machine.
//!
//! A read that needs bytes which are not buffered cannot wait for them
//! here. It names the range to fetch and returns; whoever drives the
//! machine fetches the range, hands the response to [`RangedStreamer::read_more`]
//! and polls again. At most one request is outstanding at any time.

use crate::cursor::Cursor;
use crate::range::{RangeError, RangeOutput, RangeRequest, ReadError, SeekFrom};
use crate::state::{agree, CursorState};
use vstd::prelude::*;

verus! {

/// Where a streamer stands between two reads.
#[derive(Clone, Copy, Debug, PartialEq, Eq, Structural)]
pub enum Phase {
    /// No request is outstanding.
    Idle,
    /// The given request was issued and its response has not arrived.
    InFlight(RangeRequest),
    /// A response has refilled the window, and the read that asked for it
    /// has not been served yet.
    Refilled,
}

/// What polling a read yields.
#[derive(Clone, Copy, Debug, PartialEq, Eq, Structural)]
pub enum ReadPoll {
    /// The read was served: that many bytes were written to the buffer.
    Ready(usize),
    /// The read waits for the response to this request.
    Pending(RangeRequest),
}

/// The state of a streamer: that of its cursor, and its phase.
pub struct StreamerState {
    pub cursor: CursorState,
    pub phase: Phase,
}

impl StreamerState {
    /// A streamer at the start of a stream, with nothing buffered and
    /// nothing outstanding.
    pub open spec fn fresh(length: nat, min_chunk: nat) -> StreamerState {
        StreamerState { cursor: CursorState::fresh(length, min_chunk), phase: Phase::Idle }
    }

    /// The invariant of every streamer: its cursor is sound, and an
    /// outstanding request starts at the next fetch offset and asks for no
    /// more than the cursor can take.
    pub open spec fn wf(self) -> bool {
        &&& self.cursor.wf()
        &&& self.phase matches Phase::InFlight(request) ==> {
            &&& request.start == self.cursor.next_fetch
            &&& self.cursor.next_fetch + request.length <= u64::MAX
            &&& self.cursor.remaining() + request.length <= usize::MAX
        }
    }

    /// What polling a read of `n` bytes yields.
    ///
    /// While a request is outstanding the read waits for it, and no other
    /// request is made. Right after a refill the read is served if the
    /// window holds `n` bytes. Otherwise the cursor decides: the read is
    /// served from the window, or its request becomes the outstanding one.
    pub open spec fn poll_read(self, n: nat) -> Result<ReadPoll, RangeError> {
        match self.phase {
            Phase::InFlight(request) => Ok(ReadPoll::Pending(request)),
            Phase::Refilled if n <= self.cursor.remaining() => Ok(ReadPoll::Ready(n as usize)),
            _ => match self.cursor.request(n) {
                Ok(None) => Ok(ReadPoll::Ready(n as usize)),
                Ok(Some(request)) => Ok(ReadPoll::Pending(request)),
                Err(e) => Err(e),
            },
        }
    }

    /// The state after polling a read of `n` bytes. A served read moves the
    /// read position; a new request becomes outstanding; a read that waits
    /// and a read that is refused change nothing.
    pub open spec fn after_poll_read(self, n: nat) -> StreamerState {
        match (self.phase, self.poll_read(n)) {
            (Phase::InFlight(_), _) => self,
            (_, Ok(ReadPoll::Ready(_))) => StreamerState {
                cursor: self.cursor.advance(n),
                phase: Phase::Idle,
            },
            (_, Ok(ReadPoll::Pending(request))) => StreamerState {
                phase: Phase::InFlight(request),
                ..self
            },
            (_, Err(_)) => self,
        }
    }

    /// What handing over the result of a fetch yields, and the state after
    /// it. With no request outstanding the result is refused. Otherwise the
    /// request is settled: a response that the cursor admits refills the
    /// window, and anything else leaves the cursor as it was.
    pub open spec fn read_more<E>(self, response: Result<RangeOutput, E>) -> (
        Result<(), ReadError<E>>,
        StreamerState,
    ) {
        match self.phase {
            Phase::InFlight(request) => {
                let (outcome, cursor) = self.cursor.complete(request.length, response);
                (
                    outcome,
                    StreamerState {
                        cursor,
                        phase: if outcome is Ok {
                            Phase::Refilled
                        } else {
                            Phase::Idle
                        },
                    },
                )
            },
            _ => (Err(ReadError::Range(RangeError::Unsolicited)), self),
        }
    }

    /// The state after a seek: where the seek is accepted the cursor moves
    /// and whatever was outstanding is given up; where it is refused nothing
    /// changes.
    pub open spec fn after_seek(self, pos: SeekFrom) -> StreamerState {
        if self.cursor.seek(pos) is Ok {
            StreamerState { cursor: self.cursor.after_seek(pos), phase: Phase::Idle }
        } else {
            self
        }
    }
}

/// Sequential reads and seeks over a stream whose ranges are fetched by
/// someone else, one request at a time.
///
/// One streamer serves one reader: it must not be driven by two tasks at
/// once.
pub struct RangedStreamer {
    cursor: Cursor,
    phase: Phase,
}

impl View for RangedStreamer {
    type V = StreamerState;

    closed spec fn view(&self) -> StreamerState {
        StreamerState { cursor: self.cursor@, phase: self.phase }
    }
}

impl RangedStreamer {
    /// The invariant that every operation keeps.
    pub open spec fn wf(&self) -> bool {
        self@.wf() && self@.cursor.fits()
    }

    /// A streamer at the start of a stream of `length` bytes, whose
    /// refills bring the window to at least `min_size` bytes.
    pub fn new(length: usize, min_size: usize) -> (streamer: Self)
        ensures
            streamer.wf(),
            streamer@ == StreamerState::fresh(length as nat, min_size as nat),
    {
        RangedStreamer { cursor: Cursor::new(length, min_size, Vec::new()), phase: Phase::Idle }
    }

    /// The absolute offset of the next byte that a read delivers.
    pub fn position(&self) -> (position: u64)
        requires
            self.wf(),
        ensures
            position == self@.cursor.position(),
    {
        self.cursor.position()
    }

    /// The request whose response is awaited, if there is one.
    pub fn outstanding(&self) -> (request: Option<RangeRequest>)
        ensures
            request == match self@.phase {
                Phase::InFlight(request) => Some(request),
                _ => None,
            },
    {
        match self.phase {
            Phase::InFlight(request) => Some(request),
            _ => None,
        }
    }

    /// Tries to read exactly `buf.len()` bytes at the read position.
    ///
    /// The read is either served in full from the window, or nothing is
    /// delivered and the request that it waits for is returned. Polling
    /// again while that request is outstanding returns the same request.
    ///
    /// A streamer on a stream stays on it, and a read that is served and
    /// ends within the stream delivers the bytes of the stream at the read
    /// position.
    pub fn poll_read(&mut self, buf: &mut [u8]) -> (outcome: Result<ReadPoll, RangeError>)
        requires
            old(self).wf(),
        ensures
            final(self).wf(),
            outcome == old(self)@.poll_read(old(buf)@.len()),
            final(self)@ == old(self)@.after_poll_read(old(buf)@.len()),
            outcome matches Ok(ReadPoll::Ready(count)) ==> {
                &&& count == old(buf)@.len()
                &&& final(self)@.cursor.position() == old(self)@.cursor.position() + count
            },
            !(outcome matches Ok(ReadPoll::Ready(_))) ==> final(self)@.cursor == old(self)@.cursor,
            final(buf)@ == if outcome matches Ok(ReadPoll::Ready(_)) {
                old(self)@.cursor.pending().take(old(buf)@.len() as int)
            } else {
                old(buf)@
            },
            forall|src: Seq<u8>| #[trigger]
                old(self)@.cursor.tracks(src) ==> {
                    &&& final(self)@.cursor.tracks(src)
                    &&& (outcome matches Ok(ReadPoll::Ready(_)) && old(self)@.cursor.position() + old(
                        buf,
                    )@.len() <= src.len()) ==> final(buf)@ == old(self)@.cursor.ahead(
                        src,
                        old(buf)@.len(),
                    )
                },
    {
        let to_consume = buf.len();
        proof {
            assert forall|src: Seq<u8>| #[trigger]
                self@.cursor.tracks(src) && to_consume <= self@.cursor.remaining() implies {
                &&& self@.cursor.advance(to_consume as nat).tracks(src)
                &&& self@.cursor.position() + to_consume <= src.len() ==> self@.cursor.pending().take(
                    to_consume as int,
                ) == self@.cursor.ahead(src, to_consume as nat)
            } by {
                self@.cursor.lemma_advance_tracks(src, to_consume as nat);
                if self@.cursor.position() + to_consume <= src.len() {
                    self@.cursor.lemma_pending_is_stream(src, to_consume as nat);
                }
            }
        }
        match self.phase {
            Phase::InFlight(request) => {
                return Ok(ReadPoll::Pending(request));
            },
            Phase::Refilled => {
                if to_consume <= self.cursor.remaining() {
                    self.cursor.deliver(buf);
                    self.phase = Phase::Idle;
                    return Ok(ReadPoll::Ready(to_consume));
                }
            },
            Phase::Idle => {},
        }
        match self.cursor.request(to_consume) {
            Ok(None) => {
                self.cursor.deliver(buf);
                self.phase = Phase::Idle;
                Ok(ReadPoll::Ready(to_consume))
            },
            Ok(Some(request)) => {
                self.phase = Phase::InFlight(request);
                Ok(ReadPoll::Pending(request))
            },
            Err(e) => Err(e),
        }
    }

    /// Settles the outstanding request with what its fetch came back with.
    ///
    /// A response that repeats the start of the request and holds as many
    /// bytes as were asked for refills the window, and the next poll
    /// serves the read. A failed fetch is reported with its own error. A
    /// response that starts elsewhere or has another length is refused, and
    /// so is any result while nothing is outstanding. In each of these
    /// cases no byte of the response reaches the window.
    ///
    /// A streamer on a stream stays on it if the bytes of the response
    /// are those of the stream at the start that the response names.
    pub fn read_more<E>(&mut self, response: Result<RangeOutput, E>) -> (outcome: Result<
        (),
        ReadError<E>,
    >)
        requires
            old(self).wf(),
        ensures
            final(self).wf(),
            (outcome, final(self)@) == old(self)@.read_more(response),
            final(self)@.cursor.position() == old(self)@.cursor.position(),
            outcome is Err ==> final(self)@.cursor == old(self)@.cursor,
            (old(self)@.phase matches Phase::InFlight(request) && response matches Ok(output)
                && output.start != request.start) ==> {
                &&& outcome == Err::<(), ReadError<E>>(ReadError::Range(RangeError::StartMismatch))
                &&& final(self)@.cursor == old(self)@.cursor
            },
            forall|src: Seq<u8>|
                {
                    &&& #[trigger] old(self)@.cursor.tracks(src)
                    &&& response matches Ok(output) ==> agree(output.data@, src, output.start as int)
                } ==> final(self)@.cursor.tracks(src),
    {
        proof {
            assert forall|src: Seq<u8>|
                {
                    &&& #[trigger] self@.cursor.tracks(src)
                    &&& response matches Ok(output) && agree(output.data@, src, self@.cursor.next_fetch as int)
                } implies self@.cursor.refill(response->Ok_0.data@).tracks(src) by {
                self@.cursor.lemma_refill_tracks(src, response->Ok_0.data@);
            }
        }
        match self.phase {
            Phase::InFlight(request) => {
                let outcome = self.cursor.complete(request.length, response);
                self.phase = if outcome.is_ok() {
                    Phase::Refilled
                } else {
                    Phase::Idle
                };
                outcome
            },
            _ => Err(ReadError::Range(RangeError::Unsolicited)),
        }
    }

    /// Moves the read position without fetching anything. An accepted seek
    /// empties the window and gives up the outstanding request, so that a
    /// response that still arrives for it is refused. A target before the
    /// start of the stream or past `u64::MAX` is refused, and the streamer
    /// stays as it was.
    pub fn poll_seek(&mut self, pos: SeekFrom) -> (outcome: Result<u64, RangeError>)
        requires
            old(self).wf(),
        ensures
            final(self).wf(),
            outcome == old(self)@.cursor.seek(pos),
            final(self)@ == old(self)@.after_seek(pos),
    {
        let outcome = self.cursor.seek(pos);
        if outcome.is_ok() {
            self.phase = Phase::Idle;
        }
        outcome
    }
}

} // verus!
