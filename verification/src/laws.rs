//! What holds of every cursor, whatever its minimum chunk size and however
//! its reads are cut: it delivers the bytes of the stream, in order, from
//! wherever it was told to go.
//!
//! The laws speak of the model in [`crate::state`], with the fetch
//! capability described by a function from ranges to bytes. The executable
//! readers are tied to that model by their contracts.

use crate::range::{RangeError, RangeOutput, RangeRequest, SeekFrom};
use crate::state::{agree, seek_target, CursorState};
use crate::stream::{Phase, ReadPoll, StreamerState};
use vstd::prelude::*;

verus! {

/// One operation on a reader: a read of so many bytes, or a seek.
pub enum Op {
    Read(nat),
    Seek(SeekFrom),
}

/// Whether `fetch` describes a fetch capability that serves the stream
/// `src`: it answers every range with as many bytes as were asked for,
/// and these are the bytes of `src` wherever the range lies within `src`.
pub open spec fn faithful(fetch: spec_fn(nat, nat) -> Seq<u8>, src: Seq<u8>) -> bool {
    forall|start: nat, length: nat|
        {
            &&& (#[trigger] fetch(start, length)).len() == length
            &&& agree(fetch(start, length), src, start as int)
        }
}

/// The state after one operation and the bytes it delivers, where `fetch`
/// answers the request of a read that makes one.
pub open spec fn step(cursor: CursorState, fetch: spec_fn(nat, nat) -> Seq<u8>, op: Op) -> (
    CursorState,
    Seq<u8>,
) {
    match op {
        Op::Read(n) => cursor.read(n, fetch(cursor.next_fetch, cursor.fetch_len(n))),
        Op::Seek(pos) => (cursor.after_seek(pos), Seq::empty()),
    }
}

/// The state after a sequence of operations, and all the bytes that they
/// deliver, in order.
pub open spec fn run(cursor: CursorState, fetch: spec_fn(nat, nat) -> Seq<u8>, ops: Seq<Op>) -> (
    CursorState,
    Seq<u8>,
)
    decreases ops.len(),
{
    if ops.len() == 0 {
        (cursor, Seq::empty())
    } else {
        let (next, head) = step(cursor, fetch, ops[0]);
        let (last, tail) = run(next, fetch, ops.drop_first());
        (last, head + tail)
    }
}

/// One operation read plainly: a position in `src` that a read moves
/// forward, delivering the bytes it passes, and that a seek sets.
pub open spec fn plain_step(src: Seq<u8>, position: nat, op: Op) -> (nat, Seq<u8>) {
    match op {
        Op::Read(n) => (position + n, src.subrange(position as int, (position + n) as int)),
        Op::Seek(pos) => {
            let target = seek_target(src.len(), position, pos);
            if 0 <= target <= u64::MAX {
                (target as nat, Seq::empty())
            } else {
                (position, Seq::empty())
            }
        },
    }
}

/// A sequence of operations read plainly.
pub open spec fn plain_run(src: Seq<u8>, position: nat, ops: Seq<Op>) -> (nat, Seq<u8>)
    decreases ops.len(),
{
    if ops.len() == 0 {
        (position, Seq::empty())
    } else {
        let (next, head) = plain_step(src, position, ops[0]);
        let (last, tail) = plain_run(src, next, ops.drop_first());
        (last, head + tail)
    }
}

/// Whether every read among `ops`, started at `position`, ends within
/// `src`.
pub open spec fn within(src: Seq<u8>, position: nat, ops: Seq<Op>) -> bool
    decreases ops.len(),
{
    ops.len() == 0 || {
        &&& ops[0] matches Op::Read(n) ==> position + n <= src.len()
        &&& within(src, plain_step(src, position, ops[0]).0, ops.drop_first())
    }
}

/// The reads of the given sizes, one after the other.
pub open spec fn reads(sizes: Seq<nat>) -> Seq<Op> {
    Seq::new(sizes.len(), |i: int| Op::Read(sizes[i]))
}

/// The sum of the given sizes.
pub open spec fn total(sizes: Seq<nat>) -> nat
    decreases sizes.len(),
{
    if sizes.len() == 0 {
        0
    } else {
        sizes[0] + total(sizes.drop_first())
    }
}

/// One operation of a cursor on a stream does what the plain reading says,
/// and leaves the cursor on the stream.
pub proof fn lemma_step_is_plain(
    cursor: CursorState,
    src: Seq<u8>,
    fetch: spec_fn(nat, nat) -> Seq<u8>,
    op: Op,
)
    requires
        cursor.tracks(src),
        faithful(fetch, src),
        op matches Op::Read(n) ==> cursor.position() + n <= src.len(),
    ensures
        step(cursor, fetch, op).1 == plain_step(src, cursor.position(), op).1,
        step(cursor, fetch, op).0.tracks(src),
        step(cursor, fetch, op).0.position() == plain_step(src, cursor.position(), op).0,
{
    match op {
        Op::Read(n) => {
            let data = fetch(cursor.next_fetch, cursor.fetch_len(n));
            let filled = if cursor.needs_fetch(n) {
                cursor.refill(data)
            } else {
                cursor
            };
            if cursor.needs_fetch(n) {
                cursor.lemma_refill_covers(n, data);
                cursor.lemma_refill_tracks(src, data);
            }
            filled.lemma_pending_is_stream(src, n);
            filled.lemma_advance_tracks(src, n);
        },
        Op::Seek(pos) => {
            let target = cursor.target(pos);
            if 0 <= target <= u64::MAX {
                cursor.lemma_seek_tracks(src, target as nat);
            }
        },
    }
}

/// A cursor on a stream, served faithfully, delivers for every sequence
/// of reads and seeks exactly the bytes that the plain reading of these
/// operations delivers, provided that each read ends within the stream.
/// Neither the minimum chunk size nor what the window held before shows.
pub proof fn lemma_run_is_plain(
    cursor: CursorState,
    src: Seq<u8>,
    fetch: spec_fn(nat, nat) -> Seq<u8>,
    ops: Seq<Op>,
)
    requires
        cursor.tracks(src),
        faithful(fetch, src),
        within(src, cursor.position(), ops),
    ensures
        run(cursor, fetch, ops).1 == plain_run(src, cursor.position(), ops).1,
        run(cursor, fetch, ops).0.tracks(src),
        run(cursor, fetch, ops).0.position() == plain_run(src, cursor.position(), ops).0,
    decreases ops.len(),
{
    if ops.len() > 0 {
        lemma_step_is_plain(cursor, src, fetch, ops[0]);
        lemma_run_is_plain(step(cursor, fetch, ops[0]).0, src, fetch, ops.drop_first());
    }
}

/// The plain reading of a single operation.
proof fn lemma_unfold_plain_one(src: Seq<u8>, position: nat, op: Op)
    ensures
        plain_run(src, position, seq![op]) == plain_step(src, position, op),
        within(src, position, seq![op]) == (op matches Op::Read(n) ==> position + n <= src.len()),
{
    let ops = seq![op];
    assert(plain_run(src, plain_step(src, position, op).0, ops.drop_first()).1 =~= Seq::<u8>::empty());
    assert(within(src, plain_step(src, position, op).0, ops.drop_first()));
}

/// The plain reading of two operations, one after the other.
proof fn lemma_unfold_plain_two(src: Seq<u8>, position: nat, first: Op, second: Op)
    ensures
        plain_run(src, position, seq![first, second]).0 == plain_step(
            src,
            plain_step(src, position, first).0,
            second,
        ).0,
        plain_run(src, position, seq![first, second]).1 == plain_step(src, position, first).1
            + plain_step(src, plain_step(src, position, first).0, second).1,
        within(src, position, seq![first, second]) == {
            &&& first matches Op::Read(n) ==> position + n <= src.len()
            &&& second matches Op::Read(n) ==> plain_step(src, position, first).0 + n <= src.len()
        },
{
    let ops = seq![first, second];
    assert(ops.drop_first() =~= seq![second]);
    lemma_unfold_plain_one(src, plain_step(src, position, first).0, second);
}

/// Reads read plainly deliver the stream from the position they start at,
/// over the sum of their sizes.
proof fn lemma_plain_reads(src: Seq<u8>, position: nat, sizes: Seq<nat>)
    requires
        position + total(sizes) <= src.len(),
    ensures
        within(src, position, reads(sizes)),
        plain_run(src, position, reads(sizes)).0 == position + total(sizes),
        plain_run(src, position, reads(sizes)).1 == src.subrange(
            position as int,
            (position + total(sizes)) as int,
        ),
    decreases sizes.len(),
{
    if sizes.len() > 0 {
        let rest = sizes.drop_first();
        assert(reads(sizes).drop_first() =~= reads(rest));
        lemma_plain_reads(src, position + sizes[0], rest);
    }
}

/// However a prefix of a stream is cut into reads, a reader that starts at
/// the beginning and is served faithfully delivers that prefix: the
/// results of the reads, one after the other, are the first bytes of the
/// stream, as many as the sizes of the reads add up to. This holds for
/// every minimum chunk size.
pub proof fn lemma_reads_deliver_prefix(
    src: Seq<u8>,
    min_chunk: nat,
    fetch: spec_fn(nat, nat) -> Seq<u8>,
    sizes: Seq<nat>,
)
    requires
        faithful(fetch, src),
        total(sizes) <= src.len(),
    ensures
        run(CursorState::fresh(src.len(), min_chunk), fetch, reads(sizes)).1 == src.subrange(
            0,
            total(sizes) as int,
        ),
{
    let cursor = CursorState::fresh(src.len(), min_chunk);
    lemma_plain_reads(src, 0, sizes);
    lemma_run_is_plain(cursor, src, fetch, reads(sizes));
}

/// A seek to `position` followed by a read of `n` bytes delivers what a
/// reader delivers that reads the stream from its start up to
/// `position + n` in one read, without the first `position` bytes. This
/// holds wherever the first reader stood before, and whatever the minimum
/// chunk sizes of the two readers are, as long as the read ends within the
/// stream.
pub proof fn lemma_seek_then_read(
    cursor: CursorState,
    src: Seq<u8>,
    fetch: spec_fn(nat, nat) -> Seq<u8>,
    position: u64,
    n: nat,
    scratch_min_chunk: nat,
    scratch_fetch: spec_fn(nat, nat) -> Seq<u8>,
)
    requires
        cursor.tracks(src),
        faithful(fetch, src),
        faithful(scratch_fetch, src),
        position + n <= src.len(),
    ensures
        run(cursor, fetch, seq![Op::Seek(SeekFrom::Start(position)), Op::Read(n)]).1 == run(
            CursorState::fresh(src.len(), scratch_min_chunk),
            scratch_fetch,
            seq![Op::Read(position as nat + n)],
        ).1.skip(position as int),
        run(cursor, fetch, seq![Op::Seek(SeekFrom::Start(position)), Op::Read(n)]).1 == src.subrange(
            position as int,
            position + n,
        ),
{
    let seek = Op::Seek(SeekFrom::Start(position));
    let start = CursorState::fresh(src.len(), scratch_min_chunk);
    lemma_unfold_plain_two(src, cursor.position(), seek, Op::Read(n));
    lemma_unfold_plain_one(src, 0, Op::Read(position as nat + n));
    lemma_run_is_plain(cursor, src, fetch, seq![seek, Op::Read(n)]);
    lemma_run_is_plain(start, src, scratch_fetch, seq![Op::Read(position as nat + n)]);
    assert(src.subrange(0, position + n).skip(position as int) =~= src.subrange(
        position as int,
        position + n,
    ));
}

/// Two cursors that stand at the same position of the same stream deliver
/// the same bytes for the same reads and seeks, whatever their minimum
/// chunk sizes are, whatever their windows hold, and whatever their fetch
/// capabilities return past the end of the stream.
pub proof fn lemma_same_position_same_bytes(
    one: CursorState,
    other: CursorState,
    src: Seq<u8>,
    fetch_one: spec_fn(nat, nat) -> Seq<u8>,
    fetch_other: spec_fn(nat, nat) -> Seq<u8>,
    ops: Seq<Op>,
)
    requires
        one.tracks(src),
        other.tracks(src),
        one.position() == other.position(),
        faithful(fetch_one, src),
        faithful(fetch_other, src),
        within(src, one.position(), ops),
    ensures
        run(one, fetch_one, ops).1 == run(other, fetch_other, ops).1,
        run(one, fetch_one, ops).0.position() == run(other, fetch_other, ops).0.position(),
{
    lemma_run_is_plain(one, src, fetch_one, ops);
    lemma_run_is_plain(other, src, fetch_other, ops);
}

/// The minimum chunk size changes which ranges are fetched, and never
/// which bytes are delivered: readers made over the same stream with
/// different minimum chunk sizes deliver the same bytes for the same reads
/// and seeks, as long as each read ends within the stream.
pub proof fn lemma_min_chunk_unobservable(
    src: Seq<u8>,
    min_chunk_one: nat,
    min_chunk_other: nat,
    fetch: spec_fn(nat, nat) -> Seq<u8>,
    ops: Seq<Op>,
)
    requires
        faithful(fetch, src),
        within(src, 0, ops),
    ensures
        run(CursorState::fresh(src.len(), min_chunk_one), fetch, ops).1 == run(
            CursorState::fresh(src.len(), min_chunk_other),
            fetch,
            ops,
        ).1,
{
    lemma_same_position_same_bytes(
        CursorState::fresh(src.len(), min_chunk_one),
        CursorState::fresh(src.len(), min_chunk_other),
        src,
        fetch,
        fetch,
        ops,
    );
}

/// A seek to an absolute or end-relative target, or by zero bytes from the
/// current position, can be repeated without effect.
pub proof fn lemma_seek_idempotent(cursor: CursorState, pos: SeekFrom)
    requires
        pos matches SeekFrom::Current(delta) ==> delta == 0,
    ensures
        cursor.after_seek(pos).after_seek(pos) == cursor.after_seek(pos),
        cursor.after_seek(pos).seek(pos) == cursor.seek(pos),
{
}

/// While a request is outstanding, no other request is made: every poll
/// names the outstanding request again and changes nothing.
pub proof fn lemma_one_request_outstanding(streamer: StreamerState, request: RangeRequest, n: nat)
    requires
        streamer.phase == Phase::InFlight(request),
    ensures
        streamer.poll_read(n) == Ok::<ReadPoll, RangeError>(ReadPoll::Pending(request)),
        streamer.after_poll_read(n) == streamer,
{
}

/// A read that is not served does not touch the cursor. If it is given up
/// while it waits for its response, the cursor is as if the read had never
/// been polled.
pub proof fn lemma_unserved_read_keeps_cursor(streamer: StreamerState, n: nat)
    ensures
        !(streamer.poll_read(n) matches Ok(ReadPoll::Ready(_))) ==> streamer.after_poll_read(n).cursor
            == streamer.cursor,
{
}

/// A streamer serves a read as the blocking reader does. Polled while
/// idle for a read that needs a fetch, it names the request of the
/// cursor; given a response that the cursor admits, it refills the
/// window; polled again for the same read, it delivers the bytes and ends
/// in the state that the cursor's own read gives.
pub proof fn lemma_streamer_reads_as_cursor<E>(
    streamer: StreamerState,
    n: nat,
    request: RangeRequest,
    output: RangeOutput,
)
    requires
        streamer.wf(),
        streamer.cursor.fits(),
        streamer.phase is Idle,
        n <= usize::MAX,
        streamer.cursor.request(n) == Ok::<Option<RangeRequest>, RangeError>(Some(request)),
        streamer.cursor.admits(request.length, output) is Ok,
    ensures
        ({
            let waiting = streamer.after_poll_read(n);
            let (settled, refilled) = waiting.read_more(Ok::<RangeOutput, E>(output));
            let served = refilled.after_poll_read(n);
            &&& streamer.poll_read(n) == Ok::<ReadPoll, RangeError>(ReadPoll::Pending(request))
            &&& waiting.phase == Phase::InFlight(request)
            &&& settled is Ok
            &&& refilled.poll_read(n) == Ok::<ReadPoll, RangeError>(ReadPoll::Ready(n as usize))
            &&& refilled.cursor.pending().take(n as int) == streamer.cursor.read(n, output.data@).1
            &&& served.cursor == streamer.cursor.read(n, output.data@).0
            &&& served.phase is Idle
        }),
{
    streamer.cursor.lemma_refill_covers(n, output.data@);
}

} // verus!
