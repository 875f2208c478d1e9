//! What buffered streams, whole reads and the simple readers and writers come to.

use crate::io;
use crate::io::buf::{BufStream, BufWriter};
use crate::io::byte_calls;
use crate::io::ext;
use crate::io::ops::{Empty, Repeat, Sink};
use crate::io::{AsyncRead, AsyncWrite, IoError};
use crate::poll::Poll;
use vstd::prelude::*;

verus! {

/// A read of a buffered stream gives something only once all that was written has been
/// passed on. What it gives is the front of what is at hand, or of what the stream
/// underneath has given for as much as the buffer holds; the rest stays at hand.
pub proof fn law_buffered_streams_flush_before_they_read<S: AsyncRead + AsyncWrite>(
    before: BufStream<S>,
    after: BufStream<S>,
    room: nat,
    got: Seq<u8>,
    poll: Poll<Result<(), IoError>>,
)
    requires
        BufStream::<S>::reads(before, after, room, got, poll),
    ensures
        io::succeeded(poll) ==> after.pending().len() == 0,
        got.len() > 0 ==> after.pending().len() == 0,
        got.len() <= room,
        before.buffered().len() > 0 ==> got + after.buffered() == before.buffered(),
        before.buffered().len() > 0 && io::succeeded(poll) ==> got.len() == room
            || after.buffered().len() == 0,
        before.buffered().len() == 0 && io::succeeded(poll) ==> exists|flushed: S| #[trigger]
            S::reads(
                flushed,
                after.stream(),
                before.read_capacity(),
                got + after.buffered(),
                poll,
            ),
        after.read_capacity() == before.read_capacity(),
        after.write_capacity() == before.write_capacity(),
{
    let (flushed, flush) = choose|flushed: BufStream<S>, flush: Poll<Result<(), IoError>>|
        {
            &&& #[trigger] BufStream::<S>::drains(before, flushed, flush)
            &&& if io::succeeded(flush) {
                exists|middle: BufStream<S>|
                    {
                        let amount = io::buf::shorter(middle.buffered().len(), room) as int;
                        &&& #[trigger] BufStream::<S>::filled(flushed, middle, poll)
                        &&& got == middle.buffered().take(amount)
                        &&& after.buffered() == middle.buffered().skip(amount)
                        &&& after.pending() == middle.pending()
                        &&& after.stream() == middle.stream()
                        &&& after.read_capacity() == middle.read_capacity()
                        &&& after.write_capacity() == middle.write_capacity()
                    }
            } else {
                &&& after == flushed
                &&& got.len() == 0
                &&& poll == flush
            }
        };
    byte_calls::law_flushing_leaves_the_rest(
        before.stream(),
        flushed.stream(),
        before.pending(),
        flushed.pending(),
        "eddy: buffered stream made no progress",
        flush,
    );
    if io::succeeded(flush) {
        let middle = choose|middle: BufStream<S>|
            {
                let amount = io::buf::shorter(middle.buffered().len(), room) as int;
                &&& #[trigger] BufStream::<S>::filled(flushed, middle, poll)
                &&& got == middle.buffered().take(amount)
                &&& after.buffered() == middle.buffered().skip(amount)
                &&& after.pending() == middle.pending()
                &&& after.stream() == middle.stream()
                &&& after.read_capacity() == middle.read_capacity()
                &&& after.write_capacity() == middle.write_capacity()
            };
        assert(got + after.buffered() =~= middle.buffered());
        if before.buffered().len() == 0 {
            assert(S::reads(
                flushed.stream(),
                after.stream(),
                before.read_capacity(),
                got + after.buffered(),
                poll,
            ));
        }
    } else {
        assert(got + after.buffered() =~= after.buffered());
    }
}

/// A write to a buffered stream with room is queued behind what is queued, as much of it as
/// fits; what is at hand for reading stays. A full queue is passed on before.
pub proof fn law_buffered_streams_queue_what_fits<S: AsyncRead + AsyncWrite>(
    before: BufStream<S>,
    after: BufStream<S>,
    data: Seq<u8>,
    poll: Poll<Result<usize, IoError>>,
)
    requires
        BufStream::<S>::writes(before, after, data, poll),
        before.pending().len() <= before.write_capacity(),
    ensures
        data.len() == 0 ==> after == before && poll is Ready && poll->Ready_0 is Ok
            && poll->Ready_0->Ok_0 == 0,
        data.len() > 0 && before.pending().len() < before.write_capacity() ==> {
            let count = poll->Ready_0->Ok_0;
            &&& poll is Ready && poll->Ready_0 is Ok
            &&& count <= data.len()
            &&& after.pending() == before.pending() + data.take(count as int)
            &&& after.pending().len() <= before.write_capacity()
            &&& count == data.len() || after.pending().len() == before.write_capacity()
            &&& after.stream() == before.stream()
        },
        data.len() > 0 && before.pending().len() == before.write_capacity() && poll is Ready
            && poll->Ready_0 is Ok ==> after.pending() == data.take(
            poll->Ready_0->Ok_0 as int,
        ) && poll->Ready_0->Ok_0 <= data.len(),
        after.buffered() == before.buffered(),
{
    if data.len() > 0 && !(before.pending().len() < before.write_capacity()) {
        let (middle, flush) = choose|middle: BufStream<S>, flush: Poll<Result<(), IoError>>|
            {
                &&& #[trigger] BufStream::<S>::drains(before, middle, flush)
                &&& if io::succeeded(flush) {
                    BufStream::<S>::accepts(middle, after, data, poll)
                } else {
                    &&& BufStream::<S>::same_but_queue(middle, after)
                    &&& after.pending() == middle.pending()
                    &&& io::buf::without_value(poll) == flush
                }
            };
        byte_calls::law_flushing_leaves_the_rest(
            before.stream(),
            middle.stream(),
            before.pending(),
            middle.pending(),
            "eddy: buffered stream made no progress",
            flush,
        );
        if io::succeeded(flush) {
            let count = poll->Ready_0->Ok_0 as int;
            assert(middle.pending() + data.take(count) =~= data.take(count));
        }
    }
}

/// A buffered writer that is full passes on what it has before it takes more, and says so
/// where it cannot.
pub proof fn law_full_writers_make_room_first<W: AsyncWrite>(
    before: BufWriter<W>,
    after: BufWriter<W>,
    data: Seq<u8>,
    poll: Poll<Result<usize, IoError>>,
)
    requires
        BufWriter::<W>::writes(before, after, data, poll),
        data.len() > 0,
        before.pending().len() == before.capacity(),
    ensures
        exists|middle: BufWriter<W>, flush: Poll<Result<(), IoError>>|
            {
                &&& #[trigger] BufWriter::<W>::drains(before, middle, flush)
                &&& io::succeeded(flush) ==> middle.pending().len() == 0 && BufWriter::<W>::accepts(
                    middle,
                    after,
                    data,
                    poll,
                )
                &&& flush is Pending ==> poll is Pending
                &&& flush is Ready && flush->Ready_0 is Err ==> poll is Ready && poll->Ready_0
                    is Err && poll->Ready_0->Err_0 == flush->Ready_0->Err_0
            },
{
    let (middle, flush) = choose|middle: BufWriter<W>, flush: Poll<Result<(), IoError>>|
        {
            &&& #[trigger] BufWriter::<W>::drains(before, middle, flush)
            &&& if io::succeeded(flush) {
                BufWriter::<W>::accepts(middle, after, data, poll)
            } else {
                &&& after.sink() == middle.sink()
                &&& after.pending() == middle.pending()
                &&& after.capacity() == middle.capacity()
                &&& io::buf::without_value(poll) == flush
            }
        };
    byte_calls::law_flushing_leaves_the_rest(
        before.sink(),
        middle.sink(),
        before.pending(),
        middle.pending(),
        "eddy: buffered writer made no progress",
        flush,
    );
    assert(BufWriter::<W>::drains(before, middle, flush));
}

/// Reading to the end is over where a read of 8192 bytes gives nothing; it waits and fails as
/// the last read does.
pub proof fn law_the_end_is_where_nothing_comes<R: AsyncRead>(
    first: R,
    trace: Seq<(R, Seq<u8>)>,
    after: R,
    got: Seq<u8>,
    total: usize,
    poll: Poll<Result<usize, IoError>>,
)
    requires
        ext::read_up(first, trace, after, got, total as nat, poll),
    ensures
        got == io::received_bytes(trace),
        io::received_pieces(first, trace, 8192),
        exists|outcome: Poll<Result<(), IoError>>|
            {
                &&& #[trigger] R::reads(
                    io::reached(first, trace),
                    after,
                    8192,
                    Seq::empty(),
                    outcome,
                )
                &&& outcome is Pending <==> poll is Pending
                &&& io::succeeded(outcome) <==> poll is Ready && poll->Ready_0 is Ok
                &&& outcome is Ready && outcome->Ready_0 is Err ==> poll->Ready_0->Err_0
                    == outcome->Ready_0->Err_0
            },
        poll is Ready && poll->Ready_0 is Ok ==> poll->Ready_0->Ok_0 == total,
{
}

/// A search is over with the delimiter, or where a read of one byte gives nothing; a
/// delimiter stands at the end of what was read alone.
pub proof fn law_a_search_ends_with_its_delimiter<R: AsyncRead>(
    first: R,
    trace: Seq<(R, Seq<u8>)>,
    after: R,
    delimiter: u8,
    got: Seq<u8>,
    total: usize,
    poll: Poll<Result<usize, IoError>>,
)
    requires
        ext::searched(first, trace, after, delimiter, got, total as nat, poll),
    ensures
        io::received_pieces(first, trace, 1),
        forall|i: int| 0 <= i < got.len() - 1 ==> #[trigger] got[i] != delimiter,
        got.len() > 0 && got[got.len() - 1] == delimiter ==> poll is Ready && poll->Ready_0 is Ok
            && after == io::reached(first, trace),
        !(got.len() > 0 && got[got.len() - 1] == delimiter) ==> exists|
            outcome: Poll<Result<(), IoError>>,
        |
            #[trigger] R::reads(io::reached(first, trace), after, 1, Seq::empty(), outcome) && (
            outcome is Pending <==> poll is Pending) && (io::succeeded(outcome) <==> poll is Ready
                && poll->Ready_0 is Ok),
        poll is Ready && poll->Ready_0 is Ok ==> poll->Ready_0->Ok_0 == total,
{
}

/// The pieces that come in one after the other are what was read, in order.
pub proof fn law_pieces_are_put_together<R>(trace: Seq<(R, Seq<u8>)>, last: (R, Seq<u8>))
    ensures
        io::received_bytes(Seq::<(R, Seq<u8>)>::empty()).len() == 0,
        io::received_bytes(trace.push(last)) == io::received_bytes(trace) + last.1,
        io::reached(last.0, Seq::<(R, Seq<u8>)>::empty()) == last.0,
        io::reached(last.0, trace.push(last)) == last.0,
{
    assert(trace.push(last).drop_last() =~= trace);
}

/// An empty reader gives nothing and never waits; a sink takes all; a repeating reader fills
/// all the room with its byte.
pub proof fn law_simple_readers_and_writers(
    empty: (Empty, Empty),
    sink: (Sink, Sink),
    repeat: (Repeat, Repeat),
    room: nat,
    got: Seq<u8>,
    data: Seq<u8>,
    read: Poll<Result<(), IoError>>,
    written: Poll<Result<usize, IoError>>,
)
    ensures
        <Empty as AsyncRead>::reads(empty.0, empty.1, room, got, read) ==> got.len() == 0
            && io::succeeded(read),
        <Sink as AsyncWrite>::writes(sink.0, sink.1, data, written) ==> written is Ready
            && written->Ready_0 is Ok && written->Ready_0->Ok_0 == data.len(),
        <Sink as AsyncWrite>::flushes(sink.0, sink.1, read) ==> io::succeeded(read),
        <Sink as AsyncWrite>::shuts_down(sink.0, sink.1, read) ==> io::succeeded(read),
        <Repeat as AsyncRead>::reads(repeat.0, repeat.1, room, got, read) ==> got.len() == room
            && io::succeeded(read) && forall|i: int|
            0 <= i < room ==> #[trigger] got[i] == repeat.0.value(),
        forall|byte: u8, reader: Repeat| #[trigger]
            call_ensures(io::ops::repeat, (byte,), reader) ==> reader.value() == byte,
{
}

/// A buffered stream begins empty, around what it was given, with 8192 bytes of room each way
/// or as many as were asked for.
pub proof fn law_buffered_streams_begin_empty<S: AsyncRead + AsyncWrite>()
    ensures
        forall|inner: S, stream: BufStream<S>| #[trigger]
            call_ensures(BufStream::<S>::new, (inner,), stream) ==> stream.stream() == inner
                && stream.buffered().len() == 0 && stream.pending().len() == 0
                && stream.read_capacity() == 8192 && stream.write_capacity() == 8192,
        forall|capacity: usize, inner: S, stream: BufStream<S>| #[trigger]
            call_ensures(BufStream::<S>::with_capacity, (capacity, inner), stream)
                ==> stream.stream() == inner && stream.buffered().len() == 0
                && stream.pending().len() == 0 && stream.read_capacity() == capacity
                && stream.write_capacity() == capacity,
        forall|stream: BufStream<S>, inner: S| #[trigger]
            call_ensures(BufStream::<S>::into_inner, (stream,), inner) ==> inner
                == stream.stream(),
{
}

} // verus!
