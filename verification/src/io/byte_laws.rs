//! What becomes of bytes on their way: whole buffers, lines, buffered ends, addresses.

use crate::io;
use crate::io::buf::{BufReader, BufWriter};
use crate::io::driver::{IoModel, ReadyEvent};
use crate::io::ext;
use crate::io::net;
use crate::io::net::{Family, RawAddress, SocketAddress};
use crate::io::ops;
use crate::io::{AsyncRead, AsyncWrite, ErrorKind, Interest, IoError};
use crate::poll::Poll;
use vstd::prelude::*;

verus! {

// ---------------------------------------------------------------------------
// Whole buffers
// ---------------------------------------------------------------------------

/// Filling a buffer succeeds exactly when it is full. It ends early only where a read does:
/// for as long as the reader waits, with its error, or, where a read that had room gave
/// nothing, because the end came too early. What was read before stays.
pub proof fn law_a_buffer_is_filled_or_the_end_came_too_early<R: AsyncRead>(
    first: R,
    trace: Seq<(R, Seq<u8>)>,
    after: R,
    room: nat,
    got: Seq<u8>,
    poll: Poll<Result<(), IoError>>,
)
    requires
        ext::read_whole(first, trace, after, room, got, poll),
    ensures
        got.len() <= room,
        io::succeeded(poll) <==> got.len() == room,
        got.len() < room ==> exists|outcome: Poll<Result<(), IoError>>|
            {
                &&& #[trigger] R::reads(
                    io::reached(first, trace),
                    after,
                    (room - got.len()) as nat,
                    Seq::empty(),
                    outcome,
                )
                &&& match outcome {
                    Poll::Pending => poll is Pending,
                    Poll::Ready(Ok(_)) => poll is Ready && poll->Ready_0 is Err
                        && poll->Ready_0->Err_0.kind == ErrorKind::UnexpectedEof,
                    Poll::Ready(Err(error)) => poll is Ready && poll->Ready_0 is Err
                        && poll->Ready_0->Err_0 == error,
                }
            },
{
    lemma_received_len(first, trace, room);
    if got.len() < room {
        let stuck = IoError {
            kind: ErrorKind::UnexpectedEof,
            message: "eddy: EOF before read_exact filled the buffer",
        };
        let outcome = choose|outcome: Poll<Result<(), IoError>>|
            {
                &&& #[trigger] R::reads(
                    io::reached(first, trace),
                    after,
                    (room - got.len()) as nat,
                    Seq::empty(),
                    outcome,
                )
                &&& poll == io::read_end(outcome, stuck)
            };
        assert(R::reads(
            io::reached(first, trace),
            after,
            (room - got.len()) as nat,
            Seq::empty(),
            outcome,
        ));
    }
}

proof fn lemma_received_len<R: AsyncRead>(first: R, trace: Seq<(R, Seq<u8>)>, room: nat)
    requires
        io::received(first, trace, room),
    ensures
        io::received_bytes(trace).len() <= room,
{
}

/// Writing a buffer succeeds exactly when all of it is taken. It ends early only where a
/// write does: for as long as the writer waits, with its error, or because a write took
/// nothing.
pub proof fn law_a_buffer_is_written_or_the_writer_stuck<W: AsyncWrite>(
    first: W,
    trace: Seq<(W, usize)>,
    after: W,
    data: Seq<u8>,
    count: int,
    poll: Poll<Result<(), IoError>>,
)
    requires
        ext::wrote_whole(first, trace, after, data, count, poll),
    ensures
        count <= data.len(),
        io::succeeded(poll) <==> count == data.len(),
        count < data.len() ==> exists|outcome: Poll<Result<usize, IoError>>|
            {
                &&& #[trigger] W::writes(
                    io::reached(first, trace),
                    after,
                    data.skip(count),
                    outcome,
                )
                &&& match outcome {
                    Poll::Pending => poll is Pending,
                    Poll::Ready(Ok(taken)) => taken == 0 && poll is Ready && poll->Ready_0 is Err
                        && poll->Ready_0->Err_0.kind == ErrorKind::WriteZero,
                    Poll::Ready(Err(error)) => poll is Ready && poll->Ready_0 is Err
                        && poll->Ready_0->Err_0 == error,
                }
            },
{
    if count != data.len() {
        let stuck = IoError {
            kind: ErrorKind::WriteZero,
            message: "eddy: write returned zero before the buffer was complete",
        };
        let outcome = choose|outcome: Poll<Result<usize, IoError>>|
            {
                &&& #[trigger] W::writes(
                    io::reached(first, trace),
                    after,
                    data.skip(count),
                    outcome,
                )
                &&& io::write_end(outcome, stuck) == Some(poll)
            };
        assert(W::writes(io::reached(first, trace), after, data.skip(count), outcome));
    }
}

/// What was read as text is added once all of it is there: all of it where it is UTF-8, and
/// nothing where it is not. Until then it waits, and the output is left alone.
pub proof fn law_text_is_added_whole(
    all: Seq<u8>,
    read: Poll<Result<usize, IoError>>,
    bytes_after: Seq<u8>,
    output: Seq<char>,
    output_after: Seq<char>,
    poll: Poll<Result<usize, IoError>>,
)
    requires
        ext::read_text(all, read, bytes_after, output, output_after, poll),
    ensures
        read is Pending ==> poll is Pending && bytes_after == all && output_after == output,
        poll is Pending ==> read is Pending,
        poll is Ready && poll->Ready_0 is Ok ==> {
            &&& read is Ready && read->Ready_0 is Ok
            &&& poll->Ready_0->Ok_0 == read->Ready_0->Ok_0
            &&& vstd::utf8::valid_utf8(all)
            &&& output_after.take(output.len() as int) == output
            &&& output_after.skip(output.len() as int) == vstd::utf8::decode_utf8(all)
        },
        poll is Ready && poll->Ready_0 is Err ==> output_after == output,
        read is Ready && read->Ready_0 is Ok && !vstd::utf8::valid_utf8(all) ==> poll is Ready
            && poll->Ready_0 is Err && poll->Ready_0->Err_0.kind == ErrorKind::InvalidData,
        read is Ready && read->Ready_0 is Err ==> poll is Ready && poll->Ready_0 is Err
            && poll->Ready_0->Err_0 == read->Ready_0->Err_0,
{
    if poll is Ready && poll->Ready_0 is Ok {
        assert(output_after.take(output.len() as int) =~= output);
        assert(output_after.skip(output.len() as int) =~= vstd::utf8::decode_utf8(all));
    }
}

/// A delimiter ends what stands before it: what is found through the first delimiter has it
/// at its end and nowhere else, and is all where there is none.
pub proof fn law_through_the_first_delimiter(bytes: Seq<u8>, delimiter: u8)
    ensures
        ({
            let found = ext::through_delimiter(bytes, delimiter);
            &&& found.len() <= bytes.len()
            &&& found == bytes.take(found.len() as int)
            &&& forall|i: int| 0 <= i < found.len() - 1 ==> #[trigger] found[i] != delimiter
            &&& found.len() < bytes.len() ==> found.len() > 0 && found.last() == delimiter
        }),
    decreases bytes.len(),
{
    let found = ext::through_delimiter(bytes, delimiter);
    if bytes.len() == 0 {
        assert(found =~= bytes.take(0));
    } else if bytes[0] == delimiter {
        assert(found =~= bytes.take(1));
    } else {
        let rest = bytes.drop_first();
        law_through_the_first_delimiter(rest, delimiter);
        let more = ext::through_delimiter(rest, delimiter);
        assert(found =~= seq![bytes[0]] + more);
        assert(found =~= bytes.take(found.len() as int)) by {
            assert forall|i: int| 0 <= i < found.len() implies found[i] == bytes[i] by {
                if i > 0 {
                    assert(found[i] == more[i - 1]);
                    assert(more[i - 1] == rest.take(more.len() as int)[i - 1]);
                }
            }
        }
        assert forall|i: int| 0 <= i < found.len() - 1 implies #[trigger] found[i] != delimiter by {
            if i > 0 {
                assert(found[i] == more[i - 1]);
            }
        }
        if found.len() < bytes.len() {
            assert(more.len() < rest.len());
            assert(found.last() == more.last());
        }
    }
}

// ---------------------------------------------------------------------------
// Copying
// ---------------------------------------------------------------------------

/// A copy goes on where a write took something or a read gave something, is done where a
/// read gave nothing, and fails where a write took nothing.
pub proof fn law_steps_of_a_copy(
    written: Poll<Result<usize, IoError>>,
    read: Poll<Result<(), IoError>>,
    got: nat,
    stuck: &'static str,
)
    ensures
        ({
            let wrote = ops::DirectionState::wrote_attempt(written, stuck);
            &&& wrote is Pending <==> written is Pending
            &&& wrote is Progress <==> written is Ready && written->Ready_0 is Ok
                && written->Ready_0->Ok_0 > 0
            &&& wrote is Failed <==> written is Ready && (written->Ready_0 is Err
                || written->Ready_0->Ok_0 == 0)
            &&& written is Ready && written->Ready_0 is Err ==> wrote->Failed_0
                == written->Ready_0->Err_0
            &&& written is Ready && written->Ready_0 is Ok && written->Ready_0->Ok_0 == 0
                ==> wrote->Failed_0.kind == ErrorKind::WriteZero && wrote->Failed_0.message == stuck
        }),
        ({
            let fetched = ops::DirectionState::fetched_attempt(read, got);
            &&& fetched is Pending <==> read is Pending
            &&& fetched is Progress <==> read is Ready && read->Ready_0 is Ok && got > 0
            &&& fetched is Done <==> read is Ready && read->Ready_0 is Ok && got == 0
            &&& fetched is Failed <==> read is Ready && read->Ready_0 is Err
            &&& fetched is Failed ==> fetched->Failed_0 == read->Ready_0->Err_0
        }),
{
}

// ---------------------------------------------------------------------------
// Buffers
// ---------------------------------------------------------------------------

/// A buffered reader hands out what it has before it asks for more, and then asks for as
/// much as its buffer holds.
pub proof fn law_buffered_readers_use_what_they_have<R: AsyncRead>(
    before: BufReader<R>,
    after: BufReader<R>,
    poll: Poll<Result<(), IoError>>,
)
    requires
        BufReader::filled(before, after, poll),
    ensures
        before.buffered().len() > 0 ==> after == before && io::succeeded(poll),
        before.buffered().len() == 0 ==> R::reads(
            before.source(),
            after.source(),
            before.capacity(),
            after.buffered(),
            poll,
        ),
{
}

/// A buffered writer that finds room queues as much as fits, behind what is queued, and
/// asks nothing of the writer underneath. What would fill an empty buffer goes straight
/// through.
pub proof fn law_buffered_writers_queue_what_fits<W: AsyncWrite>(
    before: BufWriter<W>,
    after: BufWriter<W>,
    data: Seq<u8>,
    poll: Poll<Result<usize, IoError>>,
)
    requires
        BufWriter::accepts(before, after, data, poll),
        before.pending().len() <= before.capacity(),
    ensures
        ({
            let straight = before.pending().len() == 0 && data.len() >= before.capacity();
            let count = poll->Ready_0->Ok_0;
            &&& straight ==> after.pending() == before.pending() && W::writes(
                before.sink(),
                after.sink(),
                data,
                poll,
            )
            &&& !straight ==> {
                &&& poll is Ready && poll->Ready_0 is Ok
                &&& after.sink() == before.sink()
                &&& count <= data.len()
                &&& after.pending().len() <= before.capacity()
                &&& count == data.len() || after.pending().len() == before.capacity()
                &&& after.pending() == before.pending() + data.take(count as int)
            }
        }),
{
}

// ---------------------------------------------------------------------------
// Sockets
// ---------------------------------------------------------------------------

/// The kernel's form of an address names its family, holds its bytes in order and the port
/// with its higher byte first.
pub proof fn law_addresses_are_in_network_order(raw: RawAddress, addr: SocketAddress)
    requires
        net::stands_for(raw, addr),
    ensures
        match addr {
            SocketAddress::V4 { octets, port } => {
                &&& raw.family == Family::Inet
                &&& forall|i: int| 0 <= i < 4 ==> raw.v4@[i] == #[trigger] octets@[i]
                &&& raw.port@[0] == port / 256
                &&& raw.port@[1] == port % 256
            },
            SocketAddress::V6 { octets, port, flowinfo, scope_id } => {
                &&& raw.family == Family::Inet6
                &&& forall|i: int| 0 <= i < 16 ==> raw.v6@[i] == #[trigger] octets@[i]
                &&& raw.port@[0] == port / 256
                &&& raw.port@[1] == port % 256
                &&& raw.flowinfo == flowinfo
                &&& raw.scope_id == scope_id
            },
        },
{
}

/// A path fits where there is room for it and a zero behind it, and it holds no zero itself.
pub proof fn law_paths_that_fit(path: Seq<u8>, capacity: usize)
    ensures
        net::path_error(path, capacity) is None <==> path.len() + 1 <= capacity && forall|i: int|
            0 <= i < path.len() ==> #[trigger] path[i] != 0,
        path.len() + 1 > capacity ==> net::path_error(path, capacity) == Some(
            "eddy: Unix socket path is too long"@,
        ),
        path.len() + 1 <= capacity
            && path.contains(0u8) ==> net::path_error(path, capacity) == Some(
            "eddy: Unix socket path contains NUL"@,
        ),
{
    if path.contains(0u8) {
        let i = choose|i: int| 0 <= i < path.len() && path[i] == 0u8;
        assert(path[i] == 0);
    }
    if exists|i: int| 0 <= i < path.len() && #[trigger] path[i] == 0 {
        let i = choose|i: int| 0 <= i < path.len() && #[trigger] path[i] == 0;
        assert(path.contains(0u8));
    }
}

/// An operation that would block forgets the readiness that promised otherwise, where that
/// is what is known now, and keeps those who wait.
pub proof fn law_a_blocked_operation_clears_what_was_seen(
    io: IoModel,
    interest: Interest,
    event: ReadyEvent,
)
    requires
        !io.shutdown,
        io.seen(interest) is Some || event.ready == io.ready && event.generation == io.generation,
    ensures
        net::blocked(io, interest, event).ready.0 == 0,
        net::blocked(io, interest, event).waiting() == io.waiting(),
        net::blocked(io, interest, event).generation == io.generation,
{
}

} // verus!
