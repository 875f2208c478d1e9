//! What calls do with bytes: copies, lines, counts and buffered ends.

use crate::io;
use crate::io::buf::{AsyncBufRead, BufReader, BufWriter, WriteQueue};
use crate::io::byte_laws;
use crate::io::ext;
use crate::io::ext::{Attempt, Lines};
use crate::io::ops;
use crate::io::ops::DirectionState;
use crate::io::{AsyncRead, AsyncWrite, IoError};
use crate::poll::Poll;
use vstd::prelude::*;

verus! {

// ---------------------------------------------------------------------------
// Copies
// ---------------------------------------------------------------------------

/// Whether bytes have gone from a source to a destination in their order, where so much was
/// on its way before and so much still is.
pub open spec fn passed_on<S: io::ByteFlow, D: io::ByteFlow>(
    source: (S, S),
    destination: (D, D),
    before: Seq<u8>,
    after: Seq<u8>,
    read: Seq<u8>,
    written: Seq<u8>,
) -> bool {
    &&& S::moves(source.0, source.1, read, Seq::empty())
    &&& D::moves(destination.0, destination.1, Seq::empty(), written)
    &&& before + read == written + after
}

/// A copy writes what it reads, in order, and keeps what it could not write yet; it counts
/// what it has written. It is done where its source has ended, nothing is on its way and the
/// writer is flushed.
pub proof fn law_a_copy_writes_what_it_reads<R: AsyncRead, W: AsyncWrite>()
    ensures
        forall|reader: &mut R, writer: &mut W, state: &mut DirectionState, attempt: Attempt<u64>|
            #[trigger]
            call_ensures(ops::copy::<R, W>, (reader, writer, state), attempt) ==> {
                &&& exists|read: Seq<u8>, written: Seq<u8>|
                    #[trigger] passed_on(
                        (*reader, *final(reader)),
                        (*writer, *final(writer)),
                        (*state).in_flight(),
                        (*final(state)).in_flight(),
                        read,
                        written,
                    ) && (*final(state)).total() == (*state).total() + written.len()
                &&& attempt is Done ==> (*final(state)).ended()
                    && (*final(state)).in_flight().len() == 0 && attempt->Done_0
                    == (*final(state)).total()
                &&& attempt is Progress ==> (*final(state)).total() + 8192 > u64::MAX
            },
        forall|reader: &mut R, writer: &mut W, state: &mut DirectionState, attempt: Attempt<u64>|
            #[trigger]
            call_ensures(ops::copy::<R, W>, (reader, writer, state), attempt)
                && attempt is Done ==> exists|unflushed: W, flush: Poll<Result<(), IoError>>|
                #[trigger] W::flushes(unflushed, *final(writer), flush) && io::succeeded(flush),
{
    assert forall|
        reader: &mut R,
        writer: &mut W,
        state: &mut DirectionState,
        attempt: Attempt<u64>,
    | #[trigger]
        call_ensures(ops::copy::<R, W>, (reader, writer, state), attempt) implies {
        &&& exists|read: Seq<u8>, written: Seq<u8>|
            #[trigger] passed_on(
                (*reader, *final(reader)),
                (*writer, *final(writer)),
                (*state).in_flight(),
                (*final(state)).in_flight(),
                read,
                written,
            ) && (*final(state)).total() == (*state).total() + written.len()
        &&& attempt is Done ==> (*final(state)).ended() && (*final(state)).in_flight().len() == 0
            && attempt->Done_0 == (*final(state)).total()
        &&& attempt is Progress ==> (*final(state)).total() + 8192 > u64::MAX
    } by {
        let (fetched, written) = choose|fetched: Seq<u8>, written: Seq<u8>| #[trigger]
            ops::carried(
                *reader,
                *final(reader),
                *writer,
                *final(writer),
                *state,
                *final(state),
                fetched,
                written,
            );
        assert(passed_on(
            (*reader, *final(reader)),
            (*writer, *final(writer)),
            (*state).in_flight(),
            (*final(state)).in_flight(),
            fetched,
            written,
        ));
    }
}

/// A copy in both directions writes to each end what it reads from the other. Where it is
/// done, both have ended and it gives the count of each, the one from left to right first.
pub proof fn law_an_exchange_writes_what_it_reads<
    A: AsyncRead + AsyncWrite,
    B: AsyncRead + AsyncWrite,
>()
    ensures
        forall|
            left: &mut A,
            right: &mut B,
            to_right: &mut DirectionState,
            to_left: &mut DirectionState,
            attempt: Attempt<(u64, u64)>,
        | #[trigger]
            call_ensures(
                ops::copy_bidirectional::<A, B>,
                (left, right, to_right, to_left),
                attempt,
            ) && attempt is Done && (*to_right).in_flight().len() == 0 && (
            *to_left).in_flight().len() == 0 && (*to_right).total() == 0 && (*to_left).total() == 0
                ==> exists|from_left: Seq<u8>, from_right: Seq<u8>|
                {
                    &&& #[trigger] A::moves(*left, *final(left), from_left, from_right)
                    &&& #[trigger] B::moves(*right, *final(right), from_right, from_left)
                    &&& attempt->Done_0.0 == from_left.len()
                    &&& attempt->Done_0.1 == from_right.len()
                },
{
    assert forall|
        left: &mut A,
        right: &mut B,
        to_right: &mut DirectionState,
        to_left: &mut DirectionState,
        attempt: Attempt<(u64, u64)>,
    | #[trigger]
        call_ensures(
            ops::copy_bidirectional::<A, B>,
            (left, right, to_right, to_left),
            attempt,
        ) && attempt is Done && (*to_right).in_flight().len() == 0 && (*to_left).in_flight().len()
            == 0 && (*to_right).total() == 0 && (*to_left).total() == 0 implies exists|
        from_left: Seq<u8>,
        from_right: Seq<u8>,
    |
        {
            &&& #[trigger] A::moves(*left, *final(left), from_left, from_right)
            &&& #[trigger] B::moves(*right, *final(right), from_right, from_left)
            &&& attempt->Done_0.0 == from_left.len()
            &&& attempt->Done_0.1 == from_right.len()
        } by {
        let (a, b, c, d) = choose|a: Seq<u8>, b: Seq<u8>, c: Seq<u8>, d: Seq<u8>| #[trigger]
            ops::exchanged(
                (*left, *final(left)),
                (*right, *final(right)),
                (*to_right, *final(to_right)),
                (*to_left, *final(to_left)),
                a,
                b,
                c,
                d,
            );
        ops::law_a_finished_exchange_is_faithful(
            (*left, *final(left)),
            (*right, *final(right)),
            (*to_right, *final(to_right)),
            (*to_left, *final(to_left)),
            a,
            b,
            c,
            d,
        );
        assert(A::moves(*left, *final(left), a, c));
        assert(B::moves(*right, *final(right), c, a));
    }
}

/// The first failure of two directions is theirs; they are done where both are, and go on
/// or wait otherwise.
pub proof fn law_two_directions_end_together(
    first: Attempt<()>,
    second: Attempt<()>,
    a: u64,
    b: u64,
)
    requires
        !(first is Failed),
    ensures
        ({
            let both = ops::both_attempts(first, second, a as nat, b as nat);
            &&& both is Failed <==> second is Failed
            &&& both is Failed ==> both->Failed_0 == second->Failed_0
            &&& both is Done <==> first is Done && second is Done
            &&& both is Done ==> both->Done_0 == (a, b)
            &&& both is Pending <==> !(second is Failed) && !(first is Progress) && !(
            second is Progress) && (first is Pending || second is Pending)
        }),
{
}

/// A step of a copy writes all that is on its way before it reads, reads at most 8192 bytes
/// at a time, and never both. It is done where nothing is on its way and its source has
/// ended.
pub proof fn law_a_copy_writes_before_it_reads<S: AsyncRead, D: AsyncWrite>(
    source: S,
    source_after: S,
    destination: D,
    destination_after: D,
    before: DirectionState,
    after: DirectionState,
    stuck: &'static str,
    attempt: Attempt<()>,
)
    requires
        ops::copy_stepped(
            source,
            source_after,
            destination,
            destination_after,
            before,
            after,
            stuck,
            attempt,
        ),
    ensures
        before.in_flight().len() > 0 ==> source_after == source && exists|
            outcome: Poll<Result<usize, IoError>>,
        |
            #[trigger] D::writes(destination, destination_after, before.in_flight(), outcome) && (
            attempt is Progress ==> outcome is Ready && outcome->Ready_0 is Ok
                && after.in_flight() == before.in_flight().skip(outcome->Ready_0->Ok_0 as int)
                && after.total() == before.total() + outcome->Ready_0->Ok_0),
        before.in_flight().len() == 0 ==> destination_after == destination && after.total()
            == before.total(),
        before.in_flight().len() == 0 && !before.ended() ==> exists|
            outcome: Poll<Result<(), IoError>>,
        |
            #[trigger] S::reads(source, source_after, 8192, after.in_flight(), outcome) && (
            attempt is Done ==> io::succeeded(outcome) && after.in_flight().len() == 0
                && after.ended()),
        before.in_flight().len() == 0 && before.ended() ==> attempt is Done && source_after
            == source,
        before.in_flight().len() > 0 ==> !(attempt is Done),
{
}

/// A copy is over with its count where the flush at its end is; it waits and fails as that
/// does.
pub proof fn law_the_last_flush_decides()
    ensures
        forall|poll: Poll<Result<(), IoError>>, state: DirectionState, attempt: Attempt<u64>|
            #[trigger]
            call_ensures(ops::copied_all, (poll, &state), attempt)
                && state.total() <= u64::MAX ==> {
                &&& attempt is Pending <==> poll is Pending
                &&& attempt is Done <==> io::succeeded(poll)
                &&& attempt is Done ==> attempt->Done_0 == state.total()
                &&& attempt is Failed ==> attempt->Failed_0 == poll->Ready_0->Err_0
            },
{
}

// ---------------------------------------------------------------------------
// Counts
// ---------------------------------------------------------------------------

/// A read that finished counts its bytes; one that waits or fails counts none. Moving a
/// buffer goes on behind what has been moved, and ends where nothing moves.
pub proof fn law_counts_of_bytes()
    ensures
        forall|poll: Poll<Result<(), IoError>>, count: usize, out: Poll<Result<usize, IoError>>|
            #[trigger]
            call_ensures(ext::read_count, (poll, count), out) ==> {
                &&& out is Pending <==> poll is Pending
                &&& io::succeeded(poll) ==> out is Ready && out->Ready_0 is Ok && out->Ready_0->Ok_0
                    == count
                &&& poll is Ready && poll->Ready_0 is Err ==> out is Ready && out->Ready_0 is Err
                    && out->Ready_0->Err_0 == poll->Ready_0->Err_0
            },
        forall|
            done: usize,
            len: usize,
            poll: Poll<Result<usize, IoError>>,
            stuck: IoError,
            next: Result<usize, Poll<Result<(), IoError>>>,
        | #[trigger]
            call_ensures(ext::transferred, (done, len, poll, stuck), next) && done + io::taken(poll)
                <= len ==> {
                &&& next is Ok <==> poll is Ready && poll->Ready_0 is Ok && poll->Ready_0->Ok_0 > 0
                &&& next is Ok ==> next->Ok_0 == done + poll->Ready_0->Ok_0
                &&& poll is Pending ==> next->Err_0 is Pending
                &&& poll is Ready && poll->Ready_0 is Ok && poll->Ready_0->Ok_0 == 0
                    ==> next->Err_0 is Ready && next->Err_0->Ready_0 is Err
                    && next->Err_0->Ready_0->Err_0 == stuck
                &&& poll is Ready && poll->Ready_0 is Err ==> next->Err_0 is Ready
                    && next->Err_0->Ready_0 is Err && next->Err_0->Ready_0->Err_0
                    == poll->Ready_0->Err_0
            },
        forall|bytes: Vec<u8>, output: &mut String, result: Result<(), IoError>| #[trigger]
            call_ensures(ext::append_utf8, (bytes, output), result) ==> {
                &&& result is Ok <==> vstd::utf8::valid_utf8(bytes@)
                &&& result is Ok ==> (*final(output))@ == (*output)@ + vstd::utf8::decode_utf8(
                    bytes@,
                )
                &&& result is Err ==> (*final(output))@ == (*output)@
            },
{
}

// ---------------------------------------------------------------------------
// Lines
// ---------------------------------------------------------------------------

/// Whether a piece of text is a line of what was read: with its end, and no end before it.
pub open spec fn is_one_line(bytes: Seq<u8>) -> bool {
    forall|i: int| 0 <= i < bytes.len() - 1 ==> #[trigger] bytes[i] != 10
}

/// A line is the text of what was read of it, with its end at the end alone; there is no
/// further line where nothing is left.
pub proof fn law_lines_end_where_they_end<R: AsyncBufRead>()
    ensures
        forall|
            lines: &mut Lines<R>,
            bytes: &mut Vec<u8>,
            line: Poll<Result<Option<String>, IoError>>,
        | #[trigger]
            call_ensures(Lines::<R>::next_line, (lines, bytes), line) && line is Ready
                && line->Ready_0 is Ok && line->Ready_0->Ok_0 is Some && (*bytes)@.len() == 0
                ==> exists|got: Seq<u8>|
                {
                    &&& #[trigger] R::moves((*lines).source(), (*final(lines)).source(), got,
                        Seq::empty())
                    &&& is_one_line(got)
                    &&& vstd::utf8::valid_utf8(got)
                    &&& line->Ready_0->Ok_0->0@ == vstd::utf8::decode_utf8(got)
                },
{
    assert forall|
        lines: &mut Lines<R>,
        bytes: &mut Vec<u8>,
        line: Poll<Result<Option<String>, IoError>>,
    | #[trigger]
        call_ensures(Lines::<R>::next_line, (lines, bytes), line) && line is Ready
            && line->Ready_0 is Ok && line->Ready_0->Ok_0 is Some && (*bytes)@.len()
            == 0 implies exists|got: Seq<u8>|
        {
            &&& #[trigger] R::moves((*lines).source(), (*final(lines)).source(), got, Seq::empty())
            &&& is_one_line(got)
            &&& vstd::utf8::valid_utf8(got)
            &&& line->Ready_0->Ok_0->0@ == vstd::utf8::decode_utf8(got)
        } by {
        let (text, read) = choose|text: Seq<char>, read: Poll<Result<usize, IoError>>|
            #[trigger] ext::line_read(
                (*lines).source(),
                (*final(lines)).source(),
                (*bytes)@,
                (*final(bytes))@,
                Seq::empty(),
                text,
                read,
            ) && ext::line_given(read, text, line);
        let (trace, got, found) = choose|
            trace: Seq<(R, Seq<u8>)>,
            got: Seq<u8>,
            found: Poll<Result<usize, IoError>>,
        |
            {
                &&& R::moves((*lines).source(), (*final(lines)).source(), got, Seq::empty())
                &&& #[trigger] ext::searched(
                    (*lines).source(),
                    trace,
                    (*final(lines)).source(),
                    ext::LINE_END,
                    got,
                    (*bytes)@.len() + got.len(),
                    found,
                )
                &&& found is Ready && found->0 is Ok ==> ext::through_delimiter(
                    got,
                    ext::LINE_END,
                ) == got
                &&& ext::read_text(
                    (*bytes)@ + got,
                    found,
                    (*final(bytes))@,
                    Seq::empty(),
                    text,
                    read,
                )
            };
        assert((*bytes)@ + got =~= got);
        assert(Seq::<char>::empty() + vstd::utf8::decode_utf8(got) =~= vstd::utf8::decode_utf8(
            got,
        ));
    }
}

/// There is no further line only where nothing was left to read.
pub proof fn law_lines_end_with_their_reader<R: AsyncBufRead>()
    ensures
        forall|
            lines: &mut Lines<R>,
            bytes: &mut Vec<u8>,
            line: Poll<Result<Option<String>, IoError>>,
        | #[trigger]
            call_ensures(Lines::<R>::next_line, (lines, bytes), line) && line is Ready
                && line->Ready_0 is Ok && line->Ready_0->Ok_0 is None && (*bytes)@.len() == 0
                ==> exists|got: Seq<u8>|
                #[trigger] R::moves(
                    (*lines).source(),
                    (*final(lines)).source(),
                    got,
                    Seq::empty(),
                ) && (got.len() <= usize::MAX ==> got.len() == 0),
{
    assert forall|
        lines: &mut Lines<R>,
        bytes: &mut Vec<u8>,
        line: Poll<Result<Option<String>, IoError>>,
    | #[trigger]
        call_ensures(Lines::<R>::next_line, (lines, bytes), line) && line is Ready
            && line->Ready_0 is Ok && line->Ready_0->Ok_0 is None && (*bytes)@.len()
            == 0 implies exists|got: Seq<u8>|
        #[trigger] R::moves((*lines).source(), (*final(lines)).source(), got, Seq::empty()) && (
        got.len() <= usize::MAX ==> got.len() == 0) by {
        let (text, read) = choose|text: Seq<char>, read: Poll<Result<usize, IoError>>|
            #[trigger] ext::line_read(
                (*lines).source(),
                (*final(lines)).source(),
                (*bytes)@,
                (*final(bytes))@,
                Seq::empty(),
                text,
                read,
            ) && ext::line_given(read, text, line);
        let (trace, got, found) = choose|
            trace: Seq<(R, Seq<u8>)>,
            got: Seq<u8>,
            found: Poll<Result<usize, IoError>>,
        |
            {
                &&& R::moves((*lines).source(), (*final(lines)).source(), got, Seq::empty())
                &&& #[trigger] ext::searched(
                    (*lines).source(),
                    trace,
                    (*final(lines)).source(),
                    ext::LINE_END,
                    got,
                    (*bytes)@.len() + got.len(),
                    found,
                )
                &&& found is Ready && found->0 is Ok ==> ext::through_delimiter(
                    got,
                    ext::LINE_END,
                ) == got
                &&& ext::read_text(
                    (*bytes)@ + got,
                    found,
                    (*final(bytes))@,
                    Seq::empty(),
                    text,
                    read,
                )
            };
        assert(R::moves((*lines).source(), (*final(lines)).source(), got, Seq::empty()));
    }
}

// ---------------------------------------------------------------------------
// Buffered ends
// ---------------------------------------------------------------------------

/// Flushing a queue writes it from the front, leaves what is behind, and succeeds only where
/// nothing is left and the writer was flushed.
pub proof fn law_flushing_leaves_the_rest<W: AsyncWrite>(
    writer: W,
    after: W,
    queue: Seq<u8>,
    left: Seq<u8>,
    stuck: &'static str,
    poll: Poll<Result<(), IoError>>,
)
    requires
        WriteQueue::drains(writer, after, queue, left, stuck, poll),
    ensures
        left.len() <= queue.len(),
        queue.skip(queue.len() - left.len()) == left,
        io::succeeded(poll) ==> left.len() == 0 && exists|last: W| #[trigger]
            W::flushes(last, after, poll),
        left.len() > 0 ==> exists|last: W, outcome: Poll<Result<usize, IoError>>|
            #[trigger] W::writes(last, after, left, outcome) && (outcome is Pending
                <==> poll is Pending),
{
    let trace = choose|trace: Seq<(W, usize)>| #[trigger]
        WriteQueue::drained_by(writer, trace, after, queue, left, stuck, poll);
    lemma_sent_fits(writer, trace, queue);
    let n = io::sent_len(trace) as int;
    assert(left.len() == queue.len() - n);
}

proof fn lemma_sent_fits<W: AsyncWrite>(first: W, trace: Seq<(W, usize)>, data: Seq<u8>)
    requires
        io::sent(first, trace, data),
    ensures
        io::sent_len(trace) <= data.len(),
{
}

/// A buffered writer is empty after a flush that finished, and shuts the writer underneath
/// down only when it is.
pub proof fn law_buffered_writers_shut_down_empty<W: AsyncWrite>(
    before: BufWriter<W>,
    after: BufWriter<W>,
    poll: Poll<Result<(), IoError>>,
)
    requires
        BufWriter::<W>::shuts_down(before, after, poll),
        io::succeeded(poll),
    ensures
        after.pending().len() == 0,
        exists|middle: BufWriter<W>|
            (#[trigger] middle.pending()).len() == 0 && W::shuts_down(
                middle.sink(),
                after.sink(),
                poll,
            ),
{
    let (middle, flush) = choose|middle: BufWriter<W>, flush: Poll<Result<(), IoError>>|
        {
            &&& #[trigger] BufWriter::<W>::drains(before, middle, flush)
            &&& if io::succeeded(flush) {
                &&& W::shuts_down(middle.sink(), after.sink(), poll)
                &&& after.pending() == middle.pending()
                &&& after.capacity() == middle.capacity()
            } else {
                &&& after == middle
                &&& poll == flush
            }
        };
    law_flushing_leaves_the_rest(
        before.sink(),
        middle.sink(),
        before.pending(),
        middle.pending(),
        "eddy: buffered writer made no progress",
        flush,
    );
}

/// A buffered reader hands out as much as fits of what it has, from the front, and keeps the
/// rest; where it has nothing it asks once for as much as its buffer holds.
pub proof fn law_buffered_readers_hand_out_the_front<R: AsyncRead>(
    before: BufReader<R>,
    after: BufReader<R>,
    room: nat,
    got: Seq<u8>,
    poll: Poll<Result<(), IoError>>,
)
    requires
        BufReader::<R>::reads(before, after, room, got, poll),
        room > 0,
    ensures
        got.len() <= room,
        before.buffered().len() > 0 ==> {
            &&& after.source() == before.source()
            &&& io::succeeded(poll)
            &&& got + after.buffered() == before.buffered()
            &&& got.len() == room || after.buffered().len() == 0
        },
        before.buffered().len() == 0 ==> R::reads(
            before.source(),
            after.source(),
            before.capacity(),
            got + after.buffered(),
            poll,
        ) && (got.len() == room || after.buffered().len() == 0),
{
    let middle = choose|middle: BufReader<R>|
        {
            let amount = io::buf::shorter(middle.buffered().len(), room) as int;
            &&& #[trigger] BufReader::<R>::filled(before, middle, poll)
            &&& after.source() == middle.source()
            &&& after.capacity() == middle.capacity()
            &&& got == middle.buffered().take(amount)
            &&& after.buffered() == middle.buffered().skip(amount)
        };
    byte_laws::law_buffered_readers_use_what_they_have(before, middle, poll);
    assert(got + after.buffered() =~= middle.buffered());
}

/// A buffered end begins empty, around what it was given, with 8192 bytes of room or as many
/// as were asked for.
pub proof fn law_buffered_ends_begin_empty<R: AsyncRead, W: AsyncWrite>()
    ensures
        forall|inner: R, reader: BufReader<R>| #[trigger]
            call_ensures(BufReader::<R>::new, (inner,), reader) ==> reader.source() == inner
                && reader.buffered().len() == 0 && reader.capacity() == 8192,
        forall|capacity: usize, inner: R, reader: BufReader<R>| #[trigger]
            call_ensures(BufReader::<R>::with_capacity, (capacity, inner), reader)
                ==> reader.source() == inner && reader.buffered().len() == 0 && reader.capacity()
                == capacity,
        forall|reader: BufReader<R>, inner: R| #[trigger]
            call_ensures(BufReader::<R>::into_inner, (reader,), inner) ==> inner
                == reader.source(),
        forall|inner: W, writer: BufWriter<W>| #[trigger]
            call_ensures(BufWriter::<W>::new, (inner,), writer) ==> writer.sink() == inner
                && writer.pending().len() == 0 && writer.capacity() == 8192,
        forall|capacity: usize, inner: W, writer: BufWriter<W>| #[trigger]
            call_ensures(BufWriter::<W>::with_capacity, (capacity, inner), writer)
                ==> writer.sink() == inner && writer.pending().len() == 0 && writer.capacity()
                == capacity,
        forall|writer: BufWriter<W>, inner: W| #[trigger]
            call_ensures(BufWriter::<W>::into_inner, (writer,), inner) ==> inner == writer.sink(),
{
}

} // verus!
