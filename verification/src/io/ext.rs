//! Reading and writing whole buffers, lines and streams, one attempt at a time.

use crate::io;
use crate::io::buf::AsyncBufRead;
use crate::io::AsyncRead;
use crate::io::AsyncWrite;
use crate::io::ByteFlow;
use crate::io::ErrorKind;
use crate::io::IoError;
use crate::io::ReadBuf;
use crate::poll::Poll;
use crate::text::push_text;
use crate::text::string_from_utf8;
use vstd::prelude::*;

verus! {

/// How many bytes are read at a time where the length is not known beforehand.
pub const CHUNK: usize = 8192;

/// What became of one attempt to move bytes.
#[derive(Debug, Clone, Copy, PartialEq, Eq)]
pub enum Attempt<T> {
    /// Bytes moved; there is more to do.
    Progress,
    /// Nothing can be done for now.
    Pending,
    /// The work is done.
    Done(T),
    /// The work failed.
    Failed(IoError),
}

/// The outcome of a read as the number of bytes that it gave.
pub open spec fn counted_read(poll: Poll<Result<(), IoError>>, count: nat) -> Poll<
    Result<usize, IoError>,
> {
    match poll {
        Poll::Pending => Poll::<Result<usize, IoError>>::Pending,
        Poll::Ready(Ok(_)) => Poll::Ready(Ok(count as usize)),
        Poll::Ready(Err(error)) => Poll::Ready(Err(error)),
    }
}

/// The outcome of a read as the number of bytes that it gave.
pub fn read_count(poll: Poll<Result<(), IoError>>, count: usize) -> (result: Poll<
    Result<usize, IoError>,
>)
    ensures
        result == counted_read(poll, count as nat),
{
    match poll {
        Poll::Pending => Poll::Pending,
        Poll::Ready(Ok(_)) => Poll::Ready(Ok(count)),
        Poll::Ready(Err(error)) => Poll::Ready(Err(error)),
    }
}

/// What follows an attempt to move the rest of a buffer: how many bytes have been
/// moved so far where there was progress, and how the operation ends otherwise. An
/// attempt that moves nothing ends it with the error `stuck`.
pub open spec fn transferred_so_far(
    done: usize,
    poll: Poll<Result<usize, IoError>>,
    stuck: IoError,
) -> Result<int, Poll<Result<(), IoError>>> {
    match poll {
        Poll::Pending => Err(Poll::<Result<(), IoError>>::Pending),
        Poll::Ready(Ok(count)) => if count == 0 {
            Err(Poll::Ready(Err(stuck)))
        } else {
            Ok(done + count)
        },
        Poll::Ready(Err(error)) => Err(Poll::Ready(Err(error))),
    }
}

/// What follows an attempt to move the rest of a buffer of `len` bytes, of which
/// `done` have been moved.
pub fn transferred(
    done: usize,
    len: usize,
    poll: Poll<Result<usize, IoError>>,
    stuck: IoError,
) -> (next: Result<usize, Poll<Result<(), IoError>>>)
    requires
        done + io::taken(poll) <= len,
    ensures
        match transferred_so_far(done, poll, stuck) {
            Ok(total) => next == Ok::<usize, Poll<Result<(), IoError>>>(total as usize) && total
                <= len,
            Err(end) => next == Err::<usize, Poll<Result<(), IoError>>>(end),
        },
{
    match poll {
        Poll::Pending => Err(Poll::Pending),
        Poll::Ready(Ok(count)) => if count == 0 {
            Err(Poll::Ready(Err(stuck)))
        } else {
            Ok(done + count)
        },
        Poll::Ready(Err(error)) => Err(Poll::Ready(Err(error))),
    }
}

// ---------------------------------------------------------------------------
// Reading
// ---------------------------------------------------------------------------

/// Whether a reader goes through those reads to give all of `room` bytes, as far as it
/// comes: it is read from until all are there, unless a read gives nothing.
pub open spec fn read_whole<R: AsyncRead>(
    first: R,
    trace: Seq<(R, Seq<u8>)>,
    after: R,
    room: nat,
    got: Seq<u8>,
    poll: Poll<Result<(), IoError>>,
) -> bool {
    let stuck = IoError {
        kind: ErrorKind::UnexpectedEof,
        message: "eddy: EOF before read_exact filled the buffer",
    };
    &&& io::received(first, trace, room)
    &&& got == io::received_bytes(trace)
    &&& if got.len() == room {
        &&& after == io::reached(first, trace)
        &&& poll == Poll::Ready(Ok::<(), IoError>(()))
    } else {
        exists|outcome: Poll<Result<(), IoError>>|
            {
                &&& #[trigger] R::reads(
                    io::reached(first, trace),
                    after,
                    (room - got.len()) as nat,
                    Seq::empty(),
                    outcome,
                )
                &&& poll == io::read_end(outcome, stuck)
            }
    }
}

/// Whether a reader goes through those reads to give all that it has, piece by piece, as
/// far as it comes: it is read from until a read gives nothing. `total` is what it gives
/// at the end.
pub open spec fn read_up<R: AsyncRead>(
    first: R,
    trace: Seq<(R, Seq<u8>)>,
    after: R,
    got: Seq<u8>,
    total: nat,
    poll: Poll<Result<usize, IoError>>,
) -> bool {
    &&& io::received_pieces(first, trace, CHUNK as nat)
    &&& got == io::received_bytes(trace)
    &&& exists|outcome: Poll<Result<(), IoError>>|
        {
            &&& #[trigger] R::reads(
                io::reached(first, trace),
                after,
                CHUNK as nat,
                Seq::empty(),
                outcome,
            )
            &&& poll == counted_read(outcome, total)
        }
}

/// Whether that becomes of bytes that were read as text: they are added to the output once
/// all are there, if they are UTF-8. `all` are the bytes, and `read` is how reading them
/// ended.
pub open spec fn read_text(
    all: Seq<u8>,
    read: Poll<Result<usize, IoError>>,
    bytes_after: Seq<u8>,
    output: Seq<char>,
    output_after: Seq<char>,
    poll: Poll<Result<usize, IoError>>,
) -> bool {
    match read {
        Poll::Pending => {
            &&& poll is Pending
            &&& bytes_after == all
            &&& output_after == output
        },
        Poll::Ready(Err(error)) => {
            &&& poll == read
            &&& bytes_after.len() == 0
            &&& output_after == output
        },
        Poll::Ready(Ok(_)) => {
            &&& bytes_after.len() == 0
            &&& if vstd::utf8::valid_utf8(all) {
                &&& poll == read
                &&& output_after == output + vstd::utf8::decode_utf8(all)
            } else {
                &&& poll matches Poll::Ready(Err(error)) && error.kind == ErrorKind::InvalidData
                &&& output_after == output
            }
        },
    }
}

/// Adds the bytes to the output as text, once reading them has ended.
fn finish_text(
    read: Poll<Result<usize, IoError>>,
    bytes: &mut Vec<u8>,
    output: &mut String,
) -> (poll: Poll<Result<usize, IoError>>)
    ensures
        read_text(old(bytes)@, read, final(bytes)@, old(output)@, final(output)@, poll),
{
    match read {
        Poll::Pending => Poll::Pending,
        Poll::Ready(Err(error)) => {
            bytes.clear();
            Poll::Ready(Err(error))
        },
        Poll::Ready(Ok(count)) => {
            let ghost before = bytes@;
            let mut all: Vec<u8> = Vec::new();
            all.append(bytes);
            assert(all@ =~= before);
            match append_utf8(all, output) {
                Ok(_) => Poll::Ready(Ok(count)),
                Err(error) => Poll::Ready(Err(error)),
            }
        },
    }
}

/// Reading with the memory that a caller provides.
pub trait AsyncReadExt: AsyncRead {
    /// Reads once. A pending read has not taken any bytes.
    fn read(&mut self, buf: &mut [u8]) -> (poll: Poll<Result<usize, IoError>>)
        requires
            old(self).ok(),
        ensures
            final(self).ok(),
            final(buf)@.len() == old(buf)@.len(),
            io::taken(poll) <= old(buf)@.len(),
            Self::moves(
                *old(self),
                *final(self),
                final(buf)@.take(io::taken(poll) as int),
                Seq::empty(),
            ),
            exists|outcome: Poll<Result<(), IoError>>|
                {
                    &&& #[trigger] Self::reads(
                        *old(self),
                        *final(self),
                        old(buf)@.len(),
                        final(buf)@.take(io::taken(poll) as int),
                        outcome,
                    )
                    &&& match outcome {
                        Poll::Pending => poll is Pending,
                        Poll::Ready(Ok(_)) => poll is Ready && poll->0 is Ok,
                        Poll::Ready(Err(error)) => poll == Poll::<Result<usize, IoError>>::Ready(
                            Err(error),
                        ),
                    }
                },
    {
        let mut read_buf = ReadBuf::new(buf);
        let poll = self.poll_read(&mut read_buf);
        let count: usize = read_buf.filled_len();
        let ghost data = read_buf.data();
        proof {
            assert(data.skip(0) =~= data);
        }
        let result = read_count(poll, count);
        proof {
            assert(buf@.take(io::taken(result) as int) =~= data);
            assert(Self::reads(*old(self), *self, old(buf)@.len(), data, poll));
        }
        result
    }

    /// Fills the buffer, of which the first `filled` bytes are there already. Where
    /// this is pending, `filled` says how far it came.
    fn read_exact(&mut self, buf: &mut [u8], filled: &mut usize) -> (poll: Poll<
        Result<(), IoError>,
    >)
        requires
            old(self).ok(),
            *old(filled) <= old(buf)@.len(),
        ensures
            final(self).ok(),
            final(buf)@.len() == old(buf)@.len(),
            *old(filled) <= *final(filled) <= old(buf)@.len(),
            final(buf)@.take(*old(filled) as int) == old(buf)@.take(*old(filled) as int),
            Self::moves(
                *old(self),
                *final(self),
                final(buf)@.subrange(*old(filled) as int, *final(filled) as int),
                Seq::empty(),
            ),
            io::succeeded(poll) <==> *final(filled) == old(buf)@.len(),
            exists|trace: Seq<(Self, Seq<u8>)>| #[trigger]
                read_whole(
                    *old(self),
                    trace,
                    *final(self),
                    (old(buf)@.len() - *old(filled)) as nat,
                    final(buf)@.subrange(*old(filled) as int, *final(filled) as int),
                    poll,
                ),
    {
        let len: usize = buf.len();
        let ghost start = *filled;
        let ghost first = *self;
        let ghost bytes = buf@;
        let ghost mut trace = Seq::<(Self, Seq<u8>)>::empty();
        let ghost room = (len - start) as nat;
        proof {
            Self::moves_nothing(first);
            assert(bytes.subrange(start as int, start as int) =~= Seq::empty());
        }
        while *filled < len
            invariant
                room == len - start,
                io::received(first, trace, room),
                io::reached(first, trace) == *self,
                io::received_bytes(trace) == buf@.subrange(start as int, *filled as int),
                self.ok(),
                buf@.len() == len,
                bytes.len() == len,
                start <= *filled <= len,
                start == *old(filled),
                first == *old(self),
                bytes == old(buf)@,
                buf@.take(start as int) == bytes.take(start as int),
                Self::moves(
                    first,
                    *self,
                    buf@.subrange(start as int, *filled as int),
                    Seq::empty(),
                ),
            decreases len - *filled,
        {
            let at: usize = *filled;
            let ghost before = buf@;
            let ghost middle = *self;
            let (front, rest) = buf.split_at_mut(at);
            let poll = self.read(rest);
            let ghost rest_bytes = rest@;
            proof {
                assert(buf@.skip(at as int) =~= rest_bytes);
                let got = buf@.subrange(at as int, at + io::taken(poll));
                assert(buf@.take(at as int) =~= before.take(at as int));
                assert(buf@.take(start as int) =~= buf@.take(at as int).take(start as int));
                assert(before.take(start as int) =~= before.take(at as int).take(start as int));
                assert(buf@.subrange(start as int, at as int) =~= before.subrange(
                    start as int,
                    at as int,
                ));
                assert(buf@.skip(at as int).take(io::taken(poll) as int) =~= got);
                Self::moves_both(
                    first,
                    middle,
                    *self,
                    before.subrange(start as int, at as int),
                    Seq::empty(),
                    got,
                    Seq::empty(),
                );
                assert(Seq::<u8>::empty() + Seq::<u8>::empty() =~= Seq::<u8>::empty());
                assert(buf@.subrange(start as int, at + io::taken(poll)) =~= before.subrange(
                    start as int,
                    at as int,
                ) + got);
            }
            let stuck = IoError {
                kind: ErrorKind::UnexpectedEof,
                message: "eddy: EOF before read_exact filled the buffer",
            };
            let ghost got = buf@.subrange(at as int, at + io::taken(poll));
            let ghost outcome = choose|outcome: Poll<Result<(), IoError>>|
                {
                    &&& #[trigger] Self::reads(middle, *self, (len - at) as nat, got, outcome)
                    &&& match outcome {
                        Poll::Pending => poll is Pending,
                        Poll::Ready(Ok(_)) => poll is Ready && poll->0 is Ok,
                        Poll::Ready(Err(error)) => poll == Poll::<Result<usize, IoError>>::Ready(
                            Err(error),
                        ),
                    }
                };
            match transferred(at, len, poll, stuck) {
                Ok(total) => {
                    proof {
                        assert(outcome->Ready_0->Ok_0 == ());
                        io::lemma_received_more(first, trace, room, *self, got);
                        trace = trace.push((*self, got));
                    }
                    *filled = total;
                },
                Err(end) => {
                    proof {
                        assert(got =~= Seq::empty());
                        assert(buf@.subrange(start as int, *filled as int) =~= before.subrange(
                            start as int,
                            at as int,
                        ));
                        assert(Self::reads(
                            io::reached(first, trace),
                            *self,
                            (room - io::received_bytes(trace).len()) as nat,
                            Seq::empty(),
                            outcome,
                        ));
                        assert(read_whole(
                            *old(self),
                            trace,
                            *self,
                            (old(buf)@.len() - *old(filled)) as nat,
                            buf@.subrange(*old(filled) as int, *filled as int),
                            end,
                        ));
                    }
                    return end;
                },
            }
        }
        let poll = Poll::Ready(Ok(()));
        assert(read_whole(
            first,
            trace,
            *self,
            room,
            buf@.subrange(start as int, *filled as int),
            poll,
        ));
        poll
    }

    /// Reads until the end, behind what `output` holds, until it has to wait or fails. All
    /// that was read stands in `output`; `start` is how many bytes it held when reading
    /// began. At the end this gives how many were added.
    fn read_to_end(&mut self, start: usize, output: &mut Vec<u8>) -> (poll: Poll<
        Result<usize, IoError>,
    >)
        requires
            old(self).ok(),
            start <= old(output)@.len(),
        ensures
            final(self).ok(),
            final(output)@.len() >= old(output)@.len(),
            final(output)@.take(old(output)@.len() as int) == old(output)@,
            Self::moves(
                *old(self),
                *final(self),
                final(output)@.skip(old(output)@.len() as int),
                Seq::empty(),
            ),
            poll matches Poll::Ready(Ok(count)) ==> count == final(output)@.len() - start,
            exists|trace: Seq<(Self, Seq<u8>)>| #[trigger]
                read_up(
                    *old(self),
                    trace,
                    *final(self),
                    final(output)@.skip(old(output)@.len() as int),
                    (final(output)@.len() - start) as nat,
                    poll,
                ),
    {
        let ghost first = *self;
        let ghost before = output@;
        let ghost mut trace = Seq::<(Self, Seq<u8>)>::empty();
        let mut chunk: Vec<u8> = vec![0u8; CHUNK];
        proof {
            Self::moves_nothing(first);
            assert(before.skip(before.len() as int) =~= Seq::empty());
            assert(before.take(before.len() as int) =~= before);
        }
        loop
            invariant
                self.ok(),
                chunk@.len() == CHUNK,
                first == *old(self),
                before == old(output)@,
                start <= before.len() <= output@.len(),
                output@.take(before.len() as int) == before,
                Self::moves(first, *self, output@.skip(before.len() as int), Seq::empty()),
                io::received_pieces(first, trace, CHUNK as nat),
                io::reached(first, trace) == *self,
                io::received_bytes(trace) == output@.skip(before.len() as int),
            decreases usize::MAX - output@.len(),
        {
            let ghost middle = *self;
            let ghost held = output@;
            let ghost more = held.skip(before.len() as int);
            let poll = self.read(chunk.as_mut_slice());
            let ghost got = chunk@.take(io::taken(poll) as int);
            let ghost outcome = choose|outcome: Poll<Result<(), IoError>>|
                {
                    &&& #[trigger] Self::reads(middle, *self, CHUNK as nat, got, outcome)
                    &&& match outcome {
                        Poll::Pending => poll is Pending,
                        Poll::Ready(Ok(_)) => poll is Ready && poll->0 is Ok,
                        Poll::Ready(Err(error)) => poll == Poll::<Result<usize, IoError>>::Ready(
                            Err(error),
                        ),
                    }
                };
            proof {
                Self::moves_both(first, middle, *self, more, Seq::empty(), got, Seq::empty());
                assert(Seq::<u8>::empty() + Seq::<u8>::empty() =~= Seq::<u8>::empty());
            }
            match poll {
                Poll::Ready(Ok(count)) => {
                    if count > 0 {
                        output.extend_from_slice(
                            vstd::slice::slice_subrange(chunk.as_slice(), 0, count),
                        );
                        let len: usize = output.len();
                        proof {
                            assert(output@ =~= held + got);
                            assert(output@.skip(before.len() as int) =~= more + got);
                            assert(output@.take(before.len() as int) =~= held.take(
                                before.len() as int,
                            ));
                            assert(outcome->Ready_0->Ok_0 == ());
                            io::lemma_received_piece(first, trace, CHUNK as nat, *self, got);
                            trace = trace.push((*self, got));
                            assert(len <= usize::MAX);
                        }
                    } else {
                        let result = Poll::Ready(Ok(output.len() - start));
                        proof {
                            assert(got =~= Seq::empty());
                            assert(more + got =~= more);
                            assert(read_up(
                                first,
                                trace,
                                *self,
                                more,
                                (held.len() - start) as nat,
                                result,
                            ));
                        }
                        return result;
                    }
                },
                _ => {
                    proof {
                        assert(got =~= Seq::empty());
                        assert(more + got =~= more);
                        assert(read_up(
                            first,
                            trace,
                            *self,
                            more,
                            (held.len() - start) as nat,
                            poll,
                        ));
                    }
                    return poll;
                },
            }
        }
    }

    /// Reads text until the end, until it has to wait or fails. `bytes` holds what has been
    /// read so far and is empty at the beginning. At the end the text is added to
    /// `output`, and this gives how many bytes were read.
    fn read_to_string(&mut self, bytes: &mut Vec<u8>, output: &mut String) -> (poll: Poll<
        Result<usize, IoError>,
    >)
        requires
            old(self).ok(),
        ensures
            final(self).ok(),
            exists|trace: Seq<(Self, Seq<u8>)>, got: Seq<u8>, read: Poll<Result<usize, IoError>>|
                {
                    &&& Self::moves(*old(self), *final(self), got, Seq::empty())
                    &&& #[trigger] read_up(
                        *old(self),
                        trace,
                        *final(self),
                        got,
                        old(bytes)@.len() + got.len(),
                        read,
                    )
                    &&& read_text(
                        old(bytes)@ + got,
                        read,
                        final(bytes)@,
                        old(output)@,
                        final(output)@,
                        poll,
                    )
                },
    {
        let ghost first = *self;
        let ghost before = bytes@;
        let read = self.read_to_end(0, bytes);
        proof {
            let got = bytes@.skip(before.len() as int);
            assert(bytes@ =~= before + got);
            let trace = choose|trace: Seq<(Self, Seq<u8>)>| #[trigger]
                read_up(first, trace, *self, got, bytes@.len(), read);
            assert(read_up(first, trace, *self, got, before.len() + got.len(), read));
        }
        finish_text(read, bytes, output)
    }
}

impl<T: AsyncRead> AsyncReadExt for T {

}

/// Adds the text that the bytes stand for, if they are UTF-8.
pub fn append_utf8(bytes: Vec<u8>, output: &mut String) -> (result: Result<(), IoError>)
    ensures
        match result {
            Ok(_) => vstd::utf8::valid_utf8(bytes@) && final(output)@ == old(output)@
                + vstd::utf8::decode_utf8(bytes@),
            Err(error) => !vstd::utf8::valid_utf8(bytes@) && final(output)@ == old(output)@
                && error.kind == ErrorKind::InvalidData,
        },
{
    match string_from_utf8(bytes) {
        Some(text) => {
            push_text(output, text.as_str());
            Ok(())
        },
        None => Err(
            IoError { kind: ErrorKind::InvalidData, message: "eddy: stream is not valid UTF-8" },
        ),
    }
}

// ---------------------------------------------------------------------------
// Lines
// ---------------------------------------------------------------------------

/// Whether a reader goes through those reads of one byte to find a delimiter, as far as it
/// comes: it is read from until one is the delimiter, which is kept, or a read gives
/// nothing. `total` is what it gives at the end.
pub open spec fn searched<R: AsyncRead>(
    first: R,
    trace: Seq<(R, Seq<u8>)>,
    after: R,
    delimiter: u8,
    got: Seq<u8>,
    total: nat,
    poll: Poll<Result<usize, IoError>>,
) -> bool {
    &&& io::received_pieces(first, trace, 1)
    &&& got == io::received_bytes(trace)
    &&& forall|i: int| 0 <= i < got.len() - 1 ==> #[trigger] got[i] != delimiter
    &&& if got.len() > 0 && got.last() == delimiter {
        &&& after == io::reached(first, trace)
        &&& poll == Poll::<Result<usize, IoError>>::Ready(Ok(total as usize))
    } else {
        exists|outcome: Poll<Result<(), IoError>>|
            {
                &&& #[trigger] R::reads(
                    io::reached(first, trace),
                    after,
                    1,
                    Seq::empty(),
                    outcome,
                )
                &&& poll == counted_read(outcome, total)
            }
    }
}

/// Reading with a buffer.
pub trait AsyncBufReadExt: AsyncBufRead {
    /// Reads through the delimiter or until the end, behind what `output` holds, until it
    /// has to wait or fails. All that was read stands in `output`; `start` is how many
    /// bytes it held when the search began. At the end this gives how many were added.
    fn read_until(&mut self, delimiter: u8, start: usize, output: &mut Vec<u8>) -> (poll: Poll<
        Result<usize, IoError>,
    >)
        requires
            old(self).ok(),
            start <= old(output)@.len(),
        ensures
            final(self).ok(),
            final(output)@.len() >= old(output)@.len(),
            final(output)@.take(old(output)@.len() as int) == old(output)@,
            Self::moves(
                *old(self),
                *final(self),
                final(output)@.skip(old(output)@.len() as int),
                Seq::empty(),
            ),
            poll matches Poll::Ready(Ok(count)) ==> {
                let got = final(output)@.skip(old(output)@.len() as int);
                &&& count == final(output)@.len() - start
                &&& through_delimiter(got, delimiter) == got
                &&& got.contains(delimiter) ==> forall|rest: Seq<u8>| #[trigger]
                    through_delimiter(got + rest, delimiter) == got
            },
            exists|trace: Seq<(Self, Seq<u8>)>| #[trigger]
                searched(
                    *old(self),
                    trace,
                    *final(self),
                    delimiter,
                    final(output)@.skip(old(output)@.len() as int),
                    (final(output)@.len() - start) as nat,
                    poll,
                ),
    {
        let ghost first = *self;
        let ghost before = output@;
        let ghost mut trace = Seq::<(Self, Seq<u8>)>::empty();
        let mut byte: Vec<u8> = vec![0u8; 1];
        proof {
            Self::moves_nothing(first);
            assert(before.skip(before.len() as int) =~= Seq::empty());
            assert(before.take(before.len() as int) =~= before);
        }
        loop
            invariant
                self.ok(),
                byte@.len() == 1,
                first == *old(self),
                before == old(output)@,
                start <= before.len() <= output@.len(),
                output@.take(before.len() as int) == before,
                Self::moves(first, *self, output@.skip(before.len() as int), Seq::empty()),
                io::received_pieces(first, trace, 1),
                io::reached(first, trace) == *self,
                io::received_bytes(trace) == output@.skip(before.len() as int),
                forall|i: int| before.len() <= i < output@.len() ==> #[trigger] output@[i]
                    != delimiter,
            decreases usize::MAX - output@.len(),
        {
            let ghost middle = *self;
            let ghost held = output@;
            let ghost more = held.skip(before.len() as int);
            let poll = self.read(byte.as_mut_slice());
            let ghost got = byte@.take(io::taken(poll) as int);
            let ghost outcome = choose|outcome: Poll<Result<(), IoError>>|
                {
                    &&& #[trigger] Self::reads(middle, *self, 1, got, outcome)
                    &&& match outcome {
                        Poll::Pending => poll is Pending,
                        Poll::Ready(Ok(_)) => poll is Ready && poll->0 is Ok,
                        Poll::Ready(Err(error)) => poll == Poll::<Result<usize, IoError>>::Ready(
                            Err(error),
                        ),
                    }
                };
            proof {
                Self::moves_both(first, middle, *self, more, Seq::empty(), got, Seq::empty());
                assert(Seq::<u8>::empty() + Seq::<u8>::empty() =~= Seq::<u8>::empty());
            }
            match poll {
                Poll::Ready(Ok(count)) => {
                    if count > 0 {
                        output.push(byte[0]);
                        let len: usize = output.len();
                        proof {
                            assert(got =~= seq![byte@[0]]);
                            assert(output@.skip(before.len() as int) =~= more + got);
                            assert(output@.take(before.len() as int) =~= held.take(
                                before.len() as int,
                            ));
                            assert(outcome->Ready_0->Ok_0 == ());
                            io::lemma_received_piece(first, trace, 1, *self, got);
                            trace = trace.push((*self, got));
                        }
                        if byte[0] == delimiter {
                            let result = Poll::Ready(Ok(len - start));
                            proof {
                                let all = more + got;
                                assert forall|rest: Seq<u8>| #[trigger]
                                    through_delimiter(all + rest, delimiter) == all by {
                                    law_search_ends_at_the_first_delimiter(all, rest, delimiter);
                                }
                                assert(all + Seq::<u8>::empty() =~= all);
                                assert(through_delimiter(all + Seq::<u8>::empty(), delimiter)
                                    == all);
                                assert(searched(
                                    first,
                                    trace,
                                    *self,
                                    delimiter,
                                    all,
                                    (output@.len() - start) as nat,
                                    result,
                                ));
                            }
                            return result;
                        }
                    } else {
                        let result = Poll::Ready(Ok(output.len() - start));
                        proof {
                            assert(got =~= Seq::empty());
                            assert(more + got =~= more);
                            law_search_ends_at_the_first_delimiter(
                                more,
                                Seq::empty(),
                                delimiter,
                            );
                            assert(more + Seq::<u8>::empty() =~= more);
                            assert(!more.contains(delimiter));
                            assert(searched(
                                first,
                                trace,
                                *self,
                                delimiter,
                                more,
                                (held.len() - start) as nat,
                                result,
                            ));
                        }
                        return result;
                    }
                },
                _ => {
                    proof {
                        assert(got =~= Seq::empty());
                        assert(more + got =~= more);
                        assert(searched(
                            first,
                            trace,
                            *self,
                            delimiter,
                            more,
                            (held.len() - start) as nat,
                            poll,
                        ));
                    }
                    return poll;
                },
            }
        }
    }

    /// Reads a line with its end, or what is left, until it has to wait or fails. `bytes`
    /// holds what has been read of the line so far and is empty at the beginning. At the
    /// end the line is added to `output`, and this gives how many bytes it has.
    fn read_line(&mut self, bytes: &mut Vec<u8>, output: &mut String) -> (poll: Poll<
        Result<usize, IoError>,
    >)
        requires
            old(self).ok(),
        ensures
            final(self).ok(),
            line_read(
                *old(self),
                *final(self),
                old(bytes)@,
                final(bytes)@,
                old(output)@,
                final(output)@,
                poll,
            ),
    {
        let ghost first = *self;
        let ghost before = bytes@;
        let ghost text = output@;
        let read = self.read_until(LINE_END, 0, bytes);
        let ghost all = bytes@;
        let poll = finish_text(read, bytes, output);
        proof {
            let got = all.skip(before.len() as int);
            assert(all =~= before + got);
            let trace = choose|trace: Seq<(Self, Seq<u8>)>| #[trigger]
                searched(first, trace, *self, LINE_END, got, all.len(), read);
            assert(searched(first, trace, *self, LINE_END, got, before.len() + got.len(), read));
            assert(line_read(first, *self, before, bytes@, text, output@, poll));
        }
        poll
    }

    /// The lines of the reader.
    fn lines(self) -> (lines: Lines<Self>)
        ensures
            lines.source() == self,
    {
        Lines { reader: self }
    }
}

impl<T: AsyncBufRead> AsyncBufReadExt for T {

}

/// The byte that a line ends with.
pub const LINE_END: u8 = 10;

/// Whether a reader gives a line: it is searched for the end of a line, and what was found,
/// behind what had been found before, is added to the output as text.
pub open spec fn line_read<R: AsyncRead>(
    first: R,
    after: R,
    bytes: Seq<u8>,
    bytes_after: Seq<u8>,
    output: Seq<char>,
    output_after: Seq<char>,
    poll: Poll<Result<usize, IoError>>,
) -> bool {
    exists|trace: Seq<(R, Seq<u8>)>, got: Seq<u8>, read: Poll<Result<usize, IoError>>|
        {
            &&& R::moves(first, after, got, Seq::empty())
            &&& #[trigger] searched(
                first,
                trace,
                after,
                LINE_END,
                got,
                bytes.len() + got.len(),
                read,
            )
            &&& read is Ready && read->0 is Ok ==> through_delimiter(got, LINE_END) == got
            &&& read_text(bytes + got, read, bytes_after, output, output_after, poll)
        }
}

/// The bytes up to and with the first delimiter, or all where there is none.
pub open spec fn through_delimiter(bytes: Seq<u8>, delimiter: u8) -> Seq<u8>
    decreases bytes.len(),
{
    if bytes.len() == 0 {
        bytes
    } else if bytes[0] == delimiter {
        seq![bytes[0]]
    } else {
        seq![bytes[0]] + through_delimiter(bytes.drop_first(), delimiter)
    }
}

/// A search that took bytes one by one until the first delimiter, or all of them
/// where there was none, took exactly the bytes through the first delimiter.
pub proof fn law_search_ends_at_the_first_delimiter(taken: Seq<u8>, rest: Seq<u8>, delimiter: u8)
    requires
        forall|i: int| 0 <= i < taken.len() - 1 ==> #[trigger] taken[i] != delimiter,
        taken.len() > 0 && taken.last() == delimiter || rest.len() == 0,
    ensures
        through_delimiter(taken + rest, delimiter) == taken,
    decreases taken.len(),
{
    reveal_with_fuel(through_delimiter, 2);
    let all = taken + rest;
    if taken.len() == 0 {
        assert(all =~= taken);
    } else if taken.len() == 1 {
        if taken[0] == delimiter {
            assert(seq![all[0]] =~= taken);
        } else {
            assert(all.drop_first() =~= Seq::empty());
            assert(seq![all[0]] + all.drop_first() =~= taken);
        }
    } else {
        let tail = taken.drop_first();
        assert(all.drop_first() =~= tail + rest);
        assert forall|i: int| 0 <= i < tail.len() - 1 implies #[trigger] tail[i] != delimiter by {
            assert(tail[i] == taken[i + 1]);
        }
        law_search_ends_at_the_first_delimiter(tail, rest, delimiter);
        assert(taken[0] != delimiter);
        assert(seq![all[0]] + tail =~= taken);
    }
}

/// The lines of a reader.
pub struct Lines<R> {
    reader: R,
}

impl<R> Lines<R> {
    /// The reader.
    pub closed spec fn source(&self) -> R {
        self.reader
    }

    /// The reader, to read the next line from.
    pub fn reader(&mut self) -> (reader: &mut R)
        ensures
            *reader == old(self).source(),
            final(self).source() == *final(reader),
    {
        &mut self.reader
    }
}

/// What a line gives, with its end if it had one: nothing where the reader has ended.
pub open spec fn line_given(
    read: Poll<Result<usize, IoError>>,
    text: Seq<char>,
    line: Poll<Result<Option<String>, IoError>>,
) -> bool {
    match read {
        Poll::Pending => line is Pending,
        Poll::Ready(Err(error)) => line == Poll::<Result<Option<String>, IoError>>::Ready(
            Err(error),
        ),
        Poll::Ready(Ok(count)) => if count == 0 {
            line == Poll::<Result<Option<String>, IoError>>::Ready(Ok(None))
        } else {
            line matches Poll::Ready(Ok(Some(found))) && found@ == text
        },
    }
}

impl<R: AsyncBufRead> Lines<R> {
    /// Reads the next line, until it has to wait or fails. `bytes` holds what has been read
    /// of the line so far and is empty at the beginning.
    pub fn next_line(&mut self, bytes: &mut Vec<u8>) -> (line: Poll<
        Result<Option<String>, IoError>,
    >)
        requires
            old(self).source().ok(),
        ensures
            final(self).source().ok(),
            exists|text: Seq<char>, read: Poll<Result<usize, IoError>>|
                {
                    &&& #[trigger] line_read(
                        old(self).source(),
                        final(self).source(),
                        old(bytes)@,
                        final(bytes)@,
                        Seq::empty(),
                        text,
                        read,
                    )
                    &&& line_given(read, text, line)
                },
    {
        let mut text = String::new();
        assert(text@ =~= Seq::<char>::empty());
        let read = self.reader.read_line(bytes, &mut text);
        let ghost found = text@;
        let line = match read {
            Poll::Pending => Poll::Pending,
            Poll::Ready(Err(error)) => Poll::Ready(Err(error)),
            Poll::Ready(Ok(count)) => {
                if count == 0 {
                    Poll::Ready(Ok(None))
                } else {
                    Poll::Ready(Ok(Some(text)))
                }
            },
        };
        assert(line_given(read, found, line));
        assert(line_read(
            old(self).source(),
            self.source(),
            old(bytes)@,
            bytes@,
            Seq::empty(),
            found,
            read,
        ));
        line
    }
}

// ---------------------------------------------------------------------------
// Writing
// ---------------------------------------------------------------------------

/// Whether a writer goes through those writes to take all of `data`, as far as it comes:
/// it is written to until all is gone, unless a write takes nothing.
pub open spec fn wrote_whole<W: AsyncWrite>(
    first: W,
    trace: Seq<(W, usize)>,
    after: W,
    data: Seq<u8>,
    count: int,
    poll: Poll<Result<(), IoError>>,
) -> bool {
    let stuck = IoError {
        kind: ErrorKind::WriteZero,
        message: "eddy: write returned zero before the buffer was complete",
    };
    &&& io::sent(first, trace, data)
    &&& count == io::sent_len(trace)
    &&& if count == data.len() {
        &&& after == io::reached(first, trace)
        &&& poll == Poll::Ready(Ok::<(), IoError>(()))
    } else {
        exists|outcome: Poll<Result<usize, IoError>>|
            {
                &&& #[trigger] W::writes(
                    io::reached(first, trace),
                    after,
                    data.skip(count),
                    outcome,
                )
                &&& io::write_end(outcome, stuck) == Some(poll)
            }
    }
}

/// Writing of a caller's memory.
pub trait AsyncWriteExt: AsyncWrite {
    /// Attempts one write.
    fn write(&mut self, buf: &[u8]) -> (poll: Poll<Result<usize, IoError>>)
        requires
            old(self).ok(),
        ensures
            final(self).ok(),
            io::taken(poll) <= buf@.len(),
            Self::moves(*old(self), *final(self), Seq::empty(), buf@.take(io::taken(poll) as int)),
            Self::writes(*old(self), *final(self), buf@, poll),
    {
        self.poll_write(buf)
    }

    /// Attempts a write of several buffers, in the writer's own way.
    fn write_vectored(&mut self, bufs: &Vec<Vec<u8>>) -> (poll: Poll<Result<usize, IoError>>)
        requires
            old(self).ok(),
        ensures
            final(self).ok(),
            io::taken(poll) <= io::joined(io::contents(bufs@)).len(),
            Self::moves(
                *old(self),
                *final(self),
                Seq::empty(),
                io::joined(io::contents(bufs@)).take(io::taken(poll) as int),
            ),
            Self::writes_vectored(*old(self), *final(self), io::contents(bufs@), poll),
    {
        self.poll_write_vectored(bufs)
    }

    /// Attempts to pass on everything that was written.
    fn flush(&mut self) -> (poll: Poll<Result<(), IoError>>)
        requires
            old(self).ok(),
        ensures
            final(self).ok(),
            Self::moves(*old(self), *final(self), Seq::empty(), Seq::empty()),
            Self::flushes(*old(self), *final(self), poll),
    {
        self.poll_flush()
    }

    /// Attempts to close the writing side.
    fn shutdown(&mut self) -> (poll: Poll<Result<(), IoError>>)
        requires
            old(self).ok(),
        ensures
            final(self).ok(),
            Self::moves(*old(self), *final(self), Seq::empty(), Seq::empty()),
            Self::shuts_down(*old(self), *final(self), poll),
    {
        self.poll_shutdown()
    }

    /// Writes the whole buffer, of which the first `written` bytes are gone already.
    /// Where this is pending, `written` says how far it came.
    fn write_all(&mut self, buf: &[u8], written: &mut usize) -> (poll: Poll<Result<(), IoError>>)
        requires
            old(self).ok(),
            *old(written) <= buf@.len(),
        ensures
            final(self).ok(),
            *old(written) <= *final(written) <= buf@.len(),
            Self::moves(
                *old(self),
                *final(self),
                Seq::empty(),
                buf@.subrange(*old(written) as int, *final(written) as int),
            ),
            io::succeeded(poll) <==> *final(written) == buf@.len(),
            exists|trace: Seq<(Self, usize)>| #[trigger]
                wrote_whole(
                    *old(self),
                    trace,
                    *final(self),
                    buf@.skip(*old(written) as int),
                    *final(written) - *old(written),
                    poll,
                ),
    {
        let len: usize = buf.len();
        let ghost start = *written;
        let ghost first = *self;
        let ghost mut trace = Seq::<(Self, usize)>::empty();
        let ghost data = buf@.skip(start as int);
        proof {
            Self::moves_nothing(first);
            assert(buf@.subrange(start as int, start as int) =~= Seq::empty());
        }
        while *written < len
            invariant
                data == buf@.skip(start as int),
                io::sent(first, trace, data),
                io::reached(first, trace) == *self,
                io::sent_len(trace) == *written - start,
                self.ok(),
                buf@.len() == len,
                start <= *written <= len,
                start == *old(written),
                first == *old(self),
                Self::moves(
                    first,
                    *self,
                    Seq::empty(),
                    buf@.subrange(start as int, *written as int),
                ),
            decreases len - *written,
        {
            let at: usize = *written;
            let ghost middle = *self;
            let poll = self.write(vstd::slice::slice_subrange(buf, at, len));
            proof {
                let gone = buf@.subrange(at as int, at + io::taken(poll));
                assert(buf@.subrange(at as int, len as int).take(io::taken(poll) as int) =~= gone);
                Self::moves_both(
                    first,
                    middle,
                    *self,
                    Seq::empty(),
                    buf@.subrange(start as int, at as int),
                    Seq::empty(),
                    gone,
                );
                assert(Seq::<u8>::empty() + Seq::<u8>::empty() =~= Seq::<u8>::empty());
                assert(buf@.subrange(start as int, at + io::taken(poll)) =~= buf@.subrange(
                    start as int,
                    at as int,
                ) + gone);
            }
            let stuck = IoError {
                kind: ErrorKind::WriteZero,
                message: "eddy: write returned zero before the buffer was complete",
            };
            assert(buf@.subrange(at as int, len as int) =~= data.skip(at - start));
            match transferred(at, len, poll, stuck) {
                Ok(total) => {
                    proof {
                        let count = (total - at) as usize;
                        io::lemma_sent_more(first, trace, data, *self, count);
                        trace = trace.push((*self, count));
                    }
                    *written = total;
                },
                Err(end) => {
                    proof {
                        assert(Self::writes(
                            io::reached(first, trace),
                            *self,
                            data.skip(at - start),
                            poll,
                        ));
                        assert(wrote_whole(first, trace, *self, data, at - start, end));
                    }
                    return end;
                },
            }
        }
        let poll = Poll::Ready(Ok(()));
        assert(wrote_whole(first, trace, *self, data, *written - start, poll));
        poll
    }
}

impl<T: AsyncWrite> AsyncWriteExt for T {

}

} // verus!
