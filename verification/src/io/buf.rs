//! Buffered readers and writers.

use crate::io;
use crate::io::AsyncRead;
use crate::io::AsyncWrite;
use crate::io::ByteFlow;
use crate::io::ErrorKind;
use crate::io::IoError;
use crate::io::ReadBuf;
use crate::poll::Poll;
use vstd::prelude::*;

verus! {

/// How many bytes a buffer holds where nothing else is said.
pub const DEFAULT_CAPACITY: usize = 8192;

/// The smaller of two lengths.
pub open spec fn shorter(a: nat, b: nat) -> nat {
    if a < b {
        a
    } else {
        b
    }
}

/// How a poll ended, whatever it gave.
pub open spec fn without_value<T>(poll: Poll<Result<T, IoError>>) -> Poll<Result<(), IoError>> {
    match poll {
        Poll::Pending => Poll::Pending,
        Poll::Ready(Ok(_)) => Poll::Ready(Ok(())),
        Poll::Ready(Err(error)) => Poll::Ready(Err(error)),
    }
}

/// Reads whose data passes through a buffer that callers can look into.
pub trait AsyncBufRead: AsyncRead {
    /// The bytes that were fetched and not consumed.
    spec fn unread(&self) -> Seq<u8>;

    /// Whether fetching data can take the reader from `before` to `after` and end with
    /// that outcome.
    spec fn fills(before: Self, after: Self, poll: Poll<Result<(), IoError>>) -> bool;

    /// Fetches data where none is left. Returns what can be consumed.
    fn poll_fill_buf(&mut self) -> (poll: Poll<Result<&[u8], IoError>>)
        requires
            old(self).ok(),
        ensures
            final(self).ok(),
            Self::moves(*old(self), *final(self), Seq::empty(), Seq::empty()),
            poll matches Poll::Ready(Ok(bytes)) ==> bytes@ == final(self).unread(),
            old(self).unread().len() > 0 ==> io::succeeded(poll) && final(self).unread()
                == old(self).unread(),
            !io::succeeded(poll) ==> final(self).unread() == old(self).unread(),
            Self::fills(*old(self), *final(self), without_value(poll)),
    ;

    /// Takes bytes off the front of what was fetched, at most all of it.
    fn consume(&mut self, amount: usize)
        requires
            old(self).ok(),
        ensures
            final(self).ok(),
            Self::moves(
                *old(self),
                *final(self),
                old(self).unread().take(
                    shorter(amount as nat, old(self).unread().len()) as int,
                ),
                Seq::empty(),
            ),
            final(self).unread() == old(self).unread().skip(
                shorter(amount as nat, old(self).unread().len()) as int,
            ),
    ;
}

// ---------------------------------------------------------------------------
// The two buffers
// ---------------------------------------------------------------------------

/// Bytes that were fetched and not handed out: a window of a buffer.
pub struct ReadWindow {
    buffer: Vec<u8>,
    pos: usize,
    cap: usize,
}

impl View for ReadWindow {
    type V = Seq<u8>;

    closed spec fn view(&self) -> Seq<u8> {
        self.buffer@.subrange(self.pos as int, self.cap as int)
    }
}

impl ReadWindow {
    /// The bytes of the whole buffer.
    pub closed spec fn storage(&self) -> Seq<u8> {
        self.buffer@
    }

    /// The window lies in the buffer, which is not empty.
    pub closed spec fn wf(&self) -> bool {
        &&& self.pos <= self.cap <= self.buffer@.len()
        &&& 0 < self.buffer@.len() <= usize::MAX
    }

    /// There are never more bytes in the window than fit in the buffer.
    pub proof fn lemma_within(&self)
        requires
            self.wf(),
        ensures
            self@.len() <= self.storage().len(),
    {
    }

    /// An empty window of a buffer of `capacity` bytes.
    pub fn new(capacity: usize) -> (window: ReadWindow)
        requires
            capacity > 0,
        ensures
            window.wf(),
            window@ == Seq::<u8>::empty(),
            window.storage().len() == capacity,
    {
        let buffer: Vec<u8> = vec![0u8; capacity];
        let window = ReadWindow { buffer, pos: 0, cap: 0 };
        assert(window@ =~= Seq::empty());
        window
    }

    /// The bytes in the window.
    pub fn bytes(&self) -> (bytes: &[u8])
        requires
            self.wf(),
        ensures
            bytes@ == self@,
    {
        vstd::slice::slice_subrange(self.buffer.as_slice(), self.pos, self.cap)
    }

    /// Takes bytes off the front of the window, at most all of them.
    pub fn consume(&mut self, amount: usize)
        requires
            old(self).wf(),
        ensures
            final(self).wf(),
            final(self)@ == old(self)@.skip(shorter(amount as nat, old(self)@.len()) as int),
            final(self).storage() == old(self).storage(),
    {
        let ghost before = *self;
        let left: usize = self.cap - self.pos;
        let count: usize = if amount < left {
            amount
        } else {
            left
        };
        self.pos = self.pos + count;
        assert(self@ =~= before@.skip(count as int));
    }

    /// Notes the outcome of a read of `count` bytes into the whole buffer. Only a
    /// read that finished moves the window.
    pub fn filled(&mut self, poll: Poll<Result<(), IoError>>, count: usize) -> (result: Poll<
        Result<(), IoError>,
    >)
        requires
            old(self).wf(),
            old(self)@.len() == 0,
            count <= old(self).storage().len(),
        ensures
            final(self).wf(),
            result == poll,
            final(self).storage() == old(self).storage(),
            final(self)@ == (if io::succeeded(poll) {
                old(self).storage().take(count as int)
            } else {
                Seq::empty()
            }),
    {
        match poll {
            Poll::Ready(Ok(_)) => {
                self.pos = 0;
                self.cap = count;
                assert(self@ =~= self.buffer@.take(count as int));
            },
            _ => {
                assert(self@ =~= Seq::empty());
            },
        }
        poll
    }

    /// Whether `fetched` came from the reader and lies behind what was there.
    pub open spec fn fetched<R: ByteFlow>(
        reader: R,
        after: R,
        window: Seq<u8>,
        left: Seq<u8>,
        fetched: Seq<u8>,
    ) -> bool {
        R::moves(reader, after, fetched, Seq::empty()) && left == window + fetched
    }

    /// Asks the reader where the window is empty.
    pub fn fill<R: AsyncRead>(&mut self, reader: &mut R) -> (poll: Poll<Result<(), IoError>>)
        requires
            old(self).wf(),
            old(reader).ok(),
        ensures
            final(self).wf(),
            final(reader).ok(),
            final(self).storage().len() == old(self).storage().len(),
            exists|fetched: Seq<u8>| #[trigger]
                Self::fetched(*old(reader), *final(reader), old(self)@, final(self)@, fetched),
            old(self)@.len() > 0 ==> io::succeeded(poll) && *final(self) == *old(self)
                && *final(reader) == *old(reader),
            !io::succeeded(poll) ==> final(self)@ == old(self)@,
            old(self)@.len() == 0 ==> R::reads(
                *old(reader),
                *final(reader),
                old(self).storage().len(),
                final(self)@,
                poll,
            ),
    {
        let ghost before = *self;
        if self.pos < self.cap {
            proof {
                R::moves_nothing(*reader);
                assert(self@ =~= self@ + Seq::<u8>::empty());
                assert(Self::fetched(*reader, *reader, self@, self@, Seq::empty()));
            }
            return Poll::Ready(Ok(()));
        }
        assert(self@ =~= Seq::empty());
        let mut read_buf = ReadBuf::new(self.buffer.as_mut_slice());
        let poll = reader.poll_read(&mut read_buf);
        let count: usize = read_buf.filled_len();
        let ghost data = read_buf.data();
        assert(self@ =~= Seq::empty());
        assert(data =~= self.storage().take(count as int));
        let result = self.filled(poll, count);
        proof {
            assert(data.skip(0) =~= data);
            assert(self@ =~= before@ + data);
            assert(Self::fetched(*old(reader), *reader, before@, self@, data));
        }
        result
    }
}

/// The error of a writer that takes nothing.
pub open spec fn no_progress(message: &'static str) -> IoError {
    IoError { kind: ErrorKind::WriteZero, message }
}

/// Bytes that were taken and not passed on yet.
pub struct WriteQueue {
    buffer: Vec<u8>,
    pos: usize,
    capacity: usize,
}

impl View for WriteQueue {
    type V = Seq<u8>;

    closed spec fn view(&self) -> Seq<u8> {
        self.buffer@.skip(self.pos as int)
    }
}

impl WriteQueue {
    /// How many bytes the queue takes.
    pub closed spec fn limit(&self) -> nat {
        self.capacity as nat
    }

    /// The queue is within its limit, which is not zero.
    pub closed spec fn wf(&self) -> bool {
        self.pos <= self.buffer@.len() <= self.capacity && self.capacity > 0
    }

    /// An empty queue.
    pub fn new(capacity: usize) -> (queue: WriteQueue)
        requires
            capacity > 0,
        ensures
            queue.wf(),
            queue@ == Seq::<u8>::empty(),
            queue.limit() == capacity,
    {
        let queue = WriteQueue { buffer: Vec::with_capacity(capacity), pos: 0, capacity };
        assert(queue@ =~= Seq::empty());
        queue
    }

    /// Moves what is left to the front of the buffer.
    fn compact(&mut self)
        requires
            old(self).wf(),
        ensures
            final(self).wf(),
            final(self)@ == old(self)@,
            final(self).limit() == old(self).limit(),
            final(self).pos == 0,
    {
        if self.pos > 0 {
            let ghost before = *self;
            let rest = self.buffer.split_off(self.pos);
            self.buffer = rest;
            self.pos = 0;
            assert(self@ =~= before@);
        }
    }

    /// Forgets the bytes, all of which have been passed on.
    fn clear(&mut self)
        requires
            old(self).wf(),
        ensures
            final(self).wf(),
            final(self)@ == Seq::<u8>::empty(),
            final(self).limit() == old(self).limit(),
            final(self).pos == 0,
    {
        self.buffer.clear();
        self.pos = 0;
        assert(self@ =~= Seq::empty());
    }

    /// Queues as many bytes from the front of `data` as there is room for.
    fn push(&mut self, data: &[u8]) -> (count: usize)
        requires
            old(self).wf(),
            old(self).pos == 0,
        ensures
            final(self).wf(),
            final(self).limit() == old(self).limit(),
            count == shorter(data@.len(), (old(self).limit() - old(self)@.len()) as nat),
            final(self)@ == old(self)@ + data@.take(count as int),
    {
        let ghost before = self@;
        let room: usize = self.capacity - self.buffer.len();
        let len: usize = data.len();
        let count: usize = if len < room {
            len
        } else {
            room
        };
        self.buffer.extend_from_slice(vstd::slice::slice_subrange(data, 0, count));
        proof {
            assert(before =~= old(self).buffer@);
            assert(self@ =~= self.buffer@);
            assert(self@ =~= before + data@.take(count as int));
        }
        count
    }

    /// Notes the outcome of writing the queue. Returns nothing where the writer took
    /// some of it, and otherwise how the flush ends: a writer that takes nothing makes
    /// no progress.
    pub fn written(&mut self, poll: Poll<Result<usize, IoError>>, stuck: &'static str) -> (end:
        Option<Poll<Result<(), IoError>>>)
        requires
            old(self).wf(),
            io::taken(poll) <= old(self)@.len(),
        ensures
            final(self).wf(),
            final(self).limit() == old(self).limit(),
            final(self)@ == old(self)@.skip(io::taken(poll) as int),
            end == io::write_end(poll, no_progress(stuck)),
    {
        let ghost before = self@;
        assert(before.skip(0) =~= before);
        match poll {
            Poll::Pending => Some(Poll::Pending),
            Poll::Ready(Ok(count)) => {
                if count == 0 {
                    Some(Poll::Ready(Err(IoError { kind: ErrorKind::WriteZero, message: stuck })))
                } else {
                    self.pos = self.pos + count;
                    assert(self@ =~= before.skip(count as int));
                    None
                }
            },
            Poll::Ready(Err(error)) => Some(Poll::Ready(Err(error))),
        }
    }

    /// Whether `flushed` went from the front of the queue to the writer.
    pub open spec fn flushed<W: ByteFlow>(
        writer: W,
        after: W,
        queue: Seq<u8>,
        left: Seq<u8>,
        flushed: Seq<u8>,
    ) -> bool {
        W::moves(writer, after, Seq::empty(), flushed) && queue == flushed + left
    }

    /// Whether a writer goes through those writes to take the queue, as far as it comes:
    /// it is written to until nothing is left, and then flushed.
    pub open spec fn drained_by<W: AsyncWrite>(
        writer: W,
        trace: Seq<(W, usize)>,
        after: W,
        queue: Seq<u8>,
        left: Seq<u8>,
        stuck: &'static str,
        poll: Poll<Result<(), IoError>>,
    ) -> bool {
        &&& io::sent(writer, trace, queue)
        &&& left == queue.skip(io::sent_len(trace) as int)
        &&& if left.len() == 0 {
            W::flushes(io::reached(writer, trace), after, poll)
        } else {
            exists|outcome: Poll<Result<usize, IoError>>|
                {
                    &&& #[trigger] W::writes(io::reached(writer, trace), after, left, outcome)
                    &&& io::write_end(outcome, no_progress(stuck)) == Some(poll)
                }
        }
    }

    /// Whether flushing the queue can take a writer from one state to another, leave
    /// `left` and end with that outcome.
    pub open spec fn drains<W: AsyncWrite>(
        writer: W,
        after: W,
        queue: Seq<u8>,
        left: Seq<u8>,
        stuck: &'static str,
        poll: Poll<Result<(), IoError>>,
    ) -> bool {
        exists|trace: Seq<(W, usize)>| #[trigger]
            Self::drained_by(writer, trace, after, queue, left, stuck, poll)
    }

    /// Writes the queue until it is empty and then flushes the writer.
    pub fn flush<W: AsyncWrite>(&mut self, writer: &mut W, stuck: &'static str) -> (poll: Poll<
        Result<(), IoError>,
    >)
        requires
            old(self).wf(),
            old(writer).ok(),
        ensures
            final(self).wf(),
            final(self).limit() == old(self).limit(),
            final(writer).ok(),
            exists|flushed: Seq<u8>| #[trigger]
                Self::flushed(*old(writer), *final(writer), old(self)@, final(self)@, flushed),
            io::succeeded(poll) ==> final(self)@ == Seq::<u8>::empty(),
            Self::drains(*old(writer), *final(writer), old(self)@, final(self)@, stuck, poll),
    {
        let ghost before = self@;
        let ghost first = *writer;
        let ghost mut flushed = Seq::<u8>::empty();
        let ghost mut trace = Seq::<(W, usize)>::empty();
        proof {
            W::moves_nothing(first);
            assert(before =~= flushed + self@);
            assert(before.skip(0) =~= before);
        }
        while self.pos < self.buffer.len()
            invariant
                io::sent(first, trace, before),
                io::reached(first, trace) == *writer,
                self@ == before.skip(io::sent_len(trace) as int),
                io::sent_len(trace) <= before.len(),
                self.wf(),
                self.limit() == old(self).limit(),
                writer.ok(),
                W::moves(first, *writer, Seq::empty(), flushed),
                before == flushed + self@,
                before == old(self)@,
                first == *old(writer),
            decreases self.buffer.len() - self.pos,
        {
            let ghost rest = self@;
            let ghost middle = *writer;
            let poll = writer.poll_write(
                vstd::slice::slice_subrange(self.buffer.as_slice(), self.pos, self.buffer.len()),
            );
            proof {
                assert(self.buffer@.subrange(self.pos as int, self.buffer@.len() as int) =~= rest);
                let more = rest.take(io::taken(poll) as int);
                W::moves_both(first, middle, *writer, Seq::empty(), flushed, Seq::empty(), more);
                assert(Seq::<u8>::empty() + Seq::<u8>::empty() =~= Seq::<u8>::empty());
                assert(flushed + rest =~= (flushed + more) + rest.skip(io::taken(poll) as int));
                flushed = flushed + more;
            }
            let ghost at = self.pos;
            if let Some(end) = self.written(poll, stuck) {
                proof {
                    assert(Self::flushed(*old(writer), *writer, old(self)@, self@, flushed));
                    assert(self@ =~= rest);
                    assert(W::writes(io::reached(first, trace), *writer, self@, poll));
                    assert(Self::drained_by(first, trace, *writer, before, self@, stuck, end));
                }
                return end;
            }
            proof {
                assert(self@.len() == rest.len() - io::taken(poll));
                let count = io::taken(poll) as usize;
                io::lemma_sent_more(first, trace, before, *writer, count);
                trace = trace.push((*writer, count));
                assert(self@ =~= before.skip(io::sent_len(trace) as int));
            }
        }
        assert(self@ =~= Seq::empty());
        self.clear();
        let ghost middle = *writer;
        let poll = writer.poll_flush();
        proof {
            W::moves_both(first, middle, *writer, Seq::empty(), flushed, Seq::empty(), Seq::empty());
            assert(Seq::<u8>::empty() + Seq::<u8>::empty() =~= Seq::<u8>::empty());
            assert(flushed + Seq::<u8>::empty() =~= flushed);
            assert(Self::flushed(*old(writer), *writer, old(self)@, self@, flushed));
            assert(Self::drained_by(first, trace, *writer, before, self@, stuck, poll));
        }
        poll
    }
}

// ---------------------------------------------------------------------------
// Reading
// ---------------------------------------------------------------------------

/// A reader with a buffer.
pub struct BufReader<R> {
    inner: R,
    window: ReadWindow,
}

impl<R> BufReader<R> {
    /// The reader underneath.
    pub closed spec fn source(&self) -> R {
        self.inner
    }

    /// The bytes that were fetched and not handed out.
    pub closed spec fn buffered(&self) -> Seq<u8> {
        self.window@
    }

    /// How many bytes are fetched at a time.
    pub closed spec fn capacity(&self) -> nat {
        self.window.storage().len()
    }

    /// The buffer is in order.
    pub closed spec fn wf(&self) -> bool {
        self.window.wf()
    }

    /// A reader with a buffer of the usual size.
    pub fn new(inner: R) -> (reader: BufReader<R>)
        ensures
            reader.wf(),
            reader.source() == inner,
            reader.buffered() == Seq::<u8>::empty(),
            reader.capacity() == DEFAULT_CAPACITY,
    {
        Self::with_capacity(DEFAULT_CAPACITY, inner)
    }

    /// A reader with a buffer of `capacity` bytes.
    pub fn with_capacity(capacity: usize, inner: R) -> (reader: BufReader<R>)
        requires
            capacity > 0,
        ensures
            reader.wf(),
            reader.source() == inner,
            reader.buffered() == Seq::<u8>::empty(),
            reader.capacity() == capacity,
    {
        BufReader { inner, window: ReadWindow::new(capacity) }
    }

    /// The reader underneath.
    pub fn get_ref(&self) -> (inner: &R)
        ensures
            *inner == self.source(),
    {
        &self.inner
    }

    /// The reader underneath.
    pub fn get_mut(&mut self) -> (inner: &mut R)
        ensures
            *inner == old(self).source(),
            final(self).source() == *final(inner),
            final(self).buffered() == old(self).buffered(),
            final(self).capacity() == old(self).capacity(),
            final(self).wf() == old(self).wf(),
    {
        &mut self.inner
    }

    /// The reader underneath. Bytes that were not handed out are lost.
    pub fn into_inner(self) -> (inner: R)
        ensures
            inner == self.source(),
    {
        self.inner
    }
}

impl<R: AsyncRead> BufReader<R> {
    /// Whether a buffered reader went from `before` to `after` with `fetched` coming
    /// from the reader underneath.
    pub open spec fn fetched(
        before: Self,
        after: Self,
        read: Seq<u8>,
        written: Seq<u8>,
        fetched: Seq<u8>,
    ) -> bool {
        &&& R::moves(before.source(), after.source(), fetched, written)
        &&& before.buffered() + fetched == read + after.buffered()
    }

    /// Whether data is fetched where none is left: the reader underneath is asked for as
    /// much as the buffer holds.
    pub open spec fn filled(before: Self, after: Self, poll: Poll<Result<(), IoError>>) -> bool {
        if before.buffered().len() > 0 {
            &&& after == before
            &&& io::succeeded(poll)
        } else {
            &&& after.capacity() == before.capacity()
            &&& R::reads(
                before.source(),
                after.source(),
                before.capacity(),
                after.buffered(),
                poll,
            )
        }
    }

    /// Fetches data where none is left.
    fn poll_fill_buf_inner(&mut self) -> (poll: Poll<Result<(), IoError>>)
        requires
            old(self).ok(),
        ensures
            final(self).ok(),
            final(self).capacity() == old(self).capacity(),
            Self::moves(*old(self), *final(self), Seq::empty(), Seq::empty()),
            old(self).buffered().len() > 0 ==> io::succeeded(poll) && *final(self)
                == *old(self),
            !io::succeeded(poll) ==> final(self).buffered() == old(self).buffered(),
            Self::filled(*old(self), *final(self), poll),
    {
        let ghost before = *self;
        let poll = self.window.fill(&mut self.inner);
        proof {
            let fetched = choose|fetched: Seq<u8>| #[trigger]
                ReadWindow::fetched(before.inner, self.inner, before.window@, self.window@, fetched);
            assert(Seq::<u8>::empty() + self.buffered() =~= self.buffered());
            assert(Self::fetched(before, *self, Seq::empty(), Seq::empty(), fetched));
        }
        poll
    }
}

impl<R: AsyncRead> ByteFlow for BufReader<R> {
    open spec fn ok(&self) -> bool {
        self.wf() && self.source().ok()
    }

    open spec fn moves(before: Self, after: Self, read: Seq<u8>, written: Seq<u8>) -> bool {
        exists|fetched: Seq<u8>| #[trigger]
            Self::fetched(before, after, read, written, fetched)
    }

    proof fn moves_nothing(s: Self) {
        R::moves_nothing(s.source());
        assert(s.buffered() + Seq::<u8>::empty() =~= Seq::<u8>::empty() + s.buffered());
        assert(Self::fetched(s, s, Seq::empty(), Seq::empty(), Seq::empty()));
    }

    proof fn moves_both(
        a: Self,
        b: Self,
        c: Self,
        read1: Seq<u8>,
        written1: Seq<u8>,
        read2: Seq<u8>,
        written2: Seq<u8>,
    ) {
        let f1 = choose|fetched: Seq<u8>| #[trigger]
            Self::fetched(a, b, read1, written1, fetched);
        let f2 = choose|fetched: Seq<u8>| #[trigger]
            Self::fetched(b, c, read2, written2, fetched);
        R::moves_both(a.source(), b.source(), c.source(), f1, written1, f2, written2);
        assert(a.buffered() + (f1 + f2) =~= (a.buffered() + f1) + f2);
        assert((read1 + b.buffered()) + f2 =~= read1 + (b.buffered() + f2));
        assert(read1 + (read2 + c.buffered()) =~= (read1 + read2) + c.buffered());
        assert(Self::fetched(a, c, read1 + read2, written1 + written2, f1 + f2));
    }
}

impl<R: AsyncRead> AsyncRead for BufReader<R> {
    /// A full buffer is left alone. Otherwise bytes that are at hand are handed out
    /// first, without asking the reader underneath. As many are handed out as fit.
    open spec fn reads(
        before: Self,
        after: Self,
        room: nat,
        got: Seq<u8>,
        poll: Poll<Result<(), IoError>>,
    ) -> bool {
        if room == 0 {
            &&& after == before
            &&& got.len() == 0
            &&& io::succeeded(poll)
        } else {
            exists|middle: Self|
                {
                    let amount = shorter(middle.buffered().len(), room) as int;
                    &&& #[trigger] Self::filled(before, middle, poll)
                    &&& after.source() == middle.source()
                    &&& after.capacity() == middle.capacity()
                    &&& got == middle.buffered().take(amount)
                    &&& after.buffered() == middle.buffered().skip(amount)
                }
        }
    }

    fn poll_read(&mut self, buf: &mut ReadBuf<'_>) -> (poll: Poll<Result<(), IoError>>) {
        let ghost data = buf.data();
        if buf.remaining() == 0 {
            proof {
                Self::moves_nothing(*self);
                assert(data.skip(data.len() as int) =~= Seq::empty());
            }
            return Poll::Ready(Ok(()));
        }
        let ghost before = *self;
        let filling = self.poll_fill_buf_inner();
        let ghost middle = *self;
        assert(Self::filled(before, middle, filling));
        match filling {
            Poll::Ready(Ok(unit)) => {
                assert(unit == ());
            },
            other => {
                proof {
                    assert(data.skip(data.len() as int) =~= Seq::empty());
                    assert(middle.buffered() =~= Seq::empty());
                    assert(middle.buffered().take(0) =~= Seq::empty());
                    assert(middle.buffered().skip(0) =~= middle.buffered());
                }
                return other;
            },
        }
        let amount: usize = buf.put(self.window.bytes());
        self.window.consume(amount);
        proof {
            let out = middle.buffered().take(amount as int);
            assert(buf.data().skip(data.len() as int) =~= out);
            assert(buf.data().take(data.len() as int) =~= data);
            R::moves_nothing(self.source());
            assert(middle.buffered() + Seq::<u8>::empty() =~= out + self.buffered());
            assert(Self::fetched(middle, *self, out, Seq::empty(), Seq::empty()));
            Self::moves_both(
                before,
                middle,
                *self,
                Seq::empty(),
                Seq::empty(),
                out,
                Seq::empty(),
            );
            assert(Seq::<u8>::empty() + out =~= out);
            assert(Seq::<u8>::empty() + Seq::<u8>::empty() =~= Seq::<u8>::empty());
        }
        Poll::Ready(Ok(()))
    }
}

impl<R: AsyncRead> AsyncBufRead for BufReader<R> {
    open spec fn unread(&self) -> Seq<u8> {
        self.buffered()
    }

    open spec fn fills(before: Self, after: Self, poll: Poll<Result<(), IoError>>) -> bool {
        Self::filled(before, after, poll)
    }

    fn poll_fill_buf(&mut self) -> (poll: Poll<Result<&[u8], IoError>>) {
        match self.poll_fill_buf_inner() {
            Poll::Pending => Poll::Pending,
            Poll::Ready(Ok(unit)) => {
                assert(unit == ());
                Poll::Ready(Ok(self.window.bytes()))
            },
            Poll::Ready(Err(error)) => Poll::Ready(Err(error)),
        }
    }

    fn consume(&mut self, amount: usize) {
        let ghost before = *self;
        self.window.consume(amount);
        proof {
            let out = before.buffered().take(
                shorter(amount as nat, before.buffered().len()) as int,
            );
            R::moves_nothing(self.source());
            assert(before.buffered() + Seq::<u8>::empty() =~= out + self.buffered());
            assert(Self::fetched(before, *self, out, Seq::empty(), Seq::empty()));
        }
    }
}

// ---------------------------------------------------------------------------
// Writing
// ---------------------------------------------------------------------------

/// A writer with a buffer.
pub struct BufWriter<W> {
    inner: W,
    queue: WriteQueue,
}

impl<W> BufWriter<W> {
    /// The writer underneath.
    pub closed spec fn sink(&self) -> W {
        self.inner
    }

    /// The bytes that were taken and not passed on.
    pub closed spec fn pending(&self) -> Seq<u8> {
        self.queue@
    }

    /// How many bytes are kept back.
    pub closed spec fn capacity(&self) -> nat {
        self.queue.limit()
    }

    /// The buffer is in order.
    pub closed spec fn wf(&self) -> bool {
        self.queue.wf()
    }

    /// A writer with a buffer of the usual size.
    pub fn new(inner: W) -> (writer: BufWriter<W>)
        ensures
            writer.wf(),
            writer.sink() == inner,
            writer.pending() == Seq::<u8>::empty(),
            writer.capacity() == DEFAULT_CAPACITY,
    {
        Self::with_capacity(DEFAULT_CAPACITY, inner)
    }

    /// A writer with a buffer of `capacity` bytes.
    pub fn with_capacity(capacity: usize, inner: W) -> (writer: BufWriter<W>)
        requires
            capacity > 0,
        ensures
            writer.wf(),
            writer.sink() == inner,
            writer.pending() == Seq::<u8>::empty(),
            writer.capacity() == capacity,
    {
        BufWriter { inner, queue: WriteQueue::new(capacity) }
    }

    /// The writer underneath.
    pub fn get_ref(&self) -> (inner: &W)
        ensures
            *inner == self.sink(),
    {
        &self.inner
    }

    /// The writer underneath.
    pub fn get_mut(&mut self) -> (inner: &mut W)
        ensures
            *inner == old(self).sink(),
            final(self).sink() == *final(inner),
            final(self).pending() == old(self).pending(),
            final(self).capacity() == old(self).capacity(),
            final(self).wf() == old(self).wf(),
    {
        &mut self.inner
    }

    /// The writer underneath. Bytes that were not passed on are lost.
    pub fn into_inner(self) -> (inner: W)
        ensures
            inner == self.sink(),
    {
        self.inner
    }
}

impl<W: AsyncWrite> BufWriter<W> {
    /// Whether a buffered writer went from `before` to `after` with `flushed` going
    /// into the writer underneath.
    pub open spec fn flushed(
        before: Self,
        after: Self,
        read: Seq<u8>,
        written: Seq<u8>,
        flushed: Seq<u8>,
    ) -> bool {
        &&& W::moves(before.sink(), after.sink(), read, flushed)
        &&& before.pending() + written == flushed + after.pending()
    }

    /// Whether what is queued is passed on, and the writer underneath is then flushed.
    pub open spec fn drains(before: Self, after: Self, poll: Poll<Result<(), IoError>>) -> bool {
        &&& after.capacity() == before.capacity()
        &&& WriteQueue::drains(
            before.sink(),
            after.sink(),
            before.pending(),
            after.pending(),
            "eddy: buffered writer made no progress",
            poll,
        )
    }

    /// Whether a write finds room: bytes are queued without asking the writer underneath,
    /// except that what would fill an empty buffer goes straight through.
    pub open spec fn accepts(
        before: Self,
        after: Self,
        data: Seq<u8>,
        poll: Poll<Result<usize, IoError>>,
    ) -> bool {
        &&& after.capacity() == before.capacity()
        &&& if before.pending().len() == 0 && data.len() >= before.capacity() {
            &&& after.pending() == before.pending()
            &&& W::writes(before.sink(), after.sink(), data, poll)
        } else {
            let room = (before.capacity() - before.pending().len()) as nat;
            &&& poll matches Poll::Ready(Ok(count))
            &&& count == shorter(data.len(), room)
            &&& after.sink() == before.sink()
            &&& after.pending() == before.pending() + data.take(count as int)
        }
    }

    /// Passes on what is queued.
    fn flush_queue(&mut self) -> (poll: Poll<Result<(), IoError>>)
        requires
            old(self).ok(),
        ensures
            final(self).ok(),
            final(self).capacity() == old(self).capacity(),
            Self::moves(*old(self), *final(self), Seq::empty(), Seq::empty()),
            io::succeeded(poll) ==> final(self).pending() == Seq::<u8>::empty(),
            Self::drains(*old(self), *final(self), poll),
    {
        let ghost before = *self;
        let poll = self.queue.flush(&mut self.inner, "eddy: buffered writer made no progress");
        proof {
            let flushed = choose|flushed: Seq<u8>| #[trigger]
                WriteQueue::flushed(before.inner, self.inner, before.queue@, self.queue@, flushed);
            assert(before.pending() + Seq::<u8>::empty() =~= before.pending());
            assert(Self::flushed(before, *self, Seq::empty(), Seq::empty(), flushed));
        }
        poll
    }

    /// Queues bytes, for which there is room.
    fn enqueue(&mut self, data: &[u8]) -> (count: usize)
        requires
            old(self).ok(),
            old(self).queue.pos == 0,
        ensures
            final(self).ok(),
            final(self).capacity() == old(self).capacity(),
            final(self).sink() == old(self).sink(),
            count == shorter(data@.len(), (old(self).capacity() - old(self).pending().len()) as nat),
            final(self).pending() == old(self).pending() + data@.take(count as int),
            Self::moves(*old(self), *final(self), Seq::empty(), data@.take(count as int)),
    {
        let ghost before = *self;
        let count: usize = self.queue.push(data);
        proof {
            let written = data@.take(count as int);
            W::moves_nothing(self.sink());
            assert(before.pending() + written =~= Seq::<u8>::empty() + self.pending());
            assert(Self::flushed(before, *self, Seq::empty(), written, Seq::empty()));
        }
        count
    }

    /// What one step writes and a second step writes is what both write.
    proof fn lemma_then(a: Self, b: Self, c: Self, written: Seq<u8>)
        requires
            Self::moves(a, b, Seq::empty(), Seq::empty()),
            Self::moves(b, c, Seq::empty(), written),
        ensures
            Self::moves(a, c, Seq::empty(), written),
    {
        Self::moves_both(a, b, c, Seq::empty(), Seq::empty(), Seq::empty(), written);
        assert(Seq::<u8>::empty() + Seq::<u8>::empty() =~= Seq::<u8>::empty());
        assert(Seq::<u8>::empty() + written =~= written);
    }
}

impl<W: AsyncWrite> ByteFlow for BufWriter<W> {
    open spec fn ok(&self) -> bool {
        self.wf() && self.sink().ok()
    }

    open spec fn moves(before: Self, after: Self, read: Seq<u8>, written: Seq<u8>) -> bool {
        exists|flushed: Seq<u8>| #[trigger]
            Self::flushed(before, after, read, written, flushed)
    }

    proof fn moves_nothing(s: Self) {
        W::moves_nothing(s.sink());
        assert(s.pending() + Seq::<u8>::empty() =~= Seq::<u8>::empty() + s.pending());
        assert(Self::flushed(s, s, Seq::empty(), Seq::empty(), Seq::empty()));
    }

    proof fn moves_both(
        a: Self,
        b: Self,
        c: Self,
        read1: Seq<u8>,
        written1: Seq<u8>,
        read2: Seq<u8>,
        written2: Seq<u8>,
    ) {
        let f1 = choose|flushed: Seq<u8>| #[trigger]
            Self::flushed(a, b, read1, written1, flushed);
        let f2 = choose|flushed: Seq<u8>| #[trigger]
            Self::flushed(b, c, read2, written2, flushed);
        W::moves_both(a.sink(), b.sink(), c.sink(), read1, f1, read2, f2);
        assert(a.pending() + (written1 + written2) =~= (a.pending() + written1) + written2);
        assert((f1 + b.pending()) + written2 =~= f1 + (b.pending() + written2));
        assert(f1 + (f2 + c.pending()) =~= (f1 + f2) + c.pending());
        assert(Self::flushed(a, c, read1 + read2, written1 + written2, f1 + f2));
    }
}

impl<W: AsyncWrite> AsyncWrite for BufWriter<W> {
    /// A full buffer is passed on first.
    open spec fn writes(
        before: Self,
        after: Self,
        data: Seq<u8>,
        poll: Poll<Result<usize, IoError>>,
    ) -> bool {
        if data.len() == 0 {
            &&& after == before
            &&& poll == Poll::<Result<usize, IoError>>::Ready(Ok(0))
        } else if before.pending().len() < before.capacity() {
            Self::accepts(before, after, data, poll)
        } else {
            exists|middle: Self, flush: Poll<Result<(), IoError>>|
                {
                    &&& #[trigger] Self::drains(before, middle, flush)
                    &&& if io::succeeded(flush) {
                        Self::accepts(middle, after, data, poll)
                    } else {
                        &&& after.sink() == middle.sink()
                        &&& after.pending() == middle.pending()
                        &&& after.capacity() == middle.capacity()
                        &&& without_value(poll) == flush
                    }
                }
        }
    }

    open spec fn flushes(before: Self, after: Self, poll: Poll<Result<(), IoError>>) -> bool {
        Self::drains(before, after, poll)
    }

    /// The writer underneath is shut down only once everything has been passed on.
    open spec fn shuts_down(before: Self, after: Self, poll: Poll<Result<(), IoError>>) -> bool {
        exists|middle: Self, flush: Poll<Result<(), IoError>>|
            {
                &&& #[trigger] Self::drains(before, middle, flush)
                &&& if io::succeeded(flush) {
                    &&& W::shuts_down(middle.sink(), after.sink(), poll)
                    &&& after.pending() == middle.pending()
                    &&& after.capacity() == middle.capacity()
                } else {
                    &&& after == middle
                    &&& poll == flush
                }
            }
    }

    /// Several buffers are written one at a time.
    open spec fn writes_vectored(
        before: Self,
        after: Self,
        bufs: Seq<Seq<u8>>,
        poll: Poll<Result<usize, IoError>>,
    ) -> bool {
        io::one_buffer(
            before,
            after,
            bufs,
            poll,
            Self::writes(before, after, io::first_filled(bufs), poll),
        )
    }

    proof fn one_buffer_will_do(
        before: Self,
        after: Self,
        bufs: Seq<Seq<u8>>,
        poll: Poll<Result<usize, IoError>>,
    ) {
    }

    fn poll_write(&mut self, data: &[u8]) -> (poll: Poll<Result<usize, IoError>>) {
        let ghost first = *self;
        proof {
            Self::moves_nothing(first);
            assert(data@.take(0) =~= Seq::empty());
        }
        if data.len() == 0 {
            return Poll::Ready(Ok(0));
        }
        self.queue.compact();
        let ghost compacted = *self;
        proof {
            W::moves_nothing(first.sink());
            assert(first.pending() + Seq::<u8>::empty() =~= Seq::<u8>::empty()
                + compacted.pending());
            assert(Self::flushed(first, compacted, Seq::empty(), Seq::empty(), Seq::empty()));
            assert(compacted.pending() =~= self.queue.buffer@);
        }
        if self.queue.buffer.len() == self.queue.capacity {
            let poll = self.flush_queue();
            proof {
                Self::lemma_then(first, compacted, *self, Seq::empty());
                assert(Self::drains(compacted, *self, poll));
                assert(Self::drains(first, *self, poll));
            }
            match poll {
                Poll::Pending => {
                    return Poll::Pending;
                },
                Poll::Ready(Ok(_)) => {
                    let ghost flushed = *self;
                    self.queue.clear();
                    proof {
                        W::moves_nothing(flushed.sink());
                        assert(flushed.pending() + Seq::<u8>::empty() =~= Seq::<u8>::empty()
                            + self.pending());
                        assert(Self::flushed(
                            flushed,
                            *self,
                            Seq::empty(),
                            Seq::empty(),
                            Seq::empty(),
                        ));
                        Self::lemma_then(first, flushed, *self, Seq::empty());
                    }
                },
                Poll::Ready(Err(error)) => {
                    return Poll::Ready(Err(error));
                },
            }
        }
        let ghost ready = *self;
        assert(ready.pending() =~= self.queue.buffer@);
        if self.queue.buffer.len() == 0 && data.len() >= self.queue.capacity {
            let poll = self.inner.poll_write(data);
            proof {
                let written = data@.take(io::taken(poll) as int);
                assert(ready.pending() + written =~= written + self.pending());
                assert(Self::flushed(ready, *self, Seq::empty(), written, written));
                Self::lemma_then(first, ready, *self, written);
            }
            return poll;
        }
        let count: usize = self.enqueue(data);
        proof {
            Self::lemma_then(first, ready, *self, data@.take(count as int));
        }
        Poll::Ready(Ok(count))
    }

    /// A flush that finishes leaves nothing behind.
    fn poll_flush(&mut self) -> (poll: Poll<Result<(), IoError>>)
        ensures
            io::succeeded(poll) ==> final(self).pending() == Seq::<u8>::empty(),
    {
        self.flush_queue()
    }

    /// A shutdown that finishes leaves nothing behind.
    fn poll_shutdown(&mut self) -> (poll: Poll<Result<(), IoError>>)
        ensures
            io::succeeded(poll) ==> final(self).pending() == Seq::<u8>::empty(),
    {
        let ghost first = *self;
        let flush = self.flush_queue();
        assert(Self::drains(first, *self, flush));
        match flush {
            Poll::Pending => Poll::Pending,
            Poll::Ready(Ok(_)) => {
                let ghost middle = *self;
                let poll = self.inner.poll_shutdown();
                proof {
                    assert(middle.pending() + Seq::<u8>::empty() =~= Seq::<u8>::empty()
                        + self.pending());
                    assert(Self::flushed(
                        middle,
                        *self,
                        Seq::empty(),
                        Seq::empty(),
                        Seq::empty(),
                    ));
                    Self::lemma_then(first, middle, *self, Seq::empty());
                }
                poll
            },
            Poll::Ready(Err(error)) => Poll::Ready(Err(error)),
        }
    }
}

/// Buffered writes keep their order: what went into the writer underneath, followed by
/// what is still kept back, is what was kept back before, followed by what was written.
/// A flush that finishes keeps nothing back, so all of it has gone through.
pub proof fn law_buffered_writes_keep_their_order<W: AsyncWrite>(
    first: BufWriter<W>,
    middle: BufWriter<W>,
    last: BufWriter<W>,
    written: Seq<u8>,
    poll: Poll<Result<(), IoError>>,
) -> (passed: Seq<u8>)
    requires
        BufWriter::<W>::moves(first, middle, Seq::empty(), written),
        BufWriter::<W>::moves(middle, last, Seq::empty(), Seq::empty()),
        BufWriter::<W>::flushes(middle, last, poll),
    ensures
        W::moves(first.sink(), last.sink(), Seq::empty(), passed),
        first.pending() + written == passed + last.pending(),
        io::succeeded(poll) ==> passed == first.pending() + written,
{
    BufWriter::<W>::moves_both(
        first,
        middle,
        last,
        Seq::empty(),
        written,
        Seq::empty(),
        Seq::empty(),
    );
    assert(Seq::<u8>::empty() + Seq::<u8>::empty() =~= Seq::<u8>::empty());
    assert(written + Seq::<u8>::empty() =~= written);
    let passed = choose|flushed: Seq<u8>| #[trigger]
        BufWriter::<W>::flushed(first, last, Seq::empty(), written, flushed);
    if io::succeeded(poll) {
        assert(last.pending() =~= Seq::empty());
        assert(passed + last.pending() =~= passed);
    }
    passed
}

/// Buffered reads keep their order: what was handed out, followed by what is still at
/// hand, is what was at hand before, followed by what was fetched.
pub proof fn law_buffered_reads_keep_their_order<R: AsyncRead>(
    first: BufReader<R>,
    last: BufReader<R>,
    read: Seq<u8>,
) -> (fetched: Seq<u8>)
    requires
        BufReader::<R>::moves(first, last, read, Seq::empty()),
    ensures
        R::moves(first.source(), last.source(), fetched, Seq::empty()),
        first.buffered() + fetched == read + last.buffered(),
{
    choose|fetched: Seq<u8>| #[trigger]
        BufReader::<R>::fetched(first, last, read, Seq::empty(), fetched)
}

// ---------------------------------------------------------------------------
// Both
// ---------------------------------------------------------------------------

/// A stream with a buffer in each direction.
pub struct BufStream<S> {
    inner: S,
    window: ReadWindow,
    queue: WriteQueue,
}

impl<S> BufStream<S> {
    /// The stream underneath.
    pub closed spec fn stream(&self) -> S {
        self.inner
    }

    /// The bytes that were fetched and not handed out.
    pub closed spec fn buffered(&self) -> Seq<u8> {
        self.window@
    }

    /// The bytes that were taken and not passed on.
    pub closed spec fn pending(&self) -> Seq<u8> {
        self.queue@
    }

    /// How many bytes are fetched at a time.
    pub closed spec fn read_capacity(&self) -> nat {
        self.window.storage().len()
    }

    /// How many bytes are kept back.
    pub closed spec fn write_capacity(&self) -> nat {
        self.queue.limit()
    }

    /// The buffers are in order.
    pub closed spec fn wf(&self) -> bool {
        self.window.wf() && self.queue.wf()
    }

    /// A stream with buffers of the usual size.
    pub fn new(inner: S) -> (stream: BufStream<S>)
        ensures
            stream.wf(),
            stream.stream() == inner,
            stream.buffered() == Seq::<u8>::empty(),
            stream.pending() == Seq::<u8>::empty(),
            stream.read_capacity() == DEFAULT_CAPACITY,
            stream.write_capacity() == DEFAULT_CAPACITY,
    {
        Self::with_capacity(DEFAULT_CAPACITY, inner)
    }

    /// A stream with buffers of `capacity` bytes.
    pub fn with_capacity(capacity: usize, inner: S) -> (stream: BufStream<S>)
        requires
            capacity > 0,
        ensures
            stream.wf(),
            stream.stream() == inner,
            stream.buffered() == Seq::<u8>::empty(),
            stream.pending() == Seq::<u8>::empty(),
            stream.read_capacity() == capacity,
            stream.write_capacity() == capacity,
    {
        BufStream {
            inner,
            window: ReadWindow::new(capacity),
            queue: WriteQueue::new(capacity),
        }
    }

    /// The stream underneath.
    pub fn get_ref(&self) -> (inner: &S)
        ensures
            *inner == self.stream(),
    {
        &self.inner
    }

    /// The stream underneath.
    pub fn get_mut(&mut self) -> (inner: &mut S)
        ensures
            *inner == old(self).stream(),
            final(self).stream() == *final(inner),
            final(self).buffered() == old(self).buffered(),
            final(self).pending() == old(self).pending(),
            final(self).read_capacity() == old(self).read_capacity(),
            final(self).write_capacity() == old(self).write_capacity(),
            final(self).wf() == old(self).wf(),
    {
        &mut self.inner
    }

    /// The stream underneath. Bytes in the buffers are lost.
    pub fn into_inner(self) -> (inner: S)
        ensures
            inner == self.stream(),
    {
        self.inner
    }
}

impl<S: AsyncRead + AsyncWrite> BufStream<S> {
    /// Whether a buffered stream went from `before` to `after` with `fetched` coming
    /// from the stream underneath and `flushed` going into it.
    pub open spec fn passed(
        before: Self,
        after: Self,
        read: Seq<u8>,
        written: Seq<u8>,
        fetched: Seq<u8>,
        flushed: Seq<u8>,
    ) -> bool {
        &&& S::moves(before.stream(), after.stream(), fetched, flushed)
        &&& before.buffered() + fetched == read + after.buffered()
        &&& before.pending() + written == flushed + after.pending()
    }

    /// Changes of the buffers alone are moves where the bytes are accounted for.
    proof fn lemma_buffers_move(a: Self, b: Self, read: Seq<u8>, written: Seq<u8>)
        requires
            a.stream() == b.stream(),
            a.buffered() == read + b.buffered(),
            a.pending() + written == b.pending(),
        ensures
            Self::moves(a, b, read, written),
    {
        S::moves_nothing(a.stream());
        assert(a.buffered() + Seq::<u8>::empty() =~= read + b.buffered());
        assert(a.pending() + written =~= Seq::<u8>::empty() + b.pending());
        assert(Self::passed(a, b, read, written, Seq::empty(), Seq::empty()));
    }

    /// A step that moves nothing may come first.
    proof fn lemma_then(a: Self, b: Self, c: Self, read: Seq<u8>, written: Seq<u8>)
        requires
            Self::moves(a, b, Seq::empty(), Seq::empty()),
            Self::moves(b, c, read, written),
        ensures
            Self::moves(a, c, read, written),
    {
        Self::moves_both(a, b, c, Seq::empty(), Seq::empty(), read, written);
        assert(Seq::<u8>::empty() + read =~= read);
        assert(Seq::<u8>::empty() + written =~= written);
    }

    /// Whether data is fetched where none is left: the stream underneath is asked for as
    /// much as the buffer holds.
    pub open spec fn filled(before: Self, after: Self, poll: Poll<Result<(), IoError>>) -> bool {
        if before.buffered().len() > 0 {
            &&& after == before
            &&& io::succeeded(poll)
        } else {
            &&& after.read_capacity() == before.read_capacity()
            &&& after.write_capacity() == before.write_capacity()
            &&& after.pending() == before.pending()
            &&& S::reads(
                before.stream(),
                after.stream(),
                before.read_capacity(),
                after.buffered(),
                poll,
            )
        }
    }

    /// Whether what is queued is passed on, and the stream underneath is then flushed.
    pub open spec fn drains(before: Self, after: Self, poll: Poll<Result<(), IoError>>) -> bool {
        &&& after.read_capacity() == before.read_capacity()
        &&& after.write_capacity() == before.write_capacity()
        &&& after.buffered() == before.buffered()
        &&& WriteQueue::drains(
            before.stream(),
            after.stream(),
            before.pending(),
            after.pending(),
            "eddy: buffered stream made no progress",
            poll,
        )
    }

    /// Whether a write finds room: bytes are queued without asking the stream underneath.
    pub open spec fn accepts(
        before: Self,
        after: Self,
        data: Seq<u8>,
        poll: Poll<Result<usize, IoError>>,
    ) -> bool {
        let room = (before.write_capacity() - before.pending().len()) as nat;
        &&& poll matches Poll::Ready(Ok(count))
        &&& count == shorter(data.len(), room)
        &&& after.pending() == before.pending() + data.take(count as int)
        &&& Self::same_but_queue(before, after)
    }

    /// Whether nothing but the queue is different.
    pub open spec fn same_but_queue(before: Self, after: Self) -> bool {
        &&& after.stream() == before.stream()
        &&& after.buffered() == before.buffered()
        &&& after.read_capacity() == before.read_capacity()
        &&& after.write_capacity() == before.write_capacity()
    }

    /// Fetches data where none is left.
    fn poll_fill_read_buffer(&mut self) -> (poll: Poll<Result<(), IoError>>)
        requires
            old(self).ok(),
        ensures
            final(self).ok(),
            final(self).read_capacity() == old(self).read_capacity(),
            final(self).write_capacity() == old(self).write_capacity(),
            final(self).pending() == old(self).pending(),
            Self::moves(*old(self), *final(self), Seq::empty(), Seq::empty()),
            old(self).buffered().len() > 0 ==> io::succeeded(poll) && *final(self)
                == *old(self),
            !io::succeeded(poll) ==> final(self).buffered() == old(self).buffered(),
            Self::filled(*old(self), *final(self), poll),
    {
        let ghost before = *self;
        let poll = self.window.fill(&mut self.inner);
        proof {
            let fetched = choose|fetched: Seq<u8>| #[trigger]
                ReadWindow::fetched(before.inner, self.inner, before.window@, self.window@, fetched);
            assert(Seq::<u8>::empty() + self.buffered() =~= self.buffered());
            assert(before.pending() + Seq::<u8>::empty() =~= Seq::<u8>::empty() + self.pending());
            assert(Self::passed(
                before,
                *self,
                Seq::empty(),
                Seq::empty(),
                fetched,
                Seq::empty(),
            ));
        }
        poll
    }

    /// Passes on what is queued.
    fn flush_queue(&mut self) -> (poll: Poll<Result<(), IoError>>)
        requires
            old(self).ok(),
        ensures
            final(self).ok(),
            final(self).read_capacity() == old(self).read_capacity(),
            final(self).write_capacity() == old(self).write_capacity(),
            final(self).buffered() == old(self).buffered(),
            Self::moves(*old(self), *final(self), Seq::empty(), Seq::empty()),
            io::succeeded(poll) ==> final(self).pending() == Seq::<u8>::empty(),
            Self::drains(*old(self), *final(self), poll),
    {
        let ghost before = *self;
        let poll = self.queue.flush(&mut self.inner, "eddy: buffered stream made no progress");
        proof {
            let flushed = choose|flushed: Seq<u8>| #[trigger]
                WriteQueue::flushed(before.inner, self.inner, before.queue@, self.queue@, flushed);
            assert(before.pending() + Seq::<u8>::empty() =~= before.pending());
            assert(before.buffered() + Seq::<u8>::empty() =~= Seq::<u8>::empty()
                + self.buffered());
            assert(Self::passed(
                before,
                *self,
                Seq::empty(),
                Seq::empty(),
                Seq::empty(),
                flushed,
            ));
        }
        poll
    }
}

impl<S: AsyncRead + AsyncWrite> ByteFlow for BufStream<S> {
    open spec fn ok(&self) -> bool {
        self.wf() && self.stream().ok()
    }

    open spec fn moves(before: Self, after: Self, read: Seq<u8>, written: Seq<u8>) -> bool {
        exists|fetched: Seq<u8>, flushed: Seq<u8>| #[trigger]
            Self::passed(before, after, read, written, fetched, flushed)
    }

    proof fn moves_nothing(s: Self) {
        assert(s.buffered() =~= Seq::<u8>::empty() + s.buffered());
        assert(s.pending() + Seq::<u8>::empty() =~= s.pending());
        Self::lemma_buffers_move(s, s, Seq::empty(), Seq::empty());
    }

    proof fn moves_both(
        a: Self,
        b: Self,
        c: Self,
        read1: Seq<u8>,
        written1: Seq<u8>,
        read2: Seq<u8>,
        written2: Seq<u8>,
    ) {
        let (f1, g1) = choose|fetched: Seq<u8>, flushed: Seq<u8>| #[trigger]
            Self::passed(a, b, read1, written1, fetched, flushed);
        let (f2, g2) = choose|fetched: Seq<u8>, flushed: Seq<u8>| #[trigger]
            Self::passed(b, c, read2, written2, fetched, flushed);
        S::moves_both(a.stream(), b.stream(), c.stream(), f1, g1, f2, g2);
        assert(a.buffered() + (f1 + f2) =~= (a.buffered() + f1) + f2);
        assert((read1 + b.buffered()) + f2 =~= read1 + (b.buffered() + f2));
        assert(read1 + (read2 + c.buffered()) =~= (read1 + read2) + c.buffered());
        assert(a.pending() + (written1 + written2) =~= (a.pending() + written1) + written2);
        assert((g1 + b.pending()) + written2 =~= g1 + (b.pending() + written2));
        assert(g1 + (g2 + c.pending()) =~= (g1 + g2) + c.pending());
        assert(Self::passed(a, c, read1 + read2, written1 + written2, f1 + f2, g1 + g2));
    }
}

impl<S: AsyncRead + AsyncWrite> AsyncRead for BufStream<S> {
    /// A read passes on all that was written first. As many bytes are handed out as
    /// there are, or as fit.
    open spec fn reads(
        before: Self,
        after: Self,
        room: nat,
        got: Seq<u8>,
        poll: Poll<Result<(), IoError>>,
    ) -> bool {
        exists|flushed: Self, flush: Poll<Result<(), IoError>>|
            {
                &&& #[trigger] Self::drains(before, flushed, flush)
                &&& if io::succeeded(flush) {
                    exists|middle: Self|
                        {
                            let amount = shorter(middle.buffered().len(), room) as int;
                            &&& #[trigger] Self::filled(flushed, middle, poll)
                            &&& got == middle.buffered().take(amount)
                            &&& after.buffered() == middle.buffered().skip(amount)
                            &&& after.pending() == middle.pending()
                            &&& after.stream() == middle.stream()
                            &&& after.read_capacity() == middle.read_capacity()
                            &&& after.write_capacity() == middle.write_capacity()
                        }
                } else {
                    &&& after == flushed
                    &&& got.len() == 0
                    &&& poll == flush
                }
            }
    }

    fn poll_read(&mut self, buf: &mut ReadBuf<'_>) -> (poll: Poll<Result<(), IoError>>) {
        let ghost first = *self;
        let ghost data = buf.data();
        assert(data.skip(data.len() as int) =~= Seq::empty());
        let flush = self.flush_queue();
        let ghost flushed = *self;
        assert(Self::drains(first, flushed, flush));
        match flush {
            Poll::Ready(Ok(_)) => {},
            other => {
                return other;
            },
        }
        let poll = self.poll_fill_read_buffer();
        let ghost middle = *self;
        proof {
            Self::lemma_then(first, flushed, middle, Seq::empty(), Seq::empty());
            assert(Self::filled(flushed, middle, poll));
            if !io::succeeded(poll) {
                assert(middle.buffered() =~= Seq::empty());
                assert(middle.buffered().take(0) =~= Seq::empty());
                assert(middle.buffered().skip(0) =~= middle.buffered());
            }
        }
        match poll {
            Poll::Ready(Ok(unit)) => {
                assert(unit == ());
            },
            other => {
                return other;
            },
        }
        let amount: usize = buf.put(self.window.bytes());
        self.window.consume(amount);
        proof {
            let out = middle.buffered().take(amount as int);
            assert(buf.data().skip(data.len() as int) =~= out);
            assert(buf.data().take(data.len() as int) =~= data);
            assert(middle.buffered() =~= out + self.buffered());
            assert(middle.pending() + Seq::<u8>::empty() =~= self.pending());
            Self::lemma_buffers_move(middle, *self, out, Seq::empty());
            Self::lemma_then(first, middle, *self, out, Seq::empty());
        }
        Poll::Ready(Ok(()))
    }
}

impl<S: AsyncRead + AsyncWrite> AsyncBufRead for BufStream<S> {
    open spec fn unread(&self) -> Seq<u8> {
        self.buffered()
    }

    open spec fn fills(before: Self, after: Self, poll: Poll<Result<(), IoError>>) -> bool {
        Self::filled(before, after, poll)
    }

    fn poll_fill_buf(&mut self) -> (poll: Poll<Result<&[u8], IoError>>) {
        match self.poll_fill_read_buffer() {
            Poll::Pending => Poll::Pending,
            Poll::Ready(Ok(unit)) => {
                assert(unit == ());
                Poll::Ready(Ok(self.window.bytes()))
            },
            Poll::Ready(Err(error)) => Poll::Ready(Err(error)),
        }
    }

    fn consume(&mut self, amount: usize) {
        let ghost before = *self;
        self.window.consume(amount);
        proof {
            let out = before.buffered().take(
                shorter(amount as nat, before.buffered().len()) as int,
            );
            assert(before.buffered() =~= out + self.buffered());
            assert(before.pending() + Seq::<u8>::empty() =~= self.pending());
            Self::lemma_buffers_move(before, *self, out, Seq::empty());
        }
    }
}

impl<S: AsyncRead + AsyncWrite> AsyncWrite for BufStream<S> {
    /// A full buffer is passed on first.
    open spec fn writes(
        before: Self,
        after: Self,
        data: Seq<u8>,
        poll: Poll<Result<usize, IoError>>,
    ) -> bool {
        if data.len() == 0 {
            &&& after == before
            &&& poll == Poll::<Result<usize, IoError>>::Ready(Ok(0))
        } else if before.pending().len() < before.write_capacity() {
            Self::accepts(before, after, data, poll)
        } else {
            exists|middle: Self, flush: Poll<Result<(), IoError>>|
                {
                    &&& #[trigger] Self::drains(before, middle, flush)
                    &&& if io::succeeded(flush) {
                        Self::accepts(middle, after, data, poll)
                    } else {
                        &&& Self::same_but_queue(middle, after)
                        &&& after.pending() == middle.pending()
                        &&& without_value(poll) == flush
                    }
                }
        }
    }

    open spec fn flushes(before: Self, after: Self, poll: Poll<Result<(), IoError>>) -> bool {
        Self::drains(before, after, poll)
    }

    /// The stream underneath is shut down only once everything has been passed on.
    open spec fn shuts_down(before: Self, after: Self, poll: Poll<Result<(), IoError>>) -> bool {
        exists|middle: Self, flush: Poll<Result<(), IoError>>|
            {
                &&& #[trigger] Self::drains(before, middle, flush)
                &&& if io::succeeded(flush) {
                    &&& S::shuts_down(middle.stream(), after.stream(), poll)
                    &&& after.buffered() == middle.buffered()
                    &&& after.pending() == middle.pending()
                    &&& after.read_capacity() == middle.read_capacity()
                    &&& after.write_capacity() == middle.write_capacity()
                } else {
                    &&& after == middle
                    &&& poll == flush
                }
            }
    }

    /// Several buffers are written one at a time.
    open spec fn writes_vectored(
        before: Self,
        after: Self,
        bufs: Seq<Seq<u8>>,
        poll: Poll<Result<usize, IoError>>,
    ) -> bool {
        io::one_buffer(
            before,
            after,
            bufs,
            poll,
            Self::writes(before, after, io::first_filled(bufs), poll),
        )
    }

    proof fn one_buffer_will_do(
        before: Self,
        after: Self,
        bufs: Seq<Seq<u8>>,
        poll: Poll<Result<usize, IoError>>,
    ) {
    }

    fn poll_write(&mut self, data: &[u8]) -> (poll: Poll<Result<usize, IoError>>) {
        let ghost first = *self;
        proof {
            Self::moves_nothing(first);
            assert(data@.take(0) =~= Seq::empty());
        }
        if data.len() == 0 {
            return Poll::Ready(Ok(0));
        }
        self.queue.compact();
        let ghost compacted = *self;
        proof {
            assert(first.buffered() =~= Seq::<u8>::empty() + compacted.buffered());
            assert(first.pending() + Seq::<u8>::empty() =~= compacted.pending());
            Self::lemma_buffers_move(first, compacted, Seq::empty(), Seq::empty());
            assert(compacted.pending() =~= self.queue.buffer@);
        }
        if self.queue.buffer.len() == self.queue.capacity {
            let poll = self.flush_queue();
            proof {
                Self::lemma_then(first, compacted, *self, Seq::empty(), Seq::empty());
                assert(Self::drains(compacted, *self, poll));
                assert(Self::drains(first, *self, poll));
            }
            match poll {
                Poll::Pending => {
                    return Poll::Pending;
                },
                Poll::Ready(Ok(_)) => {
                    let ghost flushed = *self;
                    self.queue.compact();
                    proof {
                        assert(flushed.buffered() =~= Seq::<u8>::empty() + self.buffered());
                        assert(flushed.pending() + Seq::<u8>::empty() =~= self.pending());
                        Self::lemma_buffers_move(flushed, *self, Seq::empty(), Seq::empty());
                        Self::lemma_then(first, flushed, *self, Seq::empty(), Seq::empty());
                    }
                },
                Poll::Ready(Err(error)) => {
                    return Poll::Ready(Err(error));
                },
            }
        }
        let ghost ready = *self;
        let count: usize = self.queue.push(data);
        proof {
            let written = data@.take(count as int);
            assert(ready.buffered() =~= Seq::<u8>::empty() + self.buffered());
            Self::lemma_buffers_move(ready, *self, Seq::empty(), written);
            Self::lemma_then(first, ready, *self, Seq::empty(), written);
        }
        Poll::Ready(Ok(count))
    }

    /// A flush that finishes leaves nothing behind.
    fn poll_flush(&mut self) -> (poll: Poll<Result<(), IoError>>)
        ensures
            io::succeeded(poll) ==> final(self).pending() == Seq::<u8>::empty(),
    {
        self.flush_queue()
    }

    /// A shutdown that finishes leaves nothing behind.
    fn poll_shutdown(&mut self) -> (poll: Poll<Result<(), IoError>>)
        ensures
            io::succeeded(poll) ==> final(self).pending() == Seq::<u8>::empty(),
    {
        let ghost first = *self;
        let flush = self.flush_queue();
        assert(Self::drains(first, *self, flush));
        match flush {
            Poll::Pending => Poll::Pending,
            Poll::Ready(Ok(_)) => {
                let ghost middle = *self;
                let poll = self.inner.poll_shutdown();
                proof {
                    assert(middle.buffered() + Seq::<u8>::empty() =~= Seq::<u8>::empty()
                        + self.buffered());
                    assert(middle.pending() + Seq::<u8>::empty() =~= Seq::<u8>::empty()
                        + self.pending());
                    assert(Self::passed(
                        middle,
                        *self,
                        Seq::empty(),
                        Seq::empty(),
                        Seq::empty(),
                        Seq::empty(),
                    ));
                    Self::lemma_then(first, middle, *self, Seq::empty(), Seq::empty());
                }
                poll
            },
            Poll::Ready(Err(error)) => Poll::Ready(Err(error)),
        }
    }
}

} // verus!
