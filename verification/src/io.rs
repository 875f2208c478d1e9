//! Asynchronous input and output: readiness, buffers and the reading and writing
//! traits.

pub mod buf;
pub mod buffer_laws;
pub mod byte_calls;
pub mod byte_laws;
pub mod driver;
pub mod endpoint;
pub mod ext;
pub mod net;
pub mod object_calls;
pub mod ops;
pub mod poll_evented;
pub mod readiness_calls;
pub mod readiness_laws;
pub mod ring_calls;
pub mod ring_laws;
pub mod slots;
pub mod uring;

use crate::poll::Poll;
use vstd::prelude::*;

verus! {

/// What kind of input or output error happened.
#[derive(Debug, Clone, Copy, PartialEq, Eq, Structural)]
pub enum ErrorKind {
    WouldBlock,
    Interrupted,
    UnexpectedEof,
    WriteZero,
    InvalidData,
    InvalidInput,
    Unsupported,
    NotConnected,
    Other,
}

/// What a system call said went wrong. Codes that mean something to the library have a
/// name; their numbers differ from machine to machine.
#[derive(Debug, Clone, Copy, PartialEq, Eq, Structural)]
pub enum SystemError {
    NotImplemented,
    NotPermitted,
    AccessDenied,
    NoDevice,
    InProgress,
    AlreadyInProgress,
    WouldBlock,
    /// Any other, by its number.
    Other(i32),
}

/// An input or output error.
#[derive(Debug, Clone, Copy, PartialEq, Eq)]
pub struct IoError {
    pub kind: ErrorKind,
    pub message: &'static str,
}

// ---------------------------------------------------------------------------
// Interest and readiness
// ---------------------------------------------------------------------------

/// What an I/O object is waiting for.
#[derive(Debug, Clone, Copy, PartialEq, Eq, Structural, Hash)]
pub struct Interest(pub u16);

impl Interest {
    /// Interest in reading.
    pub fn readable() -> (interest: Interest)
        ensures
            interest == Interest(1),
    {
        Interest(1)
    }

    /// Interest in writing.
    pub fn writable() -> (interest: Interest)
        ensures
            interest == Interest(2),
    {
        Interest(2)
    }

    /// Edge-triggered notifications, which report once per change of state.
    pub fn edge_triggered() -> (interest: Interest)
        ensures
            interest == Interest(4),
    {
        Interest(4)
    }

    /// Whether reading is of interest.
    pub open spec fn wants_read(self) -> bool {
        self.0 & 1 != 0
    }

    /// Whether writing is of interest.
    pub open spec fn wants_write(self) -> bool {
        self.0 & 2 != 0
    }

    /// Combines interests.
    pub fn add(self, other: Interest) -> (interest: Interest)
        ensures
            interest.0 == self.0 | other.0,
            interest.wants_read() == (self.wants_read() || other.wants_read()),
            interest.wants_write() == (self.wants_write() || other.wants_write()),
    {
        let a: u16 = self.0;
        let b: u16 = other.0;
        assert((a | b) & 1 != 0 <==> (a & 1 != 0 || b & 1 != 0)) by (bit_vector);
        assert((a | b) & 2 != 0 <==> (a & 2 != 0 || b & 2 != 0)) by (bit_vector);
        Interest(a | b)
    }

    /// Whether reading is of interest.
    pub fn is_readable(&self) -> (result: bool)
        ensures
            result == self.wants_read(),
    {
        self.0 & 1 != 0
    }

    /// Whether writing is of interest.
    pub fn is_writable(&self) -> (result: bool)
        ensures
            result == self.wants_write(),
    {
        self.0 & 2 != 0
    }

    /// Whether notifications are edge-triggered.
    pub fn is_edge_triggered(self) -> (result: bool)
        ensures
            result == (self.0 & 4 != 0),
    {
        self.0 & 4 != 0
    }
}

/// A set of readiness bits: readable, writable, read side closed, write side
/// closed, error.
#[derive(Debug, Clone, Copy, PartialEq, Eq, Structural, Hash)]
pub struct Ready(pub u16);

impl Ready {
    /// Readable.
    pub fn readable() -> (ready: Ready)
        ensures
            ready == Ready(1),
    {
        Ready(1)
    }

    /// Writable.
    pub fn writable() -> (ready: Ready)
        ensures
            ready == Ready(2),
    {
        Ready(2)
    }

    /// The read side is closed.
    pub fn read_closed() -> (ready: Ready)
        ensures
            ready == Ready(4),
    {
        Ready(4)
    }

    /// The write side is closed.
    pub fn write_closed() -> (ready: Ready)
        ensures
            ready == Ready(8),
    {
        Ready(8)
    }

    /// There was an error.
    pub fn error() -> (ready: Ready)
        ensures
            ready == Ready(16),
    {
        Ready(16)
    }

    /// Nothing.
    pub fn empty() -> (ready: Ready)
        ensures
            ready == Ready(0),
    {
        Ready(0)
    }

    /// Whether a read would not block: there is data, the side is closed, or there
    /// is an error.
    pub open spec fn allows_read(self) -> bool {
        self.0 & 21 != 0
    }

    /// Whether a write would not block: there is room, the side is closed, or there
    /// is an error.
    pub open spec fn allows_write(self) -> bool {
        self.0 & 26 != 0
    }

    /// Whether a read would not block.
    pub fn is_readable(&self) -> (result: bool)
        ensures
            result == self.allows_read(),
    {
        self.0 & 21 != 0
    }

    /// Whether a write would not block.
    pub fn is_writable(&self) -> (result: bool)
        ensures
            result == self.allows_write(),
    {
        self.0 & 26 != 0
    }

    /// Whether the read side is closed or in error.
    pub fn is_read_closed(&self) -> (result: bool)
        ensures
            result == (self.0 & 20 != 0),
    {
        self.0 & 20 != 0
    }

    /// Whether the write side is closed or in error.
    pub fn is_write_closed(&self) -> (result: bool)
        ensures
            result == (self.0 & 24 != 0),
    {
        self.0 & 24 != 0
    }

    /// Whether there was an error.
    pub fn is_error(&self) -> (result: bool)
        ensures
            result == (self.0 & 16 != 0),
    {
        self.0 & 16 != 0
    }

    /// Whether every bit of `other` is set.
    pub fn contains(&self, other: Ready) -> (result: bool)
        ensures
            result == (self.0 & other.0 == other.0),
    {
        self.0 & other.0 == other.0
    }

    /// The bits of both.
    pub fn union(&self, other: Ready) -> (ready: Ready)
        ensures
            ready == Ready(self.0 | other.0),
    {
        Ready(self.0 | other.0)
    }

    /// The bits that both have.
    pub fn intersection(&self, other: Ready) -> (ready: Ready)
        ensures
            ready == Ready(self.0 & other.0),
    {
        Ready(self.0 & other.0)
    }

    /// The bits.
    pub fn bits(self) -> (bits: u16)
        ensures
            bits == self.0,
    {
        self.0
    }

    /// The readiness with the given bits.
    pub fn from_bits(bits: u16) -> (ready: Ready)
        ensures
            ready == Ready(bits),
    {
        Ready(bits)
    }
}

/// A closed side or an error makes a read or a write possible, since it would not
/// block; and more bits never take a possibility away.
pub proof fn law_readiness_is_monotone(ready: Ready, more: Ready)
    ensures
        ready.0 & 20 != 0 ==> ready.allows_read(),
        ready.0 & 24 != 0 ==> ready.allows_write(),
        ready.allows_read() ==> Ready(ready.0 | more.0).allows_read(),
        ready.allows_write() ==> Ready(ready.0 | more.0).allows_write(),
{
    let a = ready.0;
    let b = more.0;
    assert(a & 20 != 0 ==> a & 21 != 0) by (bit_vector);
    assert(a & 24 != 0 ==> a & 26 != 0) by (bit_vector);
    assert(a & 21 != 0 ==> (a | b) & 21 != 0) by (bit_vector);
    assert(a & 26 != 0 ==> (a | b) & 26 != 0) by (bit_vector);
}

/// A union holds both of its parts, and an intersection is held by both.
pub proof fn law_ready_sets(a: Ready, b: Ready)
    ensures
        (a.0 | b.0) & a.0 == a.0,
        (a.0 | b.0) & b.0 == b.0,
        a.0 & (a.0 & b.0) == a.0 & b.0,
        b.0 & (a.0 & b.0) == a.0 & b.0,
{
    let x = a.0;
    let y = b.0;
    assert((x | y) & x == x && (x | y) & y == y && x & (x & y) == x & y && y & (x & y) == x & y)
        by (bit_vector);
}

// ---------------------------------------------------------------------------
// Buffers
// ---------------------------------------------------------------------------

/// A buffer passed to a read. It tracks bytes that have been filled separately
/// from bytes whose memory has been initialized.
pub struct ReadBuf<'a> {
    pub buf: &'a mut [u8],
    pub filled: usize,
    pub initialized: usize,
}

impl<'a> ReadBuf<'a> {
    /// The bytes of the whole buffer.
    pub open spec fn bytes(&self) -> Seq<u8> {
        self.buf@
    }

    /// The bytes that have been read into the buffer.
    pub open spec fn data(&self) -> Seq<u8> {
        self.buf@.take(self.filled as int)
    }

    /// How many bytes have been initialized.
    pub open spec fn ready_len(&self) -> nat {
        self.initialized as nat
    }

    /// How many bytes the buffer can hold.
    pub open spec fn capacity(&self) -> nat {
        self.bytes().len()
    }

    /// What is filled is initialized, and what is initialized is in the buffer.
    pub open spec fn wf(&self) -> bool {
        self.filled <= self.initialized <= self.buf@.len()
    }

    /// An empty buffer over initialized memory.
    pub fn new(buf: &'a mut [u8]) -> (read_buf: ReadBuf<'a>)
        ensures
            read_buf.wf(),
            read_buf.bytes() == old(buf)@,
            final(read_buf.buf)@ == final(buf)@,
            read_buf.data() == Seq::<u8>::empty(),
            read_buf.ready_len() == old(buf)@.len(),
    {
        let len: usize = buf.len();
        let read_buf = ReadBuf { buf, filled: 0, initialized: len };
        assert(read_buf.data() =~= Seq::empty());
        read_buf
    }

    /// An empty buffer over memory that is not initialized yet.
    pub fn uninit(buf: &'a mut [u8]) -> (read_buf: ReadBuf<'a>)
        ensures
            read_buf.wf(),
            read_buf.bytes() == old(buf)@,
            final(read_buf.buf)@ == final(buf)@,
            read_buf.data() == Seq::<u8>::empty(),
            read_buf.ready_len() == 0,
    {
        let read_buf = ReadBuf { buf, filled: 0, initialized: 0 };
        assert(read_buf.data() =~= Seq::empty());
        read_buf
    }

    /// The bytes that have been read into the buffer.
    pub fn filled(&self) -> (bytes: &[u8])
        requires
            self.wf(),
        ensures
            bytes@ == self.data(),
    {
        vstd::slice::slice_subrange(&*self.buf, 0, self.filled)
    }

    /// The bytes that have been read into the buffer, to change them.
    pub fn filled_mut(&mut self) -> (front: &mut [u8])
        requires
            old(self).wf(),
        ensures
            front@ == old(self).data(),
            final(front)@.len() == front@.len() ==> final(self).wf(),
            final(front)@.len() == front@.len() ==> final(self).data() == final(front)@,
            final(self).ready_len() == old(self).ready_len(),
            final(self).bytes() == final(front)@ + old(self).bytes().skip(
                old(self).data().len() as int,
            ),
            final(final(self).buf)@ == final(old(self).buf)@,
    {
        let n: usize = self.filled;
        let ghost before = self.buf@;
        let (front, rest) = self.buf.split_at_mut(n);
        proof {
            assert(before.skip(n as int) =~= rest@);
            assert(front@ =~= before.take(n as int));
            assert((final(front)@ + rest@).take(final(front)@.len() as int) =~= final(front)@);
        }
        front
    }

    /// The initialized bytes.
    pub fn initialized(&self) -> (bytes: &[u8])
        requires
            self.wf(),
        ensures
            bytes@ == self.bytes().take(self.ready_len() as int),
    {
        vstd::slice::slice_subrange(&*self.buf, 0, self.initialized)
    }

    /// How many more bytes fit.
    pub fn remaining(&self) -> (count: usize)
        requires
            self.wf(),
        ensures
            count == self.capacity() - self.data().len(),
    {
        self.buf.len() - self.filled
    }

    /// How many bytes have been read into the buffer.
    pub fn filled_len(&self) -> (count: usize)
        requires
            self.wf(),
        ensures
            count == self.data().len(),
    {
        self.filled
    }

    /// How many bytes have been initialized.
    pub fn initialized_len(&self) -> (count: usize)
        ensures
            count == self.ready_len(),
    {
        self.initialized
    }

    /// The part of the buffer behind the filled bytes.
    pub fn unfilled_mut(&mut self) -> (rest: &mut [u8])
        requires
            old(self).wf(),
        ensures
            rest@ == old(self).bytes().skip(old(self).data().len() as int),
            final(rest)@.len() == rest@.len() ==> final(self).wf(),
            final(self).data() == old(self).data(),
            final(self).ready_len() == old(self).ready_len(),
            final(self).bytes() == old(self).data() + final(rest)@,
            final(final(self).buf)@ == final(old(self).buf)@,
    {
        let n: usize = self.filled;
        let ghost before = self.buf@;
        let (front, rest) = self.buf.split_at_mut(n);
        proof {
            assert(before.skip(n as int) =~= rest@);
            assert(front@ =~= before.take(n as int));
        }
        rest
    }

    /// Notes that the first `n` bytes behind the filled ones have been written.
    pub fn advance(&mut self, n: usize)
        requires
            old(self).wf(),
            n <= old(self).capacity() - old(self).data().len(),
        ensures
            final(self).wf(),
            final(self).bytes() == old(self).bytes(),
            final(final(self).buf)@ == final(old(self).buf)@,
            final(self).data() == old(self).bytes().take(old(self).data().len() + n),
            final(self).ready_len() == (if old(self).ready_len() < old(self).data().len() + n {
                old(self).data().len() + n
            } else {
                old(self).ready_len() as int
            }),
    {
        let capacity: usize = self.buf.len();
        assert(self.filled + n <= capacity);
        self.filled = self.filled + n;
        if self.initialized < self.filled {
            self.initialized = self.filled;
        }
    }

    /// Forgets the filled bytes.
    pub fn clear(&mut self)
        requires
            old(self).wf(),
        ensures
            final(self).wf(),
            final(self).bytes() == old(self).bytes(),
            final(final(self).buf)@ == final(old(self).buf)@,
            final(self).data() == Seq::<u8>::empty(),
            final(self).ready_len() == old(self).ready_len(),
    {
        self.filled = 0;
        assert(self.data() =~= Seq::empty());
    }

    /// Adds as many bytes of `source` as fit. Returns how many that are.
    pub fn put(&mut self, source: &[u8]) -> (count: usize)
        requires
            old(self).wf(),
        ensures
            final(self).wf(),
            final(self).capacity() == old(self).capacity(),
            final(final(self).buf)@ == final(old(self).buf)@,
            count == (if source@.len() < old(self).capacity() - old(self).data().len() {
                source@.len() as int
            } else {
                old(self).capacity() - old(self).data().len()
            }),
            final(self).data() == old(self).data() + source@.take(count as int),
            final(self).bytes() == final(self).data() + old(self).bytes().skip(
                old(self).data().len() + count,
            ),
            final(self).ready_len() == (if old(self).ready_len() < old(self).data().len() + count {
                old(self).data().len() + count
            } else {
                old(self).ready_len() as int
            }),
    {
        let room: usize = self.buf.len() - self.filled;
        let len: usize = source.len();
        let count: usize = if len < room {
            len
        } else {
            room
        };
        let start: usize = self.filled;
        let ghost before = self.buf@;
        let mut i: usize = 0;
        assert(source@.take(0) =~= Seq::empty());
        while i < count
            invariant
                i <= count,
                count <= source@.len(),
                start + count <= before.len() <= usize::MAX,
                self.buf@.len() == before.len(),
                self.filled == start,
                self.initialized == old(self).initialized,
                final(self.buf)@ == final(old(self).buf)@,
                self.buf@.take(start + i) == before.take(start as int) + source@.take(i as int),
                self.buf@.skip(start + i) == before.skip(start + i),
            decreases count - i,
        {
            let ghost prior = self.buf@;
            self.buf[start + i] = source[i];
            proof {
                assert(self.buf@.take(start + i + 1) =~= prior.take(start + i).push(
                    source@[i as int],
                ));
                assert(source@.take(i + 1) =~= source@.take(i as int).push(source@[i as int]));
                assert(self.buf@.skip(start + i + 1) =~= prior.skip(start + i).skip(1));
                assert(before.skip(start + i + 1) =~= before.skip(start + i).skip(1));
                assert(before.take(start as int) + source@.take(i + 1) =~= (before.take(
                    start as int,
                ) + source@.take(i as int)).push(source@[i as int]));
            }
            i = i + 1;
        }
        self.advance(count);
        assert(self.bytes() =~= self.bytes().take(start + count) + self.bytes().skip(
            start + count,
        ));
        count
    }
}

// ---------------------------------------------------------------------------
// Traits
// ---------------------------------------------------------------------------

/// The bytes that pass through an object.
///
/// `moves` says which bytes were read out of the object and which were written into
/// it on its way from one state to another.
pub trait ByteFlow: Sized {
    /// Whether the object is in order.
    spec fn ok(&self) -> bool;

    /// Whether the object can go from `before` to `after` with `read` coming out of
    /// it and `written` going into it.
    spec fn moves(before: Self, after: Self, read: Seq<u8>, written: Seq<u8>) -> bool;

    /// Where nothing happens, no bytes move.
    proof fn moves_nothing(s: Self)
        ensures
            Self::moves(s, s, Seq::empty(), Seq::empty()),
    ;

    /// What moves in two steps moves in the two taken together.
    proof fn moves_both(
        a: Self,
        b: Self,
        c: Self,
        read1: Seq<u8>,
        written1: Seq<u8>,
        read2: Seq<u8>,
        written2: Seq<u8>,
    )
        requires
            Self::moves(a, b, read1, written1),
            Self::moves(b, c, read2, written2),
        ensures
            Self::moves(a, c, read1 + read2, written1 + written2),
    ;
}

/// Reads bytes asynchronously.
pub trait AsyncRead: ByteFlow {
    /// Whether a read with room for `room` bytes can take the reader from `before` to
    /// `after`, give `got` and end with that outcome.
    spec fn reads(
        before: Self,
        after: Self,
        room: nat,
        got: Seq<u8>,
        poll: Poll<Result<(), IoError>>,
    ) -> bool;

    /// Attempts one read. A pending or failed poll has read nothing; a ready poll
    /// reports all bytes in `buf`, behind what was there.
    fn poll_read(&mut self, buf: &mut ReadBuf<'_>) -> (poll: Poll<Result<(), IoError>>)
        requires
            old(self).ok(),
            old(buf).wf(),
        ensures
            final(self).ok(),
            final(buf).wf(),
            final(buf).capacity() == old(buf).capacity(),
            final(final(buf).buf)@ == final(old(buf).buf)@,
            final(buf).data().len() >= old(buf).data().len(),
            final(buf).data().take(old(buf).data().len() as int) == old(buf).data(),
            !succeeded(poll) ==> final(buf).data() == old(buf).data(),
            Self::moves(
                *old(self),
                *final(self),
                final(buf).data().skip(old(buf).data().len() as int),
                Seq::empty(),
            ),
            Self::reads(
                *old(self),
                *final(self),
                (old(buf).capacity() - old(buf).data().len()) as nat,
                final(buf).data().skip(old(buf).data().len() as int),
                poll,
            ),
    ;
}

/// Whether a poll finished without an error.
pub open spec fn succeeded<T>(poll: Poll<Result<T, IoError>>) -> bool {
    poll matches Poll::Ready(Ok(_))
}

/// How many bytes a finished write took.
pub open spec fn taken(poll: Poll<Result<usize, IoError>>) -> nat {
    match poll {
        Poll::Ready(Ok(count)) => count as nat,
        _ => 0,
    }
}

/// The contents of several buffers.
pub open spec fn contents(bufs: Seq<Vec<u8>>) -> Seq<Seq<u8>> {
    bufs.map_values(|buf: Vec<u8>| buf@)
}

/// The bytes of several buffers, one behind the other.
pub open spec fn joined(bufs: Seq<Seq<u8>>) -> Seq<u8>
    decreases bufs.len(),
{
    if bufs.len() == 0 {
        Seq::empty()
    } else {
        bufs[0] + joined(bufs.drop_first())
    }
}

/// The first buffer that is not empty, or an empty one.
pub open spec fn first_filled(bufs: Seq<Seq<u8>>) -> Seq<u8>
    decreases bufs.len(),
{
    if bufs.len() == 0 {
        Seq::empty()
    } else if bufs[0].len() > 0 {
        bufs[0]
    } else {
        first_filled(bufs.drop_first())
    }
}

/// What the first buffer with bytes in it holds is what all buffers begin with, so a
/// write of it is a write of their front.
pub proof fn law_first_filled_is_a_front(bufs: Seq<Seq<u8>>)
    ensures
        first_filled(bufs).len() <= joined(bufs).len(),
        joined(bufs).take(first_filled(bufs).len() as int) == first_filled(bufs),
        first_filled(bufs).len() == 0 ==> joined(bufs).len() == 0,
    decreases bufs.len(),
{
    if bufs.len() == 0 {
        assert(joined(bufs).take(0) =~= Seq::empty());
    } else {
        law_first_filled_is_a_front(bufs.drop_first());
        if bufs[0].len() > 0 {
            assert(joined(bufs).take(bufs[0].len() as int) =~= bufs[0]);
        } else {
            assert(joined(bufs) =~= joined(bufs.drop_first()));
        }
    }
}

/// The first buffer that is not empty.
pub fn find_filled(bufs: &Vec<Vec<u8>>) -> (found: Option<usize>)
    ensures
        match found {
            Some(i) => i < bufs@.len() && bufs@[i as int]@ == first_filled(contents(bufs@))
                && bufs@[i as int]@.len() > 0,
            None => joined(contents(bufs@)).len() == 0,
        },
{
    let ghost all = contents(bufs@);
    let mut i: usize = 0;
    assert(all.skip(0) =~= all);
    while i < bufs.len()
        invariant
            i <= bufs@.len(),
            all == contents(bufs@),
            first_filled(all.skip(i as int)) == first_filled(all),
        decreases bufs.len() - i,
    {
        assert(all.skip(i as int)[0] == bufs@[i as int]@);
        assert(all.skip(i as int).drop_first() =~= all.skip(i + 1));
        if bufs[i].len() > 0 {
            return Some(i);
        }
        i = i + 1;
    }
    proof {
        assert(all.skip(i as int) =~= Seq::empty());
        law_first_filled_is_a_front(all);
    }
    None
}

/// Whether a write of several buffers hands on one of them: the first one that is not
/// empty, a write of which is `single`. Where all are empty, nothing is asked.
pub open spec fn one_buffer<W>(
    before: W,
    after: W,
    bufs: Seq<Seq<u8>>,
    poll: Poll<Result<usize, IoError>>,
    single: bool,
) -> bool {
    if joined(bufs).len() == 0 {
        &&& poll == Poll::<Result<usize, IoError>>::Ready(Ok(0))
        &&& after == before
    } else {
        single
    }
}

/// Writes bytes asynchronously.
pub trait AsyncWrite: ByteFlow {
    /// Whether a write of `data` can take the writer from `before` to `after` and end
    /// with that outcome.
    spec fn writes(
        before: Self,
        after: Self,
        data: Seq<u8>,
        poll: Poll<Result<usize, IoError>>,
    ) -> bool;

    /// Whether a flush can take the writer from `before` to `after` and end with that
    /// outcome.
    spec fn flushes(before: Self, after: Self, poll: Poll<Result<(), IoError>>) -> bool;

    /// Whether a shutdown can take the writer from `before` to `after` and end with that
    /// outcome.
    spec fn shuts_down(before: Self, after: Self, poll: Poll<Result<(), IoError>>) -> bool;

    /// Whether a write of several buffers can take the writer from `before` to `after` and
    /// end with that outcome.
    spec fn writes_vectored(
        before: Self,
        after: Self,
        bufs: Seq<Seq<u8>>,
        poll: Poll<Result<usize, IoError>>,
    ) -> bool;

    /// A write of several buffers may come down to a write of the first one that is not
    /// empty.
    proof fn one_buffer_will_do(
        before: Self,
        after: Self,
        bufs: Seq<Seq<u8>>,
        poll: Poll<Result<usize, IoError>>,
    )
        requires
            one_buffer(
                before,
                after,
                bufs,
                poll,
                Self::writes(before, after, first_filled(bufs), poll),
            ),
        ensures
            Self::writes_vectored(before, after, bufs, poll),
    ;

    /// Attempts one write. A pending or failed poll has written nothing; a ready
    /// poll says how many bytes from the front were taken.
    fn poll_write(&mut self, data: &[u8]) -> (poll: Poll<Result<usize, IoError>>)
        requires
            old(self).ok(),
        ensures
            final(self).ok(),
            taken(poll) <= data@.len(),
            Self::moves(*old(self), *final(self), Seq::empty(), data@.take(taken(poll) as int)),
            Self::writes(*old(self), *final(self), data@, poll),
    ;

    /// Attempts to pass on everything that was taken.
    fn poll_flush(&mut self) -> (poll: Poll<Result<(), IoError>>)
        requires
            old(self).ok(),
        ensures
            final(self).ok(),
            Self::moves(*old(self), *final(self), Seq::empty(), Seq::empty()),
            Self::flushes(*old(self), *final(self), poll),
    ;

    /// Attempts to close the writing side.
    fn poll_shutdown(&mut self) -> (poll: Poll<Result<(), IoError>>)
        requires
            old(self).ok(),
        ensures
            final(self).ok(),
            Self::moves(*old(self), *final(self), Seq::empty(), Seq::empty()),
            Self::shuts_down(*old(self), *final(self), poll),
    ;

    /// Attempts one write of several buffers, one behind the other. A writer that has no
    /// way of its own writes the first one that is not empty.
    fn poll_write_vectored(&mut self, bufs: &Vec<Vec<u8>>) -> (poll: Poll<Result<usize, IoError>>)
        requires
            old(self).ok(),
        ensures
            final(self).ok(),
            taken(poll) <= joined(contents(bufs@)).len(),
            Self::moves(
                *old(self),
                *final(self),
                Seq::empty(),
                joined(contents(bufs@)).take(taken(poll) as int),
            ),
            Self::writes_vectored(*old(self), *final(self), contents(bufs@), poll),
        default_ensures
            one_buffer(
                *old(self),
                *final(self),
                contents(bufs@),
                poll,
                Self::writes(*old(self), *final(self), first_filled(contents(bufs@)), poll),
            ),
    {
        let ghost all = contents(bufs@);
        let ghost before = *self;
        proof {
            law_first_filled_is_a_front(all);
        }
        match find_filled(bufs) {
            Some(i) => {
                let poll = self.poll_write(bufs[i].as_slice());
                proof {
                    let n = taken(poll) as int;
                    assert(joined(all).take(n) =~= first_filled(all).take(n));
                    Self::one_buffer_will_do(before, *self, all, poll);
                }
                poll
            },
            None => {
                let poll = Poll::Ready(Ok(0));
                proof {
                    Self::moves_nothing(*self);
                    assert(joined(all).take(0) =~= Seq::empty());
                    Self::one_buffer_will_do(before, *self, all, poll);
                }
                poll
            },
        }
    }

    /// Whether the writer has a way of its own to write several buffers.
    fn is_write_vectored(&self) -> (vectored: bool)
        default_ensures
            !vectored,
    {
        false
    }
}

// ---------------------------------------------------------------------------
// Several reads or writes
// ---------------------------------------------------------------------------

/// Where a list of steps ends: each step leads to a state.
pub open spec fn reached<T, A>(first: T, trace: Seq<(T, A)>) -> T {
    if trace.len() == 0 {
        first
    } else {
        trace.last().0
    }
}

/// How many bytes were taken in a list of writes.
pub open spec fn sent_len<W>(trace: Seq<(W, usize)>) -> nat
    decreases trace.len(),
{
    if trace.len() == 0 {
        0
    } else {
        sent_len(trace.drop_last()) + trace.last().1 as nat
    }
}

/// Whether a writer can go through a list of writes. Each of them is handed what the
/// ones before it left of `data`, and takes some of it.
pub open spec fn sent<W: AsyncWrite>(first: W, trace: Seq<(W, usize)>, data: Seq<u8>) -> bool
    decreases trace.len(),
{
    trace.len() > 0 ==> {
        let front = trace.drop_last();
        &&& sent(first, front, data)
        &&& trace.last().1 > 0
        &&& sent_len(trace) <= data.len()
        &&& W::writes(
            reached(first, front),
            trace.last().0,
            data.skip(sent_len(front) as int),
            Poll::Ready(Ok(trace.last().1)),
        )
    }
}

/// One more write.
pub(crate) proof fn lemma_sent_more<W: AsyncWrite>(
    first: W,
    trace: Seq<(W, usize)>,
    data: Seq<u8>,
    after: W,
    count: usize,
)
    requires
        sent(first, trace, data),
        count > 0,
        sent_len(trace) + count <= data.len(),
        W::writes(
            reached(first, trace),
            after,
            data.skip(sent_len(trace) as int),
            Poll::Ready(Ok(count)),
        ),
    ensures
        sent(first, trace.push((after, count)), data),
        sent_len(trace.push((after, count))) == sent_len(trace) + count,
        reached(first, trace.push((after, count))) == after,
{
    assert(trace.push((after, count)).drop_last() =~= trace);
}

/// How an operation ends that writes again and again, where this is the outcome of a
/// write that it cannot go on behind. A write that takes nothing ends it with the error
/// `stuck`.
pub open spec fn write_end(poll: Poll<Result<usize, IoError>>, stuck: IoError) -> Option<
    Poll<Result<(), IoError>>,
> {
    match poll {
        Poll::Pending => Some(Poll::<Result<(), IoError>>::Pending),
        Poll::Ready(Ok(count)) => if count == 0 {
            Some(Poll::Ready(Err(stuck)))
        } else {
            None
        },
        Poll::Ready(Err(error)) => Some(Poll::Ready(Err(error))),
    }
}

/// The bytes that came in a list of reads.
pub open spec fn received_bytes<R>(trace: Seq<(R, Seq<u8>)>) -> Seq<u8>
    decreases trace.len(),
{
    if trace.len() == 0 {
        Seq::empty()
    } else {
        received_bytes(trace.drop_last()) + trace.last().1
    }
}

/// Whether a reader can go through a list of reads. Each of them has the room that the
/// ones before it left of `room`, and gives something.
pub open spec fn received<R: AsyncRead>(first: R, trace: Seq<(R, Seq<u8>)>, room: nat) -> bool
    decreases trace.len(),
{
    trace.len() > 0 ==> {
        let front = trace.drop_last();
        &&& received(first, front, room)
        &&& trace.last().1.len() > 0
        &&& received_bytes(trace).len() <= room
        &&& R::reads(
            reached(first, front),
            trace.last().0,
            (room - received_bytes(front).len()) as nat,
            trace.last().1,
            Poll::Ready(Ok(())),
        )
    }
}

/// Whether a reader can go through a list of reads, each of which has so much room and
/// gives something.
pub open spec fn received_pieces<R: AsyncRead>(
    first: R,
    trace: Seq<(R, Seq<u8>)>,
    room: nat,
) -> bool
    decreases trace.len(),
{
    trace.len() > 0 ==> {
        let front = trace.drop_last();
        &&& received_pieces(first, front, room)
        &&& trace.last().1.len() > 0
        &&& R::reads(
            reached(first, front),
            trace.last().0,
            room,
            trace.last().1,
            Poll::Ready(Ok(())),
        )
    }
}

/// One more read of that kind.
pub(crate) proof fn lemma_received_piece<R: AsyncRead>(
    first: R,
    trace: Seq<(R, Seq<u8>)>,
    room: nat,
    after: R,
    got: Seq<u8>,
)
    requires
        received_pieces(first, trace, room),
        got.len() > 0,
        R::reads(reached(first, trace), after, room, got, Poll::Ready(Ok(()))),
    ensures
        received_pieces(first, trace.push((after, got)), room),
        received_bytes(trace.push((after, got))) == received_bytes(trace) + got,
        reached(first, trace.push((after, got))) == after,
{
    assert(trace.push((after, got)).drop_last() =~= trace);
}

/// One more read.
pub(crate) proof fn lemma_received_more<R: AsyncRead>(
    first: R,
    trace: Seq<(R, Seq<u8>)>,
    room: nat,
    after: R,
    got: Seq<u8>,
)
    requires
        received(first, trace, room),
        got.len() > 0,
        received_bytes(trace).len() + got.len() <= room,
        R::reads(
            reached(first, trace),
            after,
            (room - received_bytes(trace).len()) as nat,
            got,
            Poll::Ready(Ok(())),
        ),
    ensures
        received(first, trace.push((after, got)), room),
        received_bytes(trace.push((after, got))) == received_bytes(trace) + got,
        reached(first, trace.push((after, got))) == after,
{
    assert(trace.push((after, got)).drop_last() =~= trace);
}

/// How an operation ends that reads again and again, where this is the outcome of a read
/// that gave nothing. The end of the reader ends it with the error `stuck`.
pub open spec fn read_end(poll: Poll<Result<(), IoError>>, stuck: IoError) -> Poll<
    Result<(), IoError>,
> {
    match poll {
        Poll::Pending => Poll::Pending,
        Poll::Ready(Ok(_)) => Poll::Ready(Err(stuck)),
        Poll::Ready(Err(error)) => Poll::Ready(Err(error)),
    }
}

} // verus!
