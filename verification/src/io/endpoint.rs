//! Byte streams from code that comes without proofs, such as sockets.

use super::{AsyncRead, AsyncWrite, ByteFlow, ErrorKind, IoError, ReadBuf};
use crate::io;
use crate::poll::Poll;
use vstd::prelude::*;

verus! {

/// Moves bytes in a way that nothing is known of.
pub trait Transport: Sized {
    /// Attempts to read at most `room` bytes.
    fn receive(&mut self, room: usize) -> Poll<Result<Vec<u8>, IoError>>;

    /// Attempts to write some bytes from the front, and says how many were taken.
    fn send(&mut self, data: &[u8]) -> Poll<Result<usize, IoError>>;

    /// Attempts to pass on everything that was taken.
    fn flush(&mut self) -> Poll<Result<(), IoError>>;

    /// Attempts to close the writing side.
    fn shutdown(&mut self) -> Poll<Result<(), IoError>>;

    /// Attempts to write some bytes from the front of several buffers, one behind the
    /// other, and says how many were taken. This is asked only where
    /// [`Transport::is_vectored`] says so.
    fn send_vectored(&mut self, bufs: &Vec<Vec<u8>>) -> Poll<Result<usize, IoError>> {
        match io::find_filled(bufs) {
            Some(i) => self.send(bufs[i].as_slice()),
            None => Poll::Ready(Ok(0)),
        }
    }

    /// Whether several buffers can be written at once.
    fn is_vectored(&self) -> bool {
        false
    }
}

/// How many bytes several buffers hold, as far as that can be said.
fn total_len(bufs: &Vec<Vec<u8>>) -> (total: usize)
    ensures
        total == vstd::math::min(
            io::joined(io::contents(bufs@)).len() as int,
            usize::MAX as int,
        ),
{
    let ghost all = io::contents(bufs@);
    let mut total: usize = 0;
    let mut i: usize = bufs.len();
    assert(all.skip(i as int) =~= Seq::empty());
    while i > 0
        invariant
            i <= bufs@.len(),
            all == io::contents(bufs@),
            total == vstd::math::min(
                io::joined(all.skip(i as int)).len() as int,
                usize::MAX as int,
            ),
        decreases i,
    {
        i = i - 1;
        assert(all.skip(i as int)[0] == bufs@[i as int]@);
        assert(all.skip(i as int).drop_first() =~= all.skip(i + 1));
        total = total.saturating_add(bufs[i].len());
    }
    assert(all.skip(0) =~= all);
    total
}

/// Whether that is what becomes of a read with so much room, for what the transport
/// answered: its bytes are passed on, unless there are more than there is room for.
pub open spec fn read_fits(
    answer: Poll<Result<Vec<u8>, IoError>>,
    room: nat,
    got: Seq<u8>,
    poll: Poll<Result<(), IoError>>,
) -> bool {
    match answer {
        Poll::Pending => poll is Pending && got.len() == 0,
        Poll::Ready(Ok(bytes)) => if bytes@.len() <= room {
            got == bytes@ && poll == Poll::Ready(Ok::<(), IoError>(()))
        } else {
            &&& got.len() == 0
            &&& poll matches Poll::Ready(Err(error)) && error.kind == ErrorKind::InvalidData
        },
        Poll::Ready(Err(error)) => got.len() == 0 && poll == Poll::<Result<(), IoError>>::Ready(
            Err(error),
        ),
    }
}

/// Whether that is what becomes of a write of `len` bytes, for what the transport
/// answered: its count, unless that is more than it was handed.
pub open spec fn write_fits(
    answer: Poll<Result<usize, IoError>>,
    len: nat,
    poll: Poll<Result<usize, IoError>>,
) -> bool {
    match answer {
        Poll::Pending => poll is Pending,
        Poll::Ready(Ok(count)) => if count <= len {
            poll == answer
        } else {
            poll matches Poll::Ready(Err(error)) && error.kind == ErrorKind::InvalidData
        },
        Poll::Ready(Err(error)) => poll == answer,
    }
}

/// What a read gives for what a transport gave: no more than there is room for.
pub fn accepted(poll: Poll<Result<Vec<u8>, IoError>>, room: usize) -> (result: Poll<
    Result<Vec<u8>, IoError>,
>)
    ensures
        match poll {
            Poll::Pending => result is Pending,
            Poll::Ready(Ok(bytes)) => if bytes@.len() <= room {
                result == poll
            } else {
                result matches Poll::Ready(Err(error)) && error.kind == ErrorKind::InvalidData
            },
            Poll::Ready(Err(error)) => result == poll,
        },
{
    match poll {
        Poll::Pending => Poll::Pending,
        Poll::Ready(Ok(bytes)) => {
            if bytes.len() <= room {
                Poll::Ready(Ok(bytes))
            } else {
                Poll::Ready(
                    Err(
                        IoError {
                            kind: ErrorKind::InvalidData,
                            message: "eddy: a read gave more bytes than there was room for",
                        },
                    ),
                )
            }
        },
        Poll::Ready(Err(error)) => Poll::Ready(Err(error)),
    }
}

/// What a write gives for what a transport said: no more than it was handed.
pub fn counted(poll: Poll<Result<usize, IoError>>, len: usize) -> (result: Poll<
    Result<usize, IoError>,
>)
    ensures
        io::taken(result) <= len,
        write_fits(poll, len as nat, result),
{
    match poll {
        Poll::Pending => Poll::Pending,
        Poll::Ready(Ok(count)) => {
            if count <= len {
                Poll::Ready(Ok(count))
            } else {
                Poll::Ready(
                    Err(
                        IoError {
                            kind: ErrorKind::InvalidData,
                            message: "eddy: a write took more bytes than it was handed",
                        },
                    ),
                )
            }
        },
        Poll::Ready(Err(error)) => Poll::Ready(Err(error)),
    }
}

/// One thing that was asked of a transport, and what came of it.
pub enum Exchange {
    Read { room: nat, got: Seq<u8>, poll: Poll<Result<(), IoError>> },
    Write { data: Seq<u8>, poll: Poll<Result<usize, IoError>> },
    WriteVectored { bufs: Seq<Seq<u8>>, poll: Poll<Result<usize, IoError>> },
    Flush { poll: Poll<Result<(), IoError>> },
    Shutdown { poll: Poll<Result<(), IoError>> },
}

/// A transport, the bytes that have gone through it, and what was asked of it.
pub struct Endpoint<T> {
    transport: T,
    read: Ghost<Seq<u8>>,
    written: Ghost<Seq<u8>>,
    asked: Ghost<Seq<Exchange>>,
}

impl<T: Transport> Endpoint<T> {
    /// The transport.
    pub closed spec fn transport(&self) -> T {
        self.transport
    }

    /// Everything that was read so far.
    pub closed spec fn read_so_far(&self) -> Seq<u8> {
        self.read@
    }

    /// Everything that was written so far.
    pub closed spec fn written_so_far(&self) -> Seq<u8> {
        self.written@
    }

    /// Everything that was asked so far.
    pub closed spec fn asked(&self) -> Seq<Exchange> {
        self.asked@
    }

    /// A transport through which nothing has gone.
    pub fn new(transport: T) -> (endpoint: Endpoint<T>)
        ensures
            endpoint.transport() == transport,
            endpoint.read_so_far() == Seq::<u8>::empty(),
            endpoint.written_so_far() == Seq::<u8>::empty(),
            endpoint.asked() == Seq::<Exchange>::empty(),
    {
        Endpoint {
            transport,
            read: Ghost(Seq::empty()),
            written: Ghost(Seq::empty()),
            asked: Ghost(Seq::empty()),
        }
    }

    /// The transport.
    pub fn get_ref(&self) -> (transport: &T)
        ensures
            *transport == self.transport(),
    {
        &self.transport
    }

    /// The transport, to be changed.
    pub fn get_mut(&mut self) -> (transport: &mut T)
        ensures
            *transport == old(self).transport(),
            final(self).transport() == *final(transport),
            final(self).read_so_far() == old(self).read_so_far(),
            final(self).written_so_far() == old(self).written_so_far(),
            final(self).asked() == old(self).asked(),
    {
        &mut self.transport
    }

    /// The transport, taken back.
    pub fn into_inner(self) -> (transport: T)
        ensures
            transport == self.transport(),
    {
        self.transport
    }
}

impl<T: Transport> ByteFlow for Endpoint<T> {
    open spec fn ok(&self) -> bool {
        true
    }

    open spec fn moves(before: Self, after: Self, read: Seq<u8>, written: Seq<u8>) -> bool {
        &&& after.read_so_far() == before.read_so_far() + read
        &&& after.written_so_far() == before.written_so_far() + written
    }

    proof fn moves_nothing(s: Self) {
        assert(s.read_so_far() + Seq::<u8>::empty() =~= s.read_so_far());
        assert(s.written_so_far() + Seq::<u8>::empty() =~= s.written_so_far());
    }

    proof fn moves_both(
        a: Self,
        b: Self,
        c: Self,
        read1: Seq<u8>,
        written1: Seq<u8>,
        read2: Seq<u8>,
        written2: Seq<u8>,
    ) {
        assert((a.read_so_far() + read1) + read2 =~= a.read_so_far() + (read1 + read2));
        assert((a.written_so_far() + written1) + written2 =~= a.written_so_far() + (written1
            + written2));
    }
}

impl<T: Transport> AsyncRead for Endpoint<T> {
    /// The transport is asked once.
    open spec fn reads(
        before: Self,
        after: Self,
        room: nat,
        got: Seq<u8>,
        poll: Poll<Result<(), IoError>>,
    ) -> bool {
        after.asked() == before.asked().push(Exchange::Read { room, got, poll })
    }

    fn poll_read(&mut self, buf: &mut ReadBuf<'_>) -> (poll: Poll<Result<(), IoError>>)
        ensures
            exists|t: &mut T, room: usize, answer: Poll<Result<Vec<u8>, IoError>>|
                {
                    &&& *t == old(self).transport()
                    &&& *final(t) == final(self).transport()
                    &&& room == old(buf).capacity() - old(buf).data().len()
                    &&& #[trigger] call_ensures(T::receive, (t, room), answer)
                    &&& read_fits(
                        answer,
                        room as nat,
                        final(buf).data().skip(old(buf).data().len() as int),
                        poll,
                    )
                },
    {
        let room: usize = buf.remaining();
        let ghost before = buf.data();
        let received = self.transport.receive(room);
        match accepted(received, room) {
            Poll::Pending => {
                let poll = Poll::Pending;
                proof {
                    Self::moves_nothing(*self);
                    assert(buf.data().skip(before.len() as int) =~= Seq::empty());
                    assert(buf.data().take(before.len() as int) =~= before);
                    let room = room as nat;
                    self.asked@ = self.asked@.push(Exchange::Read { room, got: Seq::empty(), poll });
                }
                poll
            },
            Poll::Ready(Err(error)) => {
                let poll = Poll::Ready(Err(error));
                proof {
                    Self::moves_nothing(*self);
                    assert(buf.data().skip(before.len() as int) =~= Seq::empty());
                    assert(buf.data().take(before.len() as int) =~= before);
                    let room = room as nat;
                    self.asked@ = self.asked@.push(Exchange::Read { room, got: Seq::empty(), poll });
                }
                poll
            },
            Poll::Ready(Ok(bytes)) => {
                let count: usize = buf.put(bytes.as_slice());
                let poll = Poll::Ready(Ok(()));
                proof {
                    let room = room as nat;
                    self.asked@ = self.asked@.push(Exchange::Read { room, got: bytes@, poll });
                    self.read@ = self.read@ + bytes@;
                    assert(count == bytes@.len());
                    assert(bytes@.take(count as int) =~= bytes@);
                    assert(buf.data().skip(before.len() as int) =~= bytes@);
                    assert(buf.data().take(before.len() as int) =~= before);
                    assert(self.written@ + Seq::<u8>::empty() =~= self.written@);
                }
                poll
            },
        }
    }
}

impl<T: Transport> AsyncWrite for Endpoint<T> {
    open spec fn writes(
        before: Self,
        after: Self,
        data: Seq<u8>,
        poll: Poll<Result<usize, IoError>>,
    ) -> bool {
        after.asked() == before.asked().push(Exchange::Write { data, poll })
    }

    open spec fn flushes(before: Self, after: Self, poll: Poll<Result<(), IoError>>) -> bool {
        after.asked() == before.asked().push(Exchange::Flush { poll })
    }

    open spec fn shuts_down(before: Self, after: Self, poll: Poll<Result<(), IoError>>) -> bool {
        after.asked() == before.asked().push(Exchange::Shutdown { poll })
    }

    /// The transport is asked once, for all buffers or for the first one that is not
    /// empty, as it says itself. Where there is nothing to write, it need not be asked.
    open spec fn writes_vectored(
        before: Self,
        after: Self,
        bufs: Seq<Seq<u8>>,
        poll: Poll<Result<usize, IoError>>,
    ) -> bool {
        ||| bufs.len() > 0 && after.asked() == before.asked().push(
            Exchange::WriteVectored { bufs, poll },
        )
        ||| io::one_buffer(
            before,
            after,
            bufs,
            poll,
            Self::writes(before, after, io::first_filled(bufs), poll),
        )
    }

    proof fn one_buffer_will_do(
        before: Self,
        after: Self,
        bufs: Seq<Seq<u8>>,
        poll: Poll<Result<usize, IoError>>,
    ) {
    }

    fn poll_write_vectored(
        &mut self,
        bufs: &Vec<Vec<u8>>,
    ) -> (poll: Poll<Result<usize, IoError>>)
        ensures
            bufs@.len() > 0 ==> exists|vectored: bool|
                {
                    &&& #[trigger] call_ensures(
                        T::is_vectored,
                        (&old(self).transport(),),
                        vectored,
                    )
                    &&& vectored ==> exists|t: &mut T, answer: Poll<Result<usize, IoError>>|
                        {
                            &&& *t == old(self).transport()
                            &&& *final(t) == final(self).transport()
                            &&& #[trigger] call_ensures(T::send_vectored, (t, bufs), answer)
                            &&& write_fits(answer, io::joined(io::contents(bufs@)).len(), poll)
                        }
                    &&& !vectored && io::joined(io::contents(bufs@)).len() > 0 ==> exists|
                        t: &mut T,
                        data: &[u8],
                        answer: Poll<Result<usize, IoError>>,
                    |
                        {
                            &&& *t == old(self).transport()
                            &&& *final(t) == final(self).transport()
                            &&& data@ == io::first_filled(io::contents(bufs@))
                            &&& #[trigger] call_ensures(T::send, (t, data), answer)
                            &&& write_fits(answer, data@.len(), poll)
                        }
                    &&& !vectored && io::joined(io::contents(bufs@)).len() == 0 ==> {
                        &&& *final(self) == *old(self)
                        &&& poll == Poll::<Result<usize, IoError>>::Ready(Ok(0))
                    }
                },
            bufs@.len() == 0 ==> {
                &&& *final(self) == *old(self)
                &&& poll == Poll::<Result<usize, IoError>>::Ready(Ok(0))
            },
    {
        let ghost before = *self;
        let ghost all = io::contents(bufs@);
        if bufs.len() == 0 {
            proof {
                Self::moves_nothing(*self);
                assert(io::joined(all).take(0) =~= Seq::empty());
            }
            return Poll::Ready(Ok(0));
        }
        let vectored = self.transport.is_vectored();
        assert(call_ensures(T::is_vectored, (&before.transport(),), vectored));
        if vectored {
            let sent = self.transport.send_vectored(bufs);
            let len: usize = total_len(bufs);
            let poll = counted(sent, len);
            proof {
                let taken = io::joined(all).take(io::taken(poll) as int);
                self.written@ = self.written@ + taken;
                self.asked@ = self.asked@.push(Exchange::WriteVectored { bufs: all, poll });
                assert(self.read@ + Seq::<u8>::empty() =~= self.read@);
            }
            return poll;
        }
        proof {
            io::law_first_filled_is_a_front(all);
        }
        match io::find_filled(bufs) {
            Some(i) => {
                let poll = self.poll_write(bufs[i].as_slice());
                proof {
                    let n = io::taken(poll) as int;
                    assert(io::joined(all).take(n) =~= io::first_filled(all).take(n));
                }
                poll
            },
            None => {
                proof {
                    Self::moves_nothing(*self);
                    assert(io::joined(all).take(0) =~= Seq::empty());
                }
                Poll::Ready(Ok(0))
            },
        }
    }

    /// As the transport says.
    fn is_write_vectored(&self) -> (vectored: bool)
        ensures
            call_ensures(T::is_vectored, (&self.transport(),), vectored),
    {
        self.transport.is_vectored()
    }

    fn poll_write(&mut self, data: &[u8]) -> (poll: Poll<Result<usize, IoError>>)
        ensures
            exists|t: &mut T, answer: Poll<Result<usize, IoError>>|
                {
                    &&& *t == old(self).transport()
                    &&& *final(t) == final(self).transport()
                    &&& #[trigger] call_ensures(T::send, (t, data), answer)
                    &&& write_fits(answer, data@.len(), poll)
                },
    {
        let sent = self.transport.send(data);
        let len: usize = data.len();
        let poll = counted(sent, len);
        proof {
            let taken = data@.take(io::taken(poll) as int);
            self.written@ = self.written@ + taken;
            self.asked@ = self.asked@.push(Exchange::Write { data: data@, poll });
            assert(self.read@ + Seq::<u8>::empty() =~= self.read@);
        }
        poll
    }

    fn poll_flush(&mut self) -> (poll: Poll<Result<(), IoError>>)
        ensures
            exists|t: &mut T|
                {
                    &&& *t == old(self).transport()
                    &&& *final(t) == final(self).transport()
                    &&& #[trigger] call_ensures(T::flush, (t,), poll)
                },
    {
        proof {
            Self::moves_nothing(*self);
        }
        let poll = self.transport.flush();
        proof {
            self.asked@ = self.asked@.push(Exchange::Flush { poll });
        }
        poll
    }

    fn poll_shutdown(&mut self) -> (poll: Poll<Result<(), IoError>>)
        ensures
            exists|t: &mut T|
                {
                    &&& *t == old(self).transport()
                    &&& *final(t) == final(self).transport()
                    &&& #[trigger] call_ensures(T::shutdown, (t,), poll)
                },
    {
        proof {
            Self::moves_nothing(*self);
        }
        let poll = self.transport.shutdown();
        proof {
            self.asked@ = self.asked@.push(Exchange::Shutdown { poll });
        }
        poll
    }
}

} // verus!
