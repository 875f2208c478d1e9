//! Small readers and writers, and copying.

use crate::io;
use crate::io::buf::ReadWindow;
use crate::io::ext::Attempt;
use crate::io::AsyncRead;
use crate::io::AsyncWrite;
use crate::io::ByteFlow;
use crate::io::ErrorKind;
use crate::io::IoError;
use crate::io::ReadBuf;
use crate::poll::Poll;
use vstd::prelude::*;

verus! {

/// How many bytes are copied at a time.
pub const COPY_BUFFER: usize = 8192;

// ---------------------------------------------------------------------------
// Readers and writers
// ---------------------------------------------------------------------------

/// A reader that has always ended.
pub struct Empty;

/// A reader that has always ended.
pub fn empty() -> (reader: Empty)
    ensures
        reader == Empty,
{
    Empty
}

impl ByteFlow for Empty {
    open spec fn ok(&self) -> bool {
        true
    }

    open spec fn moves(before: Self, after: Self, read: Seq<u8>, written: Seq<u8>) -> bool {
        read.len() == 0 && written.len() == 0
    }

    proof fn moves_nothing(s: Self) {
    }

    proof fn moves_both(
        a: Self,
        b: Self,
        c: Self,
        read1: Seq<u8>,
        written1: Seq<u8>,
        read2: Seq<u8>,
        written2: Seq<u8>,
    ) {
    }
}

impl AsyncRead for Empty {
    open spec fn reads(
        before: Self,
        after: Self,
        room: nat,
        got: Seq<u8>,
        poll: Poll<Result<(), IoError>>,
    ) -> bool {
        got.len() == 0 && io::succeeded(poll)
    }

    fn poll_read(&mut self, buf: &mut ReadBuf<'_>) -> (poll: Poll<Result<(), IoError>>) {
        assert(buf.data().skip(buf.data().len() as int) =~= Seq::empty());
        Poll::Ready(Ok(()))
    }
}

/// A writer that takes everything.
pub struct Sink;

/// A writer that takes everything.
pub fn sink() -> (writer: Sink)
    ensures
        writer == Sink,
{
    Sink
}

impl ByteFlow for Sink {
    open spec fn ok(&self) -> bool {
        true
    }

    open spec fn moves(before: Self, after: Self, read: Seq<u8>, written: Seq<u8>) -> bool {
        read.len() == 0
    }

    proof fn moves_nothing(s: Self) {
    }

    proof fn moves_both(
        a: Self,
        b: Self,
        c: Self,
        read1: Seq<u8>,
        written1: Seq<u8>,
        read2: Seq<u8>,
        written2: Seq<u8>,
    ) {
    }
}

impl AsyncWrite for Sink {
    open spec fn writes(
        before: Self,
        after: Self,
        data: Seq<u8>,
        poll: Poll<Result<usize, IoError>>,
    ) -> bool {
        poll matches Poll::Ready(Ok(count)) && count == data.len()
    }

    open spec fn flushes(before: Self, after: Self, poll: Poll<Result<(), IoError>>) -> bool {
        io::succeeded(poll)
    }

    open spec fn shuts_down(before: Self, after: Self, poll: Poll<Result<(), IoError>>) -> bool {
        io::succeeded(poll)
    }

    /// Several buffers are written one at a time.
    open spec fn writes_vectored(
        before: Self,
        after: Self,
        bufs: Seq<Seq<u8>>,
        poll: Poll<Result<usize, IoError>>,
    ) -> bool {
        io::one_buffer(
            before,
            after,
            bufs,
            poll,
            Self::writes(before, after, io::first_filled(bufs), poll),
        )
    }

    proof fn one_buffer_will_do(
        before: Self,
        after: Self,
        bufs: Seq<Seq<u8>>,
        poll: Poll<Result<usize, IoError>>,
    ) {
    }

    fn poll_write(&mut self, data: &[u8]) -> (poll: Poll<Result<usize, IoError>>) {
        Poll::Ready(Ok(data.len()))
    }

    fn poll_flush(&mut self) -> (poll: Poll<Result<(), IoError>>) {
        Poll::Ready(Ok(()))
    }

    fn poll_shutdown(&mut self) -> (poll: Poll<Result<(), IoError>>) {
        Poll::Ready(Ok(()))
    }
}

/// A reader that gives one byte without end.
pub struct Repeat {
    byte: u8,
}

/// A reader that gives `byte` without end.
pub fn repeat(byte: u8) -> (reader: Repeat)
    ensures
        reader.value() == byte,
{
    Repeat { byte }
}

impl Repeat {
    /// The byte.
    pub closed spec fn value(&self) -> u8 {
        self.byte
    }
}

impl ByteFlow for Repeat {
    open spec fn ok(&self) -> bool {
        true
    }

    open spec fn moves(before: Self, after: Self, read: Seq<u8>, written: Seq<u8>) -> bool {
        &&& before == after
        &&& forall|i: int| 0 <= i < read.len() ==> read[i] == before.value()
        &&& written.len() == 0
    }

    proof fn moves_nothing(s: Self) {
    }

    proof fn moves_both(
        a: Self,
        b: Self,
        c: Self,
        read1: Seq<u8>,
        written1: Seq<u8>,
        read2: Seq<u8>,
        written2: Seq<u8>,
    ) {
    }
}

impl AsyncRead for Repeat {
    /// The whole rest of the buffer is filled.
    open spec fn reads(
        before: Self,
        after: Self,
        room: nat,
        got: Seq<u8>,
        poll: Poll<Result<(), IoError>>,
    ) -> bool {
        &&& after == before
        &&& got == Seq::new(room, |i: int| before.value())
        &&& io::succeeded(poll)
    }

    fn poll_read(&mut self, buf: &mut ReadBuf<'_>) -> (poll: Poll<Result<(), IoError>>) {
        let ghost data = buf.data();
        let amount: usize = buf.remaining();
        let bytes: Vec<u8> = vec![self.byte; amount];
        let count: usize = buf.put(bytes.as_slice());
        proof {
            assert(buf.data().skip(data.len() as int) =~= bytes@.take(count as int));
            assert(buf.data().take(data.len() as int) =~= data);
            assert(bytes@.take(count as int) =~= Seq::new(amount as nat, |i: int| self.value()));
        }
        Poll::Ready(Ok(()))
    }
}

// ---------------------------------------------------------------------------
// Copying
// ---------------------------------------------------------------------------

/// Copying in one direction.
pub struct DirectionState {
    window: ReadWindow,
    eof: bool,
    copied: u64,
}

impl DirectionState {
    /// The bytes that were read and not written yet.
    pub closed spec fn in_flight(&self) -> Seq<u8> {
        self.window@
    }

    /// Whether the source has ended.
    pub closed spec fn ended(&self) -> bool {
        self.eof
    }

    /// How many bytes have been written.
    pub closed spec fn total(&self) -> nat {
        self.copied as nat
    }

    /// The buffer is in order, and behind the end of the source nothing is read.
    pub closed spec fn wf(&self) -> bool {
        self.window.wf() && self.window.storage().len() == COPY_BUFFER
    }

    /// Nothing copied yet.
    pub fn new() -> (state: DirectionState)
        ensures
            state.wf(),
            state.in_flight() == Seq::<u8>::empty(),
            !state.ended(),
            state.total() == 0,
    {
        DirectionState { window: ReadWindow::new(COPY_BUFFER), eof: false, copied: 0 }
    }

    /// How many bytes have been written.
    pub fn copied(&self) -> (count: u64)
        ensures
            count == self.total(),
    {
        self.copied
    }

    /// What follows a write of bytes in flight, from its outcome.
    pub open spec fn wrote_attempt(
        poll: Poll<Result<usize, IoError>>,
        stuck: &'static str,
    ) -> Attempt<()> {
        match poll {
            Poll::Pending => Attempt::<()>::Pending,
            Poll::Ready(Ok(count)) => if count == 0 {
                Attempt::Failed(IoError { kind: ErrorKind::WriteZero, message: stuck })
            } else {
                Attempt::Progress
            },
            Poll::Ready(Err(error)) => Attempt::Failed(error),
        }
    }

    /// What follows a read that gave so many bytes, from its outcome.
    pub open spec fn fetched_attempt(poll: Poll<Result<(), IoError>>, got: nat) -> Attempt<()> {
        match poll {
            Poll::Pending => Attempt::<()>::Pending,
            Poll::Ready(Ok(_)) => if got == 0 {
                Attempt::Done(())
            } else {
                Attempt::Progress
            },
            Poll::Ready(Err(error)) => Attempt::Failed(error),
        }
    }

    /// What follows a write of the bytes in flight. A writer that takes nothing makes
    /// no progress, which is an error with the text `stuck`.
    pub fn wrote(&mut self, poll: Poll<Result<usize, IoError>>, stuck: &'static str) -> (attempt:
        Attempt<()>)
        requires
            old(self).wf(),
            old(self).in_flight().len() > 0,
            io::taken(poll) <= old(self).in_flight().len(),
            old(self).total() + io::taken(poll) <= u64::MAX,
        ensures
            final(self).wf(),
            final(self).ended() == old(self).ended(),
            final(self).in_flight() == old(self).in_flight().skip(io::taken(poll) as int),
            final(self).total() == old(self).total() + io::taken(poll),
            attempt == Self::wrote_attempt(poll, stuck),
    {
        let ghost before = self.window@;
        assert(before.skip(0) =~= before);
        match poll {
            Poll::Pending => Attempt::Pending,
            Poll::Ready(Ok(count)) => {
                if count == 0 {
                    return Attempt::Failed(
                        IoError { kind: ErrorKind::WriteZero, message: stuck },
                    );
                }
                self.window.consume(count);
                self.copied = self.copied + count as u64;
                Attempt::Progress
            },
            Poll::Ready(Err(error)) => Attempt::Failed(error),
        }
    }

    /// What follows a read. A read of no bytes is the end.
    pub fn fetched(&mut self, poll: Poll<Result<(), IoError>>) -> (attempt: Attempt<()>)
        requires
            old(self).wf(),
            !old(self).ended(),
        ensures
            final(self).wf(),
            final(self).in_flight() == old(self).in_flight(),
            final(self).total() == old(self).total(),
            final(self).ended() == (io::succeeded(poll) && old(self).in_flight().len() == 0),
            attempt == Self::fetched_attempt(poll, old(self).in_flight().len()),
    {
        match poll {
            Poll::Pending => Attempt::Pending,
            Poll::Ready(Ok(_)) => {
                if self.window.bytes().len() == 0 {
                    self.eof = true;
                    Attempt::Done(())
                } else {
                    Attempt::Progress
                }
            },
            Poll::Ready(Err(error)) => Attempt::Failed(error),
        }
    }
}

/// Whether bytes went from a source to a destination: what was fetched comes out in
/// the same order, behind what was in flight, and what has not come out is in flight.
pub open spec fn carried<S: ByteFlow, D: ByteFlow>(
    src: S,
    src_after: S,
    dst: D,
    dst_after: D,
    before: DirectionState,
    after: DirectionState,
    fetched: Seq<u8>,
    written: Seq<u8>,
) -> bool {
    &&& S::moves(src, src_after, fetched, Seq::empty())
    &&& D::moves(dst, dst_after, Seq::empty(), written)
    &&& before.in_flight() + fetched == written + after.in_flight()
    &&& after.total() == before.total() + written.len()
}

/// Whether that is one step of copying: what is in flight is written, or else more is
/// read. It is done once the source has ended and nothing is in flight.
pub open spec fn copy_stepped<S: AsyncRead, D: AsyncWrite>(
    src: S,
    src_after: S,
    dst: D,
    dst_after: D,
    before: DirectionState,
    after: DirectionState,
    stuck: &'static str,
    attempt: Attempt<()>,
) -> bool {
    if before.in_flight().len() > 0 {
        &&& src_after == src
        &&& after.ended() == before.ended()
        &&& exists|poll: Poll<Result<usize, IoError>>|
            {
                &&& #[trigger] D::writes(dst, dst_after, before.in_flight(), poll)
                &&& after.in_flight() == before.in_flight().skip(io::taken(poll) as int)
                &&& after.total() == before.total() + io::taken(poll)
                &&& attempt == DirectionState::wrote_attempt(poll, stuck)
            }
    } else if before.ended() {
        &&& src_after == src
        &&& dst_after == dst
        &&& after == before
        &&& attempt == Attempt::Done(())
    } else {
        &&& dst_after == dst
        &&& after.total() == before.total()
        &&& exists|poll: Poll<Result<(), IoError>>|
            {
                &&& #[trigger] S::reads(
                    src,
                    src_after,
                    COPY_BUFFER as nat,
                    after.in_flight(),
                    poll,
                )
                &&& after.ended() == (io::succeeded(poll) && after.in_flight().len() == 0)
                &&& attempt == DirectionState::fetched_attempt(poll, after.in_flight().len())
            }
    }
}

/// Does one thing to copy from `src` to `dst`: writes what is in flight, or else reads
/// more. This is done once the source has ended and nothing is in flight.
fn copy_step<S: AsyncRead, D: AsyncWrite>(
    src: &mut S,
    dst: &mut D,
    state: &mut DirectionState,
    stuck: &'static str,
) -> (attempt: Attempt<()>)
    requires
        old(src).ok(),
        old(dst).ok(),
        old(state).wf(),
        old(state).total() + COPY_BUFFER <= u64::MAX,
    ensures
        final(src).ok(),
        final(dst).ok(),
        final(state).wf(),
        exists|fetched: Seq<u8>, written: Seq<u8>| #[trigger]
            carried(
                *old(src),
                *final(src),
                *old(dst),
                *final(dst),
                *old(state),
                *final(state),
                fetched,
                written,
            ),
        copy_stepped(
            *old(src),
            *final(src),
            *old(dst),
            *final(dst),
            *old(state),
            *final(state),
            stuck,
            attempt,
        ),
{
    let ghost before = *state;
    let ghost s0 = *src;
    let ghost d0 = *dst;
    proof {
        S::moves_nothing(s0);
        D::moves_nothing(d0);
    }
    if state.window.bytes().len() > 0 {
        let poll = dst.poll_write(state.window.bytes());
        proof {
            before.window.lemma_within();
        }
        let attempt = state.wrote(poll, stuck);
        proof {
            let written = before.in_flight().take(io::taken(poll) as int);
            assert(before.in_flight() + Seq::<u8>::empty() =~= written + state.in_flight());
            assert(carried(s0, *src, d0, *dst, before, *state, Seq::empty(), written));
            assert(D::writes(d0, *dst, before.in_flight(), poll));
        }
        return attempt;
    }
    assert(before.in_flight() =~= Seq::empty());
    if state.eof {
        proof {
            assert(before.in_flight() + Seq::<u8>::empty() =~= Seq::<u8>::empty()
                + state.in_flight());
            assert(carried(s0, *src, d0, *dst, before, *state, Seq::empty(), Seq::empty()));
        }
        return Attempt::Done(());
    }
    let poll = state.window.fill(src);
    let ghost filled = *state;
    let attempt = state.fetched(poll);
    proof {
        let fetched = choose|fetched: Seq<u8>| #[trigger]
            ReadWindow::fetched(s0, *src, before.window@, filled.window@, fetched);
        assert(before.in_flight() + fetched =~= Seq::<u8>::empty() + state.in_flight());
        assert(carried(s0, *src, d0, *dst, before, *state, fetched, Seq::empty()));
        assert(S::reads(s0, *src, COPY_BUFFER as nat, state.in_flight(), poll));
    }
    attempt
}

/// Whether the count of a copy leaves no room for another buffer.
pub open spec fn count_is_full(state: DirectionState) -> bool {
    state.total() + COPY_BUFFER > u64::MAX
}

/// Whether a copy goes on from one of those states to the next.
pub open spec fn copy_goes_on<S: AsyncRead, D: AsyncWrite>(
    states: Seq<(S, D, DirectionState)>,
    i: int,
    stuck: &'static str,
) -> bool {
    copy_stepped(
        states[i].0,
        states[i + 1].0,
        states[i].1,
        states[i + 1].1,
        states[i].2,
        states[i + 1].2,
        stuck,
        Attempt::Progress,
    )
}

/// Whether a copy goes through those states, each of which is a reader, a writer and how
/// far the copy has come, and ends behind the last of them: where it has to wait, is done
/// or fails. It stops earlier only where its count is full.
pub open spec fn copy_ran<S: AsyncRead, D: AsyncWrite>(
    states: Seq<(S, D, DirectionState)>,
    after: (S, D, DirectionState),
    stuck: &'static str,
    attempt: Attempt<()>,
) -> bool {
    &&& states.len() > 0
    &&& forall|i: int| 0 <= i < states.len() - 1 ==> #[trigger] copy_goes_on(states, i, stuck)
    &&& if count_is_full(states.last().2) {
        after == states.last() && attempt is Progress
    } else {
        &&& !(attempt is Progress)
        &&& copy_stepped(
            states.last().0,
            after.0,
            states.last().1,
            after.1,
            states.last().2,
            after.2,
            stuck,
            attempt,
        )
    }
}

/// Whether a copy that begins like this can end like that.
pub open spec fn copied_through<S: AsyncRead, D: AsyncWrite>(
    before: (S, D, DirectionState),
    after: (S, D, DirectionState),
    stuck: &'static str,
    attempt: Attempt<()>,
) -> bool {
    exists|states: Seq<(S, D, DirectionState)>|
        states[0] == before && #[trigger] copy_ran(states, after, stuck, attempt)
}

/// Copies from `src` to `dst` until it has to wait, is done or fails.
fn copy_run<S: AsyncRead, D: AsyncWrite>(
    src: &mut S,
    dst: &mut D,
    state: &mut DirectionState,
    stuck: &'static str,
) -> (attempt: Attempt<()>)
    requires
        old(src).ok(),
        old(dst).ok(),
        old(state).wf(),
    ensures
        final(src).ok(),
        final(dst).ok(),
        final(state).wf(),
        exists|fetched: Seq<u8>, written: Seq<u8>| #[trigger]
            carried(
                *old(src),
                *final(src),
                *old(dst),
                *final(dst),
                *old(state),
                *final(state),
                fetched,
                written,
            ),
        copied_through(
            (*old(src), *old(dst), *old(state)),
            (*final(src), *final(dst), *final(state)),
            stuck,
            attempt,
        ),
        attempt is Progress ==> count_is_full(*final(state)),
        attempt is Done ==> final(state).ended() && final(state).in_flight().len() == 0,
{
    let ghost s0 = *src;
    let ghost d0 = *dst;
    let ghost before = *state;
    let ghost mut states = seq![(s0, d0, before)];
    let ghost mut fetched = Seq::<u8>::empty();
    let ghost mut written = Seq::<u8>::empty();
    proof {
        S::moves_nothing(s0);
        D::moves_nothing(d0);
        assert(before.in_flight() + fetched =~= written + before.in_flight());
    }
    while state.copied <= u64::MAX - COPY_BUFFER as u64
        invariant
            src.ok(),
            dst.ok(),
            state.wf(),
            s0 == *old(src),
            d0 == *old(dst),
            before == *old(state),
            carried(s0, *src, d0, *dst, before, *state, fetched, written),
            states.len() > 0,
            states[0] == (s0, d0, before),
            states.last() == (*src, *dst, *state),
            forall|i: int|
                0 <= i < states.len() - 1 ==> #[trigger] copy_goes_on(states, i, stuck),
        decreases
            u64::MAX - state.total(),
            if state.in_flight().len() == 0 {
                1int
            } else {
                0
            },
    {
        let ghost s1 = *src;
        let ghost d1 = *dst;
        let ghost middle = *state;
        let attempt = copy_step(src, dst, state, stuck);
        proof {
            let (fetched2, written2) = choose|fetched2: Seq<u8>, written2: Seq<u8>| #[trigger]
                carried(s1, *src, d1, *dst, middle, *state, fetched2, written2);
            law_copying_is_faithful(
                seq![s0, s1, *src],
                seq![d0, d1, *dst],
                seq![before, middle, *state],
                fetched,
                written,
                fetched2,
                written2,
            );
            fetched = fetched + fetched2;
            written = written + written2;
        }
        match attempt {
            Attempt::Progress => {
                proof {
                    let more = states.push((*src, *dst, *state));
                    assert forall|i: int| 0 <= i < more.len() - 1 implies #[trigger] copy_goes_on(
                        more,
                        i,
                        stuck,
                    ) by {
                        if i < states.len() - 1 {
                            assert(copy_goes_on(states, i, stuck));
                        }
                    }
                    states = more;
                }
            },
            _ => {
                assert(copy_ran(states, (*src, *dst, *state), stuck, attempt));
                return attempt;
            },
        }
    }
    let attempt = Attempt::Progress;
    assert(copy_ran(states, (*src, *dst, *state), stuck, attempt));
    attempt
}

/// Whether one of two directions that begins like this can end like that: bytes are carried
/// from the source to the destination until it has to wait, is done or fails.
pub open spec fn direction_polled<S: AsyncRead, D: AsyncWrite>(
    before: (S, D, DirectionState),
    after: (S, D, DirectionState),
    attempt: Attempt<()>,
) -> bool {
    &&& copied_through(
        before,
        after,
        "eddy: copy_bidirectional writer made no progress",
        attempt,
    )
    &&& exists|fetched: Seq<u8>, written: Seq<u8>| #[trigger]
        carried(before.0, after.0, before.1, after.1, before.2, after.2, fetched, written)
}

/// Copies in one of two directions until that has to wait, is done or fails. Where the
/// count cannot take another buffer, it stops in the middle.
pub fn poll_direction<S: AsyncRead, D: AsyncWrite>(
    src: &mut S,
    dst: &mut D,
    state: &mut DirectionState,
) -> (attempt: Attempt<()>)
    requires
        old(src).ok(),
        old(dst).ok(),
        old(state).wf(),
    ensures
        final(src).ok(),
        final(dst).ok(),
        final(state).wf(),
        direction_polled(
            (*old(src), *old(dst), *old(state)),
            (*final(src), *final(dst), *final(state)),
            attempt,
        ),
        attempt is Progress ==> count_is_full(*final(state)),
        attempt is Done ==> final(state).ended() && final(state).in_flight().len() == 0,
{
    let ghost before = (*src, *dst, *state);
    let attempt = copy_run(src, dst, state, "eddy: copy_bidirectional writer made no progress");
    proof {
        let after = (*src, *dst, *state);
        let (fetched, written) = choose|fetched: Seq<u8>, written: Seq<u8>| #[trigger]
            carried(before.0, *src, before.1, *dst, before.2, *state, fetched, written);
        assert(carried(
            before.0,
            after.0,
            before.1,
            after.1,
            before.2,
            after.2,
            fetched,
            written,
        ));
    }
    attempt
}

/// Whether bytes went both ways between two ends: what was read from one was written to
/// the other, in order, behind what was in flight.
pub open spec fn exchanged<A: ByteFlow, B: ByteFlow>(
    left: (A, A),
    right: (B, B),
    left_to_right: (DirectionState, DirectionState),
    right_to_left: (DirectionState, DirectionState),
    from_left: Seq<u8>,
    to_right: Seq<u8>,
    from_right: Seq<u8>,
    to_left: Seq<u8>,
) -> bool {
    &&& A::moves(left.0, left.1, from_left, to_left)
    &&& B::moves(right.0, right.1, from_right, to_right)
    &&& left_to_right.0.in_flight() + from_left == to_right + left_to_right.1.in_flight()
    &&& left_to_right.1.total() == left_to_right.0.total() + to_right.len()
    &&& right_to_left.0.in_flight() + from_right == to_left + right_to_left.1.in_flight()
    &&& right_to_left.1.total() == right_to_left.0.total() + to_left.len()
}

/// What a copy in both directions gives for what became of the first, which has not
/// failed, and of the second: how many bytes were copied each way, if both are done.
pub open spec fn both_attempts(
    first: Attempt<()>,
    second: Attempt<()>,
    left_to_right: nat,
    right_to_left: nat,
) -> Attempt<(u64, u64)> {
    match (first, second) {
        (_, Attempt::Failed(error)) => Attempt::Failed(error),
        (Attempt::Done(_), Attempt::Done(_)) => Attempt::Done(
            (left_to_right as u64, right_to_left as u64),
        ),
        (Attempt::Progress, _) => Attempt::Progress,
        (_, Attempt::Progress) => Attempt::Progress,
        _ => Attempt::Pending,
    }
}

/// Copies from left to right, then from right to left, until each direction has to wait or
/// is done. The first failure ends both. Where both are done, this gives how many bytes
/// were copied each way. Where a count cannot take another buffer, that direction stops in
/// the middle.
pub fn copy_bidirectional<A: AsyncRead + AsyncWrite, B: AsyncRead + AsyncWrite>(
    left: &mut A,
    right: &mut B,
    left_to_right: &mut DirectionState,
    right_to_left: &mut DirectionState,
) -> (attempt: Attempt<(u64, u64)>)
    requires
        old(left).ok(),
        old(right).ok(),
        old(left_to_right).wf(),
        old(right_to_left).wf(),
    ensures
        final(left).ok(),
        final(right).ok(),
        final(left_to_right).wf(),
        final(right_to_left).wf(),
        exists|from_left: Seq<u8>, to_right: Seq<u8>, from_right: Seq<u8>, to_left: Seq<u8>|
            #[trigger]
            exchanged(
                (*old(left), *final(left)),
                (*old(right), *final(right)),
                (*old(left_to_right), *final(left_to_right)),
                (*old(right_to_left), *final(right_to_left)),
                from_left,
                to_right,
                from_right,
                to_left,
            ),
        exists|left1: A, right1: B, first: Attempt<()>|
            {
                &&& #[trigger] direction_polled(
                    (*old(left), *old(right), *old(left_to_right)),
                    (left1, right1, *final(left_to_right)),
                    first,
                )
                &&& match first {
                    Attempt::Failed(error) => {
                        &&& attempt == Attempt::<(u64, u64)>::Failed(error)
                        &&& *final(left) == left1
                        &&& *final(right) == right1
                        &&& *final(right_to_left) == *old(right_to_left)
                    },
                    _ => exists|second: Attempt<()>|
                        {
                            &&& #[trigger] direction_polled(
                                (right1, left1, *old(right_to_left)),
                                (*final(right), *final(left), *final(right_to_left)),
                                second,
                            )
                            &&& attempt == both_attempts(
                                first,
                                second,
                                final(left_to_right).total(),
                                final(right_to_left).total(),
                            )
                        },
                }
            },
        attempt is Progress ==> count_is_full(*final(left_to_right)) || count_is_full(
            *final(right_to_left),
        ),
        attempt matches Attempt::Done(counts) ==> {
            &&& final(left_to_right).ended() && final(left_to_right).in_flight().len() == 0
            &&& final(right_to_left).ended() && final(right_to_left).in_flight().len() == 0
            &&& counts.0 == final(left_to_right).total()
            &&& counts.1 == final(right_to_left).total()
        },
{
    let ghost left0 = *left;
    let ghost right0 = *right;
    let ghost lr0 = *left_to_right;
    let ghost rl0 = *right_to_left;
    let first = poll_direction(left, right, left_to_right);
    let ghost left1 = *left;
    let ghost right1 = *right;
    let ghost lr1 = *left_to_right;
    let ghost (from_left, to_right) = choose|fetched: Seq<u8>, written: Seq<u8>| #[trigger]
        carried(left0, left1, right0, right1, lr0, lr1, fetched, written);
    proof {
        assert(rl0.in_flight() + Seq::<u8>::empty() =~= Seq::<u8>::empty() + rl0.in_flight());
    }
    if let Attempt::Failed(error) = first {
        assert(exchanged(
            (left0, left1),
            (right0, right1),
            (lr0, lr1),
            (rl0, rl0),
            from_left,
            to_right,
            Seq::empty(),
            Seq::empty(),
        ));
        return Attempt::Failed(error);
    }
    let second = poll_direction(right, left, right_to_left);
    proof {
        let (from_right, to_left) = choose|fetched: Seq<u8>, written: Seq<u8>| #[trigger]
            carried(right1, *right, left1, *left, rl0, *right_to_left, fetched, written);
        A::moves_both(left0, left1, *left, from_left, Seq::empty(), Seq::empty(), to_left);
        B::moves_both(right0, right1, *right, Seq::empty(), to_right, from_right, Seq::empty());
        assert(from_left + Seq::<u8>::empty() =~= from_left);
        assert(Seq::<u8>::empty() + to_left =~= to_left);
        assert(Seq::<u8>::empty() + from_right =~= from_right);
        assert(to_right + Seq::<u8>::empty() =~= to_right);
        assert(exchanged(
            (left0, *left),
            (right0, *right),
            (lr0, lr1),
            (rl0, *right_to_left),
            from_left,
            to_right,
            from_right,
            to_left,
        ));
        assert(direction_polled(
            (right1, left1, rl0),
            (*right, *left, *right_to_left),
            second,
        ));
    }
    match (first, second) {
        (_, Attempt::Failed(error)) => Attempt::Failed(error),
        (Attempt::Done(_), Attempt::Done(_)) => Attempt::Done(
            (left_to_right.copied, right_to_left.copied),
        ),
        (Attempt::Progress, _) => Attempt::Progress,
        (_, Attempt::Progress) => Attempt::Progress,
        _ => Attempt::Pending,
    }
}

/// A copy in both directions that began with nothing in flight and is done has written to
/// each end exactly what it read from the other, in order, and counts that many bytes.
pub proof fn law_a_finished_exchange_is_faithful<A: ByteFlow, B: ByteFlow>(
    left: (A, A),
    right: (B, B),
    left_to_right: (DirectionState, DirectionState),
    right_to_left: (DirectionState, DirectionState),
    from_left: Seq<u8>,
    to_right: Seq<u8>,
    from_right: Seq<u8>,
    to_left: Seq<u8>,
)
    requires
        exchanged(
            left,
            right,
            left_to_right,
            right_to_left,
            from_left,
            to_right,
            from_right,
            to_left,
        ),
        left_to_right.0.in_flight().len() == 0 && left_to_right.0.total() == 0,
        right_to_left.0.in_flight().len() == 0 && right_to_left.0.total() == 0,
        left_to_right.1.in_flight().len() == 0,
        right_to_left.1.in_flight().len() == 0,
    ensures
        from_left == to_right,
        from_right == to_left,
        left_to_right.1.total() == from_left.len(),
        right_to_left.1.total() == from_right.len(),
{
    assert(left_to_right.0.in_flight() + from_left =~= from_left);
    assert(to_right + left_to_right.1.in_flight() =~= to_right);
    assert(right_to_left.0.in_flight() + from_right =~= from_right);
    assert(to_left + right_to_left.1.in_flight() =~= to_left);
}

/// Copies everything from a reader to a writer, until that has to wait, is done or fails.
/// At the end the writer is flushed, and the number of bytes is given. Where the count
/// cannot take another buffer, the copy stops in the middle.
pub fn copy<R: AsyncRead, W: AsyncWrite>(
    reader: &mut R,
    writer: &mut W,
    state: &mut DirectionState,
) -> (attempt: Attempt<u64>)
    requires
        old(reader).ok(),
        old(writer).ok(),
        old(state).wf(),
    ensures
        final(reader).ok(),
        final(writer).ok(),
        final(state).wf(),
        exists|fetched: Seq<u8>, written: Seq<u8>| #[trigger]
            carried(
                *old(reader),
                *final(reader),
                *old(writer),
                *final(writer),
                *old(state),
                *final(state),
                fetched,
                written,
            ),
        attempt is Progress ==> count_is_full(*final(state)),
        attempt matches Attempt::Done(count) ==> final(state).ended()
            && final(state).in_flight().len() == 0 && count == final(state).total(),
        exists|run: Attempt<()>, unflushed: W|
            {
                &&& #[trigger] copied_through(
                    (*old(reader), *old(writer), *old(state)),
                    (*final(reader), unflushed, *final(state)),
                    "eddy: write returned zero before the buffer was complete",
                    run,
                )
                &&& match run {
                    Attempt::Progress => attempt is Progress && *final(writer) == unflushed,
                    Attempt::Pending => attempt is Pending && *final(writer) == unflushed,
                    Attempt::Failed(error) => attempt == Attempt::<u64>::Failed(error)
                        && *final(writer) == unflushed,
                    Attempt::Done(_) => exists|poll: Poll<Result<(), IoError>>|
                        {
                            &&& #[trigger] W::flushes(unflushed, *final(writer), poll)
                            &&& attempt == copied_attempt(poll, final(state).total())
                        },
                }
            },
{
    let ghost r0 = *reader;
    let ghost w0 = *writer;
    let ghost before = *state;
    let run = copy_run(
        reader,
        writer,
        state,
        "eddy: write returned zero before the buffer was complete",
    );
    assert(copied_through(
        (r0, w0, before),
        (*reader, *writer, *state),
        "eddy: write returned zero before the buffer was complete",
        run,
    ));
    match run {
        Attempt::Progress => Attempt::Progress,
        Attempt::Pending => Attempt::Pending,
        Attempt::Failed(error) => Attempt::Failed(error),
        Attempt::Done(_) => {
            let ghost w1 = *writer;
            let poll = writer.poll_flush();
            proof {
                let (fetched, written) = choose|fetched: Seq<u8>, written: Seq<u8>| #[trigger]
                    carried(r0, *reader, w0, w1, before, *state, fetched, written);
                W::moves_both(w0, w1, *writer, Seq::empty(), written, Seq::empty(), Seq::empty());
                assert(Seq::<u8>::empty() + Seq::<u8>::empty() =~= Seq::<u8>::empty());
                assert(written + Seq::<u8>::empty() =~= written);
                assert(carried(r0, *reader, w0, *writer, before, *state, fetched, written));
                assert(W::flushes(w1, *writer, poll));
            }
            copied_all(poll, state)
        },
    }
}

/// What a copy of so many bytes gives for the outcome of the flush at its end.
pub open spec fn copied_attempt(poll: Poll<Result<(), IoError>>, total: nat) -> Attempt<u64> {
    match poll {
        Poll::Pending => Attempt::Pending,
        Poll::Ready(Ok(_)) => Attempt::Done(total as u64),
        Poll::Ready(Err(error)) => Attempt::Failed(error),
    }
}

/// What a copy gives for the outcome of the flush at its end.
pub fn copied_all(poll: Poll<Result<(), IoError>>, state: &DirectionState) -> (attempt: Attempt<
    u64,
>)
    ensures
        attempt == copied_attempt(poll, state.total()),
{
    match poll {
        Poll::Pending => Attempt::Pending,
        Poll::Ready(Ok(_)) => Attempt::Done(state.copied),
        Poll::Ready(Err(error)) => Attempt::Failed(error),
    }
}

/// A copy is done only where its source has said that it has ended: the last thing that was
/// asked of it is a read that gave nothing.
pub proof fn law_a_copy_is_done_at_the_end_of_its_source<S: AsyncRead, D: AsyncWrite>(
    before: (S, D, DirectionState),
    after: (S, D, DirectionState),
    stuck: &'static str,
) -> (last: (S, Poll<Result<(), IoError>>))
    requires
        copied_through(before, after, stuck, Attempt::Done(())),
        !before.2.ended(),
    ensures
        S::reads(last.0, after.0, COPY_BUFFER as nat, Seq::empty(), last.1),
        io::succeeded(last.1),
{
    let states = choose|states: Seq<(S, D, DirectionState)>|
        states[0] == before && #[trigger] copy_ran(states, after, stuck, Attempt::Done(()));
    lemma_not_ended_on_the_way(states, stuck, states.len() - 1);
    let end = states.last();
    assert(end.2.in_flight().len() == 0);
    let poll = choose|poll: Poll<Result<(), IoError>>|
        {
            &&& #[trigger] S::reads(
                end.0,
                after.0,
                COPY_BUFFER as nat,
                after.2.in_flight(),
                poll,
            )
            &&& Attempt::Done(()) == DirectionState::fetched_attempt(
                poll,
                after.2.in_flight().len(),
            )
        };
    assert(after.2.in_flight() =~= Seq::empty());
    (end.0, poll)
}

/// A source has not ended as long as the copy goes on.
proof fn lemma_not_ended_on_the_way<S: AsyncRead, D: AsyncWrite>(
    states: Seq<(S, D, DirectionState)>,
    stuck: &'static str,
    n: int,
)
    requires
        0 <= n < states.len(),
        !states[0].2.ended(),
        forall|i: int| 0 <= i < states.len() - 1 ==> #[trigger] copy_goes_on(states, i, stuck),
    ensures
        !states[n].2.ended(),
    decreases n,
{
    if n > 0 {
        lemma_not_ended_on_the_way(states, stuck, n - 1);
        assert(copy_goes_on(states, n - 1, stuck));
    }
}

/// Steps of copying add up: what two steps carry is carried by both taken together.
/// So from the beginning to the end, exactly what was read has been written, in
/// order, and that many bytes are counted.
pub proof fn law_copying_is_faithful<S: ByteFlow, D: ByteFlow>(
    src: Seq<S>,
    dst: Seq<D>,
    state: Seq<DirectionState>,
    fetched: Seq<u8>,
    written: Seq<u8>,
    fetched2: Seq<u8>,
    written2: Seq<u8>,
)
    requires
        src.len() == 3,
        dst.len() == 3,
        state.len() == 3,
        carried(src[0], src[1], dst[0], dst[1], state[0], state[1], fetched, written),
        carried(src[1], src[2], dst[1], dst[2], state[1], state[2], fetched2, written2),
    ensures
        carried(
            src[0],
            src[2],
            dst[0],
            dst[2],
            state[0],
            state[2],
            fetched + fetched2,
            written + written2,
        ),
        state[0].in_flight().len() == 0 && state[0].total() == 0 && state[2].in_flight().len() == 0
            ==> fetched + fetched2 == written + written2 && state[2].total() == (fetched
            + fetched2).len(),
{
    S::moves_both(src[0], src[1], src[2], fetched, Seq::empty(), fetched2, Seq::empty());
    D::moves_both(dst[0], dst[1], dst[2], Seq::empty(), written, Seq::empty(), written2);
    assert(Seq::<u8>::empty() + Seq::<u8>::empty() =~= Seq::<u8>::empty());
    let f0 = state[0].in_flight();
    let f1 = state[1].in_flight();
    let f2 = state[2].in_flight();
    assert(f0 + (fetched + fetched2) =~= (f0 + fetched) + fetched2);
    assert((written + f1) + fetched2 =~= written + (f1 + fetched2));
    assert(written + (written2 + f2) =~= (written + written2) + f2);
    if f0.len() == 0 && f2.len() == 0 {
        assert(f0 + (fetched + fetched2) =~= fetched + fetched2);
        assert((written + written2) + f2 =~= written + written2);
    }
}

} // verus!
