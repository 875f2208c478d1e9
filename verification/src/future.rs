//! Future combinators.
//!
//! A combinator holds the outputs that its futures have produced so far. Each
//! round hands it a way to poll each of its futures once; the combinator decides
//! which of them are polled, in which order, and what the round comes to.

use crate::poll::Poll;
use vstd::prelude::*;

pub mod calls;
pub mod join_set;
pub mod laws;
pub mod unordered;

verus! {

/// One of two values.
#[derive(Debug, Clone, Copy, PartialEq, Eq)]
pub enum Either<A, B> {
    Left(A),
    Right(B),
}

/// Whether a future's poll came to `seen`: it was polled where `polled` says so,
/// and then gave what it gives.
pub open spec fn polled_once<T, F: FnOnce() -> Poll<T>>(
    poll: F,
    polled: bool,
    seen: Option<Poll<T>>,
) -> bool {
    match seen {
        Some(outcome) => polled && poll.ensures((), outcome),
        None => !polled,
    }
}

/// The output that a future has produced by the end of a round.
pub open spec fn output_after<T>(before: Option<T>, seen: Option<Poll<T>>) -> Option<T> {
    match (before, seen) {
        (None, Some(Poll::Ready(value))) => Some(value),
        _ => before,
    }
}

// ---------------------------------------------------------------------------
// join
// ---------------------------------------------------------------------------

/// Waits for two futures, and resolves with both outputs.
#[derive(Debug)]
pub struct Join2<A, B> {
    pub a_output: Option<A>,
    pub b_output: Option<B>,
}

/// A `Join2` that has no output yet.
pub fn join2<A, B>() -> (join: Join2<A, B>)
    ensures
        join.a_output is None,
        join.b_output is None,
{
    Join2 { a_output: None, b_output: None }
}

/// What a round of a join comes to, given the outputs after it.
pub open spec fn join2_round<A, B>(
    a: Option<A>,
    b: Option<B>,
) -> (Poll<(A, B)>, Join2<A, B>) {
    match (a, b) {
        (Some(a), Some(b)) => (Poll::Ready((a, b)), Join2 { a_output: None, b_output: None }),
        (a, b) => (Poll::Pending, Join2 { a_output: a, b_output: b }),
    }
}

impl<A, B> Join2<A, B> {
    /// One round: polls each future that has no output yet, and is ready once both
    /// have one.
    pub fn poll<FA: FnOnce() -> Poll<A>, FB: FnOnce() -> Poll<B>>(
        &mut self,
        poll_a: FA,
        poll_b: FB,
    ) -> (poll: Poll<(A, B)>)
        requires
            poll_a.requires(()),
            poll_b.requires(()),
        ensures
            exists|a: Option<Poll<A>>, b: Option<Poll<B>>|
                polled_once(poll_a, old(self).a_output is None, a) && polled_once(
                    poll_b,
                    old(self).b_output is None,
                    b,
                ) && (poll, *final(self)) == #[trigger] join2_round(
                    output_after(old(self).a_output, a),
                    output_after(old(self).b_output, b),
                ),
    {
        let ghost mut a_seen: Option<Poll<A>> = None;
        let ghost mut b_seen: Option<Poll<B>> = None;
        if self.a_output.is_none() {
            let outcome = poll_a();
            proof {
                a_seen = Some(outcome);
            }
            if let Poll::Ready(output) = outcome {
                self.a_output = Some(output);
            }
        }
        if self.b_output.is_none() {
            let outcome = poll_b();
            proof {
                b_seen = Some(outcome);
            }
            if let Poll::Ready(output) = outcome {
                self.b_output = Some(output);
            }
        }
        assert(self.a_output == output_after(old(self).a_output, a_seen));
        assert(self.b_output == output_after(old(self).b_output, b_seen));
        let ghost round = join2_round(
            output_after(old(self).a_output, a_seen),
            output_after(old(self).b_output, b_seen),
        );
        match (self.a_output.take(), self.b_output.take()) {
            (Some(a), Some(b)) => Poll::Ready((a, b)),
            (a, b) => {
                self.a_output = a;
                self.b_output = b;
                Poll::Pending
            },
        }
    }
}

// ---------------------------------------------------------------------------
// try_join
// ---------------------------------------------------------------------------

/// Waits for two fallible futures, and resolves with both values or with the
/// first error.
#[derive(Debug)]
pub struct TryJoin2<A, B> {
    pub a_output: Option<A>,
    pub b_output: Option<B>,
}

/// A `TryJoin2` that has no output yet.
pub fn try_join2<A, B>() -> (join: TryJoin2<A, B>)
    ensures
        join.a_output is None,
        join.b_output is None,
{
    TryJoin2 { a_output: None, b_output: None }
}

/// Whether a poll brought an error.
pub open spec fn failed<T, E>(seen: Option<Poll<Result<T, E>>>) -> bool {
    seen matches Some(Poll::Ready(Err(_)))
}

/// The error that a poll brought.
pub open spec fn failure<T, E>(seen: Option<Poll<Result<T, E>>>) -> E {
    seen->0->Ready_0->Err_0
}

/// The value that a fallible future has produced by the end of a round.
pub open spec fn value_after<T, E>(before: Option<T>, seen: Option<Poll<Result<T, E>>>) -> Option<
    T,
> {
    match (before, seen) {
        (None, Some(Poll::Ready(Ok(value)))) => Some(value),
        _ => before,
    }
}

/// What a round of a fallible join comes to. An error ends it at once.
pub open spec fn try_join2_round<A, B, E>(
    before: TryJoin2<A, B>,
    a: Option<Poll<Result<A, E>>>,
    b: Option<Poll<Result<B, E>>>,
) -> (Poll<Result<(A, B), E>>, TryJoin2<A, B>) {
    let a_value = value_after(before.a_output, a);
    let b_value = value_after(before.b_output, b);
    let after = TryJoin2 { a_output: a_value, b_output: b_value };
    if failed(a) {
        (Poll::Ready(Err(failure(a))), after)
    } else if failed(b) {
        (Poll::Ready(Err(failure(b))), after)
    } else {
        match (a_value, b_value) {
            (Some(x), Some(y)) => (
                Poll::Ready(Ok((x, y))),
                TryJoin2 { a_output: None, b_output: None },
            ),
            _ => (Poll::Pending, after),
        }
    }
}

impl<A, B> TryJoin2<A, B> {
    /// One round: polls each future that has no value yet, `a` before `b`. An error
    /// ends the round, and nothing else is polled.
    pub fn poll<E, FA: FnOnce() -> Poll<Result<A, E>>, FB: FnOnce() -> Poll<Result<B, E>>>(
        &mut self,
        poll_a: FA,
        poll_b: FB,
    ) -> (poll: Poll<Result<(A, B), E>>)
        requires
            poll_a.requires(()),
            poll_b.requires(()),
        ensures
            exists|a: Option<Poll<Result<A, E>>>, b: Option<Poll<Result<B, E>>>|
                polled_once(poll_a, old(self).a_output is None, a) && polled_once(
                    poll_b,
                    !failed(a) && old(self).b_output is None,
                    b,
                ) && (poll, *final(self)) == #[trigger] try_join2_round(*old(self), a, b),
    {
        let ghost mut a_seen: Option<Poll<Result<A, E>>> = None;
        let ghost mut b_seen: Option<Poll<Result<B, E>>> = None;
        if self.a_output.is_none() {
            let outcome = poll_a();
            proof {
                a_seen = Some(outcome);
            }
            match outcome {
                Poll::Ready(Ok(output)) => self.a_output = Some(output),
                Poll::Ready(Err(error)) => {
                    let ghost round = try_join2_round(*old(self), a_seen, b_seen);
                    assert(round.1 == *self);
                    return Poll::Ready(Err(error));
                },
                Poll::Pending => {},
            }
        }
        if self.b_output.is_none() {
            let outcome = poll_b();
            proof {
                b_seen = Some(outcome);
            }
            match outcome {
                Poll::Ready(Ok(output)) => self.b_output = Some(output),
                Poll::Ready(Err(error)) => {
                    let ghost round = try_join2_round(*old(self), a_seen, b_seen);
                    assert(round.1 == *self);
                    return Poll::Ready(Err(error));
                },
                Poll::Pending => {},
            }
        }
        let ghost round = try_join2_round(*old(self), a_seen, b_seen);
        match (self.a_output.take(), self.b_output.take()) {
            (Some(a), Some(b)) => Poll::Ready(Ok((a, b))),
            (a, b) => {
                self.a_output = a;
                self.b_output = b;
                Poll::Pending
            },
        }
    }
}

/// Waits for three fallible futures, and resolves with all values or with the
/// first error.
#[derive(Debug)]
pub struct TryJoin3<A, B, C> {
    pub a_output: Option<A>,
    pub b_output: Option<B>,
    pub c_output: Option<C>,
}

/// A `TryJoin3` that has no output yet.
pub fn try_join3<A, B, C>() -> (join: TryJoin3<A, B, C>)
    ensures
        join.a_output is None,
        join.b_output is None,
        join.c_output is None,
{
    TryJoin3 { a_output: None, b_output: None, c_output: None }
}

/// What a round of a fallible join of three comes to. An error ends it at once.
pub open spec fn try_join3_round<A, B, C, E>(
    before: TryJoin3<A, B, C>,
    a: Option<Poll<Result<A, E>>>,
    b: Option<Poll<Result<B, E>>>,
    c: Option<Poll<Result<C, E>>>,
) -> (Poll<Result<(A, B, C), E>>, TryJoin3<A, B, C>) {
    let a_value = value_after(before.a_output, a);
    let b_value = value_after(before.b_output, b);
    let c_value = value_after(before.c_output, c);
    let after = TryJoin3 { a_output: a_value, b_output: b_value, c_output: c_value };
    if failed(a) {
        (Poll::Ready(Err(failure(a))), after)
    } else if failed(b) {
        (Poll::Ready(Err(failure(b))), after)
    } else if failed(c) {
        (Poll::Ready(Err(failure(c))), after)
    } else {
        match (a_value, b_value, c_value) {
            (Some(x), Some(y), Some(z)) => (
                Poll::Ready(Ok((x, y, z))),
                TryJoin3 { a_output: None, b_output: None, c_output: None },
            ),
            _ => (Poll::Pending, after),
        }
    }
}

impl<A, B, C> TryJoin3<A, B, C> {
    /// One round: polls each future that has no value yet, in order. An error ends
    /// the round, and nothing else is polled.
    pub fn poll<
        E,
        FA: FnOnce() -> Poll<Result<A, E>>,
        FB: FnOnce() -> Poll<Result<B, E>>,
        FC: FnOnce() -> Poll<Result<C, E>>,
    >(&mut self, poll_a: FA, poll_b: FB, poll_c: FC) -> (poll: Poll<Result<(A, B, C), E>>)
        requires
            poll_a.requires(()),
            poll_b.requires(()),
            poll_c.requires(()),
        ensures
            exists|
                a: Option<Poll<Result<A, E>>>,
                b: Option<Poll<Result<B, E>>>,
                c: Option<Poll<Result<C, E>>>,
            |
                polled_once(poll_a, old(self).a_output is None, a) && polled_once(
                    poll_b,
                    !failed(a) && old(self).b_output is None,
                    b,
                ) && polled_once(
                    poll_c,
                    !failed(a) && !failed(b) && old(self).c_output is None,
                    c,
                ) && (poll, *final(self)) == #[trigger] try_join3_round(*old(self), a, b, c),
    {
        let ghost mut a_seen: Option<Poll<Result<A, E>>> = None;
        let ghost mut b_seen: Option<Poll<Result<B, E>>> = None;
        let ghost mut c_seen: Option<Poll<Result<C, E>>> = None;
        if self.a_output.is_none() {
            let outcome = poll_a();
            proof {
                a_seen = Some(outcome);
            }
            match outcome {
                Poll::Ready(Ok(output)) => self.a_output = Some(output),
                Poll::Ready(Err(error)) => {
                    let ghost round = try_join3_round(*old(self), a_seen, b_seen, c_seen);
                    assert(round.1 == *self);
                    return Poll::Ready(Err(error));
                },
                Poll::Pending => {},
            }
        }
        if self.b_output.is_none() {
            let outcome = poll_b();
            proof {
                b_seen = Some(outcome);
            }
            match outcome {
                Poll::Ready(Ok(output)) => self.b_output = Some(output),
                Poll::Ready(Err(error)) => {
                    let ghost round = try_join3_round(*old(self), a_seen, b_seen, c_seen);
                    assert(round.1 == *self);
                    return Poll::Ready(Err(error));
                },
                Poll::Pending => {},
            }
        }
        if self.c_output.is_none() {
            let outcome = poll_c();
            proof {
                c_seen = Some(outcome);
            }
            match outcome {
                Poll::Ready(Ok(output)) => self.c_output = Some(output),
                Poll::Ready(Err(error)) => {
                    let ghost round = try_join3_round(*old(self), a_seen, b_seen, c_seen);
                    assert(round.1 == *self);
                    return Poll::Ready(Err(error));
                },
                Poll::Pending => {},
            }
        }
        let ghost round = try_join3_round(*old(self), a_seen, b_seen, c_seen);
        match (self.a_output.take(), self.b_output.take(), self.c_output.take()) {
            (Some(a), Some(b), Some(c)) => Poll::Ready(Ok((a, b, c))),
            (a, b, c) => {
                self.a_output = a;
                self.b_output = b;
                self.c_output = c;
                Poll::Pending
            },
        }
    }
}

// ---------------------------------------------------------------------------
// select
// ---------------------------------------------------------------------------

/// The state of the generator that decides which branch of a `select` goes first.
#[derive(Debug, Clone, Copy, PartialEq, Eq, Structural)]
pub struct SelectSeed {
    pub seed: u64,
}

/// The generator's next state.
pub open spec fn next_seed(seed: u64) -> u64 {
    let a = seed ^ (seed << 13);
    let b = a ^ (a >> 7);
    b ^ (b << 17)
}

/// Whether a state puts the first branch first.
pub open spec fn first_goes(seed: u64) -> bool {
    seed & 1 == 0
}

impl SelectSeed {
    /// The generator's first state.
    pub fn new() -> (seed: Self)
        ensures
            seed.seed == 0x9E37_79B9_7F4A_7C15u64,
    {
        SelectSeed { seed: 0x9E37_79B9_7F4A_7C15 }
    }
}

/// Moves the generator on, and returns whether the first branch goes first.
pub fn next_select_turn(seed: &mut SelectSeed) -> (first: bool)
    ensures
        final(seed).seed == next_seed(old(seed).seed),
        first == first_goes(final(seed).seed),
{
    let mut next: u64 = seed.seed;
    next = next ^ (next << 13);
    next = next ^ (next >> 7);
    next = next ^ (next << 17);
    seed.seed = next;
    next & 1 == 0
}

/// The generator never gets stuck: only zero leads to zero, and it does not start
/// there.
pub proof fn law_select_seed_stays_alive(seed: u64)
    ensures
        next_seed(seed) == 0 <==> seed == 0,
{
    assert(({
        let a = seed ^ (seed << 13);
        let b = a ^ (a >> 7);
        b ^ (b << 17)
    }) == 0 <==> seed == 0) by (bit_vector);
}

/// Waits for the first of two futures.
#[derive(Debug, Clone, Copy, PartialEq, Eq, Structural)]
pub struct Select2 {
    pub first_a: bool,
    pub randomize: bool,
}

/// A `Select2` whose branches take turns in going first.
pub fn select2(seed: &mut SelectSeed) -> (select: Select2)
    ensures
        final(seed).seed == next_seed(old(seed).seed),
        select == (Select2 { first_a: first_goes(final(seed).seed), randomize: true }),
{
    Select2 { first_a: next_select_turn(seed), randomize: true }
}

/// A `Select2` whose first branch always goes first.
pub fn select2_biased() -> (select: Select2)
    ensures
        select == (Select2 { first_a: true, randomize: false }),
{
    Select2 { first_a: true, randomize: false }
}

/// Whether a poll brought a value.
pub open spec fn ready<T>(seen: Option<Poll<T>>) -> bool {
    seen matches Some(Poll::Ready(_))
}

/// What a round of a select comes to, given what was polled.
pub open spec fn select_round<A, B>(
    a: Option<Poll<A>>,
    b: Option<Poll<B>>,
) -> Poll<Either<A, B>> {
    if ready(a) {
        Poll::Ready(Either::Left(a->0->Ready_0))
    } else if ready(b) {
        Poll::Ready(Either::Right(b->0->Ready_0))
    } else {
        Poll::Pending
    }
}

/// Which branch goes first in a round, and in the next one.
pub open spec fn turn(first_a: bool, randomize: bool) -> (bool, bool) {
    if randomize {
        (first_a, !first_a)
    } else {
        (true, first_a)
    }
}

impl Select2 {
    /// One round: polls the branch whose turn it is, and the other one where that
    /// brought nothing.
    pub fn poll<A, B, FA: FnOnce() -> Poll<A>, FB: FnOnce() -> Poll<B>>(
        &mut self,
        poll_a: FA,
        poll_b: FB,
    ) -> (poll: Poll<Either<A, B>>)
        requires
            poll_a.requires(()),
            poll_b.requires(()),
        ensures
            final(self).randomize == old(self).randomize,
            final(self).first_a == turn(old(self).first_a, old(self).randomize).1,
            exists|a: Option<Poll<A>>, b: Option<Poll<B>>|
                {
                    let a_first = turn(old(self).first_a, old(self).randomize).0;
                    &&& polled_once(poll_a, a_first || !ready(b), a)
                    &&& polled_once(poll_b, !a_first || !ready(a), b)
                    &&& poll == #[trigger] select_round(a, b)
                },
    {
        let first_a = if self.randomize {
            let first = self.first_a;
            self.first_a = !self.first_a;
            first
        } else {
            true
        };
        let ghost mut a_seen: Option<Poll<A>> = None;
        let ghost mut b_seen: Option<Poll<B>> = None;
        if first_a {
            let outcome = poll_a();
            proof {
                a_seen = Some(outcome);
            }
            if let Poll::Ready(output) = outcome {
                assert(select_round(a_seen, b_seen) is Ready);
                return Poll::Ready(Either::Left(output));
            }
            let outcome = poll_b();
            proof {
                b_seen = Some(outcome);
            }
            if let Poll::Ready(output) = outcome {
                assert(select_round(a_seen, b_seen) is Ready);
                return Poll::Ready(Either::Right(output));
            }
        } else {
            let outcome = poll_b();
            proof {
                b_seen = Some(outcome);
            }
            if let Poll::Ready(output) = outcome {
                assert(select_round(a_seen, b_seen) is Ready);
                return Poll::Ready(Either::Right(output));
            }
            let outcome = poll_a();
            proof {
                a_seen = Some(outcome);
            }
            if let Poll::Ready(output) = outcome {
                assert(select_round(a_seen, b_seen) is Ready);
                return Poll::Ready(Either::Left(output));
            }
        }
        assert(select_round(a_seen, b_seen) is Pending);
        Poll::Pending
    }
}

/// A `select` whose branches can be disabled.
#[derive(Debug, Clone, Copy, PartialEq, Eq, Structural)]
pub struct Select2Guarded {
    pub a_enabled: bool,
    pub b_enabled: bool,
    pub first_a: bool,
    pub randomize: bool,
}

impl Select2Guarded {
    /// A select with the given branches enabled. A biased one always polls the
    /// first branch first.
    pub fn new(
        a_enabled: bool,
        b_enabled: bool,
        biased: bool,
        seed: &mut SelectSeed,
    ) -> (select: Self)
        ensures
            final(seed).seed == (if biased {
                old(seed).seed
            } else {
                next_seed(old(seed).seed)
            }),
            select == (Select2Guarded {
                a_enabled,
                b_enabled,
                first_a: biased || first_goes(final(seed).seed),
                randomize: !biased,
            }),
    {
        let first_a = if biased {
            true
        } else {
            next_select_turn(seed)
        };
        Select2Guarded { a_enabled, b_enabled, first_a, randomize: !biased }
    }

    /// Disables the `a` branch after its value failed the pattern.
    pub fn disable_a(&mut self)
        ensures
            *final(self) == (Select2Guarded { a_enabled: false, ..*old(self) }),
    {
        self.a_enabled = false;
    }

    /// Disables the `b` branch after its value failed the pattern.
    pub fn disable_b(&mut self)
        ensures
            *final(self) == (Select2Guarded { b_enabled: false, ..*old(self) }),
    {
        self.b_enabled = false;
    }

    /// One round: polls the enabled branches, the one whose turn it is first. With
    /// both branches disabled the select is over, and comes to `None`.
    pub fn poll<A, B, FA: FnOnce() -> Poll<A>, FB: FnOnce() -> Poll<B>>(
        &mut self,
        poll_a: FA,
        poll_b: FB,
    ) -> (poll: Poll<Option<Either<A, B>>>)
        requires
            poll_a.requires(()),
            poll_b.requires(()),
        ensures
            final(self).a_enabled == old(self).a_enabled,
            final(self).b_enabled == old(self).b_enabled,
            final(self).randomize == old(self).randomize,
            !old(self).a_enabled && !old(self).b_enabled ==> poll == Poll::<
                Option<Either<A, B>>,
            >::Ready(None) && *final(self) == *old(self),
            old(self).a_enabled || old(self).b_enabled ==> final(self).first_a == turn(
                old(self).first_a,
                old(self).randomize,
            ).1 && exists|a: Option<Poll<A>>, b: Option<Poll<B>>|
                {
                    let a_first = turn(old(self).first_a, old(self).randomize).0;
                    &&& polled_once(poll_a, old(self).a_enabled && (a_first || !ready(b)), a)
                    &&& polled_once(poll_b, old(self).b_enabled && (!a_first || !ready(a)), b)
                    &&& poll == (match #[trigger] select_round(a, b) {
                        Poll::Ready(value) => Poll::Ready(Some(value)),
                        Poll::Pending => Poll::Pending,
                    })
                },
    {
        if !self.a_enabled && !self.b_enabled {
            return Poll::Ready(None);
        }
        let first_a = if self.randomize {
            let first = self.first_a;
            self.first_a = !self.first_a;
            first
        } else {
            true
        };
        let ghost mut a_seen: Option<Poll<A>> = None;
        let ghost mut b_seen: Option<Poll<B>> = None;
        if first_a {
            if self.a_enabled {
                let outcome = poll_a();
                proof {
                    a_seen = Some(outcome);
                }
                if let Poll::Ready(output) = outcome {
                    assert(select_round(a_seen, b_seen) is Ready);
                    return Poll::Ready(Some(Either::Left(output)));
                }
            }
            if self.b_enabled {
                let outcome = poll_b();
                proof {
                    b_seen = Some(outcome);
                }
                if let Poll::Ready(output) = outcome {
                    assert(select_round(a_seen, b_seen) is Ready);
                    return Poll::Ready(Some(Either::Right(output)));
                }
            }
        } else {
            if self.b_enabled {
                let outcome = poll_b();
                proof {
                    b_seen = Some(outcome);
                }
                if let Poll::Ready(output) = outcome {
                    assert(select_round(a_seen, b_seen) is Ready);
                    return Poll::Ready(Some(Either::Right(output)));
                }
            }
            if self.a_enabled {
                let outcome = poll_a();
                proof {
                    a_seen = Some(outcome);
                }
                if let Poll::Ready(output) = outcome {
                    assert(select_round(a_seen, b_seen) is Ready);
                    return Poll::Ready(Some(Either::Left(output)));
                }
            }
        }
        assert(select_round(a_seen, b_seen) is Pending);
        Poll::Pending
    }
}

/// The value of a race, whichever side won.
pub fn race<T>(winner: Either<T, T>) -> (value: T)
    ensures
        value == (match winner {
            Either::Left(value) => value,
            Either::Right(value) => value,
        }),
{
    match winner {
        Either::Left(value) => value,
        Either::Right(value) => value,
    }
}

// ---------------------------------------------------------------------------
// yield
// ---------------------------------------------------------------------------

/// Gives other tasks a turn.
#[derive(Debug, Clone, Copy, PartialEq, Eq, Structural)]
pub struct YieldNow {
    pub yielded: bool,
}

/// A `YieldNow` that has not yielded yet.
pub fn yield_now() -> (future: YieldNow)
    ensures
        !future.yielded,
{
    YieldNow { yielded: false }
}

impl YieldNow {
    /// Pending once, ready from then on. Where it is pending the caller wakes the
    /// task at once.
    pub fn poll(&mut self) -> (poll: Poll<()>)
        ensures
            final(self).yielded,
            poll is Ready <==> old(self).yielded,
    {
        if self.yielded {
            Poll::Ready(())
        } else {
            self.yielded = true;
            Poll::Pending
        }
    }
}

} // verus!
