//! What polls of joins, selects and sets of futures give, in terms of what their futures
//! give.

use super::join_set::JoinSet;
use super::unordered::{FuturesUnordered, Next};
use super::{
    join2, next_select_turn, race, select2, select2_biased, try_join2, try_join3, yield_now, Either,
    Join2, Select2, Select2Guarded, SelectSeed, TryJoin2, TryJoin3, YieldNow,
};
use crate::poll::Poll;
use vstd::prelude::*;

verus! {

/// Whether a future has given a value: now, or before.
pub open spec fn gave<T, F: FnOnce() -> Poll<T>>(before: Option<T>, poll: F, value: T) -> bool {
    (before is Some && before->0 == value) || (before is None && poll.ensures(
        (),
        Poll::Ready(value),
    ))
}

/// Whether a fallible future has given a value: now, or before.
pub open spec fn gave_ok<T, E, F: FnOnce() -> Poll<Result<T, E>>>(
    before: Option<T>,
    poll: F,
    value: T,
) -> bool {
    (before is Some && before->0 == value) || (before is None && poll.ensures(
        (),
        Poll::Ready(Ok::<T, E>(value)),
    ))
}

/// A join is ready with what its two futures have given, each under its own place, and has
/// nothing left then. Until then it keeps what has been given.
pub proof fn law_a_join_gives_what_its_futures_give<
    A,
    B,
    FA: FnOnce() -> Poll<A>,
    FB: FnOnce() -> Poll<B>,
>()
    ensures
        forall|join: Join2<A, B>| #[trigger]
            call_ensures(join2::<A, B>, (), join) ==> join.a_output is None
                && join.b_output is None,
        forall|join: &mut Join2<A, B>, a: FA, b: FB, poll: Poll<(A, B)>| #[trigger]
            call_ensures(Join2::<A, B>::poll::<FA, FB>, (join, a, b), poll) ==> {
                let after = *final(join);
                &&& poll is Ready ==> gave((*join).a_output, a, (poll->Ready_0).0) && gave(
                    (*join).b_output,
                    b,
                    (poll->Ready_0).1,
                ) && after.a_output is None && after.b_output is None
                &&& poll is Pending ==> after.a_output is None || after.b_output is None
                &&& poll is Pending && after.a_output is None ==> a.ensures((), Poll::Pending)
                &&& poll is Pending && after.b_output is None ==> b.ensures((), Poll::Pending)
                &&& poll is Pending && after.a_output is Some ==> gave(
                    (*join).a_output,
                    a,
                    after.a_output->0,
                )
                &&& poll is Pending && after.b_output is Some ==> gave(
                    (*join).b_output,
                    b,
                    after.b_output->0,
                )
                &&& poll is Pending && (*join).a_output is Some ==> after.a_output
                    == (*join).a_output
                &&& poll is Pending && (*join).b_output is Some ==> after.b_output
                    == (*join).b_output
            },
{
    assert(forall|seen: Option<Poll<A>>| seen is Some && !super::ready(seen) ==> #[trigger] seen->0
        == Poll::<A>::Pending);
    assert(forall|seen: Option<Poll<B>>| seen is Some && !super::ready(seen) ==> #[trigger] seen->0
        == Poll::<B>::Pending);
}

/// A fallible join is ready with the values of both, or with an error that one of them has
/// just given, that of the first before that of the second.
pub proof fn law_a_fallible_join_gives_values_or_an_error<
    A,
    B,
    E,
    FA: FnOnce() -> Poll<Result<A, E>>,
    FB: FnOnce() -> Poll<Result<B, E>>,
>()
    ensures
        forall|join: TryJoin2<A, B>| #[trigger]
            call_ensures(try_join2::<A, B>, (), join) ==> join.a_output is None
                && join.b_output is None,
        forall|join: &mut TryJoin2<A, B>, a: FA, b: FB, poll: Poll<Result<(A, B), E>>| #[trigger]
            call_ensures(TryJoin2::<A, B>::poll::<E, FA, FB>, (join, a, b), poll) ==> {
                let after = *final(join);
                &&& poll is Ready && poll->Ready_0 is Ok ==> gave_ok::<A, E, FA>(
                    (*join).a_output,
                    a,
                    (poll->Ready_0->Ok_0).0,
                ) && gave_ok::<B, E, FB>((*join).b_output, b, (poll->Ready_0->Ok_0).1)
                &&& poll is Ready && poll->Ready_0 is Err ==> ((*join).a_output is None
                    && a.ensures((), Poll::Ready(Err(poll->Ready_0->Err_0)))) || ((
                *join).b_output is None && b.ensures((), Poll::Ready(Err(poll->Ready_0->Err_0))))
                &&& poll is Pending ==> after.a_output is None || after.b_output is None
                &&& poll is Pending && after.a_output is None ==> a.ensures((), Poll::Pending)
                &&& poll is Pending && after.b_output is None ==> b.ensures((), Poll::Pending)
                &&& poll is Pending && (*join).a_output is Some ==> after.a_output
                    == (*join).a_output
                &&& poll is Pending && (*join).b_output is Some ==> after.b_output
                    == (*join).b_output
            },
{
    assert(forall|seen: Option<Poll<Result<A, E>>>|
        seen is Some && !(seen->0 is Ready) ==> #[trigger] seen->0
            == Poll::<Result<A, E>>::Pending);
    assert(forall|seen: Option<Poll<Result<B, E>>>|
        seen is Some && !(seen->0 is Ready) ==> #[trigger] seen->0
            == Poll::<Result<B, E>>::Pending);
}

/// The same of three.
pub proof fn law_a_fallible_join_of_three_gives_values_or_an_error<
    A,
    B,
    C,
    E,
    FA: FnOnce() -> Poll<Result<A, E>>,
    FB: FnOnce() -> Poll<Result<B, E>>,
    FC: FnOnce() -> Poll<Result<C, E>>,
>()
    ensures
        forall|join: TryJoin3<A, B, C>| #[trigger]
            call_ensures(try_join3::<A, B, C>, (), join) ==> join.a_output is None
                && join.b_output is None && join.c_output is None,
        forall|
            join: &mut TryJoin3<A, B, C>,
            a: FA,
            b: FB,
            c: FC,
            poll: Poll<Result<(A, B, C), E>>,
        | #[trigger]
            call_ensures(TryJoin3::<A, B, C>::poll::<E, FA, FB, FC>, (join, a, b, c), poll) ==> {
                let values = poll->Ready_0->Ok_0;
                let error = poll->Ready_0->Err_0;
                &&& poll is Ready && poll->Ready_0 is Ok ==> gave_ok::<A, E, FA>(
                    (*join).a_output,
                    a,
                    values.0,
                ) && gave_ok::<B, E, FB>((*join).b_output, b, values.1) && gave_ok::<C, E, FC>(
                    (*join).c_output,
                    c,
                    values.2,
                )
                &&& poll is Ready && poll->Ready_0 is Err ==> a.ensures(
                    (),
                    Poll::Ready(Err(error)),
                ) || b.ensures((), Poll::Ready(Err(error))) || c.ensures(
                    (),
                    Poll::Ready(Err(error)),
                )
                &&& poll is Pending && (*final(join)).a_output is None ==> a.ensures(
                    (),
                    Poll::Pending,
                )
                &&& poll is Pending && (*final(join)).b_output is None ==> b.ensures(
                    (),
                    Poll::Pending,
                )
                &&& poll is Pending && (*final(join)).c_output is None ==> c.ensures(
                    (),
                    Poll::Pending,
                )
            },
{
    assert(forall|seen: Option<Poll<Result<A, E>>>|
        seen is Some && !(seen->0 is Ready) ==> #[trigger] seen->0
            == Poll::<Result<A, E>>::Pending);
    assert(forall|seen: Option<Poll<Result<B, E>>>|
        seen is Some && !(seen->0 is Ready) ==> #[trigger] seen->0
            == Poll::<Result<B, E>>::Pending);
    assert(forall|seen: Option<Poll<Result<C, E>>>|
        seen is Some && !(seen->0 is Ready) ==> #[trigger] seen->0
            == Poll::<Result<C, E>>::Pending);
}

/// A select gives what one of its futures gives, and says which. It waits only where both
/// do. Where its first branch always goes first, the second one wins only where the first
/// one has to wait; otherwise the branches take turns.
pub proof fn law_a_select_gives_what_the_winner_gives<
    A,
    B,
    FA: FnOnce() -> Poll<A>,
    FB: FnOnce() -> Poll<B>,
>()
    ensures
        forall|select: Select2| #[trigger]
            call_ensures(select2_biased, (), select) ==> !select.randomize,
        forall|seed: &mut SelectSeed, select: Select2| #[trigger]
            call_ensures(select2, (seed,), select) ==> select.randomize && (select.first_a
                <==> (*final(seed)).seed & 1 == 0),
        forall|seed: &mut SelectSeed, first: bool| #[trigger]
            call_ensures(next_select_turn, (seed,), first)
                ==> (first <==> (*final(seed)).seed & 1 == 0)
                && ((*seed).seed != 0 ==> (*final(seed)).seed != 0),
        forall|select: &mut Select2, a: FA, b: FB, poll: Poll<Either<A, B>>| #[trigger]
            call_ensures(Select2::poll::<A, B, FA, FB>, (select, a, b), poll) ==> {
                let a_first = (*select).first_a || !(*select).randomize;
                &&& poll is Ready && poll->Ready_0 is Left ==> a.ensures(
                    (),
                    Poll::Ready(poll->Ready_0->Left_0),
                )
                &&& poll is Ready && poll->Ready_0 is Right ==> b.ensures(
                    (),
                    Poll::Ready(poll->Ready_0->Right_0),
                )
                &&& poll is Ready && poll->Ready_0 is Right && a_first ==> a.ensures(
                    (),
                    Poll::Pending,
                )
                &&& poll is Ready && poll->Ready_0 is Left && !a_first ==> b.ensures(
                    (),
                    Poll::Pending,
                )
                &&& poll is Pending ==> a.ensures((), Poll::Pending) && b.ensures((), Poll::Pending)
                &&& (*final(select)).randomize == (*select).randomize
                &&& (*select).randomize ==> (*final(select)).first_a != (*select).first_a
            },
{
    assert forall|seed: &mut SelectSeed, first: bool| #[trigger]
        call_ensures(next_select_turn, (seed,),
            first) implies (first <==> (*final(seed)).seed & 1 == 0)
            && ((*seed).seed != 0 ==> (*final(seed)).seed != 0) by {
        super::law_select_seed_stays_alive((*seed).seed);
    }
    assert(forall|seen: Option<Poll<A>>| seen is Some && !super::ready(seen) ==> #[trigger] seen->0
        == Poll::<A>::Pending);
    assert(forall|seen: Option<Poll<B>>| seen is Some && !super::ready(seen) ==> #[trigger] seen->0
        == Poll::<B>::Pending);
}

/// A branch that is disabled neither wins nor is waited for; with both disabled the select is
/// over. A branch stays disabled, and the other one as it is.
pub proof fn law_disabled_branches_are_left_out<
    A,
    B,
    FA: FnOnce() -> Poll<A>,
    FB: FnOnce() -> Poll<B>,
>()
    ensures
        forall|select: &mut Select2Guarded, a: FA, b: FB, poll: Poll<Option<Either<A, B>>>|
            #[trigger]
            call_ensures(Select2Guarded::poll::<A, B, FA, FB>, (select, a, b), poll) ==> {
                let won = poll is Ready && poll->Ready_0 is Some;
                let winner = poll->Ready_0->0;
                &&& poll is Ready && poll->Ready_0 is None <==> !(*select).a_enabled
                    && !(*select).b_enabled
                &&& won && winner is Left ==> (*select).a_enabled && a.ensures(
                    (),
                    Poll::Ready(winner->Left_0),
                )
                &&& won && winner is Right ==> (*select).b_enabled && b.ensures(
                    (),
                    Poll::Ready(winner->Right_0),
                )
                &&& poll is Pending && (*select).a_enabled ==> a.ensures((), Poll::Pending)
                &&& poll is Pending && (*select).b_enabled ==> b.ensures((), Poll::Pending)
                &&& (*final(select)).a_enabled == (*select).a_enabled
                &&& (*final(select)).b_enabled == (*select).b_enabled
            },
        forall|select: &mut Select2Guarded| #[trigger]
            call_ensures(Select2Guarded::disable_a, (select,), ())
                ==> !(*final(select)).a_enabled
                && (*final(select)).b_enabled == (*select).b_enabled
                && (*final(select)).first_a == (*select).first_a,
        forall|select: &mut Select2Guarded| #[trigger]
            call_ensures(Select2Guarded::disable_b, (select,), ())
                ==> !(*final(select)).b_enabled
                && (*final(select)).a_enabled == (*select).a_enabled
                && (*final(select)).first_a == (*select).first_a,
        forall|a: bool, b: bool, biased: bool, seed: &mut SelectSeed, select: Select2Guarded|
            #[trigger]
            call_ensures(Select2Guarded::new, (a, b, biased, seed), select) ==> select.a_enabled
                == a && select.b_enabled == b && select.randomize == !biased && (biased
                ==> select.first_a && (*final(seed)).seed == (*seed).seed),
{
    assert(forall|seen: Option<Poll<A>>| seen is Some && !super::ready(seen) ==> #[trigger] seen->0
        == Poll::<A>::Pending);
    assert(forall|seen: Option<Poll<B>>| seen is Some && !super::ready(seen) ==> #[trigger] seen->0
        == Poll::<B>::Pending);
}

/// A race gives the value of whoever won. A task that yields waits once, and goes on then.
pub proof fn law_races_and_yields<T>()
    ensures
        forall|winner: Either<T, T>, value: T| #[trigger]
            call_ensures(race::<T>, (winner,), value) ==> (winner is Left ==> value
                == winner->Left_0) && (winner is Right ==> value == winner->Right_0),
        forall|future: YieldNow| #[trigger]
            call_ensures(yield_now, (), future) ==> !future.yielded,
        forall|future: &mut YieldNow, poll: Poll<()>| #[trigger]
            call_ensures(YieldNow::poll, (future,), poll) ==> (*final(future)).yielded && (
            poll is Ready <==> (*future).yielded),
{
}

/// A set holds what was put into it under a number of its own, and hands it out when it was
/// woken. A set that was emptied hands out everything that it held.
pub proof fn law_sets_hold_what_was_put_into_them<F>()
    ensures
        forall|set: &mut FuturesUnordered<F>, future: F, id: u64| #[trigger]
            call_ensures(FuturesUnordered::<F>::push, (set, future), id) && (*set)@.next_id
                < u64::MAX ==> {
                &&& (*final(set))@.members.contains_key(id) && (*final(set))@.members[id] == future
                &&& (*final(set))@.next_id > id && id == (*set)@.next_id
                &&& (*final(set))@.ready == (*set)@.ready + seq![id]
                &&& forall|other: u64|
                    #![trigger (*final(set))@.members.contains_key(other)]
                    other != id ==> (*final(set))@.members.contains_key(other)
                        == (*set)@.members.contains_key(other) && (*final(set))@.members[other]
                        == (*set)@.members[other]
            },
        forall|set: &mut FuturesUnordered<F>, id: u64| #[trigger]
            call_ensures(FuturesUnordered::<F>::wake, (set, id), ()) ==> (*final(set))@.ready
                == (*set)@.ready + seq![id] && (*final(set))@.members == (*set)@.members,
        forall|set: &mut FuturesUnordered<F>, id: u64, future: F| #[trigger]
            call_ensures(FuturesUnordered::<F>::put_back, (set, id, future), ())
                ==> (*final(set))@.members.contains_key(id)
                && (*final(set))@.members[id] == future && (*final(set))@.ready == (*set)@.ready,
        forall|set: &mut FuturesUnordered<F>, next: Next<F>| #[trigger]
            call_ensures(FuturesUnordered::<F>::next_member, (set,), next) ==> {
                &&& next is Finished ==> (*set)@.members.len() == 0
                &&& next is Pending ==> (*set)@.members.len() != 0
                &&& next is Member ==> (*set)@.members.contains_key(next->Member_0)
                    && next->Member_1 == (*set)@.members[next->Member_0]
                        && !(*final(set))@.members.contains_key(next->Member_0)
                        && (*set)@.ready.contains(next->Member_0)
            },
        forall|set: FuturesUnordered<F>| #[trigger]
            call_ensures(FuturesUnordered::<F>::new, (), set)
                ==> set@.members.dom() =~= Set::empty()
                && set@.ready.len() == 0 && set@.next_id == 0,
        forall|set: FuturesUnordered<F>, len: usize| #[trigger]
            call_ensures(FuturesUnordered::<F>::len, (&set,), len) ==> len == set@.members.len(),
        forall|set: FuturesUnordered<F>, none: bool| #[trigger]
            call_ensures(FuturesUnordered::<F>::is_empty, (&set,), none) ==> (none
                <==> set@.members.len() == 0),
        forall|set: &mut FuturesUnordered<F>| #[trigger]
            call_ensures(FuturesUnordered::<F>::clear, (set,), ())
                ==> (*final(set))@.members.dom() =~= Set::empty()
                && (*final(set))@.ready.len() == 0,
        forall|set: &mut FuturesUnordered<F>, members: Vec<F>| #[trigger]
            call_ensures(FuturesUnordered::<F>::take_all, (set,), members)
                ==> (*final(set))@.members.dom() =~= Set::empty()
                && (*final(set))@.ready.len() == 0,
        forall|set: &mut FuturesUnordered<F>, members: Vec<F>, id: u64|
            #![trigger call_ensures(FuturesUnordered::<F>::take_all, (set,), members), (*set)@.members.contains_key(id)]
            call_ensures(FuturesUnordered::<F>::take_all, (set,), members)
                && (*set)@.members.contains_key(id) ==> members@.contains((*set)@.members[id]),
{
    assert forall|set: &mut FuturesUnordered<F>, future: F, id: u64| #[trigger]
        call_ensures(FuturesUnordered::<F>::push, (set, future), id) && (*set)@.next_id
            < u64::MAX implies (*final(set))@.ready == (*set)@.ready + seq![id] by {
        assert((*set)@.ready.push(id) =~= (*set)@.ready + seq![id]);
    }
    assert forall|set: &mut FuturesUnordered<F>, id: u64| #[trigger]
        call_ensures(FuturesUnordered::<F>::wake, (set, id), ()) implies (*final(set))@.ready
        == (*set)@.ready + seq![id] && (*final(set))@.members == (*set)@.members by {
        assert((*set)@.ready.push(id) =~= (*set)@.ready + seq![id]);
    }
    assert forall|set: &mut FuturesUnordered<F>, members: Vec<F>, id: u64|
        #![trigger call_ensures(FuturesUnordered::<F>::take_all, (set,), members), (*set)@.members.contains_key(id)]
        call_ensures(FuturesUnordered::<F>::take_all, (set,), members)
            && (*set)@.members.contains_key(id) implies members@.contains(
        (*set)@.members[id],
    ) by {
        let ids = choose|ids: Seq<u64>|
            ids.no_duplicates() && ids.to_set() == (*set)@.members.dom() && members@
                == #[trigger] super::unordered::members_of((*set)@.members, ids);
        assert(ids.to_set().contains(id));
        let k = choose|k: int| 0 <= k < ids.len() && ids[k] == id;
        assert(members@[k] == (*set)@.members[id]);
    }
}

/// A set of tasks is a set of the handles of the tasks.
pub proof fn law_join_sets_hold_their_handles<H>()
    ensures
        forall|set: &mut JoinSet<H>, handle: H, id: u64| #[trigger]
            call_ensures(JoinSet::<H>::spawn, (set, handle), id) && (*set)@.next_id < u64::MAX
                ==> (*final(set))@.members.contains_key(id) && (*final(set))@.members[id] == handle
                && id == (*set)@.next_id && (*final(set))@.next_id == id + 1
                    && (*final(set))@.ready == (*set)@.ready.push(id),
        forall|set: &mut JoinSet<H>, next: Next<H>| #[trigger]
            call_ensures(JoinSet::<H>::join_next, (set,), next) ==> {
                &&& next is Finished ==> (*set)@.members.len() == 0
                &&& next is Pending ==> (*set)@.members.len() != 0
                &&& next is Member ==> (*set)@.members.contains_key(next->Member_0)
                    && next->Member_1 == (*set)@.members[next->Member_0]
                        && !(*final(set))@.members.contains_key(next->Member_0)
                        && (*set)@.ready.contains(next->Member_0)
            },
        forall|set: JoinSet<H>| #[trigger]
            call_ensures(JoinSet::<H>::new, (), set) ==> set@.members.dom() =~= Set::empty()
                && set@.ready.len() == 0 && set@.next_id == 0,
        forall|set: JoinSet<H>, len: usize| #[trigger]
            call_ensures(JoinSet::<H>::len, (&set,), len) ==> len == set@.members.len(),
        forall|set: JoinSet<H>, none: bool| #[trigger]
            call_ensures(JoinSet::<H>::is_empty, (&set,), none) ==> (none <==> set@.members.len()
                == 0),
        forall|set: &mut JoinSet<H>, handles: Vec<H>| #[trigger]
            call_ensures(JoinSet::<H>::abort_all, (set,), handles)
                ==> (*final(set))@.members.dom() =~= Set::empty(),
        forall|set: &mut JoinSet<H>, handles: Vec<H>, id: u64|
            #![trigger call_ensures(JoinSet::<H>::abort_all, (set,), handles), (*set)@.members.contains_key(id)]
            call_ensures(JoinSet::<H>::abort_all, (set,), handles)
                && (*set)@.members.contains_key(id) ==> handles@.contains((*set)@.members[id]),
{
    assert forall|set: &mut JoinSet<H>, handles: Vec<H>, id: u64|
        #![trigger call_ensures(JoinSet::<H>::abort_all, (set,), handles), (*set)@.members.contains_key(id)]
        call_ensures(JoinSet::<H>::abort_all, (set,), handles) && (*set)@.members.contains_key(
            id,
        ) implies handles@.contains((*set)@.members[id]) by {
        let ids = choose|ids: Seq<u64>|
            ids.no_duplicates() && ids.to_set() == (*set)@.members.dom() && handles@
                == #[trigger] super::unordered::members_of((*set)@.members, ids);
        assert(ids.to_set().contains(id));
        let k = choose|k: int| 0 <= k < ids.len() && ids[k] == id;
        assert(handles@[k] == (*set)@.members[id]);
    }
}

} // verus!
