//! What joins and selects come to, whatever their futures bring.

use super::unordered::{stale, stepped, Next, UnorderedState};
use super::{
    failed, failure, first_goes, join2_round, next_seed, output_after, ready, select_round,
    try_join2_round, try_join3_round, turn, value_after, TryJoin2, TryJoin3,
};
use crate::poll::Poll;
use vstd::prelude::*;

verus! {

/// A future's first output is kept: a later poll changes nothing of it, and one that brings
/// nothing adds nothing.
pub proof fn law_the_first_output_is_kept<T, E>(
    before: Option<T>,
    seen: Option<Poll<T>>,
    tried: Option<Poll<Result<T, E>>>,
)
    ensures
        before is Some ==> output_after(before, seen) == before,
        before is None ==> output_after(before, seen) == (match seen {
            Some(Poll::Ready(value)) => Some(value),
            _ => None,
        }),
        before is Some ==> value_after(before, tried) == before,
        before is None ==> value_after(before, tried) == (match tried {
            Some(Poll::Ready(Ok(value))) => Some(value),
            _ => None,
        }),
        failed(tried) <==> tried is Some && tried->0 is Ready && tried->0->Ready_0 is Err,
        failed(tried) ==> failure(tried) == tried->0->Ready_0->Err_0,
{
}

/// A join is ready exactly when both outputs are there, gives each in its place, and keeps
/// what it has until then.
pub proof fn law_joins_wait_for_both<A, B>(a: Option<A>, b: Option<B>)
    ensures
        ({
            let (poll, after) = join2_round(a, b);
            &&& poll is Ready <==> a is Some && b is Some
            &&& poll is Ready ==> poll->Ready_0.0 == a->0 && poll->Ready_0.1 == b->0
            &&& poll is Pending ==> after.a_output == a && after.b_output == b
            &&& poll is Ready ==> after.a_output is None && after.b_output is None
        }),
{
}

/// A fallible join gives the first error, in the order of its futures, and where there is
/// none is ready exactly when both values are there. What it has is kept.
pub proof fn law_fallible_joins_give_the_first_error<A, B, E>(
    before: TryJoin2<A, B>,
    a: Option<Poll<Result<A, E>>>,
    b: Option<Poll<Result<B, E>>>,
)
    ensures
        ({
            let (poll, after) = try_join2_round(before, a, b);
            let a_fails = a is Some && a->0 is Ready && a->0->Ready_0 is Err;
            let b_fails = b is Some && b->0 is Ready && b->0->Ready_0 is Err;
            let x = value_after(before.a_output, a);
            let y = value_after(before.b_output, b);
            &&& a_fails ==> poll is Ready && poll->Ready_0 is Err && poll->Ready_0->Err_0
                == a->0->Ready_0->Err_0
            &&& !a_fails && b_fails ==> poll is Ready && poll->Ready_0 is Err
                && poll->Ready_0->Err_0 == b->0->Ready_0->Err_0
            &&& !a_fails && !b_fails ==> (poll is Ready <==> x is Some && y is Some)
            &&& !a_fails && !b_fails && poll is Ready ==> poll->Ready_0 is Ok
                && poll->Ready_0->Ok_0.0 == x->0 && poll->Ready_0->Ok_0.1 == y->0
            &&& poll is Pending ==> after.a_output == x && after.b_output == y
        }),
{
}

/// The same of three.
pub proof fn law_fallible_joins_of_three_give_the_first_error<A, B, C, E>(
    before: TryJoin3<A, B, C>,
    a: Option<Poll<Result<A, E>>>,
    b: Option<Poll<Result<B, E>>>,
    c: Option<Poll<Result<C, E>>>,
)
    ensures
        ({
            let (poll, after) = try_join3_round(before, a, b, c);
            let a_fails = a is Some && a->0 is Ready && a->0->Ready_0 is Err;
            let b_fails = b is Some && b->0 is Ready && b->0->Ready_0 is Err;
            let c_fails = c is Some && c->0 is Ready && c->0->Ready_0 is Err;
            let x = value_after(before.a_output, a);
            let y = value_after(before.b_output, b);
            let z = value_after(before.c_output, c);
            &&& a_fails ==> poll is Ready && poll->Ready_0 is Err && poll->Ready_0->Err_0
                == a->0->Ready_0->Err_0
            &&& !a_fails && b_fails ==> poll is Ready && poll->Ready_0 is Err
                && poll->Ready_0->Err_0 == b->0->Ready_0->Err_0
            &&& !a_fails && !b_fails && c_fails ==> poll is Ready && poll->Ready_0 is Err
                && poll->Ready_0->Err_0 == c->0->Ready_0->Err_0
            &&& !a_fails && !b_fails && !c_fails ==> (poll is Ready <==> x is Some && y is Some
                && z is Some)
            &&& !a_fails && !b_fails && !c_fails && poll is Ready ==> poll->Ready_0 is Ok
                && poll->Ready_0->Ok_0.0 == x->0 && poll->Ready_0->Ok_0.1 == y->0
                && poll->Ready_0->Ok_0.2 == z->0
            &&& poll is Pending ==> after.a_output == x && after.b_output == y && after.c_output
                == z
        }),
{
}

/// A select gives the value of the branch that brought one, and says which branch it was.
/// It waits where neither did.
pub proof fn law_selects_say_who_won<A, B>(a: Option<Poll<A>>, b: Option<Poll<B>>)
    ensures
        ({
            let poll = select_round(a, b);
            let a_ready = a is Some && a->0 is Ready;
            let b_ready = b is Some && b->0 is Ready;
            &&& ready(a) == a_ready && ready(b) == b_ready
            &&& poll is Pending <==> !a_ready && !b_ready
            &&& a_ready ==> poll is Ready && poll->Ready_0 is Left && poll->Ready_0->Left_0
                == a->0->Ready_0
            &&& !a_ready && b_ready ==> poll is Ready && poll->Ready_0 is Right
                && poll->Ready_0->Right_0 == b->0->Ready_0
        }),
{
}

/// Branches take turns in going first, unless the select is biased: then the first one
/// always does.
pub proof fn law_branches_take_turns(first_a: bool)
    ensures
        turn(first_a, true).0 == first_a,
        turn(first_a, true).1 != first_a,
        turn(turn(first_a, true).1, true).1 == first_a,
        turn(first_a, false).0,
        turn(turn(first_a, false).1, false).0,
{
}

/// The generator moves by three shifts, each of which can be undone: two states lead to the
/// same state only if they are the same. What goes first is the parity of the state.
pub proof fn law_the_generator_repeats_nothing_early(seed: u64, other: u64)
    ensures
        seed != other ==> next_seed(seed) != next_seed(other),
        next_seed(seed ^ other) == next_seed(seed) ^ next_seed(other),
        first_goes(seed) <==> seed % 2 == 0,
{
    let x = seed;
    let y = other;
    assert(({
        let a = (x ^ y) ^ ((x ^ y) << 13);
        let b = a ^ (a >> 7);
        b ^ (b << 17)
    }) == ({
        let a = x ^ (x << 13);
        let b = a ^ (a >> 7);
        b ^ (b << 17)
    }) ^ ({
        let a = y ^ (y << 13);
        let b = a ^ (a >> 7);
        b ^ (b << 17)
    })) by (bit_vector);
    super::law_select_seed_stays_alive(x ^ y);
    assert(x != y ==> x ^ y != 0) by (bit_vector);
    let p = next_seed(x);
    let q = next_seed(y);
    assert(p == q ==> p ^ q == 0) by (bit_vector);
    assert(x & 1 == 0 <==> x % 2 == 0) by (bit_vector);
}

/// The member that was woken first is polled next, and is out of the set meanwhile; wakes
/// of members that are gone are passed over. The set waits where no member was woken, and
/// is finished where it has none.
pub proof fn law_members_are_polled_in_the_order_of_their_wakes<F>(
    before: UnorderedState<F>,
    after: UnorderedState<F>,
    next: Next<F>,
)
    requires
        stepped(before, after, next),
    ensures
        next matches Next::Member(id, member) ==> {
            &&& before.members.contains_key(id) && before.members[id] == member
            &&& !after.members.contains_key(id)
            &&& forall|other: u64|
                other != id ==> #[trigger] after.members.contains_key(other)
                    == before.members.contains_key(other)
            &&& forall|other: u64|
                other != id && #[trigger] before.members.contains_key(other)
                    ==> after.members[other] == before.members[other]
            &&& exists|k: int|
                {
                    &&& 0 <= k < before.ready.len()
                    &&& #[trigger] before.ready[k] == id
                    &&& after.ready == before.ready.skip(k + 1)
                    &&& forall|i: int|
                        0 <= i < k ==> !before.members.contains_key(#[trigger] before.ready[i])
                }
        },
        !(next is Member) ==> {
            &&& after.members == before.members
            &&& after.ready.len() == 0
            &&& forall|i: int|
                0 <= i < before.ready.len() ==> !before.members.contains_key(
                    #[trigger] before.ready[i],
                )
            &&& next is Finished <==> before.members.len() == 0
        },
        after.next_id == before.next_id,
{
    lemma_front(before.members, before.ready);
    let k = stale(before.members, before.ready) as int;
    if k < before.ready.len() {
        assert(before.ready[k] == next->Member_0);
    }
}

proof fn lemma_front<F>(members: Map<u64, F>, ready: Seq<u64>)
    ensures
        stale(members, ready) <= ready.len(),
        forall|i: int|
            0 <= i < stale(members, ready) ==> !members.contains_key(#[trigger] ready[i]),
    decreases ready.len(),
{
    if ready.len() > 0 && !members.contains_key(ready[0]) {
        let rest = ready.drop_first();
        lemma_front(members, rest);
        assert forall|i: int| 0 <= i < stale(members, ready) implies !members.contains_key(
            #[trigger] ready[i],
        ) by {
            if i > 0 {
                assert(ready[i] == rest[i - 1]);
            }
        }
    }
}

} // verus!
