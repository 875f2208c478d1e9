//! What calls on cancellation tokens do: to the token, to those made from it, and to those
//! who wait.

use crate::cancellation::{
    position_of, subtree, subtrees, tokens_ok, wakes, CancellationToken, CancellationTokens,
    Cancelled, TokenModel,
};
use crate::poll::Poll;
use vstd::prelude::*;

verus! {

/// A token is made beside the others, which stay as they are. One that comes from no other
/// is not cancelled.
pub proof fn law_making_tokens()
    ensures
        forall|tokens: &mut CancellationTokens, token: CancellationToken| #[trigger]
            call_ensures(CancellationToken::new, (tokens,), token) ==> {
                let before = (*tokens)@;
                let after = (*final(tokens))@;
                &&& after.len() == before.len() + 1
                &&& token.number == before.len()
                &&& forall|n: int| 0 <= n < before.len() ==> #[trigger] after[n] == before[n]
                &&& !after[token.number as int].cancelled
                &&& after[token.number as int].parent is None
                &&& after[token.number as int].waiters.len() == 0
                &&& after[token.number as int].children.len() == 0
            },
        forall|tokens: CancellationTokens, token: CancellationToken, cancelled: bool| #[trigger]
            call_ensures(CancellationToken::is_cancelled, (&token, &tokens), cancelled)
                ==> cancelled == tokens@[token.number as int].cancelled,
        forall|token: CancellationToken, wait: Cancelled| #[trigger]
            call_ensures(CancellationToken::cancelled, (&token,), wait) ==> wait.token
                == token.number && wait.waiter_id is None,
{
}

/// A token that is made from another is cancelled exactly where that one is, and is its last
/// child where it is not. All other tokens stay as they are.
pub proof fn law_making_a_token_from_another()
    ensures
        forall|parent: CancellationToken, tokens: &mut CancellationTokens, token: CancellationToken|
            #[trigger]
            call_ensures(CancellationToken::child_token, (&parent, tokens), token) && parent.number
                < (*tokens)@.len() ==> {
                let before = (*tokens)@;
                let after = (*final(tokens))@;
                let p = parent.number as int;
                let made = after[token.number as int];
                &&& after.len() == before.len() + 1
                &&& token.number == before.len()
                &&& made.cancelled == before[p].cancelled
                &&& made.parent is Some && made.parent->0 == parent.number
                &&& made.waiters.len() == 0 && made.children.len() == 0
                &&& forall|n: int|
                    0 <= n < before.len() && n != p ==> #[trigger] after[n] == before[n]
                &&& after[p].cancelled == before[p].cancelled
                &&& after[p].waiters == before[p].waiters
                &&& before[p].cancelled ==> after[p].children == before[p].children
                &&& !before[p].cancelled ==> after[p].children == before[p].children + seq![
                    token.number,
                ]
            },
{
    assert forall|
        parent: CancellationToken,
        tokens: &mut CancellationTokens,
        token: CancellationToken,
    | #[trigger]
        call_ensures(CancellationToken::child_token, (&parent, tokens), token) && parent.number < (
        *tokens)@.len() implies {
        let before = (*tokens)@;
        let after = (*final(tokens))@;
        let p = parent.number as int;
        let made = after[token.number as int];
        &&& after.len() == before.len() + 1
        &&& token.number == before.len()
        &&& made.cancelled == before[p].cancelled
        &&& made.parent is Some && made.parent->0 == parent.number
        &&& made.waiters.len() == 0 && made.children.len() == 0
        &&& forall|n: int| 0 <= n < before.len() && n != p ==> #[trigger] after[n] == before[n]
        &&& after[p].cancelled == before[p].cancelled
        &&& after[p].waiters == before[p].waiters
        &&& before[p].cancelled ==> after[p].children == before[p].children
        &&& !before[p].cancelled ==> after[p].children == before[p].children + seq![token.number]
    } by {
        let children = (*tokens)@[parent.number as int].children;
        assert(children.push(token.number) =~= children + seq![token.number]);
    }
}

/// A token that is cancelled is so at once, with all that were made from it and are not; all
/// others stay as they are. No one waits any more for what is cancelled.
pub proof fn law_cancelling_a_token()
    ensures
        forall|token: CancellationToken, tokens: &mut CancellationTokens, woken: Vec<u64>, n: int|
            #![trigger call_ensures(CancellationToken::cancel, (&token, tokens), woken), (*final(tokens))@[n]]
            call_ensures(CancellationToken::cancel, (&token, tokens), woken) && token.number < (
            *tokens)@.len() && 0 <= n < (*tokens)@.len() ==> {
                let before = (*tokens)@;
                let after = (*final(tokens))@;
                let reached = subtree(before, token.number as int).contains(n);
                &&& after.len() == before.len()
                &&& n == token.number ==> reached
                &&& n <= usize::MAX && before[token.number as int].children.contains(n as usize)
                    && tokens_ok(before)
                    ==> reached
                &&& reached ==> after[n].cancelled && after[n].waiters.len() == 0
                    && after[n].children.len() == 0
                &&& !reached ==> after[n] == before[n]
            },
        forall|
            token: CancellationToken,
            tokens: &mut CancellationTokens,
            woken: Vec<u64>,
            n: int,
            i: int,
        |
            #![trigger call_ensures(CancellationToken::cancel, (&token, tokens), woken), (*tokens)@[n].waiters[i]]
            call_ensures(CancellationToken::cancel, (&token, tokens), woken) && tokens_ok(
                (*tokens)@,
            ) && subtree((*tokens)@, token.number as int).contains(n) && 0 <= n < (*tokens)@.len()
                && 0 <= i < (*tokens)@[n].waiters.len() ==> woken@.contains(
                (*tokens)@[n].waiters[i].1,
            ),
{
    assert forall|
        token: CancellationToken,
        tokens: &mut CancellationTokens,
        woken: Vec<u64>,
        n: int,
    |
        #![trigger call_ensures(CancellationToken::cancel, (&token, tokens), woken), (*final(tokens))@[n]]
        call_ensures(CancellationToken::cancel, (&token, tokens), woken) && token.number < (
        *tokens)@.len() && 0 <= n < (*tokens)@.len() implies {
        let before = (*tokens)@;
        let after = (*final(tokens))@;
        let reached = subtree(before, token.number as int).contains(n);
        &&& after.len() == before.len()
        &&& n == token.number ==> reached
        &&& n <= usize::MAX && before[token.number as int].children.contains(n as usize)
                    && tokens_ok(before)
            ==> reached
        &&& reached ==> after[n].cancelled && after[n].waiters.len() == 0
            && after[n].children.len() == 0
        &&& !reached ==> after[n] == before[n]
    } by {
        let before = (*tokens)@;
        let id = token.number as int;
        assert(subtree(before, id)[0] == id);
        if n <= usize::MAX && before[id].children.contains(n as usize) && tokens_ok(before) {
            let chain = seq![token.number, n as usize];
            assert(crate::cancellation::lineage(before, chain));
            crate::cancellation::law_cancellation_reaches_descendants(before, chain);
        }
    }
    assert forall|
        token: CancellationToken,
        tokens: &mut CancellationTokens,
        woken: Vec<u64>,
        n: int,
        i: int,
    |
        #![trigger call_ensures(CancellationToken::cancel, (&token, tokens), woken), (*tokens)@[n].waiters[i]]
        call_ensures(CancellationToken::cancel, (&token, tokens), woken) && tokens_ok((*tokens)@)
            && subtree((*tokens)@, token.number as int).contains(n) && 0 <= n < (*tokens)@.len()
            && 0 <= i < (*tokens)@[n].waiters.len() implies woken@.contains(
        (*tokens)@[n].waiters[i].1,
    ) by {
        crate::cancellation::law_every_waiter_is_woken(
            (*tokens)@,
            token.number as int,
            n,
            i,
        );
    }
}

/// A token comes before all that were made from it, and these come child by child, each with
/// its own.
pub proof fn law_tokens_come_before_their_children(tokens: Seq<TokenModel>, id: int)
    requires
        tokens_ok(tokens),
        0 <= id < tokens.len(),
    ensures
        subtree(tokens, id).len() > 0,
        subtree(tokens, id)[0] == id,
        tokens[id].children.len() == 0 ==> subtree(tokens, id).len() == 1,
        tokens[id].children.len() == 1 ==> subtree(tokens, id).skip(1) == subtree(
            tokens,
            tokens[id].children[0] as int,
        ),
        tokens[id].children.len() == 2 ==> subtree(tokens, id).skip(1) == subtree(
            tokens,
            tokens[id].children[0] as int,
        ) + subtree(tokens, tokens[id].children[1] as int),
        tokens[id].children.len() > 0 ==> ({
            let last = subtree(tokens, tokens[id].children.last() as int);
            let all = subtree(tokens, id);
            &&& all.len() > last.len()
            &&& all.skip(all.len() - last.len()) == last
        }),
{
    let kids = tokens[id].children;
    let all = subtree(tokens, id);
    assert(all.skip(1) =~= subtrees(tokens, id, kids));
    if kids.len() > 0 {
        assert(id < kids.last() < tokens.len());
        let last = subtree(tokens, kids.last() as int);
        let front = subtrees(tokens, id, kids.drop_last());
        assert(subtrees(tokens, id, kids) == front + last);
        assert(all.skip(all.len() - last.len()) =~= last);
        if kids.len() == 1 {
            assert(front =~= Seq::empty());
            assert(all.skip(1) =~= last);
        }
        if kids.len() == 2 {
            let one = kids.drop_last();
            assert(one.last() == kids[0]);
            assert(id < kids[0] < tokens.len());
            assert(subtrees(tokens, id, one.drop_last()) =~= Seq::empty());
            assert(front =~= subtree(tokens, kids[0] as int));
        }
    }
}

/// Those who wait for a token are woken in the order in which they began to, and each once;
/// those who wait for one token before those of the next one.
pub proof fn law_waiters_are_woken_in_order(tokens: Seq<TokenModel>, ids: Seq<int>, id: int)
    ensures
        wakes(tokens, Seq::empty()).len() == 0,
        wakes(tokens, ids.push(id)).len() == wakes(tokens, ids).len()
            + tokens[id].waiters.len(),
        wakes(tokens, ids.push(id)).take(wakes(tokens, ids).len() as int) == wakes(tokens, ids),
        forall|i: int|
            0 <= i < tokens[id].waiters.len() ==> wakes(tokens, ids.push(id))[wakes(
                tokens,
                ids,
            ).len() + i] == (#[trigger] tokens[id].waiters[i]).1,
{
    assert(ids.push(id).drop_last() =~= ids);
    assert(wakes(tokens, ids.push(id)).take(wakes(tokens, ids).len() as int) =~= wakes(
        tokens,
        ids,
    ));
}

/// A token that is no longer used tells no one and has no one to tell, and is cancelled only
/// if it was; all others stay as they are.
pub proof fn law_dropping_a_token()
    ensures
        forall|token: CancellationToken, tokens: &mut CancellationTokens| #[trigger]
            call_ensures(CancellationToken::drop_token, (token, tokens), ()) && token.number < (
            *tokens)@.len() ==> {
                let before = (*tokens)@;
                let after = (*final(tokens))@;
                let t = token.number as int;
                &&& after.len() == before.len()
                &&& after[t].cancelled == before[t].cancelled
                &&& after[t].waiters.len() == 0 && after[t].children.len() == 0
                &&& forall|n: int|
                    0 <= n < before.len() && n != t ==> #[trigger] after[n] == before[n]
            },
{
}

/// Where an entry is, it is the first of its number.
pub proof fn law_entries_are_found(waiters: Seq<(u64, u64)>, id: u64)
    ensures
        match position_of(waiters, id) {
            Some(at) => {
                &&& 0 <= at < waiters.len()
                &&& waiters[at].0 == id
                &&& forall|i: int| 0 <= i < at ==> (#[trigger] waiters[i]).0 != id
            },
            None => forall|i: int| 0 <= i < waiters.len() ==> (#[trigger] waiters[i]).0 != id,
        },
    decreases waiters.len(),
{
    if waiters.len() > 0 {
        let rest = waiters.drop_last();
        law_entries_are_found(rest, id);
        assert forall|i: int| 0 <= i < rest.len() implies (#[trigger] waiters[i]) == rest[i] by {}
        if position_of(rest, id) is None {
            assert forall|i: int| 0 <= i < rest.len() implies (#[trigger] waiters[i]).0 != id by {
                assert(rest[i].0 != id);
            }
        }
    }
}

/// A wait is over exactly where its token is cancelled. Otherwise the task has one entry,
/// with the waker of its last poll; no other entry, and no other token, is touched.
pub proof fn law_waiting_for_a_cancellation()
    ensures
        forall|wait: &mut Cancelled, tokens: &mut CancellationTokens, waker: u64, poll: Poll<()>|
            #[trigger]
            call_ensures(Cancelled::poll, (wait, tokens, waker), poll) && (*wait).token < (
            *tokens)@.len() && (*tokens)@[(*wait).token as int].next_waiter < u64::MAX ==> {
                let before = (*tokens)@;
                let after = (*final(tokens))@;
                let t = (*wait).token as int;
                let id = (*final(wait)).waiter_id->0;
                let entered = (*wait).waiter_id is Some && position_of(
                    before[t].waiters,
                    (*wait).waiter_id->0,
                ) is Some;
                &&& poll is Ready <==> before[t].cancelled
                &&& poll is Ready ==> after == before
                &&& poll is Pending ==> (*final(wait)).waiter_id is Some && position_of(
                    after[t].waiters,
                    id,
                ) is Some
                &&& poll is Pending && entered ==> {
                    let at = position_of(before[t].waiters, id)->0;
                    &&& id == (*wait).waiter_id->0
                    &&& after[t].waiters.len() == before[t].waiters.len()
                    &&& after[t].waiters[at] == (id, waker)
                    &&& forall|i: int|
                        0 <= i < before[t].waiters.len() && i != at
                            ==> #[trigger] after[t].waiters[i] == before[t].waiters[i]
                }
                &&& poll is Pending && !entered ==> {
                    &&& id == before[t].next_waiter
                    &&& after[t].next_waiter == before[t].next_waiter + 1
                    &&& after[t].waiters == before[t].waiters + seq![(id, waker)]
                }
                &&& after[t].cancelled == before[t].cancelled
                &&& forall|n: int|
                    0 <= n < before.len() && n != t ==> #[trigger] after[n] == before[n]
            },
{
    assert forall|wait: &mut Cancelled, tokens: &mut CancellationTokens, waker: u64, poll: Poll<()>|
        #[trigger]
        call_ensures(Cancelled::poll, (wait, tokens, waker), poll) && (*wait).token < (
        *tokens)@.len() && (*tokens)@[(*wait).token as int].next_waiter < u64::MAX implies {
        let before = (*tokens)@;
        let after = (*final(tokens))@;
        let t = (*wait).token as int;
        let id = (*final(wait)).waiter_id->0;
        let entered = (*wait).waiter_id is Some && position_of(
            before[t].waiters,
            (*wait).waiter_id->0,
        ) is Some;
        &&& poll is Ready <==> before[t].cancelled
        &&& poll is Ready ==> after == before
        &&& poll is Pending ==> (*final(wait)).waiter_id is Some && position_of(
            after[t].waiters,
            id,
        ) is Some
        &&& poll is Pending && entered ==> {
            let at = position_of(before[t].waiters, id)->0;
            &&& id == (*wait).waiter_id->0
            &&& after[t].waiters.len() == before[t].waiters.len()
            &&& after[t].waiters[at] == (id, waker)
            &&& forall|i: int|
                0 <= i < before[t].waiters.len() && i != at ==> #[trigger] after[t].waiters[i]
                    == before[t].waiters[i]
        }
        &&& poll is Pending && !entered ==> {
            &&& id == before[t].next_waiter
            &&& after[t].next_waiter == before[t].next_waiter + 1
            &&& after[t].waiters == before[t].waiters + seq![(id, waker)]
        }
        &&& after[t].cancelled == before[t].cancelled
        &&& forall|n: int| 0 <= n < before.len() && n != t ==> #[trigger] after[n] == before[n]
    } by {
        let before = (*tokens)@;
        let after = (*final(tokens))@;
        let t = (*wait).token as int;
        let id = (*final(wait)).waiter_id->0;
        let waiters = before[t].waiters;
        if poll is Pending {
            law_entries_are_found(waiters, (*wait).waiter_id->0);
            law_entries_are_found(after[t].waiters, id);
            if (*wait).waiter_id is Some && position_of(waiters, (*wait).waiter_id->0) is Some {
                let at = position_of(waiters, (*wait).waiter_id->0)->0;
                assert(after[t].waiters[at].0 == id);
            } else {
                assert(after[t].waiters[waiters.len() as int].0 == id);
                assert(waiters.push((id, waker)) =~= waiters + seq![(id, waker)]);
            }
        }
    }
}

/// Whoever gives up has no entry any more; the entries of all others stay, with the last one
/// in the place of the one that has gone.
pub proof fn law_giving_up_a_wait()
    ensures
        forall|wait: &mut Cancelled, tokens: &mut CancellationTokens| #[trigger]
            call_ensures(Cancelled::detach, (wait, tokens), ()) && (*wait).token < (
            *tokens)@.len() ==> {
                let before = (*tokens)@;
                let after = (*final(tokens))@;
                let t = (*wait).token as int;
                let at = position_of(before[t].waiters, (*wait).waiter_id->0);
                let there = (*wait).waiter_id is Some && at is Some;
                let last = before[t].waiters.len() - 1;
                &&& (*final(wait)).waiter_id is None
                &&& !there ==> after == before
                &&& there ==> {
                    &&& after[t].waiters.len() + 1 == before[t].waiters.len()
                    &&& forall|i: int|
                        0 <= i < last ==> #[trigger] after[t].waiters[i] == (if i == at->0 {
                            before[t].waiters[last]
                        } else {
                            before[t].waiters[i]
                        })
                }
                &&& after[t].cancelled == before[t].cancelled && after[t].children
                    == before[t].children
                &&& forall|n: int|
                    0 <= n < before.len() && n != t ==> #[trigger] after[n] == before[n]
            },
{
    assert forall|wait: &mut Cancelled, tokens: &mut CancellationTokens| #[trigger]
        call_ensures(Cancelled::detach, (wait, tokens), ()) && (*wait).token < (
        *tokens)@.len() implies {
        let before = (*tokens)@;
        let after = (*final(tokens))@;
        let t = (*wait).token as int;
        let at = position_of(before[t].waiters, (*wait).waiter_id->0);
        let there = (*wait).waiter_id is Some && at is Some;
        let last = before[t].waiters.len() - 1;
        &&& (*final(wait)).waiter_id is None
        &&& !there ==> after == before
        &&& there ==> {
            &&& after[t].waiters.len() + 1 == before[t].waiters.len()
            &&& forall|i: int|
                0 <= i < last ==> #[trigger] after[t].waiters[i] == (if i == at->0 {
                    before[t].waiters[last]
                } else {
                    before[t].waiters[i]
                })
        }
        &&& after[t].cancelled == before[t].cancelled && after[t].children == before[t].children
        &&& forall|n: int| 0 <= n < before.len() && n != t ==> #[trigger] after[n] == before[n]
    } by {
        law_entries_are_found(
            (*tokens)@[(*wait).token as int].waiters,
            (*wait).waiter_id->0,
        );
    }
}

} // verus!
