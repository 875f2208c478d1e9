//! Cancellation: tokens that are cancelled together with their descendants.

use crate::poll::Poll;
use vstd::prelude::*;

verus! {

// ---------------------------------------------------------------------------
// Tokens as values
// ---------------------------------------------------------------------------

/// A token as a value: whether it is cancelled, who waits for that, and the tokens that
/// were made from it.
#[verifier::ext_equal]
pub struct TokenModel {
    pub cancelled: bool,
    pub waiters: Seq<(u64, u64)>,
    pub next_waiter: u64,
    pub children: Seq<usize>,
    pub parent: Option<usize>,
}

impl TokenModel {
    /// The token once it has been cancelled: no one waits, and no one is to be told.
    pub open spec fn cleared(self) -> TokenModel {
        TokenModel { cancelled: true, waiters: Seq::empty(), children: Seq::empty(), ..self }
    }
}

/// Whether a token was made from the one of that number.
pub open spec fn child_of(token: TokenModel, parent: int) -> bool {
    token.parent matches Some(number) && number == parent
}

/// A new token.
pub open spec fn fresh_token(cancelled: bool, parent: Option<usize>) -> TokenModel {
    TokenModel {
        cancelled,
        waiters: Seq::empty(),
        next_waiter: 0,
        children: Seq::empty(),
        parent,
    }
}

/// A token's children come after it, know it as their parent, and are told apart. A
/// cancelled token has no one left to tell. Waiters are told apart.
pub open spec fn tokens_ok(tokens: Seq<TokenModel>) -> bool {
    &&& forall|p: int, i: int|
        0 <= p < tokens.len() && 0 <= i < tokens[p].children.len() ==> {
            let c = #[trigger] tokens[p].children[i];
            p < c < tokens.len() && child_of(tokens[c as int], p)
        }
    &&& forall|p: int, i: int, j: int|
        0 <= p < tokens.len() && 0 <= i < j < tokens[p].children.len()
            ==> #[trigger] tokens[p].children[i] != #[trigger] tokens[p].children[j]
    &&& forall|p: int|
        0 <= p < tokens.len() && (#[trigger] tokens[p]).cancelled ==> tokens[p].children.len() == 0
            && tokens[p].waiters.len() == 0
    &&& forall|p: int, i: int|
        0 <= p < tokens.len() && 0 <= i < tokens[p].waiters.len() ==> (
        #[trigger] tokens[p].waiters[i]).0 < tokens[p].next_waiter
    &&& forall|p: int, i: int, j: int|
        0 <= p < tokens.len() && 0 <= i < j < tokens[p].waiters.len() ==> (
        #[trigger] tokens[p].waiters[i]).0 != (#[trigger] tokens[p].waiters[j]).0
}

/// A token and all that descend from it, each before its own descendants.
pub open spec fn subtree(tokens: Seq<TokenModel>, id: int) -> Seq<int>
    decreases tokens.len() - id, 1int, 0int,
{
    if 0 <= id < tokens.len() {
        seq![id] + subtrees(tokens, id, tokens[id].children)
    } else {
        Seq::empty()
    }
}

/// The tokens `kids`, all of them after `bound`, each with its descendants.
pub open spec fn subtrees(tokens: Seq<TokenModel>, bound: int, kids: Seq<usize>) -> Seq<int>
    decreases tokens.len() - bound, 0int, kids.len(),
{
    if kids.len() == 0 {
        Seq::empty()
    } else {
        subtrees(tokens, bound, kids.drop_last()) + if bound < kids.last() < tokens.len() {
            subtree(tokens, kids.last() as int)
        } else {
            Seq::empty()
        }
    }
}

/// The tokens after those of the list were cancelled.
pub open spec fn after_cancel(tokens: Seq<TokenModel>, ids: Seq<int>) -> Seq<TokenModel> {
    Seq::new(
        tokens.len(),
        |n: int|
            if ids.contains(n) {
                tokens[n].cleared()
            } else {
                tokens[n]
            },
    )
}

/// Whom to wake of a token's waiters, in order.
pub open spec fn wakers(waiters: Seq<(u64, u64)>) -> Seq<u64> {
    waiters.map_values(|waiter: (u64, u64)| waiter.1)
}

/// Whom to wake when the tokens of the list are cancelled, in order.
pub open spec fn wakes(tokens: Seq<TokenModel>, ids: Seq<int>) -> Seq<u64>
    decreases ids.len(),
{
    if ids.len() == 0 {
        Seq::empty()
    } else {
        wakes(tokens, ids.drop_last()) + wakers(tokens[ids.last()].waiters)
    }
}

/// Whether a token was made from another, directly or not, or is the same.
pub open spec fn descends(tokens: Seq<TokenModel>, n: int, from: int) -> bool
    decreases n,
{
    n == from || (0 <= n < tokens.len() && (tokens[n].parent matches Some(p) && p < n && descends(
        tokens,
        p as int,
        from,
    )))
}

// ---------------------------------------------------------------------------
// Facts about descendants
// ---------------------------------------------------------------------------

/// A token comes after those that it descends from.
proof fn lemma_descends_after(tokens: Seq<TokenModel>, n: int, from: int)
    requires
        descends(tokens, n, from),
    ensures
        from <= n,
    decreases n,
{
    if n != from {
        lemma_descends_after(tokens, tokens[n].parent->Some_0 as int, from);
    }
}

/// Who descends from a child descends from the parent.
proof fn lemma_descends_up(tokens: Seq<TokenModel>, n: int, child: int, parent: int)
    requires
        descends(tokens, n, child),
        0 <= parent < child < tokens.len(),
        child_of(tokens[child], parent),
    ensures
        descends(tokens, n, parent),
    decreases n,
{
    if n == child {
        assert(descends(tokens, parent, parent));
    } else {
        lemma_descends_up(tokens, tokens[n].parent->Some_0 as int, child, parent);
    }
}

/// No token descends from two different siblings.
proof fn lemma_siblings_apart(tokens: Seq<TokenModel>, n: int, a: int, b: int, parent: int)
    requires
        descends(tokens, n, a),
        descends(tokens, n, b),
        0 <= parent < a < tokens.len(),
        parent < b < tokens.len(),
        child_of(tokens[a], parent),
        child_of(tokens[b], parent),
    ensures
        a == b,
    decreases n,
{
    if n == a && n == b {
    } else if n == a {
        lemma_descends_after(tokens, parent, b);
    } else if n == b {
        lemma_descends_after(tokens, parent, a);
    } else {
        lemma_siblings_apart(tokens, tokens[n].parent->Some_0 as int, a, b, parent);
    }
}

/// What is in a subtree descends from its root.
proof fn lemma_subtree_descends(tokens: Seq<TokenModel>, id: int, n: int)
    requires
        tokens_ok(tokens),
        subtree(tokens, id).contains(n),
    ensures
        0 <= n < tokens.len(),
        descends(tokens, n, id),
    decreases tokens.len() - id, 1int, 0int,
{
    let kids = tokens[id].children;
    let rest = subtrees(tokens, id, kids);
    let i = choose|i: int| 0 <= i < subtree(tokens, id).len() && subtree(tokens, id)[i] == n;
    if i > 0 {
        assert(rest[i - 1] == n);
        assert(rest.contains(n));
        assert forall|j: int| 0 <= j < kids.len() implies id < #[trigger] kids[j] < tokens.len()
            && child_of(tokens[kids[j] as int], id) by {}
        let k = lemma_subtrees_descend(tokens, id, kids, n);
        lemma_descends_up(tokens, n, kids[k] as int, id);
    }
}

/// What is in one of several subtrees descends from the root of one.
proof fn lemma_subtrees_descend(
    tokens: Seq<TokenModel>,
    bound: int,
    kids: Seq<usize>,
    n: int,
) -> (k: int)
    requires
        tokens_ok(tokens),
        0 <= bound < tokens.len(),
        forall|j: int|
            0 <= j < kids.len() ==> bound < #[trigger] kids[j] < tokens.len()
                && child_of(tokens[kids[j] as int], bound),
        subtrees(tokens, bound, kids).contains(n),
    ensures
        0 <= k < kids.len(),
        0 <= n < tokens.len(),
        descends(tokens, n, kids[k] as int),
    decreases tokens.len() - bound, 0int, kids.len(),
{
    if kids.len() == 0 {
        assert(false);
        0
    } else {
        let front = subtrees(tokens, bound, kids.drop_last());
        let last = subtree(tokens, kids.last() as int);
        let i = choose|i: int|
            0 <= i < subtrees(tokens, bound, kids).len() && subtrees(tokens, bound, kids)[i] == n;
        if i < front.len() {
            assert(front[i] == n);
            let rest = kids.drop_last();
            assert forall|j: int| 0 <= j < rest.len() implies bound < #[trigger] rest[j]
                < tokens.len() && child_of(tokens[rest[j] as int], bound) by {
                assert(rest[j] == kids[j]);
            }
            let k = lemma_subtrees_descend(tokens, bound, rest, n);
            assert(rest[k] == kids[k]);
            k
        } else {
            assert(kids[kids.len() - 1] == kids.last());
            assert(last[i - front.len()] == n);
            lemma_subtree_descends(tokens, kids.last() as int, n);
            kids.len() - 1
        }
    }
}

/// Subtrees are the same where the children of all that is in them are.
proof fn lemma_subtree_agrees(a: Seq<TokenModel>, b: Seq<TokenModel>, id: int)
    requires
        a.len() == b.len(),
        forall|n: int| #[trigger]
            subtree(a, id).contains(n) && 0 <= n < a.len() ==> a[n].children == b[n].children,
    ensures
        subtree(a, id) == subtree(b, id),
    decreases a.len() - id, 1int, 0int,
{
    if 0 <= id < a.len() {
        let kids = a[id].children;
        assert(subtree(a, id)[0] == id);
        assert(subtree(a, id).contains(id));
        assert forall|n: int| #[trigger]
            subtrees(a, id, kids).contains(n) && 0 <= n < a.len() implies a[n].children
            == b[n].children by {
            let i = choose|i: int|
                0 <= i < subtrees(a, id, kids).len() && subtrees(a, id, kids)[i] == n;
            assert(subtree(a, id)[i + 1] == n);
            assert(subtree(a, id).contains(n));
        }
        lemma_subtrees_agree(a, b, id, kids);
    }
}

/// Several subtrees are the same where the children of all that is in them are.
proof fn lemma_subtrees_agree(
    a: Seq<TokenModel>,
    b: Seq<TokenModel>,
    bound: int,
    kids: Seq<usize>,
)
    requires
        a.len() == b.len(),
        forall|n: int| #[trigger]
            subtrees(a, bound, kids).contains(n) && 0 <= n < a.len() ==> a[n].children
                == b[n].children,
    ensures
        subtrees(a, bound, kids) == subtrees(b, bound, kids),
    decreases a.len() - bound, 0int, kids.len(),
{
    if kids.len() > 0 {
        let all = subtrees(a, bound, kids);
        let front = subtrees(a, bound, kids.drop_last());
        assert forall|n: int| #[trigger] front.contains(n) && 0 <= n < a.len() implies a[n].children
            == b[n].children by {
            let i = choose|i: int| 0 <= i < front.len() && front[i] == n;
            assert(all[i] == n);
            assert(all.contains(n));
        }
        lemma_subtrees_agree(a, b, bound, kids.drop_last());
        if bound < kids.last() < a.len() {
            let last = subtree(a, kids.last() as int);
            assert forall|n: int| #[trigger]
                last.contains(n) && 0 <= n < a.len() implies a[n].children == b[n].children by {
                let i = choose|i: int| 0 <= i < last.len() && last[i] == n;
                assert(all[front.len() + i] == n);
                assert(all.contains(n));
            }
            lemma_subtree_agrees(a, b, kids.last() as int);
        }
    }
}

/// The same are woken where the waiters are the same.
proof fn lemma_wakes_agree(a: Seq<TokenModel>, b: Seq<TokenModel>, ids: Seq<int>)
    requires
        forall|i: int| 0 <= i < ids.len() ==> a[#[trigger] ids[i]].waiters == b[ids[i]].waiters,
    ensures
        wakes(a, ids) == wakes(b, ids),
    decreases ids.len(),
{
    if ids.len() > 0 {
        let front = ids.drop_last();
        assert forall|i: int| 0 <= i < front.len() implies a[#[trigger] front[i]].waiters
            == b[front[i]].waiters by {
            assert(front[i] == ids[i]);
        }
        lemma_wakes_agree(a, b, front);
        assert(ids[ids.len() - 1] == ids.last());
    }
}

/// Those of one list are woken before those of the next.
proof fn lemma_wakes_both(tokens: Seq<TokenModel>, a: Seq<int>, b: Seq<int>)
    ensures
        wakes(tokens, a + b) == wakes(tokens, a) + wakes(tokens, b),
    decreases b.len(),
{
    if b.len() == 0 {
        assert(a + b =~= a);
        assert(wakes(tokens, a) + wakes(tokens, b) =~= wakes(tokens, a));
    } else {
        assert((a + b).drop_last() =~= a + b.drop_last());
        lemma_wakes_both(tokens, a, b.drop_last());
        let w = wakers(tokens[b.last()].waiters);
        assert((wakes(tokens, a) + wakes(tokens, b.drop_last())) + w =~= wakes(tokens, a) + (wakes(
            tokens,
            b.drop_last(),
        ) + w));
    }
}

/// Cancelling keeps tokens in order.
proof fn lemma_cancelled_ok(tokens: Seq<TokenModel>, ids: Seq<int>)
    requires
        tokens_ok(tokens),
    ensures
        tokens_ok(after_cancel(tokens, ids)),
{
    let after = after_cancel(tokens, ids);
    assert forall|p: int, i: int|
        0 <= p < after.len() && 0 <= i < after[p].children.len() implies {
        let c = #[trigger] after[p].children[i];
        p < c < after.len() && child_of(after[c as int], p)
    } by {
        assert(after[p] == tokens[p]);
        let c = tokens[p].children[i];
        assert(after[c as int].parent == tokens[c as int].parent);
    }
}

/// Cancelling one list and then another cancels both.
proof fn lemma_cancel_both(tokens: Seq<TokenModel>, a: Seq<int>, b: Seq<int>)
    ensures
        after_cancel(after_cancel(tokens, a), b) == after_cancel(tokens, a + b),
{
    let both = a + b;
    assert forall|n: int| #[trigger] both.contains(n) == (a.contains(n) || b.contains(n)) by {
        if a.contains(n) {
            let i = choose|i: int| 0 <= i < a.len() && a[i] == n;
            assert(both[i] == n);
        }
        if b.contains(n) {
            let i = choose|i: int| 0 <= i < b.len() && b[i] == n;
            assert(both[a.len() + i] == n);
        }
        if both.contains(n) {
            let i = choose|i: int| 0 <= i < both.len() && both[i] == n;
            if i < a.len() {
                assert(a[i] == n);
            } else {
                assert(b[i - a.len()] == n);
            }
        }
    }
    assert(after_cancel(after_cancel(tokens, a), b) =~= after_cancel(tokens, both));
}

// ---------------------------------------------------------------------------
// Laws
// ---------------------------------------------------------------------------

/// Whether a list of tokens leads from each one to one of its children.
pub open spec fn lineage(tokens: Seq<TokenModel>, chain: Seq<usize>) -> bool {
    &&& chain.len() > 0
    &&& forall|k: int| 0 <= k < chain.len() ==> (#[trigger] chain[k]) < tokens.len()
    &&& forall|k: int|
        0 <= k < chain.len() - 1 ==> tokens[(#[trigger] chain[k]) as int].children.contains(
            chain[k + 1],
        )
}

/// Cancelling a token cancels its children, their children, and so on.
pub proof fn law_cancellation_reaches_descendants(tokens: Seq<TokenModel>, chain: Seq<usize>)
    requires
        tokens_ok(tokens),
        lineage(tokens, chain),
    ensures
        subtree(tokens, chain[0] as int).contains(chain.last() as int),
        after_cancel(tokens, subtree(tokens, chain[0] as int))[chain.last() as int].cancelled,
    decreases chain.len(),
{
    let id = chain[0] as int;
    let n = chain.last() as int;
    if chain.len() == 1 {
        assert(subtree(tokens, id)[0] == id);
    } else {
        let rest = chain.drop_first();
        assert forall|k: int| 0 <= k < rest.len() - 1 implies tokens[(
        #[trigger] rest[k]) as int].children.contains(rest[k + 1]) by {
            assert(rest[k] == chain[k + 1]);
            assert(rest[k + 1] == chain[k + 2]);
        }
        assert(lineage(tokens, rest));
        law_cancellation_reaches_descendants(tokens, rest);
        let kids = tokens[id].children;
        assert(kids.contains(chain[1]));
        let i = choose|i: int| 0 <= i < kids.len() && kids[i] == chain[1];
        lemma_kid_in_subtrees(tokens, id, kids, i, n);
        let below = subtrees(tokens, id, kids);
        let k = choose|k: int| 0 <= k < below.len() && below[k] == n;
        assert(subtree(tokens, id)[k + 1] == n);
    }
}

/// What is in the subtree of one kid is in the subtrees of all.
proof fn lemma_kid_in_subtrees(
    tokens: Seq<TokenModel>,
    bound: int,
    kids: Seq<usize>,
    i: int,
    n: int,
)
    requires
        0 <= i < kids.len(),
        bound < kids[i] < tokens.len(),
        subtree(tokens, kids[i] as int).contains(n),
    ensures
        subtrees(tokens, bound, kids).contains(n),
    decreases kids.len(),
{
    let all = subtrees(tokens, bound, kids);
    let front = subtrees(tokens, bound, kids.drop_last());
    if i == kids.len() - 1 {
        let last = subtree(tokens, kids.last() as int);
        let k = choose|k: int| 0 <= k < last.len() && last[k] == n;
        assert(all[front.len() + k] == n);
    } else {
        lemma_kid_in_subtrees(tokens, bound, kids.drop_last(), i, n);
        let k = choose|k: int| 0 <= k < front.len() && front[k] == n;
        assert(all[k] == n);
    }
}

/// Cancelling a token leaves alone every token that does not descend from it: those that
/// it was made from, and their other children.
pub proof fn law_cancellation_spares_others(tokens: Seq<TokenModel>, id: int, n: int)
    requires
        tokens_ok(tokens),
        0 <= n < tokens.len(),
        !descends(tokens, n, id),
    ensures
        after_cancel(tokens, subtree(tokens, id))[n] == tokens[n],
{
    if subtree(tokens, id).contains(n) {
        lemma_subtree_descends(tokens, id, n);
    }
}

/// A token that is cancelled stays cancelled.
pub proof fn law_cancellation_is_final(tokens: Seq<TokenModel>, id: int, n: int)
    requires
        0 <= n < tokens.len(),
        tokens[n].cancelled,
    ensures
        after_cancel(tokens, subtree(tokens, id))[n].cancelled,
{
}

// ---------------------------------------------------------------------------
// Tokens
// ---------------------------------------------------------------------------

struct Token {
    cancelled: bool,
    waiters: Vec<(u64, u64)>,
    next_waiter: u64,
    children: Vec<usize>,
    parent: Option<usize>,
}

impl Token {
    spec fn model(&self) -> TokenModel {
        TokenModel {
            cancelled: self.cancelled,
            waiters: self.waiters@,
            next_waiter: self.next_waiter,
            children: self.children@,
            parent: self.parent,
        }
    }
}

/// The tokens of a program, by number. A token is made after the one that it comes from.
pub struct CancellationTokens {
    tokens: Vec<Token>,
}

impl View for CancellationTokens {
    type V = Seq<TokenModel>;

    closed spec fn view(&self) -> Seq<TokenModel> {
        Seq::new(self.tokens@.len(), |n: int| self.tokens@[n].model())
    }
}

impl CancellationTokens {
    /// No tokens.
    pub fn empty() -> (tokens: CancellationTokens)
        ensures
            tokens@ == Seq::<TokenModel>::empty(),
            tokens_ok(tokens@),
    {
        let tokens = CancellationTokens { tokens: Vec::new() };
        assert(tokens@ =~= Seq::empty());
        tokens
    }

    fn cancel_into(&mut self, id: usize, woken: &mut Vec<u64>)
        requires
            tokens_ok(old(self)@),
            id < old(self)@.len(),
        ensures
            tokens_ok(final(self)@),
            final(self)@ == after_cancel(old(self)@, subtree(old(self)@, id as int)),
            final(woken)@ == old(woken)@ + wakes(old(self)@, subtree(old(self)@, id as int)),
        decreases old(self)@.len() - id,
    {
        let ghost before = self@;
        let ghost all = subtree(before, id as int);
        let ghost kids = before[id as int].children;
        let ghost own = seq![id as int];
        proof {
            reveal_with_fuel(wakes, 2);
            assert(own.drop_last() =~= Seq::empty());
            assert(wakes(before, own) =~= wakers(before[id as int].waiters));
            lemma_cancelled_ok(before, all);
        }
        if self.tokens[id].cancelled {
            proof {
                assert(before[id as int].cancelled);
                assert(all =~= own);
                assert(before[id as int].cleared() =~= before[id as int]);
                assert(after_cancel(before, all) =~= before);
                assert(wakes(before, own) =~= Seq::empty());
                assert(woken@ + wakes(before, all) =~= woken@);
            }
            return;
        }
        self.tokens[id].cancelled = true;
        let mut waiters: Vec<(u64, u64)> = Vec::new();
        core::mem::swap(&mut waiters, &mut self.tokens[id].waiters);
        let mut children: Vec<usize> = Vec::new();
        core::mem::swap(&mut children, &mut self.tokens[id].children);
        let ghost first = woken@;
        let mut i: usize = 0;
        while i < waiters.len()
            invariant
                i <= waiters@.len(),
                woken@ == first + wakers(waiters@.take(i as int)),
            decreases waiters.len() - i,
        {
            woken.push(waiters[i].1);
            proof {
                assert(waiters@.take(i + 1) =~= waiters@.take(i as int).push(waiters@[i as int]));
                assert(wakers(waiters@.take(i + 1)) =~= wakers(waiters@.take(i as int)).push(
                    waiters@[i as int].1,
                ));
                assert(woken@ =~= first + wakers(waiters@.take(i + 1)));
            }
            i = i + 1;
        }
        let mut j: usize = 0;
        proof {
            assert(waiters@.take(i as int) =~= waiters@);
            assert(kids.take(0) =~= Seq::empty());
            assert(own + subtrees(before, id as int, kids.take(0)) =~= own);
            assert(own.contains(id as int)) by {
                assert(own[0] == id);
            }
            assert(self@ =~= after_cancel(before, own));
        }
        while j < children.len()
            invariant
                j <= children@.len(),
                children@ == kids,
                kids == before[id as int].children,
                own == seq![id as int],
                tokens_ok(before),
                before == old(self)@,
                id < before.len(),
                first == old(woken)@,
                self@ == after_cancel(
                    before,
                    own + subtrees(before, id as int, kids.take(j as int)),
                ),
                woken@ == first + wakes(
                    before,
                    own + subtrees(before, id as int, kids.take(j as int)),
                ),
            decreases children.len() - j,
        {
            let kid: usize = children[j];
            let ghost done = own + subtrees(before, id as int, kids.take(j as int));
            let ghost sub = subtree(before, kid as int);
            let ghost middle = self@;
            proof {
                assert(kid == before[id as int].children[j as int]);
                lemma_cancelled_ok(before, done);
                assert forall|n: int| #[trigger] sub.contains(n) implies !done.contains(n)
                    && 0 <= n < before.len() by {
                    lemma_subtree_descends(before, kid as int, n);
                    if done.contains(n) {
                        let at = choose|at: int| 0 <= at < done.len() && done[at] == n;
                        if at == 0 {
                            lemma_descends_after(before, n, kid as int);
                        } else {
                            let front = kids.take(j as int);
                            assert(subtrees(before, id as int, front)[at - 1] == n);
                            assert forall|m: int| 0 <= m < front.len() implies (id as int)
                                < #[trigger] front[m] < before.len()
                                && child_of(before[front[m] as int], id as int) by {
                                assert(front[m] == before[id as int].children[m]);
                            }
                            let k = lemma_subtrees_descend(before, id as int, front, n);
                            assert(front[k] == before[id as int].children[k]);
                            lemma_siblings_apart(
                                before,
                                n,
                                front[k] as int,
                                kid as int,
                                id as int,
                            );
                        }
                    }
                }
                assert forall|n: int| #[trigger]
                    sub.contains(n) && 0 <= n < before.len() implies before[n].children
                    == middle[n].children by {
                    assert(middle[n] == before[n]);
                }
                lemma_subtree_agrees(before, middle, kid as int);
            }
            self.cancel_into(kid, woken);
            proof {
                lemma_cancel_both(before, done, sub);
                assert forall|m: int| 0 <= m < sub.len() implies middle[#[trigger] sub[m]].waiters
                    == before[sub[m]].waiters by {
                    assert(sub.contains(sub[m]));
                }
                lemma_wakes_agree(middle, before, sub);
                lemma_wakes_both(before, done, sub);
                assert(kids.take(j + 1).drop_last() =~= kids.take(j as int));
                assert(kids.take(j + 1).last() == kid);
                assert(own + subtrees(before, id as int, kids.take(j + 1)) =~= done + sub);
                assert((first + wakes(before, done)) + wakes(before, sub) =~= first + wakes(
                    before,
                    done + sub,
                ));
            }
            j = j + 1;
        }
        assert(kids.take(j as int) =~= kids);
    }
}

/// One of the tokens of a program.
pub struct CancellationToken {
    pub number: usize,
}

impl CancellationToken {
    /// A token that comes from no other.
    pub fn new(tokens: &mut CancellationTokens) -> (token: CancellationToken)
        requires
            tokens_ok(old(tokens)@),
            old(tokens)@.len() < usize::MAX,
        ensures
            tokens_ok(final(tokens)@),
            token.number == old(tokens)@.len(),
            final(tokens)@ == old(tokens)@.push(fresh_token(false, None)),
    {
        let ghost before = tokens@;
        let id: usize = tokens.tokens.len();
        tokens.tokens.push(
            Token {
                cancelled: false,
                waiters: Vec::new(),
                next_waiter: 0,
                children: Vec::new(),
                parent: None,
            },
        );
        proof {
            let after = tokens@;
            assert(after =~= before.push(fresh_token(false, None)));
            lemma_push_ok(before, fresh_token(false, None));
        }
        CancellationToken { number: id }
    }

    /// Whether a token is cancelled.
    pub fn is_cancelled(&self, tokens: &CancellationTokens) -> (result: bool)
        requires
            self.number < tokens@.len(),
        ensures
            result == tokens@[self.number as int].cancelled,
    {
        tokens.tokens[self.number].cancelled
    }

    /// A token that is cancelled with this one. It is cancelled from the beginning if
    /// this one is.
    pub fn child_token(&self, tokens: &mut CancellationTokens) -> (token: CancellationToken)
        requires
            tokens_ok(old(tokens)@),
            self.number < old(tokens)@.len() < usize::MAX,
        ensures
            tokens_ok(final(tokens)@),
            token.number == old(tokens)@.len(),
            ({
                let parent = old(tokens)@[self.number as int];
                let made = old(tokens)@.push(fresh_token(parent.cancelled, Some(self.number)));
                if parent.cancelled {
                    final(tokens)@ == made
                } else {
                    final(tokens)@ == made.update(
                        self.number as int,
                        TokenModel { children: parent.children.push(token.number), ..parent },
                    )
                }
            }),
    {
        let ghost before = tokens@;
        let id: usize = self.number;
        let child: usize = tokens.tokens.len();
        let cancelled = tokens.tokens[id].cancelled;
        tokens.tokens.push(
            Token {
                cancelled,
                waiters: Vec::new(),
                next_waiter: 0,
                children: Vec::new(),
                parent: Some(id),
            },
        );
        let ghost made = tokens@;
        proof {
            assert(made =~= before.push(fresh_token(cancelled, Some(id))));
            lemma_push_ok(before, fresh_token(cancelled, Some(id)));
        }
        if !cancelled {
            tokens.tokens[id].children.push(child);
            proof {
                let parent = before[id as int];
                let after = tokens@;
                assert(after =~= made.update(
                    id as int,
                    TokenModel { children: parent.children.push(child), ..parent },
                ));
                assert forall|p: int, i: int|
                    0 <= p < after.len() && 0 <= i < after[p].children.len() implies {
                    let c = #[trigger] after[p].children[i];
                    p < c < after.len() && child_of(after[c as int], p)
                } by {
                    if p == id && i == parent.children.len() {
                    } else {
                        assert(made[p].children[i] == after[p].children[i]);
                    }
                }
                assert forall|p: int, i: int, j: int|
                    0 <= p < after.len() && 0 <= i < j < after[p].children.len()
                        implies #[trigger] after[p].children[i] != #[trigger] after[p].children[j] by {
                    assert(made[p].children[i] == after[p].children[i]);
                    if p == id && j == parent.children.len() {
                        assert(before[p].children[i] == made[p].children[i]);
                    } else {
                        assert(made[p].children[j] == after[p].children[j]);
                    }
                }
                assert forall|p: int, i: int|
                    0 <= p < after.len() && 0 <= i < after[p].waiters.len() implies (
                #[trigger] after[p].waiters[i]).0 < after[p].next_waiter by {
                    assert(made[p].waiters[i] == after[p].waiters[i]);
                }
            }
        }
        CancellationToken { number: child }
    }

    /// Cancels a token and all that descend from it. Returns whom to wake: those who
    /// waited for the token, and then those who waited for each child and its descendants
    /// in turn.
    pub fn cancel(&self, tokens: &mut CancellationTokens) -> (woken: Vec<u64>)
        requires
            tokens_ok(old(tokens)@),
            self.number < old(tokens)@.len(),
        ensures
            tokens_ok(final(tokens)@),
            final(tokens)@ == after_cancel(old(tokens)@, subtree(old(tokens)@, self.number as int)),
            woken@ == wakes(old(tokens)@, subtree(old(tokens)@, self.number as int)),
    {
        let mut woken: Vec<u64> = Vec::new();
        tokens.cancel_into(self.number, &mut woken);
        assert(woken@ =~= wakes(old(tokens)@, subtree(old(tokens)@, self.number as int)));
        woken
    }

    /// A wait for the cancellation of the token. It has not begun.
    pub fn cancelled(&self) -> (wait: Cancelled)
        ensures
            wait.token == self.number,
            wait.waiter_id is None,
    {
        Cancelled { token: self.number, waiter_id: None }
    }

    /// A token is no longer used. Those that were made from it live on, and are no longer
    /// cancelled with those that it was made from.
    pub fn drop_token(self, tokens: &mut CancellationTokens)
        requires
            tokens_ok(old(tokens)@),
            self.number < old(tokens)@.len(),
        ensures
            tokens_ok(final(tokens)@),
            final(tokens)@ == old(tokens)@.update(
                self.number as int,
                TokenModel {
                    waiters: Seq::empty(),
                    children: Seq::empty(),
                    ..old(tokens)@[self.number as int]
                },
            ),
    {
        let ghost before = tokens@;
        let id: usize = self.number;
        tokens.tokens[id].children = Vec::new();
        tokens.tokens[id].waiters = Vec::new();
        proof {
            let after = tokens@;
            assert(after =~= before.update(
                id as int,
                TokenModel { waiters: Seq::empty(), children: Seq::empty(), ..before[id as int] },
            ));
            lemma_update_ok(before, after, id as int);
        }
    }
}

/// A token without children may follow.
proof fn lemma_push_ok(tokens: Seq<TokenModel>, token: TokenModel)
    requires
        tokens_ok(tokens),
        token.children.len() == 0,
        token.waiters.len() == 0,
    ensures
        tokens_ok(tokens.push(token)),
{
    let after = tokens.push(token);
    assert forall|p: int, i: int|
        0 <= p < after.len() && 0 <= i < after[p].children.len() implies {
        let c = #[trigger] after[p].children[i];
        p < c < after.len() && child_of(after[c as int], p)
    } by {
        assert(after[p] == tokens[p]);
        let c = tokens[p].children[i];
        assert(after[c as int] == tokens[c as int]);
    }
}

/// Other waiters, or fewer children, keep tokens in order.
proof fn lemma_update_ok(before: Seq<TokenModel>, after: Seq<TokenModel>, id: int)
    requires
        tokens_ok(before),
        before.len() == after.len(),
        0 <= id < before.len(),
        forall|n: int| 0 <= n < before.len() && n != id ==> after[n] == before[n],
        after[id].parent == before[id].parent,
        after[id].cancelled == before[id].cancelled,
        after[id].children == before[id].children || after[id].children.len() == 0,
        after[id].cancelled ==> after[id].waiters.len() == 0,
        forall|i: int|
            0 <= i < after[id].waiters.len() ==> (#[trigger] after[id].waiters[i]).0
                < after[id].next_waiter,
        forall|i: int, j: int|
            0 <= i < j < after[id].waiters.len() ==> (#[trigger] after[id].waiters[i]).0 != (
            #[trigger] after[id].waiters[j]).0,
    ensures
        tokens_ok(after),
{
    assert forall|p: int, i: int|
        0 <= p < after.len() && 0 <= i < after[p].children.len() implies {
        let c = #[trigger] after[p].children[i];
        p < c < after.len() && child_of(after[c as int], p)
    } by {
        assert(after[p].children == before[p].children);
        let c = before[p].children[i];
        assert(after[c as int].parent == before[c as int].parent);
    }
    assert forall|p: int, i: int, j: int|
        0 <= p < after.len() && 0 <= i < j < after[p].children.len()
            implies #[trigger] after[p].children[i] != #[trigger] after[p].children[j] by {
        assert(after[p].children == before[p].children);
    }
}

// ---------------------------------------------------------------------------
// Waiting for a cancellation
// ---------------------------------------------------------------------------

/// The waiters with another waker for one of them.
pub open spec fn with_waker(waiters: Seq<(u64, u64)>, at: int, waker: u64) -> Seq<(u64, u64)> {
    waiters.update(at, (waiters[at].0, waker))
}

/// Where a waiter is in the list, if it is.
pub open spec fn position_of(waiters: Seq<(u64, u64)>, id: u64) -> Option<int>
    decreases waiters.len(),
{
    if waiters.len() == 0 {
        None
    } else {
        match position_of(waiters.drop_last(), id) {
            Some(at) => Some(at),
            None => if waiters.last().0 == id {
                Some(waiters.len() - 1)
            } else {
                None
            },
        }
    }
}

/// Finds a waiter.
fn find_waiter(waiters: &Vec<(u64, u64)>, id: u64) -> (at: Option<usize>)
    ensures
        match at {
            Some(at) => position_of(waiters@, id) == Some(at as int) && at < waiters@.len()
                && waiters@[at as int].0 == id,
            None => position_of(waiters@, id) is None && forall|i: int|
                0 <= i < waiters@.len() ==> (#[trigger] waiters@[i]).0 != id,
        },
{
    let mut i: usize = 0;
    while i < waiters.len()
        invariant
            i <= waiters@.len(),
            position_of(waiters@.take(i as int), id) is None,
            forall|k: int| 0 <= k < i ==> (#[trigger] waiters@[k]).0 != id,
        decreases waiters.len() - i,
    {
        proof {
            assert(waiters@.take(i + 1).drop_last() =~= waiters@.take(i as int));
        }
        if waiters[i].0 == id {
            proof {
                lemma_position_front(waiters@, i + 1, id);
            }
            return Some(i);
        }
        i = i + 1;
    }
    assert(waiters@.take(i as int) =~= waiters@);
    None
}

/// What is found in the front of a list is found there in the list.
proof fn lemma_position_front(waiters: Seq<(u64, u64)>, n: int, id: u64)
    requires
        0 <= n <= waiters.len(),
        position_of(waiters.take(n), id) is Some,
    ensures
        position_of(waiters, id) == position_of(waiters.take(n), id),
    decreases waiters.len() - n,
{
    if n < waiters.len() {
        assert(waiters.take(n + 1).drop_last() =~= waiters.take(n));
        lemma_position_front(waiters, n + 1, id);
    } else {
        assert(waiters.take(n) =~= waiters);
    }
}

/// A wait for the cancellation of a token: the number under which it waits.
pub struct Cancelled {
    pub token: usize,
    pub waiter_id: Option<u64>,
}

/// A token after someone began to wait for it.
pub open spec fn registered(token: TokenModel, waker: u64) -> TokenModel {
    TokenModel {
        waiters: token.waiters.push((token.next_waiter, waker)),
        next_waiter: (token.next_waiter + 1) as u64,
        ..token
    }
}

impl Cancelled {
    /// Ends where the token is cancelled. Otherwise the task waits, with one entry: it is
    /// made at the first poll and changed at later ones.
    pub fn poll(&mut self, tokens: &mut CancellationTokens, waker: u64) -> (poll: Poll<()>)
        requires
            tokens_ok(old(tokens)@),
            old(self).token < old(tokens)@.len(),
            old(tokens)@[old(self).token as int].next_waiter < u64::MAX,
        ensures
            tokens_ok(final(tokens)@),
            final(self).token == old(self).token,
            ({
                let token = old(tokens)@[old(self).token as int];
                let at = position_of(token.waiters, old(self).waiter_id->Some_0);
                if token.cancelled {
                    &&& poll is Ready
                    &&& final(tokens)@ == old(tokens)@
                    &&& final(self).waiter_id == old(self).waiter_id
                } else if old(self).waiter_id is Some && at is Some {
                    &&& poll is Pending
                    &&& final(tokens)@ == old(tokens)@.update(
                        old(self).token as int,
                        TokenModel {
                            waiters: with_waker(token.waiters, at->Some_0, waker),
                            ..token
                        },
                    )
                    &&& final(self).waiter_id == old(self).waiter_id
                } else {
                    &&& poll is Pending
                    &&& final(tokens)@ == old(tokens)@.update(
                        old(self).token as int,
                        registered(token, waker),
                    )
                    &&& final(self).waiter_id == Some(token.next_waiter)
                }
            }),
    {
        let id: usize = self.token;
        let ghost before = tokens@;
        let ghost token = before[id as int];
        if tokens.tokens[id].cancelled {
            return Poll::Ready(());
        }
        if let Some(waiter) = self.waiter_id {
            if let Some(at) = find_waiter(&tokens.tokens[id].waiters, waiter) {
                tokens.tokens[id].waiters[at] = (waiter, waker);
                proof {
                    let after = tokens@;
                    assert(after =~= before.update(
                        id as int,
                        TokenModel {
                            waiters: with_waker(token.waiters, at as int, waker),
                            ..token
                        },
                    ));
                    assert forall|i: int|
                        0 <= i < after[id as int].waiters.len() implies (
                    #[trigger] after[id as int].waiters[i]).0 == before[id as int].waiters[i].0 by {}
                    lemma_update_ok(before, after, id as int);
                }
                return Poll::Pending;
            }
        }
        let waiter: u64 = tokens.tokens[id].next_waiter;
        tokens.tokens[id].next_waiter = waiter + 1;
        tokens.tokens[id].waiters.push((waiter, waker));
        self.waiter_id = Some(waiter);
        proof {
            let after = tokens@;
            assert(after =~= before.update(id as int, registered(token, waker)));
            assert forall|i: int| 0 <= i < token.waiters.len() implies (
            #[trigger] after[id as int].waiters[i]).0 == before[id as int].waiters[i].0 by {}
            lemma_update_ok(before, after, id as int);
        }
        Poll::Pending
    }

    /// Gives up waiting. The last entry takes the place of this one.
    pub fn detach(&mut self, tokens: &mut CancellationTokens)
        requires
            tokens_ok(old(tokens)@),
            old(self).token < old(tokens)@.len(),
        ensures
            tokens_ok(final(tokens)@),
            final(self).token == old(self).token,
            final(self).waiter_id is None,
            ({
                let token = old(tokens)@[old(self).token as int];
                let at = position_of(token.waiters, old(self).waiter_id->Some_0);
                if old(self).waiter_id is Some && at is Some {
                    final(tokens)@ == old(tokens)@.update(
                        old(self).token as int,
                        TokenModel {
                            waiters: token.waiters.update(
                                at->Some_0,
                                token.waiters.last(),
                            ).drop_last(),
                            ..token
                        },
                    )
                } else {
                    final(tokens)@ == old(tokens)@
                }
            }),
    {
        let id: usize = self.token;
        let ghost before = tokens@;
        let ghost token = before[id as int];
        if let Some(waiter) = self.waiter_id {
            self.waiter_id = None;
            if let Some(at) = find_waiter(&tokens.tokens[id].waiters, waiter) {
                let _ = tokens.tokens[id].waiters.swap_remove(at);
                proof {
                    let after = tokens@;
                    let rest = token.waiters.update(at as int, token.waiters.last()).drop_last();
                    assert(after =~= before.update(
                        id as int,
                        TokenModel { waiters: rest, ..token },
                    ));
                    assert forall|i: int| 0 <= i < rest.len() implies (#[trigger] rest[i]).0
                        < token.next_waiter by {
                        let k = if i == at {
                            token.waiters.len() - 1
                        } else {
                            i
                        };
                        assert(rest[i] == before[id as int].waiters[k]);
                    }
                    assert forall|i: int, j: int| 0 <= i < j < rest.len() implies (
                    #[trigger] rest[i]).0 != (#[trigger] rest[j]).0 by {
                        let k = if i == at {
                            token.waiters.len() - 1
                        } else {
                            i
                        };
                        let l = if j == at {
                            token.waiters.len() - 1
                        } else {
                            j
                        };
                        assert(rest[i] == before[id as int].waiters[k]);
                        assert(rest[j] == before[id as int].waiters[l]);
                        if k < l {
                            assert(before[id as int].waiters[k].0 != before[id as int].waiters[l].0);
                        } else {
                            assert(before[id as int].waiters[l].0 != before[id as int].waiters[k].0);
                        }
                    }
                    lemma_update_ok(before, after, id as int);
                }
            }
        }
    }
}

/// Whoever waits for a token is woken when the token is cancelled, or one from which a
/// chain of children leads to it.
pub proof fn law_every_waiter_is_woken(
    tokens: Seq<TokenModel>,
    id: int,
    n: int,
    i: int,
)
    requires
        tokens_ok(tokens),
        subtree(tokens, id).contains(n),
        0 <= n < tokens.len(),
        0 <= i < tokens[n].waiters.len(),
    ensures
        wakes(tokens, subtree(tokens, id)).contains(tokens[n].waiters[i].1),
{
    lemma_wakes_contain(tokens, subtree(tokens, id), n, i);
}

/// The waiters of each token of the list are woken.
proof fn lemma_wakes_contain(tokens: Seq<TokenModel>, ids: Seq<int>, n: int, i: int)
    requires
        ids.contains(n),
        0 <= i < tokens[n].waiters.len(),
    ensures
        wakes(tokens, ids).contains(tokens[n].waiters[i].1),
    decreases ids.len(),
{
    let all = wakes(tokens, ids);
    let front = wakes(tokens, ids.drop_last());
    let waker = tokens[n].waiters[i].1;
    if ids.last() == n {
        assert(wakers(tokens[n].waiters)[i] == waker);
        assert(all[front.len() + i] == waker);
    } else {
        let k = choose|k: int| 0 <= k < ids.len() && ids[k] == n;
        assert(ids.drop_last()[k] == n);
        lemma_wakes_contain(tokens, ids.drop_last(), n, i);
        let m = choose|m: int| 0 <= m < front.len() && front[m] == waker;
        assert(all[m] == waker);
    }
}

} // verus!
