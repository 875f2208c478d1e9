//! A dynamically-sized set of futures driven by a ready queue.
//!
//! Members are stored in a map keyed by an id; waking a member puts its id into the
//! ready queue, so a poll only touches members that were woken, plus each new
//! member on its first poll.

use std::collections::{HashMap, VecDeque};
use vstd::prelude::*;

verus! {

broadcast use {
    vstd::std_specs::hash::group_hash_axioms,
    vstd::std_specs::vecdeque::group_vec_dequeue_axioms,
};

/// A set of futures polled together, resolving with the output of whichever member
/// completes first.
pub struct FuturesUnordered<F> {
    entries: HashMap<u64, F>,
    ready: VecDeque<u64>,
    next_id: u64,
}

/// What the set means: its members by id, the ids that are to be polled, and the
/// id of the next member.
pub struct UnorderedState<F> {
    pub members: Map<u64, F>,
    pub ready: Seq<u64>,
    pub next_id: u64,
}

/// What the set's driver does next.
#[derive(Debug)]
pub enum Next<F> {
    /// Poll this member. It is out of the set until it is put back.
    Member(u64, F),
    /// Every member waits to be woken.
    Pending,
    /// There are no members left.
    Finished,
}

/// How many ids at the front of the ready queue belong to no member.
pub open spec fn stale<F>(members: Map<u64, F>, ready: Seq<u64>) -> nat
    decreases ready.len(),
{
    if ready.len() == 0 || members.contains_key(ready[0]) {
        0
    } else {
        1 + stale(members, ready.drop_first())
    }
}

proof fn lemma_stale<F>(members: Map<u64, F>, ready: Seq<u64>)
    ensures
        stale(members, ready) <= ready.len(),
        stale(members, ready) < ready.len() ==> members.contains_key(
            ready[stale(members, ready) as int],
        ),
        forall|i: int|
            0 <= i < stale(members, ready) ==> !members.contains_key(#[trigger] ready[i]),
    decreases ready.len(),
{
    if ready.len() > 0 && !members.contains_key(ready[0]) {
        let rest = ready.drop_first();
        lemma_stale(members, rest);
        assert forall|i: int| 0 <= i < stale(members, ready) implies !members.contains_key(
            #[trigger] ready[i],
        ) by {
            if i > 0 {
                assert(ready[i] == rest[i - 1]);
            }
        }
    }
}

impl<F> View for FuturesUnordered<F> {
    type V = UnorderedState<F>;

    closed spec fn view(&self) -> UnorderedState<F> {
        UnorderedState { members: self.entries@, ready: self.ready@, next_id: self.next_id }
    }
}

/// Whether that is to be done next: poll the member that was woken first, wait, or stop.
/// Wakes of members that have left the set are forgotten.
pub open spec fn stepped<F>(
    before: UnorderedState<F>,
    after: UnorderedState<F>,
    next: Next<F>,
) -> bool {
    let k = stale(before.members, before.ready);
    &&& after.next_id == before.next_id
    &&& if k < before.ready.len() {
        let id = before.ready[k as int];
        &&& before.members.contains_key(id)
        &&& next == Next::Member(id, before.members[id])
        &&& after.members == before.members.remove(id)
        &&& after.ready == before.ready.skip(k as int + 1)
    } else {
        &&& next == (if before.members.len() == 0 {
            Next::<F>::Finished
        } else {
            Next::<F>::Pending
        })
        &&& after.members == before.members
        &&& after.ready == Seq::<u64>::empty()
    }
}

impl<F> FuturesUnordered<F> {
    /// A new, empty set.
    pub fn new() -> (set: Self)
        ensures
            set@ == (UnorderedState::<F> {
                members: Map::<u64, F>::empty(),
                ready: Seq::empty(),
                next_id: 0,
            }),
    {
        FuturesUnordered { entries: HashMap::new(), ready: VecDeque::new(), next_id: 0 }
    }

    /// Adds a future to the set. It is polled once on the next poll of the set.
    pub fn push(&mut self, future: F) -> (id: u64)
        requires
            old(self)@.next_id < u64::MAX,
        ensures
            id == old(self)@.next_id,
            final(self)@ == (UnorderedState {
                members: old(self)@.members.insert(id, future),
                ready: old(self)@.ready.push(id),
                next_id: (id + 1) as u64,
            }),
    {
        let id: u64 = self.next_id;
        self.next_id = self.next_id + 1;
        self.ready.push_back(id);
        self.entries.insert(id, future);
        id
    }

    /// Notes that a member was woken.
    pub fn wake(&mut self, id: u64)
        ensures
            final(self)@ == (UnorderedState {
                ready: old(self)@.ready.push(id),
                ..old(self)@
            }),
    {
        self.ready.push_back(id);
    }

    /// Number of members currently in the set.
    pub fn len(&self) -> (len: usize)
        ensures
            len == self@.members.len(),
    {
        self.entries.len()
    }

    /// Bounds on how many results are left: every member gives one.
    pub fn size_hint(&self) -> (bounds: (usize, Option<usize>))
        ensures
            bounds.0 == self@.members.len(),
            bounds.1 == Some(bounds.0),
    {
        let len: usize = self.len();
        (len, Some(len))
    }

    /// Whether the set holds no members.
    pub fn is_empty(&self) -> (empty: bool)
        ensures
            empty == (self@.members.len() == 0),
    {
        self.entries.len() == 0
    }

    /// Drops all members.
    pub fn clear(&mut self)
        ensures
            final(self)@ == (UnorderedState {
                members: Map::<u64, F>::empty(),
                ready: Seq::empty(),
                next_id: old(self)@.next_id,
            }),
    {
        self.entries.clear();
        self.ready.clear();
    }

    /// What is to be done next: poll the member that was woken first, wait, or
    /// stop. Wakes of members that have left the set are forgotten.
    pub fn next_member(&mut self) -> (next: Next<F>)
        ensures
            stepped(old(self)@, final(self)@, next),
    {
        let ghost all = self.ready@;
        let ghost members = self.entries@;
        let ghost mut seen: int = 0;
        proof {
            lemma_stale(members, all);
            assert(all.skip(0) =~= all);
        }
        loop
            invariant
                self.entries@ == members,
                members == old(self)@.members,
                all == old(self)@.ready,
                self.next_id == old(self).next_id,
                0 <= seen <= all.len(),
                seen <= stale(members, all),
                stale(members, all) <= all.len(),
                stale(members, all) < all.len() ==> members.contains_key(
                    all[stale(members, all) as int],
                ),
                forall|i: int|
                    0 <= i < stale(members, all) ==> !members.contains_key(#[trigger] all[i]),
                self.ready@ == all.skip(seen),
            decreases all.len() - seen,
        {
            match self.ready.pop_front() {
                None => {
                    assert(seen == all.len());
                    assert(self.ready@ =~= Seq::empty());
                    if self.entries.len() == 0 {
                        return Next::Finished;
                    }
                    return Next::Pending;
                },
                Some(id) => {
                    assert(id == all[seen]);
                    assert(self.ready@ =~= all.skip(seen + 1));
                    if let Some(member) = self.entries.remove(&id) {
                        return Next::Member(id, member);
                    }
                    assert(self.entries@ =~= members);
                    proof {
                        seen = seen + 1;
                    }
                },
            }
        }
    }

    /// Puts back a member whose poll came to nothing.
    pub fn put_back(&mut self, id: u64, future: F)
        ensures
            final(self)@ == (UnorderedState {
                members: old(self)@.members.insert(id, future),
                ..old(self)@
            }),
    {
        self.entries.insert(id, future);
    }

    /// Takes every member out of the set, in no particular order.
    pub fn take_all(&mut self) -> (members: Vec<F>)
        ensures
            final(self)@ == (UnorderedState {
                members: Map::<u64, F>::empty(),
                ready: Seq::empty(),
                next_id: old(self)@.next_id,
            }),
            exists|ids: Seq<u64>|
                ids.no_duplicates() && ids.to_set() == old(self)@.members.dom() && members@
                    == #[trigger] members_of(old(self)@.members, ids),
    {
        let mut ids: Vec<u64> = Vec::new();
        let ghost all = vstd::std_specs::iter::IteratorSpec::remaining(
            &vstd::std_specs::hash::spec_keys_iter(&self.entries),
        ).unref();
        for id in it: self.entries.keys()
            invariant
                all == it.seq().unref(),
                ids@ == all.take(it.index()),
        {
            ids.push(*id);
            assert(ids@ =~= all.take(it.index() + 1));
        }
        assert(ids@ =~= all);
        assert(all.no_duplicates());
        let mut members: Vec<F> = Vec::new();
        let mut i: usize = 0;
        while i < ids.len()
            invariant
                i <= ids.len(),
                ids@ == all,
                all.no_duplicates(),
                all.to_set() == old(self)@.members.dom(),
                self.next_id == old(self).next_id,
                members@ == members_of(old(self)@.members, all.take(i as int)),
                forall|k: int|
                    i <= k < all.len() ==> self.entries@.contains_key(#[trigger] all[k])
                        && self.entries@[all[k]] == old(self)@.members[all[k]],
            decreases ids.len() - i,
        {
            let id: u64 = ids[i];
            let taken = self.entries.remove(&id);
            assert(taken is Some);
            if let Some(member) = taken {
                members.push(member);
            }
            i = i + 1;
            assert(members@ =~= members_of(old(self)@.members, all.take(i as int)));
        }
        assert(all.take(i as int) =~= all);
        self.clear();
        members
    }
}

/// The members with the given ids.
pub open spec fn members_of<F>(members: Map<u64, F>, ids: Seq<u64>) -> Seq<F> {
    ids.map_values(|id: u64| members[id])
}

/// A member that was not woken is not polled.
pub proof fn law_only_woken_members_are_polled<F>(
    members: Map<u64, F>,
    ready: Seq<u64>,
    id: u64,
)
    requires
        !ready.contains(id),
    ensures
        stale(members, ready) < ready.len() ==> ready[stale(members, ready) as int] != id,
{
    lemma_stale(members, ready);
}

/// A woken member is polled before the set waits: while an id of a member is in
/// the ready queue, the next step is a poll.
pub proof fn law_no_wake_is_lost<F>(members: Map<u64, F>, ready: Seq<u64>, id: u64)
    requires
        ready.contains(id),
        members.contains_key(id),
    ensures
        stale(members, ready) < ready.len(),
{
    lemma_stale(members, ready);
}

} // verus!
