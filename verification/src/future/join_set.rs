//! A set of spawned tasks whose results are gathered as they complete.

use super::unordered::{FuturesUnordered, Next, UnorderedState};
use vstd::prelude::*;

verus! {

/// A collection of spawned tasks, over the type of their handles, whose results
/// arrive in completion order.
pub struct JoinSet<H> {
    tasks: FuturesUnordered<H>,
}

impl<H> View for JoinSet<H> {
    type V = UnorderedState<H>;

    closed spec fn view(&self) -> UnorderedState<H> {
        self.tasks@
    }
}

impl<H> JoinSet<H> {
    /// A new, empty set.
    pub fn new() -> (set: Self)
        ensures
            set@ == (UnorderedState::<H> {
                members: Map::<u64, H>::empty(),
                ready: Seq::empty(),
                next_id: 0,
            }),
    {
        JoinSet { tasks: FuturesUnordered::new() }
    }

    /// Adds the handle of a spawned task.
    pub fn spawn(&mut self, handle: H) -> (id: u64)
        requires
            old(self)@.next_id < u64::MAX,
        ensures
            id == old(self)@.next_id,
            final(self)@ == (UnorderedState {
                members: old(self)@.members.insert(id, handle),
                ready: old(self)@.ready.push(id),
                next_id: (id + 1) as u64,
            }),
    {
        self.tasks.push(handle)
    }

    /// Number of tasks in the set.
    pub fn len(&self) -> (len: usize)
        ensures
            len == self@.members.len(),
    {
        self.tasks.len()
    }

    /// Whether the set currently holds no tasks.
    pub fn is_empty(&self) -> (empty: bool)
        ensures
            empty == (self@.members.len() == 0),
    {
        self.tasks.is_empty()
    }

    /// What is to be done for the next result: poll the task that was woken first, wait,
    /// or stop, once every task has been collected.
    pub fn join_next(&mut self) -> (next: Next<H>)
        ensures
            super::unordered::stepped(old(self)@, final(self)@, next),
    {
        self.tasks.next_member()
    }

    /// The set of handles that the tasks' driver polls.
    pub fn tasks_mut(&mut self) -> (tasks: &mut FuturesUnordered<H>)
        ensures
            tasks@ == old(self)@,
            final(self)@ == final(tasks)@,
    {
        &mut self.tasks
    }

    /// Takes every handle out of the set, so that its task can be aborted.
    pub fn abort_all(&mut self) -> (handles: Vec<H>)
        ensures
            final(self)@ == (UnorderedState {
                members: Map::<u64, H>::empty(),
                ready: Seq::empty(),
                next_id: old(self)@.next_id,
            }),
            exists|ids: Seq<u64>|
                ids.no_duplicates() && ids.to_set() == old(self)@.members.dom() && handles@
                    == #[trigger] super::unordered::members_of(old(self)@.members, ids),
    {
        self.tasks.take_all()
    }
}

} // verus!
