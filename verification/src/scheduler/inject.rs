//! The global queue that tasks enter from outside of any worker.

use std::collections::VecDeque;
use vstd::prelude::*;

verus! {

broadcast use vstd::std_specs::vecdeque::group_vec_dequeue_axioms;

/// A first-in, first-out queue that can be closed. A closed queue takes no new
/// tasks; what it holds can still be taken out.
pub struct Injector<T> {
    tasks: VecDeque<T>,
    closed: bool,
}

impl<T> Injector<T> {
    /// The queued tasks, oldest first.
    pub closed spec fn tasks(&self) -> Seq<T> {
        self.tasks@
    }

    /// Whether the queue has been closed.
    pub closed spec fn closed(&self) -> bool {
        self.closed
    }

    /// An open, empty queue.
    pub fn new() -> (injector: Self)
        ensures
            injector.tasks() == Seq::<T>::empty(),
            !injector.closed(),
    {
        Injector { tasks: VecDeque::new(), closed: false }
    }

    /// Queues a task. A closed queue drops it.
    pub fn push(&mut self, task: T)
        ensures
            final(self).closed() == old(self).closed(),
            final(self).tasks() == (if old(self).closed() {
                old(self).tasks()
            } else {
                old(self).tasks().push(task)
            }),
    {
        if !self.closed {
            self.tasks.push_back(task);
        }
    }

    /// Queues some tasks in order. A closed queue drops them.
    pub fn push_batch(&mut self, tasks: Vec<T>)
        ensures
            final(self).closed() == old(self).closed(),
            final(self).tasks() == (if old(self).closed() {
                old(self).tasks()
            } else {
                old(self).tasks() + tasks@
            }),
    {
        if self.closed {
            return ;
        }
        let ghost all = tasks@;
        let mut reversed: Vec<T> = Vec::new();
        let mut tasks = tasks;
        while tasks.len() > 0
            invariant
                reversed@ + tasks@.reverse() == all.reverse(),
            decreases tasks.len(),
        {
            let ghost left = tasks@;
            if let Some(task) = tasks.pop() {
                reversed.push(task);
                assert(left.reverse() =~= seq![task] + tasks@.reverse());
                assert(reversed@ + tasks@.reverse() =~= all.reverse());
            }
        }
        assert(reversed@ =~= all.reverse());
        let ghost mut done: int = 0;
        assert(old(self).tasks() + all.take(0) =~= old(self).tasks());
        while reversed.len() > 0
            invariant
                self.closed == old(self).closed,
                0 <= done <= all.len(),
                reversed@ == all.skip(done).reverse(),
                self.tasks@ == old(self).tasks@ + all.take(done),
            decreases reversed.len(),
        {
            assert(reversed@.last() == all[done]);
            assert(reversed@.drop_last() =~= all.skip(done + 1).reverse());
            if let Some(task) = reversed.pop() {
                self.tasks.push_back(task);
                assert((old(self).tasks@ + all.take(done)).push(all[done]) =~= old(self).tasks@
                    + all.take(done + 1));
                proof {
                    done = done + 1;
                }
            }
        }
        assert(all.take(done) =~= all);
    }

    /// Takes the oldest task.
    pub fn pop(&mut self) -> (task: Option<T>)
        ensures
            final(self).closed() == old(self).closed(),
            if old(self).tasks().len() == 0 {
                task is None && final(self).tasks() == old(self).tasks()
            } else {
                task == Some(old(self).tasks()[0]) && final(self).tasks()
                    == old(self).tasks().drop_first()
            },
    {
        let task = self.tasks.pop_front();
        assert(old(self).tasks().len() > 0 ==> self.tasks() =~= old(self).tasks().drop_first());
        task
    }

    /// Takes up to `limit` tasks, oldest first.
    pub fn pop_n(&mut self, limit: usize) -> (tasks: Vec<T>)
        ensures
            final(self).closed() == old(self).closed(),
            ({
                let n = if limit < old(self).tasks().len() {
                    limit as int
                } else {
                    old(self).tasks().len() as int
                };
                tasks@ == old(self).tasks().take(n) && final(self).tasks() == old(
                    self).tasks().skip(n)
            }),
    {
        let mut tasks: Vec<T> = Vec::new();
        let mut i: usize = 0;
        assert(self.tasks@.skip(0) =~= self.tasks@);
        assert(self.tasks@.take(0) =~= Seq::empty());
        while i < limit
            invariant
                i <= limit,
                i <= old(self).tasks().len(),
                self.closed == old(self).closed,
                tasks@ == old(self).tasks().take(i as int),
                self.tasks@ == old(self).tasks().skip(i as int),
            decreases limit - i,
        {
            match self.pop() {
                None => return tasks,
                Some(task) => tasks.push(task),
            }
            i = i + 1;
            assert(tasks@ =~= old(self).tasks().take(i as int));
            assert(self.tasks@ =~= old(self).tasks().skip(i as int));
        }
        tasks
    }

    /// How many tasks are queued.
    pub fn len(&self) -> (len: usize)
        ensures
            len == self.tasks().len(),
    {
        self.tasks.len()
    }

    /// Whether the queue has been closed.
    pub fn is_closed(&self) -> (closed: bool)
        ensures
            closed == self.closed(),
    {
        self.closed
    }

    /// Closes the queue for new tasks.
    pub fn close(&mut self)
        ensures
            final(self).closed(),
            final(self).tasks() == old(self).tasks(),
    {
        self.closed = true;
    }
}

} // verus!
