//! The blocking pool: threads for work that would stall a worker.
//!
//! Threads are started on demand, up to a limit, and leave after they have been idle
//! for a while. A job that has begun runs to its end; jobs that are still queued when
//! the pool shuts down are cancelled.

use std::collections::VecDeque;
use vstd::prelude::*;

verus! {

broadcast use vstd::std_specs::vecdeque::group_vec_dequeue_axioms;

/// How many threads a pool has at most where nothing else is said.
pub const DEFAULT_MAX_BLOCKING_THREADS: usize = 512;

/// How long a thread stays idle where nothing else is said, in nanoseconds.
pub const DEFAULT_KEEP_ALIVE: u128 = 10_000_000_000;

/// What becomes of a job that is handed in.
pub enum Submitted<T> {
    /// The job is queued. A new thread is to be started for it, or one is called.
    Queued { spawn: bool },
    /// The pool is closed: the job is to be cancelled.
    Cancelled(T),
}

/// What a thread does next.
pub enum ThreadStep<T> {
    /// Run this job, which is no longer queued.
    Run(T),
    /// Wait for a job, for the keep-alive time at most.
    Wait,
    /// Leave.
    Exit,
}

/// The jobs and threads of a pool.
pub struct BlockingPool<T> {
    jobs: VecDeque<T>,
    idle: usize,
    num_threads: usize,
    max_threads: usize,
    closed: bool,
}

impl<T> BlockingPool<T> {
    /// The jobs that wait, in order.
    pub closed spec fn queued(&self) -> Seq<T> {
        self.jobs@
    }

    /// How many threads wait for a job.
    pub closed spec fn idle_threads(&self) -> nat {
        self.idle as nat
    }

    /// How many threads there are.
    pub closed spec fn threads(&self) -> nat {
        self.num_threads as nat
    }

    /// How many threads there may be.
    pub closed spec fn limit(&self) -> nat {
        self.max_threads as nat
    }

    /// Whether the pool takes no more jobs.
    pub closed spec fn is_closed(&self) -> bool {
        self.closed
    }

    /// There are never more threads than allowed, nor more that are idle than there are;
    /// and where a job is queued, there is a thread to run it.
    pub closed spec fn wf(&self) -> bool {
        &&& self.idle <= self.num_threads <= self.max_threads
        &&& self.max_threads > 0
        &&& self.jobs@.len() > 0 ==> self.num_threads > 0
    }

    /// A pool without threads.
    pub fn new(max_threads: usize) -> (pool: BlockingPool<T>)
        requires
            max_threads > 0,
        ensures
            pool.wf(),
            pool.queued() == Seq::<T>::empty(),
            pool.idle_threads() == 0,
            pool.threads() == 0,
            pool.limit() == max_threads,
            !pool.is_closed(),
    {
        BlockingPool { jobs: VecDeque::new(), idle: 0, num_threads: 0, max_threads, closed: false }
    }

    /// Queues a job. A thread is started for it where none is idle and the limit allows
    /// one more.
    pub fn submit(&mut self, task: T) -> (submitted: Submitted<T>)
        requires
            old(self).wf(),
        ensures
            final(self).wf(),
            final(self).limit() == old(self).limit(),
            final(self).is_closed() == old(self).is_closed(),
            final(self).idle_threads() == old(self).idle_threads(),
            if old(self).is_closed() {
                &&& submitted == Submitted::Cancelled(task)
                &&& final(self).queued() == old(self).queued()
                &&& final(self).threads() == old(self).threads()
            } else {
                let spawn = old(self).idle_threads() == 0 && old(self).threads() < old(
                    self,
                ).limit();
                &&& submitted == (Submitted::<T>::Queued { spawn })
                &&& final(self).queued() == old(self).queued().push(task)
                &&& final(self).threads() == old(self).threads() + if spawn {
                    1int
                } else {
                    0
                }
            },
    {
        if self.closed {
            return Submitted::Cancelled(task);
        }
        self.jobs.push_back(task);
        let spawn = self.idle == 0 && self.num_threads < self.max_threads;
        if spawn {
            self.num_threads = self.num_threads + 1;
        }
        Submitted::Queued { spawn }
    }

    /// What a thread does when it looks for a job: the oldest one, if there is one. An
    /// idle thread waits, and a thread of a closed pool leaves.
    pub fn next_job(&mut self) -> (step: ThreadStep<T>)
        requires
            old(self).wf(),
            old(self).idle_threads() < old(self).threads(),
        ensures
            final(self).wf(),
            final(self).limit() == old(self).limit(),
            final(self).is_closed() == old(self).is_closed(),
            if old(self).queued().len() > 0 {
                &&& step == ThreadStep::Run(old(self).queued()[0])
                &&& final(self).queued() == old(self).queued().skip(1)
                &&& final(self).idle_threads() == old(self).idle_threads()
                &&& final(self).threads() == old(self).threads()
            } else {
                &&& final(self).queued() == old(self).queued()
                &&& if old(self).is_closed() {
                    &&& step is Exit
                    &&& final(self).idle_threads() == old(self).idle_threads()
                    &&& final(self).threads() == old(self).threads() - 1
                } else {
                    &&& step is Wait
                    &&& final(self).idle_threads() == old(self).idle_threads() + 1
                    &&& final(self).threads() == old(self).threads()
                }
            },
    {
        match self.jobs.pop_front() {
            Some(job) => {
                assert(self.jobs@ =~= old(self).jobs@.skip(1));
                ThreadStep::Run(job)
            },
            None => {
                if self.closed {
                    self.num_threads = self.num_threads - 1;
                    ThreadStep::Exit
                } else {
                    self.idle = self.idle + 1;
                    ThreadStep::Wait
                }
            },
        }
    }

    /// A thread stops waiting. It leaves where its time is up and there is nothing to do;
    /// returns whether it does.
    pub fn wake(&mut self, timed_out: bool) -> (leaves: bool)
        requires
            old(self).wf(),
            old(self).idle_threads() > 0,
        ensures
            final(self).wf(),
            final(self).limit() == old(self).limit(),
            final(self).is_closed() == old(self).is_closed(),
            final(self).queued() == old(self).queued(),
            final(self).idle_threads() == old(self).idle_threads() - 1,
            leaves == (timed_out && old(self).queued().len() == 0 && !old(self).is_closed()),
            final(self).threads() == old(self).threads() - if leaves {
                1int
            } else {
                0
            },
    {
        self.idle = self.idle - 1;
        if timed_out && self.jobs.len() == 0 && !self.closed {
            self.num_threads = self.num_threads - 1;
            true
        } else {
            false
        }
    }

    /// Closes the pool. Returns the jobs that were queued, to be cancelled, the first time.
    pub fn shutdown(&mut self) -> (cancelled: Option<VecDeque<T>>)
        requires
            old(self).wf(),
        ensures
            final(self).wf(),
            final(self).limit() == old(self).limit(),
            final(self).is_closed(),
            final(self).idle_threads() == old(self).idle_threads(),
            final(self).threads() == old(self).threads(),
            match cancelled {
                Some(jobs) => !old(self).is_closed() && jobs@ == old(self).queued()
                    && final(self).queued() == Seq::<T>::empty(),
                None => old(self).is_closed() && final(self).queued() == old(self).queued(),
            },
    {
        if self.closed {
            return None;
        }
        self.closed = true;
        let mut jobs: VecDeque<T> = VecDeque::new();
        core::mem::swap(&mut jobs, &mut self.jobs);
        Some(jobs)
    }
}

/// There are never more threads than the limit, and no job is left without a thread:
/// this holds of every state that the pool's operations lead to.
pub proof fn law_pool_is_bounded_and_served<T>(pool: BlockingPool<T>)
    requires
        pool.wf(),
    ensures
        pool.idle_threads() <= pool.threads() <= pool.limit(),
        pool.queued().len() > 0 ==> pool.threads() > 0,
{
}

/// The work of a blocking task: it runs once, at the first poll.
pub struct BlockingTask<F> {
    task: Option<F>,
}

impl<F> BlockingTask<F> {
    /// Whether the work has not been done.
    pub closed spec fn pending(&self) -> Option<F> {
        self.task
    }

    /// Work that has not been done.
    pub fn new(task: F) -> (blocking: BlockingTask<F>)
        ensures
            blocking.pending() == Some(task),
    {
        BlockingTask { task: Some(task) }
    }

    /// Does the work, which must not have been done before.
    pub fn poll<R>(&mut self) -> (result: R) where F: FnOnce() -> R
        requires
            old(self).pending() matches Some(task) && task.requires(()),
        ensures
            final(self).pending() is None,
            old(self).pending()->Some_0.ensures((), result),
    {
        let task = self.task.take().unwrap();
        task()
    }
}

} // verus!
