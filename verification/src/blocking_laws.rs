//! What the blocking pool promises of its jobs and threads.

use crate::blocking::{BlockingPool, BlockingTask, Submitted, ThreadStep};
use vstd::prelude::*;

verus! {

/// Jobs are run in the order in which they were handed in: a thread takes the first of them
/// and leaves the others as they are. Where there is none it waits, or leaves a pool that
/// is closed.
pub proof fn law_jobs_are_run_in_order<T>()
    ensures
        forall|pool: &mut BlockingPool<T>, step: ThreadStep<T>| #[trigger]
            call_ensures(BlockingPool::<T>::next_job, (pool,), step) ==> {
                &&& step is Run <==> (*pool).queued().len() > 0
                &&& step is Run ==> seq![step->Run_0] + (*final(pool)).queued() == (*pool).queued()
                &&& step is Wait ==> !(*pool).is_closed() && (*final(pool)).idle_threads()
                    == (*pool).idle_threads() + 1
                &&& step is Exit ==> (*pool).is_closed() && (*final(pool)).threads() + 1
                    == (*pool).threads()
            },
{
    assert forall|pool: &mut BlockingPool<T>, step: ThreadStep<T>| #[trigger]
        call_ensures(BlockingPool::<T>::next_job, (pool,), step) implies {
        &&& step is Run <==> (*pool).queued().len() > 0
        &&& step is Run ==> seq![step->Run_0] + (*final(pool)).queued() == (*pool).queued()
        &&& step is Wait ==> !(*pool).is_closed() && (*final(pool)).idle_threads()
            == (*pool).idle_threads() + 1
        &&& step is Exit ==> (*pool).is_closed() && (*final(pool)).threads() + 1
            == (*pool).threads()
    } by {
        if (*pool).queued().len() > 0 {
            assert(seq![(*pool).queued()[0]] + (*pool).queued().skip(1) =~= (*pool).queued());
        }
    }
}

/// A job is queued behind the others, with a new thread exactly where none is idle and one
/// more is allowed. A pool that is closed gives it back.
pub proof fn law_jobs_are_queued_in_order<T>()
    ensures
        forall|pool: &mut BlockingPool<T>, job: T, submitted: Submitted<T>| #[trigger]
            call_ensures(BlockingPool::<T>::submit, (pool, job), submitted) ==> {
                &&& submitted is Cancelled <==> (*pool).is_closed()
                &&& submitted is Cancelled ==> submitted->Cancelled_0 == job
                    && (*final(pool)).queued() == (*pool).queued()
                    && (*final(pool)).threads() == (*pool).threads()
                &&& submitted is Queued ==> {
                    &&& (*final(pool)).queued() == (*pool).queued() + seq![job]
                    &&& submitted->spawn <==> (*pool).idle_threads() == 0 && (*pool).threads() < (
                    *pool).limit()
                    &&& submitted->spawn ==> (*final(pool)).threads() == (*pool).threads() + 1
                    &&& !submitted->spawn ==> (*final(pool)).threads() == (*pool).threads()
                }
                &&& (*final(pool)).idle_threads() == (*pool).idle_threads()
            },
{
    assert forall|pool: &mut BlockingPool<T>, job: T, submitted: Submitted<T>| #[trigger]
        call_ensures(BlockingPool::<T>::submit, (pool, job), submitted) implies {
        &&& submitted is Cancelled <==> (*pool).is_closed()
        &&& submitted is Cancelled ==> submitted->Cancelled_0 == job && (*final(pool)).queued()
            == (*pool).queued() && (*final(pool)).threads() == (*pool).threads()
        &&& submitted is Queued ==> {
            &&& (*final(pool)).queued() == (*pool).queued() + seq![job]
            &&& submitted->spawn <==> (*pool).idle_threads() == 0 && (*pool).threads() < (
            *pool).limit()
            &&& submitted->spawn ==> (*final(pool)).threads() == (*pool).threads() + 1
            &&& !submitted->spawn ==> (*final(pool)).threads() == (*pool).threads()
        }
        &&& (*final(pool)).idle_threads() == (*pool).idle_threads()
    } by {
        assert((*pool).queued().push(job) =~= (*pool).queued() + seq![job]);
    }
}

/// A thread that stops waiting is idle no more; it leaves only where its time is up, there
/// is no job, and the pool goes on.
pub proof fn law_idle_threads_leave_in_time<T>()
    ensures
        forall|pool: &mut BlockingPool<T>, timed_out: bool, leaves: bool| #[trigger]
            call_ensures(BlockingPool::<T>::wake, (pool, timed_out), leaves) ==> {
                &&& (*final(pool)).idle_threads() + 1 == (*pool).idle_threads()
                &&& leaves <==> timed_out && (*pool).queued().len() == 0 && !(*pool).is_closed()
                &&& leaves ==> (*final(pool)).threads() + 1 == (*pool).threads()
                &&& !leaves ==> (*final(pool)).threads() == (*pool).threads()
                &&& (*final(pool)).queued() == (*pool).queued()
            },
{
}

/// Closing a pool gives back what no thread has begun, in its order, the first time.
pub proof fn law_closing_gives_back_the_queue<T>()
    ensures
        forall|pool: &mut BlockingPool<T>, cancelled: Option<std::collections::VecDeque<T>>|
            #[trigger]
            call_ensures(BlockingPool::<T>::shutdown, (pool,), cancelled) ==> {
                &&& (*final(pool)).is_closed()
                &&& cancelled is Some <==> !(*pool).is_closed()
                &&& cancelled is Some ==> cancelled->0@ == (*pool).queued()
                    && (*final(pool)).queued().len() == 0
                &&& (*final(pool)).threads() == (*pool).threads()
            },
        forall|max: usize, pool: BlockingPool<T>| #[trigger]
            call_ensures(BlockingPool::<T>::new, (max,), pool) ==> pool.queued().len() == 0
                && pool.threads() == 0 && pool.idle_threads() == 0 && pool.limit() == max
                && !pool.is_closed(),
{
}

/// The limit of a pool never changes, and only closing it closes it.
pub proof fn law_pools_keep_their_limit<T>()
    ensures
        forall|pool: &mut BlockingPool<T>, job: T, out: Submitted<T>| #[trigger]
            call_ensures(BlockingPool::<T>::submit, (pool, job), out) ==> {
                &&& (*final(pool)).limit() == (*pool).limit()
                &&& (*final(pool)).is_closed() == (*pool).is_closed()
                &&& (*final(pool)).idle_threads() == (*pool).idle_threads()
            },
        forall|pool: &mut BlockingPool<T>, out: ThreadStep<T>| #[trigger]
            call_ensures(BlockingPool::<T>::next_job, (pool,), out) ==> {
                &&& (*final(pool)).limit() == (*pool).limit()
                &&& (*final(pool)).is_closed() == (*pool).is_closed()
            },
        forall|pool: &mut BlockingPool<T>, timed_out: bool, out: bool| #[trigger]
            call_ensures(BlockingPool::<T>::wake, (pool, timed_out), out) ==> {
                &&& (*final(pool)).limit() == (*pool).limit()
                &&& (*final(pool)).is_closed() == (*pool).is_closed()
                &&& (*final(pool)).queued() == (*pool).queued()
            },
        forall|pool: &mut BlockingPool<T>, out: Option<std::collections::VecDeque<T>>| #[trigger]
            call_ensures(BlockingPool::<T>::shutdown, (pool,), out) ==> {
                &&& (*final(pool)).limit() == (*pool).limit()
                &&& (*final(pool)).idle_threads() == (*pool).idle_threads()
                &&& (*final(pool)).threads() == (*pool).threads()
            },
{
}

/// Work is there until it is done.
pub proof fn law_work_is_kept_until_it_is_done<F>()
    ensures
        forall|work: F, task: BlockingTask<F>| #[trigger]
            call_ensures(BlockingTask::<F>::new, (work,), task) ==> task.pending() is Some
                && task.pending()->0 == work,
{
}

} // verus!
