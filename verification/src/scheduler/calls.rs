//! What calls of the schedulers do, in terms of the tasks that go in and come out.

use super::conserve::sound;
use super::current_thread::{CurrentThread, Deferred, Enqueued, Phase, RootStep};
use super::inject::Injector;
use super::laws;
use super::queue::{Blocked, Claim, Local};
use super::worker::{Placed, Shared, Step, WorkerState};
use vstd::prelude::*;

verus! {

/// Every scheduler in order has sound queues.
proof fn lemma_sound<T>(shared: &Shared<T>, id: int)
    requires
        shared.wf(),
        0 <= id < shared.workers(),
    ensures
        sound(shared.waiting(), id),
        shared.waiting().queues.len() == shared.workers(),
{
    super::worker::law_every_worker_has_its_place(shared);
}

/// A thief with room in its queue comes back with the oldest task of another worker where
/// any has one, wherever it begins to look, and empty-handed only where none has.
pub proof fn law_stealing<T>()
    ensures
        forall|shared: &mut Shared<T>, id: usize, start: usize, task: Option<T>| #[trigger]
            call_ensures(Shared::<T>::steal_work, (shared, id, start), task) && (*shared).wf() && id
                < (*shared).workers() && start < (*shared).workers()
                && (*shared).waiting().queues[id as int].len() < 256 ==> {
                let queues = (*shared).waiting().queues;
                &&& task is None <==> forall|other: int|
                    0 <= other < queues.len() && other != id ==> (#[trigger] queues[other]).len()
                        == 0
                &&& task is Some ==> exists|other: int|
                    0 <= other < queues.len() && other != id && (#[trigger] queues[other]).len() > 0
                        && task == Some(queues[other][0])
            },
{
    assert forall|shared: &mut Shared<T>, id: usize, start: usize, task: Option<T>| #[trigger]
        call_ensures(Shared::<T>::steal_work, (shared, id, start), task) && (*shared).wf() && id
            < (*shared).workers() && start < (*shared).workers()
            && (*shared).waiting().queues[id as int].len() < 256 implies {
        let queues = (*shared).waiting().queues;
        &&& task is None <==> forall|other: int|
            0 <= other < queues.len() && other != id ==> (#[trigger] queues[other]).len() == 0
        &&& task is Some ==> exists|other: int|
            0 <= other < queues.len() && other != id && (#[trigger] queues[other]).len() > 0
                && task == Some(queues[other][0])
    } by {
        lemma_sound(&*shared, id as int);
        laws::law_a_thief_finds_work((*shared).waiting(), id as int, start as int);
    }
}

/// A worker without work of its own, in a round that is not the injector's, runs a task that
/// it steals, where another worker has one and fewer than half of the workers search, and
/// that is counted.
pub proof fn law_idle_workers_steal<T>()
    ensures
        forall|
            shared: &mut Shared<T>,
            id: usize,
            state: &mut WorkerState,
            start: usize,
            takeover: bool,
            result: (Step<T>, Option<usize>),
        | #[trigger]
            call_ensures(
                Shared::<T>::worker_step,
                (shared, id, state, start, takeover),
                result,
            ) && (*shared).wf() && id < (*shared).workers() && start < (*shared).workers() && (
            *shared).waiting().queues[id as int].len() == 0 && (
            *shared).waiting().slots[id as int] is None
                && (*shared).waiting().inject.len() == 0 && (
            *shared).searching() + (*shared).searching() + 2 <= (*shared).workers() && (exists|
                other: int,
            |
                0 <= other < (*shared).workers() && other != id && (
                #[trigger] (*shared).waiting().queues[other]).len() > 0) ==> {
                let queues = (*shared).waiting().queues;
                &&& result.0 is Run
                &&& exists|other: int|
                    0 <= other < queues.len() && other != id && (#[trigger] queues[other]).len() > 0
                        && result.0->Run_0 == queues[other][0]
                &&& (*shared).steals() < usize::MAX ==> (*final(shared)).steals()
                    == (*shared).steals() + 1
            },
{
    assert forall|
        shared: &mut Shared<T>,
        id: usize,
        state: &mut WorkerState,
        start: usize,
        takeover: bool,
        result: (Step<T>, Option<usize>),
    | #[trigger]
        call_ensures(Shared::<T>::worker_step, (shared, id, state, start, takeover), result) && (
        *shared).wf() && id < (*shared).workers() && start < (*shared).workers() && (
        *shared).waiting().queues[id as int].len() == 0 && (
        *shared).waiting().slots[id as int] is None && (*shared).waiting().inject.len() == 0 && (
        *shared).searching() + (*shared).searching() + 2 <= (*shared).workers() && (exists|
            other: int,
        |
            0 <= other < (*shared).workers() && other != id && (
            #[trigger] (*shared).waiting().queues[other]).len() > 0) implies {
        let queues = (*shared).waiting().queues;
        &&& result.0 is Run
        &&& exists|other: int|
            0 <= other < queues.len() && other != id && (#[trigger] queues[other]).len() > 0
                && result.0->Run_0 == queues[other][0]
        &&& (*shared).steals() < usize::MAX ==> (*final(shared)).steals() == (*shared).steals() + 1
    } by {
        lemma_sound(&*shared, id as int);
        let other = choose|other: int|
            0 <= other < (*shared).workers() && other != id && (
            #[trigger] (*shared).waiting().queues[other]).len() > 0;
        assert((*shared).waiting().queues[other].len() > 0);
        laws::law_idle_workers_look_everywhere(
            (*shared).waiting(),
            (*shared).parked(),
            (*shared).searching(),
            *state,
            id as int,
            start as int,
            (*shared).is_shutdown(),
            takeover,
        );
    }
}

/// A worker leaves only where it was asked to, by a shutdown or by the one it stands in for,
/// and nothing is left for it: nothing of its own, and nothing in the injector unless it
/// stands in for another. Then it does leave, and does not park.
pub proof fn law_workers_leave_when_nothing_is_left<T>()
    ensures
        forall|
            shared: &mut Shared<T>,
            id: usize,
            state: &mut WorkerState,
            start: usize,
            takeover: bool,
            result: (Step<T>, Option<usize>),
        | #[trigger]
            call_ensures(
                Shared::<T>::worker_step,
                (shared, id, state, start, takeover),
                result,
            ) && !(result.0 is Run) ==> {
                let left = (*final(shared)).waiting();
                let asked = (*shared).is_shutdown() || takeover;
                let empty = left.queues[id as int].len() == 0 && left.slots[id as int] is None && (
                takeover || left.inject.len() == 0);
                &&& result.0 is Exit <==> asked && empty
                &&& result.0 is Park <==> !(asked && empty)
                &&& left == (*shared).waiting()
            },
{
}

/// A task goes to the end of the injector, into the free slot of its worker or to the end
/// of its worker's queue; a scheduler that is shut down takes none.
pub proof fn law_scheduling<T>()
    ensures
        forall|
            shared: &mut Shared<T>,
            task: T,
            target: usize,
            current: Option<usize>,
            placed: Placed,
        | #[trigger]
            call_ensures(Shared::<T>::schedule, (shared, task, target, current), placed) && (
            *shared).wf() && target < (*shared).workers() && !(*shared).is_shutdown() ==> {
                let before = (*shared).waiting();
                let after = (*final(shared)).waiting();
                &&& current != Some(target) ==> placed is Injected && after.inject == before.inject
                    + seq![task]
                &&& current == Some(target) && (*shared).lifo_slot_enabled()
                    && before.slots[target as int] is None ==> placed is Slot
                    && after.slots[target as int] == Some(task)
                &&& current == Some(target) && !((*shared).lifo_slot_enabled()
                    && before.slots[target as int] is None)
                    && before.queues[target as int].len() < 256 ==> placed is Local
                    && after.queues[target as int] == before.queues[target as int] + seq![task]
            },
        forall|
            shared: &mut Shared<T>,
            task: T,
            target: usize,
            current: Option<usize>,
            placed: Placed,
        | #[trigger]
            call_ensures(Shared::<T>::schedule, (shared, task, target, current), placed) && (
            *shared).is_shutdown() ==> placed is Dropped && (*final(shared)).waiting() == (
            *shared).waiting(),
{
    assert forall|
        shared: &mut Shared<T>,
        task: T,
        target: usize,
        current: Option<usize>,
        placed: Placed,
    | #[trigger]
        call_ensures(Shared::<T>::schedule, (shared, task, target, current), placed) && (
        *shared).wf() && target < (*shared).workers() && !(*shared).is_shutdown() implies {
        let before = (*shared).waiting();
        let after = (*final(shared)).waiting();
        &&& current != Some(target) ==> placed is Injected && after.inject == before.inject + seq![
            task,
        ]
        &&& current == Some(target) && (*shared).lifo_slot_enabled()
            && before.slots[target as int] is None ==> placed is Slot && after.slots[target as int]
            == Some(task)
        &&& current == Some(target) && !((*shared).lifo_slot_enabled()
            && before.slots[target as int] is None) && before.queues[target as int].len() < 256
            ==> placed is Local && after.queues[target as int] == before.queues[target as int]
            + seq![task]
    } by {
        lemma_sound(&*shared, target as int);
        let before = (*shared).waiting();
        assert(before.inject.push(task) =~= before.inject + seq![task]);
        let queue = before.queues[target as int];
        assert(queue.push(task) =~= queue + seq![task]);
    }
}

/// A worker parks only where neither the injector nor its own slot and queue hold a task,
/// and is marked as parked exactly then. Leaving the park takes the mark away.
pub proof fn law_parking<T>()
    ensures
        forall|shared: &mut Shared<T>, id: usize, block: bool| #[trigger]
            call_ensures(Shared::<T>::begin_park, (shared, id), block) && (*shared).wf() && id
                < (*shared).workers() ==> {
                let w = (*shared).waiting();
                &&& block <==> w.inject.len() == 0 && w.slots[id as int] is None
                    && w.queues[id as int].len() == 0
                &&& (*final(shared)).parked()[id as int] == block
                &&& forall|other: int|
                    0 <= other < (*shared).workers() && other != id
                        ==> #[trigger] (*final(shared)).parked()[other] == (
                    *shared).parked()[other]
                &&& (*final(shared)).waiting() == w
            },
        forall|shared: &mut Shared<T>, id: usize| #[trigger]
            call_ensures(Shared::<T>::end_park, (shared, id), ()) && (*shared).wf() && id < (
            *shared).workers() ==> !(*final(shared)).parked()[id as int],
        forall|shared: &mut Shared<T>, woken: Option<usize>| #[trigger]
            call_ensures(Shared::<T>::unpark_any, (shared,), woken) && (*shared).wf() && (
            *shared).workers() <= usize::MAX ==> {
                &&& woken is None ==> forall|k: int|
                    0 <= k < (*shared).parked().len() ==> !#[trigger] (*shared).parked()[k]
                &&& woken is Some ==> woken->0 < (*shared).parked().len() && (
                *shared).parked()[woken->0 as int] && !(*final(shared)).parked()[woken->0 as int]
            },
{
    assert forall|shared: &mut Shared<T>, id: usize, block: bool| #[trigger]
        call_ensures(Shared::<T>::begin_park, (shared, id), block) && (*shared).wf() && id < (
        *shared).workers() implies {
        let w = (*shared).waiting();
        &&& block <==> w.inject.len() == 0 && w.slots[id as int] is None
            && w.queues[id as int].len() == 0
        &&& (*final(shared)).parked()[id as int] == block
        &&& forall|other: int|
            0 <= other < (*shared).workers() && other != id
                ==> #[trigger] (*final(shared)).parked()[other] == (*shared).parked()[other]
        &&& (*final(shared)).waiting() == w
    } by {
        super::worker::law_every_worker_has_its_place(&*shared);
    }
    assert forall|shared: &mut Shared<T>, id: usize| #[trigger]
        call_ensures(Shared::<T>::end_park, (shared, id), ()) && (*shared).wf() && id < (
        *shared).workers() implies !(*final(shared)).parked()[id as int] by {
        super::worker::law_every_worker_has_its_place(&*shared);
    }
    assert forall|shared: &mut Shared<T>, woken: Option<usize>| #[trigger]
        call_ensures(Shared::<T>::unpark_any, (shared,), woken) && (*shared).wf() && (
        *shared).workers() <= usize::MAX implies {
        &&& woken is None ==> forall|k: int|
            0 <= k < (*shared).parked().len() ==> !#[trigger] (*shared).parked()[k]
        &&& woken is Some ==> woken->0 < (*shared).parked().len() && (
        *shared).parked()[woken->0 as int] && !(*final(shared)).parked()[woken->0 as int]
    } by {
        super::worker::law_every_worker_has_its_place(&*shared);
        laws::lemma_first_parked((*shared).parked(), 0);
    }
}

/// Tasks from outside of the workers are spread over them in turn; a worker's own tasks
/// stay with it.
pub proof fn law_spawning<T>()
    ensures
        forall|shared: &mut Shared<T>, current: Option<usize>, target: usize| #[trigger]
            call_ensures(Shared::<T>::spawn_target, (shared, current), target) ==> {
                &&& current is Some ==> target == current->0
                &&& current is None ==> target as int == (*shared).next_worker() as int % (
                *shared).workers() as int
                &&& current is None
                    && (*shared).next_worker() < usize::MAX
                    ==> (*final(shared)).next_worker() == (*shared).next_worker() + 1
                &&& (*final(shared)).waiting() == (*shared).waiting()
            },
{
}

/// What a worker that blocks hands over is all it has, in order; taking it back gives it
/// the same.
pub proof fn law_taking_over<T>()
    ensures
        forall|shared: &mut Shared<T>, id: usize, takeover: super::worker::Takeover<T>| #[trigger]
            call_ensures(Shared::<T>::begin_takeover, (shared, id), takeover) && (*shared).wf()
                && id < (*shared).workers() ==> {
                &&& takeover.tasks() is Some && takeover.tasks()->0 == (
                *shared).waiting().queues[id as int]
                &&& takeover.slot() == (*shared).waiting().slots[id as int]
                &&& !takeover.requested() && !takeover.returned()
            },
        forall|shared: &mut Shared<T>, id: usize, takeover: &mut super::worker::Takeover<T>|
            #[trigger]
            call_ensures(Shared::<T>::hand_back, (shared, id, takeover), ()) ==> {
                &&& (*final(takeover)).tasks() is Some && (*final(takeover)).tasks()->0 == (
                *shared).waiting().queues[id as int]
                &&& (*final(takeover)).slot() == (*shared).waiting().slots[id as int]
                &&& (*final(takeover)).returned()
            },
{
}

// ---------------------------------------------------------------------------
// Queues
// ---------------------------------------------------------------------------

/// A local queue takes tasks at its end while there is room, gives its owner the newest,
/// and a thief the oldest.
pub proof fn law_local_queues<T>()
    ensures
        forall|queue: &mut Local<T>, task: T, result: Result<(), T>| #[trigger]
            call_ensures(Local::<T>::push_back, (queue, task), result) ==> {
                &&& result is Ok <==> (*queue).reserved() + (*queue).tasks().len() < (
                *queue).capacity()
                &&& result is Ok ==> (*final(queue)).tasks() == (*queue).tasks().push(task)
                &&& result is Err ==> result->Err_0 == task && (*final(queue)).tasks() == (
                *queue).tasks()
            },
        forall|queue: &mut Local<T>, task: Option<T>| #[trigger]
            call_ensures(Local::<T>::pop, (queue,), task) ==> {
                &&& task is Some <==> (*queue).reserved() == 0 && (*queue).tasks().len() > 0
                &&& task is Some ==> task->0 == (*queue).tasks()[(*queue).tasks().len() - 1]
                    && (*final(queue)).tasks() == (*queue).tasks().take(
                    (*queue).tasks().len() - 1,
                )
            },
        forall|queue: &mut Local<T>, room: usize, claim: Option<Claim<T>>| #[trigger]
            call_ensures(Local::<T>::claim, (queue, room), claim) ==> {
                let n = claim->0.tasks().len();
                &&& claim is Some <==> (*queue).tasks().len() > 0 && room > 0
                &&& claim is Some ==> {
                    &&& 1 <= n <= room && (n == 1 || n + n <= (*queue).tasks().len())
                    &&& n == room || (*queue).tasks().len() < n + n + 2
                    &&& claim->0.tasks() == (*queue).tasks().take(n as int)
                    &&& (*final(queue)).tasks() == (*queue).tasks().skip(n as int)
                }
            },
        forall|queue: &mut Local<T>, dst: &mut Local<T>, first: Option<T>| #[trigger]
            call_ensures(Local::<T>::steal_into, (queue, dst), first) && (*dst).reserved() + (
            *dst).tasks().len() < (*dst).capacity() && (*queue).tasks().len() > 0 ==> {
                &&& first is Some && first->0 == (*queue).tasks()[0]
                &&& (*final(queue)).tasks().len() < (*queue).tasks().len()
            },
{
    assert forall|queue: &mut Local<T>, task: Option<T>| #[trigger]
        call_ensures(Local::<T>::pop, (queue,), task) implies {
        &&& task is Some <==> (*queue).reserved() == 0 && (*queue).tasks().len() > 0
        &&& task is Some ==> task->0 == (*queue).tasks()[(*queue).tasks().len() - 1]
            && (*final(queue)).tasks() == (*queue).tasks().take((*queue).tasks().len() - 1)
    } by {
        if task is Some {
            assert((*queue).tasks().drop_last() =~= (*queue).tasks().take(
                (*queue).tasks().len() - 1,
            ));
        }
    }
    assert forall|queue: &mut Local<T>, room: usize, claim: Option<Claim<T>>| #[trigger]
        call_ensures(Local::<T>::claim, (queue, room), claim) implies {
        let n = claim->0.tasks().len();
        &&& claim is Some <==> (*queue).tasks().len() > 0 && room > 0
        &&& claim is Some ==> {
            &&& 1 <= n <= room && (n == 1 || n + n <= (*queue).tasks().len())
            &&& n == room || (*queue).tasks().len() < n + n + 2
            &&& claim->0.tasks() == (*queue).tasks().take(n as int)
            &&& (*final(queue)).tasks() == (*queue).tasks().skip(n as int)
        }
    } by {
        if claim is Some {
            laws::law_a_thief_takes_half((*queue).tasks().len(), room as nat);
        }
    }
    assert forall|queue: &mut Local<T>, dst: &mut Local<T>, first: Option<T>| #[trigger]
        call_ensures(Local::<T>::steal_into, (queue, dst), first) && (*dst).reserved() + (
        *dst).tasks().len() < (*dst).capacity() && (*queue).tasks().len() > 0 implies {
        &&& first is Some && first->0 == (*queue).tasks()[0]
        &&& (*final(queue)).tasks().len() < (*queue).tasks().len()
    } by {
        let room = ((*dst).capacity() - (*dst).reserved() - (*dst).tasks().len()) as nat;
        laws::law_a_thief_takes_half((*queue).tasks().len(), room);
    }
}

/// The injector is first in, first out, until it is closed; what it holds then can still be
/// taken.
pub proof fn law_the_injector_is_first_in_first_out<T>()
    ensures
        forall|injector: &mut Injector<T>, task: T| #[trigger]
            call_ensures(Injector::<T>::push, (injector, task), ()) ==> (*final(injector)).tasks()
                == (if (*injector).closed() {
                (*injector).tasks()
            } else {
                (*injector).tasks() + seq![task]
            }),
        forall|injector: &mut Injector<T>, task: Option<T>| #[trigger]
            call_ensures(Injector::<T>::pop, (injector,), task) ==> {
                &&& task is Some <==> (*injector).tasks().len() > 0
                &&& task is Some ==> seq![task->0] + (*final(injector)).tasks() == (
                *injector).tasks()
            },
        forall|injector: &mut Injector<T>, limit: usize, tasks: Vec<T>| #[trigger]
            call_ensures(Injector::<T>::pop_n, (injector, limit), tasks) ==> {
                &&& tasks@ + (*final(injector)).tasks() == (*injector).tasks()
                &&& tasks@.len() == limit || (*final(injector)).tasks().len() == 0
                &&& tasks@.len() <= limit
            },
{
    assert forall|injector: &mut Injector<T>, task: T| #[trigger]
        call_ensures(Injector::<T>::push, (injector, task), ()) implies (*final(injector)).tasks()
        == (if (*injector).closed() {
        (*injector).tasks()
    } else {
        (*injector).tasks() + seq![task]
    }) by {
        assert((*injector).tasks().push(task) =~= (*injector).tasks() + seq![task]);
    }
    assert forall|injector: &mut Injector<T>, task: Option<T>| #[trigger]
        call_ensures(Injector::<T>::pop, (injector,), task) implies {
        &&& task is Some <==> (*injector).tasks().len() > 0
        &&& task is Some ==> seq![task->0] + (*final(injector)).tasks() == (*injector).tasks()
    } by {
        if task is Some {
            assert(seq![(*injector).tasks()[0]] + (*injector).tasks().drop_first() =~= (
            *injector).tasks());
        }
    }
    assert forall|injector: &mut Injector<T>, limit: usize, tasks: Vec<T>| #[trigger]
        call_ensures(Injector::<T>::pop_n, (injector, limit), tasks) implies {
        &&& tasks@ + (*final(injector)).tasks() == (*injector).tasks()
        &&& tasks@.len() == limit || (*final(injector)).tasks().len() == 0
        &&& tasks@.len() <= limit
    } by {
        let all = (*injector).tasks();
        let n = tasks@.len() as int;
        assert(all.take(n) + all.skip(n) =~= all);
    }
}

/// A claim is freed once it is the first of those that are open, and handed back until then;
/// the tasks that are free stay as they are.
pub proof fn law_claims_are_freed_in_order<T>()
    ensures
        forall|queue: &mut Local<T>, claim: Claim<T>, result: Result<(), Claim<T>>| #[trigger]
            call_ensures(Local::<T>::commit, (queue, claim), result) ==> {
                let first = (*queue).claims()[0] == claim.range();
                &&& result is Ok <==> first
                &&& result is Err ==> result->Err_0 == claim && (*final(queue)).claims() == (
                *queue).claims() && (*final(queue)).reserved() == (*queue).reserved()
                &&& result is Ok ==> (*final(queue)).claims() == (*queue).claims().drop_first()
                    && (*final(queue)).reserved() == (*queue).reserved() - claim.range().1
                &&& (*final(queue)).tasks() == (*queue).tasks()
                &&& (*final(queue)).capacity() == (*queue).capacity()
            },
        forall|claim: &mut Claim<T>, tasks: Vec<T>| #[trigger]
            call_ensures(Claim::<T>::take_tasks, (claim,), tasks) ==> tasks@ == (*claim).tasks()
                && (*final(claim)).tasks().len() == 0 && (*final(claim)).range() == (
            *claim).range(),
        forall|queue: Local<T>, space: usize| #[trigger]
            call_ensures(Local::<T>::available_space, (&queue,), space) ==> space
                + queue.reserved() + queue.tasks().len() == queue.capacity(),
        forall|queue: Local<T>, len: usize| #[trigger]
            call_ensures(Local::<T>::len, (&queue,), len) ==> len == queue.reserved()
                + queue.tasks().len(),
        forall|queue: Local<T>| #[trigger]
            call_ensures(Local::<T>::new, (), queue) ==> queue.tasks().len() == 0
                && queue.reserved() == 0 && queue.capacity() == 256,
        forall|capacity: usize, queue: Local<T>| #[trigger]
            call_ensures(Local::<T>::with_capacity, (capacity,), queue) ==> queue.tasks().len()
                == 0 && queue.reserved() == 0 && queue.capacity() == capacity,
{
}

/// A task that is pushed onto a full queue stays, and the older half of the others moves to
/// the overflow, the oldest one first and the rest behind it in reverse; no task is lost and
/// none is doubled. Where thieves still hold slots the task waits.
pub proof fn law_a_full_queue_overflows<T>()
    ensures
        forall|queue: &mut Local<T>, task: T, overflow: &mut Vec<T>, result: Result<(), Blocked<T>>|
            #[trigger]
            call_ensures(Local::<T>::push_overflow, (queue, task, overflow), result) ==> {
                let tasks = (*queue).tasks();
                let after = (*final(queue)).tasks();
                let out = (*final(overflow))@;
                let room = (*queue).reserved() + tasks.len() < (*queue).capacity();
                let n = out.len() - (*overflow)@.len();
                &&& result is Ok <==> room || (tasks.len() > 0 && (*queue).reserved() == 0)
                &&& room ==> out == (*overflow)@ && after == tasks + seq![task]
                &&& result is Err ==> result->Err_0.value == task && (result->Err_0.claim is None
                    <==> tasks.len() == 0)
                &&& !room && tasks.len() == 0 ==> out == (*overflow)@ && after == tasks
                &&& !room && tasks.len() > 0 ==> {
                    &&& n >= 1 && n <= 256 && (n == 1 || n + n <= tasks.len())
                    &&& n == 256 || tasks.len() < n + n + 2
                    &&& out.take((*overflow)@.len() as int) == (*overflow)@
                    &&& out[(*overflow)@.len() as int] == tasks[0]
                    &&& forall|k: int|
                        1 <= k < n ==> #[trigger] out[(*overflow)@.len() + k] == tasks[n - k]
                    &&& result is Ok ==> after == tasks.skip(n) + seq![task]
                    &&& result is Err ==> after == tasks.skip(n)
                }
            },
{
    assert forall|
        queue: &mut Local<T>,
        task: T,
        overflow: &mut Vec<T>,
        result: Result<(), Blocked<T>>,
    | #[trigger]
        call_ensures(Local::<T>::push_overflow, (queue, task, overflow), result) implies {
        let tasks = (*queue).tasks();
        let after = (*final(queue)).tasks();
        let out = (*final(overflow))@;
        let room = (*queue).reserved() + tasks.len() < (*queue).capacity();
        let n = out.len() - (*overflow)@.len();
        &&& result is Ok <==> room || (tasks.len() > 0 && (*queue).reserved() == 0)
        &&& room ==> out == (*overflow)@ && after == tasks + seq![task]
        &&& result is Err ==> result->Err_0.value == task && (result->Err_0.claim is None
            <==> tasks.len() == 0)
        &&& !room && tasks.len() == 0 ==> out == (*overflow)@ && after == tasks
        &&& !room && tasks.len() > 0 ==> {
            &&& n >= 1 && n <= 256 && (n == 1 || n + n <= tasks.len())
            &&& n == 256 || tasks.len() < n + n + 2
            &&& out.take((*overflow)@.len() as int) == (*overflow)@
            &&& out[(*overflow)@.len() as int] == tasks[0]
            &&& forall|k: int|
                1 <= k < n ==> #[trigger] out[(*overflow)@.len() + k] == tasks[n - k]
            &&& result is Ok ==> after == tasks.skip(n) + seq![task]
            &&& result is Err ==> after == tasks.skip(n)
        }
    } by {
        let tasks = (*queue).tasks();
        let before = (*overflow)@;
        let room = (*queue).reserved() + tasks.len() < (*queue).capacity();
        if room {
            assert(tasks.push(task) =~= tasks + seq![task]);
        } else if tasks.len() > 0 {
            let count = super::queue::steal_count(tasks.len(), 256) as int;
            laws::law_a_thief_takes_half(tasks.len(), 256);
            let moved = seq![tasks[0]] + tasks.subrange(1, count).reverse();
            let out = (*final(overflow))@;
            assert(out == before + moved);
            assert(moved.len() == count);
            assert(out.take(before.len() as int) =~= before);
            assert(tasks.skip(count).push(task) =~= tasks.skip(count) + seq![task]);
            assert forall|k: int| 1 <= k < count implies #[trigger] out[before.len() + k]
                == tasks[count - k] by {
                assert(moved[k] == tasks.subrange(1, count).reverse()[k - 1]);
            }
        }
    }
}

/// A task that waits for room is added once its turn has come, and is handed back until then.
pub proof fn law_a_blocked_task_is_added_in_its_turn<T>()
    ensures
        forall|queue: &mut Local<T>, blocked: Blocked<T>, result: Result<(), Blocked<T>>|
            #[trigger]
            call_ensures(Local::<T>::finish_overflow, (queue, blocked), result) ==> {
                let due = if blocked.claim is Some {
                    (*queue).claims()[0] == blocked.claim->0.range()
                } else {
                    (*queue).reserved() + (*queue).tasks().len() < (*queue).capacity()
                };
                &&& result is Ok <==> due
                &&& result is Ok ==> (*final(queue)).tasks() == (*queue).tasks().push(
                    blocked.value,
                )
                &&& result is Err ==> result->Err_0 == blocked && (*final(queue)).tasks() == (
                *queue).tasks()
                &&& (*final(queue)).capacity() == (*queue).capacity()
            },
{
}

/// Tasks that are handed in together are queued together, in their order, unless the
/// injector is closed; closing it keeps what it holds.
pub proof fn law_batches_keep_their_order<T>()
    ensures
        forall|injector: &mut Injector<T>, tasks: Vec<T>| #[trigger]
            call_ensures(Injector::<T>::push_batch, (injector, tasks), ()) ==> {
                &&& (*injector).closed() ==> (*final(injector)).tasks() == (*injector).tasks()
                &&& !(*injector).closed() ==> (*final(injector)).tasks() == (*injector).tasks()
                    + tasks@
                &&& (*final(injector)).closed() == (*injector).closed()
            },
        forall|injector: &mut Injector<T>| #[trigger]
            call_ensures(Injector::<T>::close, (injector,), ()) ==> (*final(injector)).closed()
                && (*final(injector)).tasks() == (*injector).tasks(),
        forall|injector: Injector<T>| #[trigger]
            call_ensures(Injector::<T>::new, (), injector) ==> injector.tasks().len() == 0
                && !injector.closed(),
        forall|injector: Injector<T>, len: usize| #[trigger]
            call_ensures(Injector::<T>::len, (&injector,), len) ==> len == injector.tasks().len(),
        forall|injector: Injector<T>, closed: bool| #[trigger]
            call_ensures(Injector::<T>::is_closed, (&injector,), closed) ==> closed
                == injector.closed(),
{
}

/// A worker takes the task in its slot at most three times in a row, then starts again; the
/// oldest task of the injector; and, where too many search, nothing of the others.
pub proof fn law_where_a_worker_finds_tasks<T>()
    ensures
        forall|shared: &mut Shared<T>, id: usize, polls: &mut u8, task: Option<T>| #[trigger]
            call_ensures(Shared::<T>::next_lifo, (shared, id, polls), task) ==> {
                let slot = (*shared).waiting().slots[id as int];
                &&& task is Some <==> *polls < 3 && slot is Some
                &&& task is Some ==> task == slot && *final(polls) == *polls + 1
                &&& *polls >= 3 ==> *final(polls) == 0
                &&& *polls < 3 && slot is None ==> *final(polls) == *polls
                &&& (*final(shared)).waiting().inject == (*shared).waiting().inject
                &&& (*final(shared)).waiting().queues == (*shared).waiting().queues
            },
        forall|shared: &mut Shared<T>, id: usize, task: Option<T>| #[trigger]
            call_ensures(Shared::<T>::take_injected, (shared, id), task) ==> {
                let queue = (*shared).waiting().inject;
                &&& task is Some <==> queue.len() > 0
                &&& task is Some ==> task->0 == queue[0] && (*final(shared)).waiting().inject
                    == queue.skip(1)
                &&& task is None ==> (*final(shared)).waiting() == (*shared).waiting()
                &&& (*final(shared)).waiting().queues == (*shared).waiting().queues
            },
        forall|shared: &mut Shared<T>, id: usize, start: usize, found: (Option<T>, Option<usize>)|
            #[trigger]
            call_ensures(Shared::<T>::search_and_steal, (shared, id, start), found) && (
            *shared).waiting().queues.len() <= (*shared).searching() + (*shared).searching() + 1
                ==> found.0 is None && found.1 is None && (*final(shared)).waiting() == (
            *shared).waiting(),
        forall|shared: Shared<T>, id: usize, found: bool| #[trigger]
            call_ensures(Shared::<T>::has_work, (&shared, id), found) ==> (found
                <==> shared.waiting().inject.len() > 0 || shared.waiting().slots[id as int] is Some
                || shared.waiting().queues[id as int].len() > 0),
{
    assert forall|shared: &mut Shared<T>, id: usize, task: Option<T>| #[trigger]
        call_ensures(Shared::<T>::take_injected, (shared, id), task) implies {
        let queue = (*shared).waiting().inject;
        &&& task is Some <==> queue.len() > 0
        &&& task is Some ==> task->0 == queue[0] && (*final(shared)).waiting().inject
            == queue.skip(1)
        &&& task is None ==> (*final(shared)).waiting() == (*shared).waiting()
        &&& (*final(shared)).waiting().queues == (*shared).waiting().queues
    } by {
        let queue = (*shared).waiting().inject;
        if queue.len() > 0 {
            assert(queue.drop_first() =~= queue.skip(1));
        }
    }
}

/// A scheduler begins with at least one worker, nothing to run and no one parked.
pub proof fn law_schedulers_begin_empty<T>()
    ensures
        forall|workers: usize, lifo: bool, shared: Shared<T>| #[trigger]
            call_ensures(Shared::<T>::new, (workers, lifo), shared) ==> {
                &&& shared.workers() >= 1 && shared.workers() >= workers && (shared.workers() == 1
                    || shared.workers() == workers)
                &&& shared.waiting().inject.len() == 0
                &&& shared.searching() == 0 && shared.steals() == 0 && shared.next_worker() == 0
                &&& !shared.is_shutdown()
                &&& shared.lifo_slot_enabled() == lifo
                &&& forall|i: int|
                    0 <= i < shared.workers() ==> (#[trigger] shared.waiting().queues[i]).len()
                        == 0
                &&& forall|i: int|
                    0 <= i < shared.workers() ==> #[trigger] shared.waiting().slots[i] is None
                &&& forall|i: int| 0 <= i < shared.workers() ==> !#[trigger] shared.parked()[i]
            },
{
}

// ---------------------------------------------------------------------------
// One thread
// ---------------------------------------------------------------------------

/// Local tasks run in the order in which they became runnable: the next one is the first of
/// the queue and the others stay in order, and a new one goes behind them.
pub proof fn law_one_thread_is_first_in_first_out<T>()
    ensures
        forall|scheduler: &mut CurrentThread<T>, task: Option<T>| #[trigger]
            call_ensures(CurrentThread::<T>::next_task, (scheduler,), task) && (
            *scheduler)@.deferred.len() == 0 && (*scheduler)@.injection.len() == 0 ==> {
                &&& task is Some <==> (*scheduler)@.local.len() > 0
                &&& task is Some ==> seq![task->0] + (*final(scheduler))@.local == (
                *scheduler)@.local
            },
        forall|scheduler: &mut CurrentThread<T>, task: T, thread: u64, placed: Enqueued| #[trigger]
            call_ensures(CurrentThread::<T>::enqueue, (scheduler, task, thread), placed) && (
            *scheduler)@.owner == Some(thread) && !(*scheduler)@.closed ==> {
                &&& placed is Local
                &&& (*final(scheduler))@.local == (*scheduler)@.local + seq![task]
                &&& (*final(scheduler))@.injection == (*scheduler)@.injection
            },
        forall|scheduler: &mut CurrentThread<T>, task: Option<T>| #[trigger]
            call_ensures(CurrentThread::<T>::drain_next, (scheduler,), task) ==> {
                let before = (*scheduler)@.deferred + (*scheduler)@.local + (
                *scheduler)@.injection;
                let after = (*final(scheduler))@.deferred + (*final(scheduler))@.local + (*final(scheduler))@.injection;
                &&& task is None <==> before.len() == 0
                &&& task is Some ==> seq![task->0] + after == before
                &&& task is None ==> (*final(scheduler))@.shutdown_complete
            },
        forall|scheduler: &mut CurrentThread<T>, task: T, thread: u64, result: Deferred<T>|
            #[trigger]
            call_ensures(CurrentThread::<T>::defer_dealloc, (scheduler, task, thread), result) ==> {
                let gone = (*scheduler)@.closed && (*scheduler)@.shutdown_complete;
                let mine = (*scheduler)@.owner == Some(thread) || ((*scheduler)@.closed && (
                *scheduler)@.owner_thread == thread);
                &&& result is Kept <==> gone && !mine
                &&& result is Kept ==> result->Kept_0 == task
                &&& result is Queued ==> (*final(scheduler))@.deferred == (*scheduler)@.deferred
                    + seq![task]
            },
{
    assert forall|scheduler: &mut CurrentThread<T>, task: Option<T>| #[trigger]
        call_ensures(CurrentThread::<T>::next_task, (scheduler,), task) && (
        *scheduler)@.deferred.len() == 0 && (*scheduler)@.injection.len() == 0 implies {
        &&& task is Some <==> (*scheduler)@.local.len() > 0
        &&& task is Some ==> seq![task->0] + (*final(scheduler))@.local == (*scheduler)@.local
    } by {
        laws::law_one_thread_runs_tasks_in_order((*scheduler)@);
    }
    assert forall|scheduler: &mut CurrentThread<T>, task: T, thread: u64, placed: Enqueued|
        #[trigger]
        call_ensures(CurrentThread::<T>::enqueue, (scheduler, task, thread), placed) && (
        *scheduler)@.owner == Some(thread) && !(*scheduler)@.closed implies {
        &&& placed is Local
        &&& (*final(scheduler))@.local == (*scheduler)@.local + seq![task]
        &&& (*final(scheduler))@.injection == (*scheduler)@.injection
    } by {
        laws::law_runnable_tasks_go_to_the_end((*scheduler)@, task, thread);
    }
    assert forall|scheduler: &mut CurrentThread<T>, task: Option<T>| #[trigger]
        call_ensures(CurrentThread::<T>::drain_next, (scheduler,), task) implies {
        let before = (*scheduler)@.deferred + (*scheduler)@.local + (*scheduler)@.injection;
        let after = (*final(scheduler))@.deferred + (*final(scheduler))@.local + (*final(scheduler))@.injection;
        &&& task is None <==> before.len() == 0
        &&& task is Some ==> seq![task->0] + after == before
        &&& task is None ==> (*final(scheduler))@.shutdown_complete
    } by {
        laws::law_shutdown_drains_in_order((*scheduler)@);
    }
    assert forall|scheduler: &mut CurrentThread<T>, task: T, thread: u64, result: Deferred<T>|
        #[trigger]
        call_ensures(CurrentThread::<T>::defer_dealloc, (scheduler, task, thread), result) implies {
        let gone = (*scheduler)@.closed && (*scheduler)@.shutdown_complete;
        let mine = (*scheduler)@.owner == Some(thread) || ((*scheduler)@.closed && (
        *scheduler)@.owner_thread == thread);
        &&& result is Kept <==> gone && !mine
        &&& result is Kept ==> result->Kept_0 == task
        &&& result is Queued ==> (*final(scheduler))@.deferred == (*scheduler)@.deferred + seq![
            task,
        ]
    } by {
        assert((*scheduler)@.deferred.push(task) =~= (*scheduler)@.deferred + seq![task]);
    }
}

/// A step of the owner is the one that a round makes of the scheduler, the phase and whether
/// the root future was woken.
pub proof fn law_steps_of_the_owner<T>()
    ensures
        forall|
            scheduler: &mut CurrentThread<T>,
            phase: &mut Phase,
            woken: &mut bool,
            step: RootStep<T>,
        | #[trigger]
            call_ensures(CurrentThread::<T>::root_step, (scheduler, phase, woken), step) ==> (
            step,
            *final(phase),
            *final(woken),
            (*final(scheduler))@,
        ) == super::current_thread::root_round((*scheduler)@, *phase, *woken),
        forall|scheduler: &mut CurrentThread<T>, thread: u64| #[trigger]
            call_ensures(CurrentThread::<T>::enter, (scheduler, thread), ())
                ==> (*final(scheduler))@.owner == Some(thread)
                && (*final(scheduler))@.local == (*scheduler)@.local,
        forall|scheduler: &mut CurrentThread<T>, thread: u64| #[trigger]
            call_ensures(CurrentThread::<T>::leave, (scheduler, thread), ()) ==> {
                &&& (*scheduler)@.owner == Some(thread) ==> (*final(scheduler))@.owner is None
                &&& (*scheduler)@.owner != Some(thread) ==> (*final(scheduler))@.owner == (
                *scheduler)@.owner
            },
{
}

} // verus!
