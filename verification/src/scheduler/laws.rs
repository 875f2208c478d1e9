//! Who runs what, and in which order: laws of the schedulers' decisions.

use super::conserve::sound;
use super::current_thread;
use super::current_thread::{CurrentState, Phase};
use super::queue;
use super::worker;
use super::worker::{Waiting, WorkerState};
use vstd::prelude::*;

verus! {

// ---------------------------------------------------------------------------
// Stealing
// ---------------------------------------------------------------------------

/// A thief that has room takes at least one task of those that are there, no more than it
/// has room for, and no more than half unless there is only one. It does not take less
/// than that without need.
pub proof fn law_a_thief_takes_half(available: nat, room: nat)
    requires
        available > 0,
        room > 0,
    ensures
        ({
            let count = queue::steal_count(available, room);
            &&& 1 <= count <= available
            &&& count <= room
            &&& count == 1 || count + count <= available
            &&& count == room || available < count + count + 2
        }),
{
}

/// Looking on from an offset leads to the first victim behind it.
proof fn lemma_victim<T>(queues: Seq<Seq<T>>, id: int, start: int, offset: int)
    requires
        0 <= offset <= queues.len(),
    ensures
        ({
            let found = worker::victim_offset(queues, id, start, offset);
            &&& offset <= found <= queues.len()
            &&& found < queues.len() ==> {
                let victim = (start + found) % queues.len() as int;
                victim != id && queues[victim].len() > 0
            }
            &&& forall|k: int| #![trigger ((start + k) % queues.len() as int)]
                offset <= k < found ==> (start + k) % queues.len() as int == id
                    || queues[(start + k) % queues.len() as int].len() == 0
        }),
    decreases queues.len() - offset,
{
    if offset < queues.len() {
        lemma_victim(queues, id, start, offset + 1);
    }
}

/// Every worker is met on the way round.
proof fn lemma_way_round(n: int, start: int, worker: int) -> (offset: int)
    requires
        0 <= start < n,
        0 <= worker < n,
    ensures
        0 <= offset < n,
        (start + offset) % n == worker,
{
    let offset = if worker >= start {
        worker - start
    } else {
        worker - start + n
    };
    if worker >= start {
        vstd::arithmetic::div_mod::lemma_small_mod(worker as nat, n as nat);
    } else {
        vstd::arithmetic::div_mod::lemma_fundamental_div_mod_converse(worker + n, n, 1, worker);
    }
    offset
}

/// A thief whose queue has room comes up empty only where no other worker has a task,
/// wherever it begins to look. Where one has, the thief gets the oldest task of another
/// worker.
pub proof fn law_a_thief_finds_work<T>(w: Waiting<T>, id: int, start: int)
    requires
        sound(w, id),
        0 <= start < w.queues.len(),
        w.queues[id].len() < 256,
    ensures
        ({
            let (task, _) = worker::from_others(w, id, start);
            &&& task is None <==> forall|other: int|
                0 <= other < w.queues.len() && other != id ==> (
                #[trigger] w.queues[other]).len() == 0
            &&& task is Some ==> exists|other: int|
                0 <= other < w.queues.len() && other != id && (
                #[trigger] w.queues[other]).len() > 0 && task == Some(w.queues[other][0])
        }),
{
    let n = w.queues.len() as int;
    let found = worker::victim_offset(w.queues, id, start, 0);
    lemma_victim(w.queues, id, start, 0);
    if found < n {
        let victim = (start + found) % n;
        vstd::arithmetic::div_mod::lemma_mod_bound(start + found, n);
        assert(w.queues[victim].len() > 0);
    } else {
        assert forall|other: int| 0 <= other < n && other != id implies (
        #[trigger] w.queues[other]).len() == 0 by {
            let offset = lemma_way_round(n, start, other);
            assert((start + offset) % n == other);
        }
    }
}

/// What a thief does to the queues: the tasks behind the stolen one go to the end of its
/// own queue, in their order, the others stay where they were, and nobody else is
/// touched. The victim is the first that has tasks, going round from `start`.
pub proof fn law_a_thief_takes_from_the_front<T>(w: Waiting<T>, id: int, start: int) -> (victim:
    int)
    requires
        sound(w, id),
        0 <= start < w.queues.len(),
        worker::from_others(w, id, start).0 is Some,
    ensures
        ({
            let (task, after) = worker::from_others(w, id, start);
            let n = w.queues.len() as int;
            let own = w.queues[id];
            let taken = w.queues[victim];
            let moved = after.queues[id].len() - own.len();
            let count = moved + 1;
            &&& 0 <= victim < n && victim != id
            &&& task == Some(taken[0])
            &&& 0 <= moved < taken.len()
            &&& after.queues[id].len() <= 256
            &&& count == 1 || count + count <= taken.len()
            &&& after.queues[id].len() == 255 || taken.len() < count + count + 2
            &&& after.queues.len() == n
            &&& after.queues[id].take(own.len() as int) == own
            &&& seq![taken[0]] + after.queues[id].skip(own.len() as int) + after.queues[victim]
                == taken
            &&& forall|other: int|
                0 <= other < n && other != id && other != victim
                    ==> #[trigger] after.queues[other] == w.queues[other]
            &&& after.slots == w.slots
            &&& after.inject == w.inject
            &&& exists|offset: int|
                {
                    &&& 0 <= offset < n
                    &&& #[trigger] ((start + offset) % n) == victim
                    &&& forall|k: int|
                        0 <= k < offset ==> (#[trigger] ((start + k) % n)) == id
                            || w.queues[(start + k) % n].len() == 0
                }
        }),
{
    let n = w.queues.len() as int;
    let offset = worker::victim_offset(w.queues, id, start, 0);
    lemma_victim(w.queues, id, start, 0);
    let victim = (start + offset) % n;
    vstd::arithmetic::div_mod::lemma_mod_bound(start + offset, n);
    let tasks = w.queues[victim];
    let own = w.queues[id];
    let room = worker::own_room(w, id);
    law_a_thief_takes_half(tasks.len(), room);
    let count = queue::steal_count(tasks.len(), room) as int;
    let (_, after) = worker::from_others(w, id, start);
    assert(after.queues[id] =~= own + tasks.subrange(1, count));
    assert(after.queues[victim] =~= tasks.skip(count));
    assert(after.queues[id].take(own.len() as int) =~= own);
    assert(after.queues[id].skip(own.len() as int) =~= tasks.subrange(1, count));
    assert(seq![tasks[0]] + tasks.subrange(1, count) + tasks.skip(count) =~= tasks);
    victim
}

// ---------------------------------------------------------------------------
// A worker's round
// ---------------------------------------------------------------------------

/// A worker runs the task of its slot first, but no more than three in a row: then its own
/// queue has its turn, of which the newest task runs. Neither counts as a round without
/// local work, and nobody else is touched or woken.
pub proof fn law_local_work_goes_first<T>(
    w: Waiting<T>,
    parked: Seq<bool>,
    searching: nat,
    state: WorkerState,
    id: int,
    start: int,
    shutdown: bool,
    takeover: bool,
)
    requires
        sound(w, id),
        w.queues[id].len() > 0 || (w.slots[id] is Some && state.lifo_polls < 3),
    ensures
        ({
            let round = worker::round_of(
                w,
                parked,
                searching,
                state,
                id,
                start,
                shutdown,
                takeover,
            );
            let slot_runs = w.slots[id] is Some && state.lifo_polls < 3;
            &&& round.step is Run
            &&& !round.stolen
            &&& round.wake is None
            &&& round.parked == parked
            &&& round.state.tick == state.tick
            &&& round.waiting.inject == w.inject
            &&& round.waiting.queues.len() == w.queues.len()
            &&& round.waiting.slots.len() == w.slots.len()
            &&& forall|other: int|
                0 <= other < w.queues.len() && other != id
                    ==> #[trigger] round.waiting.queues[other] == w.queues[other]
                    && round.waiting.slots[other] == w.slots[other]
            &&& slot_runs ==> {
                &&& Some(round.step->Run_0) == w.slots[id]
                &&& round.waiting.slots[id] is None
                &&& round.waiting.queues[id] == w.queues[id]
                &&& round.state.lifo_polls == state.lifo_polls + 1
            }
            &&& !slot_runs ==> {
                &&& round.waiting.queues[id].push(round.step->Run_0) == w.queues[id]
                &&& round.waiting.slots[id] == w.slots[id]
                &&& round.state.lifo_polls == 0
            }
        }),
{
    let queue = w.queues[id];
    if queue.len() > 0 {
        assert(queue.drop_last().push(queue.last()) =~= queue);
    }
}

/// A worker without local work runs a task where there is one that it may take: every
/// sixty-first such round it takes the oldest task of the injector, if there is one; else
/// it steals, if fewer than half of the workers search already; and takes the oldest task
/// of the injector where it steals nothing. Only a stolen task counts as stolen.
pub proof fn law_idle_workers_look_everywhere<T>(
    w: Waiting<T>,
    parked: Seq<bool>,
    searching: nat,
    state: WorkerState,
    id: int,
    start: int,
    shutdown: bool,
    takeover: bool,
)
    requires
        sound(w, id),
        0 <= start < w.queues.len(),
        w.queues[id].len() == 0,
        w.slots[id] is None || state.lifo_polls >= 3,
    ensures
        ({
            let round = worker::round_of(
                w,
                parked,
                searching,
                state,
                id,
                start,
                shutdown,
                takeover,
            );
            let due = (state.tick as int + 1) % 0x1_0000_0000 % 61 == 0;
            let injector_runs = {
                &&& round.step is Run
                &&& !round.stolen
                &&& seq![round.step->Run_0] + round.waiting.inject == w.inject
                &&& round.waiting.queues == w.queues
                &&& round.waiting.slots == w.slots
            };
            let others_idle = forall|other: int|
                0 <= other < w.queues.len() && other != id ==> (
                #[trigger] w.queues[other]).len() == 0;
            let may_search = searching + searching + 2 <= w.queues.len();
            &&& round.state.tick as int == (state.tick as int + 1) % 0x1_0000_0000
            &&& due && w.inject.len() > 0 ==> injector_runs && round.wake is None
            &&& !(due && w.inject.len() > 0) && may_search && !others_idle ==> {
                &&& round.step is Run
                &&& round.stolen
                &&& round.waiting.inject == w.inject
                &&& exists|other: int|
                    0 <= other < w.queues.len() && other != id && (
                    #[trigger] w.queues[other]).len() > 0 && round.step->Run_0
                        == w.queues[other][0]
                &&& round.wake is None
            }
            &&& (others_idle || !may_search) && w.inject.len() > 0 ==> injector_runs
            &&& (others_idle || !may_search) && w.inject.len() == 0 ==> {
                &&& !round.stolen
                &&& round.waiting == w
                &&& round.step is Exit <==> (shutdown || takeover) && w.slots[id] is None
                &&& round.step is Park <==> !((shutdown || takeover) && w.slots[id] is None)
            }
        }),
{
    law_a_thief_finds_work(w, id, start);
    let others_idle = forall|other: int|
        0 <= other < w.queues.len() && other != id ==> (#[trigger] w.queues[other]).len() == 0;
    if w.inject.len() > 0 {
        assert(seq![w.inject[0]] + w.inject.drop_first() =~= w.inject);
    }
    assert(state.tick.wrapping_add(1) as int == (state.tick as int + 1) % 0x1_0000_0000);
    if !others_idle && searching + searching + 2 <= w.queues.len() {
        let victim = law_a_thief_takes_from_the_front(w, id, start);
        assert(w.queues[victim].len() > 0);
    }
}

/// A worker is woken only by one that has searched alone and found nothing, and it is the
/// first of those that are parked: where one is parked, one is woken, and no longer
/// counts as parked. All others stay as they are.
pub proof fn law_the_last_searcher_wakes_one<T>(
    w: Waiting<T>,
    parked: Seq<bool>,
    searching: nat,
    id: int,
    start: int,
)
    requires
        sound(w, id),
        0 <= start < w.queues.len(),
        parked.len() <= usize::MAX,
    ensures
        ({
            let (task, _, wake, left) = worker::searched(w, parked, searching, id, start);
            &&& wake is Some ==> {
                &&& task is None
                &&& searching == 0
                &&& wake->0 < parked.len() && parked[wake->0 as int]
                &&& forall|earlier: int| 0 <= earlier < wake->0 ==> !#[trigger] parked[earlier]
                &&& left == parked.update(wake->0 as int, false)
            }
            &&& wake is None ==> left == parked
            &&& task is None && searching == 0 && w.queues.len() >= 2 && (exists|other: int|
                0 <= other < parked.len() && #[trigger] parked[other]) ==> wake is Some
            &&& searching + searching + 2 > w.queues.len() ==> task is None && wake is None
        }),
{
    lemma_first_parked(parked, 0);
}

/// The first parked worker is the first.
pub(crate) proof fn lemma_first_parked(parked: Seq<bool>, from: int)
    requires
        0 <= from <= parked.len(),
    ensures
        ({
            let found = worker::first_parked(parked, from);
            &&& from <= found <= parked.len()
            &&& found < parked.len() ==> parked[found]
            &&& forall|k: int| from <= k < found ==> !#[trigger] parked[k]
        }),
    decreases parked.len() - from,
{
    if from < parked.len() && !parked[from] {
        lemma_first_parked(parked, from + 1);
    }
}

// ---------------------------------------------------------------------------
// Scheduling a task
// ---------------------------------------------------------------------------

/// A task that is woken elsewhere than on its worker goes behind all others in the
/// injector. On its worker it is run next, where that has a free slot, or goes behind the
/// others in the queue. A full queue gives its older half to the injector first. Nothing
/// else moves.
pub proof fn law_scheduled_tasks_go_to_the_end<T>(
    w: Waiting<T>,
    task: T,
    target: int,
    current: Option<usize>,
    lifo: bool,
)
    requires
        sound(w, target),
        w.queues.len() <= usize::MAX,
    ensures
        ({
            let (placed, after) = worker::scheduled(w, task, target, current, false, lifo);
            let here = current is Some && current->0 == target;
            let queue = w.queues[target];
            let slot_takes = here && lifo && w.slots[target] is None;
            &&& placed is Injected <==> !here
            &&& placed is Slot <==> slot_takes
            &&& placed is Local <==> here && !slot_takes && queue.len() < 256
            &&& placed is Overflowed <==> here && !slot_takes && queue.len() >= 256
            &&& after.queues.len() == w.queues.len() && after.slots.len() == w.slots.len()
            &&& forall|other: int|
                0 <= other < w.queues.len() && other != target
                    ==> #[trigger] after.queues[other] == w.queues[other] && after.slots[other]
                    == w.slots[other]
            &&& placed is Injected ==> after.inject == w.inject + seq![task] && after.queues
                == w.queues && after.slots == w.slots
            &&& placed is Slot ==> after.slots[target] == Some(task) && after.queues == w.queues
                && after.inject == w.inject
            &&& placed is Local ==> after.queues[target] == queue + seq![task] && after.slots
                == w.slots && after.inject == w.inject
            &&& placed is Overflowed ==> {
                &&& after.slots == w.slots
                &&& after.queues[target] == queue.subrange(128, 256) + seq![task]
                &&& after.inject.len() == w.inject.len() + 128
                &&& after.inject.take(w.inject.len() as int) == w.inject
                &&& after.inject[w.inject.len() as int] == queue[0]
                &&& forall|k: int|
                    1 <= k < 128 ==> #[trigger] after.inject[w.inject.len() + k] == queue[128 - k]
            }
        }),
{
    let (placed, after) = worker::scheduled(w, task, target, current, false, lifo);
    let queue = w.queues[target];
    assert(w.inject.push(task) =~= w.inject + seq![task]);
    assert(queue.push(task) =~= queue + seq![task]);
    if placed is Overflowed {
        assert(queue.len() == 256);
        assert(queue.skip(128).push(task) =~= queue.subrange(128, 256) + seq![task]);
        assert(after.inject =~= w.inject.push(queue[0]) + queue.subrange(1, 128).reverse());
        assert(after.inject.take(w.inject.len() as int) =~= w.inject);
    }
}

// ---------------------------------------------------------------------------
// One thread
// ---------------------------------------------------------------------------

/// Tasks run in the order in which they became runnable. A take gives the first of the
/// deferred tasks, the first local one or the first injected one, and leaves all others
/// where they were; a task that becomes runnable goes behind the others of its queue. So
/// no task is overtaken by one behind it.
pub proof fn law_one_thread_runs_tasks_in_order<T>(s: CurrentState<T>)
    ensures
        ({
            let (task, after) = current_thread::next_of(s);
            let due = (s.tick as int + 1) % 0x1_0000_0000 % 61 == 0;
            let deferred_runs = s.deferred.len() > 0;
            let injected_runs = !deferred_runs && s.injection.len() > 0 && (due || s.local.len()
                == 0);
            let local_runs = !deferred_runs && !injected_runs && s.local.len() > 0;
            &&& task is Some <==> deferred_runs || injected_runs || local_runs
            &&& s.deferred == (if deferred_runs {
                seq![task->0] + after.deferred
            } else {
                after.deferred
            })
            &&& s.injection == (if injected_runs {
                seq![task->0] + after.injection
            } else {
                after.injection
            })
            &&& s.local == (if local_runs {
                seq![task->0] + after.local
            } else {
                after.local
            })
            &&& after.owner == s.owner
            &&& after.owner_thread == s.owner_thread
            &&& after.closed == s.closed
            &&& after.shutdown_complete == s.shutdown_complete
        }),
{
    if s.deferred.len() > 0 {
        assert(seq![s.deferred[0]] + s.deferred.drop_first() =~= s.deferred);
    }
    if s.injection.len() > 0 {
        assert(seq![s.injection[0]] + s.injection.drop_first() =~= s.injection);
    }
    if s.local.len() > 0 {
        assert(seq![s.local[0]] + s.local.drop_first() =~= s.local);
    }
}

/// The scheduler after so many takes.
pub open spec fn after_takes<T>(s: CurrentState<T>, n: nat) -> CurrentState<T>
    decreases n,
{
    if n == 0 {
        s
    } else {
        current_thread::next_of(after_takes(s, (n - 1) as nat)).1
    }
}

/// However many tasks are taken, what is left of the local queue is what stood behind those
/// that were taken, in order: a task at place `k` has been handed out once more than `k`
/// local tasks have, and not before. Of so many takes, at least all but those that
/// deferred and injected tasks can have used are local.
pub proof fn law_no_local_task_starves<T>(s: CurrentState<T>, n: nat) -> (taken: nat)
    ensures
        ({
            let after = after_takes(s, n);
            &&& taken <= n && taken <= s.local.len()
            &&& after.local == s.local.skip(taken as int)
            &&& s.local.len() > 0 && n > s.deferred.len() + s.injection.len() ==> taken > 0
            &&& taken + s.deferred.len() + s.injection.len() >= n || taken == s.local.len()
        }),
{
    lemma_takes(s, n)
}

/// How many local tasks so many takes have handed out.
proof fn lemma_takes<T>(s: CurrentState<T>, n: nat) -> (taken: nat)
    ensures
        ({
            let after = after_takes(s, n);
            &&& taken <= n && taken <= s.local.len()
            &&& after.local == s.local.skip(taken as int)
            &&& after.deferred.len() <= s.deferred.len()
            &&& after.injection.len() <= s.injection.len()
            &&& taken + (s.deferred.len() - after.deferred.len()) + (s.injection.len()
                - after.injection.len()) == n || after.local.len() == 0
        }),
    decreases n,
{
    if n == 0 {
        assert(s.local.skip(0) =~= s.local);
        0
    } else {
        let before = after_takes(s, (n - 1) as nat);
        let taken = lemma_takes(s, (n - 1) as nat);
        law_one_thread_runs_tasks_in_order(before);
        let after = after_takes(s, n);
        if after.local.len() < before.local.len() {
            assert(after.local =~= s.local.skip(taken as int + 1));
            taken + 1
        } else {
            taken
        }
    }
}

/// A task that becomes runnable goes to the end of the local queue where the thread that
/// runs the scheduler makes it so, and to the end of the injection queue otherwise.
pub proof fn law_runnable_tasks_go_to_the_end<T>(s: CurrentState<T>, task: T, thread: u64)
    ensures
        ({
            let (placed, after) = current_thread::enqueued(s, task, thread);
            let gone = s.closed && s.shutdown_complete;
            let local = !gone && !s.closed && s.owner is Some && s.owner->0 == thread;
            &&& placed is Dropped <==> gone
            &&& placed is Local <==> local
            &&& after.local == (if local {
                s.local + seq![task]
            } else {
                s.local
            })
            &&& after.injection == (if gone || local {
                s.injection
            } else {
                s.injection + seq![task]
            })
            &&& after == (CurrentState { local: after.local, injection: after.injection, ..s })
        }),
{
    assert(s.local.push(task) =~= s.local + seq![task]);
    assert(s.injection.push(task) =~= s.injection + seq![task]);
}

/// A scheduler that shuts down hands out every task that it holds, each queue in order, the
/// deferred ones first, then the local ones, then the injected ones.
pub proof fn law_shutdown_drains_in_order<T>(s: CurrentState<T>)
    ensures
        ({
            let (task, after) = current_thread::drained(s);
            let all = s.deferred + s.local + s.injection;
            let left = after.deferred + after.local + after.injection;
            &&& task is None <==> all.len() == 0
            &&& task is Some ==> seq![task->0] + left == all
            &&& task is None ==> left == all
            &&& after == (CurrentState {
                deferred: after.deferred,
                local: after.local,
                injection: after.injection,
                ..s
            })
        }),
{
    let (task, after) = current_thread::drained(s);
    let all = s.deferred + s.local + s.injection;
    let left = after.deferred + after.local + after.injection;
    if task is Some {
        assert(seq![task->0] + left =~= all);
    }
}

/// The owner runs deferred tasks first, then polls the root future where it was woken, and
/// then one task; a wake stays until the root future is polled. In the turn of a task,
/// that is the one that the next take gives.
pub proof fn law_rounds_of_the_owner<T>(s: CurrentState<T>, phase: Phase, woken: bool)
    ensures
        ({
            let (step, next, still, after) = current_thread::root_round(s, phase, woken);
            let start = phase is Start;
            &&& start && s.deferred.len() > 0 ==> {
                &&& step is Run && seq![step->Run_0] + after.deferred == s.deferred
                &&& after.local == s.local && after.injection == s.injection
                &&& after.tick == s.tick
                &&& next is Start && still == woken
            }
            &&& start && s.deferred.len() == 0 && woken ==> {
                &&& step is PollRoot && next is Tasks && !still
                &&& after == s
            }
            &&& !start || (s.deferred.len() == 0 && !woken) ==> {
                &&& after == current_thread::next_of(s).1
                &&& match current_thread::next_of(s).0 {
                    Some(task) => step is Run && step->Run_0 == task,
                    None => step is Park,
                }
                &&& next is Start && still == woken
            }
        }),
{
    if s.deferred.len() > 0 {
        assert(seq![s.deferred[0]] + s.deferred.drop_first() =~= s.deferred);
    }
}

/// A thread owns the scheduler while it runs it, and the thread that made it owns it again
/// once it is closed. Nobody else does.
pub proof fn law_who_owns_the_scheduler<T>(s: CurrentState<T>, thread: u64)
    ensures
        s.owner is Some && s.owner->0 == thread ==> current_thread::owns(s, thread),
        s.closed && s.owner_thread == thread ==> current_thread::owns(s, thread),
        current_thread::owns(s, thread) && !s.closed ==> s.owner is Some && s.owner->0 == thread,
        current_thread::owns(s, thread) && s.owner is None ==> s.closed && s.owner_thread == thread,
        current_thread::is_gone(s) == (s.closed && s.shutdown_complete),
{
}

} // verus!
