//! The scheduler neither loses nor duplicates tasks.

use super::queue::LOCAL_QUEUE_CAPACITY;
use super::worker;
use super::worker::{Step, Waiting, WorkerState};
use vstd::multiset::Multiset;
use vstd::prelude::*;

verus! {

/// The tasks of all local queues.
pub open spec fn in_queues<T>(queues: Seq<Seq<T>>) -> Multiset<T>
    decreases queues.len(),
{
    if queues.len() == 0 {
        Multiset::empty()
    } else {
        in_queues(queues.drop_last()).add(queues.last().to_multiset())
    }
}

/// The task of a slot.
pub open spec fn in_slot<T>(slot: Option<T>) -> Multiset<T> {
    match slot {
        Some(task) => Multiset::singleton(task),
        None => Multiset::empty(),
    }
}

/// The tasks of all slots.
pub open spec fn in_slots<T>(slots: Seq<Option<T>>) -> Multiset<T>
    decreases slots.len(),
{
    if slots.len() == 0 {
        Multiset::empty()
    } else {
        in_slots(slots.drop_last()).add(in_slot(slots.last()))
    }
}

/// Every task that waits in a scheduler, as often as it does.
pub open spec fn in_scheduler<T>(w: Waiting<T>) -> Multiset<T> {
    in_queues(w.queues).add(in_slots(w.slots)).add(w.inject.to_multiset())
}

proof fn lemma_queue_set<T>(queues: Seq<Seq<T>>, id: int, queue: Seq<T>, x: T)
    requires
        0 <= id < queues.len(),
    ensures
        in_queues(queues.update(id, queue)).count(x) + queues[id].to_multiset().count(x)
            == in_queues(queues).count(x) + queue.to_multiset().count(x),
    decreases queues.len(),
{
    let after = queues.update(id, queue);
    if id == queues.len() - 1 {
        assert(after.drop_last() =~= queues.drop_last());
    } else {
        assert(after.drop_last() =~= queues.drop_last().update(id, queue));
        lemma_queue_set(queues.drop_last(), id, queue, x);
    }
}

proof fn lemma_slot_set<T>(slots: Seq<Option<T>>, id: int, slot: Option<T>, x: T)
    requires
        0 <= id < slots.len(),
    ensures
        in_slots(slots.update(id, slot)).count(x) + in_slot(slots[id]).count(x) == in_slots(
            slots,
        ).count(x) + in_slot(slot).count(x),
    decreases slots.len(),
{
    let after = slots.update(id, slot);
    if id == slots.len() - 1 {
        assert(after.drop_last() =~= slots.drop_last());
    } else {
        assert(after.drop_last() =~= slots.drop_last().update(id, slot));
        lemma_slot_set(slots.drop_last(), id, slot, x);
    }
}

/// How often a task waits is how often it waits in the queues, the slots and the
/// injector.
proof fn lemma_in_scheduler<T>(w: Waiting<T>, x: T)
    ensures
        in_scheduler(w).count(x) == in_queues(w.queues).count(x) + in_slots(w.slots).count(x)
            + w.inject.to_multiset().count(x),
{
}

/// A sequence holds what its front and its back hold.
proof fn lemma_split<T>(s: Seq<T>, k: int)
    requires
        0 <= k <= s.len(),
    ensures
        s.to_multiset() =~= s.take(k).to_multiset().add(s.skip(k).to_multiset()),
{
    assert(s =~= s.take(k) + s.skip(k));
    vstd::seq_lib::lemma_multiset_commutative(s.take(k), s.skip(k));
}

/// A sequence holds its first task and the others.
proof fn lemma_first<T>(s: Seq<T>)
    requires
        s.len() > 0,
    ensures
        s.to_multiset() =~= s.drop_first().to_multiset().insert(s[0]),
{
    broadcast use vstd::seq_lib::group_to_multiset_ensures;

    lemma_split(s, 1);
    assert(s.take(1) =~= Seq::empty().push(s[0]));
    assert(s.skip(1) =~= s.drop_first());
    assert(s.take(1).to_multiset() =~= Multiset::empty().insert(s[0]));
}

/// The workers, slots and queues that `id` names are there, and the queues are
/// within their capacity.
pub open spec fn sound<T>(w: Waiting<T>, id: int) -> bool {
    &&& 0 <= id < w.queues.len()
    &&& w.slots.len() == w.queues.len()
    &&& forall|i: int|
        0 <= i < w.queues.len() ==> (#[trigger] w.queues[i]).len() <= LOCAL_QUEUE_CAPACITY
}

/// Scheduling a task adds exactly that task, unless the scheduler is shut down,
/// which adds nothing.
pub proof fn law_schedule_adds_one_task<T>(
    w: Waiting<T>,
    task: T,
    target: int,
    current: Option<usize>,
    shutdown: bool,
    lifo: bool,
)
    requires
        sound(w, target),
    ensures
        ({
            let (placed, after) = worker::scheduled(w, task, target, current, shutdown, lifo);
            &&& placed is Dropped ==> after == w
            &&& placed !is Dropped ==> in_scheduler(after) == in_scheduler(w).insert(task)
            &&& placed is Dropped <==> shutdown
        }),
{
    broadcast use vstd::seq_lib::group_to_multiset_ensures;

    let (placed, after) = worker::scheduled(w, task, target, current, shutdown, lifo);
    let queue = w.queues[target];
    let half = super::queue::steal_count(queue.len(), LOCAL_QUEUE_CAPACITY as nat) as int;
    if placed !is Dropped {
        assert forall|x: T| #[trigger]
            in_scheduler(after).count(x) == in_scheduler(w).insert(task).count(x) by {
            lemma_in_scheduler(after, x);
            lemma_in_scheduler(w, x);
            if placed is Slot {
                lemma_slot_set(w.slots, target, Some(task), x);
            } else if placed is Local {
                lemma_queue_set(w.queues, target, queue.push(task), x);
            } else if placed is Overflowed {
                let left = queue.skip(half).push(task);
                let moved = queue.subrange(1, half);
                lemma_queue_set(w.queues, target, left, x);
                lemma_split(queue, half);
                lemma_first(queue.take(half));
                assert(queue.take(half).drop_first() =~= moved);
                moved.lemma_reverse_to_multiset();
                vstd::seq_lib::lemma_multiset_commutative(
                    w.inject.push(queue[0]),
                    moved.reverse(),
                );
                assert(left.to_multiset() == queue.skip(half).to_multiset().insert(task));
            }
        }
        assert(in_scheduler(after) =~= in_scheduler(w).insert(task));
    }
}

/// Taking a task from a worker's slot, its queue, the injector or another worker
/// removes exactly that task.
proof fn lemma_take<T>(before: Waiting<T>, after: Waiting<T>, task: T)
    requires
        forall|x: T| #[trigger]
            in_scheduler(before).count(x) == in_scheduler(after).insert(task).count(x),
    ensures
        in_scheduler(before) == in_scheduler(after).insert(task),
{
    assert(in_scheduler(before) =~= in_scheduler(after).insert(task));
}

proof fn lemma_from_slot<T>(w: Waiting<T>, id: int, polls: u8)
    requires
        sound(w, id),
    ensures
        ({
            let (task, after, _) = worker::from_slot(w, id, polls);
            &&& task is None ==> after == w
            &&& task matches Some(task) ==> in_scheduler(w) == in_scheduler(after).insert(task)
        }),
{
    let (task, after, _) = worker::from_slot(w, id, polls);
    if let Some(task) = task {
        assert forall|x: T| #[trigger]
            in_scheduler(w).count(x) == in_scheduler(after).insert(task).count(x) by {
            lemma_in_scheduler(after, x);
            lemma_in_scheduler(w, x);
            lemma_slot_set(w.slots, id, None, x);
        }
        lemma_take(w, after, task);
    }
}

proof fn lemma_from_local<T>(w: Waiting<T>, id: int)
    requires
        sound(w, id),
    ensures
        ({
            let (task, after) = worker::from_local(w, id);
            &&& task is None ==> after == w
            &&& task matches Some(task) ==> in_scheduler(w) == in_scheduler(after).insert(task)
        }),
{
    broadcast use vstd::seq_lib::group_to_multiset_ensures;

    let (task, after) = worker::from_local(w, id);
    if let Some(task) = task {
        let queue = w.queues[id];
        assert(queue =~= queue.drop_last().push(task));
        assert forall|x: T| #[trigger]
            in_scheduler(w).count(x) == in_scheduler(after).insert(task).count(x) by {
            lemma_in_scheduler(after, x);
            lemma_in_scheduler(w, x);
            lemma_queue_set(w.queues, id, queue.drop_last(), x);
        }
        lemma_take(w, after, task);
    }
}

proof fn lemma_from_injector<T>(w: Waiting<T>)
    ensures
        ({
            let (task, after) = worker::from_injector(w);
            &&& task is None ==> after == w
            &&& task matches Some(task) ==> in_scheduler(w) == in_scheduler(after).insert(task)
        }),
{
    let (task, after) = worker::from_injector(w);
    if let Some(task) = task {
        lemma_first(w.inject);
        assert forall|x: T| #[trigger]
            in_scheduler(w).count(x) == in_scheduler(after).insert(task).count(x) by {
            lemma_in_scheduler(after, x);
            lemma_in_scheduler(w, x);
        }
        lemma_take(w, after, task);
    }
}

proof fn lemma_victim<T>(queues: Seq<Seq<T>>, id: int, start: int, offset: int)
    requires
        0 <= offset,
        0 < queues.len(),
    ensures
        ({
            let found = worker::victim_offset(queues, id, start, offset);
            let victim = (start + found) % (queues.len() as int);
            found < queues.len() ==> found >= offset && 0 <= victim < queues.len() && victim != id
                && queues[victim].len() > 0
        }),
    decreases queues.len() - offset,
{
    if offset < queues.len() {
        let victim = (start + offset) % (queues.len() as int);
        vstd::arithmetic::div_mod::lemma_mod_bound(start + offset, queues.len() as int);
        if !(victim != id && queues[victim].len() > 0) {
            lemma_victim(queues, id, start, offset + 1);
        }
    }
}

proof fn lemma_from_others<T>(w: Waiting<T>, id: int, start: int)
    requires
        sound(w, id),
        0 <= start < w.queues.len(),
    ensures
        ({
            let (task, after) = worker::from_others(w, id, start);
            &&& task is None ==> after == w
            &&& task matches Some(task) ==> in_scheduler(w) == in_scheduler(after).insert(task)
        }),
{
    let (task, after) = worker::from_others(w, id, start);
    if let Some(task) = task {
        lemma_victim(w.queues, id, start, 0);
        let n = w.queues.len() as int;
        let victim = (start + worker::victim_offset(w.queues, id, start, 0)) % n;
        let tasks = w.queues[victim];
        let own = w.queues[id];
        let count = super::queue::steal_count(tasks.len(), worker::own_room(w, id)) as int;
        let moved = tasks.subrange(1, count);
        let middle = w.queues.update(victim, tasks.skip(count));
        lemma_split(tasks, count);
        lemma_first(tasks.take(count));
        assert(tasks.take(count).drop_first() =~= moved);
        vstd::seq_lib::lemma_multiset_commutative(own, moved);
        assert forall|x: T| #[trigger]
            in_scheduler(w).count(x) == in_scheduler(after).insert(task).count(x) by {
            lemma_in_scheduler(after, x);
            lemma_in_scheduler(w, x);
            lemma_queue_set(w.queues, victim, tasks.skip(count), x);
            lemma_queue_set(middle, id, own + moved, x);
        }
        lemma_take(w, after, task);
    }
}

/// A worker's round takes exactly the task that it runs out of the scheduler, and
/// nothing where it runs none.
pub proof fn law_round_takes_one_task<T>(
    w: Waiting<T>,
    parked: Seq<bool>,
    searching: nat,
    state: WorkerState,
    id: int,
    start: int,
    shutdown: bool,
    takeover: bool,
)
    requires
        sound(w, id),
        0 <= start < w.queues.len(),
    ensures
        ({
            let round = worker::round_of(
                w,
                parked,
                searching,
                state,
                id,
                start,
                shutdown,
                takeover,
            );
            match round.step {
                Step::Run(task) => in_scheduler(w) == in_scheduler(round.waiting).insert(task),
                _ => round.waiting == w,
            }
        }),
{
    lemma_from_slot(w, id, state.lifo_polls);
    lemma_from_local(w, id);
    lemma_from_injector(w);
    lemma_from_others(w, id, start);
}

/// A worker leaves its loop only with nothing left to do: its queue and its slot
/// are empty, and so is the injector, unless another thread takes the worker over.
pub proof fn law_exit_leaves_nothing<T>(
    w: Waiting<T>,
    parked: Seq<bool>,
    searching: nat,
    state: WorkerState,
    id: int,
    start: int,
    shutdown: bool,
    takeover: bool,
)
    requires
        sound(w, id),
    ensures
        worker::round_of(
            w,
            parked,
            searching,
            state,
            id,
            start,
            shutdown,
            takeover,
        ).step is Exit ==> {
            &&& shutdown || takeover
            &&& w.queues[id].len() == 0
            &&& w.slots[id] is None
            &&& takeover || w.inject.len() == 0
        },
{
}

/// A worker does not park while there is work for it: where its queue, the injector or,
/// as long as it may be used, its slot holds a task, the round runs one.
pub proof fn law_worker_parks_only_without_work<T>(
    w: Waiting<T>,
    parked: Seq<bool>,
    searching: nat,
    state: WorkerState,
    id: int,
    start: int,
    shutdown: bool,
    takeover: bool,
)
    requires
        sound(w, id),
        w.queues[id].len() > 0 || w.inject.len() > 0 || (w.slots[id] is Some && state.lifo_polls
            < worker::MAX_LIFO_POLLS_PER_TICK),
    ensures
        worker::round_of(
            w,
            parked,
            searching,
            state,
            id,
            start,
            shutdown,
            takeover,
        ).step is Run,
{
}

/// The injector is not starved by stealing: in every round that is due for it, a worker
/// without local work runs the oldest task of the injector, whatever the others hold.
/// Such a round is never further away than the interval.
pub proof fn law_injector_is_served<T>(
    w: Waiting<T>,
    parked: Seq<bool>,
    searching: nat,
    state: WorkerState,
    id: int,
    start: int,
    shutdown: bool,
    takeover: bool,
)
    requires
        sound(w, id),
        w.queues[id].len() == 0,
        w.slots[id] is None,
        w.inject.len() > 0,
    ensures
        state.tick.wrapping_add(1) % worker::GLOBAL_QUEUE_INTERVAL == 0 ==> worker::round_of(
            w,
            parked,
            searching,
            state,
            id,
            start,
            shutdown,
            takeover,
        ).step == Step::Run(w.inject[0]),
        ({
            let interval = worker::GLOBAL_QUEUE_INTERVAL as int;
            let rounds = interval - state.tick as int % interval;
            1 <= rounds <= interval && (state.tick + rounds) % interval == 0
        }),
{
    let interval = worker::GLOBAL_QUEUE_INTERVAL as int;
    let rounds = interval - state.tick as int % interval;
    assert((state.tick + rounds) % interval == 0) by (nonlinear_arith)
        requires
            interval == 61,
            rounds == interval - state.tick as int % interval,
    ;
}

/// A worker that blocks in place hands all of its tasks over: what stays behind and
/// what is handed over are together what was there before. Handing it back is the
/// same step in the other direction.
pub proof fn law_takeover_loses_nothing<T>(w: Waiting<T>, id: int)
    requires
        sound(w, id),
    ensures
        ({
            let left = w.with_queue(id, Seq::empty()).with_slot(id, None);
            &&& in_scheduler(w) == in_scheduler(left).add(w.queues[id].to_multiset()).add(
                in_slot(w.slots[id]),
            )
            &&& left.with_queue(id, w.queues[id]).with_slot(id, w.slots[id]) == w
        }),
{
    broadcast use vstd::seq_lib::group_to_multiset_ensures;

    let left = w.with_queue(id, Seq::empty()).with_slot(id, None);
    let whole = in_scheduler(left).add(w.queues[id].to_multiset()).add(in_slot(w.slots[id]));
    assert(Seq::<T>::empty().to_multiset() =~= Multiset::empty());
    assert forall|x: T| in_scheduler(w).count(x) == whole.count(x) by {
        lemma_queue_set(w.queues, id, Seq::empty(), x);
        lemma_slot_set(w.slots, id, None, x);
        lemma_in_scheduler(w, x);
        lemma_in_scheduler(left, x);
    }
    assert(in_scheduler(w) =~= whole);
    let back = left.with_queue(id, w.queues[id]).with_slot(id, w.slots[id]);
    assert(back.queues =~= w.queues);
    assert(back.slots =~= w.slots);
}

} // verus!
