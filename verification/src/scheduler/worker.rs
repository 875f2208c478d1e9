//! What a worker of the multi-thread scheduler does next.
//!
//! Each worker owns one local queue and one slot for the task that it runs next.
//! Wakes from another thread enter the global injector; wakes on the worker itself
//! use the slot before falling back to the local queue. A worker without work of
//! its own takes from the injector and steals from the others, and parks when
//! there is nothing left.

use super::inject::Injector;
use super::queue::{Local, LOCAL_QUEUE_CAPACITY};
use vstd::prelude::*;

verus! {

/// Every so many rounds without local work, the injector goes before stealing.
pub const GLOBAL_QUEUE_INTERVAL: u32 = 61;

/// How many tasks in a row a worker takes from its slot.
pub const MAX_LIFO_POLLS_PER_TICK: u8 = 3;

/// The tasks that wait in a scheduler.
pub struct Waiting<T> {
    /// The local queues, oldest task first.
    pub queues: Seq<Seq<T>>,
    /// The slots for the next tasks.
    pub slots: Seq<Option<T>>,
    /// The injector, oldest task first.
    pub inject: Seq<T>,
}

/// The state that the workers share.
pub struct Shared<T> {
    queues: Vec<Local<T>>,
    slots: Vec<Option<T>>,
    inject: Injector<T>,
    parked: Vec<bool>,
    searching: usize,
    next_worker: usize,
    steals: usize,
    shutdown: bool,
    lifo_slot_enabled: bool,
}

/// Where a task went.
#[derive(Debug, Clone, Copy, PartialEq, Eq, Structural)]
pub enum Placed {
    /// The scheduler is shut down, and the task was dropped.
    Dropped,
    /// The worker runs it next.
    Slot,
    /// It went to the worker's queue.
    Local,
    /// It went to the worker's queue, whose older half went to the injector. The
    /// worker is to be woken.
    Overflowed,
    /// It went to the injector. The target worker is to be woken.
    Injected,
}

impl<T> Shared<T> {
    /// The tasks that wait.
    pub closed spec fn waiting(&self) -> Waiting<T> {
        Waiting {
            queues: self.queues@.map_values(|queue: Local<T>| queue.tasks()),
            slots: self.slots@,
            inject: self.inject.tasks(),
        }
    }

    /// How many workers there are.
    pub closed spec fn workers(&self) -> nat {
        self.queues@.len()
    }

    /// Which workers are parked.
    pub closed spec fn parked(&self) -> Seq<bool> {
        self.parked@
    }

    /// How many workers are searching for work.
    pub closed spec fn searching(&self) -> nat {
        self.searching as nat
    }

    /// The number that picks the worker of the next spawned task.
    pub closed spec fn next_worker(&self) -> usize {
        self.next_worker
    }

    /// How often a worker has run a task that it stole.
    pub closed spec fn steals(&self) -> usize {
        self.steals
    }

    /// Whether the scheduler is shut down.
    pub closed spec fn is_shutdown(&self) -> bool {
        self.shutdown
    }

    /// Whether workers have a slot for the task that they run next.
    pub closed spec fn lifo_slot_enabled(&self) -> bool {
        self.lifo_slot_enabled
    }

    /// There is at least one worker, each has its queue, slot and parking mark, and
    /// the injector is closed once the scheduler is shut down.
    pub closed spec fn wf(&self) -> bool {
        &&& self.queues@.len() >= 1
        &&& self.queues@.len() == self.slots@.len()
        &&& self.queues@.len() == self.parked@.len()
        &&& forall|i: int|
            0 <= i < self.queues@.len() ==> (#[trigger] self.queues@[i]).wf()
                && self.queues@[i].reserved() == 0 && self.queues@[i].capacity()
                == LOCAL_QUEUE_CAPACITY
        &&& self.inject.closed() == self.shutdown
    }

    /// Everything but the waiting tasks is the same.
    pub open spec fn same_control(&self, other: &Shared<T>) -> bool {
        &&& self.same_settings(other)
        &&& self.parked() == other.parked()
        &&& self.steals() == other.steals()
    }

    /// Everything but the waiting tasks, the parking marks and the count of stolen
    /// tasks is the same.
    pub open spec fn same_settings(&self, other: &Shared<T>) -> bool {
        &&& self.workers() == other.workers()
        &&& self.searching() == other.searching()
        &&& self.next_worker() == other.next_worker()
        &&& self.is_shutdown() == other.is_shutdown()
        &&& self.lifo_slot_enabled() == other.lifo_slot_enabled()
    }
}

impl<T> Waiting<T> {
    /// The waiting tasks with another local queue of worker `id`.
    pub open spec fn with_queue(self, id: int, queue: Seq<T>) -> Self {
        Waiting { queues: self.queues.update(id, queue), ..self }
    }

    /// The waiting tasks with another slot of worker `id`.
    pub open spec fn with_slot(self, id: int, slot: Option<T>) -> Self {
        Waiting { slots: self.slots.update(id, slot), ..self }
    }

    /// The waiting tasks with another injector.
    pub open spec fn with_inject(self, inject: Seq<T>) -> Self {
        Waiting { inject, ..self }
    }
}

/// Where a task goes that is scheduled for worker `target` by a thread that is
/// worker `current`, if it is one, and what waits then.
pub open spec fn scheduled<T>(
    w: Waiting<T>,
    task: T,
    target: int,
    current: Option<usize>,
    shutdown: bool,
    lifo: bool,
) -> (Placed, Waiting<T>) {
    let queue = w.queues[target];
    if shutdown {
        (Placed::Dropped, w)
    } else if current != Some(target as usize) {
        (Placed::Injected, w.with_inject(w.inject.push(task)))
    } else if lifo && w.slots[target] is None {
        (Placed::Slot, w.with_slot(target, Some(task)))
    } else if queue.len() < LOCAL_QUEUE_CAPACITY {
        (Placed::Local, w.with_queue(target, queue.push(task)))
    } else {
        let half = super::queue::steal_count(queue.len(), LOCAL_QUEUE_CAPACITY as nat) as int;
        (
            Placed::Overflowed,
            w.with_queue(target, queue.skip(half).push(task)).with_inject(
                w.inject.push(queue[0]) + queue.subrange(1, half).reverse(),
            ),
        )
    }
}

impl<T> Shared<T> {
    /// A scheduler for a number of workers, at least one.
    pub fn new(workers: usize, lifo_slot: bool) -> (shared: Self)
        ensures
            shared.wf(),
            shared.workers() == (if workers < 1 {
                1
            } else {
                workers as nat
            }),
            shared.waiting().inject == Seq::<T>::empty(),
            forall|i: int|
                0 <= i < shared.workers() ==> #[trigger] shared.waiting().queues[i]
                    == Seq::<T>::empty(),
            forall|i: int|
                0 <= i < shared.workers() ==> #[trigger] shared.waiting().slots[i] is None,
            forall|i: int| 0 <= i < shared.workers() ==> !#[trigger] shared.parked()[i],
            shared.parked().len() == shared.workers(),
            shared.waiting().queues.len() == shared.workers(),
            shared.waiting().slots.len() == shared.workers(),
            shared.searching() == 0,
            shared.next_worker() == 0,
            shared.steals() == 0,
            !shared.is_shutdown(),
            shared.lifo_slot_enabled() == lifo_slot,
    {
        let count: usize = if workers < 1 {
            1
        } else {
            workers
        };
        let mut queues: Vec<Local<T>> = Vec::new();
        let mut slots: Vec<Option<T>> = Vec::new();
        let mut parked: Vec<bool> = Vec::new();
        let mut i: usize = 0;
        while i < count
            invariant
                i <= count,
                queues@.len() == i,
                slots@.len() == i,
                parked@.len() == i,
                forall|j: int|
                    0 <= j < i ==> (#[trigger] queues@[j]).wf() && queues@[j].reserved() == 0
                        && queues@[j].capacity() == LOCAL_QUEUE_CAPACITY && queues@[j].tasks()
                        == Seq::<T>::empty(),
                forall|j: int| 0 <= j < i ==> #[trigger] slots@[j] is None,
                forall|j: int| 0 <= j < i ==> !#[trigger] parked@[j],
            decreases count - i,
        {
            queues.push(Local::new());
            slots.push(None);
            parked.push(false);
            i = i + 1;
        }
        Shared {
            queues,
            slots,
            inject: Injector::new(),
            parked,
            searching: 0,
            next_worker: 0,
            steals: 0,
            shutdown: false,
            lifo_slot_enabled: lifo_slot,
        }
    }

    /// The worker that a new task is spawned for: the current one, or the workers in
    /// turn for a thread that is not a worker.
    pub fn spawn_target(&mut self, current: Option<usize>) -> (target: usize)
        requires
            old(self).wf(),
            current matches Some(id) ==> id < old(self).workers(),
        ensures
            final(self).wf(),
            final(self).waiting() == old(self).waiting(),
            final(self).workers() == old(self).workers(),
            final(self).parked() == old(self).parked(),
            final(self).searching() == old(self).searching(),
            final(self).steals() == old(self).steals(),
            final(self).is_shutdown() == old(self).is_shutdown(),
            final(self).lifo_slot_enabled() == old(self).lifo_slot_enabled(),
            target < old(self).workers(),
            match current {
                Some(id) => target == id && final(self).next_worker() == old(self).next_worker(),
                None => target == old(self).next_worker() as int % old(self).workers() as int
                    && final(self).next_worker() == old(self).next_worker().wrapping_add(1),
            },
    {
        match current {
            Some(id) => id,
            None => {
                let number: usize = self.next_worker;
                self.next_worker = number.wrapping_add(1);
                proof {
                    vstd::arithmetic::div_mod::lemma_mod_bound(
                        number as int,
                        self.queues@.len() as int,
                    );
                }
                number % self.queues.len()
            },
        }
    }

    /// Queues a task that became runnable.
    pub fn schedule(&mut self, task: T, target: usize, current: Option<usize>) -> (placed: Placed)
        requires
            old(self).wf(),
            target < old(self).workers(),
        ensures
            final(self).wf(),
            final(self).same_control(old(self)),
            (placed, final(self).waiting()) == scheduled(
                old(self).waiting(),
                task,
                target as int,
                current,
                old(self).is_shutdown(),
                old(self).lifo_slot_enabled(),
            ),
    {
        if self.shutdown {
            return Placed::Dropped;
        }
        if current != Some(target) {
            self.inject.push(task);
            assert(self.waiting().queues =~= old(self).waiting().queues);
            return Placed::Injected;
        }
        if self.lifo_slot_enabled && self.slots[target].is_none() {
            self.slots[target] = Some(task);
            assert(self.waiting().queues =~= old(self).waiting().queues);
            return Placed::Slot;
        }
        match self.queues[target].push_back(task) {
            Ok(()) => {
                assert(self.waiting().queues =~= old(self).waiting().queues.update(
                    target as int,
                    old(self).waiting().queues[target as int].push(task),
                ));
                Placed::Local
            },
            Err(task) => {
                let ghost before = *self;
                assert(before.waiting().queues =~= old(self).waiting().queues);
                let mut overflow: Vec<T> = Vec::new();
                let pushed = self.queues[target].push_overflow(task, &mut overflow);
                assert(pushed is Ok);
                let ghost queue = old(self).waiting().queues[target as int];
                let ghost half = super::queue::steal_count(
                    queue.len(),
                    LOCAL_QUEUE_CAPACITY as nat,
                ) as int;
                let ghost moved = Seq::<T>::empty().push(queue[0]) + queue.subrange(
                    1,
                    half,
                ).reverse();
                assert(overflow@ =~= moved);
                self.inject.push_batch(overflow);
                assert(old(self).waiting().inject + moved =~= old(self).waiting().inject.push(
                    queue[0],
                ) + queue.subrange(1, half).reverse());
                assert(self.waiting().queues =~= old(self).waiting().queues.update(
                    target as int,
                    queue.skip(half).push(task),
                ));
                Placed::Overflowed
            },
        }
    }

    /// Takes the task that worker `id` runs next, unless it has taken too many of
    /// them in a row.
    pub fn next_lifo(&mut self, id: usize, lifo_polls: &mut u8) -> (task: Option<T>)
        requires
            old(self).wf(),
            id < old(self).workers(),
        ensures
            final(self).wf(),
            final(self).same_control(old(self)),
            (task, final(self).waiting(), *final(lifo_polls)) == from_slot(
                old(self).waiting(),
                id as int,
                *old(lifo_polls),
            ),
    {
        if *lifo_polls >= MAX_LIFO_POLLS_PER_TICK {
            *lifo_polls = 0;
            return None;
        }
        let task = self.slots[id].take();
        assert(self.waiting().queues =~= old(self).waiting().queues);
        if task.is_some() {
            *lifo_polls = *lifo_polls + 1;
        } else {
            assert(self.waiting().slots =~= old(self).waiting().slots);
        }
        task
    }

    /// Takes the newest task of worker `id`'s queue.
    fn pop_local(&mut self, id: usize) -> (task: Option<T>)
        requires
            old(self).wf(),
            id < old(self).workers(),
        ensures
            final(self).wf(),
            final(self).same_control(old(self)),
            (task, final(self).waiting()) == from_local(old(self).waiting(), id as int),
    {
        let task = self.queues[id].pop();
        if task.is_some() {
            assert(self.waiting().queues =~= old(self).waiting().queues.update(
                id as int,
                old(self).waiting().queues[id as int].drop_last(),
            ));
        } else {
            assert(self.waiting().queues =~= old(self).waiting().queues);
        }
        task
    }

    /// Takes the oldest task of the injector for worker `id`, through its queue
    /// where that has room.
    pub fn take_injected(&mut self, id: usize) -> (task: Option<T>)
        requires
            old(self).wf(),
            id < old(self).workers(),
        ensures
            final(self).wf(),
            final(self).same_control(old(self)),
            (task, final(self).waiting()) == from_injector(old(self).waiting()),
    {
        match self.inject.pop() {
            None => {
                assert(self.waiting().queues =~= old(self).waiting().queues);
                None
            },
            Some(task) => {
                let ghost queue = old(self).waiting().queues[id as int];
                match self.queues[id].push_back(task) {
                    Ok(()) => {
                        let popped = self.queues[id].pop();
                        assert(queue.push(task).drop_last() =~= queue);
                        assert(self.waiting().queues =~= old(self).waiting().queues);
                        popped
                    },
                    Err(task) => {
                        assert(self.waiting().queues =~= old(self).waiting().queues);
                        Some(task)
                    },
                }
            },
        }
    }

    /// Steals for worker `id` from the first of the other workers that has tasks,
    /// beginning with worker `start`.
    pub fn steal_work(&mut self, id: usize, start: usize) -> (task: Option<T>)
        requires
            old(self).wf(),
            id < old(self).workers(),
            start < old(self).workers(),
        ensures
            final(self).wf(),
            final(self).same_control(old(self)),
            (task, final(self).waiting()) == from_others(
                old(self).waiting(),
                id as int,
                start as int,
            ),
    {
        let workers: usize = self.queues.len();
        let ghost w = old(self).waiting();
        if workers < 2 {
            assert(victim_offset(w.queues, id as int, start as int, 0) == w.queues.len()) by {
                reveal_with_fuel(victim_offset, 3);
            }
            return None;
        }
        let mut offset: usize = 0;
        while offset < workers
            invariant
                offset <= workers,
                workers == self.queues@.len(),
                self.wf(),
                self.same_control(old(self)),
                w == old(self).waiting(),
                w == self.waiting(),
                w.queues.len() == workers,
                id < workers,
                start < workers,
                own_room(w, id as int) == 0 || victim_offset(w.queues, id as int, start as int, 0)
                    == victim_offset(w.queues, id as int, start as int, offset as int),
            decreases workers - offset,
        {
            let victim: usize = if offset < workers - start {
                start + offset
            } else {
                offset - (workers - start)
            };
            assert(victim == (start + offset) % workers as int) by {
                if offset < workers - start {
                    vstd::arithmetic::div_mod::lemma_small_mod(
                        (start + offset) as nat,
                        workers as nat,
                    );
                } else {
                    vstd::arithmetic::div_mod::lemma_fundamental_div_mod_converse(
                        start + offset,
                        workers as int,
                        1,
                        victim as int,
                    );
                }
            }
            if victim != id {
                let mut own: Local<T> = Local::new();
                core::mem::swap(&mut own, &mut self.queues[id]);
                let ghost before = own.tasks();
                proof {
                    super::queue::law_queue_is_bounded(&own);
                }
                let ghost victim_tasks = self.queues@[victim as int].tasks();
                assert(before == w.queues[id as int]);
                assert(victim_tasks == w.queues[victim as int]);
                let task = self.queues[victim].steal_into(&mut own);
                core::mem::swap(&mut own, &mut self.queues[id]);
                if task.is_some() {
                    let ghost count = super::queue::steal_count(
                        victim_tasks.len(),
                        own_room(w, id as int),
                    ) as int;
                    assert(self.waiting().queues =~= w.queues.update(
                        victim as int,
                        victim_tasks.skip(count),
                    ).update(id as int, before + victim_tasks.subrange(1, count)));
                    assert(victim_offset(w.queues, id as int, start as int, offset as int)
                        == offset);
                    return task;
                }
                proof {
                    assert(self.waiting().queues =~= w.queues);
                }
            }
            offset = offset + 1;
        }
        None
    }
}

/// What worker `id` takes from its slot, after so many tasks in a row from there.
pub open spec fn from_slot<T>(w: Waiting<T>, id: int, polls: u8) -> (Option<T>, Waiting<T>, u8) {
    if polls >= MAX_LIFO_POLLS_PER_TICK {
        (None, w, 0)
    } else if w.slots[id] is Some {
        (w.slots[id], w.with_slot(id, None), (polls + 1) as u8)
    } else {
        (None, w, polls)
    }
}

/// What worker `id` takes from its own queue: the newest task.
pub open spec fn from_local<T>(w: Waiting<T>, id: int) -> (Option<T>, Waiting<T>) {
    let queue = w.queues[id];
    if queue.len() == 0 {
        (None, w)
    } else {
        (Some(queue.last()), w.with_queue(id, queue.drop_last()))
    }
}

/// What a worker takes from the injector: the oldest task.
pub open spec fn from_injector<T>(w: Waiting<T>) -> (Option<T>, Waiting<T>) {
    if w.inject.len() == 0 {
        (None, w)
    } else {
        (Some(w.inject[0]), w.with_inject(w.inject.drop_first()))
    }
}

/// How many tasks fit into worker `id`'s queue.
pub open spec fn own_room<T>(w: Waiting<T>, id: int) -> nat {
    (LOCAL_QUEUE_CAPACITY - w.queues[id].len()) as nat
}

/// How far from `start` the first worker is that has tasks to steal, looking from
/// `offset` on. The number of workers stands for none.
pub open spec fn victim_offset<T>(queues: Seq<Seq<T>>, id: int, start: int, offset: int) -> int
    decreases queues.len() - offset,
{
    let n = queues.len() as int;
    if offset >= n {
        n
    } else {
        let victim = (start + offset) % n;
        if victim != id && queues[victim].len() > 0 {
            offset
        } else {
            victim_offset(queues, id, start, offset + 1)
        }
    }
}

/// What worker `id` steals: the oldest task of the first victim, whose next tasks
/// move to the tail of its own queue.
pub open spec fn from_others<T>(w: Waiting<T>, id: int, start: int) -> (Option<T>, Waiting<T>) {
    let n = w.queues.len() as int;
    let offset = victim_offset(w.queues, id, start, 0);
    if own_room(w, id) == 0 || offset >= n {
        (None, w)
    } else {
        let victim = (start + offset) % n;
        let tasks = w.queues[victim];
        let count = super::queue::steal_count(tasks.len(), own_room(w, id)) as int;
        (
            Some(tasks[0]),
            w.with_queue(victim, tasks.skip(count)).with_queue(
                id,
                w.queues[id] + tasks.subrange(1, count),
            ),
        )
    }
}

/// The first parked worker from `from` on. The number of workers stands for none.
pub open spec fn first_parked(parked: Seq<bool>, from: int) -> int
    decreases parked.len() - from,
{
    if from >= parked.len() {
        parked.len() as int
    } else if parked[from] {
        from
    } else {
        first_parked(parked, from + 1)
    }
}

/// The worker that is woken when any will do, and who is parked then.
pub open spec fn woken_any(parked: Seq<bool>) -> (Option<usize>, Seq<bool>) {
    let id = first_parked(parked, 0);
    if id >= parked.len() {
        (None, parked)
    } else {
        (Some(id as usize), parked.update(id, false))
    }
}

/// What a worker does in one round.
#[derive(Debug)]
pub enum Step<T> {
    /// Run the task that is handed out.
    Run(T),
    /// Park until there is work.
    Park,
    /// Leave the worker loop.
    Exit,
}

/// How often a worker has come up empty, and how many tasks in a row it has taken
/// from its slot.
#[derive(Debug, Clone, Copy, PartialEq, Eq, Structural)]
pub struct WorkerState {
    pub tick: u32,
    pub lifo_polls: u8,
}

/// What one round of worker `id` comes to.
pub struct Round<T> {
    pub step: Step<T>,
    pub stolen: bool,
    pub waiting: Waiting<T>,
    pub state: WorkerState,
    pub wake: Option<usize>,
    pub parked: Seq<bool>,
}

/// What searching comes to for worker `id` while `searching` others search. No more
/// than half of the workers search at once. The last searcher that finds nothing
/// wakes a parked worker.
pub open spec fn searched<T>(
    w: Waiting<T>,
    parked: Seq<bool>,
    searching: nat,
    id: int,
    start: int,
) -> (Option<T>, Waiting<T>, Option<usize>, Seq<bool>) {
    if searching >= w.queues.len() / 2 {
        (None, w, None, parked)
    } else {
        let (task, after) = from_others(w, id, start);
        if task is None && searching == 0 {
            let (woken, left) = woken_any(parked);
            (task, after, woken, left)
        } else {
            (task, after, None, parked)
        }
    }
}

/// What a worker does that has found nothing to run: it leaves once it was asked to
/// and nothing is left for it, and parks otherwise.
pub open spec fn idle_step<T>(w: Waiting<T>, id: int, shutdown: bool, takeover: bool) -> Step<T> {
    if (shutdown || takeover) && w.queues[id].len() == 0 && w.slots[id] is None && (takeover
        || w.inject.len() == 0) {
        Step::Exit
    } else {
        Step::Park
    }
}

/// What worker `id` does in one round: it runs the task of its slot, the newest
/// task of its queue, a stolen one, or one of the injector, in that order; every so
/// many rounds without local work, the injector goes before stealing.
pub open spec fn round_of<T>(
    w: Waiting<T>,
    parked: Seq<bool>,
    searching: nat,
    state: WorkerState,
    id: int,
    start: int,
    shutdown: bool,
    takeover: bool,
) -> Round<T> {
    let (slot_task, w, polls) = from_slot(w, id, state.lifo_polls);
    let (local_task, local_w) = from_local(w, id);
    let tick = state.tick.wrapping_add(1);
    let global_first = tick % GLOBAL_QUEUE_INTERVAL == 0;
    let later = WorkerState { tick, lifo_polls: polls };
    let (inject_task, inject_w) = from_injector(w);
    if slot_task is Some {
        Round {
            step: Step::Run(slot_task->0),
            stolen: false,
            waiting: w,
            state: WorkerState { lifo_polls: polls, ..state },
            wake: None,
            parked,
        }
    } else if local_task is Some {
        Round {
            step: Step::Run(local_task->0),
            stolen: false,
            waiting: local_w,
            state: WorkerState { lifo_polls: 0, ..state },
            wake: None,
            parked,
        }
    } else if global_first && inject_task is Some {
        Round {
            step: Step::Run(inject_task->0),
            stolen: false,
            waiting: inject_w,
            state: later,
            wake: None,
            parked,
        }
    } else {
        let (stolen, stolen_w, wake, left) = searched(w, parked, searching, id, start);
        if stolen is Some {
            Round {
                step: Step::Run(stolen->0),
                stolen: true,
                waiting: stolen_w,
                state: later,
                wake,
                parked: left,
            }
        } else if !global_first && inject_task is Some {
            Round {
                step: Step::Run(inject_task->0),
                stolen: false,
                waiting: inject_w,
                state: later,
                wake,
                parked: left,
            }
        } else {
            Round {
                step: idle_step(w, id, shutdown, takeover),
                stolen: false,
                waiting: w,
                state: later,
                wake,
                parked: left,
            }
        }
    }
}

impl<T> Shared<T> {
    /// Picks one parked worker, if any, that is to be woken.
    pub fn unpark_any(&mut self) -> (woken: Option<usize>)
        requires
            old(self).wf(),
        ensures
            final(self).wf(),
            final(self).same_settings(old(self)),
            final(self).steals() == old(self).steals(),
            final(self).waiting() == old(self).waiting(),
            (woken, final(self).parked()) == woken_any(old(self).parked()),
    {
        let mut id: usize = 0;
        while id < self.parked.len() && !self.parked[id]
            invariant
                id <= self.parked@.len(),
                *self == *old(self),
                first_parked(self.parked@, 0) == first_parked(self.parked@, id as int),
            decreases self.parked@.len() - id,
        {
            id = id + 1;
        }
        if id < self.parked.len() {
            self.parked[id] = false;
            Some(id)
        } else {
            None
        }
    }

    /// Steals for worker `id`, if not too many workers are searching already.
    /// Returns what was stolen, and the worker that is to be woken.
    pub fn search_and_steal(&mut self, id: usize, start: usize) -> (result: (
        Option<T>,
        Option<usize>,
    ))
        requires
            old(self).wf(),
            id < old(self).workers(),
            start < old(self).workers(),
        ensures
            final(self).wf(),
            final(self).same_settings(old(self)),
            final(self).steals() == old(self).steals(),
            (result.0, final(self).waiting(), result.1, final(self).parked()) == searched(
                old(self).waiting(),
                old(self).parked(),
                old(self).searching(),
                id as int,
                start as int,
            ),
    {
        if self.searching >= self.queues.len() / 2 {
            return (None, None);
        }
        let searching: usize = self.searching;
        self.searching = searching + 1;
        assert(self.waiting() == old(self).waiting());
        let task = self.steal_work(id, start);
        self.searching = searching;
        if task.is_none() && searching == 0 {
            let woken = self.unpark_any();
            (task, woken)
        } else {
            (task, None)
        }
    }

    /// Whether worker `id` has any work of its own.
    pub fn has_work(&self, id: usize) -> (result: bool)
        requires
            self.wf(),
            id < self.workers(),
        ensures
            result == (self.waiting().inject.len() > 0 || self.waiting().slots[id as int] is Some
                || self.waiting().queues[id as int].len() > 0),
    {
        self.inject.len() > 0 || self.slots[id].is_some() || self.queues[id].len() > 0
    }

    /// One round of worker `id`: what it does, and the worker that is to be woken.
    pub fn worker_step(
        &mut self,
        id: usize,
        state: &mut WorkerState,
        start: usize,
        takeover_requested: bool,
    ) -> (result: (Step<T>, Option<usize>))
        requires
            old(self).wf(),
            id < old(self).workers(),
            start < old(self).workers(),
        ensures
            final(self).wf(),
            final(self).same_settings(old(self)),
            ({
                let round = round_of(
                    old(self).waiting(),
                    old(self).parked(),
                    old(self).searching(),
                    *old(state),
                    id as int,
                    start as int,
                    old(self).is_shutdown(),
                    takeover_requested,
                );
                &&& result.0 == round.step
                &&& result.1 == round.wake
                &&& *final(state) == round.state
                &&& final(self).steals() == (if round.stolen {
                    old(self).steals().wrapping_add(1)
                } else {
                    old(self).steals()
                })
                &&& final(self).waiting() == round.waiting
                &&& final(self).parked() == round.parked
            }),
    {
        let mut lifo_polls: u8 = state.lifo_polls;
        let next = self.next_lifo(id, &mut lifo_polls);
        state.lifo_polls = lifo_polls;
        if let Some(task) = next {
            return (Step::Run(task), None);
        }
        if let Some(task) = self.pop_local(id) {
            state.lifo_polls = 0;
            return (Step::Run(task), None);
        }
        state.tick = state.tick.wrapping_add(1);
        let global_first = state.tick % GLOBAL_QUEUE_INTERVAL == 0;
        if global_first {
            if let Some(task) = self.take_injected(id) {
                return (Step::Run(task), None);
            }
        }
        let (stolen, wake) = self.search_and_steal(id, start);
        if let Some(task) = stolen {
            self.steals = self.steals.wrapping_add(1);
            return (Step::Run(task), wake);
        }
        if !global_first {
            if let Some(task) = self.take_injected(id) {
                return (Step::Run(task), wake);
            }
        }
        if self.shutdown || takeover_requested {
            let local_empty = self.queues[id].len() == 0;
            let lifo_empty = self.slots[id].is_none();
            let inject_empty = takeover_requested || self.inject.len() == 0;
            if local_empty && lifo_empty && inject_empty {
                return (Step::Exit, wake);
            }
        }
        (Step::Park, wake)
    }

    /// Marks worker `id` as parked, unless work has arrived. Returns whether the
    /// worker is to block.
    pub fn begin_park(&mut self, id: usize) -> (block: bool)
        requires
            old(self).wf(),
            id < old(self).workers(),
        ensures
            final(self).wf(),
            final(self).same_settings(old(self)),
            final(self).steals() == old(self).steals(),
            final(self).waiting() == old(self).waiting(),
            block == !(old(self).waiting().inject.len() > 0 || old(
                self).waiting().slots[id as int] is Some || old(
                self).waiting().queues[id as int].len() > 0),
            final(self).parked() == old(self).parked().update(id as int, block),
    {
        self.parked[id] = true;
        assert(self.waiting() == old(self).waiting());
        if self.has_work(id) {
            self.parked[id] = false;
            assert(self.parked@ =~= old(self).parked@.update(id as int, false));
            return false;
        }
        true
    }

    /// Takes back the mark of a worker that has left its park.
    pub fn end_park(&mut self, id: usize)
        requires
            old(self).wf(),
            id < old(self).workers(),
        ensures
            final(self).wf(),
            final(self).same_settings(old(self)),
            final(self).steals() == old(self).steals(),
            final(self).waiting() == old(self).waiting(),
            final(self).parked() == old(self).parked().update(id as int, false),
    {
        self.parked[id] = false;
    }

    /// How often a worker has run a task that it stole.
    pub fn steal_count(&self) -> (count: usize)
        ensures
            count == self.steals(),
    {
        self.steals
    }

    /// Shuts the scheduler down: it takes no new tasks. Returns whether it was
    /// still running.
    pub fn shutdown(&mut self) -> (first: bool)
        requires
            old(self).wf(),
        ensures
            final(self).wf(),
            final(self).is_shutdown(),
            first == !old(self).is_shutdown(),
            final(self).waiting() == old(self).waiting(),
            final(self).parked() == old(self).parked(),
            final(self).workers() == old(self).workers(),
            final(self).searching() == old(self).searching(),
            final(self).next_worker() == old(self).next_worker(),
            final(self).steals() == old(self).steals(),
            final(self).lifo_slot_enabled() == old(self).lifo_slot_enabled(),
    {
        if self.shutdown {
            return false;
        }
        self.shutdown = true;
        self.inject.close();
        true
    }
}

/// What passes between a worker that blocks in place and the thread that serves
/// its queue meanwhile.
pub struct Takeover<T> {
    queue: Option<Local<T>>,
    slot: Option<T>,
    requested: bool,
    returned: bool,
}

impl<T> Takeover<T> {
    /// The tasks of the queue that is being handed over, if it is.
    pub closed spec fn tasks(&self) -> Option<Seq<T>> {
        match self.queue {
            Some(queue) => Some(queue.tasks()),
            None => None,
        }
    }

    /// The task of the slot that is being handed over.
    pub closed spec fn slot(&self) -> Option<T> {
        self.slot
    }

    /// Whether the worker wants its queue back.
    pub closed spec fn requested(&self) -> bool {
        self.requested
    }

    /// Whether the queue was handed back.
    pub closed spec fn returned(&self) -> bool {
        self.returned
    }

    /// A queue that is being handed over is in order.
    pub closed spec fn wf(&self) -> bool {
        self.queue matches Some(queue) ==> queue.wf() && queue.reserved() == 0
            && queue.capacity() == LOCAL_QUEUE_CAPACITY
    }

    /// Asks for the queue.
    pub fn request(&mut self)
        ensures
            final(self).requested(),
            final(self).returned() == old(self).returned(),
            final(self).tasks() == old(self).tasks(),
            final(self).slot() == old(self).slot(),
            old(self).wf() ==> final(self).wf(),
    {
        self.requested = true;
    }

    /// Whether the worker wants its queue back.
    pub fn is_requested(&self) -> (requested: bool)
        ensures
            requested == self.requested(),
    {
        self.requested
    }

    /// Whether the queue was handed back.
    pub fn is_returned(&self) -> (returned: bool)
        ensures
            returned == self.returned(),
    {
        self.returned
    }
}

impl<T> Shared<T> {
    /// Takes the queue and the slot of worker `id`, which is about to block in
    /// place. An empty queue and an empty slot stay behind.
    pub fn begin_takeover(&mut self, id: usize) -> (takeover: Takeover<T>)
        requires
            old(self).wf(),
            id < old(self).workers(),
        ensures
            final(self).wf(),
            final(self).same_control(old(self)),
            takeover.wf(),
            takeover.tasks() == Some(old(self).waiting().queues[id as int]),
            takeover.slot() == old(self).waiting().slots[id as int],
            !takeover.requested(),
            !takeover.returned(),
            final(self).waiting() == old(self).waiting().with_queue(
                id as int,
                Seq::empty(),
            ).with_slot(id as int, None),
    {
        let mut queue: Local<T> = Local::new();
        core::mem::swap(&mut queue, &mut self.queues[id]);
        let slot = self.slots[id].take();
        assert(self.waiting().queues =~= old(self).waiting().queues.update(
            id as int,
            Seq::empty(),
        ));
        Takeover { queue: Some(queue), slot, requested: false, returned: false }
    }

    /// Puts the queue and the slot in place for the thread that serves worker `id`.
    pub fn start_takeover(&mut self, id: usize, takeover: &mut Takeover<T>)
        requires
            old(self).wf(),
            id < old(self).workers(),
            old(takeover).wf(),
            old(takeover).tasks() is Some,
        ensures
            final(self).wf(),
            final(self).same_control(old(self)),
            final(takeover).wf(),
            final(takeover).tasks() is None,
            final(takeover).slot() is None,
            final(takeover).requested() == old(takeover).requested(),
            final(takeover).returned() == old(takeover).returned(),
            final(self).waiting() == old(self).waiting().with_queue(
                id as int,
                old(takeover).tasks()->0,
            ).with_slot(id as int, old(takeover).slot()),
    {
        if let Some(queue) = takeover.queue.take() {
            self.queues[id] = queue;
        }
        self.slots[id] = takeover.slot.take();
        assert(self.waiting().queues =~= old(self).waiting().queues.update(
            id as int,
            old(takeover).tasks()->0,
        ));
    }

    /// Hands the queue and the slot of worker `id` back to it.
    pub fn hand_back(&mut self, id: usize, takeover: &mut Takeover<T>)
        requires
            old(self).wf(),
            id < old(self).workers(),
        ensures
            final(self).wf(),
            final(self).same_control(old(self)),
            final(takeover).wf(),
            final(takeover).tasks() == Some(old(self).waiting().queues[id as int]),
            final(takeover).slot() == old(self).waiting().slots[id as int],
            final(takeover).requested() == old(takeover).requested(),
            final(takeover).returned(),
            final(self).waiting() == old(self).waiting().with_queue(
                id as int,
                Seq::empty(),
            ).with_slot(id as int, None),
    {
        let mut queue: Local<T> = Local::new();
        core::mem::swap(&mut queue, &mut self.queues[id]);
        takeover.queue = Some(queue);
        takeover.slot = self.slots[id].take();
        takeover.returned = true;
        assert(self.waiting().queues =~= old(self).waiting().queues.update(
            id as int,
            Seq::empty(),
        ));
    }
}

/// Every worker has a queue, a slot and a parking mark, and no queue is over its
/// capacity: this holds of every state that the scheduler's operations lead to.
pub proof fn law_every_worker_has_its_place<T>(shared: &Shared<T>)
    requires
        shared.wf(),
    ensures
        shared.workers() >= 1,
        shared.waiting().queues.len() == shared.workers(),
        shared.waiting().slots.len() == shared.workers(),
        shared.parked().len() == shared.workers(),
        forall|i: int|
            0 <= i < shared.workers() ==> (#[trigger] shared.waiting().queues[i]).len()
                <= LOCAL_QUEUE_CAPACITY,
{
    assert forall|i: int| 0 <= i < shared.workers() implies (
    #[trigger] shared.waiting().queues[i]).len() <= LOCAL_QUEUE_CAPACITY by {
        super::queue::law_queue_is_bounded(&shared.queues@[i]);
    }
}

} // verus!
