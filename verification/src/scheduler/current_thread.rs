//! The current-thread scheduler's queues and decisions.
//!
//! Local work is kept in a first-in, first-out queue, wakes from other threads use
//! the injection queue, and tasks that are only to be destroyed are deferred. Only
//! the owner thread takes tasks out.

use std::collections::VecDeque;
use vstd::prelude::*;

verus! {

broadcast use vstd::std_specs::vecdeque::group_vec_dequeue_axioms;

/// Every so many tasks, the injection queue goes before the local queue.
pub const GLOBAL_QUEUE_INTERVAL: u32 = 61;

/// The scheduler of one thread. Threads are told apart by numbers.
pub struct CurrentThread<T> {
    local: VecDeque<T>,
    injection: VecDeque<T>,
    deferred: VecDeque<T>,
    owner: Option<u64>,
    owner_thread: u64,
    tick: u32,
    closed: bool,
    shutdown_complete: bool,
}

/// What the scheduler means.
pub struct CurrentState<T> {
    pub local: Seq<T>,
    pub injection: Seq<T>,
    pub deferred: Seq<T>,
    pub owner: Option<u64>,
    pub owner_thread: u64,
    pub tick: u32,
    pub closed: bool,
    pub shutdown_complete: bool,
}

/// Where a runnable task went.
#[derive(Debug, Clone, Copy, PartialEq, Eq, Structural)]
pub enum Enqueued {
    /// The scheduler is gone, and the task was dropped.
    Dropped,
    /// The owner has it.
    Local,
    /// It came from another thread. The owner is to be woken.
    Injected,
}

/// What became of a task that is to be destroyed.
#[derive(Debug)]
pub enum Deferred<T> {
    /// The owner destroys it, and is to be woken.
    Queued,
    /// There is no owner left to destroy it: the task must not be dropped.
    Kept(T),
}

/// Where the owner stands in a round of its loop.
#[derive(Debug, Clone, Copy, PartialEq, Eq, Structural)]
pub enum Phase {
    /// At the beginning, before the root future's turn.
    Start,
    /// Behind the root future's turn.
    Tasks,
}

/// What the owner does next.
#[derive(Debug)]
pub enum RootStep<T> {
    /// Run the task that is handed out.
    Run(T),
    /// Poll the root future.
    PollRoot,
    /// Park until there is work.
    Park,
}

impl<T> View for CurrentThread<T> {
    type V = CurrentState<T>;

    closed spec fn view(&self) -> CurrentState<T> {
        CurrentState {
            local: self.local@,
            injection: self.injection@,
            deferred: self.deferred@,
            owner: self.owner,
            owner_thread: self.owner_thread,
            tick: self.tick,
            closed: self.closed,
            shutdown_complete: self.shutdown_complete,
        }
    }
}

/// Whether a thread may poll and destroy tasks: it is running the scheduler, or it
/// made it and the scheduler is shutting down.
pub open spec fn owns<T>(s: CurrentState<T>, thread: u64) -> bool {
    s.owner == Some(thread) || (s.closed && s.owner_thread == thread)
}

/// Whether nothing will ever run again.
pub open spec fn is_gone<T>(s: CurrentState<T>) -> bool {
    s.closed && s.shutdown_complete
}

/// Where a task goes that becomes runnable on a thread.
pub open spec fn enqueued<T>(s: CurrentState<T>, task: T, thread: u64) -> (
    Enqueued,
    CurrentState<T>,
) {
    if is_gone(s) {
        (Enqueued::Dropped, s)
    } else if s.owner == Some(thread) && !s.closed {
        (Enqueued::Local, CurrentState { local: s.local.push(task), ..s })
    } else {
        (Enqueued::Injected, CurrentState { injection: s.injection.push(task), ..s })
    }
}

/// The next task: a deferred one, then a local one, then an injected one. Every so
/// many times, an injected one goes before a local one.
pub open spec fn next_of<T>(s: CurrentState<T>) -> (Option<T>, CurrentState<T>) {
    let s = CurrentState { tick: s.tick.wrapping_add(1), ..s };
    if s.deferred.len() > 0 {
        (Some(s.deferred[0]), CurrentState { deferred: s.deferred.drop_first(), ..s })
    } else if s.injection.len() > 0 && (s.tick % GLOBAL_QUEUE_INTERVAL == 0 || s.local.len() == 0) {
        (Some(s.injection[0]), CurrentState { injection: s.injection.drop_first(), ..s })
    } else if s.local.len() > 0 {
        (Some(s.local[0]), CurrentState { local: s.local.drop_first(), ..s })
    } else {
        (None, s)
    }
}

/// The next task of a scheduler that shuts down: a deferred one, then a local one,
/// then an injected one.
pub open spec fn drained<T>(s: CurrentState<T>) -> (Option<T>, CurrentState<T>) {
    if s.deferred.len() > 0 {
        (Some(s.deferred[0]), CurrentState { deferred: s.deferred.drop_first(), ..s })
    } else if s.local.len() > 0 {
        (Some(s.local[0]), CurrentState { local: s.local.drop_first(), ..s })
    } else if s.injection.len() > 0 {
        (Some(s.injection[0]), CurrentState { injection: s.injection.drop_first(), ..s })
    } else {
        (None, s)
    }
}

/// What the owner does next, the phase behind it, whether the root future is woken
/// then, and the scheduler.
pub open spec fn root_round<T>(s: CurrentState<T>, phase: Phase, woken: bool) -> (
    RootStep<T>,
    Phase,
    bool,
    CurrentState<T>,
) {
    if phase is Start && s.deferred.len() > 0 {
        (
            RootStep::Run(s.deferred[0]),
            Phase::Start,
            woken,
            CurrentState { deferred: s.deferred.drop_first(), ..s },
        )
    } else if phase is Start && woken {
        (RootStep::PollRoot, Phase::Tasks, false, s)
    } else {
        match next_of(s) {
            (Some(task), after) => (RootStep::Run(task), Phase::Start, woken, after),
            (None, after) => (RootStep::Park, Phase::Start, woken, after),
        }
    }
}

fn pop_first<T>(queue: &mut VecDeque<T>) -> (task: Option<T>)
    ensures
        if old(queue)@.len() == 0 {
            task is None && final(queue)@ == old(queue)@
        } else {
            task == Some(old(queue)@[0]) && final(queue)@ == old(queue)@.drop_first()
        },
{
    let task = queue.pop_front();
    assert(old(queue)@.len() > 0 ==> queue@ =~= old(queue)@.drop_first());
    task
}

impl<T> CurrentThread<T> {
    /// A scheduler made by a thread.
    pub fn new(owner_thread: u64) -> (scheduler: Self)
        ensures
            scheduler@ == (CurrentState::<T> {
                local: Seq::empty(),
                injection: Seq::empty(),
                deferred: Seq::empty(),
                owner: None,
                owner_thread,
                tick: 0,
                closed: false,
                shutdown_complete: false,
            }),
    {
        CurrentThread {
            local: VecDeque::new(),
            injection: VecDeque::new(),
            deferred: VecDeque::new(),
            owner: None,
            owner_thread,
            tick: 0,
            closed: false,
            shutdown_complete: false,
        }
    }

    /// Whether a thread may poll and destroy tasks.
    pub fn is_owner_thread(&self, thread: u64) -> (result: bool)
        ensures
            result == owns(self@, thread),
    {
        self.owner == Some(thread) || (self.closed && self.owner_thread == thread)
    }

    /// Whether a scheduler is being run by some thread.
    pub fn is_running(&self) -> (running: bool)
        ensures
            running == (self@.owner is Some),
    {
        self.owner.is_some()
    }

    /// A thread begins to run the scheduler.
    pub fn enter(&mut self, thread: u64)
        requires
            old(self)@.owner is None,
        ensures
            final(self)@ == (CurrentState { owner: Some(thread), ..old(self)@ }),
    {
        self.owner = Some(thread);
    }

    /// A thread stops running the scheduler.
    pub fn leave(&mut self, thread: u64)
        ensures
            final(self)@ == (CurrentState {
                owner: if old(self)@.owner == Some(thread) {
                    None
                } else {
                    old(self)@.owner
                },
                ..old(self)@
            }),
    {
        if self.owner == Some(thread) {
            self.owner = None;
        }
    }

    /// Queues a task that became runnable on a thread.
    pub fn enqueue(&mut self, task: T, thread: u64) -> (result: Enqueued)
        ensures
            (result, final(self)@) == enqueued(old(self)@, task, thread),
    {
        if self.closed && self.shutdown_complete {
            return Enqueued::Dropped;
        }
        if self.owner == Some(thread) && !self.closed {
            self.local.push_back(task);
            return Enqueued::Local;
        }
        self.injection.push_back(task);
        Enqueued::Injected
    }

    /// Takes the next task.
    pub fn next_task(&mut self) -> (task: Option<T>)
        ensures
            (task, final(self)@) == next_of(old(self)@),
    {
        self.tick = self.tick.wrapping_add(1);
        if let Some(task) = pop_first(&mut self.deferred) {
            return Some(task);
        }
        if self.tick % GLOBAL_QUEUE_INTERVAL == 0 {
            if let Some(task) = pop_first(&mut self.injection) {
                return Some(task);
            }
        }
        if let Some(task) = pop_first(&mut self.local) {
            return Some(task);
        }
        pop_first(&mut self.injection)
    }

    /// What the owner does next.
    pub fn root_step(&mut self, phase: &mut Phase, woken: &mut bool) -> (step: RootStep<T>)
        ensures
            (step, *final(phase), *final(woken), final(self)@) == root_round(
                old(self)@,
                *old(phase),
                *old(woken),
            ),
    {
        match *phase {
            Phase::Start => {
                if let Some(task) = pop_first(&mut self.deferred) {
                    return RootStep::Run(task);
                }
                if *woken {
                    *woken = false;
                    *phase = Phase::Tasks;
                    return RootStep::PollRoot;
                }
            },
            Phase::Tasks => {},
        }
        *phase = Phase::Start;
        match self.next_task() {
            Some(task) => RootStep::Run(task),
            None => RootStep::Park,
        }
    }

    /// Leaves a task for the owner to destroy.
    pub fn defer_dealloc(&mut self, task: T, thread: u64) -> (result: Deferred<T>)
        ensures
            if is_gone(old(self)@) && !owns(old(self)@, thread) {
                result == Deferred::Kept(task) && final(self)@ == old(self)@
            } else {
                result is Queued && final(self)@ == (CurrentState {
                    deferred: old(self)@.deferred.push(task),
                    ..old(self)@
                })
            },
    {
        if self.closed && self.shutdown_complete && !self.is_owner_thread(thread) {
            return Deferred::Kept(task);
        }
        self.deferred.push_back(task);
        Deferred::Queued
    }

    /// Whether any thread may release a task.
    pub fn can_dealloc_remotely(&self) -> (result: bool)
        ensures
            result == self@.shutdown_complete,
    {
        self.shutdown_complete
    }

    /// Begins to shut down. Returns whether the scheduler was still open.
    pub fn close(&mut self) -> (first: bool)
        ensures
            first == !old(self)@.closed,
            final(self)@ == (CurrentState { closed: true, ..old(self)@ }),
    {
        let first = !self.closed;
        self.closed = true;
        first
    }

    /// Takes the next task of a scheduler that shuts down. Once none is left, the
    /// shutdown is complete.
    pub fn drain_next(&mut self) -> (task: Option<T>)
        ensures
            task == drained(old(self)@).0,
            final(self)@ == (CurrentState {
                shutdown_complete: old(self)@.shutdown_complete || task is None,
                ..drained(old(self)@).1
            }),
    {
        if let Some(task) = pop_first(&mut self.deferred) {
            return Some(task);
        }
        if let Some(task) = pop_first(&mut self.local) {
            return Some(task);
        }
        let task = pop_first(&mut self.injection);
        if task.is_none() {
            self.shutdown_complete = true;
        }
        task
    }
}

/// The root future is polled only after a wake, and at most once before a task gets
/// its turn.
pub proof fn law_root_is_polled_only_when_woken<T>(s: CurrentState<T>, phase: Phase, woken: bool)
    ensures
        root_round(s, phase, woken).0 is PollRoot ==> woken && phase is Start && root_round(
            s,
            phase,
            woken,
        ).1 is Tasks && !root_round(s, phase, woken).2,
        phase is Tasks ==> root_round(s, phase, woken).0 !is PollRoot,
{
}

/// The owner parks only when nothing waits.
pub proof fn law_park_only_when_idle<T>(s: CurrentState<T>, phase: Phase, woken: bool)
    ensures
        root_round(s, phase, woken).0 is Park ==> s.local.len() == 0 && s.injection.len() == 0
            && s.deferred.len() == 0 && (phase is Start ==> !woken),
{
}

/// Whether the injection queue goes before the local queue in the take that comes
/// after `tick` takes.
pub open spec fn injection_first(tick: u32) -> bool {
    tick.wrapping_add(1) % GLOBAL_QUEUE_INTERVAL == 0
}

/// No injected task starves behind local ones. Every take counts and nothing else
/// does; of any so many takes in a row, the injection queue goes first in one; and
/// what was injected first is first in that queue until it is taken.
pub proof fn law_injected_task_gets_a_turn<T>(s: CurrentState<T>, task: T, thread: u64)
    ensures
        next_of(s).1.tick == s.tick.wrapping_add(1),
        enqueued(s, task, thread).1.tick == s.tick,
        exists|k: u32|
            k < GLOBAL_QUEUE_INTERVAL && #[trigger] injection_first(s.tick.wrapping_add(k)),
        s.deferred.len() == 0 && s.injection.len() > 0 && injection_first(s.tick) ==> next_of(s).0
            == Some(s.injection[0]),
        s.injection.len() > 0 ==> enqueued(s, task, thread).1.injection[0] == s.injection[0],
        s.injection.len() > 0 ==> next_of(s).0 == Some(s.injection[0]) || next_of(s).1.injection
            == s.injection,
{
    let tick = s.tick as int;
    let n = GLOBAL_QUEUE_INTERVAL as int;
    let rest = (tick + 1) % n;
    let ahead = if rest == 0 {
        0
    } else {
        n - rest
    };
    let total: int = 0x1_0000_0000;
    let k = if tick + 1 + ahead <= u32::MAX {
        ahead
    } else {
        total - 1 - tick
    };
    assert((tick + 1 + ahead) % n == 0) by {
        vstd::arithmetic::div_mod::lemma_fundamental_div_mod(tick + 1, n);
        let q = (tick + 1) / n;
        if rest == 0 {
        } else {
            assert(tick + 1 + ahead == n * q + n);
            vstd::arithmetic::div_mod::lemma_mod_multiples_vanish(q + 1, 0, n);
        }
    }
    assert(injection_first(s.tick.wrapping_add(k as u32)));
}

/// After the shutdown is complete, no task is taken in any more.
pub proof fn law_nothing_enters_after_shutdown<T>(s: CurrentState<T>, task: T, thread: u64)
    requires
        is_gone(s),
    ensures
        enqueued(s, task, thread) == (Enqueued::Dropped, s),
{
}

} // verus!
