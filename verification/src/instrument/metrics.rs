//! Task numbers, the event sink, runtime counters and task snapshots.

use crate::instrument::Location;
use crate::instrument::RuntimeEvent;
use crate::instrument::TaskId;
use vstd::prelude::*;

verus! {

// ---------------------------------------------------------------------------
// Task numbers
// ---------------------------------------------------------------------------

/// The counter that task numbers are taken from.
pub struct TaskIds {
    pub next: u64,
}

impl TaskIds {
    /// The first task has the number one.
    pub fn new() -> (ids: TaskIds)
        ensures
            ids.next == 1,
    {
        TaskIds { next: 1 }
    }

    /// The number of the next task.
    pub fn next(&mut self) -> (id: TaskId)
        ensures
            id.0 == old(self).next,
            final(self).next == old(self).next.wrapping_add(1),
    {
        let id: u64 = self.next;
        self.next = self.next.wrapping_add(1);
        TaskId(id)
    }
}

/// The task that a thread polls; zero where it polls none.
pub struct CurrentTask {
    pub id: u64,
}

/// The task to go back to.
pub struct CurrentTaskGuard {
    pub previous: u64,
}

impl CurrentTask {
    /// No task.
    pub fn new() -> (current: CurrentTask)
        ensures
            current.id == 0,
    {
        CurrentTask { id: 0 }
    }

    /// The task.
    pub fn current(&self) -> (id: TaskId)
        ensures
            id.0 == self.id,
    {
        TaskId(self.id)
    }

    /// Begins to poll a task.
    pub fn enter(&mut self, id: TaskId) -> (guard: CurrentTaskGuard)
        ensures
            final(self).id == id.0,
            guard.previous == old(self).id,
    {
        let previous: u64 = self.id;
        self.id = id.0;
        CurrentTaskGuard { previous }
    }

    /// Ends the poll: the thread is back at the task before.
    pub fn leave(&mut self, guard: CurrentTaskGuard)
        ensures
            final(self).id == guard.previous,
    {
        self.id = guard.previous;
    }
}

// ---------------------------------------------------------------------------
// The event sink
// ---------------------------------------------------------------------------

/// The place of the event sink.
pub struct Subscription<S> {
    pub active: bool,
    pub sink: Option<S>,
}

impl<S> Subscription<S> {
    /// No sink.
    pub fn new() -> (slot: Subscription<S>)
        ensures
            !slot.active,
            slot.sink is None,
    {
        Subscription { active: false, sink: None }
    }
}

/// Installs the event sink, in place of the one before.
pub fn set_subscriber<S>(slot: &mut Subscription<S>, sink: S)
    ensures
        final(slot).active,
        final(slot).sink == Some(sink),
{
    slot.sink = Some(sink);
    slot.active = true;
}

/// Removes the event sink.
pub fn clear_subscriber<S>(slot: &mut Subscription<S>)
    ensures
        !final(slot).active,
        final(slot).sink is None,
{
    slot.active = false;
    slot.sink = None;
}

/// The event for the sink. Where there is no sink, the event is not even made.
pub fn emit<S, M: FnOnce() -> RuntimeEvent>(slot: &Subscription<S>, make: M) -> (event: Option<
    RuntimeEvent,
>)
    requires
        make.requires(()),
    ensures
        match event {
            Some(event) => slot.active && slot.sink is Some && make.ensures((), event),
            None => !(slot.active && slot.sink is Some),
        },
{
    if !slot.active {
        return None;
    }
    match &slot.sink {
        Some(_) => Some(make()),
        None => None,
    }
}

/// How many frames a client of the event stream may be behind.
pub const CLIENT_QUEUE: usize = 64;

/// Those of the clients that took the frame. The others are dropped: a slow client does
/// not hold up the runtime.
pub open spec fn ready_clients<T>(clients: Seq<T>, sent: Seq<bool>) -> Seq<T>
    decreases clients.len(),
{
    if clients.len() == 0 {
        Seq::empty()
    } else {
        let front = ready_clients(clients.drop_last(), sent);
        if sent[clients.len() - 1] {
            front.push(clients.last())
        } else {
            front
        }
    }
}

/// Keeps the clients that took the frame, in order.
pub fn retain_clients(clients: &Vec<u64>, sent: &Vec<bool>) -> (kept: Vec<u64>)
    requires
        sent@.len() == clients@.len(),
    ensures
        kept@ == ready_clients(clients@, sent@),
{
    let mut kept: Vec<u64> = Vec::new();
    let mut i: usize = 0;
    assert(clients@.take(0) =~= Seq::empty());
    while i < clients.len()
        invariant
            i <= clients@.len(),
            sent@.len() == clients@.len(),
            kept@ == ready_clients(clients@.take(i as int), sent@),
        decreases clients.len() - i,
    {
        proof {
            assert(clients@.take(i + 1).drop_last() =~= clients@.take(i as int));
            assert(clients@.take(i + 1).last() == clients@[i as int]);
        }
        if sent[i] {
            kept.push(clients[i]);
        }
        i = i + 1;
    }
    assert(clients@.take(i as int) =~= clients@);
    kept
}

// ---------------------------------------------------------------------------
// Time
// ---------------------------------------------------------------------------

/// The nanoseconds since the origin, as far as they fit.
pub fn monotonic_nanos(elapsed: u128) -> (nanos: u64)
    ensures
        nanos == crate::instrument::wire_nanos(elapsed),
{
    let most: u128 = 18446744073709551615;
    if elapsed > most {
        u64::MAX
    } else {
        elapsed as u64
    }
}

/// A point in time as the nanoseconds since the origin. What lies before the origin, or
/// comes before there is one, is at the origin.
pub fn since_origin(at: u128, origin: Option<u128>) -> (nanos: u128)
    ensures
        nanos == (match origin {
            Some(origin) => if at > origin {
                (at - origin) as u128
            } else {
                0
            },
            None => 0,
        }),
{
    match origin {
        Some(origin) => if at > origin {
            at - origin
        } else {
            0
        },
        None => 0,
    }
}

// ---------------------------------------------------------------------------
// Counters
// ---------------------------------------------------------------------------

/// The counters of a runtime. They wrap around.
#[derive(Debug, Clone, Copy, PartialEq, Eq, Structural)]
pub struct MetricsState {
    pub active_tasks: u64,
    pub queue_depth: u64,
    pub total_polls: u64,
    pub total_busy_ns: u64,
    pub scheduled_tasks: u64,
    pub steals: u64,
    pub parks: u64,
    pub worker_busy_ns: u64,
    pub worker_count: u64,
}

/// What the counters say at some point in time. How busy the workers were is the time
/// they were busy, of the time they had.
#[derive(Debug, Clone, Copy, PartialEq, Eq, Structural)]
pub struct RuntimeMetricsSnapshot {
    pub active_tasks: u64,
    pub queue_depth: u64,
    pub total_polls: u64,
    pub total_busy: u64,
    pub scheduled_tasks: u64,
    pub steals: u64,
    pub parks: u64,
    pub busy_ns: u128,
    pub capacity_ns: u128,
}

/// What happens in a runtime.
pub enum MetricEvent {
    TaskSpawned,
    TaskFinished,
    TaskPolled(u128),
    TaskScheduled,
    TaskQueued,
    TaskDequeued,
    WorkerStolen(usize),
    WorkerParked,
    WorkerBusy(u128),
}

/// The counters after something happened.
pub open spec fn counted(state: MetricsState, event: MetricEvent) -> MetricsState {
    match event {
        MetricEvent::TaskSpawned => MetricsState {
            active_tasks: state.active_tasks.wrapping_add(1),
            ..state
        },
        MetricEvent::TaskFinished => MetricsState {
            active_tasks: state.active_tasks.wrapping_sub(1),
            ..state
        },
        MetricEvent::TaskPolled(nanos) => MetricsState {
            total_polls: state.total_polls.wrapping_add(1),
            total_busy_ns: state.total_busy_ns.wrapping_add(crate::instrument::wire_nanos(nanos)),
            ..state
        },
        MetricEvent::TaskScheduled => MetricsState {
            scheduled_tasks: state.scheduled_tasks.wrapping_add(1),
            ..state
        },
        MetricEvent::TaskQueued => MetricsState {
            queue_depth: state.queue_depth.wrapping_add(1),
            ..state
        },
        MetricEvent::TaskDequeued => MetricsState {
            queue_depth: state.queue_depth.wrapping_sub(1),
            ..state
        },
        MetricEvent::WorkerStolen(count) => MetricsState {
            steals: state.steals.wrapping_add(count as u64),
            ..state
        },
        MetricEvent::WorkerParked => MetricsState { parks: state.parks.wrapping_add(1), ..state },
        MetricEvent::WorkerBusy(nanos) => MetricsState {
            worker_busy_ns: state.worker_busy_ns.wrapping_add(
                crate::instrument::wire_nanos(nanos),
            ),
            ..state
        },
    }
}

/// What is counted up is counted down again: a task that ends, and one that leaves a
/// queue, leave the counters as they were before it came.
pub proof fn law_counters_balance(state: MetricsState)
    ensures
        counted(counted(state, MetricEvent::TaskSpawned), MetricEvent::TaskFinished) == state,
        counted(counted(state, MetricEvent::TaskQueued), MetricEvent::TaskDequeued) == state,
{
}

impl MetricsState {
    /// Nothing has happened. There is at least one worker.
    pub fn new(worker_count: usize) -> (state: MetricsState)
        ensures
            state == (MetricsState {
                active_tasks: 0,
                queue_depth: 0,
                total_polls: 0,
                total_busy_ns: 0,
                scheduled_tasks: 0,
                steals: 0,
                parks: 0,
                worker_busy_ns: 0,
                worker_count: if worker_count == 0 {
                    1
                } else {
                    worker_count as u64
                },
            }),
    {
        MetricsState {
            active_tasks: 0,
            queue_depth: 0,
            total_polls: 0,
            total_busy_ns: 0,
            scheduled_tasks: 0,
            steals: 0,
            parks: 0,
            worker_busy_ns: 0,
            worker_count: if worker_count == 0 {
                1
            } else {
                worker_count as u64
            },
        }
    }

    /// Counts something that happened.
    pub fn count(&mut self, event: MetricEvent)
        ensures
            *final(self) == counted(*old(self), event),
    {
        match event {
            MetricEvent::TaskSpawned => {
                self.active_tasks = self.active_tasks.wrapping_add(1);
            },
            MetricEvent::TaskFinished => {
                self.active_tasks = self.active_tasks.wrapping_sub(1);
            },
            MetricEvent::TaskPolled(nanos) => {
                self.total_polls = self.total_polls.wrapping_add(1);
                self.total_busy_ns = self.total_busy_ns.wrapping_add(monotonic_nanos(nanos));
            },
            MetricEvent::TaskScheduled => {
                self.scheduled_tasks = self.scheduled_tasks.wrapping_add(1);
            },
            MetricEvent::TaskQueued => {
                self.queue_depth = self.queue_depth.wrapping_add(1);
            },
            MetricEvent::TaskDequeued => {
                self.queue_depth = self.queue_depth.wrapping_sub(1);
            },
            MetricEvent::WorkerStolen(count) => {
                self.steals = self.steals.wrapping_add(count as u64);
            },
            MetricEvent::WorkerParked => {
                self.parks = self.parks.wrapping_add(1);
            },
            MetricEvent::WorkerBusy(nanos) => {
                self.worker_busy_ns = self.worker_busy_ns.wrapping_add(monotonic_nanos(nanos));
            },
        }
    }
}

// ---------------------------------------------------------------------------
// Tasks
// ---------------------------------------------------------------------------

/// The state of a task in a dump.
#[derive(Debug, Clone, Copy, PartialEq, Eq, Structural)]
pub enum TaskState {
    Queued,
    Running,
    Idle,
    Complete,
    Cancelled,
}

/// What the runtime knows of a task.
pub struct TaskHeader {
    pub id: TaskId,
    pub name: Option<String>,
    pub location: Location,
    pub parent: Option<TaskId>,
    pub complete: bool,
    pub cancelled: bool,
    pub running: bool,
    pub notified: bool,
    pub worker: u32,
    pub polls: u64,
    pub busy_ns: u64,
    pub idle_ns: u64,
    pub scheduled: u64,
}

/// A task at some point in time. Times are nanoseconds.
#[derive(Debug, Clone, PartialEq, Eq)]
pub struct TaskSnapshot {
    pub id: TaskId,
    pub name: Option<String>,
    pub location: Location,
    pub parent: Option<TaskId>,
    pub state: TaskState,
    pub worker: u32,
    pub polls: u64,
    pub total_busy: u64,
    pub total_idle: u64,
    pub scheduled: u64,
}

/// The state of a task: the first of these that holds.
pub open spec fn state_of(header: TaskHeader) -> TaskState {
    if header.complete {
        TaskState::Complete
    } else if header.cancelled {
        TaskState::Cancelled
    } else if header.running {
        TaskState::Running
    } else if header.notified {
        TaskState::Queued
    } else {
        TaskState::Idle
    }
}

/// A text that may be missing.
pub open spec fn optional_view(text: Option<String>) -> Option<Seq<char>> {
    match text {
        Some(text) => Some(text@),
        None => None,
    }
}

/// Whether a snapshot shows what the runtime knows of a task.
pub open spec fn shows(snapshot: TaskSnapshot, header: TaskHeader) -> bool {
    &&& snapshot.id == header.id
    &&& optional_view(snapshot.name) == optional_view(header.name)
    &&& snapshot.location@ == header.location@
    &&& snapshot.parent == header.parent
    &&& snapshot.state == state_of(header)
    &&& snapshot.worker == header.worker
    &&& snapshot.polls == header.polls
    &&& snapshot.total_busy == header.busy_ns
    &&& snapshot.total_idle == header.idle_ns
    &&& snapshot.scheduled == header.scheduled
}

/// The state of a task.
fn task_state(header: &TaskHeader) -> (state: TaskState)
    ensures
        state == state_of(*header),
{
    if header.complete {
        TaskState::Complete
    } else if header.cancelled {
        TaskState::Cancelled
    } else if header.running {
        TaskState::Running
    } else if header.notified {
        TaskState::Queued
    } else {
        TaskState::Idle
    }
}

/// A snapshot of each task, in order.
pub fn snapshot_tasks(tasks: &Vec<TaskHeader>) -> (snapshots: Vec<TaskSnapshot>)
    ensures
        snapshots@.len() == tasks@.len(),
        forall|i: int| 0 <= i < tasks@.len() ==> shows(#[trigger] snapshots@[i], tasks@[i]),
{
    let mut snapshots: Vec<TaskSnapshot> = Vec::new();
    let mut i: usize = 0;
    while i < tasks.len()
        invariant
            i <= tasks@.len(),
            snapshots@.len() == i,
            forall|k: int| 0 <= k < i ==> shows(#[trigger] snapshots@[k], tasks@[k]),
        decreases tasks.len() - i,
    {
        let header = &tasks[i];
        let name = match &header.name {
            Some(name) => Some(name.clone()),
            None => None,
        };
        snapshots.push(
            TaskSnapshot {
                id: header.id,
                name,
                location: Location { file: header.location.file, line: header.location.line },
                parent: header.parent,
                state: task_state(header),
                worker: header.worker,
                polls: header.polls,
                total_busy: header.busy_ns,
                total_idle: header.idle_ns,
                scheduled: header.scheduled,
            },
        );
        i = i + 1;
    }
    snapshots
}

/// Access to the counters of a runtime, and to its tasks if it provides them.
pub struct RuntimeMetrics<'a> {
    pub state: &'a MetricsState,
    pub tasks: Option<&'a Vec<TaskHeader>>,
}

impl<'a> RuntimeMetrics<'a> {
    /// The counters of the process, without tasks.
    pub fn current(state: &'a MetricsState) -> (metrics: RuntimeMetrics<'a>)
        ensures
            *metrics.state == *state,
            metrics.tasks is None,
    {
        RuntimeMetrics { state, tasks: None }
    }

    /// The counters of a runtime.
    pub fn from_state(state: &'a MetricsState, tasks: Option<&'a Vec<TaskHeader>>) -> (metrics:
        RuntimeMetrics<'a>)
        ensures
            *metrics.state == *state,
            metrics.tasks == tasks,
    {
        RuntimeMetrics { state, tasks }
    }

    /// What the counters say, `elapsed` nanoseconds after the runtime started.
    pub fn snapshot(&self, elapsed: u128) -> (snapshot: RuntimeMetricsSnapshot)
        ensures
            snapshot.active_tasks == self.state.active_tasks,
            snapshot.queue_depth == self.state.queue_depth,
            snapshot.total_polls == self.state.total_polls,
            snapshot.total_busy == self.state.total_busy_ns,
            snapshot.scheduled_tasks == self.state.scheduled_tasks,
            snapshot.steals == self.state.steals,
            snapshot.parks == self.state.parks,
            snapshot.busy_ns == self.state.worker_busy_ns,
            snapshot.capacity_ns == (if elapsed * self.state.worker_count > u128::MAX {
                u128::MAX as int
            } else {
                elapsed * self.state.worker_count
            }),
    {
        let workers: u128 = self.state.worker_count as u128;
        let capacity_ns: u128 = match elapsed.checked_mul(workers) {
            Some(capacity) => capacity,
            None => u128::MAX,
        };
        RuntimeMetricsSnapshot {
            active_tasks: self.state.active_tasks,
            queue_depth: self.state.queue_depth,
            total_polls: self.state.total_polls,
            total_busy: self.state.total_busy_ns,
            scheduled_tasks: self.state.scheduled_tasks,
            steals: self.state.steals,
            parks: self.state.parks,
            busy_ns: self.state.worker_busy_ns as u128,
            capacity_ns,
        }
    }

    /// Snapshots of the tasks that are registered; none where the runtime provides none.
    pub fn task_snapshots(&self) -> (snapshots: Vec<TaskSnapshot>)
        ensures
            match self.tasks {
                Some(tasks) => {
                    &&& snapshots@.len() == tasks@.len()
                    &&& forall|i: int|
                        0 <= i < tasks@.len() ==> shows(#[trigger] snapshots@[i], tasks@[i])
                },
                None => snapshots@.len() == 0,
            },
    {
        match self.tasks {
            Some(tasks) => snapshot_tasks(tasks),
            None => Vec::new(),
        }
    }

    /// The same, for watchdogs and diagnostic commands.
    pub fn dump_tasks(&self) -> (snapshots: Vec<TaskSnapshot>)
        ensures
            match self.tasks {
                Some(tasks) => {
                    &&& snapshots@.len() == tasks@.len()
                    &&& forall|i: int|
                        0 <= i < tasks@.len() ==> shows(#[trigger] snapshots@[i], tasks@[i])
                },
                None => snapshots@.len() == 0,
            },
    {
        self.task_snapshots()
    }
}

} // verus!
