//! The projection of the event stream that every console shows.

use super::event::{Location, PollResult};
use crate::wire::{EventModel, LocationModel, WakeSourceModel};
use std::collections::BTreeMap;
use vstd::prelude::*;

verus! {

/// How many poll durations and wake sources a task remembers.
pub const MAX_HISTORY: usize = 64;

/// The state of a task as far as the events tell.
#[derive(Clone, Copy, Debug, PartialEq, Eq, Structural)]
pub enum TaskState {
    Queued,
    Running,
    Idle,
    Complete,
    Cancelled,
}

/// The word that is shown for a task state.
pub open spec fn task_state_text(state: TaskState) -> Seq<char> {
    match state {
        TaskState::Queued => "queued"@,
        TaskState::Running => "running"@,
        TaskState::Idle => "idle"@,
        TaskState::Complete => "done"@,
        TaskState::Cancelled => "cancelled"@,
    }
}

impl TaskState {
    /// The word that is shown for the state.
    pub fn as_str(self) -> (text: &'static str)
        ensures
            text@ == task_state_text(self),
    {
        match self {
            TaskState::Queued => "queued",
            TaskState::Running => "running",
            TaskState::Idle => "idle",
            TaskState::Complete => "done",
            TaskState::Cancelled => "cancelled",
        }
    }
}

/// What the console knows of one task.
#[derive(Clone, Debug)]
pub struct TaskView {
    pub id: u64,
    pub name: String,
    pub state: TaskState,
    pub worker: u32,
    pub polls: u64,
    pub total_busy_ns: u64,
    pub total_idle_ns: u64,
    pub scheduled: u64,
    pub location: Option<Location>,
    pub warnings: Vec<String>,
    pub poll_durations_ns: Vec<u64>,
    pub wake_sources: Vec<String>,
}

/// What the console knows of one worker.
#[derive(Clone, Copy, Debug)]
pub struct WorkerView {
    pub local_queue: u64,
    pub global_queue: u64,
    pub parks: u64,
    pub steals: u64,
    pub busy_ns: u64,
    pub polls: u64,
}

/// What the console knows of one contended resource.
#[derive(Clone, Debug)]
pub struct ResourceView {
    pub kind: String,
    pub holder: u64,
    pub waiters: Vec<u64>,
}

/// An operation that is currently waiting for an asynchronous resource.
#[derive(Clone, Debug, PartialEq, Eq)]
pub struct PendingOperation {
    pub task: u64,
    pub resource: PendingResource,
}

/// What a pending operation waits for.
#[derive(Clone, Debug, PartialEq, Eq)]
pub enum PendingResource {
    Io { fd: i32, interest: String },
    Timer { id: u64, deadline_ns: u64 },
    Resource { kind: String, holder: u64 },
}

/// What the task table is ordered by. Ties are ordered by task id.
#[derive(Clone, Copy, Debug, PartialEq, Eq, Structural)]
pub enum SortKey {
    Id,
    Total,
    Busy,
    Idle,
    Polls,
}

/// In-memory projection of the event stream used by both the renderer and tests.
#[derive(Debug)]
pub struct ConsoleModel {
    pub tasks: BTreeMap<u64, TaskView>,
    pub workers: BTreeMap<u32, WorkerView>,
    /// Ordered by kind, each kind once.
    pub resources: Vec<ResourceView>,
    pub pending_operations: Vec<PendingOperation>,
    pub connected: bool,
    pub disconnect_reason: Option<String>,
    pub event_count: u64,
    pub view: super::tab::View,
    pub selected_task: usize,
    pub paused: bool,
    pub show_help: bool,
    pub sort: SortKey,
    pub filter: String,
    pub filter_input: Option<String>,
}

// ---------------------------------------------------------------------------
// What the types mean
// ---------------------------------------------------------------------------

/// What a task view means.
pub struct TaskModel {
    pub id: u64,
    pub name: Seq<char>,
    pub state: TaskState,
    pub worker: u32,
    pub polls: u64,
    pub total_busy_ns: u64,
    pub total_idle_ns: u64,
    pub scheduled: u64,
    pub location: Option<LocationModel>,
    pub warnings: Seq<Seq<char>>,
    pub poll_durations_ns: Seq<u64>,
    pub wake_sources: Seq<Seq<char>>,
}

/// What a resource view means, apart from its kind.
pub struct ResourceModel {
    pub holder: u64,
    pub waiters: Seq<u64>,
}

/// What a pending operation means.
pub struct PendingModel {
    pub task: u64,
    pub resource: PendingResourceModel,
}

/// What a pending operation's resource means.
pub enum PendingResourceModel {
    Io { fd: i32, interest: Seq<char> },
    Timer { id: u64, deadline_ns: u64 },
    Resource { kind: Seq<char>, holder: u64 },
}

/// What the console's model means.
pub struct ConsoleState {
    pub tasks: Map<u64, TaskModel>,
    pub workers: Map<u32, WorkerView>,
    pub resources: Map<Seq<char>, ResourceModel>,
    pub pending: Seq<PendingModel>,
    pub connected: bool,
    pub disconnect_reason: Option<Seq<char>>,
    pub event_count: u64,
    pub view: super::tab::View,
    pub selected_task: usize,
    pub paused: bool,
    pub show_help: bool,
    pub sort: SortKey,
    pub filter: Seq<char>,
    pub filter_input: Option<Seq<char>>,
}

/// The characters of some texts.
pub open spec fn texts(strings: Seq<String>) -> Seq<Seq<char>> {
    strings.map_values(|s: String| s@)
}

impl View for TaskView {
    type V = TaskModel;

    open spec fn view(&self) -> TaskModel {
        TaskModel {
            id: self.id,
            name: self.name@,
            state: self.state,
            worker: self.worker,
            polls: self.polls,
            total_busy_ns: self.total_busy_ns,
            total_idle_ns: self.total_idle_ns,
            scheduled: self.scheduled,
            location: match self.location {
                Some(location) => Some(location@),
                None => None,
            },
            warnings: texts(self.warnings@),
            poll_durations_ns: self.poll_durations_ns@,
            wake_sources: texts(self.wake_sources@),
        }
    }
}

impl View for PendingResource {
    type V = PendingResourceModel;

    open spec fn view(&self) -> PendingResourceModel {
        match *self {
            PendingResource::Io { fd, interest } => PendingResourceModel::Io {
                fd,
                interest: interest@,
            },
            PendingResource::Timer { id, deadline_ns } => PendingResourceModel::Timer {
                id,
                deadline_ns,
            },
            PendingResource::Resource { kind, holder } => PendingResourceModel::Resource {
                kind: kind@,
                holder,
            },
        }
    }
}

impl View for PendingOperation {
    type V = PendingModel;

    open spec fn view(&self) -> PendingModel {
        PendingModel { task: self.task, resource: self.resource@ }
    }
}

/// What some pending operations mean.
pub open spec fn pending_models(operations: Seq<PendingOperation>) -> Seq<PendingModel> {
    operations.map_values(|operation: PendingOperation| operation@)
}

/// What some tasks mean.
pub open spec fn task_models(tasks: Map<u64, TaskView>) -> Map<u64, TaskModel> {
    tasks.map_values(|task: TaskView| task@)
}

/// Where a kind stands among the resources, if it does.
pub open spec fn has_kind(resources: Seq<ResourceView>, kind: Seq<char>) -> bool {
    exists|i: int| 0 <= i < resources.len() && (#[trigger] resources[i]).kind@ == kind
}

/// The resource of a kind that has one.
pub open spec fn resource_of(resources: Seq<ResourceView>, kind: Seq<char>) -> ResourceModel {
    let i = choose|i: int| 0 <= i < resources.len() && (#[trigger] resources[i]).kind@ == kind;
    ResourceModel { holder: resources[i].holder, waiters: resources[i].waiters@ }
}

/// The resources by their kinds.
pub open spec fn resource_models(resources: Seq<ResourceView>) -> Map<Seq<char>, ResourceModel> {
    Map::new(
        |kind: Seq<char>| has_kind(resources, kind),
        |kind: Seq<char>| resource_of(resources, kind),
    )
}

/// The kinds stand in strictly ascending order.
pub open spec fn kinds_ascend(resources: Seq<ResourceView>) -> bool {
    forall|i: int, j: int|
        0 <= i < j < resources.len() ==> crate::text::text_less(
            (#[trigger] resources[i]).kind@,
            (#[trigger] resources[j]).kind@,
        )
}

impl View for ConsoleModel {
    type V = ConsoleState;

    open spec fn view(&self) -> ConsoleState {
        ConsoleState {
            tasks: task_models(self.tasks@),
            workers: self.workers@,
            resources: resource_models(self.resources@),
            pending: pending_models(self.pending_operations@),
            connected: self.connected,
            disconnect_reason: super::event::optional_text(self.disconnect_reason),
            event_count: self.event_count,
            view: self.view,
            selected_task: self.selected_task,
            paused: self.paused,
            show_help: self.show_help,
            sort: self.sort,
            filter: self.filter@,
            filter_input: super::event::optional_text(self.filter_input),
        }
    }
}

// ---------------------------------------------------------------------------
// What an event does to the model
// ---------------------------------------------------------------------------

/// A task of which nothing is known but its id.
pub open spec fn new_task(id: u64) -> TaskModel {
    TaskModel {
        id,
        name: "<unnamed>"@,
        state: TaskState::Queued,
        worker: 0,
        polls: 0,
        total_busy_ns: 0,
        total_idle_ns: 0,
        scheduled: 1,
        location: None,
        warnings: Seq::empty(),
        poll_durations_ns: Seq::empty(),
        wake_sources: Seq::empty(),
    }
}

/// A worker of which nothing is known.
pub open spec fn new_worker() -> WorkerView {
    WorkerView { local_queue: 0, global_queue: 0, parks: 0, steals: 0, busy_ns: 0, polls: 0 }
}

/// The task with the id, as known so far.
pub open spec fn task_of(s: ConsoleState, id: u64) -> TaskModel {
    if s.tasks.contains_key(id) {
        s.tasks[id]
    } else {
        new_task(id)
    }
}

/// The worker with the id, as known so far.
pub open spec fn worker_of(s: ConsoleState, id: u32) -> WorkerView {
    if s.workers.contains_key(id) {
        s.workers[id]
    } else {
        new_worker()
    }
}

/// The sum, or the largest `u64` where the sum is larger.
pub open spec fn saturating_sum(a: u64, b: u64) -> u64 {
    if a + b > u64::MAX {
        u64::MAX
    } else {
        (a + b) as u64
    }
}

/// A bounded history with one more entry. The oldest entry makes room.
pub open spec fn remember<T>(history: Seq<T>, value: T) -> Seq<T> {
    if history.len() == MAX_HISTORY {
        history.drop_first().push(value)
    } else {
        history.push(value)
    }
}

/// Warnings with one more, which is not repeated.
pub open spec fn warned(warnings: Seq<Seq<char>>, warning: Seq<char>) -> Seq<Seq<char>> {
    if warnings.contains(warning) {
        warnings
    } else {
        warnings.push(warning)
    }
}

/// How a wake source is remembered.
pub open spec fn wake_source_text(source: WakeSourceModel) -> Seq<char> {
    match source {
        WakeSourceModel::Io { fd } => "io:"@ + crate::text::signed_decimal(fd as int),
        WakeSourceModel::Timer { id } => "timer:"@ + crate::text::decimal(id as nat),
        WakeSourceModel::Task { id } => "task:"@ + crate::text::decimal(id as nat),
        WakeSourceModel::Channel { kind } => "channel:"@ + kind,
        WakeSourceModel::External => "external"@,
    }
}

/// Whether an operation waits on a file descriptor.
pub open spec fn waits_on_io(operation: PendingModel, fd: i32) -> bool {
    operation.resource matches PendingResourceModel::Io { fd: current, .. } && current == fd
}

/// Whether an operation waits on a timer.
pub open spec fn waits_on_timer(operation: PendingModel, id: u64) -> bool {
    operation.resource matches PendingResourceModel::Timer { id: current, .. } && current == id
}

/// Whether an operation waits on a resource of a kind.
pub open spec fn waits_on_kind(operation: PendingModel, kind: Seq<char>) -> bool {
    operation.resource matches PendingResourceModel::Resource { kind: current, .. } && current
        == kind
}

/// The model with one task set.
pub open spec fn with_task(s: ConsoleState, task: TaskModel) -> ConsoleState {
    ConsoleState { tasks: s.tasks.insert(task.id, task), ..s }
}

/// The model with one worker set.
pub open spec fn with_worker(s: ConsoleState, id: u32, worker: WorkerView) -> ConsoleState {
    ConsoleState { workers: s.workers.insert(id, worker), ..s }
}

/// The model without the pending operations that `cleared` picks.
pub open spec fn without_pending(
    s: ConsoleState,
    cleared: spec_fn(PendingModel) -> bool,
) -> ConsoleState {
    ConsoleState { pending: s.pending.filter(|operation: PendingModel| !cleared(operation)), ..s }
}

/// The model without what a wake has ended: the operation that the source names,
/// or every operation of the task where the source names none.
pub open spec fn without_woken(
    s: ConsoleState,
    task: u64,
    source: WakeSourceModel,
) -> ConsoleState {
    match source {
        WakeSourceModel::Io { fd } => without_pending(
            s,
            |o: PendingModel| waits_on_io(o, fd) && o.task == task,
        ),
        WakeSourceModel::Timer { id } => without_pending(
            s,
            |o: PendingModel| waits_on_timer(o, id) && o.task == task,
        ),
        _ => without_pending(s, |o: PendingModel| o.task == task),
    }
}

/// The pending operations of the waiters of a contended resource.
pub open spec fn contended(kind: Seq<char>, holder: u64, waiters: Seq<u64>) -> Seq<PendingModel> {
    waiters.map_values(
        |task: u64|
            PendingModel { task, resource: PendingResourceModel::Resource { kind, holder } },
    )
}

/// What an event changes in a model that is not paused.
pub open spec fn projected(s: ConsoleState, event: EventModel) -> ConsoleState {
    match event {
        EventModel::TaskSpawned { id, name, location, .. } => {
            let task = task_of(s, id);
            with_task(
                s,
                TaskModel {
                    id,
                    name: match name {
                        Some(name) => name,
                        None => "<unnamed>"@,
                    },
                    location: Some(location),
                    state: TaskState::Queued,
                    scheduled: if task.scheduled < 1 {
                        1
                    } else {
                        task.scheduled
                    },
                    ..task
                },
            )
        },
        EventModel::TaskPollStart { id, worker, .. } => {
            let s = without_pending(s, |o: PendingModel| o.task == id);
            let s = with_task(
                s,
                TaskModel { id, worker, state: TaskState::Running, ..task_of(s, id) },
            );
            with_worker(s, worker, worker_of(s, worker))
        },
        EventModel::TaskPollEnd { id, worker, duration_ns, result } => {
            let task = task_of(s, id);
            let s = with_task(
                s,
                TaskModel {
                    id,
                    worker,
                    polls: saturating_sum(task.polls, 1),
                    total_busy_ns: saturating_sum(task.total_busy_ns, duration_ns),
                    poll_durations_ns: remember(task.poll_durations_ns, duration_ns),
                    state: match result {
                        PollResult::Ready => TaskState::Complete,
                        PollResult::Pending => TaskState::Idle,
                        PollResult::Panicked => TaskState::Cancelled,
                    },
                    warnings: if result is Panicked {
                        warned(task.warnings, "panic"@)
                    } else {
                        task.warnings
                    },
                    ..task
                },
            );
            let view = worker_of(s, worker);
            with_worker(
                s,
                worker,
                WorkerView {
                    busy_ns: saturating_sum(view.busy_ns, duration_ns),
                    polls: saturating_sum(view.polls, 1),
                    ..view
                },
            )
        },
        EventModel::TaskWoken { id, by } => {
            let s = without_woken(s, id, by);
            let task = task_of(s, id);
            with_task(
                s,
                TaskModel {
                    id,
                    state: TaskState::Queued,
                    scheduled: saturating_sum(task.scheduled, 1),
                    wake_sources: remember(task.wake_sources, wake_source_text(by)),
                    ..task
                },
            )
        },
        EventModel::TaskDropped { id, total_polls, total_busy_ns, total_idle_ns } => {
            let s = without_pending(s, |o: PendingModel| o.task == id);
            with_task(
                s,
                TaskModel {
                    id,
                    state: TaskState::Complete,
                    polls: total_polls,
                    total_busy_ns,
                    total_idle_ns,
                    ..task_of(s, id)
                },
            )
        },
        EventModel::TaskAborted { id } => {
            let s = without_pending(s, |o: PendingModel| o.task == id);
            with_task(s, TaskModel { id, state: TaskState::Cancelled, ..task_of(s, id) })
        },
        EventModel::WorkerPark { worker, .. } => {
            let view = worker_of(s, worker);
            with_worker(s, worker, WorkerView { parks: (view.parks + 1) as u64, ..view })
        },
        EventModel::WorkerUnpark { worker, .. } => with_worker(s, worker, worker_of(s, worker)),
        EventModel::WorkerSteal { thief, victim, count } => {
            let view = worker_of(s, thief);
            let s = with_worker(
                s,
                thief,
                WorkerView { steals: saturating_sum(view.steals, count), ..view },
            );
            with_worker(s, victim, worker_of(s, victim))
        },
        EventModel::QueueDepth { worker, local, global, .. } => with_worker(
            s,
            worker,
            WorkerView { local_queue: local, global_queue: global, ..worker_of(s, worker) },
        ),
        EventModel::BlockingDetected { task: id, poll_duration_ns, .. } => {
            let task = task_of(s, id);
            with_task(
                s,
                TaskModel {
                    id,
                    warnings: warned(task.warnings, "blocking"@),
                    poll_durations_ns: remember(task.poll_durations_ns, poll_duration_ns),
                    ..task
                },
            )
        },
        EventModel::BudgetExhausted { task: id } => {
            let task = task_of(s, id);
            with_task(s, TaskModel { id, warnings: warned(task.warnings, "budget"@), ..task })
        },
        EventModel::ResourceContended { kind, holder, waiters } => {
            let s = without_pending(s, |o: PendingModel| waits_on_kind(o, kind));
            ConsoleState {
                pending: s.pending + contended(kind, holder, waiters),
                resources: s.resources.insert(kind, ResourceModel { holder, waiters }),
                ..s
            }
        },
        EventModel::IoRegistered { fd, interest, task } => {
            let s = without_pending(s, |o: PendingModel| waits_on_io(o, fd) && o.task == task);
            let resource = PendingResourceModel::Io { fd, interest };
            ConsoleState { pending: s.pending.push(PendingModel { task, resource }), ..s }
        },
        EventModel::IoReady { fd, woke, .. } => without_pending(
            s,
            |o: PendingModel| waits_on_io(o, fd) && woke.contains(o.task),
        ),
        EventModel::TimerSet { id, deadline_ns, task } => {
            let s = without_pending(s, |o: PendingModel| waits_on_timer(o, id));
            let resource = PendingResourceModel::Timer { id, deadline_ns };
            ConsoleState { pending: s.pending.push(PendingModel { task, resource }), ..s }
        },
        EventModel::TimerFired { id, .. } => without_pending(
            s,
            |o: PendingModel| waits_on_timer(o, id),
        ),
        EventModel::TimerCancelled { id } => without_pending(
            s,
            |o: PendingModel| waits_on_timer(o, id),
        ),
    }
}

/// The model after an event. A paused model ignores events.
pub open spec fn applied(s: ConsoleState, event: EventModel) -> ConsoleState {
    if s.paused {
        s
    } else {
        projected(ConsoleState { event_count: saturating_sum(s.event_count, 1), ..s }, event)
    }
}

} // verus!
