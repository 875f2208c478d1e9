//! Applying events to the console's model.

use super::event::{Event, Location, PollResult, WakeSource};
use super::model;
use super::model::{
    ConsoleModel, PendingOperation, PendingResource, ResourceView, SortKey, TaskState, TaskView,
    WorkerView, MAX_HISTORY,
};
use super::tab;
use crate::text::{push_i32, push_text, push_u64, text_before};
use std::collections::BTreeMap;
use vstd::prelude::*;

verus! {

broadcast use vstd::std_specs::btree::group_btree_axioms;

/// Adds `value` to a history, which forgets its oldest entry when it is full.
pub fn push_history<T>(history: &mut Vec<T>, value: T)
    ensures
        final(history)@ == model::remember(old(history)@, value),
{
    if history.len() == MAX_HISTORY {
        history.remove(0);
        assert(history@ =~= old(history)@.drop_first());
    }
    history.push(value);
}

/// How a wake source is remembered.
pub fn wake_source_name(source: &WakeSource) -> (name: String)
    ensures
        name@ == model::wake_source_text(source@),
{
    let mut out = String::new();
    match source {
        WakeSource::Io { fd } => {
            push_text(&mut out, "io:");
            push_i32(&mut out, *fd);
        },
        WakeSource::Timer { id } => {
            push_text(&mut out, "timer:");
            push_u64(&mut out, *id);
        },
        WakeSource::Task(id) => {
            push_text(&mut out, "task:");
            push_u64(&mut out, *id);
        },
        WakeSource::Channel { kind } => {
            push_text(&mut out, "channel:");
            push_text(&mut out, kind.as_str());
        },
        WakeSource::External => push_text(&mut out, "external"),
    }
    assert(out@ =~= model::wake_source_text(source@));
    out
}

impl TaskView {
    /// A task of which nothing is known but its id.
    pub fn new(id: u64) -> (task: Self)
        ensures
            task@ == model::new_task(id),
    {
        let task = TaskView {
            id,
            name: "<unnamed>".to_owned(),
            state: TaskState::Queued,
            worker: 0,
            polls: 0,
            total_busy_ns: 0,
            total_idle_ns: 0,
            scheduled: 1,
            location: None,
            warnings: Vec::new(),
            poll_durations_ns: Vec::new(),
            wake_sources: Vec::new(),
        };
        assert(task@.warnings =~= Seq::empty());
        assert(task@.wake_sources =~= Seq::empty());
        task
    }

    /// Adds a warning, once.
    pub fn warning(&mut self, warning: &str)
        ensures
            final(self)@ == (model::TaskModel {
                warnings: model::warned(old(self)@.warnings, warning@),
                ..old(self)@
            }),
    {
        let text = warning.to_owned();
        let mut i: usize = 0;
        while i < self.warnings.len()
            invariant
                *self == *old(self),
                text@ == warning@,
                i <= self.warnings.len(),
                forall|j: int| 0 <= j < i ==> #[trigger] self@.warnings[j] != warning@,
            decreases self.warnings.len() - i,
        {
            if self.warnings[i] == text {
                assert(self@.warnings[i as int] == warning@);
                return ;
            }
            i = i + 1;
        }
        self.warnings.push(text);
        assert(self@.warnings =~= old(self)@.warnings.push(warning@));
    }

    /// The time since the task was spawned, as far as it was accounted.
    pub fn duration(&self) -> (ns: u64)
        ensures
            ns == model::saturating_sum(self.total_busy_ns, self.total_idle_ns),
    {
        self.total_busy_ns.saturating_add(self.total_idle_ns)
    }

    /// Remembers how long a poll took.
    fn remember_poll(&mut self, duration_ns: u64)
        ensures
            final(self)@ == (model::TaskModel {
                poll_durations_ns: model::remember(old(self)@.poll_durations_ns, duration_ns),
                ..old(self)@
            }),
    {
        push_history(&mut self.poll_durations_ns, duration_ns);
    }

    /// Remembers what woke the task.
    fn remember_wake(&mut self, source: &WakeSource)
        ensures
            final(self)@ == (model::TaskModel {
                wake_sources: model::remember(
                    old(self)@.wake_sources,
                    model::wake_source_text(source@),
                ),
                ..old(self)@
            }),
    {
        push_history(&mut self.wake_sources, wake_source_name(source));
        assert(self@.wake_sources =~= model::remember(
            old(self)@.wake_sources,
            model::wake_source_text(source@),
        ));
    }
}

impl WorkerView {
    /// A worker of which nothing is known.
    pub fn new() -> (worker: Self)
        ensures
            worker == model::new_worker(),
    {
        WorkerView { local_queue: 0, global_queue: 0, parks: 0, steals: 0, busy_ns: 0, polls: 0 }
    }
}

impl Default for WorkerView {
    fn default() -> (worker: Self)
        ensures
            worker == model::new_worker(),
    {
        WorkerView::new()
    }
}

/// Which pending operations an event ends.
enum Ended<'a> {
    Task(u64),
    IoOf { fd: i32, task: u64 },
    IoWoken { fd: i32, woke: &'a Vec<u64> },
    Timer(u64),
    TimerOf { id: u64, task: u64 },
    Kind(&'a String),
}

spec fn ends(ended: Ended, o: model::PendingModel) -> bool {
    match ended {
        Ended::Task(task) => o.task == task,
        Ended::IoOf { fd, task } => model::waits_on_io(o, fd) && o.task == task,
        Ended::IoWoken { fd, woke } => model::waits_on_io(o, fd) && woke@.contains(o.task),
        Ended::Timer(id) => model::waits_on_timer(o, id),
        Ended::TimerOf { id, task } => model::waits_on_timer(o, id) && o.task == task,
        Ended::Kind(kind) => model::waits_on_kind(o, kind@),
    }
}

fn list_contains(list: &Vec<u64>, value: u64) -> (found: bool)
    ensures
        found == list@.contains(value),
{
    let mut i: usize = 0;
    while i < list.len()
        invariant
            i <= list.len(),
            forall|j: int| 0 <= j < i ==> list@[j] != value,
        decreases list.len() - i,
    {
        if list[i] == value {
            return true;
        }
        i = i + 1;
    }
    false
}

fn is_ended(ended: &Ended, operation: &PendingOperation) -> (result: bool)
    ensures
        result == ends(*ended, operation@),
{
    match ended {
        Ended::Task(task) => operation.task == *task,
        Ended::IoOf { fd, task } => match &operation.resource {
            PendingResource::Io { fd: current, .. } => *current == *fd && operation.task == *task,
            _ => false,
        },
        Ended::IoWoken { fd, woke } => match &operation.resource {
            PendingResource::Io { fd: current, .. } => *current == *fd && list_contains(
                woke,
                operation.task,
            ),
            _ => false,
        },
        Ended::Timer(id) => match &operation.resource {
            PendingResource::Timer { id: current, .. } => *current == *id,
            _ => false,
        },
        Ended::TimerOf { id, task } => match &operation.resource {
            PendingResource::Timer { id: current, .. } => *current == *id && operation.task
                == *task,
            _ => false,
        },
        Ended::Kind(kind) => match &operation.resource {
            PendingResource::Resource { kind: current, .. } => *current == **kind,
            _ => false,
        },
    }
}

/// Drops the operations that have ended, keeping the others in order.
fn drop_ended(operations: &mut Vec<PendingOperation>, ended: &Ended)
    ensures
        model::pending_models(final(operations)@) == model::pending_models(
            old(operations)@,
        ).filter(|o: model::PendingModel| !ends(*ended, o)),
{
    let ghost keep = |o: model::PendingModel| !ends(*ended, o);
    let ghost all = model::pending_models(old(operations)@);
    let ghost mut seen: int = 0;
    let mut i: usize = 0;
    proof {
        reveal(Seq::filter);
        assert(all.take(0) =~= Seq::empty());
        assert(model::pending_models(operations@) =~= all.take(0).filter(keep) + all.skip(0));
    }
    while i < operations.len()
        invariant
            all == model::pending_models(old(operations)@),
            keep == (|o: model::PendingModel| !ends(*ended, o)),
            0 <= seen <= all.len(),
            i <= operations.len(),
            i == all.take(seen).filter(keep).len(),
            all.len() - seen == operations.len() - i,
            model::pending_models(operations@) == all.take(seen).filter(keep) + all.skip(seen),
        decreases all.len() - seen,
    {
        let ghost before = model::pending_models(operations@);
        proof {
            reveal(Seq::filter);
            assert(before[i as int] == all.skip(seen)[0]);
            assert(before[i as int] == operations@[i as int]@);
            assert(all.take(seen + 1).drop_last() =~= all.take(seen));
            assert(all.take(seen + 1).last() == all[seen]);
        }
        if is_ended(ended, &operations[i]) {
            operations.remove(i);
            proof {
                assert(model::pending_models(operations@) =~= before.remove(i as int));
                assert(before.remove(i as int) =~= all.take(seen).filter(keep) + all.skip(
                    seen + 1,
                ));
            }
        } else {
            i = i + 1;
            proof {
                assert(all.take(seen).filter(keep) + all.skip(seen) =~= all.take(seen).filter(
                    keep,
                ).push(all[seen]) + all.skip(seen + 1));
            }
        }
        proof {
            seen = seen + 1;
        }
    }
    assert(all.take(seen) =~= all);
    assert(all.skip(seen) =~= Seq::empty());
    assert(all.filter(keep) + Seq::empty() =~= all.filter(keep));
}

/// Setting one task sets its model.
proof fn lemma_task_set(tasks: Map<u64, TaskView>, id: u64, task: TaskView)
    ensures
        model::task_models(tasks.remove(id).insert(id, task)) == model::task_models(tasks).insert(
            id,
            task@,
        ),
{
    assert(model::task_models(tasks.remove(id).insert(id, task)) =~= model::task_models(
        tasks,
    ).insert(id, task@));
}

/// Setting the resource at `at`, where its kind stands or belongs, sets the
/// resource of that kind and keeps the order.
proof fn lemma_resource_set(
    before: Seq<ResourceView>,
    after: Seq<ResourceView>,
    at: int,
    resource: ResourceView,
)
    requires
        model::kinds_ascend(before),
        0 <= at <= before.len(),
        forall|i: int|
            0 <= i < at ==> crate::text::text_less(
                (#[trigger] before[i]).kind@,
                resource.kind@,
            ),
        at < before.len() ==> !crate::text::text_less(before[at].kind@, resource.kind@),
        (at < before.len() && before[at].kind@ == resource.kind@ && after == before.update(
            at,
            resource,
        )) || ((at == before.len() || before[at].kind@ != resource.kind@) && after
            == before.insert(at, resource)),
    ensures
        model::kinds_ascend(after),
        model::resource_models(after) == model::resource_models(before).insert(
            resource.kind@,
            model::ResourceModel { holder: resource.holder, waiters: resource.waiters@ },
        ),
{
    let kind = resource.kind@;
    assert forall|i: int, j: int| 0 <= i < j < before.len() implies (#[trigger] before[i]).kind@
        != (#[trigger] before[j]).kind@ by {
        crate::text::law_text_order(before[i].kind@, before[j].kind@, before[j].kind@);
    }
    let replaced = at < before.len() && before[at].kind@ == kind;
    if at < before.len() {
        crate::text::law_text_order(before[at].kind@, kind, kind);
        assert forall|j: int| at < j < before.len() implies crate::text::text_less(
            kind,
            (#[trigger] before[j]).kind@,
        ) by {
            crate::text::law_text_order(kind, before[at].kind@, before[j].kind@);
        }
    }
    assert forall|i: int, j: int| 0 <= i < j < after.len() implies crate::text::text_less(
        (#[trigger] after[i]).kind@,
        (#[trigger] after[j]).kind@,
    ) by {
        if !replaced {
            let a = if i < at {
                i
            } else {
                i - 1
            };
            let b = if j < at {
                j
            } else {
                j - 1
            };
            if i != at {
                assert(after[i] == before[a]);
            }
            if j != at {
                assert(after[j] == before[b]);
            }
        }
    }
    assert(after[at] == resource);
    assert forall|i: int, j: int| 0 <= i < after.len() && 0 <= j < after.len() && i != j implies (
    #[trigger] after[i]).kind@ != (#[trigger] after[j]).kind@ by {
        crate::text::law_text_order(after[i].kind@, after[j].kind@, after[j].kind@);
        crate::text::law_text_order(after[j].kind@, after[i].kind@, after[i].kind@);
    }
    let old_map = model::resource_models(before);
    let new_map = model::resource_models(after);
    let set = model::ResourceModel { holder: resource.holder, waiters: resource.waiters@ };
    assert forall|k: Seq<char>| #[trigger]
        new_map.contains_key(k) <==> old_map.insert(kind, set).contains_key(k) by {
        if model::has_kind(before, k) {
            let b = choose|b: int| 0 <= b < before.len() && (#[trigger] before[b]).kind@ == k;
            let a = if replaced || b < at {
                b
            } else {
                b + 1
            };
            assert(after[a].kind@ == k);
        }
        if model::has_kind(after, k) && k != kind {
            let a = choose|a: int| 0 <= a < after.len() && (#[trigger] after[a]).kind@ == k;
            let b = if replaced || a < at {
                a
            } else {
                a - 1
            };
            assert(before[b].kind@ == k);
        }
    }
    assert forall|k: Seq<char>| #[trigger] new_map.contains_key(k) implies new_map[k]
        == old_map.insert(kind, set)[k] by {
        let a = choose|a: int| 0 <= a < after.len() && (#[trigger] after[a]).kind@ == k;
        if k != kind {
            let b = if replaced || a < at {
                a
            } else {
                a - 1
            };
            assert(before[b].kind@ == k);
            assert(after[a] == before[b]);
            let c = choose|c: int| 0 <= c < before.len() && (#[trigger] before[c]).kind@ == k;
            assert(c == b);
        } else {
            assert(a == at);
        }
    }
    assert(new_map =~= old_map.insert(kind, set));
}

impl ConsoleModel {
    /// Each task stands under its own id, and the resources stand in the order of
    /// their kinds.
    pub open spec fn wf(&self) -> bool {
        &&& forall|id: u64| #[trigger] self.tasks@.contains_key(id) ==> self.tasks@[id].id == id
        &&& model::kinds_ascend(self.resources@)
    }

    /// A model that has seen no event.
    pub fn new() -> (console: Self)
        ensures
            console.wf(),
            console@ == (model::ConsoleState {
                tasks: Map::empty(),
                workers: Map::empty(),
                resources: Map::empty(),
                pending: Seq::empty(),
                connected: true,
                disconnect_reason: None,
                event_count: 0,
                view: tab::View::Tasks,
                selected_task: 0,
                paused: false,
                show_help: false,
                sort: SortKey::Id,
                filter: Seq::empty(),
                filter_input: None,
            }),
    {
        let console = ConsoleModel {
            tasks: BTreeMap::new(),
            workers: BTreeMap::new(),
            resources: Vec::new(),
            pending_operations: Vec::new(),
            connected: true,
            disconnect_reason: None,
            event_count: 0,
            view: tab::View::Tasks,
            selected_task: 0,
            paused: false,
            show_help: false,
            sort: SortKey::Id,
            filter: String::new(),
            filter_input: None,
        };
        assert(console@.tasks =~= Map::empty());
        assert(console@.resources =~= Map::empty());
        assert(console@.pending =~= Seq::empty());
        console
    }

    /// Takes the task out of the model, making it up where it is not known.
    fn take_task(&mut self, id: u64) -> (task: TaskView)
        requires
            old(self).wf(),
        ensures
            task@ == model::task_of(old(self)@, id),
            task.id == id,
            *final(self) == (ConsoleModel { tasks: final(self).tasks, ..*old(self) }),
            final(self).tasks@ == old(self).tasks@.remove(id),
    {
        match self.tasks.remove(&id) {
            Some(task) => task,
            None => TaskView::new(id),
        }
    }

    /// Puts back a task that was taken out.
    fn put_task(&mut self, task: TaskView, Ghost(before): Ghost<ConsoleModel>)
        requires
            before.wf(),
            *old(self) == (ConsoleModel { tasks: old(self).tasks, ..before }),
            old(self).tasks@ == before.tasks@.remove(task.id),
        ensures
            final(self).wf(),
            final(self)@ == model::with_task(before@, task@),
    {
        proof {
            lemma_task_set(before.tasks@, task.id, task);
        }
        let ghost id = task.id;
        self.tasks.insert(task.id, task);
        assert(self.tasks@ == before.tasks@.remove(id).insert(id, task));
        assert(self@.tasks == before@.tasks.insert(id, task@));
    }

    /// Sets what is known of a worker.
    fn put_worker(&mut self, id: u32, worker: WorkerView)
        requires
            old(self).wf(),
        ensures
            final(self).wf(),
            final(self)@ == model::with_worker(old(self)@, id, worker),
    {
        self.workers.insert(id, worker);
    }

    /// What is known of a worker.
    fn worker(&self, id: u32) -> (worker: WorkerView)
        ensures
            worker == model::worker_of(self@, id),
    {
        match self.workers.get(&id) {
            Some(worker) => *worker,
            None => WorkerView::new(),
        }
    }

    /// Drops the pending operations that have ended.
    fn drop_pending(&mut self, ended: Ended)
        requires
            old(self).wf(),
        ensures
            final(self).wf(),
            final(self)@ == model::without_pending(
                old(self)@,
                |o: model::PendingModel| ends(ended, o),
            ),
    {
        drop_ended(&mut self.pending_operations, &ended);
        proof {
            let cleared = |o: model::PendingModel| ends(ended, o);
            let a = |o: model::PendingModel| !ends(ended, o);
            let b = |o: model::PendingModel| !cleared(o);
            assert(a =~= b);
        }
    }

    /// Adds a pending operation.
    fn add_pending(&mut self, operation: PendingOperation)
        requires
            old(self).wf(),
        ensures
            final(self).wf(),
            final(self)@ == (model::ConsoleState {
                pending: old(self)@.pending.push(operation@),
                ..old(self)@
            }),
    {
        let ghost op = operation@;
        self.pending_operations.push(operation);
        assert(self@.pending =~= old(self)@.pending.push(op));
    }

    /// Drops the pending operations of a task.
    pub fn clear_task_pending(&mut self, task: u64)
        requires
            old(self).wf(),
        ensures
            final(self).wf(),
            final(self)@ == model::without_pending(
                old(self)@,
                |o: model::PendingModel| o.task == task,
            ),
    {
        self.drop_pending(Ended::Task(task));
        proof {
            let a = |o: model::PendingModel| ends(Ended::Task(task), o);
            let b = |o: model::PendingModel| o.task == task;
            assert(a =~= b);
        }
    }

    /// Drops the pending operations that a wake has ended.
    pub fn clear_woken_pending(&mut self, task: u64, source: &WakeSource)
        requires
            old(self).wf(),
        ensures
            final(self).wf(),
            final(self)@ == model::without_woken(old(self)@, task, source@),
    {
        match source {
            WakeSource::Io { fd } => {
                self.drop_pending(Ended::IoOf { fd: *fd, task });
                proof {
                    let fd = *fd;
                    let a = |o: model::PendingModel| ends(Ended::IoOf { fd, task }, o);
                    let b = |o: model::PendingModel| model::waits_on_io(o, fd) && o.task == task;
                    assert(a =~= b);
                }
            },
            WakeSource::Timer { id } => {
                self.drop_pending(Ended::TimerOf { id: *id, task });
                proof {
                    let id = *id;
                    let a = |o: model::PendingModel| ends(Ended::TimerOf { id, task }, o);
                    let b = |o: model::PendingModel| model::waits_on_timer(o, id) && o.task == task;
                    assert(a =~= b);
                }
            },
            WakeSource::Task(_) => self.clear_task_pending(task),
            WakeSource::Channel { .. } => self.clear_task_pending(task),
            WakeSource::External => self.clear_task_pending(task),
        }
    }

    /// Drops the pending operations on a timer.
    fn clear_timer_pending(&mut self, id: u64)
        requires
            old(self).wf(),
        ensures
            final(self).wf(),
            final(self)@ == model::without_pending(
                old(self)@,
                |o: model::PendingModel| model::waits_on_timer(o, id),
            ),
    {
        self.drop_pending(Ended::Timer(id));
        proof {
            let a = |o: model::PendingModel| ends(Ended::Timer(id), o);
            let b = |o: model::PendingModel| model::waits_on_timer(o, id);
            assert(a =~= b);
        }
    }

    /// Sets the resource of a kind.
    fn put_resource(&mut self, resource: ResourceView)
        requires
            old(self).wf(),
        ensures
            final(self).wf(),
            final(self)@ == (model::ConsoleState {
                resources: old(self)@.resources.insert(
                    resource.kind@,
                    model::ResourceModel { holder: resource.holder, waiters: resource.waiters@ },
                ),
                ..old(self)@
            }),
    {
        let ghost before = self.resources@;
        let ghost set = resource;
        let mut at: usize = 0;
        while at < self.resources.len() && text_before(
            self.resources[at].kind.as_str(),
            resource.kind.as_str(),
        )
            invariant
                *self == *old(self),
                at <= self.resources.len(),
                forall|i: int|
                    0 <= i < at ==> crate::text::text_less(
                        (#[trigger] self.resources@[i]).kind@,
                        resource.kind@,
                    ),
            decreases self.resources.len() - at,
        {
            at = at + 1;
        }
        if at < self.resources.len() && self.resources[at].kind == resource.kind {
            self.resources[at] = resource;
        } else {
            self.resources.insert(at, resource);
        }
        proof {
            lemma_resource_set(before, self.resources@, at as int, set);
        }
    }

    /// Notes that a task was spawned.
    fn apply_spawned(&mut self, id: u64, name: Option<String>, location: Location)
        requires
            old(self).wf(),
        ensures
            final(self).wf(),
            forall|parent: Option<u64>|
                final(self)@ == #[trigger] model::projected(
                    old(self)@,
                    crate::wire::EventModel::TaskSpawned {
                        id,
                        name: super::event::optional_text(name),
                        location: location@,
                        parent,
                    },
                ),
    {
        let ghost before = *self;
        let mut task = self.take_task(id);
        task.name = match name {
            Some(name) => name,
            None => "<unnamed>".to_owned(),
        };
        task.location = Some(location);
        task.state = TaskState::Queued;
        if task.scheduled < 1 {
            task.scheduled = 1;
        }
        self.put_task(task, Ghost(before));
    }

    /// Notes that a poll ended.
    fn apply_poll_end(&mut self, id: u64, worker: u32, duration_ns: u64, result: PollResult)
        requires
            old(self).wf(),
        ensures
            final(self).wf(),
            final(self)@ == model::projected(
                old(self)@,
                crate::wire::EventModel::TaskPollEnd { id, worker, duration_ns, result },
            ),
    {
        let ghost before = *self;
        let mut task = self.take_task(id);
        task.worker = worker;
        task.polls = task.polls.saturating_add(1);
        task.total_busy_ns = task.total_busy_ns.saturating_add(duration_ns);
        task.remember_poll(duration_ns);
        task.state = match result {
            PollResult::Ready => TaskState::Complete,
            PollResult::Pending => TaskState::Idle,
            PollResult::Panicked => {
                task.warning("panic");
                TaskState::Cancelled
            },
        };
        self.put_task(task, Ghost(before));
        let mut view = self.worker(worker);
        view.busy_ns = view.busy_ns.saturating_add(duration_ns);
        view.polls = view.polls.saturating_add(1);
        self.put_worker(worker, view);
    }

    /// Notes who waits on a contended resource.
    fn apply_contended(&mut self, kind: String, holder: u64, waiters: Vec<u64>)
        requires
            old(self).wf(),
        ensures
            final(self).wf(),
            final(self)@ == model::projected(
                old(self)@,
                crate::wire::EventModel::ResourceContended {
                    kind: kind@,
                    holder,
                    waiters: waiters@,
                },
            ),
    {
        self.drop_pending(Ended::Kind(&kind));
        proof {
            let a = |o: model::PendingModel| ends(Ended::Kind(&kind), o);
            let b = |o: model::PendingModel| model::waits_on_kind(o, kind@);
            assert(a =~= b);
        }
        let ghost cleared = self@;
        let ghost added = model::contended(kind@, holder, waiters@);
        let mut i: usize = 0;
        assert(cleared.pending + added.take(0) =~= cleared.pending);
        while i < waiters.len()
            invariant
                i <= waiters.len(),
                self.wf(),
                added == model::contended(kind@, holder, waiters@),
                self@ == (model::ConsoleState {
                    pending: cleared.pending + added.take(i as int),
                    ..cleared
                }),
            decreases waiters.len() - i,
        {
            let resource = PendingResource::Resource { kind: kind.clone(), holder };
            self.add_pending(PendingOperation { task: waiters[i], resource });
            i = i + 1;
            assert(cleared.pending + added.take(i as int) =~= (cleared.pending + added.take(
                i - 1,
            )).push(added[i - 1]));
        }
        assert(added.take(i as int) =~= added);
        self.put_resource(ResourceView { kind, holder, waiters });
    }

    /// Updates the model for one event. A paused model ignores events.
    #[verifier::rlimit(40)]
    pub fn apply(&mut self, event: Event)
        requires
            old(self).wf(),
            !old(self).paused ==> (event matches Event::WorkerPark { worker, .. }
                ==> model::worker_of(old(self)@, worker).parks < u64::MAX),
        ensures
            final(self).wf(),
            final(self)@ == model::applied(old(self)@, event@),
    {
        if self.paused {
            return ;
        }
        self.event_count = self.event_count.saturating_add(1);
        let ghost counted = *self;
        assert(counted.wf());
        match event {
            Event::TaskSpawned { id, name, location, .. } => {
                self.apply_spawned(id, name, location);
            },
            Event::TaskPollStart { id, worker, .. } => {
                self.clear_task_pending(id);
                let ghost before = *self;
                let mut task = self.take_task(id);
                task.worker = worker;
                task.state = TaskState::Running;
                self.put_task(task, Ghost(before));
                let view = self.worker(worker);
                self.put_worker(worker, view);
            },
            Event::TaskPollEnd { id, worker, duration_ns, result } => {
                self.apply_poll_end(id, worker, duration_ns, result);
            },
            Event::TaskWoken { id, by } => {
                self.clear_woken_pending(id, &by);
                let ghost before = *self;
                let mut task = self.take_task(id);
                task.state = TaskState::Queued;
                task.scheduled = task.scheduled.saturating_add(1);
                task.remember_wake(&by);
                self.put_task(task, Ghost(before));
            },
            Event::TaskDropped { id, total_polls, total_busy_ns, total_idle_ns } => {
                self.clear_task_pending(id);
                let ghost before = *self;
                let mut task = self.take_task(id);
                task.state = TaskState::Complete;
                task.polls = total_polls;
                task.total_busy_ns = total_busy_ns;
                task.total_idle_ns = total_idle_ns;
                self.put_task(task, Ghost(before));
            },
            Event::TaskAborted { id } => {
                self.clear_task_pending(id);
                let ghost before = *self;
                let mut task = self.take_task(id);
                task.state = TaskState::Cancelled;
                self.put_task(task, Ghost(before));
            },
            Event::WorkerPark { worker, .. } => {
                let mut view = self.worker(worker);
                view.parks = view.parks + 1;
                self.put_worker(worker, view);
            },
            Event::WorkerUnpark { worker, .. } => {
                let view = self.worker(worker);
                self.put_worker(worker, view);
            },
            Event::WorkerSteal { thief, victim, count } => {
                let mut view = self.worker(thief);
                view.steals = view.steals.saturating_add(count);
                self.put_worker(thief, view);
                let other = self.worker(victim);
                self.put_worker(victim, other);
            },
            Event::QueueDepth { worker, local, global, .. } => {
                let mut view = self.worker(worker);
                view.local_queue = local;
                view.global_queue = global;
                self.put_worker(worker, view);
            },
            Event::BlockingDetected { task: id, poll_duration_ns, .. } => {
                let ghost before = *self;
                let mut task = self.take_task(id);
                task.warning("blocking");
                task.remember_poll(poll_duration_ns);
                self.put_task(task, Ghost(before));
            },
            Event::BudgetExhausted { task: id } => {
                let ghost before = *self;
                let mut task = self.take_task(id);
                task.warning("budget");
                self.put_task(task, Ghost(before));
            },
            Event::ResourceContended { kind, holder, waiters } => {
                self.apply_contended(kind, holder, waiters);
            },
            Event::IoRegistered { fd, interest, task } => {
                self.drop_pending(Ended::IoOf { fd, task });
                proof {
                    let a = |o: model::PendingModel| ends(Ended::IoOf { fd, task }, o);
                    let b = |o: model::PendingModel| model::waits_on_io(o, fd) && o.task == task;
                    assert(a =~= b);
                }
                let resource = PendingResource::Io { fd, interest };
                self.add_pending(PendingOperation { task, resource });
            },
            Event::IoReady { fd, woke, .. } => {
                self.drop_pending(Ended::IoWoken { fd, woke: &woke });
                proof {
                    let a = |o: model::PendingModel| ends(Ended::IoWoken { fd, woke: &woke }, o);
                    let b = |o: model::PendingModel|
                        model::waits_on_io(o, fd) && woke@.contains(o.task);
                    assert(a =~= b);
                }
            },
            Event::TimerSet { id, deadline_ns, task } => {
                self.clear_timer_pending(id);
                let resource = PendingResource::Timer { id, deadline_ns };
                self.add_pending(PendingOperation { task, resource });
            },
            Event::TimerFired { id, .. } => self.clear_timer_pending(id),
            Event::TimerCancelled { id } => self.clear_timer_pending(id),
        }
    }

    /// Notes that the stream has ended. What was projected stays.
    pub fn disconnected(&mut self, reason: &str)
        ensures
            old(self).wf() ==> final(self).wf(),
            final(self)@ == (model::ConsoleState {
                connected: false,
                disconnect_reason: Some(reason@),
                ..old(self)@
            }),
    {
        self.connected = false;
        self.disconnect_reason = Some(reason.to_owned());
    }
}

} // verus!
