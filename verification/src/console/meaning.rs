//! What each event says of the tasks, the workers, the resources and what is waited for.

use super::event::PollResult;
use super::model;
use super::model::{
    ConsoleState, PendingModel, PendingResourceModel, TaskModel, TaskState,
    WorkerView,
};
use crate::wire::{EventModel, WakeSourceModel};
use vstd::prelude::*;

verus! {

/// A count that stops at the largest number.
pub open spec fn capped(count: int) -> int {
    if count > 18446744073709551615 {
        18446744073709551615
    } else {
        count
    }
}

/// What was known of a task before its first event is that it waits for its turn.
pub open spec fn known_task(s: ConsoleState, id: u64) -> TaskModel {
    if s.tasks.contains_key(id) {
        s.tasks[id]
    } else {
        TaskModel {
            id,
            name: seq!['<', 'u', 'n', 'n', 'a', 'm', 'e', 'd', '>'],
            state: TaskState::Queued,
            worker: 0,
            polls: 0,
            total_busy_ns: 0,
            total_idle_ns: 0,
            scheduled: 1,
            location: None,
            warnings: Seq::empty(),
            poll_durations_ns: Seq::empty(),
            wake_sources: Seq::empty(),
        }
    }
}

/// What was known of a worker before its first event is nothing.
pub open spec fn known_worker(s: ConsoleState, id: u32) -> WorkerView {
    if s.workers.contains_key(id) {
        s.workers[id]
    } else {
        WorkerView { local_queue: 0, global_queue: 0, parks: 0, steals: 0, busy_ns: 0, polls: 0 }
    }
}

/// The task that an event is about.
pub open spec fn subject(event: EventModel) -> Option<u64> {
    match event {
        EventModel::TaskSpawned { id, .. } => Some(id),
        EventModel::TaskPollStart { id, .. } => Some(id),
        EventModel::TaskPollEnd { id, .. } => Some(id),
        EventModel::TaskWoken { id, .. } => Some(id),
        EventModel::TaskDropped { id, .. } => Some(id),
        EventModel::TaskAborted { id } => Some(id),
        EventModel::BlockingDetected { task, .. } => Some(task),
        EventModel::BudgetExhausted { task } => Some(task),
        _ => None,
    }
}

/// Whether an event is about a worker.
pub open spec fn about_worker(event: EventModel, id: u32) -> bool {
    match event {
        EventModel::TaskPollStart { worker, .. } => worker == id,
        EventModel::TaskPollEnd { worker, .. } => worker == id,
        EventModel::WorkerPark { worker, .. } => worker == id,
        EventModel::WorkerUnpark { worker, .. } => worker == id,
        EventModel::WorkerSteal { thief, victim, .. } => thief == id || victim == id,
        EventModel::QueueDepth { worker, .. } => worker == id,
        _ => false,
    }
}

/// An event counts once and changes what it is about: no other task, worker or resource,
/// nor what the console shows of them.
pub proof fn law_events_change_what_they_are_about(
    s: ConsoleState,
    event: EventModel,
    task: u64,
    worker: u32,
    kind: Seq<char>,
)
    requires
        !s.paused,
    ensures
        ({
            let after = model::applied(s, event);
            &&& after.event_count == capped(s.event_count + 1)
            &&& subject(event) != Some(task) ==> {
                &&& after.tasks.contains_key(task) == s.tasks.contains_key(task)
                &&& s.tasks.contains_key(task) ==> after.tasks[task] == s.tasks[task]
            }
            &&& subject(event) == Some(task) ==> after.tasks.contains_key(task)
                && after.tasks[task].id == task
            &&& !about_worker(event, worker) ==> {
                &&& after.workers.contains_key(worker) == s.workers.contains_key(worker)
                &&& s.workers.contains_key(worker) ==> after.workers[worker] == s.workers[worker]
            }
            &&& about_worker(event, worker) ==> after.workers.contains_key(worker)
            &&& !(event is ResourceContended && event->ResourceContended_kind == kind) ==> {
                &&& after.resources.contains_key(kind) == s.resources.contains_key(kind)
                &&& s.resources.contains_key(kind) ==> after.resources[kind] == s.resources[kind]
            }
            &&& after.connected == s.connected
            &&& after.disconnect_reason == s.disconnect_reason
            &&& after.view == s.view
            &&& after.selected_task == s.selected_task
            &&& after.paused == s.paused
            &&& after.show_help == s.show_help
            &&& after.sort == s.sort
            &&& after.filter == s.filter
            &&& after.filter_input == s.filter_input
        }),
{
}

/// What a task is called: the text of nine characters that stands for no name.
proof fn lemma_unnamed()
    ensures
        "<unnamed>"@ == seq!['<', 'u', 'n', 'n', 'a', 'm', 'e', 'd', '>'],
{
    reveal_strlit("<unnamed>");
    assert("<unnamed>"@ =~= seq!['<', 'u', 'n', 'n', 'a', 'm', 'e', 'd', '>']);
}

/// A task that is spawned has the name and the location that the event gives it, or the
/// name that stands for none, and waits for its turn. What was counted of it stays.
pub proof fn law_spawned_tasks_have_their_names(
    s: ConsoleState,
    id: u64,
    name: Option<Seq<char>>,
    location: crate::wire::LocationModel,
    parent: Option<u64>,
)
    requires
        !s.paused,
    ensures
        ({
            let before = known_task(s, id);
            let after = model::applied(
                s,
                EventModel::TaskSpawned { id, name, location, parent },
            ).tasks[id];
            &&& name is Some ==> after.name == name->0
            &&& name is None ==> after.name == seq!['<', 'u', 'n', 'n', 'a', 'm', 'e', 'd', '>']
            &&& after.location is Some && after.location->0 == location
            &&& after.state is Queued
            &&& after.scheduled >= 1 && after.scheduled >= before.scheduled
            &&& after.scheduled == before.scheduled || before.scheduled == 0 && after.scheduled
                == 1
            &&& after.worker == before.worker && after.polls == before.polls
            &&& after.total_busy_ns == before.total_busy_ns
            &&& after.total_idle_ns == before.total_idle_ns
            &&& after.warnings == before.warnings
            &&& after.poll_durations_ns == before.poll_durations_ns
            &&& after.wake_sources == before.wake_sources
        }),
{
    lemma_unnamed();
}

/// A task whose poll begins is running on that worker, and nothing else is new of it.
pub proof fn law_polled_tasks_run_on_their_worker(s: ConsoleState, id: u64, worker: u32, at_ns: u64)
    requires
        !s.paused,
    ensures
        ({
            let before = known_task(s, id);
            let after = model::applied(s, EventModel::TaskPollStart { id, worker, at_ns });
            let task = after.tasks[id];
            &&& task.state is Running
            &&& task.worker == worker
            &&& task == (TaskModel { state: task.state, worker: task.worker, id, ..before })
            &&& after.workers[worker] == known_worker(s, worker)
        }),
{
    lemma_unnamed();
}

/// The end of a poll counts one poll and its time, for the task and for the worker alike,
/// and says whether the task is done, waits or is lost.
pub proof fn law_ended_polls_count(
    s: ConsoleState,
    id: u64,
    worker: u32,
    duration_ns: u64,
    result: PollResult,
)
    requires
        !s.paused,
    ensures
        ({
            let before = known_task(s, id);
            let after = model::applied(
                s,
                EventModel::TaskPollEnd { id, worker, duration_ns, result },
            );
            let task = after.tasks[id];
            let crew = known_worker(s, worker);
            let view = after.workers[worker];
            &&& task.polls == capped(before.polls + 1)
            &&& task.total_busy_ns == capped(before.total_busy_ns + duration_ns)
            &&& task.total_idle_ns == before.total_idle_ns
            &&& task.worker == worker
            &&& task.state is Complete <==> result is Ready
            &&& task.state is Idle <==> result is Pending
            &&& task.state is Cancelled <==> result is Panicked
            &&& !(result is Panicked) ==> task.warnings == before.warnings
            &&& result is Panicked ==> added_once(
                before.warnings,
                task.warnings,
                seq!['p', 'a', 'n', 'i', 'c'],
            )
            &&& joined_history(before.poll_durations_ns, task.poll_durations_ns, duration_ns)
            &&& task.name == before.name && task.location == before.location
            &&& task.scheduled == before.scheduled && task.wake_sources == before.wake_sources
            &&& view.polls == capped(crew.polls + 1)
            &&& view.busy_ns == capped(crew.busy_ns + duration_ns)
            &&& view.local_queue == crew.local_queue && view.global_queue == crew.global_queue
            &&& view.parks == crew.parks && view.steals == crew.steals
        }),
{
    lemma_unnamed();
    reveal_strlit("panic");
    assert("panic"@ =~= seq!['p', 'a', 'n', 'i', 'c']);
    lemma_warned(known_task(s, id).warnings, "panic"@);
    lemma_remembered(known_task(s, id).poll_durations_ns, duration_ns);
}

/// Whether a text was added to a list unless it stood there.
pub open spec fn added_once(
    before: Seq<Seq<char>>,
    after: Seq<Seq<char>>,
    text: Seq<char>,
) -> bool {
    &&& after.contains(text)
    &&& before.contains(text) ==> after == before
    &&& !before.contains(text) ==> after.len() == before.len() + 1 && after.drop_last() == before
        && after.last() == text
}

/// Whether a value joined a history of at most sixty-four: it is the last, and the oldest
/// made room where there was none.
pub open spec fn joined_history<T>(before: Seq<T>, after: Seq<T>, value: T) -> bool {
    &&& after.len() > 0 && after.last() == value
    &&& before.len() < 64 ==> after.drop_last() == before
    &&& before.len() == 64 ==> after.len() == 64 && after.drop_last() == before.drop_first()
}

/// What is remembered joins the history.
pub(crate) proof fn lemma_remembered<T>(history: Seq<T>, value: T)
    ensures
        joined_history(history, model::remember(history, value), value),
{
    let after = model::remember(history, value);
    if history.len() == 64 {
        assert(after.drop_last() =~= history.drop_first());
    } else {
        assert(after.drop_last() =~= history);
    }
}

/// What is warned of is added once.
proof fn lemma_warned(warnings: Seq<Seq<char>>, warning: Seq<char>)
    ensures
        added_once(warnings, model::warned(warnings, warning), warning),
{
    let after = model::warned(warnings, warning);
    if !warnings.contains(warning) {
        assert(after.last() == warning);
        assert(after.drop_last() =~= warnings);
    }
}

/// A task that is woken waits for its turn, is scheduled once more, and remembers the
/// source of the wake as its latest.
pub proof fn law_woken_tasks_are_scheduled(s: ConsoleState, id: u64, by: WakeSourceModel)
    requires
        !s.paused,
    ensures
        ({
            let before = known_task(s, id);
            let after = model::applied(s, EventModel::TaskWoken { id, by }).tasks[id];
            &&& after.state is Queued
            &&& after.scheduled == capped(before.scheduled + 1)
            &&& joined_history(
                before.wake_sources,
                after.wake_sources,
                model::wake_source_text(by),
            )
            &&& after.name == before.name && after.location == before.location
            &&& after.worker == before.worker && after.polls == before.polls
            &&& after.total_busy_ns == before.total_busy_ns
            &&& after.total_idle_ns == before.total_idle_ns
            &&& after.warnings == before.warnings
            &&& after.poll_durations_ns == before.poll_durations_ns
        }),
{
    lemma_unnamed();
    lemma_remembered(known_task(s, id).wake_sources, model::wake_source_text(by));
}

/// How a wake source is remembered: what kind of thing it is, and which one.
pub proof fn law_wake_sources_say_what_woke(fd: i32, id: u64, kind: Seq<char>)
    ensures
        model::wake_source_text(WakeSourceModel::Io { fd }) == seq!['i', 'o', ':']
            + crate::text::signed_decimal(fd as int),
        model::wake_source_text(WakeSourceModel::Timer { id }) == seq!['t', 'i', 'm', 'e', 'r', ':']
            + crate::text::decimal(id as nat),
        model::wake_source_text(WakeSourceModel::Task { id }) == seq!['t', 'a', 's', 'k', ':']
            + crate::text::decimal(id as nat),
        model::wake_source_text(WakeSourceModel::Channel { kind }) == seq![
            'c',
            'h',
            'a',
            'n',
            'n',
            'e',
            'l',
            ':',
        ] + kind,
        model::wake_source_text(WakeSourceModel::External) == seq![
            'e',
            'x',
            't',
            'e',
            'r',
            'n',
            'a',
            'l',
        ],
{
    reveal_strlit("io:");
    reveal_strlit("timer:");
    reveal_strlit("task:");
    reveal_strlit("channel:");
    reveal_strlit("external");
    assert("io:"@ =~= seq!['i', 'o', ':']);
    assert("timer:"@ =~= seq!['t', 'i', 'm', 'e', 'r', ':']);
    assert("task:"@ =~= seq!['t', 'a', 's', 'k', ':']);
    assert("channel:"@ =~= seq!['c', 'h', 'a', 'n', 'n', 'e', 'l', ':']);
    assert("external"@ =~= seq!['e', 'x', 't', 'e', 'r', 'n', 'a', 'l']);
}

/// A task that is dropped is done, and has the totals that the event reports under their
/// names: so many polls, so long busy, so long idle.
pub proof fn law_dropped_tasks_have_their_totals(
    s: ConsoleState,
    id: u64,
    total_polls: u64,
    total_busy_ns: u64,
    total_idle_ns: u64,
)
    requires
        !s.paused,
    ensures
        ({
            let before = known_task(s, id);
            let after = model::applied(
                s,
                EventModel::TaskDropped { id, total_polls, total_busy_ns, total_idle_ns },
            ).tasks[id];
            &&& after.state is Complete
            &&& after.polls == total_polls
            &&& after.total_busy_ns == total_busy_ns
            &&& after.total_idle_ns == total_idle_ns
            &&& after.name == before.name && after.location == before.location
            &&& after.worker == before.worker && after.scheduled == before.scheduled
            &&& after.warnings == before.warnings
            &&& after.poll_durations_ns == before.poll_durations_ns
            &&& after.wake_sources == before.wake_sources
        }),
{
    lemma_unnamed();
}

/// A task that is aborted is cancelled, and nothing else is new of it.
pub proof fn law_aborted_tasks_are_cancelled(s: ConsoleState, id: u64)
    requires
        !s.paused,
    ensures
        ({
            let before = known_task(s, id);
            let after = model::applied(s, EventModel::TaskAborted { id }).tasks[id];
            &&& after.state is Cancelled
            &&& after == (TaskModel { state: after.state, id, ..before })
        }),
{
    lemma_unnamed();
}

/// A worker that parks has parked once more. One that is woken is known, and no more than
/// that is new of it.
pub proof fn law_parks_are_counted(
    s: ConsoleState,
    worker: u32,
    timeout_ns: Option<u64>,
    reason: crate::wire::UnparkReason,
)
    requires
        !s.paused,
        known_worker(s, worker).parks < u64::MAX,
    ensures
        ({
            let before = known_worker(s, worker);
            let parked = model::applied(
                s,
                EventModel::WorkerPark { worker, timeout_ns },
            ).workers[worker];
            let woken = model::applied(
                s,
                EventModel::WorkerUnpark { worker, reason },
            ).workers[worker];
            &&& parked.parks == before.parks + 1
            &&& parked.local_queue == before.local_queue
            &&& parked.global_queue == before.global_queue
            &&& parked.steals == before.steals
            &&& parked.busy_ns == before.busy_ns
            &&& parked.polls == before.polls
            &&& woken == before
        }),
{
}

/// A steal counts for the thief as many tasks as it took. The victim is known, and no more
/// than that is new of it, unless it is the thief.
pub proof fn law_steals_count_for_the_thief(s: ConsoleState, thief: u32, victim: u32, count: u64)
    requires
        !s.paused,
    ensures
        ({
            let before = known_worker(s, thief);
            let after = model::applied(s, EventModel::WorkerSteal { thief, victim, count });
            let view = after.workers[thief];
            &&& view.steals == capped(before.steals + count)
            &&& view.local_queue == before.local_queue
            &&& view.global_queue == before.global_queue
            &&& view.parks == before.parks
            &&& view.busy_ns == before.busy_ns
            &&& view.polls == before.polls
            &&& thief != victim ==> after.workers[victim] == known_worker(s, victim)
        }),
{
}

/// The depths of the queues are shown as the event reports them, each under its name.
pub proof fn law_depths_are_shown(
    s: ConsoleState,
    worker: u32,
    local: u64,
    global: u64,
    lifo: bool,
)
    requires
        !s.paused,
    ensures
        ({
            let before = known_worker(s, worker);
            let view = model::applied(
                s,
                EventModel::QueueDepth { worker, local, global, lifo },
            ).workers[worker];
            &&& view.local_queue == local
            &&& view.global_queue == global
            &&& view.parks == before.parks
            &&& view.steals == before.steals
            &&& view.busy_ns == before.busy_ns
            &&& view.polls == before.polls
        }),
{
}

/// A task that blocks or uses up its budget is warned of, once. The time of the poll that
/// blocked is remembered. Nothing else is new of it.
pub proof fn law_warnings_are_given_once(
    s: ConsoleState,
    task: u64,
    poll_duration_ns: u64,
    location: crate::wire::LocationModel,
)
    requires
        !s.paused,
    ensures
        ({
            let before = known_task(s, task);
            let blocked = model::applied(
                s,
                EventModel::BlockingDetected { task, poll_duration_ns, location },
            ).tasks[task];
            let spent = model::applied(s, EventModel::BudgetExhausted { task }).tasks[task];
            &&& added_once(
                before.warnings,
                blocked.warnings,
                seq!['b', 'l', 'o', 'c', 'k', 'i', 'n', 'g'],
            )
            &&& joined_history(
                before.poll_durations_ns,
                blocked.poll_durations_ns,
                poll_duration_ns,
            )
            &&& blocked == (TaskModel {
                warnings: blocked.warnings,
                poll_durations_ns: blocked.poll_durations_ns,
                id: task,
                ..before
            })
            &&& added_once(
                before.warnings,
                spent.warnings,
                seq!['b', 'u', 'd', 'g', 'e', 't'],
            )
            &&& spent == (TaskModel { warnings: spent.warnings, id: task, ..before })
        }),
{
    lemma_unnamed();
    reveal_strlit("blocking");
    reveal_strlit("budget");
    assert("blocking"@ =~= seq!['b', 'l', 'o', 'c', 'k', 'i', 'n', 'g']);
    assert("budget"@ =~= seq!['b', 'u', 'd', 'g', 'e', 't']);
    lemma_warned(known_task(s, task).warnings, "blocking"@);
    lemma_warned(known_task(s, task).warnings, "budget"@);
    lemma_remembered(known_task(s, task).poll_durations_ns, poll_duration_ns);
}

/// A contended resource is shown with the holder and the waiters that the event reports.
pub proof fn law_contended_resources_are_shown(
    s: ConsoleState,
    kind: Seq<char>,
    holder: u64,
    waiters: Seq<u64>,
)
    requires
        !s.paused,
    ensures
        ({
            let after = model::applied(s, EventModel::ResourceContended { kind, holder, waiters });
            &&& after.resources.contains_key(kind)
            &&& after.resources[kind].holder == holder
            &&& after.resources[kind].waiters == waiters
        }),
{
}

// ---------------------------------------------------------------------------
// What is waited for
// ---------------------------------------------------------------------------

/// Whether an event ends a wait: the task runs or is gone, the descriptor, timer or
/// resource that it waits for is reported, or its wait is replaced by another.
pub open spec fn ends(event: EventModel, wait: PendingModel) -> bool {
    match event {
        EventModel::TaskPollStart { id, .. } => wait.task == id,
        EventModel::TaskDropped { id, .. } => wait.task == id,
        EventModel::TaskAborted { id } => wait.task == id,
        EventModel::TaskWoken { id, by } => wait.task == id && match by {
            WakeSourceModel::Io { fd } => wait.resource is Io && wait.resource->Io_fd == fd,
            WakeSourceModel::Timer { id } => wait.resource is Timer && wait.resource->Timer_id
                == id,
            _ => true,
        },
        EventModel::ResourceContended { kind, .. } => wait.resource is Resource
            && wait.resource->Resource_kind == kind,
        EventModel::IoRegistered { fd, task, .. } => wait.resource is Io && wait.resource->Io_fd
            == fd && wait.task == task,
        EventModel::IoReady { fd, woke, .. } => wait.resource is Io && wait.resource->Io_fd == fd
            && woke.contains(wait.task),
        EventModel::TimerSet { id, .. } => wait.resource is Timer && wait.resource->Timer_id == id,
        EventModel::TimerFired { id, .. } => wait.resource is Timer && wait.resource->Timer_id
            == id,
        EventModel::TimerCancelled { id } => wait.resource is Timer && wait.resource->Timer_id
            == id,
        _ => false,
    }
}

/// The waits that an event begins, each of which names the task and what it waits for.
pub open spec fn begins(event: EventModel) -> Seq<PendingModel> {
    match event {
        EventModel::ResourceContended { kind, holder, waiters } => Seq::new(
            waiters.len(),
            |i: int|
                PendingModel {
                    task: waiters[i],
                    resource: PendingResourceModel::Resource { kind, holder },
                },
        ),
        EventModel::IoRegistered { fd, interest, task } => seq![
            PendingModel { task, resource: PendingResourceModel::Io { fd, interest } },
        ],
        EventModel::TimerSet { id, deadline_ns, task } => seq![
            PendingModel { task, resource: PendingResourceModel::Timer { id, deadline_ns } },
        ],
        _ => Seq::empty(),
    }
}

/// An event takes away exactly the waits that it ends, and adds those that it begins behind
/// the others, which keep their order.
pub proof fn law_waits_end_and_begin(s: ConsoleState, event: EventModel)
    requires
        !s.paused,
    ensures
        model::applied(s, event).pending == s.pending.filter(
            |wait: PendingModel| !ends(event, wait),
        ) + begins(event),
{
    let kept = |wait: PendingModel| !ends(event, wait);
    let counted = ConsoleState {
        event_count: model::saturating_sum(s.event_count, 1),
        ..s
    };
    assert(counted.pending == s.pending);
    assert forall|cleared: spec_fn(PendingModel) -> bool|
        (forall|x: PendingModel| #[trigger] cleared(x) == ends(event, x)) implies (
    #[trigger] model::without_pending(counted, cleared)).pending == s.pending.filter(kept) by {
        lemma_same_filter(s.pending, |o: PendingModel| !cleared(o), kept);
    }
    lemma_nothing_ended(s.pending, event);
    assert(s.pending.filter(kept) + Seq::<PendingModel>::empty() =~= s.pending.filter(kept));
    match event {
        EventModel::ResourceContended { kind, holder, waiters } => {
            assert(begins(event) =~= model::contended(kind, holder, waiters));
        },
        EventModel::IoRegistered { fd, interest, task } => {
            let wait = PendingModel { task, resource: PendingResourceModel::Io { fd, interest } };
            assert(s.pending.filter(kept).push(wait) =~= s.pending.filter(kept) + begins(event));
        },
        EventModel::TimerSet { id, deadline_ns, task } => {
            let wait = PendingModel {
                task,
                resource: PendingResourceModel::Timer { id, deadline_ns },
            };
            assert(s.pending.filter(kept).push(wait) =~= s.pending.filter(kept) + begins(event));
        },
        _ => {},
    }
}

/// An event that is not about waits leaves them all.
proof fn lemma_nothing_ended(pending: Seq<PendingModel>, event: EventModel)
    ensures
        (forall|wait: PendingModel| !#[trigger] ends(event, wait)) ==> pending.filter(
            |wait: PendingModel| !ends(event, wait),
        ) == pending,
{
    if forall|wait: PendingModel| !#[trigger] ends(event, wait) {
        lemma_all_kept(pending, |wait: PendingModel| !ends(event, wait));
    }
}

/// Two filters that pick the same leave the same.
proof fn lemma_same_filter<T>(s: Seq<T>, p: spec_fn(T) -> bool, q: spec_fn(T) -> bool)
    requires
        forall|x: T| #[trigger] p(x) == q(x),
    ensures
        s.filter(p) == s.filter(q),
    decreases s.len(),
{
    reveal(Seq::filter);
    if s.len() > 0 {
        lemma_same_filter(s.drop_last(), p, q);
        assert(p(s.last()) == q(s.last()));
    }
}

/// A filter that picks everything leaves everything.
proof fn lemma_all_kept<T>(s: Seq<T>, p: spec_fn(T) -> bool)
    requires
        forall|x: T| #[trigger] p(x),
    ensures
        s.filter(p) == s,
    decreases s.len(),
{
    reveal(Seq::filter);
    if s.len() > 0 {
        lemma_all_kept(s.drop_last(), p);
        assert(p(s.last()));
        assert(s.drop_last().push(s.last()) =~= s);
    } else {
        assert(s.filter(p) =~= s);
    }
}

/// A model that is paused does not change. Any other counts the event, as far as it can
/// count, and keeps what the user has set.
pub proof fn law_paused_models_ignore_events(s: ConsoleState, event: EventModel)
    ensures
        s.paused ==> model::applied(s, event) == s,
        !s.paused ==> model::applied(s, event).event_count == capped(s.event_count + 1),
        ({
            let after = model::applied(s, event);
            &&& after.paused == s.paused && after.filter == s.filter && after.filter_input
                == s.filter_input
            &&& after.sort == s.sort && after.view == s.view && after.selected_task
                == s.selected_task && after.show_help == s.show_help
            &&& after.connected == s.connected && after.disconnect_reason == s.disconnect_reason
        }),
{
}

} // verus!
