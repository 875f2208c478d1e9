//! What holds of the console's model whatever events and keys come.

use super::model;
use super::model::{ConsoleState, PendingModel, PendingResourceModel, TaskModel, MAX_HISTORY};
use super::select;
use super::select::Key;
use crate::wire::{EventModel, WakeSourceModel};
use vstd::prelude::*;

verus! {

/// The model after several events.
pub open spec fn applied_all(s: ConsoleState, events: Seq<EventModel>) -> ConsoleState
    decreases events.len(),
{
    if events.len() == 0 {
        s
    } else {
        model::applied(applied_all(s, events.drop_last()), events.last())
    }
}

/// Whether two pending operations are one and the same wait: for the same timer, or of
/// one task for one file descriptor.
pub open spec fn same_wait(a: PendingModel, b: PendingModel) -> bool {
    match (a.resource, b.resource) {
        (
            PendingResourceModel::Timer { id, .. },
            PendingResourceModel::Timer { id: other, .. },
        ) => id == other,
        (
            PendingResourceModel::Io { fd, .. },
            PendingResourceModel::Io { fd: other, .. },
        ) => fd == other && a.task == b.task,
        _ => false,
    }
}

/// A task is kept under its id, remembers only so much, and is not warned about twice
/// for the same reason.
pub open spec fn task_tidy(id: u64, task: TaskModel) -> bool {
    &&& task.id == id
    &&& task.poll_durations_ns.len() <= MAX_HISTORY
    &&& task.wake_sources.len() <= MAX_HISTORY
    &&& task.warnings.no_duplicates()
}

/// Every task is tidy, and no wait is listed twice.
pub open spec fn tidy(s: ConsoleState) -> bool {
    &&& forall|id: u64| #[trigger] s.tasks.contains_key(id) ==> task_tidy(id, s.tasks[id])
    &&& forall|i: int, j: int|
        0 <= i < j < s.pending.len() ==> !same_wait(#[trigger] s.pending[i], #[trigger] s.pending[j])
}

/// A paused model ignores events, however many.
pub proof fn law_paused_model_stands_still(s: ConsoleState, events: Seq<EventModel>)
    requires
        s.paused,
    ensures
        applied_all(s, events) == s,
    decreases events.len(),
{
    if events.len() > 0 {
        law_paused_model_stands_still(s, events.drop_last());
    }
}

/// An event leaves alone how the model is shown: the tab, the selection, the order, the
/// filter and the rest. It counts as one, and no task or worker is forgotten.
pub proof fn law_events_forget_nothing(s: ConsoleState, event: EventModel)
    ensures
        ({
            let after = model::applied(s, event);
            &&& after.view == s.view
            &&& after.selected_task == s.selected_task
            &&& after.paused == s.paused
            &&& after.show_help == s.show_help
            &&& after.sort == s.sort
            &&& after.filter == s.filter
            &&& after.filter_input == s.filter_input
            &&& after.connected == s.connected
            &&& after.disconnect_reason == s.disconnect_reason
            &&& !s.paused ==> after.event_count == model::saturating_sum(s.event_count, 1)
            &&& s.tasks.dom().subset_of(after.tasks.dom())
            &&& s.workers.dom().subset_of(after.workers.dom())
            &&& s.resources.dom().subset_of(after.resources.dom())
        }),
{
}

/// A filtered list has no clash where the list has none.
proof fn lemma_filter_keeps_apart(
    all: Seq<PendingModel>,
    keep: spec_fn(PendingModel) -> bool,
)
    requires
        forall|i: int, j: int|
            0 <= i < j < all.len() ==> !same_wait(#[trigger] all[i], #[trigger] all[j]),
    ensures
        forall|i: int, j: int|
            0 <= i < j < all.filter(keep).len() ==> !same_wait(
                #[trigger] all.filter(keep)[i],
                #[trigger] all.filter(keep)[j],
            ),
        forall|i: int|
            0 <= i < all.filter(keep).len() ==> keep(#[trigger] all.filter(keep)[i])
                && all.contains(all.filter(keep)[i]),
    decreases all.len(),
{
    reveal(Seq::filter);
    if all.len() > 0 {
        let rest = all.drop_last();
        assert forall|i: int, j: int| 0 <= i < j < rest.len() implies !same_wait(
            #[trigger] rest[i],
            #[trigger] rest[j],
        ) by {
            assert(!same_wait(all[i], all[j]));
        }
        lemma_filter_keeps_apart(rest, keep);
        let f = rest.filter(keep);
        assert forall|i: int| 0 <= i < f.len() implies all.contains(#[trigger] f[i])
            && !same_wait(f[i], all.last()) by {
            let k = choose|k: int| 0 <= k < rest.len() && rest[k] == f[i];
            assert(all[k] == f[i]);
            assert(!same_wait(all[k], all[all.len() - 1]));
        }
        assert(all.contains(all.last())) by {
            assert(all[all.len() - 1] == all.last());
        }
    }
}

/// Taking pending operations out keeps the model tidy.
proof fn lemma_cleared(s: ConsoleState, cleared: spec_fn(PendingModel) -> bool)
    requires
        tidy(s),
    ensures
        tidy(model::without_pending(s, cleared)),
        forall|i: int|
            0 <= i < model::without_pending(s, cleared).pending.len() ==> !cleared(
                #[trigger] model::without_pending(s, cleared).pending[i],
            ),
{
    lemma_filter_keeps_apart(s.pending, |operation: PendingModel| !cleared(operation));
}

/// A tidy task in place of another keeps the model tidy.
proof fn lemma_task_set(s: ConsoleState, task: TaskModel)
    requires
        tidy(s),
        task_tidy(task.id, task),
    ensures
        tidy(model::with_task(s, task)),
{
}

/// The task as known so far is tidy.
proof fn lemma_task_of(s: ConsoleState, id: u64)
    requires
        tidy(s),
    ensures
        task_tidy(id, model::task_of(s, id)),
{
}

/// Another entry keeps a history bounded, and another warning keeps warnings distinct.
proof fn lemma_remembered(
    durations: Seq<u64>,
    duration: u64,
    sources: Seq<Seq<char>>,
    source: Seq<char>,
    warnings: Seq<Seq<char>>,
    warning: Seq<char>,
)
    requires
        durations.len() <= MAX_HISTORY,
        sources.len() <= MAX_HISTORY,
        warnings.no_duplicates(),
    ensures
        model::remember(durations, duration).len() <= MAX_HISTORY,
        model::remember(sources, source).len() <= MAX_HISTORY,
        model::warned(warnings, warning).no_duplicates(),
{
    let after = model::warned(warnings, warning);
    assert forall|i: int, j: int| 0 <= i < after.len() && 0 <= j < after.len() && i
        != j implies after[i] != after[j] by {
        if !warnings.contains(warning) {
            if i == warnings.len() {
                assert(warnings[j] != warning);
            } else if j == warnings.len() {
                assert(warnings[i] != warning);
            } else {
                assert(warnings[i] != warnings[j]);
            }
        } else {
            assert(warnings[i] != warnings[j]);
        }
    }
}

/// Every event keeps the model tidy.
pub proof fn law_model_stays_tidy(s: ConsoleState, event: EventModel)
    requires
        tidy(s),
    ensures
        tidy(model::applied(s, event)),
{
    if !s.paused {
        let t = ConsoleState { event_count: model::saturating_sum(s.event_count, 1), ..s };
        assert(tidy(t));
        match event {
            EventModel::TaskSpawned { id, .. } => {
                lemma_task_of(t, id);
            },
            EventModel::TaskPollStart { id, .. } => {
                lemma_cleared(t, |o: PendingModel| o.task == id);
                lemma_task_of(model::without_pending(t, |o: PendingModel| o.task == id), id);
            },
            EventModel::TaskPollEnd { id, duration_ns, .. } => {
                lemma_task_of(t, id);
                let task = model::task_of(t, id);
                lemma_remembered(
                    task.poll_durations_ns,
                    duration_ns,
                    task.wake_sources,
                    "panic"@,
                    task.warnings,
                    "panic"@,
                );
            },
            EventModel::TaskWoken { id, by } => {
                match by {
                    WakeSourceModel::Io { fd } => {
                        lemma_cleared(t, |o: PendingModel| model::waits_on_io(o, fd) && o.task == id);
                    },
                    WakeSourceModel::Timer { id: timer } => {
                        lemma_cleared(
                            t,
                            |o: PendingModel| model::waits_on_timer(o, timer) && o.task == id,
                        );
                    },
                    _ => {
                        lemma_cleared(t, |o: PendingModel| o.task == id);
                    },
                }
                let u = model::without_woken(t, id, by);
                assert(tidy(u));
                lemma_task_of(u, id);
                let task = model::task_of(u, id);
                lemma_remembered(
                    task.poll_durations_ns,
                    0,
                    task.wake_sources,
                    model::wake_source_text(by),
                    task.warnings,
                    "panic"@,
                );
            },
            EventModel::TaskDropped { id, .. } => {
                lemma_cleared(t, |o: PendingModel| o.task == id);
                lemma_task_of(model::without_pending(t, |o: PendingModel| o.task == id), id);
            },
            EventModel::TaskAborted { id } => {
                lemma_cleared(t, |o: PendingModel| o.task == id);
                lemma_task_of(model::without_pending(t, |o: PendingModel| o.task == id), id);
            },
            EventModel::BlockingDetected { task: id, poll_duration_ns, .. } => {
                lemma_task_of(t, id);
                let task = model::task_of(t, id);
                lemma_remembered(
                    task.poll_durations_ns,
                    poll_duration_ns,
                    task.wake_sources,
                    "blocking"@,
                    task.warnings,
                    "blocking"@,
                );
            },
            EventModel::BudgetExhausted { task: id } => {
                lemma_task_of(t, id);
                let task = model::task_of(t, id);
                lemma_remembered(
                    task.poll_durations_ns,
                    0,
                    task.wake_sources,
                    "budget"@,
                    task.warnings,
                    "budget"@,
                );
            },
            EventModel::ResourceContended { kind, holder, waiters } => {
                let cleared = |o: PendingModel| model::waits_on_kind(o, kind);
                lemma_cleared(t, cleared);
                let u = model::without_pending(t, cleared);
                let more = model::contended(kind, holder, waiters);
                let after = u.pending + more;
                assert forall|i: int, j: int| 0 <= i < j < after.len() implies !same_wait(
                    #[trigger] after[i],
                    #[trigger] after[j],
                ) by {
                    if j < u.pending.len() {
                        assert(!same_wait(u.pending[i], u.pending[j]));
                    } else {
                        assert(after[j] == more[j - u.pending.len()]);
                    }
                }
            },
            EventModel::IoRegistered { fd, interest, task } => {
                let cleared = |o: PendingModel| model::waits_on_io(o, fd) && o.task == task;
                lemma_cleared(t, cleared);
                let u = model::without_pending(t, cleared);
                let new = PendingModel {
                    task,
                    resource: PendingResourceModel::Io { fd, interest },
                };
                let after = u.pending.push(new);
                assert forall|i: int, j: int| 0 <= i < j < after.len() implies !same_wait(
                    #[trigger] after[i],
                    #[trigger] after[j],
                ) by {
                    if j < u.pending.len() {
                        assert(!same_wait(u.pending[i], u.pending[j]));
                    } else {
                        assert(!cleared(u.pending[i]));
                    }
                }
            },
            EventModel::IoReady { fd, woke, .. } => {
                lemma_cleared(
                    t,
                    |o: PendingModel| model::waits_on_io(o, fd) && woke.contains(o.task),
                );
            },
            EventModel::TimerSet { id, deadline_ns, task } => {
                let cleared = |o: PendingModel| model::waits_on_timer(o, id);
                lemma_cleared(t, cleared);
                let u = model::without_pending(t, cleared);
                let new = PendingModel {
                    task,
                    resource: PendingResourceModel::Timer { id, deadline_ns },
                };
                let after = u.pending.push(new);
                assert forall|i: int, j: int| 0 <= i < j < after.len() implies !same_wait(
                    #[trigger] after[i],
                    #[trigger] after[j],
                ) by {
                    if j < u.pending.len() {
                        assert(!same_wait(u.pending[i], u.pending[j]));
                    } else {
                        assert(!cleared(u.pending[i]));
                    }
                }
            },
            EventModel::TimerFired { id, .. } => {
                lemma_cleared(t, |o: PendingModel| model::waits_on_timer(o, id));
            },
            EventModel::TimerCancelled { id } => {
                lemma_cleared(t, |o: PendingModel| model::waits_on_timer(o, id));
            },
            _ => {},
        }
    }
}

/// However many events come, the model stays tidy.
pub proof fn law_model_stays_tidy_through(s: ConsoleState, events: Seq<EventModel>)
    requires
        tidy(s),
    ensures
        tidy(applied_all(s, events)),
    decreases events.len(),
{
    if events.len() > 0 {
        law_model_stays_tidy_through(s, events.drop_last());
        law_model_stays_tidy(applied_all(s, events.drop_last()), events.last());
    }
}

/// The poll duration of a task that an event reports, if it does.
pub open spec fn duration_in(event: EventModel, task: u64) -> Option<u64> {
    match event {
        EventModel::TaskPollEnd { id, duration_ns, .. } if id == task => Some(duration_ns),
        EventModel::BlockingDetected { task: id, poll_duration_ns, .. } if id == task => Some(
            poll_duration_ns,
        ),
        _ => None,
    }
}

/// The wake source of a task that an event reports, if it does.
pub open spec fn wake_in(event: EventModel, task: u64) -> Option<Seq<char>> {
    match event {
        EventModel::TaskWoken { id, by } if id == task => Some(model::wake_source_text(by)),
        _ => None,
    }
}

/// The poll durations of a task that some events report, oldest first.
pub open spec fn durations_in(events: Seq<EventModel>, task: u64) -> Seq<u64>
    decreases events.len(),
{
    if events.len() == 0 {
        Seq::empty()
    } else {
        let earlier = durations_in(events.drop_last(), task);
        match duration_in(events.last(), task) {
            Some(duration) => earlier.push(duration),
            None => earlier,
        }
    }
}

/// The wake sources of a task that some events report, oldest first.
pub open spec fn wakes_in(events: Seq<EventModel>, task: u64) -> Seq<Seq<char>>
    decreases events.len(),
{
    if events.len() == 0 {
        Seq::empty()
    } else {
        let earlier = wakes_in(events.drop_last(), task);
        match wake_in(events.last(), task) {
            Some(source) => earlier.push(source),
            None => earlier,
        }
    }
}

/// The latest entries of a history, as many as are remembered, oldest first.
pub open spec fn latest<T>(all: Seq<T>) -> Seq<T> {
    if all.len() <= MAX_HISTORY {
        all
    } else {
        all.skip(all.len() - MAX_HISTORY)
    }
}

/// Remembering one more entry keeps the latest ones.
proof fn lemma_latest<T>(all: Seq<T>, value: T)
    ensures
        latest(all.push(value)) == model::remember(latest(all), value),
{
    assert(latest(all.push(value)) =~= model::remember(latest(all), value));
}

/// What one event does to the histories of a task.
proof fn lemma_histories_step(s: ConsoleState, event: EventModel, task: u64)
    requires
        !s.paused,
    ensures
        !model::applied(s, event).paused,
        ({
            let before = model::task_of(s, task);
            let after = model::task_of(model::applied(s, event), task);
            &&& after.poll_durations_ns == (match duration_in(event, task) {
                Some(duration) => model::remember(before.poll_durations_ns, duration),
                None => before.poll_durations_ns,
            })
            &&& after.wake_sources == (match wake_in(event, task) {
                Some(source) => model::remember(before.wake_sources, source),
                None => before.wake_sources,
            })
        }),
{
}

/// However many events come, the histories of a task hold the latest poll durations and
/// wake sources that were reported for it, oldest first: as many as are remembered, or all
/// where there were fewer. What a model held before counts as reported earlier.
pub proof fn law_histories_hold_the_latest(s: ConsoleState, events: Seq<EventModel>, task: u64)
    requires
        !s.paused,
        model::task_of(s, task).poll_durations_ns.len() <= MAX_HISTORY,
        model::task_of(s, task).wake_sources.len() <= MAX_HISTORY,
    ensures
        ({
            let before = model::task_of(s, task);
            let after = model::task_of(applied_all(s, events), task);
            &&& after.poll_durations_ns == latest(
                before.poll_durations_ns + durations_in(events, task),
            )
            &&& after.wake_sources == latest(before.wake_sources + wakes_in(events, task))
        }),
        !applied_all(s, events).paused,
    decreases events.len(),
{
    let before = model::task_of(s, task);
    if events.len() == 0 {
        assert(before.poll_durations_ns + durations_in(events, task)
            =~= before.poll_durations_ns);
        assert(before.wake_sources + wakes_in(events, task) =~= before.wake_sources);
    } else {
        let front = events.drop_last();
        law_histories_hold_the_latest(s, front, task);
        lemma_histories_step(applied_all(s, front), events.last(), task);
        let durations = before.poll_durations_ns + durations_in(front, task);
        let wakes = before.wake_sources + wakes_in(front, task);
        if let Some(duration) = duration_in(events.last(), task) {
            lemma_latest(durations, duration);
            assert(before.poll_durations_ns + durations_in(events, task) =~= durations.push(
                duration,
            ));
        }
        if let Some(source) = wake_in(events.last(), task) {
            lemma_latest(wakes, source);
            assert(before.wake_sources + wakes_in(events, task) =~= wakes.push(source));
        }
    }
}

/// A model that began with nothing is tidy after any events, and every task that it knows
/// has the latest poll durations and wake sources that were reported for it.
pub proof fn law_models_from_nothing(s: ConsoleState, events: Seq<EventModel>, task: u64)
    requires
        !s.paused,
        s.tasks == Map::<u64, TaskModel>::empty(),
        s.pending == Seq::<PendingModel>::empty(),
    ensures
        tidy(applied_all(s, events)),
        applied_all(s, events).tasks.contains_key(task) ==> {
            let known = applied_all(s, events).tasks[task];
            &&& known.poll_durations_ns == latest(durations_in(events, task))
            &&& known.wake_sources == latest(wakes_in(events, task))
        },
{
    law_model_stays_tidy_through(s, events);
    law_histories_hold_the_latest(s, events, task);
    assert(Seq::<u64>::empty() + durations_in(events, task) =~= durations_in(events, task));
    assert(Seq::<Seq<char>>::empty() + wakes_in(events, task) =~= wakes_in(events, task));
}

/// A key changes how the model is shown, not what it says.
pub proof fn law_keys_keep_the_projection(s: ConsoleState, key: Key)
    ensures
        ({
            let after = select::key_pressed(s, key).0;
            &&& after.tasks == s.tasks
            &&& after.workers == s.workers
            &&& after.resources == s.resources
            &&& after.pending == s.pending
            &&& after.event_count == s.event_count
            &&& after.connected == s.connected
            &&& after.disconnect_reason == s.disconnect_reason
        }),
{
}

/// A task that is polled, dropped or aborted waits for nothing any more.
pub proof fn law_a_running_task_waits_for_nothing(
    s: ConsoleState,
    id: u64,
    worker: u32,
    at: u64,
    totals: (u64, u64, u64),
)
    requires
        !s.paused,
    ensures
        ({
            let after = model::applied(s, EventModel::TaskPollStart { id, worker, at_ns: at });
            forall|i: int|
                0 <= i < after.pending.len() ==> (#[trigger] after.pending[i]).task != id
        }),
        ({
            let after = model::applied(
                s,
                EventModel::TaskDropped {
                    id,
                    total_polls: totals.0,
                    total_busy_ns: totals.1,
                    total_idle_ns: totals.2,
                },
            );
            forall|i: int|
                0 <= i < after.pending.len() ==> (#[trigger] after.pending[i]).task != id
        }),
        ({
            let after = model::applied(s, EventModel::TaskAborted { id });
            forall|i: int|
                0 <= i < after.pending.len() ==> (#[trigger] after.pending[i]).task != id
        }),
{
    broadcast use vstd::seq_lib::group_filter_ensures;

}

} // verus!
