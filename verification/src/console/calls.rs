//! What the library's values mean, field by field, and what calls do with them.

use super::apply::push_history;
use super::decode::{decode_payload, FrameDecoder};
use super::event::{Event, WakeSource};
use super::model;
use super::model::{ConsoleModel, PendingOperation, PendingResource, TaskView};
use super::reader::{read_step, ReaderInput, ReaderStep};
use super::screen::{render_with_color, task_row, Screen, TaskRow};
use super::select::{key_pressed, Key};
use crate::wire;
use crate::wire::WakeSourceModel;
use vstd::prelude::*;

verus! {

/// An event means what it holds: each of its values, under its own name.
pub proof fn law_events_mean_what_they_hold(event: Event)
    ensures
        match event {
            Event::TaskSpawned { id, name, location, parent } => {
                &&& event@ is TaskSpawned
                &&& event@->TaskSpawned_id == id
                &&& event@->TaskSpawned_name is Some <==> name is Some
                &&& name is Some ==> event@->TaskSpawned_name->0 == name->0@
                &&& event@->TaskSpawned_location.file == location.file@
                &&& event@->TaskSpawned_location.line == location.line
                &&& event@->TaskSpawned_parent == parent
            },
            Event::TaskPollStart { id, worker, at_ns } => {
                &&& event@ is TaskPollStart
                &&& event@->TaskPollStart_id == id
                &&& event@->TaskPollStart_worker == worker
                &&& event@->TaskPollStart_at_ns == at_ns
            },
            Event::TaskPollEnd { id, worker, duration_ns, result } => {
                &&& event@ is TaskPollEnd
                &&& event@->TaskPollEnd_id == id
                &&& event@->TaskPollEnd_worker == worker
                &&& event@->TaskPollEnd_duration_ns == duration_ns
                &&& event@->TaskPollEnd_result == result
            },
            Event::TaskWoken { id, by } => {
                &&& event@ is TaskWoken
                &&& event@->TaskWoken_id == id
                &&& means_source(by, event@->TaskWoken_by)
            },
            Event::TaskDropped { id, total_polls, total_busy_ns, total_idle_ns } => {
                &&& event@ is TaskDropped
                &&& event@->TaskDropped_id == id
                &&& event@->TaskDropped_total_polls == total_polls
                &&& event@->TaskDropped_total_busy_ns == total_busy_ns
                &&& event@->TaskDropped_total_idle_ns == total_idle_ns
            },
            Event::TaskAborted { id } => {
                &&& event@ is TaskAborted
                &&& event@->TaskAborted_id == id
            },
            Event::WorkerPark { worker, timeout_ns } => {
                &&& event@ is WorkerPark
                &&& event@->WorkerPark_worker == worker
                &&& event@->WorkerPark_timeout_ns == timeout_ns
            },
            Event::WorkerUnpark { worker, reason } => {
                &&& event@ is WorkerUnpark
                &&& event@->WorkerUnpark_worker == worker
                &&& event@->WorkerUnpark_reason == reason
            },
            Event::WorkerSteal { thief, victim, count } => {
                &&& event@ is WorkerSteal
                &&& event@->WorkerSteal_thief == thief
                &&& event@->WorkerSteal_victim == victim
                &&& event@->WorkerSteal_count == count
            },
            Event::QueueDepth { worker, local, global, lifo } => {
                &&& event@ is QueueDepth
                &&& event@->QueueDepth_worker == worker
                &&& event@->QueueDepth_local == local
                &&& event@->QueueDepth_global == global
                &&& event@->QueueDepth_lifo == lifo
            },
            Event::IoRegistered { fd, interest, task } => {
                &&& event@ is IoRegistered
                &&& event@->IoRegistered_fd == fd
                &&& event@->IoRegistered_interest == interest@
                &&& event@->IoRegistered_task == task
            },
            Event::IoReady { fd, readiness, woke } => {
                &&& event@ is IoReady
                &&& event@->IoReady_fd == fd
                &&& event@->IoReady_readiness == readiness@
                &&& event@->IoReady_woke == woke@
            },
            Event::TimerSet { id, deadline_ns, task } => {
                &&& event@ is TimerSet
                &&& event@->TimerSet_id == id
                &&& event@->TimerSet_deadline_ns == deadline_ns
                &&& event@->TimerSet_task == task
            },
            Event::TimerFired { id, lateness_ns } => {
                &&& event@ is TimerFired
                &&& event@->TimerFired_id == id
                &&& event@->TimerFired_lateness_ns == lateness_ns
            },
            Event::TimerCancelled { id } => {
                &&& event@ is TimerCancelled
                &&& event@->TimerCancelled_id == id
            },
            Event::BlockingDetected { task, poll_duration_ns, location } => {
                &&& event@ is BlockingDetected
                &&& event@->BlockingDetected_task == task
                &&& event@->BlockingDetected_poll_duration_ns == poll_duration_ns
                &&& event@->BlockingDetected_location.file == location.file@
                &&& event@->BlockingDetected_location.line == location.line
            },
            Event::BudgetExhausted { task } => {
                &&& event@ is BudgetExhausted
                &&& event@->BudgetExhausted_task == task
            },
            Event::ResourceContended { kind, holder, waiters } => {
                &&& event@ is ResourceContended
                &&& event@->ResourceContended_kind == kind@
                &&& event@->ResourceContended_holder == holder
                &&& event@->ResourceContended_waiters == waiters@
            },
        },
{
}

/// Whether a source of a wake is what it stands for.
pub open spec fn means_source(source: WakeSource, meaning: WakeSourceModel) -> bool {
    match source {
        WakeSource::Io { fd } => meaning is Io && meaning->Io_fd == fd,
        WakeSource::Timer { id } => meaning is Timer && meaning->Timer_id == id,
        WakeSource::Task(id) => meaning is Task && meaning->Task_id == id,
        WakeSource::Channel { kind } => meaning is Channel && meaning->Channel_kind == kind@,
        WakeSource::External => meaning is External,
    }
}

/// A task, a pending operation and the whole model mean what they hold.
pub proof fn law_views_mean_what_they_hold(
    task: TaskView,
    operation: PendingOperation,
    console: ConsoleModel,
    id: u64,
    worker: u32,
)
    ensures
        task@.id == task.id,
        task@.name == task.name@,
        task@.state == task.state,
        task@.worker == task.worker,
        task@.polls == task.polls,
        task@.total_busy_ns == task.total_busy_ns,
        task@.total_idle_ns == task.total_idle_ns,
        task@.scheduled == task.scheduled,
        task@.location is Some <==> task.location is Some,
        task.location is Some ==> task@.location->0.file == task.location->0.file@
            && task@.location->0.line == task.location->0.line,
        task@.warnings.len() == task.warnings@.len(),
        forall|i: int|
            0 <= i < task.warnings@.len() ==> #[trigger] task@.warnings[i] == task.warnings@[i]@,
        task@.poll_durations_ns == task.poll_durations_ns@,
        task@.wake_sources.len() == task.wake_sources@.len(),
        forall|i: int|
            0 <= i < task.wake_sources@.len() ==> #[trigger] task@.wake_sources[i]
                == task.wake_sources@[i]@,
        operation@.task == operation.task,
        match operation.resource {
            PendingResource::Io { fd, interest } => operation@.resource is Io
                && operation@.resource->Io_fd == fd && operation@.resource->Io_interest
                == interest@,
            PendingResource::Timer { id, deadline_ns } => operation@.resource is Timer
                && operation@.resource->Timer_id == id && operation@.resource->Timer_deadline_ns
                == deadline_ns,
            PendingResource::Resource { kind, holder } => operation@.resource is Resource
                && operation@.resource->Resource_kind == kind@
                && operation@.resource->Resource_holder == holder,
        },
        console@.tasks.contains_key(id) == console.tasks@.contains_key(id),
        console.tasks@.contains_key(id) ==> console@.tasks[id] == console.tasks@[id]@,
        console@.workers.contains_key(worker) == console.workers@.contains_key(worker),
        console.workers@.contains_key(worker) ==> console@.workers[worker]
            == console.workers@[worker],
        console@.pending.len() == console.pending_operations@.len(),
        forall|i: int|
            0 <= i < console.pending_operations@.len() ==> #[trigger] console@.pending[i]
                == console.pending_operations@[i]@,
        console@.connected == console.connected,
        console@.event_count == console.event_count,
        console@.view == console.view,
        console@.selected_task == console.selected_task,
        console@.paused == console.paused,
        console@.show_help == console.show_help,
        console@.sort == console.sort,
        console@.filter == console.filter@,
        console@.filter_input is Some <==> console.filter_input is Some,
        console.filter_input is Some ==> console@.filter_input->0 == console.filter_input->0@,
        console@.disconnect_reason is Some <==> console.disconnect_reason is Some,
        console.disconnect_reason is Some ==> console@.disconnect_reason->0
            == console.disconnect_reason->0@,
{
}

/// Applying an event does to a model what the event means, and a model that is paused is
/// left alone.
pub proof fn law_applying_events()
    ensures
        forall|console: &mut ConsoleModel, event: Event| #[trigger]
            call_ensures(ConsoleModel::apply, (console, event), ()) ==> {
                &&& (*console)@.paused ==> (*final(console))@ == (*console)@
                &&& (*final(console))@ == model::applied((*console)@, event@)
            },
{
}

/// A task that is dropped is shown with the totals that the event reports: so many polls,
/// so long busy, so long idle.
pub proof fn law_applying_a_drop(
    id: u64,
    total_polls: u64,
    total_busy_ns: u64,
    total_idle_ns: u64,
)
    ensures
        forall|console: &mut ConsoleModel, event: Event| #[trigger]
            call_ensures(ConsoleModel::apply, (console, event), ()) && !(*console).paused && event
                == (Event::TaskDropped { id, total_polls, total_busy_ns, total_idle_ns }) ==> {
                let tasks = (*final(console)).tasks@;
                &&& tasks.contains_key(id)
                &&& tasks[id].polls == total_polls
                &&& tasks[id].total_busy_ns == total_busy_ns
                &&& tasks[id].total_idle_ns == total_idle_ns
            },
{
    assert forall|console: &mut ConsoleModel, event: Event| #[trigger]
        call_ensures(ConsoleModel::apply, (console, event), ()) && !(*console).paused && event == (
        Event::TaskDropped { id, total_polls, total_busy_ns, total_idle_ns }) implies {
        let tasks = (*final(console)).tasks@;
        &&& tasks.contains_key(id)
        &&& tasks[id].polls == total_polls
        &&& tasks[id].total_busy_ns == total_busy_ns
        &&& tasks[id].total_idle_ns == total_idle_ns
    } by {
        let before = (*console)@;
        let after = (*final(console))@;
        super::meaning::law_dropped_tasks_have_their_totals(
            before,
            id,
            total_polls,
            total_busy_ns,
            total_idle_ns,
        );
        super::meaning::law_events_change_what_they_are_about(
            before,
            event@,
            id,
            0,
            Seq::empty(),
        );
        assert(after.tasks.contains_key(id));
        assert(after.tasks[id] == (*final(console)).tasks@[id]@);
    }
}

/// A lost connection is shown with its reason, and everything else stays to be seen.
pub proof fn law_losing_the_connection()
    ensures
        forall|console: &mut ConsoleModel, reason: &str| #[trigger]
            call_ensures(ConsoleModel::disconnected, (console, reason), ()) ==> {
                let before = (*console)@;
                let after = (*final(console))@;
                &&& !after.connected
                &&& after.disconnect_reason is Some && after.disconnect_reason->0 == reason@
                &&& after.tasks == before.tasks && after.workers == before.workers
                &&& after.resources == before.resources && after.pending == before.pending
                &&& after.event_count == before.event_count && after.view == before.view
                &&& after.paused == before.paused && after.filter == before.filter
            },
{
}

/// Keys, payloads and streams are handled by calls as the laws on them say.
pub proof fn law_calls_do_what_is_said()
    ensures
        forall|console: &mut ConsoleModel, key: Key, quit: bool| #[trigger]
            call_ensures(ConsoleModel::handle_key, (console, key), quit) ==> (
            (*final(console))@,
            quit,
        ) == key_pressed((*console)@, key),
        forall|bytes: &[u8], result: Result<Event, wire::DecodeError>| #[trigger]
            call_ensures(decode_payload, (bytes,), result) ==> {
                &&& result is Ok <==> wire::decode_bytes(bytes@) is Ok
                &&& result is Ok ==> wire::decode_bytes(bytes@)->Ok_0 == result->Ok_0@
                &&& result is Err ==> wire::decode_bytes(bytes@)->Err_0 == result->Err_0
            },
        forall|
            decoder: &mut FrameDecoder,
            bytes: &[u8],
            result: Result<Vec<Event>, wire::DecodeError>,
        | #[trigger]
            call_ensures(FrameDecoder::push, (decoder, bytes), result) ==> {
                let found = wire::drain((*decoder)@ + bytes@);
                &&& (*final(decoder))@ == found.rest
                &&& result is Ok <==> found.error is None
                &&& result is Ok ==> super::decode::event_models(result->Ok_0@) == found.events
                &&& result is Err ==> found.error->0 == result->Err_0
            },
        forall|decoder: &FrameDecoder, result: Result<(), wire::DecodeError>| #[trigger]
            call_ensures(FrameDecoder::finish, (decoder,), result) ==> {
                &&& result is Ok <==> decoder@.len() == 0
                &&& result is Err ==> result->Err_0 is Truncated
            },
        forall|console: &ConsoleModel, color: bool, screen: Screen| #[trigger]
            call_ensures(render_with_color, (console, color), screen)
                ==> super::screen::screen_shows(screen, *console, color),
        forall|task: &TaskView, selected: bool, color: bool, row: TaskRow| #[trigger]
            call_ensures(task_row, (task, selected, color), row) ==> super::screen::row_shows(
                row,
                task@,
                selected,
                color,
            ),
        forall|decoder: &mut FrameDecoder, input: ReaderInput, step: ReaderStep| #[trigger]
            call_ensures(read_step, (decoder, input), step) ==> super::reader::step_fits(
                step,
                (*decoder)@,
                input,
            ),
        forall|history: &mut Vec<u64>, value: u64| #[trigger]
            call_ensures(push_history, (history, value), ()) ==> super::meaning::joined_history(
                (*history)@,
                (*final(history))@,
                value,
            ),
{
    assert forall|history: &mut Vec<u64>, value: u64| #[trigger]
        call_ensures(push_history, (history, value), ()) implies super::meaning::joined_history(
        (*history)@,
        (*final(history))@,
        value,
    ) by {
        super::meaning::lemma_remembered((*history)@, value);
    }
}

} // verus!
