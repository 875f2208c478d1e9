//! What the counters count, and what a snapshot shows.

use super::metrics::{
    clear_subscriber, counted, monotonic_nanos, ready_clients, retain_clients, set_subscriber,
    shows, since_origin, snapshot_tasks, state_of, CurrentTask, CurrentTaskGuard, MetricEvent,
    MetricsState, RuntimeMetrics, RuntimeMetricsSnapshot, Subscription, TaskHeader, TaskIds,
    TaskSnapshot,
};
use super::{checked_frame, encode_frame, wire_nanos, RuntimeEvent, TaskId};
use crate::wire;
use vstd::prelude::*;

verus! {

/// A time is carried as it is, or as the longest that fits.
pub proof fn law_times_saturate(nanos: u128)
    ensures
        nanos <= 18446744073709551615 ==> wire_nanos(nanos) == nanos,
        nanos > 18446744073709551615 ==> wire_nanos(nanos) == 18446744073709551615u64,
{
}

/// What happens changes the counter that is named for it, and no other: tasks that live,
/// tasks that wait in queues, polls and the time they took, tasks that were scheduled,
/// tasks that were stolen, parks, and the time that workers were busy.
pub proof fn law_counters_count_what_they_are_named_for(
    state: MetricsState,
    nanos: u64,
    count: usize,
)
    ensures
        ({
            let spawned = counted(state, MetricEvent::TaskSpawned);
            let polled = counted(state, MetricEvent::TaskPolled(nanos as u128));
            let scheduled = counted(state, MetricEvent::TaskScheduled);
            let queued = counted(state, MetricEvent::TaskQueued);
            let stolen = counted(state, MetricEvent::WorkerStolen(count));
            let parked = counted(state, MetricEvent::WorkerParked);
            let busy = counted(state, MetricEvent::WorkerBusy(nanos as u128));
            &&& spawned == (MetricsState { active_tasks: spawned.active_tasks, ..state })
            &&& state.active_tasks < u64::MAX ==> spawned.active_tasks == state.active_tasks + 1
            &&& polled == (MetricsState {
                total_polls: polled.total_polls,
                total_busy_ns: polled.total_busy_ns,
                ..state
            })
            &&& state.total_polls < u64::MAX ==> polled.total_polls == state.total_polls + 1
            &&& state.total_busy_ns + nanos <= u64::MAX ==> polled.total_busy_ns
                == state.total_busy_ns + nanos
            &&& scheduled == (MetricsState { scheduled_tasks: scheduled.scheduled_tasks, ..state })
            &&& state.scheduled_tasks < u64::MAX ==> scheduled.scheduled_tasks
                == state.scheduled_tasks + 1
            &&& queued == (MetricsState { queue_depth: queued.queue_depth, ..state })
            &&& state.queue_depth < u64::MAX ==> queued.queue_depth == state.queue_depth + 1
            &&& stolen == (MetricsState { steals: stolen.steals, ..state })
            &&& state.steals + count <= u64::MAX ==> stolen.steals == state.steals + count
            &&& parked == (MetricsState { parks: parked.parks, ..state })
            &&& state.parks < u64::MAX ==> parked.parks == state.parks + 1
            &&& busy == (MetricsState { worker_busy_ns: busy.worker_busy_ns, ..state })
            &&& state.worker_busy_ns + nanos <= u64::MAX ==> busy.worker_busy_ns
                == state.worker_busy_ns + nanos
        }),
{
}

/// A task that is done is shown as done, whatever else holds of it; then one that is
/// cancelled, one that runs, and one that was woken; a task of which nothing of that holds
/// is idle.
pub proof fn law_states_of_tasks(header: TaskHeader)
    ensures
        state_of(header) is Complete <==> header.complete,
        state_of(header) is Cancelled <==> !header.complete && header.cancelled,
        state_of(header) is Running <==> !header.complete && !header.cancelled && header.running,
        state_of(header) is Queued <==> !header.complete && !header.cancelled && !header.running
            && header.notified,
        state_of(header) is Idle <==> !header.complete && !header.cancelled && !header.running
            && !header.notified,
{
}

/// A snapshot shows everything of a task under its own name.
pub proof fn law_snapshots_show_their_task(snapshot: TaskSnapshot, header: TaskHeader)
    requires
        shows(snapshot, header),
    ensures
        snapshot.id == header.id,
        snapshot.parent == header.parent,
        snapshot.worker == header.worker,
        snapshot.polls == header.polls,
        snapshot.total_busy == header.busy_ns,
        snapshot.total_idle == header.idle_ns,
        snapshot.scheduled == header.scheduled,
        snapshot.location@ == header.location@,
        snapshot.name is Some <==> header.name is Some,
        header.name is Some ==> snapshot.name->0@ == header.name->0@,
        snapshot.state == state_of(header),
{
}

/// Those clients stay that took the frame, in their order, and no others.
pub proof fn law_clients_stay_that_keep_up<T>(clients: Seq<T>, sent: Seq<bool>, last: T, took: bool)
    requires
        clients.len() == sent.len(),
    ensures
        ready_clients(Seq::<T>::empty(), Seq::empty()).len() == 0,
        ready_clients(clients.push(last), sent.push(took)) == (if took {
            ready_clients(clients, sent) + seq![last]
        } else {
            ready_clients(clients, sent)
        }),
{
    let all = clients.push(last);
    assert(all.drop_last() =~= clients);
    lemma_sent_front(clients, sent, took);
    assert(ready_clients(clients, sent).push(last) =~= ready_clients(clients, sent) + seq![last]);
}

proof fn lemma_sent_front<T>(clients: Seq<T>, sent: Seq<bool>, took: bool)
    requires
        clients.len() <= sent.len(),
    ensures
        ready_clients(clients, sent.push(took)) == ready_clients(clients, sent),
    decreases clients.len(),
{
    if clients.len() > 0 {
        lemma_sent_front(clients.drop_last(), sent, took);
    }
}

/// Tasks are numbered one after the other, from one on. A thread is at the task that it
/// entered last, and back at the one before when it leaves.
pub proof fn law_tasks_are_numbered_and_entered()
    ensures
        forall|ids: TaskIds| #[trigger] call_ensures(TaskIds::new, (), ids) ==> ids.next == 1,
        forall|ids: &mut TaskIds, id: TaskId| #[trigger]
            call_ensures(TaskIds::next, (ids,), id) ==> id.0 == (*ids).next && ((*ids).next
                < u64::MAX ==> (*final(ids)).next == (*ids).next + 1),
        forall|current: CurrentTask, id: TaskId| #[trigger]
            call_ensures(CurrentTask::current, (&current,), id) ==> id.0 == current.id,
        forall|current: &mut CurrentTask, id: TaskId, guard: CurrentTaskGuard| #[trigger]
            call_ensures(CurrentTask::enter, (current, id), guard) ==> (*final(current)).id == id.0,
        forall|
            current: &mut CurrentTask,
            id: TaskId,
            guard: CurrentTaskGuard,
            inside: &mut CurrentTask,
        |
            #![trigger call_ensures(CurrentTask::enter, (current, id), guard), call_ensures(CurrentTask::leave, (inside, guard), ())]
            call_ensures(CurrentTask::enter, (current, id), guard) && call_ensures(
                CurrentTask::leave,
                (inside, guard),
                (),
            ) ==> (*final(inside)).id == (*current).id,
{
}

/// Events go to the sink that was installed last, and nowhere once it was removed.
pub proof fn law_events_go_to_the_sink<S>()
    ensures
        forall|slot: &mut Subscription<S>, sink: S| #[trigger]
            call_ensures(set_subscriber::<S>, (slot, sink), ()) ==> (*final(slot)).active && (
            *final(slot)).sink is Some && (*final(slot)).sink->0 == sink,
        forall|slot: &mut Subscription<S>| #[trigger]
            call_ensures(clear_subscriber::<S>, (slot,), ()) ==> !(*final(slot)).active
                && (*final(slot)).sink is None,
        forall|slot: Subscription<S>| #[trigger]
            call_ensures(Subscription::<S>::new, (), slot) ==> !slot.active && slot.sink is None,
{
}

/// A point in time is counted from the origin, and stands at it where it is not behind it.
pub proof fn law_times_are_counted_from_the_origin()
    ensures
        forall|at: u128, origin: Option<u128>, nanos: u128| #[trigger]
            call_ensures(since_origin, (at, origin), nanos) ==> {
                &&& origin is None ==> nanos == 0
                &&& origin is Some && at <= origin->0 ==> nanos == 0
                &&& origin is Some && at > origin->0 ==> nanos + origin->0 == at
            },
        forall|elapsed: u128, nanos: u64| #[trigger]
            call_ensures(monotonic_nanos, (elapsed,), nanos) ==> (elapsed <= u64::MAX ==> nanos
                == elapsed) && (elapsed > u64::MAX ==> nanos == u64::MAX),
{
}

/// What is counted, and what is shown, is what the counters hold, under their own names. The
/// time that was to be had is that of all workers together, as far as it fits.
pub proof fn law_snapshots_show_the_counters()
    ensures
        forall|workers: usize, state: MetricsState| #[trigger]
            call_ensures(MetricsState::new, (workers,), state) ==> state.active_tasks == 0
                && state.queue_depth == 0 && state.total_polls == 0 && state.total_busy_ns == 0
                && state.scheduled_tasks == 0 && state.steals == 0 && state.parks == 0
                && state.worker_busy_ns == 0 && (workers > 0 ==> state.worker_count == workers) && (
            workers == 0 ==> state.worker_count == 1),
        forall|state: &mut MetricsState, event: MetricEvent| #[trigger]
            call_ensures(MetricsState::count, (state, event), ()) ==> *final(state) == counted(
                *state,
                event,
            ),
        forall|metrics: RuntimeMetrics, elapsed: u128, snapshot: RuntimeMetricsSnapshot| #[trigger]
            call_ensures(RuntimeMetrics::snapshot, (&metrics, elapsed), snapshot) ==> {
                let state = *metrics.state;
                &&& snapshot.active_tasks == state.active_tasks
                &&& snapshot.queue_depth == state.queue_depth
                &&& snapshot.total_polls == state.total_polls
                &&& snapshot.total_busy == state.total_busy_ns
                &&& snapshot.scheduled_tasks == state.scheduled_tasks
                &&& snapshot.steals == state.steals
                &&& snapshot.parks == state.parks
                &&& snapshot.busy_ns == state.worker_busy_ns
                &&& elapsed * state.worker_count <= u128::MAX ==> snapshot.capacity_ns == elapsed
                    * state.worker_count
                &&& elapsed * state.worker_count > u128::MAX ==> snapshot.capacity_ns == u128::MAX
            },
        forall|tasks: Vec<TaskHeader>, snapshots: Vec<TaskSnapshot>| #[trigger]
            call_ensures(snapshot_tasks, (&tasks,), snapshots) ==> {
                &&& snapshots@.len() == tasks@.len()
                &&& forall|i: int|
                    0 <= i < tasks@.len() ==> (#[trigger] snapshots@[i]).id == tasks@[i].id
                        && snapshots@[i].polls == tasks@[i].polls && snapshots@[i].total_busy
                        == tasks@[i].busy_ns && snapshots@[i].total_idle == tasks@[i].idle_ns
                        && snapshots@[i].state == state_of(tasks@[i])
            },
        forall|clients: Vec<u64>, sent: Vec<bool>, kept: Vec<u64>| #[trigger]
            call_ensures(retain_clients, (&clients, &sent), kept) ==> kept@ == ready_clients(
                clients@,
                sent@,
            ),
{
}

/// A frame is the length of its payload, little end first, and the payload; an event that is
/// too large has none.
pub proof fn law_frames_say_their_length()
    ensures
        forall|event: RuntimeEvent, frame: Vec<u8>| #[trigger]
            call_ensures(encode_frame, (&event,), frame) && wire::payload_bytes(event@).len()
                <= u32::MAX ==> {
                let payload = wire::payload_bytes(event@);
                &&& frame@.len() == payload.len() + 4
                &&& frame@.skip(4) == payload
                &&& frame@[0] + 256 * frame@[1] + 65536 * frame@[2] + 16777216 * frame@[3]
                    == payload.len()
            },
        forall|event: RuntimeEvent, frame: Option<Vec<u8>>| #[trigger]
            call_ensures(checked_frame, (&event,), frame) ==> {
                &&& frame is Some <==> wire::fields_fit(event@) && wire::payload_bytes(event@).len()
                    <= u32::MAX
                &&& frame is Some ==> frame->0@.skip(4) == wire::payload_bytes(event@)
                    && frame->0@.len() == wire::payload_bytes(event@).len() + 4
            },
{
    assert forall|payload: Seq<u8>| payload.len() <= u32::MAX implies {
        let frame = #[trigger] wire::frame_bytes(payload);
        &&& frame.len() == payload.len() + 4
        &&& frame.skip(4) == payload
        &&& frame[0] + 256 * frame[1] + 65536 * frame[2] + 16777216 * frame[3] == payload.len()
    } by {
        lemma_frame(payload);
    }
}

proof fn lemma_frame(payload: Seq<u8>)
    requires
        payload.len() <= u32::MAX,
    ensures
        ({
            let frame = wire::frame_bytes(payload);
            &&& frame.len() == payload.len() + 4
            &&& frame.skip(4) == payload
            &&& frame[0] + 256 * frame[1] + 65536 * frame[2] + 16777216 * frame[3]
                == payload.len()
        }),
{
    assert(wire::frame_bytes(payload).skip(4) =~= payload);
}

} // verus!
