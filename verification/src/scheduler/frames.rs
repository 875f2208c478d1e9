//! What calls of the schedulers leave as it is.

use super::current_thread::{CurrentThread, Deferred, Enqueued, Phase, RootStep};
use super::inject::Injector;
use super::queue::{Blocked, Claim, Local};
use super::worker::{Placed, Shared, Step, Takeover, WorkerState};
use vstd::prelude::*;

verus! {

/// Handing out and taking tasks changes what waits, and nothing else of the scheduler; looking
/// for work may wake a worker; a whole round may also count a theft.
pub proof fn law_workers_change_what_they_concern<T>()
    ensures
        forall|shared: &mut Shared<T>, task: T, target: usize, current: Option<usize>, out: Placed|
            #[trigger]
            call_ensures(Shared::<T>::schedule, (shared, task, target, current), out) ==> {
                &&& (*final(shared)).workers() == (*shared).workers()
                &&& (*final(shared)).searching() == (*shared).searching()
                &&& (*final(shared)).next_worker() == (*shared).next_worker()
                &&& (*final(shared)).is_shutdown() == (*shared).is_shutdown()
                &&& (*final(shared)).lifo_slot_enabled() == (*shared).lifo_slot_enabled()
                &&& (*final(shared)).parked() == (*shared).parked()
                &&& (*final(shared)).steals() == (*shared).steals()
            },
        forall|shared: &mut Shared<T>, id: usize, polls: &mut u8, out: Option<T>| #[trigger]
            call_ensures(Shared::<T>::next_lifo, (shared, id, polls), out) ==> {
                &&& (*final(shared)).workers() == (*shared).workers()
                &&& (*final(shared)).searching() == (*shared).searching()
                &&& (*final(shared)).next_worker() == (*shared).next_worker()
                &&& (*final(shared)).is_shutdown() == (*shared).is_shutdown()
                &&& (*final(shared)).lifo_slot_enabled() == (*shared).lifo_slot_enabled()
                &&& (*final(shared)).parked() == (*shared).parked()
                &&& (*final(shared)).steals() == (*shared).steals()
            },
        forall|shared: &mut Shared<T>, id: usize, out: Option<T>| #[trigger]
            call_ensures(Shared::<T>::take_injected, (shared, id), out) ==> {
                &&& (*final(shared)).workers() == (*shared).workers()
                &&& (*final(shared)).searching() == (*shared).searching()
                &&& (*final(shared)).next_worker() == (*shared).next_worker()
                &&& (*final(shared)).is_shutdown() == (*shared).is_shutdown()
                &&& (*final(shared)).lifo_slot_enabled() == (*shared).lifo_slot_enabled()
                &&& (*final(shared)).parked() == (*shared).parked()
                &&& (*final(shared)).steals() == (*shared).steals()
            },
        forall|shared: &mut Shared<T>, id: usize, start: usize, out: Option<T>| #[trigger]
            call_ensures(Shared::<T>::steal_work, (shared, id, start), out) ==> {
                &&& (*final(shared)).workers() == (*shared).workers()
                &&& (*final(shared)).searching() == (*shared).searching()
                &&& (*final(shared)).next_worker() == (*shared).next_worker()
                &&& (*final(shared)).is_shutdown() == (*shared).is_shutdown()
                &&& (*final(shared)).lifo_slot_enabled() == (*shared).lifo_slot_enabled()
                &&& (*final(shared)).parked() == (*shared).parked()
                &&& (*final(shared)).steals() == (*shared).steals()
            },
        forall|shared: &mut Shared<T>, id: usize, start: usize, out: (Option<T>, Option<usize>)|
            #[trigger]
            call_ensures(Shared::<T>::search_and_steal, (shared, id, start), out) ==> {
                &&& (*final(shared)).workers() == (*shared).workers()
                &&& (*final(shared)).searching() == (*shared).searching()
                &&& (*final(shared)).next_worker() == (*shared).next_worker()
                &&& (*final(shared)).is_shutdown() == (*shared).is_shutdown()
                &&& (*final(shared)).lifo_slot_enabled() == (*shared).lifo_slot_enabled()
                &&& (*final(shared)).steals() == (*shared).steals()
            },
        forall|shared: &mut Shared<T>, id: usize, state: &mut WorkerState, start: usize,
            takeover: bool, out: (Step<T>, Option<usize>)| #[trigger]
            call_ensures(Shared::<T>::worker_step, (shared, id, state, start, takeover), out) ==> {
                &&& (*final(shared)).workers() == (*shared).workers()
                &&& (*final(shared)).searching() == (*shared).searching()
                &&& (*final(shared)).next_worker() == (*shared).next_worker()
                &&& (*final(shared)).is_shutdown() == (*shared).is_shutdown()
                &&& (*final(shared)).lifo_slot_enabled() == (*shared).lifo_slot_enabled()
            },
{
}

/// Parking and waking change the marks of who is parked, and spawning only whose turn it is.
pub proof fn law_parking_and_spawning_change_what_they_concern<T>()
    ensures
        forall|shared: &mut Shared<T>, out: Option<usize>| #[trigger]
            call_ensures(Shared::<T>::unpark_any, (shared,), out) ==> {
                &&& (*final(shared)).workers() == (*shared).workers()
                &&& (*final(shared)).searching() == (*shared).searching()
                &&& (*final(shared)).next_worker() == (*shared).next_worker()
                &&& (*final(shared)).is_shutdown() == (*shared).is_shutdown()
                &&& (*final(shared)).lifo_slot_enabled() == (*shared).lifo_slot_enabled()
                &&& (*final(shared)).steals() == (*shared).steals()
                &&& (*final(shared)).waiting() == (*shared).waiting()
            },
        forall|shared: &mut Shared<T>, id: usize, out: bool| #[trigger]
            call_ensures(Shared::<T>::begin_park, (shared, id), out) ==> {
                &&& (*final(shared)).workers() == (*shared).workers()
                &&& (*final(shared)).searching() == (*shared).searching()
                &&& (*final(shared)).next_worker() == (*shared).next_worker()
                &&& (*final(shared)).is_shutdown() == (*shared).is_shutdown()
                &&& (*final(shared)).lifo_slot_enabled() == (*shared).lifo_slot_enabled()
                &&& (*final(shared)).steals() == (*shared).steals()
                &&& (*final(shared)).waiting() == (*shared).waiting()
            },
        forall|shared: &mut Shared<T>, id: usize| #[trigger]
            call_ensures(Shared::<T>::end_park, (shared, id), ()) ==> {
                &&& (*final(shared)).workers() == (*shared).workers()
                &&& (*final(shared)).searching() == (*shared).searching()
                &&& (*final(shared)).next_worker() == (*shared).next_worker()
                &&& (*final(shared)).is_shutdown() == (*shared).is_shutdown()
                &&& (*final(shared)).lifo_slot_enabled() == (*shared).lifo_slot_enabled()
                &&& (*final(shared)).steals() == (*shared).steals()
                &&& (*final(shared)).waiting() == (*shared).waiting()
            },
        forall|shared: &mut Shared<T>, current: Option<usize>, out: usize| #[trigger]
            call_ensures(Shared::<T>::spawn_target, (shared, current), out) ==> {
                &&& (*final(shared)).workers() == (*shared).workers()
                &&& (*final(shared)).searching() == (*shared).searching()
                &&& (*final(shared)).is_shutdown() == (*shared).is_shutdown()
                &&& (*final(shared)).lifo_slot_enabled() == (*shared).lifo_slot_enabled()
                &&& (*final(shared)).parked() == (*shared).parked()
                &&& (*final(shared)).steals() == (*shared).steals()
                &&& (*final(shared)).waiting() == (*shared).waiting()
            },
{
}

/// A shutdown is noted once, and changes neither what waits nor who is parked. Handing a queue
/// over and back changes what waits alone.
pub proof fn law_shutdown_and_takeover_change_what_they_concern<T>()
    ensures
        forall|shared: &mut Shared<T>, out: bool| #[trigger]
            call_ensures(Shared::<T>::shutdown, (shared,), out) ==> {
                &&& (*final(shared)).workers() == (*shared).workers()
                &&& (*final(shared)).searching() == (*shared).searching()
                &&& (*final(shared)).next_worker() == (*shared).next_worker()
                &&& (*final(shared)).lifo_slot_enabled() == (*shared).lifo_slot_enabled()
                &&& (*final(shared)).parked() == (*shared).parked()
                &&& (*final(shared)).steals() == (*shared).steals()
                &&& (*final(shared)).waiting() == (*shared).waiting()
                &&& (*final(shared)).is_shutdown()
                &&& out == !(*shared).is_shutdown()
            },
        forall|shared: &mut Shared<T>, id: usize, out: Takeover<T>| #[trigger]
            call_ensures(Shared::<T>::begin_takeover, (shared, id), out) ==> {
                &&& (*final(shared)).workers() == (*shared).workers()
                &&& (*final(shared)).searching() == (*shared).searching()
                &&& (*final(shared)).next_worker() == (*shared).next_worker()
                &&& (*final(shared)).is_shutdown() == (*shared).is_shutdown()
                &&& (*final(shared)).lifo_slot_enabled() == (*shared).lifo_slot_enabled()
                &&& (*final(shared)).parked() == (*shared).parked()
                &&& (*final(shared)).steals() == (*shared).steals()
            },
        forall|shared: &mut Shared<T>, id: usize, takeover: &mut Takeover<T>| #[trigger]
            call_ensures(Shared::<T>::hand_back, (shared, id, takeover), ()) ==> {
                &&& (*final(shared)).workers() == (*shared).workers()
                &&& (*final(shared)).searching() == (*shared).searching()
                &&& (*final(shared)).next_worker() == (*shared).next_worker()
                &&& (*final(shared)).is_shutdown() == (*shared).is_shutdown()
                &&& (*final(shared)).lifo_slot_enabled() == (*shared).lifo_slot_enabled()
                &&& (*final(shared)).parked() == (*shared).parked()
                &&& (*final(shared)).steals() == (*shared).steals()
            },
        forall|takeover: &mut Takeover<T>| #[trigger]
            call_ensures(Takeover::<T>::request, (takeover,), ()) ==> {
                &&& (*final(takeover)).returned() == (*takeover).returned()
                &&& (*final(takeover)).tasks() == (*takeover).tasks()
                &&& (*final(takeover)).slot() == (*takeover).slot()
                &&& (*final(takeover)).requested()
            },
{
}

/// A queue keeps its capacity, and what thieves hold of it, when its owner uses it.
pub proof fn law_owners_leave_claims_alone<T>()
    ensures
        forall|queue: &mut Local<T>, task: T, out: Result<(), T>| #[trigger]
            call_ensures(Local::<T>::push_back, (queue, task), out) ==> {
                &&& (*final(queue)).capacity() == (*queue).capacity()
                &&& (*final(queue)).reserved() == (*queue).reserved()
                &&& (*final(queue)).claims() == (*queue).claims()
            },
        forall|queue: &mut Local<T>, out: Option<T>| #[trigger]
            call_ensures(Local::<T>::pop, (queue,), out) ==> {
                &&& (*final(queue)).capacity() == (*queue).capacity()
                &&& (*final(queue)).reserved() == (*queue).reserved()
                &&& (*final(queue)).claims() == (*queue).claims()
            },
        forall|queue: &mut Local<T>, room: usize, out: Option<Claim<T>>| #[trigger]
            call_ensures(Local::<T>::claim, (queue, room), out) ==> {
                &&& (*final(queue)).capacity() == (*queue).capacity()
            },
        forall|queue: &mut Local<T>, task: T, overflow: &mut Vec<T>, out: Result<(), Blocked<T>>|
            #[trigger]
            call_ensures(Local::<T>::push_overflow, (queue, task, overflow), out) ==> {
                &&& (*final(queue)).capacity() == (*queue).capacity()
            },
        forall|injector: &mut Injector<T>, task: T| #[trigger]
            call_ensures(Injector::<T>::push, (injector, task), ()) ==> {
                &&& (*final(injector)).closed() == (*injector).closed()
            },
        forall|injector: &mut Injector<T>, out: Option<T>| #[trigger]
            call_ensures(Injector::<T>::pop, (injector,), out) ==> {
                &&& (*final(injector)).closed() == (*injector).closed()
            },
        forall|injector: &mut Injector<T>, limit: usize, out: Vec<T>| #[trigger]
            call_ensures(Injector::<T>::pop_n, (injector, limit), out) ==> {
                &&& (*final(injector)).closed() == (*injector).closed()
            },
{
}

/// On one thread, entering, leaving and closing change that alone; taking a task changes the
/// queues and the count of rounds; queuing one changes the queues.
pub proof fn law_one_thread_changes_what_it_concerns<T>()
    ensures
        forall|scheduler: &mut CurrentThread<T>, thread: u64| #[trigger]
            call_ensures(CurrentThread::<T>::enter, (scheduler, thread), ()) ==> {
                &&& (*final(scheduler))@.local == (*scheduler)@.local
                &&& (*final(scheduler))@.injection == (*scheduler)@.injection
                &&& (*final(scheduler))@.deferred == (*scheduler)@.deferred
                &&& (*final(scheduler))@.owner_thread == (*scheduler)@.owner_thread
                &&& (*final(scheduler))@.tick == (*scheduler)@.tick
                &&& (*final(scheduler))@.closed == (*scheduler)@.closed
                &&& (*final(scheduler))@.shutdown_complete == (*scheduler)@.shutdown_complete
            },
        forall|scheduler: &mut CurrentThread<T>, thread: u64| #[trigger]
            call_ensures(CurrentThread::<T>::leave, (scheduler, thread), ()) ==> {
                &&& (*final(scheduler))@.local == (*scheduler)@.local
                &&& (*final(scheduler))@.injection == (*scheduler)@.injection
                &&& (*final(scheduler))@.deferred == (*scheduler)@.deferred
                &&& (*final(scheduler))@.owner_thread == (*scheduler)@.owner_thread
                &&& (*final(scheduler))@.tick == (*scheduler)@.tick
                &&& (*final(scheduler))@.closed == (*scheduler)@.closed
                &&& (*final(scheduler))@.shutdown_complete == (*scheduler)@.shutdown_complete
            },
        forall|scheduler: &mut CurrentThread<T>, out: bool| #[trigger]
            call_ensures(CurrentThread::<T>::close, (scheduler,), out) ==> {
                &&& (*final(scheduler))@.local == (*scheduler)@.local
                &&& (*final(scheduler))@.injection == (*scheduler)@.injection
                &&& (*final(scheduler))@.deferred == (*scheduler)@.deferred
                &&& (*final(scheduler))@.owner == (*scheduler)@.owner
                &&& (*final(scheduler))@.owner_thread == (*scheduler)@.owner_thread
                &&& (*final(scheduler))@.tick == (*scheduler)@.tick
                &&& (*final(scheduler))@.shutdown_complete == (*scheduler)@.shutdown_complete
                &&& (*final(scheduler))@.closed
                &&& out == !(*scheduler)@.closed
            },
        forall|scheduler: &mut CurrentThread<T>, task: T, thread: u64, out: Enqueued| #[trigger]
            call_ensures(CurrentThread::<T>::enqueue, (scheduler, task, thread), out) ==> {
                &&& (*final(scheduler))@.deferred == (*scheduler)@.deferred
                &&& (*final(scheduler))@.owner == (*scheduler)@.owner
                &&& (*final(scheduler))@.owner_thread == (*scheduler)@.owner_thread
                &&& (*final(scheduler))@.tick == (*scheduler)@.tick
                &&& (*final(scheduler))@.closed == (*scheduler)@.closed
                &&& (*final(scheduler))@.shutdown_complete == (*scheduler)@.shutdown_complete
            },
        forall|scheduler: &mut CurrentThread<T>, out: Option<T>| #[trigger]
            call_ensures(CurrentThread::<T>::next_task, (scheduler,), out) ==> {
                &&& (*final(scheduler))@.owner == (*scheduler)@.owner
                &&& (*final(scheduler))@.owner_thread == (*scheduler)@.owner_thread
                &&& (*final(scheduler))@.closed == (*scheduler)@.closed
                &&& (*final(scheduler))@.shutdown_complete == (*scheduler)@.shutdown_complete
            },
        forall|scheduler: &mut CurrentThread<T>, task: T, thread: u64, out: Deferred<T>| #[trigger]
            call_ensures(CurrentThread::<T>::defer_dealloc, (scheduler, task, thread), out) ==> {
                &&& (*final(scheduler))@.local == (*scheduler)@.local
                &&& (*final(scheduler))@.injection == (*scheduler)@.injection
                &&& (*final(scheduler))@.owner == (*scheduler)@.owner
                &&& (*final(scheduler))@.owner_thread == (*scheduler)@.owner_thread
                &&& (*final(scheduler))@.tick == (*scheduler)@.tick
                &&& (*final(scheduler))@.closed == (*scheduler)@.closed
                &&& (*final(scheduler))@.shutdown_complete == (*scheduler)@.shutdown_complete
            },
        forall|scheduler: &mut CurrentThread<T>, out: Option<T>| #[trigger]
            call_ensures(CurrentThread::<T>::drain_next, (scheduler,), out) ==> {
                &&& (*final(scheduler))@.owner == (*scheduler)@.owner
                &&& (*final(scheduler))@.owner_thread == (*scheduler)@.owner_thread
                &&& (*final(scheduler))@.tick == (*scheduler)@.tick
                &&& (*final(scheduler))@.closed == (*scheduler)@.closed
            },
        forall|scheduler: &mut CurrentThread<T>, phase: &mut Phase, woken: &mut bool,
            out: RootStep<T>| #[trigger]
            call_ensures(CurrentThread::<T>::root_step, (scheduler, phase, woken), out) ==> {
                &&& (*final(scheduler))@.owner == (*scheduler)@.owner
                &&& (*final(scheduler))@.owner_thread == (*scheduler)@.owner_thread
                &&& (*final(scheduler))@.closed == (*scheduler)@.closed
                &&& (*final(scheduler))@.shutdown_complete == (*scheduler)@.shutdown_complete
            },
{
}

/// A scheduler of one thread begins empty, and says who may use it.
pub proof fn law_one_thread_begins_empty<T>()
    ensures
        forall|thread: u64, scheduler: CurrentThread<T>| #[trigger]
            call_ensures(CurrentThread::<T>::new, (thread,), scheduler) ==> {
                let s = scheduler@;
                &&& s.local.len() == 0 && s.injection.len() == 0 && s.deferred.len() == 0
                &&& s.owner is None && s.owner_thread == thread && s.tick == 0
                &&& !s.closed && !s.shutdown_complete
            },
        forall|scheduler: CurrentThread<T>, running: bool| #[trigger]
            call_ensures(CurrentThread::<T>::is_running, (&scheduler,), running) ==> (running
                <==> scheduler@.owner is Some),
        forall|scheduler: CurrentThread<T>, thread: u64, owner: bool| #[trigger]
            call_ensures(CurrentThread::<T>::is_owner_thread, (&scheduler, thread), owner) ==> (
            owner <==> scheduler@.owner == Some(thread) || (scheduler@.closed
                && scheduler@.owner_thread == thread)),
        forall|scheduler: CurrentThread<T>, free: bool| #[trigger]
            call_ensures(CurrentThread::<T>::can_dealloc_remotely, (&scheduler,), free) ==> (free
                <==> scheduler@.shutdown_complete),
{
}

} // verus!
