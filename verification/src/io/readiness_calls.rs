//! What calls on the driver, its registrations and sockets do, in terms of what goes in and
//! comes out.

use crate::io::driver;
use crate::io::driver::{
    Driver, Event, ParkAction, ParkState, Readiness, ReadyEvent, Registration, ScheduledIo,
    UnparkAction, Waiter,
};
use crate::io::net;
use crate::io::net::{AddressAttempts, ConnectStep, Evented};
use crate::io::readiness_laws;
use crate::io::{Interest, IoError, Ready, SystemError};
use crate::poll::Poll;
use vstd::prelude::*;

verus! {

// ---------------------------------------------------------------------------
// Interests and readiness
// ---------------------------------------------------------------------------

/// Whether a bit of readiness is set.
pub open spec fn has(bits: u16, one: u16) -> bool {
    bits & one == one
}

/// Each interest is one of its own: reading, writing, and to be told once for each change.
pub proof fn law_interests_have_their_own_bits()
    ensures
        forall|a: Interest| #[trigger] call_ensures(Interest::readable, (), a) ==> a.0 == 1,
        forall|a: Interest| #[trigger] call_ensures(Interest::writable, (), a) ==> a.0 == 2,
        forall|a: Interest| #[trigger] call_ensures(Interest::edge_triggered, (), a) ==> a.0 == 4,
        forall|a: Interest, b: Interest, both: Interest| #[trigger]
            call_ensures(Interest::add, (a, b), both) ==> both.0 == a.0 | b.0,
        forall|a: Interest, yes: bool| #[trigger]
            call_ensures(Interest::is_readable, (&a,), yes) ==> (yes <==> a.0 & 1 != 0),
        forall|a: Interest, yes: bool| #[trigger]
            call_ensures(Interest::is_writable, (&a,), yes) ==> (yes <==> a.0 & 2 != 0),
        forall|a: Interest, yes: bool| #[trigger]
            call_ensures(Interest::is_edge_triggered, (a,), yes) ==> (yes <==> a.0 & 4 != 0),
{
}

/// Each kind of readiness has a bit of its own. A read would not block where there is data,
/// where its side is closed, and where there is an error; a write where there is room, where
/// its side is closed, and where there is an error. A side in error is closed.
pub proof fn law_readiness_has_its_own_bits()
    ensures
        forall|a: Ready| #[trigger] call_ensures(Ready::empty, (), a) ==> a.0 == 0,
        forall|a: Ready| #[trigger] call_ensures(Ready::readable, (), a) ==> a.0 == 1,
        forall|a: Ready| #[trigger] call_ensures(Ready::writable, (), a) ==> a.0 == 2,
        forall|a: Ready| #[trigger] call_ensures(Ready::read_closed, (), a) ==> a.0 == 4,
        forall|a: Ready| #[trigger] call_ensures(Ready::write_closed, (), a) ==> a.0 == 8,
        forall|a: Ready| #[trigger] call_ensures(Ready::error, (), a) ==> a.0 == 16,
        forall|a: Ready, yes: bool| #[trigger]
            call_ensures(Ready::is_readable, (&a,), yes) ==> (yes <==> has(a.0, 1) || has(a.0, 4)
                || has(a.0, 16)),
        forall|a: Ready, yes: bool| #[trigger]
            call_ensures(Ready::is_writable, (&a,), yes) ==> (yes <==> has(a.0, 2) || has(a.0, 8)
                || has(a.0, 16)),
        forall|a: Ready, yes: bool| #[trigger]
            call_ensures(Ready::is_read_closed, (&a,), yes) ==> (yes <==> has(a.0, 4) || has(
                a.0,
                16,
            )),
        forall|a: Ready, yes: bool| #[trigger]
            call_ensures(Ready::is_write_closed, (&a,), yes) ==> (yes <==> has(a.0, 8) || has(
                a.0,
                16,
            )),
        forall|a: Ready, yes: bool| #[trigger]
            call_ensures(Ready::is_error, (&a,), yes) ==> (yes <==> has(a.0, 16)),
        forall|a: Ready, b: Ready, yes: bool| #[trigger]
            call_ensures(Ready::contains, (&a, b), yes) ==> (yes <==> has(a.0, b.0)),
        forall|a: Ready, b: Ready, both: Ready| #[trigger]
            call_ensures(Ready::union, (&a, b), both) ==> both.0 == a.0 | b.0,
        forall|a: Ready, b: Ready, common: Ready| #[trigger]
            call_ensures(Ready::intersection, (&a, b), common) ==> common.0 == a.0 & b.0,
        forall|a: Ready, bits: u16| #[trigger] call_ensures(Ready::bits, (a,), bits)
            ==> bits == a.0,
        forall|bits: u16, a: Ready| #[trigger]
            call_ensures(Ready::from_bits, (bits,), a) ==> a.0 == bits,
{
    assert(forall|x: u16| #[trigger]
        (x & 21) != 0 <==> (x & 1 == 1 || x & 4 == 4 || x & 16 == 16)) by (bit_vector);
    assert(forall|x: u16| #[trigger]
        (x & 26) != 0 <==> (x & 2 == 2 || x & 8 == 8 || x & 16 == 16)) by (bit_vector);
    assert(forall|x: u16| #[trigger] (x & 20) != 0 <==> (x & 4 == 4 || x & 16 == 16))
        by (bit_vector);
    assert(forall|x: u16| #[trigger] (x & 24) != 0 <==> (x & 8 == 8 || x & 16 == 16))
        by (bit_vector);
    assert(forall|x: u16| #[trigger] (x & 16) != 0 <==> (x & 16 == 16)) by (bit_vector);
}

// ---------------------------------------------------------------------------
// Registrations
// ---------------------------------------------------------------------------

/// What is reported of a registration is added to what is known, and wakes whoever waits for
/// it, exactly as told; what was seen is cleared only where it is still what is known.
pub proof fn law_reporting()
    ensures
        forall|io: &mut ScheduledIo, ready: Ready, woken: Vec<u64>| #[trigger]
            call_ensures(ScheduledIo::set_readiness_and_wake, (io, ready), woken)
                && (*io)@.wf() ==> {
                &&& (*final(io))@.ready.0 == (*io)@.ready.0 | ready.0
                &&& woken@ == (*io)@.woken(ready)
                &&& woken@.len() + (*final(io))@.waiting().len() == (*io)@.waiting().len()
            },
        forall|io: &mut ScheduledIo, generation: u32, ready: Ready| #[trigger]
            call_ensures(ScheduledIo::clear_ready, (io, generation, ready), ()) ==> {
                let same = (*io)@.generation == generation && (*io)@.ready.0 == ready.0;
                &&& same ==> (*final(io))@.ready.0 == 0
                &&& !same ==> (*final(io))@.ready == (*io)@.ready
                &&& (*final(io))@.waiting() == (*io)@.waiting()
            },
        forall|io: ScheduledIo, interest: Interest, event: Option<ReadyEvent>| #[trigger]
            call_ensures(ScheduledIo::readiness, (&io, interest), event) ==> event == io@.seen(
                interest,
            ),
{
    assert forall|io: &mut ScheduledIo, ready: Ready, woken: Vec<u64>| #[trigger]
        call_ensures(ScheduledIo::set_readiness_and_wake, (io, ready), woken)
            && (*io)@.wf() implies {
        &&& (*final(io))@.ready.0 == (*io)@.ready.0 | ready.0
        &&& woken@ == (*io)@.woken(ready)
        &&& woken@.len() + (*final(io))@.waiting().len() == (*io)@.waiting().len()
    } by {
        readiness_laws::law_reports_wake_whom_they_concern(
            (*io)@,
            ready,
            Waiter { id: 0, waker: 0, interest: Interest(0) },
        );
    }
}

/// A registration that ends is gone, with its slot, and is handed back as it was; the others
/// stay where they are.
pub proof fn law_ending_a_registration()
    ensures
        forall|driver: &mut Driver, id: u64, back: Option<ScheduledIo>, other: u64|
            #![trigger call_ensures(Driver::deregister, (driver, id), back), (*final(driver)).ios().contains_key(other)]
            call_ensures(Driver::deregister, (driver, id), back) ==> {
                let before = (*driver).ios();
                let after = (*final(driver)).ios();
                &&& back is Some <==> before.contains_key(id)
                &&& back is Some ==> back->0@ == before[id]
                &&& after.contains_key(other) <==> other != id && before.contains_key(other)
                &&& after.contains_key(other) ==> after[other] == before[other]
            },
        forall|driver: &mut Driver, id: u64, back: Option<ScheduledIo>, index: usize|
            #![trigger call_ensures(Driver::deregister, (driver, id), back), (*final(driver)).slots().contains_key(index)]
            call_ensures(Driver::deregister, (driver, id), back) ==> {
                let before = (*driver).slots();
                let after = (*final(driver)).slots();
                &&& after.contains_key(index) <==> before.contains_key(index) && before[index]
                    != id
                &&& after.contains_key(index) ==> after[index] == before[index]
            },
{
}

/// An event reaches the registration of its token where that is still the one in the slot,
/// and no one else; several events do so one after the other.
pub proof fn law_handing_out_events()
    ensures
        forall|driver: &mut Driver, event: Event, woken: Vec<u64>, other: u64|
            #![trigger call_ensures(Driver::dispatch_event, (driver, event), woken), (*final(driver)).ios().contains_key(other)]
            call_ensures(Driver::dispatch_event, (driver, event), woken) && driver::registry_ok(
            (*driver).slots(),
            (*driver).ios(),
            (*driver).next_number(),
        ) ==> {
                let before = (*driver).ios();
                let after = (*final(driver)).ios();
                let slots = (*driver).slots();
                let id = slots[event.token.index];
                let met = slots.contains_key(event.token.index) && before.contains_key(id)
                    && before[id].generation == event.token.generation;
                &&& met ==> after[id].ready.0 == before[id].ready.0 | event.ready.0 && woken@
                    == before[id].woken(event.ready)
                &&& !met ==> after == before && woken@.len() == 0
                &&& !(met && other == id) ==> after.contains_key(other) == before.contains_key(
                    other,
                ) && (before.contains_key(other) ==> after[other] == before[other])
            },
        forall|driver: &mut Driver, events: &Vec<Event>, woken: Vec<u64>| #[trigger]
            call_ensures(Driver::dispatch, (driver, events), woken) ==> {
                &&& (*final(driver)).slots() == (*driver).slots()
                &&& (*final(driver)).ios() == driver::after_events(
                    (*driver).slots(),
                    (*driver).ios(),
                    events@,
                )
                &&& woken@ == driver::events_wake((*driver).slots(), (*driver).ios(), events@)
            },
{
    assert forall|driver: &mut Driver, event: Event, woken: Vec<u64>, other: u64|
        #![trigger call_ensures(Driver::dispatch_event, (driver, event), woken), (*final(driver)).ios().contains_key(other)]
        call_ensures(Driver::dispatch_event, (driver, event), woken) && driver::registry_ok(
            (*driver).slots(),
            (*driver).ios(),
            (*driver).next_number(),
        ) implies {
        let before = (*driver).ios();
        let after = (*final(driver)).ios();
        let slots = (*driver).slots();
        let id = slots[event.token.index];
        let met = slots.contains_key(event.token.index) && before.contains_key(id)
            && before[id].generation == event.token.generation;
        &&& met ==> after[id].ready.0 == before[id].ready.0 | event.ready.0 && woken@
            == before[id].woken(event.ready)
        &&& !met ==> after == before && woken@.len() == 0
        &&& !(met && other == id) ==> after.contains_key(other) == before.contains_key(other) && (
        before.contains_key(other) ==> after[other] == before[other])
    } by {
        let before = (*driver).ios();
        let slots = (*driver).slots();
        let id = slots[event.token.index];
        if slots.contains_key(event.token.index) && before.contains_key(id)
            && before[id].generation == event.token.generation {
            readiness_laws::law_events_go_to_their_registration(slots, before, event, other);
        }
    }
}

/// Events in two batches are events in one.
pub proof fn law_events_come_in_order(
    slots: Map<usize, u64>,
    ios: Map<u64, driver::IoModel>,
    first: Seq<Event>,
    then: Seq<Event>,
)
    ensures
        driver::after_events(slots, ios, Seq::empty()) == ios,
        driver::events_wake(slots, ios, Seq::empty()).len() == 0,
        driver::after_events(slots, ios, first + then) == driver::after_events(
            slots,
            driver::after_events(slots, ios, first),
            then,
        ),
        driver::events_wake(slots, ios, first + then) == driver::events_wake(slots, ios, first)
            + driver::events_wake(slots, driver::after_events(slots, ios, first), then),
    decreases then.len(),
{
    if then.len() == 0 {
        assert(first + then =~= first);
    } else {
        assert((first + then).drop_last() =~= first + then.drop_last());
        law_events_come_in_order(slots, ios, first, then.drop_last());
        let middle = driver::after_events(slots, ios, first);
        let a = driver::events_wake(slots, ios, first);
        let b = driver::events_wake(slots, middle, then.drop_last());
        let c = driver::event_wakes(
            slots,
            driver::after_events(slots, middle, then.drop_last()),
            then.last(),
        );
        assert((a + b) + c =~= a + (b + c));
    }
}

/// A wait ends where the descriptor is ready for it, and is entered otherwise; whoever gives
/// it up is in no slot and no list any more.
pub proof fn law_waiting_for_a_registration()
    ensures
        forall|
            driver: &mut Driver,
            id: u64,
            wait: &mut Readiness,
            waker: u64,
            poll: Poll<ReadyEvent>,
        | #[trigger]
            call_ensures(Driver::poll_readiness, (driver, id, wait, waker), poll) ==> {
                let io = (*driver).ios()[id];
                &&& poll is Ready <==> io.seen((*wait).interests) is Some
                &&& poll is Ready ==> poll->Ready_0 == io.seen((*wait).interests)->0
                    && (*final(wait)).state is Unregistered
                &&& poll is Pending ==> !((*final(wait)).state is Unregistered)
                &&& (*final(wait)).interests == (*wait).interests
            },
        forall|driver: &mut Driver, id: u64, wait: &mut Readiness| #[trigger]
            call_ensures(Driver::give_up, (driver, id, wait), ()) ==> {
                &&& (*final(wait)).state is Unregistered
                &&& (*driver).ios().contains_key(id) ==> (*final(driver)).ios()[id].ready
                    == (*driver).ios()[id].ready
                &&& !(*driver).ios().contains_key(id) ==> (*final(driver)).ios()
                    == (*driver).ios()
            },
{
}

/// An outcome is passed on as it is. One that would have blocked clears what is seen.
pub proof fn law_passing_outcomes_on<R>()
    ensures
        forall|
            registration: Registration,
            driver: &mut Driver,
            interest: Interest,
            result: Result<R, IoError>,
            outcome: Result<R, IoError>,
        | #[trigger]
            call_ensures(
                Registration::try_io_with::<R>,
                (&registration, driver, interest, result),
                outcome,
            ) && (*driver).ios().contains_key(registration.id) ==> {
                let before = (*driver).ios()[registration.id];
                let after = (*final(driver)).ios()[registration.id];
                let blocked = result is Err && result->Err_0.kind is WouldBlock;
                &&& outcome == result
                &&& !blocked ==> after == before
                &&& blocked && before.seen(interest) is Some ==> after.ready.0 == 0
                    || after.ready == before.ready
                &&& blocked && before.seen(interest) is None ==> after == before
                &&& after.waiting() == before.waiting()
            },
{
}

/// What is done to a registration leaves the slots, the numbers and the generation of the
/// driver alone.
pub proof fn law_the_driver_keeps_its_slots()
    ensures
        forall|driver: &mut Driver, event: Event, out: Vec<u64>| #[trigger]
            call_ensures(Driver::dispatch_event, (driver, event), out) ==> {
                &&& (*final(driver)).generation() == (*driver).generation()
                &&& (*final(driver)).next_number() == (*driver).next_number()
                &&& (*final(driver)).slots() == (*driver).slots()
            },
        forall|driver: &mut Driver, events: &Vec<Event>, out: Vec<u64>| #[trigger]
            call_ensures(Driver::dispatch, (driver, events), out) ==> {
                &&& (*final(driver)).generation() == (*driver).generation()
                &&& (*final(driver)).next_number() == (*driver).next_number()
                &&& (*final(driver)).slots() == (*driver).slots()
            },
        forall|driver: &mut Driver, id: u64, wait: &mut Readiness, waker: u64,
            out: Poll<ReadyEvent>| #[trigger]
            call_ensures(Driver::poll_readiness, (driver, id, wait, waker), out) ==> {
                &&& (*final(driver)).generation() == (*driver).generation()
                &&& (*final(driver)).next_number() == (*driver).next_number()
                &&& (*final(driver)).slots() == (*driver).slots()
            },
        forall|driver: &mut Driver, id: u64, wait: &mut Readiness| #[trigger]
            call_ensures(Driver::give_up, (driver, id, wait), ()) ==> {
                &&& (*final(driver)).generation() == (*driver).generation()
                &&& (*final(driver)).next_number() == (*driver).next_number()
                &&& (*final(driver)).slots() == (*driver).slots()
            },
        forall|driver: &mut Driver, id: u64, interest: Interest| #[trigger]
            call_ensures(Driver::clear_seen, (driver, id, interest), ()) ==> {
                &&& (*final(driver)).generation() == (*driver).generation()
                &&& (*final(driver)).next_number() == (*driver).next_number()
                &&& (*final(driver)).slots() == (*driver).slots()
            },
        forall|driver: &mut Driver, id: u64, event: ReadyEvent| #[trigger]
            call_ensures(Driver::clear_event, (driver, id, event), ()) ==> {
                &&& (*final(driver)).generation() == (*driver).generation()
                &&& (*final(driver)).next_number() == (*driver).next_number()
                &&& (*final(driver)).slots() == (*driver).slots()
            },
        forall|driver: &mut Driver, id: u64, out: Option<ScheduledIo>| #[trigger]
            call_ensures(Driver::deregister, (driver, id), out) ==> {
                &&& (*final(driver)).generation() == (*driver).generation()
                &&& (*final(driver)).next_number() == (*driver).next_number()
            },
{
}

// ---------------------------------------------------------------------------
// Parking
// ---------------------------------------------------------------------------

/// One worker at a time waits in the kernel, or lets the time go on where that is paused;
/// the others sleep. When it goes on, one of those who sleep is called to take over. Whoever
/// sleeps is called before the kernel is interrupted.
pub proof fn law_one_worker_waits_in_the_kernel()
    ensures
        forall|state: ParkState| #[trigger]
            call_ensures(ParkState::new, (), state) ==> state.holder is None && state.waiters == 0,
        forall|state: &mut ParkState, id: usize, paused: bool, action: ParkAction| #[trigger]
            call_ensures(ParkState::begin_park, (state, id, paused), action) ==> {
                let held = (*state).holder is Some;
                &&& action is Sleep <==> held
                &&& action is AdvanceTime <==> !held && paused
                &&& action is WaitInKernel <==> !held && !paused
                &&& !held ==> (*final(state)).holder is Some && (*final(state)).holder->0 == id
                    && (*final(state)).waiters == (*state).waiters
                &&& held ==> (*final(state)).holder == (*state).holder && (*final(state)).waiters
                    == (*state).waiters + 1
            },
        forall|state: &mut ParkState, action: ParkAction, notify: bool| #[trigger]
            call_ensures(ParkState::end_park, (state, action), notify) && (action is Sleep ==> (
            *state).waiters > 0) ==> {
                &&& notify <==> !(action is Sleep)
                &&& action is Sleep ==> (*final(state)).holder == (*state).holder
                    && (*final(state)).waiters + 1 == (*state).waiters
                &&& !(action is Sleep) ==> (*final(state)).holder is None
                    && (*final(state)).waiters == (*state).waiters
            },
        forall|state: ParkState, action: UnparkAction| #[trigger]
            call_ensures(ParkState::unpark, (&state,), action) ==> {
                &&& action is NotifyOne <==> state.waiters > 0
                &&& action is WakePoller <==> state.waiters == 0
            },
{
}

// ---------------------------------------------------------------------------
// Sockets
// ---------------------------------------------------------------------------

/// A connection that is on its way is waited for; any other reason is a failure, and told.
/// A socket whose own error is zero is connected. A datagram socket that was not connected
/// is shut down already.
pub proof fn law_connecting()
    ensures
        forall|code: Option<SystemError>, step: ConnectStep| #[trigger]
            call_ensures(net::connect_step, (code,), step) ==> {
                let on_its_way = code is Some && (code->0 is InProgress
                    || code->0 is AlreadyInProgress || code->0 is WouldBlock);
                &&& step is Connected <==> code is None
                &&& step is Wait <==> on_its_way
                &&& step is Failed ==> step->Failed_0 == code->0
            },
        forall|code: i32, result: Result<(), i32>| #[trigger]
            call_ensures(net::socket_error, (code,), result) ==> {
                &&& result is Ok <==> code == 0
                &&& result is Err ==> result->Err_0 == code
            },
        forall|result: Result<(), i32>, not_connected: i32, outcome: Result<(), i32>| #[trigger]
            call_ensures(net::datagram_shutdown, (result, not_connected), outcome) ==> {
                &&& outcome is Err <==> result is Err && result->Err_0 != not_connected
                &&& outcome is Err ==> outcome->Err_0 == result->Err_0
            },
        forall|error: IoError, yes: bool| #[trigger]
            call_ensures(net::would_block, (&error,), yes) ==> (yes <==> error.kind is WouldBlock),
        forall|result: Result<usize, IoError>, again: bool| #[trigger]
            call_ensures(net::interrupted::<usize>, (&result,), again) ==> (again
                <==> result is Err && result->Err_0.kind is Interrupted),
{
}

/// Lingering is on where a time is given, for so many seconds, or as many as fit. As many
/// buffers are taken as there are, up to the limit.
pub proof fn law_socket_settings()
    ensures
        forall|seconds: Option<u64>, option: (i32, i32)| #[trigger]
            call_ensures(net::linger_option, (seconds,), option) ==> {
                &&& option.0 == 1 <==> seconds is Some
                &&& option.0 == 0 <==> seconds is None
                &&& seconds is None ==> option.1 == 0
                &&& seconds is Some && seconds->0 <= 2147483647 ==> option.1 == seconds->0
                &&& seconds is Some && seconds->0 > 2147483647 ==> option.1 == 2147483647
            },
        forall|buffers: usize, limit: usize, count: usize| #[trigger]
            call_ensures(net::vector_count, (buffers, limit), count) ==> count <= buffers && count
                <= limit && (count == buffers || count == limit),
{
}

/// Addresses are tried one after the other, each once. Where all have failed, the last
/// failure is told; where there was none, that there is no address.
pub proof fn law_addresses_are_tried_in_turn()
    ensures
        forall|attempts: &mut AddressAttempts, next: Result<usize, IoError>| #[trigger]
            call_ensures(AddressAttempts::next, (attempts,), next) && (*attempts).wf() ==> {
                &&& next is Ok <==> (*attempts).tried() < (*attempts).total()
                &&& next is Ok ==> next->Ok_0 == (*attempts).tried() && (*final(attempts)).tried()
                    == (*attempts).tried() + 1
                &&& next is Err && (*attempts).latest() is Some ==> next->Err_0
                    == (*attempts).latest()->0
                &&& next is Err && (*attempts).latest() is None ==> next->Err_0.kind is InvalidInput
                &&& (*final(attempts)).total() == (*attempts).total()
            },
        forall|attempts: &mut AddressAttempts, error: IoError| #[trigger]
            call_ensures(AddressAttempts::failed, (attempts, error), ())
                ==> (*final(attempts)).latest() is Some
                && (*final(attempts)).latest()->0 == error
                && (*final(attempts)).tried() == (*attempts).tried(),
        forall|count: usize, attempts: AddressAttempts| #[trigger]
            call_ensures(AddressAttempts::new, (count,), attempts) ==> attempts.total() == count
                && attempts.tried() == 0 && attempts.latest() is None,
{
}

/// An operation that was tried ends with its outcome, unless it would have blocked: then it
/// waits again, and what promised otherwise is forgotten.
pub proof fn law_finishing_an_attempt<T>()
    ensures
        forall|
            evented: &mut Evented,
            driver: &mut Driver,
            id: u64,
            event: ReadyEvent,
            result: Result<T, IoError>,
            end: Option<Result<T, IoError>>,
        | #[trigger]
            call_ensures(Evented::finish::<T>, (evented, driver, id, event, result), end) && (
            *driver).ios().contains_key(id) ==> {
                let blocked = result is Err && result->Err_0.kind is WouldBlock;
                let before = (*driver).ios()[id];
                let after = (*final(driver)).ios()[id];
                &&& end is None <==> blocked
                &&& end is Some ==> end->0 == result && (*final(evented)).waiter is None && after
                    == before
                &&& blocked && before.generation == event.generation && before.ready.0
                    == event.ready.0 ==> after.ready.0 == 0
                &&& after.waiting() == before.waiting()
            },
        forall|evented: &mut Evented, driver: &mut Driver, id: u64| #[trigger]
            call_ensures(Evented::give_up, (evented, driver, id), ())
                ==> (*final(evented)).waiter is None
                && (*final(evented)).interest == (*evented).interest,
{
}

} // verus!
