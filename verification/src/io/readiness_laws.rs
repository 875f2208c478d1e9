//! Who is woken by which report, and what is seen of a descriptor.

use crate::io::driver;
use crate::io::driver::{Event, IoModel, ReadyEvent, Slot, Waiter, WaiterState};
use crate::io::{Interest, Ready};
use vstd::prelude::*;

verus! {

/// A read is possible where there is something to read, the reading side is closed or there
/// is an error; a write where there is room, the writing side is closed or there is an
/// error. An interest is satisfied by what it asks for, in either direction.
pub proof fn law_what_satisfies_an_interest(interest: Interest, ready: Ready)
    ensures
        interest.wants_read() <==> interest.0 & 1 == 1,
        interest.wants_write() <==> interest.0 & 2 == 2,
        ready.allows_read() <==> ready.0 & 1 == 1 || ready.0 & 4 == 4 || ready.0 & 16 == 16,
        ready.allows_write() <==> ready.0 & 2 == 2 || ready.0 & 8 == 8 || ready.0 & 16 == 16,
        driver::satisfied_by(interest, ready) <==> (interest.0 & 1 == 1 && (ready.0 & 1 == 1
            || ready.0 & 4 == 4 || ready.0 & 16 == 16)) || (interest.0 & 2 == 2 && (ready.0 & 2
            == 2 || ready.0 & 8 == 8 || ready.0 & 16 == 16)),
{
    let i = interest.0;
    let r = ready.0;
    assert(i & 1 != 0 <==> i & 1 == 1) by (bit_vector);
    assert(i & 2 != 0 <==> i & 2 == 2) by (bit_vector);
    assert(r & 21 != 0 <==> r & 1 == 1 || r & 4 == 4 || r & 16 == 16) by (bit_vector);
    assert(r & 26 != 0 <==> r & 2 == 2 || r & 8 == 8 || r & 16 == 16) by (bit_vector);
}

/// What is seen without waiting is the readiness as it is and the registration that it is
/// about, exactly where it satisfies the interest; after a shutdown, that both sides are
/// closed and in error.
pub proof fn law_what_is_seen(io: IoModel, interest: Interest)
    ensures
        ({
            let seen = io.seen(interest);
            &&& io.shutdown ==> seen is Some && seen->0.ready.0 & 4 == 4 && seen->0.ready.0 & 8
                == 8 && seen->0.ready.0 & 16 == 16 && seen->0.ready.0 & 3 == 0
            &&& !io.shutdown ==> (seen is Some <==> driver::satisfied_by(interest, io.ready))
            &&& !io.shutdown && seen is Some ==> seen->0.ready == io.ready
            &&& seen is Some ==> seen->0.generation == io.generation
        }),
{
    assert((4u16 | 8 | 16) & 4 == 4 && (4u16 | 8 | 16) & 8 == 8 && (4u16 | 8 | 16) & 16 == 16 && (
    4u16 | 8 | 16) & 3 == 0) by (bit_vector);
}

/// Whether someone who waits for that readiness is to be woken by that waker.
pub open spec fn concerned(io: IoModel, ready: Ready, waker: u64) -> bool {
    exists|i: int|
        {
            &&& 0 <= i < io.waiting().len()
            &&& (#[trigger] io.waiting()[i]).waker == waker
            &&& driver::satisfied_by(io.waiting()[i].interest, ready)
        }
}

/// A report adds its readiness to what was known. It wakes exactly those who wait for it,
/// once each, those in the slots before those in the list; all others go on waiting.
pub proof fn law_reports_wake_whom_they_concern(io: IoModel, ready: Ready, waiter: Waiter)
    requires
        io.wf(),
    ensures
        ({
            let after = io.notified(ready);
            let satisfied = driver::satisfied_by(waiter.interest, ready);
            &&& after.ready.0 == io.ready.0 | ready.0
            &&& after.generation == io.generation && after.shutdown == io.shutdown
            &&& io.waiting().contains(waiter) ==> (after.waiting().contains(waiter)
                <==> !satisfied)
            &&& after.waiting().contains(waiter) ==> io.waiting().contains(waiter)
            &&& io.waiting().contains(waiter) && satisfied ==> io.woken(ready).contains(
                waiter.waker,
            )
            &&& io.woken(ready).len() + after.waiting().len() == io.waiting().len()
            &&& forall|k: int|
                0 <= k < io.woken(ready).len()
                    ==> concerned(io, ready, #[trigger] io.woken(ready)[k])
            &&& io.reader is Some
                && driver::satisfied_by(io.reader->0.interest, ready) ==> io.woken(
                ready,
            ).len() > 0 && io.woken(ready)[0] == io.reader->0.waker
        }),
{
    driver::law_reports_lose_no_wake(io, ready);
    let all = io.waiting();
    let wake = |w: Waiter| driver::satisfied_by(w.interest, ready);
    let keep = |w: Waiter| !driver::satisfied_by(w.interest, ready);
    lemma_split(all, ready);
    assert(driver::woken_of(all, ready) == all.filter(wake));
    assert(driver::kept_of(all, ready) == all.filter(keep));
    assert(io.notified(ready).waiting() == all.filter(keep));
    assert(io.woken(ready).len() == all.filter(wake).len());
    assert forall|k: int| 0 <= k < io.woken(ready).len() implies concerned(
        io,
        ready,
        #[trigger] io.woken(ready)[k],
    ) by {
        let w = all.filter(wake)[k];
        lemma_from(all, wake, k);
        let i = choose|i: int| 0 <= i < all.len() && all[i] == w;
        assert(io.waiting()[i].waker == io.woken(ready)[k]);
    }
    if all.contains(waiter) {
        let i = choose|i: int| 0 <= i < all.len() && all[i] == waiter;
        if driver::satisfied_by(waiter.interest, ready) {
            assert(io.woken(ready).contains(all[i].waker));
            if all.filter(keep).contains(waiter) {
                let k = choose|k: int|
                    0 <= k < all.filter(keep).len() && all.filter(keep)[k] == waiter;
                lemma_from(all, keep, k);
            }
        } else {
            all.lemma_filter_contains(keep, i);
        }
    }
    if all.filter(keep).contains(waiter) {
        let k = choose|k: int| 0 <= k < all.filter(keep).len() && all.filter(keep)[k] == waiter;
        lemma_from(all, keep, k);
    }
    if let Some(reader) = io.reader {
        if driver::satisfied_by(reader.interest, ready) {
            let rest = driver::slot_waiters(io.writer) + io.list;
            assert(all =~= seq![reader] + rest);
            lemma_first(seq![reader], rest, wake);
        }
    }
}

/// What a filter keeps was there and is what it keeps.
proof fn lemma_from(all: Seq<Waiter>, pick: spec_fn(Waiter) -> bool, k: int)
    requires
        0 <= k < all.filter(pick).len(),
    ensures
        all.contains(all.filter(pick)[k]),
        pick(all.filter(pick)[k]),
    decreases all.len(),
{
    reveal(Seq::filter);
    if all.len() > 0 {
        let rest = all.drop_last();
        if k < rest.filter(pick).len() {
            lemma_from(rest, pick, k);
            let w = rest.filter(pick)[k];
            let i = choose|i: int| 0 <= i < rest.len() && rest[i] == w;
            assert(all[i] == w);
        } else {
            assert(all[all.len() - 1] == all.last());
        }
    }
}

/// Everyone is either woken or goes on waiting.
proof fn lemma_split(all: Seq<Waiter>, ready: Ready)
    ensures
        driver::woken_of(all, ready).len() + driver::kept_of(all, ready).len() == all.len(),
    decreases all.len(),
{
    reveal(Seq::filter);
    if all.len() > 0 {
        lemma_split(all.drop_last(), ready);
    }
}

/// A filter that keeps the first keeps it first.
proof fn lemma_first(a: Seq<Waiter>, b: Seq<Waiter>, pick: spec_fn(Waiter) -> bool)
    requires
        a.len() == 1,
        pick(a[0]),
    ensures
        (a + b).filter(pick).len() > 0,
        (a + b).filter(pick)[0] == a[0],
{
    Seq::filter_distributes_over_add(a, b, pick);
    reveal_with_fuel(Seq::filter, 2);
    assert(a.drop_last() =~= Seq::empty());
    assert(a.filter(pick) =~= a);
}

/// Clearing an event forgets the readiness exactly where it is still the one that was seen,
/// of the same registration. Nobody who waits is touched.
pub proof fn law_clearing(io: IoModel, event: ReadyEvent)
    ensures
        ({
            let after = io.cleared(event);
            let same = io.generation == event.generation && io.ready.0 == event.ready.0;
            &&& same ==> after.ready.0 == 0
            &&& !same ==> after == io
            &&& after.waiting() == io.waiting()
            &&& after.reader == io.reader && after.writer == io.writer && after.list == io.list
            &&& after.generation == io.generation && after.shutdown == io.shutdown
        }),
{
}

/// A task that waits is entered with what it waits for and whom to wake, under a number of
/// its own: in the slot of a direction that it waits for, if that is free, and behind all
/// others in the list if not. Nobody else is touched.
pub proof fn law_waiting_tasks_are_entered(io: IoModel, interest: Interest, waker: u64)
    requires
        io.next_waiter < u64::MAX,
    ensures
        ({
            let after = io.joined(interest, waker);
            let place = io.place(interest, waker);
            let entered = match place {
                WaiterState::InSlot { waiter, .. } => waiter,
                WaiterState::InList { waiter } => waiter,
                WaiterState::Unregistered => Waiter { id: 0, waker: 0, interest: Interest(0) },
            };
            let reads = interest.0 & 1 != 0 && io.reader is None;
            let writes = !reads && interest.0 & 2 != 0 && io.writer is None;
            &&& entered.waker == waker && entered.interest == interest && entered.id
                == io.next_waiter
            &&& after.next_waiter == io.next_waiter + 1
            &&& reads ==> after.reader == Some(entered) && after.writer == io.writer && after.list
                == io.list && (place matches WaiterState::InSlot { slot, .. } && slot
                == Slot::Reader)
            &&& writes ==> after.writer == Some(entered) && after.reader == io.reader && after.list
                == io.list && (place matches WaiterState::InSlot { slot, .. } && slot
                == Slot::Writer)
            &&& !reads && !writes ==> after.list == io.list + seq![entered] && after.reader
                == io.reader && after.writer == io.writer && place is InList
            &&& after.ready == io.ready && after.generation == io.generation && after.shutdown
                == io.shutdown
        }),
{
    let entered = io.next(interest, waker);
    assert(io.list.push(entered) =~= io.list + seq![entered]);
}

/// A task that gives up its wait is gone, and nobody else is.
pub proof fn law_giving_up_touches_no_one_else(io: IoModel, state: WaiterState, other: Waiter)
    requires
        io.wf(),
        io.waiting().contains(other),
        match state {
            WaiterState::Unregistered => true,
            WaiterState::InSlot { waiter, .. } => waiter.id != other.id,
            WaiterState::InList { waiter } => waiter.id != other.id,
        },
    ensures
        io.detached(state).waiting().contains(other),
        io.detached(state).ready == io.ready,
{
    let all = io.waiting();
    let after = io.detached(state);
    let i = choose|i: int| 0 <= i < all.len() && all[i] == other;
    let a = driver::slot_waiters(io.reader).len() as int;
    let b = driver::slot_waiters(io.writer).len() as int;
    match state {
        WaiterState::Unregistered => {},
        WaiterState::InSlot { slot, waiter } => {
            let gone = all.len() - after.waiting().len();
            if i < a {
                assert(io.reader == Some(other));
                assert(after.waiting()[0] == other);
            } else if i < a + b {
                assert(io.writer == Some(other));
                let at = driver::slot_waiters(after.reader).len() as int;
                assert(after.waiting()[at] == other);
            } else {
                assert(io.list[i - a - b] == other);
                let at = driver::slot_waiters(after.reader).len() + driver::slot_waiters(
                    after.writer,
                ).len() + i - a - b;
                assert(after.waiting()[at] == other);
            }
        },
        WaiterState::InList { waiter } => {
            if i < a + b {
                assert(after.waiting()[i] == other);
            } else {
                let keep = |w: Waiter| w.id != waiter.id;
                assert(io.list[i - a - b] == other);
                io.list.lemma_filter_contains(keep, i - a - b);
                let k = choose|k: int|
                    0 <= k < io.list.filter(keep).len() && io.list.filter(keep)[k] == other;
                assert(after.waiting()[a + b + k] == other);
            }
        },
    }
}

/// A waiter that gives up is no longer there.
pub proof fn law_giving_up_is_final(io: IoModel, state: WaiterState)
    requires
        io.wf(),
    ensures
        match state {
            WaiterState::Unregistered => io.detached(state) == io,
            WaiterState::InSlot { slot, waiter } => {
                let kept = match slot {
                    Slot::Reader => io.detached(state).reader,
                    Slot::Writer => io.detached(state).writer,
                };
                kept is None || kept->0.id != waiter.id
            },
            WaiterState::InList { waiter } => forall|k: int|
                0 <= k < io.detached(state).list.len() ==> (
                #[trigger] io.detached(state).list[k]).id != waiter.id,
        },
{
    if let WaiterState::InList { waiter } = state {
        let keep = |w: Waiter| w.id != waiter.id;
        assert forall|k: int| 0 <= k < io.detached(state).list.len() implies (
        #[trigger] io.detached(state).list[k]).id != waiter.id by {
            lemma_from(io.list, keep, k);
        }
    }
}

/// A report of the kernel goes to the registration that it was asked for, where that is
/// still in its slot, and to no other.
pub proof fn law_events_go_to_their_registration(
    slots: Map<usize, u64>,
    ios: Map<u64, IoModel>,
    event: Event,
    other: u64,
)
    requires
        slots.contains_key(event.token.index),
        ios.contains_key(slots[event.token.index]),
        ios[slots[event.token.index]].generation == event.token.generation,
    ensures
        ({
            let id = slots[event.token.index];
            let after = driver::after_event(slots, ios, event);
            &&& after.contains_key(id)
            &&& after[id].ready.0 == ios[id].ready.0 | event.ready.0
            &&& driver::event_wakes(slots, ios, event) == ios[id].woken(event.ready)
            &&& other != id ==> after.contains_key(other) == ios.contains_key(other)
            &&& other != id && ios.contains_key(other) ==> after[other] == ios[other]
        }),
{
}

/// A descriptor that was just registered is not ready, and no one waits for it.
pub proof fn law_fresh_registrations(generation: u32)
    ensures
        ({
            let io = driver::fresh(generation);
            &&& io.generation == generation
            &&& io.ready.0 == 0
            &&& !io.shutdown
            &&& io.waiting().len() == 0
        }),
{
}

} // verus!
