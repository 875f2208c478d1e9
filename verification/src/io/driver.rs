//! The readiness driver: turns kernel events into wakes of tasks.
//!
//! Each registered descriptor has a [`ScheduledIo`] that keeps its readiness and the
//! tasks that wait for it. The [`Driver`] finds the right one for an event, and
//! decides which worker waits in the kernel.

use crate::io::slots;
use crate::io::slots::slab_get;
use crate::io::slots::slab_insert;
use crate::io::slots::slab_items;
use crate::io::slots::slab_remove;
use crate::io::slots::slab_with_capacity;
use crate::io::ErrorKind;
use crate::io::Interest;
use crate::io::IoError;
use crate::io::Ready;
use crate::poll::Poll;
use slab::Slab;
use std::collections::HashMap;
use vstd::prelude::*;

verus! {

broadcast use vstd::std_specs::hash::group_hash_axioms;

// ---------------------------------------------------------------------------
// One registered descriptor
// ---------------------------------------------------------------------------

/// Whether readiness is what an interest waits for: either direction of it.
pub open spec fn satisfied_by(interest: Interest, ready: Ready) -> bool {
    ||| interest.wants_read() && ready.allows_read()
    ||| interest.wants_write() && ready.allows_write()
}

/// Whether readiness is what an interest waits for.
pub fn interest_satisfied(interest: Interest, ready: Ready) -> (result: bool)
    ensures
        result == satisfied_by(interest, ready),
{
    match (interest.is_readable(), interest.is_writable()) {
        (true, false) => ready.is_readable(),
        (false, true) => ready.is_writable(),
        (true, true) => ready.is_readable() || ready.is_writable(),
        (false, false) => false,
    }
}

/// What two sets of readiness bits satisfy together, one of them satisfies.
pub proof fn law_satisfaction_splits(interest: Interest, a: Ready, b: Ready)
    ensures
        satisfied_by(interest, Ready(a.0 | b.0)) == (satisfied_by(interest, a) || satisfied_by(
            interest,
            b,
        )),
{
    let x = a.0;
    let y = b.0;
    assert((x | y) & 21 != 0 <==> (x & 21 != 0 || y & 21 != 0)) by (bit_vector);
    assert((x | y) & 26 != 0 <==> (x & 26 != 0 || y & 26 != 0)) by (bit_vector);
}

/// A task that waits: which waiter it is, whom to wake, and what for.
#[derive(Debug, Clone, Copy, PartialEq, Eq, Structural)]
pub struct Waiter {
    pub id: u64,
    pub waker: u64,
    pub interest: Interest,
}

/// The slot of a direction.
#[derive(Debug, Clone, Copy, PartialEq, Eq, Structural)]
pub enum Slot {
    Reader,
    Writer,
}

/// Where a waiting task is kept.
#[derive(Debug, Clone, Copy, PartialEq, Eq, Structural)]
pub enum WaiterState {
    Unregistered,
    InSlot { slot: Slot, waiter: Waiter },
    InList { waiter: Waiter },
}

/// The outcome of a wait: the readiness, and the registration that it is about.
#[derive(Debug, Clone, Copy, PartialEq, Eq, Structural)]
pub struct ReadyEvent {
    pub ready: Ready,
    pub generation: u32,
}

/// Those of the waiters that readiness wakes.
pub open spec fn woken_of(waiters: Seq<Waiter>, ready: Ready) -> Seq<Waiter> {
    waiters.filter(|waiter: Waiter| satisfied_by(waiter.interest, ready))
}

/// Those of the waiters that go on waiting.
pub open spec fn kept_of(waiters: Seq<Waiter>, ready: Ready) -> Seq<Waiter> {
    waiters.filter(|waiter: Waiter| !satisfied_by(waiter.interest, ready))
}

/// Those of the waiters that are not the one of that number.
pub open spec fn others_than(waiters: Seq<Waiter>, id: u64) -> Seq<Waiter> {
    waiters.filter(|waiter: Waiter| waiter.id != id)
}

/// A slot as a list of at most one waiter.
pub open spec fn slot_waiters(slot: Option<Waiter>) -> Seq<Waiter> {
    match slot {
        Some(waiter) => seq![waiter],
        None => Seq::empty(),
    }
}

/// The slot without the waiter that readiness wakes.
pub open spec fn slot_kept(slot: Option<Waiter>, ready: Ready) -> Option<Waiter> {
    match slot {
        Some(waiter) => if satisfied_by(waiter.interest, ready) {
            None
        } else {
            slot
        },
        None => None,
    }
}

/// The slot without the waiter of that number.
pub open spec fn slot_without(slot: Option<Waiter>, id: u64) -> Option<Waiter> {
    match slot {
        Some(waiter) => if waiter.id == id {
            None
        } else {
            slot
        },
        None => None,
    }
}

/// Whom to wake, in order.
pub open spec fn wakers(waiters: Seq<Waiter>) -> Seq<u64> {
    waiters.map_values(|waiter: Waiter| waiter.waker)
}

/// A descriptor's readiness and waiters, as a value.
#[verifier::ext_equal]
pub struct IoModel {
    pub generation: u32,
    pub ready: Ready,
    pub shutdown: bool,
    pub reader: Option<Waiter>,
    pub writer: Option<Waiter>,
    pub list: Seq<Waiter>,
    pub next_waiter: u64,
}

impl IoModel {
    /// Everyone who waits: the slots, then the list.
    pub open spec fn waiting(self) -> Seq<Waiter> {
        slot_waiters(self.reader) + slot_waiters(self.writer) + self.list
    }

    /// No one waits for what is ready already, the slots serve their own direction,
    /// and waiters can be told apart.
    pub open spec fn wf(self) -> bool {
        &&& forall|i: int|
            0 <= i < self.waiting().len() ==> !satisfied_by(
                (#[trigger] self.waiting()[i]).interest,
                self.ready,
            )
        &&& self.reader matches Some(waiter) ==> waiter.interest.wants_read()
        &&& self.writer matches Some(waiter) ==> waiter.interest.wants_write()
        &&& forall|i: int|
            0 <= i < self.waiting().len() ==> (#[trigger] self.waiting()[i]).id < self.next_waiter
        &&& forall|i: int, j: int|
            0 <= i < j < self.waiting().len() ==> (#[trigger] self.waiting()[i]).id != (
            #[trigger] self.waiting()[j]).id
    }

    /// What is seen without waiting. Once the driver has shut down, both sides are
    /// closed, with an error.
    pub open spec fn seen(self, interest: Interest) -> Option<ReadyEvent> {
        if self.shutdown {
            Some(ReadyEvent { ready: Ready(4u16 | 8 | 16), generation: self.generation })
        } else if satisfied_by(interest, self.ready) {
            Some(ReadyEvent { ready: self.ready, generation: self.generation })
        } else {
            None
        }
    }

    /// After readiness was reported: it is added, and those who waited for it are gone.
    pub open spec fn notified(self, ready: Ready) -> IoModel {
        IoModel {
            ready: Ready(self.ready.0 | ready.0),
            reader: slot_kept(self.reader, ready),
            writer: slot_kept(self.writer, ready),
            list: kept_of(self.list, ready),
            ..self
        }
    }

    /// Whom a report wakes: the reader, the writer and then the list, in order.
    pub open spec fn woken(self, ready: Ready) -> Seq<u64> {
        wakers(woken_of(self.waiting(), ready))
    }

    /// After an event was cleared. Nothing is cleared where the descriptor has been
    /// registered anew, or where other readiness was reported since.
    pub open spec fn cleared(self, event: ReadyEvent) -> IoModel {
        if self.generation == event.generation && self.ready == event.ready {
            IoModel { ready: Ready(0), ..self }
        } else {
            self
        }
    }

    /// After a waiter went away.
    pub open spec fn detached(self, state: WaiterState) -> IoModel {
        match state {
            WaiterState::Unregistered => self,
            WaiterState::InSlot { slot, waiter } => match slot {
                Slot::Reader => IoModel { reader: slot_without(self.reader, waiter.id), ..self },
                Slot::Writer => IoModel { writer: slot_without(self.writer, waiter.id), ..self },
            },
            WaiterState::InList { waiter } => IoModel {
                list: others_than(self.list, waiter.id),
                ..self
            },
        }
    }

    /// The next waiter.
    pub open spec fn next(self, interest: Interest, waker: u64) -> Waiter {
        Waiter { id: self.next_waiter, waker, interest }
    }

    /// Where the next waiter is put: in the slot of a direction that it waits for, if
    /// that is free, else at the end of the list.
    pub open spec fn place(self, interest: Interest, waker: u64) -> WaiterState {
        let waiter = self.next(interest, waker);
        if interest.wants_read() && self.reader is None {
            WaiterState::InSlot { slot: Slot::Reader, waiter }
        } else if interest.wants_write() && self.writer is None {
            WaiterState::InSlot { slot: Slot::Writer, waiter }
        } else {
            WaiterState::InList { waiter }
        }
    }

    /// After the next waiter was put in its place.
    pub open spec fn joined(self, interest: Interest, waker: u64) -> IoModel {
        let waiter = self.next(interest, waker);
        let next_waiter = (self.next_waiter + 1) as u64;
        match self.place(interest, waker) {
            WaiterState::InSlot { slot: Slot::Reader, .. } => IoModel {
                reader: Some(waiter),
                next_waiter,
                ..self
            },
            WaiterState::InSlot { slot: Slot::Writer, .. } => IoModel {
                writer: Some(waiter),
                next_waiter,
                ..self
            },
            _ => IoModel { list: self.list.push(waiter), next_waiter, ..self },
        }
    }
}

/// What is filtered was there, and stays distinct.
proof fn lemma_filter_distinct(all: Seq<Waiter>, keep: spec_fn(Waiter) -> bool)
    requires
        forall|i: int, j: int|
            0 <= i < j < all.len() ==> (#[trigger] all[i]).id != (#[trigger] all[j]).id,
    ensures
        forall|i: int|
            0 <= i < all.filter(keep).len() ==> all.contains(#[trigger] all.filter(keep)[i])
                && keep(all.filter(keep)[i]),
        forall|i: int, j: int|
            0 <= i < j < all.filter(keep).len() ==> (#[trigger] all.filter(keep)[i]).id != (
            #[trigger] all.filter(keep)[j]).id,
    decreases all.len(),
{
    reveal(Seq::filter);
    if all.len() > 0 {
        let rest = all.drop_last();
        let last = all.last();
        assert forall|i: int, j: int| 0 <= i < j < rest.len() implies (#[trigger] rest[i]).id != (
        #[trigger] rest[j]).id by {
            assert(all[i].id != all[j].id);
        }
        lemma_filter_distinct(rest, keep);
        let f = rest.filter(keep);
        assert forall|i: int| 0 <= i < f.len() implies all.contains(#[trigger] f[i]) && f[i].id
            != last.id by {
            let k = choose|k: int| 0 <= k < rest.len() && rest[k] == f[i];
            assert(all[k] == f[i]);
            assert(all[k].id != all[all.len() - 1].id);
        }
        assert(all.contains(last)) by {
            assert(all[all.len() - 1] == last);
        }
    }
}

/// Filtering a slot filters the list that it stands for.
proof fn lemma_slot_filter(slot: Option<Waiter>, keep: spec_fn(Waiter) -> bool)
    ensures
        slot_waiters(slot).filter(keep) == (match slot {
            Some(waiter) => if keep(waiter) {
                seq![waiter]
            } else {
                Seq::empty()
            },
            None => Seq::empty(),
        }),
{
    reveal_with_fuel(Seq::filter, 2);
    if let Some(waiter) = slot {
        assert(slot_waiters(slot).drop_last() =~= Seq::empty());
        assert(Seq::<Waiter>::empty().push(waiter) =~= seq![waiter]);
    }
}

/// Taking waiters out of a descriptor's slots and list keeps it in order.
proof fn lemma_filtered(before: IoModel, after: IoModel, keep: spec_fn(Waiter) -> bool)
    requires
        before.wf(),
        slot_waiters(after.reader) == slot_waiters(before.reader).filter(keep),
        slot_waiters(after.writer) == slot_waiters(before.writer).filter(keep),
        after.list == before.list.filter(keep),
        after.next_waiter == before.next_waiter,
        forall|waiter: Waiter| #[trigger] keep(waiter) && !satisfied_by(waiter.interest, before.ready)
            ==> !satisfied_by(waiter.interest, after.ready),
    ensures
        after.wf(),
        after.waiting() == before.waiting().filter(keep),
{
    let a = slot_waiters(before.reader);
    let b = slot_waiters(before.writer);
    Seq::filter_distributes_over_add(a, b, keep);
    Seq::filter_distributes_over_add(a + b, before.list, keep);
    let all = before.waiting();
    let rest = after.waiting();
    assert(rest =~= all.filter(keep));
    lemma_filter_distinct(all, keep);
    assert forall|i: int| 0 <= i < rest.len() implies !satisfied_by(
        (#[trigger] rest[i]).interest,
        after.ready,
    ) && rest[i].id < after.next_waiter by {
        let k = choose|k: int| 0 <= k < all.len() && all[k] == rest[i];
        assert(keep(rest[i]));
    }
    lemma_slot_filter(before.reader, keep);
    lemma_slot_filter(before.writer, keep);
    if let Some(waiter) = after.reader {
        assert(slot_waiters(after.reader)[0] == waiter);
        assert(before.reader == Some(waiter));
    }
    if let Some(waiter) = after.writer {
        assert(slot_waiters(after.writer)[0] == waiter);
        assert(before.writer == Some(waiter));
    }
}

/// A report keeps a descriptor in order, and takes out exactly those that it wakes.
pub proof fn law_reports_lose_no_wake(io: IoModel, ready: Ready)
    requires
        io.wf(),
    ensures
        io.notified(ready).wf(),
        io.notified(ready).waiting() == kept_of(io.waiting(), ready),
        forall|i: int|
            0 <= i < io.waiting().len() && satisfied_by(
                (#[trigger] io.waiting()[i]).interest,
                ready,
            ) ==> io.woken(ready).contains(io.waiting()[i].waker),
{
    let keep = |waiter: Waiter| !satisfied_by(waiter.interest, ready);
    let after = io.notified(ready);
    lemma_slot_filter(io.reader, keep);
    lemma_slot_filter(io.writer, keep);
    assert(slot_waiters(after.reader) =~= slot_waiters(io.reader).filter(keep));
    assert(slot_waiters(after.writer) =~= slot_waiters(io.writer).filter(keep));
    assert forall|waiter: Waiter| #[trigger] keep(waiter) && !satisfied_by(waiter.interest, io.ready)
        implies !satisfied_by(waiter.interest, after.ready) by {
        law_satisfaction_splits(waiter.interest, io.ready, ready);
    }
    lemma_filtered(io, after, keep);
    let wake = |waiter: Waiter| satisfied_by(waiter.interest, ready);
    let all = io.waiting();
    assert forall|i: int| 0 <= i < all.len() && satisfied_by(
        (#[trigger] all[i]).interest,
        ready,
    ) implies io.woken(ready).contains(all[i].waker) by {
        all.lemma_filter_contains(wake, i);
        let k = choose|k: int| 0 <= k < all.filter(wake).len() && all.filter(wake)[k] == all[i];
        assert(io.woken(ready)[k] == all[i].waker);
    }
}

/// A waiter that goes away takes no one with it.
proof fn lemma_detached(io: IoModel, state: WaiterState)
    requires
        io.wf(),
    ensures
        io.detached(state).wf(),
{
    let after = io.detached(state);
    let n = io.reader;
    match state {
        WaiterState::Unregistered => {},
        WaiterState::InSlot { slot, waiter } => {
            let a = slot_waiters(io.reader);
            let b = slot_waiters(io.writer);
            let all = io.waiting();
            let rest = after.waiting();
            if rest.len() != all.len() {
                match slot {
                    Slot::Reader => {
                        assert(rest =~= all.skip(1));
                    },
                    Slot::Writer => {
                        assert(rest =~= all.remove(a.len() as int));
                    },
                }
            } else {
                assert(rest =~= all);
            }
        },
        WaiterState::InList { waiter } => {
            let keep = |w: Waiter| w.id != waiter.id;
            lemma_filter_distinct_list(io, keep);
            let front = slot_waiters(io.reader) + slot_waiters(io.writer);
            let all = io.waiting();
            let rest = after.waiting();
            let f = io.list.filter(keep);
            assert(rest =~= front + f);
            assert forall|i: int| 0 <= i < rest.len() implies all.contains(#[trigger] rest[i]) by {
                if i < front.len() {
                    assert(all[i] == rest[i]);
                } else {
                    let k = choose|k: int|
                        0 <= k < io.list.len() && io.list[k] == f[i - front.len()];
                    assert(all[front.len() + k] == rest[i]);
                }
            }
            assert forall|i: int, j: int| 0 <= i < j < rest.len() implies (#[trigger] rest[i]).id
                != (#[trigger] rest[j]).id by {
                if j < front.len() {
                    assert(all[i].id != all[j].id);
                } else if i >= front.len() {
                    assert(f[i - front.len()].id != f[j - front.len()].id);
                } else {
                    let k = choose|k: int|
                        0 <= k < io.list.len() && io.list[k] == f[j - front.len()];
                    assert(all[front.len() + k] == rest[j]);
                    assert(all[i].id != all[front.len() + k].id);
                }
            }
            assert forall|i: int| 0 <= i < rest.len() implies !satisfied_by(
                (#[trigger] rest[i]).interest,
                after.ready,
            ) && rest[i].id < after.next_waiter by {
                let k = choose|k: int| 0 <= k < all.len() && all[k] == rest[i];
            }
        },
    }
}

/// The list of a descriptor in order holds distinct waiters, also when filtered.
proof fn lemma_filter_distinct_list(io: IoModel, keep: spec_fn(Waiter) -> bool)
    requires
        io.wf(),
    ensures
        forall|i: int|
            0 <= i < io.list.filter(keep).len() ==> io.list.contains(
                #[trigger] io.list.filter(keep)[i],
            ),
        forall|i: int, j: int|
            0 <= i < j < io.list.filter(keep).len() ==> (#[trigger] io.list.filter(keep)[i]).id != (
            #[trigger] io.list.filter(keep)[j]).id,
{
    let front = slot_waiters(io.reader) + slot_waiters(io.writer);
    assert forall|i: int, j: int| 0 <= i < j < io.list.len() implies (#[trigger] io.list[i]).id != (
    #[trigger] io.list[j]).id by {
        assert(io.waiting()[front.len() + i] == io.list[i]);
        assert(io.waiting()[front.len() + j] == io.list[j]);
    }
    lemma_filter_distinct(io.list, keep);
}

/// A new waiter is told apart from the others.
proof fn lemma_joined(io: IoModel, interest: Interest, waker: u64)
    requires
        io.wf(),
        io.next_waiter < u64::MAX,
        !satisfied_by(interest, io.ready),
    ensures
        io.joined(interest, waker).wf(),
{
    let after = io.joined(interest, waker);
    let waiter = io.next(interest, waker);
    let all = io.waiting();
    let rest = after.waiting();
    let at = match io.place(interest, waker) {
        WaiterState::InSlot { slot: Slot::Reader, .. } => 0,
        WaiterState::InSlot { slot: Slot::Writer, .. } => slot_waiters(io.reader).len() as int,
        _ => all.len() as int,
    };
    assert(rest =~= all.insert(at, waiter));
    assert forall|i: int| 0 <= i < rest.len() && i != at implies rest[i] == all[if i < at {
        i
    } else {
        i - 1
    }] by {}
    assert forall|i: int, j: int| 0 <= i < j < rest.len() implies (#[trigger] rest[i]).id != (
    #[trigger] rest[j]).id by {
        let a = if i < at {
            i
        } else {
            i - 1
        };
        let b = if j < at {
            j
        } else {
            j - 1
        };
        if i != at && j != at {
            assert(all[a].id != all[b].id);
        }
    }
}

/// The readiness of a registered descriptor, and the tasks that wait for it.
///
/// The first reader and the first writer wait in a slot of their own, so that no task
/// is woken for the wrong direction; the others wait in a list.
pub struct ScheduledIo {
    pub generation: u32,
    pub ready: Ready,
    pub shutdown: bool,
    pub reader: Option<Waiter>,
    pub writer: Option<Waiter>,
    pub list: Vec<Waiter>,
    pub next_waiter: u64,
}

impl View for ScheduledIo {
    type V = IoModel;

    open spec fn view(&self) -> IoModel {
        IoModel {
            generation: self.generation,
            ready: self.ready,
            shutdown: self.shutdown,
            reader: self.reader,
            writer: self.writer,
            list: self.list@,
            next_waiter: self.next_waiter,
        }
    }
}

/// Moves a waiter that readiness wakes out of its slot.
fn take_matching(slot: &mut Option<Waiter>, ready: Ready) -> (taken: Option<Waiter>)
    ensures
        *final(slot) == slot_kept(*old(slot), ready),
        slot_waiters(taken) == woken_of(slot_waiters(*old(slot)), ready),
{
    let node = *slot;
    proof {
        lemma_slot_filter(node, |waiter: Waiter| satisfied_by(waiter.interest, ready));
    }
    match node {
        Some(waiter) => {
            if interest_satisfied(waiter.interest, ready) {
                *slot = None;
                Some(waiter)
            } else {
                None
            }
        },
        None => None,
    }
}

impl ScheduledIo {
    /// A descriptor of which nothing is known yet.
    pub fn new(generation: u32) -> (scheduled: ScheduledIo)
        ensures
            scheduled@ == (IoModel {
                generation,
                ready: Ready(0),
                shutdown: false,
                reader: None,
                writer: None,
                list: Seq::empty(),
                next_waiter: 0,
            }),
            scheduled@.wf(),
    {
        let scheduled = ScheduledIo {
            generation,
            ready: Ready::empty(),
            shutdown: false,
            reader: None,
            writer: None,
            list: Vec::new(),
            next_waiter: 0,
        };
        assert(scheduled@.waiting() =~= Seq::empty());
        scheduled
    }

    /// The registration that the descriptor belongs to.
    pub fn generation(&self) -> (generation: u32)
        ensures
            generation == self@.generation,
    {
        self.generation
    }

    /// Whether the interest is satisfied now.
    pub fn readiness(&self, interest: Interest) -> (event: Option<ReadyEvent>)
        ensures
            event == self@.seen(interest),
    {
        if self.shutdown {
            return Some(
                ReadyEvent {
                    ready: Ready::read_closed().union(Ready::write_closed()).union(Ready::error()),
                    generation: self.generation,
                },
            );
        }
        if interest_satisfied(interest, self.ready) {
            Some(ReadyEvent { ready: self.ready, generation: self.generation })
        } else {
            None
        }
    }

    /// Adds readiness and takes out everyone who waited for it. Returns whom to wake.
    pub fn set_readiness_and_wake(&mut self, ready: Ready) -> (woken: Vec<u64>)
        ensures
            final(self)@ == old(self)@.notified(ready),
            woken@ == old(self)@.woken(ready),
            old(self)@.wf() ==> final(self)@.wf(),
    {
        let ghost before = self@;
        self.ready = self.ready.union(ready);
        let mut woken: Vec<u64> = Vec::new();
        let reader = take_matching(&mut self.reader, ready);
        if let Some(waiter) = reader {
            woken.push(waiter.waker);
        }
        let ghost r = woken_of(slot_waiters(before.reader), ready);
        assert(woken@ =~= wakers(r));
        let writer = take_matching(&mut self.writer, ready);
        if let Some(waiter) = writer {
            woken.push(waiter.waker);
        }
        let ghost w = woken_of(slot_waiters(before.writer), ready);
        assert(woken@ =~= wakers(r + w));
        let mut kept: Vec<Waiter> = Vec::new();
        let mut i: usize = 0;
        proof {
            assert(before.list.take(0) =~= Seq::empty());
            reveal(Seq::filter);
            assert(woken_of(before.list.take(0), ready) =~= Seq::empty());
            assert(kept_of(before.list.take(0), ready) =~= Seq::empty());
            assert(r + w + Seq::<Waiter>::empty() =~= r + w);
        }
        while i < self.list.len()
            invariant
                i <= self.list@.len(),
                self@ == (IoModel {
                    ready: Ready(before.ready.0 | ready.0),
                    reader: slot_kept(before.reader, ready),
                    writer: slot_kept(before.writer, ready),
                    ..before
                }),
                kept@ == kept_of(before.list.take(i as int), ready),
                woken@ == wakers(r + w + woken_of(before.list.take(i as int), ready)),
            decreases self.list@.len() - i,
        {
            let waiter = self.list[i];
            proof {
                reveal(Seq::filter);
                assert(before.list.take(i + 1).drop_last() =~= before.list.take(i as int));
                assert(before.list.take(i + 1).last() == waiter);
            }
            let ghost listed = woken_of(before.list.take(i as int), ready);
            if interest_satisfied(waiter.interest, ready) {
                woken.push(waiter.waker);
                assert((r + w + listed).push(waiter) =~= r + w + listed.push(waiter));
                assert(woken@ =~= wakers(r + w + listed.push(waiter)));
            } else {
                kept.push(waiter);
            }
            i = i + 1;
        }
        assert(before.list.take(i as int) =~= before.list);
        self.list = kept;
        proof {
            let wake = |waiter: Waiter| satisfied_by(waiter.interest, ready);
            let a = slot_waiters(before.reader);
            let b = slot_waiters(before.writer);
            Seq::filter_distributes_over_add(a, b, wake);
            Seq::filter_distributes_over_add(a + b, before.list, wake);
            assert(self@ =~= before.notified(ready));
            if before.wf() {
                law_reports_lose_no_wake(before, ready);
            }
        }
        woken
    }

    /// Clears the readiness that an event has seen.
    pub fn clear_ready(&mut self, generation: u32, ready: Ready)
        ensures
            final(self)@ == old(self)@.cleared(ReadyEvent { ready, generation }),
            old(self)@.wf() ==> final(self)@.wf(),
    {
        let ghost before = self@;
        if self.generation == generation && self.ready == ready {
            self.ready = Ready::empty();
            proof {
                assert(self@.waiting() =~= before.waiting());
                assert(0u16 & 21 == 0 && 0u16 & 26 == 0) by (bit_vector);
            }
        }
    }

    /// Puts a waiter in its place, unless its interest is satisfied already or the
    /// driver has shut down: then the caller must not wait.
    pub fn add_waiter(&mut self, interest: Interest, waker: u64) -> (result: Result<
        WaiterState,
        ReadyEvent,
    >)
        requires
            old(self)@.wf(),
            old(self).next_waiter < u64::MAX,
        ensures
            final(self)@.wf(),
            match result {
                Ok(state) => {
                    &&& !old(self)@.shutdown && !satisfied_by(interest, old(self)@.ready)
                    &&& state == old(self)@.place(interest, waker)
                    &&& final(self)@ == old(self)@.joined(interest, waker)
                },
                Err(event) => {
                    &&& old(self)@.shutdown || satisfied_by(interest, old(self)@.ready)
                    &&& event == (ReadyEvent {
                        ready: old(self)@.ready,
                        generation: old(self)@.generation,
                    })
                    &&& final(self)@ == old(self)@
                },
            },
    {
        if interest_satisfied(interest, self.ready) || self.shutdown {
            return Err(ReadyEvent { ready: self.ready, generation: self.generation });
        }
        let ghost before = self@;
        proof {
            lemma_joined(before, interest, waker);
        }
        let waiter = Waiter { id: self.next_waiter, waker, interest };
        self.next_waiter = self.next_waiter + 1;
        if interest.is_readable() && self.reader.is_none() {
            self.reader = Some(waiter);
            return Ok(WaiterState::InSlot { slot: Slot::Reader, waiter });
        }
        if interest.is_writable() && self.writer.is_none() {
            self.writer = Some(waiter);
            return Ok(WaiterState::InSlot { slot: Slot::Writer, waiter });
        }
        self.list.push(waiter);
        Ok(WaiterState::InList { waiter })
    }

    /// Vacates a slot, if that waiter is still in it.
    pub fn remove_slot_waiter(&mut self, slot: Slot, waiter: Waiter)
        requires
            old(self)@.wf(),
        ensures
            final(self)@.wf(),
            final(self)@ == old(self)@.detached(WaiterState::InSlot { slot, waiter }),
    {
        proof {
            lemma_detached(self@, WaiterState::InSlot { slot, waiter });
        }
        match slot {
            Slot::Reader => {
                if let Some(registered) = self.reader {
                    if registered.id == waiter.id {
                        self.reader = None;
                    }
                }
            },
            Slot::Writer => {
                if let Some(registered) = self.writer {
                    if registered.id == waiter.id {
                        self.writer = None;
                    }
                }
            },
        }
    }

    /// Takes a waiter out of the list, if it is still in it.
    pub fn remove_list_waiter(&mut self, waiter: Waiter)
        requires
            old(self)@.wf(),
        ensures
            final(self)@.wf(),
            final(self)@ == old(self)@.detached(WaiterState::InList { waiter }),
    {
        proof {
            lemma_detached(self@, WaiterState::InList { waiter });
        }
        let ghost before = self.list@;
        let mut kept: Vec<Waiter> = Vec::new();
        let mut i: usize = 0;
        proof {
            reveal(Seq::filter);
            assert(others_than(before.take(0), waiter.id) =~= Seq::empty());
        }
        while i < self.list.len()
            invariant
                i <= self.list@.len(),
                self.list@ == before,
                self@ == old(self)@,
                kept@ == others_than(before.take(i as int), waiter.id),
            decreases self.list@.len() - i,
        {
            let other = self.list[i];
            proof {
                reveal(Seq::filter);
                assert(before.take(i + 1).drop_last() =~= before.take(i as int));
                assert(before.take(i + 1).last() == other);
            }
            if other.id != waiter.id {
                kept.push(other);
            }
            i = i + 1;
        }
        assert(before.take(i as int) =~= before);
        self.list = kept;
    }

    /// Notes that an operation would have blocked: what was ready is not any more.
    pub fn would_block(&mut self, interest: Interest)
        ensures
            final(self)@ == (match old(self)@.seen(interest) {
                Some(event) => old(self)@.cleared(event),
                None => old(self)@,
            }),
            old(self)@.wf() ==> final(self)@.wf(),
    {
        if let Some(event) = self.readiness(interest) {
            event.clear_ready(self);
        }
    }
}

impl ReadyEvent {
    /// The readiness that was seen.
    pub fn ready(&self) -> (ready: Ready)
        ensures
            ready == self.ready,
    {
        self.ready
    }

    /// Clears the readiness that was seen, so that the next wait does not spin.
    pub fn clear_ready(&self, scheduled: &mut ScheduledIo)
        ensures
            final(scheduled)@ == old(scheduled)@.cleared(*self),
            old(scheduled)@.wf() ==> final(scheduled)@.wf(),
    {
        scheduled.clear_ready(self.generation, self.ready);
    }
}

/// Clearing an event never takes away readiness that was reported after it.
pub proof fn law_clearing_keeps_fresh_readiness(io: IoModel, event: ReadyEvent, fresh: Ready)
    requires
        event.ready == io.ready,
        io.ready.0 | fresh.0 != io.ready.0,
    ensures
        io.notified(fresh).cleared(event) == io.notified(fresh),
{
}

/// A wait for readiness.
pub struct Readiness {
    pub interests: Interest,
    pub state: WaiterState,
}

impl Readiness {
    /// A wait that has not begun.
    pub fn new(interests: Interest) -> (wait: Readiness)
        ensures
            wait.interests == interests,
            wait.state == WaiterState::Unregistered,
    {
        Readiness { interests, state: WaiterState::Unregistered }
    }

    /// Gives up waiting.
    pub fn detach(&mut self, scheduled: &mut ScheduledIo)
        requires
            old(scheduled)@.wf(),
        ensures
            final(scheduled)@.wf(),
            final(scheduled)@ == old(scheduled)@.detached(old(self).state),
            final(self).state == WaiterState::Unregistered,
            final(self).interests == old(self).interests,
    {
        match self.state {
            WaiterState::Unregistered => {},
            WaiterState::InSlot { slot, waiter } => {
                scheduled.remove_slot_waiter(slot, waiter);
            },
            WaiterState::InList { waiter } => {
                scheduled.remove_list_waiter(waiter);
            },
        }
        self.state = WaiterState::Unregistered;
    }

    /// Ends where the interest is satisfied. Otherwise the task waits, always with a
    /// new entry: a report takes the entry out before it wakes the task.
    pub fn poll(&mut self, scheduled: &mut ScheduledIo, waker: u64) -> (poll: Poll<ReadyEvent>)
        requires
            old(scheduled)@.wf(),
            old(scheduled).next_waiter < u64::MAX,
        ensures
            final(scheduled)@.wf(),
            final(self).interests == old(self).interests,
            ({
                let detached = old(scheduled)@.detached(old(self).state);
                match old(scheduled)@.seen(old(self).interests) {
                    Some(event) => {
                        &&& poll == Poll::Ready(event)
                        &&& final(scheduled)@ == detached
                        &&& final(self).state == WaiterState::Unregistered
                    },
                    None => {
                        &&& poll is Pending
                        &&& final(scheduled)@ == detached.joined(old(self).interests, waker)
                        &&& final(self).state == detached.place(old(self).interests, waker)
                    },
                }
            }),
    {
        if let Some(event) = scheduled.readiness(self.interests) {
            self.detach(scheduled);
            return Poll::Ready(event);
        }
        self.detach(scheduled);
        match scheduled.add_waiter(self.interests, waker) {
            Ok(state) => {
                self.state = state;
                Poll::Pending
            },
            Err(event) => Poll::Ready(event),
        }
    }
}

/// A task that waits is woken by the next report that satisfies its interest.
pub proof fn law_a_wait_is_woken(io: IoModel, interest: Interest, waker: u64, ready: Ready)
    requires
        io.wf(),
        io.next_waiter < u64::MAX,
        !satisfied_by(interest, io.ready),
        satisfied_by(interest, ready),
    ensures
        io.joined(interest, waker).woken(ready).contains(waker),
{
    let after = io.joined(interest, waker);
    let waiter = io.next(interest, waker);
    lemma_joined(io, interest, waker);
    let at = match io.place(interest, waker) {
        WaiterState::InSlot { slot: Slot::Reader, .. } => 0,
        WaiterState::InSlot { slot: Slot::Writer, .. } => slot_waiters(io.reader).len() as int,
        _ => io.waiting().len() as int,
    };
    assert(after.waiting()[at] == waiter);
    law_reports_lose_no_wake(after, ready);
}

// ---------------------------------------------------------------------------
// All registered descriptors
// ---------------------------------------------------------------------------

/// What the kernel hands back with an event: the slot of the descriptor, and the
/// registration for which the event was asked.
#[derive(Debug, Clone, Copy, PartialEq, Eq, Structural)]
pub struct Token {
    pub index: usize,
    pub generation: u32,
}

/// A kernel event.
#[derive(Debug, Clone, Copy, PartialEq, Eq, Structural)]
pub struct Event {
    pub token: Token,
    pub ready: Ready,
}

/// The registration that an event is about: the one in its slot, unless that is a
/// later one than the event was asked for.
pub open spec fn addressed(
    slots: Map<usize, u64>,
    ios: Map<u64, IoModel>,
    token: Token,
) -> Option<u64> {
    if slots.contains_key(token.index) && ios[slots[token.index]].generation == token.generation {
        Some(slots[token.index])
    } else {
        None
    }
}

/// The registrations after an event.
pub open spec fn after_event(
    slots: Map<usize, u64>,
    ios: Map<u64, IoModel>,
    event: Event,
) -> Map<u64, IoModel> {
    match addressed(slots, ios, event.token) {
        Some(id) => ios.insert(id, ios[id].notified(event.ready)),
        None => ios,
    }
}

/// Whom an event wakes.
pub open spec fn event_wakes(
    slots: Map<usize, u64>,
    ios: Map<u64, IoModel>,
    event: Event,
) -> Seq<u64> {
    match addressed(slots, ios, event.token) {
        Some(id) => ios[id].woken(event.ready),
        None => Seq::empty(),
    }
}

/// The registrations after several events.
pub open spec fn after_events(
    slots: Map<usize, u64>,
    ios: Map<u64, IoModel>,
    events: Seq<Event>,
) -> Map<u64, IoModel>
    decreases events.len(),
{
    if events.len() == 0 {
        ios
    } else {
        after_event(slots, after_events(slots, ios, events.drop_last()), events.last())
    }
}

/// Whom several events wake, in order.
pub open spec fn events_wake(
    slots: Map<usize, u64>,
    ios: Map<u64, IoModel>,
    events: Seq<Event>,
) -> Seq<u64>
    decreases events.len(),
{
    if events.len() == 0 {
        Seq::empty()
    } else {
        events_wake(slots, ios, events.drop_last()) + event_wakes(
            slots,
            after_events(slots, ios, events.drop_last()),
            events.last(),
        )
    }
}

/// A descriptor that was just registered.
pub open spec fn fresh(generation: u32) -> IoModel {
    IoModel {
        generation,
        ready: Ready(0),
        shutdown: false,
        reader: None,
        writer: None,
        list: Seq::empty(),
        next_waiter: 0,
    }
}

/// An event that is still on its way when its descriptor is closed touches no other
/// descriptor: not if the slot is vacant, and not if it has been taken by a later
/// registration.
pub proof fn law_stale_events_are_dropped(
    slots: Map<usize, u64>,
    ios: Map<u64, IoModel>,
    event: Event,
)
    requires
        !slots.contains_key(event.token.index) || ios[slots[event.token.index]].generation
            != event.token.generation,
    ensures
        after_event(slots, ios, event) == ios,
        event_wakes(slots, ios, event) == Seq::<u64>::empty(),
{
}

/// Whether every registration is in one slot, and in order.
pub open spec fn registry_ok(slots: Map<usize, u64>, ios: Map<u64, IoModel>, next: u64) -> bool {
    &&& forall|index: usize| #[trigger]
        slots.contains_key(index) ==> ios.contains_key(slots[index])
    &&& forall|a: usize, b: usize|
        #![trigger slots.contains_key(a), slots.contains_key(b)]
        slots.contains_key(a) && slots.contains_key(b) && slots[a] == slots[b] ==> a == b
    &&& forall|id: u64| #[trigger] ios.contains_key(id) ==> id < next && ios[id].wf()
}

/// A registration in order may take the place of what was known of it.
proof fn lemma_update(
    slots: Map<usize, u64>,
    ios: Map<u64, IoModel>,
    next: u64,
    id: u64,
    io: IoModel,
)
    requires
        registry_ok(slots, ios, next),
        ios.contains_key(id),
        io.wf(),
    ensures
        registry_ok(slots, ios.insert(id, io), next),
{
}

/// A new registration takes a vacant slot.
proof fn lemma_register(
    slots: Map<usize, u64>,
    ios: Map<u64, IoModel>,
    next: u64,
    index: usize,
    io: IoModel,
)
    requires
        registry_ok(slots, ios, next),
        next < u64::MAX,
        !slots.contains_key(index),
        io.wf(),
    ensures
        registry_ok(slots.insert(index, next), ios.insert(next, io), (next + 1) as u64),
        registry_ok(slots, ios, (next + 1) as u64),
{
    let after = slots.insert(index, next);
    let all = ios.insert(next, io);
    assert forall|i: usize| #[trigger] after.contains_key(i) implies all.contains_key(
        after[i],
    ) by {
        if i != index {
            assert(slots.contains_key(i));
        }
    }
    assert forall|a: usize, b: usize|
        #![trigger after.contains_key(a), after.contains_key(b)]
        after.contains_key(a) && after.contains_key(b) && after[a] == after[b] implies a == b by {
        if a != index {
            assert(slots.contains_key(a));
        }
        if b != index {
            assert(slots.contains_key(b));
        }
    }
}

/// The registrations of a runtime.
pub struct Driver {
    table: Slab<u64>,
    ios: HashMap<u64, ScheduledIo>,
    next_id: u64,
    next_generation: u32,
}

impl Driver {
    /// Which registration is in which slot.
    pub closed spec fn slots(&self) -> Map<usize, u64> {
        slots::occupied(self.table)
    }

    /// The registrations.
    pub closed spec fn ios(&self) -> Map<u64, IoModel> {
        self.ios@.map_values(|io: ScheduledIo| io@)
    }

    /// The number of the next registration.
    pub closed spec fn next_number(&self) -> u64 {
        self.next_id
    }

    /// The generation of the next registration.
    pub closed spec fn generation(&self) -> u32 {
        self.next_generation
    }

    /// Every registration is in one slot, and in order.
    pub closed spec fn wf(&self) -> bool {
        registry_ok(self.slots(), self.ios(), self.next_id)
    }

    /// No registrations yet.
    pub fn new() -> (driver: Driver)
        ensures
            driver.wf(),
            driver.slots() == Map::<usize, u64>::empty(),
            driver.ios() == Map::<u64, IoModel>::empty(),
            driver.next_number() == 0,
            driver.generation() == 1,
    {
        let driver = Driver {
            table: slab_with_capacity(64),
            ios: HashMap::new(),
            next_id: 0,
            next_generation: 1,
        };
        assert(driver.ios() =~= Map::empty());
        driver
    }

    /// Registers a descriptor with the kernel through `poller`, which is given the
    /// token. Where that fails, no registration is left behind.
    pub fn register<F: FnOnce(Token) -> Result<(), IoError>>(&mut self, poller: F) -> (result:
        Result<(u64, Token), IoError>)
        requires
            old(self).wf(),
            old(self).next_number() < u64::MAX,
            forall|token: Token| #[trigger] poller.requires((token,)),
        ensures
            final(self).wf(),
            final(self).generation() == old(self).generation().wrapping_add(1),
            final(self).next_number() == old(self).next_number() + 1,
            match result {
                Ok((id, token)) => {
                    &&& poller.ensures((token,), Ok(()))
                    &&& id == old(self).next_number()
                    &&& token.generation == old(self).generation()
                    &&& !old(self).slots().contains_key(token.index)
                    &&& final(self).slots() == old(self).slots().insert(token.index, id)
                    &&& final(self).ios() == old(self).ios().insert(id, fresh(token.generation))
                },
                Err(error) => {
                    &&& exists|token: Token|
                        token.generation == old(self).generation() && !old(
                            self,
                        ).slots().contains_key(token.index) && #[trigger] poller.ensures(
                            (token,),
                            Err(error),
                        )
                    &&& final(self).slots() == old(self).slots()
                    &&& final(self).ios() == old(self).ios()
                },
            },
    {
        let ghost before = *self;
        let generation: u32 = self.next_generation;
        self.next_generation = self.next_generation.wrapping_add(1);
        let id: u64 = self.next_id;
        self.next_id = self.next_id + 1;
        let index: usize = slab_insert(&mut self.table, id);
        let token = Token { index, generation };
        let scheduled = ScheduledIo::new(generation);
        let ghost io = scheduled@;
        proof {
            lemma_register(before.slots(), before.ios(), before.next_id, index, io);
            assert(!before.ios().contains_key(id));
        }
        let outcome = poller(token);
        match outcome {
            Ok(unit) => {
                assert(unit == ());
                self.ios.insert(id, scheduled);
                assert(io =~= fresh(generation));
                assert(self.slots() == before.slots().insert(index, id));
                assert(self.ios() =~= before.ios().insert(id, fresh(generation)));
                Ok((id, token))
            },
            Err(error) => {
                let _ = slab_remove(&mut self.table, index);
                assert(self.slots() =~= before.slots());
                Err(error)
            },
        }
    }

    /// Ends a registration. Gives back its readiness and waiters, for those who still
    /// wait.
    pub fn deregister(&mut self, id: u64) -> (scheduled: Option<ScheduledIo>)
        requires
            old(self).wf(),
        ensures
            final(self).wf(),
            final(self).generation() == old(self).generation(),
            final(self).next_number() == old(self).next_number(),
            match scheduled {
                Some(io) => old(self).ios().contains_key(id) && io@ == old(self).ios()[id],
                None => !old(self).ios().contains_key(id),
            },
            final(self).ios() == old(self).ios().remove(id),
            forall|index: usize| #[trigger]
                final(self).slots().contains_key(index) <==> old(self).slots().contains_key(index)
                    && old(self).slots()[index] != id,
            forall|index: usize| #[trigger]
                final(self).slots().contains_key(index) ==> final(self).slots()[index] == old(
                    self,
                ).slots()[index],
    {
        let ghost before = *self;
        let items = slab_items(&self.table);
        let mut i: usize = 0;
        while i < items.len()
            invariant_except_break
                *self == before,
                forall|k: int| 0 <= k < i ==> (#[trigger] items@[k]).1 != id,
            invariant
                i <= items@.len(),
                slots::lists_slots(items@, before.slots()),
                before.wf(),
            ensures
                self.ios == before.ios,
                self.next_id == before.next_id,
                self.next_generation == before.next_generation,
                forall|index: usize| #[trigger]
                    self.slots().contains_key(index) <==> before.slots().contains_key(index)
                        && before.slots()[index] != id,
                forall|index: usize| #[trigger]
                    self.slots().contains_key(index) ==> self.slots()[index]
                        == before.slots()[index],
            decreases items.len() - i,
        {
            let (index, entry) = items[i];
            assert(items@[i as int].0 == index);
            if entry == id {
                let _ = slab_remove(&mut self.table, index);
                assert forall|other: usize| #[trigger]
                    self.slots().contains_key(other) <==> before.slots().contains_key(other)
                        && before.slots()[other] != id by {
                    if before.slots().contains_key(other) && before.slots()[other] == id {
                        assert(before.slots()[index] == before.slots()[other]);
                    }
                }
                break;
            }
            i = i + 1;
            proof {
                if i == items@.len() {
                    assert forall|other: usize| #[trigger]
                        before.slots().contains_key(other) implies before.slots()[other] != id by {
                        let k = choose|k: int|
                            0 <= k < items@.len() && (#[trigger] items@[k]).0 == other;
                        assert(items@[k].1 != id);
                    }
                }
            }
        }
        let ghost slots = self.slots();
        let scheduled = self.ios.remove(&id);
        proof {
            assert(self.ios() =~= before.ios().remove(id));
            assert(self.slots() == slots);
            let ios = self.ios();
            assert forall|index: usize| #[trigger] slots.contains_key(index) implies ios.contains_key(
                slots[index],
            ) by {
                assert(before.slots().contains_key(index));
            }
            assert forall|a: usize, b: usize|
                #![trigger slots.contains_key(a), slots.contains_key(b)]
                slots.contains_key(a) && slots.contains_key(b) && slots[a] == slots[b] implies a
                == b by {
                assert(before.slots().contains_key(a) && before.slots().contains_key(b));
            }
        }
        scheduled
    }

    /// Hands an event to the registration that it is about. Returns whom to wake.
    pub fn dispatch_event(&mut self, event: Event) -> (woken: Vec<u64>)
        requires
            old(self).wf(),
        ensures
            final(self).wf(),
            final(self).generation() == old(self).generation(),
            final(self).next_number() == old(self).next_number(),
            final(self).slots() == old(self).slots(),
            final(self).ios() == after_event(old(self).slots(), old(self).ios(), event),
            woken@ == event_wakes(old(self).slots(), old(self).ios(), event),
    {
        let ghost before = *self;
        if let Some(id) = slab_get(&self.table, event.token.index) {
            proof {
                assert(before.slots().contains_key(event.token.index));
                assert(before.ios().contains_key(id));
            }
            if let Some(mut scheduled) = self.ios.remove(&id) {
                assert(scheduled@ == before.ios()[id]);
                if scheduled.generation() == event.token.generation {
                    let woken = scheduled.set_readiness_and_wake(event.ready);
                    let ghost after = scheduled@;
                    self.ios.insert(id, scheduled);
                    proof {
                        lemma_update(before.slots(), before.ios(), before.next_id, id, after);
                        assert(self.ios() =~= after_event(before.slots(), before.ios(), event));
                    }
                    return woken;
                }
                self.ios.insert(id, scheduled);
                assert(self.ios() =~= before.ios());
            }
        }
        Vec::new()
    }

    /// Hands events to the registrations that they are about. Returns whom to wake.
    pub fn dispatch(&mut self, events: &Vec<Event>) -> (woken: Vec<u64>)
        requires
            old(self).wf(),
        ensures
            final(self).wf(),
            final(self).generation() == old(self).generation(),
            final(self).next_number() == old(self).next_number(),
            final(self).slots() == old(self).slots(),
            final(self).ios() == after_events(old(self).slots(), old(self).ios(), events@),
            woken@ == events_wake(old(self).slots(), old(self).ios(), events@),
    {
        let ghost before = *self;
        let mut woken: Vec<u64> = Vec::new();
        let mut i: usize = 0;
        assert(events@.take(0) =~= Seq::empty());
        while i < events.len()
            invariant
                i <= events@.len(),
                self.wf(),
                self.generation() == before.generation(),
                self.next_number() == before.next_number(),
                self.slots() == before.slots(),
                self.ios() == after_events(before.slots(), before.ios(), events@.take(i as int)),
                woken@ == events_wake(before.slots(), before.ios(), events@.take(i as int)),
            decreases events.len() - i,
        {
            proof {
                assert(events@.take(i + 1).drop_last() =~= events@.take(i as int));
                assert(events@.take(i + 1).last() == events@[i as int]);
            }
            let mut more = self.dispatch_event(events[i]);
            woken.append(&mut more);
            i = i + 1;
        }
        assert(events@.take(i as int) =~= events@);
        woken
    }

    /// Polls a wait for a registration.
    pub fn poll_readiness(&mut self, id: u64, wait: &mut Readiness, waker: u64) -> (poll: Poll<
        ReadyEvent,
    >)
        requires
            old(self).wf(),
            old(self).ios().contains_key(id),
            old(self).ios()[id].next_waiter < u64::MAX,
        ensures
            final(self).wf(),
            final(self).generation() == old(self).generation(),
            final(self).next_number() == old(self).next_number(),
            final(self).slots() == old(self).slots(),
            final(wait).interests == old(wait).interests,
            ({
                let detached = old(self).ios()[id].detached(old(wait).state);
                match old(self).ios()[id].seen(old(wait).interests) {
                    Some(event) => {
                        &&& poll == Poll::Ready(event)
                        &&& final(self).ios() == old(self).ios().insert(id, detached)
                        &&& final(wait).state == WaiterState::Unregistered
                    },
                    None => {
                        &&& poll is Pending
                        &&& final(self).ios() == old(self).ios().insert(
                            id,
                            detached.joined(old(wait).interests, waker),
                        )
                        &&& final(wait).state == detached.place(old(wait).interests, waker)
                    },
                }
            }),
    {
        let ghost before = *self;
        match self.ios.remove(&id) {
            Some(mut scheduled) => {
                assert(scheduled@ == before.ios()[id]);
                let poll = wait.poll(&mut scheduled, waker);
                let ghost after = scheduled@;
                self.ios.insert(id, scheduled);
                proof {
                    lemma_update(before.slots(), before.ios(), before.next_id, id, after);
                    assert(self.ios() =~= before.ios().insert(id, after));
                }
                poll
            },
            None => {
                assert(before.ios().contains_key(id));
                Poll::Pending
            },
        }
    }

    /// Gives up a wait for a registration, whose task is woken no more. Where the
    /// registration is gone, no one waits for it.
    pub fn give_up(&mut self, id: u64, wait: &mut Readiness)
        requires
            old(self).wf(),
        ensures
            final(self).wf(),
            final(self).generation() == old(self).generation(),
            final(self).next_number() == old(self).next_number(),
            final(self).slots() == old(self).slots(),
            final(self).ios() == (if old(self).ios().contains_key(id) {
                old(self).ios().insert(id, old(self).ios()[id].detached(old(wait).state))
            } else {
                old(self).ios()
            }),
            *final(wait) == (Readiness { state: WaiterState::Unregistered, ..*old(wait) }),
    {
        let ghost before = *self;
        if let Some(mut scheduled) = self.ios.remove(&id) {
            assert(before.ios().contains_key(id));
            assert(scheduled@ == before.ios()[id]);
            wait.detach(&mut scheduled);
            let ghost after = scheduled@;
            self.ios.insert(id, scheduled);
            proof {
                lemma_update(before.slots(), before.ios(), before.next_id, id, after);
                assert(self.ios() =~= before.ios().insert(id, after));
            }
        } else {
            assert(self.ios() =~= before.ios());
            wait.state = WaiterState::Unregistered;
        }
    }

    /// Clears what is seen of a registration now.
    pub fn clear_seen(&mut self, id: u64, interest: Interest)
        requires
            old(self).wf(),
            old(self).ios().contains_key(id),
        ensures
            final(self).wf(),
            final(self).generation() == old(self).generation(),
            final(self).next_number() == old(self).next_number(),
            final(self).slots() == old(self).slots(),
            final(self).ios() == (match old(self).ios()[id].seen(interest) {
                Some(event) => old(self).ios().insert(id, old(self).ios()[id].cleared(event)),
                None => old(self).ios(),
            }),
    {
        let ghost before = *self;
        if let Some(mut scheduled) = self.ios.remove(&id) {
            assert(scheduled@ == before.ios()[id]);
            scheduled.would_block(interest);
            let ghost after = scheduled@;
            self.ios.insert(id, scheduled);
            proof {
                lemma_update(before.slots(), before.ios(), before.next_id, id, after);
                assert(self.ios() =~= before.ios().insert(id, after));
                if before.ios()[id].seen(interest) is None {
                    assert(self.ios() =~= before.ios());
                }
            }
        } else {
            assert(before.ios().contains_key(id));
        }
    }

    /// Clears an event of a registration.
    pub fn clear_event(&mut self, id: u64, event: ReadyEvent)
        requires
            old(self).wf(),
            old(self).ios().contains_key(id),
        ensures
            final(self).wf(),
            final(self).generation() == old(self).generation(),
            final(self).next_number() == old(self).next_number(),
            final(self).slots() == old(self).slots(),
            final(self).ios() == old(self).ios().insert(id, old(self).ios()[id].cleared(event)),
    {
        let ghost before = *self;
        if let Some(mut scheduled) = self.ios.remove(&id) {
            assert(scheduled@ == before.ios()[id]);
            event.clear_ready(&mut scheduled);
            let ghost after = scheduled@;
            self.ios.insert(id, scheduled);
            proof {
                lemma_update(before.slots(), before.ios(), before.next_id, id, after);
                assert(self.ios() =~= before.ios().insert(id, after));
            }
        } else {
            assert(before.ios().contains_key(id));
        }
    }
}

/// A registered descriptor, and what it was registered for.
#[derive(Debug, Clone, Copy, PartialEq, Eq, Structural)]
pub struct Registration {
    pub id: u64,
    pub interests: Interest,
}

impl Registration {
    /// A wait for the descriptor.
    pub fn readiness(&self, interests: Interest) -> (wait: Readiness)
        ensures
            wait.interests == interests,
            wait.state == WaiterState::Unregistered,
    {
        Readiness::new(interests)
    }

    /// Passes on the outcome of a system call. One that would have blocked clears the
    /// readiness that is there now, so that the next wait does not spin.
    pub fn try_io_with<R>(
        &self,
        driver: &mut Driver,
        interest: Interest,
        result: Result<R, IoError>,
    ) -> (outcome: Result<R, IoError>)
        requires
            old(driver).wf(),
            old(driver).ios().contains_key(self.id),
        ensures
            outcome == result,
            final(driver).wf(),
            final(driver).generation() == old(driver).generation(),
            final(driver).next_number() == old(driver).next_number(),
            final(driver).slots() == old(driver).slots(),
            ({
                let io = old(driver).ios()[self.id];
                let blocked = result matches Err(error) && error.kind == ErrorKind::WouldBlock;
                match io.seen(interest) {
                    Some(event) if blocked => final(driver).ios() == old(driver).ios().insert(
                        self.id,
                        io.cleared(event),
                    ),
                    _ => final(driver).ios() == old(driver).ios(),
                }
            }),
    {
        match &result {
            Err(error) => {
                if error.kind == ErrorKind::WouldBlock {
                    driver.clear_seen(self.id, interest);
                }
            },
            Ok(_) => {},
        }
        result
    }

    /// The same for what the descriptor was registered for.
    pub fn try_io<R>(&self, driver: &mut Driver, result: Result<R, IoError>) -> (outcome: Result<
        R,
        IoError,
    >)
        requires
            old(driver).wf(),
            old(driver).ios().contains_key(self.id),
        ensures
            outcome == result,
            final(driver).wf(),
            final(driver).generation() == old(driver).generation(),
            final(driver).next_number() == old(driver).next_number(),
            final(driver).slots() == old(driver).slots(),
            ({
                let io = old(driver).ios()[self.id];
                let blocked = result matches Err(error) && error.kind == ErrorKind::WouldBlock;
                match io.seen(self.interests) {
                    Some(event) if blocked => final(driver).ios() == old(driver).ios().insert(
                        self.id,
                        io.cleared(event),
                    ),
                    _ => final(driver).ios() == old(driver).ios(),
                }
            }),
    {
        self.try_io_with(driver, self.interests, result)
    }
}

// ---------------------------------------------------------------------------
// Waiting in the kernel
// ---------------------------------------------------------------------------

/// How long a worker that does not wait in the kernel sleeps at most: this closes the
/// gap between its last look for work and its sleep.
pub const CONDVAR_PARK_MILLIS: u64 = 1;

/// Which worker waits in the kernel, and how many others sleep.
#[derive(Debug, Clone, Copy, PartialEq, Eq, Structural)]
pub struct ParkState {
    pub holder: Option<usize>,
    pub waiters: usize,
}

/// How a worker parks.
#[derive(Debug, Clone, Copy, PartialEq, Eq, Structural)]
pub enum ParkAction {
    /// Wait in the kernel until the next timer, then dispatch.
    WaitInKernel,
    /// Time stands still: go to the next timer at once.
    AdvanceTime,
    /// Sleep until someone calls, for a moment at most.
    Sleep,
}

/// How a worker is woken.
#[derive(Debug, Clone, Copy, PartialEq, Eq, Structural)]
pub enum UnparkAction {
    /// Wake one of those who sleep.
    NotifyOne,
    /// Interrupt the wait in the kernel.
    WakePoller,
}

impl ParkState {
    /// No one is parked.
    pub fn new() -> (state: ParkState)
        ensures
            state == (ParkState { holder: None, waiters: 0 }),
    {
        ParkState { holder: None, waiters: 0 }
    }

    /// The first worker waits in the kernel; the others sleep.
    pub fn begin_park(&mut self, id: usize, paused: bool) -> (action: ParkAction)
        requires
            old(self).waiters < usize::MAX,
        ensures
            match old(self).holder {
                None => {
                    &&& action == if paused {
                        ParkAction::AdvanceTime
                    } else {
                        ParkAction::WaitInKernel
                    }
                    &&& *final(self) == (ParkState { holder: Some(id), waiters: old(self).waiters })
                },
                Some(_) => {
                    &&& action == ParkAction::Sleep
                    &&& final(self).holder == old(self).holder
                    &&& final(self).waiters == old(self).waiters + 1
                },
            },
    {
        if self.holder.is_none() {
            self.holder = Some(id);
            if paused {
                ParkAction::AdvanceTime
            } else {
                ParkAction::WaitInKernel
            }
        } else {
            self.waiters = self.waiters + 1;
            ParkAction::Sleep
        }
    }

    /// A worker goes on. Whether one of those who sleep should be called, to take over
    /// the wait in the kernel.
    pub fn end_park(&mut self, action: ParkAction) -> (notify: bool)
        requires
            action is Sleep ==> old(self).waiters > 0,
        ensures
            notify == !(action is Sleep),
            *final(self) == (if action is Sleep {
                ParkState {
                    holder: old(self).holder,
                    waiters: (old(self).waiters - 1) as usize,
                }
            } else {
                ParkState { holder: None, waiters: old(self).waiters }
            }),
    {
        match action {
            ParkAction::Sleep => {
                self.waiters = self.waiters - 1;
                false
            },
            _ => {
                self.holder = None;
                true
            },
        }
    }

    /// How to make sure that work is looked for: whoever sleeps is enough, since work is
    /// shared; else the wait in the kernel is interrupted, even if no one is known to be
    /// in it.
    pub fn unpark(&self) -> (action: UnparkAction)
        ensures
            action == (if self.waiters > 0 {
                UnparkAction::NotifyOne
            } else {
                UnparkAction::WakePoller
            }),
    {
        if self.waiters > 0 {
            UnparkAction::NotifyOne
        } else {
            UnparkAction::WakePoller
        }
    }
}

} // verus!
