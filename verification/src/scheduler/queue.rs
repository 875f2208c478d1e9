//! A fixed-capacity local queue with reservations.
//!
//! The owner pushes and pops at the tail. Thieves reserve ranges from the head,
//! take those tasks, and then commit the reservation. `real_head` is the
//! committed head and `steal_head` is the reservation frontier.
//!
//! A claimed-but-uncommitted range still occupies its slots, so the owner never
//! pushes into it. Commits land in order: a claim commits only once every
//! earlier claim has.

use vstd::prelude::*;

verus! {

/// How many tasks a worker's queue holds.
pub const LOCAL_QUEUE_CAPACITY: usize = 256;

/// How far one position is behind another on the ring of 32-bit positions.
#[verifier::opaque]
pub open spec fn distance(from: u32, to: u32) -> nat {
    ((to - from) % 4294967296) as nat
}

/// The position `k` behind another on the ring of 32-bit positions.
#[verifier::opaque]
pub open spec fn position(from: u32, k: nat) -> u32 {
    ((from + k) % 4294967296) as u32
}

/// A capacity for which 32-bit positions map to slots without a seam.
pub open spec fn capacity_ok(capacity: nat) -> bool {
    0 < capacity <= 2147483648 && 4294967296nat % capacity == 0
}

/// How many tasks a thief takes: half of what is there, at least one, and no more
/// than it has room for.
pub open spec fn steal_count(available: nat, room: nat) -> nat {
    let half = available / 2;
    let fits = if available < room {
        available
    } else {
        room
    };
    let count = if half < fits {
        half
    } else {
        fits
    };
    if count < 1 {
        1
    } else {
        count
    }
}

/// A range that a thief has reserved, with the tasks that stood in it.
#[derive(Debug)]
pub struct Claim<T> {
    start: u32,
    count: u32,
    tasks: Vec<T>,
}

impl<T> Claim<T> {
    /// The first position of the range, and how long it is.
    pub closed spec fn range(&self) -> (u32, nat) {
        (self.start, self.count as nat)
    }

    /// The tasks that were in the range, oldest first.
    pub closed spec fn tasks(&self) -> Seq<T> {
        self.tasks@
    }

    /// Takes the tasks out of the claim.
    pub fn take_tasks(&mut self) -> (tasks: Vec<T>)
        ensures
            tasks@ == old(self).tasks(),
            final(self).tasks() == Seq::<T>::empty(),
            final(self).range() == old(self).range(),
    {
        let mut tasks: Vec<T> = Vec::new();
        tasks.append(&mut self.tasks);
        assert(tasks@ =~= old(self).tasks());
        tasks
    }
}

/// A task that waits for room, and the range that its owner has emptied for it. Slots of
/// the range are free once every earlier claim has been freed.
#[derive(Debug)]
pub struct Blocked<T> {
    pub value: T,
    pub claim: Option<Claim<T>>,
}

/// The local queue of one worker.
pub struct Local<T> {
    capacity: usize,
    steal_head: u32,
    real_head: u32,
    tail: u32,
    slots: Vec<Option<T>>,
    claims: Ghost<Seq<(u32, nat)>>,
}

/// The claims follow each other from `from` to `to` without a gap.
pub open spec fn chained(claims: Seq<(u32, nat)>, from: u32, to: u32) -> bool
    decreases claims.len(),
{
    if claims.len() == 0 {
        from == to
    } else {
        claims[0].0 == from && claims[0].1 > 0 && chained(
            claims.drop_first(),
            position(from, claims[0].1),
            to,
        )
    }
}

/// The sum of the lengths of some claims.
pub open spec fn claimed(claims: Seq<(u32, nat)>) -> nat
    decreases claims.len(),
{
    if claims.len() == 0 {
        0
    } else {
        claims[0].1 + claimed(claims.drop_first())
    }
}

impl<T> Local<T> {
    /// How many slots are reserved by claims that have not committed.
    pub closed spec fn reserved(&self) -> nat {
        distance(self.real_head, self.steal_head)
    }

    /// How many tasks are free to be popped or claimed.
    spec fn available(&self) -> nat {
        distance(self.steal_head, self.tail)
    }

    /// The slot of the `k`-th free task.
    spec fn slot_of(&self, k: nat) -> int {
        position(self.steal_head, k) as int % self.capacity as int
    }

    /// The tasks that are free to be popped or claimed, oldest first.
    pub closed spec fn tasks(&self) -> Seq<T> {
        Seq::new(self.available(), |k: int| self.slots@[self.slot_of(k as nat)]->0)
    }

    /// The claims that have not committed, oldest first.
    pub closed spec fn claims(&self) -> Seq<(u32, nat)> {
        self.claims@
    }

    /// How many tasks the queue can hold.
    pub closed spec fn capacity(&self) -> nat {
        self.capacity as nat
    }

    /// The free tasks and the reservations fit, every free task is in its slot,
    /// and the claims cover the reserved range.
    pub closed spec fn wf(&self) -> bool {
        &&& capacity_ok(self.capacity as nat)
        &&& self.slots@.len() == self.capacity
        &&& self.reserved() + self.available() <= self.capacity
        &&& distance(self.real_head, self.tail) == self.reserved() + self.available()
        &&& forall|k: nat|
            k < self.available() ==> self.slots@[#[trigger] self.slot_of(k)] is Some
        &&& chained(self.claims@, self.real_head, self.steal_head)
        &&& claimed(self.claims@) == self.reserved()
    }
}

/// Two positions less than a capacity apart have different slots.
proof fn lemma_slots_differ(from: u32, j: nat, k: nat, capacity: nat)
    requires
        capacity_ok(capacity),
        j < k,
        k - j < capacity,
    ensures
        position(from, j) as int % capacity as int != position(from, k) as int % capacity as int,
{
    lemma_slot(from, j, capacity);
    lemma_slot(from, k, capacity);
    let a = from + j;
    let b = from + k;
    let c = capacity as int;
    if a % c == b % c {
        vstd::arithmetic::div_mod::lemma_mod_equivalence(b, a, c);
        vstd::arithmetic::div_mod::lemma_small_mod((k - j) as nat, capacity);
        assert(b - a == k - j);
        assert(false);
    }
}

/// The slot of a position does not depend on where the counter wraps.
proof fn lemma_slot(from: u32, k: nat, capacity: nat)
    requires
        capacity_ok(capacity),
    ensures
        position(from, k) as int % capacity as int == (from + k) % capacity as int,
        0 <= (from + k) % (capacity as int),
        ((from + k) % (capacity as int)) < capacity,
{
    reveal(position);
    let c = capacity as int;
    let n = 4294967296int;
    let times = n / c;
    vstd::arithmetic::div_mod::lemma_fundamental_div_mod(n, c);
    assert(n == c * times);
    assert(times > 0) by (nonlinear_arith)
        requires
            n == c * times,
            n > 0,
            c > 0,
    ;
    vstd::arithmetic::div_mod::lemma_mod_mod(from + k, c, times);
    vstd::arithmetic::div_mod::lemma_mod_bound(from + k, c);
}

/// Going the distance leads to the other position.
proof fn lemma_distance(from: u32, to: u32)
    ensures
        position(from, distance(from, to)) == to,
        distance(from, from) == 0,
        position(from, 0) == from,
{
    reveal(distance);
    reveal(position);
}

/// Going `k` further puts a position `k` further away.
proof fn lemma_further(from: u32, to: u32, k: nat)
    requires
        distance(from, to) + k < 4294967296,
    ensures
        distance(from, position(to, k)) == distance(from, to) + k,
{
    reveal(distance);
    reveal(position);
}

/// Wrapping arithmetic is arithmetic on the ring of positions.
proof fn lemma_wrapping(a: u32, b: u32)
    ensures
        a.wrapping_sub(b) == distance(b, a),
        a.wrapping_add(b) == position(a, b as nat),
{
    reveal(distance);
    reveal(position);
}

/// The position in front of the tail, which is the newest task's.
proof fn lemma_newest(from: u32, tail: u32)
    requires
        distance(from, tail) > 0,
    ensures
        tail.wrapping_sub(1) == position(from, (distance(from, tail) - 1) as nat),
        distance(from, tail.wrapping_sub(1)) == distance(from, tail) - 1,
{
    reveal(distance);
    reveal(position);
}

/// A position that is less than a full turn away is that far away.
proof fn lemma_away(from: u32, k: nat)
    requires
        k < 4294967296,
    ensures
        distance(from, position(from, k)) == k,
{
    reveal(distance);
    reveal(position);
}

/// Starting `k` later comes `k` closer.
proof fn lemma_closer(from: u32, to: u32, k: nat)
    requires
        k <= distance(from, to),
    ensures
        distance(position(from, k), to) == distance(from, to) - k,
        distance(from, position(from, k)) == k,
{
    reveal(distance);
    reveal(position);
}

/// Steps along the ring add up.
proof fn lemma_position_sum(from: u32, j: nat, k: nat)
    ensures
        position(position(from, j), k) == position(from, j + k),
{
    reveal(distance);
    reveal(position);
}

/// A claim behind a chain of claims makes the chain longer.
proof fn lemma_chain_push(claims: Seq<(u32, nat)>, from: u32, to: u32, count: nat)
    requires
        chained(claims, from, to),
        count > 0,
    ensures
        chained(claims.push((to, count)), from, position(to, count)),
        claimed(claims.push((to, count))) == claimed(claims) + count,
    decreases claims.len(),
{
    reveal_with_fuel(chained, 2);
    reveal_with_fuel(claimed, 2);
    let more = claims.push((to, count));
    if claims.len() == 0 {
        assert(more.drop_first() =~= Seq::empty());
    } else {
        assert(more.drop_first() =~= claims.drop_first().push((to, count)));
        lemma_chain_push(
            claims.drop_first(),
            position(from, claims[0].1),
            to,
            count,
        );
    }
}

/// A claim that starts where a chain of claims starts is the first of them.
proof fn lemma_chain_first(claims: Seq<(u32, nat)>, from: u32, to: u32, i: int)
    requires
        chained(claims, from, to),
        claimed(claims) <= 2147483648,
        0 <= i < claims.len(),
    ensures
        claims[i].0 == from <==> i == 0,
        claims[i].1 > 0,
{
    lemma_chain_offset(claims, from, to, i);
    lemma_away(from, claimed(claims.take(i)));
    lemma_distance(from, from);
    if i == 0 {
        assert(claims.take(0) =~= Seq::empty());
    }
}

/// A chain that leads nowhere holds no claims.
proof fn lemma_chain_empty(claims: Seq<(u32, nat)>, from: u32, to: u32)
    requires
        chained(claims, from, to),
        claimed(claims) == 0,
    ensures
        claims.len() == 0,
{
    if claims.len() > 0 {
        assert(claims[0].1 > 0);
    }
}

/// Each claim of a chain starts behind all the earlier ones.
proof fn lemma_chain_offset(claims: Seq<(u32, nat)>, from: u32, to: u32, i: int)
    requires
        chained(claims, from, to),
        0 <= i < claims.len(),
    ensures
        claims[i].0 == position(from, claimed(claims.take(i))),
        claims[i].1 > 0,
        claimed(claims.take(i)) < claimed(claims),
        i > 0 ==> claimed(claims.take(i)) > 0,
    decreases claims.len(),
{
    lemma_distance(from, from);
    if i == 0 {
        assert(claims.take(0) =~= Seq::empty());
    } else {
        let next = position(from, claims[0].1);
        lemma_chain_offset(claims.drop_first(), next, to, i - 1);
        assert(claims.take(i).drop_first() =~= claims.drop_first().take(i - 1));
        lemma_position_sum(from, claims[0].1, claimed(claims.drop_first().take(i - 1)));
    }
}

/// Moving the reservation frontier over the oldest tasks reserves their slots and
/// leaves the other tasks free.
proof fn lemma_claimed<T>(before: Local<T>, after: Local<T>, c: nat)
    requires
        before.wf(),
        0 < c <= before.available(),
        after == (Local {
            slots: after.slots,
            steal_head: position(before.steal_head, c),
            claims: after.claims,
            ..before
        }),
        after.claims@ == before.claims@.push((before.steal_head, c)),
        after.slots@.len() == before.slots@.len(),
        forall|k: nat|
            c <= k < before.available() ==> after.slots@[#[trigger] before.slot_of(k)]
                == before.slots@[before.slot_of(k)],
    ensures
        after.wf(),
        after.tasks() == before.tasks().skip(c as int),
        after.reserved() == before.reserved() + c,
{
    lemma_closer(before.steal_head, before.tail, c);
    lemma_further(before.real_head, before.steal_head, c);
    lemma_chain_push(before.claims@, before.real_head, before.steal_head, c);
    assert forall|k: nat| k < after.available() implies after.slots@[#[trigger] after.slot_of(k)]
        == before.slots@[before.slot_of(c + k)] by {
        lemma_position_sum(before.steal_head, c, k);
        assert(after.slot_of(k) == before.slot_of(c + k));
    }
    assert(after.tasks() =~= before.tasks().skip(c as int)) by {
        assert forall|k: int| 0 <= k < after.available() implies after.tasks()[k]
            == before.tasks()[c + k] by {
            assert(after.slots@[after.slot_of(k as nat)] == before.slots@[before.slot_of(
                (c + k) as nat,
            )]);
        }
    }
}

impl<T> Local<T> {
    /// An empty queue of the usual capacity.
    pub fn new() -> (queue: Self)
        ensures
            queue.wf(),
            queue.tasks() == Seq::<T>::empty(),
            queue.claims() == Seq::<(u32, nat)>::empty(),
            queue.reserved() == 0,
            queue.capacity() == LOCAL_QUEUE_CAPACITY,
    {
        Local::with_capacity(LOCAL_QUEUE_CAPACITY)
    }

    /// An empty queue of the given capacity, which is a power of two.
    pub fn with_capacity(capacity: usize) -> (queue: Self)
        requires
            capacity_ok(capacity as nat),
        ensures
            queue.wf(),
            queue.tasks() == Seq::<T>::empty(),
            queue.claims() == Seq::<(u32, nat)>::empty(),
            queue.reserved() == 0,
            queue.capacity() == capacity,
    {
        let mut slots: Vec<Option<T>> = Vec::new();
        let mut i: usize = 0;
        while i < capacity
            invariant
                i <= capacity,
                slots.len() == i,
            decreases capacity - i,
        {
            slots.push(None);
            i = i + 1;
        }
        proof {
            lemma_distance(0, 0);
        }
        let queue = Local {
            capacity,
            steal_head: 0,
            real_head: 0,
            tail: 0,
            slots,
            claims: Ghost(Seq::empty()),
        };
        assert(queue.tasks() =~= Seq::<T>::empty());
        queue
    }

    /// How many slots are taken: free tasks and reservations.
    pub fn len(&self) -> (len: usize)
        requires
            self.wf(),
        ensures
            len == self.reserved() + self.tasks().len(),
    {
        proof {
            lemma_wrapping(self.tail, self.real_head);
        }
        self.tail.wrapping_sub(self.real_head) as usize
    }

    /// How many more tasks fit.
    pub fn available_space(&self) -> (space: usize)
        requires
            self.wf(),
        ensures
            space == self.capacity() - self.reserved() - self.tasks().len(),
    {
        self.capacity - self.len()
    }

    fn slot(&self, index: u32) -> (slot: usize)
        requires
            self.wf(),
        ensures
            slot == index as int % self.capacity as int,
            slot < self.slots@.len(),
    {
        proof {
            vstd::arithmetic::div_mod::lemma_mod_bound(index as int, self.capacity as int);
        }
        index as usize % self.capacity
    }

    /// Adds a task at the tail. A full queue hands it back. Slots of claims that
    /// have not committed count as taken.
    pub fn push_back(&mut self, value: T) -> (result: Result<(), T>)
        requires
            old(self).wf(),
        ensures
            final(self).wf(),
            final(self).capacity() == old(self).capacity(),
            final(self).reserved() == old(self).reserved(),
            final(self).claims() == old(self).claims(),
            if old(self).reserved() + old(self).tasks().len() < old(self).capacity() {
                result is Ok && final(self).tasks() == old(self).tasks().push(value)
            } else {
                result == Err::<(), T>(value) && final(self).tasks() == old(self).tasks()
            },
    {
        if self.len() >= self.capacity {
            return Err(value);
        }
        let ghost before = *self;
        let ghost n = self.available();
        proof {
            lemma_distance(self.steal_head, self.tail);
            lemma_wrapping(self.tail, 1);
            lemma_further(self.steal_head, self.tail, 1);
            lemma_further(self.real_head, self.tail, 1);
            assert forall|k: nat| k < n implies #[trigger] before.slot_of(k) != before.slot_of(
                n,
            ) by {
                lemma_slots_differ(before.steal_head, k, n, before.capacity as nat);
            }
        }
        let at: usize = self.slot(self.tail);
        self.slots[at] = Some(value);
        self.tail = self.tail.wrapping_add(1);
        proof {
            assert(self.available() == n + 1);
            assert forall|k: nat| k < self.available() implies self.slots@[
                #[trigger] self.slot_of(k)
            ] is Some by {
                assert(self.slot_of(k) == before.slot_of(k));
                lemma_slot(before.steal_head, k, before.capacity as nat);
            }
            assert(self.tasks() =~= before.tasks().push(value)) by {
                assert forall|k: int| 0 <= k < n implies self.tasks()[k] == before.tasks()[k] by {
                    assert(self.slot_of(k as nat) == before.slot_of(k as nat));
                    lemma_slot(before.steal_head, k as nat, before.capacity as nat);
                }
            }
        }
        Ok(())
    }

    /// Takes the newest task. While a claim has not committed, the owner takes
    /// nothing.
    pub fn pop(&mut self) -> (task: Option<T>)
        requires
            old(self).wf(),
        ensures
            final(self).wf(),
            final(self).capacity() == old(self).capacity(),
            final(self).reserved() == old(self).reserved(),
            final(self).claims() == old(self).claims(),
            if old(self).reserved() > 0 || old(self).tasks().len() == 0 {
                task is None && final(self).tasks() == old(self).tasks()
            } else {
                task == Some(old(self).tasks().last()) && final(self).tasks() == old(self).tasks().drop_last()
            },
    {
        let ghost before = *self;
        let ghost n = self.available();
        proof {
            lemma_wrapping(self.tail, self.steal_head);
            lemma_distance(self.steal_head, self.steal_head);
            lemma_distance(self.real_head, self.steal_head);
        }
        let available: u32 = self.tail.wrapping_sub(self.steal_head);
        if available == 0 || self.real_head != self.steal_head {
            return None;
        }
        proof {
            lemma_distance(self.steal_head, self.tail);
            assert(self.claims@.len() == 0) by {
                if self.claims@.len() > 0 {
                    lemma_chain_offset(self.claims@, self.real_head, self.steal_head, 0);
                }
            }
        }
        proof {
            lemma_newest(self.steal_head, self.tail);
            lemma_wrapping(self.steal_head, 1);
            lemma_closer(self.steal_head, self.tail, 1);
            lemma_distance(self.tail, self.tail);
        }
        let newest: u32 = self.tail.wrapping_sub(1);
        assert(newest == position(self.steal_head, (n - 1) as nat));
        let at: usize = self.slot(newest);
        assert(at == before.slot_of((n - 1) as nat));
        let task = self.slots[at].take();
        if available == 1 {
            self.steal_head = self.steal_head.wrapping_add(1);
            self.real_head = self.real_head.wrapping_add(1);
            assert(self.available() == 0);
        } else {
            self.tail = newest;
            assert(self.available() == n - 1);
            proof {
                assert forall|k: nat| k < n - 1 implies #[trigger] before.slot_of(k) != at && self.slot_of(k) == before.slot_of(k) by {
                    lemma_slots_differ(
                        before.steal_head,
                        k,
                        (n - 1) as nat,
                        before.capacity as nat,
                    );
                }
                assert forall|k: nat| k < self.available() implies self.slots@[
                    #[trigger] self.slot_of(k)
                ] is Some by {
                    assert(self.slot_of(k) == before.slot_of(k));
                    lemma_slot(before.steal_head, k, before.capacity as nat);
                }
            }
        }
        proof {
            assert(self.tasks() =~= before.tasks().drop_last()) by {
                assert forall|k: int| 0 <= k < n - 1 implies self.tasks()[k]
                    == before.tasks()[k] by {
                    assert(self.slot_of(k as nat) == before.slot_of(k as nat));
                    lemma_slot(before.steal_head, k as nat, before.capacity as nat);
                }
            }
        }
        task
    }

    /// Takes the oldest tasks out of their slots.
    fn take_oldest(&mut self, count: u32) -> (tasks: Vec<T>)
        requires
            old(self).wf(),
            count <= old(self).tasks().len(),
        ensures
            tasks@ == old(self).tasks().take(count as int),
            *final(self) == (Local { slots: final(self).slots, ..*old(self) }),
            final(self).slots@.len() == old(self).slots@.len(),
            forall|k: nat|
                count <= k < old(self).available() ==> final(self).slots@[
                    #[trigger] old(self).slot_of(k)
                ] == old(self).slots@[old(self).slot_of(k)],
    {
        let ghost before = *self;
        let ghost n = self.available();
        let start: u32 = self.steal_head;
        let mut tasks: Vec<T> = Vec::new();
        let mut i: u32 = 0;
        while i < count
            invariant
                i <= count,
                count <= n,
                n == before.available(),
                before.wf(),
                start == before.steal_head,
                *self == (Local { slots: self.slots, ..before }),
                self.slots@.len() == before.slots@.len(),
                tasks@ == before.tasks().take(i as int),
                forall|k: nat|
                    i <= k < n ==> self.slots@[#[trigger] before.slot_of(k)]
                        == before.slots@[before.slot_of(k)],
            decreases count - i,
        {
            let at: usize = (start.wrapping_add(i) as usize) % self.capacity;
            proof {
                lemma_slot(start, i as nat, before.capacity as nat);
                lemma_wrapping(start, i);
                assert(at == before.slot_of(i as nat));
                assert forall|k: nat| i < k < n implies #[trigger] before.slot_of(k) != at by {
                    lemma_slots_differ(start, i as nat, k, before.capacity as nat);
                }
            }
            let slot = self.slots[at].take();
            assert(slot is Some);
            if let Some(task) = slot {
                tasks.push(task);
            }
            proof {
                assert forall|k: nat| i + 1 <= k < n implies self.slots@[
                    #[trigger] before.slot_of(k)
                ] == before.slots@[before.slot_of(k)] by {
                    lemma_slot(start, k, before.capacity as nat);
                }
            }
            i = i + 1;
            assert(tasks@ =~= before.tasks().take(i as int));
        }
        tasks
    }

    /// Reserves part of the queue for a thief with room for `room` tasks, and
    /// takes the oldest tasks out. The slots stay taken until the claim commits.
    pub fn claim(&mut self, room: usize) -> (claim: Option<Claim<T>>)
        requires
            old(self).wf(),
        ensures
            final(self).wf(),
            final(self).capacity() == old(self).capacity(),
            match claim {
                None => (old(self).tasks().len() == 0 || room == 0) && final(self).tasks() == old(self).tasks() && final(self).claims() == old(self).claims() && final(self).reserved()
                    == old(self).reserved(),
                Some(claim) => {
                    let count = steal_count(old(self).tasks().len(), room as nat);
                    &&& old(self).tasks().len() > 0
                    &&& room > 0
                    &&& claim.range().1 == count
                    &&& claim.tasks() == old(self).tasks().take(count as int)
                    &&& final(self).tasks() == old(self).tasks().skip(count as int)
                    &&& final(self).claims() == old(self).claims().push(claim.range())
                    &&& final(self).reserved() == old(self).reserved() + count
                    &&& final(self).claims()[0] == claim.range() <==> old(self).reserved() == 0
                },
            },
    {
        proof {
            lemma_wrapping(self.tail, self.steal_head);
            lemma_distance(self.steal_head, self.steal_head);
            lemma_distance(self.real_head, self.steal_head);
        }
        let available: u32 = self.tail.wrapping_sub(self.steal_head);
        if available == 0 || room == 0 {
            return None;
        }
        let ghost before = *self;
        let ghost n = self.available();
        let half: u32 = available / 2;
        let fits: u32 = if (available as usize) < room {
            available
        } else {
            room as u32
        };
        let smaller: u32 = if half < fits {
            half
        } else {
            fits
        };
        let count: u32 = if smaller < 1 {
            1
        } else {
            smaller
        };
        assert(count == steal_count(n, room as nat));
        let start: u32 = self.steal_head;
        let tasks = self.take_oldest(count);
        self.steal_head = start.wrapping_add(count);
        proof {
            lemma_wrapping(start, count);
            self.claims@ = before.claims@.push((start, count as nat));
            lemma_claimed(before, *self, count as nat);
            let all = self.claims@;
            lemma_chain_first(all, self.real_head, self.steal_head, all.len() - 1);
            if before.reserved() == 0 {
                lemma_chain_empty(before.claims@, before.real_head, before.steal_head);
            }
            assert(before.claims@.len() == 0 ==> before.reserved() == 0);
            lemma_chain_first(all, self.real_head, self.steal_head, 0);
        }
        Some(Claim { start, count, tasks })
    }

    /// Frees the slots of a claim, once every earlier claim has been freed. A
    /// claim that has to wait is handed back.
    pub fn commit(&mut self, claim: Claim<T>) -> (result: Result<(), Claim<T>>)
        requires
            old(self).wf(),
            old(self).claims().contains(claim.range()),
        ensures
            final(self).wf(),
            final(self).capacity() == old(self).capacity(),
            final(self).tasks() == old(self).tasks(),
            if old(self).claims()[0] == claim.range() {
                result is Ok && final(self).claims() == old(self).claims().drop_first() && final(self).reserved() == old(self).reserved() - claim.range().1
            } else {
                result == Err::<(), Claim<T>>(claim) && final(self).claims() == old(self).claims()
                    && final(self).reserved() == old(self).reserved()
            },
    {
        let ghost before = *self;
        proof {
            let i = choose|i: int| 0 <= i < self.claims@.len() && self.claims@[i] == claim.range();
            lemma_chain_first(self.claims@, self.real_head, self.steal_head, i);
            lemma_chain_first(self.claims@, self.real_head, self.steal_head, 0);
        }
        if self.real_head != claim.start {
            return Err(claim);
        }
        self.real_head = claim.start.wrapping_add(claim.count);
        proof {
            let c = claim.count as nat;
            lemma_wrapping(claim.start, claim.count);
            lemma_closer(before.real_head, before.steal_head, c);
            lemma_closer(before.real_head, before.tail, c);
            self.claims@ = before.claims@.drop_first();
            assert(self.real_head == position(before.real_head, c));
            assert forall|k: nat| k < self.available() implies self.slots@[
                #[trigger] self.slot_of(k)
            ] is Some by {
                assert(self.slot_of(k) == before.slot_of(k));
            }
            assert(self.tasks() =~= before.tasks()) by {
                assert forall|k: int| 0 <= k < self.available() implies self.tasks()[k]
                    == before.tasks()[k] by {
                    assert(self.slot_of(k as nat) == before.slot_of(k as nat));
                }
            }
        }
        Ok(())
    }

    /// Steals up to half of the tasks into `dst`, returning the oldest one for the
    /// worker to poll immediately. The others go to the tail of `dst`.
    pub fn steal_into(&mut self, dst: &mut Local<T>) -> (first: Option<T>)
        requires
            old(self).wf(),
            old(dst).wf(),
            old(self).reserved() == 0,
        ensures
            final(self).wf(),
            final(dst).wf(),
            final(self).capacity() == old(self).capacity(),
            final(dst).capacity() == old(dst).capacity(),
            final(self).reserved() == 0,
            final(dst).reserved() == old(dst).reserved(),
            final(dst).claims() == old(dst).claims(),
            ({
                let room = old(dst).capacity() - old(dst).reserved() - old(dst).tasks().len();
                let count = steal_count(old(self).tasks().len(), room as nat);
                if old(self).tasks().len() == 0 || room == 0 {
                    first is None && final(self).tasks() == old(self).tasks() && final(dst).tasks()
                        == old(dst).tasks()
                } else {
                    first == Some(old(self).tasks()[0]) && final(self).tasks() == old(self).tasks().skip(count as int) && final(dst).tasks() == old(dst).tasks() + old(self).tasks().subrange(1, count as int)
                }
            }),
    {
        let room: usize = dst.available_space();
        let ghost source = self.tasks();
        let ghost target = dst.tasks();
        let ghost count = steal_count(source.len(), room as nat);
        proof {
            assert(self.claims@.len() == 0) by {
                if self.claims@.len() > 0 {
                    lemma_chain_offset(self.claims@, self.real_head, self.steal_head, 0);
                }
            }
        }
        match self.claim(room) {
            None => None,
            Some(claim) => {
                let mut claim = claim;
                let ghost range = claim.range();
                assert(self.claims() =~= seq![range]);
                let mut tasks = claim.take_tasks();
                let first = tasks.remove(0);
                let ghost rest = tasks@;
                assert(rest =~= source.subrange(1, count as int));
                let mut moved: Vec<T> = Vec::new();
                while tasks.len() > 0
                    invariant
                        moved@ + tasks@.reverse() == rest.reverse(),
                    decreases tasks.len(),
                {
                    let ghost left = tasks@;
                    if let Some(task) = tasks.pop() {
                        moved.push(task);
                        assert(moved@ + tasks@.reverse() =~= rest.reverse()) by {
                            assert(left.reverse() =~= seq![task] + tasks@.reverse());
                        }
                    }
                }
                assert(moved@ =~= rest.reverse());
                let ghost mut done: int = 0;
                while moved.len() > 0
                    invariant
                        dst.wf(),
                        dst.capacity() == old(dst).capacity(),
                        dst.reserved() == old(dst).reserved(),
                        dst.claims() == old(dst).claims(),
                        target == old(dst).tasks(),
                        room == old(dst).capacity() - old(dst).reserved() - target.len(),
                        rest.len() < room,
                        0 <= done <= rest.len(),
                        moved.len() == rest.len() - done,
                        moved@ == rest.skip(done).reverse(),
                        dst.tasks() == target + rest.take(done),
                    decreases moved.len(),
                {
                    assert(moved@.last() == rest[done]);
                    assert(moved@.drop_last() =~= rest.skip(done + 1).reverse());
                    if let Some(task) = moved.pop() {
                        let pushed = dst.push_back(task);
                        assert(pushed is Ok);
                        assert((target + rest.take(done)).push(rest[done]) =~= target + rest.take(
                            done + 1,
                        ));
                        proof {
                            done = done + 1;
                        }
                    }
                }
                assert(rest.take(done) =~= rest);
                let committed = self.commit(claim);
                assert(committed is Ok);
                Some(first)
            },
        }
    }

    /// Adds a task to a full queue: the older half of the free tasks moves to `overflow`,
    /// and the new task stays local. Where an earlier claim has not committed, the slots
    /// of that half are not free yet, and the task waits for them; where no task is free
    /// at all, there is nothing to move, and the task waits for the claims alone.
    pub fn push_overflow(&mut self, value: T, overflow: &mut Vec<T>) -> (result: Result<
        (),
        Blocked<T>,
    >)
        requires
            old(self).wf(),
        ensures
            final(self).wf(),
            final(self).capacity() == old(self).capacity(),
            ({
                let tasks = old(self).tasks();
                let count = steal_count(tasks.len(), LOCAL_QUEUE_CAPACITY as nat) as int;
                let moved = seq![tasks[0]] + tasks.subrange(1, count).reverse();
                if old(self).reserved() + tasks.len() < old(self).capacity() {
                    &&& result is Ok
                    &&& final(self).tasks() == tasks.push(value)
                    &&& final(self).claims() == old(self).claims()
                    &&& final(self).reserved() == old(self).reserved()
                    &&& final(overflow)@ == old(overflow)@
                } else if tasks.len() == 0 {
                    &&& result == Err::<(), Blocked<T>>(Blocked { value, claim: None })
                    &&& final(self).tasks() == tasks
                    &&& final(self).claims() == old(self).claims()
                    &&& final(self).reserved() == old(self).reserved()
                    &&& final(overflow)@ == old(overflow)@
                } else if old(self).reserved() == 0 {
                    &&& result is Ok
                    &&& final(self).tasks() == tasks.skip(count).push(value)
                    &&& final(self).claims() == old(self).claims()
                    &&& final(self).reserved() == 0
                    &&& final(overflow)@ == old(overflow)@ + moved
                } else {
                    &&& result matches Err(blocked)
                    &&& blocked.value == value
                    &&& blocked.claim matches Some(claim)
                    &&& claim.tasks() == Seq::<T>::empty()
                    &&& claim.range().1 == count
                    &&& final(self).tasks() == tasks.skip(count)
                    &&& final(self).claims() == old(self).claims().push(claim.range())
                    &&& final(self).reserved() == old(self).reserved() + count
                    &&& final(overflow)@ == old(overflow)@ + moved
                }
            }),
    {
        let value = match self.push_back(value) {
            Ok(()) => return Ok(()),
            Err(value) => value,
        };
        let ghost tasks = self.tasks();
        let ghost count = steal_count(tasks.len(), LOCAL_QUEUE_CAPACITY as nat) as int;
        let mut claim = match self.claim(LOCAL_QUEUE_CAPACITY) {
            Some(claim) => claim,
            None => return Err(Blocked { value, claim: None }),
        };
        let mut taken = claim.take_tasks();
        assert(taken@ =~= tasks.take(count));
        let first = taken.remove(0);
        overflow.push(first);
        let ghost head = overflow@;
        let ghost rest = tasks.subrange(1, count);
        assert(taken@ =~= rest);
        assert(head =~= old(overflow)@ + seq![tasks[0]]);
        assert(rest.skip(rest.len() as int).reverse() =~= Seq::empty());
        assert(overflow@ =~= head + rest.skip(taken@.len() as int).reverse());
        while taken.len() > 0
            invariant
                taken@.len() <= rest.len(),
                taken@ == rest.take(taken@.len() as int),
                overflow@ == head + rest.skip(taken@.len() as int).reverse(),
            decreases taken@.len(),
        {
            let ghost left = taken@.len() as int;
            if let Some(task) = taken.pop() {
                overflow.push(task);
                assert(taken@ =~= rest.take(left - 1));
                assert(rest.skip(left - 1).reverse() =~= rest.skip(left).reverse().push(
                    rest[left - 1],
                ));
                assert(overflow@ =~= head + rest.skip(left - 1).reverse());
            }
        }
        assert(rest.skip(0) =~= rest);
        assert(overflow@ =~= old(overflow)@ + (seq![tasks[0]] + rest.reverse()));
        proof {
            let claims = self.claims();
            assert(claims[claims.len() - 1] == claim.range());
            assert(claims.contains(claim.range()));
            if old(self).reserved() == 0 {
                lemma_chain_empty(old(self).claims@, old(self).real_head, old(self).steal_head);
                assert(claims.drop_first() =~= old(self).claims());
            }
        }
        self.finish_overflow(Blocked { value, claim: Some(claim) })
    }

    /// Adds a task that waits for room, once its own range is free or, where it has none,
    /// a slot is.
    pub fn finish_overflow(&mut self, blocked: Blocked<T>) -> (result: Result<(), Blocked<T>>)
        requires
            old(self).wf(),
            blocked.claim matches Some(claim) ==> old(self).claims().contains(claim.range()),
        ensures
            final(self).wf(),
            final(self).capacity() == old(self).capacity(),
            ({
                let due = match blocked.claim {
                    Some(claim) => old(self).claims()[0] == claim.range(),
                    None => {
                        let taken = old(self).reserved() + old(self).tasks().len();
                        taken < old(self).capacity()
                    },
                };
                if due {
                    &&& result is Ok
                    &&& final(self).tasks() == old(self).tasks().push(blocked.value)
                    &&& match blocked.claim {
                        Some(claim) => {
                            &&& final(self).claims() == old(self).claims().drop_first()
                            &&& final(self).reserved() == old(self).reserved() - claim.range().1
                        },
                        None => {
                            &&& final(self).claims() == old(self).claims()
                            &&& final(self).reserved() == old(self).reserved()
                        },
                    }
                } else {
                    &&& result == Err::<(), Blocked<T>>(blocked)
                    &&& final(self).tasks() == old(self).tasks()
                    &&& final(self).claims() == old(self).claims()
                    &&& final(self).reserved() == old(self).reserved()
                }
            }),
    {
        let Blocked { value, claim } = blocked;
        if let Some(claim) = claim {
            proof {
                law_queue_is_bounded(&*self);
                let i = choose|i: int|
                    0 <= i < self.claims@.len() && self.claims@[i] == claim.range();
                lemma_chain_first(self.claims@, self.real_head, self.steal_head, i);
            }
            match self.commit(claim) {
                Ok(()) => {},
                Err(claim) => return Err(Blocked { value, claim: Some(claim) }),
            }
        }
        match self.push_back(value) {
            Ok(()) => Ok(()),
            Err(value) => Err(Blocked { value, claim: None }),
        }
    }
}

/// A queue never holds more than its capacity: free tasks and reserved slots
/// together fit.
pub proof fn law_queue_is_bounded<T>(queue: &Local<T>)
    requires
        queue.wf(),
    ensures
        queue.reserved() + queue.tasks().len() <= queue.capacity(),
{
}

} // verus!
