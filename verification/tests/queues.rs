//! The queues of the schedulers, and the cooperative budget.

use eddy::coop::{
    budget_guard, has_budget_remaining, poll_proceed, unarmed, unconstrained, BUDGET,
};
use eddy::poll::Poll;
use eddy::scheduler::inject::Injector;
use eddy::scheduler::queue::{Claim, Local, LOCAL_QUEUE_CAPACITY};

fn drain(queue: &mut Local<u32>) -> Vec<u32> {
    let mut values = Vec::new();
    while let Some(value) = queue.pop() {
        values.push(value);
    }
    values
}

fn full(capacity: usize) -> Local<u32> {
    let mut queue = Local::with_capacity(capacity);
    for value in 0..capacity as u32 {
        queue.push_back(value).unwrap();
    }
    queue
}

#[test]
fn owner_pushes_and_pops_in_lifo_order() {
    let mut queue = Local::<u32>::new();
    queue.push_back(1).unwrap();
    queue.push_back(2).unwrap();
    queue.push_back(3).unwrap();

    assert_eq!(queue.pop(), Some(3));
    assert_eq!(queue.pop(), Some(2));
    assert_eq!(queue.pop(), Some(1));
    assert_eq!(queue.pop(), None);
}

#[test]
fn push_rejects_the_257th_item_without_dropping_it() {
    let mut queue = Local::<u32>::new();
    for value in 0..LOCAL_QUEUE_CAPACITY as u32 {
        queue.push_back(value).unwrap();
    }

    assert_eq!(queue.push_back(LOCAL_QUEUE_CAPACITY as u32), Err(256));
    assert_eq!(queue.len(), LOCAL_QUEUE_CAPACITY);
}

#[test]
fn stealing_moves_half_and_leaves_the_owner_with_the_other_half() {
    let mut source = Local::<u32>::new();
    let mut destination = Local::<u32>::new();
    for value in 0..8 {
        source.push_back(value).unwrap();
    }

    let first = source.steal_into(&mut destination).unwrap();
    assert_eq!(first, 0);
    assert_eq!(source.len(), 4);
    assert_eq!(destination.len(), 3);

    let mut stolen = vec![first];
    while let Some(value) = destination.pop() {
        stolen.push(value);
    }
    while let Some(value) = source.pop() {
        stolen.push(value);
    }
    stolen.sort_unstable();
    assert_eq!(stolen, (0..8).collect::<Vec<_>>());
}

#[test]
fn push_overflow_moves_the_older_half_and_keeps_the_new_task_local() {
    let mut queue = Local::<u32>::new();
    for value in 0..LOCAL_QUEUE_CAPACITY as u32 {
        queue.push_back(value).unwrap();
    }

    let mut overflow = Vec::new();
    queue
        .push_overflow(LOCAL_QUEUE_CAPACITY as u32, &mut overflow)
        .unwrap();

    // The OLDER half moved out; the queue still holds the newer half
    // plus the new task at its tail.
    assert_eq!(overflow.len(), LOCAL_QUEUE_CAPACITY / 2);
    assert_eq!(queue.len(), LOCAL_QUEUE_CAPACITY / 2 + 1);
    let mut moved = overflow.clone();
    moved.sort_unstable();
    assert_eq!(
        moved,
        (0..LOCAL_QUEUE_CAPACITY as u32 / 2).collect::<Vec<_>>()
    );
    // The new task is polled first (LIFO): it stayed on this worker.
    assert_eq!(queue.pop(), Some(LOCAL_QUEUE_CAPACITY as u32));

    // Half the queue is now free: the next overflow is a long way off.
    assert!(queue.push_back(1_000).is_ok());

    let mut values = overflow;
    while let Some(value) = queue.pop() {
        values.push(value);
    }
    values.sort_unstable();
    // 256 was already popped above; everything else must still be here.
    let mut expected = (0..LOCAL_QUEUE_CAPACITY as u32).collect::<Vec<_>>();
    expected.push(1_000);
    assert_eq!(values, expected);
}

/// Ends claims in the order in which they were made, and returns their tasks.
fn finish(owner: &mut Local<u32>, claims: Vec<Claim<u32>>) -> Vec<u32> {
    let mut values = Vec::new();
    for mut claim in claims {
        values.extend(claim.take_tasks());
        assert!(owner.commit(claim).is_ok());
    }
    values
}

#[test]
fn two_thieves_do_not_duplicate_or_drop_items() {
    // One thief after the other.
    let mut source = full(4);
    let mut values = Vec::new();
    for _ in 0..2 {
        let mut destination = Local::<u32>::new();
        values.extend(source.steal_into(&mut destination));
        values.extend(drain(&mut destination));
    }
    values.extend(drain(&mut source));
    values.sort_unstable();
    assert_eq!(values, vec![0, 1, 2, 3]);

    // Both claim before either is done, and the later one is done first.
    let mut source = full(4);
    let mut first = source.claim(4).unwrap();
    let mut second = source.claim(4).unwrap();
    let mut values = second.take_tasks();
    let second = match source.commit(second) {
        Err(claim) => claim,
        Ok(()) => panic!("a claim was done before an earlier one"),
    };
    assert_eq!(source.pop(), None);
    values.extend(first.take_tasks());
    assert!(source.commit(first).is_ok());
    assert!(source.commit(second).is_ok());
    values.extend(drain(&mut source));
    values.sort_unstable();
    assert_eq!(values, vec![0, 1, 2, 3]);
}

#[test]
fn push_overflow_racing_a_steal_never_loses_or_duplicates_tasks() {
    // The steal is over before the overflow.
    let mut owner = full(4);
    let mut destination = Local::<u32>::with_capacity(4);
    let mut overflow = Vec::new();
    let mut values: Vec<u32> = owner.steal_into(&mut destination).into_iter().collect();
    owner.push_overflow(99, &mut overflow).unwrap();
    values.extend(drain(&mut destination));
    values.extend(drain(&mut owner));
    values.extend(overflow);
    values.sort_unstable();
    assert_eq!(values, vec![0, 1, 2, 3, 99]);

    // The overflow comes first.
    let mut owner = full(4);
    let mut destination = Local::<u32>::with_capacity(4);
    let mut overflow = Vec::new();
    owner.push_overflow(99, &mut overflow).unwrap();
    let mut values: Vec<u32> = owner.steal_into(&mut destination).into_iter().collect();
    values.extend(drain(&mut destination));
    values.extend(drain(&mut owner));
    values.extend(overflow);
    values.sort_unstable();
    assert_eq!(values, vec![0, 1, 2, 3, 99]);

    // The overflow comes while the thief still copies: the older half of what is free
    // moves out at once, and the task waits for its slots.
    let mut owner = full(4);
    let claim = owner.claim(4).unwrap();
    let mut overflow = Vec::new();
    let blocked = owner.push_overflow(99, &mut overflow).unwrap_err();
    assert_eq!((blocked.value, overflow.clone()), (99, vec![2]));
    assert_eq!(owner.len(), 4);
    let blocked = owner.finish_overflow(blocked).unwrap_err();
    let mut values = finish(&mut owner, vec![claim]);
    owner.finish_overflow(blocked).unwrap();
    assert_eq!(owner.len(), 2);
    values.extend(drain(&mut owner));
    values.extend(overflow);
    values.sort_unstable();
    assert_eq!(values, vec![0, 1, 2, 3, 99]);

    // Every slot is claimed: nothing moves, and the task waits for a slot.
    let mut owner = full(4);
    let claims: Vec<_> = (0..3).map(|_| owner.claim(4).unwrap()).collect();
    let mut overflow = Vec::new();
    let blocked = owner.push_overflow(99, &mut overflow).unwrap_err();
    assert!(blocked.claim.is_none() && overflow.is_empty());
    let blocked = owner.finish_overflow(blocked).unwrap_err();
    let mut values = finish(&mut owner, claims);
    owner.finish_overflow(blocked).unwrap();
    values.extend(drain(&mut owner));
    values.sort_unstable();
    assert_eq!(values, vec![0, 1, 2, 3, 99]);
}

#[test]
fn owner_push_back_never_reuses_a_slot_claimed_by_an_unfinished_steal() {
    for pushed_between in 0..5 {
        let mut owner = full(4);
        let mut rejected = Vec::new();
        let mut push = |owner: &mut Local<u32>, values: std::ops::Range<u32>| {
            for value in values {
                if let Err(value) = owner.push_back(value) {
                    rejected.push(value);
                }
            }
        };
        let first = owner.claim(4).unwrap();
        let second = owner.claim(4).unwrap();
        push(&mut owner, 4..4 + pushed_between);
        let mut values = finish(&mut owner, vec![first]);
        push(&mut owner, 4 + pushed_between..8);
        values.extend(finish(&mut owner, vec![second]));
        values.extend(drain(&mut owner));
        values.extend(rejected);
        values.sort_unstable();
        assert_eq!(values, (0..8).collect::<Vec<_>>());
    }
}

#[test]
fn the_queue_survives_many_rounds_of_its_indices() {
    let mut queue = Local::<u32>::with_capacity(4);
    let mut destination = Local::<u32>::with_capacity(4);
    for round in 0..1_000_u32 {
        queue.push_back(round).unwrap();
        queue.push_back(round + 1).unwrap();
        assert_eq!(queue.available_space(), 2);
        assert_eq!(queue.steal_into(&mut destination), Some(round));
        assert_eq!(queue.pop(), Some(round + 1));
        assert_eq!(queue.len() + destination.len(), 0);
    }
}

#[test]
fn intrusive_push_pop_and_batch_preserve_all_tasks() {
    let mut injector = Injector::new();
    let (first, second, third) = (1, 2, 3);
    injector.push(first);
    injector.push_batch(vec![second, third]);
    assert_eq!(injector.len(), 3);
    let popped = injector.pop_n(2);
    assert_eq!(popped.len(), 2);
    drop(popped);
    assert!(injector.pop().is_some());
    assert_eq!(injector.len(), 0);
}

#[test]
fn close_releases_new_tasks_instead_of_linking_them() {
    let mut injector = Injector::new();
    injector.close();
    injector.push(7);
    assert_eq!(injector.len(), 0);
    injector.push_batch(vec![8, 9]);
    assert_eq!(injector.len(), 0);
    assert!(injector.is_closed());
}

#[test]
fn concurrent_push_pop_preserves_every_task_exactly_once() {
    // Every way to mix the steps of two producers and one consumer that takes a
    // task after each step, or none.
    for order in 0..16_u32 {
        for takes in 0..16_u32 {
            let mut injector = Injector::new();
            let mut producers = [vec![0, 1], vec![2, 3]];
            let mut seen = Vec::new();
            for step in 0..4 {
                let wanted = (order >> step & 1) as usize;
                let chosen = if producers[wanted].is_empty() {
                    1 - wanted
                } else {
                    wanted
                };
                injector.push(producers[chosen].remove(0));
                if takes >> step & 1 == 1 {
                    seen.extend(injector.pop());
                }
            }
            while let Some(task) = injector.pop() {
                seen.push(task);
            }
            assert_eq!(injector.len(), 0);
            assert_eq!(seen.len(), 4);
            seen.sort_unstable();
            seen.dedup();
            assert_eq!(seen.len(), 4);
        }
    }
}

#[test]
fn the_injector_is_first_in_first_out() {
    let mut injector = Injector::new();
    for task in 0..5 {
        injector.push(task);
    }
    assert_eq!(injector.pop(), Some(0));
    assert_eq!(injector.pop_n(3), vec![1, 2, 3]);
    assert_eq!(injector.pop_n(3), vec![4]);
    assert!(injector.pop_n(3).is_empty());
}

#[test]
fn budget_consumes_exactly_128_then_yields() {
    let mut budget = unarmed();
    let guard = budget_guard(&mut budget);
    for _ in 0..BUDGET {
        assert!(
            poll_proceed(&mut budget).is_ready(),
            "first 128 proceeds are Ready"
        );
    }
    assert!(
        poll_proceed(&mut budget).is_pending(),
        "the 129th proceed yields"
    );
    guard.release(&mut budget);
    assert!(
        has_budget_remaining(&budget),
        "no budget outside a task poll"
    );
    assert_eq!(BUDGET, 128);
}

#[test]
fn unconstrained_does_not_consume_budget() {
    let mut budget = unarmed();
    let guard = budget_guard(&mut budget);
    let before = budget;
    let _ = unconstrained(&mut budget, |budget| {
        let _ = poll_proceed(budget);
        Poll::Ready(())
    });
    assert!(
        has_budget_remaining(&budget),
        "the wrapper's poll must not consume the outer budget"
    );
    assert_eq!(budget, before);
    let proceeds = unconstrained(&mut budget, |budget| {
        (0..1_000).all(|_| poll_proceed(budget).is_ready())
    });
    assert!(proceeds);
    guard.release(&mut budget);
    assert_eq!(budget, unarmed());
}

#[test]
fn nested_guards_restore_what_was_left() {
    let mut budget = unarmed();
    let outer = budget_guard(&mut budget);
    for _ in 0..3 {
        let _ = poll_proceed(&mut budget);
    }
    let inner = budget_guard(&mut budget);
    assert_eq!(budget.remaining, Some(BUDGET));
    inner.release(&mut budget);
    assert_eq!(budget.remaining, Some(BUDGET - 3));
    outer.release(&mut budget);
    assert_eq!(budget.remaining, None);
}
