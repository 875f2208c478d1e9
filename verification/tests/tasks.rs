//! Combinators, streams, cancellation and blocking jobs.

use eddy::blocking::{
    BlockingPool, BlockingTask, Submitted, ThreadStep, DEFAULT_KEEP_ALIVE,
    DEFAULT_MAX_BLOCKING_THREADS,
};
use eddy::cancellation::{CancellationToken, CancellationTokens};
use eddy::future::join_set::JoinSet;
use eddy::future::unordered::{FuturesUnordered, Next};
use eddy::future::{
    join2, next_select_turn, race, select2, select2_biased, try_join2, try_join3,
    yield_now, Either, Select2Guarded, SelectSeed,
};
use eddy::poll::Poll;
use eddy::stream::{iter, Step, Stream, StreamExt, Supplied, Supply};
use std::collections::VecDeque;

#[test]
fn join_waits_for_both_and_polls_neither_twice() {
    let mut join = join2();
    assert!(join
        .poll(|| Poll::Ready(1), || Poll::<&str>::Pending)
        .is_pending());
    let polled = join.poll(
        || panic!("the first future was polled after its output"),
        || Poll::Ready("two"),
    );
    assert_eq!(polled, Poll::Ready((1, "two")));
}

#[test]
fn try_join_ends_with_the_first_error() {
    let mut join = try_join2::<u8, u8>();
    assert!(join
        .poll::<&str, _, _>(|| Poll::Pending, || Poll::Ready(Ok(2)))
        .is_pending());
    assert_eq!(
        join.poll(|| Poll::Ready(Err("no")), || panic!("polled again")),
        Poll::Ready(Err("no"))
    );
    let mut join = try_join3::<u8, u8, u8>();
    assert!(join
        .poll::<&str, _, _, _>(
            || Poll::Ready(Ok(1)),
            || Poll::Pending,
            || Poll::Ready(Ok(3))
        )
        .is_pending());
    assert_eq!(
        join.poll::<&str, _, _, _>(
            || panic!("polled again"),
            || Poll::Ready(Ok(2)),
            || panic!("polled again")
        ),
        Poll::Ready(Ok((1, 2, 3)))
    );
}

#[test]
fn select_takes_turns_unless_it_is_biased() {
    let ready = |mut select: eddy::future::Select2| {
        let mut firsts = Vec::new();
        for _ in 0..4 {
            match select.poll(|| Poll::Ready('a'), || Poll::Ready('b')) {
                Poll::Ready(winner) => firsts.push(race(winner)),
                Poll::Pending => panic!("both branches are ready"),
            }
        }
        firsts
    };
    assert_eq!(ready(select2_biased()), vec!['a', 'a', 'a', 'a']);
    let mut seed = SelectSeed::new();
    let turns = ready(select2(&mut seed));
    assert!(turns == vec!['a', 'b', 'a', 'b'] || turns == vec!['b', 'a', 'b', 'a']);
    assert_ne!(seed, SelectSeed::new());
    let mut select = select2(&mut seed);
    assert_eq!(
        select.poll(|| Poll::<u8>::Pending, || Poll::Ready("late")),
        Poll::Ready(Either::Right("late"))
    );
    assert!(select
        .poll(|| Poll::<u8>::Pending, || Poll::<u8>::Pending)
        .is_pending());
}

#[test]
fn the_select_seed_has_its_known_successor() {
    let mut seed = SelectSeed { seed: 1 };
    let first = next_select_turn(&mut seed);
    // 1 ^ 1 << 13 = 8193, ^ >> 7 = 8257, ^ << 17 = 1082269761.
    assert_eq!(seed.seed, 1_082_269_761);
    assert!(!first);
}

#[test]
fn disabled_branches_are_not_polled() {
    let mut seed = SelectSeed::new();
    let mut select = Select2Guarded::new(true, true, true, &mut seed);
    assert_eq!(seed, SelectSeed::new());
    select.disable_a();
    assert_eq!(
        select.poll(|| -> Poll<u8> { panic!("disabled") }, || Poll::Ready(2)),
        Poll::Ready(Some(Either::Right(2)))
    );
    select.disable_b();
    assert_eq!(
        select.poll(
            || -> Poll<u8> { panic!("disabled") },
            || -> Poll<u8> { panic!("disabled") }
        ),
        Poll::Ready(None)
    );
}

#[test]
fn yielding_gives_up_one_turn() {
    let mut future = yield_now();
    assert!(future.poll().is_pending());
    assert!(future.poll().is_ready());
}

#[test]
fn only_woken_members_are_polled() {
    let mut set = FuturesUnordered::new();
    let first = set.push("a");
    let second = set.push("b");
    assert_eq!(set.len(), 2);
    assert_eq!(set.size_hint(), (2, Some(2)));
    for expected in [first, second] {
        match set.next_member() {
            Next::Member(id, member) => {
                assert_eq!(id, expected);
                set.put_back(id, member);
            }
            other => panic!("unexpected step: {other:?}"),
        }
    }
    assert!(matches!(set.next_member(), Next::Pending));
    set.wake(second);
    set.wake(77);
    assert!(matches!(set.next_member(), Next::Member(id, "b") if id == second));
    assert!(matches!(set.next_member(), Next::Pending));
    set.wake(first);
    assert!(matches!(set.next_member(), Next::Member(_, "a")));
    assert!(matches!(set.next_member(), Next::Finished));
    assert!(set.is_empty());
}

#[test]
fn a_join_set_gives_up_all_handles() {
    let mut set = JoinSet::new();
    set.spawn("one");
    set.spawn("two");
    assert_eq!(set.len(), 2);
    assert!(matches!(set.join_next(), Next::Member(0, "one")));
    set.tasks_mut().put_back(0, "one");
    let mut handles = set.abort_all();
    handles.sort_unstable();
    assert_eq!(handles, vec!["one", "two"]);
    assert!(set.is_empty());
}

fn numbers(count: u32) -> eddy::stream::Iter<u32> {
    iter((0..count).collect::<VecDeque<u32>>())
}

/// Gives an item at every second call.
struct Halting {
    left: u32,
    calls: u32,
}

impl Supply for Halting {
    type Item = u32;

    fn supply(&mut self) -> Poll<Option<u32>> {
        self.calls += 1;
        if self.calls % 2 == 1 {
            return Poll::Pending;
        }
        if self.left == 0 {
            return Poll::Ready(None);
        }
        self.left -= 1;
        Poll::Ready(Some(self.left))
    }
}

#[test]
fn streams_are_mapped_filtered_and_collected() {
    assert_eq!(numbers(3).size_hint(), (3, Some(3)));
    let mut stream = numbers(3).map(|n| n * 10);
    assert_eq!(stream.size_hint(), (0, None));
    assert_eq!(stream.poll_next(), Poll::Ready(Some(0)));
    assert_eq!(stream.next(), Poll::Ready(Some(10)));

    let mut even = numbers(5).filter(|n| n % 2 == 0);
    let mut kept = Vec::new();
    loop {
        match even.step() {
            Step::Ready(Some(n)) => kept.push(n),
            Step::Ready(None) => break,
            Step::Progress => {}
            Step::Pending => panic!("the items are there"),
        }
    }
    assert_eq!(kept, vec![0, 2, 4]);

    let mut collect = Supplied::new(Halting { left: 4, calls: 0 }).collect(Vec::new());
    let mut pending = 0;
    let collected = loop {
        match collect.step() {
            Step::Ready(items) => break items,
            Step::Pending => pending += 1,
            Step::Progress => {}
        }
    };
    assert_eq!(collected, vec![3, 2, 1, 0]);
    assert_eq!(pending, 5);
}

#[test]
fn streams_are_counted_and_folded() {
    let mut count = numbers(7).count();
    let counted = loop {
        if let Step::Ready(counted) = count.step() {
            break counted;
        }
    };
    assert_eq!(counted, 7);
    let mut fold = numbers(5).fold(100, |sum, n| sum + n);
    let sum = loop {
        if let Step::Ready(sum) = fold.step() {
            break sum;
        }
    };
    assert_eq!(sum, 110);
    let seen = std::cell::RefCell::new(Vec::new());
    let mut each = numbers(3).for_each(|n| seen.borrow_mut().push(n));
    while each.step() != Step::Ready(()) {}
    assert_eq!(*seen.borrow(), vec![0, 1, 2]);
}

#[test]
fn a_fused_stream_ends_once_and_for_all() {
    struct Flicker(u32);
    impl Supply for Flicker {
        type Item = u32;
        fn supply(&mut self) -> Poll<Option<u32>> {
            self.0 += 1;
            if self.0 == 2 {
                Poll::Ready(None)
            } else {
                Poll::Ready(Some(self.0))
            }
        }
    }
    let mut stream = Supplied::new(Flicker(0)).fuse();
    assert_eq!(stream.poll_next(), Poll::Ready(Some(1)));
    assert_eq!(stream.poll_next(), Poll::Ready(None));
    assert_eq!(stream.poll_next(), Poll::Ready(None));
}

#[test]
fn cancelling_reaches_descendants_and_spares_others() {
    let mut tokens = CancellationTokens::empty();
    let root = CancellationToken::new(&mut tokens);
    let child = root.child_token(&mut tokens);
    let grandchild = child.child_token(&mut tokens);
    let sibling = root.child_token(&mut tokens);
    let other = CancellationToken::new(&mut tokens);
    assert!(child.cancel(&mut tokens).is_empty());
    assert!(child.is_cancelled(&tokens) && grandchild.is_cancelled(&tokens));
    assert!(!root.is_cancelled(&tokens) && !sibling.is_cancelled(&tokens));
    root.cancel(&mut tokens);
    assert!(root.is_cancelled(&tokens) && sibling.is_cancelled(&tokens));
    assert!(!other.is_cancelled(&tokens));
    let late = root.child_token(&mut tokens);
    assert!(late.is_cancelled(&tokens));
    assert!(child.is_cancelled(&tokens));
}

#[test]
fn every_waiter_is_woken_once() {
    let mut tokens = CancellationTokens::empty();
    let root = CancellationToken::new(&mut tokens);
    let child = root.child_token(&mut tokens);
    let mut waits = vec![
        root.cancelled(),
        child.cancelled(),
        child.cancelled(),
        root.cancelled(),
    ];
    for (waker, wait) in waits.iter_mut().enumerate() {
        assert!(wait.poll(&mut tokens, waker as u64).is_pending());
    }
    waits[3].detach(&mut tokens);
    assert!(waits[2].poll(&mut tokens, 22).is_pending());
    assert_eq!(root.cancel(&mut tokens), vec![0, 1, 22]);
    assert!(root.cancel(&mut tokens).is_empty());
    for wait in &mut waits {
        assert!(wait.poll(&mut tokens, 9).is_ready());
    }
}

#[test]
fn a_dropped_token_is_forgotten_by_its_parent() {
    let mut tokens = CancellationTokens::empty();
    let root = CancellationToken::new(&mut tokens);
    let child = root.child_token(&mut tokens);
    let grandchild = child.child_token(&mut tokens);
    child.drop_token(&mut tokens);
    root.cancel(&mut tokens);
    assert!(root.is_cancelled(&tokens));
    assert!(!grandchild.is_cancelled(&tokens));
}

#[test]
fn the_pool_starts_threads_up_to_its_limit() {
    let mut pool = BlockingPool::new(2);
    assert!(matches!(pool.submit(1), Submitted::Queued { spawn: true }));
    assert!(matches!(pool.submit(2), Submitted::Queued { spawn: true }));
    assert!(matches!(pool.submit(3), Submitted::Queued { spawn: false }));
    assert!(matches!(pool.next_job(), ThreadStep::Run(1)));
    assert!(matches!(pool.next_job(), ThreadStep::Run(2)));
    assert!(matches!(pool.next_job(), ThreadStep::Run(3)));
    assert!(matches!(pool.next_job(), ThreadStep::Wait));
    assert!(matches!(pool.submit(4), Submitted::Queued { spawn: false }));
    assert!(!pool.wake(true), "a job is waiting");
    assert!(matches!(pool.next_job(), ThreadStep::Run(4)));
    assert!(matches!(pool.next_job(), ThreadStep::Wait));
    assert!(pool.wake(true), "the keep-alive time is up");
    assert!(matches!(pool.submit(5), Submitted::Queued { spawn: true }));
    let cancelled = pool.shutdown().unwrap();
    assert_eq!(cancelled, VecDeque::from(vec![5]));
    assert!(pool.shutdown().is_none());
    assert!(matches!(pool.submit(6), Submitted::Cancelled(6)));
    assert!(matches!(pool.next_job(), ThreadStep::Exit));
    assert_eq!(DEFAULT_MAX_BLOCKING_THREADS, 512);
    assert_eq!(DEFAULT_KEEP_ALIVE, 10_000_000_000);
}

#[test]
fn a_blocking_task_runs_its_job() {
    let mut task = BlockingTask::new(|| 40 + 2);
    assert_eq!(task.poll(), 42);
}
