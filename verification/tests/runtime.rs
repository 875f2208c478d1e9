//! The schedulers and the runtime around them, driven by a small executor.

use eddy::poll::Poll as StepPoll;
use eddy::runtime::{join_step, Ambient, Builder, Flavor, JoinStep, RuntimePlan, TaskRegistry};
use eddy::scheduler::current_thread::{
    CurrentThread, Deferred, Enqueued, Phase, RootStep, GLOBAL_QUEUE_INTERVAL,
};
use eddy::scheduler::worker::{Placed, Shared, Step, WorkerState};
use std::collections::HashMap;
use std::future::Future;
use std::pin::Pin;
use std::sync::atomic::{AtomicUsize, Ordering};
use std::sync::{Arc, Mutex};
use std::task::{Context, Poll, Wake, Waker};

const ROOT: u64 = 0;

type Task = Pin<Box<dyn Future<Output = ()>>>;

/// What the tasks of an executor can reach: new tasks, and those that were woken.
#[derive(Clone, Default)]
struct Handle {
    spawned: std::rc::Rc<std::cell::RefCell<Vec<Task>>>,
    woken: Arc<Mutex<Vec<u64>>>,
}

struct TaskWaker {
    id: u64,
    woken: Arc<Mutex<Vec<u64>>>,
}

impl Wake for TaskWaker {
    fn wake(self: Arc<Self>) {
        self.woken.lock().unwrap().push(self.id);
    }
}

struct Slot<T> {
    output: Option<T>,
    waker: Option<Waker>,
}

/// Waits for the output of a task.
struct JoinHandle<T>(std::rc::Rc<std::cell::RefCell<Slot<T>>>);

impl<T> Future for JoinHandle<T> {
    type Output = T;

    fn poll(self: Pin<&mut Self>, cx: &mut Context<'_>) -> Poll<T> {
        let mut slot = self.0.borrow_mut();
        match slot.output.take() {
            Some(output) => Poll::Ready(output),
            None => {
                slot.waker = Some(cx.waker().clone());
                Poll::Pending
            }
        }
    }
}

impl Handle {
    fn spawn<T: 'static>(&self, future: impl Future<Output = T> + 'static) -> JoinHandle<T> {
        let slot = std::rc::Rc::new(std::cell::RefCell::new(Slot {
            output: None,
            waker: None,
        }));
        let result = slot.clone();
        self.spawned.borrow_mut().push(Box::pin(async move {
            let output = future.await;
            let mut slot = result.borrow_mut();
            slot.output = Some(output);
            if let Some(waker) = slot.waker.take() {
                waker.wake();
            }
        }));
        JoinHandle(slot)
    }

    fn waker(&self, id: u64) -> Waker {
        Waker::from(Arc::new(TaskWaker {
            id,
            woken: self.woken.clone(),
        }))
    }

    fn take_woken(&self) -> Vec<u64> {
        std::mem::take(&mut *self.woken.lock().unwrap())
    }
}

/// Yields once.
struct Yield(eddy::future::YieldNow);

impl Future for Yield {
    type Output = ();

    fn poll(mut self: Pin<&mut Self>, cx: &mut Context<'_>) -> Poll<()> {
        match self.0.poll() {
            StepPoll::Ready(()) => Poll::Ready(()),
            StepPoll::Pending => {
                cx.waker().wake_by_ref();
                Poll::Pending
            }
        }
    }
}

fn yield_now() -> Yield {
    Yield(eddy::future::yield_now())
}

fn run_task(tasks: &mut HashMap<u64, Task>, handle: &Handle, id: u64) {
    if let Some(task) = tasks.get_mut(&id) {
        let waker = handle.waker(id);
        if task
            .as_mut()
            .poll(&mut Context::from_waker(&waker))
            .is_ready()
        {
            tasks.remove(&id);
        }
    }
}

/// Runs a future on one thread. `wakes` are fired from outside, one at each park.
fn block_on_with<T: 'static>(
    root: impl Future<Output = T>,
    handle: &Handle,
    outside: &mut dyn FnMut(),
) -> T {
    let mut root = Box::pin(root);
    let mut scheduler = CurrentThread::new(1);
    let mut tasks: HashMap<u64, Task> = HashMap::new();
    let mut next_id = ROOT;
    let mut phase = Phase::Start;
    let mut woken = true;
    scheduler.enter(1);
    loop {
        let spawned = std::mem::take(&mut *handle.spawned.borrow_mut());
        for task in spawned {
            next_id += 1;
            tasks.insert(next_id, task);
            assert_eq!(scheduler.enqueue(next_id, 1), Enqueued::Local);
        }
        for id in handle.take_woken() {
            if id == ROOT {
                woken = true;
            } else {
                scheduler.enqueue(id, 1);
            }
        }
        match scheduler.root_step(&mut phase, &mut woken) {
            RootStep::Run(id) => run_task(&mut tasks, handle, id),
            RootStep::PollRoot => {
                let waker = handle.waker(ROOT);
                if let Poll::Ready(output) =
                    root.as_mut().poll(&mut Context::from_waker(&waker))
                {
                    scheduler.leave(1);
                    assert!(!scheduler.is_running());
                    return output;
                }
            }
            RootStep::Park => {
                outside();
                assert!(
                    !handle.woken.lock().unwrap().is_empty(),
                    "parked for ever"
                );
            }
        }
    }
}

fn block_on<T: 'static>(root: impl Future<Output = T>, handle: &Handle) -> T {
    block_on_with(root, handle, &mut || {})
}

#[test]
fn the_last_task_takes_the_place_of_one_that_is_gone() {
    let mut registry = TaskRegistry::new();
    for task in [5, 6, 7, 8] {
        registry.register_task(task);
    }
    assert!(registry.task_complete(6));
    assert!(!registry.task_complete(9));
    assert_eq!(registry.close(), Some(vec![5, 8, 7]));
}

#[test]
fn block_on_ready_future_returns_immediately() {
    assert_eq!(block_on(async { 42 }, &Handle::default()), 42);
}

#[test]
fn builder_new_current_thread_block_on_42() {
    match Builder::<()>::new_current_thread().build() {
        RuntimePlan::Current { .. } => {}
        RuntimePlan::Multi(_) => panic!("expected a current-thread runtime"),
    }
    assert_eq!(block_on(async { 42 }, &Handle::default()), 42);
}

#[test]
fn spawn_1000_tasks_all_complete() {
    let handle = Handle::default();
    let spawner = handle.clone();
    block_on(
        async move {
            let mut handles = Vec::new();
            for i in 0..1000 {
                handles.push(spawner.spawn(async move { i }));
            }
            let mut total = 0;
            for handle in handles {
                total += handle.await;
            }
            assert_eq!(total, (0..1000).sum::<i32>());
        },
        &handle,
    );
}

#[test]
fn nested_spawn_works() {
    let handle = Handle::default();
    let spawner = handle.clone();
    let out = block_on(
        async move {
            let inner_spawner = spawner.clone();
            let handle = spawner.spawn(async move {
                let inner = inner_spawner.spawn(async { 9 });
                inner.await
            });
            handle.await
        },
        &handle,
    );
    assert_eq!(out, 9);
}

#[test]
fn non_send_spawned_future_compiles_and_runs() {
    assert!(Flavor::Current.spawn_local().is_ok());
    let handle = Handle::default();
    let spawner = handle.clone();
    let value = std::rc::Rc::new(5);
    let out = block_on(
        async move { spawner.spawn(async move { *value + 1 }).await },
        &handle,
    );
    assert_eq!(out, 6);
}

#[test]
fn current_thread_wake_from_another_thread_makes_progress() {
    let handle = Handle::default();
    let slot: Arc<Mutex<Option<Waker>>> = Arc::new(Mutex::new(None));
    let for_outside = slot.clone();
    let mut armed = false;
    let root = std::future::poll_fn(move |cx| {
        if armed {
            return Poll::Ready(());
        }
        armed = true;
        *slot.lock().unwrap() = Some(cx.waker().clone());
        Poll::Pending
    });
    block_on_with(root, &handle, &mut || {
        if let Some(waker) = for_outside.lock().unwrap().take() {
            waker.wake();
        }
    });
}

#[test]
fn root_pending_future_is_not_repolled_without_a_wake() {
    let handle = Handle::default();
    let polls = Arc::new(AtomicUsize::new(0));
    let task_ran = Arc::new(AtomicUsize::new(0));
    let slot: Arc<Mutex<Option<Waker>>> = Arc::new(Mutex::new(None));
    let for_outside = slot.clone();
    let spawner = handle.clone();
    let polls_for_root = polls.clone();
    let ran_for_task = task_ran.clone();
    let root = async move {
        let _ = spawner.spawn(async move {
            ran_for_task.fetch_add(1, Ordering::Release);
        });
        std::future::poll_fn(move |cx| {
            let poll = polls_for_root.fetch_add(1, Ordering::Relaxed);
            if poll == 0 {
                *slot.lock().unwrap() = Some(cx.waker().clone());
                Poll::Pending
            } else {
                Poll::Ready(())
            }
        })
        .await;
    };
    block_on_with(root, &handle, &mut || {
        if let Some(waker) = for_outside.lock().unwrap().take() {
            waker.wake();
        }
    });
    assert_eq!(task_ran.load(Ordering::Acquire), 1);
    assert_eq!(polls.load(Ordering::Relaxed), 2);
}

#[test]
fn handle_current_inside_block_on_works() {
    let handle = Handle::default();
    let mut ambient: Ambient<Handle> = Ambient::new();
    assert!(ambient
        .current()
        .err()
        .unwrap()
        .contains("no eddy runtime"));
    let guard = ambient.enter(handle.clone());
    let spawner = ambient.current().ok().unwrap().clone();
    let ok = block_on(async move { spawner.spawn(async { 1 }).await == 1 }, &handle);
    assert!(ok);
    ambient.leave(guard);
    assert!(ambient.current().is_err());
}

#[test]
fn nested_runtimes_are_restored() {
    let mut ambient = Ambient::new();
    let outer = ambient.enter(1);
    let inner = ambient.enter(2);
    assert_eq!(ambient.current(), Ok(&2));
    ambient.leave(inner);
    assert_eq!(ambient.current(), Ok(&1));
    ambient.leave(outer);
    assert!(ambient.current().is_err());
}

#[test]
fn an_injected_task_gets_a_turn_among_local_ones() {
    let mut scheduler = CurrentThread::new(1);
    scheduler.enter(1);
    for _ in 0..200 {
        scheduler.enqueue("local", 1);
    }
    assert_eq!(scheduler.enqueue("injected", 2), Enqueued::Injected);
    let turn = (1..=200)
        .find(|_| scheduler.next_task() == Some("injected"))
        .unwrap();
    assert_eq!(turn, GLOBAL_QUEUE_INTERVAL);
}

#[test]
fn nothing_enters_a_closed_scheduler() {
    let mut scheduler = CurrentThread::new(1);
    scheduler.enter(1);
    scheduler.enqueue(1, 1);
    scheduler.enqueue(2, 2);
    assert!(matches!(scheduler.defer_dealloc(3, 2), Deferred::Queued));
    scheduler.leave(1);
    assert!(scheduler.close());
    assert!(!scheduler.close());
    assert!(scheduler.is_owner_thread(1));
    assert!(!scheduler.can_dealloc_remotely());
    let mut drained = Vec::new();
    while let Some(task) = scheduler.drain_next() {
        drained.push(task);
    }
    assert_eq!(drained, vec![3, 1, 2]);
    assert!(scheduler.can_dealloc_remotely());
    assert_eq!(scheduler.enqueue(4, 1), Enqueued::Dropped);
    assert!(matches!(scheduler.defer_dealloc(5, 9), Deferred::Kept(5)));
    assert_eq!(scheduler.drain_next(), None);
}

/// Runs a future on several workers, one round of each in turn.
fn block_on_workers<T: 'static>(
    root: impl Future<Output = T>,
    handle: &Handle,
    workers: usize,
    outside: &mut dyn FnMut(),
) -> (T, usize) {
    let mut root = Box::pin(root);
    let mut shared: Shared<u64> = Shared::new(workers, true);
    let mut states: Vec<WorkerState> = Vec::new();
    for _ in 0..workers {
        states.push(WorkerState {
            tick: 0,
            lifo_polls: 0,
        });
    }
    let mut tasks: HashMap<u64, Task> = HashMap::new();
    let mut next_id = ROOT;
    let mut woken = true;
    loop {
        outside();
        if woken {
            woken = false;
            let waker = handle.waker(ROOT);
            if let Poll::Ready(output) = root.as_mut().poll(&mut Context::from_waker(&waker)) {
                return (output, shared.steal_count());
            }
        }
        settle(&mut shared, handle, &mut tasks, &mut next_id, &mut woken, None);
        for id in 0..workers {
            let start = (id + 1) % workers;
            let (step, _wake) = shared.worker_step(id, &mut states[id], start, false);
            match step {
                Step::Run(task) => run_task(&mut tasks, handle, task),
                Step::Park => {
                    if shared.begin_park(id) {
                        shared.end_park(id);
                    }
                }
                Step::Exit => panic!("a worker left while the runtime ran"),
            }
            settle(
                &mut shared,
                handle,
                &mut tasks,
                &mut next_id,
                &mut woken,
                Some(id),
            );
        }
    }
}

fn settle(
    shared: &mut Shared<u64>,
    handle: &Handle,
    tasks: &mut HashMap<u64, Task>,
    next_id: &mut u64,
    woken: &mut bool,
    current: Option<usize>,
) {
    let spawned = std::mem::take(&mut *handle.spawned.borrow_mut());
    for task in spawned {
        *next_id += 1;
        tasks.insert(*next_id, task);
        let target = shared.spawn_target(current);
        assert!(shared.schedule(*next_id, target, current) != Placed::Dropped);
    }
    for id in handle.take_woken() {
        if id == ROOT {
            *woken = true;
        } else {
            let target = shared.spawn_target(current);
            shared.schedule(id, target, current);
        }
    }
}

#[test]
fn spawn_and_join_round_trip() {
    let handle = Handle::default();
    let spawner = handle.clone();
    let (out, _) = block_on_workers(
        async move {
            let handle = spawner.spawn(async { 40 });
            handle.await + 2
        },
        &handle,
        2,
        &mut || {},
    );
    assert_eq!(out, 42);
}

#[test]
fn nested_spawns_run_to_completion() {
    let handle = Handle::default();
    let spawner = handle.clone();
    let (out, _) = block_on_workers(
        async move {
            let inner_spawner = spawner.clone();
            let handle = spawner.spawn(async move {
                let inner = inner_spawner.spawn(async { 9 });
                inner.await + 1
            });
            handle.await
        },
        &handle,
        2,
        &mut || {},
    );
    assert_eq!(out, 10);
}

#[test]
fn worker_wake_from_another_thread_makes_progress() {
    let handle = Handle::default();
    let spawner = handle.clone();
    let slot: Arc<Mutex<Option<Waker>>> = Arc::new(Mutex::new(None));
    let for_outside = slot.clone();
    let signal = Arc::new(AtomicUsize::new(0));
    let signal_for_task = signal.clone();
    let mut rounds = 0;
    let (done, _) = block_on_workers(
        async move {
            spawner
                .spawn(std::future::poll_fn(move |cx| {
                    if signal_for_task.load(Ordering::Acquire) == 1 {
                        Poll::Ready(true)
                    } else {
                        *slot.lock().unwrap() = Some(cx.waker().clone());
                        Poll::Pending
                    }
                }))
                .await
        },
        &handle,
        2,
        &mut || {
            rounds += 1;
            if rounds == 10 {
                signal.store(1, Ordering::Release);
            }
            if let Some(waker) = for_outside.lock().unwrap().take() {
                waker.wake();
            }
        },
    );
    assert!(done);
}

#[test]
fn shutdown_joins_workers_and_cancels_pending_tasks() {
    struct Pending {
        probe: Arc<AtomicUsize>,
    }
    impl Drop for Pending {
        fn drop(&mut self) {
            self.probe.fetch_add(1, Ordering::SeqCst);
        }
    }
    let dropped = Arc::new(AtomicUsize::new(0));
    let mut shared: Shared<u64> = Shared::new(2, true);
    let mut registry = TaskRegistry::new();
    let mut tasks = HashMap::new();
    tasks.insert(
        1,
        Pending {
            probe: dropped.clone(),
        },
    );
    registry.register_task(1);
    registry.register_task(2);
    assert!(registry.task_complete(2));
    assert!(!registry.task_complete(2));
    let target = shared.spawn_target(None);
    assert_eq!(shared.schedule(1, target, None), Placed::Injected);

    assert!(shared.shutdown());
    assert!(!shared.shutdown());
    for task in registry.close().unwrap() {
        tasks.remove(&task);
    }
    assert!(registry.close().is_none());
    let mut left = vec![false, false];
    while left.contains(&false) {
        for id in 0..2 {
            let mut state = WorkerState {
                tick: 0,
                lifo_polls: 0,
            };
            match shared.worker_step(id, &mut state, 0, false).0 {
                Step::Run(task) => assert!(!tasks.contains_key(&task)),
                Step::Exit => left[id] = true,
                Step::Park => panic!("a worker waits after the shutdown"),
            }
        }
    }
    assert_eq!(shared.schedule(3, 0, None), Placed::Dropped);
    assert_eq!(dropped.load(Ordering::SeqCst), 1);
    assert_eq!(join_step(true, 9, 5), JoinStep::Join);
    assert_eq!(join_step(false, 4, 5), JoinStep::Sleep);
    assert_eq!(join_step(false, 5, 5), JoinStep::Detach);
}

#[test]
fn stress_100k_tasks_across_8_workers() {
    let handle = Handle::default();
    let spawner = handle.clone();
    let counter = Arc::new(AtomicUsize::new(0));
    let counted = counter.clone();
    let (_, steals) = block_on_workers(
        async move {
            let mut handles = Vec::new();
            for i in 0..100_000 {
                let counter = counted.clone();
                let slow = i % 2 == 0;
                handles.push(spawner.spawn(async move {
                    if slow {
                        for _ in 0..10 {
                            yield_now().await;
                        }
                    }
                    counter.fetch_add(1, Ordering::SeqCst);
                }));
            }
            for handle in handles {
                handle.await;
            }
        },
        &handle,
        8,
        &mut || {},
    );
    assert_eq!(counter.load(Ordering::SeqCst), 100_000);
    assert!(steals > 0, "expected work to be stolen between workers");
}

#[test]
fn the_lifo_slot_goes_first_but_not_for_ever() {
    let mut shared: Shared<u32> = Shared::new(1, true);
    let mut state = WorkerState {
        tick: 0,
        lifo_polls: 0,
    };
    assert_eq!(shared.schedule(1, 0, Some(0)), Placed::Slot);
    assert_eq!(shared.schedule(2, 0, Some(0)), Placed::Local);
    let mut order = Vec::new();
    for next in 3..9 {
        match shared.worker_step(0, &mut state, 0, false).0 {
            Step::Run(task) => order.push(task),
            other => panic!("unexpected step: {other:?}"),
        }
        shared.schedule(next, 0, Some(0));
    }
    assert_eq!(order[0], 1);
    assert!(order.contains(&2), "the queued task was starved: {order:?}");
}

#[test]
fn the_injector_is_served_before_stealing_when_it_is_due() {
    let run = |tick: u32| {
        let mut shared: Shared<u32> = Shared::new(4, false);
        shared.schedule(7, 1, Some(1));
        shared.schedule(8, 0, None);
        let mut state = WorkerState {
            tick,
            lifo_polls: 0,
        };
        let (step, _) = shared.worker_step(0, &mut state, 1, false);
        assert_eq!(state.tick, tick.wrapping_add(1));
        step
    };
    assert!(matches!(run(60), Step::Run(8)));
    assert!(matches!(run(121), Step::Run(8)));
    assert!(matches!(run(u32::MAX), Step::Run(8)));
    assert!(matches!(run(0), Step::Run(7)));
}

#[test]
fn a_full_queue_overflows_into_the_injector() {
    let mut shared: Shared<u32> = Shared::new(2, false);
    for task in 0..256 {
        assert_eq!(shared.schedule(task, 0, Some(0)), Placed::Local);
    }
    assert_eq!(shared.schedule(256, 0, Some(0)), Placed::Overflowed);
    let mut state = WorkerState {
        tick: 0,
        lifo_polls: 0,
    };
    let mut seen = Vec::new();
    loop {
        match shared.worker_step(1, &mut state, 0, false).0 {
            Step::Run(task) => seen.push(task),
            Step::Park => break,
            Step::Exit => panic!("a worker left while the runtime ran"),
        }
    }
    assert!(shared.steal_count() > 0);
    let mut other = WorkerState {
        tick: 0,
        lifo_polls: 0,
    };
    while let Step::Run(task) = shared.worker_step(0, &mut other, 1, false).0 {
        seen.push(task);
    }
    seen.sort_unstable();
    assert_eq!(seen, (0..257).collect::<Vec<_>>());
}

#[test]
fn a_parked_worker_is_woken_once() {
    let mut shared: Shared<u32> = Shared::new(3, true);
    assert!(shared.begin_park(1));
    assert!(shared.begin_park(2));
    assert_eq!(shared.unpark_any(), Some(1));
    assert_eq!(shared.unpark_any(), Some(2));
    assert_eq!(shared.unpark_any(), None);
    shared.schedule(7, 0, None);
    assert!(!shared.begin_park(1), "work has arrived");
}

#[test]
fn a_takeover_serves_the_queue_and_hands_it_back() {
    let mut shared: Shared<u32> = Shared::new(1, true);
    for task in 0..4 {
        shared.schedule(task, 0, Some(0));
    }
    let mut takeover = shared.begin_takeover(0);
    assert!(!shared.has_work(0));
    shared.start_takeover(0, &mut takeover);
    assert!(shared.has_work(0));
    let mut state = WorkerState {
        tick: 0,
        lifo_polls: 0,
    };
    assert!(matches!(
        shared.worker_step(0, &mut state, 0, takeover.is_requested()).0,
        Step::Run(0)
    ));
    takeover.request();
    assert!(takeover.is_requested() && !takeover.is_returned());
    shared.hand_back(0, &mut takeover);
    assert!(takeover.is_returned());
    assert!(!shared.has_work(0));
    shared.start_takeover(0, &mut takeover);
    let mut seen = Vec::new();
    while let Step::Run(task) = shared.worker_step(0, &mut state, 0, true).0 {
        seen.push(task);
    }
    seen.sort_unstable();
    assert_eq!(seen, vec![1, 2, 3]);
    assert!(matches!(
        shared.worker_step(0, &mut state, 0, true).0,
        Step::Exit
    ));
}

#[test]
fn the_builder_keeps_its_settings() {
    let plan = Builder::<&str>::new_multi_thread(Some(6))
        .worker_threads(3)
        .thread_name("pool".to_string())
        .thread_stack_size(1 << 20)
        .disable_lifo_slot()
        .max_blocking_threads(9)
        .keep_alive(77)
        .on_thread_start("start")
        .on_thread_park("park")
        .build();
    match plan {
        RuntimePlan::Multi(options) => {
            assert_eq!(options.worker_count(), 3);
            assert_eq!(options.worker_name(2), "pool-2");
            assert_eq!(options.thread_stack_size, Some(1 << 20));
            assert!(!options.lifo_slot);
            assert_eq!(options.max_blocking_threads, 9);
            assert_eq!(options.keep_alive, 77);
            assert_eq!(options.on_thread_start, Some("start"));
            assert_eq!(options.on_thread_park, Some("park"));
            assert_eq!(options.on_thread_stop, None);
        }
        RuntimePlan::Current { .. } => panic!("expected workers"),
    }
}

#[test]
fn flavors_refuse_what_they_cannot_do() {
    assert_eq!(
        Flavor::Multi.spawn_local(),
        Err("eddy: spawn_local requires a current-thread runtime")
    );
    assert!(Flavor::Multi.block_in_place().is_ok());
    assert!(Flavor::Current.block_in_place().is_err());
    assert!(Flavor::Multi.has_io_driver() && !Flavor::Current.has_io_driver());
}
