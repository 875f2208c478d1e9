//! Task numbers, the event sink, counters and task snapshots.

use eddy::instrument::metrics::{
    clear_subscriber, emit, monotonic_nanos, retain_clients, set_subscriber, since_origin,
    CurrentTask, MetricEvent, MetricsState, RuntimeMetrics, Subscription, TaskHeader, TaskIds,
    TaskState, CLIENT_QUEUE,
};
use eddy::instrument::{Location, RuntimeEvent, TaskId};

#[test]
fn task_numbers_begin_with_one() {
    let mut ids = TaskIds::new();
    assert_eq!(ids.next(), TaskId(1));
    assert_eq!(ids.next().as_u64(), 2);
    assert_eq!(TaskId::default(), TaskId(0));
}

#[test]
fn the_current_task_is_restored() {
    let mut current = CurrentTask::new();
    assert_eq!(current.current(), TaskId(0));
    let outer = current.enter(TaskId(4));
    let inner = current.enter(TaskId(5));
    assert_eq!(current.current(), TaskId(5));
    current.leave(inner);
    assert_eq!(current.current(), TaskId(4));
    current.leave(outer);
    assert_eq!(current.current(), TaskId(0));
}

#[test]
fn no_event_is_made_without_a_sink() {
    let mut slot = Subscription::new();
    assert!(emit(&slot, || panic!("an event was made")).is_none());
    set_subscriber(&mut slot, "sink");
    let event = emit(&slot, || RuntimeEvent::TimerCancelled { id: 3 });
    assert!(matches!(event, Some(RuntimeEvent::TimerCancelled { id: 3 })));
    clear_subscriber(&mut slot);
    assert!(emit(&slot, || panic!("an event was made")).is_none());
}

#[test]
fn slow_clients_are_dropped() {
    assert_eq!(
        retain_clients(&vec![1, 2, 3], &vec![true, false, true]),
        vec![1, 3]
    );
    assert_eq!(CLIENT_QUEUE, 64);
}

#[test]
fn times_saturate() {
    assert_eq!(monotonic_nanos(5), 5);
    assert_eq!(monotonic_nanos(u128::MAX), u64::MAX);
    assert_eq!(since_origin(9, Some(4)), 5);
    assert_eq!(since_origin(4, Some(9)), 0);
    assert_eq!(since_origin(4, None), 0);
}

#[test]
fn counters_count_and_balance() {
    let mut state = MetricsState::new(2);
    let fresh = state;
    for event in [
        MetricEvent::TaskSpawned,
        MetricEvent::TaskQueued,
        MetricEvent::TaskDequeued,
        MetricEvent::TaskFinished,
    ] {
        state.count(event);
    }
    assert_eq!(state, fresh);
    state.count(MetricEvent::TaskPolled(30));
    state.count(MetricEvent::TaskScheduled);
    state.count(MetricEvent::WorkerStolen(4));
    state.count(MetricEvent::WorkerParked);
    state.count(MetricEvent::WorkerBusy(50));
    let snapshot = RuntimeMetrics::current(&state).snapshot(100);
    assert_eq!(snapshot.total_polls, 1);
    assert_eq!(snapshot.total_busy, 30);
    assert_eq!(snapshot.scheduled_tasks, 1);
    assert_eq!(snapshot.steals, 4);
    assert_eq!(snapshot.parks, 1);
    assert_eq!((snapshot.busy_ns, snapshot.capacity_ns), (50, 200));
    let ratio = snapshot.busy_ns as f64 / snapshot.capacity_ns as f64;
    assert!((ratio - 0.25).abs() < 1e-12);
}

#[test]
fn snapshots_show_the_first_state_that_holds() {
    let header = |complete, cancelled, running, notified| TaskHeader {
        id: TaskId(1),
        name: Some("task".to_string()),
        location: Location {
            file: "main.rs",
            line: 9,
        },
        parent: None,
        complete,
        cancelled,
        running,
        notified,
        worker: 2,
        polls: 3,
        busy_ns: 4,
        idle_ns: 5,
        scheduled: 6,
    };
    let tasks = vec![
        header(true, true, true, true),
        header(false, true, true, true),
        header(false, false, true, true),
        header(false, false, false, true),
        header(false, false, false, false),
    ];
    let state = MetricsState::new(1);
    let metrics = RuntimeMetrics::from_state(&state, Some(&tasks));
    let snapshots = metrics.task_snapshots();
    let states: Vec<TaskState> = snapshots.iter().map(|s| s.state).collect();
    assert_eq!(
        states,
        vec![
            TaskState::Complete,
            TaskState::Cancelled,
            TaskState::Running,
            TaskState::Queued,
            TaskState::Idle
        ]
    );
    assert_eq!(snapshots[0].name.as_deref(), Some("task"));
    assert_eq!(snapshots[0].total_idle, 5);
    assert_eq!(metrics.dump_tasks(), snapshots);
    assert!(RuntimeMetrics::current(&state).task_snapshots().is_empty());
}
