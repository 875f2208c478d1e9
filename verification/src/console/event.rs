//! Decoded instrumentation events.

use crate::wire::{EventModel, LocationModel, WakeSourceModel};
use vstd::prelude::*;

pub use crate::wire::{PollResult, UnparkReason};

verus! {

/// A location carried by a task event.
#[derive(Clone, Debug, PartialEq, Eq)]
pub struct Location {
    pub file: String,
    pub line: u32,
}

/// A source for a task wake.
#[derive(Clone, Debug, PartialEq, Eq)]
pub enum WakeSource {
    Io { fd: i32 },
    Timer { id: u64 },
    Task(u64),
    Channel { kind: String },
    External,
}

/// One decoded instrumentation event. Durations and timestamps are nanoseconds.
#[derive(Clone, Debug, PartialEq, Eq)]
pub enum Event {
    TaskSpawned { id: u64, name: Option<String>, location: Location, parent: Option<u64> },
    TaskPollStart { id: u64, worker: u32, at_ns: u64 },
    TaskPollEnd { id: u64, worker: u32, duration_ns: u64, result: PollResult },
    TaskWoken { id: u64, by: WakeSource },
    TaskDropped { id: u64, total_polls: u64, total_busy_ns: u64, total_idle_ns: u64 },
    TaskAborted { id: u64 },
    WorkerPark { worker: u32, timeout_ns: Option<u64> },
    WorkerUnpark { worker: u32, reason: UnparkReason },
    WorkerSteal { thief: u32, victim: u32, count: u64 },
    QueueDepth { worker: u32, local: u64, global: u64, lifo: bool },
    IoRegistered { fd: i32, interest: String, task: u64 },
    IoReady { fd: i32, readiness: String, woke: Vec<u64> },
    TimerSet { id: u64, deadline_ns: u64, task: u64 },
    TimerFired { id: u64, lateness_ns: u64 },
    TimerCancelled { id: u64 },
    BlockingDetected { task: u64, poll_duration_ns: u64, location: Location },
    BudgetExhausted { task: u64 },
    ResourceContended { kind: String, holder: u64, waiters: Vec<u64> },
}

impl View for Location {
    type V = LocationModel;

    open spec fn view(&self) -> LocationModel {
        LocationModel { file: self.file@, line: self.line }
    }
}

impl View for WakeSource {
    type V = WakeSourceModel;

    open spec fn view(&self) -> WakeSourceModel {
        match *self {
            WakeSource::Io { fd } => WakeSourceModel::Io { fd },
            WakeSource::Timer { id } => WakeSourceModel::Timer { id },
            WakeSource::Task(id) => WakeSourceModel::Task { id },
            WakeSource::Channel { kind } => WakeSourceModel::Channel { kind: kind@ },
            WakeSource::External => WakeSourceModel::External,
        }
    }
}

/// The characters of an optional text.
pub open spec fn optional_text(text: Option<String>) -> Option<Seq<char>> {
    match text {
        Some(text) => Some(text@),
        None => None,
    }
}

impl View for Event {
    type V = EventModel;

    open spec fn view(&self) -> EventModel {
        match *self {
            Event::TaskSpawned { id, name, location, parent } => EventModel::TaskSpawned {
                id,
                name: optional_text(name),
                location: location@,
                parent,
            },
            Event::TaskPollStart { id, worker, at_ns } => EventModel::TaskPollStart {
                id,
                worker,
                at_ns,
            },
            Event::TaskPollEnd { id, worker, duration_ns, result } => EventModel::TaskPollEnd {
                id,
                worker,
                duration_ns,
                result,
            },
            Event::TaskWoken { id, by } => EventModel::TaskWoken { id, by: by@ },
            Event::TaskDropped { id, total_polls, total_busy_ns, total_idle_ns } =>
                EventModel::TaskDropped { id, total_polls, total_busy_ns, total_idle_ns },
            Event::TaskAborted { id } => EventModel::TaskAborted { id },
            Event::WorkerPark { worker, timeout_ns } => EventModel::WorkerPark {
                worker,
                timeout_ns,
            },
            Event::WorkerUnpark { worker, reason } => EventModel::WorkerUnpark { worker, reason },
            Event::WorkerSteal { thief, victim, count } => EventModel::WorkerSteal {
                thief,
                victim,
                count,
            },
            Event::QueueDepth { worker, local, global, lifo } => EventModel::QueueDepth {
                worker,
                local,
                global,
                lifo,
            },
            Event::IoRegistered { fd, interest, task } => EventModel::IoRegistered {
                fd,
                interest: interest@,
                task,
            },
            Event::IoReady { fd, readiness, woke } => EventModel::IoReady {
                fd,
                readiness: readiness@,
                woke: woke@,
            },
            Event::TimerSet { id, deadline_ns, task } => EventModel::TimerSet {
                id,
                deadline_ns,
                task,
            },
            Event::TimerFired { id, lateness_ns } => EventModel::TimerFired { id, lateness_ns },
            Event::TimerCancelled { id } => EventModel::TimerCancelled { id },
            Event::BlockingDetected { task, poll_duration_ns, location } =>
                EventModel::BlockingDetected { task, poll_duration_ns, location: location@ },
            Event::BudgetExhausted { task } => EventModel::BudgetExhausted { task },
            Event::ResourceContended { kind, holder, waiters } => EventModel::ResourceContended {
                kind: kind@,
                holder,
                waiters: waiters@,
            },
        }
    }
}

} // verus!
