//! Runtime instrumentation: event emission, the frames that carry events, task
//! snapshots and runtime metrics.
//!
//! Durations are nanoseconds, and a point in time is the nanoseconds that have
//! passed since the runtime's origin.

pub mod laws;
pub mod metrics;

use crate::wire;
use crate::wire::{EventModel, LocationModel, WakeSourceModel};
use vstd::prelude::*;

pub use crate::wire::{PollResult, UnparkReason};

verus! {

/// Unique id of a spawned task, assigned from a process-wide counter.
#[derive(Debug, Clone, Copy, PartialEq, Eq, Structural, Hash)]
pub struct TaskId(pub u64);

impl Default for TaskId {
    /// The number that no task is given.
    fn default() -> (id: Self)
        ensures
            id == TaskId(0),
    {
        TaskId(0)
    }
}

impl TaskId {
    /// Numeric task identifier used by event consumers and metrics tools.
    pub fn as_u64(self) -> (id: u64)
        ensures
            id == self.0,
    {
        self.0
    }
}

/// Where a task's wake came from: the causality edge of the wake graph.
#[derive(Debug, Clone)]
pub enum WakeSource {
    /// A socket reported readable/writable.
    Io { fd: i32 },
    /// A timer fired.
    Timer { id: u64 },
    /// Another task woke this one.
    Task(TaskId),
    /// A channel produced a value or freed capacity.
    Channel { kind: &'static str },
    /// A thread outside the runtime (the waker was cloned and sent off).
    External,
}

/// The spawn location of a task, captured at spawn time.
#[derive(Debug, Clone, PartialEq, Eq)]
pub struct Location {
    pub file: &'static str,
    pub line: u32,
}

/// The event stream the consoles consume.
#[derive(Debug, Clone)]
pub enum RuntimeEvent {
    TaskSpawned { id: TaskId, name: Option<String>, location: Location, parent: Option<TaskId> },
    TaskPollStart { id: TaskId, worker: u32, at: u128 },
    TaskPollEnd { id: TaskId, worker: u32, duration: u128, result: PollResult },
    TaskWoken { id: TaskId, by: WakeSource },
    TaskDropped { id: TaskId, total_polls: u64, total_busy: u128, total_idle: u128 },
    TaskAborted { id: TaskId },
    WorkerPark { worker: u32, timeout: Option<u128> },
    WorkerUnpark { worker: u32, reason: UnparkReason },
    WorkerSteal { thief: u32, victim: u32, count: usize },
    QueueDepth { worker: u32, local: usize, global: usize, lifo: bool },
    IoRegistered { fd: i32, interest: &'static str, task: TaskId },
    IoReady { fd: i32, readiness: &'static str, woke: Vec<TaskId> },
    TimerSet { id: u64, deadline: u128, task: TaskId },
    TimerFired { id: u64, lateness: u128 },
    TimerCancelled { id: u64 },
    BlockingDetected { task: TaskId, poll_duration: u128, location: Location },
    BudgetExhausted { task: TaskId },
    ResourceContended { kind: &'static str, holder: TaskId, waiters: Vec<TaskId> },
}

/// A number of nanoseconds as the wire carries it: what is too long for 64 bits
/// is carried as the longest time that fits.
pub open spec fn wire_nanos(nanos: u128) -> u64 {
    if nanos > u64::MAX {
        u64::MAX
    } else {
        nanos as u64
    }
}

/// The numbers of some task ids.
pub open spec fn id_numbers(ids: Seq<TaskId>) -> Seq<u64> {
    ids.map_values(|id: TaskId| id.0)
}

impl View for Location {
    type V = LocationModel;

    open spec fn view(&self) -> LocationModel {
        LocationModel { file: self.file@, line: self.line }
    }
}

impl View for WakeSource {
    type V = WakeSourceModel;

    open spec fn view(&self) -> WakeSourceModel {
        match *self {
            WakeSource::Io { fd } => WakeSourceModel::Io { fd },
            WakeSource::Timer { id } => WakeSourceModel::Timer { id },
            WakeSource::Task(id) => WakeSourceModel::Task { id: id.0 },
            WakeSource::Channel { kind } => WakeSourceModel::Channel { kind: kind@ },
            WakeSource::External => WakeSourceModel::External,
        }
    }
}

impl View for RuntimeEvent {
    type V = EventModel;

    /// What a console sees of the event.
    open spec fn view(&self) -> EventModel {
        match *self {
            RuntimeEvent::TaskSpawned { id, name, location, parent } => EventModel::TaskSpawned {
                id: id.0,
                name: match name {
                    Some(name) => Some(name@),
                    None => None,
                },
                location: location@,
                parent: match parent {
                    Some(parent) => Some(parent.0),
                    None => None,
                },
            },
            RuntimeEvent::TaskPollStart { id, worker, at } => EventModel::TaskPollStart {
                id: id.0,
                worker,
                at_ns: wire_nanos(at),
            },
            RuntimeEvent::TaskPollEnd { id, worker, duration, result } => EventModel::TaskPollEnd {
                id: id.0,
                worker,
                duration_ns: wire_nanos(duration),
                result,
            },
            RuntimeEvent::TaskWoken { id, by } => EventModel::TaskWoken { id: id.0, by: by@ },
            RuntimeEvent::TaskDropped { id, total_polls, total_busy, total_idle } =>
                EventModel::TaskDropped {
                id: id.0,
                total_polls,
                total_busy_ns: wire_nanos(total_busy),
                total_idle_ns: wire_nanos(total_idle),
            },
            RuntimeEvent::TaskAborted { id } => EventModel::TaskAborted { id: id.0 },
            RuntimeEvent::WorkerPark { worker, timeout } => EventModel::WorkerPark {
                worker,
                timeout_ns: match timeout {
                    Some(timeout) => Some(wire_nanos(timeout)),
                    None => None,
                },
            },
            RuntimeEvent::WorkerUnpark { worker, reason } => EventModel::WorkerUnpark {
                worker,
                reason,
            },
            RuntimeEvent::WorkerSteal { thief, victim, count } => EventModel::WorkerSteal {
                thief,
                victim,
                count: count as u64,
            },
            RuntimeEvent::QueueDepth { worker, local, global, lifo } => EventModel::QueueDepth {
                worker,
                local: local as u64,
                global: global as u64,
                lifo,
            },
            RuntimeEvent::IoRegistered { fd, interest, task } => EventModel::IoRegistered {
                fd,
                interest: interest@,
                task: task.0,
            },
            RuntimeEvent::IoReady { fd, readiness, woke } => EventModel::IoReady {
                fd,
                readiness: readiness@,
                woke: id_numbers(woke@),
            },
            RuntimeEvent::TimerSet { id, deadline, task } => EventModel::TimerSet {
                id,
                deadline_ns: wire_nanos(deadline),
                task: task.0,
            },
            RuntimeEvent::TimerFired { id, lateness } => EventModel::TimerFired {
                id,
                lateness_ns: wire_nanos(lateness),
            },
            RuntimeEvent::TimerCancelled { id } => EventModel::TimerCancelled { id },
            RuntimeEvent::BlockingDetected { task, poll_duration, location } =>
                EventModel::BlockingDetected {
                task: task.0,
                poll_duration_ns: wire_nanos(poll_duration),
                location: location@,
            },
            RuntimeEvent::BudgetExhausted { task } => EventModel::BudgetExhausted { task: task.0 },
            RuntimeEvent::ResourceContended { kind, holder, waiters } =>
                EventModel::ResourceContended {
                kind: kind@,
                holder: holder.0,
                waiters: id_numbers(waiters@),
            },
        }
    }
}

// ---------------------------------------------------------------------------
// Encoding
// ---------------------------------------------------------------------------

fn put_u8(out: &mut Vec<u8>, value: u8)
    ensures
        final(out)@ == old(out)@ + seq![value],
{
    out.push(value);
    assert(out@ =~= old(out)@ + seq![value]);
}

fn put_u32(out: &mut Vec<u8>, value: u32)
    ensures
        final(out)@ == old(out)@ + wire::u32_bytes(value),
{
    out.push((value % 256) as u8);
    out.push((value / 256 % 256) as u8);
    out.push((value / 65536 % 256) as u8);
    out.push((value / 16777216) as u8);
    assert(out@ =~= old(out)@ + wire::u32_bytes(value));
}

fn put_u64(out: &mut Vec<u8>, value: u64)
    ensures
        final(out)@ == old(out)@ + wire::u64_bytes(value),
{
    put_u32(out, (value % 4294967296) as u32);
    put_u32(out, (value / 4294967296) as u32);
    assert(out@ =~= old(out)@ + wire::u64_bytes(value));
}

fn put_bytes(out: &mut Vec<u8>, value: &[u8])
    requires
        value@.len() <= u32::MAX,
    ensures
        final(out)@ == old(out)@ + (wire::u32_bytes(value@.len() as u32) + value@),
{
    let len: usize = value.len();
    put_u32(out, len as u32);
    out.extend_from_slice(value);
    assert(out@ =~= old(out)@ + (wire::u32_bytes(value@.len() as u32) + value@));
}

fn put_string(out: &mut Vec<u8>, value: &str)
    requires
        wire::text_fits(value@),
    ensures
        final(out)@ == old(out)@ + wire::string_bytes(value@),
{
    put_bytes(out, value.as_bytes());
}

fn clamp_nanos(nanos: u128) -> (clamped: u64)
    ensures
        clamped == wire_nanos(nanos),
{
    if nanos > 18446744073709551615 {
        18446744073709551615
    } else {
        nanos as u64
    }
}

fn put_duration(out: &mut Vec<u8>, nanos: u128)
    ensures
        final(out)@ == old(out)@ + wire::u64_bytes(wire_nanos(nanos)),
{
    put_u64(out, clamp_nanos(nanos));
}

fn put_location(out: &mut Vec<u8>, value: &Location)
    requires
        wire::text_fits(value.file@),
    ensures
        final(out)@ == old(out)@ + wire::location_bytes(value@),
{
    put_string(out, value.file);
    put_u32(out, value.line);
    assert(out@ =~= old(out)@ + wire::location_bytes(value@));
}

fn fd_as_bits(fd: i32) -> (bits: u32)
    ensures
        bits == wire::fd_bits(fd),
{
    if fd >= 0 {
        fd as u32
    } else {
        (fd as i64 + 4294967296) as u32
    }
}

fn put_source(out: &mut Vec<u8>, value: &WakeSource)
    requires
        value@ matches WakeSourceModel::Channel { kind } ==> wire::text_fits(kind),
    ensures
        final(out)@ == old(out)@ + wire::wake_source_bytes(value@),
{
    match value {
        WakeSource::Io { fd } => {
            put_u8(out, 0);
            put_u32(out, fd_as_bits(*fd));
        },
        WakeSource::Timer { id } => {
            put_u8(out, 1);
            put_u64(out, *id);
        },
        WakeSource::Task(task) => {
            put_u8(out, 2);
            put_u64(out, task.0);
        },
        WakeSource::Channel { kind } => {
            put_u8(out, 3);
            put_string(out, kind);
        },
        WakeSource::External => put_u8(out, 4),
    }
    assert(out@ =~= old(out)@ + wire::wake_source_bytes(value@));
}

fn put_ids(out: &mut Vec<u8>, ids: &Vec<TaskId>)
    requires
        ids@.len() <= u32::MAX,
    ensures
        final(out)@ == old(out)@ + wire::id_list_bytes(id_numbers(ids@)),
{
    let len: usize = ids.len();
    put_u32(out, len as u32);
    let ghost head = wire::u32_bytes(len as u32);
    let ghost numbers = id_numbers(ids@);
    let mut i: usize = 0;
    assert(numbers.take(0) =~= Seq::empty());
    assert(out@ =~= old(out)@ + (head + wire::ids_bytes(numbers.take(0))));
    while i < len
        invariant
            i <= len,
            len == ids@.len(),
            numbers == id_numbers(ids@),
            out@ == old(out)@ + (head + wire::ids_bytes(numbers.take(i as int))),
        decreases len - i,
    {
        put_u64(out, ids[i].0);
        proof {
            let sofar = numbers.take(i as int);
            wire::lemma_ids_push(sofar, numbers[i as int]);
            assert(numbers.take(i + 1) =~= sofar.push(numbers[i as int]));
            let more = wire::u64_bytes(numbers[i as int]);
            assert(old(out)@ + (head + wire::ids_bytes(sofar)) + more =~= old(out)@ + (head + (
            wire::ids_bytes(sofar) + more)));
        }
        i = i + 1;
    }
    assert(numbers.take(len as int) =~= numbers);
}

fn put_optional_nanos(out: &mut Vec<u8>, value: &Option<u128>)
    ensures
        final(out)@ == old(out)@ + wire::optional_u64_bytes(
            match *value {
                Some(nanos) => Some(wire_nanos(nanos)),
                None => None,
            },
        ),
{
    match value {
        Some(nanos) => {
            put_u8(out, 1);
            put_duration(out, *nanos);
            assert(out@ =~= old(out)@ + (seq![1u8] + wire::u64_bytes(wire_nanos(*nanos))));
        },
        None => put_u8(out, 0),
    }
}

fn put_optional_id(out: &mut Vec<u8>, value: &Option<TaskId>)
    ensures
        final(out)@ == old(out)@ + wire::optional_u64_bytes(
            match *value {
                Some(id) => Some(id.0),
                None => None,
            },
        ),
{
    match value {
        Some(id) => {
            put_u8(out, 1);
            put_u64(out, id.0);
            assert(out@ =~= old(out)@ + (seq![1u8] + wire::u64_bytes(id.0)));
        },
        None => put_u8(out, 0),
    }
}

fn put_optional_string(out: &mut Vec<u8>, value: &Option<String>)
    requires
        *value matches Some(text) ==> wire::text_fits(text@),
    ensures
        final(out)@ == old(out)@ + wire::optional_string_bytes(
            match *value {
                Some(text) => Some(text@),
                None => None,
            },
        ),
{
    match value {
        Some(text) => {
            put_u8(out, 1);
            put_string(out, text.as_str());
            assert(out@ =~= old(out)@ + (seq![1u8] + wire::string_bytes(text@)));
        },
        None => put_u8(out, 0),
    }
}

/// Encodes the tag and the fields of an event.
#[verifier::rlimit(40)]
fn encode_payload(event: &RuntimeEvent) -> (payload: Vec<u8>)
    requires
        wire::fields_fit(event@),
    ensures
        payload@ == wire::payload_bytes(event@),
{
    let mut out: Vec<u8> = Vec::new();
    assert(forall|tag: u8| #[trigger] (Seq::<u8>::empty() + seq![tag]) == seq![tag]) by {
        assert forall|tag: u8| #[trigger] (Seq::<u8>::empty() + seq![tag]) == seq![tag] by {
            assert(Seq::<u8>::empty() + seq![tag] =~= seq![tag]);
        }
    }
    match event {
        RuntimeEvent::TaskSpawned { id, name, location, parent } => {
            put_u8(&mut out, 0);
            put_u64(&mut out, id.0);
            put_optional_string(&mut out, name);
            put_location(&mut out, location);
            put_optional_id(&mut out, parent);
        },
        RuntimeEvent::TaskPollStart { id, worker, at } => {
            put_u8(&mut out, 1);
            put_u64(&mut out, id.0);
            put_u32(&mut out, *worker);
            put_duration(&mut out, *at);
        },
        RuntimeEvent::TaskPollEnd { id, worker, duration, result } => {
            put_u8(&mut out, 2);
            put_u64(&mut out, id.0);
            put_u32(&mut out, *worker);
            put_duration(&mut out, *duration);
            put_u8(
                &mut out,
                match result {
                    PollResult::Ready => 0,
                    PollResult::Pending => 1,
                    PollResult::Panicked => 2,
                },
            );
        },
        RuntimeEvent::TaskWoken { id, by } => {
            put_u8(&mut out, 3);
            put_u64(&mut out, id.0);
            put_source(&mut out, by);
        },
        RuntimeEvent::TaskDropped { id, total_polls, total_busy, total_idle } => {
            put_u8(&mut out, 4);
            put_u64(&mut out, id.0);
            put_u64(&mut out, *total_polls);
            put_duration(&mut out, *total_busy);
            put_duration(&mut out, *total_idle);
        },
        RuntimeEvent::TaskAborted { id } => {
            put_u8(&mut out, 5);
            put_u64(&mut out, id.0);
        },
        RuntimeEvent::WorkerPark { worker, timeout } => {
            put_u8(&mut out, 6);
            put_u32(&mut out, *worker);
            put_optional_nanos(&mut out, timeout);
        },
        RuntimeEvent::WorkerUnpark { worker, reason } => {
            put_u8(&mut out, 7);
            put_u32(&mut out, *worker);
            put_u8(
                &mut out,
                match reason {
                    UnparkReason::Task => 0,
                    UnparkReason::Shutdown => 1,
                    UnparkReason::Steal => 2,
                    UnparkReason::Event => 3,
                },
            );
        },
        RuntimeEvent::WorkerSteal { thief, victim, count } => {
            put_u8(&mut out, 8);
            put_u32(&mut out, *thief);
            put_u32(&mut out, *victim);
            put_u64(&mut out, *count as u64);
        },
        RuntimeEvent::QueueDepth { worker, local, global, lifo } => {
            put_u8(&mut out, 9);
            put_u32(&mut out, *worker);
            put_u64(&mut out, *local as u64);
            put_u64(&mut out, *global as u64);
            put_u8(
                &mut out,
                if *lifo {
                    1
                } else {
                    0
                },
            );
        },
        RuntimeEvent::IoRegistered { fd, interest, task } => {
            put_u8(&mut out, 10);
            put_u32(&mut out, fd_as_bits(*fd));
            put_string(&mut out, interest);
            put_u64(&mut out, task.0);
        },
        RuntimeEvent::IoReady { fd, readiness, woke } => {
            put_u8(&mut out, 11);
            put_u32(&mut out, fd_as_bits(*fd));
            put_string(&mut out, readiness);
            put_ids(&mut out, woke);
        },
        RuntimeEvent::TimerSet { id, deadline, task } => {
            put_u8(&mut out, 12);
            put_u64(&mut out, *id);
            put_duration(&mut out, *deadline);
            put_u64(&mut out, task.0);
        },
        RuntimeEvent::TimerFired { id, lateness } => {
            put_u8(&mut out, 13);
            put_u64(&mut out, *id);
            put_duration(&mut out, *lateness);
        },
        RuntimeEvent::TimerCancelled { id } => {
            put_u8(&mut out, 14);
            put_u64(&mut out, *id);
        },
        RuntimeEvent::BlockingDetected { task, poll_duration, location } => {
            put_u8(&mut out, 15);
            put_u64(&mut out, task.0);
            put_duration(&mut out, *poll_duration);
            put_location(&mut out, location);
        },
        RuntimeEvent::BudgetExhausted { task } => {
            put_u8(&mut out, 16);
            put_u64(&mut out, task.0);
        },
        RuntimeEvent::ResourceContended { kind, holder, waiters } => {
            put_u8(&mut out, 17);
            put_string(&mut out, kind);
            put_u64(&mut out, holder.0);
            put_ids(&mut out, waiters);
        },
    }
    out
}

/// Encodes one event as a little-endian `u32` payload length followed by a
/// stable tag-and-fields payload.
pub fn encode_frame(event: &RuntimeEvent) -> (frame: Vec<u8>)
    requires
        wire::fields_fit(event@),
        wire::payload_bytes(event@).len() <= u32::MAX,
    ensures
        frame@ == wire::frame_bytes(wire::payload_bytes(event@)),
{
    let payload = encode_payload(event);
    let mut frame: Vec<u8> = Vec::new();
    put_bytes(&mut frame, payload.as_slice());
    assert(frame@ =~= wire::frame_bytes(payload@));
    frame
}

/// Whether a text is short enough for its length field.
fn short_text(text: &str) -> (fits: bool)
    ensures
        fits == wire::text_fits(text@),
{
    let bytes = text.as_bytes();
    bytes.len() as u64 <= 4294967295
}

/// Whether every length field of the event's payload can hold its length.
fn fields_short(event: &RuntimeEvent) -> (fits: bool)
    ensures
        fits == wire::fields_fit(event@),
{
    match event {
        RuntimeEvent::TaskSpawned { id: _, name, location, parent: _ } => {
            let name_fits = match name {
                Some(name) => short_text(name.as_str()),
                None => true,
            };
            name_fits && short_text(location.file)
        },
        RuntimeEvent::TaskWoken { id: _, by } => {
            match by {
                WakeSource::Channel { kind } => short_text(kind),
                _ => true,
            }
        },
        RuntimeEvent::IoRegistered { fd: _, interest, task: _ } => short_text(interest),
        RuntimeEvent::IoReady { fd: _, readiness, woke } => short_text(readiness)
            && woke.len() as u64 <= 4294967295,
        RuntimeEvent::BlockingDetected { task: _, poll_duration: _, location } => short_text(
            location.file,
        ),
        RuntimeEvent::ResourceContended { kind, holder: _, waiters } => short_text(kind)
            && waiters.len() as u64 <= 4294967295,
        _ => true,
    }
}

/// Encodes one event if it can be encoded: if its fields and its payload are not too
/// large for their length fields.
pub fn checked_frame(event: &RuntimeEvent) -> (frame: Option<Vec<u8>>)
    ensures
        match frame {
            Some(frame) => wire::fields_fit(event@) && wire::payload_bytes(event@).len() <= u32::MAX
                && frame@ == wire::frame_bytes(wire::payload_bytes(event@)),
            None => !wire::fields_fit(event@) || wire::payload_bytes(event@).len() > u32::MAX,
        },
{
    if !fields_short(event) {
        return None;
    }
    let payload = encode_payload(event);
    if payload.len() as u64 > 4294967295 {
        return None;
    }
    let mut frame: Vec<u8> = Vec::new();
    put_bytes(&mut frame, payload.as_slice());
    assert(frame@ =~= wire::frame_bytes(payload@));
    Some(frame)
}

} // verus!
