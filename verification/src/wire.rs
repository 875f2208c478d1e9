//! The instrumentation wire format, as mathematics.
//!
//! A frame is a little-endian `u32` payload length followed by the payload. A
//! payload is one tag byte followed by the fields of the event. This module
//! defines what bytes stand for which event, in both directions, and proves
//! that the two directions are inverse to each other.

pub mod bounds;
pub mod layout;

use vstd::prelude::*;

verus! {

/// The largest payload that a decoder accepts, in bytes.
pub const MAX_FRAME_SIZE: usize = 16777216;

/// Errors from the length-prefixed event protocol.
#[derive(Clone, Debug, PartialEq, Eq)]
pub enum DecodeError {
    FrameTooLarge(u32),
    UnknownTag(u8),
    Truncated,
    InvalidUtf8,
    InvalidValue(&'static str),
    TrailingBytes { tag: u8, remaining: usize },
}

/// The outcome of a finished poll.
#[derive(Clone, Copy, Debug, PartialEq, Eq, Structural)]
pub enum PollResult {
    Ready,
    Pending,
    Panicked,
}

/// Why a worker left its park.
#[derive(Clone, Copy, Debug, PartialEq, Eq, Structural)]
pub enum UnparkReason {
    Task,
    Shutdown,
    Steal,
    Event,
}

/// What a source location means: the file's characters and a line number.
pub struct LocationModel {
    pub file: Seq<char>,
    pub line: u32,
}

/// What a wake source means.
pub enum WakeSourceModel {
    Io { fd: i32 },
    Timer { id: u64 },
    Task { id: u64 },
    Channel { kind: Seq<char> },
    External,
}

/// What an event means: text as characters, lists as sequences, and every
/// duration or timestamp as nanoseconds.
pub enum EventModel {
    TaskSpawned { id: u64, name: Option<Seq<char>>, location: LocationModel, parent: Option<u64> },
    TaskPollStart { id: u64, worker: u32, at_ns: u64 },
    TaskPollEnd { id: u64, worker: u32, duration_ns: u64, result: PollResult },
    TaskWoken { id: u64, by: WakeSourceModel },
    TaskDropped { id: u64, total_polls: u64, total_busy_ns: u64, total_idle_ns: u64 },
    TaskAborted { id: u64 },
    WorkerPark { worker: u32, timeout_ns: Option<u64> },
    WorkerUnpark { worker: u32, reason: UnparkReason },
    WorkerSteal { thief: u32, victim: u32, count: u64 },
    QueueDepth { worker: u32, local: u64, global: u64, lifo: bool },
    IoRegistered { fd: i32, interest: Seq<char>, task: u64 },
    IoReady { fd: i32, readiness: Seq<char>, woke: Seq<u64> },
    TimerSet { id: u64, deadline_ns: u64, task: u64 },
    TimerFired { id: u64, lateness_ns: u64 },
    TimerCancelled { id: u64 },
    BlockingDetected { task: u64, poll_duration_ns: u64, location: LocationModel },
    BudgetExhausted { task: u64 },
    ResourceContended { kind: Seq<char>, holder: u64, waiters: Seq<u64> },
}

// ---------------------------------------------------------------------------
// Values to bytes
// ---------------------------------------------------------------------------

/// The four little-endian bytes of `v`.
pub open spec fn u32_bytes(v: u32) -> Seq<u8> {
    seq![
        (v % 256) as u8,
        (v / 256 % 256) as u8,
        (v / 65536 % 256) as u8,
        (v / 16777216) as u8,
    ]
}

/// The eight little-endian bytes of `v`.
pub open spec fn u64_bytes(v: u64) -> Seq<u8> {
    u32_bytes((v % 4294967296) as u32) + u32_bytes((v / 4294967296) as u32)
}

/// The unsigned reading of a file descriptor's 32 bits.
pub open spec fn fd_bits(fd: i32) -> u32 {
    if fd >= 0 {
        fd as u32
    } else {
        (fd + 4294967296) as u32
    }
}

/// The file descriptor whose 32 bits read as `bits`.
pub open spec fn fd_of_bits(bits: u32) -> i32 {
    if bits <= i32::MAX {
        bits as i32
    } else {
        (bits - 4294967296) as i32
    }
}

/// Text: a `u32` count of bytes, then the characters in UTF-8.
pub open spec fn string_bytes(text: Seq<char>) -> Seq<u8> {
    u32_bytes(vstd::utf8::encode_utf8(text).len() as u32) + vstd::utf8::encode_utf8(text)
}

/// Optional text: a marker byte, then the text where there is one.
pub open spec fn optional_string_bytes(text: Option<Seq<char>>) -> Seq<u8> {
    match text {
        Some(text) => seq![1u8] + string_bytes(text),
        None => seq![0u8],
    }
}

/// An optional integer: a marker byte, then the integer where there is one.
pub open spec fn optional_u64_bytes(v: Option<u64>) -> Seq<u8> {
    match v {
        Some(v) => seq![1u8] + u64_bytes(v),
        None => seq![0u8],
    }
}

/// A source location: the file name, then the line.
pub open spec fn location_bytes(location: LocationModel) -> Seq<u8> {
    string_bytes(location.file) + u32_bytes(location.line)
}

/// The ids one after the other, eight bytes each.
pub open spec fn ids_bytes(ids: Seq<u64>) -> Seq<u8>
    decreases ids.len(),
{
    if ids.len() == 0 {
        Seq::empty()
    } else {
        u64_bytes(ids[0]) + ids_bytes(ids.drop_first())
    }
}

/// A list of ids: a `u32` count, then the ids.
pub open spec fn id_list_bytes(ids: Seq<u64>) -> Seq<u8> {
    u32_bytes(ids.len() as u32) + ids_bytes(ids)
}

/// A wake source: a marker byte, then what the source carries.
pub open spec fn wake_source_bytes(source: WakeSourceModel) -> Seq<u8> {
    match source {
        WakeSourceModel::Io { fd } => seq![0u8] + u32_bytes(fd_bits(fd)),
        WakeSourceModel::Timer { id } => seq![1u8] + u64_bytes(id),
        WakeSourceModel::Task { id } => seq![2u8] + u64_bytes(id),
        WakeSourceModel::Channel { kind } => seq![3u8] + string_bytes(kind),
        WakeSourceModel::External => seq![4u8],
    }
}

/// The byte that stands for a poll result.
pub open spec fn poll_result_byte(result: PollResult) -> u8 {
    match result {
        PollResult::Ready => 0,
        PollResult::Pending => 1,
        PollResult::Panicked => 2,
    }
}

/// The byte that stands for an unpark reason.
pub open spec fn unpark_reason_byte(reason: UnparkReason) -> u8 {
    match reason {
        UnparkReason::Task => 0,
        UnparkReason::Shutdown => 1,
        UnparkReason::Steal => 2,
        UnparkReason::Event => 3,
    }
}

/// The byte that stands for a flag.
pub open spec fn bool_byte(b: bool) -> u8 {
    if b { 1 } else { 0 }
}

/// The payload that stands for an event.
pub open spec fn payload_bytes(event: EventModel) -> Seq<u8> {
    match event {
        EventModel::TaskSpawned { id, name, location, parent } => seq![0u8] + u64_bytes(id)
            + optional_string_bytes(name) + location_bytes(location) + optional_u64_bytes(parent),
        EventModel::TaskPollStart { id, worker, at_ns } => seq![1u8] + u64_bytes(id)
            + u32_bytes(worker) + u64_bytes(at_ns),
        EventModel::TaskPollEnd { id, worker, duration_ns, result } => seq![2u8] + u64_bytes(id)
            + u32_bytes(worker) + u64_bytes(duration_ns) + seq![poll_result_byte(result)],
        EventModel::TaskWoken { id, by } => seq![3u8] + u64_bytes(id) + wake_source_bytes(by),
        EventModel::TaskDropped { id, total_polls, total_busy_ns, total_idle_ns } => seq![4u8]
            + u64_bytes(id) + u64_bytes(total_polls) + u64_bytes(total_busy_ns) + u64_bytes(
            total_idle_ns,
        ),
        EventModel::TaskAborted { id } => seq![5u8] + u64_bytes(id),
        EventModel::WorkerPark { worker, timeout_ns } => seq![6u8] + u32_bytes(worker)
            + optional_u64_bytes(timeout_ns),
        EventModel::WorkerUnpark { worker, reason } => seq![7u8] + u32_bytes(worker)
            + seq![unpark_reason_byte(reason)],
        EventModel::WorkerSteal { thief, victim, count } => seq![8u8] + u32_bytes(thief)
            + u32_bytes(victim) + u64_bytes(count),
        EventModel::QueueDepth { worker, local, global, lifo } => seq![9u8] + u32_bytes(worker)
            + u64_bytes(local) + u64_bytes(global) + seq![bool_byte(lifo)],
        EventModel::IoRegistered { fd, interest, task } => seq![10u8] + u32_bytes(fd_bits(fd))
            + string_bytes(interest) + u64_bytes(task),
        EventModel::IoReady { fd, readiness, woke } => seq![11u8] + u32_bytes(fd_bits(fd))
            + string_bytes(readiness) + id_list_bytes(woke),
        EventModel::TimerSet { id, deadline_ns, task } => seq![12u8] + u64_bytes(id) + u64_bytes(
            deadline_ns,
        ) + u64_bytes(task),
        EventModel::TimerFired { id, lateness_ns } => seq![13u8] + u64_bytes(id) + u64_bytes(
            lateness_ns,
        ),
        EventModel::TimerCancelled { id } => seq![14u8] + u64_bytes(id),
        EventModel::BlockingDetected { task, poll_duration_ns, location } => seq![15u8]
            + u64_bytes(task) + u64_bytes(poll_duration_ns) + location_bytes(location),
        EventModel::BudgetExhausted { task } => seq![16u8] + u64_bytes(task),
        EventModel::ResourceContended { kind, holder, waiters } => seq![17u8] + string_bytes(kind)
            + u64_bytes(holder) + id_list_bytes(waiters),
    }
}

/// The frame that carries a payload.
pub open spec fn frame_bytes(payload: Seq<u8>) -> Seq<u8> {
    u32_bytes(payload.len() as u32) + payload
}

/// Whether a text is short enough for its length field.
pub open spec fn text_fits(text: Seq<char>) -> bool {
    vstd::utf8::encode_utf8(text).len() <= u32::MAX
}

/// Whether every length field of the event's payload can hold its length.
pub open spec fn fields_fit(event: EventModel) -> bool {
    match event {
        EventModel::TaskSpawned { name, location, .. } => (name matches Some(text) ==> text_fits(
            text,
        )) && text_fits(location.file),
        EventModel::TaskWoken { by, .. } => by matches WakeSourceModel::Channel { kind }
            ==> text_fits(kind),
        EventModel::IoRegistered { interest, .. } => text_fits(interest),
        EventModel::IoReady { readiness, woke, .. } => text_fits(readiness) && woke.len()
            <= u32::MAX,
        EventModel::BlockingDetected { location, .. } => text_fits(location.file),
        EventModel::ResourceContended { kind, waiters, .. } => text_fits(kind) && waiters.len()
            <= u32::MAX,
        _ => true,
    }
}

// ---------------------------------------------------------------------------
// Bytes to values
// ---------------------------------------------------------------------------

/// What reading a value off the front of some bytes gives: the value and the
/// bytes behind it, or the error.
pub type Parsed<T> = Result<(T, Seq<u8>), DecodeError>;

/// The first `count` bytes.
pub open spec fn parse_take(s: Seq<u8>, count: nat) -> Parsed<Seq<u8>> {
    if count > s.len() {
        Err(DecodeError::Truncated)
    } else {
        Ok((s.take(count as int), s.skip(count as int)))
    }
}

/// One byte.
pub open spec fn parse_u8(s: Seq<u8>) -> Parsed<u8> {
    if s.len() < 1 {
        Err(DecodeError::Truncated)
    } else {
        Ok((s[0], s.skip(1)))
    }
}

/// The number that four little-endian bytes stand for.
pub open spec fn u32_of_bytes(s: Seq<u8>) -> u32 {
    (s[0] + 256 * s[1] + 65536 * s[2] + 16777216 * s[3]) as u32
}

/// Four bytes, as a little-endian number.
pub open spec fn parse_u32(s: Seq<u8>) -> Parsed<u32> {
    if s.len() < 4 {
        Err(DecodeError::Truncated)
    } else {
        Ok((u32_of_bytes(s), s.skip(4)))
    }
}

/// The number that eight little-endian bytes stand for.
pub open spec fn u64_of_bytes(s: Seq<u8>) -> u64 {
    (u32_of_bytes(s) + 4294967296 * u32_of_bytes(s.skip(4))) as u64
}

/// Eight bytes, as a little-endian number.
pub open spec fn parse_u64(s: Seq<u8>) -> Parsed<u64> {
    if s.len() < 8 {
        Err(DecodeError::Truncated)
    } else {
        Ok((u64_of_bytes(s), s.skip(8)))
    }
}

/// Reads with `p`, then goes on with `next` on the value and the bytes behind it.
pub open spec fn followed_by<A, B>(p: Parsed<A>, next: spec_fn(A, Seq<u8>) -> Parsed<B>) -> Parsed<
    B,
> {
    match p {
        Ok((value, rest)) => next(value, rest),
        Err(e) => Err(e),
    }
}

/// A file descriptor.
pub open spec fn parse_fd(s: Seq<u8>) -> Parsed<i32> {
    followed_by(parse_u32(s), |bits: u32, s: Seq<u8>| Ok((fd_of_bits(bits), s)))
}

/// Text.
pub open spec fn parse_string(s: Seq<u8>) -> Parsed<Seq<char>> {
    followed_by(
        parse_u32(s),
        |len: u32, s: Seq<u8>|
            followed_by(
                parse_take(s, len as nat),
                |bytes: Seq<u8>, s: Seq<u8>|
                    if vstd::utf8::valid_utf8(bytes) {
                        Ok((vstd::utf8::decode_utf8(bytes), s))
                    } else {
                        Err(DecodeError::InvalidUtf8)
                    },
            ),
    )
}

/// Optional text.
pub open spec fn parse_optional_string(s: Seq<u8>) -> Parsed<Option<Seq<char>>> {
    followed_by(
        parse_u8(s),
        |marker: u8, s: Seq<u8>|
            if marker == 0 {
                Ok((None, s))
            } else if marker == 1 {
                followed_by(parse_string(s), |text: Seq<char>, s: Seq<u8>| Ok((Some(text), s)))
            } else {
                Err(DecodeError::InvalidValue("optional string marker"))
            },
    )
}

/// An optional integer.
pub open spec fn parse_optional_u64(s: Seq<u8>) -> Parsed<Option<u64>> {
    followed_by(
        parse_u8(s),
        |marker: u8, s: Seq<u8>|
            if marker == 0 {
                Ok((None, s))
            } else if marker == 1 {
                followed_by(parse_u64(s), |v: u64, s: Seq<u8>| Ok((Some(v), s)))
            } else {
                Err(DecodeError::InvalidValue("optional integer marker"))
            },
    )
}

/// A source location.
pub open spec fn parse_location(s: Seq<u8>) -> Parsed<LocationModel> {
    followed_by(
        parse_string(s),
        |file: Seq<char>, s: Seq<u8>|
            followed_by(
                parse_u32(s),
                |line: u32, s: Seq<u8>| Ok((LocationModel { file, line }, s)),
            ),
    )
}

/// The ids that `count` groups of eight bytes stand for.
pub open spec fn ids_of_bytes(s: Seq<u8>, count: nat) -> Seq<u64> {
    Seq::new(count, |i: int| u64_of_bytes(s.skip(8 * i)))
}

/// A list of ids. A count that the remaining bytes cannot hold is an error.
pub open spec fn parse_id_list(s: Seq<u8>) -> Parsed<Seq<u64>> {
    followed_by(
        parse_u32(s),
        |count: u32, s: Seq<u8>|
            if 8 * count > s.len() {
                Err(DecodeError::Truncated)
            } else {
                Ok((ids_of_bytes(s, count as nat), s.skip(8 * count)))
            },
    )
}

/// A wake source.
pub open spec fn parse_wake_source(s: Seq<u8>) -> Parsed<WakeSourceModel> {
    followed_by(
        parse_u8(s),
        |marker: u8, s: Seq<u8>|
            if marker == 0 {
                followed_by(parse_fd(s), |fd: i32, s: Seq<u8>| Ok((WakeSourceModel::Io { fd }, s)))
            } else if marker == 1 {
                followed_by(
                    parse_u64(s),
                    |id: u64, s: Seq<u8>| Ok((WakeSourceModel::Timer { id }, s)),
                )
            } else if marker == 2 {
                followed_by(
                    parse_u64(s),
                    |id: u64, s: Seq<u8>| Ok((WakeSourceModel::Task { id }, s)),
                )
            } else if marker == 3 {
                followed_by(
                    parse_string(s),
                    |kind: Seq<char>, s: Seq<u8>| Ok((WakeSourceModel::Channel { kind }, s)),
                )
            } else if marker == 4 {
                Ok((WakeSourceModel::External, s))
            } else {
                Err(DecodeError::InvalidValue("wake source"))
            },
    )
}

/// An unpark reason.
pub open spec fn parse_unpark_reason(s: Seq<u8>) -> Parsed<UnparkReason> {
    followed_by(
        parse_u8(s),
        |marker: u8, s: Seq<u8>|
            if marker == 0 {
                Ok((UnparkReason::Task, s))
            } else if marker == 1 {
                Ok((UnparkReason::Shutdown, s))
            } else if marker == 2 {
                Ok((UnparkReason::Steal, s))
            } else if marker == 3 {
                Ok((UnparkReason::Event, s))
            } else {
                Err(DecodeError::InvalidValue("unpark reason"))
            },
    )
}

/// A poll result.
pub open spec fn parse_poll_result(s: Seq<u8>) -> Parsed<PollResult> {
    followed_by(
        parse_u8(s),
        |marker: u8, s: Seq<u8>|
            if marker == 0 {
                Ok((PollResult::Ready, s))
            } else if marker == 1 {
                Ok((PollResult::Pending, s))
            } else if marker == 2 {
                Ok((PollResult::Panicked, s))
            } else {
                Err(DecodeError::InvalidValue("poll result"))
            },
    )
}

/// The flag that says whether a worker's next-task slot is taken.
pub open spec fn parse_lifo(s: Seq<u8>) -> Parsed<bool> {
    followed_by(
        parse_u8(s),
        |marker: u8, s: Seq<u8>|
            if marker == 0 {
                Ok((false, s))
            } else if marker == 1 {
                Ok((true, s))
            } else {
                Err(DecodeError::InvalidValue("lifo marker"))
            },
    )
}

/// The fields of the event with a given tag.
#[verifier::opaque]
pub open spec fn parse_fields(tag: u8, s: Seq<u8>) -> Parsed<EventModel> {
    if tag == 0 {
        followed_by(
            parse_u64(s),
            |id: u64, s: Seq<u8>|
                followed_by(
                    parse_optional_string(s),
                    |name: Option<Seq<char>>, s: Seq<u8>|
                        followed_by(
                            parse_location(s),
                            |location: LocationModel, s: Seq<u8>|
                                followed_by(
                                    parse_optional_u64(s),
                                    |parent: Option<u64>, s: Seq<u8>|
                                        Ok((EventModel::TaskSpawned { id, name, location, parent }, s)),
                                ),
                        ),
                ),
        )
    } else if tag == 1 {
        followed_by(
            parse_u64(s),
            |id: u64, s: Seq<u8>|
                followed_by(
                    parse_u32(s),
                    |worker: u32, s: Seq<u8>|
                        followed_by(
                            parse_u64(s),
                            |at_ns: u64, s: Seq<u8>|
                                Ok((EventModel::TaskPollStart { id, worker, at_ns }, s)),
                        ),
                ),
        )
    } else if tag == 2 {
        followed_by(
            parse_u64(s),
            |id: u64, s: Seq<u8>|
                followed_by(
                    parse_u32(s),
                    |worker: u32, s: Seq<u8>|
                        followed_by(
                            parse_u64(s),
                            |duration_ns: u64, s: Seq<u8>|
                                followed_by(
                                    parse_poll_result(s),
                                    |result: PollResult, s: Seq<u8>|
                                        Ok((EventModel::TaskPollEnd { id, worker, duration_ns, result }, s)),
                                ),
                        ),
                ),
        )
    } else if tag == 3 {
        followed_by(
            parse_u64(s),
            |id: u64, s: Seq<u8>|
                followed_by(
                    parse_wake_source(s),
                    |by: WakeSourceModel, s: Seq<u8>|
                        Ok((EventModel::TaskWoken { id, by }, s)),
                ),
        )
    } else if tag == 4 {
        followed_by(
            parse_u64(s),
            |id: u64, s: Seq<u8>|
                followed_by(
                    parse_u64(s),
                    |total_polls: u64, s: Seq<u8>|
                        followed_by(
                            parse_u64(s),
                            |total_busy_ns: u64, s: Seq<u8>|
                                followed_by(
                                    parse_u64(s),
                                    |total_idle_ns: u64, s: Seq<u8>|
                                        Ok((EventModel::TaskDropped { id, total_polls, total_busy_ns, total_idle_ns }, s)),
                                ),
                        ),
                ),
        )
    } else if tag == 5 {
        followed_by(
            parse_u64(s),
            |id: u64, s: Seq<u8>|
                Ok((EventModel::TaskAborted { id }, s)),
        )
    } else if tag == 6 {
        followed_by(
            parse_u32(s),
            |worker: u32, s: Seq<u8>|
                followed_by(
                    parse_optional_u64(s),
                    |timeout_ns: Option<u64>, s: Seq<u8>|
                        Ok((EventModel::WorkerPark { worker, timeout_ns }, s)),
                ),
        )
    } else if tag == 7 {
        followed_by(
            parse_u32(s),
            |worker: u32, s: Seq<u8>|
                followed_by(
                    parse_unpark_reason(s),
                    |reason: UnparkReason, s: Seq<u8>|
                        Ok((EventModel::WorkerUnpark { worker, reason }, s)),
                ),
        )
    } else if tag == 8 {
        followed_by(
            parse_u32(s),
            |thief: u32, s: Seq<u8>|
                followed_by(
                    parse_u32(s),
                    |victim: u32, s: Seq<u8>|
                        followed_by(
                            parse_u64(s),
                            |count: u64, s: Seq<u8>|
                                Ok((EventModel::WorkerSteal { thief, victim, count }, s)),
                        ),
                ),
        )
    } else if tag == 9 {
        followed_by(
            parse_u32(s),
            |worker: u32, s: Seq<u8>|
                followed_by(
                    parse_u64(s),
                    |local: u64, s: Seq<u8>|
                        followed_by(
                            parse_u64(s),
                            |global: u64, s: Seq<u8>|
                                followed_by(
                                    parse_lifo(s),
                                    |lifo: bool, s: Seq<u8>|
                                        Ok((EventModel::QueueDepth { worker, local, global, lifo }, s)),
                                ),
                        ),
                ),
        )
    } else if tag == 10 {
        followed_by(
            parse_fd(s),
            |fd: i32, s: Seq<u8>|
                followed_by(
                    parse_string(s),
                    |interest: Seq<char>, s: Seq<u8>|
                        followed_by(
                            parse_u64(s),
                            |task: u64, s: Seq<u8>|
                                Ok((EventModel::IoRegistered { fd, interest, task }, s)),
                        ),
                ),
        )
    } else if tag == 11 {
        followed_by(
            parse_fd(s),
            |fd: i32, s: Seq<u8>|
                followed_by(
                    parse_string(s),
                    |readiness: Seq<char>, s: Seq<u8>|
                        followed_by(
                            parse_id_list(s),
                            |woke: Seq<u64>, s: Seq<u8>|
                                Ok((EventModel::IoReady { fd, readiness, woke }, s)),
                        ),
                ),
        )
    } else if tag == 12 {
        followed_by(
            parse_u64(s),
            |id: u64, s: Seq<u8>|
                followed_by(
                    parse_u64(s),
                    |deadline_ns: u64, s: Seq<u8>|
                        followed_by(
                            parse_u64(s),
                            |task: u64, s: Seq<u8>|
                                Ok((EventModel::TimerSet { id, deadline_ns, task }, s)),
                        ),
                ),
        )
    } else if tag == 13 {
        followed_by(
            parse_u64(s),
            |id: u64, s: Seq<u8>|
                followed_by(
                    parse_u64(s),
                    |lateness_ns: u64, s: Seq<u8>|
                        Ok((EventModel::TimerFired { id, lateness_ns }, s)),
                ),
        )
    } else if tag == 14 {
        followed_by(
            parse_u64(s),
            |id: u64, s: Seq<u8>|
                Ok((EventModel::TimerCancelled { id }, s)),
        )
    } else if tag == 15 {
        followed_by(
            parse_u64(s),
            |task: u64, s: Seq<u8>|
                followed_by(
                    parse_u64(s),
                    |poll_duration_ns: u64, s: Seq<u8>|
                        followed_by(
                            parse_location(s),
                            |location: LocationModel, s: Seq<u8>|
                                Ok((EventModel::BlockingDetected { task, poll_duration_ns, location }, s)),
                        ),
                ),
        )
    } else if tag == 16 {
        followed_by(
            parse_u64(s),
            |task: u64, s: Seq<u8>|
                Ok((EventModel::BudgetExhausted { task }, s)),
        )
    } else if tag == 17 {
        followed_by(
            parse_string(s),
            |kind: Seq<char>, s: Seq<u8>|
                followed_by(
                    parse_u64(s),
                    |holder: u64, s: Seq<u8>|
                        followed_by(
                            parse_id_list(s),
                            |waiters: Seq<u64>, s: Seq<u8>|
                                Ok((EventModel::ResourceContended { kind, holder, waiters }, s)),
                        ),
                ),
        )
    } else {
        Err(DecodeError::UnknownTag(tag))
    }
}

/// The event that a payload stands for, or what is wrong with it. A payload
/// holds exactly one event: bytes behind it are an error.
pub open spec fn decode_bytes(s: Seq<u8>) -> Result<EventModel, DecodeError> {
    match parse_u8(s) {
        Err(e) => Err(e),
        Ok((tag, rest)) => match parse_fields(tag, rest) {
            Err(e) => Err(e),
            Ok((event, rest)) => if rest.len() == 0 {
                Ok(event)
            } else {
                Err(DecodeError::TrailingBytes { tag, remaining: rest.len() as usize })
            },
        },
    }
}

// ---------------------------------------------------------------------------
// Reading back what was written
// ---------------------------------------------------------------------------

#[verifier::spinoff_prover]
#[verifier::rlimit(60)]
broadcast proof fn lemma_u8(v: u8, rest: Seq<u8>)
    ensures
        #[trigger] parse_u8(seq![v] + rest) == Ok::<(u8, Seq<u8>), DecodeError>((v, rest)),
{
    assert((seq![v] + rest).skip(1) =~= rest);
}

/// The four bytes of a number, put together again.
#[verifier::spinoff_prover]
#[verifier::rlimit(60)]
proof fn lemma_u32_digits(v: u32)
    ensures
        v % 256 + 256 * (v / 256 % 256) + 65536 * (v / 65536 % 256) + 16777216 * (v / 16777216)
            == v,
        v / 16777216 < 256,
{
    assert(v % 256 + 256 * (v / 256 % 256) + 65536 * (v / 65536 % 256) + 16777216 * (v / 16777216)
        == v) by (bit_vector);
    assert(v / 16777216 < 256) by (bit_vector);
}

#[verifier::spinoff_prover]
#[verifier::rlimit(60)]
broadcast proof fn lemma_u32(v: u32, rest: Seq<u8>)
    ensures
        #[trigger] parse_u32(u32_bytes(v) + rest) == Ok::<(u32, Seq<u8>), DecodeError>((v, rest)),
{
    let s = u32_bytes(v) + rest;
    assert(s.skip(4) =~= rest);
    lemma_u32_digits(v);
    assert(s[0] == v % 256);
    assert(s[1] == v / 256 % 256);
    assert(s[2] == v / 65536 % 256);
    assert(s[3] == v / 16777216);
}

#[verifier::spinoff_prover]
#[verifier::rlimit(60)]
broadcast proof fn lemma_u64(v: u64, rest: Seq<u8>)
    ensures
        #[trigger] parse_u64(u64_bytes(v) + rest) == Ok::<(u64, Seq<u8>), DecodeError>((v, rest)),
{
    let low = (v % 4294967296) as u32;
    let high = (v / 4294967296) as u32;
    let s = u64_bytes(v) + rest;
    assert(s =~= u32_bytes(low) + (u32_bytes(high) + rest));
    lemma_u32(low, u32_bytes(high) + rest);
    lemma_u32(high, rest);
    assert(s.skip(4) =~= u32_bytes(high) + rest);
    assert(s.skip(8) =~= rest);
}

#[verifier::spinoff_prover]
#[verifier::rlimit(60)]
broadcast proof fn lemma_fd(v: i32, rest: Seq<u8>)
    ensures
        #[trigger] parse_fd(u32_bytes(fd_bits(v)) + rest) == Ok::<(i32, Seq<u8>), DecodeError>(
            (v, rest),
        ),
{
    lemma_u32(fd_bits(v), rest);
}

#[verifier::spinoff_prover]
#[verifier::rlimit(60)]
broadcast proof fn lemma_string(v: Seq<char>, rest: Seq<u8>)
    requires
        text_fits(v),
    ensures
        #[trigger] parse_string(string_bytes(v) + rest) == Ok::<
            (Seq<char>, Seq<u8>),
            DecodeError,
        >((v, rest)),
{
    let bytes = vstd::utf8::encode_utf8(v);
    let s = string_bytes(v) + rest;
    assert(s =~= u32_bytes(bytes.len() as u32) + (bytes + rest));
    lemma_u32(bytes.len() as u32, bytes + rest);
    assert((bytes + rest).take(bytes.len() as int) =~= bytes);
    assert((bytes + rest).skip(bytes.len() as int) =~= rest);
    vstd::utf8::encode_utf8_valid_utf8(v);
    vstd::utf8::encode_utf8_decode_utf8(v);
}

#[verifier::spinoff_prover]
#[verifier::rlimit(60)]
broadcast proof fn lemma_optional_string(v: Option<Seq<char>>, rest: Seq<u8>)
    requires
        v matches Some(text) ==> text_fits(text),
    ensures
        #[trigger] parse_optional_string(optional_string_bytes(v) + rest) == Ok::<
            (Option<Seq<char>>, Seq<u8>),
            DecodeError,
        >((v, rest)),
{
    broadcast use {lemma_u8, lemma_string};

    match v {
        Some(text) => {
            assert(optional_string_bytes(v) + rest =~= seq![1u8] + (string_bytes(text) + rest));
        },
        None => {},
    }
}

#[verifier::spinoff_prover]
#[verifier::rlimit(60)]
broadcast proof fn lemma_optional_u64(v: Option<u64>, rest: Seq<u8>)
    ensures
        #[trigger] parse_optional_u64(optional_u64_bytes(v) + rest) == Ok::<
            (Option<u64>, Seq<u8>),
            DecodeError,
        >((v, rest)),
{
    broadcast use {lemma_u8, lemma_u64};

    match v {
        Some(n) => {
            assert(optional_u64_bytes(v) + rest =~= seq![1u8] + (u64_bytes(n) + rest));
        },
        None => {},
    }
}

#[verifier::spinoff_prover]
#[verifier::rlimit(60)]
broadcast proof fn lemma_location(v: LocationModel, rest: Seq<u8>)
    requires
        text_fits(v.file),
    ensures
        #[trigger] parse_location(location_bytes(v) + rest) == Ok::<
            (LocationModel, Seq<u8>),
            DecodeError,
        >((v, rest)),
{
    broadcast use {lemma_u32, lemma_string};

    assert(location_bytes(v) + rest =~= string_bytes(v.file) + (u32_bytes(v.line) + rest));
}

#[verifier::spinoff_prover]
#[verifier::rlimit(60)]
proof fn lemma_ids(v: Seq<u64>, rest: Seq<u8>)
    ensures
        ids_bytes(v).len() == 8 * v.len(),
        ids_of_bytes(ids_bytes(v) + rest, v.len()) == v,
    decreases v.len(),
{
    let s = ids_bytes(v) + rest;
    if v.len() > 0 {
        let tail = v.drop_first();
        lemma_ids(tail, rest);
        let t = ids_bytes(tail) + rest;
        assert(s =~= u64_bytes(v[0]) + t);
        lemma_u64(v[0], t);
        assert(s.skip(8) =~= t);
        assert(s.skip(0) =~= s);
        assert forall|i: int| 0 <= i < v.len() implies ids_of_bytes(s, v.len())[i] == v[i] by {
            if i > 0 {
                assert(s.skip(8 * i) =~= t.skip(8 * (i - 1)));
                assert(ids_of_bytes(t, tail.len())[i - 1] == tail[i - 1]);
            }
        }
    }
    assert(ids_of_bytes(s, v.len()) =~= v);
}

#[verifier::spinoff_prover]
#[verifier::rlimit(60)]
broadcast proof fn lemma_id_list(v: Seq<u64>, rest: Seq<u8>)
    requires
        v.len() <= u32::MAX,
    ensures
        #[trigger] parse_id_list(id_list_bytes(v) + rest) == Ok::<
            (Seq<u64>, Seq<u8>),
            DecodeError,
        >((v, rest)),
{
    let n = v.len() as u32;
    lemma_ids(v, rest);
    assert(id_list_bytes(v) + rest =~= u32_bytes(n) + (ids_bytes(v) + rest));
    lemma_u32(n, ids_bytes(v) + rest);
    assert((ids_bytes(v) + rest).skip(8 * n) =~= rest);
}

#[verifier::spinoff_prover]
#[verifier::rlimit(60)]
broadcast proof fn lemma_wake_source(v: WakeSourceModel, rest: Seq<u8>)
    requires
        v matches WakeSourceModel::Channel { kind } ==> text_fits(kind),
    ensures
        #[trigger] parse_wake_source(wake_source_bytes(v) + rest) == Ok::<
            (WakeSourceModel, Seq<u8>),
            DecodeError,
        >((v, rest)),
{
    broadcast use {lemma_u8, lemma_u64, lemma_fd, lemma_string};

    match v {
        WakeSourceModel::Io { fd } => {
            assert(wake_source_bytes(v) + rest =~= seq![0u8] + (u32_bytes(fd_bits(fd)) + rest));
        },
        WakeSourceModel::Timer { id } => {
            assert(wake_source_bytes(v) + rest =~= seq![1u8] + (u64_bytes(id) + rest));
        },
        WakeSourceModel::Task { id } => {
            assert(wake_source_bytes(v) + rest =~= seq![2u8] + (u64_bytes(id) + rest));
        },
        WakeSourceModel::Channel { kind } => {
            assert(wake_source_bytes(v) + rest =~= seq![3u8] + (string_bytes(kind) + rest));
        },
        WakeSourceModel::External => {},
    }
}

#[verifier::spinoff_prover]
#[verifier::rlimit(60)]
broadcast proof fn lemma_unpark_reason(v: UnparkReason, rest: Seq<u8>)
    ensures
        #[trigger] parse_unpark_reason(seq![unpark_reason_byte(v)] + rest) == Ok::<
            (UnparkReason, Seq<u8>),
            DecodeError,
        >((v, rest)),
{
    lemma_u8(unpark_reason_byte(v), rest);
}

#[verifier::spinoff_prover]
#[verifier::rlimit(60)]
broadcast proof fn lemma_poll_result(v: PollResult, rest: Seq<u8>)
    ensures
        #[trigger] parse_poll_result(seq![poll_result_byte(v)] + rest) == Ok::<
            (PollResult, Seq<u8>),
            DecodeError,
        >((v, rest)),
{
    lemma_u8(poll_result_byte(v), rest);
}

#[verifier::spinoff_prover]
#[verifier::rlimit(60)]
broadcast proof fn lemma_lifo(v: bool, rest: Seq<u8>)
    ensures
        #[trigger] parse_lifo(seq![bool_byte(v)] + rest) == Ok::<(bool, Seq<u8>), DecodeError>(
            (v, rest),
        ),
{
    lemma_u8(bool_byte(v), rest);
}

/// Concatenations regroup to the right, onto an empty end.
#[verifier::spinoff_prover]
#[verifier::rlimit(60)]
proof fn lemma_regroup(t: Seq<u8>, a: Seq<u8>, b: Seq<u8>, c: Seq<u8>, d: Seq<u8>)
    ensures
        t + a == t + (a + Seq::<u8>::empty()),
        t + a + b == t + (a + (b + Seq::<u8>::empty())),
        t + a + b + c == t + (a + (b + (c + Seq::<u8>::empty()))),
        t + a + b + c + d == t + (a + (b + (c + (d + Seq::<u8>::empty())))),
{
    let end = Seq::<u8>::empty();
    assert(t + a =~= t + (a + end));
    assert(t + a + b =~= t + (a + (b + end)));
    assert(t + a + b + c =~= t + (a + (b + (c + end))));
    assert(t + a + b + c + d =~= t + (a + (b + (c + (d + end)))));
}

#[verifier::spinoff_prover]
#[verifier::rlimit(60)]
proof fn lemma_task_spawned(id: u64, name: Option<Seq<char>>, location: LocationModel, parent: Option<u64>)
    requires
        fields_fit(EventModel::TaskSpawned { id, name, location, parent }),
    ensures
        decode_bytes(payload_bytes(EventModel::TaskSpawned { id, name, location, parent })) == Ok::<EventModel, DecodeError>(
            EventModel::TaskSpawned { id, name, location, parent },
        ),
{
    reveal(parse_fields);
    broadcast use {lemma_location, lemma_optional_string, lemma_optional_u64, lemma_u64, lemma_u8};

    let end = Seq::<u8>::empty();
    lemma_regroup(seq![0u8], u64_bytes(id), optional_string_bytes(name), location_bytes(location), optional_u64_bytes(parent));
}

#[verifier::spinoff_prover]
#[verifier::rlimit(60)]
proof fn lemma_task_poll_start(id: u64, worker: u32, at_ns: u64)
    requires
        fields_fit(EventModel::TaskPollStart { id, worker, at_ns }),
    ensures
        decode_bytes(payload_bytes(EventModel::TaskPollStart { id, worker, at_ns })) == Ok::<EventModel, DecodeError>(
            EventModel::TaskPollStart { id, worker, at_ns },
        ),
{
    reveal(parse_fields);
    broadcast use {lemma_u32, lemma_u64, lemma_u8};

    let end = Seq::<u8>::empty();
    lemma_regroup(seq![1u8], u64_bytes(id), u32_bytes(worker), u64_bytes(at_ns), end);
}

#[verifier::spinoff_prover]
#[verifier::rlimit(60)]
proof fn lemma_task_poll_end(id: u64, worker: u32, duration_ns: u64, result: PollResult)
    requires
        fields_fit(EventModel::TaskPollEnd { id, worker, duration_ns, result }),
    ensures
        decode_bytes(payload_bytes(EventModel::TaskPollEnd { id, worker, duration_ns, result })) == Ok::<EventModel, DecodeError>(
            EventModel::TaskPollEnd { id, worker, duration_ns, result },
        ),
{
    reveal(parse_fields);
    broadcast use {lemma_poll_result, lemma_u32, lemma_u64, lemma_u8};

    let end = Seq::<u8>::empty();
    lemma_regroup(seq![2u8], u64_bytes(id), u32_bytes(worker), u64_bytes(duration_ns), seq![poll_result_byte(result)]);
}

#[verifier::spinoff_prover]
#[verifier::rlimit(60)]
proof fn lemma_task_woken(id: u64, by: WakeSourceModel)
    requires
        fields_fit(EventModel::TaskWoken { id, by }),
    ensures
        decode_bytes(payload_bytes(EventModel::TaskWoken { id, by })) == Ok::<EventModel, DecodeError>(
            EventModel::TaskWoken { id, by },
        ),
{
    reveal(parse_fields);
    broadcast use {lemma_u64, lemma_u8, lemma_wake_source};

    let end = Seq::<u8>::empty();
    lemma_regroup(seq![3u8], u64_bytes(id), wake_source_bytes(by), end, end);
}

#[verifier::spinoff_prover]
#[verifier::rlimit(60)]
proof fn lemma_task_dropped(id: u64, total_polls: u64, total_busy_ns: u64, total_idle_ns: u64)
    requires
        fields_fit(EventModel::TaskDropped { id, total_polls, total_busy_ns, total_idle_ns }),
    ensures
        decode_bytes(payload_bytes(EventModel::TaskDropped { id, total_polls, total_busy_ns, total_idle_ns })) == Ok::<EventModel, DecodeError>(
            EventModel::TaskDropped { id, total_polls, total_busy_ns, total_idle_ns },
        ),
{
    reveal(parse_fields);
    broadcast use {lemma_u64, lemma_u8};

    let end = Seq::<u8>::empty();
    lemma_regroup(seq![4u8], u64_bytes(id), u64_bytes(total_polls), u64_bytes(total_busy_ns), u64_bytes(total_idle_ns));
}

#[verifier::spinoff_prover]
#[verifier::rlimit(60)]
proof fn lemma_task_aborted(id: u64)
    requires
        fields_fit(EventModel::TaskAborted { id }),
    ensures
        decode_bytes(payload_bytes(EventModel::TaskAborted { id })) == Ok::<EventModel, DecodeError>(
            EventModel::TaskAborted { id },
        ),
{
    reveal(parse_fields);
    broadcast use {lemma_u64, lemma_u8};

    let end = Seq::<u8>::empty();
    lemma_regroup(seq![5u8], u64_bytes(id), end, end, end);
}

#[verifier::spinoff_prover]
#[verifier::rlimit(60)]
proof fn lemma_worker_park(worker: u32, timeout_ns: Option<u64>)
    requires
        fields_fit(EventModel::WorkerPark { worker, timeout_ns }),
    ensures
        decode_bytes(payload_bytes(EventModel::WorkerPark { worker, timeout_ns })) == Ok::<EventModel, DecodeError>(
            EventModel::WorkerPark { worker, timeout_ns },
        ),
{
    reveal(parse_fields);
    broadcast use {lemma_optional_u64, lemma_u32, lemma_u8};

    let end = Seq::<u8>::empty();
    lemma_regroup(seq![6u8], u32_bytes(worker), optional_u64_bytes(timeout_ns), end, end);
}

#[verifier::spinoff_prover]
#[verifier::rlimit(60)]
proof fn lemma_worker_unpark(worker: u32, reason: UnparkReason)
    requires
        fields_fit(EventModel::WorkerUnpark { worker, reason }),
    ensures
        decode_bytes(payload_bytes(EventModel::WorkerUnpark { worker, reason })) == Ok::<EventModel, DecodeError>(
            EventModel::WorkerUnpark { worker, reason },
        ),
{
    reveal(parse_fields);
    broadcast use {lemma_u32, lemma_u8, lemma_unpark_reason};

    let end = Seq::<u8>::empty();
    lemma_regroup(seq![7u8], u32_bytes(worker), seq![unpark_reason_byte(reason)], end, end);
}

#[verifier::spinoff_prover]
#[verifier::rlimit(60)]
proof fn lemma_worker_steal(thief: u32, victim: u32, count: u64)
    requires
        fields_fit(EventModel::WorkerSteal { thief, victim, count }),
    ensures
        decode_bytes(payload_bytes(EventModel::WorkerSteal { thief, victim, count })) == Ok::<EventModel, DecodeError>(
            EventModel::WorkerSteal { thief, victim, count },
        ),
{
    reveal(parse_fields);
    broadcast use {lemma_u32, lemma_u64, lemma_u8};

    let end = Seq::<u8>::empty();
    lemma_regroup(seq![8u8], u32_bytes(thief), u32_bytes(victim), u64_bytes(count), end);
}

#[verifier::spinoff_prover]
#[verifier::rlimit(60)]
proof fn lemma_queue_depth(worker: u32, local: u64, global: u64, lifo: bool)
    requires
        fields_fit(EventModel::QueueDepth { worker, local, global, lifo }),
    ensures
        decode_bytes(payload_bytes(EventModel::QueueDepth { worker, local, global, lifo })) == Ok::<EventModel, DecodeError>(
            EventModel::QueueDepth { worker, local, global, lifo },
        ),
{
    reveal(parse_fields);
    broadcast use {lemma_lifo, lemma_u32, lemma_u64, lemma_u8};

    let end = Seq::<u8>::empty();
    lemma_regroup(seq![9u8], u32_bytes(worker), u64_bytes(local), u64_bytes(global), seq![bool_byte(lifo)]);
}

#[verifier::spinoff_prover]
#[verifier::rlimit(60)]
proof fn lemma_io_registered(fd: i32, interest: Seq<char>, task: u64)
    requires
        fields_fit(EventModel::IoRegistered { fd, interest, task }),
    ensures
        decode_bytes(payload_bytes(EventModel::IoRegistered { fd, interest, task })) == Ok::<EventModel, DecodeError>(
            EventModel::IoRegistered { fd, interest, task },
        ),
{
    reveal(parse_fields);
    broadcast use {lemma_fd, lemma_string, lemma_u64, lemma_u8};

    let end = Seq::<u8>::empty();
    lemma_regroup(seq![10u8], u32_bytes(fd_bits(fd)), string_bytes(interest), u64_bytes(task), end);
}

#[verifier::spinoff_prover]
#[verifier::rlimit(60)]
proof fn lemma_io_ready(fd: i32, readiness: Seq<char>, woke: Seq<u64>)
    requires
        fields_fit(EventModel::IoReady { fd, readiness, woke }),
    ensures
        decode_bytes(payload_bytes(EventModel::IoReady { fd, readiness, woke })) == Ok::<EventModel, DecodeError>(
            EventModel::IoReady { fd, readiness, woke },
        ),
{
    reveal(parse_fields);
    broadcast use {lemma_fd, lemma_id_list, lemma_string, lemma_u8};

    let end = Seq::<u8>::empty();
    lemma_regroup(seq![11u8], u32_bytes(fd_bits(fd)), string_bytes(readiness), id_list_bytes(woke), end);
}

#[verifier::spinoff_prover]
#[verifier::rlimit(60)]
proof fn lemma_timer_set(id: u64, deadline_ns: u64, task: u64)
    requires
        fields_fit(EventModel::TimerSet { id, deadline_ns, task }),
    ensures
        decode_bytes(payload_bytes(EventModel::TimerSet { id, deadline_ns, task })) == Ok::<EventModel, DecodeError>(
            EventModel::TimerSet { id, deadline_ns, task },
        ),
{
    reveal(parse_fields);
    broadcast use {lemma_u64, lemma_u8};

    let end = Seq::<u8>::empty();
    lemma_regroup(seq![12u8], u64_bytes(id), u64_bytes(deadline_ns), u64_bytes(task), end);
}

#[verifier::spinoff_prover]
#[verifier::rlimit(60)]
proof fn lemma_timer_fired(id: u64, lateness_ns: u64)
    requires
        fields_fit(EventModel::TimerFired { id, lateness_ns }),
    ensures
        decode_bytes(payload_bytes(EventModel::TimerFired { id, lateness_ns })) == Ok::<EventModel, DecodeError>(
            EventModel::TimerFired { id, lateness_ns },
        ),
{
    reveal(parse_fields);
    broadcast use {lemma_u64, lemma_u8};

    let end = Seq::<u8>::empty();
    lemma_regroup(seq![13u8], u64_bytes(id), u64_bytes(lateness_ns), end, end);
}

#[verifier::spinoff_prover]
#[verifier::rlimit(60)]
proof fn lemma_timer_cancelled(id: u64)
    requires
        fields_fit(EventModel::TimerCancelled { id }),
    ensures
        decode_bytes(payload_bytes(EventModel::TimerCancelled { id })) == Ok::<EventModel, DecodeError>(
            EventModel::TimerCancelled { id },
        ),
{
    reveal(parse_fields);
    broadcast use {lemma_u64, lemma_u8};

    let end = Seq::<u8>::empty();
    lemma_regroup(seq![14u8], u64_bytes(id), end, end, end);
}

#[verifier::spinoff_prover]
#[verifier::rlimit(60)]
proof fn lemma_blocking_detected(task: u64, poll_duration_ns: u64, location: LocationModel)
    requires
        fields_fit(EventModel::BlockingDetected { task, poll_duration_ns, location }),
    ensures
        decode_bytes(payload_bytes(EventModel::BlockingDetected { task, poll_duration_ns, location })) == Ok::<EventModel, DecodeError>(
            EventModel::BlockingDetected { task, poll_duration_ns, location },
        ),
{
    reveal(parse_fields);
    broadcast use {lemma_location, lemma_u64, lemma_u8};

    let end = Seq::<u8>::empty();
    lemma_regroup(seq![15u8], u64_bytes(task), u64_bytes(poll_duration_ns), location_bytes(location), end);
}

#[verifier::spinoff_prover]
#[verifier::rlimit(60)]
proof fn lemma_budget_exhausted(task: u64)
    requires
        fields_fit(EventModel::BudgetExhausted { task }),
    ensures
        decode_bytes(payload_bytes(EventModel::BudgetExhausted { task })) == Ok::<EventModel, DecodeError>(
            EventModel::BudgetExhausted { task },
        ),
{
    reveal(parse_fields);
    broadcast use {lemma_u64, lemma_u8};

    let end = Seq::<u8>::empty();
    lemma_regroup(seq![16u8], u64_bytes(task), end, end, end);
}

#[verifier::spinoff_prover]
#[verifier::rlimit(60)]
proof fn lemma_resource_contended(kind: Seq<char>, holder: u64, waiters: Seq<u64>)
    requires
        fields_fit(EventModel::ResourceContended { kind, holder, waiters }),
    ensures
        decode_bytes(payload_bytes(EventModel::ResourceContended { kind, holder, waiters })) == Ok::<EventModel, DecodeError>(
            EventModel::ResourceContended { kind, holder, waiters },
        ),
{
    reveal(parse_fields);
    broadcast use {lemma_id_list, lemma_string, lemma_u64, lemma_u8};

    let end = Seq::<u8>::empty();
    lemma_regroup(seq![17u8], string_bytes(kind), u64_bytes(holder), id_list_bytes(waiters), end);
}

/// Decoding the payload of an event gives the event back.
#[verifier::spinoff_prover]
#[verifier::rlimit(60)]
pub proof fn law_decode_inverts_encode(event: EventModel)
    requires
        fields_fit(event),
    ensures
        decode_bytes(payload_bytes(event)) == Ok::<EventModel, DecodeError>(event),
{
    match event {
        EventModel::TaskSpawned { id, name, location, parent } => lemma_task_spawned(id, name, location, parent),
        EventModel::TaskPollStart { id, worker, at_ns } => lemma_task_poll_start(id, worker, at_ns),
        EventModel::TaskPollEnd { id, worker, duration_ns, result } => lemma_task_poll_end(id, worker, duration_ns, result),
        EventModel::TaskWoken { id, by } => lemma_task_woken(id, by),
        EventModel::TaskDropped { id, total_polls, total_busy_ns, total_idle_ns } => lemma_task_dropped(id, total_polls, total_busy_ns, total_idle_ns),
        EventModel::TaskAborted { id } => lemma_task_aborted(id),
        EventModel::WorkerPark { worker, timeout_ns } => lemma_worker_park(worker, timeout_ns),
        EventModel::WorkerUnpark { worker, reason } => lemma_worker_unpark(worker, reason),
        EventModel::WorkerSteal { thief, victim, count } => lemma_worker_steal(thief, victim, count),
        EventModel::QueueDepth { worker, local, global, lifo } => lemma_queue_depth(worker, local, global, lifo),
        EventModel::IoRegistered { fd, interest, task } => lemma_io_registered(fd, interest, task),
        EventModel::IoReady { fd, readiness, woke } => lemma_io_ready(fd, readiness, woke),
        EventModel::TimerSet { id, deadline_ns, task } => lemma_timer_set(id, deadline_ns, task),
        EventModel::TimerFired { id, lateness_ns } => lemma_timer_fired(id, lateness_ns),
        EventModel::TimerCancelled { id } => lemma_timer_cancelled(id),
        EventModel::BlockingDetected { task, poll_duration_ns, location } => lemma_blocking_detected(task, poll_duration_ns, location),
        EventModel::BudgetExhausted { task } => lemma_budget_exhausted(task),
        EventModel::ResourceContended { kind, holder, waiters } => lemma_resource_contended(kind, holder, waiters),
    }
}

// ---------------------------------------------------------------------------
// Only what was written reads back
// ---------------------------------------------------------------------------

#[verifier::spinoff_prover]
#[verifier::rlimit(60)]
broadcast proof fn lemma_u8_back(s: Seq<u8>)
    ensures
        (#[trigger] parse_u8(s)) matches Ok((v, rest)) ==> s == seq![v] + rest,
{
    if s.len() >= 1 {
        assert(s =~= seq![s[0]] + s.skip(1));
    }
}

#[verifier::spinoff_prover]
#[verifier::rlimit(60)]
broadcast proof fn lemma_u32_back(s: Seq<u8>)
    ensures
        (#[trigger] parse_u32(s)) matches Ok((v, rest)) ==> s == u32_bytes(v) + rest,
{
    if s.len() >= 4 {
        assert(s =~= u32_bytes(u32_of_bytes(s)) + s.skip(4));
    }
}

#[verifier::spinoff_prover]
#[verifier::rlimit(60)]
proof fn lemma_assoc(a: Seq<u8>, b: Seq<u8>, c: Seq<u8>)
    ensures
        a + (b + c) == a + b + c,
{
    assert(a + (b + c) =~= a + b + c);
}

#[verifier::spinoff_prover]
#[verifier::rlimit(60)]
proof fn lemma_halves(low: u32, high: u32)
    ensures
        u64_bytes((low + 4294967296 * high) as u64) == u32_bytes(low) + u32_bytes(high),
{
    let v = (low + 4294967296 * high) as u64;
    assert(v % 4294967296 == low && v / 4294967296 == high);
}

#[verifier::spinoff_prover]
#[verifier::rlimit(60)]
broadcast proof fn lemma_u64_back(s: Seq<u8>)
    ensures
        (#[trigger] parse_u64(s)) matches Ok((v, rest)) ==> s == u64_bytes(v) + rest,
{
    if s.len() >= 8 {
        let low = u32_of_bytes(s);
        let high = u32_of_bytes(s.skip(4));
        lemma_u32_back(s);
        lemma_u32_back(s.skip(4));
        lemma_halves(low, high);
        assert(s.skip(4).skip(4) =~= s.skip(8));
        lemma_assoc(u32_bytes(low), u32_bytes(high), s.skip(8));
    }
}

#[verifier::spinoff_prover]
#[verifier::rlimit(60)]
broadcast proof fn lemma_fd_back(s: Seq<u8>)
    ensures
        (#[trigger] parse_fd(s)) matches Ok((v, rest)) ==> s == u32_bytes(fd_bits(v)) + rest,
{
    lemma_u32_back(s);
}

#[verifier::spinoff_prover]
#[verifier::rlimit(60)]
broadcast proof fn lemma_string_back(s: Seq<u8>)
    ensures
        (#[trigger] parse_string(s)) matches Ok((v, rest)) ==> s == string_bytes(v) + rest
            && text_fits(v),
{
    if let Ok((v, rest)) = parse_string(s) {
        lemma_u32_back(s);
        let (len, t) = parse_u32(s)->Ok_0;
        let bytes = t.take(len as int);
        vstd::utf8::decode_utf8_encode_utf8(bytes);
        assert(t =~= bytes + rest);
        assert(u32_bytes(len) + (bytes + rest) =~= string_bytes(v) + rest);
    }
}

#[verifier::spinoff_prover]
#[verifier::rlimit(60)]
broadcast proof fn lemma_optional_string_back(s: Seq<u8>)
    ensures
        (#[trigger] parse_optional_string(s)) matches Ok((v, rest)) ==> s == optional_string_bytes(
            v,
        ) + rest && (v matches Some(text) ==> text_fits(text)),
{
    broadcast use {lemma_u8_back, lemma_string_back};

    if let Ok((v, rest)) = parse_optional_string(s) {
        if let Some(text) = v {
            assert(seq![1u8] + (string_bytes(text) + rest) =~= optional_string_bytes(v) + rest);
        }
    }
}

#[verifier::spinoff_prover]
#[verifier::rlimit(60)]
broadcast proof fn lemma_optional_u64_back(s: Seq<u8>)
    ensures
        (#[trigger] parse_optional_u64(s)) matches Ok((v, rest)) ==> s == optional_u64_bytes(v)
            + rest,
{
    broadcast use {lemma_u8_back, lemma_u64_back};

    if let Ok((v, rest)) = parse_optional_u64(s) {
        if let Some(n) = v {
            assert(seq![1u8] + (u64_bytes(n) + rest) =~= optional_u64_bytes(v) + rest);
        }
    }
}

#[verifier::spinoff_prover]
#[verifier::rlimit(60)]
broadcast proof fn lemma_location_back(s: Seq<u8>)
    ensures
        (#[trigger] parse_location(s)) matches Ok((v, rest)) ==> s == location_bytes(v) + rest
            && text_fits(v.file),
{
    broadcast use {lemma_string_back, lemma_u32_back};

    if let Ok((v, rest)) = parse_location(s) {
        assert(string_bytes(v.file) + (u32_bytes(v.line) + rest) =~= location_bytes(v) + rest);
    }
}

#[verifier::spinoff_prover]
#[verifier::rlimit(60)]
proof fn lemma_ids_back(s: Seq<u8>, count: nat)
    requires
        8 * count <= s.len(),
    ensures
        s == ids_bytes(ids_of_bytes(s, count)) + s.skip((8 * count) as int),
    decreases count,
{
    let ids = ids_of_bytes(s, count);
    if count == 0 {
        assert(s =~= ids_bytes(ids) + s.skip(0));
    } else {
        let t = s.skip(8);
        let fewer = (count - 1) as nat;
        lemma_ids_back(t, fewer);
        lemma_u64_back(s);
        assert(s.skip(0) =~= s);
        assert(ids.drop_first() =~= ids_of_bytes(t, fewer)) by {
            assert forall|i: int| 0 <= i < fewer implies ids.drop_first()[i] == ids_of_bytes(
                t,
                fewer,
            )[i] by {
                assert(s.skip(8 * (i + 1)) =~= t.skip(8 * i));
            }
        }
        assert(t.skip((8 * fewer) as int) =~= s.skip((8 * count) as int));
        assert(s =~= ids_bytes(ids) + s.skip((8 * count) as int));
    }
}

#[verifier::spinoff_prover]
#[verifier::rlimit(60)]
broadcast proof fn lemma_id_list_back(s: Seq<u8>)
    ensures
        (#[trigger] parse_id_list(s)) matches Ok((v, rest)) ==> s == id_list_bytes(v) + rest
            && v.len() <= u32::MAX,
{
    if let Ok((v, rest)) = parse_id_list(s) {
        lemma_u32_back(s);
        let (count, t) = parse_u32(s)->Ok_0;
        lemma_ids_back(t, count as nat);
        assert(u32_bytes(count) + (ids_bytes(v) + rest) =~= id_list_bytes(v) + rest);
    }
}

#[verifier::spinoff_prover]
#[verifier::rlimit(60)]
broadcast proof fn lemma_wake_source_back(s: Seq<u8>)
    ensures
        (#[trigger] parse_wake_source(s)) matches Ok((v, rest)) ==> s == wake_source_bytes(v) + rest
            && (v matches WakeSourceModel::Channel { kind } ==> text_fits(kind)),
{
    broadcast use {lemma_u8_back, lemma_u64_back, lemma_fd_back, lemma_string_back};

    if let Ok((v, rest)) = parse_wake_source(s) {
        match v {
            WakeSourceModel::Io { fd } => {
                assert(wake_source_bytes(v) + rest =~= seq![0u8] + (u32_bytes(fd_bits(fd)) + rest));
            },
            WakeSourceModel::Timer { id } => {
                assert(wake_source_bytes(v) + rest =~= seq![1u8] + (u64_bytes(id) + rest));
            },
            WakeSourceModel::Task { id } => {
                assert(wake_source_bytes(v) + rest =~= seq![2u8] + (u64_bytes(id) + rest));
            },
            WakeSourceModel::Channel { kind } => {
                assert(wake_source_bytes(v) + rest =~= seq![3u8] + (string_bytes(kind) + rest));
            },
            WakeSourceModel::External => {},
        }
    }
}

#[verifier::spinoff_prover]
#[verifier::rlimit(60)]
broadcast proof fn lemma_unpark_reason_back(s: Seq<u8>)
    ensures
        (#[trigger] parse_unpark_reason(s)) matches Ok((v, rest)) ==> s == seq![
            unpark_reason_byte(v),
        ] + rest,
{
    lemma_u8_back(s);
}

#[verifier::spinoff_prover]
#[verifier::rlimit(60)]
broadcast proof fn lemma_poll_result_back(s: Seq<u8>)
    ensures
        (#[trigger] parse_poll_result(s)) matches Ok((v, rest)) ==> s == seq![poll_result_byte(v)]
            + rest,
{
    lemma_u8_back(s);
}

#[verifier::spinoff_prover]
#[verifier::rlimit(60)]
broadcast proof fn lemma_lifo_back(s: Seq<u8>)
    ensures
        (#[trigger] parse_lifo(s)) matches Ok((v, rest)) ==> s == seq![bool_byte(v)] + rest,
{
    lemma_u8_back(s);
}

#[verifier::spinoff_prover]
#[verifier::rlimit(60)]
proof fn lemma_task_spawned_back(s: Seq<u8>, end: Seq<u8>)
    requires
        parse_fields(0, s) matches Ok((_, rest)) && rest == end,
        end.len() == 0,
    ensures
        parse_fields(0, s) matches Ok((event, _)) && seq![0u8] + s == payload_bytes(event)
            && fields_fit(event),
{
    reveal(parse_fields);
    broadcast use {lemma_location_back, lemma_optional_string_back, lemma_optional_u64_back, lemma_u64_back};

    assert(end =~= Seq::empty());
    if let Ok((EventModel::TaskSpawned { id, name, location, parent }, _)) = parse_fields(0, s) {
        lemma_regroup(seq![0u8], u64_bytes(id), optional_string_bytes(name), location_bytes(location), optional_u64_bytes(parent));
    }
}

#[verifier::spinoff_prover]
#[verifier::rlimit(60)]
proof fn lemma_task_poll_start_back(s: Seq<u8>, end: Seq<u8>)
    requires
        parse_fields(1, s) matches Ok((_, rest)) && rest == end,
        end.len() == 0,
    ensures
        parse_fields(1, s) matches Ok((event, _)) && seq![1u8] + s == payload_bytes(event)
            && fields_fit(event),
{
    reveal(parse_fields);
    broadcast use {lemma_u32_back, lemma_u64_back};

    assert(end =~= Seq::empty());
    if let Ok((EventModel::TaskPollStart { id, worker, at_ns }, _)) = parse_fields(1, s) {
        lemma_regroup(seq![1u8], u64_bytes(id), u32_bytes(worker), u64_bytes(at_ns), end);
    }
}

#[verifier::spinoff_prover]
#[verifier::rlimit(60)]
proof fn lemma_task_poll_end_back(s: Seq<u8>, end: Seq<u8>)
    requires
        parse_fields(2, s) matches Ok((_, rest)) && rest == end,
        end.len() == 0,
    ensures
        parse_fields(2, s) matches Ok((event, _)) && seq![2u8] + s == payload_bytes(event)
            && fields_fit(event),
{
    reveal(parse_fields);
    broadcast use {lemma_poll_result_back, lemma_u32_back, lemma_u64_back};

    assert(end =~= Seq::empty());
    if let Ok((EventModel::TaskPollEnd { id, worker, duration_ns, result }, _)) = parse_fields(2, s) {
        lemma_regroup(seq![2u8], u64_bytes(id), u32_bytes(worker), u64_bytes(duration_ns), seq![poll_result_byte(result)]);
    }
}

#[verifier::spinoff_prover]
#[verifier::rlimit(60)]
proof fn lemma_task_woken_back(s: Seq<u8>, end: Seq<u8>)
    requires
        parse_fields(3, s) matches Ok((_, rest)) && rest == end,
        end.len() == 0,
    ensures
        parse_fields(3, s) matches Ok((event, _)) && seq![3u8] + s == payload_bytes(event)
            && fields_fit(event),
{
    reveal(parse_fields);
    broadcast use {lemma_u64_back, lemma_wake_source_back};

    assert(end =~= Seq::empty());
    if let Ok((EventModel::TaskWoken { id, by }, _)) = parse_fields(3, s) {
        lemma_regroup(seq![3u8], u64_bytes(id), wake_source_bytes(by), end, end);
    }
}

#[verifier::rlimit(40)]
#[verifier::spinoff_prover]
proof fn lemma_task_dropped_back(s: Seq<u8>, end: Seq<u8>)
    requires
        parse_fields(4, s) matches Ok((_, rest)) && rest == end,
        end.len() == 0,
    ensures
        parse_fields(4, s) matches Ok((event, _)) && seq![4u8] + s == payload_bytes(event)
            && fields_fit(event),
{
    reveal(parse_fields);
    broadcast use {lemma_u64_back};

    assert(end =~= Seq::empty());
    if let Ok((EventModel::TaskDropped { id, total_polls, total_busy_ns, total_idle_ns }, _)) = parse_fields(4, s) {
        lemma_regroup(seq![4u8], u64_bytes(id), u64_bytes(total_polls), u64_bytes(total_busy_ns), u64_bytes(total_idle_ns));
    }
}

#[verifier::spinoff_prover]
#[verifier::rlimit(60)]
proof fn lemma_task_aborted_back(s: Seq<u8>, end: Seq<u8>)
    requires
        parse_fields(5, s) matches Ok((_, rest)) && rest == end,
        end.len() == 0,
    ensures
        parse_fields(5, s) matches Ok((event, _)) && seq![5u8] + s == payload_bytes(event)
            && fields_fit(event),
{
    reveal(parse_fields);
    broadcast use {lemma_u64_back};

    assert(end =~= Seq::empty());
    if let Ok((EventModel::TaskAborted { id }, _)) = parse_fields(5, s) {
        lemma_regroup(seq![5u8], u64_bytes(id), end, end, end);
    }
}

#[verifier::spinoff_prover]
#[verifier::rlimit(60)]
proof fn lemma_worker_park_back(s: Seq<u8>, end: Seq<u8>)
    requires
        parse_fields(6, s) matches Ok((_, rest)) && rest == end,
        end.len() == 0,
    ensures
        parse_fields(6, s) matches Ok((event, _)) && seq![6u8] + s == payload_bytes(event)
            && fields_fit(event),
{
    reveal(parse_fields);
    broadcast use {lemma_optional_u64_back, lemma_u32_back};

    assert(end =~= Seq::empty());
    if let Ok((EventModel::WorkerPark { worker, timeout_ns }, _)) = parse_fields(6, s) {
        lemma_regroup(seq![6u8], u32_bytes(worker), optional_u64_bytes(timeout_ns), end, end);
    }
}

#[verifier::spinoff_prover]
#[verifier::rlimit(60)]
proof fn lemma_worker_unpark_back(s: Seq<u8>, end: Seq<u8>)
    requires
        parse_fields(7, s) matches Ok((_, rest)) && rest == end,
        end.len() == 0,
    ensures
        parse_fields(7, s) matches Ok((event, _)) && seq![7u8] + s == payload_bytes(event)
            && fields_fit(event),
{
    reveal(parse_fields);
    broadcast use {lemma_u32_back, lemma_unpark_reason_back};

    assert(end =~= Seq::empty());
    if let Ok((EventModel::WorkerUnpark { worker, reason }, _)) = parse_fields(7, s) {
        lemma_regroup(seq![7u8], u32_bytes(worker), seq![unpark_reason_byte(reason)], end, end);
    }
}

#[verifier::spinoff_prover]
#[verifier::rlimit(60)]
proof fn lemma_worker_steal_back(s: Seq<u8>, end: Seq<u8>)
    requires
        parse_fields(8, s) matches Ok((_, rest)) && rest == end,
        end.len() == 0,
    ensures
        parse_fields(8, s) matches Ok((event, _)) && seq![8u8] + s == payload_bytes(event)
            && fields_fit(event),
{
    reveal(parse_fields);
    broadcast use {lemma_u32_back, lemma_u64_back};

    assert(end =~= Seq::empty());
    if let Ok((EventModel::WorkerSteal { thief, victim, count }, _)) = parse_fields(8, s) {
        lemma_regroup(seq![8u8], u32_bytes(thief), u32_bytes(victim), u64_bytes(count), end);
    }
}

#[verifier::spinoff_prover]
#[verifier::rlimit(60)]
proof fn lemma_queue_depth_back(s: Seq<u8>, end: Seq<u8>)
    requires
        parse_fields(9, s) matches Ok((_, rest)) && rest == end,
        end.len() == 0,
    ensures
        parse_fields(9, s) matches Ok((event, _)) && seq![9u8] + s == payload_bytes(event)
            && fields_fit(event),
{
    reveal(parse_fields);
    broadcast use {lemma_lifo_back, lemma_u32_back, lemma_u64_back};

    assert(end =~= Seq::empty());
    if let Ok((EventModel::QueueDepth { worker, local, global, lifo }, _)) = parse_fields(9, s) {
        lemma_regroup(seq![9u8], u32_bytes(worker), u64_bytes(local), u64_bytes(global), seq![bool_byte(lifo)]);
    }
}

#[verifier::spinoff_prover]
#[verifier::rlimit(60)]
proof fn lemma_io_registered_back(s: Seq<u8>, end: Seq<u8>)
    requires
        parse_fields(10, s) matches Ok((_, rest)) && rest == end,
        end.len() == 0,
    ensures
        parse_fields(10, s) matches Ok((event, _)) && seq![10u8] + s == payload_bytes(event)
            && fields_fit(event),
{
    reveal(parse_fields);
    broadcast use {lemma_fd_back, lemma_string_back, lemma_u64_back};

    assert(end =~= Seq::empty());
    if let Ok((EventModel::IoRegistered { fd, interest, task }, _)) = parse_fields(10, s) {
        lemma_regroup(seq![10u8], u32_bytes(fd_bits(fd)), string_bytes(interest), u64_bytes(task), end);
    }
}

#[verifier::spinoff_prover]
#[verifier::rlimit(60)]
proof fn lemma_io_ready_back(s: Seq<u8>, end: Seq<u8>)
    requires
        parse_fields(11, s) matches Ok((_, rest)) && rest == end,
        end.len() == 0,
    ensures
        parse_fields(11, s) matches Ok((event, _)) && seq![11u8] + s == payload_bytes(event)
            && fields_fit(event),
{
    reveal(parse_fields);
    broadcast use {lemma_fd_back, lemma_id_list_back, lemma_string_back};

    assert(end =~= Seq::empty());
    if let Ok((EventModel::IoReady { fd, readiness, woke }, _)) = parse_fields(11, s) {
        lemma_regroup(seq![11u8], u32_bytes(fd_bits(fd)), string_bytes(readiness), id_list_bytes(woke), end);
    }
}

#[verifier::spinoff_prover]
#[verifier::rlimit(60)]
proof fn lemma_timer_set_back(s: Seq<u8>, end: Seq<u8>)
    requires
        parse_fields(12, s) matches Ok((_, rest)) && rest == end,
        end.len() == 0,
    ensures
        parse_fields(12, s) matches Ok((event, _)) && seq![12u8] + s == payload_bytes(event)
            && fields_fit(event),
{
    reveal(parse_fields);
    broadcast use {lemma_u64_back};

    assert(end =~= Seq::empty());
    if let Ok((EventModel::TimerSet { id, deadline_ns, task }, _)) = parse_fields(12, s) {
        lemma_regroup(seq![12u8], u64_bytes(id), u64_bytes(deadline_ns), u64_bytes(task), end);
    }
}

#[verifier::spinoff_prover]
#[verifier::rlimit(60)]
proof fn lemma_timer_fired_back(s: Seq<u8>, end: Seq<u8>)
    requires
        parse_fields(13, s) matches Ok((_, rest)) && rest == end,
        end.len() == 0,
    ensures
        parse_fields(13, s) matches Ok((event, _)) && seq![13u8] + s == payload_bytes(event)
            && fields_fit(event),
{
    reveal(parse_fields);
    broadcast use {lemma_u64_back};

    assert(end =~= Seq::empty());
    if let Ok((EventModel::TimerFired { id, lateness_ns }, _)) = parse_fields(13, s) {
        lemma_regroup(seq![13u8], u64_bytes(id), u64_bytes(lateness_ns), end, end);
    }
}

#[verifier::spinoff_prover]
#[verifier::rlimit(60)]
proof fn lemma_timer_cancelled_back(s: Seq<u8>, end: Seq<u8>)
    requires
        parse_fields(14, s) matches Ok((_, rest)) && rest == end,
        end.len() == 0,
    ensures
        parse_fields(14, s) matches Ok((event, _)) && seq![14u8] + s == payload_bytes(event)
            && fields_fit(event),
{
    reveal(parse_fields);
    broadcast use {lemma_u64_back};

    assert(end =~= Seq::empty());
    if let Ok((EventModel::TimerCancelled { id }, _)) = parse_fields(14, s) {
        lemma_regroup(seq![14u8], u64_bytes(id), end, end, end);
    }
}

#[verifier::spinoff_prover]
#[verifier::rlimit(60)]
proof fn lemma_blocking_detected_back(s: Seq<u8>, end: Seq<u8>)
    requires
        parse_fields(15, s) matches Ok((_, rest)) && rest == end,
        end.len() == 0,
    ensures
        parse_fields(15, s) matches Ok((event, _)) && seq![15u8] + s == payload_bytes(event)
            && fields_fit(event),
{
    reveal(parse_fields);
    broadcast use {lemma_location_back, lemma_u64_back};

    assert(end =~= Seq::empty());
    if let Ok((EventModel::BlockingDetected { task, poll_duration_ns, location }, _)) = parse_fields(15, s) {
        lemma_regroup(seq![15u8], u64_bytes(task), u64_bytes(poll_duration_ns), location_bytes(location), end);
    }
}

#[verifier::spinoff_prover]
#[verifier::rlimit(60)]
proof fn lemma_budget_exhausted_back(s: Seq<u8>, end: Seq<u8>)
    requires
        parse_fields(16, s) matches Ok((_, rest)) && rest == end,
        end.len() == 0,
    ensures
        parse_fields(16, s) matches Ok((event, _)) && seq![16u8] + s == payload_bytes(event)
            && fields_fit(event),
{
    reveal(parse_fields);
    broadcast use {lemma_u64_back};

    assert(end =~= Seq::empty());
    if let Ok((EventModel::BudgetExhausted { task }, _)) = parse_fields(16, s) {
        lemma_regroup(seq![16u8], u64_bytes(task), end, end, end);
    }
}

#[verifier::spinoff_prover]
#[verifier::rlimit(60)]
proof fn lemma_resource_contended_back(s: Seq<u8>, end: Seq<u8>)
    requires
        parse_fields(17, s) matches Ok((_, rest)) && rest == end,
        end.len() == 0,
    ensures
        parse_fields(17, s) matches Ok((event, _)) && seq![17u8] + s == payload_bytes(event)
            && fields_fit(event),
{
    reveal(parse_fields);
    broadcast use {lemma_id_list_back, lemma_string_back, lemma_u64_back};

    assert(end =~= Seq::empty());
    if let Ok((EventModel::ResourceContended { kind, holder, waiters }, _)) = parse_fields(17, s) {
        lemma_regroup(seq![17u8], string_bytes(kind), u64_bytes(holder), id_list_bytes(waiters), end);
    }
}

/// A payload that decodes is the payload of the event that it decodes to: every
/// event has exactly one encoding.
#[verifier::spinoff_prover]
#[verifier::rlimit(60)]
pub proof fn law_encode_inverts_decode(s: Seq<u8>)
    ensures
        decode_bytes(s) matches Ok(event) ==> s == payload_bytes(event) && fields_fit(event),
{
    if let Ok(event) = decode_bytes(s) {
        lemma_u8_back(s);
        let (tag, fields) = parse_u8(s)->Ok_0;
        let end = parse_fields(tag, fields)->Ok_0.1;
        assert(tag <= 17) by {
            reveal(parse_fields);
        }
        if tag == 0 {
            lemma_task_spawned_back(fields, end);
        } else if tag == 1 {
            lemma_task_poll_start_back(fields, end);
        } else if tag == 2 {
            lemma_task_poll_end_back(fields, end);
        } else if tag == 3 {
            lemma_task_woken_back(fields, end);
        } else if tag == 4 {
            lemma_task_dropped_back(fields, end);
        } else if tag == 5 {
            lemma_task_aborted_back(fields, end);
        } else if tag == 6 {
            lemma_worker_park_back(fields, end);
        } else if tag == 7 {
            lemma_worker_unpark_back(fields, end);
        } else if tag == 8 {
            lemma_worker_steal_back(fields, end);
        } else if tag == 9 {
            lemma_queue_depth_back(fields, end);
        } else if tag == 10 {
            lemma_io_registered_back(fields, end);
        } else if tag == 11 {
            lemma_io_ready_back(fields, end);
        } else if tag == 12 {
            lemma_timer_set_back(fields, end);
        } else if tag == 13 {
            lemma_timer_fired_back(fields, end);
        } else if tag == 14 {
            lemma_timer_cancelled_back(fields, end);
        } else if tag == 15 {
            lemma_blocking_detected_back(fields, end);
        } else if tag == 16 {
            lemma_budget_exhausted_back(fields, end);
        } else if tag == 17 {
            lemma_resource_contended_back(fields, end);
        }
    }
}

/// One more id adds its eight bytes at the end.
#[verifier::spinoff_prover]
#[verifier::rlimit(60)]
pub proof fn lemma_ids_push(ids: Seq<u64>, id: u64)
    ensures
        ids_bytes(ids.push(id)) == ids_bytes(ids) + u64_bytes(id),
    decreases ids.len(),
{
    reveal_with_fuel(ids_bytes, 2);
    let more = ids.push(id);
    if ids.len() == 0 {
        assert(more.drop_first() =~= Seq::empty());
        assert(u64_bytes(id) + Seq::<u8>::empty() =~= Seq::<u8>::empty() + u64_bytes(id));
    } else {
        assert(more.drop_first() =~= ids.drop_first().push(id));
        lemma_ids_push(ids.drop_first(), id);
        lemma_assoc(u64_bytes(ids[0]), ids_bytes(ids.drop_first()), u64_bytes(id));
    }
}

// ---------------------------------------------------------------------------
// Streams of frames
// ---------------------------------------------------------------------------

/// What decoding a stretch of stream gives: the events of its complete frames,
/// the bytes that are left, and the error that stopped it, if one did.
pub struct Drained {
    pub events: Seq<EventModel>,
    pub rest: Seq<u8>,
    pub error: Option<DecodeError>,
}

/// Decodes frames off the front of `s` until none is complete or one is wrong.
/// A frame with a bad payload is consumed; an oversized one is not.
pub open spec fn drain(s: Seq<u8>) -> Drained
    decreases s.len(),
{
    if s.len() < 4 {
        Drained { events: Seq::empty(), rest: s, error: None }
    } else {
        let size = u32_of_bytes(s);
        if size > MAX_FRAME_SIZE {
            Drained {
                events: Seq::empty(),
                rest: s,
                error: Some(DecodeError::FrameTooLarge(size)),
            }
        } else if s.len() < 4 + size {
            Drained { events: Seq::empty(), rest: s, error: None }
        } else {
            let rest = s.skip(4 + size);
            match decode_bytes(s.subrange(4, 4 + size)) {
                Err(e) => Drained { events: Seq::empty(), rest, error: Some(e) },
                Ok(event) => {
                    let later = drain(rest);
                    Drained {
                        events: seq![event] + later.events,
                        rest: later.rest,
                        error: later.error,
                    }
                },
            }
        }
    }
}

/// Where a stream is cut does not matter: decoding `a`, and then `b` behind
/// what `a` left over, gives the events, the rest and the error of decoding
/// `a + b` at once. Once `a` has an error, `b` changes nothing but the rest.
#[verifier::spinoff_prover]
#[verifier::rlimit(60)]
pub proof fn law_fragmentation(a: Seq<u8>, b: Seq<u8>)
    ensures
        drain(a).error is None ==> {
            let later = drain(drain(a).rest + b);
            drain(a + b) == (Drained {
                events: drain(a).events + later.events,
                rest: later.rest,
                error: later.error,
            })
        },
        drain(a).error is Some ==> drain(a + b) == (Drained {
            events: drain(a).events,
            rest: drain(a).rest + b,
            error: drain(a).error,
        }),
    decreases a.len(),
{
    let d = drain(a);
    let s = a + b;
    if a.len() >= 4 {
        assert(u32_of_bytes(s) == u32_of_bytes(a));
        let size = u32_of_bytes(a);
        if size <= MAX_FRAME_SIZE && a.len() >= 4 + size {
            let rest = a.skip(4 + size);
            assert(s.subrange(4, 4 + size) =~= a.subrange(4, 4 + size));
            assert(s.skip(4 + size) =~= rest + b);
            if let Ok(event) = decode_bytes(a.subrange(4, 4 + size)) {
                law_fragmentation(rest, b);
                if d.error is None {
                    let later = drain(d.rest + b);
                    assert(seq![event] + (drain(rest).events + later.events) =~= d.events
                        + later.events);
                }
            }
        } else if size <= MAX_FRAME_SIZE {
            assert(Seq::<EventModel>::empty() + drain(s).events =~= drain(s).events);
        }
    } else {
        assert(Seq::<EventModel>::empty() + drain(s).events =~= drain(s).events);
    }
}

#[verifier::spinoff_prover]
#[verifier::rlimit(60)]
proof fn lemma_frame(payload: Seq<u8>, more: Seq<u8>)
    requires
        payload.len() <= MAX_FRAME_SIZE,
        decode_bytes(payload) is Ok,
    ensures
        drain(frame_bytes(payload) + more) == (Drained {
            events: seq![decode_bytes(payload)->Ok_0] + drain(more).events,
            rest: drain(more).rest,
            error: drain(more).error,
        }),
{
    let n = payload.len() as u32;
    let s = frame_bytes(payload) + more;
    lemma_u32(n, payload + more);
    assert(s =~= u32_bytes(n) + (payload + more));
    assert(s.subrange(4, 4 + n) =~= payload);
    assert(s.skip(4 + n) =~= more);
}

/// A frame at the front of a stream decodes to the event that it was made from,
/// and what follows decodes as if the frame had not been there. Decoders take no
/// payload over `MAX_FRAME_SIZE`.
#[verifier::spinoff_prover]
#[verifier::rlimit(60)]
pub proof fn law_frame_roundtrip(event: EventModel, more: Seq<u8>)
    requires
        fields_fit(event),
        payload_bytes(event).len() <= MAX_FRAME_SIZE,
    ensures
        drain(frame_bytes(payload_bytes(event)) + more) == (Drained {
            events: seq![event] + drain(more).events,
            rest: drain(more).rest,
            error: drain(more).error,
        }),
{
    law_decode_inverts_encode(event);
    lemma_frame(payload_bytes(event), more);
}

/// The four bytes in front of a payload hold exactly the payload's length.
#[verifier::spinoff_prover]
#[verifier::rlimit(60)]
pub proof fn law_frame_prefix(payload: Seq<u8>)
    requires
        payload.len() <= u32::MAX,
    ensures
        frame_bytes(payload).len() == 4 + payload.len(),
        u32_of_bytes(frame_bytes(payload)) == payload.len(),
        frame_bytes(payload).skip(4) == payload,
{
    lemma_u32(payload.len() as u32, payload);
    assert(frame_bytes(payload).skip(4) =~= payload);
}

} // verus!
