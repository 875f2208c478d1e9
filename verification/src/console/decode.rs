//! Decoding the length-prefixed event stream.

use super::event::{Event, Location, PollResult, UnparkReason, WakeSource};
use crate::text::{push_text, push_u64, string_from_utf8};
use crate::wire;
use vstd::prelude::*;

pub use crate::wire::{DecodeError, MAX_FRAME_SIZE};

verus! {

/// The message of a decode error.
pub open spec fn decode_error_text(error: DecodeError) -> Seq<char> {
    match error {
        DecodeError::FrameTooLarge(size) => "event frame is too large ("@ + crate::text::decimal(
            size as nat,
        ) + " bytes)"@,
        DecodeError::UnknownTag(tag) => "unknown event tag "@ + crate::text::decimal(tag as nat),
        DecodeError::Truncated => "truncated event frame"@,
        DecodeError::InvalidUtf8 => "event contains invalid UTF-8"@,
        DecodeError::InvalidValue(value) => "invalid "@ + value@ + " in event frame"@,
        DecodeError::TrailingBytes { tag, remaining } => "event tag "@ + crate::text::decimal(
            tag as nat,
        ) + " has "@ + crate::text::decimal(remaining as nat) + " trailing bytes"@,
    }
}

impl DecodeError {
    /// The message that is shown for the error.
    pub fn message(&self) -> (text: String)
        ensures
            text@ == decode_error_text(*self),
    {
        let mut out = String::new();
        match self {
            DecodeError::FrameTooLarge(size) => {
                push_text(&mut out, "event frame is too large (");
                push_u64(&mut out, *size as u64);
                push_text(&mut out, " bytes)");
            },
            DecodeError::UnknownTag(tag) => {
                push_text(&mut out, "unknown event tag ");
                push_u64(&mut out, *tag as u64);
            },
            DecodeError::Truncated => push_text(&mut out, "truncated event frame"),
            DecodeError::InvalidUtf8 => push_text(&mut out, "event contains invalid UTF-8"),
            DecodeError::InvalidValue(value) => {
                push_text(&mut out, "invalid ");
                push_text(&mut out, value);
                push_text(&mut out, " in event frame");
            },
            DecodeError::TrailingBytes { tag, remaining } => {
                push_text(&mut out, "event tag ");
                push_u64(&mut out, *tag as u64);
                push_text(&mut out, " has ");
                push_u64(&mut out, *remaining as u64);
                push_text(&mut out, " trailing bytes");
            },
        }
        assert(out@ =~= decode_error_text(*self));
        out
    }
}

/// A read position in the bytes of one payload.
pub struct Payload<'a> {
    bytes: &'a [u8],
    offset: usize,
}

/// Whether a reader's outcome is what reading the bytes should give. The bytes
/// that are left matter only after a success.
pub open spec fn reads<T>(
    result: Result<T, DecodeError>,
    rest: Seq<u8>,
    expected: wire::Parsed<T>,
) -> bool {
    match result {
        Ok(value) => expected == Ok::<(T, Seq<u8>), DecodeError>((value, rest)),
        Err(error) => expected == Err::<(T, Seq<u8>), DecodeError>(error),
    }
}

/// As `reads`, for a value that is compared by its view.
pub open spec fn reads_view<T: View>(
    result: Result<T, DecodeError>,
    rest: Seq<u8>,
    expected: wire::Parsed<T::V>,
) -> bool {
    match result {
        Ok(value) => expected == Ok::<(T::V, Seq<u8>), DecodeError>((value@, rest)),
        Err(error) => expected == Err::<(T::V, Seq<u8>), DecodeError>(error),
    }
}

impl<'a> Payload<'a> {
    /// The position stands inside the bytes or at their end.
    pub closed spec fn wf(&self) -> bool {
        self.offset <= self.bytes@.len()
    }

    /// The bytes that are still to be read.
    pub closed spec fn rest(&self) -> Seq<u8> {
        self.bytes@.skip(self.offset as int)
    }

    /// Starts at the front of `bytes`.
    pub fn new(bytes: &'a [u8]) -> (payload: Self)
        ensures
            payload.wf(),
            payload.rest() == bytes@,
    {
        assert(bytes@.skip(0) =~= bytes@);
        Payload { bytes, offset: 0 }
    }

    /// Reads `count` bytes.
    pub fn take(&mut self, count: usize) -> (result: Result<&'a [u8], DecodeError>)
        requires
            old(self).wf(),
        ensures
            final(self).wf(),
            reads_view(result, final(self).rest(), wire::parse_take(old(self).rest(), count as nat)),
            result is Err ==> *final(self) == *old(self),
    {
        let len: usize = self.bytes.len();
        let end: usize = match self.offset.checked_add(count) {
            Some(end) => end,
            None => return Err(DecodeError::Truncated),
        };
        if end > len {
            return Err(DecodeError::Truncated);
        }
        let value = vstd::slice::slice_subrange(self.bytes, self.offset, end);
        assert(value@ =~= self.rest().take(count as int));
        assert(self.rest().skip(count as int) =~= self.bytes@.skip(end as int));
        self.offset = end;
        Ok(value)
    }

    /// Reads one byte.
    pub fn u8(&mut self) -> (result: Result<u8, DecodeError>)
        requires
            old(self).wf(),
        ensures
            final(self).wf(),
            reads(result, final(self).rest(), wire::parse_u8(old(self).rest())),
    {
        let bytes = self.take(1)?;
        Ok(bytes[0])
    }

    /// Reads a little-endian `u32`.
    pub fn u32(&mut self) -> (result: Result<u32, DecodeError>)
        requires
            old(self).wf(),
        ensures
            final(self).wf(),
            reads(result, final(self).rest(), wire::parse_u32(old(self).rest())),
    {
        let bytes = self.take(4)?;
        Ok(u32_from_le(bytes))
    }

    /// Reads a little-endian `u64`.
    pub fn u64(&mut self) -> (result: Result<u64, DecodeError>)
        requires
            old(self).wf(),
        ensures
            final(self).wf(),
            reads(result, final(self).rest(), wire::parse_u64(old(self).rest())),
    {
        let bytes = self.take(8)?;
        let low = vstd::slice::slice_subrange(bytes, 0, 4);
        let high = vstd::slice::slice_subrange(bytes, 4, 8);
        let value: u64 = u32_from_le(low) as u64 + 4294967296 * (u32_from_le(high) as u64);
        Ok(value)
    }

    /// Reads text.
    pub fn string(&mut self) -> (result: Result<String, DecodeError>)
        requires
            old(self).wf(),
        ensures
            final(self).wf(),
            reads_view(result, final(self).rest(), wire::parse_string(old(self).rest())),
    {
        let len: u32 = self.u32()?;
        let bytes = self.take(len as usize)?;
        match string_from_utf8(vstd::slice::slice_to_vec(bytes)) {
            Some(text) => Ok(text),
            None => Err(DecodeError::InvalidUtf8),
        }
    }

    /// Reads optional text.
    pub fn optional_string(&mut self) -> (result: Result<Option<String>, DecodeError>)
        requires
            old(self).wf(),
        ensures
            final(self).wf(),
            match result {
                Ok(text) => wire::parse_optional_string(old(self).rest()) == Ok::<
                    (Option<Seq<char>>, Seq<u8>),
                    DecodeError,
                >((super::event::optional_text(text), final(self).rest())),
                Err(error) => wire::parse_optional_string(old(self).rest()) == Err::<
                    (Option<Seq<char>>, Seq<u8>),
                    DecodeError,
                >(error),
            },
    {
        match self.u8()? {
            0 => Ok(None),
            1 => Ok(Some(self.string()?)),
            _ => Err(DecodeError::InvalidValue("optional string marker")),
        }
    }

    /// Reads an optional integer.
    pub fn optional_u64(&mut self) -> (result: Result<Option<u64>, DecodeError>)
        requires
            old(self).wf(),
        ensures
            final(self).wf(),
            reads(result, final(self).rest(), wire::parse_optional_u64(old(self).rest())),
    {
        match self.u8()? {
            0 => Ok(None),
            1 => Ok(Some(self.u64()?)),
            _ => Err(DecodeError::InvalidValue("optional integer marker")),
        }
    }

    /// Reads a source location.
    pub fn location(&mut self) -> (result: Result<Location, DecodeError>)
        requires
            old(self).wf(),
        ensures
            final(self).wf(),
            reads_view(result, final(self).rest(), wire::parse_location(old(self).rest())),
    {
        let file = self.string()?;
        let line: u32 = self.u32()?;
        Ok(Location { file, line })
    }

    /// Reads a list of ids.
    pub fn id_list(&mut self) -> (result: Result<Vec<u64>, DecodeError>)
        requires
            old(self).wf(),
        ensures
            final(self).wf(),
            reads_view(result, final(self).rest(), wire::parse_id_list(old(self).rest())),
    {
        let count: u32 = self.u32()?;
        let left: usize = self.bytes.len() - self.offset;
        if count as usize > left / 8 {
            return Err(DecodeError::Truncated);
        }
        let ghost start = self.rest();
        let mut ids: Vec<u64> = Vec::new();
        let mut i: u32 = 0;
        while i < count
            invariant
                i <= count,
                self.wf(),
                8 * count <= start.len(),
                self.rest() == start.skip(8 * i),
                ids@ == wire::ids_of_bytes(start, i as nat),
            decreases count - i,
        {
            assert(start.skip(8 * i).skip(8) =~= start.skip(8 * (i + 1)));
            let id: u64 = self.u64()?;
            ids.push(id);
            i = i + 1;
            assert(ids@ =~= wire::ids_of_bytes(start, i as nat));
        }
        Ok(ids)
    }

    /// Checks that every byte was read.
    pub fn done(&self, tag: u8) -> (result: Result<(), DecodeError>)
        requires
            self.wf(),
        ensures
            result == (if self.rest().len() == 0 {
                Ok::<(), DecodeError>(())
            } else {
                Err::<(), DecodeError>(
                    DecodeError::TrailingBytes { tag, remaining: self.rest().len() as usize },
                )
            }),
    {
        if self.offset == self.bytes.len() {
            Ok(())
        } else {
            Err(DecodeError::TrailingBytes { tag, remaining: self.bytes.len() - self.offset })
        }
    }

    /// Reads a file descriptor.
    fn fd(&mut self) -> (result: Result<i32, DecodeError>)
        requires
            old(self).wf(),
        ensures
            final(self).wf(),
            reads(result, final(self).rest(), wire::parse_fd(old(self).rest())),
    {
        let bits: u32 = self.u32()?;
        Ok(fd_from_bits(bits))
    }

    /// Reads a poll result.
    fn poll_result(&mut self) -> (result: Result<PollResult, DecodeError>)
        requires
            old(self).wf(),
        ensures
            final(self).wf(),
            reads(result, final(self).rest(), wire::parse_poll_result(old(self).rest())),
    {
        match self.u8()? {
            0 => Ok(PollResult::Ready),
            1 => Ok(PollResult::Pending),
            2 => Ok(PollResult::Panicked),
            _ => Err(DecodeError::InvalidValue("poll result")),
        }
    }

    /// Reads the next-task slot flag.
    fn lifo(&mut self) -> (result: Result<bool, DecodeError>)
        requires
            old(self).wf(),
        ensures
            final(self).wf(),
            reads(result, final(self).rest(), wire::parse_lifo(old(self).rest())),
    {
        match self.u8()? {
            0 => Ok(false),
            1 => Ok(true),
            _ => Err(DecodeError::InvalidValue("lifo marker")),
        }
    }
}

fn u32_from_le(bytes: &[u8]) -> (value: u32)
    requires
        bytes@.len() >= 4,
    ensures
        value == wire::u32_of_bytes(bytes@),
{
    bytes[0] as u32 + 256 * (bytes[1] as u32) + 65536 * (bytes[2] as u32) + 16777216 * (
    bytes[3] as u32)
}

fn fd_from_bits(bits: u32) -> (fd: i32)
    ensures
        fd == wire::fd_of_bits(bits),
{
    if bits <= 2147483647 {
        bits as i32
    } else {
        (bits as i64 - 4294967296) as i32
    }
}

/// Reads a wake source.
pub fn decode_wake_source(p: &mut Payload<'_>) -> (result: Result<WakeSource, DecodeError>)
    requires
        old(p).wf(),
    ensures
        final(p).wf(),
        reads_view(result, final(p).rest(), wire::parse_wake_source(old(p).rest())),
{
    match p.u8()? {
        0 => Ok(WakeSource::Io { fd: p.fd()? }),
        1 => Ok(WakeSource::Timer { id: p.u64()? }),
        2 => Ok(WakeSource::Task(p.u64()?)),
        3 => Ok(WakeSource::Channel { kind: p.string()? }),
        4 => Ok(WakeSource::External),
        _ => Err(DecodeError::InvalidValue("wake source")),
    }
}

/// Reads an unpark reason.
pub fn decode_unpark_reason(p: &mut Payload<'_>) -> (result: Result<UnparkReason, DecodeError>)
    requires
        old(p).wf(),
    ensures
        final(p).wf(),
        reads(result, final(p).rest(), wire::parse_unpark_reason(old(p).rest())),
{
    match p.u8()? {
        0 => Ok(UnparkReason::Task),
        1 => Ok(UnparkReason::Shutdown),
        2 => Ok(UnparkReason::Steal),
        3 => Ok(UnparkReason::Event),
        _ => Err(DecodeError::InvalidValue("unpark reason")),
    }
}

/// Reads the fields of the event with the given tag.
#[verifier::rlimit(50)]
fn decode_fields(tag: u8, p: &mut Payload<'_>) -> (result: Result<Event, DecodeError>)
    requires
        old(p).wf(),
    ensures
        final(p).wf(),
        reads_view(result, final(p).rest(), wire::parse_fields(tag, old(p).rest())),
{
    proof {
        reveal(wire::parse_fields);
    }
    Ok(match tag {
        0 => Event::TaskSpawned {
            id: p.u64()?,
            name: p.optional_string()?,
            location: p.location()?,
            parent: p.optional_u64()?,
        },
        1 => Event::TaskPollStart { id: p.u64()?, worker: p.u32()?, at_ns: p.u64()? },
        2 => Event::TaskPollEnd {
            id: p.u64()?,
            worker: p.u32()?,
            duration_ns: p.u64()?,
            result: p.poll_result()?,
        },
        3 => Event::TaskWoken { id: p.u64()?, by: decode_wake_source(p)? },
        4 => Event::TaskDropped {
            id: p.u64()?,
            total_polls: p.u64()?,
            total_busy_ns: p.u64()?,
            total_idle_ns: p.u64()?,
        },
        5 => Event::TaskAborted { id: p.u64()? },
        6 => Event::WorkerPark { worker: p.u32()?, timeout_ns: p.optional_u64()? },
        7 => Event::WorkerUnpark { worker: p.u32()?, reason: decode_unpark_reason(p)? },
        8 => Event::WorkerSteal { thief: p.u32()?, victim: p.u32()?, count: p.u64()? },
        9 => Event::QueueDepth {
            worker: p.u32()?,
            local: p.u64()?,
            global: p.u64()?,
            lifo: p.lifo()?,
        },
        10 => Event::IoRegistered { fd: p.fd()?, interest: p.string()?, task: p.u64()? },
        11 => Event::IoReady { fd: p.fd()?, readiness: p.string()?, woke: p.id_list()? },
        12 => Event::TimerSet { id: p.u64()?, deadline_ns: p.u64()?, task: p.u64()? },
        13 => Event::TimerFired { id: p.u64()?, lateness_ns: p.u64()? },
        14 => Event::TimerCancelled { id: p.u64()? },
        15 => Event::BlockingDetected {
            task: p.u64()?,
            poll_duration_ns: p.u64()?,
            location: p.location()?,
        },
        16 => Event::BudgetExhausted { task: p.u64()? },
        17 => Event::ResourceContended {
            kind: p.string()?,
            holder: p.u64()?,
            waiters: p.id_list()?,
        },
        _ => return Err(DecodeError::UnknownTag(tag)),
    })
}

/// Decodes one payload.
pub fn decode_payload(bytes: &[u8]) -> (result: Result<Event, DecodeError>)
    ensures
        match result {
            Ok(event) => wire::decode_bytes(bytes@) == Ok::<wire::EventModel, DecodeError>(event@),
            Err(error) => wire::decode_bytes(bytes@) == Err::<wire::EventModel, DecodeError>(error),
        },
{
    let mut p = Payload::new(bytes);
    let tag: u8 = p.u8()?;
    let event = decode_fields(tag, &mut p)?;
    p.done(tag)?;
    Ok(event)
}

/// What a list of events means.
pub open spec fn event_models(events: Seq<Event>) -> Seq<wire::EventModel> {
    events.map_values(|event: Event| event@)
}

/// Incremental decoder for `[little-endian u32 length][payload]` frames.
pub struct FrameDecoder {
    buffer: Vec<u8>,
}

impl View for FrameDecoder {
    type V = Seq<u8>;

    /// The bytes that belong to no complete frame yet.
    closed spec fn view(&self) -> Seq<u8> {
        self.buffer@
    }
}

impl FrameDecoder {
    /// A decoder that has seen nothing.
    pub fn new() -> (decoder: Self)
        ensures
            decoder@ == Seq::<u8>::empty(),
    {
        FrameDecoder { buffer: Vec::new() }
    }

    /// Adds arbitrary bytes, returning every complete event now available. An
    /// error drops the events that came before it in the same call.
    pub fn push(&mut self, bytes: &[u8]) -> (result: Result<Vec<Event>, DecodeError>)
        ensures
            final(self)@ == wire::drain(old(self)@ + bytes@).rest,
            match result {
                Ok(events) => wire::drain(old(self)@ + bytes@).error is None && event_models(
                    events@,
                ) == wire::drain(old(self)@ + bytes@).events,
                Err(error) => wire::drain(old(self)@ + bytes@).error == Some(error),
            },
    {
        self.buffer.extend_from_slice(bytes);
        let ghost all = old(self)@ + bytes@;
        assert(self.buffer@ =~= all);
        let mut events: Vec<Event> = Vec::new();
        loop
            invariant_except_break
                wire::drain(all).events =~= event_models(events@) + wire::drain(
                    self.buffer@,
                ).events,
                wire::drain(all).rest == wire::drain(self.buffer@).rest,
                wire::drain(all).error == wire::drain(self.buffer@).error,
            invariant
                all == old(self)@ + bytes@,
            ensures
                self.buffer@ == wire::drain(all).rest,
                wire::drain(all).error is None,
                event_models(events@) == wire::drain(all).events,
            decreases self.buffer.len(),
        {
            let len: usize = self.buffer.len();
            if len < 4 {
                break;
            }
            let size: u32 = u32_from_le(self.buffer.as_slice());
            if size as usize > MAX_FRAME_SIZE {
                return Err(DecodeError::FrameTooLarge(size));
            }
            let frame_size: usize = 4 + size as usize;
            if len < frame_size {
                break;
            }
            let ghost before = self.buffer@;
            let ghost seen = event_models(events@);
            let rest = self.buffer.split_off(frame_size);
            let payload = self.buffer.split_off(4);
            self.buffer = rest;
            assert(payload@ =~= before.subrange(4, 4 + size));
            assert(self.buffer@ =~= before.skip(4 + size));
            let event = decode_payload(payload.as_slice())?;
            events.push(event);
            assert(event_models(events@) =~= seen + seq![event@]);
        }
        Ok(events)
    }

    /// A clean socket close is valid only between complete frames.
    pub fn finish(&self) -> (result: Result<(), DecodeError>)
        ensures
            result == (if self@.len() == 0 {
                Ok::<(), DecodeError>(())
            } else {
                Err::<(), DecodeError>(DecodeError::Truncated)
            }),
    {
        if self.buffer.len() == 0 {
            Ok(())
        } else {
            Err(DecodeError::Truncated)
        }
    }
}

impl Default for FrameDecoder {
    fn default() -> (decoder: Self)
        ensures
            decoder@ == Seq::<u8>::empty(),
    {
        FrameDecoder::new()
    }
}

} // verus!
