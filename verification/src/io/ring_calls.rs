//! What calls on a completion ring ask of the kernel and do with its answers.

use crate::io::uring::{
    completion_slots, is_unavailable, ring_mappings, timeout_result, timeout_spec, Cqe,
    IoUring, IoUringBuilder, OpFuture, OpPoll, OpRequest, OpResource, Queued, RegisteredBuffers,
    RegisteredFiles, RingLayout, RingMappings, RingModel, SetupRequest, SubmissionCursors,
    SubmitPlan,
};
use crate::io::{IoError, SystemError};
use vstd::prelude::*;

verus! {

// ---------------------------------------------------------------------------
// Settings
// ---------------------------------------------------------------------------

/// Each setting of a ring changes that setting alone.
pub proof fn law_settings_are_kept_apart()
    ensures
        forall|entries: u32, builder: IoUringBuilder| #[trigger]
            call_ensures(IoUringBuilder::new, (entries,), builder) ==> builder.entries == entries
                && !builder.sqpoll && builder.sq_thread_cpu is None
                && builder.sq_thread_idle is None,
        forall|entries: u32, builder: IoUringBuilder| #[trigger]
            call_ensures(IoUring::builder, (entries,), builder) ==> builder.entries == entries
                && !builder.sqpoll && builder.sq_thread_cpu is None
                && builder.sq_thread_idle is None,
        forall|before: IoUringBuilder, enabled: bool, after: IoUringBuilder| #[trigger]
            call_ensures(IoUringBuilder::sqpoll, (before, enabled), after) ==> after.sqpoll
                == enabled && after.entries == before.entries && after.sq_thread_cpu
                == before.sq_thread_cpu && after.sq_thread_idle == before.sq_thread_idle,
        forall|before: IoUringBuilder, cpu: u32, after: IoUringBuilder| #[trigger]
            call_ensures(IoUringBuilder::sq_thread_cpu, (before, cpu), after)
                ==> after.sq_thread_cpu is Some && after.sq_thread_cpu->0 == cpu && after.entries
                == before.entries && after.sqpoll == before.sqpoll && after.sq_thread_idle
                == before.sq_thread_idle,
        forall|before: IoUringBuilder, idle: u128, after: IoUringBuilder| #[trigger]
            call_ensures(IoUringBuilder::sq_thread_idle, (before, idle), after)
                ==> after.sq_thread_idle is Some && after.sq_thread_idle->0 == idle
                && after.entries == before.entries && after.sqpoll == before.sqpoll
                && after.sq_thread_cpu == before.sq_thread_cpu,
{
}

/// A ring needs entries, and a polling thread where its processor or its patience is set.
/// The kernel is told the patience in whole milliseconds and nothing that was not set.
pub proof fn law_building_a_ring()
    ensures
        forall|builder: IoUringBuilder, built: Result<SetupRequest, IoError>| #[trigger]
            call_ensures(IoUringBuilder::build, (builder,), built) ==> {
                let extras = builder.sq_thread_cpu is Some || builder.sq_thread_idle is Some;
                let patience = builder.sq_thread_idle->0;
                &&& built is Err <==> builder.entries == 0 || (!builder.sqpoll && extras) || (
                builder.sqpoll && builder.sq_thread_idle is Some && patience
                    >= 4294967296 * 1000000)
                &&& built is Err ==> built->Err_0.kind is InvalidInput
                &&& built is Ok ==> {
                    let request = built->Ok_0;
                    &&& request.entries == builder.entries
                    &&& request.flags == (if builder.sqpoll {
                        2u32
                    } else {
                        0
                    })
                    &&& builder.sq_thread_cpu is Some ==> request.sq_thread_cpu
                        == builder.sq_thread_cpu->0
                    &&& builder.sq_thread_cpu is None ==> request.sq_thread_cpu == 0
                    &&& builder.sq_thread_idle is None ==> request.sq_thread_idle == 0
                    &&& builder.sq_thread_idle is Some ==> request.sq_thread_idle * 1000000
                        <= patience < request.sq_thread_idle * 1000000 + 1000000
                }
            },
{
}

/// The maps hold the arrays behind their offsets: four bytes for each submission index,
/// sixteen for each completion, sixty-four for each submission. One map holds both rings
/// where the kernel says so, and is as long as the longer one.
pub proof fn law_mapping_a_ring()
    ensures
        forall|layout: RingLayout, mappings: RingMappings| #[trigger]
            call_ensures(ring_mappings, (layout,), mappings) ==> {
                let sq = layout.sq_array + layout.sq_entries * 4;
                let cq = layout.cq_cqes + layout.cq_entries * 16;
                &&& mappings.sqes == layout.sq_entries * 64
                &&& mappings.cq is None <==> layout.features & 1 != 0
                &&& mappings.cq is None ==> mappings.sq >= sq && mappings.sq >= cq && (
                mappings.sq == sq || mappings.sq == cq)
                &&& mappings.cq is Some ==> mappings.sq == sq && mappings.cq->0 == cq
            },
{
}

/// Where the kernel has no rings, or does not let them be used, the readiness driver is to
/// be used; any other failure is one.
pub proof fn law_falling_back<R>()
    ensures
        forall|code: Option<SystemError>, absent: bool| #[trigger]
            call_ensures(is_unavailable, (code,), absent) ==> (absent <==> code is Some && (
            code->0 is NotImplemented || code->0 is NotPermitted || code->0 is AccessDenied
                || code->0 is NoDevice)),
        forall|
            result: Result<R, (Option<SystemError>, IoError)>,
            ring: Result<Option<R>, IoError>,
            code: Option<SystemError>,
            absent: bool,
        |
            #![trigger call_ensures(IoUring::new_or_fallback, (result,), ring), call_ensures(is_unavailable, (code,), absent)]
            call_ensures(IoUring::new_or_fallback, (result,), ring) && call_ensures(
                is_unavailable,
                (code,),
                absent,
            ) ==> {
                &&& result is Ok ==> ring is Ok && ring->Ok_0 is Some && ring->Ok_0->0
                    == result->Ok_0
                &&& result is Err && result->Err_0.0 == code && absent ==> ring is Ok
                    && ring->Ok_0 is None
                &&& result is Err && result->Err_0.0 == code && !absent ==> ring is Err
                    && ring->Err_0 == result->Err_0.1
            },
        forall|
            result: Result<R, (Option<SystemError>, IoError)>,
            supported: Result<bool, IoError>,
            code: Option<SystemError>,
            absent: bool,
        |
            #![trigger call_ensures(IoUring::probe, (result,), supported), call_ensures(is_unavailable, (code,), absent)]
            call_ensures(IoUring::probe, (result,), supported) && call_ensures(
                is_unavailable,
                (code,),
                absent,
            ) ==> {
                &&& result is Ok ==> supported is Ok && supported->Ok_0
                &&& result is Err && result->Err_0.0 == code && absent ==> supported is Ok
                    && !supported->Ok_0
                &&& result is Err && result->Err_0.0 == code && !absent ==> supported is Err
                    && supported->Err_0 == result->Err_0.1
            },
        forall|probed: Result<bool, IoError>, supported: bool| #[trigger]
            call_ensures(IoUring::is_supported, (&probed,), supported) ==> (supported
                <==> probed is Ok && probed->Ok_0),
{
}

/// A completion ends its operation, so that no operation can have more than one.
pub proof fn law_one_completion_for_each_operation()
    ensures
        forall|result: Result<(), IoError>| #[trigger]
            call_ensures(IoUring::accept_multishot, (), result) ==> result is Err
                && result->Err_0.kind is Unsupported,
        forall|result: Result<(), IoError>| #[trigger]
            call_ensures(IoUring::recv_multishot, (), result) ==> result is Err
                && result->Err_0.kind is Unsupported,
{
}

// ---------------------------------------------------------------------------
// Requests
// ---------------------------------------------------------------------------

/// Whether a request is the plain one for a descriptor, under a code of the kernel.
pub open spec fn plain_request(request: OpRequest, code: int, fd: i32, offset: u64) -> bool {
    &&& request.opcode == code
    &&& request.fd == fd
    &&& request.offset == offset
    &&& request.rw_flags == 0
}

/// Whether a transfer of a whole buffer is asked for, or the buffer comes back because it
/// is too long for the kernel.
pub open spec fn whole_buffer(
    asked: Result<(OpRequest, OpResource), (IoError, Vec<u8>)>,
    code: int,
    fd: i32,
    offset: u64,
    buffer: Vec<u8>,
) -> bool {
    match asked {
        Ok((request, resource)) => {
            &&& buffer@.len() < 4294967296
            &&& plain_request(request, code, fd, offset)
            &&& request.length == buffer@.len()
            &&& resource is Buffer && resource->Buffer_0 == buffer
        },
        Err((error, back)) => {
            &&& buffer@.len() >= 4294967296
            &&& error.kind is InvalidInput
            &&& back == buffer
        },
    }
}

/// Reads, writes, sends and receives ask for the whole buffer, at their offset or at the
/// beginning, each under its own code.
pub proof fn law_transfers_ask_for_the_whole_buffer()
    ensures
        forall|fd: i32, buffer: Vec<u8>, asked: Result<(OpRequest, OpResource), (IoError, Vec<u8>)>|
            #[trigger]
            call_ensures(IoUring::read, (fd, buffer), asked) ==> whole_buffer(
                asked,
                22,
                fd,
                0,
                buffer,
            ),
        forall|
            fd: i32,
            buffer: Vec<u8>,
            offset: u64,
            asked: Result<(OpRequest, OpResource), (IoError, Vec<u8>)>,
        | #[trigger]
            call_ensures(IoUring::read_at, (fd, buffer, offset), asked) ==> whole_buffer(
                asked,
                22,
                fd,
                offset,
                buffer,
            ),
        forall|fd: i32, buffer: Vec<u8>, asked: Result<(OpRequest, OpResource), (IoError, Vec<u8>)>|
            #[trigger]
            call_ensures(IoUring::write, (fd, buffer), asked) ==> whole_buffer(
                asked,
                23,
                fd,
                0,
                buffer,
            ),
        forall|
            fd: i32,
            buffer: Vec<u8>,
            offset: u64,
            asked: Result<(OpRequest, OpResource), (IoError, Vec<u8>)>,
        | #[trigger]
            call_ensures(IoUring::write_at, (fd, buffer, offset), asked) ==> whole_buffer(
                asked,
                23,
                fd,
                offset,
                buffer,
            ),
        forall|fd: i32, buffer: Vec<u8>, asked: Result<(OpRequest, OpResource), (IoError, Vec<u8>)>|
            #[trigger]
            call_ensures(IoUring::send, (fd, buffer), asked) ==> whole_buffer(
                asked,
                26,
                fd,
                0,
                buffer,
            ),
        forall|fd: i32, buffer: Vec<u8>, asked: Result<(OpRequest, OpResource), (IoError, Vec<u8>)>|
            #[trigger]
            call_ensures(IoUring::recv, (fd, buffer), asked) ==> whole_buffer(
                asked,
                27,
                fd,
                0,
                buffer,
            ),
{
}

/// Operations on several buffers hand all of them over, at their offset or at the
/// beginning; how many there are is found out when the operation is started.
pub proof fn law_vectored_operations_hand_over_all_buffers()
    ensures
        forall|fd: i32, buffers: Vec<Vec<u8>>, asked: (OpRequest, OpResource)| #[trigger]
            call_ensures(IoUring::readv, (fd, buffers), asked) ==> plain_request(asked.0, 1, fd, 0)
                && asked.0.length == 0 && asked.1 is Vectored && asked.1->Vectored_0 == buffers,
        forall|fd: i32, buffers: Vec<Vec<u8>>, offset: u64, asked: (OpRequest, OpResource)|
            #[trigger]
            call_ensures(IoUring::readv_at, (fd, buffers, offset), asked) ==> plain_request(
                asked.0,
                1,
                fd,
                offset,
            ) && asked.0.length == 0 && asked.1 is Vectored && asked.1->Vectored_0 == buffers,
        forall|fd: i32, buffers: Vec<Vec<u8>>, asked: (OpRequest, OpResource)| #[trigger]
            call_ensures(IoUring::writev, (fd, buffers), asked) ==> plain_request(
                asked.0,
                2,
                fd,
                0,
            ) && asked.0.length == 0 && asked.1 is Vectored && asked.1->Vectored_0 == buffers,
        forall|fd: i32, buffers: Vec<Vec<u8>>, offset: u64, asked: (OpRequest, OpResource)|
            #[trigger]
            call_ensures(IoUring::writev_at, (fd, buffers, offset), asked) ==> plain_request(
                asked.0,
                2,
                fd,
                offset,
            ) && asked.0.length == 0 && asked.1 is Vectored && asked.1->Vectored_0 == buffers,
{
}

/// A connection is taken in with the flags of its new socket, and made to the address that
/// is handed over; a descriptor is closed; a timeout waits for one completion on no
/// descriptor.
pub proof fn law_requests_without_a_buffer()
    ensures
        forall|fd: i32, flags: u32, asked: (OpRequest, OpResource)| #[trigger]
            call_ensures(IoUring::accept, (fd, flags), asked) ==> asked.0.opcode == 13
                && asked.0.fd == fd && asked.0.rw_flags == flags && asked.0.offset == 0
                && asked.0.length == 0 && asked.1 is Accept,
        forall|fd: i32, address: Vec<u8>, asked: (OpRequest, OpResource)| #[trigger]
            call_ensures(IoUring::connect, (fd, address), asked) ==> plain_request(
                asked.0,
                16,
                fd,
                0,
            ) && asked.0.length == 0 && asked.1 is Address && asked.1->Address_0 == address,
        forall|fd: i32, asked: (OpRequest, OpResource)| #[trigger]
            call_ensures(IoUring::close, (fd,), asked) ==> plain_request(asked.0, 19, fd, 0)
                && asked.0.length == 0 && asked.1 is Close,
        forall|time: Vec<u8>, asked: (OpRequest, OpResource)| #[trigger]
            call_ensures(IoUring::timeout, (time,), asked) ==> asked.0.opcode == 11 && asked.0.fd
                == -1 && asked.0.length == 1 && asked.0.offset == 0 && asked.0.rw_flags == 0
                && asked.1 is Buffer && asked.1->Buffer_0 == time,
{
}

/// A time is told in seconds, as many as fit, and nanoseconds. That it has passed is what
/// was waited for.
pub proof fn law_timeouts()
    ensures
        forall|seconds: u64, nanos: u32, parts: (u64, i64)| #[trigger]
            call_ensures(timeout_spec, (seconds, nanos), parts) ==> {
                &&& parts.0 <= seconds && parts.0 <= 9223372036854775807
                &&& parts.0 == seconds || parts.0 == 9223372036854775807
                &&& parts.1 == nanos
            },
        forall|result: Result<usize, i32>, expired: i32, outcome: Result<(), i32>| #[trigger]
            call_ensures(timeout_result, (result, expired), outcome) ==> {
                &&& outcome is Err <==> result is Err && result->Err_0 != expired
                &&& outcome is Err ==> outcome->Err_0 == result->Err_0
            },
{
}

/// An operation on a registered buffer is asked for with its number and its length, and is
/// refused where there is no such buffer, or too little of it. Reads are reads and writes
/// are writes.
pub proof fn law_operations_on_registered_buffers()
    ensures
        forall|
            set: RegisteredBuffers,
            fd: i32,
            index: usize,
            length: usize,
            asked: Result<(OpRequest, OpResource), (IoError, RegisteredBuffers)>,
        | #[trigger]
            call_ensures(RegisteredBuffers::read_fixed, (set, fd, index, length), asked)
                ==> on_a_registered_buffer(set, 22, fd, index, length, asked),
        forall|
            set: RegisteredBuffers,
            fd: i32,
            index: usize,
            length: usize,
            asked: Result<(OpRequest, OpResource), (IoError, RegisteredBuffers)>,
        | #[trigger]
            call_ensures(RegisteredBuffers::write_fixed, (set, fd, index, length), asked)
                ==> on_a_registered_buffer(set, 23, fd, index, length, asked),
        forall|set: RegisteredBuffers, count: usize| #[trigger]
            call_ensures(RegisteredBuffers::len, (&set,), count) ==> count == set.buffers@.len(),
        forall|set: RegisteredBuffers, none: bool| #[trigger]
            call_ensures(RegisteredBuffers::is_empty, (&set,), none) ==> (none
                <==> set.buffers@.len() == 0),
        forall|set: RegisteredBuffers, index: usize, bytes: Option<&[u8]>| #[trigger]
            call_ensures(RegisteredBuffers::get, (&set, index), bytes) ==> {
                &&& bytes is Some <==> index < set.buffers@.len()
                &&& bytes is Some ==> bytes->0@ == set.buffers@[index as int]@
            },
        forall|
            registration: u64,
            buffers: Vec<Vec<u8>>,
            result: Result<RegisteredBuffers, IoError>,
        | #[trigger]
            call_ensures(IoUring::register_buffers, (registration, buffers), result) ==> {
                &&& result is Ok <==> 0 < buffers@.len() < 4294967296 && forall|k: int|
                    0 <= k < buffers@.len() ==> (#[trigger] buffers@[k])@.len() < 4294967296
                &&& result is Ok ==> result->Ok_0.buffers == buffers && result->Ok_0.registration
                    == registration
                &&& result is Err ==> result->Err_0.kind is InvalidInput
            },
{
}

/// Whether an operation on a registered buffer is asked for, or refused with good reason.
pub open spec fn on_a_registered_buffer(
    set: RegisteredBuffers,
    code: int,
    fd: i32,
    index: usize,
    length: usize,
    asked: Result<(OpRequest, OpResource), (IoError, RegisteredBuffers)>,
) -> bool {
    let fits = index < set.buffers@.len() && index < 65536 && length < 4294967296 && length
        <= set.buffers@[index as int]@.len();
    match asked {
        Ok((request, resource)) => {
            &&& fits
            &&& plain_request(request, code, fd, 0)
            &&& request.length == length
            &&& resource is FixedBuffer
            &&& resource->FixedBuffer_registered == set
            &&& resource->FixedBuffer_index == index
            &&& resource->FixedBuffer_length == length
        },
        Err((error, back)) => !fits && error.kind is InvalidInput && back == set,
    }
}

/// Whether an operation on a registered file is asked for, or refused with good reason.
pub open spec fn on_a_registered_file(
    set: RegisteredFiles,
    code: int,
    index: usize,
    buffer: Vec<u8>,
    asked: Result<(OpRequest, OpResource), (IoError, Vec<u8>, RegisteredFiles)>,
) -> bool {
    let there = index < set.files@.len() && index <= 2147483647;
    match asked {
        Ok((request, resource)) => {
            &&& there
            &&& request.opcode == code
            &&& request.offset == 0 && request.rw_flags == 0 && request.length == 0
            &&& resource is FixedFileBuffer
            &&& resource->FixedFileBuffer_registered == set
            &&& resource->FixedFileBuffer_index == index
            &&& resource->FixedFileBuffer_buffer == buffer
        },
        Err((error, back, files)) => !there && error.kind is InvalidInput && back == buffer
            && files == set,
    }
}

/// An operation on a registered file is asked for with its number and the whole buffer, and
/// is refused where there is no such file.
pub proof fn law_operations_on_registered_files()
    ensures
        forall|
            set: RegisteredFiles,
            index: usize,
            buffer: Vec<u8>,
            asked: Result<(OpRequest, OpResource), (IoError, Vec<u8>, RegisteredFiles)>,
        | #[trigger]
            call_ensures(RegisteredFiles::read_fixed, (set, index, buffer), asked)
                ==> on_a_registered_file(set, 22, index, buffer, asked),
        forall|
            set: RegisteredFiles,
            index: usize,
            buffer: Vec<u8>,
            asked: Result<(OpRequest, OpResource), (IoError, Vec<u8>, RegisteredFiles)>,
        | #[trigger]
            call_ensures(RegisteredFiles::write_fixed, (set, index, buffer), asked)
                ==> on_a_registered_file(set, 23, index, buffer, asked),
        forall|set: RegisteredFiles, count: usize| #[trigger]
            call_ensures(RegisteredFiles::len, (&set,), count) ==> count == set.files@.len(),
        forall|set: RegisteredFiles, none: bool| #[trigger]
            call_ensures(RegisteredFiles::is_empty, (&set,), none) ==> (none <==> set.files@.len()
                == 0),
        forall|set: RegisteredFiles, index: usize, fd: Option<i32>| #[trigger]
            call_ensures(RegisteredFiles::as_raw_fd, (&set, index), fd) ==> {
                &&& fd is Some <==> index < set.files@.len()
                &&& fd is Some ==> fd->0 == set.files@[index as int]
            },
        forall|count: usize, told: Result<u32, IoError>| #[trigger]
            call_ensures(IoUring::register_files, (count,), told) ==> {
                &&& told is Ok <==> 0 < count < 4294967296
                &&& told is Ok ==> told->Ok_0 == count
                &&& told is Err ==> told->Err_0.kind is InvalidInput
            },
{
}

/// The slot of a registered buffer or file is the one that the operation holds.
pub proof fn law_slots_of_registered_resources()
    ensures
        forall|resource: OpResource, index: u16| #[trigger]
            call_ensures(OpResource::buffer_index, (&resource,), index) ==> {
                &&& resource is FixedBuffer ==> index == resource->FixedBuffer_index
                &&& !(resource is FixedBuffer) ==> index == 0
            },
        forall|resource: OpResource, index: Option<u32>| #[trigger]
            call_ensures(OpResource::fixed_file_index, (&resource,), index) ==> {
                &&& index is Some <==> resource is FixedFileBuffer
                &&& index is Some ==> index->0 == resource->FixedFileBuffer_index
            },
{
}

// ---------------------------------------------------------------------------
// The books
// ---------------------------------------------------------------------------

/// What starting an operation does: it is refused for want of a number, of room, or because
/// it is too large, and then gives back what it was given; else the kernel is told of it,
/// and the ring holds what it owns under its number, to wake whom it was told.
pub proof fn law_starting_an_operation()
    ensures
        forall|
            ring: &mut IoUring,
            request: OpRequest,
            resource: OpResource,
            waker: u64,
            cursors: SubmissionCursors,
            result: Result<(usize, Queued), (IoError, OpResource)>,
        | #[trigger]
            call_ensures(
                IoUring::start_op,
                (ring, request, resource, waker, cursors),
                result,
            ) && (*ring)@.wf() && (*ring)@.pending < u32::MAX ==> {
                let before = (*ring)@;
                let after = (*final(ring))@;
                let id = before.next;
                let full = (cursors.tail - cursors.head) % 0x1_0000_0000 >= cursors.entries;
                let free = id != 0 && before.held(id) is None;
                &&& full ==> result is Err
                &&& !free ==> result is Err && result->Err_0.0.kind is Other
                &&& result is Err ==> result->Err_0.1 == resource && after.ops == before.ops
                    && after.pending == before.pending && after.orphans == before.orphans
                &&& result is Err && free && !full ==> result->Err_0.0.kind is InvalidInput
                &&& result is Err && result->Err_0.0.kind is WouldBlock ==> full
                &&& result is Ok ==> {
                    let key = result->Ok_0.0;
                    let sqe = result->Ok_0.1.sqe;
                    &&& !before.slots.contains_key(key) && after.slots.contains_key(key)
                        && after.slots[key] == id
                    &&& after.held(id) is Some && after.held(id)->0 == resource
                    &&& after.ops[id].result is None
                    &&& after.ops[id].waker is Some && after.ops[id].waker->0 == waker
                    &&& after.pending == before.pending + 1
                    &&& sqe.user_data == id && sqe.opcode == request.opcode && sqe.rw_flags
                        == request.rw_flags
                    &&& resource is FixedBuffer ==> sqe.buf_index == resource->FixedBuffer_index
                    &&& resource is FixedFileBuffer <==> sqe.fixed_file
                    &&& resource is FixedFileBuffer ==> sqe.fd == resource->FixedFileBuffer_index
                    &&& !(resource is FixedFileBuffer) ==> sqe.fd == request.fd
                    &&& resource is Address ==> sqe.offset == resource->Address_0@.len()
                    &&& !(resource is Address) ==> sqe.offset == request.offset
                    &&& request.length > 0 && !(resource is Address) ==> sqe.len == request.length
                    &&& result->Ok_0.1.slot.tail as int == (cursors.tail + 1) % 0x1_0000_0000
                    &&& forall|other: u64| #[trigger]
                        before.ops.contains_key(other) ==> after.ops.contains_key(other)
                            && after.ops[other] == before.ops[other]
                }
                &&& after.next != 0 && after.next != id
                &&& after.cancels == before.cancels
            },
{
}

/// A result is taken once, with what the operation owned; without one nothing happens.
pub proof fn law_taking_a_result()
    ensures
        forall|
            ring: &mut IoUring,
            key: usize,
            taken: Option<(Result<usize, i32>, OpResource)>,
        | #[trigger]
            call_ensures(IoUring::take_result, (ring, key), taken) && (*ring)@.wf() ==> {
                let before = (*ring)@;
                let after = (*final(ring))@;
                let id = before.slots[key];
                &&& taken is Some <==> before.slots.contains_key(key)
                    && before.ops[id].result is Some
                &&& taken is None ==> after == before
                &&& taken is Some ==> {
                    &&& taken->Some_0.0 == before.ops[id].result->0
                    &&& before.held(id) is Some && taken->Some_0.1 == before.held(id)->0
                    &&& after.held(id) is None
                    &&& !after.slots.contains_key(key)
                    &&& forall|other: u64|
                        other != id ==> #[trigger] after.held(other) == before.held(other)
                }
            },
{
}

/// Who waits for an operation is told last; nothing else of it changes.
pub proof fn law_waiting_for_an_operation()
    ensures
        forall|ring: &mut IoUring, key: usize, waker: u64| #[trigger]
            call_ensures(IoUring::set_waker, (ring, key, waker), ()) && (*ring)@.wf() ==> {
                let before = (*ring)@;
                let after = (*final(ring))@;
                let id = before.slots[key];
                &&& before.slots.contains_key(key) ==> {
                    &&& after.ops[id].waker is Some && after.ops[id].waker->0 == waker
                    &&& after.ops[id].result == before.ops[id].result
                    &&& after.ops[id].resource == before.ops[id].resource
                }
                &&& forall|other: u64|
                    #![trigger after.ops[other]]
                    other != id && before.ops.contains_key(other) ==> after.ops[other]
                        == before.ops[other]
                &&& after.slots == before.slots && after.orphans == before.orphans
                    && after.cancels == before.cancels && after.next == before.next
                    && after.pending == before.pending
            },
{
}

/// A future of an operation is ready with the result and what was handed over, once, and
/// else is woken as it was last asked.
pub proof fn law_polling_an_operation()
    ensures
        forall|future: &mut OpFuture, ring: &mut IoUring, waker: u64, poll: OpPoll| #[trigger]
            call_ensures(OpFuture::poll, (future, ring, waker), poll) && (*ring)@.wf() ==> {
                let key = (*future).key->0;
                let started = (*future).key is Some;
                let id = (*ring)@.slots[key];
                let known = (*ring)@.slots.contains_key(key);
                &&& poll is NotStarted <==> !started
                &&& poll is Ready <==> started && known && (*ring)@.ops[id].result is Some
                &&& poll is Ready ==> {
                    &&& poll->Ready_0 == (*ring)@.ops[id].result->0
                    &&& poll->Ready_1 == (*ring)@.held(id)->0
                    &&& (*final(future)).key is None
                    &&& (*final(ring))@.held(id) is None
                }
                &&& poll is Pending ==> (*final(future)).key == (*future).key
                &&& poll is Pending && known ==> {
                    &&& (*final(ring))@.ops[id].waker is Some
                    &&& (*final(ring))@.ops[id].waker->0 == waker
                    &&& (*final(ring))@.held(id) == (*ring)@.held(id)
                }
            },
{
}

/// A cancellation is asked for under a number of its own where there is one and there is
/// room, and touches nothing that is held.
pub proof fn law_asking_for_a_cancellation()
    ensures
        forall|ring: &mut IoUring, target: u64, cursors: SubmissionCursors, queued: Option<Queued>|
            #[trigger]
            call_ensures(IoUring::cancel, (ring, target, cursors), queued) && (*ring)@.wf() && (
            *ring)@.pending < u32::MAX ==> {
                let before = (*ring)@;
                let after = (*final(ring))@;
                let id = before.next;
                let full = (cursors.tail - cursors.head) % 0x1_0000_0000 >= cursors.entries;
                &&& queued is Some <==> id != 0 && before.held(id) is None && !full
                &&& queued is Some ==> {
                    let sqe = queued->0.sqe;
                    &&& sqe.opcode == 14 && sqe.target is Some && sqe.target->0 == target
                    &&& sqe.user_data == id
                    &&& after.cancels.contains_key(id) && after.cancels[id] == target
                    &&& after.pending == before.pending + 1
                }
                &&& queued is None ==> after.cancels == before.cancels && after.pending
                    == before.pending
                &&& after.ops == before.ops && after.orphans == before.orphans
            },
        forall|ring: &mut IoUring, id: u64| #[trigger]
            call_ensures(IoUring::cancel_failed, (ring, id), ()) && (*ring)@.wf() ==> {
                let before = (*ring)@;
                let after = (*final(ring))@;
                &&& !after.cancels.contains_key(id)
                &&& forall|other: u64|
                    #![trigger after.cancels.contains_key(other)]
                    other != id ==> after.cancels.contains_key(other)
                        == before.cancels.contains_key(other)
                &&& after.ops == before.ops && after.orphans == before.orphans && after.pending
                    == before.pending
            },
{
}

/// The kernel is entered for what waits, woken where its thread sleeps, and left alone
/// where nothing waits. What it has taken up waits no more.
pub proof fn law_submitting()
    ensures
        forall|ring: IoUring, polled: bool, asleep: bool, plan: SubmitPlan| #[trigger]
            call_ensures(IoUring::submit_plan, (&ring, polled, asleep), plan) ==> {
                let waiting = ring@.pending;
                &&& plan is Nothing <==> waiting == 0
                &&& plan is Enter <==> waiting > 0 && !polled
                &&& plan is Enter ==> plan->Enter_0 == waiting
                &&& plan is Wake <==> waiting > 0 && polled && asleep
            },
        forall|ring: &mut IoUring, polled: bool, count: u32, taken: usize| #[trigger]
            call_ensures(IoUring::submitted, (ring, polled, count), taken) && (*ring)@.wf() && (
            polled || count <= (*ring)@.pending) ==> {
                &&& (*final(ring))@.pending + taken == (*ring)@.pending
                &&& polled ==> (*final(ring))@.pending == 0
                &&& !polled ==> taken == count
                &&& (*final(ring))@.ops == (*ring)@.ops && (*final(ring))@.cancels == (
                *ring)@.cancels && (*final(ring))@.orphans == (*ring)@.orphans
            },
{
}

/// Completions lie between the head and the tail, one slot after the other; counting wraps
/// round.
pub proof fn law_completions_lie_in_order()
    ensures
        forall|head: u32, tail: u32, mask: u32, found: Vec<u32>| #[trigger]
            call_ensures(completion_slots, (head, tail, mask), found) ==> {
                &&& found@.len() == (tail - head) % 0x1_0000_0000
                &&& forall|k: int|
                    0 <= k < found@.len() ==> (#[trigger] found@[k]) == (((head + k)
                        % 0x1_0000_0000) as u32) & mask
            },
{
}

/// A completion of a waited operation wakes who waits for it; one that no one waits for
/// closes the descriptor that it brings.
pub proof fn law_noting_a_completion()
    ensures
        forall|ring: &mut IoUring, cqe: Cqe, outcome: (Option<u64>, Option<i32>)| #[trigger]
            call_ensures(IoUring::complete, (ring, cqe), outcome) && (*ring)@.wf() ==> {
                let before = (*ring)@;
                let after = (*final(ring))@;
                let id = cqe.user_data;
                let cancels = before.cancels.contains_key(id);
                let waited = !cancels && before.ops.contains_key(id);
                let orphan = !cancels && before.orphans.contains_key(id);
                &&& outcome.0 == (if waited {
                    before.ops[id].waker
                } else {
                    None
                })
                &&& outcome.1 is Some <==> orphan && before.orphans[id].resource is Accept
                    && cqe.res >= 0
                &&& outcome.1 is Some ==> outcome.1->0 == cqe.res
                &&& waited ==> after.ops[id].result is Some && (after.ops[id].result->0 is Ok
                    <==> cqe.res >= 0)
                &&& waited && cqe.res >= 0 ==> after.ops[id].result->0->Ok_0 == cqe.res
                &&& waited ==> after.held(id) == before.held(id)
                &&& orphan ==> after.held(id) is None
                &&& cancels ==> !after.cancels.contains_key(id) && after.ops == before.ops
                    && after.orphans == before.orphans
                &&& forall|other: u64|
                    other != id ==> #[trigger] after.held(other) == before.held(other)
            },
{
}

/// Completions are noted one after the other, in the order in which they came: so many as
/// there are, none left out.
pub proof fn law_completions_are_noted_in_order(
    ring: RingModel,
    first: Seq<Cqe>,
    then: Seq<Cqe>,
)
    ensures
        ring.completed_all(Seq::empty()) == ring,
        ring.completed_all(first + then) == ring.completed_all(first).completed_all(then),
        ring.wakes_all(first + then) == ring.wakes_all(first) + ring.completed_all(
            first,
        ).wakes_all(then),
        ring.closes_all(first + then) == ring.closes_all(first) + ring.completed_all(
            first,
        ).closes_all(then),
    decreases then.len(),
{
    if then.len() == 0 {
        assert(first + then =~= first);
    } else {
        assert((first + then).drop_last() =~= first + then.drop_last());
        law_completions_are_noted_in_order(ring, first, then.drop_last());
        assert((first + then).last() == then.last());
        let a = ring.wakes_all(first);
        let middle = ring.completed_all(first);
        let b = middle.wakes_all(then.drop_last());
        let c = crate::io::uring::optional(
            middle.completed_all(then.drop_last()).wakes(then.last()),
        );
        assert((a + b) + c =~= a + (b + c));
        let d = ring.closes_all(first);
        let e = middle.closes_all(then.drop_last());
        let f = crate::io::uring::optional(
            middle.completed_all(then.drop_last()).closes(then.last()),
        );
        assert((d + e) + f =~= d + (e + f));
    }
}

/// Several completions are what the single ones are: each operation that is waited for and
/// that one of them concerns has a result afterwards, and whoever waited for the last one
/// is woken last.
pub proof fn law_reaping()
    ensures
        forall|ring: &mut IoUring, cqes: &Vec<Cqe>, outcome: (Vec<u64>, Vec<i32>)| #[trigger]
            call_ensures(IoUring::reap_completions, (ring, cqes), outcome) && (*ring)@.wf()
                && cqes@.len() == 1 ==> {
                let before = (*ring)@;
                let cqe = cqes@[0];
                let id = cqe.user_data;
                let cancels = before.cancels.contains_key(id);
                let waited = !cancels && before.ops.contains_key(id);
                let orphan = !cancels && before.orphans.contains_key(id);
                let woken = waited && before.ops[id].waker is Some;
                let closed = orphan && before.orphans[id].resource is Accept && cqe.res >= 0;
                &&& outcome.0@.len() == (if woken {
                    1int
                } else {
                    0
                })
                &&& woken ==> outcome.0@[0] == before.ops[id].waker->0
                &&& outcome.1@.len() == (if closed {
                    1int
                } else {
                    0
                })
                &&& closed ==> outcome.1@[0] == cqe.res
            },
        forall|ring: &mut IoUring, cqes: &Vec<Cqe>, outcome: (Vec<u64>, Vec<i32>)| #[trigger]
            call_ensures(IoUring::reap_completions, (ring, cqes), outcome) ==> {
                &&& (*final(ring))@ == (*ring)@.completed_all(cqes@)
                &&& outcome.0@ == (*ring)@.wakes_all(cqes@)
                &&& outcome.1@ == (*ring)@.closes_all(cqes@)
            },
{
    assert forall|ring: &mut IoUring, cqes: &Vec<Cqe>, outcome: (Vec<u64>, Vec<i32>)| #[trigger]
        call_ensures(IoUring::reap_completions, (ring, cqes), outcome) && (*ring)@.wf()
            && cqes@.len() == 1 implies {
        let before = (*ring)@;
        let cqe = cqes@[0];
        let id = cqe.user_data;
        let cancels = before.cancels.contains_key(id);
        let waited = !cancels && before.ops.contains_key(id);
        let orphan = !cancels && before.orphans.contains_key(id);
        let woken = waited && before.ops[id].waker is Some;
        let closed = orphan && before.orphans[id].resource is Accept && cqe.res >= 0;
        &&& outcome.0@.len() == (if woken {
            1int
        } else {
            0
        })
        &&& woken ==> outcome.0@[0] == before.ops[id].waker->0
        &&& outcome.1@.len() == (if closed {
            1int
        } else {
            0
        })
        &&& closed ==> outcome.1@[0] == cqe.res
    } by {
        let before = (*ring)@;
        assert(cqes@.drop_last() =~= Seq::<Cqe>::empty());
        assert(before.completed_all(cqes@.drop_last()) == before);
        assert(before.wakes_all(cqes@.drop_last()) =~= Seq::<u64>::empty());
        assert(before.closes_all(cqes@.drop_last()) =~= Seq::<i32>::empty());
    }
}

/// What is to be cancelled at the end is what is held. What has completed is dropped; the
/// ring is idle where nothing is held any more.
pub proof fn law_closing_a_ring()
    ensures
        forall|ring: IoUring, targets: Vec<u64>, id: u64|
            #![trigger call_ensures(IoUring::targets, (&ring,), targets), ring@.held(id)]
            call_ensures(IoUring::targets, (&ring,), targets) ==> (targets@.contains(id)
                <==> ring@.held(id) is Some),
        forall|ring: &mut IoUring, idle: bool, id: u64|
            #![trigger call_ensures(IoUring::discard_completed, (ring,), idle), (*final(ring))@.held(id)]
            call_ensures(IoUring::discard_completed, (ring,), idle) && (*ring)@.wf() ==> {
                let before = (*ring)@;
                let done = before.ops.contains_key(id) && before.ops[id].result is Some;
                &&& done ==> (*final(ring))@.held(id) is None
                &&& !done ==> (*final(ring))@.held(id) == before.held(id)
                &&& idle ==> (*final(ring))@.held(id) is None
            },
        forall|ring: &mut IoUring, idle: bool| #[trigger]
            call_ensures(IoUring::discard_completed, (ring,), idle) && !idle ==> exists|id: u64|
                #[trigger] (*final(ring))@.held(id) is Some,
{
}

} // verus!
