//! What the kernel is told of an operation on a completion ring, and what becomes of it.

use crate::io::uring;
use crate::io::uring::{
    Cqe, OpRequest, OpResource, OrphanAction, RegisteredBuffers, RegisteredFiles, RingModel,
    SubmissionCursors, Transfer,
};
use crate::io::IoError;
use vstd::prelude::*;

verus! {

/// The kernel is told exactly what was asked: the code, the flags and the offset of the
/// request, the descriptor or the slot of the registered file, the slot of the registered
/// buffer, and the length that was asked for, or that of the resource where none was. Of
/// an address it is told the length in the place of the offset.
pub proof fn law_a_submission_says_what_was_asked(
    ring: RingModel,
    request: OpRequest,
    resource: OpResource,
    cursors: SubmissionCursors,
)
    requires
        uring::start_error(ring, resource, cursors) is None,
    ensures
        ({
            let sqe = ring.queued(request, resource, cursors).sqe;
            &&& sqe.opcode == request.opcode
            &&& sqe.rw_flags == request.rw_flags
            &&& sqe.user_data == ring.next
            &&& sqe.target is None
            &&& match resource {
                OpResource::FixedBuffer { index, length, .. } => {
                    &&& sqe.buf_index == index
                    &&& !sqe.fixed_file && sqe.fd == request.fd
                    &&& sqe.offset == request.offset
                    &&& request.length == 0 ==> sqe.len == length
                },
                OpResource::FixedFileBuffer { index, buffer, .. } => {
                    &&& sqe.buf_index == 0
                    &&& sqe.fixed_file && sqe.fd == index
                    &&& sqe.offset == request.offset
                    &&& request.length == 0 ==> sqe.len == buffer@.len()
                },
                OpResource::Address(bytes) => {
                    &&& sqe.buf_index == 0
                    &&& !sqe.fixed_file && sqe.fd == request.fd
                    &&& sqe.offset == bytes@.len()
                    &&& sqe.len == 0
                },
                OpResource::Buffer(buffer) => {
                    &&& sqe.buf_index == 0
                    &&& !sqe.fixed_file && sqe.fd == request.fd
                    &&& sqe.offset == request.offset
                    &&& request.length == 0 ==> sqe.len == buffer@.len()
                },
                OpResource::Vectored(buffers) => {
                    &&& sqe.buf_index == 0
                    &&& !sqe.fixed_file && sqe.fd == request.fd
                    &&& sqe.offset == request.offset
                    &&& request.length == 0 ==> sqe.len == buffers@.len()
                },
                OpResource::Accept | OpResource::Close => {
                    &&& sqe.buf_index == 0
                    &&& !sqe.fixed_file && sqe.fd == request.fd
                    &&& sqe.offset == request.offset
                    &&& request.length == 0 ==> sqe.len == 0
                },
            }
            &&& request.length != 0 && !(resource is Address) ==> sqe.len == request.length
        }),
{
}

/// A read or write of so many bytes with a registered buffer acts on that very buffer: the
/// kernel is told its number, the descriptor and the length, whatever else is registered.
/// It is refused where there is no such buffer or the buffer is shorter.
pub proof fn law_fixed_operations_act_on_their_buffer(
    set: RegisteredBuffers,
    opcode: u8,
    fd: i32,
    index: usize,
    length: usize,
    asked: Result<(OpRequest, OpResource), (IoError, RegisteredBuffers)>,
    ring: RingModel,
    cursors: SubmissionCursors,
)
    requires
        set.fixed_outcome(opcode, fd, index, length, asked),
    ensures
        asked is Ok <==> index < set.buffers@.len() && index <= 65535 && length
            <= set.buffers@[index as int]@.len() && length <= 4294967295,
        asked matches Ok((request, resource)) ==> {
            let sqe = ring.queued(request, resource, cursors).sqe;
            &&& sqe.buf_index == index
            &&& sqe.fd == fd
            &&& sqe.opcode == opcode
            &&& sqe.len == length
            &&& sqe.offset == 0
            &&& !sqe.fixed_file
            &&& resource matches OpResource::FixedBuffer { registered, .. } && registered == set
        },
        asked matches Err((_, back)) ==> back == set,
{
}

/// A read or write of a registered file acts on that very file, with the whole buffer. It
/// is refused where there is no such file.
pub proof fn law_fixed_operations_act_on_their_file(
    set: RegisteredFiles,
    opcode: u8,
    index: usize,
    buffer: Vec<u8>,
    asked: Result<(OpRequest, OpResource), (IoError, Vec<u8>, RegisteredFiles)>,
    ring: RingModel,
    cursors: SubmissionCursors,
)
    requires
        set.fixed_outcome(opcode, index, buffer, asked),
        buffer@.len() <= 4294967295,
    ensures
        asked is Ok <==> index < set.files@.len() && index <= 2147483647,
        asked matches Ok((request, resource)) ==> {
            let sqe = ring.queued(request, resource, cursors).sqe;
            &&& sqe.fixed_file
            &&& sqe.fd == index
            &&& sqe.opcode == opcode
            &&& sqe.len == buffer@.len()
            &&& sqe.offset == 0
            &&& resource matches OpResource::FixedFileBuffer { registered, buffer: held, .. }
                && registered == set && held == buffer
        },
        asked matches Err((_, back, files)) ==> back == buffer && files == set,
{
}

/// An operation with one buffer tells the kernel its descriptor, its offset and the length
/// of the buffer, under the code that the kernel has for it, and owns the buffer. It is
/// refused only where the kernel could not be told the length.
pub proof fn law_transfers_move_the_whole_buffer(
    transfer: Transfer,
    fd: i32,
    offset: u64,
    buffer: Vec<u8>,
    asked: Result<(OpRequest, OpResource), (IoError, Vec<u8>)>,
    ring: RingModel,
    cursors: SubmissionCursors,
)
    requires
        uring::transfer_asked(transfer, fd, offset, buffer, asked),
    ensures
        asked is Ok <==> buffer@.len() <= 4294967295,
        asked matches Ok((request, resource)) ==> {
            let sqe = ring.queued(request, resource, cursors).sqe;
            &&& sqe.opcode == (match transfer {
                Transfer::Read => 22u8,
                Transfer::Write => 23,
                Transfer::Send => 26,
                Transfer::Recv => 27,
            })
            &&& sqe.fd == fd
            &&& sqe.offset == offset
            &&& sqe.len == buffer@.len()
            &&& sqe.rw_flags == 0
            &&& !sqe.fixed_file
            &&& resource matches OpResource::Buffer(held) && held == buffer
        },
        asked matches Err((_, back)) ==> back == buffer,
{
}

/// The codes of the kernel.
pub proof fn law_codes_of_the_kernel()
    ensures
        uring::OP_READV == 1 && uring::OP_WRITEV == 2 && uring::OP_TIMEOUT == 11
            && uring::OP_ACCEPT == 13 && uring::OP_ASYNC_CANCEL == 14 && uring::OP_CONNECT == 16
            && uring::OP_CLOSE == 19 && uring::OP_READ == 22 && uring::OP_WRITE == 23
            && uring::OP_SEND == 26 && uring::OP_RECV == 27 && uring::SETUP_SQPOLL == 2,
{
}

/// A cancellation names the operation that is to be cancelled, under a number of its own.
pub proof fn law_a_cancellation_names_its_target(target: u64, id: u64)
    ensures
        ({
            let sqe = uring::cancel_sqe(target, id);
            &&& sqe.opcode == 14
            &&& sqe.target is Some && sqe.target->0 == target
            &&& sqe.user_data == id
            &&& sqe.fd == -1
            &&& sqe.len == 0 && sqe.offset == 0 && sqe.rw_flags == 0 && sqe.buf_index == 0
            &&& !sqe.fixed_file
        }),
{
}

/// A completion says how many bytes, or which descriptor, where it is not negative, and
/// else the code of an error, without its sign.
pub proof fn law_results_of_completions(res: i32)
    ensures
        match uring::completion_result(res) {
            Ok(count) => res >= 0 && count == res,
            Err(code) => res < 0 && (res > i32::MIN ==> code == -res) && (res == i32::MIN
                ==> code == i32::MIN),
        },
{
}

/// A completion concerns the operation of its number alone. One that is waited for gets its
/// result and is handed to whom it wakes; one that is not is gone. A cancellation that
/// completes is gone, and says nothing of its target.
pub proof fn law_a_completion_concerns_its_number_alone(ring: RingModel, cqe: Cqe, other: u64)
    requires
        ring.wf(),
    ensures
        ({
            let id = cqe.user_data;
            let after = ring.completed(cqe);
            let waited = !ring.cancels.contains_key(id) && ring.ops.contains_key(id);
            let orphan = !ring.cancels.contains_key(id) && ring.orphans.contains_key(id);
            &&& other != id ==> {
                &&& after.ops.contains_key(other) == ring.ops.contains_key(other)
                &&& ring.ops.contains_key(other) ==> after.ops[other] == ring.ops[other]
                &&& after.orphans.contains_key(other) == ring.orphans.contains_key(other)
                &&& ring.orphans.contains_key(other) ==> after.orphans[other]
                    == ring.orphans[other]
                &&& after.cancels.contains_key(other) == ring.cancels.contains_key(other)
            }
            &&& !after.cancels.contains_key(id)
            &&& ring.cancels.contains_key(id) ==> after.ops == ring.ops && after.orphans
                == ring.orphans
            &&& waited ==> {
                &&& after.ops.contains_key(id)
                &&& after.ops[id].result is Some
                &&& after.ops[id].result->0 is Ok <==> cqe.res >= 0
                &&& cqe.res >= 0 ==> after.ops[id].result->0->Ok_0 == cqe.res
                &&& i32::MIN < cqe.res < 0 ==> after.ops[id].result->0->Err_0 == -cqe.res
                &&& after.ops[id].resource == ring.ops[id].resource
                &&& after.ops[id].key == ring.ops[id].key
                &&& after.ops[id].waker is None
                &&& ring.wakes(cqe) == ring.ops[id].waker
            }
            &&& !waited ==> ring.wakes(cqe) is None
            &&& orphan ==> !after.orphans.contains_key(id) && !after.ops.contains_key(id)
            &&& ring.closes(cqe) is Some <==> orphan && ring.orphans[id].resource is Accept
                && cqe.res >= 0
            &&& ring.closes(cqe) is Some ==> ring.closes(cqe)->0 == cqe.res
            &&& after.next == ring.next && after.pending == ring.pending
        }),
{
}

/// An operation that is started has the next number, owns its resource, has no result yet
/// and wakes whom it was told to; the next number is another one and never zero. One more
/// submission waits to be taken up. All other operations stay.
pub proof fn law_a_started_operation_is_in_the_books(
    ring: RingModel,
    key: usize,
    resource: OpResource,
    waker: u64,
    other: u64,
)
    requires
        ring.next_is_free(),
        ring.pending < u32::MAX,
    ensures
        ({
            let after = ring.with_op(key, resource, waker);
            let id = ring.next;
            &&& after.ops.contains_key(id)
            &&& after.ops[id].resource == resource
            &&& after.ops[id].result is None
            &&& after.ops[id].waker is Some && after.ops[id].waker->0 == waker
            &&& after.ops[id].key == key
            &&& after.slots.contains_key(key) && after.slots[key] == id
            &&& other != id ==> after.ops.contains_key(other) == ring.ops.contains_key(other)
            &&& other != id && ring.ops.contains_key(other) ==> after.ops[other]
                == ring.ops[other]
            &&& after.orphans == ring.orphans && after.cancels == ring.cancels
            &&& after.next != 0 && after.next != id
            &&& id < u64::MAX ==> after.next == id + 1
            &&& id == u64::MAX ==> after.next == 1
            &&& after.pending == ring.pending + 1
        }),
{
}

/// Where no one waits for an operation any more, what it owns stays until the kernel has
/// completed it, which it is asked to do soon; a descriptor that has already come is
/// closed. Nothing else changes hands.
pub proof fn law_giving_up_an_operation(
    before: RingModel,
    after: RingModel,
    key: usize,
    action: OrphanAction,
    other: u64,
)
    requires
        before.wf(),
        uring::orphaned(before, after, key, action),
    ensures
        ({
            let id = before.slots[key];
            let known = before.slots.contains_key(key);
            let op = before.ops[id];
            &&& !known ==> action is Nothing && after == before
            &&& known && op.result is None ==> {
                &&& action matches OrphanAction::Cancel(target) && target == id
                &&& after.held(id) == Some(op.resource)
                &&& !after.ops.contains_key(id) && after.orphans.contains_key(id)
            }
            &&& known && op.result is Some ==> {
                &&& !(action is Cancel)
                &&& after.held(id) is None
                &&& action is Close <==> op.resource is Accept && op.result->0 is Ok
                &&& action is Close ==> action->Close_0 == op.result->0->Ok_0
            }
            &&& other != id ==> after.held(other) == before.held(other)
        }),
{
}

/// The queue is full where as many submissions as it has entries have not been taken up;
/// counting wraps round. The next one goes where the mask says, and moves the tail by one.
pub proof fn law_submission_slots(cursors: SubmissionCursors)
    ensures
        uring::queue_full(cursors) <==> (cursors.tail - cursors.head) % 0x1_0000_0000
            >= cursors.entries,
        uring::next_slot(cursors).index <= cursors.mask,
        uring::next_slot(cursors).index | !cursors.mask == cursors.tail | !cursors.mask,
        uring::next_slot(cursors).tail as int == (cursors.tail + 1) % 0x1_0000_0000,
{
    let tail = cursors.tail;
    let mask = cursors.mask;
    assert((tail & mask) <= mask && (tail & mask) | !mask == tail | !mask) by (bit_vector);
}

} // verus!
