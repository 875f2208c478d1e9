//! The completion ring: the book-keeping of operations that the kernel carries out.
//!
//! A submitted operation owns its buffer until its completion arrives. Dropping a
//! future does not give the buffer back: the operation becomes an orphan, which is kept
//! until its own completion. A cancellation is only a wish, and releases nothing.

use crate::io::slots;
use crate::io::slots::slab_get;
use crate::io::slots::slab_insert;
use crate::io::slots::slab_items;
use crate::io::slots::slab_remove;
use crate::io::slots::slab_with_capacity;
use crate::io::ErrorKind;
use crate::io::IoError;
use crate::io::SystemError;
use slab::Slab;
use std::collections::HashMap;
use vstd::prelude::*;

verus! {

broadcast use vstd::std_specs::hash::group_hash_axioms;

pub const SETUP_SQPOLL: u32 = 2;

pub const OP_READV: u8 = 1;

pub const OP_WRITEV: u8 = 2;

pub const OP_TIMEOUT: u8 = 11;

pub const OP_ACCEPT: u8 = 13;

pub const OP_ASYNC_CANCEL: u8 = 14;

pub const OP_CONNECT: u8 = 16;

pub const OP_CLOSE: u8 = 19;

pub const OP_READ: u8 = 22;

pub const OP_WRITE: u8 = 23;

pub const OP_SEND: u8 = 26;

pub const OP_RECV: u8 = 27;

// ---------------------------------------------------------------------------
// Set-up
// ---------------------------------------------------------------------------

/// How a ring is created. The idle time of the polling thread is in nanoseconds.
#[derive(Debug, Clone, Copy, PartialEq, Eq, Structural)]
pub struct IoUringBuilder {
    pub entries: u32,
    pub sqpoll: bool,
    pub sq_thread_cpu: Option<u32>,
    pub sq_thread_idle: Option<u128>,
}

/// What the kernel is asked for.
#[derive(Debug, Clone, Copy, PartialEq, Eq, Structural)]
pub struct SetupRequest {
    pub entries: u32,
    pub flags: u32,
    pub sq_thread_cpu: u32,
    pub sq_thread_idle: u32,
}

/// Why a configuration is refused, if it is.
pub open spec fn config_error(config: IoUringBuilder) -> Option<Seq<char>> {
    if config.entries == 0 {
        Some("eddy: io_uring entries must be non-zero"@)
    } else if !config.sqpoll && (config.sq_thread_cpu is Some || config.sq_thread_idle is Some) {
        Some("eddy: SQPOLL CPU and idle settings require SQPOLL"@)
    } else if config.sqpoll && (config.sq_thread_idle matches Some(idle) && idle / 1000000
        > u32::MAX) {
        Some("eddy: SQPOLL idle duration exceeds the kernel ABI"@)
    } else {
        None
    }
}

impl IoUringBuilder {
    /// A ring with room for `entries` submissions, without a polling thread.
    pub fn new(entries: u32) -> (builder: IoUringBuilder)
        ensures
            builder == (IoUringBuilder {
                entries,
                sqpoll: false,
                sq_thread_cpu: None,
                sq_thread_idle: None,
            }),
    {
        IoUringBuilder { entries, sqpoll: false, sq_thread_cpu: None, sq_thread_idle: None }
    }

    /// Whether the kernel polls the submission queue.
    pub fn sqpoll(self, enabled: bool) -> (builder: IoUringBuilder)
        ensures
            builder == (IoUringBuilder { sqpoll: enabled, ..self }),
    {
        IoUringBuilder { sqpoll: enabled, ..self }
    }

    /// The processor of the polling thread.
    pub fn sq_thread_cpu(self, cpu: u32) -> (builder: IoUringBuilder)
        ensures
            builder == (IoUringBuilder { sq_thread_cpu: Some(cpu), ..self }),
    {
        IoUringBuilder { sq_thread_cpu: Some(cpu), ..self }
    }

    /// How long the polling thread stays awake without work, in nanoseconds.
    pub fn sq_thread_idle(self, idle: u128) -> (builder: IoUringBuilder)
        ensures
            builder == (IoUringBuilder { sq_thread_idle: Some(idle), ..self }),
    {
        IoUringBuilder { sq_thread_idle: Some(idle), ..self }
    }

    /// Checks the configuration and says what to ask of the kernel. A polling thread is
    /// never dropped silently.
    pub fn build(self) -> (request: Result<SetupRequest, IoError>)
        ensures
            match request {
                Ok(request) => {
                    &&& config_error(self) is None
                    &&& request == (SetupRequest {
                        entries: self.entries,
                        flags: if self.sqpoll {
                            SETUP_SQPOLL
                        } else {
                            0
                        },
                        sq_thread_cpu: match self.sq_thread_cpu {
                            Some(cpu) => cpu,
                            None => 0,
                        },
                        sq_thread_idle: match self.sq_thread_idle {
                            Some(idle) => (idle / 1000000) as u32,
                            None => 0,
                        },
                    })
                },
                Err(error) => {
                    &&& config_error(self) == Some(error.message@)
                    &&& error.kind == ErrorKind::InvalidInput
                },
            },
    {
        if self.entries == 0 {
            return Err(
                IoError {
                    kind: ErrorKind::InvalidInput,
                    message: "eddy: io_uring entries must be non-zero",
                },
            );
        }
        if !self.sqpoll && (self.sq_thread_cpu.is_some() || self.sq_thread_idle.is_some()) {
            return Err(
                IoError {
                    kind: ErrorKind::InvalidInput,
                    message: "eddy: SQPOLL CPU and idle settings require SQPOLL",
                },
            );
        }
        let mut request = SetupRequest {
            entries: self.entries,
            flags: 0,
            sq_thread_cpu: 0,
            sq_thread_idle: 0,
        };
        if self.sqpoll {
            request.flags = SETUP_SQPOLL;
            if let Some(cpu) = self.sq_thread_cpu {
                request.sq_thread_cpu = cpu;
            }
            if let Some(idle) = self.sq_thread_idle {
                let millis: u128 = idle / 1000000;
                if millis > 4294967295 {
                    return Err(
                        IoError {
                            kind: ErrorKind::InvalidInput,
                            message: "eddy: SQPOLL idle duration exceeds the kernel ABI",
                        },
                    );
                }
                request.sq_thread_idle = millis as u32;
            }
        }
        Ok(request)
    }
}

/// What the kernel answers about the layout of a ring.
#[derive(Debug, Clone, Copy, PartialEq, Eq, Structural)]
pub struct RingLayout {
    pub sq_entries: u32,
    pub cq_entries: u32,
    pub sq_array: u32,
    pub cq_cqes: u32,
    pub features: u32,
}

/// The lengths of the mappings of a ring. There is none for the completion queue where
/// one mapping serves both queues.
#[derive(Debug, Clone, Copy, PartialEq, Eq, Structural)]
pub struct RingMappings {
    pub sq: u64,
    pub cq: Option<u64>,
    pub sqes: u64,
}

/// How many bytes to map.
pub fn ring_mappings(layout: RingLayout) -> (mappings: RingMappings)
    ensures
        ({
            let sq = layout.sq_array + 4 * layout.sq_entries;
            let cq = layout.cq_cqes + 16 * layout.cq_entries;
            &&& mappings.sqes == 64 * layout.sq_entries
            &&& if layout.features & 1 != 0 {
                &&& mappings.cq is None
                &&& mappings.sq == if sq < cq {
                    cq
                } else {
                    sq
                }
            } else {
                &&& mappings.sq == sq
                &&& mappings.cq == Some(cq as u64)
            }
        }),
{
    let sq: u64 = layout.sq_array as u64 + 4 * (layout.sq_entries as u64);
    let cq: u64 = layout.cq_cqes as u64 + 16 * (layout.cq_entries as u64);
    let sqes: u64 = 64 * (layout.sq_entries as u64);
    if layout.features & 1 != 0 {
        let both: u64 = if sq < cq {
            cq
        } else {
            sq
        };
        RingMappings { sq: both, cq: None, sqes }
    } else {
        RingMappings { sq, cq: Some(cq), sqes }
    }
}

/// Whether an error of the system means that there are no rings here.
pub open spec fn unavailable(code: Option<SystemError>) -> bool {
    match code {
        Some(SystemError::NotImplemented) => true,
        Some(SystemError::NotPermitted) => true,
        Some(SystemError::AccessDenied) => true,
        Some(SystemError::NoDevice) => true,
        _ => false,
    }
}

/// Whether an error means that there are no rings here, so that the readiness driver is
/// to be used: older kernels do not know them, and a filter may forbid them.
pub fn is_unavailable(code: Option<SystemError>) -> (result: bool)
    ensures
        result == unavailable(code),
{
    match code {
        Some(SystemError::NotImplemented) => true,
        Some(SystemError::NotPermitted) => true,
        Some(SystemError::AccessDenied) => true,
        Some(SystemError::NoDevice) => true,
        _ => false,
    }
}

impl IoUring {
    /// The settings of a ring with so many entries.
    pub fn builder(entries: u32) -> (builder: IoUringBuilder)
        ensures
            builder == (IoUringBuilder {
                entries,
                sqpoll: false,
                sq_thread_cpu: None,
                sq_thread_idle: None,
            }),
    {
        IoUringBuilder::new(entries)
    }

    /// Whether a ring was created with a polling thread.
    pub fn is_sqpoll(flags: u32) -> (result: bool)
        ensures
            result == (flags & SETUP_SQPOLL != 0),
    {
        flags & SETUP_SQPOLL != 0
    }

    /// A ring where there is one, nothing where the readiness driver is to be used, and an
    /// error otherwise.
    pub fn new_or_fallback<R>(result: Result<R, (Option<SystemError>, IoError)>) -> (ring: Result<
        Option<R>,
        IoError,
    >)
        ensures
            ring == (match result {
                Ok(ring) => Ok(Some(ring)),
                Err((code, error)) => if unavailable(code) {
                    Ok(None)
                } else {
                    Err(error)
                },
            }),
    {
        match result {
            Ok(ring) => Ok(Some(ring)),
            Err((code, error)) => if is_unavailable(code) {
                Ok(None)
            } else {
                Err(error)
            },
        }
    }

    /// Whether there are rings here, from the outcome of creating one.
    pub fn probe<R>(result: Result<R, (Option<SystemError>, IoError)>) -> (supported: Result<
        bool,
        IoError,
    >)
        ensures
            supported == (match result {
                Ok(_) => Ok(true),
                Err((code, error)) => if unavailable(code) {
                    Ok(false)
                } else {
                    Err(error)
                },
            }),
    {
        match result {
            Ok(_) => Ok(true),
            Err((code, error)) => if is_unavailable(code) {
                Ok(false)
            } else {
                Err(error)
            },
        }
    }

    /// Whether rings can be used here, from the outcome of a probe: a failure counts as no.
    pub fn is_supported(probed: &Result<bool, IoError>) -> (supported: bool)
        ensures
            supported == (probed matches Ok(found) && *found),
    {
        match probed {
            Ok(found) => *found,
            Err(_) => false,
        }
    }

    /// Accepting more than once with one submission is not supported: a completion ends its
    /// operation.
    pub fn accept_multishot() -> (result: Result<(), IoError>)
        ensures
            result matches Err(error) && error.kind == ErrorKind::Unsupported && error.message@
                == "eddy: io_uring multishot accept is unsupported by the single-CQE operation state"@,
    {
        Err(
            IoError {
                kind: ErrorKind::Unsupported,
                message:
                    "eddy: io_uring multishot accept is unsupported by the single-CQE operation state",
            },
        )
    }

    /// Receiving more than once with one submission is not supported: a completion ends its
    /// operation.
    pub fn recv_multishot() -> (result: Result<(), IoError>)
        ensures
            result matches Err(error) && error.kind == ErrorKind::Unsupported && error.message@
                == "eddy: io_uring multishot receive is unsupported by the single-CQE operation state"@,
    {
        Err(
            IoError {
                kind: ErrorKind::Unsupported,
                message:
                    "eddy: io_uring multishot receive is unsupported by the single-CQE operation state",
            },
        )
    }
}

// ---------------------------------------------------------------------------
// Operations
// ---------------------------------------------------------------------------

/// What an operation owns while the kernel works on it. An operation on a registered
/// buffer or file owns the whole set.
#[derive(Debug)]
pub enum OpResource {
    Buffer(Vec<u8>),
    Vectored(Vec<Vec<u8>>),
    Address(Vec<u8>),
    FixedBuffer { registered: RegisteredBuffers, index: u16, length: u32 },
    FixedFileBuffer { registered: RegisteredFiles, index: u32, buffer: Vec<u8> },
    Accept,
    Close,
}

/// How many bytes or vectors the kernel is told of.
pub open spec fn resource_length(resource: OpResource) -> nat {
    match resource {
        OpResource::Buffer(buffer) => buffer@.len(),
        OpResource::Vectored(buffers) => buffers@.len(),
        OpResource::Address(bytes) => bytes@.len(),
        OpResource::FixedBuffer { length, .. } => length as nat,
        OpResource::FixedFileBuffer { buffer, .. } => buffer@.len(),
        OpResource::Accept => 0,
        OpResource::Close => 0,
    }
}

/// The error of a resource that the kernel cannot be told of.
pub open spec fn too_large(resource: OpResource) -> Seq<char> {
    match resource {
        OpResource::Buffer(_) => "eddy: io_uring buffer is too large"@,
        OpResource::Vectored(_) => "eddy: too many io_uring vectors"@,
        OpResource::FixedFileBuffer { .. } => "eddy: fixed-file buffer is too large"@,
        _ => "eddy: socket address is too large"@,
    }
}

/// The length as the kernel takes it, or an error with the text `message`.
fn length_u32(len: usize, message: &'static str) -> (result: Result<u32, IoError>)
    ensures
        match result {
            Ok(length) => length == len,
            Err(error) => len > u32::MAX && error.kind == ErrorKind::InvalidInput && error.message@
                == message@,
        },
{
    if len as u64 > 4294967295 {
        Err(IoError { kind: ErrorKind::InvalidInput, message })
    } else {
        Ok(len as u32)
    }
}

impl OpResource {
    /// How many bytes or vectors the kernel is told of.
    pub fn length(&self) -> (result: Result<u32, IoError>)
        ensures
            match result {
                Ok(length) => length == resource_length(*self),
                Err(error) => resource_length(*self) > u32::MAX && error.kind
                    == ErrorKind::InvalidInput && error.message@ == too_large(*self),
            },
    {
        match self {
            OpResource::Buffer(buffer) => length_u32(
                buffer.len(),
                "eddy: io_uring buffer is too large",
            ),
            OpResource::Vectored(buffers) => length_u32(
                buffers.len(),
                "eddy: too many io_uring vectors",
            ),
            OpResource::Address(bytes) => length_u32(
                bytes.len(),
                "eddy: socket address is too large",
            ),
            OpResource::FixedBuffer { length, .. } => Ok(*length),
            OpResource::FixedFileBuffer { buffer, .. } => length_u32(
                buffer.len(),
                "eddy: fixed-file buffer is too large",
            ),
            OpResource::Accept => Ok(0),
            OpResource::Close => Ok(0),
        }
    }

    /// The slot of the registered buffer, or zero.
    pub fn buffer_index(&self) -> (index: u16)
        ensures
            index == (match *self {
                OpResource::FixedBuffer { index, .. } => index,
                _ => 0,
            }),
    {
        match self {
            OpResource::FixedBuffer { index, .. } => *index,
            _ => 0,
        }
    }

    /// The slot of the registered file, if there is one.
    pub fn fixed_file_index(&self) -> (index: Option<u32>)
        ensures
            index == (match *self {
                OpResource::FixedFileBuffer { index, .. } => Some(index),
                _ => None,
            }),
    {
        match self {
            OpResource::FixedFileBuffer { index, .. } => Some(*index),
            _ => None,
        }
    }
}

/// What is submitted to the kernel.
#[derive(Debug, Clone, Copy, PartialEq, Eq, Structural)]
pub struct Sqe {
    pub opcode: u8,
    pub fixed_file: bool,
    pub fd: i64,
    pub offset: u64,
    /// The operation to cancel; other operations are told of their resource here.
    pub target: Option<u64>,
    pub len: u32,
    pub rw_flags: u32,
    pub user_data: u64,
    pub buf_index: u16,
}

/// What an operation asks for.
#[derive(Debug, Clone, Copy, PartialEq, Eq, Structural)]
pub struct OpRequest {
    pub opcode: u8,
    pub fd: i32,
    pub offset: u64,
    /// Zero stands for the length of the resource.
    pub length: u32,
    pub rw_flags: u32,
}

/// The submission for an operation. The kernel takes the length of an address in the place
/// of the offset, and no other length beside it.
pub open spec fn op_sqe(request: OpRequest, resource: OpResource, user_data: u64) -> Sqe {
    let file = match resource {
        OpResource::FixedFileBuffer { index, .. } => Some(index),
        _ => None,
    };
    Sqe {
        opcode: request.opcode,
        fixed_file: file is Some,
        fd: match file {
            Some(index) => index as i64,
            None => request.fd as i64,
        },
        offset: match resource {
            OpResource::Address(bytes) => bytes@.len() as u64,
            _ => request.offset,
        },
        target: None,
        len: if resource is Address {
            0
        } else if request.length == 0 {
            resource_length(resource) as u32
        } else {
            request.length
        },
        rw_flags: request.rw_flags,
        user_data,
        buf_index: match resource {
            OpResource::FixedBuffer { index, .. } => index,
            _ => 0,
        },
    }
}

/// The submission that asks for a cancellation.
pub open spec fn cancel_sqe(target: u64, user_data: u64) -> Sqe {
    Sqe {
        opcode: OP_ASYNC_CANCEL,
        fixed_file: false,
        fd: (-1) as i64,
        offset: 0,
        target: Some(target),
        len: 0,
        rw_flags: 0,
        user_data,
        buf_index: 0,
    }
}

/// The cursors of the submission queue, as they were read from the ring.
#[derive(Debug, Clone, Copy, PartialEq, Eq, Structural)]
pub struct SubmissionCursors {
    pub tail: u32,
    pub head: u32,
    pub mask: u32,
    pub entries: u32,
}

/// Where a submission is written, and the tail that publishes it.
#[derive(Debug, Clone, Copy, PartialEq, Eq, Structural)]
pub struct QueueSlot {
    pub index: u32,
    pub tail: u32,
}

/// Whether the submission queue is full.
pub open spec fn queue_full(cursors: SubmissionCursors) -> bool {
    cursors.tail.wrapping_sub(cursors.head) >= cursors.entries
}

/// The slot for the next submission.
pub open spec fn next_slot(cursors: SubmissionCursors) -> QueueSlot {
    QueueSlot { index: cursors.tail & cursors.mask, tail: cursors.tail.wrapping_add(1) }
}

/// Finds the slot for the next submission, if the queue is not full.
pub fn queue_slot(cursors: SubmissionCursors) -> (slot: Result<QueueSlot, IoError>)
    ensures
        match slot {
            Ok(slot) => !queue_full(cursors) && slot == next_slot(cursors),
            Err(error) => queue_full(cursors) && error.kind == ErrorKind::WouldBlock
                && error.message@ == "eddy: io_uring submission queue is full"@,
        },
{
    if cursors.tail.wrapping_sub(cursors.head) >= cursors.entries {
        return Err(
            IoError {
                kind: ErrorKind::WouldBlock,
                message: "eddy: io_uring submission queue is full",
            },
        );
    }
    Ok(QueueSlot { index: cursors.tail & cursors.mask, tail: cursors.tail.wrapping_add(1) })
}

/// The slots of the completions that have arrived, in order. The head goes to the tail.
pub fn completion_slots(head: u32, tail: u32, mask: u32) -> (found: Vec<u32>)
    ensures
        found@.len() == tail.wrapping_sub(head),
        forall|i: int|
            0 <= i < found@.len() ==> #[trigger] found@[i] == head.wrapping_add(i as u32) & mask,
{
    let available: u32 = tail.wrapping_sub(head);
    let mut found: Vec<u32> = Vec::new();
    let mut i: u32 = 0;
    while i < available
        invariant
            i <= available,
            found@.len() == i,
            forall|k: int|
                0 <= k < found@.len() ==> #[trigger] found@[k] == head.wrapping_add(k as u32) & mask,
        decreases available - i,
    {
        found.push(head.wrapping_add(i) & mask);
        i = i + 1;
    }
    found
}

/// A completion.
#[derive(Debug, Clone, Copy, PartialEq, Eq, Structural)]
pub struct Cqe {
    pub user_data: u64,
    pub res: i32,
}

/// What a completion says: a count or a descriptor, or else an error code.
pub open spec fn completion_result(res: i32) -> Result<usize, i32> {
    if res >= 0 {
        Ok(res as usize)
    } else if res == i32::MIN {
        Err(res)
    } else {
        Err((-res) as i32)
    }
}

/// An operation that someone waits for.
#[derive(Debug)]
pub struct OpState {
    pub key: usize,
    pub resource: OpResource,
    pub result: Option<Result<usize, i32>>,
    pub waker: Option<u64>,
}

/// An operation that no one waits for any more.
#[derive(Debug)]
pub struct OrphanedOp {
    pub key: usize,
    pub resource: OpResource,
}

// ---------------------------------------------------------------------------
// The book-keeping as a value
// ---------------------------------------------------------------------------

/// The operations of a ring, by the number that the kernel knows them by.
#[verifier::ext_equal]
pub struct RingModel {
    pub ops: Map<u64, OpState>,
    pub slots: Map<usize, u64>,
    pub orphans: Map<u64, OrphanedOp>,
    pub orphan_slots: Map<usize, u64>,
    pub cancels: Map<u64, u64>,
    pub next: u64,
    pub pending: u32,
}

impl RingModel {
    /// A number belongs to at most one operation, and every operation has its slot.
    pub open spec fn wf(self) -> bool {
        &&& forall|id: u64| #[trigger]
            self.ops.contains_key(id) ==> self.slots.contains_key(self.ops[id].key)
                && self.slots[self.ops[id].key] == id
        &&& forall|key: usize| #[trigger]
            self.slots.contains_key(key) ==> self.ops.contains_key(self.slots[key])
                && self.ops[self.slots[key]].key == key
        &&& forall|id: u64| #[trigger]
            self.orphans.contains_key(id) ==> self.orphan_slots.contains_key(self.orphans[id].key)
                && self.orphan_slots[self.orphans[id].key] == id
        &&& forall|key: usize| #[trigger]
            self.orphan_slots.contains_key(key) ==> self.orphans.contains_key(
                self.orphan_slots[key],
            ) && self.orphans[self.orphan_slots[key]].key == key
        &&& forall|id: u64| #[trigger]
            self.ops.contains_key(id) ==> !self.orphans.contains_key(id)
    }

    /// What an operation owns, if it is in the books.
    pub open spec fn held(self, id: u64) -> Option<OpResource> {
        if self.ops.contains_key(id) {
            Some(self.ops[id].resource)
        } else if self.orphans.contains_key(id) {
            Some(self.orphans[id].resource)
        } else {
            None
        }
    }

    /// The number after this one. Zero is never used.
    pub open spec fn following(self) -> u64 {
        if self.next.wrapping_add(1) == 0 {
            1
        } else {
            self.next.wrapping_add(1)
        }
    }

    /// Whether the next number is free.
    pub open spec fn next_is_free(self) -> bool {
        self.next != 0 && !self.ops.contains_key(self.next) && !self.orphans.contains_key(self.next)
    }

    /// After a completion. It ends a cancellation, or an operation: that gets its result,
    /// or is gone if no one waits for it. Anything else is ignored.
    pub open spec fn completed(self, cqe: Cqe) -> RingModel {
        let id = cqe.user_data;
        if self.cancels.contains_key(id) {
            RingModel { cancels: self.cancels.remove(id), ..self }
        } else if self.ops.contains_key(id) {
            RingModel {
                ops: self.ops.insert(
                    id,
                    OpState {
                        result: Some(completion_result(cqe.res)),
                        waker: None,
                        ..self.ops[id]
                    },
                ),
                ..self
            }
        } else if self.orphans.contains_key(id) {
            RingModel {
                orphans: self.orphans.remove(id),
                orphan_slots: self.orphan_slots.remove(self.orphans[id].key),
                ..self
            }
        } else {
            self
        }
    }

    /// Whom a completion wakes.
    pub open spec fn wakes(self, cqe: Cqe) -> Option<u64> {
        if !self.cancels.contains_key(cqe.user_data) && self.ops.contains_key(cqe.user_data) {
            self.ops[cqe.user_data].waker
        } else {
            None
        }
    }

    /// The descriptor that a completion brings and no one waits for.
    pub open spec fn closes(self, cqe: Cqe) -> Option<i32> {
        let id = cqe.user_data;
        if !self.cancels.contains_key(id) && !self.ops.contains_key(id)
            && self.orphans.contains_key(id) && self.orphans[id].resource is Accept && cqe.res
            >= 0 {
            Some(cqe.res)
        } else {
            None
        }
    }

    /// After several completions.
    pub open spec fn completed_all(self, cqes: Seq<Cqe>) -> RingModel
        decreases cqes.len(),
    {
        if cqes.len() == 0 {
            self
        } else {
            self.completed_all(cqes.drop_last()).completed(cqes.last())
        }
    }

    /// Whom several completions wake, in order.
    pub open spec fn wakes_all(self, cqes: Seq<Cqe>) -> Seq<u64>
        decreases cqes.len(),
    {
        if cqes.len() == 0 {
            Seq::empty()
        } else {
            self.wakes_all(cqes.drop_last()) + optional(
                self.completed_all(cqes.drop_last()).wakes(cqes.last()),
            )
        }
    }

    /// The descriptors that several completions bring and no one waits for.
    pub open spec fn closes_all(self, cqes: Seq<Cqe>) -> Seq<i32>
        decreases cqes.len(),
    {
        if cqes.len() == 0 {
            Seq::empty()
        } else {
            self.closes_all(cqes.drop_last()) + optional(
                self.completed_all(cqes.drop_last()).closes(cqes.last()),
            )
        }
    }

    /// With an operation of the next number in a slot.
    pub open spec fn with_op(self, key: usize, resource: OpResource, waker: u64) -> RingModel {
        RingModel {
            ops: self.ops.insert(
                self.next,
                OpState { key, resource, result: None, waker: Some(waker) },
            ),
            slots: self.slots.insert(key, self.next),
            next: self.following(),
            pending: (self.pending + 1) as u32,
            ..self
        }
    }

    /// What is queued for an operation of the next number.
    pub open spec fn queued(
        self,
        request: OpRequest,
        resource: OpResource,
        cursors: SubmissionCursors,
    ) -> Queued {
        Queued { slot: next_slot(cursors), sqe: op_sqe(request, resource, self.next) }
    }

    /// Without the operation in a slot.
    pub open spec fn without_op(self, key: usize) -> RingModel {
        RingModel {
            ops: self.ops.remove(self.slots[key]),
            slots: self.slots.remove(key),
            ..self
        }
    }

    /// Without the operations that have a result.
    pub open spec fn without_completed(self) -> RingModel {
        RingModel {
            ops: self.ops.restrict(Set::new(|id: u64| self.ops[id].result is None)),
            slots: self.slots.restrict(
                Set::new(|key: usize| self.ops[self.slots[key]].result is None),
            ),
            ..self
        }
    }
}

/// The numbers in a list of slots.
pub open spec fn numbers(items: Seq<(usize, u64)>) -> Seq<u64> {
    items.map_values(|item: (usize, u64)| item.1)
}

/// A list of at most one.
pub open spec fn optional<T>(value: Option<T>) -> Seq<T> {
    match value {
        Some(value) => seq![value],
        None => Seq::empty(),
    }
}

/// A completion keeps the books in order, and releases what an operation owns only if it
/// is the completion of that very operation: no cancellation does.
pub proof fn law_resources_are_held_until_completion(ring: RingModel, cqe: Cqe, id: u64)
    requires
        ring.wf(),
    ensures
        ring.completed(cqe).wf(),
        id != cqe.user_data ==> ring.completed(cqe).held(id) == ring.held(id),
        ring.cancels.contains_key(cqe.user_data) ==> ring.completed(cqe).held(id) == ring.held(id),
        ring.ops.contains_key(id) ==> ring.completed(cqe).held(id) == ring.held(id),
{
    let after = ring.completed(cqe);
    let done = cqe.user_data;
    if ring.cancels.contains_key(done) {
    } else if ring.ops.contains_key(done) {
        assert forall|key: usize| #[trigger]
            after.slots.contains_key(key) implies after.ops.contains_key(after.slots[key])
            && after.ops[after.slots[key]].key == key by {
            assert(ring.slots.contains_key(key));
        }
    } else if ring.orphans.contains_key(done) {
        assert forall|other: u64| #[trigger]
            after.orphans.contains_key(other) implies after.orphan_slots.contains_key(
            after.orphans[other].key,
        ) && after.orphan_slots[after.orphans[other].key] == other by {
            assert(ring.orphans.contains_key(other));
        }
        assert forall|key: usize| #[trigger]
            after.orphan_slots.contains_key(key) implies after.orphans.contains_key(
            after.orphan_slots[key],
        ) && after.orphans[after.orphan_slots[key]].key == key by {
            assert(ring.orphan_slots.contains_key(key));
        }
    }
}

/// Several completions keep the books in order, and what an operation owns is held as
/// long as none of them is its own.
pub proof fn law_resources_outlast_other_completions(ring: RingModel, cqes: Seq<Cqe>, id: u64)
    requires
        ring.wf(),
        forall|i: int| 0 <= i < cqes.len() ==> (#[trigger] cqes[i]).user_data != id,
    ensures
        ring.completed_all(cqes).wf(),
        ring.completed_all(cqes).held(id) == ring.held(id),
    decreases cqes.len(),
{
    if cqes.len() > 0 {
        let front = cqes.drop_last();
        assert forall|i: int| 0 <= i < front.len() implies (#[trigger] front[i]).user_data
            != id by {
            assert(front[i] == cqes[i]);
        }
        law_resources_outlast_other_completions(ring, front, id);
        law_resources_are_held_until_completion(ring.completed_all(front), cqes.last(), id);
    }
}

/// What an operation was started with stays with it through the completions of all others,
/// and comes back with the result of its own: a buffer, and a whole registered set, is out
/// of everyone's hands until then.
pub proof fn law_what_was_handed_over_comes_back(
    ring: RingModel,
    key: usize,
    resource: OpResource,
    waker: u64,
    others: Seq<Cqe>,
    own: Cqe,
)
    requires
        ring.wf(),
        ring.next_is_free(),
        !ring.slots.contains_key(key),
        !ring.cancels.contains_key(ring.next),
        own.user_data == ring.next,
        forall|i: int| 0 <= i < others.len() ==> (#[trigger] others[i]).user_data != ring.next,
    ensures
        ({
            let id = ring.next;
            let waiting = ring.with_op(key, resource, waker).completed_all(others);
            let done = waiting.completed(own);
            &&& waiting.held(id) == Some(resource)
            &&& waiting.ops[id].result is None
            &&& done.ops.contains_key(id)
            &&& done.ops[id].key == key
            &&& done.ops[id].resource == resource
            &&& done.ops[id].result == Some(completion_result(own.res))
        }),
{
    lemma_others_leave_alone(ring.with_op(key, resource, waker), others, ring.next);
}

/// Completions of others leave an operation as it is.
proof fn lemma_others_leave_alone(ring: RingModel, others: Seq<Cqe>, id: u64)
    requires
        ring.ops.contains_key(id),
        !ring.cancels.contains_key(id),
        forall|i: int| 0 <= i < others.len() ==> (#[trigger] others[i]).user_data != id,
    ensures
        ring.completed_all(others).ops.contains_key(id),
        ring.completed_all(others).ops[id] == ring.ops[id],
        !ring.completed_all(others).cancels.contains_key(id),
    decreases others.len(),
{
    if others.len() > 0 {
        let front = others.drop_last();
        assert forall|i: int| 0 <= i < front.len() implies (#[trigger] front[i]).user_data
            != id by {
            assert(front[i] == others[i]);
        }
        lemma_others_leave_alone(ring, front, id);
        assert(others.last() == others[others.len() - 1]);
    }
}

// ---------------------------------------------------------------------------
// The ring
// ---------------------------------------------------------------------------

/// A submission that was put in the queue.
#[derive(Debug, Clone, Copy, PartialEq, Eq, Structural)]
pub struct Queued {
    pub slot: QueueSlot,
    pub sqe: Sqe,
}

/// What dropping a future asks for.
#[derive(Debug, Clone, Copy, PartialEq, Eq, Structural)]
pub enum OrphanAction {
    /// Nothing is left to do.
    Nothing,
    /// Close the descriptor that the operation brought.
    Close(usize),
    /// Ask the kernel to cancel the operation, which is now an orphan.
    Cancel(u64),
}

/// Whether that becomes of the operation in a slot when no one waits for it any more.
pub open spec fn orphaned(
    before: RingModel,
    after: RingModel,
    key: usize,
    action: OrphanAction,
) -> bool {
    let id = before.slots[key];
    let op = before.ops[id];
    if !before.slots.contains_key(key) {
        action == OrphanAction::Nothing && after == before
    } else {
        match op.result {
            Some(result) => {
                &&& after == before.without_op(key)
                &&& action == match (op.resource, result) {
                    (OpResource::Accept, Ok(fd)) => OrphanAction::Close(fd),
                    _ => OrphanAction::Nothing,
                }
            },
            None => {
                &&& action == OrphanAction::Cancel(id)
                &&& forall|other: u64| #[trigger] after.held(other) == before.held(other)
                &&& after.ops == before.ops.remove(id)
                &&& after.slots == before.slots.remove(key)
                &&& after.orphans.contains_key(id)
                &&& after.orphans.remove(id) == before.orphans
                &&& !before.orphan_slots.contains_key(after.orphans[id].key)
                &&& after.orphan_slots == before.orphan_slots.insert(after.orphans[id].key, id)
                &&& after.cancels == before.cancels
                &&& after.next == before.next
                &&& after.pending == before.pending
            },
        }
    }
}

/// What to ask of the kernel to have the queue taken up.
#[derive(Debug, Clone, Copy, PartialEq, Eq, Structural)]
pub enum SubmitPlan {
    /// Nothing is queued.
    Nothing,
    /// The polling thread takes up the queue by itself.
    Published,
    /// The polling thread sleeps and has to be woken.
    Wake,
    /// Enter the kernel with that many submissions.
    Enter(u32),
}

/// The operations of a completion ring.
pub struct IoUring {
    table: Slab<u64>,
    ops: HashMap<u64, OpState>,
    orphan_table: Slab<u64>,
    orphans: HashMap<u64, OrphanedOp>,
    cancels: HashMap<u64, u64>,
    next_user_data: u64,
    sq_pending: u32,
}

impl View for IoUring {
    type V = RingModel;

    closed spec fn view(&self) -> RingModel {
        RingModel {
            ops: self.ops@,
            slots: slots::occupied(self.table),
            orphans: self.orphans@,
            orphan_slots: slots::occupied(self.orphan_table),
            cancels: self.cancels@,
            next: self.next_user_data,
            pending: self.sq_pending,
        }
    }
}

/// Books with nothing in them.
pub open spec fn no_operations() -> RingModel {
    RingModel {
        ops: Map::empty(),
        slots: Map::empty(),
        orphans: Map::empty(),
        orphan_slots: Map::empty(),
        cancels: Map::empty(),
        next: 1,
        pending: 0,
    }
}

/// Whether an operation can be started, and if not, why.
pub open spec fn start_error(
    ring: RingModel,
    resource: OpResource,
    cursors: SubmissionCursors,
) -> Option<(ErrorKind, Seq<char>)> {
    if !ring.next_is_free() {
        Some((ErrorKind::Other, "eddy: io_uring user_data space exhausted"@))
    } else if resource_length(resource) > u32::MAX {
        Some((ErrorKind::InvalidInput, too_large(resource)))
    } else if queue_full(cursors) {
        Some((ErrorKind::WouldBlock, "eddy: io_uring submission queue is full"@))
    } else {
        None
    }
}

impl IoUring {
    /// A ring without operations.
    pub fn new() -> (ring: IoUring)
        ensures
            ring@ == no_operations(),
            ring@.wf(),
    {
        let ring = IoUring {
            table: slab_with_capacity(0),
            ops: HashMap::new(),
            orphan_table: slab_with_capacity(0),
            orphans: HashMap::new(),
            cancels: HashMap::new(),
            next_user_data: 1,
            sq_pending: 0,
        };
        assert(ring@ =~= no_operations());
        ring
    }

    /// The number of the next operation. One that is still in use is not given again.
    fn next_user_data(&mut self) -> (result: Result<u64, IoError>)
        ensures
            final(self)@ == (RingModel { next: old(self)@.following(), ..old(self)@ }),
            match result {
                Ok(id) => old(self)@.next_is_free() && id == old(self)@.next,
                Err(error) => !old(self)@.next_is_free() && error.kind == ErrorKind::Other
                    && error.message@ == "eddy: io_uring user_data space exhausted"@,
            },
    {
        let candidate: u64 = self.next_user_data;
        let following: u64 = self.next_user_data.wrapping_add(1);
        self.next_user_data = if following < 1 {
            1
        } else {
            following
        };
        if candidate != 0 && !self.ops.contains_key(&candidate) && !self.orphans.contains_key(
            &candidate,
        ) {
            Ok(candidate)
        } else {
            Err(
                IoError {
                    kind: ErrorKind::Other,
                    message: "eddy: io_uring user_data space exhausted",
                },
            )
        }
    }

    /// Enters an operation in the books and says what to submit for it. Where it cannot be
    /// started, what it would have owned is given back.
    pub fn start_op(
        &mut self,
        request: OpRequest,
        resource: OpResource,
        waker: u64,
        cursors: SubmissionCursors,
    ) -> (result: Result<(usize, Queued), (IoError, OpResource)>)
        requires
            old(self)@.wf(),
            old(self)@.pending < u32::MAX,
        ensures
            final(self)@.wf(),
            match result {
                Ok((key, queued)) => {
                    &&& start_error(old(self)@, resource, cursors) is None
                    &&& !old(self)@.slots.contains_key(key)
                    &&& queued == old(self)@.queued(request, resource, cursors)
                    &&& final(self)@ == old(self)@.with_op(key, resource, waker)
                },
                Err((error, back)) => {
                    &&& start_error(old(self)@, resource, cursors) == Some(
                        (error.kind, error.message@),
                    )
                    &&& back == resource
                    &&& final(self)@ == (RingModel { next: old(self)@.following(), ..old(self)@ })
                },
            },
    {
        let ghost before = self@;
        let id: u64 = match self.next_user_data() {
            Ok(id) => id,
            Err(error) => {
                return Err((error, resource));
            },
        };
        let resource_length: u32 = match resource.length() {
            Ok(length) => length,
            Err(error) => {
                return Err((error, resource));
            },
        };
        let slot = match queue_slot(cursors) {
            Ok(slot) => slot,
            Err(error) => {
                return Err((error, resource));
            },
        };
        let fixed_file = resource.fixed_file_index();
        let is_address = matches!(resource, OpResource::Address(_));
        let sqe = Sqe {
            opcode: request.opcode,
            fixed_file: fixed_file.is_some(),
            fd: match fixed_file {
                Some(index) => index as i64,
                None => request.fd as i64,
            },
            offset: if is_address {
                resource_length as u64
            } else {
                request.offset
            },
            target: None,
            len: if is_address {
                0
            } else if request.length == 0 {
                resource_length
            } else {
                request.length
            },
            rw_flags: request.rw_flags,
            user_data: id,
            buf_index: resource.buffer_index(),
        };
        let key: usize = slab_insert(&mut self.table, id);
        self.ops.insert(id, OpState { key, resource, result: None, waker: Some(waker) });
        self.sq_pending = self.sq_pending + 1;
        proof {
            let after = self@;
            assert forall|other: u64| #[trigger]
                after.ops.contains_key(other) implies after.slots.contains_key(
                after.ops[other].key,
            ) && after.slots[after.ops[other].key] == other && !after.orphans.contains_key(
                other,
            ) by {
                if other != id {
                    assert(before.ops.contains_key(other));
                }
            }
            assert forall|k: usize| #[trigger]
                after.slots.contains_key(k) implies after.ops.contains_key(after.slots[k])
                && after.ops[after.slots[k]].key == k by {
                if k != key {
                    assert(before.slots.contains_key(k));
                }
            }
        }
        Ok((key, Queued { slot, sqe }))
    }

    /// The operation in a slot is waited for by someone else.
    pub fn set_waker(&mut self, key: usize, waker: u64)
        requires
            old(self)@.wf(),
        ensures
            final(self)@.wf(),
            final(self)@ == (if old(self)@.slots.contains_key(key) {
                let id = old(self)@.slots[key];
                RingModel {
                    ops: old(self)@.ops.insert(
                        id,
                        OpState { waker: Some(waker), ..old(self)@.ops[id] },
                    ),
                    ..old(self)@
                }
            } else {
                old(self)@
            }),
    {
        let ghost before = self@;
        if let Some(id) = slab_get(&self.table, key) {
            proof {
                assert(before.slots.contains_key(key));
                assert(before.ops.contains_key(id));
            }
            if let Some(op) = self.ops.remove(&id) {
                let op = OpState {
                    key: op.key,
                    resource: op.resource,
                    result: op.result,
                    waker: Some(waker),
                };
                self.ops.insert(id, op);
                proof {
                    let after = self@;
                    assert(after.ops =~= before.ops.insert(
                        id,
                        OpState { waker: Some(waker), ..before.ops[id] },
                    ));
                    assert forall|k: usize| #[trigger]
                        after.slots.contains_key(k) implies after.ops.contains_key(after.slots[k])
                        && after.ops[after.slots[k]].key == k by {
                        assert(before.slots.contains_key(k));
                    }
                    assert forall|other: u64| #[trigger]
                        after.ops.contains_key(other) implies after.slots.contains_key(
                        after.ops[other].key,
                    ) && after.slots[after.ops[other].key] == other
                        && !after.orphans.contains_key(other) by {
                        assert(before.ops.contains_key(other));
                    }
                }
            }
        }
    }

    /// Takes the operation in a slot out of the books.
    fn remove_op(&mut self, key: usize) -> (op: (u64, OpState))
        requires
            old(self)@.wf(),
            old(self)@.slots.contains_key(key),
        ensures
            final(self)@.wf(),
            final(self)@ == old(self)@.without_op(key),
            op.0 == old(self)@.slots[key],
            op.1 == old(self)@.ops[op.0],
    {
        let ghost before = self@;
        let id: u64 = slab_remove(&mut self.table, key);
        assert(before.ops.contains_key(id));
        let op = self.ops.remove(&id);
        proof {
            let after = self@;
            assert(after.ops =~= before.ops.remove(id));
            assert forall|k: usize| #[trigger]
                after.slots.contains_key(k) implies after.ops.contains_key(after.slots[k])
                && after.ops[after.slots[k]].key == k by {
                assert(before.slots.contains_key(k));
            }
            assert forall|other: u64| #[trigger]
                after.ops.contains_key(other) implies after.slots.contains_key(
                after.ops[other].key,
            ) && after.slots[after.ops[other].key] == other && !after.orphans.contains_key(
                other,
            ) by {
                assert(before.ops.contains_key(other));
            }
        }
        match op {
            Some(op) => (id, op),
            None => {
                assert(false);
                (id, OpState { key, resource: OpResource::Close, result: None, waker: None })
            },
        }
    }

    /// The result of the operation in a slot and what it owned, once it has completed.
    /// The operation then leaves the books.
    pub fn take_result(&mut self, key: usize) -> (taken: Option<(Result<usize, i32>, OpResource)>)
        requires
            old(self)@.wf(),
        ensures
            final(self)@.wf(),
            ({
                let id = old(self)@.slots[key];
                if old(self)@.slots.contains_key(key) && old(self)@.ops[id].result is Some {
                    &&& taken == Some(
                        (old(self)@.ops[id].result->Some_0, old(self)@.ops[id].resource),
                    )
                    &&& final(self)@ == old(self)@.without_op(key)
                } else {
                    taken is None && final(self)@ == old(self)@
                }
            }),
    {
        let ghost before = self@;
        let id: u64 = match slab_get(&self.table, key) {
            Some(id) => id,
            None => {
                return None;
            },
        };
        proof {
            assert(before.slots.contains_key(key));
            assert(before.ops.contains_key(id));
        }
        let ready = match self.ops.get(&id) {
            Some(op) => op.result.is_some(),
            None => false,
        };
        if !ready {
            return None;
        }
        let (_, op) = self.remove_op(key);
        match op.result {
            Some(result) => Some((result, op.resource)),
            None => None,
        }
    }

    /// No one waits for the operation in a slot any more. One that has completed is gone:
    /// a descriptor that it brought is to be closed. Any other becomes an orphan, which
    /// keeps what it owns until its own completion.
    pub fn orphan(&mut self, key: usize) -> (action: OrphanAction)
        requires
            old(self)@.wf(),
        ensures
            final(self)@.wf(),
            orphaned(old(self)@, final(self)@, key, action),
    {
        let ghost before = self@;
        match slab_get(&self.table, key) {
            Some(_) => {},
            None => {
                return OrphanAction::Nothing;
            },
        }
        assert(before.slots.contains_key(key));
        let (id, op) = self.remove_op(key);
        assert(before.ops.contains_key(id));
        match op.result {
            Some(result) => {
                match (op.resource, result) {
                    (OpResource::Accept, Ok(fd)) => OrphanAction::Close(fd),
                    _ => OrphanAction::Nothing,
                }
            },
            None => {
                let ghost middle = self@;
                let orphan_key: usize = slab_insert(&mut self.orphan_table, id);
                self.orphans.insert(id, OrphanedOp { key: orphan_key, resource: op.resource });
                proof {
                    let after = self@;
                    assert(after.orphans.remove(id) =~= before.orphans);
                    assert forall|other: u64| #[trigger]
                        after.orphans.contains_key(other) implies after.orphan_slots.contains_key(
                        after.orphans[other].key,
                    ) && after.orphan_slots[after.orphans[other].key] == other by {
                        if other != id {
                            assert(middle.orphans.contains_key(other));
                        }
                    }
                    assert forall|k: usize| #[trigger]
                        after.orphan_slots.contains_key(k) implies after.orphans.contains_key(
                        after.orphan_slots[k],
                    ) && after.orphans[after.orphan_slots[k]].key == k by {
                        if k != orphan_key {
                            assert(middle.orphan_slots.contains_key(k));
                        }
                    }
                    assert forall|other: u64| #[trigger]
                        after.ops.contains_key(other) implies !after.orphans.contains_key(
                        other,
                    ) && after.slots.contains_key(after.ops[other].key)
                        && after.slots[after.ops[other].key] == other by {
                        assert(middle.ops.contains_key(other));
                    }
                    assert forall|k: usize| #[trigger]
                        after.slots.contains_key(k) implies after.ops.contains_key(after.slots[k])
                        && after.ops[after.slots[k]].key == k by {
                        assert(middle.slots.contains_key(k));
                    }
                    assert forall|other: u64| #[trigger] after.held(other) == before.held(
                        other,
                    ) by {
                        if other != id && before.orphans.contains_key(other) {
                            assert(after.orphans.contains_key(other));
                            assert(after.orphans.remove(id)[other] == before.orphans[other]);
                        }
                    }
                }
                OrphanAction::Cancel(id)
            },
        }
    }

    /// Says what to submit to have an operation cancelled. Nothing is submitted where the
    /// queue is full or the numbers are used up: then the operation takes its course.
    pub fn cancel(&mut self, target: u64, cursors: SubmissionCursors) -> (queued: Option<Queued>)
        requires
            old(self)@.wf(),
            old(self)@.pending < u32::MAX,
        ensures
            final(self)@.wf(),
            if old(self)@.next_is_free() && !queue_full(cursors) {
                let id = old(self)@.next;
                &&& queued == Some(
                    Queued { slot: next_slot(cursors), sqe: cancel_sqe(target, id) },
                )
                &&& final(self)@ == (RingModel {
                    cancels: old(self)@.cancels.insert(id, target),
                    next: old(self)@.following(),
                    pending: (old(self)@.pending + 1) as u32,
                    ..old(self)@
                })
            } else {
                &&& queued is None
                &&& final(self)@ == (RingModel { next: old(self)@.following(), ..old(self)@ })
            },
    {
        let id: u64 = match self.next_user_data() {
            Ok(id) => id,
            Err(_) => {
                return None;
            },
        };
        let slot = match queue_slot(cursors) {
            Ok(slot) => slot,
            Err(_) => {
                return None;
            },
        };
        self.cancels.insert(id, target);
        self.sq_pending = self.sq_pending + 1;
        let sqe = Sqe {
            opcode: OP_ASYNC_CANCEL,
            fixed_file: false,
            fd: -1,
            offset: 0,
            target: Some(target),
            len: 0,
            rw_flags: 0,
            user_data: id,
            buf_index: 0,
        };
        Some(Queued { slot, sqe })
    }

    /// A cancellation could not be submitted.
    pub fn cancel_failed(&mut self, id: u64)
        requires
            old(self)@.wf(),
        ensures
            final(self)@.wf(),
            final(self)@ == (RingModel { cancels: old(self)@.cancels.remove(id), ..old(self)@ }),
    {
        let _ = self.cancels.remove(&id);
        assert(self@.cancels =~= old(self)@.cancels.remove(id));
    }

    /// What to ask of the kernel. With a polling thread, the queue is taken up by itself
    /// unless the thread sleeps.
    pub fn submit_plan(&self, sqpoll: bool, need_wakeup: bool) -> (plan: SubmitPlan)
        ensures
            plan == (if self@.pending == 0 {
                SubmitPlan::Nothing
            } else if !sqpoll {
                SubmitPlan::Enter(self@.pending)
            } else if need_wakeup {
                SubmitPlan::Wake
            } else {
                SubmitPlan::Published
            }),
    {
        if self.sq_pending == 0 {
            SubmitPlan::Nothing
        } else if !sqpoll {
            SubmitPlan::Enter(self.sq_pending)
        } else if need_wakeup {
            SubmitPlan::Wake
        } else {
            SubmitPlan::Published
        }
    }

    /// Notes what the kernel has taken up: with a polling thread everything, else as many
    /// as it says. Returns how many.
    pub fn submitted(&mut self, sqpoll: bool, count: u32) -> (taken: usize)
        requires
            old(self)@.wf(),
            !sqpoll ==> count <= old(self)@.pending,
        ensures
            final(self)@.wf(),
            taken == (if sqpoll {
                old(self)@.pending
            } else {
                count
            }),
            final(self)@ == (RingModel {
                pending: (old(self)@.pending - taken) as u32,
                ..old(self)@
            }),
    {
        let taken: u32 = if sqpoll {
            self.sq_pending
        } else {
            count
        };
        self.sq_pending = self.sq_pending - taken;
        taken as usize
    }

    /// Notes a completion. Returns whom to wake, and a descriptor to close.
    pub fn complete(&mut self, cqe: Cqe) -> (outcome: (Option<u64>, Option<i32>))
        requires
            old(self)@.wf(),
        ensures
            final(self)@.wf(),
            final(self)@ == old(self)@.completed(cqe),
            outcome.0 == old(self)@.wakes(cqe),
            outcome.1 == old(self)@.closes(cqe),
    {
        let ghost before = self@;
        let id: u64 = cqe.user_data;
        proof {
            law_resources_are_held_until_completion(before, cqe, id);
        }
        if self.cancels.contains_key(&id) {
            let _ = self.cancels.remove(&id);
            assert(self@ =~= before.completed(cqe));
            return (None, None);
        }
        if let Some(op) = self.ops.remove(&id) {
            let result = if cqe.res >= 0 {
                Ok(cqe.res as usize)
            } else if cqe.res == i32::MIN {
                Err(cqe.res)
            } else {
                Err(-cqe.res)
            };
            let waker = op.waker;
            self.ops.insert(
                id,
                OpState { key: op.key, resource: op.resource, result: Some(result), waker: None },
            );
            proof {
                assert(self@.ops =~= before.completed(cqe).ops);
                assert(self@ =~= before.completed(cqe));
            }
            return (waker, None);
        }
        assert(self.ops@ =~= before.ops);
        if let Some(orphan) = self.orphans.remove(&id) {
            assert(before.orphans.contains_key(id));
            let _ = slab_remove(&mut self.orphan_table, orphan.key);
            assert(self@ =~= before.completed(cqe));
            if cqe.res >= 0 {
                match orphan.resource {
                    OpResource::Accept => {
                        return (None, Some(cqe.res));
                    },
                    _ => {},
                }
            }
            return (None, None);
        }
        assert(self.orphans@ =~= before.orphans);
        (None, None)
    }

    /// Notes the completions that have arrived. Returns whom to wake and which descriptors
    /// to close.
    pub fn reap_completions(&mut self, cqes: &Vec<Cqe>) -> (outcome: (Vec<u64>, Vec<i32>))
        requires
            old(self)@.wf(),
        ensures
            final(self)@.wf(),
            final(self)@ == old(self)@.completed_all(cqes@),
            outcome.0@ == old(self)@.wakes_all(cqes@),
            outcome.1@ == old(self)@.closes_all(cqes@),
    {
        let ghost before = self@;
        let mut wake: Vec<u64> = Vec::new();
        let mut close: Vec<i32> = Vec::new();
        let mut i: usize = 0;
        assert(cqes@.take(0) =~= Seq::empty());
        while i < cqes.len()
            invariant
                i <= cqes@.len(),
                self@.wf(),
                self@ == before.completed_all(cqes@.take(i as int)),
                wake@ == before.wakes_all(cqes@.take(i as int)),
                close@ == before.closes_all(cqes@.take(i as int)),
            decreases cqes@.len() - i,
        {
            proof {
                assert(cqes@.take(i + 1).drop_last() =~= cqes@.take(i as int));
                assert(cqes@.take(i + 1).last() == cqes@[i as int]);
            }
            let ghost middle = self@;
            let ghost woken = wake@;
            let ghost closed = close@;
            let (waker, fd) = self.complete(cqes[i]);
            if let Some(waker) = waker {
                wake.push(waker);
            }
            if let Some(fd) = fd {
                close.push(fd);
            }
            proof {
                assert(wake@ =~= woken + optional(middle.wakes(cqes@[i as int])));
                assert(close@ =~= closed + optional(middle.closes(cqes@[i as int])));
            }
            i = i + 1;
        }
        assert(cqes@.take(i as int) =~= cqes@);
        (wake, close)
    }

    /// Everything that the kernel may still work on: first what someone waits for, then
    /// the orphans, by slot.
    pub fn targets(&self) -> (targets: Vec<u64>)
        requires
            self@.wf(),
        ensures
            exists|items: Seq<(usize, u64)>, orphans: Seq<(usize, u64)>|
                #![trigger slots::lists_slots(items, self@.slots), slots::lists_slots(
                    orphans,
                    self@.orphan_slots,
                )]
                slots::lists_slots(items, self@.slots) && slots::lists_slots(
                    orphans,
                    self@.orphan_slots,
                ) && targets@ == numbers(items) + numbers(orphans),
            forall|i: int| 0 <= i < targets@.len() ==> #[trigger] self@.held(targets@[i]) is Some,
            forall|id: u64| #[trigger] self@.held(id) is Some ==> targets@.contains(id),
    {
        let items = slab_items(&self.table);
        let orphan_items = slab_items(&self.orphan_table);
        let mut targets: Vec<u64> = Vec::new();
        let mut i: usize = 0;
        while i < items.len()
            invariant
                i <= items@.len(),
                self@.wf(),
                slots::lists_slots(items@, self@.slots),
                targets@.len() == i,
                forall|k: int| 0 <= k < i ==> #[trigger] targets@[k] == items@[k].1,
                forall|k: int| 0 <= k < i ==> #[trigger] self@.held(targets@[k]) is Some,
            decreases items@.len() - i,
        {
            let (key, id) = items[i];
            assert(items@[i as int].0 == key);
            assert(self@.slots.contains_key(key));
            targets.push(id);
            i = i + 1;
        }
        let ghost first = targets@;
        let mut j: usize = 0;
        while j < orphan_items.len()
            invariant
                j <= orphan_items@.len(),
                self@.wf(),
                slots::lists_slots(orphan_items@, self@.orphan_slots),
                targets@.len() == first.len() + j,
                targets@.take(first.len() as int) == first,
                forall|k: int|
                    0 <= k < j ==> #[trigger] targets@[first.len() + k] == orphan_items@[k].1,
                forall|k: int|
                    0 <= k < targets@.len() ==> #[trigger] self@.held(targets@[k]) is Some,
            decreases orphan_items@.len() - j,
        {
            let (key, id) = orphan_items[j];
            let ghost prior = targets@;
            assert(orphan_items@[j as int].0 == key);
            assert(self@.orphan_slots.contains_key(key));
            targets.push(id);
            assert(targets@.take(first.len() as int) =~= prior.take(first.len() as int));
            assert forall|k: int| 0 <= k < j + 1 implies #[trigger] targets@[first.len() + k]
                == orphan_items@[k].1 by {
                if k < j {
                    assert(targets@[first.len() + k] == prior[first.len() + k]);
                }
            }
            j = j + 1;
        }
        proof {
            assert(first =~= numbers(items@));
            assert(targets@ =~= numbers(items@) + numbers(orphan_items@)) by {
                assert forall|k: int| 0 <= k < first.len() implies #[trigger] targets@[k]
                    == first[k] by {
                    assert(targets@.take(first.len() as int)[k] == first[k]);
                }
                assert forall|k: int| first.len() <= k < targets@.len() implies #[trigger] targets@[
                    k
                ] == numbers(orphan_items@)[k - first.len()] by {
                    assert(targets@[first.len() + (k - first.len())] == orphan_items@[k
                        - first.len()].1);
                }
            }
        }
        proof {
            assert forall|id: u64| #[trigger] self@.held(id) is Some implies targets@.contains(
                id,
            ) by {
                if self@.ops.contains_key(id) {
                    let key = self@.ops[id].key;
                    assert(self@.slots.contains_key(key));
                    let k = choose|k: int|
                        0 <= k < items@.len() && (#[trigger] items@[k]).0 == key;
                    assert(first[k] == id);
                    assert(targets@.take(first.len() as int)[k] == id);
                    assert(targets@[k] == id);
                } else {
                    let key = self@.orphans[id].key;
                    assert(self@.orphan_slots.contains_key(key));
                    let k = choose|k: int|
                        0 <= k < orphan_items@.len() && (#[trigger] orphan_items@[k]).0 == key;
                    assert(targets@[first.len() + k] == id);
                }
            }
        }
        targets
    }

    /// Drops the operations that have completed, at the end of the ring. Says whether the
    /// kernel works on nothing any more.
    pub fn discard_completed(&mut self) -> (idle: bool)
        requires
            old(self)@.wf(),
        ensures
            final(self)@.wf(),
            final(self)@ == old(self)@.without_completed(),
            idle <==> forall|id: u64| !(#[trigger] final(self)@.held(id) is Some),
    {
        let ghost before = self@;
        let items = slab_items(&self.table);
        let mut i: usize = 0;
        while i < items.len()
            invariant
                i <= items@.len(),
                before.wf(),
                self@.wf(),
                slots::lists_slots(items@, before.slots),
                self@ == (RingModel { ops: self@.ops, slots: self@.slots, ..before }),
                forall|k: usize| #[trigger]
                    self@.slots.contains_key(k) ==> before.slots.contains_key(k)
                        && self@.slots[k] == before.slots[k] && self@.ops[self@.slots[k]]
                        == before.ops[before.slots[k]],
                forall|k: usize| #[trigger]
                    before.slots.contains_key(k) && before.ops[before.slots[k]].result is None
                        ==> self@.slots.contains_key(k),
                forall|k: int|
                    0 <= k < i && before.ops[(#[trigger] items@[k]).1].result is Some
                        ==> !self@.slots.contains_key(items@[k].0),
                forall|k: int|
                    i <= k < items@.len() ==> self@.slots.contains_key((#[trigger] items@[k]).0),
            decreases items@.len() - i,
        {
            let (key, id) = items[i];
            assert(items@[i as int].0 == key);
            assert(self@.slots.contains_key(key));
            let done = match self.ops.get(&id) {
                Some(op) => op.result.is_some(),
                None => false,
            };
            assert(before.slots.contains_key(key));
            if done {
                let ghost middle = self@;
                let _ = self.remove_op(key);
                proof {
                    assert forall|k: usize| #[trigger]
                        self@.slots.contains_key(k) implies before.slots.contains_key(k)
                        && self@.slots[k] == before.slots[k] && self@.ops[self@.slots[k]]
                        == before.ops[before.slots[k]] by {
                        assert(middle.slots.contains_key(k));
                        assert(self@.slots[k] != id) by {
                            if middle.slots[k] == id {
                                assert(middle.ops[id].key == k);
                            }
                        }
                    }
                    assert forall|k: int|
                        i + 1 <= k < items@.len() implies self@.slots.contains_key(
                        (#[trigger] items@[k]).0,
                    ) by {
                        assert(items@[i as int].0 < items@[k].0);
                        assert(middle.slots.contains_key(items@[k].0));
                    }
                    assert forall|k: usize| #[trigger]
                        before.slots.contains_key(k) && before.ops[before.slots[k]].result is None
                        implies self@.slots.contains_key(k) by {
                        assert(middle.slots.contains_key(k));
                    }
                }
            }
            i = i + 1;
        }
        proof {
            let after = self@;
            let goal = before.without_completed();
            assert forall|k: usize| #[trigger] after.slots.contains_key(k) <==> (
            before.slots.contains_key(k) && before.ops[before.slots[k]].result is None) by {
                if before.slots.contains_key(k) && before.ops[before.slots[k]].result is Some {
                    let n = choose|n: int| 0 <= n < items@.len() && (#[trigger] items@[n]).0 == k;
                    assert(items@[n].1 == before.slots[k]);
                }
            }
            assert(after.slots =~= goal.slots);
            assert forall|id: u64| #[trigger] after.ops.contains_key(id) <==> (
            before.ops.contains_key(id) && before.ops[id].result is None) by {
                if after.ops.contains_key(id) {
                    let k = after.ops[id].key;
                    assert(after.slots.contains_key(k));
                    assert(before.slots.contains_key(k));
                }
                if before.ops.contains_key(id) && before.ops[id].result is None {
                    let k = before.ops[id].key;
                    assert(before.slots.contains_key(k));
                    assert(after.slots.contains_key(k));
                }
            }
            assert forall|id: u64| after.ops.contains_key(id) implies #[trigger] after.ops[id]
                == before.ops[id] by {
                let k = after.ops[id].key;
                assert(after.slots.contains_key(k));
            }
            assert(after.ops =~= goal.ops);
            assert(after =~= goal);
        }
        let idle = self.ops.len() == 0 && self.orphans.len() == 0;
        proof {
            lemma_idle(self@);
        }
        idle
    }
}

/// Books without operations hold nothing.
proof fn lemma_idle(ring: RingModel)
    requires
        ring.ops.dom().finite(),
        ring.orphans.dom().finite(),
    ensures
        (ring.ops.len() == 0 && ring.orphans.len() == 0) <==> forall|id: u64|
            !(#[trigger] ring.held(id) is Some),
{
    if ring.ops.len() == 0 && ring.orphans.len() == 0 {
        assert(ring.ops.dom() =~= Set::empty());
        assert(ring.orphans.dom() =~= Set::empty());
    } else if ring.ops.len() != 0 {
        let id = ring.ops.dom().choose();
        assert(ring.ops.contains_key(id));
        assert(ring.held(id) is Some);
    } else {
        let id = ring.orphans.dom().choose();
        assert(ring.orphans.contains_key(id));
        assert(ring.held(id) is Some);
    }
}

// ---------------------------------------------------------------------------
// Futures
// ---------------------------------------------------------------------------

/// What a future of an operation finds.
#[derive(Debug)]
pub enum OpPoll {
    /// The operation has not been started.
    NotStarted,
    /// The operation is in the hands of the kernel.
    Pending,
    /// The operation has completed, and gives back what it owned.
    Ready(Result<usize, i32>, OpResource),
}

/// A future of an operation: its slot in the books, while it is in them.
pub struct OpFuture {
    pub key: Option<usize>,
}

impl OpFuture {
    /// Not started yet.
    pub fn new() -> (future: OpFuture)
        ensures
            future.key is None,
    {
        OpFuture { key: None }
    }

    /// Takes the result if there is one, and otherwise waits for it.
    pub fn poll(&mut self, ring: &mut IoUring, waker: u64) -> (poll: OpPoll)
        requires
            old(ring)@.wf(),
        ensures
            final(ring)@.wf(),
            match old(self).key {
                None => poll is NotStarted && final(self).key is None && final(ring)@
                    == old(ring)@,
                Some(key) => {
                    let held = old(ring)@.slots.contains_key(key);
                    let op = old(ring)@.ops[old(ring)@.slots[key]];
                    if held && op.result is Some {
                        &&& poll == OpPoll::Ready(op.result->Some_0, op.resource)
                        &&& final(self).key is None
                        &&& final(ring)@ == old(ring)@.without_op(key)
                    } else {
                        &&& poll is Pending
                        &&& final(self).key == Some(key)
                        &&& held ==> final(ring)@ == (RingModel {
                            ops: old(ring)@.ops.insert(
                                old(ring)@.slots[key],
                                OpState { waker: Some(waker), ..op },
                            ),
                            ..old(ring)@
                        })
                        &&& !held ==> final(ring)@ == old(ring)@
                    }
                },
            },
    {
        match self.key {
            None => OpPoll::NotStarted,
            Some(key) => {
                match ring.take_result(key) {
                    Some((result, resource)) => {
                        self.key = None;
                        OpPoll::Ready(result, resource)
                    },
                    None => {
                        ring.set_waker(key, waker);
                        OpPoll::Pending
                    },
                }
            },
        }
    }

    /// Starts the operation, if it has not been started.
    pub fn start(
        &mut self,
        ring: &mut IoUring,
        request: OpRequest,
        resource: OpResource,
        waker: u64,
        cursors: SubmissionCursors,
    ) -> (result: Result<Queued, (IoError, OpResource)>)
        requires
            old(self).key is None,
            old(ring)@.wf(),
            old(ring)@.pending < u32::MAX,
        ensures
            final(ring)@.wf(),
            match result {
                Ok(queued) => {
                    &&& start_error(old(ring)@, resource, cursors) is None
                    &&& queued == old(ring)@.queued(request, resource, cursors)
                    &&& final(self).key matches Some(key)
                    &&& !old(ring)@.slots.contains_key(key)
                    &&& final(ring)@ == old(ring)@.with_op(key, resource, waker)
                },
                Err((error, back)) => {
                    &&& start_error(old(ring)@, resource, cursors) == Some(
                        (error.kind, error.message@),
                    )
                    &&& back == resource
                    &&& final(self).key is None
                    &&& final(ring)@ == (RingModel { next: old(ring)@.following(), ..old(ring)@ })
                },
            },
    {
        match ring.start_op(request, resource, waker, cursors) {
            Ok((key, queued)) => {
                self.key = Some(key);
                Ok(queued)
            },
            Err(failure) => Err(failure),
        }
    }

    /// Gives the operation up: when the future is dropped, or when its submission failed.
    pub fn abandon(&mut self, ring: &mut IoUring) -> (action: OrphanAction)
        requires
            old(ring)@.wf(),
        ensures
            final(ring)@.wf(),
            final(self).key is None,
            old(self).key is None ==> action == OrphanAction::Nothing && final(ring)@
                == old(ring)@,
            old(self).key matches Some(key) ==> orphaned(old(ring)@, final(ring)@, key, action),
    {
        match self.key {
            None => OrphanAction::Nothing,
            Some(key) => {
                self.key = None;
                ring.orphan(key)
            },
        }
    }
}

/// The kinds of operation with one buffer.
#[derive(Debug, Clone, Copy, PartialEq, Eq, Structural)]
pub enum Transfer {
    Read,
    Write,
    Send,
    Recv,
}

/// The code of an operation with one buffer.
pub open spec fn transfer_opcode(transfer: Transfer) -> u8 {
    match transfer {
        Transfer::Read => OP_READ,
        Transfer::Write => OP_WRITE,
        Transfer::Send => OP_SEND,
        Transfer::Recv => OP_RECV,
    }
}

/// The error of a buffer that is too large for an operation.
pub open spec fn transfer_error(transfer: Transfer) -> Seq<char> {
    match transfer {
        Transfer::Read => "eddy: read buffer is too large: out of range integral type conversion attempted"@,
        Transfer::Write => "eddy: write buffer is too large: out of range integral type conversion attempted"@,
        Transfer::Send => "eddy: send buffer is too large: out of range integral type conversion attempted"@,
        Transfer::Recv => "eddy: recv buffer is too large: out of range integral type conversion attempted"@,
    }
}

/// Whether that is what an operation with one buffer asks for, and what it owns. Where the
/// buffer is too large, it is given back.
pub open spec fn transfer_asked(
    transfer: Transfer,
    fd: i32,
    offset: u64,
    buffer: Vec<u8>,
    asked: Result<(OpRequest, OpResource), (IoError, Vec<u8>)>,
) -> bool {
    match asked {
        Ok((request, resource)) => {
            &&& buffer@.len() <= u32::MAX
            &&& request == (OpRequest {
                opcode: transfer_opcode(transfer),
                fd,
                offset,
                length: buffer@.len() as u32,
                rw_flags: 0,
            })
            &&& resource == OpResource::Buffer(buffer)
        },
        Err((error, back)) => {
            &&& buffer@.len() > u32::MAX
            &&& error.kind == ErrorKind::InvalidInput
            &&& error.message@ == transfer_error(transfer)
            &&& back == buffer
        },
    }
}

/// What an operation with one buffer asks for.
fn transfer_request(transfer: Transfer, fd: i32, offset: u64, buffer: Vec<u8>) -> (asked: Result<
    (OpRequest, OpResource),
    (IoError, Vec<u8>),
>)
    ensures
        transfer_asked(transfer, fd, offset, buffer, asked),
{
    let (opcode, message) = match transfer {
        Transfer::Read => (
            OP_READ,
            "eddy: read buffer is too large: out of range integral type conversion attempted",
        ),
        Transfer::Write => (
            OP_WRITE,
            "eddy: write buffer is too large: out of range integral type conversion attempted",
        ),
        Transfer::Send => (
            OP_SEND,
            "eddy: send buffer is too large: out of range integral type conversion attempted",
        ),
        Transfer::Recv => (
            OP_RECV,
            "eddy: recv buffer is too large: out of range integral type conversion attempted",
        ),
    };
    match length_u32(buffer.len(), message) {
        Ok(length) => Ok(
            (
                OpRequest { opcode, fd, offset, length, rw_flags: 0 },
                OpResource::Buffer(buffer),
            ),
        ),
        Err(error) => Err((error, buffer)),
    }
}

/// What each operation asks for, and what it owns until it has completed.
impl IoUring {
    /// Asks for a read from the beginning.
    pub fn read(fd: i32, buffer: Vec<u8>) -> (asked: Result<
        (OpRequest, OpResource),
        (IoError, Vec<u8>),
    >)
        ensures
            transfer_asked(Transfer::Read, fd, 0, buffer, asked),
    {
        transfer_request(Transfer::Read, fd, 0, buffer)
    }

    /// Asks for a read.
    pub fn read_at(fd: i32, buffer: Vec<u8>, offset: u64) -> (asked: Result<
        (OpRequest, OpResource),
        (IoError, Vec<u8>),
    >)
        ensures
            transfer_asked(Transfer::Read, fd, offset, buffer, asked),
    {
        transfer_request(Transfer::Read, fd, offset, buffer)
    }

    /// Asks for a write from the beginning.
    pub fn write(fd: i32, buffer: Vec<u8>) -> (asked: Result<
        (OpRequest, OpResource),
        (IoError, Vec<u8>),
    >)
        ensures
            transfer_asked(Transfer::Write, fd, 0, buffer, asked),
    {
        transfer_request(Transfer::Write, fd, 0, buffer)
    }

    /// Asks for a write.
    pub fn write_at(fd: i32, buffer: Vec<u8>, offset: u64) -> (asked: Result<
        (OpRequest, OpResource),
        (IoError, Vec<u8>),
    >)
        ensures
            transfer_asked(Transfer::Write, fd, offset, buffer, asked),
    {
        transfer_request(Transfer::Write, fd, offset, buffer)
    }

    /// Asks to send bytes through a socket.
    pub fn send(fd: i32, buffer: Vec<u8>) -> (asked: Result<
        (OpRequest, OpResource),
        (IoError, Vec<u8>),
    >)
        ensures
            transfer_asked(Transfer::Send, fd, 0, buffer, asked),
    {
        transfer_request(Transfer::Send, fd, 0, buffer)
    }

    /// Asks to receive bytes from a socket.
    pub fn recv(fd: i32, buffer: Vec<u8>) -> (asked: Result<
        (OpRequest, OpResource),
        (IoError, Vec<u8>),
    >)
        ensures
            transfer_asked(Transfer::Recv, fd, 0, buffer, asked),
    {
        transfer_request(Transfer::Recv, fd, 0, buffer)
    }

    /// Asks for a read into several buffers, from the beginning.
    pub fn readv(fd: i32, buffers: Vec<Vec<u8>>) -> (asked: (OpRequest, OpResource))
        ensures
            asked.0 == (OpRequest {
                opcode: OP_READV,
                fd,
                offset: 0,
                length: 0,
                rw_flags: 0,
            }),
            asked.1 == OpResource::Vectored(buffers),
    {
        let request = OpRequest {
            opcode: OP_READV,
            fd,
            offset: 0,
            length: 0,
            rw_flags: 0,
        };
        (request, OpResource::Vectored(buffers))
    }

    /// Asks for a read into several buffers.
    pub fn readv_at(fd: i32, buffers: Vec<Vec<u8>>, offset: u64) -> (asked: (OpRequest, OpResource))
        ensures
            asked.0 == (OpRequest {
                opcode: OP_READV,
                fd,
                offset,
                length: 0,
                rw_flags: 0,
            }),
            asked.1 == OpResource::Vectored(buffers),
    {
        let request = OpRequest {
            opcode: OP_READV,
            fd,
            offset,
            length: 0,
            rw_flags: 0,
        };
        (request, OpResource::Vectored(buffers))
    }

    /// Asks for a write from several buffers, from the beginning.
    pub fn writev(fd: i32, buffers: Vec<Vec<u8>>) -> (asked: (OpRequest, OpResource))
        ensures
            asked.0 == (OpRequest {
                opcode: OP_WRITEV,
                fd,
                offset: 0,
                length: 0,
                rw_flags: 0,
            }),
            asked.1 == OpResource::Vectored(buffers),
    {
        let request = OpRequest {
            opcode: OP_WRITEV,
            fd,
            offset: 0,
            length: 0,
            rw_flags: 0,
        };
        (request, OpResource::Vectored(buffers))
    }

    /// Asks for a write from several buffers.
    pub fn writev_at(fd: i32, buffers: Vec<Vec<u8>>, offset: u64) -> (asked: (OpRequest, OpResource))
        ensures
            asked.0 == (OpRequest {
                opcode: OP_WRITEV,
                fd,
                offset,
                length: 0,
                rw_flags: 0,
            }),
            asked.1 == OpResource::Vectored(buffers),
    {
        let request = OpRequest {
            opcode: OP_WRITEV,
            fd,
            offset,
            length: 0,
            rw_flags: 0,
        };
        (request, OpResource::Vectored(buffers))
    }

    /// Asks to take in a connection. The flags are those of the new socket.
    pub fn accept(fd: i32, socket_flags: u32) -> (asked: (OpRequest, OpResource))
        ensures
            asked.0 == (OpRequest {
                opcode: OP_ACCEPT,
                fd,
                offset: 0,
                length: 0,
                rw_flags: socket_flags,
            }),
            asked.1 == OpResource::Accept,
    {
        let request = OpRequest {
            opcode: OP_ACCEPT,
            fd,
            offset: 0,
            length: 0,
            rw_flags: socket_flags,
        };
        (request, OpResource::Accept)
    }

    /// Asks to make a connection to an address.
    pub fn connect(fd: i32, address: Vec<u8>) -> (asked: (OpRequest, OpResource))
        ensures
            asked.0 == (OpRequest {
                opcode: OP_CONNECT,
                fd,
                offset: 0,
                length: 0,
                rw_flags: 0,
            }),
            asked.1 == OpResource::Address(address),
    {
        let request = OpRequest {
            opcode: OP_CONNECT,
            fd,
            offset: 0,
            length: 0,
            rw_flags: 0,
        };
        (request, OpResource::Address(address))
    }

    /// Asks to close a descriptor.
    pub fn close(fd: i32) -> (asked: (OpRequest, OpResource))
        ensures
            asked.0 == (OpRequest {
                opcode: OP_CLOSE,
                fd,
                offset: 0,
                length: 0,
                rw_flags: 0,
            }),
            asked.1 == OpResource::Close,
    {
        let request = OpRequest {
            opcode: OP_CLOSE,
            fd,
            offset: 0,
            length: 0,
            rw_flags: 0,
        };
        (request, OpResource::Close)
    }

    /// Asks to be told when a time has passed.
    pub fn timeout(time: Vec<u8>) -> (asked: (OpRequest, OpResource))
        ensures
            asked.0 == (OpRequest {
                opcode: OP_TIMEOUT,
                fd: (-1) as i32,
                offset: 0,
                length: 1,
                rw_flags: 0,
            }),
            asked.1 == OpResource::Buffer(time),
    {
        let request = OpRequest {
            opcode: OP_TIMEOUT,
            fd: -1,
            offset: 0,
            length: 1,
            rw_flags: 0,
        };
        (request, OpResource::Buffer(time))
    }
}

/// The time of a timeout, as the kernel takes it: seconds, as far as they fit, and
/// nanoseconds.
pub fn timeout_spec(seconds: u64, nanos: u32) -> (spec_parts: (u64, i64))
    ensures
        spec_parts.0 == (if seconds < i64::MAX {
            seconds as int
        } else {
            i64::MAX as int
        }),
        spec_parts.1 == nanos,
{
    let most: u64 = 9223372036854775807;
    if seconds < most {
        (seconds, nanos as i64)
    } else {
        (most, nanos as i64)
    }
}

/// The outcome of a timeout. That the time has passed, which the kernel says with the
/// error code `expired`, is a success.
pub fn timeout_result(result: Result<usize, i32>, expired: i32) -> (outcome: Result<(), i32>)
    ensures
        outcome == (match result {
            Ok(_) => Ok(()),
            Err(code) => if code == expired {
                Ok(())
            } else {
                Err(code)
            },
        }),
{
    match result {
        Ok(_) => Ok(()),
        Err(code) => if code == expired {
            Ok(())
        } else {
            Err(code)
        },
    }
}

// ---------------------------------------------------------------------------
// Registered buffers and files
// ---------------------------------------------------------------------------

/// Why buffers cannot be registered, if they cannot.
pub open spec fn register_buffers_error(buffers: Seq<Vec<u8>>) -> Option<Seq<char>> {
    if buffers.len() == 0 {
        Some("eddy: at least one io_uring buffer is required"@)
    } else if buffers.len() > u32::MAX {
        Some("eddy: too many io_uring registered buffers"@)
    } else if exists|i: int| 0 <= i < buffers.len() && (#[trigger] buffers[i])@.len() > u32::MAX {
        Some("eddy: registered io_uring buffer is too large"@)
    } else {
        None
    }
}

/// Why files cannot be registered, if they cannot.
pub open spec fn register_files_error(count: usize) -> Option<Seq<char>> {
    if count == 0 {
        Some("eddy: at least one io_uring file is required"@)
    } else if count > u32::MAX {
        Some("eddy: too many io_uring registered files"@)
    } else {
        None
    }
}

/// Buffers that the kernel knows. An operation on one of them takes the whole set, and
/// gives it back when it has completed.
#[derive(Debug)]
pub struct RegisteredBuffers {
    pub registration: u64,
    pub buffers: Vec<Vec<u8>>,
}

impl RegisteredBuffers {
    /// How many buffers there are.
    pub fn len(&self) -> (count: usize)
        ensures
            count == self.buffers@.len(),
    {
        self.buffers.len()
    }

    /// Whether there are none.
    pub fn is_empty(&self) -> (result: bool)
        ensures
            result == (self.buffers@.len() == 0),
    {
        self.buffers.len() == 0
    }

    /// The bytes of a buffer.
    pub fn get(&self, index: usize) -> (bytes: Option<&[u8]>)
        ensures
            match bytes {
                Some(bytes) => index < self.buffers@.len() && bytes@ == self.buffers@[index as int]@,
                None => index >= self.buffers@.len(),
            },
    {
        if index < self.buffers.len() {
            Some(self.buffers[index].as_slice())
        } else {
            None
        }
    }

    /// The bytes of a buffer, to be changed.
    pub fn get_mut(&mut self, index: usize) -> (bytes: Option<&mut [u8]>)
        ensures
            match bytes {
                Some(bytes) => {
                    &&& index < old(self).buffers@.len()
                    &&& bytes@ == old(self).buffers@[index as int]@
                    &&& final(self).registration == old(self).registration
                    &&& final(self).buffers@.len() == old(self).buffers@.len()
                    &&& final(self).buffers@[index as int]@ == final(bytes)@
                    &&& forall|i: int|
                        0 <= i < old(self).buffers@.len() && i != index ==> (
                        #[trigger] final(self).buffers@[i]) == old(self).buffers@[i]
                },
                None => index >= old(self).buffers@.len() && *final(self) == *old(self),
            },
    {
        if index < self.buffers.len() {
            Some(self.buffers[index].as_mut_slice())
        } else {
            None
        }
    }

    /// Why an operation on one of the buffers is refused, if it is.
    pub open spec fn fixed_error(self, index: usize, length: usize) -> Option<Seq<char>> {
        if index >= self.buffers@.len() {
            Some("eddy: fixed-buffer index is out of range"@)
        } else if index > u16::MAX {
            Some("eddy: fixed-buffer index exceeds the io_uring ABI"@)
        } else if length > self.buffers@[index as int]@.len() || length > u32::MAX {
            Some("eddy: fixed-buffer operation exceeds the registered buffer"@)
        } else {
            None
        }
    }

    /// Whether that is what an operation on one of the buffers asks for, and what it owns:
    /// the set. Where it is refused, the set is given back.
    pub open spec fn fixed_outcome(
        self,
        opcode: u8,
        fd: i32,
        index: usize,
        length: usize,
        request: Result<(OpRequest, OpResource), (IoError, RegisteredBuffers)>,
    ) -> bool {
        match request {
            Ok((request, resource)) => {
                &&& self.fixed_error(index, length) is None
                &&& request == (OpRequest {
                    opcode,
                    fd,
                    offset: 0,
                    length: length as u32,
                    rw_flags: 0,
                })
                &&& resource == (OpResource::FixedBuffer {
                    registered: self,
                    index: index as u16,
                    length: length as u32,
                })
            },
            Err((error, back)) => {
                &&& self.fixed_error(index, length) == Some(error.message@)
                &&& error.kind == ErrorKind::InvalidInput
                &&& back == self
            },
        }
    }

    /// Asks for a read into one of the buffers.
    pub fn read_fixed(self, fd: i32, index: usize, length: usize) -> (request: Result<
        (OpRequest, OpResource),
        (IoError, RegisteredBuffers),
    >)
        ensures
            self.fixed_outcome(OP_READ, fd, index, length, request),
    {
        self.fixed_request(OP_READ, fd, index, length)
    }

    /// Asks for a write from one of the buffers.
    pub fn write_fixed(self, fd: i32, index: usize, length: usize) -> (request: Result<
        (OpRequest, OpResource),
        (IoError, RegisteredBuffers),
    >)
        ensures
            self.fixed_outcome(OP_WRITE, fd, index, length, request),
    {
        self.fixed_request(OP_WRITE, fd, index, length)
    }

    fn fixed_request(self, opcode: u8, fd: i32, index: usize, length: usize) -> (request: Result<
        (OpRequest, OpResource),
        (IoError, RegisteredBuffers),
    >)
        ensures
            self.fixed_outcome(opcode, fd, index, length, request),
    {
        if index >= self.buffers.len() {
            return Err(
                (
                    IoError {
                        kind: ErrorKind::InvalidInput,
                        message: "eddy: fixed-buffer index is out of range",
                    },
                    self,
                ),
            );
        }
        if index > 65535 {
            return Err(
                (
                    IoError {
                        kind: ErrorKind::InvalidInput,
                        message: "eddy: fixed-buffer index exceeds the io_uring ABI",
                    },
                    self,
                ),
            );
        }
        if length > self.buffers[index].len() || length as u64 > 4294967295 {
            return Err(
                (
                    IoError {
                        kind: ErrorKind::InvalidInput,
                        message: "eddy: fixed-buffer operation exceeds the registered buffer",
                    },
                    self,
                ),
            );
        }
        let request = OpRequest { opcode, fd, offset: 0, length: length as u32, rw_flags: 0 };
        let resource = OpResource::FixedBuffer {
            registered: self,
            index: index as u16,
            length: length as u32,
        };
        Ok((request, resource))
    }
}

impl IoUring {
    /// Checks that buffers can be registered.
    pub fn register_buffers(registration: u64, buffers: Vec<Vec<u8>>) -> (result: Result<
        RegisteredBuffers,
        IoError,
    >)
        ensures
            match result {
                Ok(registered) => register_buffers_error(buffers@) is None && registered == (
                RegisteredBuffers { registration, buffers }),
                Err(error) => register_buffers_error(buffers@) == Some(error.message@)
                    && error.kind == ErrorKind::InvalidInput,
            },
    {
        if buffers.len() == 0 {
            return Err(
                IoError {
                    kind: ErrorKind::InvalidInput,
                    message: "eddy: at least one io_uring buffer is required",
                },
            );
        }
        if buffers.len() as u64 > 4294967295 {
            return Err(
                IoError {
                    kind: ErrorKind::InvalidInput,
                    message: "eddy: too many io_uring registered buffers",
                },
            );
        }
        let mut i: usize = 0;
        while i < buffers.len()
            invariant
                i <= buffers@.len(),
                0 < buffers@.len() <= u32::MAX,
                forall|k: int| 0 <= k < i ==> (#[trigger] buffers@[k])@.len() <= u32::MAX,
            decreases buffers@.len() - i,
        {
            if buffers[i].len() as u64 > 4294967295 {
                assert(buffers@[i as int]@.len() > u32::MAX);
                return Err(
                    IoError {
                        kind: ErrorKind::InvalidInput,
                        message: "eddy: registered io_uring buffer is too large",
                    },
                );
            }
            i = i + 1;
        }
        Ok(RegisteredBuffers { registration, buffers })
    }

    /// Checks that files can be registered. Returns how many the kernel is told of.
    pub fn register_files(count: usize) -> (result: Result<u32, IoError>)
        ensures
            match result {
                Ok(told) => register_files_error(count) is None && told == count,
                Err(error) => register_files_error(count) == Some(error.message@) && error.kind
                    == ErrorKind::InvalidInput,
            },
    {
        if count == 0 {
            return Err(
                IoError {
                    kind: ErrorKind::InvalidInput,
                    message: "eddy: at least one io_uring file is required",
                },
            );
        }
        length_u32(count, "eddy: too many io_uring registered files")
    }
}

/// Files that the kernel knows. An operation on one of them takes the whole set, and
/// gives it back when it has completed.
#[derive(Debug)]
pub struct RegisteredFiles {
    pub registration: u64,
    pub files: Vec<i32>,
}

impl RegisteredFiles {
    /// How many files there are.
    pub fn len(&self) -> (count: usize)
        ensures
            count == self.files@.len(),
    {
        self.files.len()
    }

    /// Whether there are none.
    pub fn is_empty(&self) -> (result: bool)
        ensures
            result == (self.files@.len() == 0),
    {
        self.files.len() == 0
    }

    /// The descriptor of a file.
    pub fn as_raw_fd(&self, index: usize) -> (fd: Option<i32>)
        ensures
            fd == (if index < self.files@.len() {
                Some(self.files@[index as int])
            } else {
                None
            }),
    {
        if index < self.files.len() {
            Some(self.files[index])
        } else {
            None
        }
    }

    /// Why an operation on one of the files is refused, if it is.
    pub open spec fn fixed_error(self, index: usize) -> Option<Seq<char>> {
        if index >= self.files@.len() {
            Some("eddy: fixed-file index is out of range"@)
        } else if index > i32::MAX {
            Some("eddy: fixed-file index exceeds the io_uring ABI"@)
        } else {
            None
        }
    }

    /// Whether that is what an operation on one of the files asks for, and what it owns:
    /// the buffer and the set. Where it is refused, both are given back.
    pub open spec fn fixed_outcome(
        self,
        opcode: u8,
        index: usize,
        buffer: Vec<u8>,
        request: Result<(OpRequest, OpResource), (IoError, Vec<u8>, RegisteredFiles)>,
    ) -> bool {
        match request {
            Ok((request, resource)) => {
                &&& self.fixed_error(index) is None
                &&& request == (OpRequest {
                    opcode,
                    fd: (-1) as i32,
                    offset: 0,
                    length: 0,
                    rw_flags: 0,
                })
                &&& resource == (OpResource::FixedFileBuffer {
                    registered: self,
                    index: index as u32,
                    buffer,
                })
            },
            Err((error, back, set)) => {
                &&& self.fixed_error(index) == Some(error.message@)
                &&& error.kind == ErrorKind::InvalidInput
                &&& back == buffer
                &&& set == self
            },
        }
    }

    /// Asks for a read from one of the files.
    pub fn read_fixed(self, index: usize, buffer: Vec<u8>) -> (request: Result<
        (OpRequest, OpResource),
        (IoError, Vec<u8>, RegisteredFiles),
    >)
        ensures
            self.fixed_outcome(OP_READ, index, buffer, request),
    {
        self.fixed_request(OP_READ, index, buffer)
    }

    /// Asks for a write to one of the files.
    pub fn write_fixed(self, index: usize, buffer: Vec<u8>) -> (request: Result<
        (OpRequest, OpResource),
        (IoError, Vec<u8>, RegisteredFiles),
    >)
        ensures
            self.fixed_outcome(OP_WRITE, index, buffer, request),
    {
        self.fixed_request(OP_WRITE, index, buffer)
    }

    fn fixed_request(self, opcode: u8, index: usize, buffer: Vec<u8>) -> (request: Result<
        (OpRequest, OpResource),
        (IoError, Vec<u8>, RegisteredFiles),
    >)
        ensures
            self.fixed_outcome(opcode, index, buffer, request),
    {
        if index >= self.files.len() {
            return Err(
                (
                    IoError {
                        kind: ErrorKind::InvalidInput,
                        message: "eddy: fixed-file index is out of range",
                    },
                    buffer,
                    self,
                ),
            );
        }
        if index > 2147483647 {
            return Err(
                (
                    IoError {
                        kind: ErrorKind::InvalidInput,
                        message: "eddy: fixed-file index exceeds the io_uring ABI",
                    },
                    buffer,
                    self,
                ),
            );
        }
        let request = OpRequest { opcode, fd: -1, offset: 0, length: 0, rw_flags: 0 };
        let resource = OpResource::FixedFileBuffer {
            registered: self,
            index: index as u32,
            buffer,
        };
        Ok((request, resource))
    }
}

} // verus!
