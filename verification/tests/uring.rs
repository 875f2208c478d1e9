//! The book-keeping of completion rings, with a stand-in for the kernel.

use eddy::io::uring::{
    completion_slots, queue_slot, ring_mappings, timeout_result, timeout_spec, Cqe, IoUring,
    IoUringBuilder, OpFuture, OpPoll, OpRequest, OpResource, OrphanAction, QueueSlot, Queued,
    RegisteredFiles, RingLayout, SetupRequest, Sqe, SubmissionCursors, SubmitPlan, OP_ACCEPT,
    OP_ASYNC_CANCEL, OP_CLOSE, OP_CONNECT, OP_READ, OP_READV, OP_RECV, OP_SEND, OP_TIMEOUT,
    OP_WRITE, OP_WRITEV,
};
use eddy::io::{ErrorKind, IoError, SystemError};

const EXPIRED: i32 = 62;

/// Takes submissions and answers them in order.
struct Kernel {
    cursors: SubmissionCursors,
    queued: Vec<Sqe>,
}

impl Kernel {
    fn new(entries: u32) -> Kernel {
        Kernel {
            cursors: SubmissionCursors {
                tail: u32::MAX - 3,
                head: u32::MAX - 3,
                mask: entries - 1,
                entries,
            },
            queued: Vec::new(),
        }
    }

    fn publish(&mut self, queued: Queued) {
        assert!(queued.slot.index < self.cursors.entries);
        self.cursors.tail = queued.slot.tail;
        self.queued.push(queued.sqe);
    }

    /// Takes up everything that is queued.
    fn enter(&mut self, ring: &mut IoUring) -> Vec<Sqe> {
        if let SubmitPlan::Enter(count) = ring.submit_plan(false, false) {
            assert_eq!(count as usize, self.queued.len());
            assert_eq!(ring.submitted(false, count), count as usize);
        }
        self.cursors.head = self.cursors.tail;
        std::mem::take(&mut self.queued)
    }

    fn start(
        &mut self,
        ring: &mut IoUring,
        request: OpRequest,
        resource: OpResource,
        waker: u64,
    ) -> OpFuture {
        let mut future = OpFuture::new();
        assert!(matches!(future.poll(ring, waker), OpPoll::NotStarted));
        let queued = future
            .start(ring, request, resource, waker, self.cursors)
            .unwrap();
        self.publish(queued);
        assert!(matches!(future.poll(ring, waker), OpPoll::Pending));
        future
    }
}

fn read(len: usize) -> (OpRequest, OpResource) {
    IoUring::read(3, vec![0; len]).unwrap()
}

fn ready(future: &mut OpFuture, ring: &mut IoUring) -> (Result<usize, i32>, OpResource) {
    match future.poll(ring, 0) {
        OpPoll::Ready(result, resource) => (result, resource),
        other => panic!("not ready: {other:?}"),
    }
}

#[test]
fn capability_probe_has_a_readiness_fallback() {
    let refused = IoUring::builder(0).build().unwrap_err();
    assert!(matches!(
        IoUring::new_or_fallback::<()>(Err((None, refused))),
        Err(error) if error.kind == ErrorKind::InvalidInput
    ));
    let missing = IoError {
        kind: ErrorKind::Other,
        message: "no rings",
    };
    for outcome in [
        Ok(()),
        Err((Some(SystemError::NotImplemented), missing)),
        Err((Some(SystemError::NotPermitted), missing)),
        Err((Some(SystemError::AccessDenied), missing)),
        Err((Some(SystemError::NoDevice), missing)),
    ] {
        let found = IoUring::probe(outcome).unwrap();
        assert_eq!(found, outcome.is_ok());
        assert_eq!(found, IoUring::new_or_fallback(outcome).unwrap().is_some());
        assert_eq!(IoUring::is_supported(&IoUring::probe(outcome)), found);
    }
    assert_eq!(
        IoUring::probe::<()>(Err((Some(SystemError::Other(5)), missing))),
        Err(missing)
    );
    assert!(!IoUring::is_supported(&Err(missing)));
}

#[test]
fn multishot_operations_report_explicit_unsupported() {
    let accept_error = IoUring::accept_multishot().unwrap_err();
    assert_eq!(accept_error.kind, ErrorKind::Unsupported);
    let recv_error = IoUring::recv_multishot().unwrap_err();
    assert_eq!(recv_error.kind, ErrorKind::Unsupported);
}

#[test]
fn sqpoll_is_explicit_and_uses_the_kernel_wakeup_path() {
    let request = IoUringBuilder::new(8).sqpoll(true).build().unwrap();
    assert!(IoUring::is_sqpoll(request.flags));
    let mut ring = IoUring::new();
    assert_eq!(ring.submit_plan(true, true), SubmitPlan::Nothing);
    let mut kernel = Kernel::new(8);
    let (request, resource) = read(6);
    let mut future = kernel.start(&mut ring, request, resource, 1);
    assert_eq!(ring.submit_plan(true, true), SubmitPlan::Wake);
    assert_eq!(ring.submit_plan(true, false), SubmitPlan::Published);
    assert_eq!(ring.submitted(true, 0), 1);
    let sqe = kernel.queued.remove(0);
    ring.complete(Cqe {
        user_data: sqe.user_data,
        res: 6,
    });
    assert_eq!(ready(&mut future, &mut ring).0, Ok(6));
}

#[test]
fn polling_threads_are_never_dropped_silently() {
    let refused = |builder: IoUringBuilder| builder.build().unwrap_err();
    assert_eq!(
        refused(IoUringBuilder::new(8).sq_thread_cpu(1)).message,
        "eddy: SQPOLL CPU and idle settings require SQPOLL"
    );
    assert_eq!(
        refused(
            IoUringBuilder::new(8)
                .sqpoll(true)
                .sq_thread_idle(4_294_967_296_000_000)
        )
        .message,
        "eddy: SQPOLL idle duration exceeds the kernel ABI"
    );
    assert_eq!(
        IoUringBuilder::new(8)
            .sqpoll(true)
            .sq_thread_cpu(2)
            .sq_thread_idle(1_999_999)
            .build(),
        Ok(SetupRequest {
            entries: 8,
            flags: 2,
            sq_thread_cpu: 2,
            sq_thread_idle: 1,
        })
    );
}

#[test]
fn mappings_cover_the_queues() {
    let mut layout = RingLayout {
        sq_entries: 8,
        cq_entries: 16,
        sq_array: 100,
        cq_cqes: 200,
        features: 0,
    };
    let mappings = ring_mappings(layout);
    assert_eq!(mappings.sq, 132);
    assert_eq!(mappings.cq, Some(456));
    assert_eq!(mappings.sqes, 512);
    layout.features = 1;
    let mappings = ring_mappings(layout);
    assert_eq!(mappings.sq, 456);
    assert_eq!(mappings.cq, None);
}

#[test]
fn cursors_wrap_around() {
    let cursors = SubmissionCursors {
        tail: u32::MAX,
        head: u32::MAX - 1,
        mask: 3,
        entries: 4,
    };
    assert_eq!(queue_slot(cursors), Ok(QueueSlot { index: 3, tail: 0 }));
    let full = SubmissionCursors { tail: 2, ..cursors };
    assert_eq!(queue_slot(full).unwrap_err().kind, ErrorKind::WouldBlock);
    assert_eq!(completion_slots(u32::MAX, 2, 3), vec![3, 0, 1]);
    assert!(completion_slots(7, 7, 3).is_empty());
}

#[test]
fn owned_read_keeps_the_buffer_until_the_cqe() {
    let mut ring = IoUring::new();
    let mut kernel = Kernel::new(8);
    let (request, resource) = IoUring::read_at(3, b"io_uring".to_vec(), 0).unwrap();
    let mut future = kernel.start(&mut ring, request, resource, 7);
    let sqe = kernel.enter(&mut ring).remove(0);
    assert_eq!((sqe.opcode, sqe.fd, sqe.len), (OP_READ, 3, 8));
    assert!(matches!(future.poll(&mut ring, 8), OpPoll::Pending));
    let (woken, closes) = ring.complete(Cqe {
        user_data: sqe.user_data,
        res: 8,
    });
    assert_eq!((woken, closes), (Some(8), None));
    let (result, resource) = ready(&mut future, &mut ring);
    assert_eq!(result.unwrap(), 8);
    assert!(matches!(resource, OpResource::Buffer(buffer) if buffer == b"io_uring"));
}

#[test]
fn owned_write_returns_the_buffer_and_writes_at_an_offset() {
    let mut ring = IoUring::new();
    let mut kernel = Kernel::new(8);
    assert_eq!(IoUring::write(4, vec![1]).unwrap().0.offset, 0);
    let (request, resource) = IoUring::write_at(4, b"uring".to_vec(), 2).unwrap();
    let mut future = kernel.start(&mut ring, request, resource, 1);
    let sqe = kernel.enter(&mut ring).remove(0);
    assert_eq!((sqe.opcode, sqe.offset, sqe.len), (OP_WRITE, 2, 5));
    ring.complete(Cqe {
        user_data: sqe.user_data,
        res: 5,
    });
    let (result, resource) = ready(&mut future, &mut ring);
    assert_eq!(result.unwrap(), 5);
    assert!(matches!(resource, OpResource::Buffer(buffer) if buffer == b"uring"));
}

#[test]
fn owned_vectored_read_and_write_retain_all_vectors_until_the_cqe() {
    let mut ring = IoUring::new();
    let mut kernel = Kernel::new(8);
    let vectors = vec![b"vector ".to_vec(), b"write".to_vec()];
    let (request, resource) = IoUring::readv(3, vectors.clone());
    assert_eq!((request.opcode, request.offset), (OP_READV, 0));
    assert_eq!(IoUring::readv_at(3, vec![], 7).0.offset, 7);
    let (written, _) = IoUring::writev_at(3, vec![], 7);
    assert_eq!((written.opcode, written.offset), (OP_WRITEV, 7));
    assert_eq!(IoUring::writev(3, vec![]).0.offset, 0);
    let mut future = kernel.start(&mut ring, request, resource, 1);
    let sqe = kernel.enter(&mut ring).remove(0);
    assert_eq!(sqe.len, 2);
    ring.complete(Cqe {
        user_data: sqe.user_data,
        res: 12,
    });
    let (result, resource) = ready(&mut future, &mut ring);
    assert_eq!(result.unwrap(), 12);
    assert!(matches!(resource, OpResource::Vectored(buffers) if buffers == vectors));
}

#[test]
fn registered_buffers_are_returned_after_fixed_io() {
    let mut buffers = IoUring::register_buffers(5, vec![b"fixed IO".to_vec()]).unwrap();
    buffers.get_mut(0).unwrap()[6..].copy_from_slice(b"io");
    assert!(buffers.get_mut(1).is_none());
    assert_eq!(buffers.len(), 1);
    assert!(!buffers.is_empty());
    let (request, resource) = buffers.read_fixed(3, 0, 8).unwrap();
    let mut ring = IoUring::new();
    let mut kernel = Kernel::new(8);
    let mut future = kernel.start(&mut ring, request, resource, 1);
    let sqe = kernel.enter(&mut ring).remove(0);
    assert_eq!((sqe.len, sqe.buf_index), (8, 0));
    ring.complete(Cqe {
        user_data: sqe.user_data,
        res: 8,
    });
    let (result, resource) = ready(&mut future, &mut ring);
    assert_eq!(result.unwrap(), 8);
    let buffers = match resource {
        OpResource::FixedBuffer {
            registered,
            index: 0,
            length: 8,
        } => registered,
        other => panic!("unexpected resource: {other:?}"),
    };
    assert_eq!(buffers.registration, 5);
    assert_eq!(buffers.get(0).unwrap(), b"fixed io");
    assert!(buffers.get(1).is_none());
    let (request, _) = buffers.write_fixed(3, 0, 5).unwrap();
    assert_eq!(request.length, 5);
}

#[test]
fn registered_files_keep_file_ownership_until_fixed_io_completes() {
    assert_eq!(IoUring::register_files(1), Ok(1));
    let files = RegisteredFiles {
        registration: 6,
        files: vec![11],
    };
    assert_eq!(files.as_raw_fd(0), Some(11));
    assert_eq!(files.as_raw_fd(1), None);
    let (request, resource) = files
        .read_fixed(0, b"fixed file".to_vec())
        .unwrap();
    let mut ring = IoUring::new();
    let mut kernel = Kernel::new(8);
    let mut future = kernel.start(&mut ring, request, resource, 1);
    let sqe = kernel.enter(&mut ring).remove(0);
    assert!(sqe.fixed_file);
    assert_eq!((sqe.fd, sqe.len), (0, 10));
    ring.complete(Cqe {
        user_data: sqe.user_data,
        res: 10,
    });
    let (result, resource) = ready(&mut future, &mut ring);
    assert_eq!(result.unwrap(), 10);
    match resource {
        OpResource::FixedFileBuffer {
            registered,
            index,
            buffer,
        } => {
            assert_eq!((registered.registration, index), (6, 0));
            assert_eq!(registered.as_raw_fd(0), Some(11));
            assert_eq!(registered.len(), 1);
            assert_eq!(buffer, b"fixed file");
        }
        other => panic!("unexpected resource: {other:?}"),
    }
}

#[test]
fn fixed_operations_stay_within_what_is_registered() {
    assert_eq!(
        IoUring::register_buffers(1, vec![]).unwrap_err().message,
        "eddy: at least one io_uring buffer is required"
    );
    assert_eq!(
        IoUring::register_files(0).unwrap_err().message,
        "eddy: at least one io_uring file is required"
    );
    let buffers = IoUring::register_buffers(1, vec![vec![0; 4]]).unwrap();
    let (error, buffers) = buffers.read_fixed(3, 1, 4).err().unwrap();
    assert_eq!(error.message, "eddy: fixed-buffer index is out of range");
    let (error, buffers) = buffers.write_fixed(3, 0, 5).err().unwrap();
    assert_eq!(
        error.message,
        "eddy: fixed-buffer operation exceeds the registered buffer"
    );
    assert_eq!(buffers.get(0).unwrap(), &[0; 4]);
    let files = RegisteredFiles {
        registration: 1,
        files: vec![],
    };
    assert!(files.is_empty());
    let (error, buffer, files) = files.read_fixed(0, vec![9]).err().unwrap();
    assert_eq!(error.kind, ErrorKind::InvalidInput);
    assert_eq!(buffer, vec![9]);
    assert_eq!(files.registration, 1);
}

#[test]
fn a_registered_set_that_is_in_flight_comes_back_past_other_completions() {
    let buffers = IoUring::register_buffers(2, vec![vec![1, 2], vec![3]]).unwrap();
    let (request, resource) = buffers.read_fixed(3, 1, 1).unwrap();
    let mut ring = IoUring::new();
    let mut kernel = Kernel::new(8);
    let mut fixed = kernel.start(&mut ring, request, resource, 1);
    let (request, resource) = read(1);
    let mut other = kernel.start(&mut ring, request, resource, 2);
    let sqes = kernel.enter(&mut ring);
    ring.complete(Cqe {
        user_data: sqes[1].user_data,
        res: 1,
    });
    ready(&mut other, &mut ring);
    ring.complete(Cqe {
        user_data: sqes[0].user_data,
        res: -5,
    });
    let (result, resource) = ready(&mut fixed, &mut ring);
    assert_eq!(result, Err(5));
    match resource {
        OpResource::FixedBuffer {
            registered, index, ..
        } => {
            assert_eq!(index, 1);
            assert_eq!(registered.get(0).unwrap(), &[1, 2]);
            assert_eq!(registered.get(1).unwrap(), &[3]);
        }
        other => panic!("unexpected resource: {other:?}"),
    }
}

#[test]
fn timeout_reports_expiration_as_success() {
    let mut ring = IoUring::new();
    let mut kernel = Kernel::new(8);
    assert_eq!(timeout_spec(0, 1_000_000), (0, 1_000_000));
    assert_eq!(timeout_spec(u64::MAX, 0), (i64::MAX as u64, 0));
    let (request, resource) = IoUring::timeout(vec![0; 16]);
    let mut timeout = kernel.start(&mut ring, request, resource, 1);
    let sqe = kernel.enter(&mut ring).remove(0);
    assert_eq!((sqe.opcode, sqe.fd, sqe.len), (OP_TIMEOUT, -1, 1));
    ring.complete(Cqe {
        user_data: sqe.user_data,
        res: -EXPIRED,
    });
    let (result, _) = ready(&mut timeout, &mut ring);
    assert_eq!(result, Err(EXPIRED));
    assert_eq!(timeout_result(result, EXPIRED), Ok(()));
    assert_eq!(timeout_result(Err(5), EXPIRED), Err(5));
    assert_eq!(timeout_result(Ok(0), EXPIRED), Ok(()));
}

#[test]
fn dropping_a_read_orphans_it_until_the_cqe() {
    let mut ring = IoUring::new();
    let mut kernel = Kernel::new(8);
    let (request, resource) = read(1);
    let mut future = kernel.start(&mut ring, request, resource, 1);
    let sqe = kernel.enter(&mut ring).remove(0);
    assert_eq!(
        future.abandon(&mut ring),
        OrphanAction::Cancel(sqe.user_data)
    );
    assert_eq!(ring.targets(), vec![sqe.user_data]);
    let cancel = ring.cancel(sqe.user_data, kernel.cursors).unwrap();
    assert_eq!(cancel.sqe.opcode, OP_ASYNC_CANCEL);
    assert_eq!(cancel.sqe.target, Some(sqe.user_data));
    kernel.publish(cancel);
    kernel.enter(&mut ring);

    // The answer to the cancellation releases nothing.
    ring.complete(Cqe {
        user_data: cancel.sqe.user_data,
        res: 0,
    });
    assert_eq!(ring.targets(), vec![sqe.user_data]);
    assert!(!ring.discard_completed());
    let (woken, closes) = ring.complete(Cqe {
        user_data: sqe.user_data,
        res: -125,
    });
    assert_eq!((woken, closes), (None, None));
    assert!(ring.targets().is_empty());
    assert!(ring.discard_completed());
}

#[test]
fn an_orphaned_accept_is_closed() {
    let mut ring = IoUring::new();
    let mut kernel = Kernel::new(8);
    let (request, _) = IoUring::accept(3, 0);
    let mut early = kernel.start(&mut ring, request, OpResource::Accept, 1);
    let mut late = kernel.start(&mut ring, request, OpResource::Accept, 2);
    let sqes = kernel.enter(&mut ring);
    early.abandon(&mut ring);
    let cqes = vec![
        Cqe {
            user_data: sqes[0].user_data,
            res: 20,
        },
        Cqe {
            user_data: sqes[1].user_data,
            res: 21,
        },
    ];
    assert_eq!(ring.reap_completions(&cqes), (vec![2], vec![20]));
    assert_eq!(late.abandon(&mut ring), OrphanAction::Close(21));
    assert_eq!(late.abandon(&mut ring), OrphanAction::Nothing);
}

#[test]
fn a_full_queue_gives_the_resource_back() {
    let mut ring = IoUring::new();
    let mut kernel = Kernel::new(2);
    for _ in 0..2 {
        let (request, resource) = read(1);
        kernel.start(&mut ring, request, resource, 1);
    }
    let (request, resource) = read(3);
    let mut future = OpFuture::new();
    let (error, resource) = future
        .start(&mut ring, request, resource, 1, kernel.cursors)
        .err()
        .unwrap();
    assert_eq!(error.kind, ErrorKind::WouldBlock);
    assert!(matches!(resource, OpResource::Buffer(buffer) if buffer.len() == 3));
    assert!(ring.cancel(1, kernel.cursors).is_none());
    assert_eq!(ring.submit_plan(false, false), SubmitPlan::Enter(2));
}

#[test]
fn a_completion_that_no_one_knows_is_ignored() {
    let mut ring = IoUring::new();
    assert_eq!(
        ring.complete(Cqe {
            user_data: 77,
            res: 1
        }),
        (None, None)
    );
    assert!(ring.discard_completed());
}

#[test]
fn close_and_socket_operations_complete() {
    let mut ring = IoUring::new();
    let mut kernel = Kernel::new(8);
    let address = vec![2, 0, 0, 80, 127, 0, 0, 1];
    let (accept, resource) = IoUring::accept(4, 0x800);
    let mut accepting = kernel.start(&mut ring, accept, resource, 1);
    let (connect, resource) = IoUring::connect(5, address.clone());
    let mut connecting = kernel.start(&mut ring, connect, resource, 2);
    let sqes = kernel.enter(&mut ring);
    assert_eq!((sqes[0].opcode, sqes[0].fd), (OP_ACCEPT, 4));
    assert_eq!((sqes[0].len, sqes[0].rw_flags), (0, 0x800));
    assert_eq!((sqes[1].opcode, sqes[1].fd), (OP_CONNECT, 5));
    assert_eq!((sqes[1].offset, sqes[1].len), (8, 0));
    let cqes: Vec<Cqe> = [(&sqes[0], 6), (&sqes[1], 0)]
        .iter()
        .map(|(sqe, res)| Cqe {
            user_data: sqe.user_data,
            res: *res,
        })
        .collect();
    assert_eq!(ring.reap_completions(&cqes), (vec![1, 2], vec![]));
    assert_eq!(ready(&mut accepting, &mut ring).0, Ok(6));
    let (connected, back) = ready(&mut connecting, &mut ring);
    assert_eq!(connected, Ok(0));
    assert!(matches!(back, OpResource::Address(bytes) if bytes == address));

    let text = b"socket io_uring";
    let mut futures = Vec::new();
    let sent = text.to_vec();
    let room = vec![0; 15];
    for (asked, bytes) in [
        (IoUring::send(5, sent.clone()), sent),
        (IoUring::recv(6, room.clone()), room),
    ] {
        let (request, resource) = asked.unwrap();
        futures.push((kernel.start(&mut ring, request, resource, 1), bytes));
    }
    let (close, resource) = IoUring::close(5);
    let mut closing = kernel.start(&mut ring, close, resource, 2);
    let sqes = kernel.enter(&mut ring);
    assert_eq!((sqes[0].opcode, sqes[1].opcode), (OP_SEND, OP_RECV));
    assert_eq!((sqes[1].fd, sqes[2].opcode), (6, OP_CLOSE));
    let cqes: Vec<Cqe> = sqes
        .iter()
        .map(|sqe| Cqe {
            user_data: sqe.user_data,
            res: sqe.len as i32,
        })
        .collect();
    assert_eq!(ring.reap_completions(&cqes), (vec![1, 1, 2], vec![]));
    for (mut future, bytes) in futures {
        let (result, resource) = ready(&mut future, &mut ring);
        assert_eq!(result, Ok(15));
        assert!(matches!(resource, OpResource::Buffer(buffer) if buffer == bytes));
    }
    assert_eq!(ready(&mut closing, &mut ring).0, Ok(0));
    assert!(ring.discard_completed());
}

#[test]
fn ten_thousand_concurrent_operations_complete() {
    const OPERATIONS: usize = 10_000;
    let mut ring = IoUring::new();
    let mut kernel = Kernel::new(256);
    let mut futures = Vec::new();
    let mut taken = Vec::new();
    while futures.len() < OPERATIONS {
        let (request, resource) = read(1);
        let mut future = OpFuture::new();
        match future.start(&mut ring, request, resource, futures.len() as u64, kernel.cursors) {
            Ok(queued) => {
                kernel.publish(queued);
                futures.push(future);
            }
            Err((error, _)) => {
                assert_eq!(error.kind, ErrorKind::WouldBlock);
                taken.extend(kernel.enter(&mut ring));
            }
        }
    }
    taken.extend(kernel.enter(&mut ring));
    assert_eq!(taken.len(), OPERATIONS);
    for sqe in taken.iter().rev() {
        ring.complete(Cqe {
            user_data: sqe.user_data,
            res: 1,
        });
    }
    for future in &mut futures {
        assert_eq!(ready(future, &mut ring).0, Ok(1));
    }
    assert!(ring.discard_completed());
}
