//! Reading, writing, copying, and waiting for readiness.

use eddy::coop::{budget_guard, unarmed};
use eddy::io::buf::{AsyncBufRead, BufReader, BufStream, BufWriter};
use eddy::io::driver::{
    interest_satisfied, Driver, Event, ParkAction, ParkState, Readiness, Registration, ScheduledIo,
    UnparkAction,
};
use eddy::io::endpoint::{Endpoint, Transport};
use eddy::io::ext::{
    append_utf8, AsyncBufReadExt, AsyncReadExt, AsyncWriteExt, Attempt,
};
use eddy::io::net::{
    connect_step, datagram_shutdown, linger_option, socket_addr_from_storage, socket_addr_parts,
    socket_error, unix_sockaddr, vector_count, AddressAttempts, ConnectStep, Evented, Family,
    IoStep, SocketAddress,
};
use eddy::io::ops::{
    copy, copy_bidirectional, empty, poll_direction, repeat, sink, DirectionState,
};
use eddy::io::poll_evented::PollEvented;
use eddy::io::{AsyncWrite, ErrorKind, Interest, IoError, ReadBuf, Ready, SystemError};
use eddy::poll::Poll;

struct MemoryIo {
    input: Vec<u8>,
    position: usize,
    output: Vec<u8>,
    /// How many bytes a call moves at most.
    step: usize,
    /// Every second call is pending where this is set.
    slow: bool,
    calls: usize,
}

impl MemoryIo {
    fn new(input: &[u8]) -> MemoryIo {
        MemoryIo {
            input: input.to_vec(),
            position: 0,
            output: Vec::new(),
            step: usize::MAX,
            slow: false,
            calls: 0,
        }
    }

    fn slow(input: &[u8], step: usize) -> MemoryIo {
        MemoryIo {
            step,
            slow: true,
            ..MemoryIo::new(input)
        }
    }

    fn waits(&mut self) -> bool {
        self.calls += 1;
        self.slow && self.calls % 2 == 1
    }
}

impl Transport for MemoryIo {
    fn receive(&mut self, room: usize) -> Poll<Result<Vec<u8>, IoError>> {
        if self.waits() {
            return Poll::Pending;
        }
        let amount = (self.input.len() - self.position).min(room).min(self.step);
        let end = self.position + amount;
        let bytes = self.input[self.position..end].to_vec();
        self.position = end;
        Poll::Ready(Ok(bytes))
    }

    fn send(&mut self, data: &[u8]) -> Poll<Result<usize, IoError>> {
        if self.waits() {
            return Poll::Pending;
        }
        let amount = data.len().min(self.step);
        self.output.extend_from_slice(&data[..amount]);
        Poll::Ready(Ok(amount))
    }

    fn flush(&mut self) -> Poll<Result<(), IoError>> {
        Poll::Ready(Ok(()))
    }

    fn shutdown(&mut self) -> Poll<Result<(), IoError>> {
        Poll::Ready(Ok(()))
    }
}

fn memory(input: &[u8]) -> Endpoint<MemoryIo> {
    Endpoint::new(MemoryIo::new(input))
}

fn slow_memory(input: &[u8], step: usize) -> Endpoint<MemoryIo> {
    Endpoint::new(MemoryIo::slow(input, step))
}

/// A writer that takes nothing, and a reader that fails.
struct Broken;

impl Transport for Broken {
    fn receive(&mut self, _room: usize) -> Poll<Result<Vec<u8>, IoError>> {
        Poll::Ready(Err(IoError {
            kind: ErrorKind::Other,
            message: "broken",
        }))
    }

    fn send(&mut self, _data: &[u8]) -> Poll<Result<usize, IoError>> {
        Poll::Ready(Ok(0))
    }

    fn flush(&mut self) -> Poll<Result<(), IoError>> {
        Poll::Ready(Ok(()))
    }

    fn shutdown(&mut self) -> Poll<Result<(), IoError>> {
        Poll::Ready(Ok(()))
    }
}

fn broken() -> Endpoint<Broken> {
    Endpoint::new(Broken)
}

/// A transport that claims more than there is.
struct Boasting;

impl Transport for Boasting {
    fn receive(&mut self, room: usize) -> Poll<Result<Vec<u8>, IoError>> {
        Poll::Ready(Ok(vec![0; room + 1]))
    }

    fn send(&mut self, data: &[u8]) -> Poll<Result<usize, IoError>> {
        Poll::Ready(Ok(data.len() + 1))
    }

    fn flush(&mut self) -> Poll<Result<(), IoError>> {
        Poll::Pending
    }

    fn shutdown(&mut self) -> Poll<Result<(), IoError>> {
        Poll::Pending
    }
}

#[test]
fn a_transport_cannot_claim_more_than_there_is() {
    let mut endpoint = Endpoint::new(Boasting);
    assert_eq!(
        kind(endpoint.read(&mut [0; 4])),
        Some(ErrorKind::InvalidData)
    );
    assert_eq!(kind(endpoint.write(b"abc")), Some(ErrorKind::InvalidData));
    assert!(endpoint.poll_flush().is_pending() && endpoint.poll_shutdown().is_pending());
}

fn kind<T>(poll: Poll<Result<T, IoError>>) -> Option<ErrorKind> {
    match poll {
        Poll::Ready(Err(error)) => Some(error.kind),
        _ => None,
    }
}

#[test]
fn read_buf_tracks_filled_and_initialized_regions() {
    let mut bytes = [0u8; 4];
    let mut buf = ReadBuf::new(&mut bytes);
    assert_eq!(buf.filled_len(), 0);
    assert_eq!(buf.initialized_len(), 4);
    buf.unfilled_mut()[0] = 7;
    buf.advance(1);
    assert_eq!(buf.filled(), &[7]);
    assert_eq!(buf.remaining(), 3);
}

#[test]
fn an_uninitialized_buffer_counts_what_was_written() {
    let mut bytes = [9u8; 4];
    let mut buf = ReadBuf::uninit(&mut bytes);
    assert_eq!(buf.initialized_len(), 0);
    assert_eq!(buf.put(&[1, 2, 3]), 3);
    assert_eq!(buf.initialized(), &[1, 2, 3]);
    assert_eq!(buf.put(&[4, 5]), 1);
    assert_eq!(buf.filled(), &[1, 2, 3, 4]);
    buf.filled_mut()[1] = 8;
    assert_eq!(buf.filled(), &[1, 8, 3, 4]);
    buf.clear();
    assert_eq!(buf.filled_len(), 0);
    assert_eq!(buf.initialized_len(), 4);
}

#[test]
fn copy_bidirectional_moves_both_directions_until_eof() {
    let mut left = memory(b"left");
    let mut right = memory(b"right");
    let mut left_to_right = DirectionState::new();
    let mut right_to_left = DirectionState::new();
    let copied = copy_bidirectional(
        &mut left,
        &mut right,
        &mut left_to_right,
        &mut right_to_left,
    );
    assert_eq!(copied, Attempt::Done((4, 5)));
    assert_eq!(left.get_ref().output, b"right");
    assert_eq!(right.get_ref().output, b"left");
}

#[test]
fn slow_streams_are_copied_piece_by_piece() {
    let text: Vec<u8> = (0..50_000_u32).map(|n| n as u8).collect();
    let mut left = slow_memory(&text, 700);
    let mut right = slow_memory(b"back", 1);
    let mut left_to_right = DirectionState::new();
    let mut right_to_left = DirectionState::new();
    let mut waits = 0;
    let copied = loop {
        match copy_bidirectional(
            &mut left,
            &mut right,
            &mut left_to_right,
            &mut right_to_left,
        ) {
            Attempt::Done(copied) => break copied,
            Attempt::Pending => waits += 1,
            other => panic!("unexpected outcome: {other:?}"),
        }
    };
    assert_eq!(copied, (50_000, 4));
    assert!(waits > 0);
    assert_eq!(right.get_ref().output, text);
    assert_eq!(left.get_ref().output, b"back");
}

#[test]
fn a_failed_direction_ends_the_exchange() {
    let mut left = memory(b"left");
    let mut right = memory(b"right");
    let mut state = DirectionState::new();
    assert_eq!(
        poll_direction(&mut left, &mut right, &mut state),
        Attempt::Done(())
    );
    assert_eq!(state.copied(), 4);
    assert_eq!(right.get_ref().output, b"left");

    let mut left = memory(b"left");
    let mut there = DirectionState::new();
    let mut back = DirectionState::new();
    match copy_bidirectional(&mut left, &mut broken(), &mut there, &mut back) {
        Attempt::Failed(error) => {
            assert_eq!(error.kind, ErrorKind::WriteZero);
            assert_eq!(
                error.message,
                "eddy: copy_bidirectional writer made no progress"
            );
        }
        other => panic!("unexpected outcome: {other:?}"),
    }
    assert!(left.get_ref().output.is_empty());

    let mut there = DirectionState::new();
    let mut back = DirectionState::new();
    match copy_bidirectional(&mut memory(b""), &mut broken(), &mut there, &mut back) {
        Attempt::Failed(error) => assert_eq!(error.message, "broken"),
        other => panic!("unexpected outcome: {other:?}"),
    }
}

#[test]
fn copy_gives_the_number_of_bytes() {
    let text = vec![5u8; 20_000];
    let mut reader = memory(&text);
    let mut writer = slow_memory(&[], 300);
    let mut state = DirectionState::new();
    let count = loop {
        match copy(&mut reader, &mut writer, &mut state) {
            Attempt::Done(count) => break count,
            Attempt::Pending => {}
            other => panic!("unexpected outcome: {other:?}"),
        }
    };
    assert_eq!(count, 20_000);
    assert_eq!(state.copied(), 20_000);
    assert_eq!(writer.get_ref().output, text);
    let mut state = DirectionState::new();
    assert_eq!(
        copy(&mut memory(b"at once"), &mut sink(), &mut state),
        Attempt::Done(7)
    );

    let mut state = DirectionState::new();
    match copy(&mut memory(b"x"), &mut broken(), &mut state) {
        Attempt::Failed(error) => assert_eq!(error.kind, ErrorKind::WriteZero),
        other => panic!("unexpected outcome: {other:?}"),
    }
}

#[test]
fn empty_sink_and_repeat() {
    let mut buf = [1u8; 3];
    assert_eq!(empty().read(&mut buf), Poll::Ready(Ok(0)));
    assert_eq!(repeat(7).read(&mut buf), Poll::Ready(Ok(3)));
    assert_eq!(buf, [7, 7, 7]);
    assert_eq!(sink().write(&buf), Poll::Ready(Ok(3)));
}

#[test]
fn read_exact_fills_the_buffer_or_fails() {
    let mut reader = slow_memory(b"abcdef", 2);
    let mut buf = [0u8; 5];
    let mut filled = 0;
    let mut pending = 0;
    loop {
        match reader.read_exact(&mut buf, &mut filled) {
            Poll::Pending => pending += 1,
            Poll::Ready(result) => {
                result.unwrap();
                break;
            }
        }
    }
    assert_eq!(&buf, b"abcde");
    assert_eq!(pending, 3);

    let mut reader = memory(b"abc");
    let mut filled = 0;
    assert_eq!(
        kind(reader.read_exact(&mut [0u8; 4], &mut filled)),
        Some(ErrorKind::UnexpectedEof)
    );
    assert_eq!(filled, 3);
}

#[test]
fn write_all_writes_everything_or_fails() {
    let mut writer = slow_memory(&[], 2);
    let mut written = 0;
    while writer.write_all(b"abcde", &mut written).is_pending() {}
    assert_eq!(writer.get_ref().output, b"abcde");
    let mut written = 0;
    assert_eq!(
        kind(broken().write_all(b"abc", &mut written)),
        Some(ErrorKind::WriteZero)
    );
}

#[test]
fn vectored_writes_take_the_first_filled_buffer() {
    let mut writer = memory(&[]);
    let bufs = vec![vec![], b"ab".to_vec(), b"cd".to_vec()];
    assert_eq!(writer.write_vectored(&bufs), Poll::Ready(Ok(2)));
    assert_eq!(writer.get_ref().output, b"ab");
    assert_eq!(writer.write_vectored(&vec![vec![]]), Poll::Ready(Ok(0)));
    assert_eq!(writer.get_ref().calls, 1);
    assert!(!writer.is_write_vectored());
    let mut writer = sink();
    assert_eq!(writer.poll_write_vectored(&bufs), Poll::Ready(Ok(2)));
    assert!(!writer.is_write_vectored());
}

/// A transport that writes all buffers at once.
struct Gathering {
    output: Vec<u8>,
    calls: usize,
    claims: usize,
}

impl Transport for Gathering {
    fn receive(&mut self, _room: usize) -> Poll<Result<Vec<u8>, IoError>> {
        Poll::Pending
    }

    fn send(&mut self, _data: &[u8]) -> Poll<Result<usize, IoError>> {
        Poll::Pending
    }

    fn flush(&mut self) -> Poll<Result<(), IoError>> {
        Poll::Ready(Ok(()))
    }

    fn shutdown(&mut self) -> Poll<Result<(), IoError>> {
        Poll::Ready(Ok(()))
    }

    fn send_vectored(&mut self, bufs: &Vec<Vec<u8>>) -> Poll<Result<usize, IoError>> {
        self.calls += 1;
        let bytes = bufs.concat();
        self.output.extend_from_slice(&bytes);
        Poll::Ready(Ok(bytes.len() + self.claims))
    }

    fn is_vectored(&self) -> bool {
        true
    }
}

#[test]
fn a_writer_may_have_its_own_vectored_write() {
    let gathering = |claims| {
        Endpoint::new(Gathering {
            output: Vec::new(),
            calls: 0,
            claims,
        })
    };
    let bufs = vec![vec![], b"ab".to_vec(), b"cd".to_vec()];
    let mut writer = gathering(0);
    assert!(writer.is_write_vectored());
    assert_eq!(writer.write_vectored(&bufs), Poll::Ready(Ok(4)));
    assert_eq!(writer.get_ref().output, b"abcd");
    assert_eq!(writer.write_vectored(&vec![]), Poll::Ready(Ok(0)));
    assert_eq!(writer.get_ref().calls, 1);
    assert_eq!(
        kind(gathering(1).write_vectored(&bufs)),
        Some(ErrorKind::InvalidData)
    );
}

#[test]
fn read_to_end_counts_what_it_adds() {
    let mut reader = slow_memory(&[3u8; 9_000], 1_000);
    let mut output = b"before".to_vec();
    let mut waits = 0;
    let count = loop {
        match reader.read_to_end(6, &mut output) {
            Poll::Ready(result) => break result.unwrap(),
            Poll::Pending => waits += 1,
        }
    };
    assert_eq!(count, 9_000);
    assert_eq!(waits, 10);
    assert_eq!(output.len(), 9_006);
    assert_eq!(output[..8], *b"before\x03\x03");
    assert_eq!(
        broken().read_to_end(0, &mut output),
        Poll::Ready(Err(IoError {
            kind: ErrorKind::Other,
            message: "broken"
        }))
    );
}

#[test]
fn read_to_string_takes_text_only() {
    let mut text = "a".to_string();
    let mut bytes = Vec::new();
    let mut reader = slow_memory("bé".as_bytes(), 2);
    assert!(reader.read_to_string(&mut bytes, &mut text).is_pending());
    assert!(reader.read_to_string(&mut bytes, &mut text).is_pending());
    assert_eq!(bytes, [b'b', 0xc3]);
    assert_eq!(text, "a");
    let count = loop {
        if let Poll::Ready(result) = reader.read_to_string(&mut bytes, &mut text) {
            break result.unwrap();
        }
    };
    assert_eq!((count, text.as_str()), (3, "abé"));
    assert!(bytes.is_empty());
    assert_eq!(
        kind(memory(&[0xc3]).read_to_string(&mut bytes, &mut text)),
        Some(ErrorKind::InvalidData)
    );
    assert_eq!(text, "abé");
}

#[test]
fn lines_end_behind_the_delimiter_or_at_the_end() {
    let mut lines = BufReader::with_capacity(4, memory("erste\nzwei\u{e9}".as_bytes())).lines();
    let mut seen = Vec::new();
    let mut bytes = Vec::new();
    loop {
        match lines.next_line(&mut bytes) {
            Poll::Ready(Ok(Some(line))) => seen.push(line),
            Poll::Ready(Ok(None)) => break,
            other => panic!("unexpected outcome: {other:?}"),
        }
    }
    assert_eq!(seen, vec!["erste\n", "zwei\u{e9}"]);
    let mut lines = BufReader::new(memory(&[0xff, b'\n'])).lines();
    assert_eq!(
        kind(lines.next_line(&mut bytes)),
        Some(ErrorKind::InvalidData)
    );
    assert!(bytes.is_empty());
    assert_eq!(lines.next_line(&mut bytes), Poll::Ready(Ok(None)));
}

#[test]
fn a_search_waits_and_goes_on() {
    let mut reader = BufReader::with_capacity(3, slow_memory(b"one;two", 2));
    let mut output = b"#".to_vec();
    let mut waits = 0;
    let count = loop {
        match reader.read_until(b';', 1, &mut output) {
            Poll::Ready(result) => break result.unwrap(),
            Poll::Pending => waits += 1,
        }
    };
    assert_eq!((count, output.as_slice()), (4, &b"#one;"[..]));
    assert_eq!(waits, 2);

    let mut line = "> ".to_string();
    let mut bytes = Vec::new();
    let mut reader = BufReader::new(memory(b"a\nb"));
    assert_eq!(reader.read_line(&mut bytes, &mut line), Poll::Ready(Ok(2)));
    assert_eq!(line, "> a\n");
    assert_eq!(reader.read_line(&mut bytes, &mut line), Poll::Ready(Ok(1)));
    assert_eq!(reader.read_line(&mut bytes, &mut line), Poll::Ready(Ok(0)));
    assert_eq!(line, "> a\nb");
}

#[test]
fn only_utf8_is_appended() {
    let mut text = "a".to_string();
    append_utf8("bé".as_bytes().to_vec(), &mut text).unwrap();
    assert_eq!(text, "abé");
    assert_eq!(
        append_utf8(vec![0xc3], &mut text).unwrap_err().kind,
        ErrorKind::InvalidData
    );
    assert_eq!(text, "abé");
}

#[test]
fn a_buffered_reader_gives_the_bytes_of_its_source() {
    let text: Vec<u8> = (0..100).collect();
    let mut reader = BufReader::with_capacity(8, memory(&text));
    let mut seen = Vec::new();
    let mut buf = [0u8; 3];
    loop {
        match reader.read(&mut buf) {
            Poll::Ready(Ok(0)) => break,
            Poll::Ready(Ok(count)) => seen.extend_from_slice(&buf[..count]),
            other => panic!("unexpected outcome: {other:?}"),
        }
    }
    assert_eq!(seen, text);

    let mut reader = BufReader::with_capacity(8, memory(b"abcdefghij"));
    match reader.poll_fill_buf() {
        Poll::Ready(Ok(bytes)) => assert_eq!(bytes, b"abcdefgh"),
        _ => panic!("expected bytes"),
    }
    reader.consume(3);
    match reader.poll_fill_buf() {
        Poll::Ready(Ok(bytes)) => assert_eq!(bytes, b"defgh"),
        _ => panic!("expected bytes"),
    }
    assert_eq!(reader.get_ref().get_ref().position, 8);
}

#[test]
fn a_buffered_writer_holds_back_until_it_is_flushed() {
    let mut writer = BufWriter::with_capacity(8, memory(&[]));
    assert_eq!(writer.write(b"abc"), Poll::Ready(Ok(3)));
    assert_eq!(writer.get_ref().get_ref().output, b"");
    assert_eq!(writer.poll_flush(), Poll::Ready(Ok(())));
    assert_eq!(writer.get_ref().get_ref().output, b"abc");
    let mut written = 0;
    while writer
        .write_all(b"defghijklmnop", &mut written)
        .is_pending()
    {}
    assert_eq!(writer.shutdown(), Poll::Ready(Ok(())));
    assert_eq!(writer.into_inner().into_inner().output, b"abcdefghijklmnop");
}

#[test]
fn a_buffered_stream_reads_and_writes() {
    let mut stream = BufStream::with_capacity(4, memory(b"question"));
    let mut buf = [0u8; 8];
    let mut filled = 0;
    assert_eq!(
        stream.read_exact(&mut buf, &mut filled),
        Poll::Ready(Ok(()))
    );
    assert_eq!(&buf, b"question");
    let mut written = 0;
    while stream.write_all(b"answer", &mut written).is_pending() {}
    assert_eq!(stream.flush(), Poll::Ready(Ok(())));
    assert_eq!(stream.into_inner().into_inner().output, b"answer");
}

#[test]
fn clear_ready_does_not_consume_a_freshly_reported_event() {
    let mut scheduled = ScheduledIo::new(7);
    scheduled.set_readiness_and_wake(Ready::readable());
    let event = scheduled
        .readiness(Interest::readable())
        .expect("readiness reported");
    assert_eq!(event.ready(), Ready::readable());
    scheduled.set_readiness_and_wake(Ready::writable());
    event.clear_ready(&mut scheduled);
    let now = scheduled.readiness(Interest::writable());
    assert_eq!(
        now.map(|event| event.ready()),
        Some(Ready::readable().union(Ready::writable()))
    );
    let stale = scheduled.readiness(Interest::readable()).unwrap();
    stale.clear_ready(&mut scheduled);
    assert!(scheduled.readiness(Interest::writable()).is_none());
    assert!(scheduled.readiness(Interest::readable()).is_none());
}

#[test]
fn interests_and_readiness_are_sets() {
    let both = Interest::readable().add(Interest::writable());
    assert!(both.is_readable() && both.is_writable() && !both.is_edge_triggered());
    assert!(Interest::edge_triggered().is_edge_triggered());
    let ready = Ready::readable().union(Ready::read_closed());
    assert!(ready.contains(Ready::readable()));
    assert!(!ready.contains(Ready::writable()));
    assert_eq!(
        ready.intersection(Ready::read_closed()),
        Ready::read_closed()
    );
    assert_eq!(Ready::from_bits(ready.bits()), ready);
    assert_eq!(Ready::empty().bits(), 0);
    assert!(ready.is_readable() && ready.is_read_closed());
    assert!(!ready.is_write_closed() && !ready.is_error() && !ready.is_writable());

    assert!(interest_satisfied(Interest::readable(), ready));
    assert!(!interest_satisfied(Interest::writable(), ready));
    assert!(interest_satisfied(both, ready));
    assert!(interest_satisfied(
        Interest::readable(),
        Ready::read_closed()
    ));
    assert!(interest_satisfied(Interest::writable(), Ready::error()));
}

#[test]
fn a_report_wakes_who_waits_for_it() {
    let mut scheduled = ScheduledIo::new(1);
    let mut reader = Readiness::new(Interest::readable());
    let mut writer = Readiness::new(Interest::writable());
    let mut second = Readiness::new(Interest::readable());
    assert!(reader.poll(&mut scheduled, 10).is_pending());
    assert!(writer.poll(&mut scheduled, 20).is_pending());
    assert!(second.poll(&mut scheduled, 30).is_pending());
    let mut woken = scheduled.set_readiness_and_wake(Ready::readable());
    woken.sort_unstable();
    assert_eq!(woken, vec![10, 30]);
    assert!(reader.poll(&mut scheduled, 10).is_ready());
    assert!(writer.poll(&mut scheduled, 20).is_pending());
    writer.detach(&mut scheduled);
    assert!(scheduled
        .set_readiness_and_wake(Ready::writable())
        .is_empty());
}

#[test]
fn the_driver_drops_stale_events() {
    let mut driver = Driver::new();
    let (first, token) = driver.register(|_| Ok(())).unwrap();
    let mut wait = Readiness::new(Interest::readable());
    assert!(driver.poll_readiness(first, &mut wait, 5).is_pending());
    assert_eq!(
        driver.dispatch_event(Event {
            token,
            ready: Ready::readable()
        }),
        vec![5]
    );
    assert!(driver.poll_readiness(first, &mut wait, 5).is_ready());
    assert!(driver.deregister(first).is_some());
    assert!(driver.deregister(first).is_none());

    let (second, reused) = driver.register(|_| Ok(())).unwrap();
    assert_eq!(reused.index, token.index);
    assert_ne!(reused.generation, token.generation);
    let mut wait = Readiness::new(Interest::readable());
    assert!(driver.poll_readiness(second, &mut wait, 6).is_pending());
    let stale = vec![Event {
        token,
        ready: Ready::readable(),
    }];
    assert!(driver.dispatch(&stale).is_empty());
    assert!(driver.poll_readiness(second, &mut wait, 6).is_pending());
    let fresh = vec![Event {
        token: reused,
        ready: Ready::readable(),
    }];
    assert_eq!(driver.dispatch(&fresh), vec![6]);
}

#[test]
fn a_wait_that_is_given_up_wakes_no_one() {
    let mut driver = Driver::new();
    let (id, token) = driver.register(|_| Ok(())).unwrap();
    let report = Event {
        token,
        ready: Ready::readable(),
    };
    let mut wait = Readiness::new(Interest::readable());
    let mut kept = Readiness::new(Interest::readable());
    assert!(driver.poll_readiness(id, &mut wait, 5).is_pending());
    assert!(driver.poll_readiness(id, &mut kept, 6).is_pending());
    driver.give_up(id, &mut wait);
    assert_eq!(driver.dispatch_event(report), vec![6]);

    let mut direction = Evented::new(Interest::writable());
    assert!(direction.poll_readiness(&mut driver, id, 7).is_pending());
    direction.give_up(&mut driver, id);
    assert!(direction.waiter.is_none());
    let writable = Event {
        token,
        ready: Ready::writable(),
    };
    assert!(driver.dispatch_event(writable).is_empty());

    assert!(driver.deregister(id).is_some());
    driver.give_up(id, &mut kept);
    direction.give_up(&mut driver, id);
}

#[test]
fn a_refused_registration_leaves_nothing_behind() {
    let refused = IoError {
        kind: ErrorKind::Other,
        message: "no",
    };
    let mut driver = Driver::new();
    assert_eq!(driver.register(|_| Err(refused)), Err(refused));
    let (_, token) = driver.register(|_| Ok(())).unwrap();
    assert_eq!(token.index, 0);
    let (_, next) = driver.register(|_| Ok(())).unwrap();
    assert_eq!(next.index, 1);
}

#[test]
fn an_operation_that_would_block_clears_readiness() {
    let blocked = IoError {
        kind: ErrorKind::WouldBlock,
        message: "",
    };
    let mut driver = Driver::new();
    let (id, token) = driver.register(|_| Ok(())).unwrap();
    driver.dispatch_event(Event {
        token,
        ready: Ready::readable(),
    });
    let registration = Registration {
        id,
        interests: Interest::readable(),
    };
    assert_eq!(registration.try_io(&mut driver, Ok(3)), Ok(3));
    let mut evented = Evented::new(Interest::readable());
    match evented.step(&mut driver, id, 1, || Err::<u8, _>(blocked)) {
        IoStep::Again => {}
        other => panic!("unexpected step: {other:?}"),
    }
    assert!(matches!(
        evented.step(&mut driver, id, 1, || Ok(4)),
        IoStep::Pending
    ));
    assert_eq!(
        driver.dispatch_event(Event {
            token,
            ready: Ready::readable()
        }),
        vec![1]
    );
    assert!(matches!(
        evented.step(&mut driver, id, 1, || Ok(4)),
        IoStep::Done(Ok(4))
    ));
    assert_eq!(
        registration.try_io_with::<u8>(&mut driver, Interest::readable(), Err(blocked)),
        Err(blocked)
    );
    let mut wait = registration.readiness(Interest::readable());
    assert!(driver.poll_readiness(id, &mut wait, 2).is_pending());
}

#[test]
fn an_evented_object_spends_budget_and_waits() {
    let mut driver = Driver::new();
    let (id, token) = driver.register(|_| Ok(())).unwrap();
    let registration = Registration {
        id,
        interests: Interest::readable().add(Interest::writable()),
    };
    let mut evented = PollEvented::new("socket", registration);
    *evented.get_mut() = "stream";
    assert_eq!(*evented.get_ref(), "stream");
    assert_eq!(evented.registration().id, id);
    let mut budget = unarmed();
    let step = evented.poll_write_inner(&mut budget, &mut driver, 1, &[], || Ok(9));
    assert!(matches!(step, IoStep::Done(Ok(0))));
    let step = evented.poll_read_inner(&mut budget, &mut driver, 1, || Ok(4));
    assert!(matches!(step, IoStep::Pending));
    let both = Event {
        token,
        ready: Ready::readable().union(Ready::writable()),
    };
    assert_eq!(driver.dispatch_event(both), vec![1]);
    let guard = budget_guard(&mut budget);
    let blocked = IoError {
        kind: ErrorKind::WouldBlock,
        message: "",
    };
    let step = evented.poll_read_inner(&mut budget, &mut driver, 2, || Err::<u8, _>(blocked));
    assert!(matches!(step, IoStep::Again));
    assert!(matches!(
        evented.read_again(&mut driver, 2, || Ok(4)),
        IoStep::Pending
    ));
    assert_eq!(
        driver.dispatch_event(Event {
            token,
            ready: Ready::writable()
        }),
        Vec::<u64>::new()
    );
    let step = evented.poll_write_inner(&mut budget, &mut driver, 3, b"ab", || Ok(2));
    assert!(matches!(step, IoStep::Done(Ok(2))));
    assert_eq!(budget.remaining, Some(126));
    budget.remaining = Some(0);
    let step = evented.poll_write_inner(&mut budget, &mut driver, 3, b"ab", || Ok(2));
    assert!(matches!(step, IoStep::Pending));
    assert!(matches!(
        evented.write_again(&mut driver, 3, || Ok(1)),
        IoStep::Done(Ok(1))
    ));
    guard.release(&mut budget);
    assert_eq!(budget.remaining, None);
    assert_eq!(evented.into_inner(), "stream");
}

#[test]
fn one_worker_waits_in_the_kernel() {
    let mut park = ParkState::new();
    assert_eq!(park.begin_park(0, false), ParkAction::WaitInKernel);
    assert_eq!(park.begin_park(1, false), ParkAction::Sleep);
    assert_eq!(park.unpark(), UnparkAction::NotifyOne);
    park.end_park(ParkAction::Sleep);
    assert_eq!(park.unpark(), UnparkAction::WakePoller);
    park.end_park(ParkAction::WaitInKernel);
    assert_eq!(park.begin_park(1, true), ParkAction::AdvanceTime);
}

#[test]
fn addresses_survive_their_raw_form() {
    let v4 = SocketAddress::V4 {
        octets: [127, 0, 0, 1],
        port: 8080,
    };
    let raw = socket_addr_parts(v4);
    assert_eq!(raw.family, Family::Inet);
    assert_eq!(raw.port, [0x1f, 0x90]);
    assert_eq!(socket_addr_from_storage(raw), Ok(v4));
    let v6 = SocketAddress::V6 {
        octets: [1, 2, 3, 4, 5, 6, 7, 8, 9, 10, 11, 12, 13, 14, 15, 16],
        port: 443,
        flowinfo: 7,
        scope_id: 9,
    };
    assert_eq!(socket_addr_from_storage(socket_addr_parts(v6)), Ok(v6));
    let mut odd = socket_addr_parts(v4);
    odd.family = Family::Other;
    assert_eq!(
        socket_addr_from_storage(odd).unwrap_err().kind,
        ErrorKind::InvalidData
    );
}

#[test]
fn unix_paths_must_fit_and_hold_no_zero() {
    assert!(unix_sockaddr(b"/tmp/s", 108).is_ok());
    assert_eq!(
        unix_sockaddr(&[b'a'; 108], 108).unwrap_err().kind,
        ErrorKind::InvalidInput
    );
    assert_eq!(
        unix_sockaddr(b"a\0b", 108).unwrap_err().kind,
        ErrorKind::InvalidInput
    );
}

#[test]
fn a_connection_in_progress_is_waited_for() {
    assert_eq!(connect_step(None), ConnectStep::Connected);
    for code in [
        SystemError::InProgress,
        SystemError::AlreadyInProgress,
        SystemError::WouldBlock,
    ] {
        assert_eq!(connect_step(Some(code)), ConnectStep::Wait);
    }
    for code in [SystemError::Other(111), SystemError::AccessDenied] {
        assert_eq!(connect_step(Some(code)), ConnectStep::Failed(code));
    }
    assert_eq!(socket_error(0), Ok(()));
    assert_eq!(socket_error(111), Err(111));
    assert_eq!(datagram_shutdown(Err(107), 107), Ok(()));
    assert_eq!(datagram_shutdown(Err(5), 107), Err(5));
}

#[test]
fn small_conversions_are_exact() {
    assert_eq!(linger_option(None), (0, 0));
    assert_eq!(linger_option(Some(3)), (1, 3));
    assert_eq!(linger_option(Some(u64::MAX)), (1, i32::MAX));
    assert_eq!(vector_count(5, 3), 3);
    assert_eq!(vector_count(2, 3), 2);
}

#[test]
fn every_address_is_tried_before_the_last_error() {
    let refused = IoError {
        kind: ErrorKind::Other,
        message: "refused",
    };
    let mut attempts = AddressAttempts::new(2);
    assert_eq!(attempts.next(), Ok(0));
    attempts.failed(refused);
    assert_eq!(attempts.next(), Ok(1));
    attempts.failed(refused);
    assert_eq!(attempts.next(), Err(refused));
    assert_eq!(
        AddressAttempts::new(0).next().unwrap_err().kind,
        ErrorKind::InvalidInput
    );
}
