//! The event protocol, the console's projection of it, and what the console shows.

use eddy::console::apply::{push_history, wake_source_name};
use eddy::console::decode::{decode_payload, DecodeError, FrameDecoder};
use eddy::console::event::{Event, Location, PollResult, UnparkReason, WakeSource};
use eddy::console::model::{
    ConsoleModel, PendingOperation, PendingResource, SortKey, TaskState, MAX_HISTORY,
};
use eddy::console::options::{ConsoleOptions, Input};
use eddy::console::reader::{read_step, ReaderInput, ReaderMessage};
use eddy::console::screen::{
    colored_style, duration_unit, help_lines, render_with_color, tab_titles, Body, Color,
    DurationUnit, Screen, Style, Table,
};
use eddy::console::select::Key;
use eddy::console::tab::View;

fn frame(payload: &[u8]) -> Vec<u8> {
    let mut output = (payload.len() as u32).to_le_bytes().to_vec();
    output.extend_from_slice(payload);
    output
}

fn u32_bytes(value: u32) -> Vec<u8> {
    value.to_le_bytes().to_vec()
}

fn u64_bytes(value: u64) -> Vec<u8> {
    value.to_le_bytes().to_vec()
}

fn string_bytes(value: &str) -> Vec<u8> {
    let mut bytes = u32_bytes(value.len() as u32);
    bytes.extend_from_slice(value.as_bytes());
    bytes
}

/// All the text of a screen, cell by cell.
fn shown(screen: &Screen) -> String {
    let mut text = format!("{}{}", screen.connection, screen.counts);
    match &screen.body {
        Body::Help => {
            for line in help_lines() {
                text.push_str(line);
            }
        }
        Body::Tab { table, .. } => {
            for title in tab_titles() {
                text.push_str(title);
            }
            match table {
                Table::Tasks(rows) => {
                    for row in rows {
                        text.push_str(&format!(
                            "{} {} {} {} {} {} {}",
                            row.id,
                            row.name,
                            row.state,
                            row.polls,
                            row.scheduled,
                            row.warning,
                            row.location
                        ));
                    }
                }
                Table::Workers(rows) => {
                    for row in rows {
                        text.push_str(&format!("{} {}", row.id, row.polls));
                    }
                }
                Table::Resources(rows) => {
                    for row in rows {
                        text.push_str(&format!("{} {} {}", row.kind, row.holder, row.waiters));
                    }
                }
                Table::AsyncOps(rows) => {
                    for row in rows {
                        text.push_str(&format!("{} {}", row.task, row.resource));
                    }
                }
            }
        }
    }
    text.push_str(&screen.footer);
    text
}

fn spawned(id: u64, name: &str) -> Event {
    Event::TaskSpawned {
        id,
        name: Some(name.to_string()),
        location: Location {
            file: "test.rs".to_string(),
            line: id as u32,
        },
        parent: None,
    }
}

#[test]
fn decoder_accepts_fragmented_synthetic_frames() {
    let mut payload = vec![0_u8];
    payload.extend(u64_bytes(7));
    payload.push(1);
    payload.extend(string_bytes("worker-task"));
    payload.extend(string_bytes("src/main.rs"));
    payload.extend(u32_bytes(42));
    payload.push(0);
    let bytes = frame(&payload);
    let mut decoder = FrameDecoder::new();
    assert!(decoder.push(&bytes[..2]).unwrap().is_empty());
    assert!(decoder.push(&bytes[2..9]).unwrap().is_empty());
    let events = decoder.push(&bytes[9..]).unwrap();
    assert_eq!(events.len(), 1);
    assert_eq!(
        events[0],
        Event::TaskSpawned {
            id: 7,
            name: Some("worker-task".to_string()),
            location: Location {
                file: "src/main.rs".to_string(),
                line: 42,
            },
            parent: None,
        }
    );
    assert!(decoder.finish().is_ok());
}

#[test]
fn decoder_rejects_bad_and_truncated_frames() {
    let mut decoder = FrameDecoder::new();
    assert_eq!(
        decoder.push(&frame(&[99])).unwrap_err(),
        DecodeError::UnknownTag(99)
    );
    let mut decoder = FrameDecoder::new();
    let bytes = frame(&[16]);
    assert!(decoder.push(&bytes[..bytes.len() - 1]).unwrap().is_empty());
    assert_eq!(decoder.finish().unwrap_err(), DecodeError::Truncated);
    let mut decoder = FrameDecoder::new();
    assert_eq!(
        decoder.push(&(u32::MAX).to_le_bytes()).unwrap_err(),
        DecodeError::FrameTooLarge(u32::MAX)
    );
}

#[test]
fn model_and_render_show_tasks_workers_resources_and_warnings() {
    let mut model = ConsoleModel::new();
    model.apply(Event::TaskSpawned {
        id: 7,
        name: Some("acceptor".to_string()),
        location: Location {
            file: "server.rs".to_string(),
            line: 12,
        },
        parent: None,
    });
    model.apply(Event::TaskPollStart {
        id: 7,
        worker: 2,
        at_ns: 1,
    });
    model.apply(Event::TaskPollEnd {
        id: 7,
        worker: 2,
        duration_ns: 150_000_000,
        result: PollResult::Pending,
    });
    model.apply(Event::BlockingDetected {
        task: 7,
        poll_duration_ns: 150_000_000,
        location: Location {
            file: "server.rs".to_string(),
            line: 12,
        },
    });
    model.apply(Event::QueueDepth {
        worker: 2,
        local: 3,
        global: 1,
        lifo: true,
    });
    model.apply(Event::WorkerPark {
        worker: 2,
        timeout_ns: None,
    });
    model.apply(Event::ResourceContended {
        kind: "mutex".to_string(),
        holder: 7,
        waiters: vec![8, 9],
    });

    assert_eq!(model.tasks[&7].state, TaskState::Idle);
    assert_eq!(model.workers[&2].local_queue, 3);
    let mutex = model
        .resources
        .iter()
        .find(|resource| resource.kind == "mutex")
        .unwrap();
    assert_eq!(mutex.waiters, vec![8, 9]);

    let rendered = shown(&render_with_color(&model, true));
    assert!(rendered.contains("acceptor"));
    assert!(rendered.contains("blocking"));
    assert!(rendered.contains("Tasks"));
}

#[test]
fn disconnected_model_keeps_the_last_view() {
    let mut model = ConsoleModel::new();
    model.apply(Event::BudgetExhausted { task: 4 });
    model.disconnected("runtime disconnected");
    assert!(!model.connected);
    assert_eq!(model.tasks[&4].warnings, vec!["budget"]);
    assert_eq!(
        model.disconnect_reason.as_deref(),
        Some("runtime disconnected")
    );
}

#[test]
fn task_filter_matches_name_and_state_without_changing_the_event_model() {
    let mut model = ConsoleModel::new();
    for (id, name) in [(1, "acceptor"), (2, "worker")] {
        model.apply(Event::TaskSpawned {
            id,
            name: Some(name.to_string()),
            location: Location {
                file: "test.rs".to_string(),
                line: id as u32,
            },
            parent: None,
        });
    }
    model.tasks.get_mut(&2).unwrap().state = TaskState::Running;

    model.filter = "ACCEPT".to_string();
    assert_eq!(
        model
            .sorted_tasks()
            .iter()
            .map(|task| task.id)
            .collect::<Vec<_>>(),
        vec![1]
    );
    model.filter = "running".to_string();
    assert_eq!(
        model
            .sorted_tasks()
            .iter()
            .map(|task| task.id)
            .collect::<Vec<_>>(),
        vec![2]
    );
    assert_eq!(model.tasks.len(), 2);
}

#[test]
fn async_operations_track_io_timers_and_resource_waiters() {
    let mut model = ConsoleModel::new();
    model.apply(Event::IoRegistered {
        fd: 5,
        interest: "read".to_string(),
        task: 1,
    });
    model.apply(Event::TimerSet {
        id: 8,
        deadline_ns: 123,
        task: 2,
    });
    model.apply(Event::ResourceContended {
        kind: "semaphore".to_string(),
        holder: 3,
        waiters: vec![4, 5],
    });

    assert_eq!(
        model.pending_operations,
        vec![
            PendingOperation {
                task: 1,
                resource: PendingResource::Io {
                    fd: 5,
                    interest: "read".to_string(),
                },
            },
            PendingOperation {
                task: 2,
                resource: PendingResource::Timer {
                    id: 8,
                    deadline_ns: 123,
                },
            },
            PendingOperation {
                task: 4,
                resource: PendingResource::Resource {
                    kind: "semaphore".to_string(),
                    holder: 3,
                },
            },
            PendingOperation {
                task: 5,
                resource: PendingResource::Resource {
                    kind: "semaphore".to_string(),
                    holder: 3,
                },
            },
        ]
    );

    model.view = View::AsyncOps;
    let rendered = shown(&render_with_color(&model, false));
    assert!(rendered.contains("Async Ops"));
    assert!(rendered.contains("semaphore"));

    model.apply(Event::IoReady {
        fd: 5,
        readiness: "readable".to_string(),
        woke: vec![1],
    });
    model.apply(Event::TimerFired {
        id: 8,
        lateness_ns: 0,
    });
    assert_eq!(model.pending_operations.len(), 2);
    assert!(model
        .pending_operations
        .iter()
        .all(|operation| matches!(operation.resource, PendingResource::Resource { .. })));
}

#[test]
fn no_color_styles_do_not_set_terminal_colors() {
    assert_eq!(
        colored_style(false, Some(Color::Green), Some(Color::DarkGray)),
        Style::default()
    );
    assert_ne!(
        colored_style(true, Some(Color::Green), Some(Color::DarkGray)),
        Style::default()
    );
}

#[test]
fn reader_reports_clean_disconnect_after_a_synthetic_frame() {
    let mut payload = vec![16_u8];
    payload.extend_from_slice(&9_u64.to_le_bytes());
    let mut bytes = (payload.len() as u32).to_le_bytes().to_vec();
    bytes.extend_from_slice(&payload);

    let mut decoder = FrameDecoder::new();
    let step = read_step(&mut decoder, ReaderInput::Bytes(&bytes));
    assert!(!step.stop);
    match step.message.unwrap() {
        ReaderMessage::Events(events) => {
            assert_eq!(events, vec![Event::BudgetExhausted { task: 9 }]);
        }
        ReaderMessage::Disconnected(reason) => panic!("unexpected disconnect: {reason}"),
    }
    let step = read_step(&mut decoder, ReaderInput::Closed);
    assert!(step.stop);
    match step.message.unwrap() {
        ReaderMessage::Disconnected(reason) => assert_eq!(reason, "runtime disconnected"),
        ReaderMessage::Events(_) => panic!("expected disconnect"),
    }
}

#[test]
fn recording_preserves_frames_for_replay() {
    let payload = [16_u8, 9, 0, 0, 0, 0, 0, 0, 0];
    let bytes = {
        let mut bytes = (payload.len() as u32).to_le_bytes().to_vec();
        bytes.extend_from_slice(&payload);
        bytes
    };
    let mut record: Vec<u8> = Vec::new();
    let mut decoder = FrameDecoder::new();
    for chunk in bytes.chunks(5) {
        record.extend_from_slice(chunk);
        let step = read_step(&mut decoder, ReaderInput::Bytes(chunk));
        assert!(!step.stop);
        match step.message {
            Some(ReaderMessage::Events(events)) => {
                assert_eq!(events, vec![Event::BudgetExhausted { task: 9 }]);
            }
            Some(ReaderMessage::Disconnected(reason)) => {
                panic!("unexpected disconnect: {reason}")
            }
            None => assert!(record.len() < bytes.len()),
        }
    }
    assert!(matches!(
        read_step(&mut decoder, ReaderInput::Closed).message,
        Some(ReaderMessage::Disconnected(_))
    ));
    assert_eq!(record, bytes);

    let mut decoder = FrameDecoder::new();
    match read_step(&mut decoder, ReaderInput::Bytes(&record)).message {
        Some(ReaderMessage::Events(events)) => {
            assert_eq!(events, vec![Event::BudgetExhausted { task: 9 }]);
        }
        other => panic!("unexpected replay outcome: {other:?}"),
    }
}

#[test]
fn reader_names_what_went_wrong() {
    let reason = |decoder: &mut FrameDecoder, input: ReaderInput| {
        let step = read_step(decoder, input);
        assert!(step.stop);
        match step.message {
            Some(ReaderMessage::Disconnected(reason)) => reason,
            _ => panic!("expected a disconnect"),
        }
    };
    let mut decoder = FrameDecoder::new();
    assert_eq!(
        reason(&mut decoder, ReaderInput::Bytes(&frame(&[99]))),
        "protocol error: unknown event tag 99"
    );
    let mut decoder = FrameDecoder::new();
    let step = read_step(&mut decoder, ReaderInput::Bytes(&[9, 0, 0]));
    assert!(step.message.is_none() && !step.stop);
    assert_eq!(
        reason(&mut decoder, ReaderInput::Closed),
        "runtime disconnected with protocol error: truncated event frame"
    );
    let mut decoder = FrameDecoder::new();
    assert_eq!(
        reason(&mut decoder, ReaderInput::Failed("reset")),
        "socket error: reset"
    );
    assert_eq!(
        reason(&mut decoder, ReaderInput::RecordFailed("disk full")),
        "could not write record file: disk full"
    );
}

#[test]
fn every_decode_error_has_its_input_and_message() {
    let error = |payload: &[u8]| decode_payload(payload).unwrap_err();
    assert_eq!(error(&[]), DecodeError::Truncated);
    assert_eq!(error(&[]).message(), "truncated event frame");
    assert_eq!(error(&[18]), DecodeError::UnknownTag(18));
    assert_eq!(error(&[18]).message(), "unknown event tag 18");

    let mut not_text = vec![11_u8];
    not_text.extend(u32_bytes(5));
    not_text.extend(u32_bytes(1));
    not_text.push(0xff);
    not_text.extend(u32_bytes(0));
    assert_eq!(error(&not_text), DecodeError::InvalidUtf8);
    assert_eq!(error(&not_text).message(), "event contains invalid UTF-8");

    let mut odd_result = vec![2_u8];
    odd_result.extend(u64_bytes(1));
    odd_result.extend(u32_bytes(0));
    odd_result.extend(u64_bytes(5));
    odd_result.push(7);
    match error(&odd_result) {
        DecodeError::InvalidValue(what) => assert_eq!(
            DecodeError::InvalidValue(what).message(),
            format!("invalid {what} in event frame")
        ),
        other => panic!("unexpected error: {other:?}"),
    }

    let mut long = vec![16_u8];
    long.extend(u64_bytes(9));
    long.extend([1, 2, 3]);
    assert_eq!(
        error(&long),
        DecodeError::TrailingBytes {
            tag: 16,
            remaining: 3
        }
    );
    assert_eq!(error(&long).message(), "event tag 16 has 3 trailing bytes");
    assert_eq!(
        DecodeError::FrameTooLarge(16_777_217).message(),
        "event frame is too large (16777217 bytes)"
    );
}

#[test]
fn fragments_give_the_events_of_the_whole() {
    let mut bytes = Vec::new();
    for task in 0..5_u64 {
        let mut payload = vec![16_u8];
        payload.extend(u64_bytes(task));
        bytes.extend(frame(&payload));
    }
    let whole = FrameDecoder::new().push(&bytes).unwrap();
    assert_eq!(whole.len(), 5);
    for cut in 0..bytes.len() {
        let mut decoder = FrameDecoder::new();
        let mut events = decoder.push(&bytes[..cut]).unwrap();
        events.extend(decoder.push(&bytes[cut..]).unwrap());
        assert_eq!(events, whole);
        assert!(decoder.finish().is_ok());
    }
    let mut decoder = FrameDecoder::new();
    let mut events = Vec::new();
    for byte in &bytes {
        events.extend(decoder.push(&[*byte]).unwrap());
    }
    assert_eq!(events, whole);
}

#[test]
fn paused_model_stands_still() {
    let mut model = ConsoleModel::new();
    assert!(!model.handle_key(Key::Char(' ')));
    model.apply(spawned(1, "late"));
    assert!(model.paused);
    assert_eq!(model.event_count, 0);
    assert!(model.tasks.is_empty());
    model.handle_key(Key::Char(' '));
    model.apply(spawned(1, "late"));
    assert_eq!(model.event_count, 1);
    assert_eq!(model.tasks[&1].name, "late");
}

#[test]
fn events_forget_no_task() {
    let mut model = ConsoleModel::new();
    model.apply(spawned(1, "first"));
    model.apply(Event::TaskAborted { id: 1 });
    model.apply(Event::TaskDropped {
        id: 2,
        total_polls: 4,
        total_busy_ns: 10,
        total_idle_ns: 20,
    });
    assert_eq!(model.tasks[&1].state, TaskState::Cancelled);
    assert_eq!(model.tasks[&2].state, TaskState::Complete);
    assert_eq!(model.tasks[&2].name, "<unnamed>");
    assert_eq!(model.tasks[&2].polls, 4);
    assert_eq!(model.tasks[&2].duration(), 30);
    assert_eq!(model.event_count, 3);
}

#[test]
fn a_polled_task_waits_for_nothing() {
    let mut model = ConsoleModel::new();
    model.apply(Event::TimerSet {
        id: 8,
        deadline_ns: 123,
        task: 2,
    });
    assert_eq!(model.pending_operations.len(), 1);
    model.apply(Event::TaskPollStart {
        id: 2,
        worker: 0,
        at_ns: 200,
    });
    assert!(model.pending_operations.is_empty());
    assert_eq!(model.tasks[&2].state, TaskState::Running);
}

#[test]
fn a_dropped_or_aborted_task_waits_for_nothing() {
    let dropped = Event::TaskDropped {
        id: 2,
        total_polls: 1,
        total_busy_ns: 1,
        total_idle_ns: 1,
    };
    for end in [dropped, Event::TaskAborted { id: 2 }] {
        let mut model = ConsoleModel::new();
        for task in [2, 3] {
            model.apply(Event::TimerSet {
                id: task,
                deadline_ns: 123,
                task,
            });
        }
        model.apply(end);
        assert_eq!(model.pending_operations.len(), 1);
        assert_eq!(model.pending_operations[0].task, 3);
    }
}

#[test]
fn histories_hold_the_latest_values_of_each_task() {
    let mut model = ConsoleModel::new();
    let last = 2 * MAX_HISTORY as u64 + 9;
    for n in 0..=last {
        for task in [1, 2] {
            model.apply(Event::TaskPollEnd {
                id: task,
                worker: 0,
                duration_ns: 10 * n + task,
                result: PollResult::Pending,
            });
        }
        if n % 2 == 0 {
            model.apply(Event::TaskWoken {
                id: 1,
                by: WakeSource::Task(n),
            });
        }
    }
    let first = last + 1 - MAX_HISTORY as u64;
    for task in [1, 2] {
        let expected: Vec<u64> = (first..=last).map(|n| 10 * n + task).collect();
        assert_eq!(model.tasks[&task].poll_durations_ns, expected);
    }
    let woken: Vec<String> = (0..=last)
        .filter(|n| n % 2 == 0)
        .map(|n| format!("task:{n}"))
        .collect();
    assert_eq!(
        model.tasks[&1].wake_sources,
        woken[woken.len() - MAX_HISTORY..].to_vec()
    );
    assert!(model.tasks[&2].wake_sources.is_empty());
}

#[test]
fn a_wake_ends_only_what_it_is_about() {
    let mut model = ConsoleModel::new();
    model.apply(Event::IoRegistered {
        fd: 3,
        interest: "read".to_string(),
        task: 1,
    });
    model.apply(Event::TimerSet {
        id: 9,
        deadline_ns: 5,
        task: 1,
    });
    model.apply(Event::TaskWoken {
        id: 1,
        by: WakeSource::Io { fd: 4 },
    });
    assert_eq!(model.pending_operations.len(), 2);
    model.apply(Event::TaskWoken {
        id: 1,
        by: WakeSource::Io { fd: 3 },
    });
    assert_eq!(model.pending_operations.len(), 1);
    model.apply(Event::TimerCancelled { id: 9 });
    assert!(model.pending_operations.is_empty());
    assert_eq!(model.tasks[&1].wake_sources, vec!["io:4", "io:3"]);
}

#[test]
fn warnings_and_histories_stay_tidy() {
    let mut model = ConsoleModel::new();
    for poll in 0..(MAX_HISTORY as u64 + 6) {
        model.apply(Event::TaskPollEnd {
            id: 1,
            worker: 0,
            duration_ns: poll,
            result: PollResult::Ready,
        });
        model.apply(Event::BudgetExhausted { task: 1 });
    }
    let task = &model.tasks[&1];
    assert_eq!(task.warnings, vec!["budget"]);
    assert_eq!(task.poll_durations_ns.len(), MAX_HISTORY);
    assert_eq!(task.poll_durations_ns[0], 6);
    assert_eq!(task.polls, MAX_HISTORY as u64 + 6);

    let mut history: Vec<u32> = (0..64).collect();
    push_history(&mut history, 64);
    assert_eq!(history, (1..65).collect::<Vec<u32>>());
}

#[test]
fn resources_are_listed_by_kind_once() {
    let mut model = ConsoleModel::new();
    for (kind, holder) in [("rwlock", 1), ("mutex", 2), ("semaphore", 3), ("mutex", 4)] {
        model.apply(Event::ResourceContended {
            kind: kind.to_string(),
            holder,
            waiters: vec![],
        });
    }
    let kinds: Vec<&str> = model.resources.iter().map(|r| r.kind.as_str()).collect();
    assert_eq!(kinds, vec!["mutex", "rwlock", "semaphore"]);
    assert_eq!(model.resources[0].holder, 4);
    model.view = View::Resources;
    match render_with_color(&model, false).body {
        Body::Tab {
            position: 2,
            table: Table::Resources(rows),
            ..
        } => {
            assert_eq!(rows.len(), 3);
            assert_eq!(rows[0].waiters, "-");
        }
        other => panic!("unexpected body: {other:?}"),
    }
}

#[test]
fn workers_count_parks_steals_and_busy_time() {
    let mut model = ConsoleModel::new();
    model.apply(Event::WorkerPark {
        worker: 1,
        timeout_ns: Some(5),
    });
    model.apply(Event::WorkerUnpark {
        worker: 1,
        reason: UnparkReason::Steal,
    });
    model.apply(Event::WorkerSteal {
        thief: 1,
        victim: 0,
        count: 7,
    });
    model.apply(Event::TaskPollEnd {
        id: 3,
        worker: 1,
        duration_ns: 11,
        result: PollResult::Panicked,
    });
    assert_eq!(model.workers[&1].parks, 1);
    assert_eq!(model.workers[&1].steals, 7);
    assert_eq!(model.workers[&1].busy_ns, 11);
    assert_eq!(model.workers[&1].polls, 1);
}

#[test]
fn keys_sort_select_filter_and_quit() {
    let mut model = ConsoleModel::new();
    for id in 1..=3_u64 {
        model.apply(spawned(id, &format!("task-{id}")));
        model.apply(Event::TaskPollEnd {
            id,
            worker: 0,
            duration_ns: 40 - 10 * id,
            result: PollResult::Pending,
        });
    }
    let order = |model: &ConsoleModel| -> Vec<u64> {
        model.sorted_tasks().iter().map(|task| task.id).collect()
    };
    assert_eq!(order(&model), vec![1, 2, 3]);
    model.handle_key(Key::Char('b'));
    assert_eq!(model.sort, SortKey::Busy);
    assert_eq!(order(&model), vec![3, 2, 1]);
    model.handle_key(Key::Char('p'));
    assert_eq!(order(&model), vec![1, 2, 3]);

    model.handle_key(Key::Up);
    assert_eq!(model.selected_task, 2);
    model.handle_key(Key::Down);
    assert_eq!(model.selected_task, 0);

    model.handle_key(Key::Char('/'));
    for c in "task-3x".chars() {
        assert!(!model.handle_key(Key::Char(c)));
    }
    model.handle_key(Key::Backspace);
    assert_eq!(model.filter_input.as_deref(), Some("task-3"));
    model.handle_key(Key::Enter);
    assert_eq!(model.filter, "task-3");
    assert_eq!(order(&model), vec![3]);
    model.handle_key(Key::Char('c'));
    assert_eq!(model.filter, "");
    assert_eq!(order(&model).len(), 3);

    model.handle_key(Key::Char('?'));
    assert!(shown(&render_with_color(&model, true)).contains("select a task"));
    assert!(model.handle_key(Key::Char('q')));
    assert!(model.handle_key(Key::Esc));
    assert_eq!(model.tasks.len(), 3);
}

#[test]
fn the_footer_follows_the_mode() {
    let footer = |model: &ConsoleModel| render_with_color(model, false).footer;
    let mut model = ConsoleModel::new();
    assert_eq!(
        footer(&model),
        " / filter  1-4 views  t/b/i/p sort  arrows select  space pause  ? help  q quit"
    );
    model.handle_key(Key::Char(' '));
    assert_eq!(
        footer(&model),
        " PAUSED  |  space resume  1-4 views  ? help  q quit"
    );
    model.filter = "io".to_string();
    assert_eq!(
        footer(&model),
        " FILTER: io  |  / edit  esc clear  1-4 views  q quit"
    );
    model.handle_key(Key::Char('/'));
    assert_eq!(
        footer(&model),
        " FILTER: io_  |  enter apply  esc cancel  backspace delete"
    );
    model.disconnected("gone");
    assert_eq!(footer(&model), " gone  |  q quit  r reconnect externally");
}

#[test]
fn rows_show_warnings_and_shortened_text() {
    let mut model = ConsoleModel::new();
    model.apply(Event::TaskSpawned {
        id: 5,
        name: Some("a-name-of-more-than-twenty-characters".to_string()),
        location: Location {
            file: "src/a/very/long/path/to/main.rs".to_string(),
            line: 3,
        },
        parent: Some(1),
    });
    model.apply(spawned(6, "short"));
    model.apply(Event::BudgetExhausted { task: 6 });
    let screen = render_with_color(&model, true);
    assert_eq!(screen.connection, " CONNECTED ");
    assert_eq!(screen.counts, "  events:3  tasks:2");
    assert_eq!(screen.connection_style.foreground, Some(Color::Green));
    match screen.body {
        Body::Tab {
            position: 0,
            table: Table::Tasks(rows),
            ..
        } => {
            assert_eq!(rows[0].name, "a-name-of-more-than~");
            assert_eq!(rows[0].location, "src/a/very/long/path/~:3");
            assert_eq!(rows[0].warning, " ");
            assert_eq!(rows[0].style.background, Some(Color::DarkGray));
            assert_eq!(rows[1].warning, "!budget");
            assert_eq!(rows[1].style.foreground, Some(Color::Yellow));
        }
        other => panic!("unexpected body: {other:?}"),
    }
}

#[test]
fn durations_use_the_largest_unit_they_fill() {
    assert_eq!(duration_unit(0), DurationUnit::Nanoseconds);
    assert_eq!(duration_unit(999), DurationUnit::Nanoseconds);
    assert_eq!(duration_unit(1_000), DurationUnit::Microseconds);
    assert_eq!(duration_unit(999_999), DurationUnit::Microseconds);
    assert_eq!(duration_unit(1_000_000), DurationUnit::Milliseconds);
    assert_eq!(duration_unit(1_000_000_000), DurationUnit::Seconds);
}

#[test]
fn wake_sources_are_remembered_by_name() {
    assert_eq!(wake_source_name(&WakeSource::Io { fd: -3 }), "io:-3");
    assert_eq!(wake_source_name(&WakeSource::Timer { id: 12 }), "timer:12");
    assert_eq!(wake_source_name(&WakeSource::Task(7)), "task:7");
    assert_eq!(
        wake_source_name(&WakeSource::Channel {
            kind: "mpsc".to_string()
        }),
        "channel:mpsc"
    );
    assert_eq!(wake_source_name(&WakeSource::External), "external");
}

#[test]
fn a_replayed_stream_cannot_be_recorded() {
    let mut options = ConsoleOptions {
        socket: "live",
        record: Some("tape"),
        replay: None,
    };
    assert!(matches!(options.input(), Ok(Input::Socket(path)) if *path == "live"));
    options.replay = Some("tape");
    assert_eq!(
        options.input().unwrap_err(),
        "--record cannot be used with --replay"
    );
    options.record = None;
    assert!(matches!(options.input(), Ok(Input::Replay(path)) if *path == "tape"));
}
