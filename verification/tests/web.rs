//! The messages of the web bridge and the frames of the runtime.

use eddy::console::decode::{decode_payload, DecodeError, FrameDecoder};
use eddy::console::event::{Event, Location, PollResult, UnparkReason, WakeSource};
use eddy::console::reader::ReaderInput;
use eddy::instrument::{checked_frame, encode_frame, RuntimeEvent, TaskId};
use eddy::web::{bridge_step, event_to_json, json_string, status_message, BridgeEnd};

#[test]
fn event_json_escapes_text_and_preserves_wire_fields() {
    let json = event_to_json(&Event::TaskSpawned {
        id: 7,
        name: Some("worker\"task".to_string()),
        location: Location {
            file: "src/main.rs".to_string(),
            line: 42,
        },
        parent: Some(2),
    });
    assert_eq!(
        json,
        r#"{"type":"task_spawned","id":7,"name":"worker\"task","location":{"file":"src/main.rs","line":42},"parent":2}"#
    );
}

#[test]
fn frame_prefix_is_the_exact_payload_length() {
    let frame = encode_frame(&RuntimeEvent::BudgetExhausted { task: TaskId(7) });
    let payload_len = u32::from_le_bytes(frame[..4].try_into().unwrap()) as usize;
    assert_eq!(payload_len, frame.len() - 4);
    assert_eq!(frame[4], 16); // BudgetExhausted's stable event tag.
}

#[test]
fn control_characters_are_escaped() {
    let mut output = String::new();
    json_string(&mut output, "a\\b\"c\n\r\t\u{1}\u{1f}é");
    assert_eq!(output, "\"a\\\\b\\\"c\\n\\r\\t\\u0001\\u001fé\"");
}

#[test]
fn absent_values_are_null() {
    let json = event_to_json(&Event::TaskSpawned {
        id: 1,
        name: None,
        location: Location {
            file: String::new(),
            line: 0,
        },
        parent: None,
    });
    assert_eq!(
        json,
        r#"{"type":"task_spawned","id":1,"name":null,"location":{"file":"","line":0},"parent":null}"#
    );
}

#[test]
fn status_messages_name_state_and_reason() {
    assert_eq!(
        status_message("error", "no \"socket\""),
        r#"{"type":"bridge_status","state":"error","reason":"no \"socket\""}"#
    );
}

#[test]
fn the_bridge_forwards_events_and_says_how_it_ended() {
    let frame = encode_frame(&RuntimeEvent::BudgetExhausted { task: TaskId(9) });
    let event = event_to_json(&Event::BudgetExhausted { task: 9 });

    let mut decoder = FrameDecoder::new();
    let step = bridge_step(&mut decoder, ReaderInput::Bytes(&frame));
    assert_eq!(step.messages, vec![event]);
    assert!(matches!(step.end, BridgeEnd::Running));
    let step = bridge_step(&mut decoder, ReaderInput::Closed);
    assert!(matches!(step.end, BridgeEnd::Finished));

    let mut decoder = FrameDecoder::new();
    let step = bridge_step(&mut decoder, ReaderInput::Failed("reset"));
    match step.end {
        BridgeEnd::Failed(reason) => assert_eq!(reason, "socket error: reset"),
        other => panic!("unexpected end: {other:?}"),
    }
}

/// What a decoder makes of one runtime event.
fn received(event: RuntimeEvent) -> Event {
    let frame = checked_frame(&event).unwrap();
    let mut decoder = FrameDecoder::new();
    let mut events = decoder.push(&frame).unwrap();
    assert!(decoder.finish().is_ok());
    assert_eq!(events.len(), 1);
    one_length(&frame[4..]);
    events.remove(0)
}

/// No front of a payload is a payload, nor is anything that goes on behind one.
fn one_length(payload: &[u8]) {
    for cut in 0..payload.len() {
        assert_eq!(decode_payload(&payload[..cut]), Err(DecodeError::Truncated));
    }
    for more in [&[0_u8][..], &[9, 9, 9, 9, 9]] {
        let mut long = payload.to_vec();
        long.extend_from_slice(more);
        assert_eq!(
            decode_payload(&long),
            Err(DecodeError::TrailingBytes {
                tag: payload[0],
                remaining: more.len()
            })
        );
    }
}

#[test]
fn every_event_survives_the_wire() {
    let location = || eddy::instrument::Location {
        file: "src/lib.rs",
        line: 77,
    };
    let seen = || Location {
        file: "src/lib.rs".to_string(),
        line: 77,
    };
    let id = TaskId(3);
    assert_eq!(
        received(RuntimeEvent::TaskSpawned {
            id,
            name: Some("näme".to_string()),
            location: location(),
            parent: Some(TaskId(2)),
        }),
        Event::TaskSpawned {
            id: 3,
            name: Some("näme".to_string()),
            location: seen(),
            parent: Some(2),
        }
    );
    assert_eq!(
        received(RuntimeEvent::TaskPollStart {
            id,
            worker: 1,
            at: 10,
        }),
        Event::TaskPollStart {
            id: 3,
            worker: 1,
            at_ns: 10,
        }
    );
    assert_eq!(
        received(RuntimeEvent::TaskPollEnd {
            id,
            worker: 1,
            duration: u128::MAX,
            result: PollResult::Panicked,
        }),
        Event::TaskPollEnd {
            id: 3,
            worker: 1,
            duration_ns: u64::MAX,
            result: PollResult::Panicked,
        }
    );
    assert_eq!(
        received(RuntimeEvent::TaskWoken {
            id,
            by: eddy::instrument::WakeSource::Channel { kind: "mpsc" },
        }),
        Event::TaskWoken {
            id: 3,
            by: WakeSource::Channel {
                kind: "mpsc".to_string(),
            },
        }
    );
    assert_eq!(
        received(RuntimeEvent::WorkerUnpark {
            worker: 4,
            reason: UnparkReason::Shutdown,
        }),
        Event::WorkerUnpark {
            worker: 4,
            reason: UnparkReason::Shutdown,
        }
    );
    assert_eq!(
        received(RuntimeEvent::WorkerPark {
            worker: 4,
            timeout: Some(9),
        }),
        Event::WorkerPark {
            worker: 4,
            timeout_ns: Some(9),
        }
    );
    assert_eq!(
        received(RuntimeEvent::QueueDepth {
            worker: 1,
            local: 2,
            global: 3,
            lifo: true,
        }),
        Event::QueueDepth {
            worker: 1,
            local: 2,
            global: 3,
            lifo: true,
        }
    );
    assert_eq!(
        received(RuntimeEvent::IoReady {
            fd: -1,
            readiness: "readable",
            woke: vec![TaskId(1), TaskId(2)],
        }),
        Event::IoReady {
            fd: -1,
            readiness: "readable".to_string(),
            woke: vec![1, 2],
        }
    );
    assert_eq!(
        received(RuntimeEvent::BlockingDetected {
            task: id,
            poll_duration: 5,
            location: location(),
        }),
        Event::BlockingDetected {
            task: 3,
            poll_duration_ns: 5,
            location: seen(),
        }
    );
    assert_eq!(
        received(RuntimeEvent::ResourceContended {
            kind: "mutex",
            holder: id,
            waiters: vec![],
        }),
        Event::ResourceContended {
            kind: "mutex".to_string(),
            holder: 3,
            waiters: vec![],
        }
    );
    assert_eq!(
        received(RuntimeEvent::TimerFired { id: 8, lateness: 2 }),
        Event::TimerFired {
            id: 8,
            lateness_ns: 2,
        }
    );
    assert_eq!(
        received(RuntimeEvent::TimerCancelled { id: 8 }),
        Event::TimerCancelled { id: 8 }
    );
}
