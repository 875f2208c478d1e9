//! Deciding what to do with what was read from the event stream.

use super::decode::{DecodeError, FrameDecoder};
use super::event::Event;
use crate::text::push_text;
use crate::wire;
use vstd::prelude::*;

verus! {

/// What came of one read, or of keeping a record of what was read.
#[derive(Debug)]
pub enum ReaderInput<'a> {
    /// Some bytes arrived.
    Bytes(&'a [u8]),
    /// The stream has ended.
    Closed,
    /// Reading failed, with a reason.
    Failed(&'a str),
    /// The bytes could not be added to the record, with a reason.
    RecordFailed(&'a str),
}

/// What the reader tells the console.
#[derive(Debug)]
pub enum ReaderMessage {
    Events(Vec<Event>),
    Disconnected(String),
}

/// What the reader does next: what it tells the console, and whether it stops.
#[derive(Debug)]
pub struct ReaderStep {
    pub message: Option<ReaderMessage>,
    pub stop: bool,
}

/// Why the reader stops, where it does.
pub open spec fn stop_reason(buffered: Seq<u8>, input: ReaderInput) -> Option<Seq<char>> {
    match input {
        ReaderInput::Bytes(bytes) => match wire::drain(buffered + bytes@).error {
            Some(error) => Some("protocol error: "@ + super::decode::decode_error_text(error)),
            None => None,
        },
        ReaderInput::Closed => if buffered.len() == 0 {
            Some("runtime disconnected"@)
        } else {
            Some(
                "runtime disconnected with protocol error: "@ + super::decode::decode_error_text(
                    DecodeError::Truncated,
                ),
            )
        },
        ReaderInput::Failed(reason) => Some("socket error: "@ + reason@),
        ReaderInput::RecordFailed(reason) => Some("could not write record file: "@ + reason@),
    }
}

/// Whether a step is right for what came of a read.
pub open spec fn step_fits(step: ReaderStep, buffered: Seq<u8>, input: ReaderInput) -> bool {
    match stop_reason(buffered, input) {
        Some(reason) => step.stop && (step.message matches Some(
            ReaderMessage::Disconnected(text),
        ) && text@ == reason),
        None => !step.stop && (input matches ReaderInput::Bytes(bytes) && {
            let events = wire::drain(buffered + bytes@).events;
            if events.len() == 0 {
                step.message is None
            } else {
                step.message matches Some(ReaderMessage::Events(list))
                    && super::decode::event_models(list@) == events
            }
        }),
    }
}

fn stopped(prefix: &str, reason: &str) -> (step: ReaderStep)
    ensures
        step.stop,
        step.message matches Some(ReaderMessage::Disconnected(text)) && text@ == prefix@ + reason@,
{
    let mut text = String::new();
    push_text(&mut text, prefix);
    push_text(&mut text, reason);
    assert(text@ =~= prefix@ + reason@);
    ReaderStep { message: Some(ReaderMessage::Disconnected(text)), stop: true }
}

/// Handles what came of one read.
pub fn read_step(decoder: &mut FrameDecoder, input: ReaderInput) -> (step: ReaderStep)
    ensures
        step_fits(step, old(decoder)@, input),
        final(decoder)@ == (match input {
            ReaderInput::Bytes(bytes) => wire::drain(old(decoder)@ + bytes@).rest,
            _ => old(decoder)@,
        }),
{
    match input {
        ReaderInput::Bytes(bytes) => match decoder.push(bytes) {
            Ok(events) => {
                if events.len() == 0 {
                    ReaderStep { message: None, stop: false }
                } else {
                    ReaderStep { message: Some(ReaderMessage::Events(events)), stop: false }
                }
            },
            Err(error) => {
                let reason = error.message();
                stopped("protocol error: ", reason.as_str())
            },
        },
        ReaderInput::Closed => match decoder.finish() {
            Ok(()) => {
                let step = stopped("runtime disconnected", "");
                proof {
                    reveal_strlit("");
                    assert("runtime disconnected"@ + ""@ =~= "runtime disconnected"@);
                }
                step
            },
            Err(error) => {
                let reason = error.message();
                stopped("runtime disconnected with protocol error: ", reason.as_str())
            },
        },
        ReaderInput::Failed(reason) => stopped("socket error: ", reason),
        ReaderInput::RecordFailed(reason) => stopped("could not write record file: ", reason),
    }
}

} // verus!
