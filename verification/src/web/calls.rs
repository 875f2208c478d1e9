//! What the bridge tells a browser, in terms of what the browser reads.

use super::read::{
    fields_of, law_messages_say_what_happened, law_status_messages_say_state_and_reason,
    read_message, text,
};
use super::{bridge_step, event_to_json, status_message, BridgeStep};
use crate::console::decode::FrameDecoder;
use crate::console::event::Event;
use crate::console::reader::ReaderInput;
use crate::wire;
use crate::wire::EventModel;
use vstd::prelude::*;

verus! {

/// A browser reads in the message of an event what the event holds, and in a status message
/// the state and the reason that it was made of.
pub proof fn law_a_browser_reads_what_was_told()
    ensures
        forall|event: Event, json: String| #[trigger]
            call_ensures(event_to_json, (&event,), json) ==> read_message(json@) == Some(
                fields_of(event@),
            ),
        forall|state: &str, reason: &str, json: String| #[trigger]
            call_ensures(status_message, (state, reason), json) ==> read_message(json@) == Some(
                seq![
                    ("type"@, text("bridge_status"@)),
                    ("state"@, text(state@)),
                    ("reason"@, text(reason@)),
                ],
            ),
{
    assert forall|event: Event, json: String| #[trigger]
        call_ensures(event_to_json, (&event,), json) implies read_message(json@) == Some(
        fields_of(event@),
    ) by {
        law_messages_say_what_happened(event@);
    }
    assert forall|state: &str, reason: &str, json: String| #[trigger]
        call_ensures(status_message, (state, reason), json) implies read_message(json@) == Some(
        seq![
            ("type"@, text("bridge_status"@)),
            ("state"@, text(state@)),
            ("reason"@, text(reason@)),
        ],
    ) by {
        law_status_messages_say_state_and_reason(state@, reason@);
    }
}

/// A stream in order is told event by event, in its order, and what is left of it waits for
/// more.
pub proof fn law_the_bridge_tells_every_event()
    ensures
        forall|decoder: &mut FrameDecoder, bytes: &[u8], step: BridgeStep| #[trigger]
            call_ensures(bridge_step, (decoder, ReaderInput::Bytes(bytes)), step) && wire::drain(
                (*decoder)@ + bytes@,
            ).error is None ==> {
                let events = wire::drain((*decoder)@ + bytes@).events;
                &&& step.end is Running
                &&& step.messages@.len() == events.len()
                &&& forall|k: int|
                    0 <= k < events.len() ==> read_message((#[trigger] step.messages@[k])@)
                        == Some(fields_of(events[k]))
                &&& (*final(decoder))@ == wire::drain((*decoder)@ + bytes@).rest
            },
{
    assert forall|decoder: &mut FrameDecoder, bytes: &[u8], step: BridgeStep| #[trigger]
        call_ensures(bridge_step, (decoder, ReaderInput::Bytes(bytes)), step) && wire::drain(
            (*decoder)@ + bytes@,
        ).error is None implies {
        let events = wire::drain((*decoder)@ + bytes@).events;
        &&& step.end is Running
        &&& step.messages@.len() == events.len()
        &&& forall|k: int|
            0 <= k < events.len() ==> read_message((#[trigger] step.messages@[k])@) == Some(
                fields_of(events[k]),
            )
        &&& (*final(decoder))@ == wire::drain((*decoder)@ + bytes@).rest
    } by {
        let events = wire::drain((*decoder)@ + bytes@).events;
        let told = step.messages@.map_values(|s: String| s@);
        let objects = events.map_values(|event: EventModel| super::event_object(event));
        assert(told == objects);
        assert(told.len() == step.messages@.len());
        assert(objects.len() == events.len());
        assert forall|k: int| 0 <= k < events.len() implies read_message(
            (#[trigger] step.messages@[k])@,
        ) == Some(fields_of(events[k])) by {
            assert(told[k] == step.messages@[k]@);
            assert(objects[k] == super::event_object(events[k]));
            law_messages_say_what_happened(events[k]);
        }
    }
}

/// Where the stream ends, or is out of order, or cannot be read, a browser gets one message
/// that says so, and the bridge is over: as it should be where the runtime has gone, and
/// with an error otherwise.
pub proof fn law_the_bridge_says_why_it_ends()
    ensures
        forall|decoder: &mut FrameDecoder, input: ReaderInput, step: BridgeStep| #[trigger]
            call_ensures(bridge_step, (decoder, input), step) && !(input matches ReaderInput::Bytes(
                bytes,
            ) && wire::drain((*decoder)@ + bytes@).error is None) ==> {
                let told = read_message(step.messages@[0]@);
                &&& step.messages@.len() == 1
                &&& told is Some
                &&& told->0.len() == 3
                &&& told->0[0] == ("type"@, text("bridge_status"@))
                &&& input is Closed ==> step.end is Finished && told->0[1] == (
                    "state"@,
                    text("disconnected"@),
                )
                &&& !(input is Closed) ==> step.end is Failed && told->0[1] == (
                    "state"@,
                    text("error"@),
                ) && told->0[2] == ("reason"@, text(step.end->Failed_0@))
                &&& input is Failed ==> step.end->Failed_0@ == "socket error: "@
                    + input->Failed_0@
                &&& input is RecordFailed ==> step.end->Failed_0@
                    == "could not write record file: "@ + input->RecordFailed_0@
                &&& input is Closed && (*decoder)@.len() == 0 ==> told->0[2] == (
                    "reason"@,
                    text("runtime disconnected"@),
                )
            },
{
    assert forall|decoder: &mut FrameDecoder, input: ReaderInput, step: BridgeStep| #[trigger]
        call_ensures(bridge_step, (decoder, input), step) && !(input matches ReaderInput::Bytes(
            bytes,
        ) && wire::drain((*decoder)@ + bytes@).error is None) implies {
        let told = read_message(step.messages@[0]@);
        &&& step.messages@.len() == 1
        &&& told is Some
        &&& told->0.len() == 3
        &&& told->0[0] == ("type"@, text("bridge_status"@))
        &&& input is Closed ==> step.end is Finished && told->0[1] == (
            "state"@,
            text("disconnected"@),
        )
        &&& !(input is Closed) ==> step.end is Failed && told->0[1] == ("state"@, text("error"@))
            && told->0[2] == ("reason"@, text(step.end->Failed_0@))
        &&& input is Failed ==> step.end->Failed_0@ == "socket error: "@ + input->Failed_0@
        &&& input is RecordFailed ==> step.end->Failed_0@ == "could not write record file: "@
            + input->RecordFailed_0@
        &&& input is Closed && (*decoder)@.len() == 0 ==> told->0[2] == (
            "reason"@,
            text("runtime disconnected"@),
        )
    } by {
        let reason = crate::console::reader::stop_reason((*decoder)@, input)->0;
        let state = if input is Closed {
            "disconnected"@
        } else {
            "error"@
        };
        let told = step.messages@.map_values(|s: String| s@);
        assert(told == seq![super::status_object(state, reason)]);
        assert(told.len() == 1);
        assert(told[0] == step.messages@[0]@);
        law_status_messages_say_state_and_reason(state, reason);
    }
}

} // verus!
