//! The JSON that the web console receives.

pub mod calls;
pub mod read;

use crate::console::decode::FrameDecoder;
use crate::console::event::{Event, PollResult, UnparkReason, WakeSource};
use crate::console::reader::{read_step, ReaderInput, ReaderMessage};
use crate::text::{chars_of, push_char, push_i32, push_text, push_u64};
use crate::wire::{EventModel, WakeSourceModel};
use vstd::prelude::*;

verus! {

// ---------------------------------------------------------------------------
// Strings
// ---------------------------------------------------------------------------

/// The control characters of Unicode.
pub open spec fn is_control(c: char) -> bool {
    (c as u32) <= 0x1f || 0x7f <= (c as u32) <= 0x9f
}

/// A lower-case hexadecimal digit.
pub open spec fn hex_digit(d: nat) -> char {
    if d < 10 {
        (48 + d) as char
    } else {
        (87 + d) as char
    }
}

/// How a character stands inside a JSON string.
pub open spec fn escaped_char(c: char) -> Seq<char> {
    if c == '"' {
        seq!['\\', '"']
    } else if c == '\\' {
        seq!['\\', '\\']
    } else if c == '\n' {
        seq!['\\', 'n']
    } else if c == '\r' {
        seq!['\\', 'r']
    } else if c == '\t' {
        seq!['\\', 't']
    } else if is_control(c) {
        seq!['\\', 'u', '0', '0', hex_digit(((c as u32) / 16) as nat), hex_digit(((c as u32) % 16) as nat)]
    } else {
        seq![c]
    }
}

/// How a text stands inside a JSON string.
pub open spec fn escaped(text: Seq<char>) -> Seq<char>
    decreases text.len(),
{
    if text.len() == 0 {
        Seq::empty()
    } else {
        escaped(text.drop_last()) + escaped_char(text.last())
    }
}

/// The JSON string of a text.
pub open spec fn string_json(text: Seq<char>) -> Seq<char> {
    seq!['"'] + escaped(text) + seq!['"']
}

fn hex_char(d: u32) -> (c: char)
    requires
        d < 16,
    ensures
        c == hex_digit(d as nat),
{
    if d < 10 {
        (48 + d as u8) as char
    } else {
        (87 + d as u8) as char
    }
}

fn push_escaped(output: &mut String, c: char)
    ensures
        final(output)@ == old(output)@ + escaped_char(c),
{
    let code: u32 = c as u32;
    if c == '"' {
        push_char(output, '\\');
        push_char(output, '"');
    } else if c == '\\' {
        push_char(output, '\\');
        push_char(output, '\\');
    } else if c == '\n' {
        push_char(output, '\\');
        push_char(output, 'n');
    } else if c == '\r' {
        push_char(output, '\\');
        push_char(output, 'r');
    } else if c == '\t' {
        push_char(output, '\\');
        push_char(output, 't');
    } else if code <= 0x1f || (0x7f <= code && code <= 0x9f) {
        push_char(output, '\\');
        push_char(output, 'u');
        push_char(output, '0');
        push_char(output, '0');
        push_char(output, hex_char(code / 16));
        push_char(output, hex_char(code % 16));
    } else {
        push_char(output, c);
    }
    assert(output@ =~= old(output)@ + escaped_char(c));
}

/// Adds the JSON string of a text.
pub fn json_string(output: &mut String, value: &str)
    ensures
        final(output)@ == old(output)@ + string_json(value@),
{
    push_char(output, '"');
    let chars = chars_of(value);
    let mut i: usize = 0;
    assert(chars@.take(0) =~= Seq::empty());
    assert(output@ =~= old(output)@.push('"') + escaped(chars@.take(0)));
    while i < chars.len()
        invariant
            i <= chars.len(),
            chars@ == value@,
            output@ == old(output)@.push('"') + escaped(chars@.take(i as int)),
        decreases chars.len() - i,
    {
        push_escaped(output, chars[i]);
        i = i + 1;
        proof {
            let sofar = chars@.take(i as int);
            assert(sofar.drop_last() =~= chars@.take(i - 1));
            let head = old(output)@.push('"');
            assert(head + escaped(chars@.take(i - 1)) + escaped_char(chars@[i - 1]) =~= head
                + escaped(sofar));
        }
    }
    assert(chars@.take(i as int) =~= chars@);
    push_char(output, '"');
    assert(output@ =~= old(output)@ + string_json(value@));
}

/// The text that the inside of a JSON string stands for, as far as this module's
/// escapes go.
pub open spec fn unescaped(body: Seq<char>) -> Seq<char>
    decreases body.len(),
{
    if body.len() == 0 {
        Seq::empty()
    } else if body[0] != '\\' || body.len() < 2 {
        seq![body[0]] + unescaped(body.skip(1))
    } else if body[1] == 'u' && body.len() >= 6 {
        seq![(16 * hex_value(body[4]) + hex_value(body[5])) as char] + unescaped(body.skip(6))
    } else {
        let c = if body[1] == 'n' {
            '\n'
        } else if body[1] == 'r' {
            '\r'
        } else if body[1] == 't' {
            '\t'
        } else {
            body[1]
        };
        seq![c] + unescaped(body.skip(2))
    }
}

/// The value of a lower-case hexadecimal digit.
pub open spec fn hex_value(c: char) -> nat {
    if (c as u32) < 58 {
        ((c as u32) - 48) as nat
    } else {
        ((c as u32) - 87) as nat
    }
}

proof fn lemma_escape_front(c: char, rest: Seq<char>)
    ensures
        unescaped(escaped_char(c) + rest) == seq![c] + unescaped(rest),
{
    let body = escaped_char(c) + rest;
    let n = escaped_char(c).len();
    assert(body.skip(n as int) =~= rest);
    if is_control(c) && c != '\n' && c != '\r' && c != '\t' {
        assert(16 * hex_value(body[4]) + hex_value(body[5]) == c as u32);
    }
}

proof fn lemma_escape(text: Seq<char>, rest: Seq<char>)
    ensures
        unescaped(escaped(text) + rest) == text + unescaped(rest),
    decreases text.len(),
{
    if text.len() == 0 {
        assert(escaped(text) + rest =~= rest);
        assert(text + unescaped(rest) =~= unescaped(rest));
    } else {
        let c = text.last();
        assert(escaped(text) + rest =~= escaped(text.drop_last()) + (escaped_char(c) + rest));
        lemma_escape(text.drop_last(), escaped_char(c) + rest);
        lemma_escape_front(c, rest);
        assert(text.drop_last() + (seq![c] + unescaped(rest)) =~= text + unescaped(rest));
    }
}

/// Escaping keeps every character: a text can be read back from its escaped form.
pub proof fn law_escape_is_invertible(text: Seq<char>)
    ensures
        unescaped(escaped(text)) == text,
{
    lemma_escape(text, Seq::empty());
    assert(escaped(text) + Seq::empty() =~= escaped(text));
    assert(text + unescaped(Seq::empty()) =~= text);
}

/// No control character stands inside a JSON string.
pub proof fn law_escaped_text_is_printable(text: Seq<char>, i: int)
    requires
        0 <= i < escaped(text).len(),
    ensures
        !is_control(escaped(text)[i]),
    decreases text.len(),
{
    if text.len() > 0 {
        let before = escaped(text.drop_last());
        if i < before.len() {
            law_escaped_text_is_printable(text.drop_last(), i);
        } else {
            let c = text.last();
            let k = i - before.len();
            assert(escaped(text)[i] == escaped_char(c)[k]);
            if is_control(c) && c != '\n' && c != '\r' && c != '\t' {
                assert(escaped_char(c)[k] == '\\' || escaped_char(c)[k] == 'u'
                    || escaped_char(c)[k] == '0' || escaped_char(c)[k] == hex_digit(
                    ((c as u32) / 16) as nat,
                ) || escaped_char(c)[k] == hex_digit(((c as u32) % 16) as nat));
            } else if escaped_char(c).len() == 2 {
                assert(k == 0 || k == 1);
            } else {
                assert(k == 0);
            }
        }
    }
}

// ---------------------------------------------------------------------------
// Events
// ---------------------------------------------------------------------------

/// The JSON of an optional text.
pub open spec fn optional_string_json(value: Option<Seq<char>>) -> Seq<char> {
    match value {
        Some(value) => string_json(value),
        None => "null"@,
    }
}

/// The JSON of an optional number.
pub open spec fn optional_u64_json(value: Option<u64>) -> Seq<char> {
    match value {
        Some(value) => crate::text::decimal(value as nat),
        None => "null"@,
    }
}

/// The JSON of a source location.
pub open spec fn location_object(location: crate::wire::LocationModel) -> Seq<char> {
    "{\"file\":"@ + string_json(location.file) + ",\"line\":"@ + crate::text::decimal(
        location.line as nat,
    ) + "}"@
}

/// The numbers of a JSON list, without its brackets.
pub open spec fn numbers_json(ids: Seq<u64>) -> Seq<char>
    decreases ids.len(),
{
    if ids.len() == 0 {
        Seq::empty()
    } else if ids.len() == 1 {
        crate::text::decimal(ids[0] as nat)
    } else {
        numbers_json(ids.drop_last()) + seq![','] + crate::text::decimal(ids.last() as nat)
    }
}

/// The JSON of a wake source.
pub open spec fn wake_source_object(source: WakeSourceModel) -> Seq<char> {
    match source {
        WakeSourceModel::Io { fd } => "{\"kind\":\"io\",\"fd\":"@ + crate::text::signed_decimal(
            fd as int,
        ) + "}"@,
        WakeSourceModel::Timer { id } => "{\"kind\":\"timer\",\"id\":"@ + crate::text::decimal(
            id as nat,
        ) + "}"@,
        WakeSourceModel::Task { id } => "{\"kind\":\"task\",\"id\":"@ + crate::text::decimal(
            id as nat,
        ) + "}"@,
        WakeSourceModel::Channel { kind } => "{\"kind\":\"channel\",\"channel\":"@ + string_json(
            kind,
        ) + "}"@,
        WakeSourceModel::External => "{\"kind\":\"external\"}"@,
    }
}

/// The name of an unpark reason.
pub open spec fn unpark_reason_text(reason: UnparkReason) -> Seq<char> {
    match reason {
        UnparkReason::Task => "task"@,
        UnparkReason::Shutdown => "shutdown"@,
        UnparkReason::Steal => "steal"@,
        UnparkReason::Event => "event"@,
    }
}

/// The name of a poll result.
pub open spec fn poll_result_text(result: PollResult) -> Seq<char> {
    match result {
        PollResult::Ready => "ready"@,
        PollResult::Pending => "pending"@,
        PollResult::Panicked => "panicked"@,
    }
}

/// The JSON of a truth value.
pub open spec fn bool_json(value: bool) -> Seq<char> {
    if value {
        "true"@
    } else {
        "false"@
    }
}

/// The JSON object of an event.
pub open spec fn event_object(event: EventModel) -> Seq<char> {
    match event {
        EventModel::TaskSpawned { id, name, location, parent } =>
            "{\"type\":\"task_spawned\",\"id\":"@ + crate::text::decimal(id as nat)
            + ",\"name\":"@ + optional_string_json(name) + ",\"location\":"@ + location_object(
            location,
        ) + ",\"parent\":"@ + optional_u64_json(parent) + "}"@,
        EventModel::TaskPollStart { id, worker, at_ns } =>
            "{\"type\":\"task_poll_start\",\"id\":"@ + crate::text::decimal(id as nat)
            + ",\"worker\":"@ + crate::text::decimal(worker as nat) + ",\"at_ns\":"@
            + crate::text::decimal(at_ns as nat) + "}"@,
        EventModel::TaskPollEnd { id, worker, duration_ns, result } =>
            "{\"type\":\"task_poll_end\",\"id\":"@ + crate::text::decimal(id as nat)
            + ",\"worker\":"@ + crate::text::decimal(worker as nat) + ",\"duration_ns\":"@
            + crate::text::decimal(duration_ns as nat) + ",\"result\":\""@ + poll_result_text(
            result,
        ) + "\"}"@,
        EventModel::TaskWoken { id, by } => "{\"type\":\"task_woken\",\"id\":"@
            + crate::text::decimal(id as nat) + ",\"by\":"@ + wake_source_object(by) + "}"@,
        EventModel::TaskDropped { id, total_polls, total_busy_ns, total_idle_ns } =>
            "{\"type\":\"task_dropped\",\"id\":"@ + crate::text::decimal(id as nat)
            + ",\"total_polls\":"@ + crate::text::decimal(total_polls as nat)
            + ",\"total_busy_ns\":"@ + crate::text::decimal(total_busy_ns as nat)
            + ",\"total_idle_ns\":"@ + crate::text::decimal(total_idle_ns as nat) + "}"@,
        EventModel::TaskAborted { id } => "{\"type\":\"task_aborted\",\"id\":"@
            + crate::text::decimal(id as nat) + "}"@,
        EventModel::WorkerPark { worker, timeout_ns } =>
            "{\"type\":\"worker_park\",\"worker\":"@ + crate::text::decimal(worker as nat)
            + ",\"timeout_ns\":"@ + optional_u64_json(timeout_ns) + "}"@,
        EventModel::WorkerUnpark { worker, reason } =>
            "{\"type\":\"worker_unpark\",\"worker\":"@ + crate::text::decimal(worker as nat)
            + ",\"reason\":"@ + string_json(unpark_reason_text(reason)) + "}"@,
        EventModel::WorkerSteal { thief, victim, count } =>
            "{\"type\":\"worker_steal\",\"thief\":"@ + crate::text::decimal(thief as nat)
            + ",\"victim\":"@ + crate::text::decimal(victim as nat) + ",\"count\":"@
            + crate::text::decimal(count as nat) + "}"@,
        EventModel::QueueDepth { worker, local, global, lifo } =>
            "{\"type\":\"queue_depth\",\"worker\":"@ + crate::text::decimal(worker as nat)
            + ",\"local\":"@ + crate::text::decimal(local as nat) + ",\"global\":"@
            + crate::text::decimal(global as nat) + ",\"lifo\":"@ + bool_json(lifo) + "}"@,
        EventModel::IoRegistered { fd, interest, task } =>
            "{\"type\":\"io_registered\",\"fd\":"@ + crate::text::signed_decimal(fd as int)
            + ",\"interest\":"@ + string_json(interest) + ",\"task\":"@ + crate::text::decimal(
            task as nat,
        ) + "}"@,
        EventModel::IoReady { fd, readiness, woke } => "{\"type\":\"io_ready\",\"fd\":"@
            + crate::text::signed_decimal(fd as int) + ",\"readiness\":"@ + string_json(readiness)
            + ",\"woke\":["@ + numbers_json(woke) + "]}"@,
        EventModel::TimerSet { id, deadline_ns, task } => "{\"type\":\"timer_set\",\"id\":"@
            + crate::text::decimal(id as nat) + ",\"deadline_ns\":"@ + crate::text::decimal(
            deadline_ns as nat,
        ) + ",\"task\":"@ + crate::text::decimal(task as nat) + "}"@,
        EventModel::TimerFired { id, lateness_ns } => "{\"type\":\"timer_fired\",\"id\":"@
            + crate::text::decimal(id as nat) + ",\"lateness_ns\":"@ + crate::text::decimal(
            lateness_ns as nat,
        ) + "}"@,
        EventModel::TimerCancelled { id } => "{\"type\":\"timer_cancelled\",\"id\":"@
            + crate::text::decimal(id as nat) + "}"@,
        EventModel::BlockingDetected { task, poll_duration_ns, location } =>
            "{\"type\":\"blocking_detected\",\"task\":"@ + crate::text::decimal(task as nat)
            + ",\"poll_duration_ns\":"@ + crate::text::decimal(poll_duration_ns as nat)
            + ",\"location\":"@ + location_object(location) + "}"@,
        EventModel::BudgetExhausted { task } => "{\"type\":\"budget_exhausted\",\"task\":"@
            + crate::text::decimal(task as nat) + "}"@,
        EventModel::ResourceContended { kind, holder, waiters } =>
            "{\"type\":\"resource_contended\",\"kind\":"@ + string_json(kind) + ",\"holder\":"@
            + crate::text::decimal(holder as nat) + ",\"waiters\":["@ + numbers_json(waiters)
            + "]}"@,
    }
}

/// Adds an optional text.
pub fn optional_string(output: &mut String, value: &Option<String>)
    ensures
        final(output)@ == old(output)@ + optional_string_json(
            crate::console::event::optional_text(*value),
        ),
{
    match value {
        Some(value) => json_string(output, value.as_str()),
        None => push_text(output, "null"),
    }
}

/// Adds an optional number.
pub fn optional_u64(output: &mut String, value: Option<u64>)
    ensures
        final(output)@ == old(output)@ + optional_u64_json(value),
{
    match value {
        Some(value) => push_u64(output, value),
        None => push_text(output, "null"),
    }
}

/// Adds a source location.
pub fn location_json(output: &mut String, file: &str, line: u32)
    ensures
        final(output)@ == old(output)@ + location_object(
            crate::wire::LocationModel { file: file@, line },
        ),
{
    push_text(output, "{\"file\":");
    json_string(output, file);
    push_text(output, ",\"line\":");
    push_u64(output, line as u64);
    push_text(output, "}");
    assert(output@ =~= old(output)@ + location_object(
        crate::wire::LocationModel { file: file@, line },
    ));
}

fn numbers(output: &mut String, ids: &Vec<u64>)
    ensures
        final(output)@ == old(output)@ + numbers_json(ids@),
{
    let mut i: usize = 0;
    assert(ids@.take(0) =~= Seq::empty());
    assert(output@ =~= old(output)@ + numbers_json(ids@.take(0)));
    while i < ids.len()
        invariant
            i <= ids.len(),
            output@ == old(output)@ + numbers_json(ids@.take(i as int)),
        decreases ids.len() - i,
    {
        if i > 0 {
            push_char(output, ',');
        }
        push_u64(output, ids[i]);
        i = i + 1;
        assert(ids@.take(i as int).drop_last() =~= ids@.take(i - 1));
        assert(output@ =~= old(output)@ + numbers_json(ids@.take(i as int)));
    }
    assert(ids@.take(i as int) =~= ids@);
}

/// Adds a wake source.
pub fn wake_source_json(output: &mut String, source: &WakeSource)
    ensures
        final(output)@ == old(output)@ + wake_source_object(source@),
{
    match source {
        WakeSource::Io { fd } => {
            push_text(output, "{\"kind\":\"io\",\"fd\":");
            push_i32(output, *fd);
            push_text(output, "}");
        },
        WakeSource::Timer { id } => {
            push_text(output, "{\"kind\":\"timer\",\"id\":");
            push_u64(output, *id);
            push_text(output, "}");
        },
        WakeSource::Task(id) => {
            push_text(output, "{\"kind\":\"task\",\"id\":");
            push_u64(output, *id);
            push_text(output, "}");
        },
        WakeSource::Channel { kind } => {
            push_text(output, "{\"kind\":\"channel\",\"channel\":");
            json_string(output, kind.as_str());
            push_text(output, "}");
        },
        WakeSource::External => push_text(output, "{\"kind\":\"external\"}"),
    }
    assert(output@ =~= old(output)@ + wake_source_object(source@));
}

/// The name of an unpark reason.
pub fn unpark_reason_name(reason: UnparkReason) -> (name: &'static str)
    ensures
        name@ == unpark_reason_text(reason),
{
    match reason {
        UnparkReason::Task => "task",
        UnparkReason::Shutdown => "shutdown",
        UnparkReason::Steal => "steal",
        UnparkReason::Event => "event",
    }
}

fn field(output: &mut String, label: &str, value: u64)
    ensures
        final(output)@ == old(output)@ + label@ + crate::text::decimal(value as nat),
{
    push_text(output, label);
    push_u64(output, value);
}

/// Serializes an event into the browser wire format.
#[verifier::rlimit(40)]
pub fn event_to_json(event: &Event) -> (json: String)
    ensures
        json@ == event_object(event@),
{
    let mut output = String::new();
    match event {
        Event::TaskSpawned { id, name, location, parent } => {
            field(&mut output, "{\"type\":\"task_spawned\",\"id\":", *id);
            push_text(&mut output, ",\"name\":");
            optional_string(&mut output, name);
            push_text(&mut output, ",\"location\":");
            location_json(&mut output, location.file.as_str(), location.line);
            push_text(&mut output, ",\"parent\":");
            optional_u64(&mut output, *parent);
            push_text(&mut output, "}");
        },
        Event::TaskPollStart { id, worker, at_ns } => {
            field(&mut output, "{\"type\":\"task_poll_start\",\"id\":", *id);
            field(&mut output, ",\"worker\":", *worker as u64);
            field(&mut output, ",\"at_ns\":", *at_ns);
            push_text(&mut output, "}");
        },
        Event::TaskPollEnd { id, worker, duration_ns, result } => {
            field(&mut output, "{\"type\":\"task_poll_end\",\"id\":", *id);
            field(&mut output, ",\"worker\":", *worker as u64);
            field(&mut output, ",\"duration_ns\":", *duration_ns);
            push_text(&mut output, ",\"result\":\"");
            match result {
                PollResult::Ready => push_text(&mut output, "ready"),
                PollResult::Pending => push_text(&mut output, "pending"),
                PollResult::Panicked => push_text(&mut output, "panicked"),
            }
            push_text(&mut output, "\"}");
        },
        Event::TaskWoken { id, by } => {
            field(&mut output, "{\"type\":\"task_woken\",\"id\":", *id);
            push_text(&mut output, ",\"by\":");
            wake_source_json(&mut output, by);
            push_text(&mut output, "}");
        },
        Event::TaskDropped { id, total_polls, total_busy_ns, total_idle_ns } => {
            field(&mut output, "{\"type\":\"task_dropped\",\"id\":", *id);
            field(&mut output, ",\"total_polls\":", *total_polls);
            field(&mut output, ",\"total_busy_ns\":", *total_busy_ns);
            field(&mut output, ",\"total_idle_ns\":", *total_idle_ns);
            push_text(&mut output, "}");
        },
        Event::TaskAborted { id } => {
            field(&mut output, "{\"type\":\"task_aborted\",\"id\":", *id);
            push_text(&mut output, "}");
        },
        Event::WorkerPark { worker, timeout_ns } => {
            field(&mut output, "{\"type\":\"worker_park\",\"worker\":", *worker as u64);
            push_text(&mut output, ",\"timeout_ns\":");
            optional_u64(&mut output, *timeout_ns);
            push_text(&mut output, "}");
        },
        Event::WorkerUnpark { worker, reason } => {
            field(&mut output, "{\"type\":\"worker_unpark\",\"worker\":", *worker as u64);
            push_text(&mut output, ",\"reason\":");
            json_string(&mut output, unpark_reason_name(*reason));
            push_text(&mut output, "}");
        },
        Event::WorkerSteal { thief, victim, count } => {
            field(&mut output, "{\"type\":\"worker_steal\",\"thief\":", *thief as u64);
            field(&mut output, ",\"victim\":", *victim as u64);
            field(&mut output, ",\"count\":", *count);
            push_text(&mut output, "}");
        },
        Event::QueueDepth { worker, local, global, lifo } => {
            field(&mut output, "{\"type\":\"queue_depth\",\"worker\":", *worker as u64);
            field(&mut output, ",\"local\":", *local);
            field(&mut output, ",\"global\":", *global);
            push_text(&mut output, ",\"lifo\":");
            if *lifo {
                push_text(&mut output, "true");
            } else {
                push_text(&mut output, "false");
            }
            push_text(&mut output, "}");
        },
        Event::IoRegistered { fd, interest, task } => {
            push_text(&mut output, "{\"type\":\"io_registered\",\"fd\":");
            push_i32(&mut output, *fd);
            push_text(&mut output, ",\"interest\":");
            json_string(&mut output, interest.as_str());
            field(&mut output, ",\"task\":", *task);
            push_text(&mut output, "}");
        },
        Event::IoReady { fd, readiness, woke } => {
            push_text(&mut output, "{\"type\":\"io_ready\",\"fd\":");
            push_i32(&mut output, *fd);
            push_text(&mut output, ",\"readiness\":");
            json_string(&mut output, readiness.as_str());
            push_text(&mut output, ",\"woke\":[");
            numbers(&mut output, woke);
            push_text(&mut output, "]}");
        },
        Event::TimerSet { id, deadline_ns, task } => {
            field(&mut output, "{\"type\":\"timer_set\",\"id\":", *id);
            field(&mut output, ",\"deadline_ns\":", *deadline_ns);
            field(&mut output, ",\"task\":", *task);
            push_text(&mut output, "}");
        },
        Event::TimerFired { id, lateness_ns } => {
            field(&mut output, "{\"type\":\"timer_fired\",\"id\":", *id);
            field(&mut output, ",\"lateness_ns\":", *lateness_ns);
            push_text(&mut output, "}");
        },
        Event::TimerCancelled { id } => {
            field(&mut output, "{\"type\":\"timer_cancelled\",\"id\":", *id);
            push_text(&mut output, "}");
        },
        Event::BlockingDetected { task, poll_duration_ns, location } => {
            field(&mut output, "{\"type\":\"blocking_detected\",\"task\":", *task);
            field(&mut output, ",\"poll_duration_ns\":", *poll_duration_ns);
            push_text(&mut output, ",\"location\":");
            location_json(&mut output, location.file.as_str(), location.line);
            push_text(&mut output, "}");
        },
        Event::BudgetExhausted { task } => {
            field(&mut output, "{\"type\":\"budget_exhausted\",\"task\":", *task);
            push_text(&mut output, "}");
        },
        Event::ResourceContended { kind, holder, waiters } => {
            push_text(&mut output, "{\"type\":\"resource_contended\",\"kind\":");
            json_string(&mut output, kind.as_str());
            field(&mut output, ",\"holder\":", *holder);
            push_text(&mut output, ",\"waiters\":[");
            numbers(&mut output, waiters);
            push_text(&mut output, "]}");
        },
    }
    assert(output@ =~= event_object(event@));
    output
}

/// The JSON object that tells a browser about the bridge itself.
pub open spec fn status_object(state: Seq<char>, reason: Seq<char>) -> Seq<char> {
    "{\"type\":\"bridge_status\",\"state\":"@ + string_json(state) + ",\"reason\":"@ + string_json(
        reason,
    ) + "}"@
}

/// The message that tells a browser about the bridge itself.
pub fn status_message(state: &str, reason: &str) -> (message: String)
    ensures
        message@ == status_object(state@, reason@),
{
    let mut message = String::new();
    push_text(&mut message, "{\"type\":\"bridge_status\",\"state\":");
    json_string(&mut message, state);
    push_text(&mut message, ",\"reason\":");
    json_string(&mut message, reason);
    push_text(&mut message, "}");
    assert(message@ =~= status_object(state@, reason@));
    message
}

// ---------------------------------------------------------------------------
// The bridge
// ---------------------------------------------------------------------------

/// How a client's connection goes on.
#[derive(Debug)]
pub enum BridgeEnd {
    /// There is more to read.
    Running,
    /// The runtime has closed the stream.
    Finished,
    /// The connection failed, with the reason that the client was told.
    Failed(String),
}

/// What the bridge does next: the messages that it sends, and how it goes on.
#[derive(Debug)]
pub struct BridgeStep {
    pub messages: Vec<String>,
    pub end: BridgeEnd,
}

/// The messages for what came of a read: one for each event, or one status where
/// the connection ends.
pub open spec fn bridge_messages(buffered: Seq<u8>, input: ReaderInput) -> Seq<Seq<char>> {
    match crate::console::reader::stop_reason(buffered, input) {
        Some(reason) => seq![
            status_object(
                if input is Closed {
                    "disconnected"@
                } else {
                    "error"@
                },
                reason,
            ),
        ],
        None => match input {
            ReaderInput::Bytes(bytes) => crate::wire::drain(buffered + bytes@).events.map_values(
                |event: EventModel| event_object(event),
            ),
            _ => Seq::empty(),
        },
    }
}

/// Whether the bridge goes on as it should.
pub open spec fn bridge_ends(end: BridgeEnd, buffered: Seq<u8>, input: ReaderInput) -> bool {
    match crate::console::reader::stop_reason(buffered, input) {
        None => end is Running,
        Some(reason) => if input is Closed {
            end is Finished
        } else {
            end matches BridgeEnd::Failed(text) && text@ == reason
        },
    }
}

/// Turns what came of a read of the runtime's socket into messages for a browser.
pub fn bridge_step(decoder: &mut FrameDecoder, input: ReaderInput) -> (step: BridgeStep)
    ensures
        step.messages@.map_values(|s: String| s@) == bridge_messages(old(decoder)@, input),
        bridge_ends(step.end, old(decoder)@, input),
        final(decoder)@ == (match input {
            ReaderInput::Bytes(bytes) => crate::wire::drain(old(decoder)@ + bytes@).rest,
            _ => old(decoder)@,
        }),
{
    let closed = match &input {
        ReaderInput::Closed => true,
        _ => false,
    };
    let ghost buffered = decoder@;
    let step = read_step(decoder, input);
    let mut messages: Vec<String> = Vec::new();
    match step.message {
        None => {
            assert(messages@.map_values(|s: String| s@) =~= bridge_messages(buffered, input));
            BridgeStep { messages, end: BridgeEnd::Running }
        },
        Some(ReaderMessage::Events(events)) => {
            let ghost wanted = crate::console::decode::event_models(events@);
            let mut i: usize = 0;
            while i < events.len()
                invariant
                    i <= events.len(),
                    wanted == crate::console::decode::event_models(events@),
                    messages.len() == i,
                    forall|j: int|
                        0 <= j < i ==> (#[trigger] messages@[j])@ == event_object(wanted[j]),
                decreases events.len() - i,
            {
                messages.push(event_to_json(&events[i]));
                i = i + 1;
            }
            assert(messages@.map_values(|s: String| s@) =~= bridge_messages(buffered, input));
            BridgeStep { messages, end: BridgeEnd::Running }
        },
        Some(ReaderMessage::Disconnected(reason)) => {
            if closed {
                messages.push(status_message("disconnected", reason.as_str()));
                assert(messages@.map_values(|s: String| s@) =~= bridge_messages(buffered, input));
                BridgeStep { messages, end: BridgeEnd::Finished }
            } else {
                messages.push(status_message("error", reason.as_str()));
                assert(messages@.map_values(|s: String| s@) =~= bridge_messages(buffered, input));
                BridgeStep { messages, end: BridgeEnd::Failed(reason) }
            }
        },
    }
}

} // verus!
