//! What is shown where, in which order, and what the keys do.

use super::decode;
use super::model;
use super::model::{ConsoleModel, ConsoleState, PendingResourceModel, SortKey, TaskModel, TaskState};
use super::reader;
use super::reader::{ReaderInput, ReaderMessage, ReaderStep};
use super::screen;
use super::screen::{Body, Color, PendingRow, ResourceRow, Screen, TaskRow, WorkerRow};
use super::select;
use super::select::Key;
use super::tab;
use crate::text;
use crate::wire;
use vstd::prelude::*;

verus! {

// ---------------------------------------------------------------------------
// Order and filter
// ---------------------------------------------------------------------------

/// The number that a task is ordered by, under each setting.
pub open spec fn ordered_by(sort: SortKey, task: TaskModel) -> int {
    match sort {
        SortKey::Id => task.id as int,
        SortKey::Total => super::meaning::capped(task.total_busy_ns + task.total_idle_ns),
        SortKey::Busy => task.total_busy_ns as int,
        SortKey::Idle => task.total_idle_ns as int,
        SortKey::Polls => task.polls as int,
    }
}

/// Tasks are listed by the number that the setting names, smallest first, and by their ids
/// where that is the same. Of two tasks with different ids exactly one goes first.
pub proof fn law_tasks_are_listed_by_their_numbers(sort: SortKey, a: TaskModel, b: TaskModel)
    ensures
        ordered_by(sort, a) < ordered_by(sort, b) ==> select::listed_before(sort, a, b),
        ordered_by(sort, a) > ordered_by(sort, b) ==> !select::listed_before(sort, a, b),
        ordered_by(sort, a) == ordered_by(sort, b) ==> (select::listed_before(sort, a, b) <==> a.id
            < b.id),
{
}

/// A listing holds every task that the filter lets through and no other, each once.
pub proof fn law_a_listing_is_complete(s: ConsoleState, rows: Seq<TaskModel>, id: u64)
    requires
        select::lists_tasks(s, rows),
        forall|key: u64| #[trigger] s.tasks.contains_key(key) ==> s.tasks[key].id == key,
    ensures
        s.tasks.contains_key(id) && select::task_shown(s.filter, s.tasks[id]) <==> exists|i: int|
            0 <= i < rows.len() && (#[trigger] rows[i]).id == id,
        forall|i: int, j: int|
            0 <= i < j < rows.len() ==> (#[trigger] rows[i]).id != (#[trigger] rows[j]).id,
        forall|i: int, j: int|
            0 <= i < j < rows.len() ==> ordered_by(s.sort, #[trigger] rows[i]) <= ordered_by(
                s.sort,
                #[trigger] rows[j],
            ),
        forall|i: int| 0 <= i < rows.len() ==> s.tasks[(#[trigger] rows[i]).id] == rows[i],
{
    if s.tasks.contains_key(id) && select::task_shown(s.filter, s.tasks[id]) {
        assert(rows.contains(s.tasks[id]));
        let i = choose|i: int| 0 <= i < rows.len() && rows[i] == s.tasks[id];
        assert(rows[i].id == id);
    }
    assert forall|i: int, j: int| 0 <= i < j < rows.len() implies (#[trigger] rows[i]).id != (
    #[trigger] rows[j]).id && ordered_by(s.sort, rows[i]) <= ordered_by(s.sort, rows[j]) by {
        assert(select::listed_before(s.sort, rows[i], rows[j]));
        law_tasks_are_listed_by_their_numbers(s.sort, rows[i], rows[j]);
    }
}

/// Whether a text holds another from a place on, whatever the case of letters A to Z.
pub open spec fn holds_at(text: Seq<char>, wanted: Seq<char>, at: int) -> bool {
    &&& 0 <= at && at + wanted.len() <= text.len()
    &&& forall|k: int| 0 <= k < wanted.len() ==> same_letter(#[trigger] text[at + k], wanted[k])
}

/// Whether two characters differ at most in the case of a letter A to Z.
pub open spec fn same_letter(a: char, b: char) -> bool {
    ||| a == b
    ||| 'A' <= a <= 'Z' && b as u32 == a as u32 + 32
    ||| 'A' <= b <= 'Z' && a as u32 == b as u32 + 32
}

/// The word for each state of a task.
pub proof fn law_words_for_states(state: TaskState)
    ensures
        model::task_state_text(state) == (match state {
            TaskState::Queued => "queued"@,
            TaskState::Running => "running"@,
            TaskState::Idle => "idle"@,
            TaskState::Complete => "done"@,
            TaskState::Cancelled => "cancelled"@,
        }),
{
}

/// A filter lets through the tasks in whose name or state it stands, whatever the case of
/// letters A to Z. An empty filter lets every task through.
pub proof fn law_filters_look_at_name_and_state(filter: Seq<char>, task: TaskModel)
    ensures
        filter.len() == 0 ==> select::task_shown(filter, task),
        filter.len() > 0 ==> (select::task_shown(filter, task) <==> (exists|at: int| #[trigger]
            holds_at(task.name, filter, at)) || (exists|at: int| #[trigger]
            holds_at(model::task_state_text(task.state), filter, at))),
{
    lemma_contained(task.name, filter);
    lemma_contained(model::task_state_text(task.state), filter);
}

proof fn lemma_contained(t: Seq<char>, wanted: Seq<char>)
    ensures
        text::contains_text(text::lower_text(t), text::lower_text(wanted)) <==> exists|at: int|
            #[trigger]
            holds_at(t, wanted, at),
{
    let low = text::lower_text(t);
    let needle = text::lower_text(wanted);
    assert forall|a: char, b: char| text::ascii_lower(a) == text::ascii_lower(b) <==> same_letter(
        a,
        b,
    ) by {}
    if text::contains_text(low, needle) {
        let i = choose|i: int|
            0 <= i && i + needle.len() <= low.len() && #[trigger] low.subrange(i, i + needle.len())
                == needle;
        assert forall|k: int| 0 <= k < wanted.len() implies same_letter(
            #[trigger] t[i + k],
            wanted[k],
        ) by {
            assert(low.subrange(i, i + needle.len())[k] == needle[k]);
            assert(low[i + k] == text::ascii_lower(t[i + k]));
            assert(needle[k] == text::ascii_lower(wanted[k]));
        }
        assert(holds_at(t, wanted, i));
    }
    if exists|at: int| #[trigger] holds_at(t, wanted, at) {
        let i = choose|at: int| #[trigger] holds_at(t, wanted, at);
        let part = low.subrange(i, i + needle.len());
        assert forall|k: int| 0 <= k < needle.len() implies part[k] == needle[k] by {
            assert(same_letter(t[i + k], wanted[k]));
            assert(low[i + k] == text::ascii_lower(t[i + k]));
            assert(needle[k] == text::ascii_lower(wanted[k]));
        }
        assert(part =~= needle);
    }
}

// ---------------------------------------------------------------------------
// Keys
// ---------------------------------------------------------------------------

/// A key changes one setting and no other. While a filter is typed, keys go to it, and
/// nothing else changes until it is applied or given up.
pub proof fn law_keys_change_one_setting(s: ConsoleState, key: Key)
    ensures
        ({
            let (after, quit) = select::key_pressed(s, key);
            let typing = s.filter_input is Some;
            &&& quit <==> !typing && (key is Esc || key == Key::Char('q'))
            &&& quit ==> after == s
            &&& after.tasks == s.tasks && after.workers == s.workers && after.resources
                == s.resources && after.pending == s.pending
            &&& after.connected == s.connected && after.disconnect_reason == s.disconnect_reason
                && after.event_count == s.event_count
            &&& after.view == (if typing {
                s.view
            } else if key == Key::Char('1') {
                tab::View::Tasks
            } else if key == Key::Char('2') {
                tab::View::Workers
            } else if key == Key::Char('3') {
                tab::View::Resources
            } else if key == Key::Char('4') {
                tab::View::AsyncOps
            } else {
                s.view
            })
            &&& after.sort == (if typing {
                s.sort
            } else if key == Key::Char('t') {
                SortKey::Total
            } else if key == Key::Char('b') {
                SortKey::Busy
            } else if key == Key::Char('i') {
                SortKey::Idle
            } else if key == Key::Char('p') {
                SortKey::Polls
            } else {
                s.sort
            })
            &&& after.paused != s.paused <==> !typing && key == Key::Char(' ')
            &&& after.show_help != s.show_help <==> !typing && key == Key::Char('?')
        }),
{
}

/// What keys do to the filter: a slash opens what is typed with the filter as it is,
/// characters are added at its end and taken off there, enter makes it the filter and
/// selects the first row, and escape forgets it. The key `c` clears a filter.
pub proof fn law_keys_edit_the_filter(s: ConsoleState, key: Key)
    ensures
        ({
            let (after, _) = select::key_pressed(s, key);
            let typed = s.filter_input;
            &&& typed is None ==> {
                &&& after.filter_input == (if key == Key::Char('/') {
                    Some(s.filter)
                } else {
                    None
                })
                &&& key == Key::Char('c') && s.filter.len() > 0 ==> after.filter.len() == 0
                    && after.selected_task == 0
                &&& !(key == Key::Char('c') && s.filter.len() > 0) ==> after.filter == s.filter
            }
            &&& typed is Some ==> match key {
                Key::Enter => after.filter == typed->0 && after.filter_input is None
                    && after.selected_task == 0,
                Key::Esc => after.filter == s.filter && after.filter_input is None
                    && after.selected_task == s.selected_task,
                Key::Char(c) => {
                    &&& after.filter == s.filter && after.selected_task == s.selected_task
                    &&& after.filter_input is Some && after.filter_input->0 == typed->0 + seq![c]
                },
                Key::Backspace => {
                    &&& after.filter == s.filter && after.selected_task == s.selected_task
                    &&& after.filter_input is Some
                    &&& typed->0.len() == 0 ==> after.filter_input->0.len() == 0
                    &&& typed->0.len() > 0 ==> after.filter_input->0 + seq![typed->0.last()]
                        == typed->0
                },
                _ => after == s,
            }
        }),
{
    if let Some(input) = s.filter_input {
        if input.len() > 0 {
            assert(input.drop_last() + seq![input.last()] =~= input);
        }
        if let Key::Char(c) = key {
            assert(input.push(c) =~= input + seq![c]);
        }
    }
}

/// The arrow keys move the selection to the next row or the one before, and from one end of
/// the list to the other. Other keys leave it, but those that change the filter.
pub proof fn law_arrows_move_the_selection(s: ConsoleState, key: Key)
    requires
        s.filter_input is None,
        select::shown_count(s) <= usize::MAX,
        s.selected_task < usize::MAX,
    ensures
        ({
            let count = select::shown_count(s) as int;
            let (after, _) = select::key_pressed(s, key);
            &&& key is Down && 0 < count && s.selected_task < count - 1 ==> after.selected_task
                == s.selected_task + 1
            &&& key is Down && s.selected_task == count - 1 ==> after.selected_task == 0
            &&& key is Up && 0 < s.selected_task < count ==> after.selected_task == s.selected_task
                - 1
            &&& key is Up && 0 < count && s.selected_task == 0 ==> after.selected_task == count
                - 1
            &&& (key is Up || key is Down) && count == 0 ==> after.selected_task == 0
            &&& (key is Up || key is Down) && count > 0 ==> after.selected_task < count
            &&& !(key is Up) && !(key is Down) && key != Key::Char('c') ==> after.selected_task
                == s.selected_task
            &&& key is Up || key is Down ==> after == (ConsoleState {
                selected_task: after.selected_task,
                ..s
            })
        }),
{
    let count = select::shown_count(s) as int;
    if count > 0 {
        let at = s.selected_task as int;
        vstd::arithmetic::div_mod::lemma_mod_bound(at + 1, count);
        vstd::arithmetic::div_mod::lemma_mod_bound(at - 1, count);
        if at < count - 1 {
            vstd::arithmetic::div_mod::lemma_small_mod((at + 1) as nat, count as nat);
        }
        if at == count - 1 {
            vstd::arithmetic::div_mod::lemma_mod_self_0(count);
        }
        if 0 < at && at < count {
            vstd::arithmetic::div_mod::lemma_small_mod((at - 1) as nat, count as nat);
        }
        if at == 0 {
            vstd::arithmetic::div_mod::lemma_fundamental_div_mod_converse(
                -1,
                count,
                -1,
                count - 1,
            );
        }
    }
}

// ---------------------------------------------------------------------------
// Tables
// ---------------------------------------------------------------------------

/// Every column of a task's row shows what it is headed by. Without colors no style is
/// used; with colors the selected row stands out by its background, and any other with a
/// warning by its foreground.
pub proof fn law_rows_show_their_task(row: TaskRow, task: TaskModel, selected: bool, color: bool)
    requires
        screen::row_shows(row, task, selected, color),
    ensures
        row.id@ == text::decimal(task.id as nat),
        row.polls@ == text::decimal(task.polls as nat),
        row.scheduled@ == text::decimal(task.scheduled as nat),
        row.busy_ns == task.total_busy_ns,
        row.idle_ns == task.total_idle_ns,
        row.total_ns == super::meaning::capped(task.total_busy_ns + task.total_idle_ns),
        row.state@ == model::task_state_text(task.state),
        task.name.len() <= 20 ==> row.name@ == task.name,
        task.name.len() > 20 ==> row.name@.len() == 20 && row.name@.last() == '~'
            && row.name@.take(19) == task.name.take(19),
        task.warnings.len() == 0 ==> row.warning@ == seq![' '],
        task.warnings.len() > 0 ==> row.warning@.len() > 0 && row.warning@[0] == '!',
        task.warnings.len() == 1 ==> row.warning@.skip(1) == task.warnings[0],
        task.location is None ==> row.location@.len() == 0,
        !color ==> row.style.foreground is None && row.style.background is None,
        color && selected ==> row.style.foreground is None && row.style.background == Some(
            Color::DarkGray,
        ),
        color && !selected && task.warnings.len() > 0 ==> row.style.foreground == Some(
            Color::Yellow,
        ) && row.style.background is None,
        color && !selected && task.warnings.len() == 0 ==> row.style.foreground is None
            && row.style.background is None,
{
    reveal_strlit(" ");
    reveal_strlit("!");
    assert(" "@ =~= seq![' ']);
    if task.name.len() > 20 {
        assert(row.name@.take(19) =~= task.name.take(19));
    }
    if task.warnings.len() == 1 {
        assert(row.warning@.skip(1) =~= task.warnings[0]);
    }
}

/// The location of a task is shown as the file, cut to twenty-two characters where it is
/// longer, a colon and the line.
pub proof fn law_locations_are_file_and_line(location: wire::LocationModel)
    ensures
        location.file.len() <= 22 ==> screen::location_text(Some(location)) == location.file
            + seq![':'] + text::decimal(location.line as nat),
        location.file.len() > 22 ==> screen::location_text(Some(location)) == location.file.take(
            21,
        ) + seq!['~', ':'] + text::decimal(location.line as nat),
{
    reveal_strlit(":");
    assert(":"@ =~= seq![':']);
    if location.file.len() > 22 {
        assert(screen::location_text(Some(location)) =~= location.file.take(21) + seq!['~', ':']
            + text::decimal(location.line as nat));
    }
}

/// Texts in a row are parted by the separator and keep their order.
pub proof fn law_joined_texts_keep_their_order(
    parts: Seq<Seq<char>>,
    last: Seq<char>,
    separator: Seq<char>,
)
    ensures
        text::joined(Seq::empty(), separator).len() == 0,
        text::joined(seq![last], separator) == last,
        parts.len() > 0 ==> text::joined(parts.push(last), separator) == text::joined(
            parts,
            separator,
        ) + separator + last,
{
    assert(parts.push(last).drop_last() =~= parts);
}

/// Every column of a worker's row shows what it is headed by.
pub proof fn law_rows_show_their_worker(row: WorkerRow, id: u32, worker: model::WorkerView)
    requires
        screen::worker_row_shows(row, id, worker),
    ensures
        row.id@ == text::decimal(id as nat),
        row.polls@ == text::decimal(worker.polls as nat),
        row.busy_ns == worker.busy_ns,
        row.local_queue@ == text::decimal(worker.local_queue as nat),
        row.global_queue@ == text::decimal(worker.global_queue as nat),
        row.parks@ == text::decimal(worker.parks as nat),
        row.steals@ == text::decimal(worker.steals as nat),
{
}

/// A resource's row shows its kind, its holder, and its waiters in order or a dash.
pub proof fn law_rows_show_their_resource(row: ResourceRow, resource: model::ResourceView)
    requires
        screen::resource_row_shows(row, resource),
    ensures
        row.kind@ == resource.kind@,
        row.holder@ == text::decimal(resource.holder as nat),
        resource.waiters@.len() == 0 ==> row.waiters@ == seq!['-'],
        resource.waiters@.len() == 1 ==> row.waiters@ == text::decimal(
            resource.waiters@[0] as nat,
        ),
        resource.waiters@.len() == 2 ==> row.waiters@ == text::decimal(
            resource.waiters@[0] as nat,
        ) + seq![',', ' '] + text::decimal(resource.waiters@[1] as nat),
        resource.waiters@.len() > 0 ==> row.waiters@ == text::joined(
            Seq::new(
                resource.waiters@.len(),
                |i: int| text::decimal(resource.waiters@[i] as nat),
            ),
            seq![',', ' '],
        ),
{
    reveal_strlit("-");
    reveal_strlit(", ");
    assert("-"@ =~= seq!['-']);
    assert(", "@ =~= seq![',', ' ']);
    let waiters = resource.waiters@;
    let parts = waiters.map_values(|id: u64| text::decimal(id as nat));
    assert(parts =~= Seq::new(waiters.len(), |i: int| text::decimal(waiters[i] as nat)));
    if waiters.len() == 2 {
        assert(parts.drop_last() =~= seq![parts[0]]);
        assert(text::joined(seq![parts[0]], seq![',', ' ']) == parts[0]);
    }
}

/// A pending operation's row shows the task and what it waits for, with its numbers in
/// their places.
pub proof fn law_rows_show_their_wait(row: PendingRow, operation: model::PendingModel)
    requires
        screen::pending_row_shows(row, operation),
    ensures
        row.task@ == text::decimal(operation.task as nat),
        row.resource@ == (match operation.resource {
            PendingResourceModel::Io { fd, interest } => "io fd "@ + text::signed_decimal(
                fd as int,
            ) + " ("@ + interest + ")"@,
            PendingResourceModel::Timer { id, deadline_ns } => "timer "@ + text::decimal(id as nat)
                + " (deadline "@ + text::decimal(deadline_ns as nat) + "ns)"@,
            PendingResourceModel::Resource { kind, holder } => kind + " (held by task "@
                + text::decimal(holder as nat) + ")"@,
        }),
{
}

/// The screen shows whether there is a connection, how many events and tasks there are, the
/// help where it is asked for and the table of the open tab otherwise. Colors are used
/// only where they are on.
pub proof fn law_the_screen_shows_the_model(s: Screen, console: ConsoleModel, color: bool)
    requires
        screen::screen_shows(s, console, color),
    ensures
        s.connection@ == (if console.connected {
            " CONNECTED "@
        } else {
            " DISCONNECTED "@
        }),
        s.connection_style.background is None,
        s.connection_style.foreground == (if !color {
            None
        } else if console.connected {
            Some(Color::Green)
        } else {
            Some(Color::Red)
        }),
        s.counts@ == "  events:"@ + text::decimal(console.event_count as nat) + "  tasks:"@
            + text::decimal(console.tasks@.len()),
        s.body is Help <==> console.show_help,
        s.body matches Body::Tab { position, highlight, table } ==> {
            &&& highlight.background is None
            &&& highlight.foreground == (if color {
                Some(Color::Cyan)
            } else {
                None
            })
            &&& match console.view {
                tab::View::Tasks => position == 0 && table is Tasks,
                tab::View::Workers => position == 1 && table is Workers,
                tab::View::Resources => position == 2 && table is Resources,
                tab::View::AsyncOps => position == 3 && table is AsyncOps,
            }
        },
{
}

/// The line at the bottom: why the connection is gone, or else what is typed, or the
/// filter, or that the console is paused, or the keys.
pub proof fn law_the_footer_says_what_matters_most(s: ConsoleState)
    ensures
        ({
            let shown = screen::footer_text(s);
            &&& s.disconnect_reason is Some ==> shown == " "@ + s.disconnect_reason->0
                + "  |  q quit  r reconnect externally"@
            &&& s.disconnect_reason is None && s.filter_input is Some ==> shown == " FILTER: "@
                + s.filter_input->0 + "_  |  enter apply  esc cancel  backspace delete"@
            &&& s.disconnect_reason is None && s.filter_input is None && s.filter.len() > 0
                ==> shown == " FILTER: "@ + s.filter + "  |  / edit  esc clear  1-4 views  q quit"@
            &&& s.disconnect_reason is None && s.filter_input is None && s.filter.len() == 0
                && s.paused ==> shown == " PAUSED  |  space resume  1-4 views  ? help  q quit"@
            &&& s.disconnect_reason is None && s.filter_input is None && s.filter.len() == 0
                && !s.paused ==> shown
                == " / filter  1-4 views  t/b/i/p sort  arrows select  space pause  ? help  q quit"@
        }),
{
}

/// How long the units are.
pub proof fn law_units_of_durations()
    ensures
        screen::unit_ns(screen::DurationUnit::Nanoseconds) == 1,
        screen::unit_ns(screen::DurationUnit::Microseconds) == 1000,
        screen::unit_ns(screen::DurationUnit::Milliseconds) == 1000 * 1000,
        screen::unit_ns(screen::DurationUnit::Seconds) == 1000 * 1000 * 1000,
{
}

// ---------------------------------------------------------------------------
// Reading
// ---------------------------------------------------------------------------

/// Whether the reader stops and says why.
pub open spec fn stopped(step: ReaderStep, why: Seq<char>) -> bool {
    step.stop && (step.message matches Some(ReaderMessage::Disconnected(reason)) && reason@ == why)
}

/// Whether the reader tells of those events.
pub open spec fn told(step: ReaderStep, events: Seq<wire::EventModel>) -> bool {
    step.message matches Some(ReaderMessage::Events(list)) && decode::event_models(list@) == events
}

/// The reader goes on exactly as long as the stream does and is right, and says why where
/// it stops; what it tells the console is every event of the complete frames, in order.
pub proof fn law_the_reader_says_why_it_stops(
    step: ReaderStep,
    buffered: Seq<u8>,
    input: ReaderInput,
)
    requires
        reader::step_fits(step, buffered, input),
    ensures
        input is Closed && buffered.len() == 0 ==> stopped(step, "runtime disconnected"@),
        input is Closed && buffered.len() > 0 ==> stopped(
            step,
            "runtime disconnected with protocol error: "@ + "truncated event frame"@,
        ),
        input matches ReaderInput::Failed(why) ==> stopped(step, "socket error: "@ + why@),
        input matches ReaderInput::RecordFailed(why) ==> stopped(
            step,
            "could not write record file: "@ + why@,
        ),
        input matches ReaderInput::Bytes(bytes) ==> {
            let found = wire::drain(buffered + bytes@);
            &&& step.stop <==> found.error is Some
            &&& found.error is Some ==> stopped(
                step,
                "protocol error: "@ + decode::decode_error_text(found.error->0),
            )
            &&& found.error is None && found.events.len() == 0 ==> step.message is None
            &&& found.error is None && found.events.len() > 0 ==> told(step, found.events)
        },
{
}

/// What is shown for each error of the protocol, with its numbers in their places.
pub proof fn law_errors_are_named(size: u32, tag: u8, remaining: usize, value: &'static str)
    ensures
        decode::decode_error_text(decode::DecodeError::FrameTooLarge(size))
            == "event frame is too large ("@ + text::decimal(size as nat) + " bytes)"@,
        decode::decode_error_text(decode::DecodeError::UnknownTag(tag)) == "unknown event tag "@
            + text::decimal(tag as nat),
        decode::decode_error_text(decode::DecodeError::Truncated) == "truncated event frame"@,
        decode::decode_error_text(decode::DecodeError::InvalidUtf8)
            == "event contains invalid UTF-8"@,
        decode::decode_error_text(decode::DecodeError::InvalidValue(value)) == "invalid "@ + value@
            + " in event frame"@,
        decode::decode_error_text(decode::DecodeError::TrailingBytes { tag, remaining })
            == "event tag "@ + text::decimal(tag as nat) + " has "@ + text::decimal(
            remaining as nat,
        ) + " trailing bytes"@,
{
}

} // verus!
