//! What the calls that lay out the console show, row by row.

use super::model;
use super::model::{ConsoleModel, TaskView};
use super::screen;
use super::screen::{
    colored_style, duration_unit, footer, help_lines, pending_rows, resource_rows, tab_titles,
    task_rows, worker_rows, Color, DurationUnit, PendingRow, ResourceRow, Style, TaskRow,
    WorkerRow,
};
use super::select;
use super::showing;
use crate::text;
use vstd::prelude::*;

verus! {

/// The task table has a row for every task that the filter lets through, and no other; each
/// row shows its own task.
pub proof fn law_the_task_table_is_complete()
    ensures
        forall|console: ConsoleModel, color: bool, rows: Vec<TaskRow>, id: u64|
            #![trigger call_ensures(task_rows, (&console, color), rows), console@.tasks.contains_key(id)]
            call_ensures(task_rows, (&console, color), rows) && console@.tasks.contains_key(id) && (
            forall|key: u64| #[trigger]
                console@.tasks.contains_key(key) ==> console@.tasks[key].id == key)
                && select::task_shown(console@.filter, console@.tasks[id]) ==> exists|i: int|
                0 <= i < rows@.len() && (#[trigger] rows@[i]).id@ == text::decimal(id as nat)
                    && rows@[i].busy_ns == console@.tasks[id].total_busy_ns && rows@[i].idle_ns
                    == console@.tasks[id].total_idle_ns && rows@[i].polls@ == text::decimal(
                    console@.tasks[id].polls as nat,
                ) && rows@[i].state@ == model::task_state_text(console@.tasks[id].state),
{
    assert forall|console: ConsoleModel, color: bool, rows: Vec<TaskRow>, id: u64|
        #![trigger call_ensures(task_rows, (&console, color), rows), console@.tasks.contains_key(id)]
        call_ensures(task_rows, (&console, color), rows) && console@.tasks.contains_key(id) && (
        forall|key: u64| #[trigger]
            console@.tasks.contains_key(key) ==> console@.tasks[key].id == key)
            && select::task_shown(console@.filter, console@.tasks[id]) implies exists|i: int|
        0 <= i < rows@.len() && (#[trigger] rows@[i]).id@ == text::decimal(id as nat)
            && rows@[i].busy_ns == console@.tasks[id].total_busy_ns && rows@[i].idle_ns
            == console@.tasks[id].total_idle_ns && rows@[i].polls@ == text::decimal(
            console@.tasks[id].polls as nat,
        ) && rows@[i].state@ == model::task_state_text(console@.tasks[id].state) by {
        let s = console@;
        let tasks = choose|tasks: Seq<model::TaskModel>| #[trigger]
            select::lists_tasks(s, tasks) && rows@.len() == tasks.len() && forall|i: int|
                0 <= i < rows@.len() ==> screen::row_shows(
                    #[trigger] rows@[i],
                    tasks[i],
                    i == s.selected_task,
                    color,
                );
        showing::law_a_listing_is_complete(s, tasks, id);
        let i = choose|i: int| 0 <= i < tasks.len() && (#[trigger] tasks[i]).id == id;
        assert(screen::row_shows(rows@[i], tasks[i], i == s.selected_task, color));
    }
}

/// The worker table has a row for every worker, in the order of their numbers.
pub proof fn law_the_worker_table_is_complete()
    ensures
        forall|console: ConsoleModel, rows: Vec<WorkerRow>, id: u32|
            #![trigger call_ensures(worker_rows, (&console,), rows), console@.workers.contains_key(id)]
            call_ensures(worker_rows, (&console,), rows) && console@.workers.contains_key(id)
                ==> exists|i: int|
                0 <= i < rows@.len() && (#[trigger] rows@[i]).id@ == text::decimal(id as nat)
                    && rows@[i].busy_ns == console@.workers[id].busy_ns && rows@[i].polls@
                    == text::decimal(console@.workers[id].polls as nat) && rows@[i].steals@
                    == text::decimal(console@.workers[id].steals as nat) && rows@[i].parks@
                    == text::decimal(console@.workers[id].parks as nat),
{
    assert forall|console: ConsoleModel, rows: Vec<WorkerRow>, id: u32|
        #![trigger call_ensures(worker_rows, (&console,), rows), console@.workers.contains_key(id)]
        call_ensures(worker_rows, (&console,), rows) && console@.workers.contains_key(
            id,
        ) implies exists|i: int|
        0 <= i < rows@.len() && (#[trigger] rows@[i]).id@ == text::decimal(id as nat)
            && rows@[i].busy_ns == console@.workers[id].busy_ns && rows@[i].polls@ == text::decimal(
            console@.workers[id].polls as nat,
        ) && rows@[i].steals@ == text::decimal(console@.workers[id].steals as nat)
            && rows@[i].parks@ == text::decimal(console@.workers[id].parks as nat) by {
        let s = console@;
        let ids = choose|ids: Seq<u32>| #[trigger]
            screen::lists_workers(s, ids) && rows@.len() == ids.len() && forall|i: int|
                0 <= i < rows@.len() ==> screen::worker_row_shows(
                    #[trigger] rows@[i],
                    ids[i],
                    s.workers[ids[i]],
                );
        assert(ids.contains(id));
        let i = choose|i: int| 0 <= i < ids.len() && ids[i] == id;
        assert(screen::worker_row_shows(rows@[i], ids[i], s.workers[ids[i]]));
    }
}

/// Resources and waits have a row each, in their order.
pub proof fn law_resources_and_waits_have_a_row_each()
    ensures
        forall|console: ConsoleModel, rows: Vec<ResourceRow>| #[trigger]
            call_ensures(resource_rows, (&console,), rows) ==> {
                &&& rows@.len() == console.resources@.len()
                &&& forall|i: int|
                    0 <= i < rows@.len() ==> (#[trigger] rows@[i]).kind@
                        == console.resources@[i].kind@ && rows@[i].holder@ == text::decimal(
                        console.resources@[i].holder as nat,
                    )
            },
        forall|console: ConsoleModel, rows: Vec<PendingRow>| #[trigger]
            call_ensures(pending_rows, (&console,), rows) ==> {
                &&& rows@.len() == console@.pending.len()
                &&& forall|i: int|
                    0 <= i < rows@.len() ==> (#[trigger] rows@[i]).task@ == text::decimal(
                        console@.pending[i].task as nat,
                    ) && rows@[i].resource@ == screen::pending_text(console@.pending[i].resource)
            },
{
}

/// The page of help and the tabs say which keys there are.
pub proof fn law_help_and_tabs()
    ensures
        forall|lines: Vec<&'static str>| #[trigger]
            call_ensures(help_lines, (), lines) ==> {
                &&& lines@.len() == 5
                &&& lines@[0]@ == "1 Tasks     2 Workers     3 Resources     4 Async Ops"@
                &&& lines@[1]@ == "t/b/i/p     sort task totals, busy, idle, or polls"@
                &&& lines@[2]@ == "Up/Down    select a task     Space pause/resume"@
                &&& lines@[3]@ == "q/Esc       quit                 ? close help"@
                &&& lines@[4]@ == "The view stays available after the runtime socket closes."@
            },
        forall|titles: Vec<&'static str>| #[trigger]
            call_ensures(tab_titles, (), titles) ==> {
                &&& titles@.len() == 4
                &&& titles@[0]@ == "Tasks"@
                &&& titles@[1]@ == "Workers"@
                &&& titles@[2]@ == "Resources"@
                &&& titles@[3]@ == "Async Ops"@
            },
        forall|console: ConsoleModel, line: String| #[trigger]
            call_ensures(footer, (&console,), line) ==> line@ == screen::footer_text(console@),
{
    assert forall|lines: Vec<&'static str>| #[trigger] call_ensures(help_lines, (), lines) implies {
        &&& lines@.len() == 5
        &&& lines@[0]@ == "1 Tasks     2 Workers     3 Resources     4 Async Ops"@
        &&& lines@[1]@ == "t/b/i/p     sort task totals, busy, idle, or polls"@
        &&& lines@[2]@ == "Up/Down    select a task     Space pause/resume"@
        &&& lines@[3]@ == "q/Esc       quit                 ? close help"@
        &&& lines@[4]@ == "The view stays available after the runtime socket closes."@
    } by {
        let shown = lines@.map_values(|line: &'static str| line@);
        assert(shown.len() == lines@.len());
        assert(shown[0] == lines@[0]@ && shown[1] == lines@[1]@ && shown[2] == lines@[2]@
            && shown[3] == lines@[3]@ && shown[4] == lines@[4]@);
    }
    assert forall|titles: Vec<&'static str>| #[trigger] call_ensures(
        tab_titles,
        (),
        titles,
    ) implies {
        &&& titles@.len() == 4
        &&& titles@[0]@ == "Tasks"@
        &&& titles@[1]@ == "Workers"@
        &&& titles@[2]@ == "Resources"@
        &&& titles@[3]@ == "Async Ops"@
    } by {
        let shown = titles@.map_values(|title: &'static str| title@);
        assert(shown.len() == titles@.len());
        assert(shown[0] == titles@[0]@ && shown[1] == titles@[1]@ && shown[2] == titles@[2]@
            && shown[3] == titles@[3]@);
    }
}

/// A duration is shown in the largest unit of which it has one at least; colors are used
/// where they are on.
pub proof fn law_units_and_styles()
    ensures
        forall|ns: u64, unit: DurationUnit| #[trigger]
            call_ensures(duration_unit, (ns,), unit) ==> {
                &&& unit is Seconds <==> ns >= 1_000_000_000
                &&& unit is Milliseconds <==> 1_000_000 <= ns < 1_000_000_000
                &&& unit is Microseconds <==> 1_000 <= ns < 1_000_000
                &&& unit is Nanoseconds <==> ns < 1_000
            },
        forall|color: bool, foreground: Option<Color>, background: Option<Color>, style: Style|
            #[trigger]
            call_ensures(colored_style, (color, foreground, background), style) ==> (if color {
                style.foreground == foreground && style.background == background
            } else {
                style.foreground is None && style.background is None
            }),
{
    assert forall|ns: u64, unit: DurationUnit| #[trigger] call_ensures(
        duration_unit,
        (ns,),
        unit,
    ) implies {
        &&& unit is Seconds <==> ns >= 1_000_000_000
        &&& unit is Milliseconds <==> 1_000_000 <= ns < 1_000_000_000
        &&& unit is Microseconds <==> 1_000 <= ns < 1_000_000
        &&& unit is Nanoseconds <==> ns < 1_000
    } by {
        assert(screen::unit_ns(DurationUnit::Seconds) == 1_000_000_000);
        assert(screen::unit_ns(DurationUnit::Milliseconds) == 1_000_000);
        assert(screen::unit_ns(DurationUnit::Microseconds) == 1_000);
        assert(screen::unit_ns(DurationUnit::Nanoseconds) == 1);
    }
}

/// A task has lasted as long as it was busy and idle together, as far as that fits.
pub proof fn law_tasks_last_busy_and_idle()
    ensures
        forall|task: TaskView, ns: u64| #[trigger]
            call_ensures(TaskView::duration, (&task,), ns) ==> (task.total_busy_ns
                + task.total_idle_ns <= u64::MAX ==> ns == task.total_busy_ns + task.total_idle_ns)
                && (task.total_busy_ns + task.total_idle_ns > u64::MAX ==> ns == u64::MAX),
{
}

/// A listing holds the tasks that the filter lets through, ordered as is set. Moving the
/// selection changes nothing else.
pub proof fn law_listing_and_selecting()
    ensures
        forall|console: ConsoleModel, rows: Vec<&TaskView>| #[trigger]
            call_ensures(ConsoleModel::sorted_tasks, (&console,), rows) ==> {
                &&& forall|i: int|
                    0 <= i < rows@.len() ==> console@.tasks.contains_key(
                        (#[trigger] rows@[i])@.id,
                    ) && console@.tasks[rows@[i]@.id] == rows@[i]@ && select::task_shown(
                        console@.filter,
                        rows@[i]@,
                    )
                &&& forall|i: int, j: int|
                    0 <= i < j < rows@.len() ==> showing::ordered_by(
                        console@.sort,
                        (#[trigger] rows@[i])@,
                    ) <= showing::ordered_by(console@.sort, (#[trigger] rows@[j])@)
            },
        forall|console: ConsoleModel, task: TaskView, shown: bool| #[trigger]
            call_ensures(ConsoleModel::matches_filter, (&console, &task), shown) ==> shown
                == select::task_shown(console.filter@, task@),
        forall|console: &mut ConsoleModel, amount: isize| #[trigger]
            call_ensures(ConsoleModel::select_next, (console, amount), ()) ==> {
                let count = select::shown_count((*console)@) as int;
                let after = (*final(console))@;
                &&& count == 0 ==> after.selected_task == 0
                &&& 0 < count <= usize::MAX ==> after.selected_task as int == ((
                *console)@.selected_task + amount) % count
                &&& after == (model::ConsoleState {
                    selected_task: after.selected_task,
                    ..(*console)@
                })
            },
{
    assert forall|console: ConsoleModel, rows: Vec<&TaskView>| #[trigger] call_ensures(
        ConsoleModel::sorted_tasks,
        (&console,),
        rows,
    ) implies {
        &&& forall|i: int|
            0 <= i < rows@.len() ==> console@.tasks.contains_key((#[trigger] rows@[i])@.id)
                && console@.tasks[rows@[i]@.id] == rows@[i]@ && select::task_shown(
                console@.filter,
                rows@[i]@,
            )
        &&& forall|i: int, j: int|
            0 <= i < j < rows@.len() ==> showing::ordered_by(
                console@.sort,
                (#[trigger] rows@[i])@,
            ) <= showing::ordered_by(console@.sort, (#[trigger] rows@[j])@)
    } by {
        let models = select::row_models(rows@);
        assert forall|i: int| 0 <= i < rows@.len() implies console@.tasks.contains_key(
            (#[trigger] rows@[i])@.id,
        ) && console@.tasks[rows@[i]@.id] == rows@[i]@ && select::task_shown(
            console@.filter,
            rows@[i]@,
        ) by {
            assert(models[i] == rows@[i]@);
        }
        assert forall|i: int, j: int| 0 <= i < j < rows@.len() implies showing::ordered_by(
            console@.sort,
            (#[trigger] rows@[i])@,
        ) <= showing::ordered_by(console@.sort, (#[trigger] rows@[j])@) by {
            assert(models[i] == rows@[i]@ && models[j] == rows@[j]@);
            assert(select::listed_before(console@.sort, models[i], models[j]));
            showing::law_tasks_are_listed_by_their_numbers(console@.sort, models[i], models[j]);
        }
    }
    assert forall|console: &mut ConsoleModel, amount: isize| #[trigger] call_ensures(
        ConsoleModel::select_next,
        (console, amount),
        (),
    ) implies {
        let count = select::shown_count((*console)@) as int;
        let after = (*final(console))@;
        &&& count == 0 ==> after.selected_task == 0
        &&& 0 < count <= usize::MAX ==> after.selected_task as int == ((*console)@.selected_task
            + amount) % count
        &&& after == (model::ConsoleState { selected_task: after.selected_task, ..(*console)@ })
    } by {
        let count = select::shown_count((*console)@) as int;
        if count > 0 {
            vstd::arithmetic::div_mod::lemma_mod_bound(
                (*console)@.selected_task + amount,
                count,
            );
        }
    }
}

} // verus!
