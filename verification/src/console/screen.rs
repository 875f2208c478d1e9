//! What the console shows, as text and styles. Drawing it is left to a terminal.

use super::model;
use super::model::{ConsoleModel, PendingOperation, PendingResource, ResourceView, TaskView, WorkerView};
use super::tab;
use crate::text::{join, push_i32, push_text, push_u64, shorten, u64_text};
use vstd::prelude::*;

verus! {

broadcast use vstd::std_specs::btree::group_btree_axioms;

/// The colors that the console uses.
#[derive(Clone, Copy, Debug, PartialEq, Eq, Structural)]
pub enum Color {
    Green,
    Red,
    Cyan,
    Yellow,
    DarkGray,
}

/// Foreground and background of a piece of text.
#[derive(Clone, Copy, Debug, PartialEq, Eq, Structural)]
pub struct Style {
    pub foreground: Option<Color>,
    pub background: Option<Color>,
}

/// A style with the given colors, or a plain one where colors are off.
pub fn colored_style(
    color: bool,
    foreground: Option<Color>,
    background: Option<Color>,
) -> (style: Style)
    ensures
        style == (if color {
            Style { foreground, background }
        } else {
            Style { foreground: None, background: None }
        }),
{
    if color {
        Style { foreground, background }
    } else {
        Style { foreground: None, background: None }
    }
}

impl Default for Style {
    fn default() -> (style: Self)
        ensures
            style == (Style { foreground: None, background: None }),
    {
        Style { foreground: None, background: None }
    }
}

/// One line of the task table. Durations are nanoseconds.
#[derive(Debug)]
pub struct TaskRow {
    pub id: String,
    pub name: String,
    pub state: &'static str,
    pub total_ns: u64,
    pub busy_ns: u64,
    pub idle_ns: u64,
    pub polls: String,
    pub scheduled: String,
    pub warning: String,
    pub location: String,
    pub style: Style,
}

/// What the warning column shows.
pub open spec fn warning_text(warnings: Seq<Seq<char>>) -> Seq<char> {
    if warnings.len() == 0 {
        " "@
    } else {
        "!"@ + crate::text::joined(warnings, ","@)
    }
}

/// What the location column shows.
pub open spec fn location_text(location: Option<crate::wire::LocationModel>) -> Seq<char> {
    match location {
        Some(location) => crate::text::shortened(location.file, 22) + ":"@ + crate::text::decimal(
            location.line as nat,
        ),
        None => Seq::empty(),
    }
}

/// How a line of the task table is styled: the selected line stands out, and so
/// does a line with warnings.
pub open spec fn task_style(selected: bool, warnings: nat, color: bool) -> Style {
    if color && selected {
        Style { foreground: None, background: Some(Color::DarkGray) }
    } else if color && warnings > 0 {
        Style { foreground: Some(Color::Yellow), background: None }
    } else {
        Style { foreground: None, background: None }
    }
}

/// Whether a row shows a task.
pub open spec fn row_shows(row: TaskRow, task: model::TaskModel, selected: bool, color: bool) -> bool {
    &&& row.id@ == crate::text::decimal(task.id as nat)
    &&& row.name@ == crate::text::shortened(task.name, 20)
    &&& row.state@ == model::task_state_text(task.state)
    &&& row.total_ns == model::saturating_sum(task.total_busy_ns, task.total_idle_ns)
    &&& row.busy_ns == task.total_busy_ns
    &&& row.idle_ns == task.total_idle_ns
    &&& row.polls@ == crate::text::decimal(task.polls as nat)
    &&& row.scheduled@ == crate::text::decimal(task.scheduled as nat)
    &&& row.warning@ == warning_text(task.warnings)
    &&& row.location@ == location_text(task.location)
    &&& row.style == task_style(selected, task.warnings.len(), color)
}

/// The line of the task table for one task.
pub fn task_row(task: &TaskView, selected: bool, color: bool) -> (row: TaskRow)
    ensures
        row_shows(row, task@, selected, color),
{
    let mut warning = String::new();
    if task.warnings.len() == 0 {
        push_text(&mut warning, " ");
        assert(warning@ =~= " "@);
    } else {
        push_text(&mut warning, "!");
        let list = join(&task.warnings, ",");
        push_text(&mut warning, list.as_str());
        assert(warning@ =~= warning_text(task@.warnings));
    }
    let mut location = String::new();
    if let Some(at) = &task.location {
        let file = shorten(at.file.as_str(), 22);
        push_text(&mut location, file.as_str());
        push_text(&mut location, ":");
        push_u64(&mut location, at.line as u64);
        assert(location@ =~= location_text(task@.location));
    }
    let style = if selected {
        colored_style(color, None, Some(Color::DarkGray))
    } else if task.warnings.len() > 0 {
        colored_style(color, Some(Color::Yellow), None)
    } else {
        Style::default()
    };
    TaskRow {
        id: u64_text(task.id),
        name: shorten(task.name.as_str(), 20),
        state: task.state.as_str(),
        total_ns: task.duration(),
        busy_ns: task.total_busy_ns,
        idle_ns: task.total_idle_ns,
        polls: u64_text(task.polls),
        scheduled: u64_text(task.scheduled),
        warning,
        location,
        style,
    }
}

/// Whether rows show the tasks that the filter lets through, in order.
pub open spec fn task_table(s: model::ConsoleState, rows: Seq<TaskRow>, color: bool) -> bool {
    exists|tasks: Seq<model::TaskModel>| #[trigger]
        super::select::lists_tasks(s, tasks) && rows.len() == tasks.len() && forall|i: int|
            0 <= i < rows.len() ==> row_shows(
                #[trigger] rows[i],
                tasks[i],
                i == s.selected_task,
                color,
            )
}

/// The task table.
pub fn task_rows(console: &ConsoleModel, color: bool) -> (rows: Vec<TaskRow>)
    requires
        console.wf(),
    ensures
        task_table(console@, rows@, color),
{
    let tasks = console.sorted_tasks();
    let mut rows: Vec<TaskRow> = Vec::new();
    let mut i: usize = 0;
    while i < tasks.len()
        invariant
            i <= tasks.len(),
            rows.len() == i,
            forall|j: int|
                0 <= j < i ==> row_shows(
                    #[trigger] rows@[j],
                    tasks@[j]@,
                    j == console.selected_task,
                    color,
                ),
        decreases tasks.len() - i,
    {
        rows.push(task_row(tasks[i], i == console.selected_task, color));
        i = i + 1;
    }
    proof {
        let listed = super::select::row_models(tasks@);
        assert(super::select::lists_tasks(console@, listed));
        assert forall|j: int| 0 <= j < rows.len() implies row_shows(
            #[trigger] rows@[j],
            listed[j],
            j == console@.selected_task,
            color,
        ) by {
            assert(listed[j] == tasks@[j]@);
        }
    }
    rows
}

/// One line of the worker table. The busy time is in nanoseconds.
#[derive(Debug)]
pub struct WorkerRow {
    pub id: String,
    pub polls: String,
    pub busy_ns: u64,
    pub local_queue: String,
    pub global_queue: String,
    pub parks: String,
    pub steals: String,
}

/// Whether a row shows a worker.
pub open spec fn worker_row_shows(row: WorkerRow, id: u32, worker: WorkerView) -> bool {
    &&& row.id@ == crate::text::decimal(id as nat)
    &&& row.polls@ == crate::text::decimal(worker.polls as nat)
    &&& row.busy_ns == worker.busy_ns
    &&& row.local_queue@ == crate::text::decimal(worker.local_queue as nat)
    &&& row.global_queue@ == crate::text::decimal(worker.global_queue as nat)
    &&& row.parks@ == crate::text::decimal(worker.parks as nat)
    &&& row.steals@ == crate::text::decimal(worker.steals as nat)
}

/// Whether rows show every worker once, in the order of their ids.
pub open spec fn worker_table(s: model::ConsoleState, rows: Seq<WorkerRow>) -> bool {
    exists|ids: Seq<u32>| #[trigger]
        lists_workers(s, ids) && rows.len() == ids.len() && forall|i: int|
            0 <= i < rows.len() ==> worker_row_shows(#[trigger] rows[i], ids[i], s.workers[ids[i]])
}

/// Whether `ids` holds the ids of all workers, in ascending order.
pub open spec fn lists_workers(s: model::ConsoleState, ids: Seq<u32>) -> bool {
    &&& forall|i: int, j: int| 0 <= i < j < ids.len() ==> #[trigger] ids[i] < #[trigger] ids[j]
    &&& forall|id: u32| #[trigger] ids.contains(id) <==> s.workers.contains_key(id)
}

fn worker_ids(console: &ConsoleModel) -> (ids: Vec<u32>)
    ensures
        lists_workers(console@, ids@),
{
    broadcast use vstd::laws_cmp::group_laws_cmp;

    let mut ids: Vec<u32> = Vec::new();
    let entries = console.workers.iter();
    let ghost pairs = vstd::std_specs::iter::IteratorSpec::remaining(
        &vstd::std_specs::btree::spec_btree_map_iter(&console.workers),
    );
    let ghost all = pairs.map_values(|entry: (&u32, &WorkerView)| *entry.0);
    proof {
        vstd::std_specs::btree::axiom_increasing_seq_meaning(all);
    }
    for entry in it: entries
        invariant
            all == it.seq().map_values(|entry: (&u32, &WorkerView)| *entry.0),
            ids@ == all.take(it.index()),
    {
        ids.push(*entry.0);
        assert(ids@ =~= all.take(it.index() + 1));
    }
    assert(ids@ =~= all);
    assert forall|i: int, j: int| 0 <= i < j < ids@.len() implies #[trigger] ids@[i]
        < #[trigger] ids@[j] by {
        assert(vstd::std_specs::cmp::OrdSpec::cmp_spec(&all[i], &all[j]) is Less);
    }
    assert forall|id: u32| #[trigger] ids@.contains(id) <==> console@.workers.contains_key(id) by {
        if console.workers@.contains_key(id) {
            let pair = (&id, &console.workers@[id]);
            assert(pairs.contains(pair));
            let k = choose|k: int| 0 <= k < pairs.len() && pairs[k] == pair;
            assert(all[k] == id);
        }
        if ids@.contains(id) {
            let k = choose|k: int| 0 <= k < ids@.len() && ids@[k] == id;
            assert(console.workers@.contains_key(*pairs[k].0));
        }
    }
    ids
}

/// The worker table.
pub fn worker_rows(console: &ConsoleModel) -> (rows: Vec<WorkerRow>)
    ensures
        worker_table(console@, rows@),
{
    let ids = worker_ids(console);
    let mut rows: Vec<WorkerRow> = Vec::new();
    let mut i: usize = 0;
    while i < ids.len()
        invariant
            i <= ids.len(),
            lists_workers(console@, ids@),
            rows.len() == i,
            forall|j: int|
                0 <= j < i ==> worker_row_shows(
                    #[trigger] rows@[j],
                    ids@[j],
                    console@.workers[ids@[j]],
                ),
        decreases ids.len() - i,
    {
        let id: u32 = ids[i];
        assert(ids@.contains(id));
        if let Some(worker) = console.workers.get(&id) {
            rows.push(
                WorkerRow {
                    id: u64_text(id as u64),
                    polls: u64_text(worker.polls),
                    busy_ns: worker.busy_ns,
                    local_queue: u64_text(worker.local_queue),
                    global_queue: u64_text(worker.global_queue),
                    parks: u64_text(worker.parks),
                    steals: u64_text(worker.steals),
                },
            );
        }
        i = i + 1;
    }
    rows
}

/// One line of the resource table.
#[derive(Debug)]
pub struct ResourceRow {
    pub kind: String,
    pub holder: String,
    pub waiters: String,
}

/// What the waiter column shows.
pub open spec fn waiters_text(waiters: Seq<u64>) -> Seq<char> {
    if waiters.len() == 0 {
        "-"@
    } else {
        crate::text::joined(
            waiters.map_values(|id: u64| crate::text::decimal(id as nat)),
            ", "@,
        )
    }
}

/// Whether a row shows a resource.
pub open spec fn resource_row_shows(row: ResourceRow, resource: ResourceView) -> bool {
    &&& row.kind@ == resource.kind@
    &&& row.holder@ == crate::text::decimal(resource.holder as nat)
    &&& row.waiters@ == waiters_text(resource.waiters@)
}

/// The text of the waiter column.
fn waiter_list(waiters: &Vec<u64>) -> (text: String)
    ensures
        text@ == waiters_text(waiters@),
{
    if waiters.len() == 0 {
        return "-".to_owned();
    }
    let mut parts: Vec<String> = Vec::new();
    let ghost wanted = waiters@.map_values(|id: u64| crate::text::decimal(id as nat));
    let mut i: usize = 0;
    while i < waiters.len()
        invariant
            i <= waiters.len(),
            wanted == waiters@.map_values(|id: u64| crate::text::decimal(id as nat)),
            parts.len() == i,
            forall|j: int| 0 <= j < i ==> (#[trigger] parts@[j])@ == wanted[j],
        decreases waiters.len() - i,
    {
        parts.push(u64_text(waiters[i]));
        i = i + 1;
    }
    assert(parts@.map_values(|s: String| s@) =~= wanted);
    join(&parts, ", ")
}

/// The resource table: one line for each resource, in the order of their kinds.
pub fn resource_rows(console: &ConsoleModel) -> (rows: Vec<ResourceRow>)
    ensures
        rows.len() == console.resources@.len(),
        forall|i: int|
            0 <= i < rows.len() ==> resource_row_shows(
                #[trigger] rows@[i],
                console.resources@[i],
            ),
{
    let mut rows: Vec<ResourceRow> = Vec::new();
    let mut i: usize = 0;
    while i < console.resources.len()
        invariant
            i <= console.resources@.len(),
            rows.len() == i,
            forall|j: int|
                0 <= j < i ==> resource_row_shows(#[trigger] rows@[j], console.resources@[j]),
        decreases console.resources@.len() - i,
    {
        let resource = &console.resources[i];
        rows.push(
            ResourceRow {
                kind: resource.kind.clone(),
                holder: u64_text(resource.holder),
                waiters: waiter_list(&resource.waiters),
            },
        );
        i = i + 1;
    }
    rows
}

/// One line of the table of pending operations.
#[derive(Debug)]
pub struct PendingRow {
    pub task: String,
    pub resource: String,
}

/// What is shown of the resource that an operation waits for.
pub open spec fn pending_text(resource: model::PendingResourceModel) -> Seq<char> {
    match resource {
        model::PendingResourceModel::Io { fd, interest } => "io fd "@
            + crate::text::signed_decimal(fd as int) + " ("@ + interest + ")"@,
        model::PendingResourceModel::Timer { id, deadline_ns } => "timer "@ + crate::text::decimal(
            id as nat,
        ) + " (deadline "@ + crate::text::decimal(deadline_ns as nat) + "ns)"@,
        model::PendingResourceModel::Resource { kind, holder } => kind + " (held by task "@
            + crate::text::decimal(holder as nat) + ")"@,
    }
}

/// Whether a row shows a pending operation.
pub open spec fn pending_row_shows(row: PendingRow, operation: model::PendingModel) -> bool {
    &&& row.task@ == crate::text::decimal(operation.task as nat)
    &&& row.resource@ == pending_text(operation.resource)
}

fn pending_row(operation: &PendingOperation) -> (row: PendingRow)
    ensures
        pending_row_shows(row, operation@),
{
    let mut out = String::new();
    match &operation.resource {
        PendingResource::Io { fd, interest } => {
            push_text(&mut out, "io fd ");
            push_i32(&mut out, *fd);
            push_text(&mut out, " (");
            push_text(&mut out, interest.as_str());
            push_text(&mut out, ")");
        },
        PendingResource::Timer { id, deadline_ns } => {
            push_text(&mut out, "timer ");
            push_u64(&mut out, *id);
            push_text(&mut out, " (deadline ");
            push_u64(&mut out, *deadline_ns);
            push_text(&mut out, "ns)");
        },
        PendingResource::Resource { kind, holder } => {
            push_text(&mut out, kind.as_str());
            push_text(&mut out, " (held by task ");
            push_u64(&mut out, *holder);
            push_text(&mut out, ")");
        },
    }
    assert(out@ =~= pending_text(operation@.resource));
    PendingRow { task: u64_text(operation.task), resource: out }
}

/// The table of pending operations, in the order in which they were noted.
pub fn pending_rows(console: &ConsoleModel) -> (rows: Vec<PendingRow>)
    ensures
        rows.len() == console@.pending.len(),
        forall|i: int|
            0 <= i < rows.len() ==> pending_row_shows(#[trigger] rows@[i], console@.pending[i]),
{
    let mut rows: Vec<PendingRow> = Vec::new();
    let mut i: usize = 0;
    while i < console.pending_operations.len()
        invariant
            i <= console.pending_operations@.len(),
            rows.len() == i,
            forall|j: int|
                0 <= j < i ==> pending_row_shows(
                    #[trigger] rows@[j],
                    console.pending_operations@[j]@,
                ),
        decreases console.pending_operations@.len() - i,
    {
        rows.push(pending_row(&console.pending_operations[i]));
        i = i + 1;
    }
    rows
}

/// The line at the bottom.
pub open spec fn footer_text(s: model::ConsoleState) -> Seq<char> {
    if let Some(reason) = s.disconnect_reason {
        " "@ + reason + "  |  q quit  r reconnect externally"@
    } else if let Some(input) = s.filter_input {
        " FILTER: "@ + input + "_  |  enter apply  esc cancel  backspace delete"@
    } else if s.filter.len() > 0 {
        " FILTER: "@ + s.filter + "  |  / edit  esc clear  1-4 views  q quit"@
    } else if s.paused {
        " PAUSED  |  space resume  1-4 views  ? help  q quit"@
    } else {
        " / filter  1-4 views  t/b/i/p sort  arrows select  space pause  ? help  q quit"@
    }
}

/// The line at the bottom.
pub fn footer(console: &ConsoleModel) -> (text: String)
    ensures
        text@ == footer_text(console@),
{
    let mut out = String::new();
    if let Some(reason) = &console.disconnect_reason {
        push_text(&mut out, " ");
        push_text(&mut out, reason.as_str());
        push_text(&mut out, "  |  q quit  r reconnect externally");
    } else if let Some(input) = &console.filter_input {
        push_text(&mut out, " FILTER: ");
        push_text(&mut out, input.as_str());
        push_text(&mut out, "_  |  enter apply  esc cancel  backspace delete");
    } else if !console.filter.as_str().is_empty() {
        push_text(&mut out, " FILTER: ");
        push_text(&mut out, console.filter.as_str());
        push_text(&mut out, "  |  / edit  esc clear  1-4 views  q quit");
    } else if console.paused {
        push_text(&mut out, " PAUSED  |  space resume  1-4 views  ? help  q quit");
    } else {
        push_text(
            &mut out,
            " / filter  1-4 views  t/b/i/p sort  arrows select  space pause  ? help  q quit",
        );
    }
    assert(out@ =~= footer_text(console@));
    out
}

/// What the title says of the connection.
pub open spec fn connection_text(connected: bool) -> Seq<char> {
    if connected {
        " CONNECTED "@
    } else {
        " DISCONNECTED "@
    }
}

/// The counters in the title.
pub open spec fn counts_text(events: u64, tasks: nat) -> Seq<char> {
    "  events:"@ + crate::text::decimal(events as nat) + "  tasks:"@ + crate::text::decimal(tasks)
}

/// The position of a tab.
pub open spec fn tab_position(view: tab::View) -> usize {
    match view {
        tab::View::Tasks => 0,
        tab::View::Workers => 1,
        tab::View::Resources => 2,
        tab::View::AsyncOps => 3,
    }
}

/// The table of the tab that is shown.
#[derive(Debug)]
pub enum Table {
    Tasks(Vec<TaskRow>),
    Workers(Vec<WorkerRow>),
    Resources(Vec<ResourceRow>),
    AsyncOps(Vec<PendingRow>),
}

/// The middle of the screen.
#[derive(Debug)]
pub enum Body {
    Help,
    Tab { position: usize, highlight: Style, table: Table },
}

/// Everything that is shown at one moment.
#[derive(Debug)]
pub struct Screen {
    pub connection: &'static str,
    pub connection_style: Style,
    pub counts: String,
    pub body: Body,
    pub footer: String,
}

/// Whether a table shows the tab that a model has open.
pub open spec fn table_shows(table: Table, console: ConsoleModel, color: bool) -> bool {
    match table {
        Table::Tasks(rows) => console.view is Tasks && task_table(console@, rows@, color),
        Table::Workers(rows) => console.view is Workers && worker_table(console@, rows@),
        Table::Resources(rows) => console.view is Resources && rows.len()
            == console.resources@.len() && forall|i: int|
            0 <= i < rows@.len() ==> resource_row_shows(#[trigger] rows@[i], console.resources@[i]),
        Table::AsyncOps(rows) => console.view is AsyncOps && rows.len() == console@.pending.len()
            && forall|i: int|
            0 <= i < rows@.len() ==> pending_row_shows(#[trigger] rows@[i], console@.pending[i]),
    }
}

/// A style with a foreground, or a plain one where colors are off.
pub open spec fn foreground_style(color: bool, foreground: Color) -> Style {
    Style {
        foreground: if color {
            Some(foreground)
        } else {
            None
        },
        background: None,
    }
}

/// What a screen shows of a model.
pub open spec fn screen_shows(screen: Screen, console: ConsoleModel, color: bool) -> bool {
    &&& screen.connection@ == connection_text(console.connected)
    &&& screen.connection_style == foreground_style(
        color,
        if console.connected {
            Color::Green
        } else {
            Color::Red
        },
    )
    &&& screen.counts@ == counts_text(console.event_count, console.tasks@.len())
    &&& match screen.body {
        Body::Help => console.show_help,
        Body::Tab { position, highlight, table } => !console.show_help && position == tab_position(
            console.view,
        ) && highlight == foreground_style(color, Color::Cyan) && table_shows(
            table,
            console,
            color,
        ),
    }
    &&& screen.footer@ == footer_text(console@)
}

/// Lays out the model, with or without colors.
pub fn render_with_color(console: &ConsoleModel, color: bool) -> (screen: Screen)
    requires
        console.wf(),
    ensures
        screen_shows(screen, *console, color),
{
    let (connection, connection_style) = if console.connected {
        (" CONNECTED ", colored_style(color, Some(Color::Green), None))
    } else {
        (" DISCONNECTED ", colored_style(color, Some(Color::Red), None))
    };
    let mut counts = String::new();
    push_text(&mut counts, "  events:");
    push_u64(&mut counts, console.event_count);
    push_text(&mut counts, "  tasks:");
    let tasks: usize = console.tasks.len();
    push_u64(&mut counts, tasks as u64);
    assert(counts@ =~= counts_text(console.event_count, tasks as nat));
    let body = if console.show_help {
        Body::Help
    } else {
        let position: usize = match console.view {
            tab::View::Tasks => 0,
            tab::View::Workers => 1,
            tab::View::Resources => 2,
            tab::View::AsyncOps => 3,
        };
        let table = match console.view {
            tab::View::Tasks => Table::Tasks(task_rows(console, color)),
            tab::View::Workers => Table::Workers(worker_rows(console)),
            tab::View::Resources => Table::Resources(resource_rows(console)),
            tab::View::AsyncOps => Table::AsyncOps(pending_rows(console)),
        };
        Body::Tab { position, highlight: colored_style(color, Some(Color::Cyan), None), table }
    };
    Screen { connection, connection_style, counts, body, footer: footer(console) }
}

/// The lines of the help page.
pub open spec fn help_text() -> Seq<Seq<char>> {
    seq![
        "1 Tasks     2 Workers     3 Resources     4 Async Ops"@,
        "t/b/i/p     sort task totals, busy, idle, or polls"@,
        "Up/Down    select a task     Space pause/resume"@,
        "q/Esc       quit                 ? close help"@,
        "The view stays available after the runtime socket closes."@,
    ]
}

/// The lines of the help page.
pub fn help_lines() -> (lines: Vec<&'static str>)
    ensures
        lines@.map_values(|line: &'static str| line@) == help_text(),
{
    let mut lines: Vec<&'static str> = Vec::new();
    lines.push("1 Tasks     2 Workers     3 Resources     4 Async Ops");
    lines.push("t/b/i/p     sort task totals, busy, idle, or polls");
    lines.push("Up/Down    select a task     Space pause/resume");
    lines.push("q/Esc       quit                 ? close help");
    lines.push("The view stays available after the runtime socket closes.");
    assert(lines@.map_values(|line: &'static str| line@) =~= help_text());
    lines
}

/// The titles of the tabs, in their order.
pub open spec fn tab_texts() -> Seq<Seq<char>> {
    seq!["Tasks"@, "Workers"@, "Resources"@, "Async Ops"@]
}

/// The titles of the tabs, in their order.
pub fn tab_titles() -> (titles: Vec<&'static str>)
    ensures
        titles@.map_values(|title: &'static str| title@) == tab_texts(),
{
    let mut titles: Vec<&'static str> = Vec::new();
    titles.push("Tasks");
    titles.push("Workers");
    titles.push("Resources");
    titles.push("Async Ops");
    assert(titles@.map_values(|title: &'static str| title@) =~= tab_texts());
    titles
}

/// The unit in which a duration is shown.
#[derive(Clone, Copy, Debug, PartialEq, Eq, Structural)]
pub enum DurationUnit {
    Seconds,
    Milliseconds,
    Microseconds,
    Nanoseconds,
}

/// How many nanoseconds a unit has.
pub open spec fn unit_ns(unit: DurationUnit) -> u64 {
    match unit {
        DurationUnit::Seconds => 1_000_000_000,
        DurationUnit::Milliseconds => 1_000_000,
        DurationUnit::Microseconds => 1_000,
        DurationUnit::Nanoseconds => 1,
    }
}

/// The unit in which a duration is shown: the largest one that it fills at
/// least once, and nanoseconds where it fills none.
pub fn duration_unit(ns: u64) -> (unit: DurationUnit)
    ensures
        ns > 0 ==> unit_ns(unit) <= ns,
        forall|other: DurationUnit| #[trigger] unit_ns(other) <= ns ==> unit_ns(other) <= unit_ns(unit),
        ns == 0 ==> unit is Nanoseconds,
{
    if ns >= 1_000_000_000 {
        DurationUnit::Seconds
    } else if ns >= 1_000_000 {
        DurationUnit::Milliseconds
    } else if ns >= 1_000 {
        DurationUnit::Microseconds
    } else {
        DurationUnit::Nanoseconds
    }
}

} // verus!
