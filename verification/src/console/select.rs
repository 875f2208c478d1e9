//! Choosing what the console shows: filter, order, selection and keys.

use super::model;
use super::model::{ConsoleModel, SortKey, TaskView};
use super::tab;
use crate::text::{contains_chars, lower_chars, pop_char, push_char};
use vstd::prelude::*;

verus! {

broadcast use vstd::std_specs::btree::group_btree_axioms;

/// Whether a filter lets a task through: it is empty, or it stands in the task's
/// name or state, whatever the case of ASCII letters.
pub open spec fn task_shown(filter: Seq<char>, task: model::TaskModel) -> bool {
    let wanted = crate::text::lower_text(filter);
    filter.len() == 0 || crate::text::contains_text(crate::text::lower_text(task.name), wanted)
        || crate::text::contains_text(
        crate::text::lower_text(model::task_state_text(task.state)),
        wanted,
    )
}

/// What a task is ordered by.
pub open spec fn sort_value(sort: SortKey, task: model::TaskModel) -> u64 {
    match sort {
        SortKey::Id => task.id,
        SortKey::Total => model::saturating_sum(task.total_busy_ns, task.total_idle_ns),
        SortKey::Busy => task.total_busy_ns,
        SortKey::Idle => task.total_idle_ns,
        SortKey::Polls => task.polls,
    }
}

/// Whether one task is listed before another. Ties go by id.
pub open spec fn listed_before(
    sort: SortKey,
    a: model::TaskModel,
    b: model::TaskModel,
) -> bool {
    sort_value(sort, a) < sort_value(sort, b) || (sort_value(sort, a) == sort_value(sort, b)
        && a.id < b.id)
}

/// Whether `rows` lists exactly the tasks that the filter lets through, each once
/// and in order.
pub open spec fn lists_tasks(s: model::ConsoleState, rows: Seq<model::TaskModel>) -> bool {
    &&& forall|i: int, j: int|
        0 <= i < j < rows.len() ==> listed_before(s.sort, #[trigger] rows[i], #[trigger] rows[j])
    &&& forall|i: int|
        0 <= i < rows.len() ==> s.tasks.contains_key((#[trigger] rows[i]).id)
            && s.tasks[rows[i].id] == rows[i] && task_shown(s.filter, rows[i])
    &&& forall|id: u64| #[trigger]
        s.tasks.contains_key(id) && task_shown(s.filter, s.tasks[id]) ==> rows.contains(s.tasks[id])
}

/// How many tasks the filter lets through.
pub open spec fn shown_count(s: model::ConsoleState) -> nat {
    s.tasks.dom().filter(|id: u64| task_shown(s.filter, s.tasks[id])).len()
}

/// There is only one way to list the tasks.
pub proof fn law_listing_is_unique(
    s: model::ConsoleState,
    a: Seq<model::TaskModel>,
    b: Seq<model::TaskModel>,
)
    requires
        lists_tasks(s, a),
        lists_tasks(s, b),
    ensures
        a == b,
{
    lemma_listing_prefix(s, a, b, a.len() as int);
    lemma_listing_prefix(s, b, a, b.len() as int);
    assert(a =~= b);
}

proof fn lemma_listing_prefix(
    s: model::ConsoleState,
    a: Seq<model::TaskModel>,
    b: Seq<model::TaskModel>,
    n: int,
)
    requires
        lists_tasks(s, a),
        lists_tasks(s, b),
        0 <= n <= a.len(),
    ensures
        n <= b.len(),
        forall|i: int| 0 <= i < n ==> a[i] == b[i],
    decreases n,
{
    if n > 0 {
        lemma_listing_prefix(s, a, b, n - 1);
        let x = a[n - 1];
        assert(b.contains(s.tasks[x.id]));
        let k = choose|k: int| 0 <= k < b.len() && b[k] == x;
        if k < n - 1 {
            assert(listed_before(s.sort, a[k], a[n - 1]));
            assert(false);
        }
        if k > n - 1 {
            let y = b[n - 1];
            assert(a.contains(s.tasks[y.id]));
            let m = choose|m: int| 0 <= m < a.len() && a[m] == y;
            assert(listed_before(s.sort, y, x));
            if m < n - 1 {
                assert(listed_before(s.sort, b[m], b[n - 1]));
            } else if m > n - 1 {
                assert(listed_before(s.sort, x, y));
            }
            assert(false);
        }
    }
}

fn task_value(sort: SortKey, task: &TaskView) -> (value: u64)
    ensures
        value == sort_value(sort, task@),
{
    match sort {
        SortKey::Id => task.id,
        SortKey::Total => task.duration(),
        SortKey::Busy => task.total_busy_ns,
        SortKey::Idle => task.total_idle_ns,
        SortKey::Polls => task.polls,
    }
}

fn goes_before(sort: SortKey, a: &TaskView, b: &TaskView) -> (result: bool)
    ensures
        result == listed_before(sort, a@, b@),
{
    let x: u64 = task_value(sort, a);
    let y: u64 = task_value(sort, b);
    x < y || (x == y && a.id < b.id)
}

/// The meanings of some listed tasks.
pub open spec fn row_models(rows: Seq<&TaskView>) -> Seq<model::TaskModel> {
    rows.map_values(|task: &TaskView| task@)
}

impl ConsoleModel {
    /// Whether the filter lets a task through.
    pub fn matches_filter(&self, task: &TaskView) -> (shown: bool)
        ensures
            shown == task_shown(self.filter@, task@),
    {
        if self.filter.as_str().is_empty() {
            return true;
        }
        let wanted = lower_chars(self.filter.as_str());
        contains_chars(&lower_chars(task.name.as_str()), &wanted) || contains_chars(
            &lower_chars(task.state.as_str()),
            &wanted,
        )
    }

    /// The ids of all tasks, in ascending order.
    fn task_ids(&self) -> (ids: Vec<u64>)
        ensures
            ids@.no_duplicates(),
            forall|id: u64| #[trigger] ids@.contains(id) <==> self.tasks@.contains_key(id),
    {
        let mut ids: Vec<u64> = Vec::new();
        let ghost all = vstd::std_specs::iter::IteratorSpec::remaining(
            &vstd::std_specs::btree::spec_keys_iter(&self.tasks),
        ).unref();
        for id in it: self.tasks.keys()
            invariant
                all == it.seq().unref(),
                ids@ == all.take(it.index()),
        {
            ids.push(*id);
            assert(ids@ =~= all.take(it.index() + 1));
        }
        assert(ids@ =~= all);
        assert(all.to_set() == self.tasks@.dom());
        ids
    }

    /// The tasks that the filter lets through, in order.
    pub fn sorted_tasks(&self) -> (rows: Vec<&TaskView>)
        requires
            self.wf(),
        ensures
            lists_tasks(self@, row_models(rows@)),
    {
        let ids = self.task_ids();
        let mut rows: Vec<&TaskView> = Vec::new();
        let ghost all = self.tasks@;
        let mut n: usize = 0;
        while n < ids.len()
            invariant
                n <= ids.len(),
                all == self.tasks@,
                self.wf(),
                ids@.no_duplicates(),
                forall|id: u64| #[trigger] ids@.contains(id) <==> self.tasks@.contains_key(id),
                forall|i: int, j: int|
                    0 <= i < j < rows.len() ==> listed_before(
                        self.sort,
                        (#[trigger] rows@[i])@,
                        (#[trigger] rows@[j])@,
                    ),
                forall|i: int|
                    0 <= i < rows.len() ==> all.contains_key((#[trigger] rows@[i]).id)
                        && all[rows@[i].id] == *rows@[i] && task_shown(self.filter@, rows@[i]@)
                        && ids@.take(n as int).contains(rows@[i].id),
                forall|k: int|
                    0 <= k < n && task_shown(self.filter@, all[#[trigger] ids@[k]]@) ==> exists|
                        i: int,
                    |
                        0 <= i < rows.len() && (#[trigger] rows@[i]).id == ids@[k],
            decreases ids.len() - n,
        {
            let id: u64 = ids[n];
            assert(ids@.contains(id));
            let ghost before = rows@;
            let ghost mut spot: int = before.len() as int;
            if let Some(task) = self.tasks.get(&id) {
                if self.matches_filter(task) {
                    let mut at: usize = 0;
                    while at < rows.len() && goes_before(self.sort, rows[at], task)
                        invariant
                            at <= rows.len(),
                            rows@ == before,
                            forall|i: int|
                                0 <= i < at ==> listed_before(
                                    self.sort,
                                    (#[trigger] rows@[i])@,
                                    task@,
                                ),
                        decreases rows.len() - at,
                    {
                        at = at + 1;
                    }
                    proof {
                        spot = at as int;
                        assert forall|i: int| 0 <= i < before.len() implies (
                        #[trigger] before[i]).id != task.id by {
                            let earlier = ids@.take(n as int);
                            assert(earlier.contains(before[i].id));
                            let k = choose|k: int|
                                0 <= k < earlier.len() && earlier[k] == before[i].id;
                            assert(ids@[k] != ids@[n as int]);
                        }
                        assert forall|i: int| at <= i < before.len() implies listed_before(
                            self.sort,
                            task@,
                            (#[trigger] before[i])@,
                        ) by {
                            if i > at {
                                assert(listed_before(self.sort, before[at as int]@, before[i]@));
                            }
                        }
                    }
                    rows.insert(at, task);
                }
            }
            n = n + 1;
            proof {
                let sofar = ids@.take(n as int);
                assert(sofar[n - 1] == id);
                assert forall|i: int| 0 <= i < rows.len() implies all.contains_key(
                    (#[trigger] rows@[i]).id,
                ) && all[rows@[i].id] == *rows@[i] && task_shown(self.filter@, rows@[i]@)
                    && sofar.contains(rows@[i].id) by {
                    if i != spot || rows@ == before {
                        let j = if i < spot {
                            i
                        } else {
                            i - 1
                        };
                        assert(rows@[i] == before[j]);
                        let earlier = ids@.take(n - 1);
                        assert(earlier.contains(before[j].id));
                        let k = choose|k: int|
                            0 <= k < earlier.len() && earlier[k] == before[j].id;
                        assert(sofar[k] == before[j].id);
                    }
                }
                assert forall|k: int|
                    0 <= k < n && task_shown(self.filter@, all[#[trigger] ids@[k]]@) implies exists|
                    i: int,
                |
                    0 <= i < rows.len() && (#[trigger] rows@[i]).id == ids@[k] by {
                    if k < n - 1 {
                        let i = choose|i: int|
                            0 <= i < before.len() && (#[trigger] before[i]).id == ids@[k];
                        let j = if i < spot {
                            i
                        } else {
                            i + 1
                        };
                        assert(rows@[j].id == ids@[k]);
                    } else {
                        assert(rows@[spot].id == ids@[k]);
                    }
                }
            }
        }
        proof {
            let models = row_models(rows@);
            assert forall|id: u64| #[trigger]
                self@.tasks.contains_key(id) && task_shown(
                    self@.filter,
                    self@.tasks[id],
                ) implies models.contains(self@.tasks[id]) by {
                assert(ids@.contains(id));
                let k = choose|k: int| 0 <= k < ids@.len() && ids@[k] == id;
                assert(task_shown(self.filter@, all[ids@[k]]@));
                let i = choose|i: int| 0 <= i < rows.len() && (#[trigger] rows@[i]).id == ids@[k];
                assert(models[i] == self@.tasks[id]);
            }
        }
        rows
    }

    /// How many tasks the filter lets through.
    fn count_shown(&self) -> (count: usize)
        requires
            self.wf(),
        ensures
            count == shown_count(self@),
    {
        let rows = self.sorted_tasks();
        proof {
            let models = row_models(rows@);
            let ids = models.map_values(|task: model::TaskModel| task.id);
            let shown = self@.tasks.dom().filter(
                |id: u64| task_shown(self@.filter, self@.tasks[id]),
            );
            assert forall|i: int, j: int| 0 <= i < ids.len() && 0 <= j < ids.len() && i
                != j implies ids[i] != ids[j] by {
                if i < j {
                    assert(listed_before(self@.sort, models[i], models[j]));
                } else {
                    assert(listed_before(self@.sort, models[j], models[i]));
                }
            }
            assert forall|id: u64| ids.to_set().contains(id) <==> shown.contains(id) by {
                if shown.contains(id) {
                    assert(self@.tasks.contains_key(id));
                    let i = choose|i: int|
                        0 <= i < models.len() && models[i] == self@.tasks[id];
                    assert(ids[i] == id);
                }
                if ids.to_set().contains(id) {
                    assert(ids.contains(id));
                    let i = choose|i: int| 0 <= i < ids.len() && ids[i] == id;
                    assert(self@.tasks.contains_key(models[i].id));
                }
            }
            assert(ids.to_set() =~= shown);
            ids.unique_seq_to_set();
        }
        rows.len()
    }

    /// Moves the selection by `amount` rows, around the ends of the list.
    pub fn select_next(&mut self, amount: isize)
        requires
            old(self).wf(),
        ensures
            final(self).wf(),
            final(self)@ == moved(old(self)@, amount as int),
    {
        let count: usize = self.count_shown();
        if count == 0 {
            self.selected_task = 0;
        } else {
            let sum: i128 = self.selected_task as i128 + amount as i128;
            match sum.checked_rem_euclid(count as i128) {
                Some(row) => self.selected_task = row as usize,
                None => {},
            }
        }
    }

    /// Reacts to a key. Returns whether the console should close.
    pub fn handle_key(&mut self, key: Key) -> (quit: bool)
        requires
            old(self).wf(),
        ensures
            final(self).wf(),
            (final(self)@, quit) == key_pressed(old(self)@, key),
    {
        if let Some(input) = self.filter_input.take() {
            let mut input = input;
            match key {
                Key::Enter => {
                    self.filter = input;
                    self.selected_task = 0;
                },
                Key::Esc => {},
                Key::Backspace => {
                    let last = pop_char(&mut input);
                    assert(last is None ==> input@ =~= Seq::empty());
                    self.filter_input = Some(input);
                },
                Key::Char(c) => {
                    push_char(&mut input, c);
                    self.filter_input = Some(input);
                },
                Key::Up => self.filter_input = Some(input),
                Key::Down => self.filter_input = Some(input),
                Key::Other => self.filter_input = Some(input),
            }
            return false;
        }
        match key {
            Key::Esc => return true,
            Key::Up => self.select_next(-1),
            Key::Down => self.select_next(1),
            Key::Char(c) => {
                if c == 'q' {
                    return true;
                } else if c == '/' {
                    self.filter_input = Some(self.filter.clone());
                } else if c == '1' {
                    self.view = tab::View::Tasks;
                } else if c == '2' {
                    self.view = tab::View::Workers;
                } else if c == '3' {
                    self.view = tab::View::Resources;
                } else if c == '4' {
                    self.view = tab::View::AsyncOps;
                } else if c == ' ' {
                    self.paused = !self.paused;
                } else if c == '?' {
                    self.show_help = !self.show_help;
                } else if c == 't' {
                    self.sort = SortKey::Total;
                } else if c == 'b' {
                    self.sort = SortKey::Busy;
                } else if c == 'i' {
                    self.sort = SortKey::Idle;
                } else if c == 'p' {
                    self.sort = SortKey::Polls;
                } else if c == 'c' && !self.filter.as_str().is_empty() {
                    self.filter = String::new();
                    self.selected_task = 0;
                }
            },
            Key::Enter => {},
            Key::Backspace => {},
            Key::Other => {},
        }
        false
    }
}

/// A key, as far as the console tells keys apart.
#[derive(Clone, Copy, Debug, PartialEq, Eq, Structural)]
pub enum Key {
    Enter,
    Esc,
    Backspace,
    Up,
    Down,
    Char(char),
    Other,
}

/// The model with the selection moved by `amount` rows, around the ends of the
/// list.
pub open spec fn moved(s: model::ConsoleState, amount: int) -> model::ConsoleState {
    let count = shown_count(s);
    model::ConsoleState {
        selected_task: if count == 0 {
            0
        } else {
            ((s.selected_task + amount) % (count as int)) as usize
        },
        ..s
    }
}

/// What a key does while a filter is being typed.
pub open spec fn filter_key_pressed(
    s: model::ConsoleState,
    input: Seq<char>,
    key: Key,
) -> model::ConsoleState {
    match key {
        Key::Enter => model::ConsoleState {
            filter: input,
            filter_input: None,
            selected_task: 0,
            ..s
        },
        Key::Esc => model::ConsoleState { filter_input: None, ..s },
        Key::Backspace => model::ConsoleState {
            filter_input: Some(
                if input.len() == 0 {
                    input
                } else {
                    input.drop_last()
                },
            ),
            ..s
        },
        Key::Char(c) => model::ConsoleState { filter_input: Some(input.push(c)), ..s },
        _ => s,
    }
}

/// What a key does: the model after it, and whether the console closes.
pub open spec fn key_pressed(s: model::ConsoleState, key: Key) -> (model::ConsoleState, bool) {
    if let Some(input) = s.filter_input {
        (filter_key_pressed(s, input, key), false)
    } else if key == Key::Esc || key == Key::Char('q') {
        (s, true)
    } else {
        let after = match key {
            Key::Up => moved(s, -1),
            Key::Down => moved(s, 1),
            Key::Char(c) => if c == '/' {
                model::ConsoleState { filter_input: Some(s.filter), ..s }
            } else if c == '1' {
                model::ConsoleState { view: tab::View::Tasks, ..s }
            } else if c == '2' {
                model::ConsoleState { view: tab::View::Workers, ..s }
            } else if c == '3' {
                model::ConsoleState { view: tab::View::Resources, ..s }
            } else if c == '4' {
                model::ConsoleState { view: tab::View::AsyncOps, ..s }
            } else if c == ' ' {
                model::ConsoleState { paused: !s.paused, ..s }
            } else if c == '?' {
                model::ConsoleState { show_help: !s.show_help, ..s }
            } else if c == 't' {
                model::ConsoleState { sort: SortKey::Total, ..s }
            } else if c == 'b' {
                model::ConsoleState { sort: SortKey::Busy, ..s }
            } else if c == 'i' {
                model::ConsoleState { sort: SortKey::Idle, ..s }
            } else if c == 'p' {
                model::ConsoleState { sort: SortKey::Polls, ..s }
            } else if c == 'c' && s.filter.len() > 0 {
                model::ConsoleState { filter: Seq::empty(), selected_task: 0, ..s }
            } else {
                s
            },
            _ => s,
        };
        (after, false)
    }
}

} // verus!
