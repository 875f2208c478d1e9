//! What the settings of a runtime mean, and what the runtime keeps account of.

use crate::coop;
use crate::coop::{Budget, BudgetGuard};
use crate::poll::Poll;
use crate::runtime::{
    join_step, Ambient, Builder, EnterGuard, Flavor, JoinStep, MultiThreadOptions, RuntimePlan,
    TaskRegistry,
};
use vstd::prelude::*;

verus! {

/// One of the settings of a runtime.
pub enum Setting {
    WorkerThreads,
    ThreadName,
    ThreadStackSize,
    LifoSlot,
    MaxBlockingThreads,
    KeepAlive,
    OnThreadStart,
    OnThreadStop,
    OnThreadPark,
    OnThreadUnpark,
}

/// Whether a builder is as it was, but for one setting.
pub open spec fn differs_only_in<H>(
    before: Builder<H>,
    after: Builder<H>,
    setting: Setting,
) -> bool {
    &&& after.flavor == before.flavor
    &&& !(setting is WorkerThreads)
        ==> after.options.worker_threads == before.options.worker_threads
    &&& !(setting is ThreadName) ==> after.options.thread_name == before.options.thread_name
    &&& !(setting is ThreadStackSize)
        ==> after.options.thread_stack_size == before.options.thread_stack_size
    &&& !(setting is LifoSlot) ==> after.options.lifo_slot == before.options.lifo_slot
    &&& !(setting is MaxBlockingThreads)
        ==> after.options.max_blocking_threads == before.options.max_blocking_threads
    &&& !(setting is KeepAlive) ==> after.options.keep_alive == before.options.keep_alive
    &&& !(setting is OnThreadStart)
        ==> after.options.on_thread_start == before.options.on_thread_start
    &&& !(setting is OnThreadStop) ==> after.options.on_thread_stop == before.options.on_thread_stop
    &&& !(setting is OnThreadPark) ==> after.options.on_thread_park == before.options.on_thread_park
    &&& !(setting is OnThreadUnpark)
        ==> after.options.on_thread_unpark == before.options.on_thread_unpark
}

/// Every setting is the one that was made last, and leaves the others alone.
pub proof fn law_settings_are_kept_apart<H>()
    ensures
        forall|before: Builder<H>, value: usize, after: Builder<H>| #[trigger]
            call_ensures(Builder::<H>::worker_threads, (before, value), after)
                ==> after.options.worker_threads == value
                && differs_only_in(before, after, Setting::WorkerThreads),
        forall|before: Builder<H>, value: String, after: Builder<H>| #[trigger]
            call_ensures(Builder::<H>::thread_name, (before, value), after)
                ==> after.options.thread_name == value
                && differs_only_in(before, after, Setting::ThreadName),
        forall|before: Builder<H>, value: usize, after: Builder<H>| #[trigger]
            call_ensures(Builder::<H>::thread_stack_size, (before, value), after)
                ==> after.options.thread_stack_size is Some
                && after.options.thread_stack_size->0 == value
                && differs_only_in(before, after, Setting::ThreadStackSize),
        forall|before: Builder<H>, value: usize, after: Builder<H>| #[trigger]
            call_ensures(Builder::<H>::max_blocking_threads, (before, value), after)
                ==> after.options.max_blocking_threads == value
                && differs_only_in(before, after, Setting::MaxBlockingThreads),
        forall|before: Builder<H>, value: u128, after: Builder<H>| #[trigger]
            call_ensures(Builder::<H>::keep_alive, (before, value), after)
                ==> after.options.keep_alive == value
                && differs_only_in(before, after, Setting::KeepAlive),
        forall|before: Builder<H>, value: H, after: Builder<H>| #[trigger]
            call_ensures(Builder::<H>::on_thread_start, (before, value), after)
                ==> after.options.on_thread_start is Some
                && after.options.on_thread_start->0 == value
                && differs_only_in(before, after, Setting::OnThreadStart),
        forall|before: Builder<H>, value: H, after: Builder<H>| #[trigger]
            call_ensures(Builder::<H>::on_thread_stop, (before, value), after)
                ==> after.options.on_thread_stop is Some && after.options.on_thread_stop->0 == value
                && differs_only_in(before, after, Setting::OnThreadStop),
        forall|before: Builder<H>, value: H, after: Builder<H>| #[trigger]
            call_ensures(Builder::<H>::on_thread_park, (before, value), after)
                ==> after.options.on_thread_park is Some && after.options.on_thread_park->0 == value
                && differs_only_in(before, after, Setting::OnThreadPark),
        forall|before: Builder<H>, value: H, after: Builder<H>| #[trigger]
            call_ensures(Builder::<H>::on_thread_unpark, (before, value), after)
                ==> after.options.on_thread_unpark is Some
                && after.options.on_thread_unpark->0 == value
                && differs_only_in(before, after, Setting::OnThreadUnpark),
        forall|before: Builder<H>, after: Builder<H>| #[trigger]
            call_ensures(Builder::<H>::disable_lifo_slot, (before,), after)
                ==> !after.options.lifo_slot && differs_only_in(before, after, Setting::LifoSlot),
{
}

/// Where nothing is said, there are 512 blocking threads at most, which wait ten seconds for
/// work, workers keep a slot for the task that was woken last, and nothing is called. There
/// is a worker for each processor, or one.
pub proof fn law_settings_where_nothing_is_said<H>()
    ensures
        forall|builder: Builder<H>| #[trigger]
            call_ensures(Builder::<H>::new_current_thread, (), builder) ==> builder.flavor
                is Current && usual(builder.options) && builder.options.worker_threads == 1,
        forall|parallelism: Option<usize>, builder: Builder<H>| #[trigger]
            call_ensures(Builder::<H>::new_multi_thread, (parallelism,), builder)
                ==> builder.flavor is Multi && usual(builder.options) && (parallelism is Some
                ==> builder.options.worker_threads == parallelism->0) && (parallelism is None
                ==> builder.options.worker_threads == 1),
        forall|workers: usize, options: MultiThreadOptions<H>| #[trigger]
            call_ensures(MultiThreadOptions::<H>::with_workers, (workers,), options) ==> usual(
                options,
            ) && options.worker_threads == workers,
{
}

/// Settings where nothing was said.
pub open spec fn usual<H>(options: MultiThreadOptions<H>) -> bool {
    &&& options.thread_name@ == "eddy-worker"@
    &&& options.thread_stack_size is None
    &&& options.lifo_slot
    &&& options.max_blocking_threads == 512
    &&& options.keep_alive == 10_000_000_000
    &&& options.on_thread_start is None
    &&& options.on_thread_stop is None
    &&& options.on_thread_park is None
    &&& options.on_thread_unpark is None
}

/// There is at least one worker; workers have the base name and their own number, so that no
/// two of them have the same. What is built is what was set.
pub proof fn law_building_a_runtime<H>()
    ensures
        forall|options: MultiThreadOptions<H>, count: usize| #[trigger]
            call_ensures(MultiThreadOptions::<H>::worker_count, (&options,), count) ==> count >= 1
                && count >= options.worker_threads && (count == 1 || count
                == options.worker_threads),
        forall|options: MultiThreadOptions<H>, id: usize, name: String| #[trigger]
            call_ensures(MultiThreadOptions::<H>::worker_name, (&options, id), name)
                ==> name@.len() > options.thread_name@.len() + 1 && name@.take(
                options.thread_name@.len() as int,
            ) == options.thread_name@ && name@[options.thread_name@.len() as int] == '-'
                && name@.skip(options.thread_name@.len() as int + 1)
                    == crate::text::decimal(id as nat),
        forall|builder: Builder<H>, plan: RuntimePlan<H>| #[trigger]
            call_ensures(Builder::<H>::build, (builder,), plan) ==> {
                &&& plan is Current <==> builder.flavor is Current
                &&& plan is Multi ==> plan->Multi_0 == builder.options
                &&& plan is Current ==> plan->max_blocking_threads
                    == builder.options.max_blocking_threads && plan->keep_alive
                    == builder.options.keep_alive
            },
{
    assert forall|options: MultiThreadOptions<H>, id: usize, name: String| #[trigger]
        call_ensures(MultiThreadOptions::<H>::worker_name, (&options, id), name) implies name@.len()
        > options.thread_name@.len() + 1 && name@.take(options.thread_name@.len() as int)
        == options.thread_name@ && name@[options.thread_name@.len() as int] == '-' && name@.skip(
        options.thread_name@.len() as int + 1,
    ) == crate::text::decimal(id as nat) by {
        reveal_strlit("-");
        let base = options.thread_name@;
        let digits = crate::text::decimal(id as nat);
        assert(digits.len() > 0);
        assert((base + "-"@ + digits).take(base.len() as int) =~= base);
        assert((base + "-"@ + digits).skip(base.len() as int + 1) =~= digits);
    }
}

/// A task that must stay on its thread is spawned on a single thread alone; a queue is
/// handed over, and events are waited for, where there are workers alone.
pub proof fn law_what_a_flavor_allows()
    ensures
        forall|flavor: Flavor, result: Result<(), &'static str>| #[trigger]
            call_ensures(Flavor::spawn_local, (flavor,), result) ==> (result is Ok
                <==> flavor is Current),
        forall|flavor: Flavor, result: Result<(), &'static str>| #[trigger]
            call_ensures(Flavor::block_in_place, (flavor,), result) ==> (result is Ok
                <==> flavor is Multi),
        forall|flavor: Flavor, result: bool| #[trigger]
            call_ensures(Flavor::has_io_driver, (flavor,), result) ==> (result
                <==> flavor is Multi),
{
}

/// Inside of a runtime its handle is the current one; leaving it leads back to where the
/// thread was before it was entered.
pub proof fn law_entering_and_leaving<H>()
    ensures
        forall|
            ambient: &mut Ambient<H>,
            handle: H,
            guard: EnterGuard<H>,
            inside: &mut Ambient<H>,
        |
            #![trigger call_ensures(Ambient::<H>::enter, (ambient, handle), guard), call_ensures(Ambient::<H>::leave, (inside, guard), ())]
            call_ensures(Ambient::<H>::enter, (ambient, handle), guard) && call_ensures(
                Ambient::<H>::leave,
                (inside, guard),
                (),
            ) ==> (*final(inside)).handle == (*ambient).handle,
        forall|ambient: &mut Ambient<H>, handle: H, guard: EnterGuard<H>| #[trigger]
            call_ensures(Ambient::<H>::enter, (ambient, handle), guard)
                ==> (*final(ambient)).handle is Some && (*final(ambient)).handle->0 == handle,
        forall|ambient: Ambient<H>, found: Result<&H, &'static str>| #[trigger]
            call_ensures(Ambient::<H>::current, (&ambient,), found) ==> {
                &&& found is Ok <==> ambient.handle is Some
                &&& found is Ok ==> *found->Ok_0 == ambient.handle->0
            },
{
}

/// A worker that has finished is joined at any time; one that has not is waited for exactly
/// until the deadline.
pub proof fn law_joining_workers()
    ensures
        forall|finished: bool, now: u128, deadline: u128, step: JoinStep| #[trigger]
            call_ensures(join_step, (finished, now, deadline), step) ==> {
                &&& step is Join <==> finished
                &&& step is Sleep <==> !finished && now < deadline
                &&& step is Detach <==> !finished && deadline <= now
            },
{
}

/// The registry holds the tasks that were registered and have not completed, each once. A
/// registry that is closed hands them out, in order, the first time.
pub proof fn law_the_registry_holds_what_runs()
    ensures
        forall|registry: &mut TaskRegistry, task: u64, other: u64|
            #![trigger call_ensures(TaskRegistry::register_task, (registry, task), ()), (*final(registry)).tasks().contains(other)]
            call_ensures(TaskRegistry::register_task, (registry, task), ())
                ==> ((*final(registry)).tasks().contains(other) <==> other
                == task || (*registry).tasks().contains(other)),
        forall|registry: &mut TaskRegistry, task: u64, removed: bool, other: u64|
            #![trigger call_ensures(TaskRegistry::task_complete, (registry, task), removed), (*final(registry)).tasks().contains(other)]
            call_ensures(TaskRegistry::task_complete, (registry, task), removed)
                ==> ((*final(registry)).tasks().contains(other) <==> other != task
                && (*registry).tasks().contains(other)),
        forall|registry: &mut TaskRegistry, task: u64, removed: bool| #[trigger]
            call_ensures(TaskRegistry::task_complete, (registry, task), removed) ==> (removed
                <==> (*registry).tasks().contains(task)),
        forall|registry: &mut TaskRegistry, tasks: Option<Vec<u64>>| #[trigger]
            call_ensures(TaskRegistry::close, (registry,), tasks) ==> {
                &&& (*final(registry)).is_closed()
                &&& tasks is Some <==> !(*registry).is_closed()
                &&& tasks is Some ==> tasks->0@ == (*registry).tasks()
                    && (*final(registry)).tasks().len() == 0
            },
{
    assert forall|registry: &mut TaskRegistry, task: u64, other: u64|
        #![trigger call_ensures(TaskRegistry::register_task, (registry, task), ()), (*final(registry)).tasks().contains(other)]
        call_ensures(TaskRegistry::register_task, (registry, task),
            ()) implies ((*final(registry)).tasks().contains(other) <==> other
            == task || (*registry).tasks().contains(other)) by {
        let before = (*registry).tasks();
        let after = (*final(registry)).tasks();
        assert(after == before.push(task));
        if other == task {
            assert(after[before.len() as int] == other);
        }
        if before.contains(other) {
            let k = choose|k: int| 0 <= k < before.len() && before[k] == other;
            assert(after[k] == other);
        }
        if after.contains(other) && other != task {
            let k = choose|k: int| 0 <= k < after.len() && after[k] == other;
            assert(before[k] == other);
        }
    }
}

// ---------------------------------------------------------------------------
// Budgets
// ---------------------------------------------------------------------------

/// A task poll is granted 128 operations, and the budget of before comes back when it ends.
/// An operation proceeds exactly where something is left, and takes one away; where there
/// is no budget, all proceed.
pub proof fn law_budgets()
    ensures
        forall|budget: Budget| #[trigger]
            call_ensures(coop::unarmed, (), budget) ==> budget.remaining is None,
        forall|budget: &mut Budget, guard: BudgetGuard| #[trigger]
            call_ensures(coop::budget_guard, (budget,), guard)
                ==> (*final(budget)).remaining is Some && (*final(budget)).remaining->0 == 128,
        forall|budget: &mut Budget, guard: BudgetGuard, inside: &mut Budget|
            #![trigger call_ensures(coop::budget_guard, (budget,), guard), call_ensures(BudgetGuard::release, (guard, inside), ())]
            call_ensures(coop::budget_guard, (budget,), guard) && call_ensures(
                BudgetGuard::release,
                (guard, inside),
                (),
            ) ==> (*final(inside)).remaining == (*budget).remaining,
        forall|budget: &mut Budget, poll: Poll<()>| #[trigger]
            call_ensures(coop::poll_proceed, (budget,), poll) ==> {
                let left = (*budget).remaining;
                let after = (*final(budget)).remaining;
                &&& poll is Ready <==> left is None || left->0 > 0
                &&& left is None <==> after is None
                &&& left is Some && left->0 > 0 ==> after->0 + 1 == left->0
                &&& left is Some && left->0 == 0 ==> after->0 == 0
            },
        forall|budget: Budget, left: bool| #[trigger]
            call_ensures(coop::has_budget_remaining, (&budget,), left) ==> (left
                <==> budget.remaining is None || budget.remaining->0 > 0),
{
}

} // verus!
