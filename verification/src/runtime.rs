//! How a runtime is built, and which runtime a thread is in.

use crate::blocking::DEFAULT_KEEP_ALIVE;
use crate::blocking::DEFAULT_MAX_BLOCKING_THREADS;
use crate::text::push_text;
use crate::text::push_u64;
use vstd::prelude::*;

verus! {

/// The two kinds of runtime.
#[derive(Debug, Clone, Copy, PartialEq, Eq, Structural)]
pub enum Flavor {
    /// Everything runs on the thread that drives the runtime.
    Current,
    /// Workers share the tasks.
    Multi,
}

/// What the worker threads of a runtime are like. `H` is the type of what is called at
/// certain points of a thread's life. Times are nanoseconds.
pub struct MultiThreadOptions<H> {
    pub worker_threads: usize,
    pub thread_name: String,
    pub thread_stack_size: Option<usize>,
    pub lifo_slot: bool,
    pub max_blocking_threads: usize,
    pub keep_alive: u128,
    pub on_thread_start: Option<H>,
    pub on_thread_stop: Option<H>,
    pub on_thread_park: Option<H>,
    pub on_thread_unpark: Option<H>,
}

/// What to build.
pub enum RuntimePlan<H> {
    Current { max_blocking_threads: usize, keep_alive: u128 },
    Multi(MultiThreadOptions<H>),
}

/// Settings of a runtime that is to be built.
pub struct Builder<H> {
    pub flavor: Flavor,
    pub options: MultiThreadOptions<H>,
}

/// Whether settings are those that hold where nothing is said.
pub open spec fn default_options<H>(options: MultiThreadOptions<H>, workers: usize) -> bool {
    &&& options.worker_threads == workers
    &&& options.thread_name@ == "eddy-worker"@
    &&& options.thread_stack_size is None
    &&& options.lifo_slot
    &&& options.max_blocking_threads == DEFAULT_MAX_BLOCKING_THREADS
    &&& options.keep_alive == DEFAULT_KEEP_ALIVE
    &&& options.on_thread_start is None
    &&& options.on_thread_stop is None
    &&& options.on_thread_park is None
    &&& options.on_thread_unpark is None
}

impl<H> MultiThreadOptions<H> {
    /// The settings that hold where nothing is said.
    pub fn with_workers(workers: usize) -> (options: MultiThreadOptions<H>)
        ensures
            default_options(options, workers),
    {
        MultiThreadOptions {
            worker_threads: workers,
            thread_name: "eddy-worker".to_owned(),
            thread_stack_size: None,
            lifo_slot: true,
            max_blocking_threads: DEFAULT_MAX_BLOCKING_THREADS,
            keep_alive: DEFAULT_KEEP_ALIVE,
            on_thread_start: None,
            on_thread_stop: None,
            on_thread_park: None,
            on_thread_unpark: None,
        }
    }

    /// How many workers to start: at least one.
    pub fn worker_count(&self) -> (count: usize)
        ensures
            count == (if self.worker_threads == 0 {
                1
            } else {
                self.worker_threads
            }),
    {
        if self.worker_threads == 0 {
            1
        } else {
            self.worker_threads
        }
    }

    /// The name of a worker's thread: the base name, a hyphen and the worker's number.
    pub fn worker_name(&self, id: usize) -> (name: String)
        ensures
            name@ == self.thread_name@ + "-"@ + crate::text::decimal(id as nat),
    {
        let mut name = String::new();
        push_text(&mut name, self.thread_name.as_str());
        push_text(&mut name, "-");
        push_u64(&mut name, id as u64);
        assert(name@ =~= self.thread_name@ + "-"@ + crate::text::decimal(id as nat));
        name
    }
}

impl<H> Builder<H> {
    /// A runtime on the thread that drives it.
    pub fn new_current_thread() -> (builder: Builder<H>)
        ensures
            builder.flavor == Flavor::Current,
            default_options(builder.options, 1),
    {
        Builder { flavor: Flavor::Current, options: MultiThreadOptions::with_workers(1) }
    }

    /// A runtime with workers: as many as the machine can run at once, if that is known,
    /// else one.
    pub fn new_multi_thread(parallelism: Option<usize>) -> (builder: Builder<H>)
        ensures
            builder.flavor == Flavor::Multi,
            default_options(
                builder.options,
                match parallelism {
                    Some(count) => count,
                    None => 1,
                },
            ),
    {
        let workers: usize = match parallelism {
            Some(count) => count,
            None => 1,
        };
        Builder { flavor: Flavor::Multi, options: MultiThreadOptions::with_workers(workers) }
    }

    /// How many workers there are.
    pub fn worker_threads(self, worker_threads: usize) -> (builder: Builder<H>)
        requires
            worker_threads > 0,
        ensures
            builder.flavor == self.flavor,
            builder.options == (MultiThreadOptions { worker_threads, ..self.options }),
    {
        let mut builder = self;
        builder.options.worker_threads = worker_threads;
        builder
    }

    /// The base name of the workers' threads.
    pub fn thread_name(self, name: String) -> (builder: Builder<H>)
        ensures
            builder.flavor == self.flavor,
            builder.options == (MultiThreadOptions { thread_name: name, ..self.options }),
    {
        let mut builder = self;
        builder.options.thread_name = name;
        builder
    }

    /// The stack size of the workers' threads.
    pub fn thread_stack_size(self, stack_size: usize) -> (builder: Builder<H>)
        ensures
            builder.flavor == self.flavor,
            builder.options == (MultiThreadOptions {
                thread_stack_size: Some(stack_size),
                ..self.options
            }),
    {
        let mut builder = self;
        builder.options.thread_stack_size = Some(stack_size);
        builder
    }

    /// A task that a worker's own task wakes does not run before the others.
    pub fn disable_lifo_slot(self) -> (builder: Builder<H>)
        ensures
            builder.flavor == self.flavor,
            builder.options == (MultiThreadOptions { lifo_slot: false, ..self.options }),
    {
        let mut builder = self;
        builder.options.lifo_slot = false;
        builder
    }

    /// How many threads the blocking pool has at most.
    pub fn max_blocking_threads(self, max: usize) -> (builder: Builder<H>)
        requires
            max > 0,
        ensures
            builder.flavor == self.flavor,
            builder.options == (MultiThreadOptions { max_blocking_threads: max, ..self.options }),
    {
        let mut builder = self;
        builder.options.max_blocking_threads = max;
        builder
    }

    /// How long an idle thread of the blocking pool waits for work.
    pub fn keep_alive(self, keep_alive: u128) -> (builder: Builder<H>)
        ensures
            builder.flavor == self.flavor,
            builder.options == (MultiThreadOptions { keep_alive, ..self.options }),
    {
        let mut builder = self;
        builder.options.keep_alive = keep_alive;
        builder
    }

    /// What is called when a worker's thread starts.
    pub fn on_thread_start(self, f: H) -> (builder: Builder<H>)
        ensures
            builder.flavor == self.flavor,
            builder.options == (MultiThreadOptions { on_thread_start: Some(f), ..self.options }),
    {
        let mut builder = self;
        builder.options.on_thread_start = Some(f);
        builder
    }

    /// What is called when a worker's thread stops.
    pub fn on_thread_stop(self, f: H) -> (builder: Builder<H>)
        ensures
            builder.flavor == self.flavor,
            builder.options == (MultiThreadOptions { on_thread_stop: Some(f), ..self.options }),
    {
        let mut builder = self;
        builder.options.on_thread_stop = Some(f);
        builder
    }

    /// What is called every time a worker's thread parks.
    pub fn on_thread_park(self, f: H) -> (builder: Builder<H>)
        ensures
            builder.flavor == self.flavor,
            builder.options == (MultiThreadOptions { on_thread_park: Some(f), ..self.options }),
    {
        let mut builder = self;
        builder.options.on_thread_park = Some(f);
        builder
    }

    /// What is called every time a worker's thread goes on.
    pub fn on_thread_unpark(self, f: H) -> (builder: Builder<H>)
        ensures
            builder.flavor == self.flavor,
            builder.options == (MultiThreadOptions { on_thread_unpark: Some(f), ..self.options }),
    {
        let mut builder = self;
        builder.options.on_thread_unpark = Some(f);
        builder
    }

    /// What to build from the settings.
    pub fn build(self) -> (plan: RuntimePlan<H>)
        ensures
            plan == (match self.flavor {
                Flavor::Current => RuntimePlan::Current {
                    max_blocking_threads: self.options.max_blocking_threads,
                    keep_alive: self.options.keep_alive,
                },
                Flavor::Multi => RuntimePlan::Multi(self.options),
            }),
    {
        match self.flavor {
            Flavor::Current => RuntimePlan::Current {
                max_blocking_threads: self.options.max_blocking_threads,
                keep_alive: self.options.keep_alive,
            },
            Flavor::Multi => RuntimePlan::Multi(self.options),
        }
    }
}

/// The flavor decides what can be done on a runtime.
impl Flavor {
    /// Whether a task that must stay on its thread can be spawned. Where workers share
    /// tasks it cannot.
    pub fn spawn_local(self) -> (result: Result<(), &'static str>)
        ensures
            match result {
                Ok(_) => self == Flavor::Current,
                Err(message) => self == Flavor::Multi && message@
                    == "eddy: spawn_local requires a current-thread runtime"@,
            },
    {
        match self {
            Flavor::Current => Ok(()),
            Flavor::Multi => Err("eddy: spawn_local requires a current-thread runtime"),
        }
    }

    /// Whether a worker can hand its queue to another thread. On a single thread there is
    /// no other.
    pub fn block_in_place(self) -> (result: Result<(), &'static str>)
        ensures
            match result {
                Ok(_) => self == Flavor::Multi,
                Err(message) => self == Flavor::Current && message@
                    == "eddy: block_in_place requires a multi-thread runtime; current-thread runtimes cannot hand off their run queue"@,
            },
    {
        match self {
            Flavor::Current => Err(
                "eddy: block_in_place requires a multi-thread runtime; current-thread runtimes cannot hand off their run queue",
            ),
            Flavor::Multi => Ok(()),
        }
    }

    /// Whether the runtime has a readiness driver.
    pub fn has_io_driver(self) -> (result: bool)
        ensures
            result == (self == Flavor::Multi),
    {
        match self {
            Flavor::Current => false,
            Flavor::Multi => true,
        }
    }
}

// ---------------------------------------------------------------------------
// The runtime that a thread is in
// ---------------------------------------------------------------------------

/// The runtime that a thread is in, if it is in one.
pub struct Ambient<H> {
    pub handle: Option<H>,
}

/// What to go back to.
pub struct EnterGuard<H> {
    pub previous: Option<H>,
}

impl<H> Ambient<H> {
    /// The thread is in no runtime.
    pub fn new() -> (ambient: Ambient<H>)
        ensures
            ambient.handle is None,
    {
        Ambient { handle: None }
    }

    /// The runtime that the thread is in. Where there is none, what to say about it.
    pub fn current(&self) -> (handle: Result<&H, &'static str>)
        ensures
            match handle {
                Ok(handle) => self.handle == Some(*handle),
                Err(message) => self.handle is None && message@
                    == "no eddy runtime running on this thread: call Handle::current() from inside Runtime::block_on"@,
            },
    {
        match &self.handle {
            Some(handle) => Ok(handle),
            None => Err(
                "no eddy runtime running on this thread: call Handle::current() from inside Runtime::block_on",
            ),
        }
    }

    /// Goes into a runtime.
    pub fn enter(&mut self, handle: H) -> (guard: EnterGuard<H>)
        ensures
            final(self).handle == Some(handle),
            guard.previous == old(self).handle,
    {
        let mut previous = Some(handle);
        core::mem::swap(&mut previous, &mut self.handle);
        EnterGuard { previous }
    }

    /// Goes back to where the thread was before.
    pub fn leave(&mut self, guard: EnterGuard<H>)
        ensures
            final(self).handle == guard.previous,
    {
        self.handle = guard.previous;
    }
}

// ---------------------------------------------------------------------------
// Shutdown
// ---------------------------------------------------------------------------

/// What to do about a worker's thread at shutdown.
#[derive(Debug, Clone, Copy, PartialEq, Eq, Structural)]
pub enum JoinStep {
    /// The worker has finished: join its thread.
    Join,
    /// Wait a moment and look again.
    Sleep,
    /// The time is up: the thread ends by itself once its queue is empty.
    Detach,
}

/// A worker that has finished is joined, even after the deadline. One that has not is
/// given time until then.
pub fn join_step(finished: bool, now: u128, deadline: u128) -> (step: JoinStep)
    ensures
        step == (if finished {
            JoinStep::Join
        } else if now < deadline {
            JoinStep::Sleep
        } else {
            JoinStep::Detach
        }),
{
    if finished {
        JoinStep::Join
    } else if now < deadline {
        JoinStep::Sleep
    } else {
        JoinStep::Detach
    }
}

/// The tasks that a runtime keeps alive until they complete, by number.
pub struct TaskRegistry {
    tasks: Vec<u64>,
    closed: bool,
}

impl TaskRegistry {
    /// The tasks.
    pub closed spec fn tasks(&self) -> Seq<u64> {
        self.tasks@
    }

    /// Whether the runtime has shut down.
    pub closed spec fn is_closed(&self) -> bool {
        self.closed
    }

    /// No task is registered twice.
    pub closed spec fn wf(&self) -> bool {
        self.tasks@.no_duplicates()
    }

    /// No tasks.
    pub fn new() -> (registry: TaskRegistry)
        ensures
            registry.wf(),
            registry.tasks() == Seq::<u64>::empty(),
            !registry.is_closed(),
    {
        TaskRegistry { tasks: Vec::new(), closed: false }
    }

    /// A new task. The runtime must not have shut down.
    pub fn register_task(&mut self, task: u64)
        requires
            old(self).wf(),
            !old(self).is_closed(),
            !old(self).tasks().contains(task),
        ensures
            final(self).wf(),
            !final(self).is_closed(),
            final(self).tasks() == old(self).tasks().push(task),
    {
        self.tasks.push(task);
    }

    /// A task has completed. Returns whether it was registered: then the registry's hold
    /// on it ends. The last task takes its place.
    pub fn task_complete(&mut self, task: u64) -> (removed: bool)
        requires
            old(self).wf(),
        ensures
            final(self).wf(),
            final(self).is_closed() == old(self).is_closed(),
            removed == old(self).tasks().contains(task),
            removed ==> exists|i: int|
                {
                    &&& 0 <= i < old(self).tasks().len()
                    &&& #[trigger] old(self).tasks()[i] == task
                    &&& final(self).tasks() == old(self).tasks().update(
                        i,
                        old(self).tasks().last(),
                    ).drop_last()
                },
            !removed ==> final(self).tasks() == old(self).tasks(),
            !final(self).tasks().contains(task),
            forall|other: u64|
                other != task ==> #[trigger] final(self).tasks().contains(other) == old(
                    self,
                ).tasks().contains(other),
            final(self).tasks().len() == old(self).tasks().len() - if removed {
                1int
            } else {
                0
            },
    {
        let ghost before = self.tasks@;
        let mut i: usize = 0;
        while i < self.tasks.len()
            invariant
                i <= self.tasks@.len(),
                self.tasks@ == before,
                self.closed == old(self).closed,
                before == old(self).tasks@,
                before.no_duplicates(),
                forall|k: int| 0 <= k < i ==> #[trigger] before[k] != task,
            decreases self.tasks.len() - i,
        {
            if self.tasks[i] == task {
                let _ = self.tasks.swap_remove(i);
                proof {
                    let after = self.tasks@;
                    let last = before.len() - 1;
                    assert(before[i as int] == task);
                    assert(after =~= before.update(i as int, before.last()).drop_last());
                    assert(old(self).tasks()[i as int] == task);
                    assert forall|k: int| 0 <= k < after.len() implies #[trigger] after[k]
                        == before[if k == i {
                        last
                    } else {
                        k
                    }] by {}
                    assert forall|other: u64| other != task implies #[trigger] after.contains(other)
                        == before.contains(other) by {
                        if before.contains(other) {
                            let k = choose|k: int| 0 <= k < before.len() && before[k] == other;
                            if k == last {
                                assert(after[i as int] == other);
                            } else {
                                assert(after[k] == other);
                            }
                        }
                        if after.contains(other) {
                            let k = choose|k: int| 0 <= k < after.len() && after[k] == other;
                            assert(before[if k == i {
                                last
                            } else {
                                k
                            }] == other);
                        }
                    }
                    if after.contains(task) {
                        let k = choose|k: int| 0 <= k < after.len() && after[k] == task;
                        let source = if k == i {
                            last
                        } else {
                            k
                        };
                        assert(before[source] == task);
                        assert(source == i);
                    }
                    assert(after.no_duplicates()) by {
                        assert forall|a: int, b: int|
                            0 <= a < after.len() && 0 <= b < after.len() && a != b implies after[a]
                            != after[b] by {
                            let x = if a == i {
                                last
                            } else {
                                a
                            };
                            let y = if b == i {
                                last
                            } else {
                                b
                            };
                            assert(before[x] != before[y]);
                        }
                    }
                }
                return true;
            }
            i = i + 1;
        }
        false
    }

    /// The runtime shuts down. Returns the tasks to cancel, the first time.
    pub fn close(&mut self) -> (tasks: Option<Vec<u64>>)
        requires
            old(self).wf(),
        ensures
            final(self).wf(),
            final(self).is_closed(),
            match tasks {
                Some(tasks) => !old(self).is_closed() && tasks@ == old(self).tasks()
                    && final(self).tasks() == Seq::<u64>::empty(),
                None => old(self).is_closed() && final(self).tasks() == old(self).tasks(),
            },
    {
        if self.closed {
            return None;
        }
        self.closed = true;
        let mut tasks: Vec<u64> = Vec::new();
        core::mem::swap(&mut tasks, &mut self.tasks);
        Some(tasks)
    }
}

} // verus!
