//! Tick-driven task scheduler.
//!
//! The scheduler owns the set of pending scheduled tasks and a monotonic
//! tick counter. Work is keyed to discrete simulation ticks: a task either
//! runs once at a fixed tick (`Later`) or repeatedly at a fixed interval
//! (`Timer`). Advancing the counter with [`TaskScheduler::tick`] evaluates
//! every pending task exactly once and returns the list of dispatch
//! decisions; the embedding runtime spawns the corresponding handlers
//! concurrently, so `tick` itself never blocks on handler execution.

use vstd::prelude::*;

verus! {

/// A polymorphic unit of deferred work: `run` performs its side effects,
/// `cancel` lets it react to cancellation (release resources, report).
/// The scheduler depends only on this capability, never on a concrete
/// handler type; the embedding runtime owns the handlers and dispatches
/// them by the task identifiers that [`TaskScheduler::tick`] returns.
pub trait TaskHandler {
    /// When the handler may be invoked; a handler built from a callable
    /// inherits the callable's own precondition.
    spec fn ready(&self) -> bool;

    /// Perform the deferred work.
    fn run(&self)
        requires
            self.ready(),
    ;

    /// React to the task having been cancelled before dispatch.
    fn cancel(&self)
        requires
            self.ready(),
    ;
}

/// Adapter that turns any callable into a task handler: `run` calls it,
/// `cancel` does nothing. This replaces per-call-site inline handler
/// types with one generic wrapper.
pub struct FnTask<F> where F: Fn() {
    pub callable: F,
}

impl<F> FnTask<F> where F: Fn() {
    /// Wrap `callable` as a task handler.
    pub fn new(callable: F) -> (task: Self)
        ensures
            task.callable == callable,
    {
        FnTask { callable }
    }
}

impl<F> TaskHandler for FnTask<F> where F: Fn() {
    open spec fn ready(&self) -> bool {
        call_requires(self.callable, ())
    }

    fn run(&self) {
        (self.callable)();
    }

    fn cancel(&self) {
    }
}

/// The kind of a scheduled task: one-shot, due at `run_at_tick`, or
/// repeating every `interval_ticks`, next due at `next_run_tick`.
#[derive(Clone, Copy, PartialEq, Eq, Structural, Debug)]
pub enum ScheduledTaskType {
    Later { run_at_tick: u64 },
    Timer { interval_ticks: u64, next_run_tick: u64 },
}

/// One pending unit of deferred work. The handler itself is owned by the
/// embedding runtime and found by `task_id`; the scheduler keeps only the
/// data its dispatch decisions depend on.
#[derive(Clone, Copy, PartialEq, Eq, Structural, Debug)]
pub struct ScheduledTask {
    pub task_id: u64,
    pub task_type: ScheduledTaskType,
    pub cancelled: bool,
}

/// A decision made by one call to [`TaskScheduler::tick`]: dispatch the
/// task's `run` concurrently, or acknowledge its cancellation by
/// dispatching `cancel`.
#[derive(Clone, Copy, PartialEq, Eq, Structural, Debug)]
pub enum TickAction {
    RunTask { task_id: u64 },
    CancelTask { task_id: u64 },
}

/// Rejected configuration for a new task, reported synchronously to the
/// caller that introduced it.
#[derive(Clone, Copy, PartialEq, Eq, Structural, Debug)]
pub enum ScheduleError {
    /// A repeating task with a zero interval would busy-loop on every tick.
    ZeroInterval,
}

/// Handle returned by [`TaskScheduler::schedule_once`]; cancelling it sets
/// the task's cancel flag.
#[derive(Clone, Copy, PartialEq, Eq, Structural, Debug)]
pub struct ScheduledHandle {
    pub task_id: u64,
}

/// Handle returned by [`TaskScheduler::schedule_repeating`]; cancelling it
/// sets the task's cancel flag, which stops all not-yet-dispatched runs.
#[derive(Clone, Copy, PartialEq, Eq, Structural, Debug)]
pub struct RepeatingHandle {
    pub task_id: u64,
}

/// True when some pending task carries `task_id`.
pub open spec fn has_task(tasks: Seq<ScheduledTask>, task_id: u64) -> bool {
    exists|i: int| 0 <= i < tasks.len() && tasks[i].task_id == task_id
}

/// The pending task carrying `task_id`; meaningful when `has_task` holds
/// and identifiers are distinct.
pub open spec fn task_with_id(tasks: Seq<ScheduledTask>, task_id: u64) -> ScheduledTask {
    tasks[choose|i: int| 0 <= i < tasks.len() && tasks[i].task_id == task_id]
}

/// All pending tasks carry distinct identifiers.
pub open spec fn distinct_ids(tasks: Seq<ScheduledTask>) -> bool {
    forall|i: int, j: int|
        0 <= i < j < tasks.len() ==> tasks[i].task_id != tasks[j].task_id
}

/// Every repeating task has a positive interval; a zero interval is
/// rejected when the task is scheduled.
pub open spec fn intervals_positive(tasks: Seq<ScheduledTask>) -> bool {
    forall|i: int| 0 <= i < tasks.len() ==>
        (#[trigger] tasks[i].task_type matches ScheduledTaskType::Timer { interval_ticks, .. }
            ==> interval_ticks >= 1)
}

/// True when the task is due at tick `now`: a one-shot task whose due tick
/// has been reached, or a repeating task whose next run tick has.
pub open spec fn is_due(task: ScheduledTask, now: u64) -> bool {
    match task.task_type {
        ScheduledTaskType::Later { run_at_tick } => run_at_tick <= now,
        ScheduledTaskType::Timer { next_run_tick, .. } => next_run_tick <= now,
    }
}

/// Advancing a due repeating task at tick `now` must not overflow the next
/// run tick. One-shot and not-yet-due tasks need no headroom.
pub open spec fn timer_fits(task: ScheduledTask, now: u64) -> bool {
    task.task_type matches ScheduledTaskType::Timer { interval_ticks, next_run_tick }
        ==> (next_run_tick <= now ==> now + interval_ticks <= u64::MAX)
}

/// What one tick evaluation keeps of a single task: a cancelled task is
/// removed; a due one-shot task is removed after dispatch; a due repeating
/// task stays with its next run tick advanced to `now + interval` (measured
/// from the current tick, so overruns do not compound drift); anything else
/// stays unchanged.
pub open spec fn step_keep(task: ScheduledTask, now: u64) -> Seq<ScheduledTask> {
    if task.cancelled {
        Seq::empty()
    } else {
        match task.task_type {
            ScheduledTaskType::Later { run_at_tick } => {
                if run_at_tick <= now {
                    Seq::empty()
                } else {
                    seq![task]
                }
            },
            ScheduledTaskType::Timer { interval_ticks, next_run_tick } => {
                if next_run_tick <= now {
                    seq![ScheduledTask {
                        task_type: ScheduledTaskType::Timer {
                            interval_ticks,
                            next_run_tick: (now + interval_ticks) as u64,
                        },
                        ..task
                    }]
                } else {
                    seq![task]
                }
            },
        }
    }
}

/// What one tick evaluation dispatches for a single task: `cancel` for a
/// task observed cancelled, `run` for a due task, nothing otherwise.
pub open spec fn step_action(task: ScheduledTask, now: u64) -> Seq<TickAction> {
    if task.cancelled {
        seq![TickAction::CancelTask { task_id: task.task_id }]
    } else if is_due(task, now) {
        seq![TickAction::RunTask { task_id: task.task_id }]
    } else {
        Seq::empty()
    }
}

/// The pending set after evaluating every task once at tick `now`, in
/// list order.
pub open spec fn kept_tasks(tasks: Seq<ScheduledTask>, now: u64) -> Seq<ScheduledTask>
    decreases tasks.len(),
{
    if tasks.len() == 0 {
        Seq::empty()
    } else {
        kept_tasks(tasks.drop_last(), now) + step_keep(tasks.last(), now)
    }
}

/// The dispatch decisions of one tick evaluation at tick `now`, in list
/// order.
pub open spec fn tick_actions(tasks: Seq<ScheduledTask>, now: u64) -> Seq<TickAction>
    decreases tasks.len(),
{
    if tasks.len() == 0 {
        Seq::empty()
    } else {
        tick_actions(tasks.drop_last(), now) + step_action(tasks.last(), now)
    }
}

/// Every pending task with `task_id` marked cancelled; all other tasks are
/// untouched. Cancellation is cooperative: it takes effect at the next
/// tick evaluation, never preemptively.
pub open spec fn cancel_in(tasks: Seq<ScheduledTask>, task_id: u64) -> Seq<ScheduledTask> {
    tasks.map_values(|t: ScheduledTask| if t.task_id == task_id {
        ScheduledTask { cancelled: true, ..t }
    } else {
        t
    })
}

/// The tick-driven task scheduler: the pending task set plus the monotonic
/// tick counter, advanced by exactly one per simulation step.
pub struct TaskScheduler {
    pub tasks: Vec<ScheduledTask>,
    pub tick_count: u64,
    pub next_task_id: u64,
}

impl TaskScheduler {
    /// Internal consistency: identifiers are distinct and below the
    /// allocator cursor, and repeating intervals are positive.
    pub open spec fn wf(&self) -> bool {
        &&& distinct_ids(self.tasks@)
        &&& forall|i: int| 0 <= i < self.tasks@.len() ==>
            (#[trigger] self.tasks@[i].task_id) < self.next_task_id
        &&& intervals_positive(self.tasks@)
    }

    /// A fresh scheduler: no pending tasks, tick counter at zero.
    pub fn new() -> (scheduler: Self)
        ensures
            scheduler.wf(),
            scheduler.tasks@ == Seq::<ScheduledTask>::empty(),
            scheduler.tick_count == 0,
            scheduler.next_task_id == 0,
    {
        let scheduler = TaskScheduler {
            tasks: Vec::new(),
            tick_count: 0,
            next_task_id: 0,
        };
        proof {
            assert(scheduler.tasks@ =~= Seq::<ScheduledTask>::empty());
        }
        scheduler
    }

    /// Schedule one-shot work due `delay_ticks` after the current tick.
    /// A delay of zero means "run on the next tick advance", never
    /// synchronously. The handler identified by the returned handle runs at
    /// most once, and no earlier than `tick_count + delay_ticks`.
    pub fn schedule_once(&mut self, delay_ticks: u64) -> (handle: ScheduledHandle)
        requires
            old(self).wf(),
            old(self).tick_count + delay_ticks <= u64::MAX,
            old(self).next_task_id < u64::MAX,
        ensures
            final(self).wf(),
            handle.task_id == old(self).next_task_id,
            final(self).tasks@ == old(self).tasks@.push(ScheduledTask {
                task_id: old(self).next_task_id,
                task_type: ScheduledTaskType::Later {
                    run_at_tick: (old(self).tick_count + delay_ticks) as u64,
                },
                cancelled: false,
            }),
            final(self).tick_count == old(self).tick_count,
            final(self).next_task_id == old(self).next_task_id + 1,
    {
        let task_id = self.next_task_id;
        self.next_task_id = task_id + 1;
        self.tasks.push(ScheduledTask {
            task_id,
            task_type: ScheduledTaskType::Later {
                run_at_tick: self.tick_count + delay_ticks,
            },
            cancelled: false,
        });
        ScheduledHandle { task_id }
    }

    /// Schedule repeating work that runs once per `interval_ticks`,
    /// first at `tick_count + interval_ticks`, until cancelled. A zero
    /// interval is a configuration error, rejected synchronously.
    pub fn schedule_repeating(&mut self, interval_ticks: u64) -> (result: Result<
        RepeatingHandle,
        ScheduleError,
    >)
        requires
            old(self).wf(),
            old(self).tick_count + interval_ticks <= u64::MAX,
            old(self).next_task_id < u64::MAX,
        ensures
            final(self).wf(),
            interval_ticks == 0 ==> {
                &&& result == Err::<RepeatingHandle, ScheduleError>(ScheduleError::ZeroInterval)
                &&& *final(self) == *old(self)
            },
            interval_ticks >= 1 ==> {
                &&& result matches Ok(handle) && handle.task_id == old(self).next_task_id
                &&& final(self).tasks@ == old(self).tasks@.push(ScheduledTask {
                    task_id: old(self).next_task_id,
                    task_type: ScheduledTaskType::Timer {
                        interval_ticks,
                        next_run_tick: (old(self).tick_count + interval_ticks) as u64,
                    },
                    cancelled: false,
                })
                &&& final(self).tick_count == old(self).tick_count
                &&& final(self).next_task_id == old(self).next_task_id + 1
            },
    {
        if interval_ticks == 0 {
            return Err(ScheduleError::ZeroInterval);
        }
        let task_id = self.next_task_id;
        self.next_task_id = task_id + 1;
        self.tasks.push(ScheduledTask {
            task_id,
            task_type: ScheduledTaskType::Timer {
                interval_ticks,
                next_run_tick: self.tick_count + interval_ticks,
            },
            cancelled: false,
        });
        Ok(RepeatingHandle { task_id })
    }

    /// Mark the task carrying `task_id` as cancelled. Cancellation is
    /// cooperative: the task is removed (and its handler's `cancel`
    /// dispatched) at the next tick evaluation; a run already dispatched is
    /// not recalled. Cancelling an unknown or already-cancelled identifier
    /// changes nothing.
    pub fn cancel(&mut self, task_id: u64)
        ensures
            final(self).tasks@ == cancel_in(old(self).tasks@, task_id),
            final(self).tick_count == old(self).tick_count,
            final(self).next_task_id == old(self).next_task_id,
            old(self).wf() ==> final(self).wf(),
    {
        let ghost orig = self.tasks@;
        let n = self.tasks.len();
        let mut i: usize = 0;
        while i < n
            invariant
                n == orig.len(),
                i <= n,
                self.tasks@.len() == n,
                forall|j: int| 0 <= j < i ==> self.tasks@[j] == cancel_in(orig, task_id)[j],
                forall|j: int| i <= j < n ==> self.tasks@[j] == orig[j],
                self.tick_count == old(self).tick_count,
                self.next_task_id == old(self).next_task_id,
            decreases n - i,
        {
            if self.tasks[i].task_id == task_id {
                let mut t = self.tasks[i];
                t.cancelled = true;
                self.tasks.set(i, t);
            }
            i += 1;
        }
        proof {
            assert(self.tasks@ =~= cancel_in(orig, task_id));
            if old(self).wf() {
                assert forall|k: int| 0 <= k < self.tasks@.len() implies
                    (#[trigger] self.tasks@[k].task_id) < self.next_task_id by {
                    assert(self.tasks@[k].task_id == orig[k].task_id);
                }
                assert(distinct_ids(self.tasks@)) by {
                    assert forall|p: int, q: int| 0 <= p < q < self.tasks@.len() implies
                        self.tasks@[p].task_id != self.tasks@[q].task_id by {
                        assert(self.tasks@[p].task_id == orig[p].task_id);
                        assert(self.tasks@[q].task_id == orig[q].task_id);
                    }
                }
                assert(intervals_positive(self.tasks@)) by {
                    assert forall|k: int| 0 <= k < self.tasks@.len() implies
                        (#[trigger] self.tasks@[k].task_type matches
                            ScheduledTaskType::Timer { interval_ticks, .. }
                                ==> interval_ticks >= 1) by {
                        assert(self.tasks@[k].task_type == orig[k].task_type);
                    }
                }
            }
        }
    }

    /// Advance the tick counter by one and evaluate every pending task
    /// exactly once: cancelled tasks are removed with a `CancelTask`
    /// decision, due tasks get a `RunTask` decision (one-shot tasks are
    /// removed, repeating tasks are re-armed at `now + interval`), and
    /// everything else is kept untouched. The returned decisions are for
    /// the embedding runtime to dispatch concurrently; this call never
    /// waits on a handler.
    pub fn tick(&mut self) -> (actions: Vec<TickAction>)
        requires
            old(self).wf(),
            old(self).tick_count < u64::MAX,
            forall|k: int| 0 <= k < old(self).tasks@.len() ==>
                timer_fits(#[trigger] old(self).tasks@[k], (old(self).tick_count + 1) as u64),
        ensures
            final(self).wf(),
            final(self).tick_count == old(self).tick_count + 1,
            final(self).next_task_id == old(self).next_task_id,
            final(self).tasks@ == kept_tasks(old(self).tasks@, (old(self).tick_count + 1) as u64),
            actions@ == tick_actions(old(self).tasks@, (old(self).tick_count + 1) as u64),
    {
        let now = self.tick_count + 1;
        self.tick_count = now;
        let ghost orig = self.tasks@;
        let n = self.tasks.len();
        let mut kept: Vec<ScheduledTask> = Vec::new();
        let mut actions: Vec<TickAction> = Vec::new();
        let mut i: usize = 0;
        proof {
            assert(orig.take(0) =~= Seq::<ScheduledTask>::empty());
        }
        while i < n
            invariant
                n == orig.len(),
                i <= n,
                self.tasks@ == orig,
                kept@ == kept_tasks(orig.take(i as int), now),
                actions@ == tick_actions(orig.take(i as int), now),
                forall|k: int| 0 <= k < orig.len() ==>
                    timer_fits(#[trigger] orig[k], now),
            decreases n - i,
        {
            let t = self.tasks[i];
            proof {
                lemma_step_prefix(orig, now, i as int);
            }
            if t.cancelled {
                actions.push(TickAction::CancelTask { task_id: t.task_id });
            } else {
                match t.task_type {
                    ScheduledTaskType::Later { run_at_tick } => {
                        if run_at_tick <= now {
                            actions.push(TickAction::RunTask { task_id: t.task_id });
                        } else {
                            kept.push(t);
                        }
                    },
                    ScheduledTaskType::Timer { interval_ticks, next_run_tick } => {
                        if next_run_tick <= now {
                            actions.push(TickAction::RunTask { task_id: t.task_id });
                            kept.push(ScheduledTask {
                                task_id: t.task_id,
                                task_type: ScheduledTaskType::Timer {
                                    interval_ticks,
                                    next_run_tick: now + interval_ticks,
                                },
                                cancelled: false,
                            });
                        } else {
                            kept.push(t);
                        }
                    },
                }
            }
            proof {
                assert(kept@ =~= kept_tasks(orig.take(i as int), now) + step_keep(orig[i as int], now));
                assert(actions@ =~= tick_actions(orig.take(i as int), now)
                    + step_action(orig[i as int], now));
            }
            i += 1;
        }
        proof {
            assert(orig.take(n as int) =~= orig);
        }
        self.tasks = kept;
        proof {
            lemma_kept_tasks_sound(orig, now);
            assert forall|k: int| 0 <= k < self.tasks@.len() implies
                (#[trigger] self.tasks@[k].task_id) < self.next_task_id by {
                let id = self.tasks@[k].task_id;
                let j = choose|j: int| 0 <= j < orig.len() && orig[j].task_id == id;
                assert(orig[j].task_id < self.next_task_id);
            }
        }
        actions
    }
}

impl Default for TaskScheduler {
    /// Same as [`TaskScheduler::new`].
    fn default() -> (scheduler: Self)
        ensures
            scheduler.wf(),
            scheduler.tasks@ == Seq::<ScheduledTask>::empty(),
            scheduler.tick_count == 0,
            scheduler.next_task_id == 0,
    {
        Self::new()
    }
}

impl ScheduledHandle {
    /// Cooperatively cancel the one-shot task this handle was returned
    /// for: the flag is observed at the next tick evaluation, so a run
    /// dispatched before that point is not recalled.
    pub fn cancel(&self, scheduler: &mut TaskScheduler)
        ensures
            final(scheduler).tasks@ == cancel_in(old(scheduler).tasks@, self.task_id),
            final(scheduler).tick_count == old(scheduler).tick_count,
            final(scheduler).next_task_id == old(scheduler).next_task_id,
            old(scheduler).wf() ==> final(scheduler).wf(),
    {
        scheduler.cancel(self.task_id);
    }
}

impl RepeatingHandle {
    /// Cooperatively cancel the repeating task this handle was returned
    /// for: no run is dispatched at any tick evaluation after the flag is
    /// observed.
    pub fn cancel(&self, scheduler: &mut TaskScheduler)
        ensures
            final(scheduler).tasks@ == cancel_in(old(scheduler).tasks@, self.task_id),
            final(scheduler).tick_count == old(scheduler).tick_count,
            final(scheduler).next_task_id == old(scheduler).next_task_id,
            old(scheduler).wf() ==> final(scheduler).wf(),
    {
        scheduler.cancel(self.task_id);
    }
}

/// One step of [`kept_tasks`] and [`tick_actions`] on a growing prefix.
proof fn lemma_step_prefix(tasks: Seq<ScheduledTask>, now: u64, i: int)
    requires
        0 <= i < tasks.len(),
    ensures
        kept_tasks(tasks.take(i + 1), now)
            == kept_tasks(tasks.take(i), now) + step_keep(tasks[i], now),
        tick_actions(tasks.take(i + 1), now)
            == tick_actions(tasks.take(i), now) + step_action(tasks[i], now),
{
    assert(tasks.take(i + 1).drop_last() =~= tasks.take(i));
    assert(tasks.take(i + 1).last() == tasks[i]);
}

/// Tick evaluation only keeps tasks that were already pending, and it
/// preserves distinctness of identifiers and positivity of intervals.
pub proof fn lemma_kept_tasks_sound(tasks: Seq<ScheduledTask>, now: u64)
    ensures
        forall|i: int| 0 <= i < kept_tasks(tasks, now).len() ==>
            has_task(tasks, #[trigger] kept_tasks(tasks, now)[i].task_id),
        distinct_ids(tasks) ==> distinct_ids(kept_tasks(tasks, now)),
        intervals_positive(tasks) ==> intervals_positive(kept_tasks(tasks, now)),
    decreases tasks.len(),
{
    if tasks.len() == 0 {
    } else {
        let prefix = tasks.drop_last();
        let last = tasks.last();
        lemma_kept_tasks_sound(prefix, now);
        let kept = kept_tasks(tasks, now);
        let kept_prefix = kept_tasks(prefix, now);
        let tail = step_keep(last, now);
        assert(kept == kept_prefix + tail);
        assert forall|i: int| 0 <= i < kept.len() implies
            has_task(tasks, #[trigger] kept[i].task_id) by {
            if i < kept_prefix.len() {
                assert(kept[i] == kept_prefix[i]);
                let j = choose|j: int| 0 <= j < prefix.len() && prefix[j].task_id == kept_prefix[i].task_id;
                assert(tasks[j].task_id == kept[i].task_id);
            } else {
                assert(kept[i] == tail[i - kept_prefix.len()]);
                assert(kept[i].task_id == last.task_id);
                assert(tasks[tasks.len() - 1].task_id == kept[i].task_id);
            }
        }
        if distinct_ids(tasks) {
            assert(distinct_ids(prefix));
            assert forall|p: int, q: int| 0 <= p < q < kept.len() implies
                kept[p].task_id != kept[q].task_id by {
                if q < kept_prefix.len() {
                    assert(kept[p] == kept_prefix[p] && kept[q] == kept_prefix[q]);
                } else {
                    assert(kept[q].task_id == last.task_id);
                    assert(kept[p] == kept_prefix[p]);
                    let j = choose|j: int| 0 <= j < prefix.len() && prefix[j].task_id == kept_prefix[p].task_id;
                    assert(tasks[j].task_id != tasks[tasks.len() - 1].task_id);
                }
            }
        }
        if intervals_positive(tasks) {
            assert(intervals_positive(prefix)) by {
                assert forall|k: int| 0 <= k < prefix.len() implies
                    (#[trigger] prefix[k].task_type matches
                        ScheduledTaskType::Timer { interval_ticks, .. }
                            ==> interval_ticks >= 1) by {
                    assert(prefix[k] == tasks[k]);
                }
            }
            assert forall|k: int| 0 <= k < kept.len() implies
                (#[trigger] kept[k].task_type matches
                    ScheduledTaskType::Timer { interval_ticks, .. }
                        ==> interval_ticks >= 1) by {
                if k >= kept_prefix.len() {
                    assert(kept[k] == tail[k - kept_prefix.len()]);
                    assert(tasks[tasks.len() - 1].task_type matches
                        ScheduledTaskType::Timer { interval_ticks, .. }
                            ==> interval_ticks >= 1);
                }
            }
        }
    }
}

} // verus!
