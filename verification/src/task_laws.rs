//! Laws of the task scheduler, stated over whole runs of tick evaluation.
//!
//! [`tasks_after`] and [`actions_at`] iterate the specification of
//! [`crate::task::TaskScheduler::tick`] from a starting pending set and
//! tick count, so each law speaks about every future tick at once: which
//! ticks dispatch a given task, and which never do.

use vstd::prelude::*;

use crate::task::ScheduledTask;
use crate::task::ScheduledTaskType;
use crate::task::TickAction;
use crate::task::distinct_ids;
use crate::task::has_task;
use crate::task::intervals_positive;
use crate::task::is_due;
use crate::task::kept_tasks;
use crate::task::lemma_kept_tasks_sound;
use crate::task::step_action;
use crate::task::step_keep;
use crate::task::task_with_id;
use crate::task::tick_actions;

verus! {

/// The task as it stands after a tick evaluation at `now` that found it
/// due: a repeating task is re-armed at `now + interval`, a one-shot task
/// is unchanged (it is removed instead).
pub open spec fn advanced(task: ScheduledTask, now: u64) -> ScheduledTask {
    match task.task_type {
        ScheduledTaskType::Timer { interval_ticks, .. } => ScheduledTask {
            task_type: ScheduledTaskType::Timer {
                interval_ticks,
                next_run_tick: (now + interval_ticks) as u64,
            },
            ..task
        },
        ScheduledTaskType::Later { .. } => task,
    }
}

/// The pending set after `n` further tick evaluations, starting from
/// `tasks` at tick count `tick`.
pub open spec fn tasks_after(tasks: Seq<ScheduledTask>, tick: u64, n: nat) -> Seq<ScheduledTask>
    decreases n,
{
    if n == 0 {
        tasks
    } else {
        kept_tasks(tasks_after(tasks, tick, (n - 1) as nat), ((tick + n) as u64))
    }
}

/// The dispatch decisions of the `k`-th future tick evaluation (the one
/// that moves the counter to `tick + k`), for `k >= 1`.
pub open spec fn actions_at(tasks: Seq<ScheduledTask>, tick: u64, k: nat) -> Seq<TickAction>
    recommends
        1 <= k,
{
    tick_actions(tasks_after(tasks, tick, (k - 1) as nat), ((tick + k) as u64))
}

proof fn lemma_contains_add<T>(a: Seq<T>, b: Seq<T>, x: T)
    ensures
        (a + b).contains(x) <==> a.contains(x) || b.contains(x),
{
    if a.contains(x) {
        let i = choose|i: int| 0 <= i < a.len() && a[i] == x;
        assert((a + b)[i] == x);
    }
    if b.contains(x) {
        let i = choose|i: int| 0 <= i < b.len() && b[i] == x;
        assert((a + b)[a.len() + i] == x);
    }
    if (a + b).contains(x) {
        let i = choose|i: int| 0 <= i < (a + b).len() && (a + b)[i] == x;
        if i < a.len() {
            assert(a[i] == x);
        } else {
            assert(b[i - a.len()] == x);
        }
    }
}

proof fn lemma_has_task_add(a: Seq<ScheduledTask>, b: Seq<ScheduledTask>, task_id: u64)
    ensures
        has_task(a + b, task_id) <==> has_task(a, task_id) || has_task(b, task_id),
{
    if has_task(a, task_id) {
        let i = choose|i: int| 0 <= i < a.len() && a[i].task_id == task_id;
        assert((a + b)[i].task_id == task_id);
    }
    if has_task(b, task_id) {
        let i = choose|i: int| 0 <= i < b.len() && b[i].task_id == task_id;
        assert((a + b)[a.len() + i].task_id == task_id);
    }
    if has_task(a + b, task_id) {
        let i = choose|i: int| 0 <= i < (a + b).len() && (a + b)[i].task_id == task_id;
        if i < a.len() {
            assert(a[i].task_id == task_id);
        } else {
            assert(b[i - a.len()].task_id == task_id);
        }
    }
}

/// With distinct identifiers, `task_with_id` picks out exactly the task at
/// any index that carries the identifier.
pub proof fn lemma_task_with_id_is(tasks: Seq<ScheduledTask>, j: int)
    requires
        distinct_ids(tasks),
        0 <= j < tasks.len(),
    ensures
        has_task(tasks, tasks[j].task_id),
        task_with_id(tasks, tasks[j].task_id) == tasks[j],
{
    let task_id = tasks[j].task_id;
    assert(has_task(tasks, task_id));
    let i = choose|i: int| 0 <= i < tasks.len() && tasks[i].task_id == task_id;
    if i < j {
        assert(tasks[i].task_id != tasks[j].task_id);
    } else if j < i {
        assert(tasks[j].task_id != tasks[i].task_id);
    }
}

/// A tick evaluation mentions no identifier that is not pending.
pub proof fn lemma_actions_only_present(tasks: Seq<ScheduledTask>, now: u64, task_id: u64)
    requires
        !has_task(tasks, task_id),
    ensures
        !tick_actions(tasks, now).contains(TickAction::RunTask { task_id }),
        !tick_actions(tasks, now).contains(TickAction::CancelTask { task_id }),
    decreases tasks.len(),
{
    if tasks.len() == 0 {
    } else {
        let prefix = tasks.drop_last();
        let last = tasks.last();
        assert(!has_task(prefix, task_id)) by {
            if has_task(prefix, task_id) {
                let i = choose|i: int| 0 <= i < prefix.len() && prefix[i].task_id == task_id;
                assert(tasks[i].task_id == task_id);
            }
        }
        lemma_actions_only_present(prefix, now, task_id);
        assert(last.task_id != task_id) by {
            assert(tasks[tasks.len() - 1].task_id == last.task_id);
        }
        lemma_contains_add(
            tick_actions(prefix, now),
            step_action(last, now),
            TickAction::RunTask { task_id },
        );
        lemma_contains_add(
            tick_actions(prefix, now),
            step_action(last, now),
            TickAction::CancelTask { task_id },
        );
        assert forall|x: TickAction| step_action(last, now).contains(x) implies
            x != (TickAction::RunTask { task_id }) && x != (TickAction::CancelTask { task_id }) by {
            let i = choose|i: int| 0 <= i < step_action(last, now).len()
                && step_action(last, now)[i] == x;
        }
    }
}

/// What one tick evaluation at `now` decides for the pending task carrying
/// `task_id`: `run` is dispatched exactly when the task is uncancelled and
/// due; `cancel` exactly when it is cancelled; the task stays pending
/// exactly when it is an uncancelled repeating task or not yet due, and
/// then it stays as itself, re-armed if it just ran.
pub proof fn lemma_tick_step_for_task(tasks: Seq<ScheduledTask>, now: u64, task_id: u64)
    requires
        distinct_ids(tasks),
        has_task(tasks, task_id),
    ensures
        tick_actions(tasks, now).contains(TickAction::RunTask { task_id }) <==> (
        !task_with_id(tasks, task_id).cancelled && is_due(task_with_id(tasks, task_id), now)),
        tick_actions(tasks, now).contains(TickAction::CancelTask { task_id }) <==> task_with_id(
            tasks,
            task_id,
        ).cancelled,
        has_task(kept_tasks(tasks, now), task_id) <==> (!task_with_id(tasks, task_id).cancelled
            && (task_with_id(tasks, task_id).task_type matches ScheduledTaskType::Timer { .. }
                || !is_due(task_with_id(tasks, task_id), now))),
        has_task(kept_tasks(tasks, now), task_id) ==> task_with_id(kept_tasks(tasks, now), task_id)
            == (if is_due(task_with_id(tasks, task_id), now) {
            advanced(task_with_id(tasks, task_id), now)
        } else {
            task_with_id(tasks, task_id)
        }),
    decreases tasks.len(),
{
    let t = task_with_id(tasks, task_id);
    let prefix = tasks.drop_last();
    let last = tasks.last();
    let kept = kept_tasks(tasks, now);
    let kept_prefix = kept_tasks(prefix, now);
    assert(distinct_ids(prefix)) by {
        assert forall|i: int, j: int| 0 <= i < j < prefix.len() implies
            prefix[i].task_id != prefix[j].task_id by {
            assert(tasks[i].task_id != tasks[j].task_id);
        }
    }
    lemma_kept_tasks_sound(tasks, now);
    lemma_contains_add(
        tick_actions(prefix, now),
        step_action(last, now),
        TickAction::RunTask { task_id },
    );
    lemma_contains_add(
        tick_actions(prefix, now),
        step_action(last, now),
        TickAction::CancelTask { task_id },
    );
    lemma_has_task_add(kept_prefix, step_keep(last, now), task_id);
    if last.task_id == task_id {
        lemma_task_with_id_is(tasks, tasks.len() - 1);
        assert(t == last);
        assert(!has_task(prefix, task_id)) by {
            if has_task(prefix, task_id) {
                let i = choose|i: int| 0 <= i < prefix.len() && prefix[i].task_id == task_id;
                assert(tasks[i].task_id != tasks[tasks.len() - 1].task_id);
            }
        }
        lemma_actions_only_present(prefix, now, task_id);
        // the action of the last task itself
        assert(step_action(last, now).contains(TickAction::RunTask { task_id }) <==> (
        !t.cancelled && is_due(t, now))) by {
            if !t.cancelled && is_due(t, now) {
                assert(step_action(last, now)[0] == (TickAction::RunTask { task_id }));
            } else if step_action(last, now).contains(TickAction::RunTask { task_id }) {
                let i = choose|i: int| 0 <= i < step_action(last, now).len()
                    && step_action(last, now)[i] == (TickAction::RunTask { task_id });
            }
        }
        assert(step_action(last, now).contains(TickAction::CancelTask { task_id })
            <==> t.cancelled) by {
            if t.cancelled {
                assert(step_action(last, now)[0] == (TickAction::CancelTask { task_id }));
            } else if step_action(last, now).contains(TickAction::CancelTask { task_id }) {
                let i = choose|i: int| 0 <= i < step_action(last, now).len()
                    && step_action(last, now)[i] == (TickAction::CancelTask { task_id });
            }
        }
        // the kept entry of the last task itself
        assert(!has_task(kept_prefix, task_id)) by {
            if has_task(kept_prefix, task_id) {
                let i = choose|i: int| 0 <= i < kept_prefix.len()
                    && kept_prefix[i].task_id == task_id;
                lemma_kept_tasks_sound(prefix, now);
                assert(has_task(prefix, task_id));
            }
        }
        assert(has_task(step_keep(last, now), task_id) <==> (!t.cancelled && (t.task_type matches
        ScheduledTaskType::Timer { .. } || !is_due(t, now)))) by {
            if has_task(step_keep(last, now), task_id) {
                let i = choose|i: int| 0 <= i < step_keep(last, now).len()
                    && step_keep(last, now)[i].task_id == task_id;
            } else {
                if !t.cancelled {
                    if t.task_type matches ScheduledTaskType::Timer { .. } {
                        assert(step_keep(last, now)[0].task_id == task_id);
                    } else if !is_due(t, now) {
                        assert(step_keep(last, now)[0].task_id == task_id);
                    }
                }
            }
        }
        if has_task(kept, task_id) {
            let entry = if is_due(t, now) {
                advanced(t, now)
            } else {
                t
            };
            assert(step_keep(last, now)[0] == entry);
            assert(kept[kept_prefix.len() as int] == entry);
            lemma_task_with_id_is(kept, kept_prefix.len() as int);
        }
    } else {
        let j = choose|j: int| 0 <= j < tasks.len() && tasks[j].task_id == task_id;
        assert(j < tasks.len() - 1) by {
            assert(tasks[tasks.len() - 1].task_id == last.task_id);
        }
        assert(prefix[j].task_id == task_id);
        lemma_task_with_id_is(prefix, j);
        lemma_task_with_id_is(tasks, j);
        assert(task_with_id(prefix, task_id) == t);
        lemma_tick_step_for_task(prefix, now, task_id);
        // the last task contributes nothing that mentions `task_id`
        assert forall|x: TickAction| step_action(last, now).contains(x) implies
            x != (TickAction::RunTask { task_id }) && x != (TickAction::CancelTask { task_id }) by {
            let i = choose|i: int| 0 <= i < step_action(last, now).len()
                && step_action(last, now)[i] == x;
        }
        assert(!has_task(step_keep(last, now), task_id)) by {
            if has_task(step_keep(last, now), task_id) {
                let i = choose|i: int| 0 <= i < step_keep(last, now).len()
                    && step_keep(last, now)[i].task_id == task_id;
            }
        }
        if has_task(kept, task_id) {
            assert(has_task(kept_prefix, task_id));
            let i = choose|i: int| 0 <= i < kept_prefix.len() && kept_prefix[i].task_id == task_id;
            assert(kept[i] == kept_prefix[i]);
            lemma_kept_tasks_sound(prefix, now);
            assert(distinct_ids(kept_prefix));
            lemma_task_with_id_is(kept_prefix, i);
            lemma_task_with_id_is(kept, i);
        }
    }
}

/// Distinctness of identifiers and positivity of intervals carry over any
/// number of tick evaluations, and no new identifier ever appears.
pub proof fn lemma_tasks_after_wf(tasks: Seq<ScheduledTask>, tick: u64, n: nat)
    requires
        distinct_ids(tasks),
    ensures
        distinct_ids(tasks_after(tasks, tick, n)),
        intervals_positive(tasks) ==> intervals_positive(tasks_after(tasks, tick, n)),
        forall|task_id: u64| has_task(tasks_after(tasks, tick, n), task_id) ==> has_task(
            tasks,
            task_id,
        ),
    decreases n,
{
    if n == 0 {
    } else {
        lemma_tasks_after_wf(tasks, tick, (n - 1) as nat);
        let prev = tasks_after(tasks, tick, (n - 1) as nat);
        let now = (tick + n) as u64;
        lemma_kept_tasks_sound(prev, now);
        assert forall|task_id: u64| has_task(tasks_after(tasks, tick, n), task_id) implies
            has_task(tasks, task_id) by {
            let i = choose|i: int| 0 <= i < kept_tasks(prev, now).len()
                && kept_tasks(prev, now)[i].task_id == task_id;
            assert(has_task(prev, kept_tasks(prev, now)[i].task_id));
        }
    }
}

/// A task that is cancelled (or already gone) is no longer pending after
/// any strictly positive number of tick evaluations.
pub proof fn lemma_cancelled_gone(tasks: Seq<ScheduledTask>, tick: u64, task_id: u64, n: nat)
    requires
        distinct_ids(tasks),
        has_task(tasks, task_id) ==> task_with_id(tasks, task_id).cancelled,
        1 <= n,
    ensures
        !has_task(tasks_after(tasks, tick, n), task_id),
    decreases n,
{
    if n == 1 {
        let now = ((tick + n) as u64);
        assert(tasks_after(tasks, tick, 0) == tasks);
        assert(tasks_after(tasks, tick, n) == kept_tasks(tasks, now));
        if has_task(tasks, task_id) {
            lemma_tick_step_for_task(tasks, now, task_id);
        } else {
            lemma_kept_tasks_sound(tasks, now);
            if has_task(kept_tasks(tasks, now), task_id) {
                let kept = kept_tasks(tasks, now);
                let i = choose|i: int| 0 <= i < kept.len() && kept[i].task_id == task_id;
                assert(has_task(tasks, kept_tasks(tasks, now)[i].task_id));
            }
        }
    } else {
        lemma_cancelled_gone(tasks, tick, task_id, (n - 1) as nat);
        let prev = tasks_after(tasks, tick, (n - 1) as nat);
        let now = (tick + n) as u64;
        lemma_kept_tasks_sound(prev, now);
        if has_task(tasks_after(tasks, tick, n), task_id) {
            let kept = kept_tasks(prev, now);
            let i = choose|i: int| 0 <= i < kept.len() && kept[i].task_id == task_id;
            assert(has_task(prev, kept[i].task_id));
        }
    }
}

/// The tick a task is due at: the one-shot due tick, or the repeating
/// task's next run tick.
pub open spec fn due_tick_of(task: ScheduledTask) -> u64 {
    match task.task_type {
        ScheduledTaskType::Later { run_at_tick } => run_at_tick,
        ScheduledTaskType::Timer { next_run_tick, .. } => next_run_tick,
    }
}

/// The interval of a repeating task; zero for a one-shot task.
pub open spec fn interval_of(task: ScheduledTask) -> u64 {
    match task.task_type {
        ScheduledTaskType::Later { .. } => 0,
        ScheduledTaskType::Timer { interval_ticks, .. } => interval_ticks,
    }
}

proof fn lemma_absent_stays(tasks: Seq<ScheduledTask>, now: u64, task_id: u64)
    requires
        !has_task(tasks, task_id),
    ensures
        !has_task(kept_tasks(tasks, now), task_id),
{
    lemma_kept_tasks_sound(tasks, now);
    if has_task(kept_tasks(tasks, now), task_id) {
        let kept = kept_tasks(tasks, now);
        let i = choose|i: int| 0 <= i < kept.len() && kept[i].task_id == task_id;
        assert(has_task(tasks, kept_tasks(tasks, now)[i].task_id));
    }
}

/// Cancelling a task before it is dispatched guarantees it is never
/// dispatched: once the pending entry is cancelled, no future tick
/// evaluation ever decides to run it, however many ticks pass.
pub proof fn lemma_cancelled_task_never_runs(
    tasks: Seq<ScheduledTask>,
    tick: u64,
    task_id: u64,
    n: nat,
)
    requires
        distinct_ids(tasks),
        has_task(tasks, task_id) ==> task_with_id(tasks, task_id).cancelled,
    ensures
        forall|k: nat| 1 <= k <= n ==> !(#[trigger] actions_at(tasks, tick, k)).contains(
            TickAction::RunTask { task_id },
        ),
    decreases n,
{
    if n == 0 {
    } else {
        lemma_cancelled_task_never_runs(tasks, tick, task_id, (n - 1) as nat);
        let prev = tasks_after(tasks, tick, (n - 1) as nat);
        let now = (tick + n) as u64;
        lemma_tasks_after_wf(tasks, tick, (n - 1) as nat);
        if n == 1 {
            if has_task(tasks, task_id) {
                lemma_tick_step_for_task(tasks, now, task_id);
            } else {
                lemma_actions_only_present(tasks, now, task_id);
            }
        } else {
            lemma_cancelled_gone(tasks, tick, task_id, (n - 1) as nat);
            lemma_actions_only_present(prev, now, task_id);
        }
    }
}

/// The offset, counted from tick count `tick`, of the first future tick
/// whose counter reaches `run_at_tick`: the `k`-th tick evaluation moves
/// the counter to `tick + k`, so this is where a pending one-shot task due
/// at `run_at_tick` is dispatched.
pub open spec fn first_run_offset(run_at_tick: u64, tick: u64) -> int {
    if run_at_tick <= tick + 1 {
        1
    } else {
        run_at_tick - tick
    }
}

/// Before its due tick is reached, a pending uncancelled one-shot task
/// stays pending and untouched.
proof fn lemma_once_pending(tasks: Seq<ScheduledTask>, tick: u64, task_id: u64, m: nat)
    requires
        distinct_ids(tasks),
        has_task(tasks, task_id),
        !task_with_id(tasks, task_id).cancelled,
        task_with_id(tasks, task_id).task_type matches ScheduledTaskType::Later { .. },
        m < first_run_offset(due_tick_of(task_with_id(tasks, task_id)), tick),
        tick + m <= u64::MAX,
    ensures
        has_task(tasks_after(tasks, tick, m), task_id),
        task_with_id(tasks_after(tasks, tick, m), task_id) == task_with_id(tasks, task_id),
    decreases m,
{
    if m == 0 {
    } else {
        let t = task_with_id(tasks, task_id);
        let r = due_tick_of(t);
        lemma_once_pending(tasks, tick, task_id, (m - 1) as nat);
        let prev = tasks_after(tasks, tick, (m - 1) as nat);
        let now = (tick + m) as u64;
        lemma_tasks_after_wf(tasks, tick, (m - 1) as nat);
        lemma_tick_step_for_task(prev, now, task_id);
        assert(!is_due(t, now));
    }
}

/// From its due tick on, a one-shot task is no longer pending.
proof fn lemma_once_gone(tasks: Seq<ScheduledTask>, tick: u64, task_id: u64, m: nat)
    requires
        distinct_ids(tasks),
        has_task(tasks, task_id),
        !task_with_id(tasks, task_id).cancelled,
        task_with_id(tasks, task_id).task_type matches ScheduledTaskType::Later { .. },
        m >= first_run_offset(due_tick_of(task_with_id(tasks, task_id)), tick),
        tick + m <= u64::MAX,
    ensures
        !has_task(tasks_after(tasks, tick, m), task_id),
    decreases m,
{
    let t = task_with_id(tasks, task_id);
    let r = due_tick_of(t);
    let prev = tasks_after(tasks, tick, (m - 1) as nat);
    let now = (tick + m) as u64;
    lemma_tasks_after_wf(tasks, tick, (m - 1) as nat);
    if m == first_run_offset(r, tick) {
        lemma_once_pending(tasks, tick, task_id, (m - 1) as nat);
        lemma_tick_step_for_task(prev, now, task_id);
        assert(is_due(t, now));
    } else {
        lemma_once_gone(tasks, tick, task_id, (m - 1) as nat);
        lemma_absent_stays(prev, now, task_id);
    }
}

/// A task scheduled once runs exactly once: the tick evaluation that first
/// reaches its due tick dispatches it, and no other evaluation, earlier or
/// later, ever does.
pub proof fn lemma_once_task_runs_exactly_once(
    tasks: Seq<ScheduledTask>,
    tick: u64,
    task_id: u64,
    n: nat,
)
    requires
        distinct_ids(tasks),
        has_task(tasks, task_id),
        !task_with_id(tasks, task_id).cancelled,
        task_with_id(tasks, task_id).task_type matches ScheduledTaskType::Later { .. },
        tick + n <= u64::MAX,
    ensures
        forall|k: nat| 1 <= k <= n ==> ((#[trigger] actions_at(tasks, tick, k)).contains(
            TickAction::RunTask { task_id },
        ) <==> k == first_run_offset(due_tick_of(task_with_id(tasks, task_id)), tick)),
    decreases n,
{
    if n == 0 {
    } else {
        lemma_once_task_runs_exactly_once(tasks, tick, task_id, (n - 1) as nat);
        let t = task_with_id(tasks, task_id);
        let r = due_tick_of(t);
        let first = first_run_offset(r, tick);
        let prev = tasks_after(tasks, tick, (n - 1) as nat);
        let now = (tick + n) as u64;
        lemma_tasks_after_wf(tasks, tick, (n - 1) as nat);
        if n < first {
            lemma_once_pending(tasks, tick, task_id, (n - 1) as nat);
            lemma_tick_step_for_task(prev, now, task_id);
            assert(!is_due(t, now));
        } else if n == first {
            lemma_once_pending(tasks, tick, task_id, (n - 1) as nat);
            lemma_tick_step_for_task(prev, now, task_id);
            assert(is_due(t, now));
        } else {
            lemma_once_gone(tasks, tick, task_id, (n - 1) as nat);
            lemma_actions_only_present(prev, now, task_id);
        }
    }
}

/// How far `at` lies beyond `start`; the measure that shrinks as the
/// progression start is moved forward.
pub open spec fn progression_gap(start: int, at: int) -> int {
    if at >= start {
        at - start
    } else {
        0
    }
}

/// True when `at` lies on the arithmetic progression `start`,
/// `start + interval`, `start + 2 * interval`, and so on: the ticks at
/// which an uncancelled repeating task first due at `start` runs.
pub open spec fn is_dispatch_tick(start: int, interval: int, at: int) -> bool
    decreases progression_gap(start, at),
    when interval >= 1
{
    at == start || (at > start && is_dispatch_tick(start + interval, interval, at))
}

/// Every dispatch tick lies at or after the start of the progression.
proof fn lemma_dispatch_ge(start: int, interval: int, at: int)
    requires
        interval >= 1,
        is_dispatch_tick(start, interval, at),
    ensures
        at >= start,
    decreases progression_gap(start, at),
{
    if at != start {
        lemma_dispatch_ge(start + interval, interval, at);
    }
}

/// The progression repeats: one step after a dispatch tick is one again.
proof fn lemma_dispatch_next(start: int, interval: int, at: int)
    requires
        interval >= 1,
        is_dispatch_tick(start, interval, at),
    ensures
        is_dispatch_tick(start, interval, at + interval),
    decreases progression_gap(start, at),
{
    if at == start {
        assert(is_dispatch_tick(start + interval, interval, at + interval));
    } else {
        lemma_dispatch_next(start + interval, interval, at);
        lemma_dispatch_ge(start + interval, interval, at);
    }
}

/// Two dispatch ticks are at least one interval apart: a later one lies on
/// the progression restarted one interval after the earlier one.
proof fn lemma_dispatch_chain(start: int, interval: int, a: int, d: int)
    requires
        interval >= 1,
        is_dispatch_tick(start, interval, a),
        is_dispatch_tick(start, interval, d),
        d > a,
    ensures
        is_dispatch_tick(a + interval, interval, d),
        d >= a + interval,
    decreases progression_gap(start, a),
{
    lemma_dispatch_ge(start, interval, a);
    if a == start {
        assert(is_dispatch_tick(start + interval, interval, d));
        lemma_dispatch_ge(a + interval, interval, d);
    } else {
        assert(is_dispatch_tick(start + interval, interval, a));
        assert(is_dispatch_tick(start + interval, interval, d)) by {
            lemma_dispatch_ge(start + interval, interval, a);
        }
        lemma_dispatch_chain(start + interval, interval, a, d);
    }
}

/// The next run tick of a repeating task first due at `first`, after `m`
/// tick evaluations from tick count `tick`: each evaluation that reaches
/// the pending value re-arms it one interval past the current counter.
pub open spec fn timer_next_at(first: u64, interval: u64, tick: u64, m: nat) -> int
    decreases m,
{
    if m == 0 {
        first as int
    } else {
        let prev = timer_next_at(first, interval, tick, (m - 1) as nat);
        if prev <= tick + m {
            tick + m + interval
        } else {
            prev
        }
    }
}

/// Across any number of tick evaluations, an uncancelled repeating task
/// stays pending, its next run tick follows [`timer_next_at`], that value
/// always lies on the dispatch progression strictly beyond the current
/// counter, and no progression tick below it has been skipped.
proof fn lemma_timer_state(tasks: Seq<ScheduledTask>, tick: u64, task_id: u64, m: nat)
    requires
        distinct_ids(tasks),
        has_task(tasks, task_id),
        !task_with_id(tasks, task_id).cancelled,
        task_with_id(tasks, task_id).task_type matches ScheduledTaskType::Timer { .. },
        interval_of(task_with_id(tasks, task_id)) >= 1,
        tick < due_tick_of(task_with_id(tasks, task_id)),
        tick + m + interval_of(task_with_id(tasks, task_id)) <= u64::MAX,
    ensures
        has_task(tasks_after(tasks, tick, m), task_id),
        ({
            let t = task_with_id(tasks, task_id);
            let nxt = timer_next_at(due_tick_of(t), interval_of(t), tick, m);
            &&& task_with_id(tasks_after(tasks, tick, m), task_id) == (ScheduledTask {
                task_id,
                task_type: ScheduledTaskType::Timer {
                    interval_ticks: interval_of(t),
                    next_run_tick: nxt as u64,
                },
                cancelled: false,
            })
            &&& nxt > tick + m
            &&& nxt <= u64::MAX
            &&& is_dispatch_tick(due_tick_of(t) as int, interval_of(t) as int, nxt)
            &&& forall|d: int| is_dispatch_tick(due_tick_of(t) as int, interval_of(t) as int, d)
                && d < nxt ==> d <= tick + m
        }),
    decreases m,
{
    let t = task_with_id(tasks, task_id);
    let r = due_tick_of(t);
    let iv = interval_of(t);
    if m == 0 {
        assert(t == (ScheduledTask {
            task_id,
            task_type: ScheduledTaskType::Timer { interval_ticks: iv, next_run_tick: r },
            cancelled: false,
        }));
        assert forall|d: int| is_dispatch_tick(r as int, iv as int, d) && d < r as int implies
            d <= tick + 0 by {
            lemma_dispatch_ge(r as int, iv as int, d);
        }
    } else {
        lemma_timer_state(tasks, tick, task_id, (m - 1) as nat);
        let prev = tasks_after(tasks, tick, (m - 1) as nat);
        let now = (tick + m) as u64;
        let prev_next = timer_next_at(r, iv, tick, (m - 1) as nat);
        let nxt = timer_next_at(r, iv, tick, m);
        lemma_tasks_after_wf(tasks, tick, (m - 1) as nat);
        let pt = task_with_id(prev, task_id);
        lemma_tick_step_for_task(prev, now, task_id);
        if prev_next <= tick + m {
            // the task was due exactly now and is re-armed at now + interval
            assert(prev_next == tick + m);
            assert(is_due(pt, now));
            assert(advanced(pt, now) == (ScheduledTask {
                task_id,
                task_type: ScheduledTaskType::Timer {
                    interval_ticks: iv,
                    next_run_tick: ((tick + m + iv) as int) as u64,
                },
                cancelled: false,
            }));
            assert(nxt == tick + m + iv);
            lemma_dispatch_next(r as int, iv as int, prev_next);
            assert forall|d: int| is_dispatch_tick(r as int, iv as int, d) && d < nxt implies
                d <= tick + m by {
                if d > prev_next {
                    lemma_dispatch_chain(r as int, iv as int, prev_next, d);
                }
            }
        } else {
            assert(!is_due(pt, now));
            assert(nxt == prev_next);
        }
    }
}

/// A repeating task first due at tick `r` with interval `i` runs exactly
/// on the ticks `r`, `r + i`, `r + 2 i`, and so on, until cancelled: the
/// `k`-th future tick evaluation dispatches it exactly when the counter it
/// reaches lies on that progression.
pub proof fn lemma_timer_runs_on_schedule(
    tasks: Seq<ScheduledTask>,
    tick: u64,
    task_id: u64,
    n: nat,
)
    requires
        distinct_ids(tasks),
        has_task(tasks, task_id),
        !task_with_id(tasks, task_id).cancelled,
        task_with_id(tasks, task_id).task_type matches ScheduledTaskType::Timer { .. },
        interval_of(task_with_id(tasks, task_id)) >= 1,
        tick < due_tick_of(task_with_id(tasks, task_id)),
        tick + n + interval_of(task_with_id(tasks, task_id)) <= u64::MAX,
    ensures
        forall|k: nat| 1 <= k <= n ==> ((#[trigger] actions_at(tasks, tick, k)).contains(
            TickAction::RunTask { task_id },
        ) <==> is_dispatch_tick(
            due_tick_of(task_with_id(tasks, task_id)) as int,
            interval_of(task_with_id(tasks, task_id)) as int,
            tick + k,
        )),
    decreases n,
{
    if n == 0 {
    } else {
        lemma_timer_runs_on_schedule(tasks, tick, task_id, (n - 1) as nat);
        let t = task_with_id(tasks, task_id);
        let r = due_tick_of(t);
        let iv = interval_of(t);
        let prev = tasks_after(tasks, tick, (n - 1) as nat);
        let now = (tick + n) as u64;
        lemma_timer_state(tasks, tick, task_id, (n - 1) as nat);
        lemma_tasks_after_wf(tasks, tick, (n - 1) as nat);
        let prev_next = timer_next_at(r, iv, tick, (n - 1) as nat);
        lemma_tick_step_for_task(prev, now, task_id);
        let pt = task_with_id(prev, task_id);
        if is_dispatch_tick(r as int, iv as int, tick + n) {
            // the counter cannot pass an unreached progression tick
            assert(prev_next == tick + n);
            assert(is_due(pt, now));
        } else {
            assert(prev_next != tick + n);
            assert(!is_due(pt, now));
        }
    }
}

} // verus!
