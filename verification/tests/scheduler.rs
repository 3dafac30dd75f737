use tickbus::task::FnTask;
use tickbus::task::ScheduleError;
use tickbus::task::ScheduledTaskType;
use tickbus::task::TaskHandler;
use tickbus::task::TaskScheduler;
use tickbus::task::TickAction;

use std::cell::Cell;
use std::rc::Rc;

#[test]
fn new_scheduler_is_empty_at_tick_zero() {
    let scheduler = TaskScheduler::new();
    assert_eq!(scheduler.tick_count, 0);
    assert!(scheduler.tasks.is_empty());
}

#[test]
fn default_scheduler_matches_new() {
    let scheduler = TaskScheduler::default();
    assert_eq!(scheduler.tick_count, 0);
    assert!(scheduler.tasks.is_empty());
}

#[test]
fn once_task_with_delay_three_fires_during_third_tick_only() {
    let mut scheduler = TaskScheduler::new();
    let handle = scheduler.schedule_once(3);
    assert_eq!(scheduler.tick(), Vec::new());
    assert_eq!(scheduler.tick(), Vec::new());
    assert_eq!(scheduler.tick(), vec![TickAction::RunTask { task_id: handle.task_id }]);
    assert_eq!(scheduler.tick(), Vec::new());
    assert_eq!(scheduler.tick_count, 4);
    assert!(scheduler.tasks.is_empty());
}

#[test]
fn once_task_with_delay_zero_runs_on_next_tick_not_synchronously() {
    let mut scheduler = TaskScheduler::new();
    let handle = scheduler.schedule_once(0);
    assert_eq!(scheduler.tasks.len(), 1);
    assert_eq!(scheduler.tick(), vec![TickAction::RunTask { task_id: handle.task_id }]);
    assert!(scheduler.tasks.is_empty());
}

#[test]
fn repeating_task_with_interval_five_fires_at_five_and_ten_in_twelve_ticks() {
    let mut scheduler = TaskScheduler::new();
    let handle = scheduler.schedule_repeating(5).expect("a positive interval is accepted");
    let mut run_ticks = Vec::new();
    for _ in 0..12 {
        let actions = scheduler.tick();
        for action in &actions {
            assert_eq!(*action, TickAction::RunTask { task_id: handle.task_id });
            run_ticks.push(scheduler.tick_count);
        }
    }
    assert_eq!(run_ticks, vec![5, 10]);
    // the task is still pending, next due at tick 15
    assert_eq!(scheduler.tasks.len(), 1);
    assert_eq!(
        scheduler.tasks[0].task_type,
        ScheduledTaskType::Timer { interval_ticks: 5, next_run_tick: 15 }
    );
}

#[test]
fn zero_interval_is_rejected_synchronously() {
    let mut scheduler = TaskScheduler::new();
    let result = scheduler.schedule_repeating(0);
    assert_eq!(result, Err(ScheduleError::ZeroInterval));
    assert!(scheduler.tasks.is_empty());
}

#[test]
fn cancelling_before_dispatch_prevents_every_run() {
    let mut scheduler = TaskScheduler::new();
    let handle = scheduler.schedule_once(5);
    handle.cancel(&mut scheduler);
    // the next evaluation removes the task and acknowledges the cancellation
    assert_eq!(scheduler.tick(), vec![TickAction::CancelTask { task_id: handle.task_id }]);
    for _ in 0..10 {
        assert_eq!(scheduler.tick(), Vec::new());
    }
}

#[test]
fn cancelling_a_repeating_task_stops_runs_from_the_next_tick_on() {
    let mut scheduler = TaskScheduler::new();
    let handle = scheduler.schedule_repeating(2).expect("a positive interval is accepted");
    assert_eq!(scheduler.tick(), Vec::new());
    assert_eq!(scheduler.tick(), vec![TickAction::RunTask { task_id: handle.task_id }]);
    handle.cancel(&mut scheduler);
    assert_eq!(scheduler.tick(), vec![TickAction::CancelTask { task_id: handle.task_id }]);
    for _ in 0..6 {
        assert_eq!(scheduler.tick(), Vec::new());
    }
}

#[test]
fn cancelling_an_unknown_identifier_changes_nothing() {
    let mut scheduler = TaskScheduler::new();
    let handle = scheduler.schedule_once(2);
    scheduler.cancel(handle.task_id + 17);
    assert_eq!(scheduler.tick(), Vec::new());
    assert_eq!(scheduler.tick(), vec![TickAction::RunTask { task_id: handle.task_id }]);
}

#[test]
fn tasks_due_on_the_same_tick_are_all_dispatched_in_list_order() {
    let mut scheduler = TaskScheduler::new();
    let first = scheduler.schedule_once(1);
    let second = scheduler.schedule_once(1);
    let timer = scheduler.schedule_repeating(1).expect("a positive interval is accepted");
    assert_eq!(
        scheduler.tick(),
        vec![
            TickAction::RunTask { task_id: first.task_id },
            TickAction::RunTask { task_id: second.task_id },
            TickAction::RunTask { task_id: timer.task_id },
        ]
    );
}

#[test]
fn a_late_once_task_runs_at_most_once_even_past_its_due_tick() {
    let mut scheduler = TaskScheduler::new();
    scheduler.tick();
    scheduler.tick();
    let handle = scheduler.schedule_once(1);
    let mut runs = 0;
    for _ in 0..8 {
        for action in scheduler.tick() {
            if action == (TickAction::RunTask { task_id: handle.task_id }) {
                runs += 1;
            }
        }
    }
    assert_eq!(runs, 1);
}

#[test]
fn failed_handler_leaves_later_ticks_dispatching_unrelated_tasks() {
    // The scheduler never waits on handler execution: a handler whose run
    // fails in the dispatch pool cannot reach it. Dispatch the first task,
    // treat its run as failed, and watch the second task keep its schedule.
    let mut scheduler = TaskScheduler::new();
    let failing = scheduler.schedule_once(1);
    let steady = scheduler.schedule_repeating(2).expect("a positive interval is accepted");
    assert_eq!(scheduler.tick(), vec![TickAction::RunTask { task_id: failing.task_id }]);
    // the failing handler's panic happens in the dispatch pool, not here
    assert_eq!(scheduler.tick(), vec![TickAction::RunTask { task_id: steady.task_id }]);
    assert_eq!(scheduler.tick(), Vec::new());
    assert_eq!(scheduler.tick(), vec![TickAction::RunTask { task_id: steady.task_id }]);
}

struct CountingHandler {
    runs: Rc<Cell<u32>>,
    cancels: Rc<Cell<u32>>,
}

impl TaskHandler for CountingHandler {
    // the handler's specification-level readiness: always invocable
    fn ready(&self) -> bool {
        true
    }

    fn run(&self) {
        self.runs.set(self.runs.get() + 1);
    }

    fn cancel(&self) {
        self.cancels.set(self.cancels.get() + 1);
    }
}

#[test]
fn handlers_run_when_their_dispatch_decisions_say_so() {
    let runs = Rc::new(Cell::new(0));
    let cancels = Rc::new(Cell::new(0));
    let handler = CountingHandler { runs: runs.clone(), cancels: cancels.clone() };

    let mut scheduler = TaskScheduler::new();
    let once = scheduler.schedule_once(1);
    let doomed = scheduler.schedule_once(4);
    doomed.cancel(&mut scheduler);
    for _ in 0..3 {
        for action in scheduler.tick() {
            match action {
                TickAction::RunTask { task_id } => {
                    assert_eq!(task_id, once.task_id);
                    handler.run();
                }
                TickAction::CancelTask { task_id } => {
                    assert_eq!(task_id, doomed.task_id);
                    handler.cancel();
                }
            }
        }
    }
    assert_eq!(runs.get(), 1);
    assert_eq!(cancels.get(), 1);
}

#[test]
fn fn_task_adapter_runs_the_wrapped_callable() {
    let counter = Rc::new(Cell::new(0));
    let seen = counter.clone();
    let task = FnTask::new(move || seen.set(seen.get() + 1));
    task.run();
    task.run();
    task.cancel();
    assert_eq!(counter.get(), 2);
}
