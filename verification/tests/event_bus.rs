use tickbus::event::Cancellable;
use tickbus::event::EventBus;
use tickbus::event::EventListener;
use tickbus::task::TaskScheduler;
use tickbus::task::TickAction;

/// A bare test event: the identifiers of the listeners that ran, the
/// cancelled state each listener observed on entry, and the veto flag.
#[derive(Clone, Debug, PartialEq, Eq)]
struct TraceEvent {
    trace: Vec<u64>,
    observed_cancelled: Vec<bool>,
    cancelled: bool,
}

impl TraceEvent {
    fn new() -> Self {
        TraceEvent { trace: Vec::new(), observed_cancelled: Vec::new(), cancelled: false }
    }
}

/// A listener that records its visit on the event and optionally vetoes.
struct TraceListener {
    id: u64,
    veto: bool,
}

impl EventListener<TraceEvent> for TraceListener {
    // the listener's specification-level model: same as its behavior
    fn on_event(&self, event: TraceEvent) -> TraceEvent {
        self.handle(event)
    }

    fn handle(&self, event: TraceEvent) -> TraceEvent {
        let mut event = event;
        event.observed_cancelled.push(event.cancelled);
        event.trace.push(self.id);
        if self.veto {
            event.cancelled = true;
        }
        event
    }
}

const KIND_X: u64 = 1;
const KIND_Y: u64 = 2;

#[test]
fn firing_without_listeners_returns_the_event_unchanged() {
    let bus: EventBus<TraceListener> = EventBus::new();
    let event = bus.fire(KIND_X, TraceEvent::new());
    assert_eq!(event, TraceEvent::new());
}

#[test]
fn veto_at_low_priority_reaches_but_does_not_stop_higher_priorities() {
    // listener A at priority 0 vetoes; B at priority 10 still runs and
    // observes the veto; the returned event carries it
    let mut bus = EventBus::new();
    bus.register(KIND_X, 0, TraceListener { id: 1, veto: true });
    bus.register(KIND_X, 10, TraceListener { id: 2, veto: false });
    let event = bus.fire(KIND_X, TraceEvent::new());
    assert_eq!(event.trace, vec![1, 2]);
    assert_eq!(event.observed_cancelled, vec![false, true]);
    assert!(event.cancelled);
}

#[test]
fn listeners_run_in_ascending_priority_order_whatever_the_registration_order() {
    let mut bus = EventBus::new();
    bus.register(KIND_X, 10, TraceListener { id: 10, veto: false });
    bus.register(KIND_X, 0, TraceListener { id: 0, veto: false });
    bus.register(KIND_X, 5, TraceListener { id: 5, veto: false });
    let event = bus.fire(KIND_X, TraceEvent::new());
    assert_eq!(event.trace, vec![0, 5, 10]);
}

#[test]
fn equal_priorities_keep_registration_order() {
    let mut bus = EventBus::new();
    bus.register(KIND_X, 3, TraceListener { id: 1, veto: false });
    bus.register(KIND_X, 3, TraceListener { id: 2, veto: false });
    bus.register(KIND_X, 3, TraceListener { id: 3, veto: false });
    let event = bus.fire(KIND_X, TraceEvent::new());
    assert_eq!(event.trace, vec![1, 2, 3]);
}

#[test]
fn only_listeners_of_the_fired_kind_run() {
    let mut bus = EventBus::new();
    bus.register(KIND_X, 0, TraceListener { id: 1, veto: false });
    bus.register(KIND_Y, 1, TraceListener { id: 2, veto: false });
    bus.register(KIND_X, 2, TraceListener { id: 3, veto: false });
    let event = bus.fire(KIND_X, TraceEvent::new());
    assert_eq!(event.trace, vec![1, 3]);
}

#[test]
fn firing_twice_runs_every_listener_twice() {
    let mut bus = EventBus::new();
    bus.register(KIND_X, 0, TraceListener { id: 1, veto: false });
    bus.register(KIND_X, 1, TraceListener { id: 2, veto: false });
    let once = bus.fire(KIND_X, TraceEvent::new());
    let twice = bus.fire(KIND_X, once);
    assert_eq!(twice.trace, vec![1, 2, 1, 2]);
}

#[test]
fn registering_the_same_listener_twice_runs_it_twice_per_fire() {
    let mut bus = EventBus::new();
    bus.register(KIND_X, 0, TraceListener { id: 7, veto: false });
    bus.register(KIND_X, 0, TraceListener { id: 7, veto: false });
    let event = bus.fire(KIND_X, TraceEvent::new());
    assert_eq!(event.trace, vec![7, 7]);
}

#[test]
fn a_later_listener_sees_the_cumulative_mutations_of_earlier_ones() {
    let mut bus = EventBus::new();
    bus.register(KIND_X, 1, TraceListener { id: 1, veto: false });
    bus.register(KIND_X, 2, TraceListener { id: 2, veto: true });
    bus.register(KIND_X, 3, TraceListener { id: 3, veto: false });
    let event = bus.fire(KIND_X, TraceEvent::new());
    assert_eq!(event.observed_cancelled, vec![false, false, true]);
    assert!(event.cancelled);
}

#[test]
fn cancellable_events_expose_their_veto_flag() {
    let mut event = TraceEvent::new();
    assert!(!Cancellable::cancelled(&event));
    event.set_cancelled(true);
    assert!(Cancellable::cancelled(&event));
    event.set_cancelled(false);
    assert!(!Cancellable::cancelled(&event));
}

#[test]
fn fire_cancellable_reports_whether_the_action_may_proceed() {
    let mut bus = EventBus::new();
    bus.register(KIND_X, 0, TraceListener { id: 1, veto: true });
    let (event, proceed) = bus.fire_cancellable(KIND_X, TraceEvent::new());
    assert!(event.cancelled);
    assert!(!proceed);

    let bus: EventBus<TraceListener> = EventBus::new();
    let (event, proceed) = bus.fire_cancellable(KIND_X, TraceEvent::new());
    assert!(!event.cancelled);
    assert!(proceed);
}

#[test]
fn a_dispatched_task_can_fire_events_through_the_bus() {
    // a scheduled task's handler fires an event when its dispatch is due,
    // observing the listener registry as of that moment
    let mut bus = EventBus::new();
    bus.register(KIND_X, 0, TraceListener { id: 1, veto: false });
    let mut scheduler = TaskScheduler::new();
    let handle = scheduler.schedule_once(2);

    let mut fired = Vec::new();
    for _ in 0..3 {
        for action in scheduler.tick() {
            if action == (TickAction::RunTask { task_id: handle.task_id }) {
                fired.push(bus.fire(KIND_X, TraceEvent::new()));
            }
        }
    }
    assert_eq!(fired.len(), 1);
    assert_eq!(fired[0].trace, vec![1]);
}

impl Cancellable for TraceEvent {
    // the flag's specification-level model: the field itself
    fn spec_cancelled(&self) -> bool {
        self.cancelled
    }

    fn cancelled(&self) -> bool {
        self.cancelled
    }

    fn set_cancelled(&mut self, cancelled: bool) {
        self.cancelled = cancelled;
    }
}
