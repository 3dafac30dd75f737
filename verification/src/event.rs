//! Event bus: a priority-ordered listener registry with a sequential,
//! cancellation-aware publish mechanism.
//!
//! A call site builds a domain event, hands it to [`EventBus::fire`], and
//! receives it back after every registered listener of that kind has
//! observed it, strictly in priority order (ties broken by registration
//! order) and one at a time. A listener may mutate the event — including
//! setting its cancelled flag — and every later listener sees the
//! cumulative result; setting the flag never short-circuits the remaining
//! listeners. The call site then branches on the returned event's final
//! cancelled state and applies or suppresses the guarded action.

use vstd::prelude::*;

verus! {

/// A unit of extension code that observes events of type `E`.
///
/// The listener's effect on the event it receives is pinned down by the
/// mathematical function [`EventListener::on_event`], so that what a whole
/// `fire` call returns can be stated exactly. Side effects other than the
/// returned event are the listener's own business.
pub trait EventListener<E> {
    /// The event this listener hands back when it observes `event`.
    spec fn on_event(&self, event: E) -> E;

    /// Observe `event`, taking it by temporary exclusive ownership, and
    /// hand back its (possibly mutated) successor.
    fn handle(&self, event: E) -> (result: E)
        ensures
            result == self.on_event(event),
    ;
}

/// The cancellable extension of an event: a mutable veto flag. Setting it
/// does not stop later listeners from running; the call site checks the
/// final value after `fire` returns and skips the guarded action if it is
/// set.
pub trait Cancellable {
    /// The current value of the veto flag.
    spec fn spec_cancelled(&self) -> bool;

    /// Read the veto flag.
    fn cancelled(&self) -> (cancelled: bool)
        ensures
            cancelled == self.spec_cancelled(),
    ;

    /// Overwrite the veto flag. Each event's implementation additionally
    /// promises that no other field of the event is touched.
    fn set_cancelled(&mut self, cancelled: bool)
        ensures
            final(self).spec_cancelled() == cancelled,
    ;
}

/// One listener registration: the event kind it subscribes to, its
/// priority, and the listener itself.
pub struct Registration<L> {
    pub kind: u64,
    pub priority: u32,
    pub listener: L,
}

/// Registrations stand in ascending priority order; equal priorities keep
/// their registration order because new entries are inserted after them.
pub open spec fn sorted_by_priority<L>(regs: Seq<Registration<L>>) -> bool {
    forall|i: int, j: int| 0 <= i < j < regs.len() ==> (#[trigger] regs[i].priority)
        <= #[trigger] regs[j].priority
}

/// The registrations subscribed to `kind`, in registry order.
pub open spec fn matching<L>(regs: Seq<Registration<L>>, kind: u64) -> Seq<Registration<L>>
    decreases regs.len(),
{
    if regs.len() == 0 {
        Seq::empty()
    } else if regs.last().kind == kind {
        matching(regs.drop_last(), kind) + seq![regs.last()]
    } else {
        matching(regs.drop_last(), kind)
    }
}

/// The event that comes out of running the listeners of `regs`, first to
/// last, each observing the cumulative result of those before it.
pub open spec fn deliver<E, L: EventListener<E>>(regs: Seq<Registration<L>>, event: E) -> E
    decreases regs.len(),
{
    if regs.len() == 0 {
        event
    } else {
        regs.last().listener.on_event(deliver(regs.drop_last(), event))
    }
}

/// Where a new registration with `priority` is inserted: directly after
/// every entry whose priority is less than or equal to it, so that equal
/// priorities run in registration order.
pub open spec fn insert_pos<L>(regs: Seq<Registration<L>>, priority: u32) -> int
    decreases regs.len(),
{
    if regs.len() == 0 {
        0
    } else if regs[0].priority <= priority {
        1 + insert_pos(regs.drop_first(), priority)
    } else {
        0
    }
}

proof fn lemma_insert_pos_bounds<L>(regs: Seq<Registration<L>>, priority: u32)
    ensures
        0 <= insert_pos(regs, priority) <= regs.len(),
        forall|j: int| 0 <= j < insert_pos(regs, priority) ==> (#[trigger] regs[j].priority)
            <= priority,
        insert_pos(regs, priority) < regs.len() ==> regs[insert_pos(regs, priority)].priority
            > priority,
    decreases regs.len(),
{
    if regs.len() == 0 {
    } else if regs[0].priority <= priority {
        lemma_insert_pos_bounds(regs.drop_first(), priority);
        assert forall|j: int| 0 <= j < insert_pos(regs, priority) implies
            (#[trigger] regs[j].priority) <= priority by {
            if j > 0 {
                assert(regs.drop_first()[j - 1].priority <= priority);
            }
        }
        if insert_pos(regs, priority) < regs.len() {
            assert(regs.drop_first()[insert_pos(regs.drop_first(), priority)]
                == regs[insert_pos(regs, priority)]);
        }
    }
}

/// The event bus: the ordered registry of listeners, each subscribed to
/// one event kind.
pub struct EventBus<L> {
    pub registrations: Vec<Registration<L>>,
}

impl<L> EventBus<L> {
    /// The registry is in ascending priority order.
    pub open spec fn wf(&self) -> bool {
        sorted_by_priority(self.registrations@)
    }

    /// A fresh bus with no listeners.
    pub fn new() -> (bus: Self)
        ensures
            bus.wf(),
            bus.registrations@ == Seq::<Registration<L>>::empty(),
    {
        let bus = EventBus { registrations: Vec::new() };
        proof {
            assert(bus.registrations@ =~= Seq::<Registration<L>>::empty());
        }
        bus
    }

    /// Insert a listener for `kind` at `priority`: it goes after every
    /// already-registered listener of lower or equal priority and before
    /// every listener of strictly higher priority. Registering the same
    /// listener twice is deliberate duplication — it will run twice per
    /// fire.
    pub fn register(&mut self, kind: u64, priority: u32, listener: L)
        requires
            old(self).wf(),
        ensures
            final(self).wf(),
            final(self).registrations@ == old(self).registrations@.insert(
                insert_pos(old(self).registrations@, priority),
                (Registration { kind, priority, listener }),
            ),
    {
        let ghost orig = self.registrations@;
        let n = self.registrations.len();
        let mut i: usize = 0;
        while i < n && self.registrations[i].priority <= priority
            invariant
                i <= n,
                n == self.registrations@.len(),
                self.registrations@ == orig,
                forall|j: int| 0 <= j < i ==> (#[trigger] orig[j].priority) <= priority,
            decreases n - i,
        {
            i += 1;
        }
        proof {
            lemma_insert_pos_bounds(orig, priority);
            let pos = insert_pos(orig, priority);
            if (i as int) < pos {
                assert(orig[i as int].priority <= priority);
                assert(false);
            }
            if pos < (i as int) {
                assert(orig[pos].priority <= priority);
                assert(false);
            }
        }
        self.registrations.insert(i, Registration { kind, priority, listener });
        proof {
            let pos = insert_pos(orig, priority);
            orig.insert_ensures(pos, Registration { kind, priority, listener });
            assert forall|p: int, q: int| 0 <= p < q < self.registrations@.len() implies
                (#[trigger] self.registrations@[p].priority)
                    <= #[trigger] self.registrations@[q].priority by {
                let s = self.registrations@;
                if p < pos && q < pos {
                    assert(s[p] == orig[p] && s[q] == orig[q]);
                } else if p < pos && q == pos {
                    assert(s[p] == orig[p]);
                } else if p < pos && q > pos {
                    assert(s[p] == orig[p] && s[q] == orig[q - 1]);
                } else if p == pos {
                    // the new entry precedes only strictly higher priorities
                    assert(s[q] == orig[q - 1]);
                    assert(orig[pos].priority > priority);
                    assert(orig[q - 1].priority >= orig[pos].priority);
                } else {
                    assert(s[p] == orig[p - 1] && s[q] == orig[q - 1]);
                }
            }
        }
    }

    /// Fire `event` to every listener registered for `kind`, strictly in
    /// registry (priority) order, one at a time, each receiving the event
    /// as the previous listener left it; the returned event carries all
    /// their mutations. A cancelled flag set along the way does not stop
    /// later listeners: the caller inspects the final state.
    pub fn fire<E>(&self, kind: u64, event: E) -> (result: E) where L: EventListener<E>
        ensures
            result == deliver(matching(self.registrations@, kind), event),
    {
        let ghost orig_event = event;
        let mut current = event;
        let n = self.registrations.len();
        let mut i: usize = 0;
        proof {
            assert(self.registrations@.take(0) =~= Seq::<Registration<L>>::empty());
            assert(matching(self.registrations@.take(0), kind)
                =~= Seq::<Registration<L>>::empty());
        }
        while i < n
            invariant
                i <= n,
                n == self.registrations@.len(),
                current == deliver(matching(self.registrations@.take(i as int), kind), orig_event),
            decreases n - i,
        {
            let ghost regs = self.registrations@;
            let ghost prefix = regs.take(i as int);
            let ghost r = regs[i as int];
            proof {
                assert(regs.take(i as int + 1).drop_last() =~= prefix);
                assert(regs.take(i as int + 1).last() == r);
                if r.kind == kind {
                    let m = matching(prefix, kind);
                    assert(matching(regs.take(i as int + 1), kind) == m + seq![r]);
                    assert((m + seq![r]).drop_last() =~= m);
                    assert((m + seq![r]).last() == r);
                } else {
                    assert(matching(regs.take(i as int + 1), kind) == matching(prefix, kind));
                }
            }
            let reg = &self.registrations[i];
            if reg.kind == kind {
                current = reg.listener.handle(current);
            }
            i += 1;
        }
        proof {
            assert(self.registrations@.take(n as int) =~= self.registrations@);
        }
        current
    }

    /// Fire a cancellable `event` and say whether the guarded action may
    /// proceed: true exactly when no listener left the event cancelled.
    /// The call site applies the action on true and suppresses it on
    /// false, with the returned event's mutations in hand either way.
    pub fn fire_cancellable<E>(&self, kind: u64, event: E) -> (outcome: (E, bool)) where
        L: EventListener<E>,
        E: Cancellable,

        ensures
            outcome.0 == deliver(matching(self.registrations@, kind), event),
            outcome.1 <==> !outcome.0.spec_cancelled(),
    {
        let result = self.fire(kind, event);
        let proceed = !result.cancelled();
        (result, proceed)
    }
}

} // verus!
