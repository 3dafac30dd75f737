//! Laws of the event bus, stated over the delivery specification of
//! [`crate::event::EventBus::fire`].

use vstd::prelude::*;

use crate::event::EventListener;
use crate::event::Registration;
use crate::event::deliver;
use crate::event::matching;
use crate::event::sorted_by_priority;

verus! {

/// A listener registered at the end of the sequence observes the
/// cumulative result of every listener before it — whatever that result
/// is, including an event whose cancelled flag an earlier listener set.
pub proof fn lemma_deliver_push<E, L: EventListener<E>>(
    regs: Seq<Registration<L>>,
    reg: Registration<L>,
    event: E,
)
    ensures
        deliver(regs.push(reg), event) == reg.listener.on_event(deliver(regs, event)),
{
    assert(regs.push(reg).drop_last() =~= regs);
    assert(regs.push(reg).last() == reg);
}

/// Delivery to a concatenated sequence runs the first part, then hands its
/// result to the second part: listeners run strictly one after another.
pub proof fn lemma_deliver_append<E, L: EventListener<E>>(
    a: Seq<Registration<L>>,
    b: Seq<Registration<L>>,
    event: E,
)
    ensures
        deliver(a + b, event) == deliver(b, deliver(a, event)),
    decreases b.len(),
{
    if b.len() == 0 {
        assert(a + b =~= a);
    } else {
        lemma_deliver_append(a, b.drop_last(), event);
        assert((a + b).drop_last() =~= a + b.drop_last());
        assert((a + b).last() == b.last());
    }
}

/// At any split point, the listeners after it run on exactly the event the
/// listeners before it produced: a veto at any position reaches, and never
/// suppresses, every later listener.
pub proof fn lemma_deliver_split<E, L: EventListener<E>>(
    regs: Seq<Registration<L>>,
    event: E,
    j: int,
)
    requires
        0 <= j <= regs.len(),
    ensures
        deliver(regs, event) == deliver(regs.skip(j), deliver(regs.take(j), event)),
{
    assert(regs.take(j) + regs.skip(j) =~= regs);
    lemma_deliver_append(regs.take(j), regs.skip(j), event);
}

/// Firing is not cached: a second delivery of the same listener sequence
/// runs every listener again, on the result of the first delivery.
pub proof fn lemma_deliver_twice<E, L: EventListener<E>>(regs: Seq<Registration<L>>, event: E)
    ensures
        deliver(regs, deliver(regs, event)) == deliver(regs + regs, event),
{
    lemma_deliver_append(regs, regs, event);
}

/// The delivery order of a fire call is in ascending priority order: what
/// `matching` selects from a priority-sorted registry is itself sorted, so
/// listeners at distinct priorities run strictly from lowest to highest.
pub proof fn lemma_matching_sorted<L>(regs: Seq<Registration<L>>, kind: u64)
    requires
        sorted_by_priority(regs),
    ensures
        sorted_by_priority(matching(regs, kind)),
        forall|i: int| 0 <= i < matching(regs, kind).len() ==> exists|j: int|
            0 <= j < regs.len() && regs[j] == #[trigger] matching(regs, kind)[i],
    decreases regs.len(),
{
    if regs.len() == 0 {
    } else {
        let prefix = regs.drop_last();
        let last = regs.last();
        assert(sorted_by_priority(prefix)) by {
            assert forall|i: int, j: int| 0 <= i < j < prefix.len() implies
                (#[trigger] prefix[i].priority) <= #[trigger] prefix[j].priority by {
                assert(regs[i].priority <= regs[j].priority);
            }
        }
        lemma_matching_sorted(prefix, kind);
        let m = matching(regs, kind);
        let mp = matching(prefix, kind);
        assert forall|i: int| 0 <= i < m.len() implies exists|j: int|
            0 <= j < regs.len() && regs[j] == #[trigger] m[i] by {
            if i < mp.len() {
                assert(m[i] == mp[i]);
                let j = choose|j: int| 0 <= j < prefix.len() && prefix[j] == mp[i];
                assert(regs[j] == m[i]);
            } else {
                assert(m[i] == last);
                assert(regs[regs.len() - 1] == m[i]);
            }
        }
        assert forall|p: int, q: int| 0 <= p < q < m.len() implies
            (#[trigger] m[p].priority) <= #[trigger] m[q].priority by {
            if q < mp.len() {
                assert(m[p] == mp[p] && m[q] == mp[q]);
            } else {
                assert(m[q] == last);
                assert(m[p] == mp[p]);
                let j = choose|j: int| 0 <= j < prefix.len() && prefix[j] == mp[p];
                assert(regs[j].priority <= regs[regs.len() - 1].priority);
            }
        }
    }
}

} // verus!
