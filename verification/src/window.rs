//! The bounded fan-out pattern that the intake handler and the drainer
//! both follow: a fixed ceiling of simultaneously in-flight item-pipelines
//! over a dynamic list of identifiers; as one completes, the next queued
//! identifier is taken up. The window conserves its identifiers, so when
//! nothing is pending and nothing is in flight, every identifier has been
//! individually resolved, however the steps interleaved.

use vstd::prelude::*;
use vstd::multiset::Multiset;

verus! {

broadcast use vstd::seq_lib::group_to_multiset_ensures;

/// The concurrency ceiling: at most this many item-pipelines in flight.
pub const CONCURRENCY_LIMIT: usize = 5;

/// One window over a list of identifiers: not-yet-started ones wait in
/// order, at most [`CONCURRENCY_LIMIT`] are in flight, and each completed
/// one is recorded as resolved.
pub struct DrainWindow {
    pending: Vec<u64>,
    in_flight: Vec<u64>,
    resolved: Vec<u64>,
}

impl DrainWindow {
    /// Well-formedness: the ceiling bounds what is in flight, always.
    pub closed spec fn wf(self) -> bool {
        self.in_flight@.len() <= CONCURRENCY_LIMIT
    }

    /// The identifiers not yet taken up, in start order (last first).
    pub closed spec fn pending_ids(self) -> Seq<u64> {
        self.pending@
    }

    /// The identifiers whose item-pipelines are in flight.
    pub closed spec fn in_flight_ids(self) -> Seq<u64> {
        self.in_flight@
    }

    /// The identifiers whose item-pipelines have completed, in completion
    /// order.
    pub closed spec fn resolved_ids(self) -> Seq<u64> {
        self.resolved@
    }

    /// Every identifier the window holds, wherever it now stands: the
    /// quantity each step conserves.
    pub closed spec fn charge(self) -> Multiset<u64> {
        self.pending@.to_multiset().add(self.in_flight@.to_multiset()).add(
            self.resolved@.to_multiset(),
        )
    }

    /// Opens a window over a list of identifiers, none started yet.
    pub fn new(ids: Vec<u64>) -> (w: DrainWindow)
        ensures
            w.wf(),
            w.pending_ids() == ids@,
            w.in_flight_ids() == Seq::<u64>::empty(),
            w.resolved_ids() == Seq::<u64>::empty(),
            w.charge() == ids@.to_multiset(),
    {
        let w = DrainWindow { pending: ids, in_flight: Vec::new(), resolved: Vec::new() };
        proof {
            assert(Seq::<u64>::empty().to_multiset() =~= Multiset::<u64>::empty());
            assert(w.charge() =~= w.pending@.to_multiset());
        }
        w
    }

    /// How many item-pipelines are in flight.
    pub fn in_flight_count(&self) -> (n: usize)
        ensures
            n == self.in_flight_ids().len(),
    {
        self.in_flight.len()
    }

    /// How many identifiers wait for a free slot.
    pub fn pending_count(&self) -> (n: usize)
        ensures
            n == self.pending_ids().len(),
    {
        self.pending.len()
    }

    /// The completed identifiers, in completion order.
    pub fn resolved_list(&self) -> (r: &Vec<u64>)
        ensures
            r@ == self.resolved_ids(),
    {
        &self.resolved
    }

    /// Starts the next waiting identifier's pipeline if a slot is free
    /// under the ceiling; otherwise changes nothing.
    pub fn start_next(&mut self) -> (r: Option<u64>)
        requires
            old(self).wf(),
        ensures
            final(self).wf(),
            final(self).charge() == old(self).charge(),
            r matches Some(id) ==> ({
                &&& old(self).pending_ids().len() > 0
                &&& old(self).in_flight_ids().len() < CONCURRENCY_LIMIT
                &&& id == old(self).pending_ids().last()
                &&& final(self).pending_ids() == old(self).pending_ids().drop_last()
                &&& final(self).in_flight_ids() == old(self).in_flight_ids().push(id)
                &&& final(self).resolved_ids() == old(self).resolved_ids()
            }),
            r is None ==> ({
                &&& final(self).pending_ids() == old(self).pending_ids()
                &&& final(self).in_flight_ids() == old(self).in_flight_ids()
                &&& final(self).resolved_ids() == old(self).resolved_ids()
                &&& old(self).pending_ids().len() == 0 || old(self).in_flight_ids().len()
                    >= CONCURRENCY_LIMIT
            }),
    {
        if self.in_flight.len() < CONCURRENCY_LIMIT {
            let ghost p0 = self.pending@;
            let ghost f0 = self.in_flight@;
            match self.pending.pop() {
                Some(id) => {
                    self.in_flight.push(id);
                    proof {
                        assert(p0 =~= self.pending@.push(id));
                        assert(p0.to_multiset() == self.pending@.to_multiset().insert(id));
                        assert(self.in_flight@.to_multiset() == f0.to_multiset().insert(id));
                        assert(final(self).charge() =~= old(self).charge());
                    }
                    Some(id)
                },
                None => None,
            }
        } else {
            None
        }
    }

    /// Records the completion of an in-flight identifier, freeing its
    /// slot; an identifier not in flight changes nothing.
    pub fn complete(&mut self, id: u64) -> (r: bool)
        requires
            old(self).wf(),
        ensures
            final(self).wf(),
            final(self).charge() == old(self).charge(),
            r == old(self).in_flight_ids().contains(id),
            r ==> ({
                &&& final(self).in_flight_ids().len() == old(self).in_flight_ids().len() - 1
                &&& final(self).in_flight_ids().to_multiset() == old(
                    self,
                ).in_flight_ids().to_multiset().remove(id)
                &&& final(self).resolved_ids() == old(self).resolved_ids().push(id)
                &&& final(self).pending_ids() == old(self).pending_ids()
            }),
            !r ==> *final(self) == *old(self),
    {
        let n = self.in_flight.len();
        let mut i: usize = 0;
        while i < n
            invariant
                *self == *old(self),
                old(self).wf(),
                n == self.in_flight@.len(),
                i <= n,
                forall|j: int| 0 <= j < i ==> self.in_flight@[j] != id,
            decreases n - i,
        {
            if self.in_flight[i] == id {
                let ghost f0 = self.in_flight@;
                let ghost r0 = self.resolved@;
                self.in_flight.remove(i);
                self.resolved.push(id);
                proof {
                    assert(f0[i as int] == id);
                    assert(f0.contains(id));
                    assert(self.in_flight@.to_multiset() == f0.to_multiset().remove(id));
                    assert(self.resolved@.to_multiset() == r0.to_multiset().insert(id));
                    assert(f0.to_multiset().count(id) > 0);
                    assert(final(self).charge() =~= old(self).charge());
                }
                return true;
            }
            i += 1;
        }
        false
    }

    /// The concurrency bound: a well-formed window never has more
    /// item-pipelines in flight than the ceiling allows.
    pub proof fn lemma_ceiling(self)
        requires
            self.wf(),
        ensures
            self.in_flight_ids().len() <= CONCURRENCY_LIMIT,
    {
    }

    /// Total resolution: once nothing is pending and nothing is in
    /// flight, the resolved identifiers are exactly the identifiers the
    /// window was opened over, each individually accounted for, however
    /// starts and completions interleaved.
    pub proof fn lemma_all_resolved(self, ids: Seq<u64>)
        requires
            self.charge() == ids.to_multiset(),
            self.pending_ids().len() == 0,
            self.in_flight_ids().len() == 0,
        ensures
            self.resolved_ids().to_multiset() == ids.to_multiset(),
            self.resolved_ids().len() == ids.len(),
    {
        assert(self.pending@.to_multiset() =~= Multiset::<u64>::empty());
        assert(self.in_flight@.to_multiset() =~= Multiset::<u64>::empty());
        assert(self.resolved@.to_multiset() =~= self.charge());
        assert(self.resolved@.len() == self.resolved@.to_multiset().len());
        assert(ids.len() == ids.to_multiset().len());
    }
}

} // verus!
