//! The durable queue model: the mapping from entry identifier to pending
//! entry that the core owns. A second write with the same identifier
//! overwrites the pending entry (last write wins); deletion after a
//! confirmed commit is the sole removal path.

use vstd::prelude::*;
use vstd::pervasive::VecAdditionalExecFns;
use crate::entry::{Entry, EntryModel};

verus! {

/// The staging area of pending entries, keyed by entry identifier.
pub struct Queue {
    items: Vec<Entry>,
}

impl Queue {
    /// Well-formedness: no two pending entries share an identifier.
    pub closed spec fn wf(self) -> bool {
        forall|i: int, j: int|
            0 <= i < j < self.items@.len() ==> self.items@[i].id != self.items@[j].id
    }

    /// The number of pending entries.
    pub open spec fn spec_len(self) -> nat {
        self.entries().len()
    }

    /// Whether an entry with this identifier is pending.
    pub closed spec fn contains_id(self, id: u64) -> bool {
        exists|i: int| 0 <= i < self.items@.len() && self.items@[i].id == id
    }

    /// The pending entry with this identifier (meaningful when one is
    /// pending).
    pub closed spec fn entry_at(self, id: u64) -> EntryModel {
        self.items@[choose|i: int|
            0 <= i < self.items@.len() && self.items@[i].id == id]@
    }

    /// In a well-formed queue, the entry found at an index is the entry
    /// pending under that index's identifier.
    pub proof fn lemma_entry_at(self, i: int)
        requires
            self.wf(),
            0 <= i < self.entries().len(),
        ensures
            self.contains_id(self.entries()[i].id),
            self.entry_at(self.entries()[i].id) == self.entries()[i]@,
    {
        let id = self.items@[i].id;
        assert(self.contains_id(id));
        let j = choose|j: int| 0 <= j < self.items@.len() && self.items@[j].id == id;
        if i < j {
            assert(self.items@[i].id != self.items@[j].id);
        } else if j < i {
            assert(self.items@[j].id != self.items@[i].id);
        }
    }

    /// A queue without pending entries holds no identifier.
    pub proof fn lemma_empty(self)
        requires
            self.spec_len() == 0,
        ensures
            forall|id: u64| !self.contains_id(id),
    {
    }

    /// An empty queue.
    pub fn new() -> (q: Queue)
        ensures
            q.wf(),
            q.spec_len() == 0,
            forall|id: u64| !q.contains_id(id),
    {
        Queue { items: Vec::new() }
    }

    /// The number of pending entries.
    pub fn len(&self) -> (n: usize)
        ensures
            n == self.spec_len(),
    {
        self.items.len()
    }

    /// Stages an entry under its identifier, overwriting any pending entry
    /// with the same identifier and leaving every other entry untouched.
    pub fn put(&mut self, e: Entry)
        requires
            old(self).wf(),
        ensures
            final(self).wf(),
            final(self).contains_id(e.id),
            final(self).entry_at(e.id) == e@,
            forall|id: u64|
                id != e.id ==> (final(self).contains_id(id) <==> old(self).contains_id(id)),
            forall|id: u64|
                id != e.id && old(self).contains_id(id) ==> final(self).entry_at(id) == old(
                    self,
                ).entry_at(id),
            final(self).spec_len() == if old(self).contains_id(e.id) {
                old(self).spec_len()
            } else {
                old(self).spec_len() + 1
            },
    {
        let n = self.items.len();
        let mut i: usize = 0;
        while i < n
            invariant
                *self == *old(self),
                old(self).wf(),
                n == self.items@.len(),
                i <= n,
                forall|j: int| 0 <= j < i ==> self.items@[j].id != e.id,
            decreases n - i,
        {
            if self.items[i].id == e.id {
                self.items.set(i, e);
                proof {
                    let q0 = *old(self);
                    let s0 = q0.items@;
                    let s1 = self.items@;
                    assert(s1 == s0.update(i as int, e));
                    assert forall|a: int, b: int|
                        0 <= a < b < s1.len() implies s1[a].id != s1[b].id by {
                        assert(s0[a].id != s0[b].id);
                    }
                    self.lemma_entry_at(i as int);
                    assert forall|id: u64|
                        id != e.id implies (self.contains_id(id) <==> q0.contains_id(id)) by {
                        if self.contains_id(id) {
                            let j = choose|j: int|
                                0 <= j < s1.len() && s1[j].id == id;
                            assert(j != i);
                            assert(s0[j].id == id);
                        }
                        if q0.contains_id(id) {
                            let j = choose|j: int|
                                0 <= j < s0.len() && s0[j].id == id;
                            assert(j != i);
                            assert(s1[j].id == id);
                        }
                    }
                    assert forall|id: u64|
                        id != e.id && q0.contains_id(id) implies self.entry_at(id)
                            == q0.entry_at(id) by {
                        let j = choose|j: int|
                            0 <= j < s0.len() && s0[j].id == id;
                        assert(j != i);
                        q0.lemma_entry_at(j);
                        self.lemma_entry_at(j);
                    }
                }
                return ;
            }
            i += 1;
        }
        self.items.push(e);
        proof {
            let q0 = *old(self);
            let s0 = q0.items@;
            let s1 = self.items@;
            assert(s1 == s0.push(e));
            assert forall|a: int, b: int|
                0 <= a < b < s1.len() implies s1[a].id != s1[b].id by {
                if b < s1.len() - 1 {
                    assert(s0[a].id != s0[b].id);
                } else {
                    assert(s1[a] == s0[a]);
                    assert(s0[a].id != e.id);
                }
            }
            self.lemma_entry_at(s1.len() - 1);
            assert(!q0.contains_id(e.id));
            assert forall|id: u64|
                id != e.id implies (self.contains_id(id) <==> q0.contains_id(id)) by {
                if self.contains_id(id) {
                    let j = choose|j: int| 0 <= j < s1.len() && s1[j].id == id;
                    assert(j != s1.len() - 1);
                    assert(s0[j].id == id);
                }
                if q0.contains_id(id) {
                    let j = choose|j: int| 0 <= j < s0.len() && s0[j].id == id;
                    assert(s1[j].id == id);
                }
            }
            assert forall|id: u64|
                id != e.id && q0.contains_id(id) implies self.entry_at(id) == q0.entry_at(
                    id,
                ) by {
                let j = choose|j: int| 0 <= j < s0.len() && s0[j].id == id;
                q0.lemma_entry_at(j);
                self.lemma_entry_at(j);
            }
        }
    }

    /// The pending entry with this identifier, if one is pending.
    pub fn get(&self, id: u64) -> (r: Option<&Entry>)
        requires
            self.wf(),
        ensures
            match r {
                Some(e) => self.contains_id(id) && e@ == self.entry_at(id) && e.id == id,
                None => !self.contains_id(id),
            },
    {
        let n = self.items.len();
        let mut i: usize = 0;
        while i < n
            invariant
                self.wf(),
                n == self.items@.len(),
                i <= n,
                forall|j: int| 0 <= j < i ==> self.items@[j].id != id,
            decreases n - i,
        {
            if self.items[i].id == id {
                proof {
                    self.lemma_entry_at(i as int);
                }
                return Some(&self.items[i]);
            }
            i += 1;
        }
        None
    }

    /// Removes the pending entry with this identifier, if one is pending,
    /// leaving every other entry untouched.
    pub fn delete(&mut self, id: u64)
        requires
            old(self).wf(),
        ensures
            final(self).wf(),
            !final(self).contains_id(id),
            forall|j: u64|
                j != id ==> (final(self).contains_id(j) <==> old(self).contains_id(j)),
            forall|j: u64|
                j != id && old(self).contains_id(j) ==> final(self).entry_at(j) == old(
                    self,
                ).entry_at(j),
            final(self).spec_len() == if old(self).contains_id(id) {
                (old(self).spec_len() - 1) as nat
            } else {
                old(self).spec_len()
            },
    {
        let n = self.items.len();
        let mut i: usize = 0;
        while i < n
            invariant
                *self == *old(self),
                old(self).wf(),
                n == self.items@.len(),
                i <= n,
                forall|j: int| 0 <= j < i ==> self.items@[j].id != id,
            decreases n - i,
        {
            if self.items[i].id == id {
                self.items.remove(i);
                proof {
                    let q0 = *old(self);
                    let s0 = q0.items@;
                    let s1 = self.items@;
                    assert(s1 == s0.remove(i as int));
                    assert(s1.len() == s0.len() - 1);
                    assert forall|a: int| 0 <= a < s1.len() implies s1[a] == s0[
                        if a < i { a } else { a + 1 }
                    ] by {
                        assert(s1 == s0.subrange(0, i as int) + s0.subrange(
                            i as int + 1,
                            s0.len() as int,
                        ));
                    }
                    assert forall|a: int, b: int|
                        0 <= a < b < s1.len() implies s1[a].id != s1[b].id by {
                        let a0 = if a < i { a } else { a + 1 };
                        let b0 = if b < i { b } else { b + 1 };
                        assert(s0[a0].id != s0[b0].id);
                    }
                    assert forall|a: int| 0 <= a < s1.len() implies s1[a].id != id by {
                        let a0 = if a < i { a } else { a + 1 };
                        if a0 != i {
                            if a0 < i {
                                assert(s0[a0].id != s0[i as int].id);
                            } else {
                                assert(s0[i as int].id != s0[a0].id);
                            }
                        }
                    }
                    assert forall|j: u64|
                        j != id implies (self.contains_id(j) <==> q0.contains_id(j)) by {
                        if self.contains_id(j) {
                            let a = choose|a: int| 0 <= a < s1.len() && s1[a].id == j;
                            let a0 = if a < i { a } else { a + 1 };
                            assert(s0[a0].id == j);
                        }
                        if q0.contains_id(j) {
                            let a0 = choose|a0: int| 0 <= a0 < s0.len() && s0[a0].id == j;
                            assert(a0 != i);
                            let a = if a0 < i { a0 } else { a0 - 1 };
                            assert(s1[a].id == j);
                        }
                    }
                    assert forall|j: u64|
                        j != id && q0.contains_id(j) implies self.entry_at(j) == q0.entry_at(
                            j,
                        ) by {
                        let a0 = choose|a0: int| 0 <= a0 < s0.len() && s0[a0].id == j;
                        assert(a0 != i);
                        let a = if a0 < i { a0 } else { a0 - 1 };
                        assert(s1[a].id == j);
                        q0.lemma_entry_at(a0);
                        self.lemma_entry_at(a);
                        assert(s1[a] == s0[a0]);
                    }
                }
                return ;
            }
            i += 1;
        }
    }

    /// The identifiers of all pending entries, each exactly once.
    pub fn ids(&self) -> (r: Vec<u64>)
        requires
            self.wf(),
        ensures
            r@.len() == self.spec_len(),
            forall|k: int| 0 <= k < r@.len() ==> r@[k] == self.entries()[k].id,
            r@.no_duplicates(),
            forall|id: u64| self.contains_id(id) <==> r@.contains(id),
    {
        let n = self.items.len();
        let mut r: Vec<u64> = Vec::new();
        let mut i: usize = 0;
        while i < n
            invariant
                n == self.items@.len(),
                i <= n,
                r@.len() == i,
                forall|k: int| 0 <= k < i ==> r@[k] == self.items@[k].id,
            decreases n - i,
        {
            r.push(self.items[i].id);
            i += 1;
        }
        proof {
            assert forall|id: u64| self.contains_id(id) implies r@.contains(id) by {
                let j = choose|j: int|
                    0 <= j < self.items@.len() && self.items@[j].id == id;
                assert(r@[j] == id);
            }
            assert forall|id: u64| r@.contains(id) implies self.contains_id(id) by {
                let j = choose|j: int| 0 <= j < r@.len() && r@[j] == id;
                assert(self.items@[j].id == id);
            }
        }
        r
    }

    /// The raw sequence of pending entries (for reasoning; order carries no
    /// guarantee).
    pub closed spec fn entries(self) -> Seq<Entry> {
        self.items@
    }
}

} // verus!
