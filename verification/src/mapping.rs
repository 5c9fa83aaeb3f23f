//! The result mapping assembled by fan-in: unit name to per-unit outcome.
//!
//! Names are unique; inserting under an existing name replaces that entry
//! (last write wins), inserting under a fresh name appends one.

use vstd::prelude::*;

use crate::loader::UnitOutcome;

verus! {

/// Mapping from unit name to the unit's load outcome, with one entry per
/// name.
pub struct ResultMap {
    entries: Vec<(String, UnitOutcome)>,
}

impl ResultMap {
    /// The entries, keyed by name view.
    pub closed spec fn entries_seq(self) -> Seq<(String, UnitOutcome)> {
        self.entries@
    }

    /// Well-formed: no two entries share a name.
    pub open spec fn wf(self) -> bool {
        forall|p: int, q: int|
            0 <= p < q < self.entries_seq().len() ==> self.entries_seq()[p].0@
                != self.entries_seq()[q].0@
    }

    /// Whether some entry carries the name `k`.
    pub open spec fn contains_name(self, k: Seq<char>) -> bool {
        exists|i: int| 0 <= i < self.entries_seq().len() && self.entries_seq()[i].0@ == k
    }

    /// The outcome stored under the name `k`; meaningful when `k` is
    /// contained and the mapping is well-formed.
    pub open spec fn value_for(self, k: Seq<char>) -> UnitOutcome {
        self.entries_seq()[choose|i: int|
            0 <= i < self.entries_seq().len() && self.entries_seq()[i].0@ == k].1
    }

    /// How many names the mapping binds.
    pub open spec fn num_entries(self) -> nat {
        self.entries_seq().len()
    }

    /// In a well-formed mapping, the entry at index `i` is the one found for
    /// its own name.
    proof fn lemma_value_at(self, i: int)
        requires
            self.wf(),
            0 <= i < self.entries_seq().len(),
        ensures
            self.contains_name(self.entries_seq()[i].0@),
            self.value_for(self.entries_seq()[i].0@) == self.entries_seq()[i].1,
    {
        let k = self.entries_seq()[i].0@;
        assert(self.contains_name(k));
        let j = choose|j: int| 0 <= j < self.entries_seq().len() && self.entries_seq()[j].0@ == k;
        if j < i {
            assert(self.entries_seq()[j].0@ != self.entries_seq()[i].0@);
        }
        if i < j {
            assert(self.entries_seq()[i].0@ != self.entries_seq()[j].0@);
        }
    }

    /// An empty mapping.
    pub fn new() -> (m: ResultMap)
        ensures
            m.wf(),
            m.num_entries() == 0,
            forall|k: Seq<char>| !m.contains_name(k),
    {
        ResultMap { entries: Vec::new() }
    }

    /// Bind `name` to `outcome`: replace the entry already carrying `name`
    /// if there is one (last write wins), otherwise add a new entry. Every
    /// other name keeps its binding.
    pub fn insert(&mut self, name: String, outcome: UnitOutcome)
        requires
            old(self).wf(),
        ensures
            final(self).wf(),
            final(self).contains_name(name@),
            final(self).value_for(name@) == outcome,
            forall|k: Seq<char>|
                k != name@ ==> #[trigger] final(self).contains_name(k) == old(self).contains_name(
                    k,
                ),
            forall|k: Seq<char>|
                k != name@ && old(self).contains_name(k) ==> #[trigger] final(self).value_for(k)
                    == old(self).value_for(k),
            final(self).num_entries() == old(self).num_entries() + (if old(self).contains_name(
                name@,
            ) {
                0int
            } else {
                1int
            }),
    {
        let n = self.entries.len();
        let mut i: usize = 0;
        while i < n
            invariant
                old(self).wf(),
                n == self.entries@.len(),
                i <= n,
                *self == *old(self),
                forall|p: int| 0 <= p < i ==> self.entries@[p].0@ != name@,
            decreases n - i,
        {
            if self.entries[i].0 == name {
                proof {
                    old(self).lemma_value_at(i as int);
                }
                self.entries.set(i, (name, outcome));
                proof {
                    self.lemma_insert_replace_post(*old(self), i as int, outcome);
                }
                return ;
            }
            i = i + 1;
        }
        proof {
            assert(!old(self).contains_name(name@));
        }
        self.entries.push((name, outcome));
        proof {
            self.lemma_insert_append_post(*old(self), outcome);
        }
    }

    /// After replacing the entry at `i` — whose name matched the new
    /// entry's — every insert postcondition holds.
    proof fn lemma_insert_replace_post(self, pre: ResultMap, i: int, outcome: UnitOutcome)
        requires
            pre.wf(),
            0 <= i < pre.entries_seq().len(),
            self.entries_seq() == pre.entries_seq().update(
                i,
                (self.entries_seq()[i].0, outcome),
            ),
            self.entries_seq()[i].0@ == pre.entries_seq()[i].0@,
            self.entries_seq()[i].1 == outcome,
        ensures
            self.wf(),
            self.contains_name(pre.entries_seq()[i].0@),
            self.value_for(pre.entries_seq()[i].0@) == outcome,
            forall|k: Seq<char>|
                k != pre.entries_seq()[i].0@ ==> #[trigger] self.contains_name(k)
                    == pre.contains_name(k),
            forall|k: Seq<char>|
                k != pre.entries_seq()[i].0@ && pre.contains_name(k)
                    ==> #[trigger] self.value_for(k) == pre.value_for(k),
            self.num_entries() == pre.num_entries(),
    {
        let name = pre.entries_seq()[i].0@;
        assert forall|p: int, q: int|
            0 <= p < q < self.entries_seq().len() implies self.entries_seq()[p].0@
            != self.entries_seq()[q].0@ by {
            assert(pre.entries_seq()[p].0@ != pre.entries_seq()[q].0@);
        }
        self.lemma_value_at(i);
        assert forall|k: Seq<char>| k != name implies #[trigger] self.contains_name(k)
            == pre.contains_name(k) by {
            if self.contains_name(k) {
                let j = choose|j: int|
                    0 <= j < self.entries_seq().len() && self.entries_seq()[j].0@ == k;
                assert(j != i);
                assert(pre.entries_seq()[j].0@ == k);
            }
            if pre.contains_name(k) {
                let j = choose|j: int|
                    0 <= j < pre.entries_seq().len() && pre.entries_seq()[j].0@ == k;
                assert(j != i);
                assert(self.entries_seq()[j].0@ == k);
            }
        }
        assert forall|k: Seq<char>| k != name && pre.contains_name(k) implies #[trigger] self
            .value_for(k) == pre.value_for(k) by {
            let j = choose|j: int|
                0 <= j < pre.entries_seq().len() && pre.entries_seq()[j].0@ == k;
            assert(j != i);
            assert(self.entries_seq()[j].0@ == k);
            pre.lemma_value_at(j);
            self.lemma_value_at(j);
        }
    }

    /// After appending an entry whose name no existing entry carries, every
    /// insert postcondition holds.
    proof fn lemma_insert_append_post(self, pre: ResultMap, outcome: UnitOutcome)
        requires
            pre.wf(),
            self.entries_seq().len() == pre.entries_seq().len() + 1,
            self.entries_seq() == pre.entries_seq().push(self.entries_seq().last()),
            self.entries_seq().last().1 == outcome,
            forall|p: int|
                0 <= p < pre.entries_seq().len() ==> pre.entries_seq()[p].0@
                    != self.entries_seq().last().0@,
        ensures
            self.wf(),
            self.contains_name(self.entries_seq().last().0@),
            self.value_for(self.entries_seq().last().0@) == outcome,
            forall|k: Seq<char>|
                k != self.entries_seq().last().0@ ==> #[trigger] self.contains_name(k)
                    == pre.contains_name(k),
            forall|k: Seq<char>|
                k != self.entries_seq().last().0@ && pre.contains_name(k) ==> #[trigger] self
                    .value_for(k) == pre.value_for(k),
            self.num_entries() == pre.num_entries() + 1,
    {
        let name = self.entries_seq().last().0@;
        let n = pre.entries_seq().len() as int;
        assert forall|p: int, q: int|
            0 <= p < q < self.entries_seq().len() implies self.entries_seq()[p].0@
            != self.entries_seq()[q].0@ by {
            if q < n {
                assert(pre.entries_seq()[p].0@ != pre.entries_seq()[q].0@);
            } else {
                assert(pre.entries_seq()[p].0@ != name);
            }
        }
        self.lemma_value_at(n);
        assert forall|k: Seq<char>| k != name implies #[trigger] self.contains_name(k)
            == pre.contains_name(k) by {
            if self.contains_name(k) {
                let j = choose|j: int|
                    0 <= j < self.entries_seq().len() && self.entries_seq()[j].0@ == k;
                assert(j != n);
                assert(pre.entries_seq()[j].0@ == k);
            }
            if pre.contains_name(k) {
                let j = choose|j: int|
                    0 <= j < pre.entries_seq().len() && pre.entries_seq()[j].0@ == k;
                assert(self.entries_seq()[j].0@ == k);
            }
        }
        assert forall|k: Seq<char>| k != name && pre.contains_name(k) implies #[trigger] self
            .value_for(k) == pre.value_for(k) by {
            let j = choose|j: int|
                0 <= j < pre.entries_seq().len() && pre.entries_seq()[j].0@ == k;
            assert(self.entries_seq()[j].0@ == k);
            pre.lemma_value_at(j);
            self.lemma_value_at(j);
        }
    }

    /// How many names the mapping binds.
    pub fn len(&self) -> (n: usize)
        ensures
            n == self.num_entries(),
    {
        self.entries.len()
    }

    /// The outcome bound to `name`, if any.
    pub fn get(&self, name: &String) -> (r: Option<&UnitOutcome>)
        requires
            self.wf(),
        ensures
            (r is Some) == self.contains_name(name@),
            r is Some ==> *r->Some_0 == self.value_for(name@),
    {
        let n = self.entries.len();
        let mut i: usize = 0;
        while i < n
            invariant
                self.wf(),
                n == self.entries@.len(),
                i <= n,
                forall|p: int| 0 <= p < i ==> self.entries@[p].0@ != name@,
            decreases n - i,
        {
            if self.entries[i].0 == *name {
                proof {
                    self.lemma_value_at(i as int);
                }
                return Some(&self.entries[i].1);
            }
            i = i + 1;
        }
        None
    }

    /// The name of the entry at position `i`.
    pub fn name_at(&self, i: usize) -> (r: &String)
        requires
            self.wf(),
            i < self.num_entries(),
        ensures
            self.contains_name(r@),
            self.value_for(r@) == self.entries_seq()[i as int].1,
    {
        proof {
            self.lemma_value_at(i as int);
        }
        &self.entries[i].0
    }
}

} // verus!
