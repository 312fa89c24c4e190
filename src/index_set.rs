//! A small set of generic-parameter indices.

use vstd::prelude::*;

verus! {

/// A set of parameter indices, held as a list that may repeat an index.
pub struct IndexSet {
    items: Vec<usize>,
}

impl View for IndexSet {
    type V = Set<usize>;

    closed spec fn view(&self) -> Set<usize> {
        self.items@.to_set()
    }
}

impl IndexSet {
    /// The empty set.
    pub fn new() -> (r: IndexSet)
        ensures
            r@ == Set::<usize>::empty(),
    {
        let r = IndexSet { items: Vec::new() };
        proof {
            assert(r.items@.to_set() =~= Set::<usize>::empty());
        }
        r
    }

    /// Adds `index` to the set.
    pub fn insert(&mut self, index: usize)
        ensures
            final(self)@ == old(self)@.insert(index),
    {
        proof {
            self.items@.lemma_push_to_set_commute(index);
        }
        self.items.push(index);
    }

    /// Adds every index of `other` to the set.
    pub fn union_with(&mut self, other: &IndexSet)
        ensures
            final(self)@ == old(self)@.union(other@),
    {
        let mut i: usize = 0;
        while i < other.items.len()
            invariant
                i <= other.items@.len(),
                self@ == old(self)@.union(other.items@.subrange(0, i as int).to_set()),
            decreases other.items@.len() - i,
        {
            let index = other.items[i];
            proof {
                let before = other.items@.subrange(0, i as int);
                assert(other.items@.subrange(0, i + 1) =~= before.push(index));
                before.lemma_push_to_set_commute(index);
            }
            self.insert(index);
            proof {
                assert(self@ =~= old(self)@.union(other.items@.subrange(0, i + 1).to_set()));
            }
            i = i + 1;
        }
        proof {
            assert(other.items@.subrange(0, i as int) =~= other.items@);
        }
    }

    /// True if `index` is in the set.
    pub fn contains(&self, index: usize) -> (r: bool)
        ensures
            r == self@.contains(index),
    {
        let mut i: usize = 0;
        while i < self.items.len()
            invariant
                i <= self.items@.len(),
                forall|j: int| 0 <= j < i ==> self.items@[j] != index,
            decreases self.items@.len() - i,
        {
            if self.items[i] == index {
                proof {
                    assert(self.items@.contains(index));
                }
                return true;
            }
            i = i + 1;
        }
        false
    }

    /// True if every index of the set is also in `other`.
    pub fn is_subset(&self, other: &IndexSet) -> (r: bool)
        ensures
            r == self@.subset_of(other@),
    {
        let mut i: usize = 0;
        while i < self.items.len()
            invariant
                i <= self.items@.len(),
                forall|j: int| 0 <= j < i ==> other@.contains(#[trigger] self.items@[j]),
            decreases self.items@.len() - i,
        {
            if !other.contains(self.items[i]) {
                proof {
                    assert(self@.contains(self.items@[i as int]));
                }
                return false;
            }
            i = i + 1;
        }
        proof {
            assert forall|x: usize| self@.contains(x) implies other@.contains(x) by {
                let j = choose|j: int| 0 <= j < self.items@.len() && self.items@[j] == x;
                assert(other@.contains(self.items@[j]));
            }
        }
        true
    }
}

} // verus!
