//! The selection set: item ids currently selected, each at most once.

use vstd::prelude::*;

verus! {

/// A set of selected item ids. Insertion order is irrelevant; the model
/// is which ids are in and which are not.
pub struct SelectionManager {
    /// The selected ids, each at most once.
    pub ids: Vec<u64>,
}

impl SelectionManager {
    /// Whether an id is selected.
    pub open spec fn has(&self, id: u64) -> bool {
        self.ids@.contains(id)
    }

    /// How many ids are selected.
    pub open spec fn count(&self) -> int {
        self.ids@.len() as int
    }

    /// Each selected id appears once.
    pub open spec fn wf(&self) -> bool {
        self.ids@.no_duplicates()
    }

    /// An empty selection.
    pub fn new() -> (r: SelectionManager)
        ensures
            r.wf(),
            r.count() == 0,
            forall|id: u64| !r.has(id),
    {
        SelectionManager { ids: Vec::new() }
    }

    /// Whether an id is selected.
    pub fn contains(&self, id: u64) -> (r: bool)
        ensures
            r == self.has(id),
    {
        let mut i: usize = 0;
        while i < self.ids.len()
            invariant
                0 <= i <= self.ids@.len(),
                forall|j: int| 0 <= j < i ==> self.ids@[j] != id,
            decreases self.ids@.len() - i,
        {
            if self.ids[i] == id {
                return true;
            }
            i = i + 1;
        }
        false
    }

    /// Select an id; selecting an already selected id changes nothing.
    pub fn insert(&mut self, id: u64)
        requires
            old(self).wf(),
        ensures
            final(self).wf(),
            final(self).has(id),
            forall|x: u64| x != id ==> final(self).has(x) == old(self).has(x),
            final(self).count() == old(self).count() + if old(self).has(id) { 0int } else { 1int },
    {
        if !self.contains(id) {
            self.ids.push(id);
            proof {
                let n = self.ids@.len() - 1;
                assert(self.ids@[n] == id);
                assert(self.ids@.contains(id));
                assert forall|x: u64| x != id
                    implies self.ids@.contains(x) == old(self).ids@.contains(x) by {
                    if old(self).ids@.contains(x) {
                        let w = choose|k: int| 0 <= k < old(self).ids@.len() && old(self).ids@[k] == x;
                        assert(self.ids@[w] == x);
                    }
                    if self.ids@.contains(x) {
                        let w = choose|k: int| 0 <= k < self.ids@.len() && self.ids@[k] == x;
                        if w < n {
                            assert(old(self).ids@[w] == x);
                        }
                    }
                }
                assert(self.ids@.no_duplicates()) by {
                    assert forall|pp: int, qq: int| 0 <= pp < qq < self.ids@.len()
                        implies self.ids@[pp] != self.ids@[qq] by {
                        if qq == n {
                            assert(self.ids@[pp] == old(self).ids@[pp]);
                            if self.ids@[pp] == id {
                                assert(old(self).ids@.contains(id));
                            }
                        }
                    }
                }
            }
        }
    }

    /// Deselect an id; absent ids change nothing.
    pub fn remove(&mut self, id: u64)
        requires
            old(self).wf(),
        ensures
            final(self).wf(),
            !final(self).has(id),
            forall|x: u64| x != id ==> final(self).has(x) == old(self).has(x),
            final(self).count() == old(self).count() - if old(self).has(id) { 1int } else { 0int },
    {
        let mut i: usize = 0;
        while i < self.ids.len()
            invariant
                0 <= i <= self.ids@.len(),
                self.ids@ == old(self).ids@,
                self.ids@.no_duplicates(),
                forall|j: int| 0 <= j < i ==> self.ids@[j] != id,
            decreases self.ids@.len() - i,
        {
            if self.ids[i] == id {
                let ghost before = self.ids@;
                let _ = self.ids.remove(i);
                proof {
                    assert(self.ids@ =~= before.subrange(0, i as int) + before.subrange(i + 1, before.len() as int));
                    
                    assert(!self.ids@.contains(id)) by {
                        if self.ids@.contains(id) {
                            let w = choose|k: int| 0 <= k < self.ids@.len() && self.ids@[k] == id;
                            if w < i {
                                assert(before[w] == id);
                            } else {
                                assert(before[w + 1] == id);
                            }
                        }
                    }
                    assert forall|x: u64| x != id implies self.ids@.contains(x) == before.contains(x) by {
                        if before.contains(x) {
                            let w = choose|k: int| 0 <= k < before.len() && before[k] == x;
                            if w < i {
                                assert(self.ids@[w] == x);
                            } else {
                                assert(before[w] == x && w != i);
                                assert(self.ids@[w - 1] == x);
                            }
                        }
                        if self.ids@.contains(x) {
                            let w = choose|k: int| 0 <= k < self.ids@.len() && self.ids@[k] == x;
                            if w < i {
                                assert(before[w] == x);
                            } else {
                                assert(before[w + 1] == x);
                            }
                        }
                    }
                    assert(self.ids@.no_duplicates()) by {
                        assert forall|p: int, q: int| 0 <= p < q < self.ids@.len()
                            implies self.ids@[p] != self.ids@[q] by {
                            let bp = if p < i { p } else { p + 1 };
                            let bq = if q < i { q } else { q + 1 };
                            assert(self.ids@[p] == before[bp]);
                            assert(self.ids@[q] == before[bq]);
                        }
                    }
                }
                return;
            }
            i = i + 1;
        }
        proof {
            assert(!self.ids@.contains(id)) by {
                if self.ids@.contains(id) {
                    let w = choose|k: int| 0 <= k < self.ids@.len() && self.ids@[k] == id;
                }
            }
        }
    }

    /// Toggle an id: select it when absent, deselect it when present.
    pub fn toggle(&mut self, id: u64)
        requires
            old(self).wf(),
        ensures
            final(self).wf(),
            final(self).has(id) == !old(self).has(id),
            forall|x: u64| x != id ==> final(self).has(x) == old(self).has(x),
    {
        if self.contains(id) {
            self.remove(id);
        } else {
            self.insert(id);
        }
    }

    /// Deselect everything.
    pub fn clear(&mut self)
        ensures
            final(self).wf(),
            final(self).count() == 0,
            forall|id: u64| !final(self).has(id),
    {
        self.ids = Vec::new();
    }

    /// How many ids are selected.
    pub fn len(&self) -> (r: usize)
        ensures
            r == self.count(),
    {
        self.ids.len()
    }

    /// Whether nothing is selected.
    pub fn is_empty(&self) -> (r: bool)
        ensures
            r == (self.count() == 0),
    {
        self.ids.len() == 0
    }

    /// The selected ids, each once, in insertion order.
    pub fn ids(&self) -> (r: Vec<u64>)
        ensures
            r@ == self.ids@,
            forall|id: u64| #[trigger] r@.contains(id) == self.has(id),
    {
        let mut r: Vec<u64> = Vec::new();
        let mut i: usize = 0;
        while i < self.ids.len()
            invariant
                0 <= i <= self.ids@.len(),
                r@ == self.ids@.take(i as int),
            decreases self.ids@.len() - i,
        {
            proof {
                assert(self.ids@.take(i + 1) =~= self.ids@.take(i as int).push(self.ids@[i as int]));
            }
            r.push(self.ids[i]);
            i = i + 1;
        }
        proof {
            assert(self.ids@.take(self.ids@.len() as int) =~= self.ids@);
        }
        r
    }
}

} // verus!
