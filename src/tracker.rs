use vstd::prelude::*;

verus! {

/// The allocation identities already counted in one computation.
///
/// Only membership and insertion are offered: an identity, once recorded,
/// stays recorded for as long as the tracker lives.
pub struct MemoryUsageTracker {
    ids: Vec<usize>,
}

impl View for MemoryUsageTracker {
    type V = Set<usize>;

    closed spec fn view(&self) -> Set<usize> {
        self.ids@.to_set()
    }
}

impl MemoryUsageTracker {
    /// A tracker that has seen nothing yet.
    pub fn new() -> (r: MemoryUsageTracker)
        ensures
            r@ == Set::<usize>::empty(),
    {
        let r = MemoryUsageTracker { ids: Vec::new() };
        proof {
            assert(r.ids@.to_set() =~= Set::<usize>::empty());
        }
        r
    }

    /// Whether `id` has already been recorded.
    pub fn contains(&self, id: usize) -> (r: bool)
        ensures
            r == self@.contains(id),
    {
        let mut i: usize = 0;
        while i < self.ids.len()
            invariant
                i <= self.ids@.len(),
                forall|k: int| 0 <= k < i ==> self.ids@[k] != id,
            decreases self.ids@.len() - i,
        {
            if self.ids[i] == id {
                proof {
                    assert(self.ids@.contains(id));
                }
                return true;
            }
            i = i + 1;
        }
        proof {
            if self.ids@.to_set().contains(id) {
                let k = self.ids@.index_of(id);
                assert(self.ids@[k] == id);
            }
        }
        false
    }

    /// Records `id`; the result tells whether it was new.
    pub fn insert(&mut self, id: usize) -> (r: bool)
        ensures
            r == !old(self)@.contains(id),
            final(self)@ == old(self)@.insert(id),
    {
        if self.contains(id) {
            proof {
                assert(self@.insert(id) =~= self@);
            }
            false
        } else {
            let ghost before = self.ids@;
            self.ids.push(id);
            proof {
                assert(self.ids@ == before.push(id));
                assert(self.ids@.to_set() =~= before.to_set().insert(id)) by {
                    assert forall|x: usize| #[trigger] self.ids@.contains(x) <==> before.contains(x) || x == id by {
                        if self.ids@.contains(x) {
                            let k = self.ids@.index_of(x);
                            if k < before.len() {
                                assert(before[k] == x);
                            }
                        }
                        if before.contains(x) {
                            let k = before.index_of(x);
                            assert(self.ids@[k] == x);
                        }
                        if x == id {
                            assert(self.ids@[before.len() as int] == id);
                        }
                    }
                }
            }
            true
        }
    }
}

} // verus!
