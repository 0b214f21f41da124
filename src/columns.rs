use vstd::prelude::*;

verus! {

/// Which physical column shows which channel: slot `i` holds the column bound
/// to channel position `i`, if any. A column is bound to one position at most.
pub struct ColumnMap {
    pub slots: Vec<Option<u8>>,
}

impl ColumnMap {
    pub open spec fn wf(&self) -> bool {
        forall|i: int, j: int|
            0 <= i < self.slots@.len() && 0 <= j < self.slots@.len() && i != j && #[trigger] self.slots@[i] is Some
                ==> #[trigger] self.slots@[j] != self.slots@[i]
    }

    /// The position a column is bound to.
    pub open spec fn bound(&self, column: u8) -> Option<int> {
        if exists|i: int| 0 <= i < self.slots@.len() && self.slots@[i] == Some(column) {
            Some(choose|i: int| 0 <= i < self.slots@.len() && self.slots@[i] == Some(column))
        } else {
            None
        }
    }

    pub fn new() -> (r: ColumnMap)
        ensures
            r.wf(),
            r.slots@.len() == 0,
    {
        ColumnMap { slots: Vec::new() }
    }

    /// The channel position that a column shows, if it is bound.
    pub fn channel_for(&self, column: u8) -> (r: Option<usize>)
        requires
            self.wf(),
        ensures
            r matches Some(i) ==> self.bound(column) == Some(i as int) && self.slots@[i as int] == Some(column),
            r is None ==> self.bound(column) is None,
    {
        let mut i: usize = 0;
        while i < self.slots.len()
            invariant
                self.wf(),
                i <= self.slots@.len(),
                forall|k: int| 0 <= k < i ==> self.slots@[k] != Some(column),
            decreases self.slots@.len() - i,
        {
            if self.slots[i] == Some(column) {
                proof {
                    let c = choose|k: int| 0 <= k < self.slots@.len() && self.slots@[k] == Some(column);
                    assert(self.slots@[i as int] is Some);
                    if c != i {
                        assert(self.slots@[c] != self.slots@[i as int]);
                    }
                }
                return Some(i);
            }
            i = i + 1;
        }
        None
    }

    /// Binds a column on its first appearance to the lowest position that no
    /// column holds; a bound column keeps its position.
    pub fn bind(&mut self, column: u8) -> (r: usize)
        requires
            old(self).wf(),
        ensures
            final(self).wf(),
            final(self).bound(column) == Some(r as int),
            old(self).bound(column) matches Some(i) ==> r == i && final(self).slots@ == old(self).slots@,
            old(self).bound(column) is None ==> {
                &&& r <= old(self).slots@.len()
                &&& forall|j: int| 0 <= j < r ==> #[trigger] old(self).slots@[j] is Some
                &&& r < old(self).slots@.len() ==> old(self).slots@[r as int] is None
                &&& final(self).slots@ == if r < old(self).slots@.len() {
                    old(self).slots@.update(r as int, Some(column))
                } else {
                    old(self).slots@.push(Some(column))
                }
            },
    {
        if let Some(i) = self.channel_for(column) {
            return i;
        }
        let mut i: usize = 0;
        while i < self.slots.len() && self.slots[i].is_some()
            invariant
                i <= self.slots@.len(),
                forall|j: int| 0 <= j < i ==> #[trigger] self.slots@[j] is Some,
            decreases self.slots@.len() - i,
        {
            i = i + 1;
        }
        let ghost before = self.slots@;
        if i < self.slots.len() {
            self.slots.set(i, Some(column));
        } else {
            self.slots.push(Some(column));
        }
        proof {
            assert(self.slots@[i as int] == Some(column));
            assert forall|a: int, b: int|
                0 <= a < self.slots@.len() && 0 <= b < self.slots@.len() && a != b && #[trigger] self.slots@[a] is Some
                    implies #[trigger] self.slots@[b] != self.slots@[a] by {
                if a != i && b != i {
                    assert(before[a] is Some);
                    assert(before[b] != before[a]);
                }
            }
            let c = choose|k: int| 0 <= k < self.slots@.len() && self.slots@[k] == Some(column);
            if c != i {
                assert(self.slots@[c] != self.slots@[i as int]);
            }
        }
        i
    }

    /// Frees the position of a column that went out of sight.
    pub fn release(&mut self, column: u8)
        requires
            old(self).wf(),
        ensures
            final(self).wf(),
            final(self).bound(column) is None,
            final(self).slots@ == old(self).slots@.map_values(|s: Option<u8>| if s == Some(column) { None } else { s }),
    {
        let ghost before = self.slots@;
        let mut i: usize = 0;
        while i < self.slots.len()
            invariant
                self.slots@.len() == before.len(),
                i <= before.len(),
                forall|k: int| 0 <= k < i ==> #[trigger] self.slots@[k] == (if before[k] == Some(column) { None } else { before[k] }),
                forall|k: int| i <= k < before.len() ==> #[trigger] self.slots@[k] == before[k],
            decreases before.len() - i,
        {
            if self.slots[i] == Some(column) {
                self.slots.set(i, None);
            }
            i = i + 1;
        }
        proof {
            assert(self.slots@ =~= before.map_values(|s: Option<u8>| if s == Some(column) { None } else { s }));
            assert forall|a: int, b: int|
                0 <= a < self.slots@.len() && 0 <= b < self.slots@.len() && a != b && #[trigger] self.slots@[a] is Some
                    implies #[trigger] self.slots@[b] != self.slots@[a] by {
                assert(before[a] is Some);
                assert(before[b] != before[a]);
            }
        }
    }
}

} // verus!
