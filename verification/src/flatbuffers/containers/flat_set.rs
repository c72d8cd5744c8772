//! A set of integers stored as a sorted array, with membership by binary search.

use vstd::prelude::*;

verus! {

/// Whether `s` is sorted in ascending order.
pub open spec fn sorted(s: Seq<u64>) -> bool {
    forall|i: int, j: int| 0 <= i <= j < s.len() ==> s[i] <= s[j]
}

/// A set held as a sorted array.
pub struct FlatSetView {
    index: Vec<u64>,
}

impl FlatSetView {
    /// The array, in its order.
    pub closed spec fn items(&self) -> Seq<u64> {
        self.index@
    }

    pub fn new(index: Vec<u64>) -> (r: Self)
        ensures
            r.items() == index@,
    {
        FlatSetView { index }
    }

    /// The number of leading items smaller than `value`.
    fn partition_point(&self, value: u64) -> (r: usize)
        requires
            sorted(self.items()),
        ensures
            r <= self.items().len(),
            forall|i: int| 0 <= i < r ==> self.items()[i] < value,
            forall|i: int| r <= i < self.items().len() ==> self.items()[i] >= value,
    {
        let mut lo: usize = 0;
        let mut hi: usize = self.index.len();
        while lo < hi
            invariant
                lo <= hi <= self.index@.len(),
                sorted(self.items()),
                self.items() == self.index@,
                forall|i: int| 0 <= i < lo ==> self.items()[i] < value,
                forall|i: int| hi <= i < self.items().len() ==> self.items()[i] >= value,
            decreases hi - lo,
        {
            let mid = lo + (hi - lo) / 2;
            if self.index[mid] < value {
                lo = mid + 1;
            } else {
                hi = mid;
            }
        }
        lo
    }

    /// Whether `value` is among the items; the items are sorted.
    pub fn contains(&self, value: u64) -> (r: bool)
        requires
            sorted(self.items()),
        ensures
            r == self.items().contains(value),
    {
        let idx = self.partition_point(value);
        let found = idx < self.index.len() && self.index[idx] == value;
        proof {
            if self.items().contains(value) {
                let j = choose|j: int| 0 <= j < self.items().len() && self.items()[j] == value;
                assert(j >= idx);
                assert(self.items()[idx as int] <= value);
            }
        }
        found
    }

    pub fn len(&self) -> (r: usize)
        ensures
            r == self.items().len(),
    {
        self.index.len()
    }

    pub fn is_empty(&self) -> (r: bool)
        ensures
            r == (self.items().len() == 0),
    {
        self.len() == 0
    }
}

} // verus!
