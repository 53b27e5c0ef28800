//! When two bit arrays are equal: when they hold the same bits. What the
//! storage holds beyond the last bit plays no part.

use vstd::prelude::*;
use crate::bitarray::BitArray;

verus! {

impl PartialEq for BitArray {
    fn eq(&self, other: &Self) -> (same: bool) {
        let n: usize = self.get_bit_sz();
        if n != other.get_bit_sz() {
            return false;
        }
        let mut i: usize = 0;
        while i < n
            invariant
                i <= n,
                n == self@.len(),
                n == other@.len(),
                forall|j: int| 0 <= j < i ==> self@[j] == other@[j],
            decreases n - i,
        {
            if self.get(i) != other.get(i) {
                return false;
            }
            i += 1;
        }
        assert(self@ =~= other@);
        true
    }
}

impl Eq for BitArray {

}

impl vstd::std_specs::cmp::PartialEqSpecImpl for BitArray {
    open spec fn obeys_eq_spec() -> bool {
        true
    }

    /// Two arrays are equal exactly when they have the same bits, index by
    /// index.
    open spec fn eq_spec(&self, other: &Self) -> bool {
        self@ == other@
    }
}

} // verus!
