//! In-place rotation of a range of a bit array, one place at a time.

use vstd::prelude::*;
use vstd::arithmetic::div_mod::{lemma_mod_self_0, lemma_small_mod};
use crate::arith::lemma_remainder_of_negation;
use crate::bitarray::BitArray;
use crate::error::BitArrayError;
use crate::rotation::{
    law_rotate_left_compose,
    law_rotate_left_full_period,
    lemma_rotate_left_congruent,
    rotate_left_spec,
    rotate_spec,
};

verus! {

impl BitArray {
    /// Rotates the bits of `[bit_offset, bit_offset + bit_length)` right by
    /// `bit_right_amount` places; a negative amount rotates left. Amounts of
    /// any size are taken modulo the length of the range, and an empty range
    /// is left alone.
    pub fn rotate(&mut self, bit_offset: usize, bit_length: usize, bit_right_amount: isize)
        requires
            bit_offset + bit_length <= old(self)@.len(),
        ensures
            final(self)@ == rotate_spec(
                old(self)@,
                bit_offset as int,
                bit_length as int,
                bit_right_amount as int,
            ),
    {
        if bit_length == 0 {
            assert(self@ =~= rotate_spec(self@, bit_offset as int, 0, bit_right_amount as int));
            return ;
        }
        // A right rotation by r is a left rotation by -r, reduced modulo the
        // length. The reduction is taken of r itself, which cannot overflow.
        let right: usize = BitArray::modulo(bit_right_amount, bit_length);
        let left: usize = if right == 0 {
            0
        } else {
            bit_length - right
        };
        proof {
            lemma_remainder_of_negation(bit_right_amount as int, bit_length as int);
            lemma_small_mod(left as nat, bit_length as nat);
            lemma_rotate_left_congruent(
                self@,
                bit_offset as int,
                bit_length as int,
                left as int,
                -(bit_right_amount as int),
            );
        }
        self.rotate_left(bit_offset, bit_length, left);
    }

    /// Rotates the range left by `bit_left_amount` places, one place at a
    /// time.
    pub fn rotate_left(&mut self, bit_offset: usize, bit_length: usize, bit_left_amount: usize)
        requires
            bit_offset + bit_length <= old(self)@.len(),
        ensures
            final(self)@ == rotate_left_spec(
                old(self)@,
                bit_offset as int,
                bit_length as int,
                bit_left_amount as int,
            ),
    {
        let ghost orig = self@;
        let mut done: usize = 0;
        proof {
            law_rotate_left_full_period(
                orig,
                bit_offset as int,
                bit_length as int,
                0,
            );
        }
        while done < bit_left_amount
            invariant
                done <= bit_left_amount,
                bit_offset + bit_length <= orig.len(),
                self@ == rotate_left_spec(orig, bit_offset as int, bit_length as int, done as int),
            decreases bit_left_amount - done,
        {
            proof {
                law_rotate_left_compose(
                    orig,
                    bit_offset as int,
                    bit_length as int,
                    done as int,
                    1,
                );
            }
            self.rotate_left_one(bit_offset, bit_length);
            done += 1;
        }
    }

    /// Rotates the range left by one place: every bit of the range moves one
    /// index down, and the bit at `bit_offset` goes to the end of the range.
    pub fn rotate_left_one(&mut self, bit_offset: usize, bit_length: usize)
        requires
            bit_offset + bit_length <= old(self)@.len(),
        ensures
            final(self)@ == rotate_left_spec(old(self)@, bit_offset as int, bit_length as int, 1),
    {
        let ghost orig = self@;
        if bit_length == 0 {
            assert(self@ =~= rotate_left_spec(orig, bit_offset as int, 0, 1));
            return ;
        }
        let bit_sz: usize = self.get_bit_sz();
        let first_bit: bool = self.get(bit_offset);
        let mut i: usize = bit_offset;
        while i + 1 < bit_offset + bit_length
            invariant
                bit_length > 0,
                bit_offset <= i < bit_offset + bit_length,
                bit_offset + bit_length <= bit_sz == orig.len(),
                self@.len() == orig.len(),
                forall|j: int| bit_offset <= j < i ==> self@[j] == orig[j + 1],
                forall|j: int| 0 <= j < orig.len() && !(bit_offset <= j < i) ==> self@[j] == orig[j],
            decreases bit_offset + bit_length - i,
        {
            let next: bool = self.get(i + 1);
            self.set(i, next);
            i += 1;
        }
        self.set(i, first_bit);
        proof {
            let want = rotate_left_spec(orig, bit_offset as int, bit_length as int, 1);
            assert forall|j: int| 0 <= j < orig.len() implies self@[j] == want[j] by {
                if bit_offset <= j < bit_offset + bit_length - 1 {
                    lemma_small_mod((j - bit_offset + 1) as nat, bit_length as nat);
                } else if j == bit_offset + bit_length - 1 {
                    lemma_mod_self_0(bit_length as int);
                }
            }
            assert(self@ =~= want);
        }
    }

    /// Rotates as `rotate` does; where the range reaches beyond the last
    /// bit, answers `OutOfRange` and changes nothing.
    pub fn try_rotate(
        &mut self,
        bit_offset: usize,
        bit_length: usize,
        bit_right_amount: isize,
    ) -> (res: Result<(), BitArrayError>)
        ensures
            bit_offset + bit_length <= old(self)@.len() ==> res is Ok && final(self)@
                == rotate_spec(
                old(self)@,
                bit_offset as int,
                bit_length as int,
                bit_right_amount as int,
            ),
            bit_offset + bit_length > old(self)@.len() ==> res == Err::<(), BitArrayError>(
                BitArrayError::OutOfRange,
            ) && final(self)@ == old(self)@,
    {
        let bit_sz: usize = self.get_bit_sz();
        if bit_length > bit_sz || bit_offset > bit_sz - bit_length {
            Err(BitArrayError::OutOfRange)
        } else {
            self.rotate(bit_offset, bit_length, bit_right_amount);
            Ok(())
        }
    }
}

} // verus!
