//! The bit array itself: construction and access to single bits.

use vstd::prelude::*;
use crate::arith::{law_modulo_is_least_residue, lemma_remainder_of_negation, modulo_spec};
use crate::bits::{
    byte_bit,
    lemma_clear_bit,
    lemma_raise_bit,
    lemma_zero_byte,
    mask_spec,
    storage_len,
    unpack,
};
use crate::error::BitArrayError;

verus! {

/// An array of bits, packed eight to a byte.
#[derive(Debug)]
pub struct BitArray {
    /// The number of bits in the array; need not be a multiple of 8.
    bit_sz: usize,
    /// The bytes that hold the bits. Positions of the last byte beyond
    /// `bit_sz` carry no meaning.
    data: Vec<u8>,
}

impl View for BitArray {
    type V = Seq<bool>;

    /// The bits of the array, by index. Storage beyond the last bit is no part
    /// of it.
    closed spec fn view(&self) -> Seq<bool> {
        unpack(self.data@, self.bit_sz as nat)
    }
}

impl BitArray {
    /// The storage holds exactly the bytes that the bits need.
    #[verifier::type_invariant]
    spec fn well_formed(self) -> bool {
        self.data@.len() == storage_len(self.bit_sz as nat)
    }

    /// An array of `bit_sz` bits, all zero.
    pub fn new(bit_sz: usize) -> (arr: BitArray)
        ensures
            arr@.len() == bit_sz,
            forall|i: int| 0 <= i < bit_sz ==> !arr@[i],
    {
        let num_els: usize = bit_sz / 8 + if bit_sz % 8 == 0 {
            0
        } else {
            1
        };
        let data: Vec<u8> = vec![0u8; num_els];
        let arr = BitArray { bit_sz, data };
        proof {
            assert forall|i: int| 0 <= i < bit_sz implies !arr@[i] by {
                lemma_zero_byte(i % 8);
            }
        }
        arr
    }

    /// The array of the eight bits of `n`, bit 0 being the least significant.
    pub fn from_u8(n: u8) -> (arr: BitArray)
        ensures
            arr@.len() == 8,
            forall|i: int| 0 <= i < 8 ==> arr@[i] == byte_bit(n, i),
    {
        let data: Vec<u8> = vec![n];
        BitArray { bit_sz: 8, data }
    }

    /// The number of bits in the array.
    pub fn get_bit_sz(&self) -> (n: usize)
        ensures
            n == self@.len(),
    {
        self.bit_sz
    }

    /// The number of bytes that hold the bits of the array.
    pub fn storage_bytes(&self) -> (n: usize)
        ensures
            n == storage_len(self@.len()),
    {
        proof {
            use_type_invariant(self);
        }
        self.data.len()
    }

    /// The mask that selects the bit at `bit_index` within its byte.
    pub fn bitmask(bit_index: usize) -> (m: u8)
        ensures
            m == mask_spec(bit_index as int % 8),
    {
        let shift: u8 = (bit_index % 8) as u8;
        1u8 << shift
    }

    /// The remainder of `n` by `m` that lies in `[0, m)`, whatever the sign of
    /// `n`.
    pub fn modulo(n: isize, m: usize) -> (r: usize)
        requires
            m > 0,
        ensures
            r == modulo_spec(n as int, m as int),
            0 <= r < m,
            (r - n) % (m as int) == 0,
    {
        proof {
            law_modulo_is_least_residue(n as int, m as int);
        }
        if n >= 0 {
            let a: usize = n as usize;
            a % m
        } else {
            // -(n + 1) is at most isize::MAX, so the magnitude of n fits a usize.
            let a: usize = ((-(n + 1)) as usize) + 1;
            let q: usize = a % m;
            proof {
                lemma_remainder_of_negation(a as int, m as int);
            }
            if q == 0 {
                0
            } else {
                m - q
            }
        }
    }

    /// The bit at `bit_index`.
    pub fn get(&self, bit_index: usize) -> (b: bool)
        requires
            bit_index < self@.len(),
        ensures
            b == self@[bit_index as int],
    {
        proof {
            use_type_invariant(self);
        }
        let byte_idx: usize = bit_index / 8;
        let target_byte: u8 = self.data[byte_idx];
        target_byte & BitArray::bitmask(bit_index) != 0
    }

    /// Writes `val` to the bit at `bit_index` and leaves every other bit as it
    /// was.
    pub fn set(&mut self, bit_index: usize, val: bool)
        requires
            bit_index < old(self)@.len(),
        ensures
            final(self)@ == old(self)@.update(bit_index as int, val),
    {
        proof {
            use_type_invariant(&*self);
        }
        let byte_idx: usize = bit_index / 8;
        let mask: u8 = BitArray::bitmask(bit_index);
        let before: u8 = self.data[byte_idx];
        let after: u8 = if val {
            before | mask
        } else {
            before & !mask
        };
        self.data[byte_idx] = after;
        proof {
            assert forall|i: int| 0 <= i < self.bit_sz implies #[trigger] self@[i] == old(self)@.update(
                bit_index as int,
                val,
            )[i] by {
                if i / 8 == byte_idx as int {
                    lemma_raise_bit(before, bit_index as int % 8, i % 8);
                    lemma_clear_bit(before, bit_index as int % 8, i % 8);
                }
            }
            assert(self@ =~= old(self)@.update(bit_index as int, val));
        }
    }

    /// The bit at `bit_index`, or `OutOfRange` where the array has no such
    /// bit.
    pub fn try_get(&self, bit_index: usize) -> (res: Result<bool, BitArrayError>)
        ensures
            bit_index < self@.len() ==> res == Ok::<bool, BitArrayError>(self@[bit_index as int]),
            bit_index >= self@.len() ==> res == Err::<bool, BitArrayError>(
                BitArrayError::OutOfRange,
            ),
    {
        if bit_index < self.get_bit_sz() {
            Ok(self.get(bit_index))
        } else {
            Err(BitArrayError::OutOfRange)
        }
    }

    /// Writes `val` to the bit at `bit_index`; where the array has no such
    /// bit, answers `OutOfRange` and changes nothing.
    pub fn try_set(&mut self, bit_index: usize, val: bool) -> (res: Result<(), BitArrayError>)
        ensures
            bit_index < old(self)@.len() ==> res is Ok && final(self)@ == old(self)@.update(
                bit_index as int,
                val,
            ),
            bit_index >= old(self)@.len() ==> res == Err::<(), BitArrayError>(
                BitArrayError::OutOfRange,
            ) && final(self)@ == old(self)@,
    {
        if bit_index < self.get_bit_sz() {
            self.set(bit_index, val);
            Ok(())
        } else {
            Err(BitArrayError::OutOfRange)
        }
    }

    /// Overwrites the storage with `bytes`: bit `i` becomes position `i % 8`
    /// of `bytes[i / 8]`. What `bytes` holds beyond the last bit does not
    /// show in the array.
    pub fn fill_from_bytes(&mut self, bytes: &[u8])
        requires
            bytes@.len() == storage_len(old(self)@.len()),
        ensures
            final(self)@ == unpack(bytes@, old(self)@.len()),
    {
        proof {
            use_type_invariant(&*self);
        }
        let n: usize = self.data.len();
        let mut i: usize = 0;
        while i < n
            invariant
                i <= n,
                n == bytes@.len(),
                n == self.data@.len(),
                n == storage_len(self.bit_sz as nat),
                self.bit_sz == old(self).bit_sz,
                forall|j: int| 0 <= j < i ==> self.data@[j] == bytes@[j],
            decreases n - i,
        {
            self.data[i] = bytes[i];
            i += 1;
        }
        assert(self.data@ =~= bytes@);
    }
}

} // verus!
