//! The ways in which an operation on a bit array can be refused.

use vstd::prelude::*;

verus! {

/// Why an operation on a bit array was refused.
#[derive(Clone, Copy, Debug, PartialEq, Eq, Structural)]
pub enum BitArrayError {
    /// A bit index, or the end of a range, lies beyond the last bit.
    OutOfRange,
    /// A textual bit string holds a character other than `'0'` and `'1'`.
    InvalidCharacter,
}

} // verus!
