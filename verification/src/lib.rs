//! A packed array of bits with indexed access and in-place rotation of a
//! contiguous subrange.

pub mod arith;
pub mod bitarray;
pub mod bits;
pub mod equality;
pub mod error;
pub mod random;
pub mod rotate;
pub mod rotation;
pub mod text;
