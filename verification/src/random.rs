//! Filling a bit array with random bits.

use vstd::prelude::*;
use rand::rngs::ThreadRng;
use rand::Rng;
use crate::bitarray::BitArray;
use crate::bits::storage_len;

verus! {

/// The generator of random numbers that `rand` keeps for each thread.
#[verifier::external_type_specification]
#[verifier::external_body]
pub struct ExThreadRng(ThreadRng);

/// Calls `rand::thread_rng`, which hands out the calling thread's generator.
/// Nothing is claimed of it. The first call on a thread seeds the generator
/// from the operating system, and `rand` panics where that source fails.
#[verifier::external_body]
fn thread_generator() -> (rng: ThreadRng) {
    rand::thread_rng()
}

/// Calls `rand::Rng::gen` for a `u8`, which draws one byte from the
/// generator. Nothing is claimed of the byte: each call may return any value.
#[verifier::external_body]
fn next_byte(rng: &mut ThreadRng) -> (b: u8) {
    rng.gen()
}

impl BitArray {
    /// Overwrites every byte of the storage with a random byte. The number of
    /// bits stays; each bit may come out either way.
    pub fn randfill(&mut self)
        ensures
            final(self)@.len() == old(self)@.len(),
    {
        let wanted: usize = self.storage_bytes();
        let mut rng = thread_generator();
        let mut bytes: Vec<u8> = Vec::new();
        while bytes.len() < wanted
            invariant
                bytes@.len() <= wanted == storage_len(self@.len()),
            decreases wanted - bytes@.len(),
        {
            let b: u8 = next_byte(&mut rng);
            bytes.push(b);
        }
        self.fill_from_bytes(bytes.as_slice());
    }
}

} // verus!
