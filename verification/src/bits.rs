//! How bits are packed into bytes: bit `i` of an array lives in byte `i / 8`,
//! at position `i % 8`, position 0 being the least significant.

use vstd::prelude::*;

verus! {

/// The mask that selects position `j` of a byte.
pub open spec fn mask_spec(j: int) -> u8 {
    1u8 << (j as u8)
}

/// Whether position `j` of byte `b` holds a one.
pub open spec fn byte_bit(b: u8, j: int) -> bool {
    b & mask_spec(j) != 0
}

/// The number of bytes that hold `n` packed bits.
pub open spec fn storage_len(n: nat) -> nat {
    ((n + 7) / 8) as nat
}

/// Bit `i` of the bits packed in `data`.
pub open spec fn packed_bit(data: Seq<u8>, i: int) -> bool {
    byte_bit(data[i / 8], i % 8)
}

/// The first `n` bits packed in `data`, by index.
pub open spec fn unpack(data: Seq<u8>, n: nat) -> Seq<bool> {
    Seq::new(n, |i: int| packed_bit(data, i))
}

/// No position of the zero byte holds a one.
pub proof fn lemma_zero_byte(j: int)
    requires
        0 <= j < 8,
    ensures
        !byte_bit(0u8, j),
{
    let m = j as u8;
    assert(0u8 & (1u8 << m) == 0) by (bit_vector);
}

/// Or-ing a byte with a mask sets that position and keeps the others.
pub proof fn lemma_raise_bit(b: u8, j: int, k: int)
    requires
        0 <= j < 8,
        0 <= k < 8,
    ensures
        byte_bit(b | mask_spec(j), k) == (k == j || byte_bit(b, k)),
{
    let x = j as u8;
    let y = k as u8;
    assert(((b | (1u8 << x)) & (1u8 << y) != 0) == (y == x || (b & (1u8 << y) != 0)))
        by (bit_vector)
        requires
            x < 8,
            y < 8,
    ;
}

/// And-ing a byte with a mask's complement clears that position and keeps the
/// others.
pub proof fn lemma_clear_bit(b: u8, j: int, k: int)
    requires
        0 <= j < 8,
        0 <= k < 8,
    ensures
        byte_bit(b & !mask_spec(j), k) == (k != j && byte_bit(b, k)),
{
    let x = j as u8;
    let y = k as u8;
    assert(((b & !(1u8 << x)) & (1u8 << y) != 0) == (y != x && (b & (1u8 << y) != 0)))
        by (bit_vector)
        requires
            x < 8,
            y < 8,
    ;
}

/// Two byte sequences that agree on the first `n` bits hold the same `n`
/// bits, whatever else they hold: what lies beyond bit `n` does not count.
pub proof fn law_padding_ignored(a: Seq<u8>, b: Seq<u8>, n: nat)
    requires
        forall|i: int| 0 <= i < n ==> #[trigger] packed_bit(a, i) == packed_bit(b, i),
    ensures
        unpack(a, n) == unpack(b, n),
{
    assert(unpack(a, n) =~= unpack(b, n));
}

} // verus!
