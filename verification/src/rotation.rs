//! What it means to rotate a range of a sequence of bits, and the laws that
//! rotations obey.

use vstd::prelude::*;
use vstd::arithmetic::div_mod::{
    lemma_add_mod_noop_right,
    lemma_fundamental_div_mod,
    lemma_mod_multiples_vanish,
    lemma_small_mod,
};

verus! {

/// `s` with the range `[offset, offset + length)` rotated left by `amount`:
/// the bit that ends up `d` places into the range is the one that stood
/// `d + amount` places into it, counted round the range. Bits outside the
/// range stay. An empty range leaves `s` as it is.
pub open spec fn rotate_left_spec(s: Seq<bool>, offset: int, length: int, amount: int) -> Seq<
    bool,
> {
    Seq::new(
        s.len(),
        |i: int|
            if offset <= i < offset + length {
                s[offset + (i - offset + amount) % length]
            } else {
                s[i]
            },
    )
}

/// `s` with the range `[offset, offset + length)` rotated right by
/// `right_amount`, which is a left rotation by its negation.
pub open spec fn rotate_spec(s: Seq<bool>, offset: int, length: int, right_amount: int) -> Seq<
    bool,
> {
    rotate_left_spec(s, offset, length, -right_amount)
}

/// A rotation moves a bit of the range to a place in the range.
pub proof fn lemma_rotated_index_in_range(offset: int, length: int, i: int, amount: int)
    requires
        length > 0,
    ensures
        offset <= offset + (i - offset + amount) % length < offset + length,
{
    lemma_fundamental_div_mod(i - offset + amount, length);
}

/// Rotating left by `a` and then by `b` is rotating left by `a + b`.
pub proof fn law_rotate_left_compose(s: Seq<bool>, offset: int, length: int, a: int, b: int)
    requires
        0 <= offset,
        offset + length <= s.len(),
    ensures
        rotate_left_spec(rotate_left_spec(s, offset, length, a), offset, length, b)
            == rotate_left_spec(s, offset, length, a + b),
{
    let once = rotate_left_spec(s, offset, length, a);
    let twice = rotate_left_spec(once, offset, length, b);
    let both = rotate_left_spec(s, offset, length, a + b);
    assert forall|i: int| 0 <= i < s.len() implies twice[i] == both[i] by {
        if offset <= i < offset + length {
            let j = offset + (i - offset + b) % length;
            lemma_rotated_index_in_range(offset, length, i, b);
            lemma_add_mod_noop_right(a, i - offset + b, length);
            assert(j - offset + a == a + (i - offset + b) % length);
            assert(i - offset + (a + b) == a + (i - offset + b));
        }
    }
    assert(twice =~= both);
}

/// Rotating a range left by any multiple of its length leaves the sequence
/// unchanged.
pub proof fn law_rotate_left_full_period(s: Seq<bool>, offset: int, length: int, turns: int)
    ensures
        rotate_left_spec(s, offset, length, turns * length) == s,
{
    let r = rotate_left_spec(s, offset, length, turns * length);
    assert forall|i: int| 0 <= i < s.len() implies r[i] == s[i] by {
        if offset <= i < offset + length {
            lemma_mod_multiples_vanish(turns, i - offset, length);
            lemma_small_mod((i - offset) as nat, length as nat);
            assert(i - offset + turns * length == length * turns + (i - offset))
                by (nonlinear_arith);
        }
    }
    assert(r =~= s);
}

/// Rotating a range right by any multiple of its length leaves the sequence
/// unchanged.
pub proof fn law_rotate_full_period(s: Seq<bool>, offset: int, length: int, turns: int)
    ensures
        rotate_spec(s, offset, length, turns * length) == s,
{
    assert(-(turns * length) == (-turns) * length) by (nonlinear_arith);
    law_rotate_left_full_period(s, offset, length, -turns);
}

/// Rotation amounts that differ by a multiple of the range's length rotate
/// alike.
pub proof fn lemma_rotate_left_congruent(s: Seq<bool>, offset: int, length: int, a: int, b: int)
    requires
        length > 0,
        a % length == b % length,
    ensures
        rotate_left_spec(s, offset, length, a) == rotate_left_spec(s, offset, length, b),
{
    let ra = rotate_left_spec(s, offset, length, a);
    let rb = rotate_left_spec(s, offset, length, b);
    assert forall|i: int| 0 <= i < s.len() implies ra[i] == rb[i] by {
        if offset <= i < offset + length {
            lemma_add_mod_noop_right(i - offset, a, length);
            lemma_add_mod_noop_right(i - offset, b, length);
        }
    }
    assert(ra =~= rb);
}

/// Rotating right by `r` is rotating left by `length - r % length`: a right
/// rotation by `r` equals the rotation whose right amount is
/// `-(length - r % length)`.
pub proof fn law_rotate_right_is_left(s: Seq<bool>, offset: int, length: int, r: int)
    ensures
        rotate_spec(s, offset, length, r) == rotate_spec(
            s,
            offset,
            length,
            -(length - r % length),
        ),
        rotate_spec(s, offset, length, r) == rotate_left_spec(
            s,
            offset,
            length,
            length - r % length,
        ),
{
    if length > 0 {
        lemma_fundamental_div_mod(r, length);
        let q = r / length;
        assert(length - r % length == length * (q + 1) + (-r)) by (nonlinear_arith)
            requires
                r == length * q + r % length,
        ;
        lemma_mod_multiples_vanish(q + 1, -r, length);
        lemma_rotate_left_congruent(s, offset, length, -r, length - r % length);
    } else {
        assert(rotate_left_spec(s, offset, length, -r) =~= s);
        assert(rotate_left_spec(s, offset, length, length - r % length) =~= s);
    }
}

} // verus!
