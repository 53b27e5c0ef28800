//! Integer arithmetic used to normalise rotation amounts.

use vstd::prelude::*;

verus! {

/// The representative of `n` modulo `m` that lies in `[0, m)`.
pub open spec fn modulo_spec(n: int, m: int) -> int
    recommends
        m > 0,
{
    n % m
}

/// For a positive modulus, the representative lies in `[0, m)` and differs
/// from `n` by a multiple of `m`.
pub proof fn law_modulo_is_least_residue(n: int, m: int)
    requires
        m > 0,
    ensures
        0 <= modulo_spec(n, m) < m,
        (modulo_spec(n, m) - n) % m == 0,
{
    vstd::arithmetic::div_mod::lemma_fundamental_div_mod(n, m);
    vstd::arithmetic::div_mod::lemma_mod_multiples_vanish(-(n / m), 0, m);
    assert(n % m - n == m * (-(n / m)) + 0) by (nonlinear_arith)
        requires
            n == m * (n / m) + n % m,
    ;
}

/// The remainder of `-a` is the complement of the remainder of `a`.
pub proof fn lemma_remainder_of_negation(a: int, m: int)
    requires
        m > 0,
    ensures
        (-a) % m == if a % m == 0 {
            0
        } else {
            m - a % m
        },
{
    vstd::arithmetic::div_mod::lemma_fundamental_div_mod(a, m);
    let q = a / m;
    let r = a % m;
    if r == 0 {
        assert(-a == m * (-q) + 0) by (nonlinear_arith)
            requires
                a == m * q + r,
                r == 0,
        ;
        vstd::arithmetic::div_mod::lemma_fundamental_div_mod_converse(-a, m, -q, 0);
    } else {
        assert(-a == m * (-q - 1) + (m - r)) by (nonlinear_arith)
            requires
                a == m * q + r,
        ;
        vstd::arithmetic::div_mod::lemma_fundamental_div_mod_converse(-a, m, -q - 1, m - r);
    }
}

} // verus!
