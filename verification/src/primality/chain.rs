//! Steps of a power chain: square-and-multiply, one binary digit of the
//! exponent at a time, on residues.

use crate::primes::{
    is_prime, lemma_power_mod_add, lemma_power_mod_of_power, lemma_power_mod_one,
    power_mod,
};
use vstd::arithmetic::div_mod::{lemma_mul_mod_noop_general, lemma_small_mod};
use vstd::prelude::*;

verus! {

/// Two is prime.
pub proof fn lemma_prime_2()
    ensures
        is_prime(2),
{
}

/// A chain starts at the first power of a reduced base.
pub proof fn lemma_chain_start(a: nat, n: nat)
    requires
        n >= 2,
        a < n,
    ensures
        power_mod(a, 1, n) == a,
{
    lemma_power_mod_one(a, n);
    lemma_small_mod(a, n);
}

/// A digit zero doubles the exponent and squares the residue.
pub proof fn lemma_chain_square(a: nat, n: nat, e: nat, r: nat) -> (e2: nat)
    requires
        n >= 2,
        power_mod(a, e, n) == r,
    ensures
        e2 == 2 * e,
        power_mod(a, e2, n) == (r * r) % n,
{
    lemma_power_mod_add(a, e, e, n);
    2 * e
}

/// A digit one doubles the exponent and adds one; the residue is squared
/// and multiplied by the base.
pub proof fn lemma_chain_square_mul(a: nat, n: nat, e: nat, r: nat) -> (e2: nat)
    requires
        n >= 2,
        power_mod(a, e, n) == r,
    ensures
        e2 == 2 * e + 1,
        power_mod(a, e2, n) == (r * r * a) % n,
{
    lemma_power_mod_add(a, e, e, n);
    lemma_power_mod_add(a, 2 * e, 1, n);
    lemma_power_mod_one(a, n);
    lemma_mul_mod_noop_general((r * r) as int, a as int, n as int);
    2 * e + 1
}

/// A chain on the result of another chain raises the first base to the
/// product of the exponents.
pub proof fn lemma_chain_compose(g: nat, e1: nat, mid: nat, e2: nat, n: nat)
    requires
        n >= 2,
        power_mod(g, e1, n) == mid,
    ensures
        power_mod(g, e1 * e2, n) == power_mod(mid, e2, n),
{
    lemma_power_mod_of_power(g, e1, e2, n);
}

} // verus!
