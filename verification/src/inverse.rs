//! Inverses in the field, and what follows from them: cancellation and the
//! absence of zero divisors.

use crate::field::{field_inv, field_modulus, is_reduced};
use crate::modular::{congruent, is_zero_mod, lemma_congruent_mod, lemma_congruent_mul};
use crate::primality::lemma_field_fermat;
use crate::primes::power_mod;
use vstd::arithmetic::div_mod::{lemma_mod_bound, lemma_mul_mod_noop_right, lemma_small_mod};
use vstd::arithmetic::power::{lemma_pow1, lemma_pow_adds, pow};
use vstd::prelude::*;

verus! {

/// The inverse of a nonzero element is its `(p-2)`th power, by Fermat's
/// little theorem: it is reduced, and its product with the element is one.
pub proof fn lemma_inverse(a: nat)
    requires
        !is_zero_mod(a as int),
    ensures
        congruent(a as int * field_inv(a), 1),
        is_reduced(field_inv(a)),
{
    let p = field_modulus() as int;
    let e = (field_modulus() - 2) as nat;
    let x = pow(a as int, e);
    lemma_field_fermat(a);
    reveal(power_mod);
    lemma_pow_adds(a as int, 1, e);
    lemma_pow1(a as int);
    assert(pow(a as int, (field_modulus() - 1) as nat) == a * x);
    lemma_mod_bound(x, p);
    lemma_mul_mod_noop_right(a as int, x, p);
    lemma_small_mod(1, field_modulus());
}

/// An integer that is not a multiple of `p` has a reduced inverse.
pub proof fn lemma_inverse_exists(d: int) -> (di: nat)
    requires
        !is_zero_mod(d),
    ensures
        congruent(d * di, 1),
        is_reduced(di),
{
    let p = field_modulus() as int;
    lemma_congruent_mod(d);
    let r = (d % p) as nat;
    lemma_congruent_mod(r as int);
    lemma_inverse(r);
    let di = field_inv(r);
    lemma_congruent_mul(d, r as int, di as int, di as int);
    di
}

/// A common factor that is not a multiple of `p` may be cancelled.
pub proof fn lemma_cancel(a: int, b: int, d: int)
    requires
        !is_zero_mod(d),
        congruent(a * d, b * d),
    ensures
        congruent(a, b),
{
    let di = lemma_inverse_exists(d) as int;
    lemma_congruent_mul(a * d, b * d, di, di);
    lemma_congruent_mul(a, a, d * di, 1);
    lemma_congruent_mul(b, b, d * di, 1);
    assert(a * d * di == a * (d * di)) by (nonlinear_arith);
    assert(b * d * di == b * (d * di)) by (nonlinear_arith);
    assert(a * 1 == a && b * 1 == b);
}

/// The field has no zero divisors.
pub proof fn lemma_no_zero_divisors(a: int, d: int)
    requires
        !is_zero_mod(d),
        is_zero_mod(a * d),
    ensures
        is_zero_mod(a),
{
    assert(0 * d == 0);
    lemma_cancel(a, 0, d);
}

/// A product of two numbers that are not multiples of `p` is none either.
pub proof fn lemma_product_nonzero(a: int, b: int)
    requires
        !is_zero_mod(a),
        !is_zero_mod(b),
    ensures
        !is_zero_mod(a * b),
{
    if is_zero_mod(a * b) {
        lemma_no_zero_divisors(a, b);
    }
}

/// A square and a cube of a number that is not a multiple of `p` are none
/// either.
pub proof fn lemma_square_and_cube_nonzero(z: int)
    requires
        !is_zero_mod(z),
    ensures
        !is_zero_mod(z * z),
        !is_zero_mod(z * z * z),
{
    lemma_product_nonzero(z, z);
    lemma_product_nonzero(z * z, z);
}

} // verus!
