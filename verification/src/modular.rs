//! Congruence modulo the field modulus, on integers.
//!
//! Field elements are natural numbers below `p`, and every field operation
//! reduces its result.  Proofs about them are carried out on integers up to
//! congruence, where a polynomial identity is plain arithmetic, and brought
//! back by the fact that congruent reduced values are equal.

use crate::field::{field_add, field_modulus, field_mul, field_sub, is_reduced};
use vstd::arithmetic::div_mod::{
    lemma_add_mod_noop, lemma_mod_bound, lemma_mod_equivalence, lemma_mod_twice,
    lemma_mul_mod_noop, lemma_small_mod, lemma_sub_mod_noop,
};
use vstd::prelude::*;

verus! {

/// `a` and `b` leave the same remainder modulo `p`.
pub open spec fn congruent(a: int, b: int) -> bool {
    a % (field_modulus() as int) == b % (field_modulus() as int)
}

/// Whether `a` is a multiple of `p`.
pub open spec fn is_zero_mod(a: int) -> bool {
    a % (field_modulus() as int) == 0
}

/// Congruent summands give congruent sums.
pub proof fn lemma_congruent_add(a: int, b: int, c: int, d: int)
    requires
        congruent(a, b),
        congruent(c, d),
    ensures
        congruent(a + c, b + d),
{
    let p = field_modulus() as int;
    lemma_add_mod_noop(a, c, p);
    lemma_add_mod_noop(b, d, p);
}

/// Congruent operands give congruent differences.
pub proof fn lemma_congruent_sub(a: int, b: int, c: int, d: int)
    requires
        congruent(a, b),
        congruent(c, d),
    ensures
        congruent(a - c, b - d),
{
    let p = field_modulus() as int;
    lemma_sub_mod_noop(a, c, p);
    lemma_sub_mod_noop(b, d, p);
}

/// Congruent factors give congruent products.
pub proof fn lemma_congruent_mul(a: int, b: int, c: int, d: int)
    requires
        congruent(a, b),
        congruent(c, d),
    ensures
        congruent(a * c, b * d),
{
    let p = field_modulus() as int;
    lemma_mul_mod_noop(a, c, p);
    lemma_mul_mod_noop(b, d, p);
}

/// Congruent factors may be exchanged in a product of three.
pub proof fn lemma_congruent_mul3(a: int, b: int, c: int, d: int, e: int, f: int)
    requires
        congruent(a, b),
        congruent(c, d),
        congruent(e, f),
    ensures
        congruent(a * c * e, b * d * f),
{
    lemma_congruent_mul(a, b, c, d);
    lemma_congruent_mul(a * c, b * d, e, f);
}

/// A remainder is congruent to the number it was taken from.
pub proof fn lemma_congruent_mod(a: int)
    ensures
        congruent(a % (field_modulus() as int), a),
        0 <= a % (field_modulus() as int) < field_modulus(),
{
    lemma_mod_twice(a, field_modulus() as int);
    lemma_mod_bound(a, field_modulus() as int);
}

/// Two numbers are congruent exactly when their difference is a multiple of
/// `p`.
pub proof fn lemma_congruent_iff_difference(a: int, b: int)
    ensures
        congruent(a, b) <==> is_zero_mod(a - b),
{
    lemma_mod_equivalence(a, b, field_modulus() as int);
}

/// Congruent factors may be exchanged in a square.
pub proof fn lemma_congruent_square(a: int, b: int)
    requires
        congruent(a, b),
    ensures
        congruent(a * a, b * b),
{
    lemma_congruent_mul(a, b, a, b);
}

/// Congruent factors may be exchanged in a cube.
pub proof fn lemma_congruent_cube(a: int, b: int)
    requires
        congruent(a, b),
    ensures
        congruent(a * a * a, b * b * b),
{
    lemma_congruent_mul3(a, b, a, b, a, b);
}

/// Congruent reduced values are equal.
pub proof fn lemma_reduced_equal(a: nat, b: nat)
    requires
        is_reduced(a),
        is_reduced(b),
        congruent(a as int, b as int),
    ensures
        a == b,
{
    lemma_small_mod(a, field_modulus());
    lemma_small_mod(b, field_modulus());
}

/// A reduced value that is a multiple of `p` is zero.
pub proof fn lemma_reduced_zero(a: nat)
    requires
        is_reduced(a),
    ensures
        is_zero_mod(a as int) <==> a == 0,
{
    lemma_small_mod(a, field_modulus());
}

/// A field sum is reduced and congruent to the sum.
pub proof fn lemma_field_add(a: nat, b: nat)
    ensures
        is_reduced(field_add(a, b)),
        congruent(field_add(a, b) as int, (a + b) as int),
{
    lemma_congruent_mod((a + b) as int);
}

/// A field difference is reduced and congruent to the difference.
pub proof fn lemma_field_sub(a: nat, b: nat)
    ensures
        is_reduced(field_sub(a, b)),
        congruent(field_sub(a, b) as int, a - b),
{
    lemma_congruent_mod(a - b);
}

/// A field product is reduced and congruent to the product.
pub proof fn lemma_field_mul(a: nat, b: nat)
    ensures
        is_reduced(field_mul(a, b)),
        congruent(field_mul(a, b) as int, (a * b) as int),
{
    assert(a * b >= 0) by (nonlinear_arith)
        requires
            a >= 0,
            b >= 0,
    ;
    lemma_congruent_mod((a * b) as int);
}

} // verus!
