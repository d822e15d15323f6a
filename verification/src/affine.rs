//! Field operations on `BigUint` and the group law in affine coordinates.

use crate::big::{
    big_add, big_clone, big_eq, big_from_u32, big_ge, big_is_zero, big_modpow, big_mul, big_one,
    big_rem, big_shl, big_sub, big_value,
};
use crate::field::{field_add, field_inv, field_modulus, field_mul, field_sub};
use crate::inverse::lemma_inverse;
use num_bigint::BigUint;
use vstd::arithmetic::div_mod::{
    lemma_mod_add_multiples_vanish, lemma_small_mod, lemma_sub_mod_noop_right,
};
use vstd::arithmetic::power2::{lemma2_to64, lemma_pow2_adds, pow2};
use vstd::prelude::*;

verus! {

/// An affine point: `None` is the point at infinity, `Some((x, y))` a finite
/// point.
pub type Point = Option<(BigUint, BigUint)>;

/// The only way a field operation fails.
#[derive(Debug, Clone, Copy, PartialEq, Eq, Structural)]
pub enum FieldError {
    /// Zero has no multiplicative inverse.
    InvalidInput,
}

/// The coordinates of a point as natural numbers.
pub open spec fn point_value(p: Point) -> Option<(nat, nat)> {
    match p {
        None => None,
        Some((x, y)) => Some((big_value(x), big_value(y))),
    }
}

/// The point that the chord or tangent of slope `lam` through `(x1, y1)`
/// meets the curve in, reflected: `xr = lam^2 - x1 - x2` and
/// `yr = lam (x1 - xr) - y1`.
pub open spec fn third_point(lam: nat, x1: nat, y1: nat, x2: nat) -> (nat, nat) {
    let xr = field_sub(field_sub(field_mul(lam, lam), x1), x2);
    let yr = field_sub(field_mul(lam, field_sub(x1, xr)), y1);
    (xr, yr)
}

/// The slope of the chord through two points with different `x`.  Between
/// reduced coordinates that differ the denominator is never zero.
pub open spec fn chord_slope(x1: nat, y1: nat, x2: nat, y2: nat) -> nat {
    field_mul(field_sub(y2, y1), field_inv(field_sub(x2, x1)))
}

/// The slope of the tangent at `(x1, y1)`: `3 x1^2 / (2 y1)`.
pub open spec fn tangent_slope(x1: nat, y1: nat) -> nat {
    field_mul(field_mul(3, field_mul(x1, x1)), field_inv(field_mul(2, y1)))
}

/// The group law in affine coordinates.
///
/// Infinity is the identity.  Two points with the same `x` whose `y` add up
/// to zero are inverses.  Two points with different `x` are joined by a
/// chord.  Otherwise the tangent at the first point is taken, and a vertical
/// tangent gives infinity.
pub open spec fn affine_sum(a: Option<(nat, nat)>, b: Option<(nat, nat)>) -> Option<(nat, nat)> {
    match (a, b) {
        (None, _) => b,
        (_, None) => a,
        (Some((x1, y1)), Some((x2, y2))) => {
            if x1 == x2 && field_add(y1, y2) == 0 {
                None
            } else if x1 != x2 {
                Some(third_point(chord_slope(x1, y1, x2, y2), x1, y1, x2))
            } else if field_mul(2, y1) == 0 {
                None
            } else {
                Some(third_point(tangent_slope(x1, y1), x1, y1, x2))
            }
        },
    }
}

/// The field modulus `p = 2^256 - 2^32 - 977`.
pub fn modp() -> (r: BigUint)
    ensures
        big_value(r) == field_modulus(),
{
    let one = big_one();
    let hi = big_shl(&one, 256);
    let lo = big_shl(&one, 32);
    let c = big_from_u32(977);
    proof {
        lemma2_to64();
        lemma_pow2_adds(64, 64);
        lemma_pow2_adds(128, 128);
        let h: nat = 0x100000000000000000000000000000000nat;
        assert(pow2(128) == h);
        assert(h * h == 0x10000000000000000000000000000000000000000000000000000000000000000nat)
            by (nonlinear_arith)
            requires
                h == 0x100000000000000000000000000000000nat,
        ;
        assert(pow2(256) == h * h);
    }
    let d = big_sub(&hi, &lo);
    big_sub(&d, &c)
}

/// Modular addition: `(a + b) mod p`.
pub fn mod_add(a: &BigUint, b: &BigUint) -> (r: BigUint)
    ensures
        big_value(r) == field_add(big_value(*a), big_value(*b)),
{
    let p = modp();
    let s = big_add(a, b);
    big_rem(&s, &p)
}

/// Modular subtraction: `(a - b) mod p`, whichever operand is the larger.
pub fn mod_sub(a: &BigUint, b: &BigUint) -> (r: BigUint)
    ensures
        big_value(r) == field_sub(big_value(*a), big_value(*b)),
{
    let p = modp();
    if big_ge(a, b) {
        let d = big_sub(a, b);
        big_rem(&d, &p)
    } else {
        let d = big_sub(b, a);
        let m = big_rem(&d, &p);
        let e = big_sub(&p, &m);
        proof {
            let pv = field_modulus() as int;
            let dv = big_value(d) as int;
            lemma_sub_mod_noop_right(pv, dv, pv);
            lemma_mod_add_multiples_vanish(-dv, pv);
        }
        big_rem(&e, &p)
    }
}

/// Modular multiplication: `(a * b) mod p`.
pub fn mod_mul(a: &BigUint, b: &BigUint) -> (r: BigUint)
    ensures
        big_value(r) == field_mul(big_value(*a), big_value(*b)),
{
    let p = modp();
    let s = big_mul(a, b);
    big_rem(&s, &p)
}

/// The power `a^(p-2) mod p`, which is the inverse of `a` unless `a` is a
/// multiple of `p`, and zero then.
pub(crate) fn fermat_power(a: &BigUint) -> (r: BigUint)
    ensures
        big_value(r) == field_inv(big_value(*a)),
{
    let p = modp();
    let two = big_from_u32(2);
    let e = big_sub(&p, &two);
    big_modpow(a, &e, &p)
}

/// Modular inverse `a^(p-2) mod p`.  Zero has no inverse and is rejected.
/// For every other value that is not a multiple of `p`, the result times
/// the value is one in the field.
pub fn mod_inv(a: &BigUint) -> (r: Result<BigUint, FieldError>)
    ensures
        big_value(*a) == 0 ==> r is Err && r->Err_0 == FieldError::InvalidInput,
        big_value(*a) != 0 ==> r is Ok && big_value(r->Ok_0) == field_inv(big_value(*a)),
        big_value(*a) % field_modulus() != 0 ==> r is Ok && field_mul(
            big_value(*a),
            big_value(r->Ok_0),
        ) == 1,
{
    if big_is_zero(a) {
        proof {
            lemma_small_mod(0, field_modulus());
        }
        Err(FieldError::InvalidInput)
    } else {
        proof {
            if big_value(*a) % field_modulus() != 0 {
                lemma_inverse(big_value(*a));
                lemma_small_mod(1, field_modulus());
            }
        }
        Ok(fermat_power(a))
    }
}

/// From a slope and the two points it was taken from, the sum of the points.
fn finish_add(lam: &BigUint, x1: &BigUint, y1: &BigUint, x2: &BigUint) -> (r: (BigUint, BigUint))
    ensures
        (big_value(r.0), big_value(r.1)) == third_point(
            big_value(*lam),
            big_value(*x1),
            big_value(*y1),
            big_value(*x2),
        ),
{
    let l2 = mod_mul(lam, lam);
    let t = mod_sub(&l2, x1);
    let xr = mod_sub(&t, x2);
    let u = mod_sub(x1, &xr);
    let v = mod_mul(lam, &u);
    let yr = mod_sub(&v, y1);
    (xr, yr)
}

/// A copy of a point.
pub(crate) fn clone_point(a: &Point) -> (r: Point)
    ensures
        point_value(r) == point_value(*a),
{
    match a {
        None => None,
        Some(p) => Some((big_clone(&p.0), big_clone(&p.1))),
    }
}

/// Addition of two affine points by the group law of the curve.
pub fn affine_add(a: &Point, b: &Point) -> (r: Point)
    ensures
        point_value(r) == affine_sum(point_value(*a), point_value(*b)),
{
    match a {
        None => clone_point(b),
        Some(p) => match b {
            None => clone_point(a),
            Some(q) => {
                let x1 = &p.0;
                let y1 = &p.1;
                let x2 = &q.0;
                let y2 = &q.1;
                let same_x = big_eq(x1, x2);
                if same_x {
                    let s = mod_add(y1, y2);
                    if big_is_zero(&s) {
                        return None;
                    }
                }
                if !same_x {
                    let num = mod_sub(y2, y1);
                    let den = mod_sub(x2, x1);
                    let lam = mod_mul(&num, &fermat_power(&den));
                    Some(finish_add(&lam, x1, y1, x2))
                } else {
                    let three = big_from_u32(3);
                    let two = big_from_u32(2);
                    let num = mod_mul(&three, &mod_mul(x1, x1));
                    let den = mod_mul(&two, y1);
                    if big_is_zero(&den) {
                        return None;
                    }
                    let lam = mod_mul(&num, &fermat_power(&den));
                    Some(finish_add(&lam, x1, y1, x2))
                }
            },
        },
    }
}

} // verus!
