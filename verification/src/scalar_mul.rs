//! Scalar multiplication by double-and-add over the bits of the scalar, most
//! significant first, in affine and in Jacobian coordinates.

use crate::affine::{affine_add, affine_sum, clone_point, point_value, Point};
use crate::big::{big_bit, big_bits, big_clone, big_is_zero, big_one, big_value};
use crate::bits::{
    bits_above, lemma_bits_above_length, lemma_bits_above_step, lemma_bits_above_zero,
};
use crate::jacobian::{
    jacobian_add, jacobian_double, jacobian_doubling, jacobian_sum, jacobian_to_affine, to_affine,
};
use num_bigint::BigUint;
use vstd::prelude::*;

verus! {

/// Double-and-add in affine coordinates.
///
/// The accumulator for the digits of `k` is the accumulator for all digits
/// but the last, doubled, plus `p` when the last digit is one.  It starts at
/// infinity.
pub open spec fn affine_multiple(k: nat, p: (nat, nat)) -> Option<(nat, nat)>
    decreases k,
{
    if k == 0 {
        None
    } else {
        let acc = affine_multiple(k / 2, p);
        let doubled = affine_sum(acc, acc);
        if k % 2 == 1 {
            affine_sum(doubled, Some(p))
        } else {
            doubled
        }
    }
}

/// The affine point lifted to Jacobian coordinates with `Z = 1`.
pub open spec fn lift(p: (nat, nat)) -> (nat, nat, nat) {
    (p.0, p.1, 1)
}

/// The accumulator of double-and-add in Jacobian coordinates, without its
/// `Z`, which is always one; `None` while it is not set.
///
/// A set accumulator is doubled for every digit.  For a digit one, `p` is
/// added to a set accumulator, and an accumulator that is not set becomes
/// `p`.  A doubling or an addition that yields infinity leaves it not set.
pub open spec fn jacobian_accumulator(k: nat, p: (nat, nat)) -> Option<(nat, nat)>
    decreases k,
{
    if k == 0 {
        None
    } else {
        let doubled = match jacobian_accumulator(k / 2, p) {
            None => None,
            Some(acc) => jacobian_doubling(lift(acc)),
        };
        if k % 2 == 1 {
            match doubled {
                None => Some(p),
                Some(acc) => jacobian_sum(lift(acc), lift(p)),
            }
        } else {
            doubled
        }
    }
}

/// Double-and-add in Jacobian coordinates: the final accumulator brought
/// back to affine coordinates.
pub open spec fn jacobian_multiple(k: nat, p: (nat, nat)) -> Option<(nat, nat)> {
    match jacobian_accumulator(k, p) {
        None => None,
        Some(acc) => jacobian_to_affine(lift(acc)),
    }
}

/// Scalar multiplication in affine coordinates: `k` times `point`, which is
/// infinity for `k = 0` and for the point at infinity.
pub fn affine_scalar_mul(k: &BigUint, point: &Point) -> (r: Point)
    ensures
        point_value(r) == match point_value(*point) {
            None => None,
            Some(p) => affine_multiple(big_value(*k), p),
        },
{
    if big_is_zero(k) || point.is_none() {
        return None;
    }
    let ghost kv = big_value(*k);
    let ghost pv = point_value(*point)->Some_0;
    let mut result: Point = None;
    let addend = clone_point(point);
    let n = big_bits(k);
    let mut i: u64 = n;
    proof {
        lemma_bits_above_length(kv);
    }
    while i > 0
        invariant
            kv == big_value(*k),
            point_value(addend) == Some(pv),
            point_value(result) == affine_multiple(bits_above(kv, i as nat), pv),
        decreases i,
    {
        proof {
            lemma_bits_above_step(kv, i as nat);
        }
        i = i - 1;
        if result.is_some() {
            result = affine_add(&result, &result);
        }
        if big_bit(k, i) {
            result = affine_add(&result, &addend);
        }
    }
    proof {
        lemma_bits_above_zero(kv);
    }
    result
}

/// The affine point as a Jacobian triple with `Z = 1`.
fn lift_point(x: BigUint, y: BigUint) -> (r: (BigUint, BigUint, BigUint))
    ensures
        big_value(r.0) == big_value(x),
        big_value(r.1) == big_value(y),
        big_value(r.2) == 1,
{
    (x, y, big_one())
}

/// The accumulator's value without its `Z`.
pub open spec fn accumulator_value(a: Option<(BigUint, BigUint, BigUint)>) -> Option<(nat, nat)> {
    match a {
        None => None,
        Some(t) => Some((big_value(t.0), big_value(t.1))),
    }
}

/// Whether the accumulator, if set, has `Z = 1`.
pub open spec fn accumulator_lifted(a: Option<(BigUint, BigUint, BigUint)>) -> bool {
    match a {
        None => true,
        Some(t) => big_value(t.2) == 1,
    }
}

/// An affine result as the next accumulator: lifted if finite, not set if
/// infinity.
fn relift(p: Point) -> (r: Option<(BigUint, BigUint, BigUint)>)
    ensures
        accumulator_value(r) == point_value(p),
        accumulator_lifted(r),
{
    match p {
        None => None,
        Some(xy) => Some(lift_point(xy.0, xy.1)),
    }
}

/// Scalar multiplication in Jacobian coordinates: `k` times `point`, which
/// is infinity for `k = 0`.
pub fn jacobian_scalar_mul(k: &BigUint, point: &(BigUint, BigUint)) -> (r: Point)
    ensures
        point_value(r) == jacobian_multiple(
            big_value(*k),
            (big_value(point.0), big_value(point.1)),
        ),
{
    if big_is_zero(k) {
        return None;
    }
    let ghost kv = big_value(*k);
    let ghost pv = (big_value(point.0), big_value(point.1));
    let mut result: Option<(BigUint, BigUint, BigUint)> = None;
    let addend = lift_point(big_clone(&point.0), big_clone(&point.1));
    let n = big_bits(k);
    let mut i: u64 = n;
    proof {
        lemma_bits_above_length(kv);
    }
    while i > 0
        invariant
            kv == big_value(*k),
            (big_value(addend.0), big_value(addend.1)) == pv,
            big_value(addend.2) == 1,
            accumulator_lifted(result),
            accumulator_value(result) == jacobian_accumulator(bits_above(kv, i as nat), pv),
        decreases i,
    {
        proof {
            lemma_bits_above_step(kv, i as nat);
        }
        i = i - 1;
        result = match &result {
            None => None,
            Some(acc) => relift(jacobian_double(acc)),
        };
        if big_bit(k, i) {
            result = match &result {
                None => Some(lift_point(big_clone(&addend.0), big_clone(&addend.1))),
                Some(acc) => relift(jacobian_add(acc, &addend)),
            };
        }
    }
    proof {
        lemma_bits_above_zero(kv);
    }
    match &result {
        None => None,
        Some(acc) => to_affine(acc),
    }
}

} // verus!
