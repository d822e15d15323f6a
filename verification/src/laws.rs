//! Laws that relate the operations of the library to one another.

use crate::affine::{affine_sum, chord_slope, tangent_slope, third_point};
use crate::curve::{
    lemma_addition_represents, lemma_chord_on_curve, lemma_doubling_represents,
    lemma_lift_represents, lemma_lift_valid, lemma_represented_on_curve,
    lemma_represented_y_zero, lemma_same_x, lemma_scaled_compare,
    lemma_tangent_on_curve, lemma_to_affine_of_represented, lemma_to_affine_represents,
    reduced_point, valid_jacobian, valid_point,
};
use crate::field::{field_add, field_inv, field_modulus, field_mul, field_sub};
use crate::inverse::lemma_inverse;
use crate::jacobian::{
    doubled_triple, jacobian_doubling, jacobian_sum, jacobian_to_affine, scaled_x, scaled_y,
};
use crate::modular::{
    is_zero_mod, lemma_congruent_mul, lemma_field_add, lemma_field_mul,
    lemma_field_sub, lemma_reduced_zero,
};
use crate::scalar_mul::{affine_multiple, jacobian_accumulator, jacobian_multiple, lift};
use vstd::arithmetic::div_mod::{lemma_add_mod_noop_right, lemma_mod_self_0, lemma_small_mod};
use vstd::prelude::*;

verus! {

/// The negation of `y` in the field: `(p - y) mod p`.
pub open spec fn field_neg(y: nat) -> nat {
    ((field_modulus() - y) % (field_modulus() as int)) as nat
}

/// The point at infinity is the identity of affine addition, on either
/// side.
pub proof fn law_affine_identity(a: Option<(nat, nat)>)
    ensures
        affine_sum(a, None) == a,
        affine_sum(None, a) == a,
{
}

/// A finite point and the point with the same `x` and the negated `y` add
/// up to infinity.
pub proof fn law_affine_inverse(x: nat, y: nat)
    ensures
        affine_sum(Some((x, y)), Some((x, field_neg(y)))) == None::<(nat, nat)>,
{
    let p = field_modulus() as int;
    lemma_add_mod_noop_right(y as int, p - y, p);
    lemma_mod_self_0(p);
    assert(field_add(y, field_neg(y)) == 0);
}

/// The inverse of a field element that is not a multiple of `p`, times the
/// element, is one.
pub proof fn law_field_inverse(a: nat)
    requires
        a % field_modulus() != 0,
    ensures
        field_mul(a, field_inv(a)) == 1,
{
    lemma_inverse(a);
    lemma_small_mod(1, field_modulus());
}

/// Zero times any point is infinity, in both coordinate systems.
pub proof fn law_zero_scalar(a: (nat, nat))
    ensures
        affine_multiple(0, a) == None::<(nat, nat)>,
        jacobian_multiple(0, a) == None::<(nat, nat)>,
{
}

/// Twice a point is the point added to itself, and three times a point is
/// that sum plus the point once more.
pub proof fn law_affine_small_multiples(a: (nat, nat))
    ensures
        affine_multiple(1, a) == Some(a),
        affine_multiple(2, a) == affine_sum(Some(a), Some(a)),
        affine_multiple(3, a) == affine_sum(affine_sum(Some(a), Some(a)), Some(a)),
{
    reveal_with_fuel(affine_multiple, 3);
}

/// Doubling agrees in both coordinate systems: a finite point added to
/// itself in affine coordinates is the doubling of its lift in Jacobian
/// coordinates.
pub proof fn law_doubling_agrees(a: (nat, nat))
    ensures
        affine_sum(Some(a), Some(a)) == jacobian_doubling(lift(a)),
{
    let y = a.1 as int;
    lemma_field_add(a.1, a.1);
    lemma_reduced_zero(field_add(a.1, a.1));
    assert(y + y == 2 * y);
    if is_zero_mod(y) {
        lemma_congruent_mul(2, 2, y, 0);
        assert(is_zero_mod(2 * y));
        assert(affine_sum(Some(a), Some(a)) == None::<(nat, nat)>);
        if a.1 != 0 {
            let yz = field_mul(a.1, 1);
            let z3 = field_mul(2, yz);
            lemma_field_mul(a.1, 1);
            lemma_field_mul(2, yz);
            assert(y * 1 == y);
            lemma_congruent_mul(2, 2, yz as int, 0);
            lemma_reduced_zero(z3);
            assert(doubled_triple(lift(a)).2 == z3);
        }
    } else {
        lemma_lift_represents(a);
        lemma_doubling_represents(lift(a), a);
        lemma_to_affine_of_represented(
            doubled_triple(lift(a)),
            third_point(tangent_slope(a.0, a.1), a.0, a.1, a.0),
        );
        assert(a.1 != 0) by {
            assert(0int % (field_modulus() as int) == 0);
        }
    }
}

/// Addition agrees in both coordinate systems: for valid Jacobian triples,
/// the sum computed in Jacobian coordinates is the affine sum of the points
/// the triples stand for.
pub proof fn law_addition_agrees(p: (nat, nat, nat), q: (nat, nat, nat))
    requires
        valid_jacobian(p),
        valid_jacobian(q),
    ensures
        jacobian_sum(p, q) == affine_sum(jacobian_to_affine(p), jacobian_to_affine(q)),
{
    if p.2 != 0 && q.2 != 0 {
        lemma_reduced_zero(p.2);
        lemma_reduced_zero(q.2);
        lemma_to_affine_represents(p);
        lemma_to_affine_represents(q);
        let a1 = jacobian_to_affine(p)->Some_0;
        let a2 = jacobian_to_affine(q)->Some_0;
        lemma_represented_on_curve(p, a1);
        lemma_represented_on_curve(q, a2);
        lemma_scaled_compare(p, q, a1, a2);
        let u1 = scaled_x(p.0, q.2);
        let u2 = scaled_x(q.0, p.2);
        let s1 = scaled_y(p.1, q.2);
        let s2 = scaled_y(q.1, p.2);
        if u1 == u2 {
            lemma_same_x(a1, a2);
            if s1 == s2 {
                lemma_represented_y_zero(p, a1);
                lemma_reduced_zero(p.1);
                lemma_reduced_zero(a1.1);
                if p.1 == 0 {
                    assert(field_add(0, 0) == 0) by {
                        lemma_small_mod(0, field_modulus());
                    }
                } else {
                    lemma_doubling_represents(p, a1);
                    lemma_to_affine_of_represented(
                        doubled_triple(p),
                        third_point(tangent_slope(a1.0, a1.1), a1.0, a1.1, a1.0),
                    );
                }
            }
        } else {
            lemma_small_mod(a1.0, field_modulus());
            lemma_small_mod(a2.0, field_modulus());
            lemma_addition_represents(p, q, a1, a2);
            lemma_to_affine_of_represented(
                crate::jacobian::added_triple(u1, u2, s1, s2, p.2, q.2),
                third_point(chord_slope(a1.0, a1.1, a2.0, a2.1), a1.0, a1.1, a2.0),
            );
        }
    }
}

/// The third point of any line has reduced coordinates.
proof fn lemma_third_point_reduced(lam: nat, x1: nat, y1: nat, x2: nat)
    ensures
        reduced_point(third_point(lam, x1, y1, x2)),
{
    let xr = field_sub(field_sub(field_mul(lam, lam), x1), x2);
    lemma_field_sub(field_sub(field_mul(lam, lam), x1), x2);
    lemma_field_sub(field_mul(lam, field_sub(x1, xr)), y1);
}

/// The affine sum of two valid points is infinity or a valid point.
pub proof fn lemma_affine_sum_valid(a: (nat, nat), b: (nat, nat))
    requires
        valid_point(a),
        valid_point(b),
    ensures
        affine_sum(Some(a), Some(b)) is Some ==> valid_point(affine_sum(Some(a), Some(b))->Some_0),
{
    lemma_small_mod(a.0, field_modulus());
    lemma_small_mod(b.0, field_modulus());
    if a.0 != b.0 {
        lemma_third_point_reduced(chord_slope(a.0, a.1, b.0, b.1), a.0, a.1, b.0);
        lemma_chord_on_curve(a, b);
    } else if field_add(a.1, b.1) != 0 && field_mul(2, a.1) != 0 {
        lemma_same_x(a, b);
        lemma_third_point_reduced(tangent_slope(a.0, a.1), a.0, a.1, a.0);
        lemma_field_mul(2, a.1);
        lemma_reduced_zero(field_mul(2, a.1));
        if is_zero_mod(a.1 as int) {
            lemma_congruent_mul(2, 2, a.1 as int, 0);
        }
        lemma_tangent_on_curve(a);
    }
}

/// Both double-and-add accumulators hold the same point after the digits of
/// `k`, and it is infinity or a valid point.
pub proof fn lemma_accumulators_agree(k: nat, a: (nat, nat))
    requires
        valid_point(a),
    ensures
        jacobian_accumulator(k, a) == affine_multiple(k, a),
        affine_multiple(k, a) is Some ==> valid_point(affine_multiple(k, a)->Some_0),
    decreases k,
{
    if k != 0 {
        lemma_accumulators_agree(k / 2, a);
        let acc = affine_multiple(k / 2, a);
        let doubled = affine_sum(acc, acc);
        if acc is Some {
            let c = acc->Some_0;
            law_doubling_agrees(c);
            lemma_affine_sum_valid(c, c);
        }
        if k % 2 == 1 && doubled is Some {
            let d = doubled->Some_0;
            lemma_lift_valid(d);
            lemma_lift_valid(a);
            law_addition_agrees(lift(d), lift(a));
            lemma_lift_represents(d);
            lemma_lift_represents(a);
            lemma_to_affine_of_represented(lift(d), d);
            lemma_to_affine_of_represented(lift(a), a);
            lemma_affine_sum_valid(d, a);
        }
    }
}

/// Scalar multiplication agrees in both coordinate systems, for every
/// scalar and every valid finite point.
pub proof fn law_scalar_mul_agrees(k: nat, a: (nat, nat))
    requires
        valid_point(a),
    ensures
        jacobian_multiple(k, a) == affine_multiple(k, a),
{
    lemma_accumulators_agree(k, a);
    if affine_multiple(k, a) is Some {
        let c = affine_multiple(k, a)->Some_0;
        lemma_lift_represents(c);
        lemma_to_affine_of_represented(lift(c), c);
    }
}

/// In Jacobian coordinates too, twice a valid point is the point added to
/// itself, and three times the point is that sum plus the point.
pub proof fn law_jacobian_small_multiples(a: (nat, nat))
    requires
        valid_point(a),
    ensures
        jacobian_multiple(2, a) == affine_sum(Some(a), Some(a)),
        jacobian_multiple(3, a) == affine_sum(affine_sum(Some(a), Some(a)), Some(a)),
{
    law_scalar_mul_agrees(2, a);
    law_scalar_mul_agrees(3, a);
    law_affine_small_multiples(a);
}

} // verus!
