//! Point addition and doubling in Jacobian coordinates.
//!
//! A triple `(X, Y, Z)` stands for the affine point `(X / Z^2, Y / Z^3)`,
//! and for the point at infinity when `Z` is zero.

use crate::affine::{fermat_power, mod_add, mod_mul, mod_sub, point_value, Point};
use crate::big::{big_eq, big_from_u32, big_is_zero, big_value};
use crate::field::{field_add, field_inv, field_mul, field_sub};
use num_bigint::BigUint;
use vstd::prelude::*;

verus! {

/// The coordinates of a Jacobian triple as natural numbers.
pub open spec fn jacobian_value(j: (BigUint, BigUint, BigUint)) -> (nat, nat, nat) {
    (big_value(j.0), big_value(j.1), big_value(j.2))
}

/// The affine point that a Jacobian triple stands for: infinity when `Z` is
/// zero, otherwise `(X / Z^2, Y / Z^3)`.
pub open spec fn jacobian_to_affine(j: (nat, nat, nat)) -> Option<(nat, nat)> {
    let (x, y, z) = j;
    if z == 0 {
        None
    } else {
        let zi = field_inv(z);
        let zi2 = field_mul(zi, zi);
        let zi3 = field_mul(zi2, zi);
        Some((field_mul(x, zi2), field_mul(y, zi3)))
    }
}

/// The triple that doubling computes from `(X, Y, Z)` with `Y` not zero:
/// `S = 4 X Y^2`, `M = 3 X^2`, `X3 = M^2 - 2 S`,
/// `Y3 = M (S - X3) - 8 Y^4`, `Z3 = 2 Y Z`.
pub open spec fn doubled_triple(j: (nat, nat, nat)) -> (nat, nat, nat) {
    let (x, y, z) = j;
    let yy = field_mul(y, y);
    let yyyy = field_mul(yy, yy);
    let s = field_mul(field_mul(4, x), yy);
    let m = field_mul(3, field_mul(x, x));
    let x3 = field_sub(field_mul(m, m), field_add(s, s));
    let y3 = field_sub(field_mul(m, field_sub(s, x3)), field_mul(8, yyyy));
    let z3 = field_mul(2, field_mul(y, z));
    (x3, y3, z3)
}

/// Doubling of a Jacobian point, as an affine point: infinity when `Y` is
/// zero, otherwise the doubled triple brought back to affine coordinates.
pub open spec fn jacobian_doubling(j: (nat, nat, nat)) -> Option<(nat, nat)> {
    if j.1 == 0 {
        None
    } else {
        jacobian_to_affine(doubled_triple(j))
    }
}

/// The triple that addition computes from two triples with `U1 != U2`,
/// where `U1 = X1 Z2^2`, `U2 = X2 Z1^2`, `S1 = Y1 Z2^3`, `S2 = Y2 Z1^3`:
/// with `H = U2 - U1` and `R = S2 - S1`,
/// `X3 = R^2 - H^3 - 2 U1 H^2`, `Y3 = R (U1 H^2 - X3) - S1 H^3`,
/// `Z3 = Z1 Z2 H`.
pub open spec fn added_triple(u1: nat, u2: nat, s1: nat, s2: nat, z1: nat, z2: nat) -> (
    nat,
    nat,
    nat,
) {
    let h = field_sub(u2, u1);
    let r = field_sub(s2, s1);
    let h2 = field_mul(h, h);
    let h3 = field_mul(h2, h);
    let u1h2 = field_mul(u1, h2);
    let x3 = field_sub(field_sub(field_mul(r, r), h3), field_add(u1h2, u1h2));
    let y3 = field_sub(field_mul(r, field_sub(u1h2, x3)), field_mul(s1, h3));
    let z3 = field_mul(field_mul(z1, z2), h);
    (x3, y3, z3)
}

/// `X Z'^2`: an `X` brought to the common denominator with another point
/// whose `Z` is `z_other`.
pub open spec fn scaled_x(x: nat, z_other: nat) -> nat {
    field_mul(x, field_mul(z_other, z_other))
}

/// `Y Z'^3`: a `Y` brought to the common denominator with another point
/// whose `Z` is `z_other`.
pub open spec fn scaled_y(y: nat, z_other: nat) -> nat {
    field_mul(y, field_mul(field_mul(z_other, z_other), z_other))
}

/// Addition of two Jacobian points, as an affine point.
///
/// A point at infinity gives the other point.  Two points with the same
/// `U` are inverses when their `S` differ and equal otherwise, in which case
/// the first is doubled.
pub open spec fn jacobian_sum(p: (nat, nat, nat), q: (nat, nat, nat)) -> Option<(nat, nat)> {
    let (x1, y1, z1) = p;
    let (x2, y2, z2) = q;
    if z1 == 0 {
        jacobian_to_affine(q)
    } else if z2 == 0 {
        jacobian_to_affine(p)
    } else {
        let u1 = scaled_x(x1, z2);
        let u2 = scaled_x(x2, z1);
        let s1 = scaled_y(y1, z2);
        let s2 = scaled_y(y2, z1);
        if u1 == u2 {
            if s1 != s2 {
                None
            } else {
                jacobian_doubling(p)
            }
        } else {
            jacobian_to_affine(added_triple(u1, u2, s1, s2, z1, z2))
        }
    }
}

/// Conversion of a Jacobian triple to the affine point it stands for.
pub fn to_affine(j: &(BigUint, BigUint, BigUint)) -> (r: Point)
    ensures
        point_value(r) == jacobian_to_affine(jacobian_value(*j)),
{
    let x = &j.0;
    let y = &j.1;
    let z = &j.2;
    if big_is_zero(z) {
        return None;
    }
    let z_inv = fermat_power(z);
    let z2 = mod_mul(&z_inv, &z_inv);
    let z3 = mod_mul(&z2, &z_inv);
    Some((mod_mul(x, &z2), mod_mul(y, &z3)))
}

/// Addition of two Jacobian points; the sum is returned in affine
/// coordinates.
pub fn jacobian_add(p: &(BigUint, BigUint, BigUint), q: &(BigUint, BigUint, BigUint)) -> (r: Point)
    ensures
        point_value(r) == jacobian_sum(jacobian_value(*p), jacobian_value(*q)),
{
    let x1 = &p.0;
    let y1 = &p.1;
    let z1 = &p.2;
    let x2 = &q.0;
    let y2 = &q.1;
    let z2 = &q.2;

    if big_is_zero(z1) {
        return to_affine(q);
    }
    if big_is_zero(z2) {
        return to_affine(p);
    }
    let z1z1 = mod_mul(z1, z1);
    let z2z2 = mod_mul(z2, z2);

    let u1 = mod_mul(x1, &z2z2);
    let u2 = mod_mul(x2, &z1z1);

    let z1z1z1 = mod_mul(&z1z1, z1);
    let z2z2z2 = mod_mul(&z2z2, z2);

    let s1 = mod_mul(y1, &z2z2z2);
    let s2 = mod_mul(y2, &z1z1z1);

    if big_eq(&u1, &u2) {
        if !big_eq(&s1, &s2) {
            return None;
        }
        return jacobian_double(p);
    }
    let h = mod_sub(&u2, &u1);
    let r = mod_sub(&s2, &s1);

    let h2 = mod_mul(&h, &h);
    let h3 = mod_mul(&h2, &h);
    let u1h2 = mod_mul(&u1, &h2);

    let x3 = mod_sub(&mod_sub(&mod_mul(&r, &r), &h3), &mod_add(&u1h2, &u1h2));
    let y3 = mod_sub(&mod_mul(&r, &mod_sub(&u1h2, &x3)), &mod_mul(&s1, &h3));
    let z3 = mod_mul(&mod_mul(z1, z2), &h);

    to_affine(&(x3, y3, z3))
}

/// Doubling of a Jacobian point; the result is returned in affine
/// coordinates.
pub fn jacobian_double(p: &(BigUint, BigUint, BigUint)) -> (r: Point)
    ensures
        point_value(r) == jacobian_doubling(jacobian_value(*p)),
{
    let x = &p.0;
    let y = &p.1;
    let z = &p.2;

    if big_is_zero(y) {
        return None;
    }
    let yy = mod_mul(y, y);
    let yyyy = mod_mul(&yy, &yy);

    let s = mod_mul(&mod_mul(&big_from_u32(4), x), &yy);
    let m = mod_mul(&big_from_u32(3), &mod_mul(x, x));

    let x3 = mod_sub(&mod_mul(&m, &m), &mod_add(&s, &s));
    let y3 = mod_sub(&mod_mul(&m, &mod_sub(&s, &x3)), &mod_mul(&big_from_u32(8), &yyyy));
    let z3 = mod_mul(&big_from_u32(2), &mod_mul(y, z));

    to_affine(&(x3, y3, z3))
}

} // verus!
