//! The algebra that ties Jacobian coordinates to affine coordinates.
//!
//! A triple `(X, Y, Z)` represents the affine point `(x, y)` when `Z` is
//! invertible, `x Z^2 = X` and `y Z^3 = Y` in the field.  The statements
//! here are free of division; inverses enter only through cancellation.

use crate::affine::{chord_slope, tangent_slope, third_point};
use crate::field::{field_add, field_inv, field_modulus, field_mul, field_sub, is_reduced};
use crate::inverse::{
    lemma_cancel, lemma_inverse, lemma_no_zero_divisors, lemma_square_and_cube_nonzero,
    lemma_product_nonzero,
};
use crate::jacobian::{added_triple, doubled_triple, jacobian_to_affine, scaled_x, scaled_y};
use crate::modular::{
    congruent, is_zero_mod, lemma_congruent_add, lemma_congruent_cube,
    lemma_congruent_iff_difference, lemma_congruent_mul, lemma_congruent_mul3,
    lemma_congruent_square, lemma_congruent_sub, lemma_field_add, lemma_field_mul,
    lemma_field_sub, lemma_reduced_equal, lemma_reduced_zero,
};
use vstd::arithmetic::div_mod::lemma_small_mod;
use vstd::prelude::*;

verus! {

/// Whether the Jacobian triple `j` stands for the affine point `a`.
pub open spec fn represents(j: (nat, nat, nat), a: (nat, nat)) -> bool {
    let z = j.2 as int;
    &&& !is_zero_mod(z)
    &&& congruent(a.0 * z * z, j.0 as int)
    &&& congruent(a.1 * z * z * z, j.1 as int)
}

/// Whether both coordinates are reduced.
pub open spec fn reduced_point(a: (nat, nat)) -> bool {
    is_reduced(a.0) && is_reduced(a.1)
}

/// Small constants are not multiples of `p`.
pub proof fn lemma_small_constants()
    ensures
        !is_zero_mod(1),
        !is_zero_mod(2),
{
    lemma_small_mod(1, field_modulus());
    lemma_small_mod(2, field_modulus());
}

/// A triple with `Z = 1` represents the point of its `X` and `Y`.
pub proof fn lemma_lift_represents(a: (nat, nat))
    ensures
        represents((a.0, a.1, 1), a),
{
    lemma_small_constants();
    assert(a.0 * 1 * 1 == a.0);
    assert(a.1 * 1 * 1 * 1 == a.1);
}

/// Two reduced points that one triple represents are equal.
pub proof fn lemma_represents_unique(j: (nat, nat, nat), a: (nat, nat), b: (nat, nat))
    requires
        represents(j, a),
        represents(j, b),
        reduced_point(a),
        reduced_point(b),
    ensures
        a == b,
{
    let z = j.2 as int;
    lemma_square_and_cube_nonzero(z);
    assert(a.0 * z * z == a.0 * (z * z) && b.0 * z * z == b.0 * (z * z)) by (nonlinear_arith);
    assert(a.1 * z * z * z == a.1 * (z * z * z) && b.1 * z * z * z == b.1 * (z * z * z))
        by (nonlinear_arith);
    lemma_cancel(a.0 as int, b.0 as int, z * z);
    lemma_cancel(a.1 as int, b.1 as int, z * z * z);
    lemma_reduced_equal(a.0, b.0);
    lemma_reduced_equal(a.1, b.1);
}

/// The conversion to affine coordinates yields a reduced point that the
/// triple represents.
pub proof fn lemma_to_affine_represents(j: (nat, nat, nat))
    requires
        !is_zero_mod(j.2 as int),
    ensures
        jacobian_to_affine(j) is Some,
        represents(j, jacobian_to_affine(j)->Some_0),
        reduced_point(jacobian_to_affine(j)->Some_0),
{
    let x = j.0 as int;
    let y = j.1 as int;
    let z = j.2 as int;
    assert(j.2 != 0) by {
        assert(0int % (field_modulus() as int) == 0);
    }
    lemma_inverse(j.2);
    let zn = field_inv(j.2);
    let zi = zn as int;
    let zi2 = field_mul(zn, zn);
    let zi3 = field_mul(zi2, zn);
    let ax = field_mul(j.0, zi2);
    let ay = field_mul(j.1, zi3);
    lemma_field_mul(zn, zn);
    lemma_field_mul(zi2, zn);
    lemma_field_mul(j.0, zi2);
    lemma_field_mul(j.1, zi3);
    let w = z * zi;
    // x-coordinate
    lemma_congruent_mul(x, x, zi2 as int, zi * zi);
    lemma_congruent_mul3(ax as int, x * (zi * zi), z, z, z, z);
    assert(x * (zi * zi) * z * z == x * w * w) by (nonlinear_arith)
        requires
            w == z * zi,
    ;
    lemma_congruent_mul3(x, x, w, 1, w, 1);
    assert(x * 1 * 1 == x);
    // y-coordinate
    lemma_congruent_mul(zi2 as int, zi * zi, zi, zi);
    lemma_congruent_mul(y, y, zi3 as int, zi * zi * zi);
    lemma_congruent_mul3(ay as int, y * (zi * zi * zi), z * z, z * z, z, z);
    assert(ay * z * z * z == ay * (z * z) * z) by (nonlinear_arith);
    assert(y * (zi * zi * zi) * (z * z) * z == y * w * (w * w)) by (nonlinear_arith)
        requires
            w == z * zi,
    ;
    lemma_congruent_mul(w, 1, w, 1);
    lemma_congruent_mul3(y, y, w, 1, w * w, 1);
    assert(y * 1 * 1 == y);
}

/// The conversion to affine coordinates of a triple that represents a
/// reduced point yields that point.
pub proof fn lemma_to_affine_of_represented(j: (nat, nat, nat), a: (nat, nat))
    requires
        represents(j, a),
        reduced_point(a),
    ensures
        jacobian_to_affine(j) == Some(a),
{
    lemma_to_affine_represents(j);
    lemma_represents_unique(j, a, jacobian_to_affine(j)->Some_0);
}

/// The third point under a common denominator.
///
/// If, with a denominator `z`, the slope times `z` is `m`, the two `x`
/// times `z^2` are `b1` and `b2`, and `y1` times `z^3` is `c`, then the
/// third point times the same powers of `z` is `m^2 - b1 - b2` and
/// `m (b1 - xr z^2) - c`.
pub proof fn lemma_third_point_scaled(
    lam: nat,
    x1: nat,
    y1: nat,
    x2: nat,
    z: int,
    m: int,
    b1: int,
    b2: int,
    c: int,
)
    requires
        congruent(lam * z, m),
        congruent(x1 * z * z, b1),
        congruent(x2 * z * z, b2),
        congruent(y1 * z * z * z, c),
    ensures
        reduced_point(third_point(lam, x1, y1, x2)),
        congruent(third_point(lam, x1, y1, x2).0 * z * z, m * m - b1 - b2),
        congruent(third_point(lam, x1, y1, x2).1 * z * z * z, m * (b1 - (m * m - b1 - b2)) - c),
{
    let l = lam as int;
    let ll = field_mul(lam, lam);
    let t = field_sub(ll, x1);
    let xr = field_sub(t, x2);
    let u = field_sub(x1, xr);
    let v = field_mul(lam, u);
    let yr = field_sub(v, y1);
    lemma_field_mul(lam, lam);
    lemma_field_sub(ll, x1);
    lemma_field_sub(t, x2);
    lemma_field_sub(x1, xr);
    lemma_field_mul(lam, u);
    lemma_field_sub(v, y1);
    // xr = lam^2 - x1 - x2
    lemma_congruent_sub(ll as int, l * l, x1 as int, x1 as int);
    lemma_congruent_sub(t as int, l * l - x1, x2 as int, x2 as int);
    let xe = l * l - x1 - x2;
    assert(congruent(xr as int, xe));
    lemma_congruent_mul3(xr as int, xe, z, z, z, z);
    assert(xe * z * z == (l * z) * (l * z) - x1 * z * z - x2 * z * z) by (nonlinear_arith)
        requires
            xe == l * l - x1 - x2,
    ;
    lemma_congruent_mul(l * z, m, l * z, m);
    lemma_congruent_sub((l * z) * (l * z), m * m, x1 * z * z, b1);
    lemma_congruent_sub((l * z) * (l * z) - x1 * z * z, m * m - b1, x2 * z * z, b2);
    let x3 = m * m - b1 - b2;
    assert(congruent(xr * z * z, x3));
    // yr = lam (x1 - xr) - y1
    lemma_congruent_mul(l, l, u as int, x1 - xr);
    lemma_congruent_sub(v as int, l * (x1 - xr), y1 as int, y1 as int);
    let ye = l * (x1 - xr) - y1;
    assert(congruent(yr as int, ye));
    lemma_congruent_mul(yr as int, ye, z * z * z, z * z * z);
    assert(yr * z * z * z == yr * (z * z * z)) by (nonlinear_arith);
    assert(ye * (z * z * z) == (l * z) * (x1 * z * z - xr * z * z) - y1 * z * z * z) by {
        let d = x1 - xr;
        let zz = z * z;
        let zzz = z * z * z;
        let lz = l * z;
        assert(ye * zzz == l * d * zzz - y1 * zzz) by (nonlinear_arith)
            requires
                ye == l * d - y1,
        ;
        assert(l * d * zzz == lz * (d * zz)) by (nonlinear_arith)
            requires
                zzz == z * z * z,
                zz == z * z,
                lz == l * z,
        ;
        assert(d * zz == x1 * zz - xr * zz) by (nonlinear_arith)
            requires
                d == x1 - xr,
        ;
        assert(x1 * zz == x1 * z * z && xr * zz == xr * z * z && y1 * zzz == y1 * z * z * z)
            by (nonlinear_arith)
            requires
                zzz == z * z * z,
                zz == z * z,
        ;
    }
    lemma_congruent_sub(x1 * z * z, b1, xr * z * z, x3);
    lemma_congruent_mul(l * z, m, x1 * z * z - xr * z * z, b1 - x3);
    lemma_congruent_sub((l * z) * (x1 * z * z - xr * z * z), m * (b1 - x3), y1 * z * z * z, c);
}

/// The affine `y` of a represented point is a multiple of `p` exactly when
/// the `Y` of the triple is.
pub proof fn lemma_represented_y_zero(j: (nat, nat, nat), a: (nat, nat))
    requires
        represents(j, a),
    ensures
        is_zero_mod(a.1 as int) <==> is_zero_mod(j.1 as int),
{
    let y = a.1 as int;
    let z = j.2 as int;
    lemma_square_and_cube_nonzero(z);
    assert(y * z * z * z == y * (z * z * z)) by (nonlinear_arith);
    if is_zero_mod(y) {
        lemma_congruent_mul(y, 0, z * z * z, z * z * z);
        assert(0 * (z * z * z) == 0);
    }
    if is_zero_mod(j.1 as int) {
        lemma_no_zero_divisors(y, z * z * z);
    }
}

/// The tangent slope `lam` at a point whose `y` is not zero satisfies
/// `lam * 2y = 3 x^2`.
pub proof fn lemma_tangent_slope(x: nat, y: nat)
    requires
        !is_zero_mod(y as int),
    ensures
        field_add(y, y) != 0,
        field_mul(2, y) != 0,
        congruent(tangent_slope(x, y) as int * (2 * (y as int)), 3 * ((x as int) * (x as int))),
{
    let xi = x as int;
    let yi = y as int;
    lemma_small_constants();
    lemma_product_nonzero(2, yi);
    let den = field_mul(2, y);
    lemma_field_mul(2, y);
    lemma_field_add(y, y);
    assert(yi + yi == 2 * yi);
    lemma_reduced_zero(den);
    lemma_reduced_zero(field_add(y, y));
    lemma_inverse(den);
    let di = field_inv(den) as int;
    let xx = field_mul(x, x);
    lemma_field_mul(x, x);
    let num = field_mul(3, xx);
    lemma_field_mul(3, xx);
    let lam = field_mul(num, field_inv(den)) as int;
    lemma_field_mul(num, field_inv(den));
    let t = 3 * (xi * xi);
    lemma_congruent_mul(3, 3, xx as int, xi * xi);
    lemma_congruent_mul(num as int, t, di, di);
    lemma_congruent_mul(lam, t * di, 2 * yi, den as int);
    assert(t * di * den == t * (den * di)) by (nonlinear_arith);
    lemma_congruent_mul(t, t, den * di, 1);
    assert(t * 1 == t);
}

/// The chord slope `lam` between points whose `x` differ satisfies
/// `lam * (x2 - x1) = y2 - y1`.
pub proof fn lemma_chord_slope(x1: nat, y1: nat, x2: nat, y2: nat)
    requires
        !congruent(x1 as int, x2 as int),
    ensures
        congruent(chord_slope(x1, y1, x2, y2) * (x2 - x1), y2 - y1),
{
    let den = field_sub(x2, x1);
    let num = field_sub(y2, y1);
    lemma_field_sub(x2, x1);
    lemma_field_sub(y2, y1);
    lemma_congruent_iff_difference(x2 as int, x1 as int);
    lemma_inverse(den);
    let di = field_inv(den) as int;
    let lam = field_mul(num, field_inv(den)) as int;
    lemma_field_mul(num, field_inv(den));
    lemma_congruent_mul(lam, num * di, x2 - x1, den as int);
    assert(num * di * den == num * (den * di)) by (nonlinear_arith);
    lemma_congruent_mul(num as int, y2 - y1, den * di, 1);
    assert((y2 - y1) * 1 == y2 - y1);
}

/// Doubling in Jacobian coordinates follows the tangent.
///
/// If a triple whose `Y` is not zero represents a point, the doubled triple
/// represents the third point on the tangent at that point.
pub proof fn lemma_doubling_represents(j: (nat, nat, nat), a: (nat, nat))
    requires
        represents(j, a),
        !is_zero_mod(j.1 as int),
    ensures
        field_add(a.1, a.1) != 0,
        field_mul(2, a.1) != 0,
        reduced_point(third_point(tangent_slope(a.0, a.1), a.0, a.1, a.0)),
        represents(doubled_triple(j), third_point(tangent_slope(a.0, a.1), a.0, a.1, a.0)),
{
    let x = a.0 as int;
    let y = a.1 as int;
    let bx = j.0 as int;
    let by = j.1 as int;
    let z = j.2 as int;
    lemma_small_constants();
    lemma_represented_y_zero(j, a);
    lemma_tangent_slope(a.0, a.1);
    let lamn = tangent_slope(a.0, a.1);
    let lam = lamn as int;
    let t = 3 * (x * x);
    // The doubled triple, part by part.
    let yy = field_mul(j.1, j.1);
    let yyyy = field_mul(yy, yy);
    let fx = field_mul(4, j.0);
    let s = field_mul(fx, yy);
    let xx = field_mul(j.0, j.0);
    let m = field_mul(3, xx);
    let yz = field_mul(j.1, j.2);
    let z3n = field_mul(2, yz);
    let c = field_mul(8, yyyy);
    let z3 = z3n as int;
    lemma_field_mul(j.1, j.1);
    lemma_field_mul(yy, yy);
    lemma_field_mul(4, j.0);
    lemma_field_mul(fx, yy);
    lemma_field_mul(j.0, j.0);
    lemma_field_mul(3, xx);
    lemma_field_mul(j.1, j.2);
    lemma_field_mul(2, yz);
    lemma_field_mul(8, yyyy);
    let bb = by * by;
    lemma_congruent_mul(3, 3, xx as int, bx * bx);
    lemma_congruent_mul(fx as int, 4 * bx, yy as int, bb);
    lemma_congruent_mul(yy as int, bb, yy as int, bb);
    lemma_congruent_mul(8, 8, yyyy as int, bb * bb);
    lemma_congruent_mul(2, 2, yz as int, by * z);
    let w = 2 * (by * z);
    assert(congruent(m as int, 3 * (bx * bx)));
    assert(congruent(s as int, (4 * bx) * bb));
    assert(congruent(c as int, 8 * (bb * bb)));
    assert(congruent(z3, w));
    lemma_product_nonzero(by, z);
    lemma_product_nonzero(2, by * z);
    assert(!is_zero_mod(z3));
    let zz = z * z;
    let zzz = z * z * z;
    let q = zz * zz;
    let e = x * z * z;
    let f = y * z * z * z;
    // slope times Z3 is M
    assert(congruent(lam * z3, m as int)) by {
        lemma_congruent_mul(by, f, z, z);
        lemma_congruent_mul(2, 2, by * z, f * z);
        lemma_congruent_mul(lam, lam, z3, 2 * (f * z));
        assert(f * z == y * q) by (nonlinear_arith)
            requires
                f == y * z * z * z,
                q == (z * z) * (z * z),
        ;
        assert(lam * (2 * (y * q)) == (lam * (2 * y)) * q) by (nonlinear_arith);
        lemma_congruent_mul(lam * (2 * y), t, q, q);
        assert((x * x) * q == e * e) by (nonlinear_arith)
            requires
                e == x * z * z,
                q == (z * z) * (z * z),
        ;
        assert(t * q == 3 * (e * e)) by (nonlinear_arith)
            requires
                t == 3 * (x * x),
                (x * x) * q == e * e,
        ;
        lemma_congruent_square(e, bx);
        lemma_congruent_mul(3, 3, e * e, bx * bx);
    }
    // x times Z3^2 is S
    assert(congruent(x * z3 * z3, s as int)) by {
        lemma_congruent_square(z3, w);
        lemma_congruent_mul(x, x, z3 * z3, w * w);
        assert(x * z3 * z3 == x * (z3 * z3)) by (nonlinear_arith);
        assert(w * w == 4 * (bb * zz)) by (nonlinear_arith)
            requires
                w == 2 * (by * z),
                bb == by * by,
                zz == z * z,
        ;
        assert(x * (4 * (bb * zz)) == (4 * e) * bb) by (nonlinear_arith)
            requires
                e == x * z * z,
                zz == z * z,
        ;
        lemma_congruent_mul(4, 4, e, bx);
        lemma_congruent_mul(4 * e, 4 * bx, bb, bb);
    }
    // y times Z3^3 is 8 Y^4
    assert(congruent(y * z3 * z3 * z3, c as int)) by {
        lemma_congruent_cube(z3, w);
        lemma_congruent_mul(y, y, z3 * z3 * z3, w * w * w);
        assert(y * z3 * z3 * z3 == y * (z3 * z3 * z3)) by (nonlinear_arith);
        let b3 = by * by * by;
        assert(w * w * w == 8 * (b3 * zzz)) by (nonlinear_arith)
            requires
                w == 2 * (by * z),
                b3 == by * by * by,
                zzz == z * z * z,
        ;
        assert(y * (8 * (b3 * zzz)) == 8 * (f * b3)) by (nonlinear_arith)
            requires
                f == y * z * z * z,
                zzz == z * z * z,
        ;
        lemma_congruent_mul(f, by, b3, b3);
        lemma_congruent_mul(8, 8, f * b3, by * b3);
        assert(by * b3 == bb * bb) by (nonlinear_arith)
            requires
                b3 == by * by * by,
                bb == by * by,
        ;
    }
    lemma_third_point_scaled(lamn, a.0, a.1, a.0, z3, m as int, s as int, s as int, c as int);
    let r = third_point(lamn, a.0, a.1, a.0);
    // X3 and Y3 of the doubled triple
    let mm = field_mul(m, m);
    let ss = field_add(s, s);
    let x3 = field_sub(mm, ss);
    let sx = field_sub(s, x3);
    let msx = field_mul(m, sx);
    let y3 = field_sub(msx, c);
    lemma_field_mul(m, m);
    lemma_field_add(s, s);
    lemma_field_sub(mm, ss);
    lemma_field_sub(s, x3);
    lemma_field_mul(m, sx);
    lemma_field_sub(msx, c);
    let xe = m * m - s - s;
    lemma_congruent_sub(mm as int, (m * m) as int, ss as int, (s + s) as int);
    assert(congruent(x3 as int, xe));
    lemma_congruent_sub(s as int, s as int, x3 as int, xe);
    lemma_congruent_mul(m as int, m as int, sx as int, s - xe);
    lemma_congruent_sub(msx as int, m * (s - xe), c as int, c as int);
    assert(congruent(y3 as int, m * (s - xe) - c));
    assert(doubled_triple(j) == (x3, y3, z3n));
}

/// The common denominator `W = Z Z'` of two triples.
pub open spec fn common_z(z: nat, z_other: nat) -> int {
    (z as int) * (z_other as int)
}

/// Coordinates brought to the common denominator `W = Z Z'`: the scaled
/// `X` is `x W^2` and the scaled `Y` is `y W^3`.
pub proof fn lemma_scaled(j: (nat, nat, nat), a: (nat, nat), z_other: nat)
    requires
        represents(j, a),
    ensures
        is_reduced(scaled_x(j.0, z_other)),
        is_reduced(scaled_y(j.1, z_other)),
        congruent(
            scaled_x(j.0, z_other) as int,
            a.0 * (common_z(j.2, z_other) * common_z(j.2, z_other)),
        ),
        congruent(
            scaled_y(j.1, z_other) as int,
            a.1 * (common_z(j.2, z_other) * common_z(j.2, z_other) * common_z(j.2, z_other)),
        ),
{
    let x = a.0 as int;
    let y = a.1 as int;
    let z = j.2 as int;
    let o = z_other as int;
    let w = z * o;
    let oo = field_mul(z_other, z_other);
    let ooo = field_mul(oo, z_other);
    lemma_field_mul(z_other, z_other);
    lemma_field_mul(oo, z_other);
    lemma_field_mul(j.0, oo);
    lemma_field_mul(j.1, ooo);
    lemma_congruent_mul(j.0 as int, x * z * z, oo as int, o * o);
    assert((x * z * z) * (o * o) == x * (w * w)) by (nonlinear_arith)
        requires
            w == z * o,
    ;
    lemma_congruent_mul(oo as int, o * o, o, o);
    lemma_congruent_mul(j.1 as int, y * z * z * z, ooo as int, o * o * o);
    assert((y * z * z * z) * (o * o * o) == y * (w * w * w)) by (nonlinear_arith)
        requires
            w == z * o,
    ;
}

/// Two represented reduced points have the same `x` exactly when their
/// scaled `X` agree, and the same `y` exactly when their scaled `Y` agree.
pub proof fn lemma_scaled_compare(
    j1: (nat, nat, nat),
    j2: (nat, nat, nat),
    a1: (nat, nat),
    a2: (nat, nat),
)
    requires
        represents(j1, a1),
        represents(j2, a2),
        reduced_point(a1),
        reduced_point(a2),
    ensures
        (scaled_x(j1.0, j2.2) == scaled_x(j2.0, j1.2)) <==> a1.0 == a2.0,
        (scaled_y(j1.1, j2.2) == scaled_y(j2.1, j1.2)) <==> a1.1 == a2.1,
{
    let z1 = j1.2 as int;
    let z2 = j2.2 as int;
    let w = z1 * z2;
    assert(z2 * z1 == w) by (nonlinear_arith)
        requires
            w == z1 * z2,
    ;
    lemma_scaled(j1, a1, j2.2);
    lemma_scaled(j2, a2, j1.2);
    lemma_product_nonzero(z1, z2);
    lemma_square_and_cube_nonzero(w);
    let u1 = scaled_x(j1.0, j2.2);
    let u2 = scaled_x(j2.0, j1.2);
    let s1 = scaled_y(j1.1, j2.2);
    let s2 = scaled_y(j2.1, j1.2);
    if a1.0 == a2.0 {
        lemma_reduced_equal(u1, u2);
    }
    if u1 == u2 {
        lemma_cancel(a1.0 as int, a2.0 as int, w * w);
        lemma_reduced_equal(a1.0, a2.0);
    }
    if a1.1 == a2.1 {
        lemma_reduced_equal(s1, s2);
    }
    if s1 == s2 {
        lemma_cancel(a1.1 as int, a2.1 as int, w * w * w);
        lemma_reduced_equal(a1.1, a2.1);
    }
}

/// Addition in Jacobian coordinates follows the chord.
///
/// If two triples represent points whose `x` differ, the added triple
/// represents the third point on the chord through them.
pub proof fn lemma_addition_represents(
    j1: (nat, nat, nat),
    j2: (nat, nat, nat),
    a1: (nat, nat),
    a2: (nat, nat),
)
    requires
        represents(j1, a1),
        represents(j2, a2),
        !congruent(a1.0 as int, a2.0 as int),
    ensures
        scaled_x(j1.0, j2.2) != scaled_x(j2.0, j1.2),
        reduced_point(third_point(chord_slope(a1.0, a1.1, a2.0, a2.1), a1.0, a1.1, a2.0)),
        represents(
            added_triple(
                scaled_x(j1.0, j2.2),
                scaled_x(j2.0, j1.2),
                scaled_y(j1.1, j2.2),
                scaled_y(j2.1, j1.2),
                j1.2,
                j2.2,
            ),
            third_point(chord_slope(a1.0, a1.1, a2.0, a2.1), a1.0, a1.1, a2.0),
        ),
{
    let x1 = a1.0 as int;
    let y1 = a1.1 as int;
    let x2 = a2.0 as int;
    let y2 = a2.1 as int;
    let z1 = j1.2 as int;
    let z2 = j2.2 as int;
    let w = z1 * z2;
    let ww = w * w;
    let www = w * w * w;
    assert(z2 * z1 == w) by (nonlinear_arith)
        requires
            w == z1 * z2,
    ;
    lemma_scaled(j1, a1, j2.2);
    lemma_scaled(j2, a2, j1.2);
    lemma_product_nonzero(z1, z2);
    lemma_square_and_cube_nonzero(w);
    let u1n = scaled_x(j1.0, j2.2);
    let u2n = scaled_x(j2.0, j1.2);
    let s1n = scaled_y(j1.1, j2.2);
    let s2n = scaled_y(j2.1, j1.2);
    let u1 = u1n as int;
    let u2 = u2n as int;
    let s1 = s1n as int;
    let s2 = s2n as int;
    let dx = x2 - x1;
    let dy = y2 - y1;
    lemma_congruent_iff_difference(x2, x1);
    assert(!is_zero_mod(dx));
    lemma_chord_slope(a1.0, a1.1, a2.0, a2.1);
    let lamn = chord_slope(a1.0, a1.1, a2.0, a2.1);
    let lam = lamn as int;
    // The added triple, part by part.
    let hn = field_sub(u2n, u1n);
    let rn = field_sub(s2n, s1n);
    let h2n = field_mul(hn, hn);
    let h3n = field_mul(h2n, hn);
    let u1h2n = field_mul(u1n, h2n);
    let zzn = field_mul(j1.2, j2.2);
    let z3n = field_mul(zzn, hn);
    let cn = field_mul(s1n, h3n);
    let h = hn as int;
    let r = rn as int;
    let h2 = h2n as int;
    let h3 = h3n as int;
    let u1h2 = u1h2n as int;
    let z3 = z3n as int;
    let c = cn as int;
    lemma_field_sub(u2n, u1n);
    lemma_field_sub(s2n, s1n);
    lemma_field_mul(hn, hn);
    lemma_field_mul(h2n, hn);
    lemma_field_mul(u1n, h2n);
    lemma_field_mul(j1.2, j2.2);
    lemma_field_mul(zzn, hn);
    lemma_field_mul(s1n, h3n);
    // H = (x2 - x1) W^2 and R = (y2 - y1) W^3
    lemma_congruent_sub(u2, x2 * ww, u1, x1 * ww);
    assert(x2 * ww - x1 * ww == dx * ww) by (nonlinear_arith)
        requires
            dx == x2 - x1,
    ;
    assert(congruent(h, dx * ww));
    lemma_congruent_sub(s2, y2 * www, s1, y1 * www);
    assert(y2 * www - y1 * www == dy * www) by (nonlinear_arith)
        requires
            dy == y2 - y1,
    ;
    assert(congruent(r, dy * www));
    lemma_product_nonzero(dx, ww);
    assert(!is_zero_mod(h));
    assert(u1n != u2n) by {
        if u1n == u2n {
            assert(u2 - u1 == 0);
            assert(0int % (field_modulus() as int) == 0);
        }
    }
    // Z3 = W H
    lemma_congruent_mul(zzn as int, w, h, h);
    assert(congruent(z3, w * h));
    lemma_product_nonzero(w, h);
    assert(!is_zero_mod(z3));
    // slope times Z3 is R
    assert(congruent(lam * z3, r)) by {
        lemma_congruent_mul(w, w, h, dx * ww);
        lemma_congruent_mul(lam, lam, z3, w * (dx * ww));
        assert(lam * (w * (dx * ww)) == (lam * dx) * www) by (nonlinear_arith)
            requires
                ww == w * w,
                www == w * w * w,
        ;
        lemma_congruent_mul(lam * dx, dy, www, www);
    }
    let k = w * h;
    // x1 times Z3^2 is U1 H^2, x2 times Z3^2 is U2 H^2
    assert(congruent(x1 * z3 * z3, u1h2)) by {
        lemma_congruent_square(z3, k);
        lemma_congruent_mul(x1, x1, z3 * z3, k * k);
        assert(x1 * z3 * z3 == x1 * (z3 * z3)) by (nonlinear_arith);
        assert(x1 * (k * k) == (x1 * ww) * (h * h)) by (nonlinear_arith)
            requires
                k == w * h,
                ww == w * w,
        ;
        lemma_congruent_mul(x1 * ww, u1, h * h, h2);
    }
    assert(congruent(x2 * z3 * z3, u2 * h2)) by {
        lemma_congruent_square(z3, k);
        lemma_congruent_mul(x2, x2, z3 * z3, k * k);
        assert(x2 * z3 * z3 == x2 * (z3 * z3)) by (nonlinear_arith);
        assert(x2 * (k * k) == (x2 * ww) * (h * h)) by (nonlinear_arith)
            requires
                k == w * h,
                ww == w * w,
        ;
        lemma_congruent_mul(x2 * ww, u2, h * h, h2);
    }
    // y1 times Z3^3 is S1 H^3
    assert(congruent(y1 * z3 * z3 * z3, c)) by {
        lemma_congruent_cube(z3, k);
        lemma_congruent_mul(y1, y1, z3 * z3 * z3, k * k * k);
        assert(y1 * z3 * z3 * z3 == y1 * (z3 * z3 * z3)) by (nonlinear_arith);
        assert(y1 * (k * k * k) == (y1 * www) * ((h * h) * h)) by (nonlinear_arith)
            requires
                k == w * h,
                www == w * w * w,
        ;
        lemma_congruent_mul(h2, h * h, h, h);
        lemma_congruent_mul(y1 * www, s1, (h * h) * h, h3);
    }
    lemma_third_point_scaled(lamn, a1.0, a1.1, a2.0, z3, r, u1h2, u2 * h2, c);
    // U2 H^2 = U1 H^2 + H^3
    assert(congruent(u2 * h2, u1h2 + h3)) by {
        lemma_congruent_add(h, u2 - u1, u1, u1);
        assert(u2 - u1 + u1 == u2);
        lemma_congruent_mul(u2, h + u1, h2, h2);
        assert((h + u1) * h2 == u1 * h2 + h2 * h) by (nonlinear_arith);
        lemma_congruent_add(u1 * h2, u1h2, h2 * h, h3);
    }
    // X3 and Y3 of the added triple
    let rrn = field_mul(rn, rn);
    let an = field_sub(rrn, h3n);
    let bn = field_add(u1h2n, u1h2n);
    let x3n = field_sub(an, bn);
    let dn = field_sub(u1h2n, x3n);
    let en = field_mul(rn, dn);
    let y3n = field_sub(en, cn);
    lemma_field_mul(rn, rn);
    lemma_field_sub(rrn, h3n);
    lemma_field_add(u1h2n, u1h2n);
    lemma_field_sub(an, bn);
    lemma_field_sub(u1h2n, x3n);
    lemma_field_mul(rn, dn);
    lemma_field_sub(en, cn);
    let xe = r * r - u1h2 - u2 * h2;
    lemma_congruent_sub(rrn as int, r * r, h3, h3);
    lemma_congruent_sub(an as int, r * r - h3, bn as int, u1h2 + u1h2);
    lemma_congruent_sub(r * r - u1h2, r * r - u1h2, u2 * h2, u1h2 + h3);
    assert(congruent(x3n as int, xe));
    lemma_congruent_sub(u1h2, u1h2, x3n as int, xe);
    lemma_congruent_mul(r, r, dn as int, u1h2 - xe);
    lemma_congruent_sub(en as int, r * (u1h2 - xe), c, c);
    assert(congruent(y3n as int, r * (u1h2 - xe) - c));
    assert(added_triple(u1n, u2n, s1n, s2n, j1.2, j2.2) == (x3n, y3n, z3n));
}

/// Whether the point satisfies the curve equation `y^2 = x^3 + 7` in the
/// field.
pub open spec fn on_curve(a: (nat, nat)) -> bool {
    let x = a.0 as int;
    let y = a.1 as int;
    congruent(y * y, x * x * x + 7)
}

/// A valid affine point: reduced coordinates that satisfy the curve
/// equation.
pub open spec fn valid_point(a: (nat, nat)) -> bool {
    reduced_point(a) && on_curve(a)
}

/// Whether the triple satisfies the curve equation in Jacobian
/// coordinates, `Y^2 = X^3 + 7 Z^6`.
pub open spec fn jacobian_on_curve(j: (nat, nat, nat)) -> bool {
    let x = j.0 as int;
    let y = j.1 as int;
    let z = j.2 as int;
    congruent(y * y, x * x * x + 7 * ((z * z * z) * (z * z * z)))
}

/// A valid Jacobian triple: reduced coordinates, and either `Z = 0` or the
/// curve equation holds.
pub open spec fn valid_jacobian(j: (nat, nat, nat)) -> bool {
    &&& is_reduced(j.0)
    &&& is_reduced(j.1)
    &&& is_reduced(j.2)
    &&& (j.2 == 0 || jacobian_on_curve(j))
}

/// Two valid points with the same `x` are equal or inverses.
pub proof fn lemma_same_x(a1: (nat, nat), a2: (nat, nat))
    requires
        valid_point(a1),
        valid_point(a2),
        a1.0 == a2.0,
    ensures
        a1.1 == a2.1 || field_add(a1.1, a2.1) == 0,
{
    let x = a1.0 as int;
    let y1 = a1.1 as int;
    let y2 = a2.1 as int;
    lemma_field_add(a1.1, a2.1);
    lemma_reduced_zero(field_add(a1.1, a2.1));
    if !is_zero_mod(y1 + y2) {
        lemma_congruent_iff_difference(y1 * y1, y2 * y2);
        assert(y1 * y1 - y2 * y2 == (y1 - y2) * (y1 + y2)) by (nonlinear_arith);
        lemma_no_zero_divisors(y1 - y2, y1 + y2);
        lemma_congruent_iff_difference(y1, y2);
        lemma_reduced_equal(a1.1, a2.1);
    }
}

/// A represented point lies on the curve when its triple does.
pub proof fn lemma_represented_on_curve(j: (nat, nat, nat), a: (nat, nat))
    requires
        represents(j, a),
        jacobian_on_curve(j),
    ensures
        on_curve(a),
{
    let x = a.0 as int;
    let y = a.1 as int;
    let bx = j.0 as int;
    let by = j.1 as int;
    let z = j.2 as int;
    let zz = z * z;
    let zzz = z * z * z;
    let z6 = zzz * zzz;
    lemma_square_and_cube_nonzero(z);
    lemma_product_nonzero(zzz, zzz);
    lemma_congruent_square(y * z * z * z, by);
    lemma_congruent_cube(x * z * z, bx);
    lemma_congruent_add((x * z * z) * (x * z * z) * (x * z * z), bx * bx * bx, 7 * z6, 7 * z6);
    assert((y * z * z * z) * (y * z * z * z) == (y * y) * z6) by (nonlinear_arith)
        requires
            z6 == (z * z * z) * (z * z * z),
    ;
    assert((x * z * z) * (x * z * z) * (x * z * z) + 7 * z6 == (x * x * x + 7) * z6)
        by (nonlinear_arith)
        requires
            z6 == (z * z * z) * (z * z * z),
    ;
    lemma_cancel(y * y, x * x * x + 7, z6);
}

/// A lifted valid point is a valid triple.
pub proof fn lemma_lift_valid(a: (nat, nat))
    requires
        valid_point(a),
    ensures
        valid_jacobian((a.0, a.1, 1)),
{
    lemma_small_mod(1, field_modulus());
    assert(7 * ((1int * 1 * 1) * (1int * 1 * 1)) == 7);
}

/// The line through `(x1, y1)` with slope `l`, squared, at the point where
/// `t - x1 = d`.
proof fn lemma_line_square(l: int, d: int, y1: int)
    ensures
        (l * d + y1) * (l * d + y1) == (l * l) * (d * d) + 2 * ((l * y1) * d) + y1 * y1,
        (l * (0 - d) - y1) * (l * (0 - d) - y1) == (l * d + y1) * (l * d + y1),
{
    let e = l * d;
    assert((e + y1) * (e + y1) == e * e + 2 * (e * y1) + y1 * y1) by (nonlinear_arith);
    assert(e * e == (l * l) * (d * d)) by (nonlinear_arith)
        requires
            e == l * d,
    ;
    assert(e * y1 == (l * y1) * d) by (nonlinear_arith)
        requires
            e == l * d,
    ;
    assert(l * (0 - d) == 0 - e) by (nonlinear_arith)
        requires
            e == l * d,
    ;
    let s = e + y1;
    assert((0 - s) * (0 - s) == s * s) by (nonlinear_arith);
    assert(l * (0 - d) - y1 == 0 - s);
}

/// A monic cubic with roots `x1`, `x2`, `x3` vanishes at each of them, in
/// expanded form.
proof fn lemma_vieta_root(t: int, x1: int, x2: int, x3: int)
    requires
        t == x1 || t == x2 || t == x3,
    ensures
        (t * t) * t - (x1 + x2 + x3) * (t * t) + (x1 * x2 + x1 * x3 + x2 * x3) * t - x1 * x2 * x3
            == 0,
{
    let s12 = x1 + x2;
    let p12 = x1 * x2;
    let tt = t * t;
    let u = (t - x1) * (t - x2);
    let v = u * (t - x3);
    assert(u == tt - s12 * t + p12) by (nonlinear_arith)
        requires
            s12 == x1 + x2,
            p12 == x1 * x2,
            tt == t * t,
            u == (t - x1) * (t - x2),
    ;
    assert(v == u * t - u * x3) by (nonlinear_arith)
        requires
            v == u * (t - x3),
    ;
    assert(u * t == tt * t - s12 * tt + p12 * t) by (nonlinear_arith)
        requires
            u == tt - s12 * t + p12,
            tt == t * t,
    ;
    assert(u * x3 == tt * x3 - (s12 * x3) * t + p12 * x3) by (nonlinear_arith)
        requires
            u == tt - s12 * t + p12,
    ;
    assert(v == 0) by (nonlinear_arith)
        requires
            t == x1 || t == x2 || t == x3,
            u == (t - x1) * (t - x2),
            v == u * (t - x3),
    ;
    let sg = x1 + x2 + x3;
    let e2 = x1 * x2 + x1 * x3 + x2 * x3;
    assert(sg * tt == s12 * tt + tt * x3) by (nonlinear_arith)
        requires
            sg == s12 + x3,
    ;
    assert(s12 * x3 == x1 * x3 + x2 * x3) by (nonlinear_arith)
        requires
            s12 == x1 + x2,
    ;
    assert(e2 * t == p12 * t + (s12 * x3) * t) by (nonlinear_arith)
        requires
            e2 == p12 + s12 * x3,
    ;
}

/// The coefficient of `t` in what remains of the cubic
/// `t^3 + 7 - (l (t - x1) + y1)^2` after the product of its three root
/// factors is taken away; `pr` is `l y1`.
pub open spec fn remainder_slope(x1: int, x2: int, x3: int, pr: int) -> int {
    2 * (((x1 + x2 + x3) * x1)) - 2 * pr - (x1 * x2 + x1 * x3 + x2 * x3)
}

/// The constant in the same remainder; `ysq` is `y1^2`.
pub open spec fn remainder_const(x1: int, x2: int, x3: int, pr: int, ysq: int) -> int {
    7 - (x1 + x2 + x3) * (x1 * x1) + 2 * (pr * x1) - ysq + x1 * x2 * x3
}

/// At each of `x1`, `x2`, `x3` the cubic equals its linear remainder.
proof fn lemma_third_root(t: int, x1: int, x2: int, x3: int, pr: int, ysq: int)
    requires
        t == x1 || t == x2 || t == x3,
    ensures
        (t * t) * t + 7 - (x1 + x2 + x3) * ((t - x1) * (t - x1)) - 2 * (pr * (t - x1)) - ysq
            == remainder_slope(x1, x2, x3, pr) * t + remainder_const(x1, x2, x3, pr, ysq),
{
    let sg = x1 + x2 + x3;
    let e2 = x1 * x2 + x1 * x3 + x2 * x3;
    let tt = t * t;
    let d = t - x1;
    let m1 = sg * x1;
    let al = remainder_slope(x1, x2, x3, pr);
    lemma_vieta_root(t, x1, x2, x3);
    assert(sg * (d * d) == sg * tt - 2 * (m1 * t) + sg * (x1 * x1)) by (nonlinear_arith)
        requires
            d == t - x1,
            tt == t * t,
            m1 == sg * x1,
    ;
    assert(pr * d == pr * t - pr * x1) by (nonlinear_arith)
        requires
            d == t - x1,
    ;
    assert(al * t == 2 * (m1 * t) - 2 * (pr * t) - e2 * t) by (nonlinear_arith)
        requires
            al == 2 * m1 - 2 * pr - e2,
    ;
}

/// The third point of a line through a curve point lies on the curve, once
/// the linear remainder of the cubic is known to vanish.
proof fn lemma_third_root_on_curve(l: int, x1: int, y1: int, x2: int)
    requires
        congruent(y1 * y1, x1 * x1 * x1 + 7),
        is_zero_mod(remainder_slope(x1, x2, l * l - x1 - x2, l * y1)),
    ensures
        congruent(
            (l * (x1 - (l * l - x1 - x2)) - y1) * (l * (x1 - (l * l - x1 - x2)) - y1),
            (l * l - x1 - x2) * (l * l - x1 - x2) * (l * l - x1 - x2) + 7,
        ),
{
    let x3 = l * l - x1 - x2;
    let y3 = l * (x1 - x3) - y1;
    let pr = l * y1;
    let ysq = y1 * y1;
    let al = remainder_slope(x1, x2, x3, pr);
    let be = remainder_const(x1, x2, x3, pr, ysq);
    // at x1
    lemma_third_root(x1, x1, x2, x3, pr, ysq);
    assert((x1 + x2 + x3) * ((x1 - x1) * (x1 - x1)) == 0) by (nonlinear_arith);
    assert(pr * (x1 - x1) == 0) by (nonlinear_arith);
    assert(x1 * x1 * x1 + 7 - ysq == al * x1 + be);
    lemma_congruent_iff_difference(x1 * x1 * x1 + 7, ysq);
    assert(is_zero_mod(al * x1 + be));
    lemma_congruent_mul(al, 0, x1, x1);
    lemma_congruent_mul(al, 0, x3, x3);
    assert(0 * x1 == 0 && 0 * x3 == 0);
    lemma_congruent_sub(al * x1 + be, 0, al * x1, 0);
    assert(al * x1 + be - al * x1 == be);
    lemma_congruent_add(al * x3, 0, be, 0);
    assert(is_zero_mod(al * x3 + be));
    // at x3
    let d = x3 - x1;
    lemma_third_root(x3, x1, x2, x3, pr, ysq);
    lemma_line_square(l, d, y1);
    assert(x1 + x2 + x3 == l * l);
    let ln = l * d + y1;
    assert((x3 * x3) * x3 + 7 - ln * ln == al * x3 + be);
    assert(x1 - x3 == 0 - d);
    assert(y3 * y3 == ln * ln);
    lemma_congruent_iff_difference(x3 * x3 * x3 + 7, y3 * y3);
}

/// The sum of two curve points whose `x` differ lies on the curve.
pub proof fn lemma_chord_on_curve(a1: (nat, nat), a2: (nat, nat))
    requires
        on_curve(a1),
        on_curve(a2),
        !congruent(a1.0 as int, a2.0 as int),
    ensures
        on_curve(third_point(chord_slope(a1.0, a1.1, a2.0, a2.1), a1.0, a1.1, a2.0)),
{
    let x1 = a1.0 as int;
    let y1 = a1.1 as int;
    let x2 = a2.0 as int;
    let y2 = a2.1 as int;
    let lamn = chord_slope(a1.0, a1.1, a2.0, a2.1);
    let l = lamn as int;
    lemma_chord_slope(a1.0, a1.1, a2.0, a2.1);
    let x3 = l * l - x1 - x2;
    let y3 = l * (x1 - x3) - y1;
    let pr = l * y1;
    let ysq = y1 * y1;
    let al = remainder_slope(x1, x2, x3, pr);
    let be = remainder_const(x1, x2, x3, pr, ysq);
    // The cubic vanishes at x1 and at x2, so its remainder has no slope.
    lemma_third_root(x1, x1, x2, x3, pr, ysq);
    assert((x1 + x2 + x3) * ((x1 - x1) * (x1 - x1)) == 0) by (nonlinear_arith);
    assert(pr * (x1 - x1) == 0) by (nonlinear_arith);
    lemma_congruent_iff_difference(x1 * x1 * x1 + 7, ysq);
    assert(is_zero_mod(al * x1 + be));
    let d = x2 - x1;
    lemma_third_root(x2, x1, x2, x3, pr, ysq);
    lemma_line_square(l, d, y1);
    assert(x1 + x2 + x3 == l * l);
    let ln = l * d + y1;
    assert((x2 * x2) * x2 + 7 - ln * ln == al * x2 + be);
    lemma_congruent_add(l * d, y2 - y1, y1, y1);
    assert(y2 - y1 + y1 == y2);
    lemma_congruent_square(ln, y2);
    lemma_congruent_iff_difference(x2 * x2 * x2 + 7, ln * ln);
    assert(is_zero_mod(al * x2 + be));
    lemma_congruent_sub(al * x2 + be, 0, al * x1 + be, 0);
    assert((al * x2 + be) - (al * x1 + be) == al * d) by (nonlinear_arith)
        requires
            d == x2 - x1,
    ;
    lemma_congruent_iff_difference(x2, x1);
    lemma_no_zero_divisors(al, d);
    lemma_third_root_on_curve(l, x1, y1, x2);
    // The third point is congruent to (x3, y3).
    assert(l * 1 == l && x1 * 1 * 1 == x1 && x2 * 1 * 1 == x2 && y1 * 1 * 1 * 1 == y1);
    lemma_third_point_scaled(lamn, a1.0, a1.1, a2.0, 1, l, x1, x2, y1);
    let r = third_point(lamn, a1.0, a1.1, a2.0);
    let xr = r.0 as int;
    let yr = r.1 as int;
    assert(xr * 1 * 1 == xr && yr * 1 * 1 * 1 == yr);
    lemma_congruent_square(yr, y3);
    lemma_congruent_cube(xr, x3);
    lemma_congruent_add(xr * xr * xr, x3 * x3 * x3, 7, 7);
}

/// The double of a curve point whose `y` is not zero lies on the curve.
pub proof fn lemma_tangent_on_curve(a: (nat, nat))
    requires
        on_curve(a),
        !is_zero_mod(a.1 as int),
    ensures
        on_curve(third_point(tangent_slope(a.0, a.1), a.0, a.1, a.0)),
{
    let x = a.0 as int;
    let y = a.1 as int;
    let lamn = tangent_slope(a.0, a.1);
    let l = lamn as int;
    lemma_tangent_slope(a.0, a.1);
    let x3 = l * l - x - x;
    let y3 = l * (x - x3) - y;
    let pr = l * y;
    let al = remainder_slope(x, x, x3, pr);
    let xx = x * x;
    assert(al == 3 * xx - 2 * pr) by {
        assert((x + x + x3) * x == 2 * xx + x * x3) by (nonlinear_arith)
            requires
                xx == x * x,
        ;
        assert(x * x + x * x3 + x * x3 == xx + 2 * (x * x3));
    }
    assert(l * (2 * y) == 2 * pr) by (nonlinear_arith)
        requires
            pr == l * y,
    ;
    lemma_congruent_iff_difference(3 * xx, l * (2 * y));
    lemma_third_root_on_curve(l, x, y, x);
    assert(l * 1 == l && x * 1 * 1 == x && y * 1 * 1 * 1 == y);
    lemma_third_point_scaled(lamn, a.0, a.1, a.0, 1, l, x, x, y);
    let r = third_point(lamn, a.0, a.1, a.0);
    let xr = r.0 as int;
    let yr = r.1 as int;
    assert(xr * 1 * 1 == xr && yr * 1 * 1 * 1 == yr);
    lemma_congruent_square(yr, y3);
    lemma_congruent_cube(xr, x3);
    lemma_congruent_add(xr * xr * xr, x3 * x3 * x3, 7, 7);
}

} // verus!
