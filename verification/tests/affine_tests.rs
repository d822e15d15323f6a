use num_bigint::BigUint;
use secp256k1_arith::affine::{affine_add, modp, Point};
use secp256k1_arith::jacobian::jacobian_double;

fn big(s: &str) -> BigUint {
    BigUint::parse_bytes(s.as_bytes(), 10).unwrap() % modp()
}

fn pt(x: &str, y: &str) -> Point {
    if x.is_empty() {
        None
    } else {
        Some((big(x), big(y)))
    }
}

const GX: &str = "55066263022277343669578718895168534326250603453777594175500187360389116729240";
const GY: &str = "32670510020758816978083085130507043184471273380659243275938904335757337482424";
const G2X: &str = "89565891926547004231252920425935692360644145829622209833684329913297188986597";
const G2Y: &str = "12158399299693830322967808612713398636155367887041628176798871954788371653930";
const G3X: &str = "112711660439710606056748659173929673102114977341539408544630613555209775888121";
const G3Y: &str = "25583027980570883691656905877401976406448868254816295069919888960541586679410";
const G5X: &str = "21505829891763648114329055987619236494102133314575206970830385799158076338148";
const G5Y: &str = "98003708678762621233683240503080860129026887322874138805529884920309963580118";
const G7X: &str = "41948375291644419605210209193538855353224492619856392092318293986323063962044";
const G7Y: &str = "48361766907851246668144012348516735800090617714386977531302791340517493990618";
const G10X: &str = "72488970228380509287422715226575535698893157273063074627791787432852706183111";
const G10Y: &str = "62070622898698443831883535403436258712770888294397026493185421712108624767191";
const G12X: &str = "94111259592240215275188773285036844871058226277992966241101117022315524122714";
const G12Y: &str = "76870767327212528811304566602812752860184934880685532702451763239157141742375";

#[test]
fn csv_test_vectors() {
    // Records of the form: P.x, P.y, Q.x, Q.y, expected x, expected y; an
    // empty field stands for the point at infinity.
    let records: [[&str; 6]; 8] = [
        [GX, GY, GX, GY, G2X, G2Y],
        [G2X, G2Y, GX, GY, G3X, G3Y],
        [GX, GY, G2X, G2Y, G3X, G3Y],
        [G5X, G5Y, G7X, G7Y, G12X, G12Y],
        [G5X, G5Y, G5X, G5Y, G10X, G10Y],
        ["", "", G7X, G7Y, G7X, G7Y],
        [G7X, G7Y, "", "", G7X, G7Y],
        ["", "", "", "", "", ""],
    ];
    for record in records.iter() {
        let p = pt(record[0], record[1]);
        let q = pt(record[2], record[3]);
        let expected = pt(record[4], record[5]);
        assert_eq!(
            affine_add(&p, &q),
            expected,
            "Failed test for input: P = {:?}, Q = {:?}",
            p,
            q
        );
    }
}

#[test]
fn generator_doubles_to_known_point() {
    let g = pt(GX, GY);
    assert_eq!(affine_add(&g, &g), pt(G2X, G2Y));
}

#[test]
fn infinity_is_identity() {
    for p in [pt(GX, GY), pt(G5X, G5Y), pt("1", "2"), None] {
        assert_eq!(affine_add(&p, &None), p);
        assert_eq!(affine_add(&None, &p), p);
    }
}

#[test]
fn point_plus_negation_is_infinity() {
    for (x, y) in [(GX, GY), (G5X, G5Y), (G12X, G12Y), ("5", "0"), ("1", "2")] {
        let p = pt(x, y);
        let neg_y = (modp() - big(y)) % modp();
        let q = Some((big(x), neg_y));
        assert_eq!(affine_add(&p, &q), None);
        assert_eq!(affine_add(&q, &p), None);
    }
}

#[test]
fn doubling_with_zero_y_is_infinity() {
    let p = pt("5", "0");
    assert_eq!(affine_add(&p, &p), None);
}

#[test]
fn same_x_vertical_tangent_is_infinity() {
    // Same x, first y zero, second y not its negation: the tangent at the
    // first point is vertical.
    let p = pt("5", "0");
    let q = pt("5", "3");
    assert_eq!(affine_add(&p, &q), None);
}

#[test]
fn affine_doubling_matches_jacobian_doubling() {
    for (x, y) in [(GX, GY), (G2X, G2Y), (G5X, G5Y), (G7X, G7Y), ("5", "0"), ("3", "4")] {
        let p = pt(x, y);
        let lifted = (big(x), big(y), BigUint::from(1u32));
        assert_eq!(affine_add(&p, &p), jacobian_double(&lifted));
    }
}

#[test]
fn addition_commutes_on_curve_points() {
    let a = pt(G5X, G5Y);
    let b = pt(G7X, G7Y);
    assert_eq!(affine_add(&a, &b), affine_add(&b, &a));
}

#[test]
fn inputs_are_returned_as_given_by_the_identity() {
    // The identity hands the other operand back, reduced or not.
    let unreduced = Some((modp() + BigUint::from(5u32), modp() + BigUint::from(1u32)));
    assert_eq!(affine_add(&unreduced, &None), unreduced);
    assert_eq!(affine_add(&None, &unreduced), unreduced);
}

#[test]
fn congruent_x_that_differ_take_the_chord_with_slope_zero() {
    // x2 = x1 + p differs from x1 as a number, so the chord is taken; its
    // denominator is zero in the field, and so is its power `p - 2`.
    let p = Some((BigUint::from(5u32), BigUint::from(3u32)));
    let q = Some((modp() + BigUint::from(5u32), BigUint::from(9u32)));
    let expected = Some((modp() - BigUint::from(10u32), modp() - BigUint::from(3u32)));
    assert_eq!(affine_add(&p, &q), expected);
}

#[test]
fn sum_of_curve_points_is_on_the_curve() {
    let r = affine_add(&pt(G5X, G5Y), &pt(G7X, G7Y)).unwrap();
    let lhs = (&r.1 * &r.1) % modp();
    let rhs = (&r.0 * &r.0 * &r.0 + BigUint::from(7u32)) % modp();
    assert_eq!(lhs, rhs);
}
