use num_bigint::BigUint;
use secp256k1_arith::affine::{mod_add, mod_inv, mod_mul, mod_sub, modp, FieldError};

fn big(s: &str) -> BigUint {
    BigUint::parse_bytes(s.as_bytes(), 10).unwrap()
}

const A: &str = "62607148532682125320735693988242748598151008302008539873409394852366744606640";
const B: &str = "11933035808718696903915211897955985265333345562346279347480465856423663215040";

#[test]
fn modulus_value() {
    let p = modp();
    assert_eq!(
        p,
        big("115792089237316195423570985008687907853269984665640564039457584007908834671663")
    );
    assert_eq!(p.bits(), 256);
    assert_eq!(
        &p + BigUint::from(977u32) + (BigUint::from(1u32) << 32usize),
        BigUint::from(1u32) << 256usize
    );
}

#[test]
fn add_reduces_modulo_p() {
    assert_eq!(
        mod_add(&big(A), &big(B)),
        big("74540184341400822224650905886198733863484353864354819220889860708790407821680")
    );
    let p = modp();
    let p_minus_1 = &p - BigUint::from(1u32);
    assert_eq!(mod_add(&p_minus_1, &BigUint::from(1u32)), BigUint::from(0u32));
    assert_eq!(mod_add(&p_minus_1, &BigUint::from(5u32)), BigUint::from(4u32));
    assert_eq!(mod_add(&p, &p), BigUint::from(0u32));
}

#[test]
fn sub_handles_smaller_minuend() {
    assert_eq!(
        mod_sub(&big(A), &big(B)),
        big("50674112723963428416820482090286763332817662739662260525928928995943081391600")
    );
    assert_eq!(
        mod_sub(&big(B), &big(A)),
        big("65117976513352767006750502918401144520452321925978303513528655011965753280063")
    );
    let p = modp();
    assert_eq!(mod_sub(&BigUint::from(0u32), &BigUint::from(1u32)), &p - BigUint::from(1u32));
    assert_eq!(mod_sub(&BigUint::from(7u32), &BigUint::from(7u32)), BigUint::from(0u32));
    assert_eq!(mod_sub(&BigUint::from(0u32), &p), BigUint::from(0u32));
}

#[test]
fn sub_of_value_beyond_twice_p() {
    let p = modp();
    let big_b = &p * BigUint::from(2u32) + BigUint::from(3u32);
    assert_eq!(mod_sub(&BigUint::from(1u32), &big_b), &p - BigUint::from(2u32));
}

#[test]
fn mul_reduces_modulo_p() {
    assert_eq!(
        mod_mul(&big(A), &big(B)),
        big("88284366176142779180786603312267127526431277103419661465876920051043034671784")
    );
    let p = modp();
    let p_minus_1 = &p - BigUint::from(1u32);
    assert_eq!(mod_mul(&p_minus_1, &p_minus_1), BigUint::from(1u32));
    assert_eq!(mod_mul(&big(A), &BigUint::from(0u32)), BigUint::from(0u32));
}

#[test]
fn inverse_values() {
    assert_eq!(
        mod_inv(&BigUint::from(2u32)),
        Ok(big("57896044618658097711785492504343953926634992332820282019728792003954417335832"))
    );
    assert_eq!(
        mod_inv(&BigUint::from(3u32)),
        Ok(big("77194726158210796949047323339125271902179989777093709359638389338605889781109"))
    );
    assert_eq!(
        mod_inv(&big(A)),
        Ok(big("12052500814400570413954668804643392336588144844739910425200908867056820416865"))
    );
    assert_eq!(mod_inv(&BigUint::from(1u32)), Ok(BigUint::from(1u32)));
}

#[test]
fn inverse_times_value_is_one() {
    for s in [A, B, "2", "977", "4294967296"] {
        let a = big(s);
        let i = mod_inv(&a).unwrap();
        assert_eq!(mod_mul(&a, &i), BigUint::from(1u32));
    }
}

#[test]
fn inverse_of_zero_is_invalid_input() {
    assert_eq!(mod_inv(&BigUint::from(0u32)), Err(FieldError::InvalidInput));
}

#[test]
fn inverse_of_p_is_zero() {
    assert_eq!(mod_inv(&modp()), Ok(BigUint::from(0u32)));
}
