//! The arbitrary-precision integers of `num_bigint`, as Verus sees them.
//!
//! A `BigUint` is opaque to the verifier.  Its numeric value is named by
//! [`big_value`], and each operation the library uses is a small function
//! whose contract states, over that value, what `num_bigint` computes.
//! These contracts are believed, not proved.

use num_bigint::BigUint;
use num_traits::One;
use num_traits::Zero;
use vstd::arithmetic::power::pow;
use crate::bits::{bit_at, bit_length};
use vstd::arithmetic::power2::pow2;
use vstd::prelude::*;

verus! {

/// `num_bigint::BigUint`, declared so that it can stand in signatures; the
/// verifier sees nothing inside a value of it.
#[verifier::external_type_specification]
#[verifier::external_body]
pub struct ExBigUint(num_bigint::BigUint);

/// The natural number that a `BigUint` holds.
pub uninterp spec fn big_value(b: BigUint) -> nat;

/// `BigUint::from(u32)`: the result holds the value of `n`.
#[verifier::external_body]
pub(crate) fn big_from_u32(n: u32) -> (r: BigUint)
    ensures
        big_value(r) == n,
{
    BigUint::from(n)
}

/// `One::one` for `BigUint`: the result holds one.
#[verifier::external_body]
pub(crate) fn big_one() -> (r: BigUint)
    ensures
        big_value(r) == 1,
{
    BigUint::one()
}

/// `Clone::clone` for `BigUint`: the copy holds the same value.
#[verifier::external_body]
pub(crate) fn big_clone(a: &BigUint) -> (r: BigUint)
    ensures
        big_value(r) == big_value(*a),
{
    a.clone()
}

/// `Zero::is_zero` for `BigUint`: true exactly when the value is zero.
#[verifier::external_body]
pub(crate) fn big_is_zero(a: &BigUint) -> (r: bool)
    ensures
        r == (big_value(*a) == 0),
{
    a.is_zero()
}

/// `PartialEq::eq` for `BigUint`: true exactly when both hold the same value.
#[verifier::external_body]
pub(crate) fn big_eq(a: &BigUint, b: &BigUint) -> (r: bool)
    ensures
        r == (big_value(*a) == big_value(*b)),
{
    a == b
}

/// `PartialOrd::ge` for `BigUint`: the order of the values.
#[verifier::external_body]
pub(crate) fn big_ge(a: &BigUint, b: &BigUint) -> (r: bool)
    ensures
        r == (big_value(*a) >= big_value(*b)),
{
    a >= b
}

/// `&BigUint + &BigUint`: the exact sum.
#[verifier::external_body]
pub(crate) fn big_add(a: &BigUint, b: &BigUint) -> (r: BigUint)
    ensures
        big_value(r) == big_value(*a) + big_value(*b),
{
    a + b
}

/// `&BigUint - &BigUint`: the exact difference.  The subtraction panics when
/// the second operand is the larger one, so that case is excluded.
#[verifier::external_body]
pub(crate) fn big_sub(a: &BigUint, b: &BigUint) -> (r: BigUint)
    requires
        big_value(*a) >= big_value(*b),
    ensures
        big_value(r) == big_value(*a) - big_value(*b),
{
    a - b
}

/// `&BigUint * &BigUint`: the exact product.
#[verifier::external_body]
pub(crate) fn big_mul(a: &BigUint, b: &BigUint) -> (r: BigUint)
    ensures
        big_value(r) == big_value(*a) * big_value(*b),
{
    a * b
}

/// `&BigUint % &BigUint`: the remainder of the division.  A zero divisor
/// panics, so it is excluded.
#[verifier::external_body]
pub(crate) fn big_rem(a: &BigUint, m: &BigUint) -> (r: BigUint)
    requires
        big_value(*m) != 0,
    ensures
        big_value(r) == big_value(*a) % big_value(*m),
{
    a % m
}

/// `BigUint << usize`: the value times the given power of two.
#[verifier::external_body]
pub(crate) fn big_shl(a: &BigUint, n: usize) -> (r: BigUint)
    ensures
        big_value(r) == big_value(*a) * pow2(n as nat),
{
    a << n
}

/// `BigUint::modpow`: the power reduced by the modulus.  A zero modulus
/// panics, so it is excluded.
#[verifier::external_body]
pub(crate) fn big_modpow(a: &BigUint, e: &BigUint, m: &BigUint) -> (r: BigUint)
    requires
        big_value(*m) != 0,
    ensures
        big_value(r) == pow(big_value(*a) as int, big_value(*e)) % (big_value(*m) as int),
{
    a.modpow(e, m)
}

/// `BigUint::bits`: the fewest bits that express the value.
#[verifier::external_body]
pub(crate) fn big_bits(a: &BigUint) -> (r: u64)
    ensures
        r == bit_length(big_value(*a)),
{
    a.bits()
}

/// `BigUint::bit`: whether the bit at the given position is set.
#[verifier::external_body]
pub(crate) fn big_bit(a: &BigUint, i: u64) -> (r: bool)
    ensures
        r == bit_at(big_value(*a), i as nat),
{
    a.bit(i)
}

} // verus!
