//! The prime field of secp256k1 as mathematics: the modulus and the four
//! field operations on natural numbers.

use vstd::arithmetic::power::pow;
use vstd::prelude::*;

verus! {

/// The field modulus `p = 2^256 - 2^32 - 977`.
pub open spec fn field_modulus() -> nat {
    0xFFFFFFFFFFFFFFFFFFFFFFFFFFFFFFFFFFFFFFFFFFFFFFFFFFFFFFFEFFFFFC2Fnat
}

/// Whether `a` is a reduced field element, that is, lies in `[0, p)`.
pub open spec fn is_reduced(a: nat) -> bool {
    a < field_modulus()
}

/// `(a + b) mod p`.
pub open spec fn field_add(a: nat, b: nat) -> nat {
    (a + b) % field_modulus()
}

/// `(a - b) mod p`, the representative in `[0, p)`.
pub open spec fn field_sub(a: nat, b: nat) -> nat {
    ((a - b) % (field_modulus() as int)) as nat
}

/// `(a * b) mod p`.
pub open spec fn field_mul(a: nat, b: nat) -> nat {
    (a * b) % field_modulus()
}

/// `a^(p-2) mod p`, the inverse of `a` by Fermat's little theorem.
pub open spec fn field_inv(a: nat) -> nat {
    (pow(a as int, (field_modulus() - 2) as nat) % (field_modulus() as int)) as nat
}

} // verus!
