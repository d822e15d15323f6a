//! Arithmetic core of the secp256k1 elliptic curve `y^2 = x^3 + 7` over the
//! prime field of `p = 2^256 - 2^32 - 977`.
//!
//! The executable part works on `num_bigint::BigUint`:
//!
//! * [`affine`]: the field operations and the group law in affine
//!   coordinates;
//! * [`jacobian`]: addition and doubling in Jacobian coordinates;
//! * [`scalar_mul`]: double-and-add scalar multiplication in both
//!   coordinate systems.
//!
//! Every function states what it computes over natural numbers, and Verus
//! proves it.  What `num_bigint` computes is stated, not proved, in [`big`].
//!
//! The rest is mathematics:
//!
//! * [`field`], [`bits`]: the models the contracts speak of;
//! * [`modular`], [`inverse`], [`curve`]: congruences, inverses and the
//!   algebra that ties the two coordinate systems together;
//! * [`primes`], [`primality`]: number theory up to Lucas's criterion, and
//!   the certificate that `p` is prime;
//! * [`laws`]: what holds between the operations.

pub mod affine;
pub mod big;
pub mod bits;
pub mod curve;
pub mod field;
pub mod inverse;
pub mod jacobian;
pub mod laws;
pub mod modular;
pub mod primality;
pub mod primes;
pub mod scalar_mul;

pub use affine::affine_add;
pub use jacobian::jacobian_add;
pub use scalar_mul::{affine_scalar_mul, jacobian_scalar_mul};
