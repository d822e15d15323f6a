//! The proof that the field modulus is prime.
//!
//! Each prime `n` involved has a certificate after Lucas: a base whose
//! order modulo `n` is `n - 1`, shown by power chains, together with the
//! prime factors of `n - 1`, each certified in turn.

use crate::field::field_modulus;
use crate::primes::{is_prime, lemma_fermat, lemma_lucas, lucas_witness, power_mod};
use vstd::prelude::*;

pub mod chain;
pub mod modulus;
pub mod prime_128;
pub mod prime_237;
pub mod prime_75;
pub mod prime_77;
pub mod small;

verus! {

/// Three generates the nonzero residues modulo the field modulus.
pub proof fn lemma_field_witness()
    ensures
        lucas_witness(field_modulus(), 3),
{
    crate::primality::modulus::lemma_witness();
}

/// The field modulus is prime.
pub proof fn lemma_field_modulus_prime()
    ensures
        is_prime(field_modulus()),
{
    lemma_field_witness();
    lemma_lucas(field_modulus(), 3);
}

/// Fermat's little theorem in the field: every number that is not a
/// multiple of `p`, raised to the power `p - 1`, leaves the residue one.
pub proof fn lemma_field_fermat(a: nat)
    requires
        a % field_modulus() != 0,
    ensures
        power_mod(a, (field_modulus() - 1) as nat, field_modulus()) == 1,
{
    lemma_field_witness();
    lemma_fermat(field_modulus(), 3, a);
}

} // verus!
