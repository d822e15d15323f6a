//! The binary digits of a natural number, most significant first.

use vstd::arithmetic::div_mod::{lemma_basic_div, lemma_div_denominator};
use vstd::arithmetic::power2::{lemma_pow2_pos, lemma_pow2_unfold, pow2};
use vstd::prelude::*;

verus! {

/// The number of binary digits of `n`: zero for zero, otherwise the position
/// of the highest set bit, counted from one.
pub open spec fn bit_length(n: nat) -> nat
    decreases n,
{
    if n == 0 {
        0
    } else {
        1 + bit_length(n / 2)
    }
}

/// Whether the binary digit of weight `2^i` is set in `n`.
pub open spec fn bit_at(n: nat, i: nat) -> bool {
    (n / pow2(i)) % 2 == 1
}

/// The number formed by the binary digits of `n` above the lowest `i`.
pub open spec fn bits_above(n: nat, i: nat) -> nat {
    n / pow2(i)
}

/// A number is smaller than two to the power of its bit length.
pub proof fn lemma_bit_length_bound(n: nat)
    ensures
        n < pow2(bit_length(n)),
    decreases n,
{
    if n == 0 {
        lemma_pow2_pos(0);
    } else {
        lemma_bit_length_bound(n / 2);
        lemma_pow2_unfold(bit_length(n));
    }
}

/// No digits lie above the bit length.
pub proof fn lemma_bits_above_length(n: nat)
    ensures
        bits_above(n, bit_length(n)) == 0,
{
    lemma_bit_length_bound(n);
    lemma_basic_div(n as int, pow2(bit_length(n)) as int);
}

/// All digits lie above position zero.
pub proof fn lemma_bits_above_zero(n: nat)
    ensures
        bits_above(n, 0) == n,
{
    vstd::arithmetic::power2::lemma2_to64();
}

/// Taking one more digit appends it to the digits above: the longer prefix
/// is twice the shorter one plus the digit.
pub proof fn lemma_bits_above_step(n: nat, i: nat)
    requires
        i > 0,
    ensures
        bits_above(n, (i - 1) as nat) / 2 == bits_above(n, i),
        (bits_above(n, (i - 1) as nat) % 2 == 1) == bit_at(n, (i - 1) as nat),
{
    let j = (i - 1) as nat;
    lemma_pow2_pos(j);
    lemma_pow2_unfold(i);
    lemma_div_denominator(n as int, pow2(j) as int, 2);
    assert(pow2(j) * 2 == pow2(i));
}

} // verus!
