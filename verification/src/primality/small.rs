//! Certificates of the primes below `2^64` that the certificate of the field
//! modulus rests on.

use crate::primality::chain::{
    lemma_chain_compose, lemma_chain_square, lemma_chain_square_mul, lemma_chain_start,
    lemma_prime_2,
};
use crate::primes::{
    divides, is_prime, lemma_lucas, lemma_prime_factor, lemma_prime_not_unit, lucas_witness,
    power_mod,
};
use vstd::prelude::*;

verus! {

/// `2` is a Lucas witness for `3`.
pub proof fn lemma_witness_3()
    ensures
        lucas_witness(3, 2),
{
    lemma_prime_2();
    // The base raised to n - 1, one prime power of n - 1 after the other.
    lemma_chain_start(2, 3);
    let e: nat = 1;
    let e: nat = lemma_chain_square(2, 3, e, 2);
    assert(power_mod(2, 2, 3) == 1);
    // The base raised to (n - 1) / q, for each prime q that divides n - 1.
    // No other prime divides n - 1.
    assert forall|q: nat| #[trigger] is_prime(q) && divides(q, (3 - 1) as nat) implies power_mod(
        2,
        ((3 - 1) / (q as int)) as nat,
        3,
    ) != 1 by {
        lemma_prime_factor(q, 2, 1);
        if q != 2 {
            lemma_prime_not_unit(q);
        }
        if q == 2 {
            assert((3 - 1) / 2int == 1);
        }
    }
}

/// `3` is prime.
pub proof fn lemma_prime_3()
    ensures
        is_prime(3),
{
    lemma_witness_3();
    lemma_lucas(3, 2);
}

/// `3` is a Lucas witness for `7`.
pub proof fn lemma_witness_7()
    ensures
        lucas_witness(7, 3),
{
    lemma_prime_2();
    lemma_prime_3();
    // The base raised to n - 1, one prime power of n - 1 after the other.
    lemma_chain_start(3, 7);
    let e: nat = 1;
    let e: nat = lemma_chain_square_mul(3, 7, e, 3);
    assert(power_mod(3, 3, 7) == 6);
    lemma_chain_start(6, 7);
    let e: nat = 1;
    let e: nat = lemma_chain_square(6, 7, e, 6);
    assert(power_mod(6, 2, 7) == 1);
    lemma_chain_compose(3, 3, 6, 2, 7);
    // The base raised to (n - 1) / q, for each prime q that divides n - 1.
    lemma_chain_start(3, 7);
    let e: nat = 1;
    let e: nat = lemma_chain_square(3, 7, e, 3);
    assert(power_mod(3, 2, 7) == 2);
    // No other prime divides n - 1.
    assert forall|q: nat| #[trigger] is_prime(q) && divides(q, (7 - 1) as nat) implies power_mod(
        3,
        ((7 - 1) / (q as int)) as nat,
        7,
    ) != 1 by {
        lemma_prime_factor(q, 3, 2);
        if q != 3 {
            lemma_prime_factor(q, 2, 1);
            if q != 2 {
                lemma_prime_not_unit(q);
            }
        }
        if q == 3 {
            assert((7 - 1) / 3int == 2);
        }
        if q == 2 {
            assert((7 - 1) / 2int == 3);
        }
    }
}

/// `7` is prime.
pub proof fn lemma_prime_7()
    ensures
        is_prime(7),
{
    lemma_witness_7();
    lemma_lucas(7, 3);
}

/// `2` is a Lucas witness for `5`.
pub proof fn lemma_witness_5()
    ensures
        lucas_witness(5, 2),
{
    lemma_prime_2();
    // The base raised to n - 1, one prime power of n - 1 after the other.
    lemma_chain_start(2, 5);
    let e: nat = 1;
    let e: nat = lemma_chain_square(2, 5, e, 2);
    let e: nat = lemma_chain_square(2, 5, e, 4);
    assert(power_mod(2, 4, 5) == 1);
    // The base raised to (n - 1) / q, for each prime q that divides n - 1.
    lemma_chain_start(2, 5);
    let e: nat = 1;
    let e: nat = lemma_chain_square(2, 5, e, 2);
    assert(power_mod(2, 2, 5) == 4);
    // No other prime divides n - 1.
    assert forall|q: nat| #[trigger] is_prime(q) && divides(q, (5 - 1) as nat) implies power_mod(
        2,
        ((5 - 1) / (q as int)) as nat,
        5,
    ) != 1 by {
        lemma_prime_factor(q, 2, 2);
        lemma_prime_factor(q, 2, 1);
        if q != 2 {
            lemma_prime_not_unit(q);
        }
        if q == 2 {
            assert((5 - 1) / 2int == 2);
        }
    }
}

/// `5` is prime.
pub proof fn lemma_prime_5()
    ensures
        is_prime(5),
{
    lemma_witness_5();
    lemma_lucas(5, 2);
}

/// `11` is a Lucas witness for `13441`.
pub proof fn lemma_witness_13441()
    ensures
        lucas_witness(13441, 11),
{
    lemma_prime_2();
    lemma_prime_3();
    lemma_prime_5();
    lemma_prime_7();
    // The base raised to n - 1, one prime power of n - 1 after the other.
    lemma_chain_start(11, 13441);
    let e: nat = 1;
    let e: nat = lemma_chain_square_mul(11, 13441, e, 11);
    let e: nat = lemma_chain_square_mul(11, 13441, e, 1331);
    assert(power_mod(11, 7, 13441) == 11162);
    lemma_chain_start(11162, 13441);
    let e: nat = 1;
    let e: nat = lemma_chain_square(11162, 13441, e, 11162);
    let e: nat = lemma_chain_square_mul(11162, 13441, e, 5615);
    assert(power_mod(11162, 5, 13441) == 5820);
    lemma_chain_compose(11, 7, 11162, 5, 13441);
    lemma_chain_start(5820, 13441);
    let e: nat = 1;
    let e: nat = lemma_chain_square_mul(5820, 13441, e, 5820);
    assert(power_mod(5820, 3, 13441) == 8653);
    lemma_chain_compose(11, 35, 5820, 3, 13441);
    lemma_chain_start(8653, 13441);
    let e: nat = 1;
    let e: nat = lemma_chain_square(8653, 13441, e, 8653);
    let e: nat = lemma_chain_square(8653, 13441, e, 8039);
    let e: nat = lemma_chain_square(8653, 13441, e, 1193);
    let e: nat = lemma_chain_square(8653, 13441, e, 11944);
    let e: nat = lemma_chain_square(8653, 13441, e, 9803);
    let e: nat = lemma_chain_square(8653, 13441, e, 9100);
    let e: nat = lemma_chain_square(8653, 13441, e, 13440);
    assert(power_mod(8653, 128, 13441) == 1);
    lemma_chain_compose(11, 105, 8653, 128, 13441);
    // The base raised to (n - 1) / q, for each prime q that divides n - 1.
    lemma_chain_start(11, 13441);
    let e: nat = 1;
    let e: nat = lemma_chain_square_mul(11, 13441, e, 11);
    let e: nat = lemma_chain_square_mul(11, 13441, e, 1331);
    let e: nat = lemma_chain_square_mul(11, 13441, e, 11162);
    let e: nat = lemma_chain_square(11, 13441, e, 8001);
    let e: nat = lemma_chain_square(11, 13441, e, 9959);
    let e: nat = lemma_chain_square(11, 13441, e, 542);
    let e: nat = lemma_chain_square(11, 13441, e, 11503);
    let e: nat = lemma_chain_square(11, 13441, e, 5805);
    let e: nat = lemma_chain_square(11, 13441, e, 1438);
    let e: nat = lemma_chain_square(11, 13441, e, 11371);
    assert(power_mod(11, 1920, 13441) == 10662);
    lemma_chain_start(11162, 13441);
    let e: nat = 1;
    let e: nat = lemma_chain_square_mul(11162, 13441, e, 11162);
    let e: nat = lemma_chain_square(11162, 13441, e, 12688);
    let e: nat = lemma_chain_square(11162, 13441, e, 2487);
    let e: nat = lemma_chain_square(11162, 13441, e, 2309);
    let e: nat = lemma_chain_square(11162, 13441, e, 8845);
    let e: nat = lemma_chain_square(11162, 13441, e, 7405);
    let e: nat = lemma_chain_square(11162, 13441, e, 8186);
    let e: nat = lemma_chain_square(11162, 13441, e, 7211);
    assert(power_mod(11162, 384, 13441) == 8733);
    lemma_chain_compose(11, 7, 11162, 384, 13441);
    lemma_chain_start(5820, 13441);
    let e: nat = 1;
    let e: nat = lemma_chain_square(5820, 13441, e, 5820);
    let e: nat = lemma_chain_square(5820, 13441, e, 1080);
    let e: nat = lemma_chain_square(5820, 13441, e, 10474);
    let e: nat = lemma_chain_square(5820, 13441, e, 12675);
    let e: nat = lemma_chain_square(5820, 13441, e, 8793);
    let e: nat = lemma_chain_square(5820, 13441, e, 4217);
    let e: nat = lemma_chain_square(5820, 13441, e, 646);
    assert(power_mod(5820, 128, 13441) == 645);
    lemma_chain_compose(11, 35, 5820, 128, 13441);
    lemma_chain_start(8653, 13441);
    let e: nat = 1;
    let e: nat = lemma_chain_square(8653, 13441, e, 8653);
    let e: nat = lemma_chain_square(8653, 13441, e, 8039);
    let e: nat = lemma_chain_square(8653, 13441, e, 1193);
    let e: nat = lemma_chain_square(8653, 13441, e, 11944);
    let e: nat = lemma_chain_square(8653, 13441, e, 9803);
    let e: nat = lemma_chain_square(8653, 13441, e, 9100);
    assert(power_mod(8653, 64, 13441) == 13440);
    lemma_chain_compose(11, 105, 8653, 64, 13441);
    // No other prime divides n - 1.
    assert forall|q: nat|
        #[trigger] is_prime(q) && divides(
            q,
            (13441 - 1) as nat,
        ) implies power_mod(
        11,
        ((13441 - 1) / (q as int)) as nat,
        13441,
    ) != 1 by {
        lemma_prime_factor(q, 7, 1920);
        if q != 7 {
            lemma_prime_factor(q, 5, 384);
            if q != 5 {
                lemma_prime_factor(q, 3, 128);
                if q != 3 {
                    lemma_prime_factor(q, 2, 64);
                    lemma_prime_factor(q, 2, 32);
                    lemma_prime_factor(q, 2, 16);
                    lemma_prime_factor(q, 2, 8);
                    lemma_prime_factor(q, 2, 4);
                    lemma_prime_factor(q, 2, 2);
                    lemma_prime_factor(q, 2, 1);
                    if q != 2 {
                        lemma_prime_not_unit(q);
                    }
                }
            }
        }
        if q == 7 {
            assert((13441 - 1) / 7int == 1920);
        }
        if q == 5 {
            assert((13441 - 1) / 5int == 2688);
        }
        if q == 3 {
            assert((13441 - 1) / 3int == 4480);
        }
        if q == 2 {
            assert((13441 - 1) / 2int == 6720);
        }
    }
}

/// `13441` is prime.
pub proof fn lemma_prime_13441()
    ensures
        is_prime(13441),
{
    lemma_witness_13441();
    lemma_lucas(13441, 11);
}

/// `2` is a Lucas witness for `29`.
pub proof fn lemma_witness_29()
    ensures
        lucas_witness(29, 2),
{
    lemma_prime_2();
    lemma_prime_7();
    // The base raised to n - 1, one prime power of n - 1 after the other.
    lemma_chain_start(2, 29);
    let e: nat = 1;
    let e: nat = lemma_chain_square_mul(2, 29, e, 2);
    let e: nat = lemma_chain_square_mul(2, 29, e, 8);
    assert(power_mod(2, 7, 29) == 12);
    lemma_chain_start(12, 29);
    let e: nat = 1;
    let e: nat = lemma_chain_square(12, 29, e, 12);
    let e: nat = lemma_chain_square(12, 29, e, 28);
    assert(power_mod(12, 4, 29) == 1);
    lemma_chain_compose(2, 7, 12, 4, 29);
    // The base raised to (n - 1) / q, for each prime q that divides n - 1.
    lemma_chain_start(2, 29);
    let e: nat = 1;
    let e: nat = lemma_chain_square(2, 29, e, 2);
    let e: nat = lemma_chain_square(2, 29, e, 4);
    assert(power_mod(2, 4, 29) == 16);
    lemma_chain_start(12, 29);
    let e: nat = 1;
    let e: nat = lemma_chain_square(12, 29, e, 12);
    assert(power_mod(12, 2, 29) == 28);
    lemma_chain_compose(2, 7, 12, 2, 29);
    // No other prime divides n - 1.
    assert forall|q: nat| #[trigger] is_prime(q) && divides(q, (29 - 1) as nat) implies power_mod(
        2,
        ((29 - 1) / (q as int)) as nat,
        29,
    ) != 1 by {
        lemma_prime_factor(q, 7, 4);
        if q != 7 {
            lemma_prime_factor(q, 2, 2);
            lemma_prime_factor(q, 2, 1);
            if q != 2 {
                lemma_prime_not_unit(q);
            }
        }
        if q == 7 {
            assert((29 - 1) / 7int == 4);
        }
        if q == 2 {
            assert((29 - 1) / 2int == 14);
        }
    }
}

/// `29` is prime.
pub proof fn lemma_prime_29()
    ensures
        is_prime(29),
{
    lemma_witness_29();
    lemma_lucas(29, 2);
}

/// `3` is a Lucas witness for `31`.
pub proof fn lemma_witness_31()
    ensures
        lucas_witness(31, 3),
{
    lemma_prime_2();
    lemma_prime_3();
    lemma_prime_5();
    // The base raised to n - 1, one prime power of n - 1 after the other.
    lemma_chain_start(3, 31);
    let e: nat = 1;
    let e: nat = lemma_chain_square(3, 31, e, 3);
    let e: nat = lemma_chain_square_mul(3, 31, e, 9);
    assert(power_mod(3, 5, 31) == 26);
    lemma_chain_start(26, 31);
    let e: nat = 1;
    let e: nat = lemma_chain_square_mul(26, 31, e, 26);
    assert(power_mod(26, 3, 31) == 30);
    lemma_chain_compose(3, 5, 26, 3, 31);
    lemma_chain_start(30, 31);
    let e: nat = 1;
    let e: nat = lemma_chain_square(30, 31, e, 30);
    assert(power_mod(30, 2, 31) == 1);
    lemma_chain_compose(3, 15, 30, 2, 31);
    // The base raised to (n - 1) / q, for each prime q that divides n - 1.
    lemma_chain_start(3, 31);
    let e: nat = 1;
    let e: nat = lemma_chain_square_mul(3, 31, e, 3);
    let e: nat = lemma_chain_square(3, 31, e, 27);
    assert(power_mod(3, 6, 31) == 16);
    lemma_chain_start(26, 31);
    let e: nat = 1;
    let e: nat = lemma_chain_square(26, 31, e, 26);
    assert(power_mod(26, 2, 31) == 25);
    lemma_chain_compose(3, 5, 26, 2, 31);
    // No other prime divides n - 1.
    assert forall|q: nat| #[trigger] is_prime(q) && divides(q, (31 - 1) as nat) implies power_mod(
        3,
        ((31 - 1) / (q as int)) as nat,
        31,
    ) != 1 by {
        lemma_prime_factor(q, 5, 6);
        if q != 5 {
            lemma_prime_factor(q, 3, 2);
            if q != 3 {
                lemma_prime_factor(q, 2, 1);
                if q != 2 {
                    lemma_prime_not_unit(q);
                }
            }
        }
        if q == 5 {
            assert((31 - 1) / 5int == 6);
        }
        if q == 3 {
            assert((31 - 1) / 3int == 10);
        }
        if q == 2 {
            assert((31 - 1) / 2int == 15);
        }
    }
}

/// `31` is prime.
pub proof fn lemma_prime_31()
    ensures
        is_prime(31),
{
    lemma_witness_31();
    lemma_lucas(31, 3);
}

/// `2` is a Lucas witness for `11`.
pub proof fn lemma_witness_11()
    ensures
        lucas_witness(11, 2),
{
    lemma_prime_2();
    lemma_prime_5();
    // The base raised to n - 1, one prime power of n - 1 after the other.
    lemma_chain_start(2, 11);
    let e: nat = 1;
    let e: nat = lemma_chain_square(2, 11, e, 2);
    let e: nat = lemma_chain_square_mul(2, 11, e, 4);
    assert(power_mod(2, 5, 11) == 10);
    lemma_chain_start(10, 11);
    let e: nat = 1;
    let e: nat = lemma_chain_square(10, 11, e, 10);
    assert(power_mod(10, 2, 11) == 1);
    lemma_chain_compose(2, 5, 10, 2, 11);
    // The base raised to (n - 1) / q, for each prime q that divides n - 1.
    lemma_chain_start(2, 11);
    let e: nat = 1;
    let e: nat = lemma_chain_square(2, 11, e, 2);
    assert(power_mod(2, 2, 11) == 4);
    // No other prime divides n - 1.
    assert forall|q: nat| #[trigger] is_prime(q) && divides(q, (11 - 1) as nat) implies power_mod(
        2,
        ((11 - 1) / (q as int)) as nat,
        11,
    ) != 1 by {
        lemma_prime_factor(q, 5, 2);
        if q != 5 {
            lemma_prime_factor(q, 2, 1);
            if q != 2 {
                lemma_prime_not_unit(q);
            }
        }
        if q == 5 {
            assert((11 - 1) / 5int == 2);
        }
        if q == 2 {
            assert((11 - 1) / 2int == 5);
        }
    }
}

/// `11` is prime.
pub proof fn lemma_prime_11()
    ensures
        is_prime(11),
{
    lemma_witness_11();
    lemma_lucas(11, 2);
}

/// `2` is a Lucas witness for `13`.
pub proof fn lemma_witness_13()
    ensures
        lucas_witness(13, 2),
{
    lemma_prime_2();
    lemma_prime_3();
    // The base raised to n - 1, one prime power of n - 1 after the other.
    lemma_chain_start(2, 13);
    let e: nat = 1;
    let e: nat = lemma_chain_square_mul(2, 13, e, 2);
    assert(power_mod(2, 3, 13) == 8);
    lemma_chain_start(8, 13);
    let e: nat = 1;
    let e: nat = lemma_chain_square(8, 13, e, 8);
    let e: nat = lemma_chain_square(8, 13, e, 12);
    assert(power_mod(8, 4, 13) == 1);
    lemma_chain_compose(2, 3, 8, 4, 13);
    // The base raised to (n - 1) / q, for each prime q that divides n - 1.
    lemma_chain_start(2, 13);
    let e: nat = 1;
    let e: nat = lemma_chain_square(2, 13, e, 2);
    let e: nat = lemma_chain_square(2, 13, e, 4);
    assert(power_mod(2, 4, 13) == 3);
    lemma_chain_start(8, 13);
    let e: nat = 1;
    let e: nat = lemma_chain_square(8, 13, e, 8);
    assert(power_mod(8, 2, 13) == 12);
    lemma_chain_compose(2, 3, 8, 2, 13);
    // No other prime divides n - 1.
    assert forall|q: nat| #[trigger] is_prime(q) && divides(q, (13 - 1) as nat) implies power_mod(
        2,
        ((13 - 1) / (q as int)) as nat,
        13,
    ) != 1 by {
        lemma_prime_factor(q, 3, 4);
        if q != 3 {
            lemma_prime_factor(q, 2, 2);
            lemma_prime_factor(q, 2, 1);
            if q != 2 {
                lemma_prime_not_unit(q);
            }
        }
        if q == 3 {
            assert((13 - 1) / 3int == 4);
        }
        if q == 2 {
            assert((13 - 1) / 2int == 6);
        }
    }
}

/// `13` is prime.
pub proof fn lemma_prime_13()
    ensures
        is_prime(13),
{
    lemma_witness_13();
    lemma_lucas(13, 2);
}

/// `3` is a Lucas witness for `7723`.
pub proof fn lemma_witness_7723()
    ensures
        lucas_witness(7723, 3),
{
    lemma_prime_2();
    lemma_prime_3();
    lemma_prime_11();
    lemma_prime_13();
    // The base raised to n - 1, one prime power of n - 1 after the other.
    lemma_chain_start(3, 7723);
    let e: nat = 1;
    let e: nat = lemma_chain_square_mul(3, 7723, e, 3);
    let e: nat = lemma_chain_square(3, 7723, e, 27);
    let e: nat = lemma_chain_square_mul(3, 7723, e, 729);
    assert(power_mod(3, 13, 7723) == 3385);
    lemma_chain_start(3385, 7723);
    let e: nat = 1;
    let e: nat = lemma_chain_square(3385, 7723, e, 3385);
    let e: nat = lemma_chain_square_mul(3385, 7723, e, 5016);
    let e: nat = lemma_chain_square_mul(3385, 7723, e, 6573);
    assert(power_mod(3385, 11, 7723) == 2381);
    lemma_chain_compose(3, 13, 3385, 11, 7723);
    lemma_chain_start(2381, 7723);
    let e: nat = 1;
    let e: nat = lemma_chain_square_mul(2381, 7723, e, 2381);
    let e: nat = lemma_chain_square(2381, 7723, e, 5218);
    let e: nat = lemma_chain_square_mul(2381, 7723, e, 3949);
    let e: nat = lemma_chain_square_mul(2381, 7723, e, 5182);
    assert(power_mod(2381, 27, 7723) == 7722);
    lemma_chain_compose(3, 143, 2381, 27, 7723);
    lemma_chain_start(7722, 7723);
    let e: nat = 1;
    let e: nat = lemma_chain_square(7722, 7723, e, 7722);
    assert(power_mod(7722, 2, 7723) == 1);
    lemma_chain_compose(3, 3861, 7722, 2, 7723);
    // The base raised to (n - 1) / q, for each prime q that divides n - 1.
    lemma_chain_start(3, 7723);
    let e: nat = 1;
    let e: nat = lemma_chain_square(3, 7723, e, 3);
    let e: nat = lemma_chain_square(3, 7723, e, 9);
    let e: nat = lemma_chain_square_mul(3, 7723, e, 81);
    let e: nat = lemma_chain_square(3, 7723, e, 4237);
    let e: nat = lemma_chain_square_mul(3, 7723, e, 3917);
    let e: nat = lemma_chain_square(3, 7723, e, 7310);
    let e: nat = lemma_chain_square(3, 7723, e, 663);
    let e: nat = lemma_chain_square_mul(3, 7723, e, 7081);
    let e: nat = lemma_chain_square(3, 7723, e, 812);
    assert(power_mod(3, 594, 7723) == 2889);
    lemma_chain_start(3385, 7723);
    let e: nat = 1;
    let e: nat = lemma_chain_square_mul(3385, 7723, e, 3385);
    let e: nat = lemma_chain_square(3385, 7723, e, 4006);
    let e: nat = lemma_chain_square_mul(3385, 7723, e, 7365);
    let e: nat = lemma_chain_square_mul(3385, 7723, e, 3338);
    let e: nat = lemma_chain_square(3385, 7723, e, 5206);
    assert(power_mod(3385, 54, 7723) == 2429);
    lemma_chain_compose(3, 13, 3385, 54, 7723);
    lemma_chain_start(2381, 7723);
    let e: nat = 1;
    let e: nat = lemma_chain_square(2381, 7723, e, 2381);
    let e: nat = lemma_chain_square(2381, 7723, e, 479);
    let e: nat = lemma_chain_square_mul(2381, 7723, e, 5474);
    let e: nat = lemma_chain_square(2381, 7723, e, 918);
    assert(power_mod(2381, 18, 7723) == 917);
    lemma_chain_compose(3, 143, 2381, 18, 7723);
    // No other prime divides n - 1.
    assert forall|q: nat| #[trigger] is_prime(q) && divides(q, (7723 - 1) as nat) implies power_mod(
        3,
        ((7723 - 1) / (q as int)) as nat,
        7723,
    ) != 1 by {
        lemma_prime_factor(q, 13, 594);
        if q != 13 {
            lemma_prime_factor(q, 11, 54);
            if q != 11 {
                lemma_prime_factor(q, 3, 18);
                lemma_prime_factor(q, 3, 6);
                lemma_prime_factor(q, 3, 2);
                if q != 3 {
                    lemma_prime_factor(q, 2, 1);
                    if q != 2 {
                        lemma_prime_not_unit(q);
                    }
                }
            }
        }
        if q == 13 {
            assert((7723 - 1) / 13int == 594);
        }
        if q == 11 {
            assert((7723 - 1) / 11int == 702);
        }
        if q == 3 {
            assert((7723 - 1) / 3int == 2574);
        }
        if q == 2 {
            assert((7723 - 1) / 2int == 3861);
        }
    }
}

/// `7723` is prime.
pub proof fn lemma_prime_7723()
    ensures
        is_prime(7723),
{
    lemma_witness_7723();
    lemma_lucas(7723, 3);
}

/// `3` is a Lucas witness for `17`.
pub proof fn lemma_witness_17()
    ensures
        lucas_witness(17, 3),
{
    lemma_prime_2();
    // The base raised to n - 1, one prime power of n - 1 after the other.
    lemma_chain_start(3, 17);
    let e: nat = 1;
    let e: nat = lemma_chain_square(3, 17, e, 3);
    let e: nat = lemma_chain_square(3, 17, e, 9);
    let e: nat = lemma_chain_square(3, 17, e, 13);
    let e: nat = lemma_chain_square(3, 17, e, 16);
    assert(power_mod(3, 16, 17) == 1);
    // The base raised to (n - 1) / q, for each prime q that divides n - 1.
    lemma_chain_start(3, 17);
    let e: nat = 1;
    let e: nat = lemma_chain_square(3, 17, e, 3);
    let e: nat = lemma_chain_square(3, 17, e, 9);
    let e: nat = lemma_chain_square(3, 17, e, 13);
    assert(power_mod(3, 8, 17) == 16);
    // No other prime divides n - 1.
    assert forall|q: nat| #[trigger] is_prime(q) && divides(q, (17 - 1) as nat) implies power_mod(
        3,
        ((17 - 1) / (q as int)) as nat,
        17,
    ) != 1 by {
        lemma_prime_factor(q, 2, 8);
        lemma_prime_factor(q, 2, 4);
        lemma_prime_factor(q, 2, 2);
        lemma_prime_factor(q, 2, 1);
        if q != 2 {
            lemma_prime_not_unit(q);
        }
        if q == 2 {
            assert((17 - 1) / 2int == 8);
        }
    }
}

/// `17` is prime.
pub proof fn lemma_prime_17()
    ensures
        is_prime(17),
{
    lemma_witness_17();
    lemma_lucas(17, 3);
}

/// `2` is a Lucas witness for `443`.
pub proof fn lemma_witness_443()
    ensures
        lucas_witness(443, 2),
{
    lemma_prime_2();
    lemma_prime_13();
    lemma_prime_17();
    // The base raised to n - 1, one prime power of n - 1 after the other.
    lemma_chain_start(2, 443);
    let e: nat = 1;
    let e: nat = lemma_chain_square(2, 443, e, 2);
    let e: nat = lemma_chain_square(2, 443, e, 4);
    let e: nat = lemma_chain_square(2, 443, e, 16);
    let e: nat = lemma_chain_square_mul(2, 443, e, 256);
    assert(power_mod(2, 17, 443) == 387);
    lemma_chain_start(387, 443);
    let e: nat = 1;
    let e: nat = lemma_chain_square_mul(387, 443, e, 387);
    let e: nat = lemma_chain_square(387, 443, e, 255);
    let e: nat = lemma_chain_square_mul(387, 443, e, 347);
    assert(power_mod(387, 13, 443) == 442);
    lemma_chain_compose(2, 17, 387, 13, 443);
    lemma_chain_start(442, 443);
    let e: nat = 1;
    let e: nat = lemma_chain_square(442, 443, e, 442);
    assert(power_mod(442, 2, 443) == 1);
    lemma_chain_compose(2, 221, 442, 2, 443);
    // The base raised to (n - 1) / q, for each prime q that divides n - 1.
    lemma_chain_start(2, 443);
    let e: nat = 1;
    let e: nat = lemma_chain_square_mul(2, 443, e, 2);
    let e: nat = lemma_chain_square(2, 443, e, 8);
    let e: nat = lemma_chain_square_mul(2, 443, e, 64);
    let e: nat = lemma_chain_square(2, 443, e, 218);
    assert(power_mod(2, 26, 443) == 123);
    lemma_chain_start(387, 443);
    let e: nat = 1;
    let e: nat = lemma_chain_square(387, 443, e, 387);
    assert(power_mod(387, 2, 443) == 35);
    lemma_chain_compose(2, 17, 387, 2, 443);
    // No other prime divides n - 1.
    assert forall|q: nat| #[trigger] is_prime(q) && divides(q, (443 - 1) as nat) implies power_mod(
        2,
        ((443 - 1) / (q as int)) as nat,
        443,
    ) != 1 by {
        lemma_prime_factor(q, 17, 26);
        if q != 17 {
            lemma_prime_factor(q, 13, 2);
            if q != 13 {
                lemma_prime_factor(q, 2, 1);
                if q != 2 {
                    lemma_prime_not_unit(q);
                }
            }
        }
        if q == 17 {
            assert((443 - 1) / 17int == 26);
        }
        if q == 13 {
            assert((443 - 1) / 13int == 34);
        }
        if q == 2 {
            assert((443 - 1) / 2int == 221);
        }
    }
}

/// `443` is prime.
pub proof fn lemma_prime_443()
    ensures
        is_prime(443),
{
    lemma_witness_443();
    lemma_lucas(443, 2);
}

/// `5` is a Lucas witness for `887`.
pub proof fn lemma_witness_887()
    ensures
        lucas_witness(887, 5),
{
    lemma_prime_2();
    lemma_prime_443();
    // The base raised to n - 1, one prime power of n - 1 after the other.
    lemma_chain_start(5, 887);
    let e: nat = 1;
    let e: nat = lemma_chain_square_mul(5, 887, e, 5);
    let e: nat = lemma_chain_square(5, 887, e, 125);
    let e: nat = lemma_chain_square_mul(5, 887, e, 546);
    let e: nat = lemma_chain_square_mul(5, 887, e, 420);
    let e: nat = lemma_chain_square_mul(5, 887, e, 322);
    let e: nat = lemma_chain_square(5, 887, e, 412);
    let e: nat = lemma_chain_square_mul(5, 887, e, 327);
    let e: nat = lemma_chain_square_mul(5, 887, e, 671);
    assert(power_mod(5, 443, 887) == 886);
    lemma_chain_start(886, 887);
    let e: nat = 1;
    let e: nat = lemma_chain_square(886, 887, e, 886);
    assert(power_mod(886, 2, 887) == 1);
    lemma_chain_compose(5, 443, 886, 2, 887);
    // The base raised to (n - 1) / q, for each prime q that divides n - 1.
    lemma_chain_start(5, 887);
    let e: nat = 1;
    let e: nat = lemma_chain_square(5, 887, e, 5);
    assert(power_mod(5, 2, 887) == 25);
    // No other prime divides n - 1.
    assert forall|q: nat| #[trigger] is_prime(q) && divides(q, (887 - 1) as nat) implies power_mod(
        5,
        ((887 - 1) / (q as int)) as nat,
        887,
    ) != 1 by {
        lemma_prime_factor(q, 443, 2);
        if q != 443 {
            lemma_prime_factor(q, 2, 1);
            if q != 2 {
                lemma_prime_not_unit(q);
            }
        }
        if q == 443 {
            assert((887 - 1) / 443int == 2);
        }
        if q == 2 {
            assert((887 - 1) / 2int == 443);
        }
    }
}

/// `887` is prime.
pub proof fn lemma_prime_887()
    ensures
        is_prime(887),
{
    lemma_witness_887();
    lemma_lucas(887, 5);
}

/// `5` is a Lucas witness for `5323`.
pub proof fn lemma_witness_5323()
    ensures
        lucas_witness(5323, 5),
{
    lemma_prime_2();
    lemma_prime_3();
    lemma_prime_887();
    // The base raised to n - 1, one prime power of n - 1 after the other.
    lemma_chain_start(5, 5323);
    let e: nat = 1;
    let e: nat = lemma_chain_square_mul(5, 5323, e, 5);
    let e: nat = lemma_chain_square(5, 5323, e, 125);
    let e: nat = lemma_chain_square_mul(5, 5323, e, 4979);
    let e: nat = lemma_chain_square_mul(5, 5323, e, 827);
    let e: nat = lemma_chain_square_mul(5, 5323, e, 2279);
    let e: nat = lemma_chain_square(5, 5323, e, 3611);
    let e: nat = lemma_chain_square_mul(5, 5323, e, 3294);
    let e: nat = lemma_chain_square_mul(5, 5323, e, 164);
    let e: nat = lemma_chain_square_mul(5, 5323, e, 1405);
    assert(power_mod(5, 887, 5323) == 1283);
    lemma_chain_start(1283, 5323);
    let e: nat = 1;
    let e: nat = lemma_chain_square_mul(1283, 5323, e, 1283);
    assert(power_mod(1283, 3, 5323) == 5322);
    lemma_chain_compose(5, 887, 1283, 3, 5323);
    lemma_chain_start(5322, 5323);
    let e: nat = 1;
    let e: nat = lemma_chain_square(5322, 5323, e, 5322);
    assert(power_mod(5322, 2, 5323) == 1);
    lemma_chain_compose(5, 2661, 5322, 2, 5323);
    // The base raised to (n - 1) / q, for each prime q that divides n - 1.
    lemma_chain_start(5, 5323);
    let e: nat = 1;
    let e: nat = lemma_chain_square_mul(5, 5323, e, 5);
    let e: nat = lemma_chain_square(5, 5323, e, 125);
    assert(power_mod(5, 6, 5323) == 4979);
    lemma_chain_start(1283, 5323);
    let e: nat = 1;
    let e: nat = lemma_chain_square(1283, 5323, e, 1283);
    assert(power_mod(1283, 2, 5323) == 1282);
    lemma_chain_compose(5, 887, 1283, 2, 5323);
    // No other prime divides n - 1.
    assert forall|q: nat| #[trigger] is_prime(q) && divides(q, (5323 - 1) as nat) implies power_mod(
        5,
        ((5323 - 1) / (q as int)) as nat,
        5323,
    ) != 1 by {
        lemma_prime_factor(q, 887, 6);
        if q != 887 {
            lemma_prime_factor(q, 3, 2);
            if q != 3 {
                lemma_prime_factor(q, 2, 1);
                if q != 2 {
                    lemma_prime_not_unit(q);
                }
            }
        }
        if q == 887 {
            assert((5323 - 1) / 887int == 6);
        }
        if q == 3 {
            assert((5323 - 1) / 3int == 1774);
        }
        if q == 2 {
            assert((5323 - 1) / 2int == 2661);
        }
    }
}

/// `5323` is prime.
pub proof fn lemma_prime_5323()
    ensures
        is_prime(5323),
{
    lemma_witness_5323();
    lemma_lucas(5323, 5);
}

/// `2` is a Lucas witness for `131`.
pub proof fn lemma_witness_131()
    ensures
        lucas_witness(131, 2),
{
    lemma_prime_2();
    lemma_prime_5();
    lemma_prime_13();
    // The base raised to n - 1, one prime power of n - 1 after the other.
    lemma_chain_start(2, 131);
    let e: nat = 1;
    let e: nat = lemma_chain_square_mul(2, 131, e, 2);
    let e: nat = lemma_chain_square(2, 131, e, 8);
    let e: nat = lemma_chain_square_mul(2, 131, e, 64);
    assert(power_mod(2, 13, 131) == 70);
    lemma_chain_start(70, 131);
    let e: nat = 1;
    let e: nat = lemma_chain_square(70, 131, e, 70);
    let e: nat = lemma_chain_square_mul(70, 131, e, 53);
    assert(power_mod(70, 5, 131) == 130);
    lemma_chain_compose(2, 13, 70, 5, 131);
    lemma_chain_start(130, 131);
    let e: nat = 1;
    let e: nat = lemma_chain_square(130, 131, e, 130);
    assert(power_mod(130, 2, 131) == 1);
    lemma_chain_compose(2, 65, 130, 2, 131);
    // The base raised to (n - 1) / q, for each prime q that divides n - 1.
    lemma_chain_start(2, 131);
    let e: nat = 1;
    let e: nat = lemma_chain_square(2, 131, e, 2);
    let e: nat = lemma_chain_square_mul(2, 131, e, 4);
    let e: nat = lemma_chain_square(2, 131, e, 32);
    assert(power_mod(2, 10, 131) == 107);
    lemma_chain_start(70, 131);
    let e: nat = 1;
    let e: nat = lemma_chain_square(70, 131, e, 70);
    assert(power_mod(70, 2, 131) == 53);
    lemma_chain_compose(2, 13, 70, 2, 131);
    // No other prime divides n - 1.
    assert forall|q: nat| #[trigger] is_prime(q) && divides(q, (131 - 1) as nat) implies power_mod(
        2,
        ((131 - 1) / (q as int)) as nat,
        131,
    ) != 1 by {
        lemma_prime_factor(q, 13, 10);
        if q != 13 {
            lemma_prime_factor(q, 5, 2);
            if q != 5 {
                lemma_prime_factor(q, 2, 1);
                if q != 2 {
                    lemma_prime_not_unit(q);
                }
            }
        }
        if q == 13 {
            assert((131 - 1) / 13int == 10);
        }
        if q == 5 {
            assert((131 - 1) / 5int == 26);
        }
        if q == 2 {
            assert((131 - 1) / 2int == 65);
        }
    }
}

/// `131` is prime.
pub proof fn lemma_prime_131()
    ensures
        is_prime(131),
{
    lemma_witness_131();
    lemma_lucas(131, 2);
}

/// `2` is a Lucas witness for `2621`.
pub proof fn lemma_witness_2621()
    ensures
        lucas_witness(2621, 2),
{
    lemma_prime_2();
    lemma_prime_5();
    lemma_prime_131();
    // The base raised to n - 1, one prime power of n - 1 after the other.
    lemma_chain_start(2, 2621);
    let e: nat = 1;
    let e: nat = lemma_chain_square(2, 2621, e, 2);
    let e: nat = lemma_chain_square(2, 2621, e, 4);
    let e: nat = lemma_chain_square(2, 2621, e, 16);
    let e: nat = lemma_chain_square(2, 2621, e, 256);
    let e: nat = lemma_chain_square(2, 2621, e, 11);
    let e: nat = lemma_chain_square_mul(2, 2621, e, 121);
    let e: nat = lemma_chain_square_mul(2, 2621, e, 451);
    assert(power_mod(2, 131, 2621) == 547);
    lemma_chain_start(547, 2621);
    let e: nat = 1;
    let e: nat = lemma_chain_square(547, 2621, e, 547);
    let e: nat = lemma_chain_square_mul(547, 2621, e, 415);
    assert(power_mod(547, 5, 2621) == 472);
    lemma_chain_compose(2, 131, 547, 5, 2621);
    lemma_chain_start(472, 2621);
    let e: nat = 1;
    let e: nat = lemma_chain_square(472, 2621, e, 472);
    let e: nat = lemma_chain_square(472, 2621, e, 2620);
    assert(power_mod(472, 4, 2621) == 1);
    lemma_chain_compose(2, 655, 472, 4, 2621);
    // The base raised to (n - 1) / q, for each prime q that divides n - 1.
    lemma_chain_start(2, 2621);
    let e: nat = 1;
    let e: nat = lemma_chain_square(2, 2621, e, 2);
    let e: nat = lemma_chain_square_mul(2, 2621, e, 4);
    let e: nat = lemma_chain_square(2, 2621, e, 32);
    let e: nat = lemma_chain_square(2, 2621, e, 1024);
    assert(power_mod(2, 20, 2621) == 176);
    lemma_chain_start(547, 2621);
    let e: nat = 1;
    let e: nat = lemma_chain_square(547, 2621, e, 547);
    let e: nat = lemma_chain_square(547, 2621, e, 415);
    assert(power_mod(547, 4, 2621) == 1860);
    lemma_chain_compose(2, 131, 547, 4, 2621);
    lemma_chain_start(472, 2621);
    let e: nat = 1;
    let e: nat = lemma_chain_square(472, 2621, e, 472);
    assert(power_mod(472, 2, 2621) == 2620);
    lemma_chain_compose(2, 655, 472, 2, 2621);
    // No other prime divides n - 1.
    assert forall|q: nat| #[trigger] is_prime(q) && divides(q, (2621 - 1) as nat) implies power_mod(
        2,
        ((2621 - 1) / (q as int)) as nat,
        2621,
    ) != 1 by {
        lemma_prime_factor(q, 131, 20);
        if q != 131 {
            lemma_prime_factor(q, 5, 4);
            if q != 5 {
                lemma_prime_factor(q, 2, 2);
                lemma_prime_factor(q, 2, 1);
                if q != 2 {
                    lemma_prime_not_unit(q);
                }
            }
        }
        if q == 131 {
            assert((2621 - 1) / 131int == 20);
        }
        if q == 5 {
            assert((2621 - 1) / 5int == 524);
        }
        if q == 2 {
            assert((2621 - 1) / 2int == 1310);
        }
    }
}

/// `2621` is prime.
pub proof fn lemma_prime_2621()
    ensures
        is_prime(2621),
{
    lemma_witness_2621();
    lemma_lucas(2621, 2);
}

/// `6` is a Lucas witness for `24809`.
pub proof fn lemma_witness_24809()
    ensures
        lucas_witness(24809, 6),
{
    lemma_prime_2();
    lemma_prime_7();
    lemma_prime_443();
    // The base raised to n - 1, one prime power of n - 1 after the other.
    lemma_chain_start(6, 24809);
    let e: nat = 1;
    let e: nat = lemma_chain_square_mul(6, 24809, e, 6);
    let e: nat = lemma_chain_square(6, 24809, e, 216);
    let e: nat = lemma_chain_square_mul(6, 24809, e, 21847);
    let e: nat = lemma_chain_square_mul(6, 24809, e, 20775);
    let e: nat = lemma_chain_square_mul(6, 24809, e, 15521);
    let e: nat = lemma_chain_square(6, 24809, e, 11497);
    let e: nat = lemma_chain_square_mul(6, 24809, e, 23466);
    let e: nat = lemma_chain_square_mul(6, 24809, e, 5170);
    assert(power_mod(6, 443, 24809) == 8024);
    lemma_chain_start(8024, 24809);
    let e: nat = 1;
    let e: nat = lemma_chain_square_mul(8024, 24809, e, 8024);
    let e: nat = lemma_chain_square_mul(8024, 24809, e, 15712);
    assert(power_mod(8024, 7, 24809) == 18831);
    lemma_chain_compose(6, 443, 8024, 7, 24809);
    lemma_chain_start(18831, 24809);
    let e: nat = 1;
    let e: nat = lemma_chain_square(18831, 24809, e, 18831);
    let e: nat = lemma_chain_square(18831, 24809, e, 11524);
    let e: nat = lemma_chain_square(18831, 24809, e, 24808);
    assert(power_mod(18831, 8, 24809) == 1);
    lemma_chain_compose(6, 3101, 18831, 8, 24809);
    // The base raised to (n - 1) / q, for each prime q that divides n - 1.
    lemma_chain_start(6, 24809);
    let e: nat = 1;
    let e: nat = lemma_chain_square_mul(6, 24809, e, 6);
    let e: nat = lemma_chain_square_mul(6, 24809, e, 216);
    let e: nat = lemma_chain_square(6, 24809, e, 7037);
    let e: nat = lemma_chain_square(6, 24809, e, 605);
    let e: nat = lemma_chain_square(6, 24809, e, 18699);
    assert(power_mod(6, 56, 24809) == 19364);
    lemma_chain_start(8024, 24809);
    let e: nat = 1;
    let e: nat = lemma_chain_square(8024, 24809, e, 8024);
    let e: nat = lemma_chain_square(8024, 24809, e, 5221);
    let e: nat = lemma_chain_square(8024, 24809, e, 18559);
    assert(power_mod(8024, 8, 24809) == 13134);
    lemma_chain_compose(6, 443, 8024, 8, 24809);
    lemma_chain_start(18831, 24809);
    let e: nat = 1;
    let e: nat = lemma_chain_square(18831, 24809, e, 18831);
    let e: nat = lemma_chain_square(18831, 24809, e, 11524);
    assert(power_mod(18831, 4, 24809) == 24808);
    lemma_chain_compose(6, 3101, 18831, 4, 24809);
    // No other prime divides n - 1.
    assert forall|q: nat|
        #[trigger] is_prime(q) && divides(
            q,
            (24809 - 1) as nat,
        ) implies power_mod(
        6,
        ((24809 - 1) / (q as int)) as nat,
        24809,
    ) != 1 by {
        lemma_prime_factor(q, 443, 56);
        if q != 443 {
            lemma_prime_factor(q, 7, 8);
            if q != 7 {
                lemma_prime_factor(q, 2, 4);
                lemma_prime_factor(q, 2, 2);
                lemma_prime_factor(q, 2, 1);
                if q != 2 {
                    lemma_prime_not_unit(q);
                }
            }
        }
        if q == 443 {
            assert((24809 - 1) / 443int == 56);
        }
        if q == 7 {
            assert((24809 - 1) / 7int == 3544);
        }
        if q == 2 {
            assert((24809 - 1) / 2int == 12404);
        }
    }
}

/// `24809` is prime.
pub proof fn lemma_prime_24809()
    ensures
        is_prime(24809),
{
    lemma_witness_24809();
    lemma_lucas(24809, 6);
}

/// `5` is a Lucas witness for `97`.
pub proof fn lemma_witness_97()
    ensures
        lucas_witness(97, 5),
{
    lemma_prime_2();
    lemma_prime_3();
    // The base raised to n - 1, one prime power of n - 1 after the other.
    lemma_chain_start(5, 97);
    let e: nat = 1;
    let e: nat = lemma_chain_square_mul(5, 97, e, 5);
    assert(power_mod(5, 3, 97) == 28);
    lemma_chain_start(28, 97);
    let e: nat = 1;
    let e: nat = lemma_chain_square(28, 97, e, 28);
    let e: nat = lemma_chain_square(28, 97, e, 8);
    let e: nat = lemma_chain_square(28, 97, e, 64);
    let e: nat = lemma_chain_square(28, 97, e, 22);
    let e: nat = lemma_chain_square(28, 97, e, 96);
    assert(power_mod(28, 32, 97) == 1);
    lemma_chain_compose(5, 3, 28, 32, 97);
    // The base raised to (n - 1) / q, for each prime q that divides n - 1.
    lemma_chain_start(5, 97);
    let e: nat = 1;
    let e: nat = lemma_chain_square(5, 97, e, 5);
    let e: nat = lemma_chain_square(5, 97, e, 25);
    let e: nat = lemma_chain_square(5, 97, e, 43);
    let e: nat = lemma_chain_square(5, 97, e, 6);
    let e: nat = lemma_chain_square(5, 97, e, 36);
    assert(power_mod(5, 32, 97) == 35);
    lemma_chain_start(28, 97);
    let e: nat = 1;
    let e: nat = lemma_chain_square(28, 97, e, 28);
    let e: nat = lemma_chain_square(28, 97, e, 8);
    let e: nat = lemma_chain_square(28, 97, e, 64);
    let e: nat = lemma_chain_square(28, 97, e, 22);
    assert(power_mod(28, 16, 97) == 96);
    lemma_chain_compose(5, 3, 28, 16, 97);
    // No other prime divides n - 1.
    assert forall|q: nat| #[trigger] is_prime(q) && divides(q, (97 - 1) as nat) implies power_mod(
        5,
        ((97 - 1) / (q as int)) as nat,
        97,
    ) != 1 by {
        lemma_prime_factor(q, 3, 32);
        if q != 3 {
            lemma_prime_factor(q, 2, 16);
            lemma_prime_factor(q, 2, 8);
            lemma_prime_factor(q, 2, 4);
            lemma_prime_factor(q, 2, 2);
            lemma_prime_factor(q, 2, 1);
            if q != 2 {
                lemma_prime_not_unit(q);
            }
        }
        if q == 3 {
            assert((97 - 1) / 3int == 32);
        }
        if q == 2 {
            assert((97 - 1) / 2int == 48);
        }
    }
}

/// `97` is prime.
pub proof fn lemma_prime_97()
    ensures
        is_prime(97),
{
    lemma_witness_97();
    lemma_lucas(97, 5);
}

/// `6` is a Lucas witness for `971`.
pub proof fn lemma_witness_971()
    ensures
        lucas_witness(971, 6),
{
    lemma_prime_2();
    lemma_prime_5();
    lemma_prime_97();
    // The base raised to n - 1, one prime power of n - 1 after the other.
    lemma_chain_start(6, 971);
    let e: nat = 1;
    let e: nat = lemma_chain_square_mul(6, 971, e, 6);
    let e: nat = lemma_chain_square(6, 971, e, 216);
    let e: nat = lemma_chain_square(6, 971, e, 48);
    let e: nat = lemma_chain_square(6, 971, e, 362);
    let e: nat = lemma_chain_square(6, 971, e, 930);
    let e: nat = lemma_chain_square_mul(6, 971, e, 710);
    assert(power_mod(6, 97, 971) == 906);
    lemma_chain_start(906, 971);
    let e: nat = 1;
    let e: nat = lemma_chain_square(906, 971, e, 906);
    let e: nat = lemma_chain_square_mul(906, 971, e, 341);
    assert(power_mod(906, 5, 971) == 970);
    lemma_chain_compose(6, 97, 906, 5, 971);
    lemma_chain_start(970, 971);
    let e: nat = 1;
    let e: nat = lemma_chain_square(970, 971, e, 970);
    assert(power_mod(970, 2, 971) == 1);
    lemma_chain_compose(6, 485, 970, 2, 971);
    // The base raised to (n - 1) / q, for each prime q that divides n - 1.
    lemma_chain_start(6, 971);
    let e: nat = 1;
    let e: nat = lemma_chain_square(6, 971, e, 6);
    let e: nat = lemma_chain_square_mul(6, 971, e, 36);
    let e: nat = lemma_chain_square(6, 971, e, 8);
    assert(power_mod(6, 10, 971) == 64);
    lemma_chain_start(906, 971);
    let e: nat = 1;
    let e: nat = lemma_chain_square(906, 971, e, 906);
    assert(power_mod(906, 2, 971) == 341);
    lemma_chain_compose(6, 97, 906, 2, 971);
    // No other prime divides n - 1.
    assert forall|q: nat| #[trigger] is_prime(q) && divides(q, (971 - 1) as nat) implies power_mod(
        6,
        ((971 - 1) / (q as int)) as nat,
        971,
    ) != 1 by {
        lemma_prime_factor(q, 97, 10);
        if q != 97 {
            lemma_prime_factor(q, 5, 2);
            if q != 5 {
                lemma_prime_factor(q, 2, 1);
                if q != 2 {
                    lemma_prime_not_unit(q);
                }
            }
        }
        if q == 97 {
            assert((971 - 1) / 97int == 10);
        }
        if q == 5 {
            assert((971 - 1) / 5int == 194);
        }
        if q == 2 {
            assert((971 - 1) / 2int == 485);
        }
    }
}

/// `971` is prime.
pub proof fn lemma_prime_971()
    ensures
        is_prime(971),
{
    lemma_witness_971();
    lemma_lucas(971, 6);
}

/// `2` is a Lucas witness for `1373`.
pub proof fn lemma_witness_1373()
    ensures
        lucas_witness(1373, 2),
{
    lemma_prime_2();
    lemma_prime_7();
    // The base raised to n - 1, one prime power of n - 1 after the other.
    lemma_chain_start(2, 1373);
    let e: nat = 1;
    let e: nat = lemma_chain_square(2, 1373, e, 2);
    let e: nat = lemma_chain_square_mul(2, 1373, e, 4);
    let e: nat = lemma_chain_square(2, 1373, e, 32);
    let e: nat = lemma_chain_square_mul(2, 1373, e, 1024);
    let e: nat = lemma_chain_square(2, 1373, e, 581);
    let e: nat = lemma_chain_square_mul(2, 1373, e, 1176);
    let e: nat = lemma_chain_square_mul(2, 1373, e, 730);
    let e: nat = lemma_chain_square_mul(2, 1373, e, 352);
    assert(power_mod(2, 343, 1373) == 668);
    lemma_chain_start(668, 1373);
    let e: nat = 1;
    let e: nat = lemma_chain_square(668, 1373, e, 668);
    let e: nat = lemma_chain_square(668, 1373, e, 1372);
    assert(power_mod(668, 4, 1373) == 1);
    lemma_chain_compose(2, 343, 668, 4, 1373);
    // The base raised to (n - 1) / q, for each prime q that divides n - 1.
    lemma_chain_start(2, 1373);
    let e: nat = 1;
    let e: nat = lemma_chain_square_mul(2, 1373, e, 2);
    let e: nat = lemma_chain_square(2, 1373, e, 8);
    let e: nat = lemma_chain_square(2, 1373, e, 64);
    let e: nat = lemma_chain_square(2, 1373, e, 1350);
    let e: nat = lemma_chain_square_mul(2, 1373, e, 529);
    let e: nat = lemma_chain_square(2, 1373, e, 871);
    let e: nat = lemma_chain_square(2, 1373, e, 745);
    assert(power_mod(2, 196, 1373) == 333);
    lemma_chain_start(668, 1373);
    let e: nat = 1;
    let e: nat = lemma_chain_square(668, 1373, e, 668);
    assert(power_mod(668, 2, 1373) == 1372);
    lemma_chain_compose(2, 343, 668, 2, 1373);
    // No other prime divides n - 1.
    assert forall|q: nat| #[trigger] is_prime(q) && divides(q, (1373 - 1) as nat) implies power_mod(
        2,
        ((1373 - 1) / (q as int)) as nat,
        1373,
    ) != 1 by {
        lemma_prime_factor(q, 7, 196);
        lemma_prime_factor(q, 7, 28);
        lemma_prime_factor(q, 7, 4);
        if q != 7 {
            lemma_prime_factor(q, 2, 2);
            lemma_prime_factor(q, 2, 1);
            if q != 2 {
                lemma_prime_not_unit(q);
            }
        }
        if q == 7 {
            assert((1373 - 1) / 7int == 196);
        }
        if q == 2 {
            assert((1373 - 1) / 2int == 686);
        }
    }
}

/// `1373` is prime.
pub proof fn lemma_prime_1373()
    ensures
        is_prime(1373),
{
    lemma_witness_1373();
    lemma_lucas(1373, 2);
}

/// A digit zero in chain 1.
proof fn square_1(e: nat, r: nat) -> (e2: nat)
    requires
        power_mod(13, e, 0xcb6d77) == r,
    ensures
        e2 == 2 * e,
        power_mod(13, e2, 0xcb6d77) == (r * r) % 0xcb6d77,
{
    lemma_chain_square(13, 0xcb6d77, e, r)
}

/// A digit one in chain 1.
proof fn square_mul_1(e: nat, r: nat) -> (e2: nat)
    requires
        power_mod(13, e, 0xcb6d77) == r,
    ensures
        e2 == 2 * e + 1,
        power_mod(13, e2, 0xcb6d77) == (r * r * 13) % 0xcb6d77,
{
    lemma_chain_square_mul(13, 0xcb6d77, e, r)
}

/// Chain 1.
proof fn chain_1()
    ensures
        power_mod(13, 1373, 0xcb6d77) == 0x3745cd,
{
    lemma_chain_start(13, 0xcb6d77);
    let e: nat = 1;
    let e: nat = square_1(e, 13);
    let e: nat = square_mul_1(e, 169);
    let e: nat = square_1(e, 371293);
    let e: nat = square_mul_1(e, 0x704b4d);
    let e: nat = square_1(e, 0x9a101e);
    let e: nat = square_mul_1(e, 0x5d4da3);
    let e: nat = square_mul_1(e, 0x60316c);
    let e: nat = square_mul_1(e, 0x8aeddf);
    let e: nat = square_1(e, 0x13826c);
    let e: nat = square_mul_1(e, 0xa157e3);
}

/// A digit zero in chain 2.
proof fn square_2(e: nat, r: nat) -> (e2: nat)
    requires
        power_mod(0x3745cd, e, 0xcb6d77) == r,
    ensures
        e2 == 2 * e,
        power_mod(0x3745cd, e2, 0xcb6d77) == (r * r) % 0xcb6d77,
{
    lemma_chain_square(0x3745cd, 0xcb6d77, e, r)
}

/// A digit one in chain 2.
proof fn square_mul_2(e: nat, r: nat) -> (e2: nat)
    requires
        power_mod(0x3745cd, e, 0xcb6d77) == r,
    ensures
        e2 == 2 * e + 1,
        power_mod(0x3745cd, e2, 0xcb6d77) == (r * r * 0x3745cd) % 0xcb6d77,
{
    lemma_chain_square_mul(0x3745cd, 0xcb6d77, e, r)
}

/// Chain 2.
proof fn chain_2()
    ensures
        power_mod(0x3745cd, 971, 0xcb6d77) == 0xaf0fce,
{
    lemma_chain_start(0x3745cd, 0xcb6d77);
    let e: nat = 1;
    let e: nat = square_mul_2(e, 0x3745cd);
    let e: nat = square_mul_2(e, 0x5e3b7c);
    let e: nat = square_mul_2(e, 0x1f1af9);
    let e: nat = square_2(e, 0x6d2cdc);
    let e: nat = square_2(e, 0xa1e185);
    let e: nat = square_mul_2(e, 0x5df5aa);
    let e: nat = square_2(e, 0xa3380b);
    let e: nat = square_mul_2(e, 0x53af8e);
    let e: nat = square_mul_2(e, 0xc430d0);
}

/// Chain 3.
proof fn chain_3()
    ensures
        power_mod(0xaf0fce, 5, 0xcb6d77) == 0xcb6d76,
{
    lemma_chain_start(0xaf0fce, 0xcb6d77);
    let e: nat = 1;
    let e: nat = lemma_chain_square(0xaf0fce, 0xcb6d77, e, 0xaf0fce);
    let e: nat = lemma_chain_square_mul(0xaf0fce, 0xcb6d77, e, 0x143aa1);
}

/// Chain 4.
proof fn chain_4()
    ensures
        power_mod(0xcb6d76, 2, 0xcb6d77) == 1,
{
    lemma_chain_start(0xcb6d76, 0xcb6d77);
    let e: nat = 1;
    let e: nat = lemma_chain_square(0xcb6d76, 0xcb6d77, e, 0xcb6d76);
}

/// A digit zero in chain 5.
proof fn square_5(e: nat, r: nat) -> (e2: nat)
    requires
        power_mod(13, e, 0xcb6d77) == r,
    ensures
        e2 == 2 * e,
        power_mod(13, e2, 0xcb6d77) == (r * r) % 0xcb6d77,
{
    lemma_chain_square(13, 0xcb6d77, e, r)
}

/// A digit one in chain 5.
proof fn square_mul_5(e: nat, r: nat) -> (e2: nat)
    requires
        power_mod(13, e, 0xcb6d77) == r,
    ensures
        e2 == 2 * e + 1,
        power_mod(13, e2, 0xcb6d77) == (r * r * 13) % 0xcb6d77,
{
    lemma_chain_square_mul(13, 0xcb6d77, e, r)
}

/// Chain 5.
proof fn chain_5()
    ensures
        power_mod(13, 9710, 0xcb6d77) == 0x136df8,
{
    lemma_chain_start(13, 0xcb6d77);
    let e: nat = 1;
    let e: nat = square_5(e, 13);
    let e: nat = square_5(e, 169);
    let e: nat = square_mul_5(e, 28561);
    let e: nat = square_5(e, 0x56e120);
    let e: nat = square_mul_5(e, 0x4cec30);
    let e: nat = square_mul_5(e, 0x2cb4b3);
    let e: nat = square_mul_5(e, 0x804fc0);
    let e: nat = square_mul_5(e, 0x834255);
    let e: nat = square_5(e, 0x74297f);
    let e: nat = square_mul_5(e, 0xc23a75);
    let e: nat = square_mul_5(e, 0xc5d7bf);
    let e: nat = square_mul_5(e, 0x6b6f1b);
    let e: nat = square_5(e, 0xc4222d);
}

/// Chain 6.
proof fn chain_6()
    ensures
        power_mod(0x3745cd, 10, 0xcb6d77) == 54862,
{
    lemma_chain_start(0x3745cd, 0xcb6d77);
    let e: nat = 1;
    let e: nat = lemma_chain_square(0x3745cd, 0xcb6d77, e, 0x3745cd);
    let e: nat = lemma_chain_square_mul(0x3745cd, 0xcb6d77, e, 0xa64b81);
    let e: nat = lemma_chain_square(0x3745cd, 0xcb6d77, e, 0x717766);
}

/// Chain 7.
proof fn chain_7()
    ensures
        power_mod(0xaf0fce, 2, 0xcb6d77) == 0x143aa1,
{
    lemma_chain_start(0xaf0fce, 0xcb6d77);
    let e: nat = 1;
    let e: nat = lemma_chain_square(0xaf0fce, 0xcb6d77, e, 0xaf0fce);
}

/// `13` is a Lucas witness for `0xcb6d77`.
pub proof fn lemma_witness_13331831()
    ensures
        lucas_witness(0xcb6d77, 13),
{
    lemma_prime_2();
    lemma_prime_5();
    lemma_prime_971();
    lemma_prime_1373();
    // The base raised to n - 1, one prime power of n - 1 after the other.
    chain_1();
    chain_2();
    lemma_chain_compose(13, 1373, 0x3745cd, 971, 0xcb6d77);
    chain_3();
    lemma_chain_compose(13, 0x1457bf, 0xaf0fce, 5, 0xcb6d77);
    chain_4();
    lemma_chain_compose(13, 0x65b6bb, 0xcb6d76, 2, 0xcb6d77);
    // The base raised to (n - 1) / q, for each prime q that divides n - 1.
    chain_5();
    chain_6();
    lemma_chain_compose(13, 1373, 0x3745cd, 10, 0xcb6d77);
    chain_7();
    lemma_chain_compose(13, 0x1457bf, 0xaf0fce, 2, 0xcb6d77);
    // No other prime divides n - 1.
    assert forall|q: nat|
        #[trigger] is_prime(q) && divides(
            q,
            (0xcb6d77 - 1) as nat,
        ) implies power_mod(
        13,
        ((0xcb6d77 - 1) / (q as int)) as nat,
        0xcb6d77,
    ) != 1 by {
        lemma_prime_factor(q, 1373, 9710);
        if q != 1373 {
            lemma_prime_factor(q, 971, 10);
            if q != 971 {
                lemma_prime_factor(q, 5, 2);
                if q != 5 {
                    lemma_prime_factor(q, 2, 1);
                    if q != 2 {
                        lemma_prime_not_unit(q);
                    }
                }
            }
        }
        if q == 1373 {
            assert((0xcb6d77 - 1) / 1373int == 9710);
        }
        if q == 971 {
            assert((0xcb6d77 - 1) / 971int == 13730);
        }
        if q == 5 {
            assert((0xcb6d77 - 1) / 5int == 0x28af7e);
        }
        if q == 2 {
            assert((0xcb6d77 - 1) / 2int == 0x65b6bb);
        }
    }
}

/// `0xcb6d77` is prime.
pub proof fn lemma_prime_13331831()
    ensures
        is_prime(0xcb6d77),
{
    lemma_witness_13331831();
    lemma_lucas(0xcb6d77, 13);
}

/// A digit zero in chain 8.
proof fn square_8(e: nat, r: nat) -> (e2: nat)
    requires
        power_mod(6, e, 0x267f72148d98cd9) == r,
    ensures
        e2 == 2 * e,
        power_mod(6, e2, 0x267f72148d98cd9) == (r * r) % 0x267f72148d98cd9,
{
    lemma_chain_square(6, 0x267f72148d98cd9, e, r)
}

/// A digit one in chain 8.
proof fn square_mul_8(e: nat, r: nat) -> (e2: nat)
    requires
        power_mod(6, e, 0x267f72148d98cd9) == r,
    ensures
        e2 == 2 * e + 1,
        power_mod(6, e2, 0x267f72148d98cd9) == (r * r * 6) % 0x267f72148d98cd9,
{
    lemma_chain_square_mul(6, 0x267f72148d98cd9, e, r)
}

/// Chain 8 up to digit 17 of 24 of its exponent.
proof fn chain_8_1()
    ensures
        power_mod(6, 104154, 0x267f72148d98cd9) == 0x20b2113a6dfae8c,
{
    lemma_chain_start(6, 0x267f72148d98cd9);
    let e: nat = 1;
    let e: nat = square_mul_8(e, 6);
    let e: nat = square_8(e, 216);
    let e: nat = square_8(e, 46656);
    let e: nat = square_mul_8(e, 0x81bf1000);
    let e: nat = square_8(e, 0x25a5223e37b51d5);
    let e: nat = square_mul_8(e, 0x1a5f299bfb3e43a);
    let e: nat = square_mul_8(e, 0x20c4473c9e3e631);
    let e: nat = square_8(e, 0x1cad620bcd3fdf8);
    let e: nat = square_mul_8(e, 0x1a3bf71e4a30ea2);
    let e: nat = square_mul_8(e, 0x129e54a14011d0);
    let e: nat = square_8(e, 0xe45aed56825941);
    let e: nat = square_mul_8(e, 0x19330ba0d0687bf);
    let e: nat = square_mul_8(e, 0x237651948c9d9ef);
    let e: nat = square_8(e, 0x115a0bd97fbb6ab);
    let e: nat = square_mul_8(e, 0x1756590a1b7aae4);
    let e: nat = square_8(e, 0x24a83c12587c687);
}

/// Chain 8 up to digit 24 of 24 of its exponent.
proof fn chain_8_2()
    ensures
        power_mod(6, 0xcb6d77, 0x267f72148d98cd9) == 0x21dd469c4754356,
{
    chain_8_1();
    let e: nat = 104154;
    let e: nat = square_mul_8(e, 0x20b2113a6dfae8c);
    let e: nat = square_mul_8(e, 0xf5099790490798);
    let e: nat = square_mul_8(e, 0xee00ece4bb2d41);
    let e: nat = square_8(e, 0x17f3ac5eed898f6);
    let e: nat = square_mul_8(e, 0x2007c0d78b2e7b3);
    let e: nat = square_mul_8(e, 0x32be9707e3684b);
    let e: nat = square_mul_8(e, 0x140d41a7bdb0e57);
}

/// A digit zero in chain 9.
proof fn square_9(e: nat, r: nat) -> (e2: nat)
    requires
        power_mod(0x21dd469c4754356, e, 0x267f72148d98cd9) == r,
    ensures
        e2 == 2 * e,
        power_mod(0x21dd469c4754356, e2, 0x267f72148d98cd9) == (r * r) % 0x267f72148d98cd9,
{
    lemma_chain_square(0x21dd469c4754356, 0x267f72148d98cd9, e, r)
}

/// A digit one in chain 9.
proof fn square_mul_9(e: nat, r: nat) -> (e2: nat)
    requires
        power_mod(0x21dd469c4754356, e, 0x267f72148d98cd9) == r,
    ensures
        e2 == 2 * e + 1,
        power_mod(
            0x21dd469c4754356,
            e2,
            0x267f72148d98cd9,
        ) == (r * r * 0x21dd469c4754356) % 0x267f72148d98cd9,
{
    lemma_chain_square_mul(0x21dd469c4754356, 0x267f72148d98cd9, e, r)
}

/// Chain 9.
proof fn chain_9()
    ensures
        power_mod(0x21dd469c4754356, 24809, 0x267f72148d98cd9) == 0x1135bb8c83f55b6,
{
    lemma_chain_start(0x21dd469c4754356, 0x267f72148d98cd9);
    let e: nat = 1;
    let e: nat = square_mul_9(e, 0x21dd469c4754356);
    let e: nat = square_9(e, 0x24cb46e3fcd8f9a);
    let e: nat = square_9(e, 0x1ca023b27498a15);
    let e: nat = square_9(e, 0x11c1c9624abfa0f);
    let e: nat = square_9(e, 0x255f87ec4c332c);
    let e: nat = square_9(e, 0x250d5e8c4ee6329);
    let e: nat = square_mul_9(e, 0x25e2f5bb88d8aea);
    let e: nat = square_mul_9(e, 0x17dbb3fcc034ee6);
    let e: nat = square_mul_9(e, 0x2262c61e5ae5ee2);
    let e: nat = square_9(e, 0x22a78ed278e72cf);
    let e: nat = square_mul_9(e, 0x23c47783828c757);
    let e: nat = square_9(e, 0x1f7caf0200ee941);
    let e: nat = square_9(e, 0x12838d50de16e9d);
    let e: nat = square_mul_9(e, 0xc216e8480b996a);
}

/// A digit zero in chain 10.
proof fn square_10(e: nat, r: nat) -> (e2: nat)
    requires
        power_mod(0x1135bb8c83f55b6, e, 0x267f72148d98cd9) == r,
    ensures
        e2 == 2 * e,
        power_mod(0x1135bb8c83f55b6, e2, 0x267f72148d98cd9) == (r * r) % 0x267f72148d98cd9,
{
    lemma_chain_square(0x1135bb8c83f55b6, 0x267f72148d98cd9, e, r)
}

/// A digit one in chain 10.
proof fn square_mul_10(e: nat, r: nat) -> (e2: nat)
    requires
        power_mod(0x1135bb8c83f55b6, e, 0x267f72148d98cd9) == r,
    ensures
        e2 == 2 * e + 1,
        power_mod(
            0x1135bb8c83f55b6,
            e2,
            0x267f72148d98cd9,
        ) == (r * r * 0x1135bb8c83f55b6) % 0x267f72148d98cd9,
{
    lemma_chain_square_mul(0x1135bb8c83f55b6, 0x267f72148d98cd9, e, r)
}

/// Chain 10.
proof fn chain_10()
    ensures
        power_mod(0x1135bb8c83f55b6, 2621, 0x267f72148d98cd9) == 0x3ac7d6f02bb833,
{
    lemma_chain_start(0x1135bb8c83f55b6, 0x267f72148d98cd9);
    let e: nat = 1;
    let e: nat = square_10(e, 0x1135bb8c83f55b6);
    let e: nat = square_mul_10(e, 0x23e636b8f55bffa);
    let e: nat = square_10(e, 0x64a5ac18f68838);
    let e: nat = square_10(e, 0x21e23544d22c915);
    let e: nat = square_10(e, 0x1498b6f1e96163f);
    let e: nat = square_mul_10(e, 0x1746fd3f04f6fd3);
    let e: nat = square_mul_10(e, 0x1e848414c183f24);
    let e: nat = square_mul_10(e, 0x56c1c9631045e);
    let e: nat = square_mul_10(e, 0x21abef1aae572fa);
    let e: nat = square_10(e, 0x15f8330078ea225);
    let e: nat = square_mul_10(e, 0x23d795ad6b37f24);
}

/// A digit zero in chain 11.
proof fn square_11(e: nat, r: nat) -> (e2: nat)
    requires
        power_mod(0x3ac7d6f02bb833, e, 0x267f72148d98cd9) == r,
    ensures
        e2 == 2 * e,
        power_mod(0x3ac7d6f02bb833, e2, 0x267f72148d98cd9) == (r * r) % 0x267f72148d98cd9,
{
    lemma_chain_square(0x3ac7d6f02bb833, 0x267f72148d98cd9, e, r)
}

/// A digit one in chain 11.
proof fn square_mul_11(e: nat, r: nat) -> (e2: nat)
    requires
        power_mod(0x3ac7d6f02bb833, e, 0x267f72148d98cd9) == r,
    ensures
        e2 == 2 * e + 1,
        power_mod(
            0x3ac7d6f02bb833,
            e2,
            0x267f72148d98cd9,
        ) == (r * r * 0x3ac7d6f02bb833) % 0x267f72148d98cd9,
{
    lemma_chain_square_mul(0x3ac7d6f02bb833, 0x267f72148d98cd9, e, r)
}

/// Chain 11.
proof fn chain_11()
    ensures
        power_mod(0x3ac7d6f02bb833, 25, 0x267f72148d98cd9) == 0x13d40e1b9be71d9,
{
    lemma_chain_start(0x3ac7d6f02bb833, 0x267f72148d98cd9);
    let e: nat = 1;
    let e: nat = square_mul_11(e, 0x3ac7d6f02bb833);
    let e: nat = square_11(e, 0xf76604eeb61829);
    let e: nat = square_11(e, 0x18cade424677b70);
    let e: nat = square_mul_11(e, 0x2222a5781ef8334);
}

/// Chain 12.
proof fn chain_12()
    ensures
        power_mod(0x13d40e1b9be71d9, 8, 0x267f72148d98cd9) == 1,
{
    lemma_chain_start(0x13d40e1b9be71d9, 0x267f72148d98cd9);
    let e: nat = 1;
    let e: nat = lemma_chain_square(0x13d40e1b9be71d9, 0x267f72148d98cd9, e, 0x13d40e1b9be71d9);
    let e: nat = lemma_chain_square(0x13d40e1b9be71d9, 0x267f72148d98cd9, e, 0x2aaa22e3d87248);
    let e: nat = lemma_chain_square(0x13d40e1b9be71d9, 0x267f72148d98cd9, e, 0x267f72148d98cd8);
}

/// A digit zero in chain 13.
proof fn square_13(e: nat, r: nat) -> (e2: nat)
    requires
        power_mod(6, e, 0x267f72148d98cd9) == r,
    ensures
        e2 == 2 * e,
        power_mod(6, e2, 0x267f72148d98cd9) == (r * r) % 0x267f72148d98cd9,
{
    lemma_chain_square(6, 0x267f72148d98cd9, e, r)
}

/// A digit one in chain 13.
proof fn square_mul_13(e: nat, r: nat) -> (e2: nat)
    requires
        power_mod(6, e, 0x267f72148d98cd9) == r,
    ensures
        e2 == 2 * e + 1,
        power_mod(6, e2, 0x267f72148d98cd9) == (r * r * 6) % 0x267f72148d98cd9,
{
    lemma_chain_square_mul(6, 0x267f72148d98cd9, e, r)
}

/// Chain 13 up to digit 17 of 34 of its exponent.
proof fn chain_13_1()
    ensures
        power_mod(6, 99219, 0x267f72148d98cd9) == 0x1d17efe5dde02d,
{
    lemma_chain_start(6, 0x267f72148d98cd9);
    let e: nat = 1;
    let e: nat = square_mul_13(e, 6);
    let e: nat = square_13(e, 216);
    let e: nat = square_13(e, 46656);
    let e: nat = square_13(e, 0x81bf1000);
    let e: nat = square_13(e, 0xcb0c36320e251d);
    let e: nat = square_13(e, 0x1c895aa88293a49);
    let e: nat = square_mul_13(e, 0x13868272e4005ac);
    let e: nat = square_mul_13(e, 0x334af1e401898);
    let e: nat = square_mul_13(e, 0x1877b088271a8ff);
    let e: nat = square_13(e, 0xd4d5c730c6ead9);
    let e: nat = square_13(e, 0x536542b9dc014f);
    let e: nat = square_mul_13(e, 0x4cc6b9ffeb0e46);
    let e: nat = square_13(e, 0x1e97921a136310c);
    let e: nat = square_13(e, 0x1ae82cc9d58b761);
    let e: nat = square_mul_13(e, 0x19878e6efd61115);
    let e: nat = square_mul_13(e, 0x1b00e4c26aad93a);
}

/// Chain 13 up to digit 33 of 34 of its exponent.
proof fn chain_13_2()
    ensures
        power_mod(6, 0x1839357f4, 0x267f72148d98cd9) == 0x1bee3e5822243bf,
{
    chain_13_1();
    let e: nat = 99219;
    let e: nat = square_13(e, 0x1d17efe5dde02d);
    let e: nat = square_mul_13(e, 0x133b2a80128e6d3);
    let e: nat = square_13(e, 0x5cdd3837513a71);
    let e: nat = square_mul_13(e, 0x82bda4f7388f51);
    let e: nat = square_13(e, 0xe8e1c4b806427);
    let e: nat = square_mul_13(e, 0x151e04c5463d32c);
    let e: nat = square_mul_13(e, 0x17401b60be99ae5);
    let e: nat = square_mul_13(e, 0x1eba5df29110033);
    let e: nat = square_mul_13(e, 0x9da298fc9b718f);
    let e: nat = square_mul_13(e, 0x2204ab24bf36a05);
    let e: nat = square_mul_13(e, 0x22a0f379cc35fb4);
    let e: nat = square_mul_13(e, 0x21a597250843591);
    let e: nat = square_13(e, 0x8fc19ba16af38b);
    let e: nat = square_mul_13(e, 0x1c9675ed90edba4);
    let e: nat = square_13(e, 0x901a8b30042efd);
    let e: nat = square_13(e, 0x1bfc9724e715dc7);
}

/// Chain 13 up to digit 34 of 34 of its exponent.
proof fn chain_13_3()
    ensures
        power_mod(6, 0x30726afe8, 0x267f72148d98cd9) == 0x3fc97fc3250eea,
{
    chain_13_2();
    let e: nat = 0x1839357f4;
    let e: nat = square_13(e, 0x1bee3e5822243bf);
}

/// A digit zero in chain 14.
proof fn square_14(e: nat, r: nat) -> (e2: nat)
    requires
        power_mod(0x21dd469c4754356, e, 0x267f72148d98cd9) == r,
    ensures
        e2 == 2 * e,
        power_mod(0x21dd469c4754356, e2, 0x267f72148d98cd9) == (r * r) % 0x267f72148d98cd9,
{
    lemma_chain_square(0x21dd469c4754356, 0x267f72148d98cd9, e, r)
}

/// A digit one in chain 14.
proof fn square_mul_14(e: nat, r: nat) -> (e2: nat)
    requires
        power_mod(0x21dd469c4754356, e, 0x267f72148d98cd9) == r,
    ensures
        e2 == 2 * e + 1,
        power_mod(
            0x21dd469c4754356,
            e2,
            0x267f72148d98cd9,
        ) == (r * r * 0x21dd469c4754356) % 0x267f72148d98cd9,
{
    lemma_chain_square_mul(0x21dd469c4754356, 0x267f72148d98cd9, e, r)
}

/// Chain 14 up to digit 17 of 19 of its exponent.
proof fn chain_14_1()
    ensures
        power_mod(0x21dd469c4754356, 131050, 0x267f72148d98cd9) == 0x6929b453127eb3,
{
    lemma_chain_start(0x21dd469c4754356, 0x267f72148d98cd9);
    let e: nat = 1;
    let e: nat = square_mul_14(e, 0x21dd469c4754356);
    let e: nat = square_mul_14(e, 0x24cb46e3fcd8f9a);
    let e: nat = square_mul_14(e, 0x6156252435b10a);
    let e: nat = square_mul_14(e, 0xdef53ad66f0ee5);
    let e: nat = square_mul_14(e, 0x20092983b5077d4);
    let e: nat = square_mul_14(e, 0x10fc22a80d7d5a);
    let e: nat = square_mul_14(e, 0xceeb353116b1b8);
    let e: nat = square_mul_14(e, 0x20c35aaa8cc8b8b);
    let e: nat = square_mul_14(e, 0xaf805d98e5fd69);
    let e: nat = square_mul_14(e, 0x58f897dd7ad17);
    let e: nat = square_mul_14(e, 0xd279dacdd3d591);
    let e: nat = square_14(e, 0x771db2c381d9f9);
    let e: nat = square_mul_14(e, 0x23e9a725f95f145);
    let e: nat = square_14(e, 0x129400e859660e5);
    let e: nat = square_mul_14(e, 0x24de3448e6bf41c);
    let e: nat = square_14(e, 0x1fea8d69bafc5a6);
}

/// Chain 14 up to digit 19 of 19 of its exponent.
proof fn chain_14_2()
    ensures
        power_mod(0x21dd469c4754356, 524200, 0x267f72148d98cd9) == 0x153d8ceaf9170e,
{
    chain_14_1();
    let e: nat = 131050;
    let e: nat = square_14(e, 0x6929b453127eb3);
    let e: nat = square_14(e, 0xd1ce91c466d85f);
}

/// A digit zero in chain 15.
proof fn square_15(e: nat, r: nat) -> (e2: nat)
    requires
        power_mod(0x1135bb8c83f55b6, e, 0x267f72148d98cd9) == r,
    ensures
        e2 == 2 * e,
        power_mod(0x1135bb8c83f55b6, e2, 0x267f72148d98cd9) == (r * r) % 0x267f72148d98cd9,
{
    lemma_chain_square(0x1135bb8c83f55b6, 0x267f72148d98cd9, e, r)
}

/// A digit one in chain 15.
proof fn square_mul_15(e: nat, r: nat) -> (e2: nat)
    requires
        power_mod(0x1135bb8c83f55b6, e, 0x267f72148d98cd9) == r,
    ensures
        e2 == 2 * e + 1,
        power_mod(
            0x1135bb8c83f55b6,
            e2,
            0x267f72148d98cd9,
        ) == (r * r * 0x1135bb8c83f55b6) % 0x267f72148d98cd9,
{
    lemma_chain_square_mul(0x1135bb8c83f55b6, 0x267f72148d98cd9, e, r)
}

/// Chain 15.
proof fn chain_15()
    ensures
        power_mod(0x1135bb8c83f55b6, 200, 0x267f72148d98cd9) == 0x5b75f9120c810f,
{
    lemma_chain_start(0x1135bb8c83f55b6, 0x267f72148d98cd9);
    let e: nat = 1;
    let e: nat = square_mul_15(e, 0x1135bb8c83f55b6);
    let e: nat = square_15(e, 0x188ccf0020319b8);
    let e: nat = square_15(e, 0x1b5cc66c5661349);
    let e: nat = square_mul_15(e, 0x917bd510a8b6b4);
    let e: nat = square_15(e, 0x176e6a5561d106f);
    let e: nat = square_15(e, 0x2146336e57336af);
    let e: nat = square_15(e, 0x13177d622fce39d);
}

/// A digit zero in chain 16.
proof fn square_16(e: nat, r: nat) -> (e2: nat)
    requires
        power_mod(0x3ac7d6f02bb833, e, 0x267f72148d98cd9) == r,
    ensures
        e2 == 2 * e,
        power_mod(0x3ac7d6f02bb833, e2, 0x267f72148d98cd9) == (r * r) % 0x267f72148d98cd9,
{
    lemma_chain_square(0x3ac7d6f02bb833, 0x267f72148d98cd9, e, r)
}

/// A digit one in chain 16.
proof fn square_mul_16(e: nat, r: nat) -> (e2: nat)
    requires
        power_mod(0x3ac7d6f02bb833, e, 0x267f72148d98cd9) == r,
    ensures
        e2 == 2 * e + 1,
        power_mod(
            0x3ac7d6f02bb833,
            e2,
            0x267f72148d98cd9,
        ) == (r * r * 0x3ac7d6f02bb833) % 0x267f72148d98cd9,
{
    lemma_chain_square_mul(0x3ac7d6f02bb833, 0x267f72148d98cd9, e, r)
}

/// Chain 16.
proof fn chain_16()
    ensures
        power_mod(0x3ac7d6f02bb833, 40, 0x267f72148d98cd9) == 0x21c44ac5d473ecf,
{
    lemma_chain_start(0x3ac7d6f02bb833, 0x267f72148d98cd9);
    let e: nat = 1;
    let e: nat = square_16(e, 0x3ac7d6f02bb833);
    let e: nat = square_mul_16(e, 0xc97043e1949d92);
    let e: nat = square_16(e, 0x1801d477e840e67);
    let e: nat = square_16(e, 0x1c47bd83cb21a9a);
    let e: nat = square_16(e, 0xcce564f8f7c806);
}

/// Chain 17.
proof fn chain_17()
    ensures
        power_mod(0x13d40e1b9be71d9, 4, 0x267f72148d98cd9) == 0x267f72148d98cd8,
{
    lemma_chain_start(0x13d40e1b9be71d9, 0x267f72148d98cd9);
    let e: nat = 1;
    let e: nat = lemma_chain_square(0x13d40e1b9be71d9, 0x267f72148d98cd9, e, 0x13d40e1b9be71d9);
    let e: nat = lemma_chain_square(0x13d40e1b9be71d9, 0x267f72148d98cd9, e, 0x2aaa22e3d87248);
}

/// `6` is a Lucas witness for `0x267f72148d98cd9`.
pub proof fn lemma_witness_x267f72148d98cd9()
    ensures
        lucas_witness(0x267f72148d98cd9, 6),
{
    lemma_prime_2();
    lemma_prime_5();
    lemma_prime_2621();
    lemma_prime_24809();
    lemma_prime_13331831();
    // The base raised to n - 1, one prime power of n - 1 after the other.
    chain_8_2();
    chain_9();
    lemma_chain_compose(6, 0xcb6d77, 0x21dd469c4754356, 24809, 0x267f72148d98cd9);
    chain_10();
    lemma_chain_compose(6, 0x4d0233414f, 0x1135bb8c83f55b6, 2621, 0x267f72148d98cd9);
    chain_11();
    lemma_chain_compose(6, 0x3146f86c3a5d3, 0x3ac7d6f02bb833, 25, 0x267f72148d98cd9);
    chain_12();
    lemma_chain_compose(6, 0x4cfee4291b319b, 0x13d40e1b9be71d9, 8, 0x267f72148d98cd9);
    // The base raised to (n - 1) / q, for each prime q that divides n - 1.
    chain_13_3();
    chain_14_2();
    lemma_chain_compose(6, 0xcb6d77, 0x21dd469c4754356, 524200, 0x267f72148d98cd9);
    chain_15();
    lemma_chain_compose(6, 0x4d0233414f, 0x1135bb8c83f55b6, 200, 0x267f72148d98cd9);
    chain_16();
    lemma_chain_compose(6, 0x3146f86c3a5d3, 0x3ac7d6f02bb833, 40, 0x267f72148d98cd9);
    chain_17();
    lemma_chain_compose(6, 0x4cfee4291b319b, 0x13d40e1b9be71d9, 4, 0x267f72148d98cd9);
    // No other prime divides n - 1.
    assert forall|q: nat|
        #[trigger] is_prime(q) && divides(
            q,
            (0x267f72148d98cd9 - 1) as nat,
        ) implies power_mod(
        6,
        ((0x267f72148d98cd9 - 1) / (q as int)) as nat,
        0x267f72148d98cd9,
    ) != 1 by {
        lemma_prime_factor(q, 0xcb6d77, 0x30726afe8);
        if q != 0xcb6d77 {
            lemma_prime_factor(q, 24809, 524200);
            if q != 24809 {
                lemma_prime_factor(q, 2621, 200);
                if q != 2621 {
                    lemma_prime_factor(q, 5, 40);
                    lemma_prime_factor(q, 5, 8);
                    if q != 5 {
                        lemma_prime_factor(q, 2, 4);
                        lemma_prime_factor(q, 2, 2);
                        lemma_prime_factor(q, 2, 1);
                        if q != 2 {
                            lemma_prime_not_unit(q);
                        }
                    }
                }
            }
        }
        if q == 0xcb6d77 {
            assert((0x267f72148d98cd9 - 1) / 0xcb6d77int == 0x30726afe8);
        }
        if q == 24809 {
            assert((0x267f72148d98cd9 - 1) / 24809int == 0x65b25ca5f18);
        }
        if q == 2621 {
            assert((0x267f72148d98cd9 - 1) / 2621int == 0x3c29b80b05b8);
        }
        if q == 5 {
            assert((0x267f72148d98cd9 - 1) / 5int == 0x7b316d0e91e8f8);
        }
        if q == 2 {
            assert((0x267f72148d98cd9 - 1) / 2int == 0x133fb90a46cc66c);
        }
    }
}

/// `0x267f72148d98cd9` is prime.
pub proof fn lemma_prime_x267f72148d98cd9()
    ensures
        is_prime(0x267f72148d98cd9),
{
    lemma_witness_x267f72148d98cd9();
    lemma_lucas(0x267f72148d98cd9, 6);
}

/// `6` is a Lucas witness for `271`.
pub proof fn lemma_witness_271()
    ensures
        lucas_witness(271, 6),
{
    lemma_prime_2();
    lemma_prime_3();
    lemma_prime_5();
    // The base raised to n - 1, one prime power of n - 1 after the other.
    lemma_chain_start(6, 271);
    let e: nat = 1;
    let e: nat = lemma_chain_square(6, 271, e, 6);
    let e: nat = lemma_chain_square_mul(6, 271, e, 36);
    assert(power_mod(6, 5, 271) == 188);
    lemma_chain_start(188, 271);
    let e: nat = 1;
    let e: nat = lemma_chain_square_mul(188, 271, e, 188);
    let e: nat = lemma_chain_square(188, 271, e, 23);
    let e: nat = lemma_chain_square_mul(188, 271, e, 258);
    let e: nat = lemma_chain_square_mul(188, 271, e, 65);
    assert(power_mod(188, 27, 271) == 270);
    lemma_chain_compose(6, 5, 188, 27, 271);
    lemma_chain_start(270, 271);
    let e: nat = 1;
    let e: nat = lemma_chain_square(270, 271, e, 270);
    assert(power_mod(270, 2, 271) == 1);
    lemma_chain_compose(6, 135, 270, 2, 271);
    // The base raised to (n - 1) / q, for each prime q that divides n - 1.
    lemma_chain_start(6, 271);
    let e: nat = 1;
    let e: nat = lemma_chain_square_mul(6, 271, e, 6);
    let e: nat = lemma_chain_square(6, 271, e, 216);
    let e: nat = lemma_chain_square_mul(6, 271, e, 44);
    let e: nat = lemma_chain_square_mul(6, 271, e, 234);
    let e: nat = lemma_chain_square(6, 271, e, 84);
    assert(power_mod(6, 54, 271) == 10);
    lemma_chain_start(188, 271);
    let e: nat = 1;
    let e: nat = lemma_chain_square(188, 271, e, 188);
    let e: nat = lemma_chain_square(188, 271, e, 114);
    let e: nat = lemma_chain_square_mul(188, 271, e, 259);
    let e: nat = lemma_chain_square(188, 271, e, 243);
    assert(power_mod(188, 18, 271) == 242);
    lemma_chain_compose(6, 5, 188, 18, 271);
    // No other prime divides n - 1.
    assert forall|q: nat| #[trigger] is_prime(q) && divides(q, (271 - 1) as nat) implies power_mod(
        6,
        ((271 - 1) / (q as int)) as nat,
        271,
    ) != 1 by {
        lemma_prime_factor(q, 5, 54);
        if q != 5 {
            lemma_prime_factor(q, 3, 18);
            lemma_prime_factor(q, 3, 6);
            lemma_prime_factor(q, 3, 2);
            if q != 3 {
                lemma_prime_factor(q, 2, 1);
                if q != 2 {
                    lemma_prime_not_unit(q);
                }
            }
        }
        if q == 5 {
            assert((271 - 1) / 5int == 54);
        }
        if q == 3 {
            assert((271 - 1) / 3int == 90);
        }
        if q == 2 {
            assert((271 - 1) / 2int == 135);
        }
    }
}

/// `271` is prime.
pub proof fn lemma_prime_271()
    ensures
        is_prime(271),
{
    lemma_witness_271();
    lemma_lucas(271, 6);
}

/// `3` is a Lucas witness for `1627`.
pub proof fn lemma_witness_1627()
    ensures
        lucas_witness(1627, 3),
{
    lemma_prime_2();
    lemma_prime_3();
    lemma_prime_271();
    // The base raised to n - 1, one prime power of n - 1 after the other.
    lemma_chain_start(3, 1627);
    let e: nat = 1;
    let e: nat = lemma_chain_square(3, 1627, e, 3);
    let e: nat = lemma_chain_square(3, 1627, e, 9);
    let e: nat = lemma_chain_square(3, 1627, e, 81);
    let e: nat = lemma_chain_square(3, 1627, e, 53);
    let e: nat = lemma_chain_square_mul(3, 1627, e, 1182);
    let e: nat = lemma_chain_square_mul(3, 1627, e, 220);
    let e: nat = lemma_chain_square_mul(3, 1627, e, 397);
    let e: nat = lemma_chain_square_mul(3, 1627, e, 997);
    assert(power_mod(3, 271, 1627) == 1363);
    lemma_chain_start(1363, 1627);
    let e: nat = 1;
    let e: nat = lemma_chain_square_mul(1363, 1627, e, 1363);
    assert(power_mod(1363, 3, 1627) == 1626);
    lemma_chain_compose(3, 271, 1363, 3, 1627);
    lemma_chain_start(1626, 1627);
    let e: nat = 1;
    let e: nat = lemma_chain_square(1626, 1627, e, 1626);
    assert(power_mod(1626, 2, 1627) == 1);
    lemma_chain_compose(3, 813, 1626, 2, 1627);
    // The base raised to (n - 1) / q, for each prime q that divides n - 1.
    lemma_chain_start(3, 1627);
    let e: nat = 1;
    let e: nat = lemma_chain_square_mul(3, 1627, e, 3);
    let e: nat = lemma_chain_square(3, 1627, e, 27);
    assert(power_mod(3, 6, 1627) == 729);
    lemma_chain_start(1363, 1627);
    let e: nat = 1;
    let e: nat = lemma_chain_square(1363, 1627, e, 1363);
    assert(power_mod(1363, 2, 1627) == 1362);
    lemma_chain_compose(3, 271, 1363, 2, 1627);
    // No other prime divides n - 1.
    assert forall|q: nat| #[trigger] is_prime(q) && divides(q, (1627 - 1) as nat) implies power_mod(
        3,
        ((1627 - 1) / (q as int)) as nat,
        1627,
    ) != 1 by {
        lemma_prime_factor(q, 271, 6);
        if q != 271 {
            lemma_prime_factor(q, 3, 2);
            if q != 3 {
                lemma_prime_factor(q, 2, 1);
                if q != 2 {
                    lemma_prime_not_unit(q);
                }
            }
        }
        if q == 271 {
            assert((1627 - 1) / 271int == 6);
        }
        if q == 3 {
            assert((1627 - 1) / 3int == 542);
        }
        if q == 2 {
            assert((1627 - 1) / 2int == 813);
        }
    }
}

/// `1627` is prime.
pub proof fn lemma_prime_1627()
    ensures
        is_prime(1627),
{
    lemma_witness_1627();
    lemma_lucas(1627, 3);
}

/// `6` is a Lucas witness for `41`.
pub proof fn lemma_witness_41()
    ensures
        lucas_witness(41, 6),
{
    lemma_prime_2();
    lemma_prime_5();
    // The base raised to n - 1, one prime power of n - 1 after the other.
    lemma_chain_start(6, 41);
    let e: nat = 1;
    let e: nat = lemma_chain_square(6, 41, e, 6);
    let e: nat = lemma_chain_square_mul(6, 41, e, 36);
    assert(power_mod(6, 5, 41) == 27);
    lemma_chain_start(27, 41);
    let e: nat = 1;
    let e: nat = lemma_chain_square(27, 41, e, 27);
    let e: nat = lemma_chain_square(27, 41, e, 32);
    let e: nat = lemma_chain_square(27, 41, e, 40);
    assert(power_mod(27, 8, 41) == 1);
    lemma_chain_compose(6, 5, 27, 8, 41);
    // The base raised to (n - 1) / q, for each prime q that divides n - 1.
    lemma_chain_start(6, 41);
    let e: nat = 1;
    let e: nat = lemma_chain_square(6, 41, e, 6);
    let e: nat = lemma_chain_square(6, 41, e, 36);
    let e: nat = lemma_chain_square(6, 41, e, 25);
    assert(power_mod(6, 8, 41) == 10);
    lemma_chain_start(27, 41);
    let e: nat = 1;
    let e: nat = lemma_chain_square(27, 41, e, 27);
    let e: nat = lemma_chain_square(27, 41, e, 32);
    assert(power_mod(27, 4, 41) == 40);
    lemma_chain_compose(6, 5, 27, 4, 41);
    // No other prime divides n - 1.
    assert forall|q: nat| #[trigger] is_prime(q) && divides(q, (41 - 1) as nat) implies power_mod(
        6,
        ((41 - 1) / (q as int)) as nat,
        41,
    ) != 1 by {
        lemma_prime_factor(q, 5, 8);
        if q != 5 {
            lemma_prime_factor(q, 2, 4);
            lemma_prime_factor(q, 2, 2);
            lemma_prime_factor(q, 2, 1);
            if q != 2 {
                lemma_prime_not_unit(q);
            }
        }
        if q == 5 {
            assert((41 - 1) / 5int == 8);
        }
        if q == 2 {
            assert((41 - 1) / 2int == 20);
        }
    }
}

/// `41` is prime.
pub proof fn lemma_prime_41()
    ensures
        is_prime(41),
{
    lemma_witness_41();
    lemma_lucas(41, 6);
}

/// `2` is a Lucas witness for `83`.
pub proof fn lemma_witness_83()
    ensures
        lucas_witness(83, 2),
{
    lemma_prime_2();
    lemma_prime_41();
    // The base raised to n - 1, one prime power of n - 1 after the other.
    lemma_chain_start(2, 83);
    let e: nat = 1;
    let e: nat = lemma_chain_square(2, 83, e, 2);
    let e: nat = lemma_chain_square_mul(2, 83, e, 4);
    let e: nat = lemma_chain_square(2, 83, e, 32);
    let e: nat = lemma_chain_square(2, 83, e, 28);
    let e: nat = lemma_chain_square_mul(2, 83, e, 37);
    assert(power_mod(2, 41, 83) == 82);
    lemma_chain_start(82, 83);
    let e: nat = 1;
    let e: nat = lemma_chain_square(82, 83, e, 82);
    assert(power_mod(82, 2, 83) == 1);
    lemma_chain_compose(2, 41, 82, 2, 83);
    // The base raised to (n - 1) / q, for each prime q that divides n - 1.
    lemma_chain_start(2, 83);
    let e: nat = 1;
    let e: nat = lemma_chain_square(2, 83, e, 2);
    assert(power_mod(2, 2, 83) == 4);
    // No other prime divides n - 1.
    assert forall|q: nat| #[trigger] is_prime(q) && divides(q, (83 - 1) as nat) implies power_mod(
        2,
        ((83 - 1) / (q as int)) as nat,
        83,
    ) != 1 by {
        lemma_prime_factor(q, 41, 2);
        if q != 41 {
            lemma_prime_factor(q, 2, 1);
            if q != 2 {
                lemma_prime_not_unit(q);
            }
        }
        if q == 41 {
            assert((83 - 1) / 41int == 2);
        }
        if q == 2 {
            assert((83 - 1) / 2int == 41);
        }
    }
}

/// `83` is prime.
pub proof fn lemma_prime_83()
    ensures
        is_prime(83),
{
    lemma_witness_83();
    lemma_lucas(83, 2);
}

/// `3` is a Lucas witness for `2657`.
pub proof fn lemma_witness_2657()
    ensures
        lucas_witness(2657, 3),
{
    lemma_prime_2();
    lemma_prime_83();
    // The base raised to n - 1, one prime power of n - 1 after the other.
    lemma_chain_start(3, 2657);
    let e: nat = 1;
    let e: nat = lemma_chain_square(3, 2657, e, 3);
    let e: nat = lemma_chain_square_mul(3, 2657, e, 9);
    let e: nat = lemma_chain_square(3, 2657, e, 243);
    let e: nat = lemma_chain_square(3, 2657, e, 595);
    let e: nat = lemma_chain_square_mul(3, 2657, e, 644);
    let e: nat = lemma_chain_square_mul(3, 2657, e, 732);
    assert(power_mod(3, 83, 2657) == 2644);
    lemma_chain_start(2644, 2657);
    let e: nat = 1;
    let e: nat = lemma_chain_square(2644, 2657, e, 2644);
    let e: nat = lemma_chain_square(2644, 2657, e, 169);
    let e: nat = lemma_chain_square(2644, 2657, e, 1991);
    let e: nat = lemma_chain_square(2644, 2657, e, 2494);
    let e: nat = lemma_chain_square(2644, 2657, e, 2656);
    assert(power_mod(2644, 32, 2657) == 1);
    lemma_chain_compose(3, 83, 2644, 32, 2657);
    // The base raised to (n - 1) / q, for each prime q that divides n - 1.
    lemma_chain_start(3, 2657);
    let e: nat = 1;
    let e: nat = lemma_chain_square(3, 2657, e, 3);
    let e: nat = lemma_chain_square(3, 2657, e, 9);
    let e: nat = lemma_chain_square(3, 2657, e, 81);
    let e: nat = lemma_chain_square(3, 2657, e, 1247);
    let e: nat = lemma_chain_square(3, 2657, e, 664);
    assert(power_mod(3, 32, 2657) == 2491);
    lemma_chain_start(2644, 2657);
    let e: nat = 1;
    let e: nat = lemma_chain_square(2644, 2657, e, 2644);
    let e: nat = lemma_chain_square(2644, 2657, e, 169);
    let e: nat = lemma_chain_square(2644, 2657, e, 1991);
    let e: nat = lemma_chain_square(2644, 2657, e, 2494);
    assert(power_mod(2644, 16, 2657) == 2656);
    lemma_chain_compose(3, 83, 2644, 16, 2657);
    // No other prime divides n - 1.
    assert forall|q: nat| #[trigger] is_prime(q) && divides(q, (2657 - 1) as nat) implies power_mod(
        3,
        ((2657 - 1) / (q as int)) as nat,
        2657,
    ) != 1 by {
        lemma_prime_factor(q, 83, 32);
        if q != 83 {
            lemma_prime_factor(q, 2, 16);
            lemma_prime_factor(q, 2, 8);
            lemma_prime_factor(q, 2, 4);
            lemma_prime_factor(q, 2, 2);
            lemma_prime_factor(q, 2, 1);
            if q != 2 {
                lemma_prime_not_unit(q);
            }
        }
        if q == 83 {
            assert((2657 - 1) / 83int == 32);
        }
        if q == 2 {
            assert((2657 - 1) / 2int == 1328);
        }
    }
}

/// `2657` is prime.
pub proof fn lemma_prime_2657()
    ensures
        is_prime(2657),
{
    lemma_witness_2657();
    lemma_lucas(2657, 3);
}

/// `2` is a Lucas witness for `67`.
pub proof fn lemma_witness_67()
    ensures
        lucas_witness(67, 2),
{
    lemma_prime_2();
    lemma_prime_3();
    lemma_prime_11();
    // The base raised to n - 1, one prime power of n - 1 after the other.
    lemma_chain_start(2, 67);
    let e: nat = 1;
    let e: nat = lemma_chain_square(2, 67, e, 2);
    let e: nat = lemma_chain_square_mul(2, 67, e, 4);
    let e: nat = lemma_chain_square_mul(2, 67, e, 32);
    assert(power_mod(2, 11, 67) == 38);
    lemma_chain_start(38, 67);
    let e: nat = 1;
    let e: nat = lemma_chain_square_mul(38, 67, e, 38);
    assert(power_mod(38, 3, 67) == 66);
    lemma_chain_compose(2, 11, 38, 3, 67);
    lemma_chain_start(66, 67);
    let e: nat = 1;
    let e: nat = lemma_chain_square(66, 67, e, 66);
    assert(power_mod(66, 2, 67) == 1);
    lemma_chain_compose(2, 33, 66, 2, 67);
    // The base raised to (n - 1) / q, for each prime q that divides n - 1.
    lemma_chain_start(2, 67);
    let e: nat = 1;
    let e: nat = lemma_chain_square_mul(2, 67, e, 2);
    let e: nat = lemma_chain_square(2, 67, e, 8);
    assert(power_mod(2, 6, 67) == 64);
    lemma_chain_start(38, 67);
    let e: nat = 1;
    let e: nat = lemma_chain_square(38, 67, e, 38);
    assert(power_mod(38, 2, 67) == 37);
    lemma_chain_compose(2, 11, 38, 2, 67);
    // No other prime divides n - 1.
    assert forall|q: nat| #[trigger] is_prime(q) && divides(q, (67 - 1) as nat) implies power_mod(
        2,
        ((67 - 1) / (q as int)) as nat,
        67,
    ) != 1 by {
        lemma_prime_factor(q, 11, 6);
        if q != 11 {
            lemma_prime_factor(q, 3, 2);
            if q != 3 {
                lemma_prime_factor(q, 2, 1);
                if q != 2 {
                    lemma_prime_not_unit(q);
                }
            }
        }
        if q == 11 {
            assert((67 - 1) / 11int == 6);
        }
        if q == 3 {
            assert((67 - 1) / 3int == 22);
        }
        if q == 2 {
            assert((67 - 1) / 2int == 33);
        }
    }
}

/// `67` is prime.
pub proof fn lemma_prime_67()
    ensures
        is_prime(67),
{
    lemma_witness_67();
    lemma_lucas(67, 2);
}

/// `3` is a Lucas witness for `4423`.
pub proof fn lemma_witness_4423()
    ensures
        lucas_witness(4423, 3),
{
    lemma_prime_2();
    lemma_prime_3();
    lemma_prime_11();
    lemma_prime_67();
    // The base raised to n - 1, one prime power of n - 1 after the other.
    lemma_chain_start(3, 4423);
    let e: nat = 1;
    let e: nat = lemma_chain_square(3, 4423, e, 3);
    let e: nat = lemma_chain_square(3, 4423, e, 9);
    let e: nat = lemma_chain_square(3, 4423, e, 81);
    let e: nat = lemma_chain_square(3, 4423, e, 2138);
    let e: nat = lemma_chain_square_mul(3, 4423, e, 2085);
    let e: nat = lemma_chain_square_mul(3, 4423, e, 2671);
    assert(power_mod(3, 67, 4423) == 4249);
    lemma_chain_start(4249, 4423);
    let e: nat = 1;
    let e: nat = lemma_chain_square(4249, 4423, e, 4249);
    let e: nat = lemma_chain_square_mul(4249, 4423, e, 3738);
    let e: nat = lemma_chain_square_mul(4249, 4423, e, 3430);
    assert(power_mod(4249, 11, 4423) == 67);
    lemma_chain_compose(3, 67, 4249, 11, 4423);
    lemma_chain_start(67, 4423);
    let e: nat = 1;
    let e: nat = lemma_chain_square_mul(67, 4423, e, 67);
    assert(power_mod(67, 3, 4423) == 4422);
    lemma_chain_compose(3, 737, 67, 3, 4423);
    lemma_chain_start(4422, 4423);
    let e: nat = 1;
    let e: nat = lemma_chain_square(4422, 4423, e, 4422);
    assert(power_mod(4422, 2, 4423) == 1);
    lemma_chain_compose(3, 2211, 4422, 2, 4423);
    // The base raised to (n - 1) / q, for each prime q that divides n - 1.
    lemma_chain_start(3, 4423);
    let e: nat = 1;
    let e: nat = lemma_chain_square(3, 4423, e, 3);
    let e: nat = lemma_chain_square(3, 4423, e, 9);
    let e: nat = lemma_chain_square(3, 4423, e, 81);
    let e: nat = lemma_chain_square(3, 4423, e, 2138);
    let e: nat = lemma_chain_square_mul(3, 4423, e, 2085);
    let e: nat = lemma_chain_square(3, 4423, e, 2671);
    assert(power_mod(3, 66, 4423) == 4365);
    lemma_chain_start(4249, 4423);
    let e: nat = 1;
    let e: nat = lemma_chain_square_mul(4249, 4423, e, 4249);
    let e: nat = lemma_chain_square(4249, 4423, e, 4192);
    assert(power_mod(4249, 6, 4423) == 285);
    lemma_chain_compose(3, 67, 4249, 6, 4423);
    lemma_chain_start(67, 4423);
    let e: nat = 1;
    let e: nat = lemma_chain_square(67, 4423, e, 67);
    assert(power_mod(67, 2, 4423) == 66);
    lemma_chain_compose(3, 737, 67, 2, 4423);
    // No other prime divides n - 1.
    assert forall|q: nat| #[trigger] is_prime(q) && divides(q, (4423 - 1) as nat) implies power_mod(
        3,
        ((4423 - 1) / (q as int)) as nat,
        4423,
    ) != 1 by {
        lemma_prime_factor(q, 67, 66);
        if q != 67 {
            lemma_prime_factor(q, 11, 6);
            if q != 11 {
                lemma_prime_factor(q, 3, 2);
                if q != 3 {
                    lemma_prime_factor(q, 2, 1);
                    if q != 2 {
                        lemma_prime_not_unit(q);
                    }
                }
            }
        }
        if q == 67 {
            assert((4423 - 1) / 67int == 66);
        }
        if q == 11 {
            assert((4423 - 1) / 11int == 402);
        }
        if q == 3 {
            assert((4423 - 1) / 3int == 1474);
        }
        if q == 2 {
            assert((4423 - 1) / 2int == 2211);
        }
    }
}

/// `4423` is prime.
pub proof fn lemma_prime_4423()
    ensures
        is_prime(4423),
{
    lemma_witness_4423();
    lemma_lucas(4423, 3);
}

/// `5` is a Lucas witness for `103`.
pub proof fn lemma_witness_103()
    ensures
        lucas_witness(103, 5),
{
    lemma_prime_2();
    lemma_prime_3();
    lemma_prime_17();
    // The base raised to n - 1, one prime power of n - 1 after the other.
    lemma_chain_start(5, 103);
    let e: nat = 1;
    let e: nat = lemma_chain_square(5, 103, e, 5);
    let e: nat = lemma_chain_square(5, 103, e, 25);
    let e: nat = lemma_chain_square(5, 103, e, 7);
    let e: nat = lemma_chain_square_mul(5, 103, e, 49);
    assert(power_mod(5, 17, 103) == 57);
    lemma_chain_start(57, 103);
    let e: nat = 1;
    let e: nat = lemma_chain_square_mul(57, 103, e, 57);
    assert(power_mod(57, 3, 103) == 102);
    lemma_chain_compose(5, 17, 57, 3, 103);
    lemma_chain_start(102, 103);
    let e: nat = 1;
    let e: nat = lemma_chain_square(102, 103, e, 102);
    assert(power_mod(102, 2, 103) == 1);
    lemma_chain_compose(5, 51, 102, 2, 103);
    // The base raised to (n - 1) / q, for each prime q that divides n - 1.
    lemma_chain_start(5, 103);
    let e: nat = 1;
    let e: nat = lemma_chain_square_mul(5, 103, e, 5);
    let e: nat = lemma_chain_square(5, 103, e, 22);
    assert(power_mod(5, 6, 103) == 72);
    lemma_chain_start(57, 103);
    let e: nat = 1;
    let e: nat = lemma_chain_square(57, 103, e, 57);
    assert(power_mod(57, 2, 103) == 56);
    lemma_chain_compose(5, 17, 57, 2, 103);
    // No other prime divides n - 1.
    assert forall|q: nat| #[trigger] is_prime(q) && divides(q, (103 - 1) as nat) implies power_mod(
        5,
        ((103 - 1) / (q as int)) as nat,
        103,
    ) != 1 by {
        lemma_prime_factor(q, 17, 6);
        if q != 17 {
            lemma_prime_factor(q, 3, 2);
            if q != 3 {
                lemma_prime_factor(q, 2, 1);
                if q != 2 {
                    lemma_prime_not_unit(q);
                }
            }
        }
        if q == 17 {
            assert((103 - 1) / 17int == 6);
        }
        if q == 3 {
            assert((103 - 1) / 3int == 34);
        }
        if q == 2 {
            assert((103 - 1) / 2int == 51);
        }
    }
}

/// `103` is prime.
pub proof fn lemma_prime_103()
    ensures
        is_prime(103),
{
    lemma_witness_103();
    lemma_lucas(103, 5);
}

/// `3` is a Lucas witness for `41201`.
pub proof fn lemma_witness_41201()
    ensures
        lucas_witness(41201, 3),
{
    lemma_prime_2();
    lemma_prime_5();
    lemma_prime_103();
    // The base raised to n - 1, one prime power of n - 1 after the other.
    lemma_chain_start(3, 41201);
    let e: nat = 1;
    let e: nat = lemma_chain_square_mul(3, 41201, e, 3);
    let e: nat = lemma_chain_square(3, 41201, e, 27);
    let e: nat = lemma_chain_square(3, 41201, e, 729);
    let e: nat = lemma_chain_square_mul(3, 41201, e, 37029);
    let e: nat = lemma_chain_square_mul(3, 41201, e, 15085);
    let e: nat = lemma_chain_square_mul(3, 41201, e, 12306);
    assert(power_mod(3, 103, 41201) == 30682);
    lemma_chain_start(30682, 41201);
    let e: nat = 1;
    let e: nat = lemma_chain_square_mul(30682, 41201, e, 30682);
    let e: nat = lemma_chain_square(30682, 41201, e, 40657);
    let e: nat = lemma_chain_square(30682, 41201, e, 7529);
    let e: nat = lemma_chain_square_mul(30682, 41201, e, 34466);
    assert(power_mod(30682, 25, 41201) == 914);
    lemma_chain_compose(3, 103, 30682, 25, 41201);
    lemma_chain_start(914, 41201);
    let e: nat = 1;
    let e: nat = lemma_chain_square(914, 41201, e, 914);
    let e: nat = lemma_chain_square(914, 41201, e, 11376);
    let e: nat = lemma_chain_square(914, 41201, e, 1035);
    let e: nat = lemma_chain_square(914, 41201, e, 41200);
    assert(power_mod(914, 16, 41201) == 1);
    lemma_chain_compose(3, 2575, 914, 16, 41201);
    // The base raised to (n - 1) / q, for each prime q that divides n - 1.
    lemma_chain_start(3, 41201);
    let e: nat = 1;
    let e: nat = lemma_chain_square_mul(3, 41201, e, 3);
    let e: nat = lemma_chain_square(3, 41201, e, 27);
    let e: nat = lemma_chain_square(3, 41201, e, 729);
    let e: nat = lemma_chain_square_mul(3, 41201, e, 37029);
    let e: nat = lemma_chain_square(3, 41201, e, 15085);
    let e: nat = lemma_chain_square(3, 41201, e, 4102);
    let e: nat = lemma_chain_square(3, 41201, e, 16396);
    let e: nat = lemma_chain_square(3, 41201, e, 33492);
    assert(power_mod(3, 400, 41201) == 16839);
    lemma_chain_start(30682, 41201);
    let e: nat = 1;
    let e: nat = lemma_chain_square(30682, 41201, e, 30682);
    let e: nat = lemma_chain_square_mul(30682, 41201, e, 24676);
    let e: nat = lemma_chain_square(30682, 41201, e, 7782);
    let e: nat = lemma_chain_square(30682, 41201, e, 35255);
    let e: nat = lemma_chain_square(30682, 41201, e, 4458);
    let e: nat = lemma_chain_square(30682, 41201, e, 14882);
    assert(power_mod(30682, 80, 41201) == 18549);
    lemma_chain_compose(3, 103, 30682, 80, 41201);
    lemma_chain_start(914, 41201);
    let e: nat = 1;
    let e: nat = lemma_chain_square(914, 41201, e, 914);
    let e: nat = lemma_chain_square(914, 41201, e, 11376);
    let e: nat = lemma_chain_square(914, 41201, e, 1035);
    assert(power_mod(914, 8, 41201) == 41200);
    lemma_chain_compose(3, 2575, 914, 8, 41201);
    // No other prime divides n - 1.
    assert forall|q: nat|
        #[trigger] is_prime(q) && divides(
            q,
            (41201 - 1) as nat,
        ) implies power_mod(
        3,
        ((41201 - 1) / (q as int)) as nat,
        41201,
    ) != 1 by {
        lemma_prime_factor(q, 103, 400);
        if q != 103 {
            lemma_prime_factor(q, 5, 80);
            lemma_prime_factor(q, 5, 16);
            if q != 5 {
                lemma_prime_factor(q, 2, 8);
                lemma_prime_factor(q, 2, 4);
                lemma_prime_factor(q, 2, 2);
                lemma_prime_factor(q, 2, 1);
                if q != 2 {
                    lemma_prime_not_unit(q);
                }
            }
        }
        if q == 103 {
            assert((41201 - 1) / 103int == 400);
        }
        if q == 5 {
            assert((41201 - 1) / 5int == 8240);
        }
        if q == 2 {
            assert((41201 - 1) / 2int == 20600);
        }
    }
}

/// `41201` is prime.
pub proof fn lemma_prime_41201()
    ensures
        is_prime(41201),
{
    lemma_witness_41201();
    lemma_lucas(41201, 3);
}

/// `2` is a Lucas witness for `101`.
pub proof fn lemma_witness_101()
    ensures
        lucas_witness(101, 2),
{
    lemma_prime_2();
    lemma_prime_5();
    // The base raised to n - 1, one prime power of n - 1 after the other.
    lemma_chain_start(2, 101);
    let e: nat = 1;
    let e: nat = lemma_chain_square_mul(2, 101, e, 2);
    let e: nat = lemma_chain_square(2, 101, e, 8);
    let e: nat = lemma_chain_square(2, 101, e, 64);
    let e: nat = lemma_chain_square_mul(2, 101, e, 56);
    assert(power_mod(2, 25, 101) == 10);
    lemma_chain_start(10, 101);
    let e: nat = 1;
    let e: nat = lemma_chain_square(10, 101, e, 10);
    let e: nat = lemma_chain_square(10, 101, e, 100);
    assert(power_mod(10, 4, 101) == 1);
    lemma_chain_compose(2, 25, 10, 4, 101);
    // The base raised to (n - 1) / q, for each prime q that divides n - 1.
    lemma_chain_start(2, 101);
    let e: nat = 1;
    let e: nat = lemma_chain_square(2, 101, e, 2);
    let e: nat = lemma_chain_square_mul(2, 101, e, 4);
    let e: nat = lemma_chain_square(2, 101, e, 32);
    let e: nat = lemma_chain_square(2, 101, e, 14);
    assert(power_mod(2, 20, 101) == 95);
    lemma_chain_start(10, 101);
    let e: nat = 1;
    let e: nat = lemma_chain_square(10, 101, e, 10);
    assert(power_mod(10, 2, 101) == 100);
    lemma_chain_compose(2, 25, 10, 2, 101);
    // No other prime divides n - 1.
    assert forall|q: nat| #[trigger] is_prime(q) && divides(q, (101 - 1) as nat) implies power_mod(
        2,
        ((101 - 1) / (q as int)) as nat,
        101,
    ) != 1 by {
        lemma_prime_factor(q, 5, 20);
        lemma_prime_factor(q, 5, 4);
        if q != 5 {
            lemma_prime_factor(q, 2, 2);
            lemma_prime_factor(q, 2, 1);
            if q != 2 {
                lemma_prime_not_unit(q);
            }
        }
        if q == 5 {
            assert((101 - 1) / 5int == 20);
        }
        if q == 2 {
            assert((101 - 1) / 2int == 50);
        }
    }
}

/// `101` is prime.
pub proof fn lemma_prime_101()
    ensures
        is_prime(101),
{
    lemma_witness_101();
    lemma_lucas(101, 2);
}

/// `7` is a Lucas witness for `239`.
pub proof fn lemma_witness_239()
    ensures
        lucas_witness(239, 7),
{
    lemma_prime_2();
    lemma_prime_7();
    lemma_prime_17();
    // The base raised to n - 1, one prime power of n - 1 after the other.
    lemma_chain_start(7, 239);
    let e: nat = 1;
    let e: nat = lemma_chain_square(7, 239, e, 7);
    let e: nat = lemma_chain_square(7, 239, e, 49);
    let e: nat = lemma_chain_square(7, 239, e, 11);
    let e: nat = lemma_chain_square_mul(7, 239, e, 121);
    assert(power_mod(7, 17, 239) == 195);
    lemma_chain_start(195, 239);
    let e: nat = 1;
    let e: nat = lemma_chain_square_mul(195, 239, e, 195);
    let e: nat = lemma_chain_square_mul(195, 239, e, 139);
    assert(power_mod(195, 7, 239) == 238);
    lemma_chain_compose(7, 17, 195, 7, 239);
    lemma_chain_start(238, 239);
    let e: nat = 1;
    let e: nat = lemma_chain_square(238, 239, e, 238);
    assert(power_mod(238, 2, 239) == 1);
    lemma_chain_compose(7, 119, 238, 2, 239);
    // The base raised to (n - 1) / q, for each prime q that divides n - 1.
    lemma_chain_start(7, 239);
    let e: nat = 1;
    let e: nat = lemma_chain_square_mul(7, 239, e, 7);
    let e: nat = lemma_chain_square_mul(7, 239, e, 104);
    let e: nat = lemma_chain_square(7, 239, e, 188);
    assert(power_mod(7, 14, 239) == 211);
    lemma_chain_start(195, 239);
    let e: nat = 1;
    let e: nat = lemma_chain_square(195, 239, e, 195);
    assert(power_mod(195, 2, 239) == 24);
    lemma_chain_compose(7, 17, 195, 2, 239);
    // No other prime divides n - 1.
    assert forall|q: nat| #[trigger] is_prime(q) && divides(q, (239 - 1) as nat) implies power_mod(
        7,
        ((239 - 1) / (q as int)) as nat,
        239,
    ) != 1 by {
        lemma_prime_factor(q, 17, 14);
        if q != 17 {
            lemma_prime_factor(q, 7, 2);
            if q != 7 {
                lemma_prime_factor(q, 2, 1);
                if q != 2 {
                    lemma_prime_not_unit(q);
                }
            }
        }
        if q == 17 {
            assert((239 - 1) / 17int == 14);
        }
        if q == 7 {
            assert((239 - 1) / 7int == 34);
        }
        if q == 2 {
            assert((239 - 1) / 2int == 119);
        }
    }
}

/// `239` is prime.
pub proof fn lemma_prime_239()
    ensures
        is_prime(239),
{
    lemma_witness_239();
    lemma_lucas(239, 7);
}

/// `2` is a Lucas witness for `96557`.
pub proof fn lemma_witness_96557()
    ensures
        lucas_witness(96557, 2),
{
    lemma_prime_2();
    lemma_prime_101();
    lemma_prime_239();
    // The base raised to n - 1, one prime power of n - 1 after the other.
    lemma_chain_start(2, 96557);
    let e: nat = 1;
    let e: nat = lemma_chain_square_mul(2, 96557, e, 2);
    let e: nat = lemma_chain_square_mul(2, 96557, e, 8);
    let e: nat = lemma_chain_square(2, 96557, e, 128);
    let e: nat = lemma_chain_square_mul(2, 96557, e, 16384);
    let e: nat = lemma_chain_square_mul(2, 96557, e, 13992);
    let e: nat = lemma_chain_square_mul(2, 96557, e, 13493);
    let e: nat = lemma_chain_square_mul(2, 96557, e, 5651);
    assert(power_mod(2, 239, 96557) == 43425);
    lemma_chain_start(43425, 96557);
    let e: nat = 1;
    let e: nat = lemma_chain_square_mul(43425, 96557, e, 43425);
    let e: nat = lemma_chain_square(43425, 96557, e, 7517);
    let e: nat = lemma_chain_square(43425, 96557, e, 19444);
    let e: nat = lemma_chain_square_mul(43425, 96557, e, 48481);
    let e: nat = lemma_chain_square(43425, 96557, e, 64630);
    let e: nat = lemma_chain_square_mul(43425, 96557, e, 77637);
    assert(power_mod(43425, 101, 96557) == 56641);
    lemma_chain_compose(2, 239, 43425, 101, 96557);
    lemma_chain_start(56641, 96557);
    let e: nat = 1;
    let e: nat = lemma_chain_square(56641, 96557, e, 56641);
    let e: nat = lemma_chain_square(56641, 96557, e, 96556);
    assert(power_mod(56641, 4, 96557) == 1);
    lemma_chain_compose(2, 24139, 56641, 4, 96557);
    // The base raised to (n - 1) / q, for each prime q that divides n - 1.
    lemma_chain_start(2, 96557);
    let e: nat = 1;
    let e: nat = lemma_chain_square_mul(2, 96557, e, 2);
    let e: nat = lemma_chain_square(2, 96557, e, 8);
    let e: nat = lemma_chain_square(2, 96557, e, 64);
    let e: nat = lemma_chain_square_mul(2, 96557, e, 4096);
    let e: nat = lemma_chain_square(2, 96557, e, 49153);
    let e: nat = lemma_chain_square_mul(2, 96557, e, 64712);
    let e: nat = lemma_chain_square(2, 96557, e, 28265);
    let e: nat = lemma_chain_square(2, 96557, e, 94164);
    assert(power_mod(2, 404, 96557) == 29586);
    lemma_chain_start(43425, 96557);
    let e: nat = 1;
    let e: nat = lemma_chain_square(43425, 96557, e, 43425);
    let e: nat = lemma_chain_square(43425, 96557, e, 68972);
    assert(power_mod(43425, 4, 96557) == 63065);
    lemma_chain_compose(2, 239, 43425, 4, 96557);
    lemma_chain_start(56641, 96557);
    let e: nat = 1;
    let e: nat = lemma_chain_square(56641, 96557, e, 56641);
    assert(power_mod(56641, 2, 96557) == 96556);
    lemma_chain_compose(2, 24139, 56641, 2, 96557);
    // No other prime divides n - 1.
    assert forall|q: nat|
        #[trigger] is_prime(q) && divides(
            q,
            (96557 - 1) as nat,
        ) implies power_mod(
        2,
        ((96557 - 1) / (q as int)) as nat,
        96557,
    ) != 1 by {
        lemma_prime_factor(q, 239, 404);
        if q != 239 {
            lemma_prime_factor(q, 101, 4);
            if q != 101 {
                lemma_prime_factor(q, 2, 2);
                lemma_prime_factor(q, 2, 1);
                if q != 2 {
                    lemma_prime_not_unit(q);
                }
            }
        }
        if q == 239 {
            assert((96557 - 1) / 239int == 404);
        }
        if q == 101 {
            assert((96557 - 1) / 101int == 956);
        }
        if q == 2 {
            assert((96557 - 1) / 2int == 48278);
        }
    }
}

/// `96557` is prime.
pub proof fn lemma_prime_96557()
    ensures
        is_prime(96557),
{
    lemma_witness_96557();
    lemma_lucas(96557, 2);
}

/// `2` is a Lucas witness for `19`.
pub proof fn lemma_witness_19()
    ensures
        lucas_witness(19, 2),
{
    lemma_prime_2();
    lemma_prime_3();
    // The base raised to n - 1, one prime power of n - 1 after the other.
    lemma_chain_start(2, 19);
    let e: nat = 1;
    let e: nat = lemma_chain_square(2, 19, e, 2);
    let e: nat = lemma_chain_square(2, 19, e, 4);
    let e: nat = lemma_chain_square_mul(2, 19, e, 16);
    assert(power_mod(2, 9, 19) == 18);
    lemma_chain_start(18, 19);
    let e: nat = 1;
    let e: nat = lemma_chain_square(18, 19, e, 18);
    assert(power_mod(18, 2, 19) == 1);
    lemma_chain_compose(2, 9, 18, 2, 19);
    // The base raised to (n - 1) / q, for each prime q that divides n - 1.
    lemma_chain_start(2, 19);
    let e: nat = 1;
    let e: nat = lemma_chain_square_mul(2, 19, e, 2);
    let e: nat = lemma_chain_square(2, 19, e, 8);
    assert(power_mod(2, 6, 19) == 7);
    // No other prime divides n - 1.
    assert forall|q: nat| #[trigger] is_prime(q) && divides(q, (19 - 1) as nat) implies power_mod(
        2,
        ((19 - 1) / (q as int)) as nat,
        19,
    ) != 1 by {
        lemma_prime_factor(q, 3, 6);
        lemma_prime_factor(q, 3, 2);
        if q != 3 {
            lemma_prime_factor(q, 2, 1);
            if q != 2 {
                lemma_prime_not_unit(q);
            }
        }
        if q == 3 {
            assert((19 - 1) / 3int == 6);
        }
        if q == 2 {
            assert((19 - 1) / 2int == 9);
        }
    }
}

/// `19` is prime.
pub proof fn lemma_prime_19()
    ensures
        is_prime(19),
{
    lemma_witness_19();
    lemma_lucas(19, 2);
}

/// `2` is a Lucas witness for `419`.
pub proof fn lemma_witness_419()
    ensures
        lucas_witness(419, 2),
{
    lemma_prime_2();
    lemma_prime_11();
    lemma_prime_19();
    // The base raised to n - 1, one prime power of n - 1 after the other.
    lemma_chain_start(2, 419);
    let e: nat = 1;
    let e: nat = lemma_chain_square(2, 419, e, 2);
    let e: nat = lemma_chain_square(2, 419, e, 4);
    let e: nat = lemma_chain_square_mul(2, 419, e, 16);
    let e: nat = lemma_chain_square_mul(2, 419, e, 93);
    assert(power_mod(2, 19, 419) == 119);
    lemma_chain_start(119, 419);
    let e: nat = 1;
    let e: nat = lemma_chain_square(119, 419, e, 119);
    let e: nat = lemma_chain_square_mul(119, 419, e, 334);
    let e: nat = lemma_chain_square_mul(119, 419, e, 406);
    assert(power_mod(119, 11, 419) == 418);
    lemma_chain_compose(2, 19, 119, 11, 419);
    lemma_chain_start(418, 419);
    let e: nat = 1;
    let e: nat = lemma_chain_square(418, 419, e, 418);
    assert(power_mod(418, 2, 419) == 1);
    lemma_chain_compose(2, 209, 418, 2, 419);
    // The base raised to (n - 1) / q, for each prime q that divides n - 1.
    lemma_chain_start(2, 419);
    let e: nat = 1;
    let e: nat = lemma_chain_square(2, 419, e, 2);
    let e: nat = lemma_chain_square_mul(2, 419, e, 4);
    let e: nat = lemma_chain_square_mul(2, 419, e, 32);
    let e: nat = lemma_chain_square(2, 419, e, 372);
    assert(power_mod(2, 22, 419) == 114);
    lemma_chain_start(119, 419);
    let e: nat = 1;
    let e: nat = lemma_chain_square(119, 419, e, 119);
    assert(power_mod(119, 2, 419) == 334);
    lemma_chain_compose(2, 19, 119, 2, 419);
    // No other prime divides n - 1.
    assert forall|q: nat| #[trigger] is_prime(q) && divides(q, (419 - 1) as nat) implies power_mod(
        2,
        ((419 - 1) / (q as int)) as nat,
        419,
    ) != 1 by {
        lemma_prime_factor(q, 19, 22);
        if q != 19 {
            lemma_prime_factor(q, 11, 2);
            if q != 11 {
                lemma_prime_factor(q, 2, 1);
                if q != 2 {
                    lemma_prime_not_unit(q);
                }
            }
        }
        if q == 19 {
            assert((419 - 1) / 19int == 22);
        }
        if q == 11 {
            assert((419 - 1) / 11int == 38);
        }
        if q == 2 {
            assert((419 - 1) / 2int == 209);
        }
    }
}

/// `419` is prime.
pub proof fn lemma_prime_419()
    ensures
        is_prime(419),
{
    lemma_witness_419();
    lemma_lucas(419, 2);
}

/// `10` is a Lucas witness for `20113`.
pub proof fn lemma_witness_20113()
    ensures
        lucas_witness(20113, 10),
{
    lemma_prime_2();
    lemma_prime_3();
    lemma_prime_419();
    // The base raised to n - 1, one prime power of n - 1 after the other.
    lemma_chain_start(10, 20113);
    let e: nat = 1;
    let e: nat = lemma_chain_square_mul(10, 20113, e, 10);
    let e: nat = lemma_chain_square(10, 20113, e, 1000);
    let e: nat = lemma_chain_square_mul(10, 20113, e, 14463);
    let e: nat = lemma_chain_square(10, 20113, e, 11577);
    let e: nat = lemma_chain_square(10, 20113, e, 14010);
    let e: nat = lemma_chain_square(10, 20113, e, 17446);
    let e: nat = lemma_chain_square_mul(10, 20113, e, 13000);
    let e: nat = lemma_chain_square_mul(10, 20113, e, 5175);
    assert(power_mod(10, 419, 20113) == 1655);
    lemma_chain_start(1655, 20113);
    let e: nat = 1;
    let e: nat = lemma_chain_square_mul(1655, 20113, e, 1655);
    assert(power_mod(1655, 3, 20113) == 18435);
    lemma_chain_compose(10, 419, 1655, 3, 20113);
    lemma_chain_start(18435, 20113);
    let e: nat = 1;
    let e: nat = lemma_chain_square(18435, 20113, e, 18435);
    let e: nat = lemma_chain_square(18435, 20113, e, 19977);
    let e: nat = lemma_chain_square(18435, 20113, e, 18496);
    let e: nat = lemma_chain_square(18435, 20113, e, 20112);
    assert(power_mod(18435, 16, 20113) == 1);
    lemma_chain_compose(10, 1257, 18435, 16, 20113);
    // The base raised to (n - 1) / q, for each prime q that divides n - 1.
    lemma_chain_start(10, 20113);
    let e: nat = 1;
    let e: nat = lemma_chain_square_mul(10, 20113, e, 10);
    let e: nat = lemma_chain_square(10, 20113, e, 1000);
    let e: nat = lemma_chain_square(10, 20113, e, 14463);
    let e: nat = lemma_chain_square(10, 20113, e, 3169);
    let e: nat = lemma_chain_square(10, 20113, e, 6174);
    assert(power_mod(10, 48, 20113) == 4141);
    lemma_chain_start(1655, 20113);
    let e: nat = 1;
    let e: nat = lemma_chain_square(1655, 20113, e, 1655);
    let e: nat = lemma_chain_square(1655, 20113, e, 3657);
    let e: nat = lemma_chain_square(1655, 20113, e, 18617);
    let e: nat = lemma_chain_square(1655, 20113, e, 5473);
    assert(power_mod(1655, 16, 20113) == 5472);
    lemma_chain_compose(10, 419, 1655, 16, 20113);
    lemma_chain_start(18435, 20113);
    let e: nat = 1;
    let e: nat = lemma_chain_square(18435, 20113, e, 18435);
    let e: nat = lemma_chain_square(18435, 20113, e, 19977);
    let e: nat = lemma_chain_square(18435, 20113, e, 18496);
    assert(power_mod(18435, 8, 20113) == 20112);
    lemma_chain_compose(10, 1257, 18435, 8, 20113);
    // No other prime divides n - 1.
    assert forall|q: nat|
        #[trigger] is_prime(q) && divides(
            q,
            (20113 - 1) as nat,
        ) implies power_mod(
        10,
        ((20113 - 1) / (q as int)) as nat,
        20113,
    ) != 1 by {
        lemma_prime_factor(q, 419, 48);
        if q != 419 {
            lemma_prime_factor(q, 3, 16);
            if q != 3 {
                lemma_prime_factor(q, 2, 8);
                lemma_prime_factor(q, 2, 4);
                lemma_prime_factor(q, 2, 2);
                lemma_prime_factor(q, 2, 1);
                if q != 2 {
                    lemma_prime_not_unit(q);
                }
            }
        }
        if q == 419 {
            assert((20113 - 1) / 419int == 48);
        }
        if q == 3 {
            assert((20113 - 1) / 3int == 6704);
        }
        if q == 2 {
            assert((20113 - 1) / 2int == 10056);
        }
    }
}

/// `20113` is prime.
pub proof fn lemma_prime_20113()
    ensures
        is_prime(20113),
{
    lemma_witness_20113();
    lemma_lucas(20113, 10);
}

/// A digit zero in chain 18.
proof fn square_18(e: nat, r: nat) -> (e2: nat)
    requires
        power_mod(10, e, 0x1269fd) == r,
    ensures
        e2 == 2 * e,
        power_mod(10, e2, 0x1269fd) == (r * r) % 0x1269fd,
{
    lemma_chain_square(10, 0x1269fd, e, r)
}

/// A digit one in chain 18.
proof fn square_mul_18(e: nat, r: nat) -> (e2: nat)
    requires
        power_mod(10, e, 0x1269fd) == r,
    ensures
        e2 == 2 * e + 1,
        power_mod(10, e2, 0x1269fd) == (r * r * 10) % 0x1269fd,
{
    lemma_chain_square_mul(10, 0x1269fd, e, r)
}

/// Chain 18.
proof fn chain_18()
    ensures
        power_mod(10, 20113, 0x1269fd) == 45544,
{
    lemma_chain_start(10, 0x1269fd);
    let e: nat = 1;
    let e: nat = square_18(e, 10);
    let e: nat = square_18(e, 100);
    let e: nat = square_mul_18(e, 10000);
    let e: nat = square_mul_18(e, 785332);
    let e: nat = square_mul_18(e, 428627);
    let e: nat = square_18(e, 416204);
    let e: nat = square_mul_18(e, 804533);
    let e: nat = square_18(e, 671955);
    let e: nat = square_18(e, 376970);
    let e: nat = square_mul_18(e, 677464);
    let e: nat = square_18(e, 725686);
    let e: nat = square_18(e, 250692);
    let e: nat = square_18(e, 944727);
    let e: nat = square_mul_18(e, 426111);
}

/// Chain 19.
proof fn chain_19()
    ensures
        power_mod(45544, 5, 0x1269fd) == 38189,
{
    lemma_chain_start(45544, 0x1269fd);
    let e: nat = 1;
    let e: nat = lemma_chain_square(45544, 0x1269fd, e, 45544);
    let e: nat = lemma_chain_square_mul(45544, 0x1269fd, e, 0xf5a62);
}

/// Chain 20.
proof fn chain_20()
    ensures
        power_mod(38189, 3, 0x1269fd) == 10128,
{
    lemma_chain_start(38189, 0x1269fd);
    let e: nat = 1;
    let e: nat = lemma_chain_square_mul(38189, 0x1269fd, e, 38189);
}

/// Chain 21.
proof fn chain_21()
    ensures
        power_mod(10128, 4, 0x1269fd) == 1,
{
    lemma_chain_start(10128, 0x1269fd);
    let e: nat = 1;
    let e: nat = lemma_chain_square(10128, 0x1269fd, e, 10128);
    let e: nat = lemma_chain_square(10128, 0x1269fd, e, 0x1269fc);
}

/// A digit zero in chain 22.
proof fn square_22(e: nat, r: nat) -> (e2: nat)
    requires
        power_mod(10, e, 0x1269fd) == r,
    ensures
        e2 == 2 * e,
        power_mod(10, e2, 0x1269fd) == (r * r) % 0x1269fd,
{
    lemma_chain_square(10, 0x1269fd, e, r)
}

/// A digit one in chain 22.
proof fn square_mul_22(e: nat, r: nat) -> (e2: nat)
    requires
        power_mod(10, e, 0x1269fd) == r,
    ensures
        e2 == 2 * e + 1,
        power_mod(10, e2, 0x1269fd) == (r * r * 10) % 0x1269fd,
{
    lemma_chain_square_mul(10, 0x1269fd, e, r)
}

/// Chain 22.
proof fn chain_22()
    ensures
        power_mod(10, 60, 0x1269fd) == 888380,
{
    lemma_chain_start(10, 0x1269fd);
    let e: nat = 1;
    let e: nat = square_mul_22(e, 10);
    let e: nat = square_mul_22(e, 1000);
    let e: nat = square_mul_22(e, 345752);
    let e: nat = square_22(e, 0x11bd27);
    let e: nat = square_22(e, 309734);
}

/// Chain 23.
proof fn chain_23()
    ensures
        power_mod(45544, 12, 0x1269fd) == 0x1041c7,
{
    lemma_chain_start(45544, 0x1269fd);
    let e: nat = 1;
    let e: nat = lemma_chain_square_mul(45544, 0x1269fd, e, 45544);
    let e: nat = lemma_chain_square(45544, 0x1269fd, e, 275919);
    let e: nat = lemma_chain_square(45544, 0x1269fd, e, 308395);
}

/// Chain 24.
proof fn chain_24()
    ensures
        power_mod(38189, 4, 0x1269fd) == 608272,
{
    lemma_chain_start(38189, 0x1269fd);
    let e: nat = 1;
    let e: nat = lemma_chain_square(38189, 0x1269fd, e, 38189);
    let e: nat = lemma_chain_square(38189, 0x1269fd, e, 608273);
}

/// Chain 25.
proof fn chain_25()
    ensures
        power_mod(10128, 2, 0x1269fd) == 0x1269fc,
{
    lemma_chain_start(10128, 0x1269fd);
    let e: nat = 1;
    let e: nat = lemma_chain_square(10128, 0x1269fd, e, 10128);
}

/// `10` is a Lucas witness for `0x1269fd`.
pub proof fn lemma_witness_1206781()
    ensures
        lucas_witness(0x1269fd, 10),
{
    lemma_prime_2();
    lemma_prime_3();
    lemma_prime_5();
    lemma_prime_20113();
    // The base raised to n - 1, one prime power of n - 1 after the other.
    chain_18();
    chain_19();
    lemma_chain_compose(10, 20113, 45544, 5, 0x1269fd);
    chain_20();
    lemma_chain_compose(10, 100565, 38189, 3, 0x1269fd);
    chain_21();
    lemma_chain_compose(10, 301695, 10128, 4, 0x1269fd);
    // The base raised to (n - 1) / q, for each prime q that divides n - 1.
    chain_22();
    chain_23();
    lemma_chain_compose(10, 20113, 45544, 12, 0x1269fd);
    chain_24();
    lemma_chain_compose(10, 100565, 38189, 4, 0x1269fd);
    chain_25();
    lemma_chain_compose(10, 301695, 10128, 2, 0x1269fd);
    // No other prime divides n - 1.
    assert forall|q: nat|
        #[trigger] is_prime(q) && divides(
            q,
            (0x1269fd - 1) as nat,
        ) implies power_mod(
        10,
        ((0x1269fd - 1) / (q as int)) as nat,
        0x1269fd,
    ) != 1 by {
        lemma_prime_factor(q, 20113, 60);
        if q != 20113 {
            lemma_prime_factor(q, 5, 12);
            if q != 5 {
                lemma_prime_factor(q, 3, 4);
                if q != 3 {
                    lemma_prime_factor(q, 2, 2);
                    lemma_prime_factor(q, 2, 1);
                    if q != 2 {
                        lemma_prime_not_unit(q);
                    }
                }
            }
        }
        if q == 20113 {
            assert((0x1269fd - 1) / 20113int == 60);
        }
        if q == 5 {
            assert((0x1269fd - 1) / 5int == 241356);
        }
        if q == 3 {
            assert((0x1269fd - 1) / 3int == 402260);
        }
        if q == 2 {
            assert((0x1269fd - 1) / 2int == 603390);
        }
    }
}

/// `0x1269fd` is prime.
pub proof fn lemma_prime_1206781()
    ensures
        is_prime(0x1269fd),
{
    lemma_witness_1206781();
    lemma_lucas(0x1269fd, 10);
}

/// A digit zero in chain 26.
proof fn square_26(e: nat, r: nat) -> (e2: nat)
    requires
        power_mod(3, e, 0x6e7bef) == r,
    ensures
        e2 == 2 * e,
        power_mod(3, e2, 0x6e7bef) == (r * r) % 0x6e7bef,
{
    lemma_chain_square(3, 0x6e7bef, e, r)
}

/// A digit one in chain 26.
proof fn square_mul_26(e: nat, r: nat) -> (e2: nat)
    requires
        power_mod(3, e, 0x6e7bef) == r,
    ensures
        e2 == 2 * e + 1,
        power_mod(3, e2, 0x6e7bef) == (r * r * 3) % 0x6e7bef,
{
    lemma_chain_square_mul(3, 0x6e7bef, e, r)
}

/// Chain 26 up to digit 17 of 21 of its exponent.
proof fn chain_26_1()
    ensures
        power_mod(3, 75423, 0x6e7bef) == 0x6bf14e,
{
    lemma_chain_start(3, 0x6e7bef);
    let e: nat = 1;
    let e: nat = square_26(e, 3);
    let e: nat = square_26(e, 9);
    let e: nat = square_mul_26(e, 81);
    let e: nat = square_26(e, 19683);
    let e: nat = square_26(e, 0x37e8ce);
    let e: nat = square_mul_26(e, 0x2d663e);
    let e: nat = square_mul_26(e, 0x63975e);
    let e: nat = square_26(e, 0x1cbbcd);
    let e: nat = square_mul_26(e, 0x57bf7e);
    let e: nat = square_26(e, 0x2c4baf);
    let e: nat = square_26(e, 0x31c568);
    let e: nat = square_mul_26(e, 0x3e7a66);
    let e: nat = square_mul_26(e, 876435);
    let e: nat = square_mul_26(e, 0x11259e);
    let e: nat = square_mul_26(e, 0x2c00d4);
    let e: nat = square_mul_26(e, 0x118f0d);
}

/// Chain 26 up to digit 21 of 21 of its exponent.
proof fn chain_26_2()
    ensures
        power_mod(3, 0x1269fd, 0x6e7bef) == 0x633631,
{
    chain_26_1();
    let e: nat = 75423;
    let e: nat = square_mul_26(e, 0x6bf14e);
    let e: nat = square_mul_26(e, 0x317f09);
    let e: nat = square_26(e, 0x3cbee8);
    let e: nat = square_mul_26(e, 0x45e60b);
}

/// Chain 27.
proof fn chain_27()
    ensures
        power_mod(0x633631, 3, 0x6e7bef) == 0x6e7bee,
{
    lemma_chain_start(0x633631, 0x6e7bef);
    let e: nat = 1;
    let e: nat = lemma_chain_square_mul(0x633631, 0x6e7bef, e, 0x633631);
}

/// Chain 28.
proof fn chain_28()
    ensures
        power_mod(0x6e7bee, 2, 0x6e7bef) == 1,
{
    lemma_chain_start(0x6e7bee, 0x6e7bef);
    let e: nat = 1;
    let e: nat = lemma_chain_square(0x6e7bee, 0x6e7bef, e, 0x6e7bee);
}

/// Chain 29.
proof fn chain_29()
    ensures
        power_mod(3, 6, 0x6e7bef) == 729,
{
    lemma_chain_start(3, 0x6e7bef);
    let e: nat = 1;
    let e: nat = lemma_chain_square_mul(3, 0x6e7bef, e, 3);
    let e: nat = lemma_chain_square(3, 0x6e7bef, e, 27);
}

/// Chain 30.
proof fn chain_30()
    ensures
        power_mod(0x633631, 2, 0x6e7bef) == 0x633630,
{
    lemma_chain_start(0x633631, 0x6e7bef);
    let e: nat = 1;
    let e: nat = lemma_chain_square(0x633631, 0x6e7bef, e, 0x633631);
}

/// `3` is a Lucas witness for `0x6e7bef`.
pub proof fn lemma_witness_7240687()
    ensures
        lucas_witness(0x6e7bef, 3),
{
    lemma_prime_2();
    lemma_prime_3();
    lemma_prime_1206781();
    // The base raised to n - 1, one prime power of n - 1 after the other.
    chain_26_2();
    chain_27();
    lemma_chain_compose(3, 0x1269fd, 0x633631, 3, 0x6e7bef);
    chain_28();
    lemma_chain_compose(3, 0x373df7, 0x6e7bee, 2, 0x6e7bef);
    // The base raised to (n - 1) / q, for each prime q that divides n - 1.
    chain_29();
    chain_30();
    lemma_chain_compose(3, 0x1269fd, 0x633631, 2, 0x6e7bef);
    // No other prime divides n - 1.
    assert forall|q: nat|
        #[trigger] is_prime(q) && divides(
            q,
            (0x6e7bef - 1) as nat,
        ) implies power_mod(
        3,
        ((0x6e7bef - 1) / (q as int)) as nat,
        0x6e7bef,
    ) != 1 by {
        lemma_prime_factor(q, 0x1269fd, 6);
        if q != 0x1269fd {
            lemma_prime_factor(q, 3, 2);
            if q != 3 {
                lemma_prime_factor(q, 2, 1);
                if q != 2 {
                    lemma_prime_not_unit(q);
                }
            }
        }
        if q == 0x1269fd {
            assert((0x6e7bef - 1) / 0x1269fdint == 6);
        }
        if q == 3 {
            assert((0x6e7bef - 1) / 3int == 0x24d3fa);
        }
        if q == 2 {
            assert((0x6e7bef - 1) / 2int == 0x373df7);
        }
    }
}

/// `0x6e7bef` is prime.
pub proof fn lemma_prime_7240687()
    ensures
        is_prime(0x6e7bef),
{
    lemma_witness_7240687();
    lemma_lucas(0x6e7bef, 3);
}

/// `2` is a Lucas witness for `53`.
pub proof fn lemma_witness_53()
    ensures
        lucas_witness(53, 2),
{
    lemma_prime_2();
    lemma_prime_13();
    // The base raised to n - 1, one prime power of n - 1 after the other.
    lemma_chain_start(2, 53);
    let e: nat = 1;
    let e: nat = lemma_chain_square_mul(2, 53, e, 2);
    let e: nat = lemma_chain_square(2, 53, e, 8);
    let e: nat = lemma_chain_square_mul(2, 53, e, 11);
    assert(power_mod(2, 13, 53) == 30);
    lemma_chain_start(30, 53);
    let e: nat = 1;
    let e: nat = lemma_chain_square(30, 53, e, 30);
    let e: nat = lemma_chain_square(30, 53, e, 52);
    assert(power_mod(30, 4, 53) == 1);
    lemma_chain_compose(2, 13, 30, 4, 53);
    // The base raised to (n - 1) / q, for each prime q that divides n - 1.
    lemma_chain_start(2, 53);
    let e: nat = 1;
    let e: nat = lemma_chain_square(2, 53, e, 2);
    let e: nat = lemma_chain_square(2, 53, e, 4);
    assert(power_mod(2, 4, 53) == 16);
    lemma_chain_start(30, 53);
    let e: nat = 1;
    let e: nat = lemma_chain_square(30, 53, e, 30);
    assert(power_mod(30, 2, 53) == 52);
    lemma_chain_compose(2, 13, 30, 2, 53);
    // No other prime divides n - 1.
    assert forall|q: nat| #[trigger] is_prime(q) && divides(q, (53 - 1) as nat) implies power_mod(
        2,
        ((53 - 1) / (q as int)) as nat,
        53,
    ) != 1 by {
        lemma_prime_factor(q, 13, 4);
        if q != 13 {
            lemma_prime_factor(q, 2, 2);
            lemma_prime_factor(q, 2, 1);
            if q != 2 {
                lemma_prime_not_unit(q);
            }
        }
        if q == 13 {
            assert((53 - 1) / 13int == 4);
        }
        if q == 2 {
            assert((53 - 1) / 2int == 26);
        }
    }
}

/// `53` is prime.
pub proof fn lemma_prime_53()
    ensures
        is_prime(53),
{
    lemma_witness_53();
    lemma_lucas(53, 2);
}

/// A digit zero in chain 31.
proof fn square_31(e: nat, r: nat) -> (e2: nat)
    requires
        power_mod(3, e, 0x669b171) == r,
    ensures
        e2 == 2 * e,
        power_mod(3, e2, 0x669b171) == (r * r) % 0x669b171,
{
    lemma_chain_square(3, 0x669b171, e, r)
}

/// A digit one in chain 31.
proof fn square_mul_31(e: nat, r: nat) -> (e2: nat)
    requires
        power_mod(3, e, 0x669b171) == r,
    ensures
        e2 == 2 * e + 1,
        power_mod(3, e2, 0x669b171) == (r * r * 3) % 0x669b171,
{
    lemma_chain_square_mul(3, 0x669b171, e, r)
}

/// Chain 31.
proof fn chain_31()
    ensures
        power_mod(3, 53, 0x669b171) == 0x34189e4,
{
    lemma_chain_start(3, 0x669b171);
    let e: nat = 1;
    let e: nat = square_mul_31(e, 3);
    let e: nat = square_31(e, 27);
    let e: nat = square_mul_31(e, 729);
    let e: nat = square_31(e, 0x1853d3);
    let e: nat = square_mul_31(e, 0x31a4ab0);
}

/// A digit zero in chain 32.
proof fn square_32(e: nat, r: nat) -> (e2: nat)
    requires
        power_mod(0x34189e4, e, 0x669b171) == r,
    ensures
        e2 == 2 * e,
        power_mod(0x34189e4, e2, 0x669b171) == (r * r) % 0x669b171,
{
    lemma_chain_square(0x34189e4, 0x669b171, e, r)
}

/// A digit one in chain 32.
proof fn square_mul_32(e: nat, r: nat) -> (e2: nat)
    requires
        power_mod(0x34189e4, e, 0x669b171) == r,
    ensures
        e2 == 2 * e + 1,
        power_mod(0x34189e4, e2, 0x669b171) == (r * r * 0x34189e4) % 0x669b171,
{
    lemma_chain_square_mul(0x34189e4, 0x669b171, e, r)
}

/// Chain 32.
proof fn chain_32()
    ensures
        power_mod(0x34189e4, 29, 0x669b171) == 0x1bc5ba8,
{
    lemma_chain_start(0x34189e4, 0x669b171);
    let e: nat = 1;
    let e: nat = square_mul_32(e, 0x34189e4);
    let e: nat = square_mul_32(e, 0x5effb14);
    let e: nat = square_32(e, 0x296ff9f);
    let e: nat = square_mul_32(e, 0x4f180de);
}

/// Chain 33.
proof fn chain_33()
    ensures
        power_mod(0x1bc5ba8, 7, 0x669b171) == 0x544bdaa,
{
    lemma_chain_start(0x1bc5ba8, 0x669b171);
    let e: nat = 1;
    let e: nat = lemma_chain_square_mul(0x1bc5ba8, 0x669b171, e, 0x1bc5ba8);
    let e: nat = lemma_chain_square_mul(0x1bc5ba8, 0x669b171, e, 0x352da2b);
}

/// A digit zero in chain 34.
proof fn square_34(e: nat, r: nat) -> (e2: nat)
    requires
        power_mod(0x544bdaa, e, 0x669b171) == r,
    ensures
        e2 == 2 * e,
        power_mod(0x544bdaa, e2, 0x669b171) == (r * r) % 0x669b171,
{
    lemma_chain_square(0x544bdaa, 0x669b171, e, r)
}

/// A digit one in chain 34.
proof fn square_mul_34(e: nat, r: nat) -> (e2: nat)
    requires
        power_mod(0x544bdaa, e, 0x669b171) == r,
    ensures
        e2 == 2 * e + 1,
        power_mod(0x544bdaa, e2, 0x669b171) == (r * r * 0x544bdaa) % 0x669b171,
{
    lemma_chain_square_mul(0x544bdaa, 0x669b171, e, r)
}

/// Chain 34.
proof fn chain_34()
    ensures
        power_mod(0x544bdaa, 625, 0x669b171) == 0xb50385,
{
    lemma_chain_start(0x544bdaa, 0x669b171);
    let e: nat = 1;
    let e: nat = square_34(e, 0x544bdaa);
    let e: nat = square_34(e, 0x5c0352f);
    let e: nat = square_mul_34(e, 0x6111bd2);
    let e: nat = square_mul_34(e, 616908);
    let e: nat = square_mul_34(e, 0x19a7007);
    let e: nat = square_34(e, 0x54fa59c);
    let e: nat = square_34(e, 0x5b6a226);
    let e: nat = square_34(e, 0x658e867);
    let e: nat = square_mul_34(e, 0x1a610e5);
}

/// A digit zero in chain 35.
proof fn square_35(e: nat, r: nat) -> (e2: nat)
    requires
        power_mod(0xb50385, e, 0x669b171) == r,
    ensures
        e2 == 2 * e,
        power_mod(0xb50385, e2, 0x669b171) == (r * r) % 0x669b171,
{
    lemma_chain_square(0xb50385, 0x669b171, e, r)
}

/// A digit one in chain 35.
proof fn square_mul_35(e: nat, r: nat) -> (e2: nat)
    requires
        power_mod(0xb50385, e, 0x669b171) == r,
    ensures
        e2 == 2 * e + 1,
        power_mod(0xb50385, e2, 0x669b171) == (r * r * 0xb50385) % 0x669b171,
{
    lemma_chain_square_mul(0xb50385, 0x669b171, e, r)
}

/// Chain 35.
proof fn chain_35()
    ensures
        power_mod(0xb50385, 16, 0x669b171) == 1,
{
    lemma_chain_start(0xb50385, 0x669b171);
    let e: nat = 1;
    let e: nat = square_35(e, 0xb50385);
    let e: nat = square_35(e, 0x26c54f);
    let e: nat = square_35(e, 0x138b15b);
    let e: nat = square_35(e, 0x669b170);
}

/// A digit zero in chain 36.
proof fn square_36(e: nat, r: nat) -> (e2: nat)
    requires
        power_mod(3, e, 0x669b171) == r,
    ensures
        e2 == 2 * e,
        power_mod(3, e2, 0x669b171) == (r * r) % 0x669b171,
{
    lemma_chain_square(3, 0x669b171, e, r)
}

/// A digit one in chain 36.
proof fn square_mul_36(e: nat, r: nat) -> (e2: nat)
    requires
        power_mod(3, e, 0x669b171) == r,
    ensures
        e2 == 2 * e + 1,
        power_mod(3, e2, 0x669b171) == (r * r * 3) % 0x669b171,
{
    lemma_chain_square_mul(3, 0x669b171, e, r)
}

/// Chain 36 up to digit 17 of 21 of its exponent.
proof fn chain_36_1()
    ensures
        power_mod(3, 126875, 0x669b171) == 0x2e9443f,
{
    lemma_chain_start(3, 0x669b171);
    let e: nat = 1;
    let e: nat = square_mul_36(e, 3);
    let e: nat = square_mul_36(e, 27);
    let e: nat = square_mul_36(e, 2187);
    let e: nat = square_36(e, 0xdaf26b);
    let e: nat = square_mul_36(e, 0x1379979);
    let e: nat = square_mul_36(e, 0x16f2b11);
    let e: nat = square_mul_36(e, 0x5d35eda);
    let e: nat = square_mul_36(e, 0x22b8458);
    let e: nat = square_mul_36(e, 0x3cb8b98);
    let e: nat = square_36(e, 0x1a63cdb);
    let e: nat = square_36(e, 0x306d4df);
    let e: nat = square_mul_36(e, 0x14e8a91);
    let e: nat = square_mul_36(e, 0x4e23dd0);
    let e: nat = square_36(e, 0x1ed53f7);
    let e: nat = square_mul_36(e, 0x38f8265);
    let e: nat = square_mul_36(e, 0x3db522b);
}

/// Chain 36 up to digit 21 of 21 of its exponent.
proof fn chain_36_2()
    ensures
        power_mod(3, 0x1ef9b0, 0x669b171) == 0xe88e20,
{
    chain_36_1();
    let e: nat = 126875;
    let e: nat = square_36(e, 0x2e9443f);
    let e: nat = square_36(e, 0x4b7f7ac);
    let e: nat = square_36(e, 0x5cca012);
    let e: nat = square_36(e, 0x63aaa41);
}

/// A digit zero in chain 37.
proof fn square_37(e: nat, r: nat) -> (e2: nat)
    requires
        power_mod(0x34189e4, e, 0x669b171) == r,
    ensures
        e2 == 2 * e,
        power_mod(0x34189e4, e2, 0x669b171) == (r * r) % 0x669b171,
{
    lemma_chain_square(0x34189e4, 0x669b171, e, r)
}

/// A digit one in chain 37.
proof fn square_mul_37(e: nat, r: nat) -> (e2: nat)
    requires
        power_mod(0x34189e4, e, 0x669b171) == r,
    ensures
        e2 == 2 * e + 1,
        power_mod(0x34189e4, e2, 0x669b171) == (r * r * 0x34189e4) % 0x669b171,
{
    lemma_chain_square_mul(0x34189e4, 0x669b171, e, r)
}

/// Chain 37.
proof fn chain_37()
    ensures
        power_mod(0x34189e4, 70000, 0x669b171) == 0x1f3240a,
{
    lemma_chain_start(0x34189e4, 0x669b171);
    let e: nat = 1;
    let e: nat = square_37(e, 0x34189e4);
    let e: nat = square_37(e, 0x25fedca);
    let e: nat = square_37(e, 0x126561e);
    let e: nat = square_mul_37(e, 0x1ad34ef);
    let e: nat = square_37(e, 0x50028bc);
    let e: nat = square_37(e, 0x923a9f);
    let e: nat = square_37(e, 0x6403e61);
    let e: nat = square_mul_37(e, 0x2fdb798);
    let e: nat = square_37(e, 0x11d4232);
    let e: nat = square_mul_37(e, 0x813663);
    let e: nat = square_mul_37(e, 0x3f66a94);
    let e: nat = square_mul_37(e, 0x61bc6dd);
    let e: nat = square_37(e, 0x40c5b23);
    let e: nat = square_37(e, 0x5acc9e5);
    let e: nat = square_37(e, 0x55f633c);
    let e: nat = square_37(e, 0x2587c0b);
}

/// A digit zero in chain 38.
proof fn square_38(e: nat, r: nat) -> (e2: nat)
    requires
        power_mod(0x1bc5ba8, e, 0x669b171) == r,
    ensures
        e2 == 2 * e,
        power_mod(0x1bc5ba8, e2, 0x669b171) == (r * r) % 0x669b171,
{
    lemma_chain_square(0x1bc5ba8, 0x669b171, e, r)
}

/// A digit one in chain 38.
proof fn square_mul_38(e: nat, r: nat) -> (e2: nat)
    requires
        power_mod(0x1bc5ba8, e, 0x669b171) == r,
    ensures
        e2 == 2 * e + 1,
        power_mod(0x1bc5ba8, e2, 0x669b171) == (r * r * 0x1bc5ba8) % 0x669b171,
{
    lemma_chain_square_mul(0x1bc5ba8, 0x669b171, e, r)
}

/// Chain 38.
proof fn chain_38()
    ensures
        power_mod(0x1bc5ba8, 10000, 0x669b171) == 0x23c168c,
{
    lemma_chain_start(0x1bc5ba8, 0x669b171);
    let e: nat = 1;
    let e: nat = square_38(e, 0x1bc5ba8);
    let e: nat = square_38(e, 0x1763661);
    let e: nat = square_mul_38(e, 0x1e903c0);
    let e: nat = square_mul_38(e, 0x1bb36ac);
    let e: nat = square_mul_38(e, 0x56c3bf0);
    let e: nat = square_38(e, 0x32666ac);
    let e: nat = square_38(e, 0x5d4a0c7);
    let e: nat = square_38(e, 0x12b11fb);
    let e: nat = square_mul_38(e, 0x3aa111a);
    let e: nat = square_38(e, 0x191638f);
    let e: nat = square_38(e, 0x46dfe17);
    let e: nat = square_38(e, 0x4382303);
    let e: nat = square_38(e, 0x3acd54d);
}

/// A digit zero in chain 39.
proof fn square_39(e: nat, r: nat) -> (e2: nat)
    requires
        power_mod(0x544bdaa, e, 0x669b171) == r,
    ensures
        e2 == 2 * e,
        power_mod(0x544bdaa, e2, 0x669b171) == (r * r) % 0x669b171,
{
    lemma_chain_square(0x544bdaa, 0x669b171, e, r)
}

/// A digit one in chain 39.
proof fn square_mul_39(e: nat, r: nat) -> (e2: nat)
    requires
        power_mod(0x544bdaa, e, 0x669b171) == r,
    ensures
        e2 == 2 * e + 1,
        power_mod(0x544bdaa, e2, 0x669b171) == (r * r * 0x544bdaa) % 0x669b171,
{
    lemma_chain_square_mul(0x544bdaa, 0x669b171, e, r)
}

/// Chain 39.
proof fn chain_39()
    ensures
        power_mod(0x544bdaa, 2000, 0x669b171) == 0x40100e6,
{
    lemma_chain_start(0x544bdaa, 0x669b171);
    let e: nat = 1;
    let e: nat = square_mul_39(e, 0x544bdaa);
    let e: nat = square_mul_39(e, 0xc25231);
    let e: nat = square_mul_39(e, 0x1104c95);
    let e: nat = square_mul_39(e, 0x505e171);
    let e: nat = square_39(e, 0x18bc0d0);
    let e: nat = square_mul_39(e, 0xfb6020);
    let e: nat = square_39(e, 0x3d665c3);
    let e: nat = square_39(e, 0x5ee0fa5);
    let e: nat = square_39(e, 0x4042e98);
    let e: nat = square_39(e, 0x5e4012f);
}

/// Chain 40.
proof fn chain_40()
    ensures
        power_mod(0xb50385, 8, 0x669b171) == 0x669b170,
{
    lemma_chain_start(0xb50385, 0x669b171);
    let e: nat = 1;
    let e: nat = lemma_chain_square(0xb50385, 0x669b171, e, 0xb50385);
    let e: nat = lemma_chain_square(0xb50385, 0x669b171, e, 0x26c54f);
    let e: nat = lemma_chain_square(0xb50385, 0x669b171, e, 0x138b15b);
}

/// `3` is a Lucas witness for `0x669b171`.
pub proof fn lemma_witness_107590001()
    ensures
        lucas_witness(0x669b171, 3),
{
    lemma_prime_2();
    lemma_prime_5();
    lemma_prime_7();
    lemma_prime_29();
    lemma_prime_53();
    // The base raised to n - 1, one prime power of n - 1 after the other.
    chain_31();
    chain_32();
    lemma_chain_compose(3, 53, 0x34189e4, 29, 0x669b171);
    chain_33();
    lemma_chain_compose(3, 1537, 0x1bc5ba8, 7, 0x669b171);
    chain_34();
    lemma_chain_compose(3, 10759, 0x544bdaa, 625, 0x669b171);
    chain_35();
    lemma_chain_compose(3, 0x669b17, 0xb50385, 16, 0x669b171);
    // The base raised to (n - 1) / q, for each prime q that divides n - 1.
    chain_36_2();
    chain_37();
    lemma_chain_compose(3, 53, 0x34189e4, 70000, 0x669b171);
    chain_38();
    lemma_chain_compose(3, 1537, 0x1bc5ba8, 10000, 0x669b171);
    chain_39();
    lemma_chain_compose(3, 10759, 0x544bdaa, 2000, 0x669b171);
    chain_40();
    lemma_chain_compose(3, 0x669b17, 0xb50385, 8, 0x669b171);
    // No other prime divides n - 1.
    assert forall|q: nat|
        #[trigger] is_prime(q) && divides(
            q,
            (0x669b171 - 1) as nat,
        ) implies power_mod(
        3,
        ((0x669b171 - 1) / (q as int)) as nat,
        0x669b171,
    ) != 1 by {
        lemma_prime_factor(q, 53, 0x1ef9b0);
        if q != 53 {
            lemma_prime_factor(q, 29, 70000);
            if q != 29 {
                lemma_prime_factor(q, 7, 10000);
                if q != 7 {
                    lemma_prime_factor(q, 5, 2000);
                    lemma_prime_factor(q, 5, 400);
                    lemma_prime_factor(q, 5, 80);
                    lemma_prime_factor(q, 5, 16);
                    if q != 5 {
                        lemma_prime_factor(q, 2, 8);
                        lemma_prime_factor(q, 2, 4);
                        lemma_prime_factor(q, 2, 2);
                        lemma_prime_factor(q, 2, 1);
                        if q != 2 {
                            lemma_prime_not_unit(q);
                        }
                    }
                }
            }
        }
        if q == 53 {
            assert((0x669b171 - 1) / 53int == 0x1ef9b0);
        }
        if q == 29 {
            assert((0x669b171 - 1) / 29int == 0x389c30);
        }
        if q == 7 {
            assert((0x669b171 - 1) / 7int == 0xea8710);
        }
        if q == 5 {
            assert((0x669b171 - 1) / 5int == 0x14856b0);
        }
        if q == 2 {
            assert((0x669b171 - 1) / 2int == 0x334d8b8);
        }
    }
}

/// `0x669b171` is prime.
pub proof fn lemma_prime_107590001()
    ensures
        is_prime(0x669b171),
{
    lemma_witness_107590001();
    lemma_lucas(0x669b171, 3);
}

} // verus!
