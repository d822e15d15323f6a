//! Certificate of the 75-bit prime
//! `0x4b0b9f59a0a545761c9`.

use crate::primality::chain::{
    lemma_chain_compose, lemma_chain_square, lemma_chain_square_mul, lemma_chain_start,
    lemma_prime_2,
};
use crate::primality::small::{lemma_prime_3, lemma_prime_5323, lemma_prime_x267f72148d98cd9};
use crate::primes::{
    divides, is_prime, lemma_lucas, lemma_prime_factor, lemma_prime_not_unit, lucas_witness,
    power_mod,
};
use vstd::prelude::*;

verus! {

/// A digit zero in chain 1.
proof fn square_1(e: nat, r: nat) -> (e2: nat)
    requires
        power_mod(5, e, 0x4b0b9f59a0a545761c9) == r,
    ensures
        e2 == 2 * e,
        power_mod(5, e2, 0x4b0b9f59a0a545761c9) == (r * r) % 0x4b0b9f59a0a545761c9,
{
    lemma_chain_square(5, 0x4b0b9f59a0a545761c9, e, r)
}

/// A digit one in chain 1.
proof fn square_mul_1(e: nat, r: nat) -> (e2: nat)
    requires
        power_mod(5, e, 0x4b0b9f59a0a545761c9) == r,
    ensures
        e2 == 2 * e + 1,
        power_mod(5, e2, 0x4b0b9f59a0a545761c9) == (r * r * 5) % 0x4b0b9f59a0a545761c9,
{
    lemma_chain_square_mul(5, 0x4b0b9f59a0a545761c9, e, r)
}

/// Chain 1 up to digit 17 of 58 of its exponent.
proof fn chain_1_1()
    ensures
        power_mod(5, 78843, 0x4b0b9f59a0a545761c9) == 0x2606af36fa07d04ae1,
{
    lemma_chain_start(5, 0x4b0b9f59a0a545761c9);
    let e: nat = 1;
    let e: nat = square_1(e, 5);
    let e: nat = square_1(e, 25);
    let e: nat = square_mul_1(e, 625);
    let e: nat = square_mul_1(e, 0x1dcd65);
    let e: nat = square_1(e, 0x1158e460913d);
    let e: nat = square_1(e, 0x3182c87745ee20ca121);
    let e: nat = square_mul_1(e, 0x2b20cd152102faf524b);
    let e: nat = square_mul_1(e, 0x1ad55a2824150bdadad);
    let e: nat = square_mul_1(e, 0xe5750439479739eada);
    let e: nat = square_mul_1(e, 0x3fd7b1e49a0bf822e);
    let e: nat = square_mul_1(e, 0x2ef2e082a3bee6d6dff);
    let e: nat = square_mul_1(e, 0x3c648c61679697c53c7);
    let e: nat = square_mul_1(e, 0x3958bd02bb23eb892a5);
    let e: nat = square_1(e, 0x34854313632e8539d55);
    let e: nat = square_mul_1(e, 0x17d19abcd2cbd367f3d);
    let e: nat = square_mul_1(e, 0x99d8d10085b7804025);
}

/// Chain 1 up to digit 33 of 58 of its exponent.
proof fn chain_1_2()
    ensures
        power_mod(5, 0x133fb90a4, 0x4b0b9f59a0a545761c9) == 0x1b1da34f56df109d021,
{
    chain_1_1();
    let e: nat = 78843;
    let e: nat = square_mul_1(e, 0x2606af36fa07d04ae1);
    let e: nat = square_1(e, 0x367cbe4a0e4bcf8876c);
    let e: nat = square_1(e, 0x48fc56e518b15bb824b);
    let e: nat = square_mul_1(e, 0x2dbda685a0505bfc21c);
    let e: nat = square_1(e, 0xfd628c4e5984c10ac8);
    let e: nat = square_1(e, 0x4957af0ebf3442900b);
    let e: nat = square_1(e, 0x33eea985233165b635f);
    let e: nat = square_1(e, 0x350a16de84fca008736);
    let e: nat = square_mul_1(e, 0x26cfcc9a34dbfc7ff8f);
    let e: nat = square_1(e, 0x32e4bfca347de63dd01);
    let e: nat = square_mul_1(e, 0x4af0102ba50f4907219);
    let e: nat = square_1(e, 0x37ee328091c5fe35ada);
    let e: nat = square_1(e, 0x2055f8599024bb90102);
    let e: nat = square_mul_1(e, 0x1f175676bfd2a7a4ea8);
    let e: nat = square_1(e, 0x233450c08265efd7e8e);
    let e: nat = square_1(e, 0x49de26a6ead9f701169);
}

/// Chain 1 up to digit 49 of 58 of its exponent.
proof fn chain_1_3()
    ensures
        power_mod(5, 0x133fb90a46cc6, 0x4b0b9f59a0a545761c9) == 0x109f8772aaf58c079dc,
{
    chain_1_2();
    let e: nat = 0x133fb90a4;
    let e: nat = square_1(e, 0x1b1da34f56df109d021);
    let e: nat = square_mul_1(e, 0x3fe7aba271f8f78799f);
    let e: nat = square_mul_1(e, 0x213091f366ab8c3fc02);
    let e: nat = square_1(e, 0x231ca01e763bd6a08b6);
    let e: nat = square_mul_1(e, 0x194ef1944226b6f1d64);
    let e: nat = square_mul_1(e, 0x366680302a2908c783c);
    let e: nat = square_1(e, 0x3d36fdfd364b23b3ce5);
    let e: nat = square_1(e, 0x32c5ddd6465fa1e80ff);
    let e: nat = square_mul_1(e, 0x220f2ec6b57e98ae2bf);
    let e: nat = square_mul_1(e, 0x31391c58e16549dcb1f);
    let e: nat = square_1(e, 0x18cea34fe78c5c2892);
    let e: nat = square_1(e, 0x22e0f9e9352511711ba);
    let e: nat = square_1(e, 0x8e3e66eff47010ee4f);
    let e: nat = square_mul_1(e, 0x24899449ff578c9da43);
    let e: nat = square_mul_1(e, 0x385a3a2439c627b8eb1);
    let e: nat = square_1(e, 0x2c3af5877b87099b6fd);
}

/// Chain 1 up to digit 58 of 58 of its exponent.
proof fn chain_1_4()
    ensures
        power_mod(5, 0x267f72148d98cd9, 0x4b0b9f59a0a545761c9) == 0x22a61740f82da85b821,
{
    chain_1_3();
    let e: nat = 0x133fb90a46cc6;
    let e: nat = square_1(e, 0x109f8772aaf58c079dc);
    let e: nat = square_mul_1(e, 0x283fa5f36c37ef636b6);
    let e: nat = square_mul_1(e, 0x25c5d24389dc36e33c3);
    let e: nat = square_1(e, 0x3933722cea1a38ed33c);
    let e: nat = square_mul_1(e, 0x1fb5a8c3e0218860057);
    let e: nat = square_mul_1(e, 0x29a57af49fa64c24f79);
    let e: nat = square_1(e, 0x2eb81644ba897733152);
    let e: nat = square_1(e, 0x21a33af8f56855fd41a);
    let e: nat = square_mul_1(e, 0x2a1018cabd529d98552);
}

/// A digit zero in chain 2.
proof fn square_2(e: nat, r: nat) -> (e2: nat)
    requires
        power_mod(0x22a61740f82da85b821, e, 0x4b0b9f59a0a545761c9) == r,
    ensures
        e2 == 2 * e,
        power_mod(
            0x22a61740f82da85b821,
            e2,
            0x4b0b9f59a0a545761c9,
        ) == (r * r) % 0x4b0b9f59a0a545761c9,
{
    lemma_chain_square(0x22a61740f82da85b821, 0x4b0b9f59a0a545761c9, e, r)
}

/// A digit one in chain 2.
proof fn square_mul_2(e: nat, r: nat) -> (e2: nat)
    requires
        power_mod(0x22a61740f82da85b821, e, 0x4b0b9f59a0a545761c9) == r,
    ensures
        e2 == 2 * e + 1,
        power_mod(
            0x22a61740f82da85b821,
            e2,
            0x4b0b9f59a0a545761c9,
        ) == (r * r * 0x22a61740f82da85b821) % 0x4b0b9f59a0a545761c9,
{
    lemma_chain_square_mul(0x22a61740f82da85b821, 0x4b0b9f59a0a545761c9, e, r)
}

/// Chain 2.
proof fn chain_2()
    ensures
        power_mod(0x22a61740f82da85b821, 5323, 0x4b0b9f59a0a545761c9) == 0x26bb70e61ab6ec09266,
{
    lemma_chain_start(0x22a61740f82da85b821, 0x4b0b9f59a0a545761c9);
    let e: nat = 1;
    let e: nat = square_2(e, 0x22a61740f82da85b821);
    let e: nat = square_mul_2(e, 0x3da554041fcb16ba659);
    let e: nat = square_2(e, 0xaff2afc4a0df1c9dbc);
    let e: nat = square_2(e, 0x428d0f9358e0ca36d07);
    let e: nat = square_mul_2(e, 0x3e66b381c54b3ce3b43);
    let e: nat = square_mul_2(e, 0x1e8e6f99340119baeb9);
    let e: nat = square_2(e, 0x3378d79ecacb14d367c);
    let e: nat = square_2(e, 0xff4efc1b4a67841d42);
    let e: nat = square_mul_2(e, 0x3af40f1f6c60b6c8024);
    let e: nat = square_2(e, 0x3f5373e6c0bb91b9c90);
    let e: nat = square_mul_2(e, 0x1af5dd8cbee9a4b107f);
    let e: nat = square_mul_2(e, 0x478a5c0d0beee6a65c8);
}

/// Chain 3.
proof fn chain_3()
    ensures
        power_mod(0x26bb70e61ab6ec09266, 3, 0x4b0b9f59a0a545761c9) == 0xb179cf078def5d4d4e,
{
    lemma_chain_start(0x26bb70e61ab6ec09266, 0x4b0b9f59a0a545761c9);
    let e: nat = 1;
    let e: nat = lemma_chain_square_mul(
        0x26bb70e61ab6ec09266,
        0x4b0b9f59a0a545761c9,
        e,
        0x26bb70e61ab6ec09266,
    );
}

/// Chain 4.
proof fn chain_4()
    ensures
        power_mod(0xb179cf078def5d4d4e, 8, 0x4b0b9f59a0a545761c9) == 1,
{
    lemma_chain_start(0xb179cf078def5d4d4e, 0x4b0b9f59a0a545761c9);
    let e: nat = 1;
    let e: nat = lemma_chain_square(
        0xb179cf078def5d4d4e,
        0x4b0b9f59a0a545761c9,
        e,
        0xb179cf078def5d4d4e,
    );
    let e: nat = lemma_chain_square(
        0xb179cf078def5d4d4e,
        0x4b0b9f59a0a545761c9,
        e,
        0x49f05d21cb26bc8f923,
    );
    let e: nat = lemma_chain_square(
        0xb179cf078def5d4d4e,
        0x4b0b9f59a0a545761c9,
        e,
        0x4b0b9f59a0a545761c8,
    );
}

/// A digit zero in chain 5.
proof fn square_5(e: nat, r: nat) -> (e2: nat)
    requires
        power_mod(5, e, 0x4b0b9f59a0a545761c9) == r,
    ensures
        e2 == 2 * e,
        power_mod(5, e2, 0x4b0b9f59a0a545761c9) == (r * r) % 0x4b0b9f59a0a545761c9,
{
    lemma_chain_square(5, 0x4b0b9f59a0a545761c9, e, r)
}

/// A digit one in chain 5.
proof fn square_mul_5(e: nat, r: nat) -> (e2: nat)
    requires
        power_mod(5, e, 0x4b0b9f59a0a545761c9) == r,
    ensures
        e2 == 2 * e + 1,
        power_mod(5, e2, 0x4b0b9f59a0a545761c9) == (r * r * 5) % 0x4b0b9f59a0a545761c9,
{
    lemma_chain_square_mul(5, 0x4b0b9f59a0a545761c9, e, r)
}

/// Chain 5.
proof fn chain_5()
    ensures
        power_mod(5, 127752, 0x4b0b9f59a0a545761c9) == 0x1131f862e9aa7c4286,
{
    lemma_chain_start(5, 0x4b0b9f59a0a545761c9);
    let e: nat = 1;
    let e: nat = square_mul_5(e, 5);
    let e: nat = square_mul_5(e, 125);
    let e: nat = square_mul_5(e, 78125);
    let e: nat = square_mul_5(e, 0x71afd498d);
    let e: nat = square_5(e, 0xfc6f7c40458122964d);
    let e: nat = square_5(e, 0x1b446e68da13b77c97b);
    let e: nat = square_mul_5(e, 0x452a62b19df4c41d2f3);
    let e: nat = square_mul_5(e, 0x25dd074014f2826a80f);
    let e: nat = square_5(e, 0x36f96b808609daecdb2);
    let e: nat = square_5(e, 0x44d2fd8394ffc5a9628);
    let e: nat = square_5(e, 0x267f86a40c9236fcd9f);
    let e: nat = square_5(e, 0x8c203eae66ce22a0fe);
    let e: nat = square_mul_5(e, 0x49b295a5c088a331c04);
    let e: nat = square_5(e, 0x179273543d0a4d6aea7);
    let e: nat = square_5(e, 0x2154d0f07c49f8f1556);
    let e: nat = square_5(e, 0x18c10e95d03c510d937);
}

/// A digit zero in chain 6.
proof fn square_6(e: nat, r: nat) -> (e2: nat)
    requires
        power_mod(0x22a61740f82da85b821, e, 0x4b0b9f59a0a545761c9) == r,
    ensures
        e2 == 2 * e,
        power_mod(
            0x22a61740f82da85b821,
            e2,
            0x4b0b9f59a0a545761c9,
        ) == (r * r) % 0x4b0b9f59a0a545761c9,
{
    lemma_chain_square(0x22a61740f82da85b821, 0x4b0b9f59a0a545761c9, e, r)
}

/// A digit one in chain 6.
proof fn square_mul_6(e: nat, r: nat) -> (e2: nat)
    requires
        power_mod(0x22a61740f82da85b821, e, 0x4b0b9f59a0a545761c9) == r,
    ensures
        e2 == 2 * e + 1,
        power_mod(
            0x22a61740f82da85b821,
            e2,
            0x4b0b9f59a0a545761c9,
        ) == (r * r * 0x22a61740f82da85b821) % 0x4b0b9f59a0a545761c9,
{
    lemma_chain_square_mul(0x22a61740f82da85b821, 0x4b0b9f59a0a545761c9, e, r)
}

/// Chain 6.
proof fn chain_6()
    ensures
        power_mod(0x22a61740f82da85b821, 24, 0x4b0b9f59a0a545761c9) == 0x15d78d4bf64ce0c34cc,
{
    lemma_chain_start(0x22a61740f82da85b821, 0x4b0b9f59a0a545761c9);
    let e: nat = 1;
    let e: nat = square_mul_6(e, 0x22a61740f82da85b821);
    let e: nat = square_6(e, 0x2235af8b950d2f397c2);
    let e: nat = square_6(e, 0x42b669c7decc3704da4);
    let e: nat = square_6(e, 0x462bf5ff0919377f81f);
}

/// Chain 7.
proof fn chain_7()
    ensures
        power_mod(0x26bb70e61ab6ec09266, 8, 0x4b0b9f59a0a545761c9) == 0x2207af882d81b3b1e3f,
{
    lemma_chain_start(0x26bb70e61ab6ec09266, 0x4b0b9f59a0a545761c9);
    let e: nat = 1;
    let e: nat = lemma_chain_square(
        0x26bb70e61ab6ec09266,
        0x4b0b9f59a0a545761c9,
        e,
        0x26bb70e61ab6ec09266,
    );
    let e: nat = lemma_chain_square(
        0x26bb70e61ab6ec09266,
        0x4b0b9f59a0a545761c9,
        e,
        0x24cce7e6030459afe27,
    );
    let e: nat = lemma_chain_square(
        0x26bb70e61ab6ec09266,
        0x4b0b9f59a0a545761c9,
        e,
        0x2207af882d81b3b1e40,
    );
}

/// Chain 8.
proof fn chain_8()
    ensures
        power_mod(0xb179cf078def5d4d4e, 4, 0x4b0b9f59a0a545761c9) == 0x4b0b9f59a0a545761c8,
{
    lemma_chain_start(0xb179cf078def5d4d4e, 0x4b0b9f59a0a545761c9);
    let e: nat = 1;
    let e: nat = lemma_chain_square(
        0xb179cf078def5d4d4e,
        0x4b0b9f59a0a545761c9,
        e,
        0xb179cf078def5d4d4e,
    );
    let e: nat = lemma_chain_square(
        0xb179cf078def5d4d4e,
        0x4b0b9f59a0a545761c9,
        e,
        0x49f05d21cb26bc8f923,
    );
}

/// `5` is a Lucas witness for `0x4b0b9f59a0a545761c9`.
pub proof fn lemma_witness()
    ensures
        lucas_witness(0x4b0b9f59a0a545761c9, 5),
{
    lemma_prime_2();
    lemma_prime_3();
    lemma_prime_5323();
    lemma_prime_x267f72148d98cd9();
    // The base raised to n - 1, one prime power of n - 1 after the other.
    chain_1_4();
    chain_2();
    lemma_chain_compose(5, 0x267f72148d98cd9, 0x22a61740f82da85b821, 5323, 0x4b0b9f59a0a545761c9);
    chain_3();
    lemma_chain_compose(5, 0x3207bf9115c383a413, 0x26bb70e61ab6ec09266, 3, 0x4b0b9f59a0a545761c9);
    chain_4();
    lemma_chain_compose(5, 0x96173eb3414a8aec39, 0xb179cf078def5d4d4e, 8, 0x4b0b9f59a0a545761c9);
    // The base raised to (n - 1) / q, for each prime q that divides n - 1.
    chain_5();
    chain_6();
    lemma_chain_compose(5, 0x267f72148d98cd9, 0x22a61740f82da85b821, 24, 0x4b0b9f59a0a545761c9);
    chain_7();
    lemma_chain_compose(5, 0x3207bf9115c383a413, 0x26bb70e61ab6ec09266, 8, 0x4b0b9f59a0a545761c9);
    chain_8();
    lemma_chain_compose(5, 0x96173eb3414a8aec39, 0xb179cf078def5d4d4e, 4, 0x4b0b9f59a0a545761c9);
    // No other prime divides n - 1.
    assert forall|q: nat|
        #[trigger] is_prime(q) && divides(
            q,
            (0x4b0b9f59a0a545761c9 - 1) as nat,
        ) implies power_mod(
        5,
        ((0x4b0b9f59a0a545761c9 - 1) / (q as int)) as nat,
        0x4b0b9f59a0a545761c9,
    ) != 1 by {
        lemma_prime_factor(q, 0x267f72148d98cd9, 127752);
        if q != 0x267f72148d98cd9 {
            lemma_prime_factor(q, 5323, 24);
            if q != 5323 {
                lemma_prime_factor(q, 3, 8);
                if q != 3 {
                    lemma_prime_factor(q, 2, 4);
                    lemma_prime_factor(q, 2, 2);
                    lemma_prime_factor(q, 2, 1);
                    if q != 2 {
                        lemma_prime_not_unit(q);
                    }
                }
            }
        }
        if q == 0x267f72148d98cd9 {
            assert((0x4b0b9f59a0a545761c9 - 1) / 0x267f72148d98cd9int == 127752);
        }
        if q == 5323 {
            assert((0x4b0b9f59a0a545761c9 - 1) / 5323int == 0x39bf2b1ed4653458);
        }
        if q == 3 {
            assert((0x4b0b9f59a0a545761c9 - 1) / 3int == 0x1903dfc88ae1c1d2098);
        }
        if q == 2 {
            assert((0x4b0b9f59a0a545761c9 - 1) / 2int == 0x2585cfacd052a2bb0e4);
        }
    }
}

/// `0x4b0b9f59a0a545761c9` is prime.
pub proof fn lemma_prime()
    ensures
        is_prime(0x4b0b9f59a0a545761c9),
{
    lemma_witness();
    lemma_lucas(0x4b0b9f59a0a545761c9, 5);
}

} // verus!
