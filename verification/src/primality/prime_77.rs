//! Certificate of the 77-bit prime
//! `0x1c245bc19c3dfa0c4ab7`.

use crate::primality::chain::{
    lemma_chain_compose, lemma_chain_square, lemma_chain_square_mul, lemma_chain_start,
    lemma_prime_2,
};
use crate::primality::small::{lemma_prime_3};
use crate::primes::{
    divides, is_prime, lemma_lucas, lemma_prime_factor, lemma_prime_not_unit, lucas_witness,
    power_mod,
};
use vstd::prelude::*;

verus! {

/// A digit zero in chain 1.
proof fn square_1(e: nat, r: nat) -> (e2: nat)
    requires
        power_mod(6, e, 0x1c245bc19c3dfa0c4ab7) == r,
    ensures
        e2 == 2 * e,
        power_mod(6, e2, 0x1c245bc19c3dfa0c4ab7) == (r * r) % 0x1c245bc19c3dfa0c4ab7,
{
    lemma_chain_square(6, 0x1c245bc19c3dfa0c4ab7, e, r)
}

/// A digit one in chain 1.
proof fn square_mul_1(e: nat, r: nat) -> (e2: nat)
    requires
        power_mod(6, e, 0x1c245bc19c3dfa0c4ab7) == r,
    ensures
        e2 == 2 * e + 1,
        power_mod(6, e2, 0x1c245bc19c3dfa0c4ab7) == (r * r * 6) % 0x1c245bc19c3dfa0c4ab7,
{
    lemma_chain_square_mul(6, 0x1c245bc19c3dfa0c4ab7, e, r)
}

/// Chain 1 up to digit 17 of 75 of its exponent.
proof fn chain_1_1()
    ensures
        power_mod(6, 76846, 0x1c245bc19c3dfa0c4ab7) == 0x54a82b0dbbf5c74177e,
{
    lemma_chain_start(6, 0x1c245bc19c3dfa0c4ab7);
    let e: nat = 1;
    let e: nat = square_1(e, 6);
    let e: nat = square_1(e, 36);
    let e: nat = square_mul_1(e, 1296);
    let e: nat = square_1(e, 0x99c600);
    let e: nat = square_mul_1(e, 0x5c5e45240000);
    let e: nat = square_mul_1(e, 0x5346bafb07cdeaf1291);
    let e: nat = square_1(e, 0xed0ef4965395da6a33d);
    let e: nat = square_1(e, 0x1c1aa48577698ef34b17);
    let e: nat = square_1(e, 0x15b2ae9bcc72cad31589);
    let e: nat = square_1(e, 0x46e7e1e702d4309d843);
    let e: nat = square_mul_1(e, 0x55284f7de217b5e0e2f);
    let e: nat = square_1(e, 0x3a68223ed4149ec30e5);
    let e: nat = square_mul_1(e, 0x976a42e7f05d01ddc3);
    let e: nat = square_mul_1(e, 0xf55db98512f182f8113);
    let e: nat = square_mul_1(e, 0x9118a757c924a9bdb3b);
    let e: nat = square_1(e, 0xb965d9fe5e492b32a27);
}

/// Chain 1 up to digit 33 of 75 of its exponent.
proof fn chain_1_2()
    ensures
        power_mod(6, 0x12c2e7d66, 0x1c245bc19c3dfa0c4ab7) == 0xa12cc288fa31e6f5643,
{
    chain_1_1();
    let e: nat = 76846;
    let e: nat = square_1(e, 0x54a82b0dbbf5c74177e);
    let e: nat = square_mul_1(e, 0x1be0cf5fedc3b297a072);
    let e: nat = square_mul_1(e, 0x193f82eeefc9182f15ae);
    let e: nat = square_mul_1(e, 0xb8d5f081cf61b3a1f8);
    let e: nat = square_mul_1(e, 0x4bc3b95a85261b89b94);
    let e: nat = square_mul_1(e, 0x196f06a3bb211b9e1d16);
    let e: nat = square_1(e, 0x12670c59f5e87b96955a);
    let e: nat = square_mul_1(e, 0x9594c2695e559cba88f);
    let e: nat = square_1(e, 0xa811dd25ff3af0e6977);
    let e: nat = square_mul_1(e, 0x13f95733d2d7720d656b);
    let e: nat = square_mul_1(e, 0xd01441c32618181668c);
    let e: nat = square_1(e, 0xc673dd8da325c69b6e2);
    let e: nat = square_1(e, 0x737cac84b91ccc19594);
    let e: nat = square_mul_1(e, 0x9d59fe3d6498334edf2);
    let e: nat = square_mul_1(e, 0x163853f4b5be19dd024b);
    let e: nat = square_1(e, 0xce9b9ac02f994a0188f);
}

/// Chain 1 up to digit 49 of 75 of its exponent.
proof fn chain_1_3()
    ensures
        power_mod(6, 0x12c2e7d668295, 0x1c245bc19c3dfa0c4ab7) == 0x166fe682d6ca53103272,
{
    chain_1_2();
    let e: nat = 0x12c2e7d66;
    let e: nat = square_mul_1(e, 0xa12cc288fa31e6f5643);
    let e: nat = square_1(e, 0xba5da39511b1d787475);
    let e: nat = square_1(e, 0x7f85784a909e3702cc9);
    let e: nat = square_1(e, 0xf3984809922910f4ffe);
    let e: nat = square_1(e, 0x1a6afa4722873b090502);
    let e: nat = square_1(e, 0x1547b8504e6d5b338eb3);
    let e: nat = square_mul_1(e, 0xe0069908a588c3b2992);
    let e: nat = square_1(e, 0x14949c8e268caa3e79d4);
    let e: nat = square_mul_1(e, 0x2b2475cc05baee2c46d);
    let e: nat = square_1(e, 0x4ba417b0ba15e218ced);
    let e: nat = square_1(e, 0x6e607428f82db6eb011);
    let e: nat = square_mul_1(e, 0x156958358ab205db927e);
    let e: nat = square_1(e, 0x1e3871c72bf97449767);
    let e: nat = square_mul_1(e, 0xac7eec04e7efff74216);
    let e: nat = square_1(e, 0x12d1a00c6a528eb091e);
    let e: nat = square_mul_1(e, 0xfe124b792d5c247ead1);
}

/// Chain 1 up to digit 65 of 75 of its exponent.
proof fn chain_1_4()
    ensures
        power_mod(6, 0x12c2e7d66829515d8, 0x1c245bc19c3dfa0c4ab7) == 0xcede8dbce45e1aa3033,
{
    chain_1_3();
    let e: nat = 0x12c2e7d668295;
    let e: nat = square_1(e, 0x166fe682d6ca53103272);
    let e: nat = square_1(e, 0x109ae1826b4b663c6c5d);
    let e: nat = square_1(e, 0x173ef5092a15b972fe0c);
    let e: nat = square_mul_1(e, 0x10bd52312a8d9d001ff5);
    let e: nat = square_1(e, 0x11f929e9fce1b639d62a);
    let e: nat = square_mul_1(e, 0x41970cb7dc46baaedbe);
    let e: nat = square_1(e, 0xc5168ebd57bd73b1e87);
    let e: nat = square_mul_1(e, 0x8e2d67dd5e6b7dafe52);
    let e: nat = square_mul_1(e, 0xe52b73ad397c2534813);
    let e: nat = square_mul_1(e, 0x388edca8a00fff4c7c6);
    let e: nat = square_1(e, 0x1634926698dcf2b90abc);
    let e: nat = square_mul_1(e, 0x113b572586f6626c740d);
    let e: nat = square_mul_1(e, 0xc386a15aac1dab01b07);
    let e: nat = square_1(e, 0x247a1d86a93f18cfcb8);
    let e: nat = square_1(e, 0xe5c060c1aefa6efbbc5);
    let e: nat = square_1(e, 0xed0f5ba5ca5fa37b154);
}

/// Chain 1 up to digit 75 of 75 of its exponent.
proof fn chain_1_5()
    ensures
        power_mod(6, 0x4b0b9f59a0a545761c9, 0x1c245bc19c3dfa0c4ab7) == 0x103f4a8e8b948741bf37,
{
    chain_1_4();
    let e: nat = 0x12c2e7d66829515d8;
    let e: nat = square_1(e, 0xcede8dbce45e1aa3033);
    let e: nat = square_mul_1(e, 0xbd42eff0fd2525702cc);
    let e: nat = square_mul_1(e, 0x7197e2a10fd1764f512);
    let e: nat = square_mul_1(e, 0x2e72119ad4ce16fbe80);
    let e: nat = square_1(e, 0x160609cb2d2102d35faa);
    let e: nat = square_1(e, 0xc1e2e217e4a890f160d);
    let e: nat = square_mul_1(e, 0x1bf0c6d0475584a4bbf);
    let e: nat = square_1(e, 0x76a6b298bd434cbde17);
    let e: nat = square_1(e, 0x149feceb07fa107aa50d);
    let e: nat = square_mul_1(e, 0x1c242cb99f1773060535);
}

/// Chain 2.
proof fn chain_2()
    ensures
        power_mod(0x103f4a8e8b948741bf37, 3, 0x1c245bc19c3dfa0c4ab7) == 0x1c245bc19c3dfa0c4ab6,
{
    lemma_chain_start(0x103f4a8e8b948741bf37, 0x1c245bc19c3dfa0c4ab7);
    let e: nat = 1;
    let e: nat = lemma_chain_square_mul(
        0x103f4a8e8b948741bf37,
        0x1c245bc19c3dfa0c4ab7,
        e,
        0x103f4a8e8b948741bf37,
    );
}

/// Chain 3.
proof fn chain_3()
    ensures
        power_mod(0x1c245bc19c3dfa0c4ab6, 2, 0x1c245bc19c3dfa0c4ab7) == 1,
{
    lemma_chain_start(0x1c245bc19c3dfa0c4ab6, 0x1c245bc19c3dfa0c4ab7);
    let e: nat = 1;
    let e: nat = lemma_chain_square(
        0x1c245bc19c3dfa0c4ab6,
        0x1c245bc19c3dfa0c4ab7,
        e,
        0x1c245bc19c3dfa0c4ab6,
    );
}

/// Chain 4.
proof fn chain_4()
    ensures
        power_mod(6, 6, 0x1c245bc19c3dfa0c4ab7) == 46656,
{
    lemma_chain_start(6, 0x1c245bc19c3dfa0c4ab7);
    let e: nat = 1;
    let e: nat = lemma_chain_square_mul(6, 0x1c245bc19c3dfa0c4ab7, e, 6);
    let e: nat = lemma_chain_square(6, 0x1c245bc19c3dfa0c4ab7, e, 216);
}

/// Chain 5.
proof fn chain_5()
    ensures
        power_mod(0x103f4a8e8b948741bf37, 2, 0x1c245bc19c3dfa0c4ab7) == 0x103f4a8e8b948741bf36,
{
    lemma_chain_start(0x103f4a8e8b948741bf37, 0x1c245bc19c3dfa0c4ab7);
    let e: nat = 1;
    let e: nat = lemma_chain_square(
        0x103f4a8e8b948741bf37,
        0x1c245bc19c3dfa0c4ab7,
        e,
        0x103f4a8e8b948741bf37,
    );
}

/// `6` is a Lucas witness for `0x1c245bc19c3dfa0c4ab7`.
pub proof fn lemma_witness()
    ensures
        lucas_witness(0x1c245bc19c3dfa0c4ab7, 6),
{
    lemma_prime_2();
    lemma_prime_3();
    crate::primality::prime_75::lemma_prime();
    // The base raised to n - 1, one prime power of n - 1 after the other.
    chain_1_5();
    chain_2();
    lemma_chain_compose(
        6,
        0x4b0b9f59a0a545761c9,
        0x103f4a8e8b948741bf37,
        3,
        0x1c245bc19c3dfa0c4ab7,
    );
    chain_3();
    lemma_chain_compose(
        6,
        0xe122de0ce1efd06255b,
        0x1c245bc19c3dfa0c4ab6,
        2,
        0x1c245bc19c3dfa0c4ab7,
    );
    // The base raised to (n - 1) / q, for each prime q that divides n - 1.
    chain_4();
    chain_5();
    lemma_chain_compose(
        6,
        0x4b0b9f59a0a545761c9,
        0x103f4a8e8b948741bf37,
        2,
        0x1c245bc19c3dfa0c4ab7,
    );
    // No other prime divides n - 1.
    assert forall|q: nat|
        #[trigger] is_prime(q) && divides(
            q,
            (0x1c245bc19c3dfa0c4ab7 - 1) as nat,
        ) implies power_mod(
        6,
        ((0x1c245bc19c3dfa0c4ab7 - 1) / (q as int)) as nat,
        0x1c245bc19c3dfa0c4ab7,
    ) != 1 by {
        lemma_prime_factor(q, 0x4b0b9f59a0a545761c9, 6);
        if q != 0x4b0b9f59a0a545761c9 {
            lemma_prime_factor(q, 3, 2);
            if q != 3 {
                lemma_prime_factor(q, 2, 1);
                if q != 2 {
                    lemma_prime_not_unit(q);
                }
            }
        }
        if q == 0x4b0b9f59a0a545761c9 {
            assert((0x1c245bc19c3dfa0c4ab7 - 1) / 0x4b0b9f59a0a545761c9int == 6);
        }
        if q == 3 {
            assert((0x1c245bc19c3dfa0c4ab7 - 1) / 3int == 0x96173eb3414a8aec392);
        }
        if q == 2 {
            assert((0x1c245bc19c3dfa0c4ab7 - 1) / 2int == 0xe122de0ce1efd06255b);
        }
    }
}

/// `0x1c245bc19c3dfa0c4ab7` is prime.
pub proof fn lemma_prime()
    ensures
        is_prime(0x1c245bc19c3dfa0c4ab7),
{
    lemma_witness();
    lemma_lucas(0x1c245bc19c3dfa0c4ab7, 6);
}

} // verus!
