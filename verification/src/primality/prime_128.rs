//! Certificate of the 128-bit prime
//! `0xc03a94b2d3e64419a05cd8ccbf987069`.

use crate::primality::chain::{
    lemma_chain_compose, lemma_chain_square, lemma_chain_square_mul, lemma_chain_start,
    lemma_prime_2,
};
use crate::primality::small::{
    lemma_prime_7, lemma_prime_11, lemma_prime_1627, lemma_prime_2657, lemma_prime_4423,
    lemma_prime_41201, lemma_prime_96557, lemma_prime_7240687, lemma_prime_107590001,
};
use crate::primes::{
    divides, is_prime, lemma_lucas, lemma_prime_factor, lemma_prime_not_unit, lucas_witness,
    power_mod,
};
use vstd::prelude::*;

verus! {

/// A digit zero in chain 1.
proof fn square_1(e: nat, r: nat) -> (e2: nat)
    requires
        power_mod(3, e, 0xc03a94b2d3e64419a05cd8ccbf987069nat) == r,
    ensures
        e2 == 2 * e,
        power_mod(
            3,
            e2,
            0xc03a94b2d3e64419a05cd8ccbf987069nat,
        ) == (r * r) % 0xc03a94b2d3e64419a05cd8ccbf987069nat,
{
    lemma_chain_square(3, 0xc03a94b2d3e64419a05cd8ccbf987069nat, e, r)
}

/// A digit one in chain 1.
proof fn square_mul_1(e: nat, r: nat) -> (e2: nat)
    requires
        power_mod(3, e, 0xc03a94b2d3e64419a05cd8ccbf987069nat) == r,
    ensures
        e2 == 2 * e + 1,
        power_mod(
            3,
            e2,
            0xc03a94b2d3e64419a05cd8ccbf987069nat,
        ) == (r * r * 3) % 0xc03a94b2d3e64419a05cd8ccbf987069nat,
{
    lemma_chain_square_mul(3, 0xc03a94b2d3e64419a05cd8ccbf987069nat, e, r)
}

/// Chain 1 up to digit 17 of 27 of its exponent.
proof fn chain_1_1()
    ensures
        power_mod(
            3,
            105068,
            0xc03a94b2d3e64419a05cd8ccbf987069nat,
        ) == 0x15fa40581a63a280f2bb27897a96b8a8,
{
    lemma_chain_start(3, 0xc03a94b2d3e64419a05cd8ccbf987069nat);
    let e: nat = 1;
    let e: nat = square_mul_1(e, 3);
    let e: nat = square_1(e, 27);
    let e: nat = square_1(e, 729);
    let e: nat = square_mul_1(e, 531441);
    let e: nat = square_mul_1(e, 0xc546562aa3);
    let e: nat = square_1(e, 0x1c80ffbd2918f71d9ab5b);
    let e: nat = square_mul_1(e, 0x38fc8a0f0eb5472a58aab0a673531796);
    let e: nat = square_1(e, 0x952f30b34671c61350e701b18b911920nat);
    let e: nat = square_1(e, 0xe4677236ed373c7713aa4e72d004ab1);
    let e: nat = square_mul_1(e, 0x252e337d034375b240b07c45a3e19489);
    let e: nat = square_mul_1(e, 0x5d3e400bd98c8221894c9a5b2b615d98nat);
    let e: nat = square_1(e, 0x854e598dfb2b586bf64dfe516cccedf7nat);
    let e: nat = square_mul_1(e, 0x1e275008133e0e54581fdf6b0211f365);
    let e: nat = square_mul_1(e, 0xa469a80732fd4c6e70c326713e301776nat);
    let e: nat = square_1(e, 0xb43619076ed3bf7ebf7392ef529a5ec0nat);
    let e: nat = square_1(e, 0x2fe1ff3569083b41acfc2582bc72bd11);
}

/// Chain 1 up to digit 27 of 27 of its exponent.
proof fn chain_1_2()
    ensures
        power_mod(
            3,
            0x669b171,
            0xc03a94b2d3e64419a05cd8ccbf987069nat,
        ) == 0xb9bf99570a4ce01a8d2eb9e293d81090nat,
{
    chain_1_1();
    let e: nat = 105068;
    let e: nat = square_1(e, 0x15fa40581a63a280f2bb27897a96b8a8);
    let e: nat = square_mul_1(e, 0x61737a5d9729aa1c819a27f1fb3c2b3cnat);
    let e: nat = square_1(e, 0x6d4d076652cdfd3b9a09103f8775b9d7nat);
    let e: nat = square_mul_1(e, 0x33c38fb53ee7f15c65c0864742ffa9f2);
    let e: nat = square_mul_1(e, 0x9f9fa5f1139bd15d14a724d7e888a6d5nat);
    let e: nat = square_mul_1(e, 0xc5ee8bb5effceda94e5be17eb55f3c5);
    let e: nat = square_1(e, 0x29d2a392b992b34ba93eaed1dffe06d9);
    let e: nat = square_1(e, 0x1df70181790d49a954f78212def63128);
    let e: nat = square_1(e, 0x6435d26d1dac545bf8655523a033ed7dnat);
    let e: nat = square_mul_1(e, 0x3f3acf7f4b3939595cb98650c77006b1);
}

/// A digit zero in chain 2.
proof fn square_2(e: nat, r: nat) -> (e2: nat)
    requires
        power_mod(
            0xb9bf99570a4ce01a8d2eb9e293d81090nat,
            e,
            0xc03a94b2d3e64419a05cd8ccbf987069nat,
        ) == r,
    ensures
        e2 == 2 * e,
        power_mod(
            0xb9bf99570a4ce01a8d2eb9e293d81090nat,
            e2,
            0xc03a94b2d3e64419a05cd8ccbf987069nat,
        ) == (r * r) % 0xc03a94b2d3e64419a05cd8ccbf987069nat,
{
    lemma_chain_square(
        0xb9bf99570a4ce01a8d2eb9e293d81090nat,
        0xc03a94b2d3e64419a05cd8ccbf987069nat,
        e,
        r,
    )
}

/// A digit one in chain 2.
proof fn square_mul_2(e: nat, r: nat) -> (e2: nat)
    requires
        power_mod(
            0xb9bf99570a4ce01a8d2eb9e293d81090nat,
            e,
            0xc03a94b2d3e64419a05cd8ccbf987069nat,
        ) == r,
    ensures
        e2 == 2 * e + 1,
        power_mod(
            0xb9bf99570a4ce01a8d2eb9e293d81090nat,
            e2,
            0xc03a94b2d3e64419a05cd8ccbf987069nat,
        ) == (r * r * 0xb9bf99570a4ce01a8d2eb9e293d81090nat) % 0xc03a94b2d3e64419a05cd8ccbf987069nat,
{
    lemma_chain_square_mul(
        0xb9bf99570a4ce01a8d2eb9e293d81090nat,
        0xc03a94b2d3e64419a05cd8ccbf987069nat,
        e,
        r,
    )
}

/// Chain 2 up to digit 17 of 23 of its exponent.
proof fn chain_2_1()
    ensures
        power_mod(
            0xb9bf99570a4ce01a8d2eb9e293d81090nat,
            113135,
            0xc03a94b2d3e64419a05cd8ccbf987069nat,
        ) == 0x9dc0c3aa34c4f70c0974d27d673a1a04nat,
{
    lemma_chain_start(0xb9bf99570a4ce01a8d2eb9e293d81090nat, 0xc03a94b2d3e64419a05cd8ccbf987069nat);
    let e: nat = 1;
    let e: nat = square_mul_2(e, 0xb9bf99570a4ce01a8d2eb9e293d81090nat);
    let e: nat = square_2(e, 0x44ae37e4456c094dbd49ef0c52d35ac);
    let e: nat = square_mul_2(e, 0x71da05c5eb1ba1bb2304c4af8bd24f21nat);
    let e: nat = square_mul_2(e, 0x2e0184deb8b3458eb589bfe0ea9d57fb);
    let e: nat = square_mul_2(e, 0x6c73b0b6233b74d9a4410a27a0388dfenat);
    let e: nat = square_2(e, 0x3cf3217f8b8a1520f5540cfa1e9fc675);
    let e: nat = square_2(e, 0xb12b6c9331b9de4a375068632641a768nat);
    let e: nat = square_mul_2(e, 0x5877b2fa50875d612b80354da6e2cf09nat);
    let e: nat = square_mul_2(e, 0x2462453bf128b424f1277a90a6b4e25);
    let e: nat = square_mul_2(e, 0x87c2e310d8c06e2adca8c3d54d388a7enat);
    let e: nat = square_mul_2(e, 0xa5318d1460df8ef025d9564d74e95107nat);
    let e: nat = square_2(e, 0x857ecce2fcc1ad8ca6091d234773fa1);
    let e: nat = square_mul_2(e, 0x8e23e0707688981a7343869fdcd65316nat);
    let e: nat = square_mul_2(e, 0x297c6d94688175b94b75ad976c1a4e);
    let e: nat = square_mul_2(e, 0xa930453f621c15d91e49653eca8526canat);
    let e: nat = square_mul_2(e, 0x32412fb5b23cd24dfedb9f5051e74f95);
}

/// Chain 2 up to digit 23 of 23 of its exponent.
proof fn chain_2_2()
    ensures
        power_mod(
            0xb9bf99570a4ce01a8d2eb9e293d81090nat,
            0x6e7bef,
            0xc03a94b2d3e64419a05cd8ccbf987069nat,
        ) == 0x407311daf1b0ed910304a07a4d385889nat,
{
    chain_2_1();
    let e: nat = 113135;
    let e: nat = square_mul_2(e, 0x9dc0c3aa34c4f70c0974d27d673a1a04nat);
    let e: nat = square_2(e, 0x7a2b2b1d9f48a271803453ac22890a8enat);
    let e: nat = square_mul_2(e, 0x523ea6b2891fb5e505ab977a5061e7eanat);
    let e: nat = square_mul_2(e, 0x2aadfad0151e5a6a99b3177eb28b4da6);
    let e: nat = square_mul_2(e, 0x6b0d875fbba3f2401b2534eb8b0355b3nat);
    let e: nat = square_mul_2(e, 0x884aaee5c1f9502d855db0c3824f6a70nat);
}

/// A digit zero in chain 3.
proof fn square_3(e: nat, r: nat) -> (e2: nat)
    requires
        power_mod(
            0x407311daf1b0ed910304a07a4d385889nat,
            e,
            0xc03a94b2d3e64419a05cd8ccbf987069nat,
        ) == r,
    ensures
        e2 == 2 * e,
        power_mod(
            0x407311daf1b0ed910304a07a4d385889nat,
            e2,
            0xc03a94b2d3e64419a05cd8ccbf987069nat,
        ) == (r * r) % 0xc03a94b2d3e64419a05cd8ccbf987069nat,
{
    lemma_chain_square(
        0x407311daf1b0ed910304a07a4d385889nat,
        0xc03a94b2d3e64419a05cd8ccbf987069nat,
        e,
        r,
    )
}

/// A digit one in chain 3.
proof fn square_mul_3(e: nat, r: nat) -> (e2: nat)
    requires
        power_mod(
            0x407311daf1b0ed910304a07a4d385889nat,
            e,
            0xc03a94b2d3e64419a05cd8ccbf987069nat,
        ) == r,
    ensures
        e2 == 2 * e + 1,
        power_mod(
            0x407311daf1b0ed910304a07a4d385889nat,
            e2,
            0xc03a94b2d3e64419a05cd8ccbf987069nat,
        ) == (r * r * 0x407311daf1b0ed910304a07a4d385889nat) % 0xc03a94b2d3e64419a05cd8ccbf987069nat,
{
    lemma_chain_square_mul(
        0x407311daf1b0ed910304a07a4d385889nat,
        0xc03a94b2d3e64419a05cd8ccbf987069nat,
        e,
        r,
    )
}

/// Chain 3.
proof fn chain_3()
    ensures
        power_mod(
            0x407311daf1b0ed910304a07a4d385889nat,
            96557,
            0xc03a94b2d3e64419a05cd8ccbf987069nat,
        ) == 0x5dddc688b27b78677a644abe731664c6nat,
{
    lemma_chain_start(0x407311daf1b0ed910304a07a4d385889nat, 0xc03a94b2d3e64419a05cd8ccbf987069nat);
    let e: nat = 1;
    let e: nat = square_3(e, 0x407311daf1b0ed910304a07a4d385889nat);
    let e: nat = square_mul_3(e, 0x1d4ab0939042ed8320f149fd6b5d7d85);
    let e: nat = square_mul_3(e, 0x97f4f5ef5a486eb98c19370f069b00f6nat);
    let e: nat = square_mul_3(e, 0xb92e2c70fd680a6795d9f0ab454e67c1nat);
    let e: nat = square_mul_3(e, 0x9c3a07ef4f398df869907b29d73062f6nat);
    let e: nat = square_3(e, 0x1e0bbc22b4e87ed5ef42c4c6eb6c79d4);
    let e: nat = square_3(e, 0x88be8f91ffbf815c851a6a199442166);
    let e: nat = square_mul_3(e, 0x13ad6307a3449513dddf3e92ba2765fd);
    let e: nat = square_3(e, 0x83a94f51c4977836ab56a4a842d3ddfbnat);
    let e: nat = square_3(e, 0x6e4eb4947b38fab4e689ba894a254d49nat);
    let e: nat = square_mul_3(e, 0x5d89b6ed8b4e3cf7787bac095fe52cd4nat);
    let e: nat = square_3(e, 0x32e3e134613bc2f7d93417617010bcbc);
    let e: nat = square_mul_3(e, 0x3c00c0b9239246d11fd1a1abfa2d3de0);
    let e: nat = square_mul_3(e, 0x36570171cb2539382e20e54695a90445);
    let e: nat = square_3(e, 0x693adee209a8ddfc78aaffd3ae01a03dnat);
    let e: nat = square_mul_3(e, 0x57f3b2ba3ca7a7fb32d8862f250dfbb2nat);
}

/// A digit zero in chain 4.
proof fn square_4(e: nat, r: nat) -> (e2: nat)
    requires
        power_mod(
            0x5dddc688b27b78677a644abe731664c6nat,
            e,
            0xc03a94b2d3e64419a05cd8ccbf987069nat,
        ) == r,
    ensures
        e2 == 2 * e,
        power_mod(
            0x5dddc688b27b78677a644abe731664c6nat,
            e2,
            0xc03a94b2d3e64419a05cd8ccbf987069nat,
        ) == (r * r) % 0xc03a94b2d3e64419a05cd8ccbf987069nat,
{
    lemma_chain_square(
        0x5dddc688b27b78677a644abe731664c6nat,
        0xc03a94b2d3e64419a05cd8ccbf987069nat,
        e,
        r,
    )
}

/// A digit one in chain 4.
proof fn square_mul_4(e: nat, r: nat) -> (e2: nat)
    requires
        power_mod(
            0x5dddc688b27b78677a644abe731664c6nat,
            e,
            0xc03a94b2d3e64419a05cd8ccbf987069nat,
        ) == r,
    ensures
        e2 == 2 * e + 1,
        power_mod(
            0x5dddc688b27b78677a644abe731664c6nat,
            e2,
            0xc03a94b2d3e64419a05cd8ccbf987069nat,
        ) == (r * r * 0x5dddc688b27b78677a644abe731664c6nat) % 0xc03a94b2d3e64419a05cd8ccbf987069nat,
{
    lemma_chain_square_mul(
        0x5dddc688b27b78677a644abe731664c6nat,
        0xc03a94b2d3e64419a05cd8ccbf987069nat,
        e,
        r,
    )
}

/// Chain 4.
proof fn chain_4()
    ensures
        power_mod(
            0x5dddc688b27b78677a644abe731664c6nat,
            41201,
            0xc03a94b2d3e64419a05cd8ccbf987069nat,
        ) == 0x2d4e43b16f0f94ba261892a4bd0deeaa,
{
    lemma_chain_start(0x5dddc688b27b78677a644abe731664c6nat, 0xc03a94b2d3e64419a05cd8ccbf987069nat);
    let e: nat = 1;
    let e: nat = square_4(e, 0x5dddc688b27b78677a644abe731664c6nat);
    let e: nat = square_mul_4(e, 0x8829d9c4a13a2f848693ece0033532eenat);
    let e: nat = square_4(e, 0x70a11a461c6900d1c7d436cd213fa8d1nat);
    let e: nat = square_4(e, 0x5ba599a0e6fe17eb8f560cb52033f45dnat);
    let e: nat = square_4(e, 0x8810fec391d4c27fb5f2572bf74efaa7nat);
    let e: nat = square_4(e, 0x2b63fd3160ca6fb584bbd0ffe0e29359);
    let e: nat = square_4(e, 0x5715d176fbfd76b7a4ae7159bbac75dbnat);
    let e: nat = square_mul_4(e, 0x9c997eea43b72050458801a2facf95d5nat);
    let e: nat = square_mul_4(e, 0x5cd366d82da10d51509cfd3d7b597a15nat);
    let e: nat = square_mul_4(e, 0x5d3a8df0d9b16d9ca458c52dbab832acnat);
    let e: nat = square_mul_4(e, 0x5cbeee8213174550180ecba50c09841enat);
    let e: nat = square_4(e, 0x4d1ef76866c450888e42c925e8bb8d83nat);
    let e: nat = square_4(e, 0x5831e0564229cbed782ef3b23f702192nat);
    let e: nat = square_4(e, 0x3391f7fce8a9cc814d0abaaa9f591ed);
    let e: nat = square_mul_4(e, 0x209c2a0e358a59dd080a31203e1339de);
}

/// A digit zero in chain 5.
proof fn square_5(e: nat, r: nat) -> (e2: nat)
    requires
        power_mod(
            0x2d4e43b16f0f94ba261892a4bd0deeaa,
            e,
            0xc03a94b2d3e64419a05cd8ccbf987069nat,
        ) == r,
    ensures
        e2 == 2 * e,
        power_mod(
            0x2d4e43b16f0f94ba261892a4bd0deeaa,
            e2,
            0xc03a94b2d3e64419a05cd8ccbf987069nat,
        ) == (r * r) % 0xc03a94b2d3e64419a05cd8ccbf987069nat,
{
    lemma_chain_square(
        0x2d4e43b16f0f94ba261892a4bd0deeaa,
        0xc03a94b2d3e64419a05cd8ccbf987069nat,
        e,
        r,
    )
}

/// A digit one in chain 5.
proof fn square_mul_5(e: nat, r: nat) -> (e2: nat)
    requires
        power_mod(
            0x2d4e43b16f0f94ba261892a4bd0deeaa,
            e,
            0xc03a94b2d3e64419a05cd8ccbf987069nat,
        ) == r,
    ensures
        e2 == 2 * e + 1,
        power_mod(
            0x2d4e43b16f0f94ba261892a4bd0deeaa,
            e2,
            0xc03a94b2d3e64419a05cd8ccbf987069nat,
        ) == (r * r * 0x2d4e43b16f0f94ba261892a4bd0deeaa) % 0xc03a94b2d3e64419a05cd8ccbf987069nat,
{
    lemma_chain_square_mul(
        0x2d4e43b16f0f94ba261892a4bd0deeaa,
        0xc03a94b2d3e64419a05cd8ccbf987069nat,
        e,
        r,
    )
}

/// Chain 5.
proof fn chain_5()
    ensures
        power_mod(
            0x2d4e43b16f0f94ba261892a4bd0deeaa,
            4423,
            0xc03a94b2d3e64419a05cd8ccbf987069nat,
        ) == 0x4260a185f8ddb19667cae4ceba6909b,
{
    lemma_chain_start(0x2d4e43b16f0f94ba261892a4bd0deeaa, 0xc03a94b2d3e64419a05cd8ccbf987069nat);
    let e: nat = 1;
    let e: nat = square_5(e, 0x2d4e43b16f0f94ba261892a4bd0deeaa);
    let e: nat = square_5(e, 0x52fce475fc29ae8beb65a715740b5ac4nat);
    let e: nat = square_5(e, 0xad8faeefaa736a4eeda7cafc69469dbfnat);
    let e: nat = square_mul_5(e, 0x5126404049a5b2a00d5fd3fa0156b4ffnat);
    let e: nat = square_5(e, 0x177458b7e40623496562c313e16afad5);
    let e: nat = square_mul_5(e, 0x149cae0ac0abce2a1c20afb6a3a15917);
    let e: nat = square_5(e, 0x4d7671f0c5d3b534212db147549fb939nat);
    let e: nat = square_5(e, 0x84ebd6b3fd98e7579ffca8b58ce5d297nat);
    let e: nat = square_5(e, 0x1c9bc417b153a9fe5aa9ffeb422ed0a2);
    let e: nat = square_mul_5(e, 0x2ec64d18dab2d668053dfcb0c0899f87);
    let e: nat = square_mul_5(e, 0x6771fad28df291dc77be5dd3e03a3f04nat);
    let e: nat = square_mul_5(e, 0x255de8f495c703e355160dfaa582f602);
}

/// A digit zero in chain 6.
proof fn square_6(e: nat, r: nat) -> (e2: nat)
    requires
        power_mod(0x4260a185f8ddb19667cae4ceba6909b, e, 0xc03a94b2d3e64419a05cd8ccbf987069nat) == r,
    ensures
        e2 == 2 * e,
        power_mod(
            0x4260a185f8ddb19667cae4ceba6909b,
            e2,
            0xc03a94b2d3e64419a05cd8ccbf987069nat,
        ) == (r * r) % 0xc03a94b2d3e64419a05cd8ccbf987069nat,
{
    lemma_chain_square(
        0x4260a185f8ddb19667cae4ceba6909b,
        0xc03a94b2d3e64419a05cd8ccbf987069nat,
        e,
        r,
    )
}

/// A digit one in chain 6.
proof fn square_mul_6(e: nat, r: nat) -> (e2: nat)
    requires
        power_mod(0x4260a185f8ddb19667cae4ceba6909b, e, 0xc03a94b2d3e64419a05cd8ccbf987069nat) == r,
    ensures
        e2 == 2 * e + 1,
        power_mod(
            0x4260a185f8ddb19667cae4ceba6909b,
            e2,
            0xc03a94b2d3e64419a05cd8ccbf987069nat,
        ) == (r * r * 0x4260a185f8ddb19667cae4ceba6909b) % 0xc03a94b2d3e64419a05cd8ccbf987069nat,
{
    lemma_chain_square_mul(
        0x4260a185f8ddb19667cae4ceba6909b,
        0xc03a94b2d3e64419a05cd8ccbf987069nat,
        e,
        r,
    )
}

/// Chain 6.
proof fn chain_6()
    ensures
        power_mod(
            0x4260a185f8ddb19667cae4ceba6909b,
            2657,
            0xc03a94b2d3e64419a05cd8ccbf987069nat,
        ) == 0x1611b2c3cbae68a255b520e63e6a0b3a,
{
    lemma_chain_start(0x4260a185f8ddb19667cae4ceba6909b, 0xc03a94b2d3e64419a05cd8ccbf987069nat);
    let e: nat = 1;
    let e: nat = square_6(e, 0x4260a185f8ddb19667cae4ceba6909b);
    let e: nat = square_mul_6(e, 0x13b1b10d13ed63094996a3c1bb17b3fa);
    let e: nat = square_6(e, 0x662d77a9cd12c17dfe173384e661ad);
    let e: nat = square_6(e, 0x352c8aaab3287556504232fea49c9c00);
    let e: nat = square_mul_6(e, 0x605edcf75e29544a4139057659532412nat);
    let e: nat = square_mul_6(e, 0xb56ca80354e98bec5cf01da22f345c39nat);
    let e: nat = square_6(e, 0x8569b79abdcd738d875c82c1af1067eenat);
    let e: nat = square_6(e, 0x837899b6aaec7e0b5a320d7f7bb54419nat);
    let e: nat = square_6(e, 0x3f838e38dae0d8d85983869bad2fd303);
    let e: nat = square_6(e, 0x565634e152755304423d2800d1bfa214nat);
    let e: nat = square_mul_6(e, 0x6c5bf8077ac60fc14d2ea0c21069ad94nat);
}

/// A digit zero in chain 7.
proof fn square_7(e: nat, r: nat) -> (e2: nat)
    requires
        power_mod(
            0x1611b2c3cbae68a255b520e63e6a0b3a,
            e,
            0xc03a94b2d3e64419a05cd8ccbf987069nat,
        ) == r,
    ensures
        e2 == 2 * e,
        power_mod(
            0x1611b2c3cbae68a255b520e63e6a0b3a,
            e2,
            0xc03a94b2d3e64419a05cd8ccbf987069nat,
        ) == (r * r) % 0xc03a94b2d3e64419a05cd8ccbf987069nat,
{
    lemma_chain_square(
        0x1611b2c3cbae68a255b520e63e6a0b3a,
        0xc03a94b2d3e64419a05cd8ccbf987069nat,
        e,
        r,
    )
}

/// A digit one in chain 7.
proof fn square_mul_7(e: nat, r: nat) -> (e2: nat)
    requires
        power_mod(
            0x1611b2c3cbae68a255b520e63e6a0b3a,
            e,
            0xc03a94b2d3e64419a05cd8ccbf987069nat,
        ) == r,
    ensures
        e2 == 2 * e + 1,
        power_mod(
            0x1611b2c3cbae68a255b520e63e6a0b3a,
            e2,
            0xc03a94b2d3e64419a05cd8ccbf987069nat,
        ) == (r * r * 0x1611b2c3cbae68a255b520e63e6a0b3a) % 0xc03a94b2d3e64419a05cd8ccbf987069nat,
{
    lemma_chain_square_mul(
        0x1611b2c3cbae68a255b520e63e6a0b3a,
        0xc03a94b2d3e64419a05cd8ccbf987069nat,
        e,
        r,
    )
}

/// Chain 7.
proof fn chain_7()
    ensures
        power_mod(
            0x1611b2c3cbae68a255b520e63e6a0b3a,
            1627,
            0xc03a94b2d3e64419a05cd8ccbf987069nat,
        ) == 0x15f368b0f64aa68ac98b24693d9279c1,
{
    lemma_chain_start(0x1611b2c3cbae68a255b520e63e6a0b3a, 0xc03a94b2d3e64419a05cd8ccbf987069nat);
    let e: nat = 1;
    let e: nat = square_mul_7(e, 0x1611b2c3cbae68a255b520e63e6a0b3a);
    let e: nat = square_7(e, 0x9a4e6497fadd764cdf42a0357295327);
    let e: nat = square_7(e, 0xa7307a8b415d33af0b700a63eb7c5269nat);
    let e: nat = square_mul_7(e, 0x8614372291ac5867d7dc0d1b73c4aff9nat);
    let e: nat = square_7(e, 0x45c007932c5b357c7cb9e0481d495157nat);
    let e: nat = square_mul_7(e, 0xa41ded379b933b2d0ad0b7f1b72dacf7nat);
    let e: nat = square_mul_7(e, 0xb802941c46a19c8eeb8001d31dc320eanat);
    let e: nat = square_7(e, 0x70f26a3500c2d904aca51eff96728301nat);
    let e: nat = square_mul_7(e, 0x8e0c83e70b64b447dda4efe20437221enat);
    let e: nat = square_mul_7(e, 0x8ed820f37c2f6332e9204b1e5900b791nat);
}

/// Chain 8.
proof fn chain_8()
    ensures
        power_mod(
            0x15f368b0f64aa68ac98b24693d9279c1,
            11,
            0xc03a94b2d3e64419a05cd8ccbf987069nat,
        ) == 0x13248db053c554c210982b5831a3ee8d,
{
    lemma_chain_start(0x15f368b0f64aa68ac98b24693d9279c1, 0xc03a94b2d3e64419a05cd8ccbf987069nat);
    let e: nat = 1;
    let e: nat = lemma_chain_square(
        0x15f368b0f64aa68ac98b24693d9279c1,
        0xc03a94b2d3e64419a05cd8ccbf987069nat,
        e,
        0x15f368b0f64aa68ac98b24693d9279c1,
    );
    let e: nat = lemma_chain_square_mul(
        0x15f368b0f64aa68ac98b24693d9279c1,
        0xc03a94b2d3e64419a05cd8ccbf987069nat,
        e,
        0x78770ee3e9079e819083fbba57fb2ae1nat,
    );
    let e: nat = lemma_chain_square_mul(
        0x15f368b0f64aa68ac98b24693d9279c1,
        0xc03a94b2d3e64419a05cd8ccbf987069nat,
        e,
        0x9cb83f2a0ebf6e110eb44013d2b32272nat,
    );
}

/// A digit zero in chain 9.
proof fn square_9(e: nat, r: nat) -> (e2: nat)
    requires
        power_mod(
            0x13248db053c554c210982b5831a3ee8d,
            e,
            0xc03a94b2d3e64419a05cd8ccbf987069nat,
        ) == r,
    ensures
        e2 == 2 * e,
        power_mod(
            0x13248db053c554c210982b5831a3ee8d,
            e2,
            0xc03a94b2d3e64419a05cd8ccbf987069nat,
        ) == (r * r) % 0xc03a94b2d3e64419a05cd8ccbf987069nat,
{
    lemma_chain_square(
        0x13248db053c554c210982b5831a3ee8d,
        0xc03a94b2d3e64419a05cd8ccbf987069nat,
        e,
        r,
    )
}

/// A digit one in chain 9.
proof fn square_mul_9(e: nat, r: nat) -> (e2: nat)
    requires
        power_mod(
            0x13248db053c554c210982b5831a3ee8d,
            e,
            0xc03a94b2d3e64419a05cd8ccbf987069nat,
        ) == r,
    ensures
        e2 == 2 * e + 1,
        power_mod(
            0x13248db053c554c210982b5831a3ee8d,
            e2,
            0xc03a94b2d3e64419a05cd8ccbf987069nat,
        ) == (r * r * 0x13248db053c554c210982b5831a3ee8d) % 0xc03a94b2d3e64419a05cd8ccbf987069nat,
{
    lemma_chain_square_mul(
        0x13248db053c554c210982b5831a3ee8d,
        0xc03a94b2d3e64419a05cd8ccbf987069nat,
        e,
        r,
    )
}

/// Chain 9.
proof fn chain_9()
    ensures
        power_mod(
            0x13248db053c554c210982b5831a3ee8d,
            49,
            0xc03a94b2d3e64419a05cd8ccbf987069nat,
        ) == 0x5ae44f604572633e04ab65c64dc10cdfnat,
{
    lemma_chain_start(0x13248db053c554c210982b5831a3ee8d, 0xc03a94b2d3e64419a05cd8ccbf987069nat);
    let e: nat = 1;
    let e: nat = square_mul_9(e, 0x13248db053c554c210982b5831a3ee8d);
    let e: nat = square_9(e, 0x41b7244b84e32a8b0a400566894cf3e);
    let e: nat = square_9(e, 0x4b197add97ab34034cc2de13fbc65d23nat);
    let e: nat = square_9(e, 0x8536e37ada0a0c9c9af5f448e2b8501dnat);
    let e: nat = square_mul_9(e, 0x9db31f54918d5a9ffe311c965a3e6d67nat);
}

/// Chain 10.
proof fn chain_10()
    ensures
        power_mod(
            0x5ae44f604572633e04ab65c64dc10cdfnat,
            8,
            0xc03a94b2d3e64419a05cd8ccbf987069nat,
        ) == 1,
{
    lemma_chain_start(0x5ae44f604572633e04ab65c64dc10cdfnat, 0xc03a94b2d3e64419a05cd8ccbf987069nat);
    let e: nat = 1;
    let e: nat = lemma_chain_square(
        0x5ae44f604572633e04ab65c64dc10cdfnat,
        0xc03a94b2d3e64419a05cd8ccbf987069nat,
        e,
        0x5ae44f604572633e04ab65c64dc10cdfnat,
    );
    let e: nat = lemma_chain_square(
        0x5ae44f604572633e04ab65c64dc10cdfnat,
        0xc03a94b2d3e64419a05cd8ccbf987069nat,
        e,
        0x85f580701c92604304fcca50b1482569nat,
    );
    let e: nat = lemma_chain_square(
        0x5ae44f604572633e04ab65c64dc10cdfnat,
        0xc03a94b2d3e64419a05cd8ccbf987069nat,
        e,
        0xc03a94b2d3e64419a05cd8ccbf987068nat,
    );
}

/// A digit zero in chain 11.
proof fn square_11(e: nat, r: nat) -> (e2: nat)
    requires
        power_mod(3, e, 0xc03a94b2d3e64419a05cd8ccbf987069nat) == r,
    ensures
        e2 == 2 * e,
        power_mod(
            3,
            e2,
            0xc03a94b2d3e64419a05cd8ccbf987069nat,
        ) == (r * r) % 0xc03a94b2d3e64419a05cd8ccbf987069nat,
{
    lemma_chain_square(3, 0xc03a94b2d3e64419a05cd8ccbf987069nat, e, r)
}

/// A digit one in chain 11.
proof fn square_mul_11(e: nat, r: nat) -> (e2: nat)
    requires
        power_mod(3, e, 0xc03a94b2d3e64419a05cd8ccbf987069nat) == r,
    ensures
        e2 == 2 * e + 1,
        power_mod(
            3,
            e2,
            0xc03a94b2d3e64419a05cd8ccbf987069nat,
        ) == (r * r * 3) % 0xc03a94b2d3e64419a05cd8ccbf987069nat,
{
    lemma_chain_square_mul(3, 0xc03a94b2d3e64419a05cd8ccbf987069nat, e, r)
}

/// Chain 11 up to digit 17 of 101 of its exponent.
proof fn chain_11_1()
    ensures
        power_mod(
            3,
            122779,
            0xc03a94b2d3e64419a05cd8ccbf987069nat,
        ) == 0x8c0f2a149028783962e3316052186069nat,
{
    lemma_chain_start(3, 0xc03a94b2d3e64419a05cd8ccbf987069nat);
    let e: nat = 1;
    let e: nat = square_mul_11(e, 3);
    let e: nat = square_mul_11(e, 27);
    let e: nat = square_11(e, 2187);
    let e: nat = square_mul_11(e, 0x48fb79);
    let e: nat = square_mul_11(e, 0x3e6b41437d93);
    let e: nat = square_mul_11(e, 0x2da861a4efa48d54dba0a73b);
    let e: nat = square_mul_11(e, 0x7221d2b9ff2f6bd1ae0523bc4d6b7fc5nat);
    let e: nat = square_mul_11(e, 0xa2437e4882ccc2e142241fd455a29b86nat);
    let e: nat = square_mul_11(e, 0x61d6dbff56d7de145fcac6acf97f78e1nat);
    let e: nat = square_11(e, 0x796c531d4d3b089cb52958289cd7d508nat);
    let e: nat = square_11(e, 0x772eb655060bd65d7e2911666b6a2f2enat);
    let e: nat = square_mul_11(e, 0x7a2ea8270a57d1852d7a3bba01763888nat);
    let e: nat = square_mul_11(e, 0xa16248d468cc2328f5373032895a9173nat);
    let e: nat = square_11(e, 0x405609a13af2c51143b40ae463e899ebnat);
    let e: nat = square_mul_11(e, 0x2888e21f276adf05def57a37fbae6dc6);
    let e: nat = square_mul_11(e, 0xaa255904b0c74ebbf98b070764e6f31fnat);
}

/// Chain 11 up to digit 33 of 101 of its exponent.
proof fn chain_11_2()
    ensures
        power_mod(
            3,
            0x1df9bab44,
            0xc03a94b2d3e64419a05cd8ccbf987069nat,
        ) == 0x74b24ca8687029991c5264aeaf9e5a57nat,
{
    chain_11_1();
    let e: nat = 122779;
    let e: nat = square_mul_11(e, 0x8c0f2a149028783962e3316052186069nat);
    let e: nat = square_11(e, 0xb51bef35291e6404c5b72830c2f500denat);
    let e: nat = square_mul_11(e, 0xa147e55f11534379e527c2470a8f2321nat);
    let e: nat = square_11(e, 0x9f26ecb26b91f4591c86d044d7924c88nat);
    let e: nat = square_mul_11(e, 0x97a1fad9d8d7f6814eabfaa20b5c61a0nat);
    let e: nat = square_11(e, 0x3a54c89a249c320abc09736201e14422);
    let e: nat = square_mul_11(e, 0x44a0c42cdef6f5ee583e7c2f30c9078bnat);
    let e: nat = square_mul_11(e, 0x1572638000a438418fa023fc1998bb12);
    let e: nat = square_11(e, 0x2b4afb11aee15fc2ca292fa531f4aefb);
    let e: nat = square_mul_11(e, 0x47886adb208fa80b635d45909b4cb413nat);
    let e: nat = square_11(e, 0xa022679c2485e9f1b9d1565fade17bdanat);
    let e: nat = square_11(e, 0x3721044eca62ea7234517ab42a94a646);
    let e: nat = square_11(e, 0x37642055e431295756ebdaaf3af1f996);
    let e: nat = square_mul_11(e, 0xa6ab7665107d287e9d9e42240445d9f5nat);
    let e: nat = square_11(e, 0x7bfebb8105b825b42c69fe872b9272e3nat);
    let e: nat = square_11(e, 0xbf29b1edd4ceb44ba7e5601bedcebe84nat);
}

/// Chain 11 up to digit 49 of 101 of its exponent.
proof fn chain_11_3()
    ensures
        power_mod(
            3,
            0x1df9bab4430ed,
            0xc03a94b2d3e64419a05cd8ccbf987069nat,
        ) == 0x29508cf54a9d8f201bca2a4e73d2d8cf,
{
    chain_11_2();
    let e: nat = 0x1df9bab44;
    let e: nat = square_11(e, 0x74b24ca8687029991c5264aeaf9e5a57nat);
    let e: nat = square_11(e, 0x774ba02a9862365ca50fdd3ccedd0b3dnat);
    let e: nat = square_mul_11(e, 0xb46adc3ce540b005c3ddeb77850ad35enat);
    let e: nat = square_mul_11(e, 0x1e764675c8cbb4fe415450215f86b0b9);
    let e: nat = square_11(e, 0x14c4b334471edeb341c835aff69b6b24);
    let e: nat = square_11(e, 0x5e404808b20be6bfe37583f431f99fd6nat);
    let e: nat = square_11(e, 0x76552607d0a5b57daf948199a9ea0e6);
    let e: nat = square_11(e, 0x905dc25c551ff4ac330458df5acbe24fnat);
    let e: nat = square_mul_11(e, 0x7f8ad9eae5a7a9b11bbdaf622265b975nat);
    let e: nat = square_mul_11(e, 0x8929077cfb10b5a8df7bc3b306623ad6nat);
    let e: nat = square_mul_11(e, 0x6ea21c61b69ffb6e54a0d0787b06550);
    let e: nat = square_11(e, 0x2bc9304ac4dce8a054210f02594f090);
    let e: nat = square_mul_11(e, 0x741372c1ad76b0db883e111f030a95dfnat);
    let e: nat = square_mul_11(e, 0x8b031b4e93ac15911f5d7682dc96814anat);
    let e: nat = square_11(e, 0xb323dfebb2c67fc79bafaff5dccc9287nat);
    let e: nat = square_mul_11(e, 0xb769f23b72c70d44b4c9acd60966d0a5nat);
}

/// Chain 11 up to digit 65 of 101 of its exponent.
proof fn chain_11_4()
    ensures
        power_mod(
            3,
            0x1df9bab4430edf45f,
            0xc03a94b2d3e64419a05cd8ccbf987069nat,
        ) == 0x9bea409b1f5097c79bad8bdd4373fa1enat,
{
    chain_11_3();
    let e: nat = 0x1df9bab4430ed;
    let e: nat = square_mul_11(e, 0x29508cf54a9d8f201bca2a4e73d2d8cf);
    let e: nat = square_mul_11(e, 0x1ccce5075591a4480d1ff2932cbb55e7);
    let e: nat = square_mul_11(e, 0x3d14cd45cd4e17600a07b6d8507dc57e);
    let e: nat = square_mul_11(e, 0x5609abca8613a42b4e08e9164d4fd35);
    let e: nat = square_11(e, 0x506e3742991bb75855120ac0f366b726nat);
    let e: nat = square_mul_11(e, 0x532aa9b0a3972eab38519a6a391b1976nat);
    let e: nat = square_11(e, 0x9612db2fedb49dcfec65870f0b5cceefnat);
    let e: nat = square_11(e, 0x4a3d5d4401e17d0c90c4672eb829317dnat);
    let e: nat = square_11(e, 0x597e374e75f6a630c981466a56c8b1cenat);
    let e: nat = square_mul_11(e, 0x4530173967106efcac03e2a184875edanat);
    let e: nat = square_11(e, 0x3c2aeb857ef1646692aa60dad9394e6b);
    let e: nat = square_mul_11(e, 0x256d2a9fb77a75ddcf01a3c74c4aeb7c);
    let e: nat = square_mul_11(e, 0xbcab35106fb912b78633ba7f9751f227nat);
    let e: nat = square_mul_11(e, 0x536b5b6c0d5647ec29ae6e503fb6ea08nat);
    let e: nat = square_mul_11(e, 0xb4babb8635460370e5639ee1d5b6627cnat);
    let e: nat = square_mul_11(e, 0xff8be0d93e9a58a48ab60540416e414);
}

/// Chain 11 up to digit 81 of 101 of its exponent.
proof fn chain_11_5()
    ensures
        power_mod(
            3,
            0x1df9bab4430edf45ff20d,
            0xc03a94b2d3e64419a05cd8ccbf987069nat,
        ) == 0x54386123b129be1e9a2cfe1d9d1872ccnat,
{
    chain_11_4();
    let e: nat = 0x1df9bab4430edf45f;
    let e: nat = square_mul_11(e, 0x9bea409b1f5097c79bad8bdd4373fa1enat);
    let e: nat = square_mul_11(e, 0xac771c784a3c65e97b511ad106698536nat);
    let e: nat = square_mul_11(e, 0x4b8e6909633c94cb0651ff1213b823adnat);
    let e: nat = square_mul_11(e, 0x3bc57739f17e032a9dfc9880d45a1dcc);
    let e: nat = square_11(e, 0xac6e9e65c39c18efb7b90c3acd9e7fcbnat);
    let e: nat = square_11(e, 0x429eada7c57629898ddc76283422020dnat);
    let e: nat = square_mul_11(e, 0xb94bf389fd107553e99179ce99d9fd29nat);
    let e: nat = square_11(e, 0xac3fb6150a97f3366ffdd3f82be9c429nat);
    let e: nat = square_11(e, 0x2e0ce4bd83cf7e828eb90c726a8bea03);
    let e: nat = square_11(e, 0x1b33a19f1f99915002bc6e4bea119d28);
    let e: nat = square_11(e, 0xa36a9e4b2b7d08511f9d54dbc36b113enat);
    let e: nat = square_11(e, 0xb290cf42ea212b08394c0aed0b5383dfnat);
    let e: nat = square_mul_11(e, 0xb7d3feca22057b6a3cdba85a687e9e75nat);
    let e: nat = square_mul_11(e, 0x5c983df01b2da6df02e16b9f52a5fc84nat);
    let e: nat = square_11(e, 0xa6913424c8026ca535216ed22f22c357nat);
    let e: nat = square_mul_11(e, 0x83195f376e1b5a7c47dfc1d67d4f05b6nat);
}

/// Chain 11 up to digit 97 of 101 of its exponent.
proof fn chain_11_6()
    ensures
        power_mod(
            3,
            0x1df9bab4430edf45ff20d8c2e,
            0xc03a94b2d3e64419a05cd8ccbf987069nat,
        ) == 0x866fe6f7618006092b2fa23807644a81nat,
{
    chain_11_5();
    let e: nat = 0x1df9bab4430edf45ff20d;
    let e: nat = square_mul_11(e, 0x54386123b129be1e9a2cfe1d9d1872ccnat);
    let e: nat = square_11(e, 0xab53bc9ab433ea33a75ad6c08f6fcd1enat);
    let e: nat = square_11(e, 0x21ece97a42e31ba3ce16248e45057aee);
    let e: nat = square_11(e, 0x753f5decef8a185f8c40a4e2dfc0b2b);
    let e: nat = square_mul_11(e, 0x1ca486b56b5eed4fa55c07bba251eee0);
    let e: nat = square_mul_11(e, 0x39044da89155b9006abc204c7a0a8d0f);
    let e: nat = square_11(e, 0x5608b319c376d29762eb70e80464238fnat);
    let e: nat = square_11(e, 0x83edce55b6d0184083dbf5f2e014b32anat);
    let e: nat = square_11(e, 0x9edd8844a39e2854b73b88c99c271238nat);
    let e: nat = square_11(e, 0xbab2c3f43d4c18c888b6cc323af47301nat);
    let e: nat = square_mul_11(e, 0x836d47f3981806dbdc9ba3e7d30e7f44nat);
    let e: nat = square_11(e, 0x5008095e625a731ca0abd62b7fae9feenat);
    let e: nat = square_mul_11(e, 0x17c9facb480198bdabf66a02a0117574);
    let e: nat = square_mul_11(e, 0x1db40399d12c8dc0ea2e58275492bbb2);
    let e: nat = square_mul_11(e, 0x4a7ddfe1b8608a05caccec4f96dee7a2nat);
    let e: nat = square_11(e, 0xbae5a24bfa3280f99e84ce5822652ac4nat);
}

/// Chain 11 up to digit 101 of 101 of its exponent.
proof fn chain_11_7()
    ensures
        power_mod(
            3,
            0x1df9bab4430edf45ff20d8c2e8,
            0xc03a94b2d3e64419a05cd8ccbf987069nat,
        ) == 0xdcb39360cb6a18852866c9ede8605c5,
{
    chain_11_6();
    let e: nat = 0x1df9bab4430edf45ff20d8c2e;
    let e: nat = square_mul_11(e, 0x866fe6f7618006092b2fa23807644a81nat);
    let e: nat = square_11(e, 0xa5a13b8e90ed95b0c68aebe8f8d03946nat);
    let e: nat = square_11(e, 0x42a9e2adf3e85d600effa43c55621dadnat);
    let e: nat = square_11(e, 0x2853a6de41370d62a98af2650f2e2209);
}

/// A digit zero in chain 12.
proof fn square_12(e: nat, r: nat) -> (e2: nat)
    requires
        power_mod(
            0xb9bf99570a4ce01a8d2eb9e293d81090nat,
            e,
            0xc03a94b2d3e64419a05cd8ccbf987069nat,
        ) == r,
    ensures
        e2 == 2 * e,
        power_mod(
            0xb9bf99570a4ce01a8d2eb9e293d81090nat,
            e2,
            0xc03a94b2d3e64419a05cd8ccbf987069nat,
        ) == (r * r) % 0xc03a94b2d3e64419a05cd8ccbf987069nat,
{
    lemma_chain_square(
        0xb9bf99570a4ce01a8d2eb9e293d81090nat,
        0xc03a94b2d3e64419a05cd8ccbf987069nat,
        e,
        r,
    )
}

/// A digit one in chain 12.
proof fn square_mul_12(e: nat, r: nat) -> (e2: nat)
    requires
        power_mod(
            0xb9bf99570a4ce01a8d2eb9e293d81090nat,
            e,
            0xc03a94b2d3e64419a05cd8ccbf987069nat,
        ) == r,
    ensures
        e2 == 2 * e + 1,
        power_mod(
            0xb9bf99570a4ce01a8d2eb9e293d81090nat,
            e2,
            0xc03a94b2d3e64419a05cd8ccbf987069nat,
        ) == (r * r * 0xb9bf99570a4ce01a8d2eb9e293d81090nat) % 0xc03a94b2d3e64419a05cd8ccbf987069nat,
{
    lemma_chain_square_mul(
        0xb9bf99570a4ce01a8d2eb9e293d81090nat,
        0xc03a94b2d3e64419a05cd8ccbf987069nat,
        e,
        r,
    )
}

/// Chain 12 up to digit 17 of 79 of its exponent.
proof fn chain_12_1()
    ensures
        power_mod(
            0xb9bf99570a4ce01a8d2eb9e293d81090nat,
            71122,
            0xc03a94b2d3e64419a05cd8ccbf987069nat,
        ) == 0x8cca8d15907bae6c99b22fa16c227b29nat,
{
    lemma_chain_start(0xb9bf99570a4ce01a8d2eb9e293d81090nat, 0xc03a94b2d3e64419a05cd8ccbf987069nat);
    let e: nat = 1;
    let e: nat = square_12(e, 0xb9bf99570a4ce01a8d2eb9e293d81090nat);
    let e: nat = square_12(e, 0x74af908b14a92ebf8288b9766f5a0c90nat);
    let e: nat = square_12(e, 0x9e2283b1423da297248b0a4465ee479cnat);
    let e: nat = square_mul_12(e, 0x62b79589b78027df14e5ab590cf3fa68nat);
    let e: nat = square_12(e, 0x8dda70ab879666b390693b81d20c75d1nat);
    let e: nat = square_mul_12(e, 0x107be5588e6ffac8a5542e1fb3e07b14);
    let e: nat = square_12(e, 0x62d71af795964ea7f2ea2b912ff9e656nat);
    let e: nat = square_mul_12(e, 0xbaceb3d6af1af689ee8f003d3ead67bdnat);
    let e: nat = square_mul_12(e, 0x8599df91919ec422e871ba4a49121609nat);
    let e: nat = square_mul_12(e, 0xa50e3acfa53a72bb8ced7615fea2b148nat);
    let e: nat = square_12(e, 0x752b6bc53897aa315f05115d72839ca0nat);
    let e: nat = square_mul_12(e, 0x3fe4c41e9d822402341310bdb3dbb63c);
    let e: nat = square_12(e, 0x527747edc6f263493fc5d78b00a379e2nat);
    let e: nat = square_12(e, 0x66528a856909c493a57e8eeec70aaec7nat);
    let e: nat = square_mul_12(e, 0x55f73b3c764dd76a240c36a47aac5f99nat);
    let e: nat = square_12(e, 0x8b7380c60eef2eead8d9b8a42dced515nat);
}

/// Chain 12 up to digit 33 of 79 of its exponent.
proof fn chain_12_2()
    ensures
        power_mod(
            0xb9bf99570a4ce01a8d2eb9e293d81090nat,
            0x115d26e2b,
            0xc03a94b2d3e64419a05cd8ccbf987069nat,
        ) == 0x85531ae643fecbd078729bfb058dbc97nat,
{
    chain_12_1();
    let e: nat = 71122;
    let e: nat = square_12(e, 0x8cca8d15907bae6c99b22fa16c227b29nat);
    let e: nat = square_mul_12(e, 0x1de8b6b1ae76c287fdcbf9e7a193eed0);
    let e: nat = square_mul_12(e, 0x18e5bc0a2ae8be7aa69651780ee8ad3a);
    let e: nat = square_12(e, 0x3480d898bd36f6cd0be0be155d3a2174);
    let e: nat = square_mul_12(e, 0x38240f949b9b181ecac2849ce257119);
    let e: nat = square_mul_12(e, 0x4f534643954c3c3f5f33aa24c3f7517bnat);
    let e: nat = square_mul_12(e, 0x47bbbbd8fa0c90c2d7dbf8dc90340cc0nat);
    let e: nat = square_12(e, 0xb7662d182f2ec4f371835f37667ca0dfnat);
    let e: nat = square_12(e, 0x9342d87ca9c0a676dea0233e98c97516nat);
    let e: nat = square_12(e, 0x50efd3cb8d7fa26928df243aecc1b3d3nat);
    let e: nat = square_mul_12(e, 0x90345954279ad194e61a891e4082373bnat);
    let e: nat = square_12(e, 0x59f1a6d0340b6dba49dbb4efa6582d85nat);
    let e: nat = square_mul_12(e, 0x7497518201cea8be55d92cf451dd1350nat);
    let e: nat = square_12(e, 0xf32b9eb81a1144bfc74608eb61012a7);
    let e: nat = square_mul_12(e, 0x11e0076da4c1eca7bf0be4c020f8366f);
    let e: nat = square_mul_12(e, 0x199cc7531913cd8b184df2b4463845e0);
}

/// Chain 12 up to digit 49 of 79 of its exponent.
proof fn chain_12_3()
    ensures
        power_mod(
            0xb9bf99570a4ce01a8d2eb9e293d81090nat,
            0x115d26e2b6c41,
            0xc03a94b2d3e64419a05cd8ccbf987069nat,
        ) == 0xace43d5bbd184b4db164eafad85d58a0nat,
{
    chain_12_2();
    let e: nat = 0x115d26e2b;
    let e: nat = square_12(e, 0x85531ae643fecbd078729bfb058dbc97nat);
    let e: nat = square_mul_12(e, 0x9c95eec5eb80d2ae1c0fc59dfb6cb3aanat);
    let e: nat = square_mul_12(e, 0x55bdec77e7aed81c9b0b0ace17b521e8nat);
    let e: nat = square_12(e, 0x866b94b6f39aeab0df7386948b1a05c8nat);
    let e: nat = square_mul_12(e, 0x3fe0bba1f6c36c95b6df5a009ddd3209);
    let e: nat = square_mul_12(e, 0x268ffe633a7fdb5ae63caf5e36983564);
    let e: nat = square_12(e, 0x11341e82dd6a88cfd94648ab14672d03);
    let e: nat = square_12(e, 0xaee402d746fb637871f2c4d3460a0b6cnat);
    let e: nat = square_12(e, 0x1b2adbc7ef244590f960581a1758a191);
    let e: nat = square_mul_12(e, 0x75513d51bceb05eb2f5695f118578a59nat);
    let e: nat = square_12(e, 0x7d08948e2a6ba1d762f65c30982700e5nat);
    let e: nat = square_12(e, 0xa8a68269dc20be78e4fa1f987ad5a2f2nat);
    let e: nat = square_12(e, 0x18fd3fdf9cb39efbf3b81d764ac98cad);
    let e: nat = square_12(e, 0xaad3bcbad599184f6a42f8789ef766b3nat);
    let e: nat = square_12(e, 0x5abe3775c1b5c3a75cdf24413b84ba0anat);
    let e: nat = square_mul_12(e, 0xae74dcb702a0da4fdc048e915ed87838nat);
}

/// Chain 12 up to digit 65 of 79 of its exponent.
proof fn chain_12_4()
    ensures
        power_mod(
            0xb9bf99570a4ce01a8d2eb9e293d81090nat,
            0x115d26e2b6c41042a,
            0xc03a94b2d3e64419a05cd8ccbf987069nat,
        ) == 0x93b72837fcaf30bd354e80d6b7f000d3nat,
{
    chain_12_3();
    let e: nat = 0x115d26e2b6c41;
    let e: nat = square_12(e, 0xace43d5bbd184b4db164eafad85d58a0nat);
    let e: nat = square_12(e, 0x10b1aa74d50cef3ea0bb0bc9a13ea54d);
    let e: nat = square_12(e, 0x250214f6da9be0f4b83785338ebaff13);
    let e: nat = square_12(e, 0x8c26c25f00c0485bf7ca38cdb8d5f245nat);
    let e: nat = square_12(e, 0x77d83ecac6a251ded642334ec91b5d92nat);
    let e: nat = square_mul_12(e, 0x49bdb9b2c9965329d17d2c8a40e1e6d8nat);
    let e: nat = square_12(e, 0x81e51ec3986644d862cafc6f3578c216nat);
    let e: nat = square_12(e, 0xbc572424025421a956806d397e748af3nat);
    let e: nat = square_12(e, 0x290d9ae9625297c5f5d6a747e9a59db9);
    let e: nat = square_12(e, 0x60215513705b9aaf573d64c4106ea249nat);
    let e: nat = square_mul_12(e, 0x7ef7cbc5608895b9f633a822a5a6ccfenat);
    let e: nat = square_12(e, 0x39f4fb65425ed649faea0413a9aba014);
    let e: nat = square_mul_12(e, 0x7d6567e436b391e28a2c67f924150b35nat);
    let e: nat = square_12(e, 0xa117fed758cb6f9bdf52e531f2f2ac6enat);
    let e: nat = square_mul_12(e, 0x4f8c9f62d2cd25bfdfccbfd6e211203dnat);
    let e: nat = square_12(e, 0x778bde0bb2c9cf3a1251e2addb6e92afnat);
}

/// Chain 12 up to digit 79 of 79 of its exponent.
proof fn chain_12_5()
    ensures
        power_mod(
            0xb9bf99570a4ce01a8d2eb9e293d81090nat,
            0x45749b8adb10410aa398,
            0xc03a94b2d3e64419a05cd8ccbf987069nat,
        ) == 0x175abdc238fe0264a6762b260bece8d3,
{
    chain_12_4();
    let e: nat = 0x115d26e2b6c41042a;
    let e: nat = square_mul_12(e, 0x93b72837fcaf30bd354e80d6b7f000d3nat);
    let e: nat = square_12(e, 0x428ba0ac0554f1ac82acab774d60db81nat);
    let e: nat = square_12(e, 0x7032d12e91dbe1bdc8bace9c098db6f);
    let e: nat = square_12(e, 0x4ad522159c3a8d9af8a75598dca20732nat);
    let e: nat = square_mul_12(e, 0xa507f2179cad175e6dc7a89b480c70a4nat);
    let e: nat = square_mul_12(e, 0x4dcd04fbd56fd5c87ca9cdd735e21eb9nat);
    let e: nat = square_mul_12(e, 0x487b23d69d094d054e59e1a63ad9262cnat);
    let e: nat = square_12(e, 0xaffabeadde6c80c02221aa0bf52cea36nat);
    let e: nat = square_12(e, 0x1b1f5c278f13fe8910c29c29dd11fadc);
    let e: nat = square_mul_12(e, 0x420c752c42c3f55b0cbe5317b3ca81adnat);
    let e: nat = square_mul_12(e, 0xa9d71380b6b2dd7a6b0dc62f1adc6fddnat);
    let e: nat = square_12(e, 0x60fda52cef865be48b58c545844289dfnat);
    let e: nat = square_12(e, 0x40168c770c3f8a22d9041293d411acd3nat);
    let e: nat = square_12(e, 0x6f5ad6317cae07ccc11ac7f8289b0e30nat);
}

/// A digit zero in chain 13.
proof fn square_13(e: nat, r: nat) -> (e2: nat)
    requires
        power_mod(
            0x407311daf1b0ed910304a07a4d385889nat,
            e,
            0xc03a94b2d3e64419a05cd8ccbf987069nat,
        ) == r,
    ensures
        e2 == 2 * e,
        power_mod(
            0x407311daf1b0ed910304a07a4d385889nat,
            e2,
            0xc03a94b2d3e64419a05cd8ccbf987069nat,
        ) == (r * r) % 0xc03a94b2d3e64419a05cd8ccbf987069nat,
{
    lemma_chain_square(
        0x407311daf1b0ed910304a07a4d385889nat,
        0xc03a94b2d3e64419a05cd8ccbf987069nat,
        e,
        r,
    )
}

/// A digit one in chain 13.
proof fn square_mul_13(e: nat, r: nat) -> (e2: nat)
    requires
        power_mod(
            0x407311daf1b0ed910304a07a4d385889nat,
            e,
            0xc03a94b2d3e64419a05cd8ccbf987069nat,
        ) == r,
    ensures
        e2 == 2 * e + 1,
        power_mod(
            0x407311daf1b0ed910304a07a4d385889nat,
            e2,
            0xc03a94b2d3e64419a05cd8ccbf987069nat,
        ) == (r * r * 0x407311daf1b0ed910304a07a4d385889nat) % 0xc03a94b2d3e64419a05cd8ccbf987069nat,
{
    lemma_chain_square_mul(
        0x407311daf1b0ed910304a07a4d385889nat,
        0xc03a94b2d3e64419a05cd8ccbf987069nat,
        e,
        r,
    )
}

/// Chain 13 up to digit 17 of 62 of its exponent.
proof fn chain_13_1()
    ensures
        power_mod(
            0x407311daf1b0ed910304a07a4d385889nat,
            96545,
            0xc03a94b2d3e64419a05cd8ccbf987069nat,
        ) == 0xb1971f6fe4e4587fbf451cc963f41b19nat,
{
    lemma_chain_start(0x407311daf1b0ed910304a07a4d385889nat, 0xc03a94b2d3e64419a05cd8ccbf987069nat);
    let e: nat = 1;
    let e: nat = square_13(e, 0x407311daf1b0ed910304a07a4d385889nat);
    let e: nat = square_mul_13(e, 0x1d4ab0939042ed8320f149fd6b5d7d85);
    let e: nat = square_mul_13(e, 0x97f4f5ef5a486eb98c19370f069b00f6nat);
    let e: nat = square_mul_13(e, 0xb92e2c70fd680a6795d9f0ab454e67c1nat);
    let e: nat = square_mul_13(e, 0x9c3a07ef4f398df869907b29d73062f6nat);
    let e: nat = square_13(e, 0x1e0bbc22b4e87ed5ef42c4c6eb6c79d4);
    let e: nat = square_13(e, 0x88be8f91ffbf815c851a6a199442166);
    let e: nat = square_mul_13(e, 0x13ad6307a3449513dddf3e92ba2765fd);
    let e: nat = square_13(e, 0x83a94f51c4977836ab56a4a842d3ddfbnat);
    let e: nat = square_13(e, 0x6e4eb4947b38fab4e689ba894a254d49nat);
    let e: nat = square_mul_13(e, 0x5d89b6ed8b4e3cf7787bac095fe52cd4nat);
    let e: nat = square_13(e, 0x32e3e134613bc2f7d93417617010bcbc);
    let e: nat = square_13(e, 0x3c00c0b9239246d11fd1a1abfa2d3de0);
    let e: nat = square_13(e, 0x78a38e5e8a465d8083ee2c19cc3d3c90nat);
    let e: nat = square_13(e, 0x9d27ddb54534aa903ad810a56ce3103bnat);
    let e: nat = square_mul_13(e, 0xa701ce27e4b9c1504e8b3b0bc79c9b8dnat);
}

/// Chain 13 up to digit 33 of 62 of its exponent.
proof fn chain_13_2()
    ensures
        power_mod(
            0x407311daf1b0ed910304a07a4d385889nat,
            0x17921a8b0,
            0xc03a94b2d3e64419a05cd8ccbf987069nat,
        ) == 0xa3bc867576ade9711ed9d4b85d5bb487nat,
{
    chain_13_1();
    let e: nat = 96545;
    let e: nat = square_mul_13(e, 0xb1971f6fe4e4587fbf451cc963f41b19nat);
    let e: nat = square_13(e, 0x628cc667e29413c5c390d12264cb8bb7nat);
    let e: nat = square_mul_13(e, 0x32c52b201218d33585cdd6c0e5107ed3);
    let e: nat = square_13(e, 0x42383af075a4346da34ed8577d13540fnat);
    let e: nat = square_mul_13(e, 0x509135ab28640ea5c9a75c5f5b026dbbnat);
    let e: nat = square_13(e, 0x21f10ad0f442f50f76505f26d41e225f);
    let e: nat = square_13(e, 0x5ca718575fac4f3d4de28b70795ddc3cnat);
    let e: nat = square_13(e, 0x5933250f08a8e35119e9c8e2e23a9bfenat);
    let e: nat = square_mul_13(e, 0xbdd70bdf8410e7146438980dff0ca83dnat);
    let e: nat = square_13(e, 0xb63089bdb15aad2efedb8775679e67ebnat);
    let e: nat = square_mul_13(e, 0xa74f5c78514cd502e8fcb039f6258c02nat);
    let e: nat = square_mul_13(e, 0x9a208c699b420e41de589903e7ba4a3bnat);
    let e: nat = square_13(e, 0x40cb8f22562dcae4679efa8216d5d852nat);
    let e: nat = square_13(e, 0x261f13f64581a488469d5d3e5e3989db);
    let e: nat = square_13(e, 0xbafb2f6a0eb9cdace62eea0e6fd15fc8nat);
    let e: nat = square_13(e, 0x4dfc33de9b1ec38242e02fb9397311dfnat);
}

/// Chain 13 up to digit 49 of 62 of its exponent.
proof fn chain_13_3()
    ensures
        power_mod(
            0x407311daf1b0ed910304a07a4d385889nat,
            0x17921a8b0aed2,
            0xc03a94b2d3e64419a05cd8ccbf987069nat,
        ) == 0x8350ac93846e40e392799cc406c514eenat,
{
    chain_13_2();
    let e: nat = 0x17921a8b0;
    let e: nat = square_mul_13(e, 0xa3bc867576ade9711ed9d4b85d5bb487nat);
    let e: nat = square_13(e, 0xaf1afb61e44f77c093f7c59a8c766eafnat);
    let e: nat = square_mul_13(e, 0x56a03646d9e9cf4160c04a82977a1d4fnat);
    let e: nat = square_13(e, 0xb09639c345d7e55ffdae351b52a69c00nat);
    let e: nat = square_mul_13(e, 0xb6dd8a1db5de0488f44c9a5ec021c1e1nat);
    let e: nat = square_mul_13(e, 0x87b2c2dd02b1ab5b7c84bcacea271995nat);
    let e: nat = square_mul_13(e, 0x17b56b53763992c86586cfbc2d5f81a9);
    let e: nat = square_13(e, 0x202eb15d8cc65fde9f38a409ac1e87f6);
    let e: nat = square_mul_13(e, 0x1e6ef162147d5291553419f0d0a5585a);
    let e: nat = square_mul_13(e, 0x46fccef0b513c4567d087c192e3f1af7nat);
    let e: nat = square_13(e, 0x408c8a6b0f47db1d7fbcf91e45c91be5nat);
    let e: nat = square_mul_13(e, 0x8bc67297dfac8a45393c23cb31d12673nat);
    let e: nat = square_13(e, 0x21dd3864f93b6d32a57f3d0255202f80);
    let e: nat = square_13(e, 0x7f2847ebf35d611da1274ac741fe7ea9nat);
    let e: nat = square_mul_13(e, 0x2310bf215ccb66f27df6d95b358f652d);
    let e: nat = square_13(e, 0x52f666880837004e04cca108592750c5nat);
}

/// Chain 13 up to digit 62 of 62 of its exponent.
proof fn chain_13_4()
    ensures
        power_mod(
            0x407311daf1b0ed910304a07a4d385889nat,
            0x2f24351615da40f8,
            0xc03a94b2d3e64419a05cd8ccbf987069nat,
        ) == 0xc0094506b80d54e0973bc97d06410037nat,
{
    chain_13_3();
    let e: nat = 0x17921a8b0aed2;
    let e: nat = square_13(e, 0x8350ac93846e40e392799cc406c514eenat);
    let e: nat = square_13(e, 0x66aa560e8c172e7069ca9294096f2e2anat);
    let e: nat = square_13(e, 0x2f262d375a3f7891bc2d1c35bb14e4de);
    let e: nat = square_13(e, 0x3f95e22bcc217839c8119645dcdf68aa);
    let e: nat = square_13(e, 0x8a186fe2b5525a458465aa6144e2569);
    let e: nat = square_mul_13(e, 0x321e7245512109ed91806d1f0e591c97);
    let e: nat = square_mul_13(e, 0x3eafece499bd6d8fa853edba3774cb3b);
    let e: nat = square_mul_13(e, 0xa2eef6b4be35cabaef4774f81542ac22nat);
    let e: nat = square_mul_13(e, 0x202660cf3d4da9019b09ffedc681e612);
    let e: nat = square_mul_13(e, 0x39e80031b19c93bc81f576de3082ae2e);
    let e: nat = square_13(e, 0xa3d480764f9f45908a5fe4a9a61c7e62nat);
    let e: nat = square_13(e, 0xacd1a40f38326f59781bdf4261484a83nat);
    let e: nat = square_13(e, 0x623b3e3ddb4a09dac76c73fbeaa3d794nat);
}

/// A digit zero in chain 14.
proof fn square_14(e: nat, r: nat) -> (e2: nat)
    requires
        power_mod(
            0x5dddc688b27b78677a644abe731664c6nat,
            e,
            0xc03a94b2d3e64419a05cd8ccbf987069nat,
        ) == r,
    ensures
        e2 == 2 * e,
        power_mod(
            0x5dddc688b27b78677a644abe731664c6nat,
            e2,
            0xc03a94b2d3e64419a05cd8ccbf987069nat,
        ) == (r * r) % 0xc03a94b2d3e64419a05cd8ccbf987069nat,
{
    lemma_chain_square(
        0x5dddc688b27b78677a644abe731664c6nat,
        0xc03a94b2d3e64419a05cd8ccbf987069nat,
        e,
        r,
    )
}

/// A digit one in chain 14.
proof fn square_mul_14(e: nat, r: nat) -> (e2: nat)
    requires
        power_mod(
            0x5dddc688b27b78677a644abe731664c6nat,
            e,
            0xc03a94b2d3e64419a05cd8ccbf987069nat,
        ) == r,
    ensures
        e2 == 2 * e + 1,
        power_mod(
            0x5dddc688b27b78677a644abe731664c6nat,
            e2,
            0xc03a94b2d3e64419a05cd8ccbf987069nat,
        ) == (r * r * 0x5dddc688b27b78677a644abe731664c6nat) % 0xc03a94b2d3e64419a05cd8ccbf987069nat,
{
    lemma_chain_square_mul(
        0x5dddc688b27b78677a644abe731664c6nat,
        0xc03a94b2d3e64419a05cd8ccbf987069nat,
        e,
        r,
    )
}

/// Chain 14 up to digit 17 of 47 of its exponent.
proof fn chain_14_1()
    ensures
        power_mod(
            0x5dddc688b27b78677a644abe731664c6nat,
            76784,
            0xc03a94b2d3e64419a05cd8ccbf987069nat,
        ) == 0x1da4feff05ecd49e463d0d693bd70b3,
{
    lemma_chain_start(0x5dddc688b27b78677a644abe731664c6nat, 0xc03a94b2d3e64419a05cd8ccbf987069nat);
    let e: nat = 1;
    let e: nat = square_14(e, 0x5dddc688b27b78677a644abe731664c6nat);
    let e: nat = square_14(e, 0x8829d9c4a13a2f848693ece0033532eenat);
    let e: nat = square_mul_14(e, 0x536509366d334376743e2e890b60df8bnat);
    let e: nat = square_14(e, 0x7e5ea23c1387eef44d5c8466cc39c801nat);
    let e: nat = square_mul_14(e, 0xa5b42dfc9daf9d7671104282e84b4369nat);
    let e: nat = square_14(e, 0x5ff753b613f0f4d867d42a91a5e5755bnat);
    let e: nat = square_mul_14(e, 0x5258a9edd7d3f2f19bcf1f54553d1a12nat);
    let e: nat = square_mul_14(e, 0x7f5589fb9d12efeec0b75c56e2b25c6cnat);
    let e: nat = square_mul_14(e, 0x9dab845c94554fde979b3c3700ecaf12nat);
    let e: nat = square_mul_14(e, 0x2b29449a1f9025f01e1810abb8f5e876);
    let e: nat = square_mul_14(e, 0x37bb7f2d7cbf67ef80e0999a864cfca2);
    let e: nat = square_mul_14(e, 0x993681ed92198e0fd9f4959ff559b64fnat);
    let e: nat = square_14(e, 0x55f99dc90b8033dbbcda0d5d0cfc98benat);
    let e: nat = square_14(e, 0x5f3dd609ed718c05a6bf28f6d6da466enat);
    let e: nat = square_14(e, 0x313471b14018e7593f18056d1d28624f);
    let e: nat = square_14(e, 0x26a1140dc2861778a22f40e11b11094e);
}

/// Chain 14 up to digit 33 of 47 of its exponent.
proof fn chain_14_2()
    ensures
        power_mod(
            0x5dddc688b27b78677a644abe731664c6nat,
            0x12bf0bdef,
            0xc03a94b2d3e64419a05cd8ccbf987069nat,
        ) == 0xd6bb6d04049f3c2300a0ae49233eb3a,
{
    chain_14_1();
    let e: nat = 76784;
    let e: nat = square_mul_14(e, 0x1da4feff05ecd49e463d0d693bd70b3);
    let e: nat = square_14(e, 0x179305517716ecc17adfe55a5b8cc399);
    let e: nat = square_mul_14(e, 0x73c3f9c2765826df972fa5901e3b2931nat);
    let e: nat = square_mul_14(e, 0x26bdbad0b570be7b9380264e29cb1d1c);
    let e: nat = square_mul_14(e, 0x12e6225fe2e119780d08a4bbbc843d2);
    let e: nat = square_mul_14(e, 0xa0e913caafc8791f0c7fd14176ca098cnat);
    let e: nat = square_14(e, 0xbc082ab1b17ddd427e5379b792c8da9enat);
    let e: nat = square_mul_14(e, 0x71d2d1311b355a878eca0b4d6b668da8nat);
    let e: nat = square_mul_14(e, 0xa97ef8ac5a40252b8b0c3eaf29fddcb6nat);
    let e: nat = square_mul_14(e, 0x93333bec71be97c9a1349de188bcc533nat);
    let e: nat = square_mul_14(e, 0x9c2c70567e4cb3543ff6ff4340054cfbnat);
    let e: nat = square_14(e, 0x19316853f7fd32557dc7dc879561a0d3);
    let e: nat = square_mul_14(e, 0x5c160440e9a4a390e1059f1f13ede63anat);
    let e: nat = square_mul_14(e, 0x10f84634e7925578f1415a8330be23b6);
    let e: nat = square_mul_14(e, 0xb27ef15ab32862d860abcb0a3207298enat);
    let e: nat = square_mul_14(e, 0x8676136a0a64d25bc6ee5d989af6c969nat);
}

/// Chain 14 up to digit 47 of 47 of its exponent.
proof fn chain_14_3()
    ensures
        power_mod(
            0x5dddc688b27b78677a644abe731664c6nat,
            0x4afc2f7bd078,
            0xc03a94b2d3e64419a05cd8ccbf987069nat,
        ) == 0x82055547e2c26508587804c9ae70f0f5nat,
{
    chain_14_2();
    let e: nat = 0x12bf0bdef;
    let e: nat = square_14(e, 0xd6bb6d04049f3c2300a0ae49233eb3a);
    let e: nat = square_mul_14(e, 0x640373b1a3f4ead58f7597fec249b607nat);
    let e: nat = square_14(e, 0x5be5669064663be5eab3dfa992c62207nat);
    let e: nat = square_14(e, 0x62bbd521f6a3f382b424a365dfd5a49anat);
    let e: nat = square_14(e, 0x99c4dbbcff0eede7f821747c93970cd9nat);
    let e: nat = square_14(e, 0x5de50139577fd4478b1e991d0ca998d);
    let e: nat = square_14(e, 0x37391fc0d2325284e747858c82f63a93);
    let e: nat = square_mul_14(e, 0x4cae182f10e7d14890f65194d2a26913nat);
    let e: nat = square_mul_14(e, 0x2044900e3425662fd07dbc382eae4fe1);
    let e: nat = square_mul_14(e, 0x1af1828a5241eb534034c2b8a12aeb75);
    let e: nat = square_mul_14(e, 0x426861df40f086b8d2aca549b5964d17nat);
    let e: nat = square_14(e, 0x7643468008a57df4058563d93bea1482nat);
    let e: nat = square_14(e, 0x8f1dc2da1f014d6e5928e55e32401bd);
    let e: nat = square_14(e, 0x9445fdbd9b96b79420ba20d5704af68);
}

/// A digit zero in chain 15.
proof fn square_15(e: nat, r: nat) -> (e2: nat)
    requires
        power_mod(
            0x2d4e43b16f0f94ba261892a4bd0deeaa,
            e,
            0xc03a94b2d3e64419a05cd8ccbf987069nat,
        ) == r,
    ensures
        e2 == 2 * e,
        power_mod(
            0x2d4e43b16f0f94ba261892a4bd0deeaa,
            e2,
            0xc03a94b2d3e64419a05cd8ccbf987069nat,
        ) == (r * r) % 0xc03a94b2d3e64419a05cd8ccbf987069nat,
{
    lemma_chain_square(
        0x2d4e43b16f0f94ba261892a4bd0deeaa,
        0xc03a94b2d3e64419a05cd8ccbf987069nat,
        e,
        r,
    )
}

/// A digit one in chain 15.
proof fn square_mul_15(e: nat, r: nat) -> (e2: nat)
    requires
        power_mod(
            0x2d4e43b16f0f94ba261892a4bd0deeaa,
            e,
            0xc03a94b2d3e64419a05cd8ccbf987069nat,
        ) == r,
    ensures
        e2 == 2 * e + 1,
        power_mod(
            0x2d4e43b16f0f94ba261892a4bd0deeaa,
            e2,
            0xc03a94b2d3e64419a05cd8ccbf987069nat,
        ) == (r * r * 0x2d4e43b16f0f94ba261892a4bd0deeaa) % 0xc03a94b2d3e64419a05cd8ccbf987069nat,
{
    lemma_chain_square_mul(
        0x2d4e43b16f0f94ba261892a4bd0deeaa,
        0xc03a94b2d3e64419a05cd8ccbf987069nat,
        e,
        r,
    )
}

/// Chain 15 up to digit 17 of 35 of its exponent.
proof fn chain_15_1()
    ensures
        power_mod(
            0x2d4e43b16f0f94ba261892a4bd0deeaa,
            71107,
            0xc03a94b2d3e64419a05cd8ccbf987069nat,
        ) == 0xb206b51e2015b34afceb681a3961280bnat,
{
    lemma_chain_start(0x2d4e43b16f0f94ba261892a4bd0deeaa, 0xc03a94b2d3e64419a05cd8ccbf987069nat);
    let e: nat = 1;
    let e: nat = square_15(e, 0x2d4e43b16f0f94ba261892a4bd0deeaa);
    let e: nat = square_15(e, 0x52fce475fc29ae8beb65a715740b5ac4nat);
    let e: nat = square_15(e, 0xad8faeefaa736a4eeda7cafc69469dbfnat);
    let e: nat = square_mul_15(e, 0x5126404049a5b2a00d5fd3fa0156b4ffnat);
    let e: nat = square_15(e, 0x177458b7e40623496562c313e16afad5);
    let e: nat = square_mul_15(e, 0x149cae0ac0abce2a1c20afb6a3a15917);
    let e: nat = square_15(e, 0x4d7671f0c5d3b534212db147549fb939nat);
    let e: nat = square_mul_15(e, 0x84ebd6b3fd98e7579ffca8b58ce5d297nat);
    let e: nat = square_mul_15(e, 0x88d5d249137f8f8788ee1c558938375fnat);
    let e: nat = square_mul_15(e, 0x67956486ea945b2cb277b0566f869b9bnat);
    let e: nat = square_15(e, 0xb0a2634f9d8e26261d5526e1d911e879nat);
    let e: nat = square_15(e, 0x4bcaab5f6e2d98b4e05c21db1df9e0ffnat);
    let e: nat = square_15(e, 0xae677d4fc8728fcf3231b8531875b243nat);
    let e: nat = square_15(e, 0x484c4df9cf948d03ad5a8e4919a8404dnat);
    let e: nat = square_mul_15(e, 0x1b34479bed844325069bb8d5f4626373);
    let e: nat = square_mul_15(e, 0xb118cc213ffdd194f1c30e51e21d4e2cnat);
}

/// Chain 15 up to digit 33 of 35 of its exponent.
proof fn chain_15_2()
    ensures
        power_mod(
            0x2d4e43b16f0f94ba261892a4bd0deeaa,
            0x115c3e9f2,
            0xc03a94b2d3e64419a05cd8ccbf987069nat,
        ) == 0x53817d54b4a95637cf3bb2410ca6b94dnat,
{
    chain_15_1();
    let e: nat = 71107;
    let e: nat = square_mul_15(e, 0xb206b51e2015b34afceb681a3961280bnat);
    let e: nat = square_mul_15(e, 0x68cd2544f2d9c397d08af2be1714e8danat);
    let e: nat = square_mul_15(e, 0x6e04df0dd5264b0dc65f1a92b1163256nat);
    let e: nat = square_15(e, 0x8ba58e66c2b497125b9dee1e99aa6085nat);
    let e: nat = square_mul_15(e, 0x5fb93244ff062ab9150ed647d167f2afnat);
    let e: nat = square_15(e, 0xa282111aff8e23264db802930d64f427nat);
    let e: nat = square_15(e, 0x4108ec9548a31deec72bc54d0f97662bnat);
    let e: nat = square_mul_15(e, 0x528c9a5a6680034e4b82c18ebb1a132cnat);
    let e: nat = square_mul_15(e, 0x37d4d5c50e258a775aadeec415de17b8);
    let e: nat = square_mul_15(e, 0x69905b6f8b7c0a517fcd949bda47db1fnat);
    let e: nat = square_mul_15(e, 0xb686150de490817856df312a95272ae0nat);
    let e: nat = square_mul_15(e, 0x82baa7d86090b6e4c105ab16daa176aanat);
    let e: nat = square_15(e, 0xb6ea845f07e69900f93dac98dbdd4ecbnat);
    let e: nat = square_15(e, 0x8566133af328dff9d5420157f440c9e6nat);
    let e: nat = square_mul_15(e, 0x57db758821fb2c760ab978a0617316e1nat);
    let e: nat = square_15(e, 0x60fad80a7edbd50233078a59b5ed0555nat);
}

/// Chain 15 up to digit 35 of 35 of its exponent.
proof fn chain_15_3()
    ensures
        power_mod(
            0x2d4e43b16f0f94ba261892a4bd0deeaa,
            0x4570fa7c8,
            0xc03a94b2d3e64419a05cd8ccbf987069nat,
        ) == 0x3ebe1e0217f4137797f3599e73fa1cf5,
{
    chain_15_2();
    let e: nat = 0x115c3e9f2;
    let e: nat = square_15(e, 0x53817d54b4a95637cf3bb2410ca6b94dnat);
    let e: nat = square_15(e, 0xb5335975d74fabc95e1dbe49ebf60ea6nat);
}

/// A digit zero in chain 16.
proof fn square_16(e: nat, r: nat) -> (e2: nat)
    requires
        power_mod(0x4260a185f8ddb19667cae4ceba6909b, e, 0xc03a94b2d3e64419a05cd8ccbf987069nat) == r,
    ensures
        e2 == 2 * e,
        power_mod(
            0x4260a185f8ddb19667cae4ceba6909b,
            e2,
            0xc03a94b2d3e64419a05cd8ccbf987069nat,
        ) == (r * r) % 0xc03a94b2d3e64419a05cd8ccbf987069nat,
{
    lemma_chain_square(
        0x4260a185f8ddb19667cae4ceba6909b,
        0xc03a94b2d3e64419a05cd8ccbf987069nat,
        e,
        r,
    )
}

/// A digit one in chain 16.
proof fn square_mul_16(e: nat, r: nat) -> (e2: nat)
    requires
        power_mod(0x4260a185f8ddb19667cae4ceba6909b, e, 0xc03a94b2d3e64419a05cd8ccbf987069nat) == r,
    ensures
        e2 == 2 * e + 1,
        power_mod(
            0x4260a185f8ddb19667cae4ceba6909b,
            e2,
            0xc03a94b2d3e64419a05cd8ccbf987069nat,
        ) == (r * r * 0x4260a185f8ddb19667cae4ceba6909b) % 0xc03a94b2d3e64419a05cd8ccbf987069nat,
{
    lemma_chain_square_mul(
        0x4260a185f8ddb19667cae4ceba6909b,
        0xc03a94b2d3e64419a05cd8ccbf987069nat,
        e,
        r,
    )
}

/// Chain 16 up to digit 17 of 23 of its exponent.
proof fn chain_16_1()
    ensures
        power_mod(
            0x4260a185f8ddb19667cae4ceba6909b,
            109619,
            0xc03a94b2d3e64419a05cd8ccbf987069nat,
        ) == 0x39ca6d2fe04e3d980420645e8422814b,
{
    lemma_chain_start(0x4260a185f8ddb19667cae4ceba6909b, 0xc03a94b2d3e64419a05cd8ccbf987069nat);
    let e: nat = 1;
    let e: nat = square_mul_16(e, 0x4260a185f8ddb19667cae4ceba6909b);
    let e: nat = square_16(e, 0x96429931353ed0c76e5628f9db69ab53nat);
    let e: nat = square_mul_16(e, 0x504a8d0a96495b325e73ad8a07f8d7e1nat);
    let e: nat = square_16(e, 0xa6e9fc27f65bc361a52f84ab7fafc152nat);
    let e: nat = square_mul_16(e, 0x5eb6ede226f87f4df3befa7d2fb0c94);
    let e: nat = square_mul_16(e, 0x15b85196d985f19d1256d7f660d34973);
    let e: nat = square_16(e, 0x9a4b334ba787df8b4ed0a6303e691faanat);
    let e: nat = square_16(e, 0x9a0b6ff64b442a425bfc8f4998821129nat);
    let e: nat = square_16(e, 0x39db524736e1e61c3bb6cd75e76fdd0);
    let e: nat = square_16(e, 0x9ca295ba3602c79657f9897a388d3fbfnat);
    let e: nat = square_mul_16(e, 0x9945f7203b0c460ff69a6413bf545922nat);
    let e: nat = square_mul_16(e, 0x8501655d59cf3bb470946f9c4ef9fd0enat);
    let e: nat = square_16(e, 0x3224564477ae08360668e77a21ac4f6e);
    let e: nat = square_16(e, 0xc6814205c61b07b19eaee700c2cde1a);
    let e: nat = square_mul_16(e, 0x6542d01d0da76628cf25662dede82cf);
    let e: nat = square_mul_16(e, 0x1d3c6e0ee5b8f820d9ad0234919043fc);
}

/// Chain 16 up to digit 23 of 23 of its exponent.
proof fn chain_16_2()
    ensures
        power_mod(
            0x4260a185f8ddb19667cae4ceba6909b,
            0x6b0cc8,
            0xc03a94b2d3e64419a05cd8ccbf987069nat,
        ) == 0x1301d3f5f0f0bf0580fe6839201671e7,
{
    chain_16_1();
    let e: nat = 109619;
    let e: nat = square_16(e, 0x39ca6d2fe04e3d980420645e8422814b);
    let e: nat = square_16(e, 0x4ca54d66082793a114ac46487920d5f8nat);
    let e: nat = square_mul_16(e, 0x280d3a2f549d41ad82c69988a917d2ad);
    let e: nat = square_16(e, 0x840503e0c08af0eab6d582a2e8cde258nat);
    let e: nat = square_16(e, 0x1f9927123da3ddd7a6e914f67f2a7db);
    let e: nat = square_16(e, 0x44105dd583829f05b084be7d22fc42a5nat);
}

/// A digit zero in chain 17.
proof fn square_17(e: nat, r: nat) -> (e2: nat)
    requires
        power_mod(
            0x1611b2c3cbae68a255b520e63e6a0b3a,
            e,
            0xc03a94b2d3e64419a05cd8ccbf987069nat,
        ) == r,
    ensures
        e2 == 2 * e,
        power_mod(
            0x1611b2c3cbae68a255b520e63e6a0b3a,
            e2,
            0xc03a94b2d3e64419a05cd8ccbf987069nat,
        ) == (r * r) % 0xc03a94b2d3e64419a05cd8ccbf987069nat,
{
    lemma_chain_square(
        0x1611b2c3cbae68a255b520e63e6a0b3a,
        0xc03a94b2d3e64419a05cd8ccbf987069nat,
        e,
        r,
    )
}

/// A digit one in chain 17.
proof fn square_mul_17(e: nat, r: nat) -> (e2: nat)
    requires
        power_mod(
            0x1611b2c3cbae68a255b520e63e6a0b3a,
            e,
            0xc03a94b2d3e64419a05cd8ccbf987069nat,
        ) == r,
    ensures
        e2 == 2 * e + 1,
        power_mod(
            0x1611b2c3cbae68a255b520e63e6a0b3a,
            e2,
            0xc03a94b2d3e64419a05cd8ccbf987069nat,
        ) == (r * r * 0x1611b2c3cbae68a255b520e63e6a0b3a) % 0xc03a94b2d3e64419a05cd8ccbf987069nat,
{
    lemma_chain_square_mul(
        0x1611b2c3cbae68a255b520e63e6a0b3a,
        0xc03a94b2d3e64419a05cd8ccbf987069nat,
        e,
        r,
    )
}

/// Chain 17.
proof fn chain_17()
    ensures
        power_mod(
            0x1611b2c3cbae68a255b520e63e6a0b3a,
            4312,
            0xc03a94b2d3e64419a05cd8ccbf987069nat,
        ) == 0x3685e7863bd1499e9f23e5e0d8115291,
{
    lemma_chain_start(0x1611b2c3cbae68a255b520e63e6a0b3a, 0xc03a94b2d3e64419a05cd8ccbf987069nat);
    let e: nat = 1;
    let e: nat = square_17(e, 0x1611b2c3cbae68a255b520e63e6a0b3a);
    let e: nat = square_17(e, 0x9ee58f0baa48e256d948b0130b5c8947nat);
    let e: nat = square_17(e, 0x60ac12806cbb5b3f4f85a18ff187b577nat);
    let e: nat = square_17(e, 0xabcbed2cd530b9d323ceb380e5fda2b5nat);
    let e: nat = square_mul_17(e, 0xb9a962dafdd71a8b491a66df1c5bf41dnat);
    let e: nat = square_mul_17(e, 0x1122fd2f0cb04c64a96db2573c02dd5);
    let e: nat = square_17(e, 0x46c00c467ab0809ff254ec2594fb6914nat);
    let e: nat = square_mul_17(e, 0x406db20495656b2545baaa1a5ddc8b6enat);
    let e: nat = square_mul_17(e, 0x703f3b452855fc885f60f8dfdbee7ebanat);
    let e: nat = square_17(e, 0x258b4fb1b5ae307dba34bb933a71a919);
    let e: nat = square_17(e, 0xabe9dba6689774f74309322aad8e6b21nat);
    let e: nat = square_17(e, 0x1e5b341d05eacc3cc9d56af5407edbe9);
}

/// A digit zero in chain 18.
proof fn square_18(e: nat, r: nat) -> (e2: nat)
    requires
        power_mod(
            0x15f368b0f64aa68ac98b24693d9279c1,
            e,
            0xc03a94b2d3e64419a05cd8ccbf987069nat,
        ) == r,
    ensures
        e2 == 2 * e,
        power_mod(
            0x15f368b0f64aa68ac98b24693d9279c1,
            e2,
            0xc03a94b2d3e64419a05cd8ccbf987069nat,
        ) == (r * r) % 0xc03a94b2d3e64419a05cd8ccbf987069nat,
{
    lemma_chain_square(
        0x15f368b0f64aa68ac98b24693d9279c1,
        0xc03a94b2d3e64419a05cd8ccbf987069nat,
        e,
        r,
    )
}

/// A digit one in chain 18.
proof fn square_mul_18(e: nat, r: nat) -> (e2: nat)
    requires
        power_mod(
            0x15f368b0f64aa68ac98b24693d9279c1,
            e,
            0xc03a94b2d3e64419a05cd8ccbf987069nat,
        ) == r,
    ensures
        e2 == 2 * e + 1,
        power_mod(
            0x15f368b0f64aa68ac98b24693d9279c1,
            e2,
            0xc03a94b2d3e64419a05cd8ccbf987069nat,
        ) == (r * r * 0x15f368b0f64aa68ac98b24693d9279c1) % 0xc03a94b2d3e64419a05cd8ccbf987069nat,
{
    lemma_chain_square_mul(
        0x15f368b0f64aa68ac98b24693d9279c1,
        0xc03a94b2d3e64419a05cd8ccbf987069nat,
        e,
        r,
    )
}

/// Chain 18.
proof fn chain_18()
    ensures
        power_mod(
            0x15f368b0f64aa68ac98b24693d9279c1,
            392,
            0xc03a94b2d3e64419a05cd8ccbf987069nat,
        ) == 0xa2e335216d7280e06d3c5a37d6b40576nat,
{
    lemma_chain_start(0x15f368b0f64aa68ac98b24693d9279c1, 0xc03a94b2d3e64419a05cd8ccbf987069nat);
    let e: nat = 1;
    let e: nat = square_mul_18(e, 0x15f368b0f64aa68ac98b24693d9279c1);
    let e: nat = square_18(e, 0x8e9c7fd5993e0b7d628ec3a627aefc8enat);
    let e: nat = square_18(e, 0x4dd2c64ecd24dbbec54089e2755a161anat);
    let e: nat = square_18(e, 0x59d9cf5dc644d1d59b875089b29ea8b1nat);
    let e: nat = square_mul_18(e, 0x523f4d6d32560a916c94d61f021a4a26nat);
    let e: nat = square_18(e, 0x4582924e2cb0241220f88ca4628c6307nat);
    let e: nat = square_18(e, 0x7e2308640cc362d1c72d64c9b375ff7cnat);
    let e: nat = square_18(e, 0x331c33fab85272bba0adf052eeefa43b);
}

/// A digit zero in chain 19.
proof fn square_19(e: nat, r: nat) -> (e2: nat)
    requires
        power_mod(
            0x13248db053c554c210982b5831a3ee8d,
            e,
            0xc03a94b2d3e64419a05cd8ccbf987069nat,
        ) == r,
    ensures
        e2 == 2 * e,
        power_mod(
            0x13248db053c554c210982b5831a3ee8d,
            e2,
            0xc03a94b2d3e64419a05cd8ccbf987069nat,
        ) == (r * r) % 0xc03a94b2d3e64419a05cd8ccbf987069nat,
{
    lemma_chain_square(
        0x13248db053c554c210982b5831a3ee8d,
        0xc03a94b2d3e64419a05cd8ccbf987069nat,
        e,
        r,
    )
}

/// A digit one in chain 19.
proof fn square_mul_19(e: nat, r: nat) -> (e2: nat)
    requires
        power_mod(
            0x13248db053c554c210982b5831a3ee8d,
            e,
            0xc03a94b2d3e64419a05cd8ccbf987069nat,
        ) == r,
    ensures
        e2 == 2 * e + 1,
        power_mod(
            0x13248db053c554c210982b5831a3ee8d,
            e2,
            0xc03a94b2d3e64419a05cd8ccbf987069nat,
        ) == (r * r * 0x13248db053c554c210982b5831a3ee8d) % 0xc03a94b2d3e64419a05cd8ccbf987069nat,
{
    lemma_chain_square_mul(
        0x13248db053c554c210982b5831a3ee8d,
        0xc03a94b2d3e64419a05cd8ccbf987069nat,
        e,
        r,
    )
}

/// Chain 19.
proof fn chain_19()
    ensures
        power_mod(
            0x13248db053c554c210982b5831a3ee8d,
            56,
            0xc03a94b2d3e64419a05cd8ccbf987069nat,
        ) == 0x4c7550c817d9d71dcbd50e729a77772fnat,
{
    lemma_chain_start(0x13248db053c554c210982b5831a3ee8d, 0xc03a94b2d3e64419a05cd8ccbf987069nat);
    let e: nat = 1;
    let e: nat = square_mul_19(e, 0x13248db053c554c210982b5831a3ee8d);
    let e: nat = square_mul_19(e, 0x41b7244b84e32a8b0a400566894cf3e);
    let e: nat = square_19(e, 0xa9e705911289faa6dbdc150487e025b0nat);
    let e: nat = square_19(e, 0x816ed4a01913b522bf21e920d463bf13nat);
    let e: nat = square_19(e, 0x6788bdb8eb271576cb092178f59fa156nat);
}

/// Chain 20.
proof fn chain_20()
    ensures
        power_mod(
            0x5ae44f604572633e04ab65c64dc10cdfnat,
            4,
            0xc03a94b2d3e64419a05cd8ccbf987069nat,
        ) == 0xc03a94b2d3e64419a05cd8ccbf987068nat,
{
    lemma_chain_start(0x5ae44f604572633e04ab65c64dc10cdfnat, 0xc03a94b2d3e64419a05cd8ccbf987069nat);
    let e: nat = 1;
    let e: nat = lemma_chain_square(
        0x5ae44f604572633e04ab65c64dc10cdfnat,
        0xc03a94b2d3e64419a05cd8ccbf987069nat,
        e,
        0x5ae44f604572633e04ab65c64dc10cdfnat,
    );
    let e: nat = lemma_chain_square(
        0x5ae44f604572633e04ab65c64dc10cdfnat,
        0xc03a94b2d3e64419a05cd8ccbf987069nat,
        e,
        0x85f580701c92604304fcca50b1482569nat,
    );
}

/// `3` is a Lucas witness for `0xc03a94b2d3e64419a05cd8ccbf987069`.
pub proof fn lemma_witness()
    ensures
        lucas_witness(0xc03a94b2d3e64419a05cd8ccbf987069nat, 3),
{
    lemma_prime_2();
    lemma_prime_7();
    lemma_prime_11();
    lemma_prime_1627();
    lemma_prime_2657();
    lemma_prime_4423();
    lemma_prime_41201();
    lemma_prime_96557();
    lemma_prime_7240687();
    lemma_prime_107590001();
    // The base raised to n - 1, one prime power of n - 1 after the other.
    chain_1_2();
    chain_2_2();
    lemma_chain_compose(
        3,
        0x669b171,
        0xb9bf99570a4ce01a8d2eb9e293d81090nat,
        0x6e7bef,
        0xc03a94b2d3e64419a05cd8ccbf987069nat,
    );
    chain_3();
    lemma_chain_compose(
        3,
        0x2c485037bf37f,
        0x407311daf1b0ed910304a07a4d385889nat,
        96557,
        0xc03a94b2d3e64419a05cd8ccbf987069nat,
    );
    chain_4();
    lemma_chain_compose(
        3,
        0x413e46d83265fd453,
        0x5dddc688b27b78677a644abe731664c6nat,
        41201,
        0xc03a94b2d3e64419a05cd8ccbf987069nat,
    );
    chain_5();
    lemma_chain_compose(
        3,
        0x290457e7d107304eac223,
        0x2d4e43b16f0f94ba261892a4bd0deeaa,
        4423,
        0xc03a94b2d3e64419a05cd8ccbf987069nat,
    );
    chain_6();
    lemma_chain_compose(
        3,
        0x2c4aa0ac62c73339f4002ab5,
        0x4260a185f8ddb19667cae4ceba6909b,
        2657,
        0xc03a94b2d3e64419a05cd8ccbf987069nat,
    );
    chain_7();
    lemma_chain_compose(
        3,
        0x1cbb28d9d2d357aac7d75bb4095,
        0x1611b2c3cbae68a255b520e63e6a0b3a,
        1627,
        0xc03a94b2d3e64419a05cd8ccbf987069nat,
    );
    chain_8();
    lemma_chain_compose(
        3,
        0xb6997ca05ee52e2a6415b3d1372f7,
        0x15f368b0f64aa68ac98b24693d9279c1,
        11,
        0xc03a94b2d3e64419a05cd8ccbf987069nat,
    );
    chain_9();
    lemma_chain_compose(
        3,
        0x7d8985ae413d8fbd24ceeb9fd5f09d,
        0x13248db053c554c210982b5831a3ee8d,
        49,
        0xc03a94b2d3e64419a05cd8ccbf987069nat,
    );
    chain_10();
    lemma_chain_compose(
        3,
        0x180752965a7cc883340b9b1997f30e0d,
        0x5ae44f604572633e04ab65c64dc10cdfnat,
        8,
        0xc03a94b2d3e64419a05cd8ccbf987069nat,
    );
    // The base raised to (n - 1) / q, for each prime q that divides n - 1.
    chain_11_7();
    chain_12_5();
    lemma_chain_compose(
        3,
        0x669b171,
        0xb9bf99570a4ce01a8d2eb9e293d81090nat,
        0x45749b8adb10410aa398,
        0xc03a94b2d3e64419a05cd8ccbf987069nat,
    );
    chain_13_4();
    lemma_chain_compose(
        3,
        0x2c485037bf37f,
        0x407311daf1b0ed910304a07a4d385889nat,
        0x2f24351615da40f8,
        0xc03a94b2d3e64419a05cd8ccbf987069nat,
    );
    chain_14_3();
    lemma_chain_compose(
        3,
        0x413e46d83265fd453,
        0x5dddc688b27b78677a644abe731664c6nat,
        0x4afc2f7bd078,
        0xc03a94b2d3e64419a05cd8ccbf987069nat,
    );
    chain_15_3();
    lemma_chain_compose(
        3,
        0x290457e7d107304eac223,
        0x2d4e43b16f0f94ba261892a4bd0deeaa,
        0x4570fa7c8,
        0xc03a94b2d3e64419a05cd8ccbf987069nat,
    );
    chain_16_2();
    lemma_chain_compose(
        3,
        0x2c4aa0ac62c73339f4002ab5,
        0x4260a185f8ddb19667cae4ceba6909b,
        0x6b0cc8,
        0xc03a94b2d3e64419a05cd8ccbf987069nat,
    );
    chain_17();
    lemma_chain_compose(
        3,
        0x1cbb28d9d2d357aac7d75bb4095,
        0x1611b2c3cbae68a255b520e63e6a0b3a,
        4312,
        0xc03a94b2d3e64419a05cd8ccbf987069nat,
    );
    chain_18();
    lemma_chain_compose(
        3,
        0xb6997ca05ee52e2a6415b3d1372f7,
        0x15f368b0f64aa68ac98b24693d9279c1,
        392,
        0xc03a94b2d3e64419a05cd8ccbf987069nat,
    );
    chain_19();
    lemma_chain_compose(
        3,
        0x7d8985ae413d8fbd24ceeb9fd5f09d,
        0x13248db053c554c210982b5831a3ee8d,
        56,
        0xc03a94b2d3e64419a05cd8ccbf987069nat,
    );
    chain_20();
    lemma_chain_compose(
        3,
        0x180752965a7cc883340b9b1997f30e0d,
        0x5ae44f604572633e04ab65c64dc10cdfnat,
        4,
        0xc03a94b2d3e64419a05cd8ccbf987069nat,
    );
    // No other prime divides n - 1.
    assert forall|q: nat|
        #[trigger] is_prime(q) && divides(
            q,
            (0xc03a94b2d3e64419a05cd8ccbf987069nat - 1) as nat,
        ) implies power_mod(
        3,
        ((0xc03a94b2d3e64419a05cd8ccbf987069nat - 1) / (q as int)) as nat,
        0xc03a94b2d3e64419a05cd8ccbf987069nat,
    ) != 1 by {
        lemma_prime_factor(q, 0x669b171, 0x1df9bab4430edf45ff20d8c2e8);
        if q != 0x669b171 {
            lemma_prime_factor(q, 0x6e7bef, 0x45749b8adb10410aa398);
            if q != 0x6e7bef {
                lemma_prime_factor(q, 96557, 0x2f24351615da40f8);
                if q != 96557 {
                    lemma_prime_factor(q, 41201, 0x4afc2f7bd078);
                    if q != 41201 {
                        lemma_prime_factor(q, 4423, 0x4570fa7c8);
                        if q != 4423 {
                            lemma_prime_factor(q, 2657, 0x6b0cc8);
                            if q != 2657 {
                                lemma_prime_factor(q, 1627, 4312);
                                if q != 1627 {
                                    lemma_prime_factor(q, 11, 392);
                                    if q != 11 {
                                        lemma_prime_factor(q, 7, 56);
                                        lemma_prime_factor(q, 7, 8);
                                        if q != 7 {
                                            lemma_prime_factor(q, 2, 4);
                                            lemma_prime_factor(q, 2, 2);
                                            lemma_prime_factor(q, 2, 1);
                                            if q != 2 {
                                                lemma_prime_not_unit(q);
                                            }
                                        }
                                    }
                                }
                            }
                        }
                    }
                }
            }
        }
        if q == 0x669b171 {
            assert((0xc03a94b2d3e64419a05cd8ccbf987069nat - 1)
                / 0x669b171int
                == 0x1df9bab4430edf45ff20d8c2e8);
        }
        if q == 0x6e7bef {
            assert((0xc03a94b2d3e64419a05cd8ccbf987069nat - 1)
                / 0x6e7befint
                == 0x1bd689d5519e4f1dc57ba264e18);
        }
        if q == 96557 {
            assert((0xc03a94b2d3e64419a05cd8ccbf987069nat - 1)
                / 96557int
                == 0x8278a144e8c47b49fc2b2219a308);
        }
        if q == 41201 {
            assert((0xc03a94b2d3e64419a05cd8ccbf987069nat - 1)
                / 41201int
                == 0x131c45e23872017d1ec621a4ff6e8);
        }
        if q == 4423 {
            assert((0xc03a94b2d3e64419a05cd8ccbf987069nat - 1)
                / 4423int
                == 0xb2045ba2137858883fc5841198058);
        }
        if q == 2657 {
            assert((0xc03a94b2d3e64419a05cd8ccbf987069nat - 1)
                / 2657int
                == 0x12856741e2e490eb3fb8c87bc8d968);
        }
        if q == 1627 {
            assert((0xc03a94b2d3e64419a05cd8ccbf987069nat - 1)
                / 1627int
                == 0x1e3f07814f717cca4961370a07cdb8);
        }
        if q == 11 {
            assert((0xc03a94b2d3e64419a05cd8ccbf987069nat - 1)
                / 11int
                == 0x1179b06d5914eeeb0e9413b585c80a38);
        }
        if q == 7 {
            assert((0xc03a94b2d3e64419a05cd8ccbf987069nat - 1)
                / 7int
                == 0x1b76153e1e457771600d438af6cca258);
        }
        if q == 2 {
            assert((0xc03a94b2d3e64419a05cd8ccbf987069nat - 1)
                / 2int
                == 0x601d4a5969f3220cd02e6c665fcc3834nat);
        }
    }
}

/// `0xc03a94b2d3e64419a05cd8ccbf987069` is prime.
pub proof fn lemma_prime()
    ensures
        is_prime(0xc03a94b2d3e64419a05cd8ccbf987069nat),
{
    lemma_witness();
    lemma_lucas(0xc03a94b2d3e64419a05cd8ccbf987069nat, 3);
}

} // verus!
