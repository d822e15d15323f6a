//! Certificate of the field modulus `p = 2^256 - 2^32 - 977`.

use crate::primality::chain::{
    lemma_chain_compose, lemma_chain_square, lemma_chain_square_mul, lemma_chain_start,
    lemma_prime_2,
};
use crate::primality::small::{lemma_prime_3, lemma_prime_7, lemma_prime_13441};
use crate::primes::{
    divides, is_prime, lemma_lucas, lemma_prime_factor, lemma_prime_not_unit, lucas_witness,
    power_mod,
};
use vstd::prelude::*;

verus! {

/// A digit zero in chain 1.
proof fn square_1(e: nat, r: nat) -> (e2: nat)
    requires
        power_mod(3, e, 0xfffffffffffffffffffffffffffffffffffffffffffffffffffffffefffffc2fnat) == r,
    ensures
        e2 == 2 * e,
        power_mod(
            3,
            e2,
            0xfffffffffffffffffffffffffffffffffffffffffffffffffffffffefffffc2fnat,
        ) == (r * r) % 0xfffffffffffffffffffffffffffffffffffffffffffffffffffffffefffffc2fnat,
{
    lemma_chain_square(
        3,
        0xfffffffffffffffffffffffffffffffffffffffffffffffffffffffefffffc2fnat,
        e,
        r,
    )
}

/// A digit one in chain 1.
proof fn square_mul_1(e: nat, r: nat) -> (e2: nat)
    requires
        power_mod(3, e, 0xfffffffffffffffffffffffffffffffffffffffffffffffffffffffefffffc2fnat) == r,
    ensures
        e2 == 2 * e + 1,
        power_mod(
            3,
            e2,
            0xfffffffffffffffffffffffffffffffffffffffffffffffffffffffefffffc2fnat,
        ) == (r * r * 3) % 0xfffffffffffffffffffffffffffffffffffffffffffffffffffffffefffffc2fnat,
{
    lemma_chain_square_mul(
        3,
        0xfffffffffffffffffffffffffffffffffffffffffffffffffffffffefffffc2fnat,
        e,
        r,
    )
}

/// Chain 1 up to digit 17 of 237 of its exponent.
proof fn chain_1_1()
    ensures
        power_mod(
            3,
            121730,
            0xfffffffffffffffffffffffffffffffffffffffffffffffffffffffefffffc2fnat,
        ) == 0x456b4f1defa6e2cae401ee9cb583db7e0a9a6c20fd7d5f0265a3b7d83e6e83a9nat,
{
    lemma_chain_start(3, 0xfffffffffffffffffffffffffffffffffffffffffffffffffffffffefffffc2fnat);
    let e: nat = 1;
    let e: nat = square_mul_1(e, 3);
    let e: nat = square_mul_1(e, 27);
    let e: nat = square_1(e, 2187);
    let e: nat = square_mul_1(e, 0x48fb79);
    let e: nat = square_mul_1(e, 0x3e6b41437d93);
    let e: nat = square_1(e, 0x2da861a4efa48d54dba0a73b);
    let e: nat = square_mul_1(e, 0x824a11449f8c987f2daca7934d6edbe43a8ffa868fe0799nat);
    let e: nat = square_mul_1(
        e,
        0x2141ceddaed40e47a82b634532643302af52655a4b704772ad238a70bf4e14d0nat,
    );
    let e: nat = square_mul_1(
        e,
        0x7c4a2673e5ed06a0b8cb6aec37af2a7efe4842e424b63609d57b0c7ed265df66nat,
    );
    let e: nat = square_1(e, 0xda0cbb8458d58dd274be67f6a834bd9d0feb30bfc9c0690481b81de5c7fa50canat);
    let e: nat = square_1(e, 0x15608bf69ff513c7258421f0e4870599161807028788ac91b106a863fa34d2fdnat);
    let e: nat = square_1(e, 0xecd34a60ae38643c9794cbd73135f687daff6fa03763666ed50806d494a92257nat);
    let e: nat = square_1(e, 0x7e1c330d168d273075aa2190f996b87155e96b4a8dda45b8e3b81caf04f43ecenat);
    let e: nat = square_1(e, 0x687eae2776f3590902c0acd7ae60e047bc304ced986b1c007b01192f43beca11nat);
    let e: nat = square_mul_1(
        e,
        0x569d7bf3ccc2d04c6ef87f337e9ddbbcb191fff88b670f9419e3b9395c253b96nat,
    );
    let e: nat = square_1(e, 0x15e202816c599bdbcc7bc3a908443a062d6975f9cbffb918863fd281634e9ae2nat);
}

/// Chain 1 up to digit 33 of 237 of its exponent.
proof fn chain_1_2()
    ensures
        power_mod(
            3,
            0x1db8260e5,
            0xfffffffffffffffffffffffffffffffffffffffffffffffffffffffefffffc2fnat,
        ) == 0x43b6845299df4109f0f81f06071b9f80400c20d8551c3831c668a692f49dc6bdnat,
{
    chain_1_1();
    let e: nat = 121730;
    let e: nat = square_1(e, 0x456b4f1defa6e2cae401ee9cb583db7e0a9a6c20fd7d5f0265a3b7d83e6e83a9nat);
    let e: nat = square_mul_1(
        e,
        0x67be5a0ec43b767d7c8c2786d83feb23f37884242eb87dda8e36c4a42c1b9b26nat,
    );
    let e: nat = square_mul_1(
        e,
        0xf0fcbbdf8ed9d2f90742cb44f4fca2927276009f8601fc8ce9f751e8bb164642nat,
    );
    let e: nat = square_1(e, 0xa18506973462b0603497e7ceef5b40b6a00a656cd5c6b42bea3a86c3a656f2a2nat);
    let e: nat = square_1(e, 0x72a8633b342f74ec22e36de9b02103242b728f0e5df213bed504b14579a03995nat);
    let e: nat = square_1(e, 0x1f255c0960397a4bc51679102c224b58902dfba34ffeef9825751ccd6a067e81nat);
    let e: nat = square_1(e, 0x8e5057977daaf681b88839f726544265e8c0fa248c698d209e92756bb0932d01nat);
    let e: nat = square_1(e, 0x9dd9949cd956eb1c25e1fe04c51e177eb6a0835de91dea5618b7de788eba2d98nat);
    let e: nat = square_mul_1(
        e,
        0xceae9dad16e7dba59e5b3d4b39710108a8454dd2de908bedb9e003009604c7c4nat,
    );
    let e: nat = square_mul_1(
        e,
        0x4f9c4097f5efd832257483650c43a8201461dbeb4a919a787462c71a96eff49dnat,
    );
    let e: nat = square_mul_1(
        e,
        0xe861d01d4d41bbdde015aba6b522c2aebfdf301faae3b8f60bff69c537e48559nat,
    );
    let e: nat = square_1(e, 0x4e02b53d5929a019932e75f4f1f81f28f7c950150242b941be7c5fb573687de7nat);
    let e: nat = square_1(e, 0xa4ab6895ec8204682e590e28344ebdd9951a36ce3812a8ff5ff98ad7ae674accnat);
    let e: nat = square_mul_1(
        e,
        0xc03a7aa35cc2c9df7697a739f4b6f5e3cf90f9da4861fc0d255bd419dd7b062anat,
    );
    let e: nat = square_1(e, 0xe4ecf5ad3f3ab6ec4c91c7bb03c6d1c000d99436a598bc483c982b725c55e254nat);
    let e: nat = square_mul_1(
        e,
        0x9237a7a16f144281bd51183f0cb6a82b1e1c05e7c2fc374b8fbdfa0c5e09b332nat,
    );
}

/// Chain 1 up to digit 49 of 237 of its exponent.
proof fn chain_1_3()
    ensures
        power_mod(
            3,
            0x1db8260e5e3b4,
            0xfffffffffffffffffffffffffffffffffffffffffffffffffffffffefffffc2fnat,
        ) == 0x8d08cc573c73ea80019e5816a748c4a4b279ec17fe27e1f7e5f1b0fc404acdf2nat,
{
    chain_1_2();
    let e: nat = 0x1db8260e5;
    let e: nat = square_mul_1(
        e,
        0x43b6845299df4109f0f81f06071b9f80400c20d8551c3831c668a692f49dc6bdnat,
    );
    let e: nat = square_mul_1(
        e,
        0x89958931bc463428f0c3e1efe8e51057e0e5c9d0220db76b799d89df3a47c66dnat,
    );
    let e: nat = square_mul_1(
        e,
        0x4514c1279294eb6645e8daaa7e2874f0ac82b28565291010ea46dc7bf86677d5nat,
    );
    let e: nat = square_1(e, 0x2fb0907f78a59778768cab5e6485f6018cd07dfaa7ca04d237bd953e9883f205nat);
    let e: nat = square_1(e, 0xf30ba8399c6ce713f7463a52d63609e3aa1a65d3427b6ed42bd79fe36a393d2nat);
    let e: nat = square_1(e, 0x7b37715a98f3de6959af4fa00369e3636223f4cce99ffbd9f0cfa96f4828b49nat);
    let e: nat = square_mul_1(
        e,
        0xac8309b626d8e6eb120dbf82f86c73e20ea634409b9a5d158436c5734ba97cfbnat,
    );
    let e: nat = square_mul_1(
        e,
        0xd9d1c976628eba153c7cfde61306337f835cad06b8451d40f31bd4ad1842c07cnat,
    );
    let e: nat = square_mul_1(
        e,
        0x98b48e6dbdfc40f4614148fe87e03d549bf05f708e8b37d2b7c7b3e9114dd7e7nat,
    );
    let e: nat = square_1(e, 0xda45f1f786cccb95637672a9a65b3e8e627afe69283af913b4fd1f0403f17a0dnat);
    let e: nat = square_mul_1(
        e,
        0xd3031d1c7318b48d3cce8b068c4069063e3324f946ef78169bc311ea46688f4bnat,
    );
    let e: nat = square_mul_1(
        e,
        0x82e85a32002fd19847420b65f7c4def50a7bbee2d6810501eef44c71c0516d59nat,
    );
    let e: nat = square_1(e, 0xbf209e6786c58bdc4145954bade8931841b79ab0e5aa1b2a386f2a17da88a006nat);
    let e: nat = square_mul_1(
        e,
        0x590fee583e54a5543392cbad4b75d7c7c8e0697b7e24704ecfc85b84248e7e1dnat,
    );
    let e: nat = square_1(e, 0x9dada460d63d960ec940fb265b4c20f0afc8d64a2187d2776f6bd449da952deanat);
    let e: nat = square_1(e, 0xa0fe670b5f9c2cd9570ddb8dbf2c02969fea03f9ee2567e4426c7e731ce8d1a1nat);
}

/// Chain 1 up to digit 65 of 237 of its exponent.
proof fn chain_1_4()
    ensures
        power_mod(
            3,
            0x1db8260e5e3b460a4,
            0xfffffffffffffffffffffffffffffffffffffffffffffffffffffffefffffc2fnat,
        ) == 0xd884d1e970b9bf25a06c7a15e3125318ac15262566a67faf792a895ecf40d215nat,
{
    chain_1_3();
    let e: nat = 0x1db8260e5e3b4;
    let e: nat = square_1(e, 0x8d08cc573c73ea80019e5816a748c4a4b279ec17fe27e1f7e5f1b0fc404acdf2nat);
    let e: nat = square_mul_1(
        e,
        0x5d9341ffb72df52670b73fca714d7479dcffc775303ca16499d7d3f165eff88bnat,
    );
    let e: nat = square_mul_1(
        e,
        0xd31adc2bf82e4e91602359a59c1161e78d0df31edf5512c69d01d5366e8f31f9nat,
    );
    let e: nat = square_1(e, 0x3195d1716eb14a219e1e066615f53f4dc5c736605fb9c51ce85d419f7ef65a37nat);
    let e: nat = square_1(e, 0xf80bcdec5e8f9f9b80eaa29d7d7245085f85475ca4c67865d679df786913bf53nat);
    let e: nat = square_1(e, 0x91db4ce5529870597bfb14d907e720fd77fae4405224d89d9d8402fb5d498592nat);
    let e: nat = square_1(e, 0x6fab2ace954e8993c6416e75ce09b38f4ce6b7f1a75d27debb0a38e00c56bc15nat);
    let e: nat = square_1(e, 0x93e4a12b1c0bd6e75b80acb1b00bd1dd77ea2f40ff76f1ae87e1e361910830cenat);
    let e: nat = square_mul_1(
        e,
        0x482bfeff157e4d32065f4b09c871749228135a8447f5c3db2aae4666728dd6a0nat,
    );
    let e: nat = square_1(e, 0x4383a269ac8dcfbe51233663447f849605c26f363f34e0bdf134c078edd4442cnat);
    let e: nat = square_mul_1(
        e,
        0x917b53f0a1786ec58c819068126617f267f05f8b9153f8f1bc5be6c3fbf51f32nat,
    );
    let e: nat = square_1(e, 0x2e1eca3733c28db99916d183e2a7d7a8844562a21cfb7d4de8eae46f42a1ca63nat);
    let e: nat = square_1(e, 0xc508d357ef15ce0ef5d06c94999708be135f5b68127030307eea3bae8f90acddnat);
    let e: nat = square_mul_1(
        e,
        0xa1cee73efd29bef0ffc66204a631377d1e286da152016598f9b06783c8af8486nat,
    );
    let e: nat = square_1(e, 0x9427482efc7469bae46f7f56510cf5e1a9d035c2e43ff8e637514125837d98bdnat);
    let e: nat = square_1(e, 0x19f1841d10573fa304666405566197e5d316dec5bb8dcd2e8aaea369e8773e58nat);
}

/// Chain 1 up to digit 81 of 237 of its exponent.
proof fn chain_1_5()
    ensures
        power_mod(
            3,
            0x1db8260e5e3b460a46a00,
            0xfffffffffffffffffffffffffffffffffffffffffffffffffffffffefffffc2fnat,
        ) == 0x7cfed833e0eba902d0759b4ff99e92305291fb72466e571b4bca425cad5c7bc2nat,
{
    chain_1_4();
    let e: nat = 0x1db8260e5e3b460a4;
    let e: nat = square_1(e, 0xd884d1e970b9bf25a06c7a15e3125318ac15262566a67faf792a895ecf40d215nat);
    let e: nat = square_mul_1(
        e,
        0xe247989d7e3758fe74499876bfe6cd8358ccf72539f8df3378c42625ef316c9anat,
    );
    let e: nat = square_mul_1(
        e,
        0x9f57b404e9d33732bab6b8253a47b73becd80d8975b9ec9d53324966db55f1anat,
    );
    let e: nat = square_1(e, 0x86a5881c67c794572f1e1e497527ee52279812af3dc14ea7039f190d734dcb6enat);
    let e: nat = square_mul_1(
        e,
        0x8500c5dc11e62ec361c3d127c5766601144160a2507c6037b3e1ac046e5ba822nat,
    );
    let e: nat = square_1(e, 0x4b01f4c8a589f0047ba13bec165bf422481b2d2a39eaa63a1241d9ccf44e77c1nat);
    let e: nat = square_mul_1(
        e,
        0x2ed7a5975332d0e0459dbbdb6cbdba6f6f26320adbe66dd746f29ddd00f45959nat,
    );
    let e: nat = square_1(e, 0xf6890983e89be0d2b539eaeedee6bdb9f92654cc1fd8c1f5fbe1633001f5588enat);
    let e: nat = square_1(e, 0x413a390530a5b3a39c1abac71a4c8e84bc733944c483ea98448785b5462ce421nat);
    let e: nat = square_1(e, 0xd37403e8c828180246f129291a6cbde77e9e7fa559703952cd1c7abaad54198nat);
    let e: nat = square_1(e, 0xeb88af427759c7dfe4b0c6ef0d9091d1b4f31ae9be7a540a693e3c35d58bdcaanat);
    let e: nat = square_1(e, 0x1cfe1cde0a8f8bc106a9bec3b1952e7345206e9d58dcb0733146e89a346819dnat);
    let e: nat = square_1(e, 0xc811757528079001cc3521d669dd595f24ff4dfb6380a8b85902dc12b031724nat);
    let e: nat = square_1(e, 0xbdd7b28b216515dd52e34614de1e88dfab76c2f78c93acbc2505737e8c853c04nat);
    let e: nat = square_1(e, 0x3e87f9302e7b3c1382ad22e7159134d245a59530374b2995221f941bc03bc056nat);
    let e: nat = square_1(e, 0x5387d8ffe0ef0ee52b577f17f853f39f938bcb3776261b6fa5ae5ad73326fc2dnat);
}

/// Chain 1 up to digit 97 of 237 of its exponent.
proof fn chain_1_6()
    ensures
        power_mod(
            3,
            0x1db8260e5e3b460a46a0088fc,
            0xfffffffffffffffffffffffffffffffffffffffffffffffffffffffefffffc2fnat,
        ) == 0x8339705a535260d20facf25eb1807ba48a419a91f62372062635b1c704bbbbe8nat,
{
    chain_1_5();
    let e: nat = 0x1db8260e5e3b460a46a00;
    let e: nat = square_mul_1(
        e,
        0x7cfed833e0eba902d0759b4ff99e92305291fb72466e571b4bca425cad5c7bc2nat,
    );
    let e: nat = square_1(e, 0x702588fd2baa4fa52fc713561d6895d439300916b3dec60e1fea790d886ea2a5nat);
    let e: nat = square_1(e, 0xe9ef67794a0cbe8e9b785cd51957ca54253ba6fd201a3596e051db4fd43a2fdanat);
    let e: nat = square_1(e, 0x6b2a4db982dac7276111bfb34fec411df926382f8e5551983c6124c88d63ca34nat);
    let e: nat = square_mul_1(
        e,
        0x24135eb3036e2d0bdb7c06c6618b71987b879c6ef0f4d799db8de449f1cbd6bdnat,
    );
    let e: nat = square_1(e, 0x23d680e3b046977a7f336150a0b3683d85024b8165b0564e0ef07072bcab46bdnat);
    let e: nat = square_1(e, 0xfafe1914db4b50aeb5b4e0bd7604a1ebae8dc2ebdc96085943e35c9030e2daf3nat);
    let e: nat = square_1(e, 0x7a516fd09ba5cc7a636d830ff97c2d8cf8fcfea4bd908946fb6a137b3b05001nat);
    let e: nat = square_mul_1(
        e,
        0xddb3127bb3ad1d7e0b11e0fc10c0ec55391488cbda412f78d9678eabdc0dbec1nat,
    );
    let e: nat = square_mul_1(
        e,
        0x585dd6b091501ca195daff4e91d9c588cb9f6c5392645f9ce2b7de545c170efanat,
    );
    let e: nat = square_mul_1(
        e,
        0xe2a8f21729e782179d5c4f3824a94808ded3147f53f75280d242f10d081f5a73nat,
    );
    let e: nat = square_mul_1(
        e,
        0x962a82da937084de64db61136cf38f785c902b43b64f6a50a8c7c975186d8c02nat,
    );
    let e: nat = square_mul_1(
        e,
        0xb1820c2243723fdbbbc136b2ba6e86bfdc13fe8883b8982b0dbcdfa20050a5banat,
    );
    let e: nat = square_mul_1(
        e,
        0xd34976058a41b6d81155292be698ef316835c33c9be640f53ba1187ae96ca5e1nat,
    );
    let e: nat = square_1(e, 0xd0e1d7c3194ef5a070efec585aefe35a6fb7bf7b6dfc3c3f11fa4eb401c64e92nat);
    let e: nat = square_1(e, 0x9a193b0a00aaed9162730ad7c5f1f269fdf5203c3c6b6e6f3e98fd90362c1679nat);
}

/// Chain 1 up to digit 113 of 237 of its exponent.
proof fn chain_1_7()
    ensures
        power_mod(
            3,
            0x1db8260e5e3b460a46a0088fccf6a,
            0xfffffffffffffffffffffffffffffffffffffffffffffffffffffffefffffc2fnat,
        ) == 0x300605f29eb2c970b7d0390096b14637b7535760609cc1b447faeb8b9ade6e8cnat,
{
    chain_1_6();
    let e: nat = 0x1db8260e5e3b460a46a0088fc;
    let e: nat = square_mul_1(
        e,
        0x8339705a535260d20facf25eb1807ba48a419a91f62372062635b1c704bbbbe8nat,
    );
    let e: nat = square_mul_1(
        e,
        0xbd079af040be3f7a8aa1fc791f947aefe8d30b2b2548d359b9c5b366238646f6nat,
    );
    let e: nat = square_1(e, 0xa81cabf6663b81004adf0931ea551b11be0b48cfe470aa74c2c802ce8ceb500dnat);
    let e: nat = square_1(e, 0x6e9e299c2a3cafb8d202025cbaa4276617ecbeedf8fb610bbd02a0581a07b68cnat);
    let e: nat = square_mul_1(
        e,
        0x824ae67942f0cbdd76e2de921a5a72ae9b3c466fb38638381fd10cfd82667958nat,
    );
    let e: nat = square_mul_1(
        e,
        0xd4a74f12b428ec1ff88ea7fc083f9b9d8db3464eedc36bb9b1c29a0766f8e0c1nat,
    );
    let e: nat = square_mul_1(
        e,
        0x8cbf2b93831d063dbc2c401cf3d4041000c6052caed938038f908e163c60dc29nat,
    );
    let e: nat = square_mul_1(
        e,
        0x5f84ac458088484bdb63194e3f24a3ef42a9001f0bb8a662ac4275fc0ee8a898nat,
    );
    let e: nat = square_1(e, 0xb3c500634eaec2783ea9911639ce81620d6d881d52b0743c396dfccfc7239846nat);
    let e: nat = square_mul_1(
        e,
        0xde7043dd196a250541ba25bfc1a9d1f8759e22ea788b8af09ff71e35a87a9b02nat,
    );
    let e: nat = square_mul_1(
        e,
        0x646a5c31ff78c032c7f6d4415768754540bb41abb19100c833dd2b21aa763aecnat,
    );
    let e: nat = square_1(e, 0x218cc8d09564c719530b2e4f9df2eb78b19c9eea393aa3d6b8390fd2ccde137bnat);
    let e: nat = square_mul_1(
        e,
        0x287f088a6516195c7c9800cf250c9b04db8be6aeb3176e41000849dee7258fd3nat,
    );
    let e: nat = square_1(e, 0xb72d919e2574d17df7b9e12123d7eb7128fd539537fc32f61a3807b14ecc2d35nat);
    let e: nat = square_mul_1(
        e,
        0x2f7958acab465b0b9004924dc71f31070e7ad419d385fd37543e16b8b0ceeca7nat,
    );
    let e: nat = square_1(e, 0xcdc9e5d6f279a9d1a7d50dbe03c686eb95efbfe3469fae88cbf88efb6d5f9682nat);
}

/// Chain 1 up to digit 129 of 237 of its exponent.
proof fn chain_1_8()
    ensures
        power_mod(
            3,
            0x1db8260e5e3b460a46a0088fccf6a3a59nat,
            0xfffffffffffffffffffffffffffffffffffffffffffffffffffffffefffffc2fnat,
        ) == 0x80394fabf91845f41847d17105aedc9caf3cf7353236ec4e16dc53d2faa65b05nat,
{
    chain_1_7();
    let e: nat = 0x1db8260e5e3b460a46a0088fccf6a;
    let e: nat = square_1(e, 0x300605f29eb2c970b7d0390096b14637b7535760609cc1b447faeb8b9ade6e8cnat);
    let e: nat = square_1(e, 0xa64aae0b434b2ff891e2c4183703e5ba38ecdcbce88fe9b69c98eeea535a3dadnat);
    let e: nat = square_mul_1(
        e,
        0x5a50eb6622cb1fa42902bcd14571af7e882bcd1e89c8b8ac278baab4c5db7c8fnat,
    );
    let e: nat = square_mul_1(
        e,
        0xabaaf0c523612e8fbd4e1eeeabd77e6ea2f343aab495668269034bf25d0339c4nat,
    );
    let e: nat = square_mul_1(
        e,
        0x9f0c269c99c0fb83fcdba0f280b7d86a16ab2496a512625a867259ce13a63b3cnat,
    );
    let e: nat = square_1(e, 0xe73d9ae51adb389bff8bf4edb0272eb2cca743aa922917eead58d15392cc7dd8nat);
    let e: nat = square_mul_1(
        e,
        0x12fae8f9a0d3408578b28a02ddbad62eeb1aaa4571bd8ddb5722cef5c536b9c1nat,
    );
    let e: nat = square_1(e, 0x1d7e106e77e736a197353cf6d1d0a9d977f6c10bf67fbf4553cef149a9867cfenat);
    let e: nat = square_1(e, 0x227203f583570fa2418a6e376678aa65825b3e519557ae5789c49f950e26ba4cnat);
    let e: nat = square_mul_1(
        e,
        0x9fb62495d3416299de3f2953f84c07e775f4c96c155e17a6cf44ac0962bec773nat,
    );
    let e: nat = square_1(e, 0x25b41266a97596deae399e0b00c28f7ec42b02f9fe169ae451b96fc396795535nat);
    let e: nat = square_mul_1(
        e,
        0xa5e715379320cdb48c3b97482df350c9368740540abdb0669573c56ce2d925b0nat,
    );
    let e: nat = square_mul_1(
        e,
        0x4ab6e0459bd11f9f494096fb2c8893b7aefca3e07049049a5b9192cf55dbbb52nat,
    );
    let e: nat = square_1(e, 0xd23c15ee09f38eb78603c6dd462ffcffb91675f499a02eb8dd1d3ba22b3f814bnat);
    let e: nat = square_1(e, 0x944c9e8fec08afa1f97c34a9bc7b84db1b18a14a512820d564bcdfd110d4bb65nat);
    let e: nat = square_mul_1(
        e,
        0xed28ac46b41189613eaf759b88442168f8e86aff078d02dc75cc9d49f6b3ea82nat,
    );
}

/// Chain 1 up to digit 145 of 237 of its exponent.
proof fn chain_1_9()
    ensures
        power_mod(
            3,
            0x1db8260e5e3b460a46a0088fccf6a3a5936d7nat,
            0xfffffffffffffffffffffffffffffffffffffffffffffffffffffffefffffc2fnat,
        ) == 0xec7cc2d1c891199a71827c0a299be00d525e0ee705d01a397b8cdff6b530db96nat,
{
    chain_1_8();
    let e: nat = 0x1db8260e5e3b460a46a0088fccf6a3a59nat;
    let e: nat = square_1(e, 0x80394fabf91845f41847d17105aedc9caf3cf7353236ec4e16dc53d2faa65b05nat);
    let e: nat = square_1(e, 0xdfb74492b8e51dd0b81b6ccfc3914518b28f835333c823de72b622007631198cnat);
    let e: nat = square_mul_1(
        e,
        0x221268f42e20428d9953bd44eed640cdd5562baa094def2a2715c14555049528nat,
    );
    let e: nat = square_mul_1(
        e,
        0x44c41bf2584127a1b277fb24346076be429322ef135e5d2afc1f04eca26ee42bnat,
    );
    let e: nat = square_1(e, 0xc875168cc4bf73783ce68672a6ace2ccf41e3da2f7426f4c84ad264935e007d8nat);
    let e: nat = square_mul_1(
        e,
        0xe73ca9ab1fe8d3bce83fe7e7c8721d91ddf34eac930ddfe0693250fa3946df5nat,
    );
    let e: nat = square_mul_1(
        e,
        0x51d4a2d5641208f454ed3f30fb0f5fe8030c7172f1ae31f62311a66055eeea65nat,
    );
    let e: nat = square_1(e, 0xcd099963299166a48b5241281fe8151e7452098d6cc4886eeda98b8fe02c5f4fnat);
    let e: nat = square_mul_1(
        e,
        0x47cda73a80a1c04610badf85e8f13973317372358748dd091a49d8993b0af3c4nat,
    );
    let e: nat = square_mul_1(
        e,
        0xf5fe7296b95a2e5c141b7ccffc48fa2055a2ff753d2b2a1d4c8ce8e3885880b4nat,
    );
    let e: nat = square_1(e, 0xbd4056bad7b6f1a7bac1ef93a20d96fa43421af681379265a814e93dcb4d3af2nat);
    let e: nat = square_mul_1(
        e,
        0xc23a1e11346e202f744bb61e5ec3d8a79e685baf6a475df0a121998b15d64f3dnat,
    );
    let e: nat = square_1(e, 0x481f6c0f11511ddde4602577ca73e559c38e72640ec63c9a2d534640de741526nat);
    let e: nat = square_mul_1(
        e,
        0x462e9b9745f300ea898931143e8a00fed701c01f5ad983c00229f32efb015824nat,
    );
    let e: nat = square_mul_1(
        e,
        0x76938b07a596603ad15185a1f3bc5ce7553f6e4dc9d2ba0147ed061911c72dd4nat,
    );
    let e: nat = square_mul_1(
        e,
        0xde5e9d2a6a0032fde4f20c380d7024ddbfeedd75093b527841f8fe95e802ccb0nat,
    );
}

/// Chain 1 up to digit 161 of 237 of its exponent.
proof fn chain_1_10()
    ensures
        power_mod(
            3,
            0x1db8260e5e3b460a46a0088fccf6a3a5936d75d89nat,
            0xfffffffffffffffffffffffffffffffffffffffffffffffffffffffefffffc2fnat,
        ) == 0x6793781a32a2ea21f41e8a8673b3fe2f0083ac5128ad85f0060c8e2e767486dfnat,
{
    chain_1_9();
    let e: nat = 0x1db8260e5e3b460a46a0088fccf6a3a5936d7nat;
    let e: nat = square_1(e, 0xec7cc2d1c891199a71827c0a299be00d525e0ee705d01a397b8cdff6b530db96nat);
    let e: nat = square_mul_1(
        e,
        0xed3690bcffcfb16dd54f5a212631f840e38707f0f6391ae5263923689ee1d3fbnat,
    );
    let e: nat = square_1(e, 0xf9a04aeb1ef87af66f19d92d03d1d73f8e5fbc2335deed191f519c4d33ec423anat);
    let e: nat = square_mul_1(
        e,
        0xac2d860f0a6338e651cc707193a4bdfc61f9f6f1672b00e8e2ddd0c815097a7dnat,
    );
    let e: nat = square_mul_1(
        e,
        0x3816402f66de4b636acda3c1a6330f1f6929c5241ffc07e1d3ccd8d926d15e32nat,
    );
    let e: nat = square_mul_1(
        e,
        0x5b243070d700eb1590de1b58ad14a2f99eb6ff1ce535c812ec0268c16d345ff7nat,
    );
    let e: nat = square_1(e, 0x3e92a44b365b70c3228c02ad7de5d663316ff13b8383e05e24207f6b0bc6e3f5nat);
    let e: nat = square_mul_1(
        e,
        0x96efd75a0d87d7370a8dc43621f59be237bceca062be61193393da44a7b51445nat,
    );
    let e: nat = square_mul_1(
        e,
        0x22bf56fc56e863e470678fdd0a9e9723ec3cbe162d4fb553039746bb64dbe7a6nat,
    );
    let e: nat = square_1(e, 0x786f985910ffce12d449cc38a8b30350b4de5708b6bc648b8d0a64d9eb34b1c5nat);
    let e: nat = square_1(e, 0x74a2b9a9e19a64e6310d6638e8bb3312b2795f81d6e98803e878e29c87611332nat);
    let e: nat = square_1(e, 0x1c79a96cf6db032f836d238caea6dda7a30d07049ab21fa936e9dff9613d1233nat);
    let e: nat = square_mul_1(
        e,
        0xb9135ff3347f6267627d0cdc1db95bfce2828e903b0c0715a5fbe110a837e1e3nat,
    );
    let e: nat = square_1(e, 0x7e8063b2743166a22c3bf93cb24a04542e5aaf4eac8ee869c814a98ba753f2dbnat);
    let e: nat = square_1(e, 0xb59e794f26c60dbf680cb6fad57684f6e3a55d275f23a4818be82d532062436cnat);
    let e: nat = square_mul_1(
        e,
        0xfd32b476b37aa5cb497505b19130598cb81d9e80274fe50b79afdb17cf4efa6anat,
    );
}

/// Chain 1 up to digit 177 of 237 of its exponent.
proof fn chain_1_11()
    ensures
        power_mod(
            3,
            0x1db8260e5e3b460a46a0088fccf6a3a5936d75d89a776nat,
            0xfffffffffffffffffffffffffffffffffffffffffffffffffffffffefffffc2fnat,
        ) == 0xbbdbf3167338de6c161a83edd67df6d59843efa1f8208588d302fad735430794nat,
{
    chain_1_10();
    let e: nat = 0x1db8260e5e3b460a46a0088fccf6a3a5936d75d89nat;
    let e: nat = square_mul_1(
        e,
        0x6793781a32a2ea21f41e8a8673b3fe2f0083ac5128ad85f0060c8e2e767486dfnat,
    );
    let e: nat = square_1(e, 0x26a06fe6d6884d60fbf6084ab8ad8641a30e0a0ed856c0b094d27d98b703bc29nat);
    let e: nat = square_mul_1(
        e,
        0x3c10e5bd5b96e3c53affc2bf7a76da29b60bdbe1985ab007257424e4ad2f100dnat,
    );
    let e: nat = square_1(e, 0xe0563a7970f97ca0d133e23223e8ed9d7086a426e0d17095ba720c001643e844nat);
    let e: nat = square_1(e, 0x931cd82c33405d1d9c4f2bdc339ee0e5e0ebf04b5a2dc4b0e649974902d72e55nat);
    let e: nat = square_mul_1(
        e,
        0xaf017bb5a0e5233a62b24d43945f290423c0f1ae6120635d2436c522ad9d6d0bnat,
    );
    let e: nat = square_mul_1(
        e,
        0xd5442f5b9a83cd59c65632bf71819195a1acf516f9925eb5734bc20e75e94a3bnat,
    );
    let e: nat = square_mul_1(
        e,
        0xf7921b63a3cc1a223fcae2ad186554005f4a64b57e9aea8dbdf3824cbcfae78dnat,
    );
    let e: nat = square_1(e, 0x8e33c8f49107aab145940531b45d17c8673904e69750b17018e375afaf1f2c7bnat);
    let e: nat = square_mul_1(
        e,
        0x530807157fcf7ef8cd69a79d696ff61af5df3feb77cb4425bf8d5d7745d368benat,
    );
    let e: nat = square_mul_1(
        e,
        0x23ee3f90f243e8775fd8281721293ad36fa10a12a1a124d12849562164b033f0nat,
    );
    let e: nat = square_mul_1(
        e,
        0xad300c7af98c435d75e04ac4996e954751431c96966cd34a9979a8ab6a94ba44nat,
    );
    let e: nat = square_1(e, 0x8db076daf404e2d64f836046215c9a7aa19a6c5b3b5df92d46f3ff1752f7472bnat);
    let e: nat = square_mul_1(
        e,
        0xfe9fb46687e2a5ad7e96ea9dc9de261911ddbf5c21296852df848cd58effe9banat,
    );
    let e: nat = square_mul_1(
        e,
        0x5968d6b163a3aecbcd86abcf0817b9e031bc831d7d685cc66d95594d43f6d54enat,
    );
    let e: nat = square_1(e, 0xb6312766be90c1f4300d13de5fa3600b549c758f5b617a3a17df21dd1e6b668anat);
}

/// Chain 1 up to digit 193 of 237 of its exponent.
proof fn chain_1_12()
    ensures
        power_mod(
            3,
            0x1db8260e5e3b460a46a0088fccf6a3a5936d75d89a776d4c0nat,
            0xfffffffffffffffffffffffffffffffffffffffffffffffffffffffefffffc2fnat,
        ) == 0xb77c439299b9e11b330f58e299f6709cc44cc8faacc78fe377010c3e436d4373nat,
{
    chain_1_11();
    let e: nat = 0x1db8260e5e3b460a46a0088fccf6a3a5936d75d89a776nat;
    let e: nat = square_mul_1(
        e,
        0xbbdbf3167338de6c161a83edd67df6d59843efa1f8208588d302fad735430794nat,
    );
    let e: nat = square_mul_1(
        e,
        0x345260088f8950c797665d49e8dceff15c7071aa42fca444fa299ccc65168a52nat,
    );
    let e: nat = square_1(e, 0xfd61597fcd3caa03206de8606cbc55675e0816bb4a30973b78f2b384afdbf671nat);
    let e: nat = square_mul_1(
        e,
        0xf97d80594bca8c4b86e2cb441712cdd979abebb010916d70d7b9b023130c69adnat,
    );
    let e: nat = square_1(e, 0x3cc37b76bf1dd174dbf1179e4281909f5e662564e866b593fe43d3bc2f6f6a6bnat);
    let e: nat = square_mul_1(
        e,
        0x7dfdd1a7f3b575b4cf99805dcf596d77ae874d7bbb2a01a497e21845676ab43fnat,
    );
    let e: nat = square_1(e, 0x28266873f7c89f3ef227ea2d22e59973165384da8ff9ece5f6309fdefbcb2cd6nat);
    let e: nat = square_1(e, 0xc512dd78f1cda690ec3605cc1977f56075f3083dbfaaf7d5e5d430ed556116f7nat);
    let e: nat = square_mul_1(
        e,
        0xb04f92b16c760bfbcdb3f5913e4fa303f8effd1184e49084e03dea3419c36b16nat,
    );
    let e: nat = square_mul_1(
        e,
        0x13923a826b5d454ed82a5bcc38377b971dd680fdb6f5d270a967cd20129cf026nat,
    );
    let e: nat = square_1(e, 0x45a86202478c59867c4c6a0e7567ad943ac743cfd0df47dbb24ba6815dc7bcc4nat);
    let e: nat = square_1(e, 0x613a1d5193dec4966606e8faf256518be4b565f5b370706b75bdc3738720d2b8nat);
    let e: nat = square_1(e, 0x46b8d3cb9a134d4b144354d4fadf5573148ecd298b250582f086075b1bca51c7nat);
    let e: nat = square_1(e, 0x4154c723308e7b71c86ca2b3fc85b76feab6d803f77f64a62bcc7616bf5a8881nat);
    let e: nat = square_1(e, 0x9672a1c350e556670e43669666c84ea77e203f222071f627e553aa4e9be347f7nat);
    let e: nat = square_1(e, 0x99a5801cbfb4ab490967e94c179bfd6161b793d4c0ec708ad5ba3432d1ec20ecnat);
}

/// Chain 1 up to digit 209 of 237 of its exponent.
proof fn chain_1_13()
    ensures
        power_mod(
            3,
            0x1db8260e5e3b460a46a0088fccf6a3a5936d75d89a776d4c0da4fnat,
            0xfffffffffffffffffffffffffffffffffffffffffffffffffffffffefffffc2fnat,
        ) == 0xa1f882d07528163163ce15256243b7027b6b6303459fbfced748b795e8ef6744nat,
{
    chain_1_12();
    let e: nat = 0x1db8260e5e3b460a46a0088fccf6a3a5936d75d89a776d4c0nat;
    let e: nat = square_mul_1(
        e,
        0xb77c439299b9e11b330f58e299f6709cc44cc8faacc78fe377010c3e436d4373nat,
    );
    let e: nat = square_mul_1(
        e,
        0xd258ee40429eaafda51b6ffe300a03e18fba6bf68604cbc00c212d583f18c9cenat,
    );
    let e: nat = square_1(e, 0x41eccd8facf1b369047a3cbfdc7cc28a17c37bac7c5d7657d3ef6d801421ba20nat);
    let e: nat = square_mul_1(
        e,
        0x6152e3fa5c21fedb8f825f8b353b8af5aff273169203d20f566d93a17597edebnat,
    );
    let e: nat = square_mul_1(
        e,
        0x2786386c5e11dcc9e10e232278b4353ab4cdfa17b22fe438e0497d64ff3c4161nat,
    );
    let e: nat = square_1(e, 0x613c6e12f5c90d44c6bb4ee9b1d8d6c2a3b99d8792d78d0769525eb61b0501d1nat);
    let e: nat = square_mul_1(
        e,
        0x609d02360aa321c31f2a45d86617429da19baf2511d8040e9bbc130466b1fda7nat,
    );
    let e: nat = square_1(e, 0x845c5c88975f27195d2bf6a9566280b2e806d4346332785b5c8209cc3b44b244nat);
    let e: nat = square_1(e, 0xed44d64894b6a10ab2918fe1a01f5ff0bb4f9cbcccd80444bfb98b809bc9b3ffnat);
    let e: nat = square_mul_1(
        e,
        0xddee5b775e5da419a8eefc29ab983fd794e10b64588894361e2be25ebe654503nat,
    );
    let e: nat = square_1(e, 0x880befa7597d9ed37996e27803f52cc26e7e6f734ec916e4c25f391f5878099bnat);
    let e: nat = square_1(e, 0xeee4710ba65a07982a0c554a3dfc665d3a76b58d1ad40df0e393e839df208168nat);
    let e: nat = square_mul_1(
        e,
        0xe73d2105fab81d35a807342dbce701e43b7705a76a402f1779a8a5b857c972ednat,
    );
    let e: nat = square_mul_1(
        e,
        0x9928ceb017b7bd110d3d21d0d6d31ee944f0f91d432573178d3713ac2d2e4d9enat,
    );
    let e: nat = square_mul_1(
        e,
        0xe0a31160ac973fc230466fd787deef7e0ca7e7fe2f69156643d3d005c91eb74enat,
    );
    let e: nat = square_mul_1(
        e,
        0xb3921ed2ce96572c80203f45f7c949d4f621bc7c71a743a372f19e4f414f7eb6nat,
    );
}

/// Chain 1 up to digit 225 of 237 of its exponent.
proof fn chain_1_14()
    ensures
        power_mod(
            3,
            0x1db8260e5e3b460a46a0088fccf6a3a5936d75d89a776d4c0da4f338anat,
            0xfffffffffffffffffffffffffffffffffffffffffffffffffffffffefffffc2fnat,
        ) == 0xf45cd139aca68bebe233503b4ddb530c6e5633ac42940f0c624a7cffe3104826nat,
{
    chain_1_13();
    let e: nat = 0x1db8260e5e3b460a46a0088fccf6a3a5936d75d89a776d4c0da4fnat;
    let e: nat = square_1(e, 0xa1f882d07528163163ce15256243b7027b6b6303459fbfced748b795e8ef6744nat);
    let e: nat = square_1(e, 0x9f4c53c86e46d520b301146e296d7c0511296a419f209848c92c5647265ffcaenat);
    let e: nat = square_mul_1(
        e,
        0x41a15ac24f2d97abc1e629cf44fe248d4a466c4f27856b168e71bf28101473anat,
    );
    let e: nat = square_mul_1(
        e,
        0x65c219c6d52e7d73c3969a7176c7dc711769bd36dcd0762b819167a87dc4bcanat,
    );
    let e: nat = square_1(e, 0x66709e544650a865407dc6d10d193981258cd94f53b7ac65efd3461bb202f5e6nat);
    let e: nat = square_1(e, 0x2931f7a9080adb1134e00ea69196437143fd12cdc49f36f692f01572fbe0c55dnat);
    let e: nat = square_mul_1(
        e,
        0x6ce34336a4281823f8bd957234556e5749bbac7b57bac2ef5e8aac4455343239nat,
    );
    let e: nat = square_mul_1(
        e,
        0x3305cb0628edd4cf1cc332740a3b50df3bcc8bcb59dcc3297eff2f27f6b11986nat,
    );
    let e: nat = square_mul_1(
        e,
        0xd16cc2389657ebf0f8ab1683568d0d4e788721ec6bdbb2e73b3178f40b4f9b38nat,
    );
    let e: nat = square_1(e, 0x6c0e634c1ba95510e76550a6fff450563fa30d9c022eb4b83a91488cca292880nat);
    let e: nat = square_1(e, 0x6fea231474ca473083671b8fb0e07fbea6b7392fccd212f0efd44dfe847647d3nat);
    let e: nat = square_1(e, 0xd0841970a759b846b4769da90a133243dba403efe4725d50a1608e6ee40a7b74nat);
    let e: nat = square_mul_1(
        e,
        0xcff7fa00e122bba3592616eb3eed677199b49920c641801b9f2df5f8d94f3f9nat,
    );
    let e: nat = square_1(e, 0xb751eb2920fdaed06cef4170ba0aad4e8eeee1ba9f157fdfd9125e10e9139d53nat);
    let e: nat = square_mul_1(
        e,
        0xe5558115acc5e4d48bca280e70395fc464a97c0e1c1a24dd57abdddbde20731nat,
    );
    let e: nat = square_1(e, 0xef179e52b170f57484f0c2a7e42182b8a7a52f15b0b019a0a742acff40e2b3bbnat);
}

/// Chain 1 up to digit 237 of 237 of its exponent.
proof fn chain_1_15()
    ensures
        power_mod(
            3,
            0x1db8260e5e3b460a46a0088fccf6a3a5936d75d89a776d4c0da4f338aafbnat,
            0xfffffffffffffffffffffffffffffffffffffffffffffffffffffffefffffc2fnat,
        ) == 0xb72adde721edc0ee2296461a1ed57362f414ef4c6243e72ce980179bd978273cnat,
{
    chain_1_14();
    let e: nat = 0x1db8260e5e3b460a46a0088fccf6a3a5936d75d89a776d4c0da4f338anat;
    let e: nat = square_mul_1(
        e,
        0xf45cd139aca68bebe233503b4ddb530c6e5633ac42940f0c624a7cffe3104826nat,
    );
    let e: nat = square_1(e, 0x144b110b4cbf1dd8f3dcd27ba4c29a935c943e54bd8968d9821adc5fb69433c6nat);
    let e: nat = square_mul_1(
        e,
        0x68696e078f4872cd4421ebc999eb1eb4a68b3bb37410df19c86c335b5cb95f2enat,
    );
    let e: nat = square_1(e, 0x32de03d417829efc1db93ada4d5c1ed1229c4b73f9443aa1e0b4451cbe12d722nat);
    let e: nat = square_mul_1(
        e,
        0x13d93b8d663fd14f871ffbff4528c65c8343bfa041617de9a58420430aa2429nat,
    );
    let e: nat = square_mul_1(
        e,
        0xd274a616d52897cf4d8351139b39f09e9f849e64e0afc4fd91d5502b2ccb7659nat,
    );
    let e: nat = square_mul_1(
        e,
        0xd3d1bf4d71ee868d25831a62ce279d1c194e405664c17a994e1239ea66a03706nat,
    );
    let e: nat = square_mul_1(
        e,
        0x49736a6ee6c9c44b11d71839bb5479003a5fe3a78f809e6a66cf89bdf1181efbnat,
    );
    let e: nat = square_mul_1(
        e,
        0x277fcfa675528eeb55542a8b9430a7155f60b11ff5aed8f2a3594c92080a6ccfnat,
    );
    let e: nat = square_1(e, 0x60e6d9e0dc9a41a1ef26b6d9910a1160f99960ed54016714fa91cb66a9a67cefnat);
    let e: nat = square_mul_1(
        e,
        0x3b31050562185725205158f56678c62c5543669ee15986443c9046f8fcd41eeenat,
    );
    let e: nat = square_mul_1(
        e,
        0xc0d7d2f429119fa84d8b4d4692d38df48f321bd4f3b7b7b004d64f2dd0b52064nat,
    );
}

/// A digit zero in chain 2.
proof fn square_2(e: nat, r: nat) -> (e2: nat)
    requires
        power_mod(
            0xb72adde721edc0ee2296461a1ed57362f414ef4c6243e72ce980179bd978273cnat,
            e,
            0xfffffffffffffffffffffffffffffffffffffffffffffffffffffffefffffc2fnat,
        ) == r,
    ensures
        e2 == 2 * e,
        power_mod(
            0xb72adde721edc0ee2296461a1ed57362f414ef4c6243e72ce980179bd978273cnat,
            e2,
            0xfffffffffffffffffffffffffffffffffffffffffffffffffffffffefffffc2fnat,
        ) == (r * r) % 0xfffffffffffffffffffffffffffffffffffffffffffffffffffffffefffffc2fnat,
{
    lemma_chain_square(
        0xb72adde721edc0ee2296461a1ed57362f414ef4c6243e72ce980179bd978273cnat,
        0xfffffffffffffffffffffffffffffffffffffffffffffffffffffffefffffc2fnat,
        e,
        r,
    )
}

/// A digit one in chain 2.
proof fn square_mul_2(e: nat, r: nat) -> (e2: nat)
    requires
        power_mod(
            0xb72adde721edc0ee2296461a1ed57362f414ef4c6243e72ce980179bd978273cnat,
            e,
            0xfffffffffffffffffffffffffffffffffffffffffffffffffffffffefffffc2fnat,
        ) == r,
    ensures
        e2 == 2 * e + 1,
        power_mod(
            0xb72adde721edc0ee2296461a1ed57362f414ef4c6243e72ce980179bd978273cnat,
            e2,
            0xfffffffffffffffffffffffffffffffffffffffffffffffffffffffefffffc2fnat,
        ) == (r * r * 0xb72adde721edc0ee2296461a1ed57362f414ef4c6243e72ce980179bd978273cnat) % 0xfffffffffffffffffffffffffffffffffffffffffffffffffffffffefffffc2fnat,
{
    lemma_chain_square_mul(
        0xb72adde721edc0ee2296461a1ed57362f414ef4c6243e72ce980179bd978273cnat,
        0xfffffffffffffffffffffffffffffffffffffffffffffffffffffffefffffc2fnat,
        e,
        r,
    )
}

/// Chain 2.
proof fn chain_2()
    ensures
        power_mod(
            0xb72adde721edc0ee2296461a1ed57362f414ef4c6243e72ce980179bd978273cnat,
            13441,
            0xfffffffffffffffffffffffffffffffffffffffffffffffffffffffefffffc2fnat,
        ) == 0xe30051910487417c522dc3e38fcd4fb0dab4b10ea856ce8373c28749e997d60dnat,
{
    lemma_chain_start(
        0xb72adde721edc0ee2296461a1ed57362f414ef4c6243e72ce980179bd978273cnat,
        0xfffffffffffffffffffffffffffffffffffffffffffffffffffffffefffffc2fnat,
    );
    let e: nat = 1;
    let e: nat = square_mul_2(
        e,
        0xb72adde721edc0ee2296461a1ed57362f414ef4c6243e72ce980179bd978273cnat,
    );
    let e: nat = square_2(e, 0x23426af9ade2e3cc859943b3a88b12ab2f1b72b1f6a0c98c81bc43afa68abbb2nat);
    let e: nat = square_mul_2(
        e,
        0xed955f1a72b5fb9ea6f038bb41087b9510b3b6f5ab825eacb4470bc98c0f18e3nat,
    );
    let e: nat = square_2(e, 0x14ca3a3c52ed32624bc9736d38a4b85e0fc14e1b1fd4e056f4b4b90d0f4aa59nat);
    let e: nat = square_2(e, 0x688779dd299ef9db3af7e508c9da8320b1b31986f11e6b9863eca02cb045033anat);
    let e: nat = square_mul_2(
        e,
        0x806098a79d53d115ffb0f7ddacc1b61c618c044958d74aff4bcb110d4357404bnat,
    );
    let e: nat = square_2(e, 0xbc3e14326ce4efe430b40825e8244f721b045911273b03b39d773e80cc6d145enat);
    let e: nat = square_2(e, 0x921a8db3b17a8784159146067564d732d9e84ad616811090e24330f6675b2620nat);
    let e: nat = square_2(e, 0x6a4b9c7e0aa1ca32e69f264aba9009e35a45f99679ca8f416dbd9cba39c8914fnat);
    let e: nat = square_2(e, 0x3392a36d6af0322479abd010d5d44bfce4a0a4d22fa23bb6c00595d7c41a25b2nat);
    let e: nat = square_2(e, 0xfe32059ac1f912db2c29385fda8763ea4bdf9b5af14d12fac9aa0f9e4ae03659nat);
    let e: nat = square_2(e, 0xd3d33a7babded6af2ce8a6ae0083d06b3ae7c1a9eea273b2dd60118e2dda21e7nat);
    let e: nat = square_mul_2(
        e,
        0xd79af04734575dff424ad91bca6469d268ab329477db72bcc65e6761dd43f5fbnat,
    );
}

/// Chain 3.
proof fn chain_3()
    ensures
        power_mod(
            0xe30051910487417c522dc3e38fcd4fb0dab4b10ea856ce8373c28749e997d60dnat,
            7,
            0xfffffffffffffffffffffffffffffffffffffffffffffffffffffffefffffc2fnat,
        ) == 0x851695d49a83f8ef919bb86153cbcb16630fb68aed0a766a3ec693d68e6afa41nat,
{
    lemma_chain_start(
        0xe30051910487417c522dc3e38fcd4fb0dab4b10ea856ce8373c28749e997d60dnat,
        0xfffffffffffffffffffffffffffffffffffffffffffffffffffffffefffffc2fnat,
    );
    let e: nat = 1;
    let e: nat = lemma_chain_square_mul(
        0xe30051910487417c522dc3e38fcd4fb0dab4b10ea856ce8373c28749e997d60dnat,
        0xfffffffffffffffffffffffffffffffffffffffffffffffffffffffefffffc2fnat,
        e,
        0xe30051910487417c522dc3e38fcd4fb0dab4b10ea856ce8373c28749e997d60dnat,
    );
    let e: nat = lemma_chain_square_mul(
        0xe30051910487417c522dc3e38fcd4fb0dab4b10ea856ce8373c28749e997d60dnat,
        0xfffffffffffffffffffffffffffffffffffffffffffffffffffffffefffffc2fnat,
        e,
        0xecdfd794f2d1792288f696063d863f0fdfa45fbfd74ff758b1e49a6a61b56978nat,
    );
}

/// Chain 4.
proof fn chain_4()
    ensures
        power_mod(
            0x851695d49a83f8ef919bb86153cbcb16630fb68aed0a766a3ec693d68e6afa41nat,
            3,
            0xfffffffffffffffffffffffffffffffffffffffffffffffffffffffefffffc2fnat,
        ) == 0xfffffffffffffffffffffffffffffffffffffffffffffffffffffffefffffc2enat,
{
    lemma_chain_start(
        0x851695d49a83f8ef919bb86153cbcb16630fb68aed0a766a3ec693d68e6afa41nat,
        0xfffffffffffffffffffffffffffffffffffffffffffffffffffffffefffffc2fnat,
    );
    let e: nat = 1;
    let e: nat = lemma_chain_square_mul(
        0x851695d49a83f8ef919bb86153cbcb16630fb68aed0a766a3ec693d68e6afa41nat,
        0xfffffffffffffffffffffffffffffffffffffffffffffffffffffffefffffc2fnat,
        e,
        0x851695d49a83f8ef919bb86153cbcb16630fb68aed0a766a3ec693d68e6afa41nat,
    );
}

/// Chain 5.
proof fn chain_5()
    ensures
        power_mod(
            0xfffffffffffffffffffffffffffffffffffffffffffffffffffffffefffffc2enat,
            2,
            0xfffffffffffffffffffffffffffffffffffffffffffffffffffffffefffffc2fnat,
        ) == 1,
{
    lemma_chain_start(
        0xfffffffffffffffffffffffffffffffffffffffffffffffffffffffefffffc2enat,
        0xfffffffffffffffffffffffffffffffffffffffffffffffffffffffefffffc2fnat,
    );
    let e: nat = 1;
    let e: nat = lemma_chain_square(
        0xfffffffffffffffffffffffffffffffffffffffffffffffffffffffefffffc2enat,
        0xfffffffffffffffffffffffffffffffffffffffffffffffffffffffefffffc2fnat,
        e,
        0xfffffffffffffffffffffffffffffffffffffffffffffffffffffffefffffc2enat,
    );
}

/// A digit zero in chain 6.
proof fn square_6(e: nat, r: nat) -> (e2: nat)
    requires
        power_mod(3, e, 0xfffffffffffffffffffffffffffffffffffffffffffffffffffffffefffffc2fnat) == r,
    ensures
        e2 == 2 * e,
        power_mod(
            3,
            e2,
            0xfffffffffffffffffffffffffffffffffffffffffffffffffffffffefffffc2fnat,
        ) == (r * r) % 0xfffffffffffffffffffffffffffffffffffffffffffffffffffffffefffffc2fnat,
{
    lemma_chain_square(
        3,
        0xfffffffffffffffffffffffffffffffffffffffffffffffffffffffefffffc2fnat,
        e,
        r,
    )
}

/// A digit one in chain 6.
proof fn square_mul_6(e: nat, r: nat) -> (e2: nat)
    requires
        power_mod(3, e, 0xfffffffffffffffffffffffffffffffffffffffffffffffffffffffefffffc2fnat) == r,
    ensures
        e2 == 2 * e + 1,
        power_mod(
            3,
            e2,
            0xfffffffffffffffffffffffffffffffffffffffffffffffffffffffefffffc2fnat,
        ) == (r * r * 3) % 0xfffffffffffffffffffffffffffffffffffffffffffffffffffffffefffffc2fnat,
{
    lemma_chain_square_mul(
        3,
        0xfffffffffffffffffffffffffffffffffffffffffffffffffffffffefffffc2fnat,
        e,
        r,
    )
}

/// Chain 6 up to digit 17 of 20 of its exponent.
proof fn chain_6_1()
    ensures
        power_mod(
            3,
            70565,
            0xfffffffffffffffffffffffffffffffffffffffffffffffffffffffefffffc2fnat,
        ) == 0x4d55d72540399213e30d9055bd9d508587761dcc23deb0bb37c70e3daf846622nat,
{
    lemma_chain_start(3, 0xfffffffffffffffffffffffffffffffffffffffffffffffffffffffefffffc2fnat);
    let e: nat = 1;
    let e: nat = square_6(e, 3);
    let e: nat = square_6(e, 9);
    let e: nat = square_6(e, 81);
    let e: nat = square_mul_6(e, 6561);
    let e: nat = square_6(e, 0x7b285c3);
    let e: nat = square_6(e, 0x3b3fcef3103289);
    let e: nat = square_mul_6(e, 0xdb6794b8c6558de83727119cd51);
    let e: nat = square_mul_6(e, 0x2341f271773446cfc5fd681c520567bc65c783158aea3fdc1767ae3nat);
    let e: nat = square_mul_6(
        e,
        0x51a01c803a6064191fe237f91f66b2ffdbbf96a82b57260abfe2a058a763037fnat,
    );
    let e: nat = square_6(e, 0x5433425162d113fd4aeb878efd045efcae0d9d8e97c0953316c2ddf2d9f83a9cnat);
    let e: nat = square_mul_6(
        e,
        0x4fbfc2fdb540a912b5c59648d200f069c89810ea704ea246c6b0036022bffcddnat,
    );
    let e: nat = square_6(e, 0x1436a202ecf71131c50bf71d7d16f0047f743705d8b735c52cefa43bba704588nat);
    let e: nat = square_6(e, 0xfc0e5126691fef516af99858b4b6a55e01f93aa28879d06948ddbbb9f06273b6nat);
    let e: nat = square_mul_6(
        e,
        0x3afd06756821857bbc5f24e0e26e7707f634f817729e7043398faa743d767b4enat,
    );
    let e: nat = square_6(e, 0x2ba37081d388417ebe2960cc04ad6a1f9205e7a3e2338c6d46627e079cd3237dnat);
    let e: nat = square_mul_6(
        e,
        0x561cfd114eabb168fb52f1e38233f2c0b6c3bf0613b6e8246e3c3111523d5545nat,
    );
}

/// Chain 6 up to digit 20 of 20 of its exponent.
proof fn chain_6_2()
    ensures
        power_mod(
            3,
            564522,
            0xfffffffffffffffffffffffffffffffffffffffffffffffffffffffefffffc2fnat,
        ) == 0x212e9abc82e8709493c087cd14e2ebd253ecf3cd0abd68a2b7b766fcc2aa4ca6nat,
{
    chain_6_1();
    let e: nat = 70565;
    let e: nat = square_6(e, 0x4d55d72540399213e30d9055bd9d508587761dcc23deb0bb37c70e3daf846622nat);
    let e: nat = square_mul_6(
        e,
        0x3399afed8d283961fb150c40c3574f18bdaa1426db0a83d790ade949536f9364nat,
    );
    let e: nat = square_6(e, 0x353b1a21baf9a5e56a80caae085d29a296be94d5f41f785633ada3d3f88c80eanat);
}

/// A digit zero in chain 7.
proof fn square_7(e: nat, r: nat) -> (e2: nat)
    requires
        power_mod(
            0xb72adde721edc0ee2296461a1ed57362f414ef4c6243e72ce980179bd978273cnat,
            e,
            0xfffffffffffffffffffffffffffffffffffffffffffffffffffffffefffffc2fnat,
        ) == r,
    ensures
        e2 == 2 * e,
        power_mod(
            0xb72adde721edc0ee2296461a1ed57362f414ef4c6243e72ce980179bd978273cnat,
            e2,
            0xfffffffffffffffffffffffffffffffffffffffffffffffffffffffefffffc2fnat,
        ) == (r * r) % 0xfffffffffffffffffffffffffffffffffffffffffffffffffffffffefffffc2fnat,
{
    lemma_chain_square(
        0xb72adde721edc0ee2296461a1ed57362f414ef4c6243e72ce980179bd978273cnat,
        0xfffffffffffffffffffffffffffffffffffffffffffffffffffffffefffffc2fnat,
        e,
        r,
    )
}

/// A digit one in chain 7.
proof fn square_mul_7(e: nat, r: nat) -> (e2: nat)
    requires
        power_mod(
            0xb72adde721edc0ee2296461a1ed57362f414ef4c6243e72ce980179bd978273cnat,
            e,
            0xfffffffffffffffffffffffffffffffffffffffffffffffffffffffefffffc2fnat,
        ) == r,
    ensures
        e2 == 2 * e + 1,
        power_mod(
            0xb72adde721edc0ee2296461a1ed57362f414ef4c6243e72ce980179bd978273cnat,
            e2,
            0xfffffffffffffffffffffffffffffffffffffffffffffffffffffffefffffc2fnat,
        ) == (r * r * 0xb72adde721edc0ee2296461a1ed57362f414ef4c6243e72ce980179bd978273cnat) % 0xfffffffffffffffffffffffffffffffffffffffffffffffffffffffefffffc2fnat,
{
    lemma_chain_square_mul(
        0xb72adde721edc0ee2296461a1ed57362f414ef4c6243e72ce980179bd978273cnat,
        0xfffffffffffffffffffffffffffffffffffffffffffffffffffffffefffffc2fnat,
        e,
        r,
    )
}

/// Chain 7.
proof fn chain_7()
    ensures
        power_mod(
            0xb72adde721edc0ee2296461a1ed57362f414ef4c6243e72ce980179bd978273cnat,
            42,
            0xfffffffffffffffffffffffffffffffffffffffffffffffffffffffefffffc2fnat,
        ) == 0x68105a205ec4e9ceb2b1dd5285ab623cf09e207bad567e15482d24e582ff833fnat,
{
    lemma_chain_start(
        0xb72adde721edc0ee2296461a1ed57362f414ef4c6243e72ce980179bd978273cnat,
        0xfffffffffffffffffffffffffffffffffffffffffffffffffffffffefffffc2fnat,
    );
    let e: nat = 1;
    let e: nat = square_7(e, 0xb72adde721edc0ee2296461a1ed57362f414ef4c6243e72ce980179bd978273cnat);
    let e: nat = square_mul_7(
        e,
        0x938ef2d15e12bd8404348048c3bda9e1cdae37ee08e20c95cf60b23374c6d5b9nat,
    );
    let e: nat = square_7(e, 0x9b3aeab429daaf2527af676025337dade625cf548769c44f8258b04b6b925268nat);
    let e: nat = square_mul_7(
        e,
        0x1743e46623979f1d96bd19bbd0e98ed3e190fae11a1fc596783fcebd0813ef18nat,
    );
    let e: nat = square_7(e, 0x8319eadb3993f2793461340181713ad15e6c42c801797cf3cf7c75d6abd0af2dnat);
}

/// Chain 8.
proof fn chain_8()
    ensures
        power_mod(
            0xe30051910487417c522dc3e38fcd4fb0dab4b10ea856ce8373c28749e997d60dnat,
            6,
            0xfffffffffffffffffffffffffffffffffffffffffffffffffffffffefffffc2fnat,
        ) == 0xa2ab335e7a5b9784e9425431411a8f02a1e39029745c0d2567e7b217154fe2cbnat,
{
    lemma_chain_start(
        0xe30051910487417c522dc3e38fcd4fb0dab4b10ea856ce8373c28749e997d60dnat,
        0xfffffffffffffffffffffffffffffffffffffffffffffffffffffffefffffc2fnat,
    );
    let e: nat = 1;
    let e: nat = lemma_chain_square_mul(
        0xe30051910487417c522dc3e38fcd4fb0dab4b10ea856ce8373c28749e997d60dnat,
        0xfffffffffffffffffffffffffffffffffffffffffffffffffffffffefffffc2fnat,
        e,
        0xe30051910487417c522dc3e38fcd4fb0dab4b10ea856ce8373c28749e997d60dnat,
    );
    let e: nat = lemma_chain_square(
        0xe30051910487417c522dc3e38fcd4fb0dab4b10ea856ce8373c28749e997d60dnat,
        0xfffffffffffffffffffffffffffffffffffffffffffffffffffffffefffffc2fnat,
        e,
        0xecdfd794f2d1792288f696063d863f0fdfa45fbfd74ff758b1e49a6a61b56978nat,
    );
}

/// Chain 9.
proof fn chain_9()
    ensures
        power_mod(
            0x851695d49a83f8ef919bb86153cbcb16630fb68aed0a766a3ec693d68e6afa41nat,
            2,
            0xfffffffffffffffffffffffffffffffffffffffffffffffffffffffefffffc2fnat,
        ) == 0x851695d49a83f8ef919bb86153cbcb16630fb68aed0a766a3ec693d68e6afa40nat,
{
    lemma_chain_start(
        0x851695d49a83f8ef919bb86153cbcb16630fb68aed0a766a3ec693d68e6afa41nat,
        0xfffffffffffffffffffffffffffffffffffffffffffffffffffffffefffffc2fnat,
    );
    let e: nat = 1;
    let e: nat = lemma_chain_square(
        0x851695d49a83f8ef919bb86153cbcb16630fb68aed0a766a3ec693d68e6afa41nat,
        0xfffffffffffffffffffffffffffffffffffffffffffffffffffffffefffffc2fnat,
        e,
        0x851695d49a83f8ef919bb86153cbcb16630fb68aed0a766a3ec693d68e6afa41nat,
    );
}

/// `3` is a Lucas witness for `0xfffffffffffffffffffffffffffffffffffffffffffffffffffffffefffffc2f`.
pub proof fn lemma_witness()
    ensures
        lucas_witness(0xfffffffffffffffffffffffffffffffffffffffffffffffffffffffefffffc2fnat, 3),
{
    lemma_prime_2();
    lemma_prime_3();
    lemma_prime_7();
    lemma_prime_13441();
    crate::primality::prime_237::lemma_prime();
    // The base raised to n - 1, one prime power of n - 1 after the other.
    chain_1_15();
    chain_2();
    lemma_chain_compose(
        3,
        0x1db8260e5e3b460a46a0088fccf6a3a5936d75d89a776d4c0da4f338aafbnat,
        0xb72adde721edc0ee2296461a1ed57362f414ef4c6243e72ce980179bd978273cnat,
        13441,
        0xfffffffffffffffffffffffffffffffffffffffffffffffffffffffefffffc2fnat,
    );
    chain_3();
    lemma_chain_compose(
        3,
        0x61861861861861861861861861861861861861861861861861861861249247bnat,
        0xe30051910487417c522dc3e38fcd4fb0dab4b10ea856ce8373c28749e997d60dnat,
        7,
        0xfffffffffffffffffffffffffffffffffffffffffffffffffffffffefffffc2fnat,
    );
    chain_4();
    lemma_chain_compose(
        3,
        0x2aaaaaaaaaaaaaaaaaaaaaaaaaaaaaaaaaaaaaaaaaaaaaaaaaaaaaaa7fffff5dnat,
        0x851695d49a83f8ef919bb86153cbcb16630fb68aed0a766a3ec693d68e6afa41nat,
        3,
        0xfffffffffffffffffffffffffffffffffffffffffffffffffffffffefffffc2fnat,
    );
    chain_5();
    lemma_chain_compose(
        3,
        0x7fffffffffffffffffffffffffffffffffffffffffffffffffffffff7ffffe17nat,
        0xfffffffffffffffffffffffffffffffffffffffffffffffffffffffefffffc2enat,
        2,
        0xfffffffffffffffffffffffffffffffffffffffffffffffffffffffefffffc2fnat,
    );
    // The base raised to (n - 1) / q, for each prime q that divides n - 1.
    chain_6_2();
    chain_7();
    lemma_chain_compose(
        3,
        0x1db8260e5e3b460a46a0088fccf6a3a5936d75d89a776d4c0da4f338aafbnat,
        0xb72adde721edc0ee2296461a1ed57362f414ef4c6243e72ce980179bd978273cnat,
        42,
        0xfffffffffffffffffffffffffffffffffffffffffffffffffffffffefffffc2fnat,
    );
    chain_8();
    lemma_chain_compose(
        3,
        0x61861861861861861861861861861861861861861861861861861861249247bnat,
        0xe30051910487417c522dc3e38fcd4fb0dab4b10ea856ce8373c28749e997d60dnat,
        6,
        0xfffffffffffffffffffffffffffffffffffffffffffffffffffffffefffffc2fnat,
    );
    chain_9();
    lemma_chain_compose(
        3,
        0x2aaaaaaaaaaaaaaaaaaaaaaaaaaaaaaaaaaaaaaaaaaaaaaaaaaaaaaa7fffff5dnat,
        0x851695d49a83f8ef919bb86153cbcb16630fb68aed0a766a3ec693d68e6afa41nat,
        2,
        0xfffffffffffffffffffffffffffffffffffffffffffffffffffffffefffffc2fnat,
    );
    // No other prime divides n - 1.
    assert forall|q: nat|
        #[trigger] is_prime(q) && divides(
            q,
            (0xfffffffffffffffffffffffffffffffffffffffffffffffffffffffefffffc2fnat - 1) as nat,
        ) implies power_mod(
        3,
        ((0xfffffffffffffffffffffffffffffffffffffffffffffffffffffffefffffc2fnat - 1) / (q as int)) as nat,
        0xfffffffffffffffffffffffffffffffffffffffffffffffffffffffefffffc2fnat,
    ) != 1 by {
        lemma_prime_factor(
            q,
            0x1db8260e5e3b460a46a0088fccf6a3a5936d75d89a776d4c0da4f338aafbnat,
            564522,
        );
        if q != 0x1db8260e5e3b460a46a0088fccf6a3a5936d75d89a776d4c0da4f338aafbnat {
            lemma_prime_factor(q, 13441, 42);
            if q != 13441 {
                lemma_prime_factor(q, 7, 6);
                if q != 7 {
                    lemma_prime_factor(q, 3, 2);
                    if q != 3 {
                        lemma_prime_factor(q, 2, 1);
                        if q != 2 {
                            lemma_prime_not_unit(q);
                        }
                    }
                }
            }
        }
        if q == 0x1db8260e5e3b460a46a0088fccf6a3a5936d75d89a776d4c0da4f338aafbnat {
            assert((0xfffffffffffffffffffffffffffffffffffffffffffffffffffffffefffffc2fnat - 1)
                / 0x1db8260e5e3b460a46a0088fccf6a3a5936d75d89a776d4c0da4f338aafbint
                == 564522);
        }
        if q == 13441 {
            assert((0xfffffffffffffffffffffffffffffffffffffffffffffffffffffffefffffc2fnat - 1)
                / 13441int
                == 0x4e0363e5b75b97daf96416797a076d92a2ff555895797ee7a3d0fe74c0d2enat);
        }
        if q == 7 {
            assert((0xfffffffffffffffffffffffffffffffffffffffffffffffffffffffefffffc2fnat - 1)
                / 7int
                == 0x249249249249249249249249249249249249249249249249249249246db6dae2nat);
        }
        if q == 3 {
            assert((0xfffffffffffffffffffffffffffffffffffffffffffffffffffffffefffffc2fnat - 1)
                / 3int
                == 0x55555555555555555555555555555555555555555555555555555554fffffebanat);
        }
        if q == 2 {
            assert((0xfffffffffffffffffffffffffffffffffffffffffffffffffffffffefffffc2fnat - 1)
                / 2int
                == 0x7fffffffffffffffffffffffffffffffffffffffffffffffffffffff7ffffe17nat);
        }
    }
}

/// `0xfffffffffffffffffffffffffffffffffffffffffffffffffffffffefffffc2f` is prime.
pub proof fn lemma_prime()
    ensures
        is_prime(0xfffffffffffffffffffffffffffffffffffffffffffffffffffffffefffffc2fnat),
{
    lemma_witness();
    lemma_lucas(0xfffffffffffffffffffffffffffffffffffffffffffffffffffffffefffffc2fnat, 3);
}

} // verus!
