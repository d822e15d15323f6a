//! Certificate of the 237-bit prime
//! `0x1db8260e5e3b460a46a0088fccf6a3a5936d75d89a776d4c0da4f338aafb`.

use crate::primality::chain::{
    lemma_chain_compose, lemma_chain_square, lemma_chain_square_mul, lemma_chain_start,
    lemma_prime_2,
};
use crate::primality::small::{
    lemma_prime_3, lemma_prime_5, lemma_prime_29, lemma_prime_31, lemma_prime_7723,
};
use crate::primes::{
    divides, is_prime, lemma_lucas, lemma_prime_factor, lemma_prime_not_unit, lucas_witness,
    power_mod,
};
use vstd::prelude::*;

verus! {

/// A digit zero in chain 1.
proof fn square_1(e: nat, r: nat) -> (e2: nat)
    requires
        power_mod(10, e, 0x1db8260e5e3b460a46a0088fccf6a3a5936d75d89a776d4c0da4f338aafbnat) == r,
    ensures
        e2 == 2 * e,
        power_mod(
            10,
            e2,
            0x1db8260e5e3b460a46a0088fccf6a3a5936d75d89a776d4c0da4f338aafbnat,
        ) == (r * r) % 0x1db8260e5e3b460a46a0088fccf6a3a5936d75d89a776d4c0da4f338aafbnat,
{
    lemma_chain_square(10, 0x1db8260e5e3b460a46a0088fccf6a3a5936d75d89a776d4c0da4f338aafbnat, e, r)
}

/// A digit one in chain 1.
proof fn square_mul_1(e: nat, r: nat) -> (e2: nat)
    requires
        power_mod(10, e, 0x1db8260e5e3b460a46a0088fccf6a3a5936d75d89a776d4c0da4f338aafbnat) == r,
    ensures
        e2 == 2 * e + 1,
        power_mod(
            10,
            e2,
            0x1db8260e5e3b460a46a0088fccf6a3a5936d75d89a776d4c0da4f338aafbnat,
        ) == (r * r * 10) % 0x1db8260e5e3b460a46a0088fccf6a3a5936d75d89a776d4c0da4f338aafbnat,
{
    lemma_chain_square_mul(
        10,
        0x1db8260e5e3b460a46a0088fccf6a3a5936d75d89a776d4c0da4f338aafbnat,
        e,
        r,
    )
}

/// Chain 1 up to digit 17 of 128 of its exponent.
proof fn chain_1_1()
    ensures
        power_mod(
            10,
            98421,
            0x1db8260e5e3b460a46a0088fccf6a3a5936d75d89a776d4c0da4f338aafbnat,
        ) == 0x18ab11c02492137d07145cf5784d150d47aaf5ac575e97dc9f1c112bdc7bnat,
{
    lemma_chain_start(10, 0x1db8260e5e3b460a46a0088fccf6a3a5936d75d89a776d4c0da4f338aafbnat);
    let e: nat = 1;
    let e: nat = square_mul_1(e, 10);
    let e: nat = square_1(e, 1000);
    let e: nat = square_1(e, 0xf4240);
    let e: nat = square_1(e, 0xe8d4a51000);
    let e: nat = square_1(e, 0xd3c21bcecceda1000000);
    let e: nat = square_1(e, 0xaf298d050e4395d69670b12b7f41000000000000nat);
    let e: nat = square_1(e, 0x3c0d8cab4cf198c689c92d2414def9bddb84489334f8df6cc7f75f4654anat);
    let e: nat = square_1(e, 0x1a5785f6a43efff2f9d7149ece6de2803aa585f5656898b8a2bcc537c6a5nat);
    let e: nat = square_1(e, 0x562b2650c8a4ac4d952400efd5799dcda4f6ad86c2350d1a79da81dd966nat);
    let e: nat = square_mul_1(e, 0x10a9e1c709b64d8b59d2fb3290000651fa00fdb64be00a2e4cb7da66da05nat);
    let e: nat = square_mul_1(e, 0xc3e7bcbdeb42494daa4ae84462f087d0c7bcfcdb0c8ddea1aeeb1b6503anat);
    let e: nat = square_mul_1(e, 0xa542872176807902a89d1d94d1640e8bd04c850275cea1a239b94dddb9dnat);
    let e: nat = square_1(e, 0xc8893a5e882093193b57cc2cd4c48fb3935cea8f36452ae9ca142bd5978nat);
    let e: nat = square_mul_1(e, 0x1223dd9d0f6e151edb4411ffa7a5aef6cbe637f65dff322e391eac1b9f03nat);
    let e: nat = square_1(e, 0x1824104bda2e619b50dfc23780191b57bc08713d0ac4de3a8712115d1172nat);
    let e: nat = square_mul_1(e, 0x1c9fce0bca34ee7d69d463dd6e0203e849ffbfa019e41774069eeb8ff5c7nat);
}

/// Chain 1 up to digit 33 of 128 of its exponent.
proof fn chain_1_2()
    ensures
        power_mod(
            10,
            0x180752965,
            0x1db8260e5e3b460a46a0088fccf6a3a5936d75d89a776d4c0da4f338aafbnat,
        ) == 0x156d2351e6f3363b6d69dc08dcbb3bb3e12e35720d94b34294be1be3cc24nat,
{
    chain_1_1();
    let e: nat = 98421;
    let e: nat = square_1(e, 0x18ab11c02492137d07145cf5784d150d47aaf5ac575e97dc9f1c112bdc7bnat);
    let e: nat = square_1(e, 0x1d8d808c01977bcd2f848ffeebe2a1fd897ad422e349c85cd2bf6eb3b076nat);
    let e: nat = square_mul_1(e, 0x140aaac515d7267c02d56a15eef54ba2967f0d95d54beb539473f9f99fb9nat);
    let e: nat = square_1(e, 0x1d4906a8bd043c5a77db58d8cd287697c4d36d6295f229e864a58cd18eebnat);
    let e: nat = square_mul_1(e, 0x137fb22e294b5485e4a9fc7a484dc91ce39151d36061d7faeba29853e692nat);
    let e: nat = square_1(e, 0x1c3e2d0bf1819a8e5385f00c72698bfd06c371a3854f66d03a36d84c12bfnat);
    let e: nat = square_1(e, 0x13e2e44394f40187c539430a3bd1bb051e7d9dcb645ee7cb4241893ea1f2nat);
    let e: nat = square_mul_1(e, 0x2508f4ddf031e917f0b33577f7c3b1502495968c496b189806ef7a90e04nat);
    let e: nat = square_1(e, 0x1a9920e4dea4ee7df629e5223ccc938b5b779379c9b5b466142825711367nat);
    let e: nat = square_mul_1(e, 0x19b7208647dbd73363a539fba432ef7f78d0ffbc08aca65b5d4109b04bfanat);
    let e: nat = square_mul_1(e, 0x1736439a6e575399c890f6b7494987b61e6c14fe4b7a2c8225f7e719228cnat);
    let e: nat = square_1(e, 0x6775fbabb343d8e5bc9be65eaa4eda56c9a8bf780cae17020fde6dc88bfnat);
    let e: nat = square_1(e, 0xc7bfed255f7419b37e452e35d2b7cd324d8d5802a780cd8c5f7edcfbd02nat);
    let e: nat = square_mul_1(e, 0x17235896f42e864383c2374448077f102ce534cd2ab7862b35e73f9ecf2bnat);
    let e: nat = square_1(e, 0xc2c2d15abdb2c06d3be84ac06250e33da911c2223f9a4a54a38821dd904nat);
    let e: nat = square_mul_1(e, 0x10e3163822afe563b07e8a8d5afe67457a4380376853b11b41785c68b408nat);
}

/// Chain 1 up to digit 49 of 128 of its exponent.
proof fn chain_1_3()
    ensures
        power_mod(
            10,
            0x180752965a7cc,
            0x1db8260e5e3b460a46a0088fccf6a3a5936d75d89a776d4c0da4f338aafbnat,
        ) == 0xf33c0ea0ad62df382fa7aa0c7111628680a661a36e7020f5f6fbad52a1nat,
{
    chain_1_2();
    let e: nat = 0x180752965;
    let e: nat = square_mul_1(e, 0x156d2351e6f3363b6d69dc08dcbb3bb3e12e35720d94b34294be1be3cc24nat);
    let e: nat = square_1(e, 0xb0aa818345d2b7f627e89c0b8edd40472e777f85843da6b3e0d6e5672f4nat);
    let e: nat = square_mul_1(e, 0x33c27e29771528d90db75e8f0b70cb8d7004bfb2532be2fb49338d22d52nat);
    let e: nat = square_1(e, 0x11ce97205af1ad819682592db6dab7e77347108a488a0a780b6227924c3cnat);
    let e: nat = square_1(e, 0x170f43e6f53916db0bd07650959dcf9c992365d88abcf00fca8c85d101dbnat);
    let e: nat = square_mul_1(e, 0xfdd828ead10e46bf03e6f25c0aea8f8f573db17ee785191fba089dcaddanat);
    let e: nat = square_mul_1(e, 0x1af7758fc14664c493498198dda2644f6969bb933d989375032d56985e2enat);
    let e: nat = square_mul_1(e, 0xe43d26ef04105bcd3c33a90239c8b06ab50afd727cf2b82fadb9dbe42a0nat);
    let e: nat = square_mul_1(e, 0x6bc78cde8671bebdd3fb71a9eb834a207d80a747fbdf01a3db2af471769nat);
    let e: nat = square_mul_1(e, 0x1ab2ccfb323b6b0c42e37cdd4c31fd4aa269febd1a8300bf601c320d7c43nat);
    let e: nat = square_1(e, 0xebd0558cb77f0f880bf3e5ab6520fb1863aa30b5870df8abf8b49596e6nat);
    let e: nat = square_1(e, 0x6b4da3aeeffee39585d78d3c255faac8d2ef3587635f001a66a2a505741nat);
    let e: nat = square_mul_1(e, 0x68a3e74815566d7865a93967ea1b1c37027f2703b284902a38b81c1ca40nat);
    let e: nat = square_mul_1(e, 0x76c74110f267c98f9c6a937ac8e2c8316cb9611f1b591a50eab12a1567enat);
    let e: nat = square_1(e, 0xd97f6a309f8acf5c97957efb2c3d48645d00f973b63448e3d93d441285cnat);
    let e: nat = square_1(e, 0x958a5a5f25ba21bcb88abfc10c68550cfc61e82ed52d816c188cdab732nat);
}

/// Chain 1 up to digit 65 of 128 of its exponent.
proof fn chain_1_4()
    ensures
        power_mod(
            10,
            0x180752965a7cc8833,
            0x1db8260e5e3b460a46a0088fccf6a3a5936d75d89a776d4c0da4f338aafbnat,
        ) == 0x912e94153f51c4637b745d2026eb9ee9d181726edd7f2d48c527188b24dnat,
{
    chain_1_3();
    let e: nat = 0x180752965a7cc;
    let e: nat = square_mul_1(e, 0xf33c0ea0ad62df382fa7aa0c7111628680a661a36e7020f5f6fbad52a1nat);
    let e: nat = square_1(e, 0x141e779011a732d5935e9a71ea9c751f051a2c9d25058828cafb9293d5b0nat);
    let e: nat = square_1(e, 0x4ddfb4d6624dd78a414d68623a1fd0893a164467ceb986eff307895aeeanat);
    let e: nat = square_1(e, 0x12679219ce486159efa93cd7824f5f92879bcf4c02308de978811732923cnat);
    let e: nat = square_mul_1(e, 0x1d5916d74dd26f05db4cc8adeb8ef07d01a79ee1cd6e7ea147dad7360c6bnat);
    let e: nat = square_1(e, 0xb39d17fd8e1eb39e46b7383da055faca647e767fab8c70f09ef15e32fcnat);
    let e: nat = square_1(e, 0xec51c08ad977b7211db7a32f06944ce30de8fdc0775d7028a9108aa7af4nat);
    let e: nat = square_1(e, 0x1db2705b0e0b36920f1a2677437740ebd09fb5932cf0a9cc4d65b5a69cc1nat);
    let e: nat = square_1(e, 0x1294bee4450eaa3211a20469091c18ebc7d3ce7cac0d5603c2fb098483e0nat);
    let e: nat = square_1(e, 0x33da01eedd54456c6d2c962504e63ea92bde2c0fc71835e5c8030e9df71nat);
    let e: nat = square_mul_1(e, 0x1bb3abbb69f441f5e7915ac92d9fe857ad96a91ae14e906ed254b303c337nat);
    let e: nat = square_mul_1(e, 0x1be86ef2e2eab692c8c8382a90b5908cea8d506cf444fa94386525d104c5nat);
    let e: nat = square_1(e, 0x96254a2dc40cb8ddda85bb25313230c7a015285f9cf0041192e80fa97d3nat);
    let e: nat = square_1(e, 0x1bdd8b3493be7b7350748fa66cd96c214d442ac7d63b160de08464461e11nat);
    let e: nat = square_mul_1(e, 0x46a4f5c42832685ae967596502cfe1b160d0deb1d4dd63a21a6f38885afnat);
    let e: nat = square_mul_1(e, 0x6f4f5e50e60c2ce90d85090433a3277b07c24ec1a7f0dc99496a0256d80nat);
}

/// Chain 1 up to digit 81 of 128 of its exponent.
proof fn chain_1_5()
    ensures
        power_mod(
            10,
            0x180752965a7cc883340b9,
            0x1db8260e5e3b460a46a0088fccf6a3a5936d75d89a776d4c0da4f338aafbnat,
        ) == 0x1a9c5a3ae98944a36597aeb8729eb5df10e1a5bbc1ff343769e095e6c866nat,
{
    chain_1_4();
    let e: nat = 0x180752965a7cc8833;
    let e: nat = square_1(e, 0x912e94153f51c4637b745d2026eb9ee9d181726edd7f2d48c527188b24dnat);
    let e: nat = square_mul_1(e, 0xc24e6f8571bf678799672d77e768b6adc5732a25a8792b6a907fc0c26f3nat);
    let e: nat = square_1(e, 0x15ad2b401c683be43833db8ece79793ee07b9f5152d8f180b22d4296c78dnat);
    let e: nat = square_1(e, 0x1da062ae1286c63e9896ba2fbd1f82b3a8a6e80e0916cbfaa8ae67f8aaddnat);
    let e: nat = square_1(e, 0x1210fc254b5a0acc5de8eda22f75a657493589dcad2cbdd08e09db252849nat);
    let e: nat = square_1(e, 0x15282d0c5081cc681a965f5613cd9ef506cf566c45b34aee551d48b85ebdnat);
    let e: nat = square_1(e, 0x1b3f8f35a56db26ba57d669ea2ff66575a9502ff6c340885e419ef1937c9nat);
    let e: nat = square_1(e, 0xf03661757dda362ed55dd447e61ff4eff2a52aff777f8291fa3846e5dbbnat);
    let e: nat = square_mul_1(e, 0x87cece0205b97d868c900e8c1c66366cd65cacd7a3b61f4fab9f6084c6bnat);
    let e: nat = square_1(e, 0xeab859f2c3f306abb3be11b76ab926d843f122d06e156488fea94b50a99nat);
    let e: nat = square_mul_1(e, 0x9ff4958f7935d7b3ba181ad5c86023480f5270146dc5403d2fedeef6768nat);
    let e: nat = square_mul_1(e, 0x1be2c6044fd842fb4c62009f24b490dc65436fc9fada2559b0ab35500f51nat);
    let e: nat = square_mul_1(e, 0x1fa6b5cb81bee7a2a53c6a2fcb05c945b6dba7364e5a369ae9342184c5dnat);
    let e: nat = square_1(e, 0x6a6ccd2e9fb512d1529b87677b067a6f757597c692d5ee80888f82dc7b1nat);
    let e: nat = square_1(e, 0xeb657bcf21fb9af8b726a02bc8c661d94c203c7fe2f7d58a6dcb7d23c2anat);
    let e: nat = square_mul_1(e, 0x10f1d258d285c47e5690a0fb8a955bd6c52a716320faa864db5c111ad5e0nat);
}

/// Chain 1 up to digit 97 of 128 of its exponent.
proof fn chain_1_6()
    ensures
        power_mod(
            10,
            0x180752965a7cc883340b9b199,
            0x1db8260e5e3b460a46a0088fccf6a3a5936d75d89a776d4c0da4f338aafbnat,
        ) == 0x158e1c31c3765065bff5ed982c7fe55096776a1f70f41eb5a1ad829b5c20nat,
{
    chain_1_5();
    let e: nat = 0x180752965a7cc883340b9;
    let e: nat = square_mul_1(e, 0x1a9c5a3ae98944a36597aeb8729eb5df10e1a5bbc1ff343769e095e6c866nat);
    let e: nat = square_1(e, 0x97e55b340795ef92169063b72db7ad2a6f48da93bfed3c7879eb135bee4nat);
    let e: nat = square_mul_1(e, 0xf6ed4fcd8f0db40de93cfa44733adda58d25024059297e6b5319119697enat);
    let e: nat = square_mul_1(e, 0x2b74d580143ddc80f22bff7c63283ffb7992fc29d0f2980f5b4318c057fnat);
    let e: nat = square_1(e, 0x94796745fe05497548a5c50f8547d8af7bea0c4f2f1f854419444b95e8cnat);
    let e: nat = square_1(e, 0x14d2c59e9fd652646d6b4605115706bb6b4b5ac817b9dea7803bcf4f8166nat);
    let e: nat = square_1(e, 0x15b7695c4ff64bd2c08823f867c926273b6c2ff69bcc8ed57246a18b7b93nat);
    let e: nat = square_mul_1(e, 0x9a65c145f3db224c49260d6014c6abe64e617b24a4d0a3c2f4c70b8d45bnat);
    let e: nat = square_mul_1(e, 0x4360ad870530c511a519ac1ecbd7892947adf51ed887cb12b8905bc3edbnat);
    let e: nat = square_1(e, 0x224910d468560f5a6131a6ba9487cb828e13696390325470cd040e45960nat);
    let e: nat = square_1(e, 0x1575b653e6008484d7895c3259f87eb409764318b1fa1e7974c5855610fbnat);
    let e: nat = square_mul_1(e, 0x1dde3ac84e0246fb773c15fd4def6453354e23321311f53cd82a434d988nat);
    let e: nat = square_mul_1(e, 0x3501e6c0ae13c80d9c4c343bf2dfe06812d14a12c846b22ada6d180afe3nat);
    let e: nat = square_1(e, 0x1c376ed0ce766bddc4389a4cb2cbdc91be61a081e58d927dea40d64b971enat);
    let e: nat = square_1(e, 0x669551e893d72a72b1bacce75bac51f9744c80c4a70254c9947abe342efnat);
    let e: nat = square_mul_1(e, 0xeb150fc868d8c091fb4a7910cbef2d40862ce5e2cb4c61b15281f65843enat);
}

/// Chain 1 up to digit 113 of 128 of its exponent.
proof fn chain_1_7()
    ensures
        power_mod(
            10,
            0x180752965a7cc883340b9b1997f30,
            0x1db8260e5e3b460a46a0088fccf6a3a5936d75d89a776d4c0da4f338aafbnat,
        ) == 0xa90ac31e07da2fbd12b54a3629bb013571651d9d56a2bf063719503fd9fnat,
{
    chain_1_6();
    let e: nat = 0x180752965a7cc883340b9b199;
    let e: nat = square_1(e, 0x158e1c31c3765065bff5ed982c7fe55096776a1f70f41eb5a1ad829b5c20nat);
    let e: nat = square_mul_1(e, 0xd77f3bcd74754026f58c8539a8960cb9ce9543510ada72d2df6183db41bnat);
    let e: nat = square_mul_1(e, 0x1cf3296d389eda9169602c9d8ee9613bf9bcb86d22f92b4caf7e531172bnat);
    let e: nat = square_mul_1(e, 0x8c9a6497e557e5aec950da2cc2bd8d9c4a8b3ba1f87ec1efec039fef990nat);
    let e: nat = square_mul_1(e, 0x3e00dbf421f6f0d60e11ed941c2bd492dec89850a4a480a976527d40bf6nat);
    let e: nat = square_mul_1(e, 0x2e402afca17f85f6074329b40cae1d8ed5217c0aad496b7d055177eceddnat);
    let e: nat = square_mul_1(e, 0x931485be1d1828f1b065104d8dcb46b90abedd51c80f3978a35fac332aanat);
    let e: nat = square_mul_1(e, 0x17571f473069be009c89b37cb93d7b7cb11662bc016f03a7c805a0bbbd9bnat);
    let e: nat = square_1(e, 0x1b45b6ead330604e115527baf86d8b54f13ddfe42cf50ab3b983b933334dnat);
    let e: nat = square_1(e, 0x11dd0b34ed3caf9e28ca644b66141c0d098b6ed159a8d6ec9e7f917ccaeenat);
    let e: nat = square_mul_1(e, 0x10dc36e9f29aed4a71979c8bf1178eb419d67ae92691e3b9b772b5165abcnat);
    let e: nat = square_mul_1(e, 0x80c87816d98ecc3aad5a0ad22f6cfacce4d137e878ba42361bb857bcafdnat);
    let e: nat = square_1(e, 0x1518ea20b26326058dd5b602416be5f94e9d593aaf05abae6aec0f855757nat);
    let e: nat = square_1(e, 0x1535555ecab1cfd82e4c9a00998b899f4b0101420c715059d1ed1dff97e9nat);
    let e: nat = square_1(e, 0x28b0385e767dd21dbe7a4eb6b891cab5257af68e39572c71cdc45d2067anat);
    let e: nat = square_1(e, 0x6bdd13ffe7847ac53b6df1fe3ca8a98b971d7a966bae82e456a2b7e017bnat);
}

/// Chain 1 up to digit 128 of 128 of its exponent.
proof fn chain_1_8()
    ensures
        power_mod(
            10,
            0xc03a94b2d3e64419a05cd8ccbf987069nat,
            0x1db8260e5e3b460a46a0088fccf6a3a5936d75d89a776d4c0da4f338aafbnat,
        ) == 0x10c6eb2a78faeab5263f8fb21101c175836a75b13ed04c6792254467e2a7nat,
{
    chain_1_7();
    let e: nat = 0x180752965a7cc883340b9b1997f30;
    let e: nat = square_mul_1(e, 0xa90ac31e07da2fbd12b54a3629bb013571651d9d56a2bf063719503fd9fnat);
    let e: nat = square_mul_1(e, 0x19592d8bab4ba597319bac3bdaf46659ffad6e419d9a9bd8410ce4a67f60nat);
    let e: nat = square_mul_1(e, 0x153d2017329af9215f85b0fdf21d3dcf42f55626f359369ba2b731a927f5nat);
    let e: nat = square_1(e, 0x1167b9349b7319c66de0cab11f09f5320cef67a92190c9b73921eeaf256nat);
    let e: nat = square_1(e, 0x6beca8040137add6cdf1227d2eeb4086bad9019cb65bd41382e8e80cc34nat);
    let e: nat = square_1(e, 0x10a42bd1152143b4e733d2ce4ab0ea6f8e2cad0f1e308e3a3e95599169c8nat);
    let e: nat = square_1(e, 0x17a79b1711a7991fe066f41cd079e85437cd369120f44a5df4348a45fff7nat);
    let e: nat = square_1(e, 0x177a329e436e83d51d56f62302bd9fbd7ea14392010961a5bfb26cbb4581nat);
    let e: nat = square_mul_1(e, 0x1b8c8275134fe684a0552a18deefb45d8e612399c1e37d45984111bc950nat);
    let e: nat = square_mul_1(e, 0x1ee9b7b262db38e8a9745b3004a73f1bbf449f4e42456c66e0aaa36363bnat);
    let e: nat = square_1(e, 0x819f203aae30b0f64285cdcdd03982c1a68904734ece8c6e766ba1edbf2nat);
    let e: nat = square_mul_1(e, 0x151a60f53de41e590914f8238ed88100a859933ee20660514fbbb35f7a34nat);
    let e: nat = square_1(e, 0x1ab923f1a64b9b7e970f5f31c17be9e7ac342f3cf1b75d492e661887a68bnat);
    let e: nat = square_1(e, 0x1b311336eff03fd4aee501451dbbc6566e7bae73ec7cd69bf5372a812ed1nat);
    let e: nat = square_mul_1(e, 0x36a32d233c9a801c3ed0a0c1fb0c7524d8f9311c727f9c80fcf749d8a2bnat);
}

/// A digit zero in chain 2.
proof fn square_2(e: nat, r: nat) -> (e2: nat)
    requires
        power_mod(
            0x10c6eb2a78faeab5263f8fb21101c175836a75b13ed04c6792254467e2a7nat,
            e,
            0x1db8260e5e3b460a46a0088fccf6a3a5936d75d89a776d4c0da4f338aafbnat,
        ) == r,
    ensures
        e2 == 2 * e,
        power_mod(
            0x10c6eb2a78faeab5263f8fb21101c175836a75b13ed04c6792254467e2a7nat,
            e2,
            0x1db8260e5e3b460a46a0088fccf6a3a5936d75d89a776d4c0da4f338aafbnat,
        ) == (r * r) % 0x1db8260e5e3b460a46a0088fccf6a3a5936d75d89a776d4c0da4f338aafbnat,
{
    lemma_chain_square(
        0x10c6eb2a78faeab5263f8fb21101c175836a75b13ed04c6792254467e2a7nat,
        0x1db8260e5e3b460a46a0088fccf6a3a5936d75d89a776d4c0da4f338aafbnat,
        e,
        r,
    )
}

/// A digit one in chain 2.
proof fn square_mul_2(e: nat, r: nat) -> (e2: nat)
    requires
        power_mod(
            0x10c6eb2a78faeab5263f8fb21101c175836a75b13ed04c6792254467e2a7nat,
            e,
            0x1db8260e5e3b460a46a0088fccf6a3a5936d75d89a776d4c0da4f338aafbnat,
        ) == r,
    ensures
        e2 == 2 * e + 1,
        power_mod(
            0x10c6eb2a78faeab5263f8fb21101c175836a75b13ed04c6792254467e2a7nat,
            e2,
            0x1db8260e5e3b460a46a0088fccf6a3a5936d75d89a776d4c0da4f338aafbnat,
        ) == (r * r * 0x10c6eb2a78faeab5263f8fb21101c175836a75b13ed04c6792254467e2a7nat) % 0x1db8260e5e3b460a46a0088fccf6a3a5936d75d89a776d4c0da4f338aafbnat,
{
    lemma_chain_square_mul(
        0x10c6eb2a78faeab5263f8fb21101c175836a75b13ed04c6792254467e2a7nat,
        0x1db8260e5e3b460a46a0088fccf6a3a5936d75d89a776d4c0da4f338aafbnat,
        e,
        r,
    )
}

/// Chain 2 up to digit 17 of 77 of its exponent.
proof fn chain_2_1()
    ensures
        power_mod(
            0x10c6eb2a78faeab5263f8fb21101c175836a75b13ed04c6792254467e2a7nat,
            115269,
            0x1db8260e5e3b460a46a0088fccf6a3a5936d75d89a776d4c0da4f338aafbnat,
        ) == 0x1acc99c27510ebf78bcca4d15cc1c28bf9063d323bbd58f479b952d672ffnat,
{
    lemma_chain_start(
        0x10c6eb2a78faeab5263f8fb21101c175836a75b13ed04c6792254467e2a7nat,
        0x1db8260e5e3b460a46a0088fccf6a3a5936d75d89a776d4c0da4f338aafbnat,
    );
    let e: nat = 1;
    let e: nat = square_mul_2(e, 0x10c6eb2a78faeab5263f8fb21101c175836a75b13ed04c6792254467e2a7nat);
    let e: nat = square_mul_2(e, 0x6587dd494652c6ea24d317d399cc4868b4a4dc38f2937dcaf03ba6d6280nat);
    let e: nat = square_2(e, 0x6d4245d917eecefb058e05ca9d4b2e5e2bb2fb781853e6e2a17dc801a40nat);
    let e: nat = square_2(e, 0x1556ddb2a8e33f972cd3cdfea9499bb131c6a1e3daad9dfe36946dd8f5b7nat);
    let e: nat = square_2(e, 0x11ebaf561df7aefbbbde9e564b3a24bd658b7344fd6e2b40e4f403223ceenat);
    let e: nat = square_2(e, 0xb959b73012ac3efb782555f9f2facad76d449165c1b98d27911b9d90e9anat);
    let e: nat = square_mul_2(e, 0xab01adbc810df31437b6ecb606f10ca3304ca7ac9503be60388a9a5efe3nat);
    let e: nat = square_2(e, 0x5884272081d04c82d6a6cf4b065912b45c36a8fabd96e9312de459ebeadnat);
    let e: nat = square_2(e, 0xf933f29a2029d5939cc43c9daf322b4ea2e565c978d863f533be1b8c0e3nat);
    let e: nat = square_mul_2(e, 0x131c595db397a5448ac7f9d3c8e608a56e08bc3996b8381f83e24d67ca08nat);
    let e: nat = square_2(e, 0x17ed820afd5490be674bd4422d9a56893a276e4fc6d73aae85c649345ddanat);
    let e: nat = square_2(e, 0x14c2c862288152178eec9423d1a7c4bc30d5deb9fcf6edac80384db5ff6bnat);
    let e: nat = square_2(e, 0x1d663c6791936b117267729369dd031699cafd6c6aef6e62d0f238bf7b00nat);
    let e: nat = square_mul_2(e, 0x139413c0fd31fd0c371ad5e0a6f664710d0b11a555d57f4caf1886dc895fnat);
    let e: nat = square_2(e, 0x332f2deab8f04d5fa0dbac80a10b7285a504db176ddd5f976ad454b3a0nat);
    let e: nat = square_mul_2(e, 0xb37006d8562ec9b26d5d026b55ba59b704524ab4e0578bb3caaff1954c8nat);
}

/// Chain 2 up to digit 33 of 77 of its exponent.
proof fn chain_2_2()
    ensures
        power_mod(
            0x10c6eb2a78faeab5263f8fb21101c175836a75b13ed04c6792254467e2a7nat,
            0x1c245bc19,
            0x1db8260e5e3b460a46a0088fccf6a3a5936d75d89a776d4c0da4f338aafbnat,
        ) == 0x185bdaa14dc835905bd30068fa1577f36c24c3c1e45495e74761cd23a453nat,
{
    chain_2_1();
    let e: nat = 115269;
    let e: nat = square_mul_2(e, 0x1acc99c27510ebf78bcca4d15cc1c28bf9063d323bbd58f479b952d672ffnat);
    let e: nat = square_2(e, 0x3686fbafc55ff32d2037d0dc9fd45443a4fadb103a59ab9a675cc0d064fnat);
    let e: nat = square_mul_2(e, 0x23448d6c877413a681e00677895c6ed847516b4be83a812c726bc68e556nat);
    let e: nat = square_mul_2(e, 0x35308d75c022d0c96b7015ed58b812a251aa7e45f5253b3744a12b54541nat);
    let e: nat = square_mul_2(e, 0xd7e9db77ea493992c47ad10e6e5bac7fcab75b495ce3d2bce74ac3bb7eanat);
    let e: nat = square_mul_2(e, 0xfdc7a89448464c93b836b130df86c9880a7a78342def5f33a250b5efcbdnat);
    let e: nat = square_2(e, 0x1226e34a158a9f2333e29f5f2d077113fb35c5a27d585001644efedd62d5nat);
    let e: nat = square_2(e, 0xf26048be19298cfca434f0800dd56b13dc21208b68441589814873facd7nat);
    let e: nat = square_2(e, 0x1881d64b2e62fad2f939b56c45647addf38c90796032b2a357fce6e4929dnat);
    let e: nat = square_2(e, 0x513a00cb21617e3782938b359d955ad5dfe1fdd8e7f7d703dad2311641nat);
    let e: nat = square_2(e, 0x1570737e3b7ddfc7ba651168680f27d442424fbc05a7908a05db2d3b0291nat);
    let e: nat = square_mul_2(e, 0x16522fb674a8993b0fc653d8341951f9d49c9545b2e546d322cd279fdb99nat);
    let e: nat = square_mul_2(e, 0x1191d17c0628f9bed7acc29a8edbf4c6017728f53f71d935fd4cda54acc0nat);
    let e: nat = square_2(e, 0x107b244b00b0e8a7244eb8acecc95d0050df0cc8cfae7e6dbe7d54054d4cnat);
    let e: nat = square_2(e, 0x9e09d750d596112e020e7e939554f08b726cdc629e8b8a52a3e504849d8nat);
    let e: nat = square_mul_2(e, 0xbd7e876551f50448fd461f7c5875fc99290ec8041323a490b8d3dc10161nat);
}

/// Chain 2 up to digit 49 of 77 of its exponent.
proof fn chain_2_3()
    ensures
        power_mod(
            0x10c6eb2a78faeab5263f8fb21101c175836a75b13ed04c6792254467e2a7nat,
            0x1c245bc19c3df,
            0x1db8260e5e3b460a46a0088fccf6a3a5936d75d89a776d4c0da4f338aafbnat,
        ) == 0x1ae0bc9a7e710c59b96bfd37b9613e97553ad2fd4c91e9fe4806d29f24a0nat,
{
    chain_2_2();
    let e: nat = 0x1c245bc19;
    let e: nat = square_mul_2(e, 0x185bdaa14dc835905bd30068fa1577f36c24c3c1e45495e74761cd23a453nat);
    let e: nat = square_mul_2(e, 0x1a58f9194bf44063f6969b8abb8d81fa47d51e6dc71799ce52b2114d64nat);
    let e: nat = square_2(e, 0x1b6197adb0cc17ade4c89dca0abf1d6ff605061eb951e0d0df4d4ac7e220nat);
    let e: nat = square_2(e, 0x136286ce749bf1d79bfff23e2311e956fa49009104d31a2a9b1d5432a7f3nat);
    let e: nat = square_2(e, 0x17b67c461cfd75c1e30976d32b855068231eba0101c0107df3f607404271nat);
    let e: nat = square_2(e, 0x1854fef268696012b2f7cf39a0a287594f77a854ac296abba0ef8c4ee0danat);
    let e: nat = square_mul_2(e, 0x1a3186c3328b2129007128f7237a038c36b1a9d4f58760d17623adb4ab0dnat);
    let e: nat = square_mul_2(e, 0xaab4f2c93da16280828a6fe4cdd2e31d4ea86f77dd2e11dbe094d479690nat);
    let e: nat = square_mul_2(e, 0x1299e9bb3f67e1e6510f78696a5be649e845a144ad69b37da259cd511ef2nat);
    let e: nat = square_mul_2(e, 0x133ce9e70e613f0ab1b73ecefb8843faed251bb97d9d25760f50ff780fccnat);
    let e: nat = square_2(e, 0xa217dd284e5f1a2ddc018435af1f5a55223f4cbecdb459a834efb87ae50nat);
    let e: nat = square_mul_2(e, 0x141d8771d5179ac78655d326edc7fff95b4a6cca66386fb3ece0ae84c2f8nat);
    let e: nat = square_mul_2(e, 0xb2df7c660baa97d9aac6c7e4fc77df69dc6ca8016cb3d4f423d730547f5nat);
    let e: nat = square_mul_2(e, 0x9a6e49d542f5de0d7a68cc780b6a40bb66627578639edb523e35211e076nat);
    let e: nat = square_mul_2(e, 0x12af5514c98fcefbfca315d1bd5c24584f7c040fcb28eedd932ebbbe3fb2nat);
    let e: nat = square_mul_2(e, 0xa93f23c0cdf46c770d343de1ce97dcb253cd1453ed6d8ba01fa6acb7a03nat);
}

/// Chain 2 up to digit 65 of 77 of its exponent.
proof fn chain_2_4()
    ensures
        power_mod(
            0x10c6eb2a78faeab5263f8fb21101c175836a75b13ed04c6792254467e2a7nat,
            0x1c245bc19c3dfa0c4,
            0x1db8260e5e3b460a46a0088fccf6a3a5936d75d89a776d4c0da4f338aafbnat,
        ) == 0x799bd7bf1e981bfd0afb10a7034a836a6675f5bc04624bb160ad0343d62nat,
{
    chain_2_3();
    let e: nat = 0x1c245bc19c3df;
    let e: nat = square_mul_2(e, 0x1ae0bc9a7e710c59b96bfd37b9613e97553ad2fd4c91e9fe4806d29f24a0nat);
    let e: nat = square_2(e, 0x1bb389eef94b412f0b430a0f8f565d82c97ca8a3863cc1cd99d6f107e554nat);
    let e: nat = square_mul_2(e, 0x14b94c5842b9c697d5d30b80703d76710a2cc4fde1a9c65b66116a7e3be8nat);
    let e: nat = square_2(e, 0x1718bde127fb1696675ccb98610484a770d4a86afe7ae267006bea276797nat);
    let e: nat = square_2(e, 0x154af8a4efa7259e9962c44a5db9bef874f8f0032432c7b20b160a41816nat);
    let e: nat = square_2(e, 0xd147bf37be32d50a756a309d28e52281f5b1c0529027e94b6e9287cc978nat);
    let e: nat = square_2(e, 0x93d474e34eb8cb962e911d16c7cd76709b6c2cb200edcb386594ec4b794nat);
    let e: nat = square_2(e, 0xdc765f9bba1cc7ac363668fdbcea267e358f09e632c27c8c1e85dc216fanat);
    let e: nat = square_mul_2(e, 0x169fa3a3efd1629797c65d0d69fef6663908736a4e88185a9240b9ff2eb6nat);
    let e: nat = square_mul_2(e, 0xdfc8a38c516662cd1f10160b0c4b824e8fc1ca6a20033e408f960eb7a21nat);
    let e: nat = square_2(e, 0xddf253cd6a390f31fb3f6f0eadd2ee27d75d3fc60a092fb59f40d3f8d43nat);
    let e: nat = square_2(e, 0x63eef76a21ab8f1b2dc29291ba6b926a43835a99d6145a2131261d2234nat);
    let e: nat = square_2(e, 0xa361b1d0e85d590c3a819ab5786340e56983120829ff4aacd0e070f3dc9nat);
    let e: nat = square_mul_2(e, 0x11a46dd34a4eea7879c5effcc411b4517dc680a69440a5fe5267b1c30ebenat);
    let e: nat = square_2(e, 0x12eb0ec9ff083213abf9fb41ab9e7d57b1ad4618004f3b50cfa494dbabf9nat);
    let e: nat = square_2(e, 0x1a6703c3dd43c229fdbd13b6d2bc98262b1e9e3f2358f3327b9bc92251banat);
}

/// Chain 2 up to digit 77 of 77 of its exponent.
proof fn chain_2_5()
    ensures
        power_mod(
            0x10c6eb2a78faeab5263f8fb21101c175836a75b13ed04c6792254467e2a7nat,
            0x1c245bc19c3dfa0c4ab7,
            0x1db8260e5e3b460a46a0088fccf6a3a5936d75d89a776d4c0da4f338aafbnat,
        ) == 0x11792dcc36513c4856df221058a7336bbc5ac2cb150705479d99b477canat,
{
    chain_2_4();
    let e: nat = 0x1c245bc19c3dfa0c4;
    let e: nat = square_mul_2(e, 0x799bd7bf1e981bfd0afb10a7034a836a6675f5bc04624bb160ad0343d62nat);
    let e: nat = square_2(e, 0x1062897bc6c4a4da53a2df3aecaf1d604cf17a775f6ecc169481daff859nat);
    let e: nat = square_mul_2(e, 0xc69ef604cc1e33ee93e72e40644c344d16f83ecf9fccd1fc0e9f45fae60nat);
    let e: nat = square_2(e, 0x61b2f97acb3d10420a8481970d5a6bbd5026b81bae2d6e60c1011ae0e16nat);
    let e: nat = square_mul_2(e, 0x880b5f8540da8e5eeca2d6aabf47cac8365f828288224f340896cda04a6nat);
    let e: nat = square_2(e, 0x4c53c772a0e190ccd43d6068f7482f4c53b791dbfe8c18d4d316f0ad14enat);
    let e: nat = square_mul_2(e, 0x27345a3b304fc24bd0a73651e13808f4b87a98fc29903c2d9f839116b79nat);
    let e: nat = square_mul_2(e, 0xa7d789293781ad19cdc3adceb25a6e15176eafabbd024ff7bb19e1a7ad9nat);
    let e: nat = square_2(e, 0x186f5455156240a2c0824f7aff7cee548e94ff6841033367f88763c2dc22nat);
    let e: nat = square_mul_2(e, 0x153259e4296396f5fde162690e995e8692dc455a6a9e845a485b1af3c7a7nat);
    let e: nat = square_mul_2(e, 0x17a92a47d3b0794a81b7534aaa8ec15015fdb5ae72ab6c4fcd221ef82e7anat);
    let e: nat = square_mul_2(e, 0xff0fe7953dcce87c12f2b62d0bf0bea74369cc3905d25a09343c1ec43aanat);
}

/// A digit zero in chain 3.
proof fn square_3(e: nat, r: nat) -> (e2: nat)
    requires
        power_mod(
            0x11792dcc36513c4856df221058a7336bbc5ac2cb150705479d99b477canat,
            e,
            0x1db8260e5e3b460a46a0088fccf6a3a5936d75d89a776d4c0da4f338aafbnat,
        ) == r,
    ensures
        e2 == 2 * e,
        power_mod(
            0x11792dcc36513c4856df221058a7336bbc5ac2cb150705479d99b477canat,
            e2,
            0x1db8260e5e3b460a46a0088fccf6a3a5936d75d89a776d4c0da4f338aafbnat,
        ) == (r * r) % 0x1db8260e5e3b460a46a0088fccf6a3a5936d75d89a776d4c0da4f338aafbnat,
{
    lemma_chain_square(
        0x11792dcc36513c4856df221058a7336bbc5ac2cb150705479d99b477canat,
        0x1db8260e5e3b460a46a0088fccf6a3a5936d75d89a776d4c0da4f338aafbnat,
        e,
        r,
    )
}

/// A digit one in chain 3.
proof fn square_mul_3(e: nat, r: nat) -> (e2: nat)
    requires
        power_mod(
            0x11792dcc36513c4856df221058a7336bbc5ac2cb150705479d99b477canat,
            e,
            0x1db8260e5e3b460a46a0088fccf6a3a5936d75d89a776d4c0da4f338aafbnat,
        ) == r,
    ensures
        e2 == 2 * e + 1,
        power_mod(
            0x11792dcc36513c4856df221058a7336bbc5ac2cb150705479d99b477canat,
            e2,
            0x1db8260e5e3b460a46a0088fccf6a3a5936d75d89a776d4c0da4f338aafbnat,
        ) == (r * r * 0x11792dcc36513c4856df221058a7336bbc5ac2cb150705479d99b477canat) % 0x1db8260e5e3b460a46a0088fccf6a3a5936d75d89a776d4c0da4f338aafbnat,
{
    lemma_chain_square_mul(
        0x11792dcc36513c4856df221058a7336bbc5ac2cb150705479d99b477canat,
        0x1db8260e5e3b460a46a0088fccf6a3a5936d75d89a776d4c0da4f338aafbnat,
        e,
        r,
    )
}

/// Chain 3.
proof fn chain_3()
    ensures
        power_mod(
            0x11792dcc36513c4856df221058a7336bbc5ac2cb150705479d99b477canat,
            7723,
            0x1db8260e5e3b460a46a0088fccf6a3a5936d75d89a776d4c0da4f338aafbnat,
        ) == 0x5160f74541c11b54a4508255a4c6e15eae44f68171f0d9406831421f148nat,
{
    lemma_chain_start(
        0x11792dcc36513c4856df221058a7336bbc5ac2cb150705479d99b477canat,
        0x1db8260e5e3b460a46a0088fccf6a3a5936d75d89a776d4c0da4f338aafbnat,
    );
    let e: nat = 1;
    let e: nat = square_mul_3(e, 0x11792dcc36513c4856df221058a7336bbc5ac2cb150705479d99b477canat);
    let e: nat = square_mul_3(e, 0x3cbf824effc6d207c404fb1d26056b01e8c2f01a3c3d6070dea981ce82cnat);
    let e: nat = square_mul_3(e, 0x57d56ac72a9c407b388d638417ffb656f2599d216bbdb9af6e2d6717455nat);
    let e: nat = square_3(e, 0x1290326b4028925c8a2bab31e0f8232f0df99cf47a051822f1e260578701nat);
    let e: nat = square_3(e, 0x19929d6b7c0d1920a1b58d57b49bfc3a5e8d2b3407908e1cb2725bc66fe8nat);
    let e: nat = square_3(e, 0x18b11d0fa82fdac06aed9be891da73bf2b0a7c8ed650c5b56a7074bc8ce6nat);
    let e: nat = square_mul_3(e, 0x18b09dac6c5dd589182c9f510780e88ade23bbea8c59944bdddfecf413c8nat);
    let e: nat = square_3(e, 0x1635816fafb4192220818afe3e542b50bd4f0fb951a7535ed88fcb373d18nat);
    let e: nat = square_mul_3(e, 0x8bf447821f29b946856d1ea724c6630679a888447e2cd14f2380dc7439cnat);
    let e: nat = square_3(e, 0x9e7698eeb28adbb18a31f095ecee46cee3c2d9c5c68c67205b6e470938anat);
    let e: nat = square_mul_3(e, 0xf847fddc81a455460c68b45946433ab3c6168a21bd1d5fc0855beb95697nat);
    let e: nat = square_mul_3(e, 0x5a254f42e77f2c4703b5038a92bdc9d5cabcd67d7eada8209f70039bae7nat);
}

/// A digit zero in chain 4.
proof fn square_4(e: nat, r: nat) -> (e2: nat)
    requires
        power_mod(
            0x5160f74541c11b54a4508255a4c6e15eae44f68171f0d9406831421f148nat,
            e,
            0x1db8260e5e3b460a46a0088fccf6a3a5936d75d89a776d4c0da4f338aafbnat,
        ) == r,
    ensures
        e2 == 2 * e,
        power_mod(
            0x5160f74541c11b54a4508255a4c6e15eae44f68171f0d9406831421f148nat,
            e2,
            0x1db8260e5e3b460a46a0088fccf6a3a5936d75d89a776d4c0da4f338aafbnat,
        ) == (r * r) % 0x1db8260e5e3b460a46a0088fccf6a3a5936d75d89a776d4c0da4f338aafbnat,
{
    lemma_chain_square(
        0x5160f74541c11b54a4508255a4c6e15eae44f68171f0d9406831421f148nat,
        0x1db8260e5e3b460a46a0088fccf6a3a5936d75d89a776d4c0da4f338aafbnat,
        e,
        r,
    )
}

/// A digit one in chain 4.
proof fn square_mul_4(e: nat, r: nat) -> (e2: nat)
    requires
        power_mod(
            0x5160f74541c11b54a4508255a4c6e15eae44f68171f0d9406831421f148nat,
            e,
            0x1db8260e5e3b460a46a0088fccf6a3a5936d75d89a776d4c0da4f338aafbnat,
        ) == r,
    ensures
        e2 == 2 * e + 1,
        power_mod(
            0x5160f74541c11b54a4508255a4c6e15eae44f68171f0d9406831421f148nat,
            e2,
            0x1db8260e5e3b460a46a0088fccf6a3a5936d75d89a776d4c0da4f338aafbnat,
        ) == (r * r * 0x5160f74541c11b54a4508255a4c6e15eae44f68171f0d9406831421f148nat) % 0x1db8260e5e3b460a46a0088fccf6a3a5936d75d89a776d4c0da4f338aafbnat,
{
    lemma_chain_square_mul(
        0x5160f74541c11b54a4508255a4c6e15eae44f68171f0d9406831421f148nat,
        0x1db8260e5e3b460a46a0088fccf6a3a5936d75d89a776d4c0da4f338aafbnat,
        e,
        r,
    )
}

/// Chain 4.
proof fn chain_4()
    ensures
        power_mod(
            0x5160f74541c11b54a4508255a4c6e15eae44f68171f0d9406831421f148nat,
            31,
            0x1db8260e5e3b460a46a0088fccf6a3a5936d75d89a776d4c0da4f338aafbnat,
        ) == 0x434d29ac94bb97caef38373e6226b2b0a2899232f4acb605f2592e0438bnat,
{
    lemma_chain_start(
        0x5160f74541c11b54a4508255a4c6e15eae44f68171f0d9406831421f148nat,
        0x1db8260e5e3b460a46a0088fccf6a3a5936d75d89a776d4c0da4f338aafbnat,
    );
    let e: nat = 1;
    let e: nat = square_mul_4(e, 0x5160f74541c11b54a4508255a4c6e15eae44f68171f0d9406831421f148nat);
    let e: nat = square_mul_4(e, 0x55eabf2fbb795a2169ccc368312506610d82bd1c2b5716ee164b13b228anat);
    let e: nat = square_mul_4(e, 0x7bd8dbd7af8a3976d84a561ec5ee98c050386c079ee1d82848af8d10a4enat);
    let e: nat = square_mul_4(e, 0xf7b2ff373a6f949c8ec36fdeb60c1312700dfe32b53dd95f5dc8dc9cb6anat);
}

/// A digit zero in chain 5.
proof fn square_5(e: nat, r: nat) -> (e2: nat)
    requires
        power_mod(
            0x434d29ac94bb97caef38373e6226b2b0a2899232f4acb605f2592e0438bnat,
            e,
            0x1db8260e5e3b460a46a0088fccf6a3a5936d75d89a776d4c0da4f338aafbnat,
        ) == r,
    ensures
        e2 == 2 * e,
        power_mod(
            0x434d29ac94bb97caef38373e6226b2b0a2899232f4acb605f2592e0438bnat,
            e2,
            0x1db8260e5e3b460a46a0088fccf6a3a5936d75d89a776d4c0da4f338aafbnat,
        ) == (r * r) % 0x1db8260e5e3b460a46a0088fccf6a3a5936d75d89a776d4c0da4f338aafbnat,
{
    lemma_chain_square(
        0x434d29ac94bb97caef38373e6226b2b0a2899232f4acb605f2592e0438bnat,
        0x1db8260e5e3b460a46a0088fccf6a3a5936d75d89a776d4c0da4f338aafbnat,
        e,
        r,
    )
}

/// A digit one in chain 5.
proof fn square_mul_5(e: nat, r: nat) -> (e2: nat)
    requires
        power_mod(
            0x434d29ac94bb97caef38373e6226b2b0a2899232f4acb605f2592e0438bnat,
            e,
            0x1db8260e5e3b460a46a0088fccf6a3a5936d75d89a776d4c0da4f338aafbnat,
        ) == r,
    ensures
        e2 == 2 * e + 1,
        power_mod(
            0x434d29ac94bb97caef38373e6226b2b0a2899232f4acb605f2592e0438bnat,
            e2,
            0x1db8260e5e3b460a46a0088fccf6a3a5936d75d89a776d4c0da4f338aafbnat,
        ) == (r * r * 0x434d29ac94bb97caef38373e6226b2b0a2899232f4acb605f2592e0438bnat) % 0x1db8260e5e3b460a46a0088fccf6a3a5936d75d89a776d4c0da4f338aafbnat,
{
    lemma_chain_square_mul(
        0x434d29ac94bb97caef38373e6226b2b0a2899232f4acb605f2592e0438bnat,
        0x1db8260e5e3b460a46a0088fccf6a3a5936d75d89a776d4c0da4f338aafbnat,
        e,
        r,
    )
}

/// Chain 5.
proof fn chain_5()
    ensures
        power_mod(
            0x434d29ac94bb97caef38373e6226b2b0a2899232f4acb605f2592e0438bnat,
            841,
            0x1db8260e5e3b460a46a0088fccf6a3a5936d75d89a776d4c0da4f338aafbnat,
        ) == 0xcbf50f162a627edff7db113ec1dc3d8f65dc7dc440a0c856d9b7ffc254enat,
{
    lemma_chain_start(
        0x434d29ac94bb97caef38373e6226b2b0a2899232f4acb605f2592e0438bnat,
        0x1db8260e5e3b460a46a0088fccf6a3a5936d75d89a776d4c0da4f338aafbnat,
    );
    let e: nat = 1;
    let e: nat = square_mul_5(e, 0x434d29ac94bb97caef38373e6226b2b0a2899232f4acb605f2592e0438bnat);
    let e: nat = square_5(e, 0x92bccdb0f7712f45e792f20aebc617201337ff1d6cdf7bc2920f83fb107nat);
    let e: nat = square_mul_5(e, 0xb6e574ded9b16c3d6517deab1a9c9b8f6c616508065faa641dcc28d786dnat);
    let e: nat = square_5(e, 0x19b56914755289c84ca52ceee98a04eaec638b34e90d1da2453b2bd67818nat);
    let e: nat = square_5(e, 0xf84fcb8f72f354d25b7c26e77a58d9e8ce9df4d914fcb8b5a79b1edf976nat);
    let e: nat = square_mul_5(e, 0x10ba31e75d464da9d3bf75fe9ef94f323502c92b1594c83bc3d57f64e4d3nat);
    let e: nat = square_5(e, 0x1bf8aad798727d2a768e88d61048d47cc9370b57312d9768084e8be1a14bnat);
    let e: nat = square_5(e, 0xe020e11b8541adff2b57a561d8c944e6d1090c55d8bdef4d1e3ee857d01nat);
    let e: nat = square_mul_5(e, 0xeafd87e5c8625dc7f204b16b0e73ca5b123ce3cd556d9b27e94ba214e9nat);
}

/// Chain 6.
proof fn chain_6()
    ensures
        power_mod(
            0xcbf50f162a627edff7db113ec1dc3d8f65dc7dc440a0c856d9b7ffc254enat,
            5,
            0x1db8260e5e3b460a46a0088fccf6a3a5936d75d89a776d4c0da4f338aafbnat,
        ) == 0x19e13d64ecf8054c0c195a4fd00298835ea4ec6b4d32290aa855b6a1c94fnat,
{
    lemma_chain_start(
        0xcbf50f162a627edff7db113ec1dc3d8f65dc7dc440a0c856d9b7ffc254enat,
        0x1db8260e5e3b460a46a0088fccf6a3a5936d75d89a776d4c0da4f338aafbnat,
    );
    let e: nat = 1;
    let e: nat = lemma_chain_square(
        0xcbf50f162a627edff7db113ec1dc3d8f65dc7dc440a0c856d9b7ffc254enat,
        0x1db8260e5e3b460a46a0088fccf6a3a5936d75d89a776d4c0da4f338aafbnat,
        e,
        0xcbf50f162a627edff7db113ec1dc3d8f65dc7dc440a0c856d9b7ffc254enat,
    );
    let e: nat = lemma_chain_square_mul(
        0xcbf50f162a627edff7db113ec1dc3d8f65dc7dc440a0c856d9b7ffc254enat,
        0x1db8260e5e3b460a46a0088fccf6a3a5936d75d89a776d4c0da4f338aafbnat,
        e,
        0xc47b60ae4c4654ff5edd1127883d9ad12d48f73ffdc71ce5f5d005583afnat,
    );
}

/// Chain 7.
proof fn chain_7()
    ensures
        power_mod(
            0x19e13d64ecf8054c0c195a4fd00298835ea4ec6b4d32290aa855b6a1c94fnat,
            3,
            0x1db8260e5e3b460a46a0088fccf6a3a5936d75d89a776d4c0da4f338aafbnat,
        ) == 0x1db8260e5e3b460a46a0088fccf6a3a5936d75d89a776d4c0da4f338aafanat,
{
    lemma_chain_start(
        0x19e13d64ecf8054c0c195a4fd00298835ea4ec6b4d32290aa855b6a1c94fnat,
        0x1db8260e5e3b460a46a0088fccf6a3a5936d75d89a776d4c0da4f338aafbnat,
    );
    let e: nat = 1;
    let e: nat = lemma_chain_square_mul(
        0x19e13d64ecf8054c0c195a4fd00298835ea4ec6b4d32290aa855b6a1c94fnat,
        0x1db8260e5e3b460a46a0088fccf6a3a5936d75d89a776d4c0da4f338aafbnat,
        e,
        0x19e13d64ecf8054c0c195a4fd00298835ea4ec6b4d32290aa855b6a1c94fnat,
    );
}

/// Chain 8.
proof fn chain_8()
    ensures
        power_mod(
            0x1db8260e5e3b460a46a0088fccf6a3a5936d75d89a776d4c0da4f338aafanat,
            2,
            0x1db8260e5e3b460a46a0088fccf6a3a5936d75d89a776d4c0da4f338aafbnat,
        ) == 1,
{
    lemma_chain_start(
        0x1db8260e5e3b460a46a0088fccf6a3a5936d75d89a776d4c0da4f338aafanat,
        0x1db8260e5e3b460a46a0088fccf6a3a5936d75d89a776d4c0da4f338aafbnat,
    );
    let e: nat = 1;
    let e: nat = lemma_chain_square(
        0x1db8260e5e3b460a46a0088fccf6a3a5936d75d89a776d4c0da4f338aafanat,
        0x1db8260e5e3b460a46a0088fccf6a3a5936d75d89a776d4c0da4f338aafbnat,
        e,
        0x1db8260e5e3b460a46a0088fccf6a3a5936d75d89a776d4c0da4f338aafanat,
    );
}

/// A digit zero in chain 9.
proof fn square_9(e: nat, r: nat) -> (e2: nat)
    requires
        power_mod(10, e, 0x1db8260e5e3b460a46a0088fccf6a3a5936d75d89a776d4c0da4f338aafbnat) == r,
    ensures
        e2 == 2 * e,
        power_mod(
            10,
            e2,
            0x1db8260e5e3b460a46a0088fccf6a3a5936d75d89a776d4c0da4f338aafbnat,
        ) == (r * r) % 0x1db8260e5e3b460a46a0088fccf6a3a5936d75d89a776d4c0da4f338aafbnat,
{
    lemma_chain_square(10, 0x1db8260e5e3b460a46a0088fccf6a3a5936d75d89a776d4c0da4f338aafbnat, e, r)
}

/// A digit one in chain 9.
proof fn square_mul_9(e: nat, r: nat) -> (e2: nat)
    requires
        power_mod(10, e, 0x1db8260e5e3b460a46a0088fccf6a3a5936d75d89a776d4c0da4f338aafbnat) == r,
    ensures
        e2 == 2 * e + 1,
        power_mod(
            10,
            e2,
            0x1db8260e5e3b460a46a0088fccf6a3a5936d75d89a776d4c0da4f338aafbnat,
        ) == (r * r * 10) % 0x1db8260e5e3b460a46a0088fccf6a3a5936d75d89a776d4c0da4f338aafbnat,
{
    lemma_chain_square_mul(
        10,
        0x1db8260e5e3b460a46a0088fccf6a3a5936d75d89a776d4c0da4f338aafbnat,
        e,
        r,
    )
}

/// Chain 9 up to digit 17 of 110 of its exponent.
proof fn chain_9_1()
    ensures
        power_mod(
            10,
            81056,
            0x1db8260e5e3b460a46a0088fccf6a3a5936d75d89a776d4c0da4f338aafbnat,
        ) == 0x8f0774ce475cde571822cd205830c722143fc3bd1492cb8d8e8e98b3ee1nat,
{
    lemma_chain_start(10, 0x1db8260e5e3b460a46a0088fccf6a3a5936d75d89a776d4c0da4f338aafbnat);
    let e: nat = 1;
    let e: nat = square_9(e, 10);
    let e: nat = square_9(e, 100);
    let e: nat = square_mul_9(e, 10000);
    let e: nat = square_mul_9(e, 0x3b9aca00);
    let e: nat = square_mul_9(e, 0x8ac7230489e80000);
    let e: nat = square_mul_9(e, 0x2f050fe938943acc45f65568000000000nat);
    let e: nat = square_9(e, 0xd64285e260dab9af6f72f7b75602f80c765a9fffe2676d9a166ea27ab6bnat);
    let e: nat = square_9(e, 0xb013778835da02811b3c60f4b852ca3641dc192201565a72718952a7f9nat);
    let e: nat = square_mul_9(e, 0x87221fe3e2db110dadc5bc6036b46211c08959534088c9bd5612937eaa2nat);
    let e: nat = square_9(e, 0x1082cac3d2732664e4328900d099a34e23274e14f9d70dbc564180eaea64nat);
    let e: nat = square_mul_9(e, 0x1d0932667d2847520c062426d01f5a8946e208f03e2a10b6f5fab668d264nat);
    let e: nat = square_9(e, 0xb3b91589909f92091bd14c5d11815e497e1b2c17f90d807b3accce3aad2nat);
    let e: nat = square_9(e, 0x193ab371ba993ff64fd062efa75c48d4cc9a3ebb3c8dd11eb7041ec06fd4nat);
    let e: nat = square_9(e, 0x54c9aaa0d6738bbe1a0128fbfe71b1ae8c49d7240d364d932a3fee0739bnat);
    let e: nat = square_9(e, 0xaac299d24c10e84645994b42455ac819fa032b4712937c8d24860be7d7nat);
    let e: nat = square_9(e, 0x46a53027ed306a62d43a32db7a85f1043e502435c04a708de9c5d5ef80fnat);
}

/// Chain 9 up to digit 33 of 110 of its exponent.
proof fn chain_9_2()
    ensures
        power_mod(
            10,
            0x13ca0fabf,
            0x1db8260e5e3b460a46a0088fccf6a3a5936d75d89a776d4c0da4f338aafbnat,
        ) == 0x18a9198ea24d1ef19327b68ee96f26475880b303d8b71a988994e75933benat,
{
    chain_9_1();
    let e: nat = 81056;
    let e: nat = square_mul_9(e, 0x8f0774ce475cde571822cd205830c722143fc3bd1492cb8d8e8e98b3ee1nat);
    let e: nat = square_mul_9(e, 0x1a1239f9714020a5f1a85c0d40c1e5b77ce8dd9da27b0f8f2368d6ec3892nat);
    let e: nat = square_mul_9(e, 0x8716c599723976a03bb8db29614a3256464f7b341760a643dbbdf17b31bnat);
    let e: nat = square_mul_9(e, 0x1cde47aa8423ad4ff97251862e58b49bf1464726ef70b0083f9b232e2deenat);
    let e: nat = square_mul_9(e, 0x199d32bed1c0a43455ec5680985ac6db19033f849ff7e9de4992b80fd721nat);
    let e: nat = square_9(e, 0x162e69864ecb038316ce7aa176a6e3eafc1d8bdf115703c9659173b731b6nat);
    let e: nat = square_mul_9(e, 0x58441477b6eed1617b4c13cb2eeeffc4b3be7887f7811afe2fcd7a8a841nat);
    let e: nat = square_9(e, 0x142819d3acaafc62bb2393011c46f426f4141366723d7b472b9e096f3a96nat);
    let e: nat = square_mul_9(e, 0x14d810b0fe9a8f4c70d71afd72a80866584883fba77dbd8563549b1c1b81nat);
    let e: nat = square_9(e, 0x1a0767f3226d3c0901e11b8ca3eb3481809f87f7d34844306839709846a5nat);
    let e: nat = square_mul_9(e, 0x1ba81948f50853d1867ea54a320687dacd373a976324532f85760d552b22nat);
    let e: nat = square_mul_9(e, 0x119ab6d45a54735360caed0aa4b0833f62c83a4c74f16d2510698579f05anat);
    let e: nat = square_mul_9(e, 0x3ea0a051f01115c2cd1db0774c95a8e5becdeb7f5ce7ee8a7cb3852ab17nat);
    let e: nat = square_mul_9(e, 0x17e09a50f0f45b77a30b42b72ebcc81cfeef3a3447cd3e574a0a4eb0ac68nat);
    let e: nat = square_mul_9(e, 0xb04b388358d193550d76a20977f1caabd69c97be1c4b9303d5ead2080fanat);
    let e: nat = square_mul_9(e, 0x129ed1dc1dbc96903a18a99838dfab4468f99b599033ae277dbb8e372121nat);
}

/// Chain 9 up to digit 49 of 110 of its exponent.
proof fn chain_9_3()
    ensures
        power_mod(
            10,
            0x13ca0fabfd9e0,
            0x1db8260e5e3b460a46a0088fccf6a3a5936d75d89a776d4c0da4f338aafbnat,
        ) == 0xe8bdb1191a3be1806010dab0c633e8cd82f214221de43b64205ca961924nat,
{
    chain_9_2();
    let e: nat = 0x13ca0fabf;
    let e: nat = square_mul_9(e, 0x18a9198ea24d1ef19327b68ee96f26475880b303d8b71a988994e75933benat);
    let e: nat = square_mul_9(e, 0x2abddda15e2aef64cd4552f9c7b325a484e7a0b75d14758442eeadce0denat);
    let e: nat = square_9(e, 0x1d3f61a5d5bc6608117033ed15f62b7844788cd89a2cf36cdf48c3954bf9nat);
    let e: nat = square_mul_9(e, 0x11d6590261be58422b58937a2ed90e71e3db118bebebdec1b16b3e497736nat);
    let e: nat = square_mul_9(e, 0x1b08a3970dc572bbda5c31237094483991d4f7b829fe2096832203246fcdnat);
    let e: nat = square_9(e, 0x18ee5394f9f45dcdf575c7b896a318ede67062a4645838241e94afc6daa4nat);
    let e: nat = square_9(e, 0x1130595467372514d4239688c14287a20dce30167258886161e1a594f55enat);
    let e: nat = square_mul_9(e, 0x12df3698497aff36e1d1603dce62f530079ba8cf07e7dcbcccbd381873ednat);
    let e: nat = square_mul_9(e, 0xc08905018880a6b8ba0ca122baa27349fc47f583da2b1995bdf076982a0nat);
    let e: nat = square_mul_9(e, 0x4493fd5cd18ba8a6228537f52bc1391db13353787e3cb314ee33d0a00c2nat);
    let e: nat = square_mul_9(e, 0x178d018b906858c6f09ecb82d8202aba19b58d023dae9c0381cae0e9c081nat);
    let e: nat = square_9(e, 0x52d8c095dd089f6c9ad6930854ac72440dfa94de58f6cdb93abc19ee9a5nat);
    let e: nat = square_9(e, 0x1747dba12dd7f89f1663065a81f63b271005b6a2dd69838f8aabd6d3bb9cnat);
    let e: nat = square_9(e, 0x162f662b26dbd79ba0774908daa413a309d9a7b3321a02326d4f58cee840nat);
    let e: nat = square_9(e, 0x25d36b7925df652662db412ad921971e1eefefc29d5f4d072b2d5550bb5nat);
    let e: nat = square_9(e, 0x7d1888a3e592a3d3f0905de8a41b311273fd20e3790c24d630635271479nat);
}

/// Chain 9 up to digit 65 of 110 of its exponent.
proof fn chain_9_4()
    ensures
        power_mod(
            10,
            0x13ca0fabfd9e01b8c,
            0x1db8260e5e3b460a46a0088fccf6a3a5936d75d89a776d4c0da4f338aafbnat,
        ) == 0x110d6e7620a3849bb1afac9914f71ecf26e2e7d526cb922888cab5c4f128nat,
{
    chain_9_3();
    let e: nat = 0x13ca0fabfd9e0;
    let e: nat = square_9(e, 0xe8bdb1191a3be1806010dab0c633e8cd82f214221de43b64205ca961924nat);
    let e: nat = square_9(e, 0x1295e2ec735dc6f8a22690a65fa32829b9d54db3594f8aa745e2932eaaednat);
    let e: nat = square_9(e, 0xa90a2b469ba35f7f87d1ef9e18ebb2fc7a5207a161e9978562803dd095enat);
    let e: nat = square_mul_9(e, 0x1a2ffd27fb3ecdb57a6ecf7fa35dd54fbeaabcd16d291877631226cccd38nat);
    let e: nat = square_mul_9(e, 0x1bbbe01a8e43e580ee8937a30ca2f235cac39fb9fb5d6e9a2b4913260ba3nat);
    let e: nat = square_9(e, 0xb1911cea51b7b11c8f870c81f628210e221b68da8cbc94bda096bf61f9dnat);
    let e: nat = square_mul_9(e, 0xf53cbe7fae1c72ecdcb0fb5c8c4e91af7ff229273f1f31d60771b8887c0nat);
    let e: nat = square_mul_9(e, 0x34b071951fef39d618d77eeb97e05816219351b297600a6bd78bdaa7e27nat);
    let e: nat = square_mul_9(e, 0xc5f69f5f8702dde05f346fc9b0943e2c3234546fac56df5917930b8ab57nat);
    let e: nat = square_9(e, 0x1378a9ab63b73fae4ab22858c644e720a2c09047855deef286007f47607anat);
    let e: nat = square_9(e, 0x1d912f48120c915cd2b31794910eabbf5c70dde279a34fcc683b939421f0nat);
    let e: nat = square_9(e, 0xb00fd4fcb34096c76e63bbfee573af642a5c1cd684e153bcd9f31601702nat);
    let e: nat = square_mul_9(e, 0xb158d7ed11248ccd8e8e9a5b642ec27b448ca1d27d2753a4384a2d8e568nat);
    let e: nat = square_mul_9(e, 0x479d9aba52d510552e906725eb0b579723215cd760bb15fd555ae5f8feenat);
    let e: nat = square_9(e, 0x4a26305c2f662f4ad6e87a6f1fc647a826da257029ca56e1398b656b8danat);
    let e: nat = square_9(e, 0x171974604ea9482c9b50ddceb30cfb795448c914fbea211435ed2672329enat);
}

/// Chain 9 up to digit 81 of 110 of its exponent.
proof fn chain_9_5()
    ensures
        power_mod(
            10,
            0x13ca0fabfd9e01b8c0fe0,
            0x1db8260e5e3b460a46a0088fccf6a3a5936d75d89a776d4c0da4f338aafbnat,
        ) == 0x38e4961185c772b357ab4d9e7443129079c977cdb8d60065b701a3336b3nat,
{
    chain_9_4();
    let e: nat = 0x13ca0fabfd9e01b8c;
    let e: nat = square_9(e, 0x110d6e7620a3849bb1afac9914f71ecf26e2e7d526cb922888cab5c4f128nat);
    let e: nat = square_9(e, 0x152ec95c4a1436c39c131b006a5d7ea1b3f1841fa1290a28fa8d1ca02075nat);
    let e: nat = square_9(e, 0x5068dc030bbec3c2631a2053c0b5f070fc951ed06af52971c64a214ea1cnat);
    let e: nat = square_9(e, 0x1b0442640cb66fc15300ab42b283e6b1db6144705dca168d83334780399anat);
    let e: nat = square_mul_9(e, 0x15a9ad84572c955dabb7568e5fe5849b90979d63760c49748773a75dae9fnat);
    let e: nat = square_mul_9(e, 0x3b2849b7afde33579ff31b2d1d264abfa02fb63c60fbfa0a94d45f0451dnat);
    let e: nat = square_mul_9(e, 0x1a2eeb42fa18501d404bbfa9b79cd163deae0fb5ec00d19daf017b45ccbenat);
    let e: nat = square_mul_9(e, 0x18526bf362fa8219e8b9908858d3e629081ed665203f932b9767e7c46667nat);
    let e: nat = square_mul_9(e, 0x7160a563f0ff2e8281c5b7d5935be8f4f57b0908dd254947d58e7c646c2nat);
    let e: nat = square_mul_9(e, 0x12e5b03919e8f217f5396483511ddec3163dd85cca6c6acbf80390778bd7nat);
    let e: nat = square_mul_9(e, 0x2ab17b4d574d72c8be5bd39721668f87acebb30b3d01b75ea566cb2ca17nat);
    let e: nat = square_9(e, 0x19bf3e36ea7726378960ca745da729a8d75aea0adbd0f5ebe18cb81d68f8nat);
    let e: nat = square_9(e, 0x1d7b09e1aa151b33c26150ba13901bb8d67271da501d936e4655078605ddnat);
    let e: nat = square_9(e, 0x715c382b1fedf3ff30d1ff3f9f0ddab1424d2b3aadb2e549674ba98b30cnat);
    let e: nat = square_9(e, 0x131d522aef5e09202ab802757b1e3c8ea180d446bb47d8adeeb3e731dd8cnat);
    let e: nat = square_9(e, 0x10633683d0abde47ed5140845538c44e13bfa3d8448df0c427bbeb15d8d1nat);
}

/// Chain 9 up to digit 97 of 110 of its exponent.
proof fn chain_9_6()
    ensures
        power_mod(
            10,
            0x13ca0fabfd9e01b8c0fe03fa9,
            0x1db8260e5e3b460a46a0088fccf6a3a5936d75d89a776d4c0da4f338aafbnat,
        ) == 0x2bcaa6c7514ecfbf015bdd8cedf47eb397147d2b26fce16fbf5094ae784nat,
{
    chain_9_5();
    let e: nat = 0x13ca0fabfd9e01b8c0fe0;
    let e: nat = square_9(e, 0x38e4961185c772b357ab4d9e7443129079c977cdb8d60065b701a3336b3nat);
    let e: nat = square_9(e, 0x119e8e60d78c783ef236c47308139263dc7c08e38b9897da2d4a3a5eb24dnat);
    let e: nat = square_mul_9(e, 0xd1d8532a500d047fc8b2d3fdb4ae5dd222b48dc05341b3527e49537dc17nat);
    let e: nat = square_mul_9(e, 0x1cdf1caa74ed9a1c0200aa91297fb41c454c55f7fae4734bc7ccb9cafaefnat);
    let e: nat = square_mul_9(e, 0x1aadbb7e0be2ae3274e62df5e3eb29066bf7144c8622a2c4f04beb48a78bnat);
    let e: nat = square_mul_9(e, 0xa5bcb6c8a57b427b7f57ebcba2a5904a114edd9a451cc01789741ba29eanat);
    let e: nat = square_mul_9(e, 0x18849df023fdee0c9a9bbb53e617ab350de34a7ac6d1f055bdf7979c4fe4nat);
    let e: nat = square_mul_9(e, 0x999b2fe7389782b5b63cd539e1ccdab164373ef588b8b8137f2b325cde9nat);
    let e: nat = square_mul_9(e, 0x14dbcc6799f2d34048197e6907165ed6d8a19169dea822cc494fa5d1e1enat);
    let e: nat = square_9(e, 0xce637d5e64b6bd2d4f623f825b031facc53a87629fcef864c29bf721f6fnat);
    let e: nat = square_mul_9(e, 0x109dcb0f3f4fe3ef88b795947065f58784204f4947421b254f7df4f3a8b3nat);
    let e: nat = square_9(e, 0x14376b23a0e25cc3baac203f2d215c913f5a0f55b840d84517e3996b2b8dnat);
    let e: nat = square_mul_9(e, 0x107516c65f6ba8d106246d0817b640c0ca4b54b64a4b373d101de4fb13e3nat);
    let e: nat = square_9(e, 0x9f57b68da8d45607854298d2ee89c5392697281b4cd2e7ae2405a81bbd6nat);
    let e: nat = square_9(e, 0x12757a5e703baf6806c6590e5eaf3575b53fcf70b2fea42e65ce2ab273c3nat);
    let e: nat = square_mul_9(e, 0x16e94e784f391dfae3b9130d4b93417c8320be01f6c464be4b3b44a30f09nat);
}

/// Chain 9 up to digit 110 of 110 of its exponent.
proof fn chain_9_7()
    ensures
        power_mod(
            10,
            0x27941f57fb3c037181fc07f533ea,
            0x1db8260e5e3b460a46a0088fccf6a3a5936d75d89a776d4c0da4f338aafbnat,
        ) == 0x19d441f3febf5bce65222021c607ffc46d3e03b3562954aebbfd16378689nat,
{
    chain_9_6();
    let e: nat = 0x13ca0fabfd9e01b8c0fe03fa9;
    let e: nat = square_mul_9(e, 0x2bcaa6c7514ecfbf015bdd8cedf47eb397147d2b26fce16fbf5094ae784nat);
    let e: nat = square_9(e, 0xd46d477bc8a4ea7faacae420a6cb6b9ac3216f72a37e350b4da8da12abcnat);
    let e: nat = square_9(e, 0x1864edaaa530d20d1157b2b0b4601b340f77afb8ce9b2468619bc0ff65f3nat);
    let e: nat = square_mul_9(e, 0xdf772c4b076df4e0117aff1ecb6eb9bdf85392f0cb2547b4bdb3395133fnat);
    let e: nat = square_mul_9(e, 0x1d64165cc25c4792e351594cf71f78f15e7b0efe64494aa29cfb5be0ccbbnat);
    let e: nat = square_mul_9(e, 0x5d6fbabdc1bd299c2d928f7de8e21b8a429b973614533cc21ab04b9b84cnat);
    let e: nat = square_mul_9(e, 0x1b7e6e09e0f2eebe8fc2803808f674b367fd6c90e25e2e27f2d153da7ba6nat);
    let e: nat = square_mul_9(e, 0x1c6cd3f5a1401db2dcba23dbfa95b6d74c1de4d97eb731943771b559bc1anat);
    let e: nat = square_9(e, 0x1a2378db7d38448c2967fcb07149b0eac9c12c8109684a785526e96ca46dnat);
    let e: nat = square_mul_9(e, 0xb1a06f98a554e500d88423469b0fa7c41b64afa264478af25a66f2dc97bnat);
    let e: nat = square_9(e, 0x5752acfc088b4e6a64da1403d2d943a163d894fc3ae7b3e37b5719b0038nat);
    let e: nat = square_mul_9(e, 0x1d932a2c2dab34d38c97824f7015f930df05901c06339ebc5f412c49e0benat);
    let e: nat = square_9(e, 0x20b11f2f557fb05b7be0f15ef34440b3e809d0bcb9ded4832cd38060d16nat);
}

/// A digit zero in chain 10.
proof fn square_10(e: nat, r: nat) -> (e2: nat)
    requires
        power_mod(
            0x10c6eb2a78faeab5263f8fb21101c175836a75b13ed04c6792254467e2a7nat,
            e,
            0x1db8260e5e3b460a46a0088fccf6a3a5936d75d89a776d4c0da4f338aafbnat,
        ) == r,
    ensures
        e2 == 2 * e,
        power_mod(
            0x10c6eb2a78faeab5263f8fb21101c175836a75b13ed04c6792254467e2a7nat,
            e2,
            0x1db8260e5e3b460a46a0088fccf6a3a5936d75d89a776d4c0da4f338aafbnat,
        ) == (r * r) % 0x1db8260e5e3b460a46a0088fccf6a3a5936d75d89a776d4c0da4f338aafbnat,
{
    lemma_chain_square(
        0x10c6eb2a78faeab5263f8fb21101c175836a75b13ed04c6792254467e2a7nat,
        0x1db8260e5e3b460a46a0088fccf6a3a5936d75d89a776d4c0da4f338aafbnat,
        e,
        r,
    )
}

/// A digit one in chain 10.
proof fn square_mul_10(e: nat, r: nat) -> (e2: nat)
    requires
        power_mod(
            0x10c6eb2a78faeab5263f8fb21101c175836a75b13ed04c6792254467e2a7nat,
            e,
            0x1db8260e5e3b460a46a0088fccf6a3a5936d75d89a776d4c0da4f338aafbnat,
        ) == r,
    ensures
        e2 == 2 * e + 1,
        power_mod(
            0x10c6eb2a78faeab5263f8fb21101c175836a75b13ed04c6792254467e2a7nat,
            e2,
            0x1db8260e5e3b460a46a0088fccf6a3a5936d75d89a776d4c0da4f338aafbnat,
        ) == (r * r * 0x10c6eb2a78faeab5263f8fb21101c175836a75b13ed04c6792254467e2a7nat) % 0x1db8260e5e3b460a46a0088fccf6a3a5936d75d89a776d4c0da4f338aafbnat,
{
    lemma_chain_square_mul(
        0x10c6eb2a78faeab5263f8fb21101c175836a75b13ed04c6792254467e2a7nat,
        0x1db8260e5e3b460a46a0088fccf6a3a5936d75d89a776d4c0da4f338aafbnat,
        e,
        r,
    )
}

/// Chain 10 up to digit 17 of 33 of its exponent.
proof fn chain_10_1()
    ensures
        power_mod(
            0x10c6eb2a78faeab5263f8fb21101c175836a75b13ed04c6792254467e2a7nat,
            92169,
            0x1db8260e5e3b460a46a0088fccf6a3a5936d75d89a776d4c0da4f338aafbnat,
        ) == 0x1a67ccb53693e626da0bb7a04354d9a15bb729e32361366a9999a4ad4cbnat,
{
    lemma_chain_start(
        0x10c6eb2a78faeab5263f8fb21101c175836a75b13ed04c6792254467e2a7nat,
        0x1db8260e5e3b460a46a0088fccf6a3a5936d75d89a776d4c0da4f338aafbnat,
    );
    let e: nat = 1;
    let e: nat = square_10(e, 0x10c6eb2a78faeab5263f8fb21101c175836a75b13ed04c6792254467e2a7nat);
    let e: nat = square_mul_10(
        e,
        0x1d7f7c09f57de07a01fdcf1dc05f5292d1b051960aabdcfcfe51d83035d7nat,
    );
    let e: nat = square_mul_10(
        e,
        0x1819278ec36b07049d2e2b21ce31f3e7aa24544f58e2a1813ebaccc5b1f1nat,
    );
    let e: nat = square_10(e, 0x3868008606cb1992a48ebe9fc5bdf50d6456cf9811ecfc7ec06f9d5e388nat);
    let e: nat = square_mul_10(
        e,
        0x18f6c603665f10aba7d211b844d53b51915c2bd0fa542b4558635d0f772anat,
    );
    let e: nat = square_10(e, 0xfb91fe986b6d4f4961f84d8b825905ebf381e06194568589554c7807843nat);
    let e: nat = square_10(e, 0x170a61d2a0cbb5cd8bf85c19a259590255de83181832e52d63e169267828nat);
    let e: nat = square_10(e, 0x1d1459c5376efe5ca4bbf46014c3d391cd6629fab44c8f4784e9b747d187nat);
    let e: nat = square_10(e, 0x1d201e0d9a6bee23d407d7b4d0956974af2c3aea211b0732d570794e2278nat);
    let e: nat = square_10(e, 0x618c0d47cdec782a6162cd5f61f711b2b9bbdb70c7fe768e9c7e8ded198nat);
    let e: nat = square_10(e, 0x148d2449e6ec30d5becaff00e8f307a7a1a217163e6e5cf620fb0df62351nat);
    let e: nat = square_10(e, 0xfe9ef0357c06f39b039e963a065a8d5a962f89f14cd25524ef34e380e73nat);
    let e: nat = square_mul_10(
        e,
        0x12aee0a65f9be8f4f442c5651d26b223d8a9b09692617d48e5e3f985dc65nat,
    );
    let e: nat = square_10(e, 0x9d065bd18148ec6bd7724dfa4dc33b6df5c8f966dad39d8b91eecff352anat);
    let e: nat = square_10(e, 0x6cac2fd583ecea6e9e35f550bd84767304a95afc6487ca5776e90874fd8nat);
    let e: nat = square_mul_10(
        e,
        0x1a1f736941084fd9d7ced0f76f0cb2ced4fba15fc9edc5636cf5318bf9cenat,
    );
}

/// Chain 10 up to digit 33 of 33 of its exponent.
proof fn chain_10_2()
    ensures
        power_mod(
            0x10c6eb2a78faeab5263f8fb21101c175836a75b13ed04c6792254467e2a7nat,
            0x168090966,
            0x1db8260e5e3b460a46a0088fccf6a3a5936d75d89a776d4c0da4f338aafbnat,
        ) == 0x3665bb8a9996b0f6246a6f72628fac63329e15df5a283ce2308f3462d4anat,
{
    chain_10_1();
    let e: nat = 92169;
    let e: nat = square_10(e, 0x1a67ccb53693e626da0bb7a04354d9a15bb729e32361366a9999a4ad4cbnat);
    let e: nat = square_10(e, 0x1b3659ca40278ddac2f7a4a27acb8f42547598ea473d0f8a9c0faa96c6dnat);
    let e: nat = square_10(e, 0x2324386c36b08c7857321a8482891fd1e6b08efd83cfc9e4cb5972577f8nat);
    let e: nat = square_10(e, 0xc9e90f242e7b48beb148597e4d3961ad04057d24e671e10a4787777ace4nat);
    let e: nat = square_mul_10(e, 0x432d3e666af105e4fd372852bee597b2c348536c770d3bd44aa598214b9nat);
    let e: nat = square_10(e, 0xa12420536fe980651b5804e157aab105e5cc93ef5df3f9930a7f3f61649nat);
    let e: nat = square_10(e, 0x187baa059545bfb1042154e2223dd6494fc3efa4b6f92b611dcf23268724nat);
    let e: nat = square_mul_10(e, 0xbaf246083b64faeb7cd0571b404bc3322759820af4d6955180ae0ef00ddnat);
    let e: nat = square_10(e, 0x1983754dfc19a011588126ec8e453698beb71fca03073833edce28894ed7nat);
    let e: nat = square_mul_10(e, 0xe470b726107929b36c87bbfd66320b64f62534d716650e6da22f0ba0349nat);
    let e: nat = square_mul_10(
        e,
        0x1694b10f63402c668e4eb863306d43ec6d431a723168f709ecb57fc8c227nat,
    );
    let e: nat = square_10(e, 0x5963347589966193e0d169d78642b1b5ec99c7c21b7a5fd8556ca57337cnat);
    let e: nat = square_10(e, 0x10806498dd54ee808fd34bf8db90b9f55ff05ebb6b53f0d478bf055940e4nat);
    let e: nat = square_mul_10(e, 0xe1b292380d295ab072ea85bb68c3aae928b265d6b13aea5649d751caa83nat);
    let e: nat = square_mul_10(
        e,
        0x1a3719baa92049e133b714eed06a4fd25898f1e0b8950f6578c29d755703nat,
    );
    let e: nat = square_10(e, 0xe1c0395c5ede61c73a558381ed6ae4cdc9eebf18ae316c6a823afa25e70nat);
}

/// A digit zero in chain 11.
proof fn square_11(e: nat, r: nat) -> (e2: nat)
    requires
        power_mod(
            0x11792dcc36513c4856df221058a7336bbc5ac2cb150705479d99b477canat,
            e,
            0x1db8260e5e3b460a46a0088fccf6a3a5936d75d89a776d4c0da4f338aafbnat,
        ) == r,
    ensures
        e2 == 2 * e,
        power_mod(
            0x11792dcc36513c4856df221058a7336bbc5ac2cb150705479d99b477canat,
            e2,
            0x1db8260e5e3b460a46a0088fccf6a3a5936d75d89a776d4c0da4f338aafbnat,
        ) == (r * r) % 0x1db8260e5e3b460a46a0088fccf6a3a5936d75d89a776d4c0da4f338aafbnat,
{
    lemma_chain_square(
        0x11792dcc36513c4856df221058a7336bbc5ac2cb150705479d99b477canat,
        0x1db8260e5e3b460a46a0088fccf6a3a5936d75d89a776d4c0da4f338aafbnat,
        e,
        r,
    )
}

/// A digit one in chain 11.
proof fn square_mul_11(e: nat, r: nat) -> (e2: nat)
    requires
        power_mod(
            0x11792dcc36513c4856df221058a7336bbc5ac2cb150705479d99b477canat,
            e,
            0x1db8260e5e3b460a46a0088fccf6a3a5936d75d89a776d4c0da4f338aafbnat,
        ) == r,
    ensures
        e2 == 2 * e + 1,
        power_mod(
            0x11792dcc36513c4856df221058a7336bbc5ac2cb150705479d99b477canat,
            e2,
            0x1db8260e5e3b460a46a0088fccf6a3a5936d75d89a776d4c0da4f338aafbnat,
        ) == (r * r * 0x11792dcc36513c4856df221058a7336bbc5ac2cb150705479d99b477canat) % 0x1db8260e5e3b460a46a0088fccf6a3a5936d75d89a776d4c0da4f338aafbnat,
{
    lemma_chain_square_mul(
        0x11792dcc36513c4856df221058a7336bbc5ac2cb150705479d99b477canat,
        0x1db8260e5e3b460a46a0088fccf6a3a5936d75d89a776d4c0da4f338aafbnat,
        e,
        r,
    )
}

/// Chain 11 up to digit 17 of 20 of its exponent.
proof fn chain_11_1()
    ensures
        power_mod(
            0x11792dcc36513c4856df221058a7336bbc5ac2cb150705479d99b477canat,
            97766,
            0x1db8260e5e3b460a46a0088fccf6a3a5936d75d89a776d4c0da4f338aafbnat,
        ) == 0x16cbb11d8af46f34624568191c07d2f143420adf875c3daca1c216c7c5c9nat,
{
    lemma_chain_start(
        0x11792dcc36513c4856df221058a7336bbc5ac2cb150705479d99b477canat,
        0x1db8260e5e3b460a46a0088fccf6a3a5936d75d89a776d4c0da4f338aafbnat,
    );
    let e: nat = 1;
    let e: nat = square_11(e, 0x11792dcc36513c4856df221058a7336bbc5ac2cb150705479d99b477canat);
    let e: nat = square_mul_11(
        e,
        0x14ad874c33e15ebbba15460e1a0b424d8a54d9859617e61f6905dc54f3e2nat,
    );
    let e: nat = square_mul_11(
        e,
        0x1a6f4d7635a1342be9f66b974b0e2384904e85e975dd45b8ad296c5d86fanat,
    );
    let e: nat = square_mul_11(e, 0x358a4d439d2e48a39aba55c1de6c9a8672530925f179e7000e7f55740f9nat);
    let e: nat = square_mul_11(e, 0x349ddef56e4d3a4a665054a62f1562735053e524c721f389a0d18675b3nat);
    let e: nat = square_mul_11(e, 0x83e14e8566d20f4520183c7852d5760fc13d1fb438bf64cce7ae7419c77nat);
    let e: nat = square_11(e, 0xe6dbfe9648ddb425da040bc8db609f3d29fb9af1041d2ac4d74d35b06ecnat);
    let e: nat = square_mul_11(
        e,
        0x18bd9677235a26fcf544321c173974dc0b651bb216e29c6ec8036e585e4dnat,
    );
    let e: nat = square_mul_11(e, 0x481af74c20f17978e6623b8c68d12e0a9571db1cd14d17e052d27317e0dnat);
    let e: nat = square_mul_11(
        e,
        0x1150de060e3c680944ae553f5927ec97895fc151de42107fc883d4e473e3nat,
    );
    let e: nat = square_mul_11(
        e,
        0x12707863a54505911dde27993f8e2d00f9f8f6b4379e0f8ca1e14b22b597nat,
    );
    let e: nat = square_11(e, 0x143d44d039a4d2fc21a2846c4c2c2eaaf2969ce54de038518a46816b6f27nat);
    let e: nat = square_11(e, 0xea791e8b7d04d602ac3e4f5531b4fa12936d0a8f334154d90e2428957a5nat);
    let e: nat = square_mul_11(e, 0x694244b078f514605dc835dbdfe6203225bf7481768524079f8871b9eenat);
    let e: nat = square_mul_11(
        e,
        0x16f837c09ff6ce7fbe9eeab34acfde47a692cda3846824dea51c199344dbnat,
    );
    let e: nat = square_11(e, 0x10537087d017aeaa8ed94ebae004ac34421a0c33d5044837d20cf0045376nat);
}

/// Chain 11 up to digit 20 of 20 of its exponent.
proof fn chain_11_2()
    ensures
        power_mod(
            0x11792dcc36513c4856df221058a7336bbc5ac2cb150705479d99b477canat,
            782130,
            0x1db8260e5e3b460a46a0088fccf6a3a5936d75d89a776d4c0da4f338aafbnat,
        ) == 0x11eb04d510d371aab32fe4a6ac6542185712560f3b9115da5bcc72301155nat,
{
    chain_11_1();
    let e: nat = 97766;
    let e: nat = square_11(e, 0x16cbb11d8af46f34624568191c07d2f143420adf875c3daca1c216c7c5c9nat);
    let e: nat = square_mul_11(
        e,
        0x142eeea260941d32f6f4222996f82f9c8a304ffd4c9b994c71f5cc01147dnat,
    );
    let e: nat = square_11(e, 0x38c8f3608722e3a3977ef8f20b0dc7a4c4284c546c8aa453327824bac52nat);
}

/// A digit zero in chain 12.
proof fn square_12(e: nat, r: nat) -> (e2: nat)
    requires
        power_mod(
            0x5160f74541c11b54a4508255a4c6e15eae44f68171f0d9406831421f148nat,
            e,
            0x1db8260e5e3b460a46a0088fccf6a3a5936d75d89a776d4c0da4f338aafbnat,
        ) == r,
    ensures
        e2 == 2 * e,
        power_mod(
            0x5160f74541c11b54a4508255a4c6e15eae44f68171f0d9406831421f148nat,
            e2,
            0x1db8260e5e3b460a46a0088fccf6a3a5936d75d89a776d4c0da4f338aafbnat,
        ) == (r * r) % 0x1db8260e5e3b460a46a0088fccf6a3a5936d75d89a776d4c0da4f338aafbnat,
{
    lemma_chain_square(
        0x5160f74541c11b54a4508255a4c6e15eae44f68171f0d9406831421f148nat,
        0x1db8260e5e3b460a46a0088fccf6a3a5936d75d89a776d4c0da4f338aafbnat,
        e,
        r,
    )
}

/// A digit one in chain 12.
proof fn square_mul_12(e: nat, r: nat) -> (e2: nat)
    requires
        power_mod(
            0x5160f74541c11b54a4508255a4c6e15eae44f68171f0d9406831421f148nat,
            e,
            0x1db8260e5e3b460a46a0088fccf6a3a5936d75d89a776d4c0da4f338aafbnat,
        ) == r,
    ensures
        e2 == 2 * e + 1,
        power_mod(
            0x5160f74541c11b54a4508255a4c6e15eae44f68171f0d9406831421f148nat,
            e2,
            0x1db8260e5e3b460a46a0088fccf6a3a5936d75d89a776d4c0da4f338aafbnat,
        ) == (r * r * 0x5160f74541c11b54a4508255a4c6e15eae44f68171f0d9406831421f148nat) % 0x1db8260e5e3b460a46a0088fccf6a3a5936d75d89a776d4c0da4f338aafbnat,
{
    lemma_chain_square_mul(
        0x5160f74541c11b54a4508255a4c6e15eae44f68171f0d9406831421f148nat,
        0x1db8260e5e3b460a46a0088fccf6a3a5936d75d89a776d4c0da4f338aafbnat,
        e,
        r,
    )
}

/// Chain 12.
proof fn chain_12()
    ensures
        power_mod(
            0x5160f74541c11b54a4508255a4c6e15eae44f68171f0d9406831421f148nat,
            25230,
            0x1db8260e5e3b460a46a0088fccf6a3a5936d75d89a776d4c0da4f338aafbnat,
        ) == 0x19ec4fb39f46118023fb5bd8cd986a49b1ec5dec7dc5a90accd4c80f7209nat,
{
    lemma_chain_start(
        0x5160f74541c11b54a4508255a4c6e15eae44f68171f0d9406831421f148nat,
        0x1db8260e5e3b460a46a0088fccf6a3a5936d75d89a776d4c0da4f338aafbnat,
    );
    let e: nat = 1;
    let e: nat = square_mul_12(e, 0x5160f74541c11b54a4508255a4c6e15eae44f68171f0d9406831421f148nat);
    let e: nat = square_12(e, 0x55eabf2fbb795a2169ccc368312506610d82bd1c2b5716ee164b13b228anat);
    let e: nat = square_12(e, 0x1ab4a8f89f1dd69fb59f66a0dc0410b6e78bc504aeaa958add96c4b3d5dnat);
    let e: nat = square_12(e, 0x18b6584195235ab0c969c6058a5c418aa1ea03beb494d8b0c7cb5a6315fnat);
    let e: nat = square_mul_12(
        e,
        0x13b958d1f43d7dc4e4b347885064626da2c2d2b01abc80a00447975b99a0nat,
    );
    let e: nat = square_12(e, 0xa4597774467a06af1fc883cd8d07d8a238477082c5962a89fa085dad8d4nat);
    let e: nat = square_mul_12(
        e,
        0x1a0cfa58907b87422b8199720f462e19571848019add1e3e074c95fa7403nat,
    );
    let e: nat = square_12(e, 0xb7829995c44dd8e6cad60634938d9b08466cead1b59a9f65845859ef606nat);
    let e: nat = square_12(e, 0x151af784d12d59257bf7144e39fb837ee1a8cf026b58417f2613ade82afenat);
    let e: nat = square_12(e, 0x1d08878136793a843237e6aa8788be7d7394ba15aa5da044623cd88f2cefnat);
    let e: nat = square_mul_12(
        e,
        0x19cb62281dbe3d7a9c0d99f97a7ddb20ec4e8fd1460dbcd3c19e4b6d6642nat,
    );
    let e: nat = square_mul_12(e, 0xf90ccd749591522410bd2d752cfe3ad450ec15683d08004f4775de18d3bnat);
    let e: nat = square_mul_12(
        e,
        0x18cf062d459444c534a6be8d225529c83782765505807749772cf0c35f2cnat,
    );
    let e: nat = square_12(e, 0x1be15de557010ee5ddcb74fe3c4d5e004861c298b33d3de36cf333657e1fnat);
}

/// A digit zero in chain 13.
proof fn square_13(e: nat, r: nat) -> (e2: nat)
    requires
        power_mod(
            0x434d29ac94bb97caef38373e6226b2b0a2899232f4acb605f2592e0438bnat,
            e,
            0x1db8260e5e3b460a46a0088fccf6a3a5936d75d89a776d4c0da4f338aafbnat,
        ) == r,
    ensures
        e2 == 2 * e,
        power_mod(
            0x434d29ac94bb97caef38373e6226b2b0a2899232f4acb605f2592e0438bnat,
            e2,
            0x1db8260e5e3b460a46a0088fccf6a3a5936d75d89a776d4c0da4f338aafbnat,
        ) == (r * r) % 0x1db8260e5e3b460a46a0088fccf6a3a5936d75d89a776d4c0da4f338aafbnat,
{
    lemma_chain_square(
        0x434d29ac94bb97caef38373e6226b2b0a2899232f4acb605f2592e0438bnat,
        0x1db8260e5e3b460a46a0088fccf6a3a5936d75d89a776d4c0da4f338aafbnat,
        e,
        r,
    )
}

/// A digit one in chain 13.
proof fn square_mul_13(e: nat, r: nat) -> (e2: nat)
    requires
        power_mod(
            0x434d29ac94bb97caef38373e6226b2b0a2899232f4acb605f2592e0438bnat,
            e,
            0x1db8260e5e3b460a46a0088fccf6a3a5936d75d89a776d4c0da4f338aafbnat,
        ) == r,
    ensures
        e2 == 2 * e + 1,
        power_mod(
            0x434d29ac94bb97caef38373e6226b2b0a2899232f4acb605f2592e0438bnat,
            e2,
            0x1db8260e5e3b460a46a0088fccf6a3a5936d75d89a776d4c0da4f338aafbnat,
        ) == (r * r * 0x434d29ac94bb97caef38373e6226b2b0a2899232f4acb605f2592e0438bnat) % 0x1db8260e5e3b460a46a0088fccf6a3a5936d75d89a776d4c0da4f338aafbnat,
{
    lemma_chain_square_mul(
        0x434d29ac94bb97caef38373e6226b2b0a2899232f4acb605f2592e0438bnat,
        0x1db8260e5e3b460a46a0088fccf6a3a5936d75d89a776d4c0da4f338aafbnat,
        e,
        r,
    )
}

/// Chain 13.
proof fn chain_13()
    ensures
        power_mod(
            0x434d29ac94bb97caef38373e6226b2b0a2899232f4acb605f2592e0438bnat,
            870,
            0x1db8260e5e3b460a46a0088fccf6a3a5936d75d89a776d4c0da4f338aafbnat,
        ) == 0xd24f6ac9f3bd34f71a82892971744a77bc1bfae3143cc6ce8c9bc01719anat,
{
    lemma_chain_start(
        0x434d29ac94bb97caef38373e6226b2b0a2899232f4acb605f2592e0438bnat,
        0x1db8260e5e3b460a46a0088fccf6a3a5936d75d89a776d4c0da4f338aafbnat,
    );
    let e: nat = 1;
    let e: nat = square_mul_13(e, 0x434d29ac94bb97caef38373e6226b2b0a2899232f4acb605f2592e0438bnat);
    let e: nat = square_13(e, 0x92bccdb0f7712f45e792f20aebc617201337ff1d6cdf7bc2920f83fb107nat);
    let e: nat = square_mul_13(e, 0xb6e574ded9b16c3d6517deab1a9c9b8f6c616508065faa641dcc28d786dnat);
    let e: nat = square_mul_13(
        e,
        0x19b56914755289c84ca52ceee98a04eaec638b34e90d1da2453b2bd67818nat,
    );
    let e: nat = square_13(e, 0x31da1a95a865e180b2f60a32546dc424b95127bb473ef8da10ccbc32628nat);
    let e: nat = square_13(e, 0x5393040dcd2edf7376b94308a555fd7ba99c0269cbb4d3bbda9f8075684nat);
    let e: nat = square_mul_13(
        e,
        0x11609b90843c49a2e0b9deda56b885f73540d06a45be0b5236673ae8df7enat,
    );
    let e: nat = square_mul_13(e, 0x3f5cb3044a80f3bdf25af75570babd7f51a0586d00aab28735d5d525647nat);
    let e: nat = square_13(e, 0x1373cac2d546a08f8cfecf2958d1f7d7ad68103be906c4a9744693985293nat);
}

/// Chain 14.
proof fn chain_14()
    ensures
        power_mod(
            0xcbf50f162a627edff7db113ec1dc3d8f65dc7dc440a0c856d9b7ffc254enat,
            6,
            0x1db8260e5e3b460a46a0088fccf6a3a5936d75d89a776d4c0da4f338aafbnat,
        ) == 0x158a63df12455d7ed56aa0b49475c95075680f685a9274cad3fcacf88dc7nat,
{
    lemma_chain_start(
        0xcbf50f162a627edff7db113ec1dc3d8f65dc7dc440a0c856d9b7ffc254enat,
        0x1db8260e5e3b460a46a0088fccf6a3a5936d75d89a776d4c0da4f338aafbnat,
    );
    let e: nat = 1;
    let e: nat = lemma_chain_square_mul(
        0xcbf50f162a627edff7db113ec1dc3d8f65dc7dc440a0c856d9b7ffc254enat,
        0x1db8260e5e3b460a46a0088fccf6a3a5936d75d89a776d4c0da4f338aafbnat,
        e,
        0xcbf50f162a627edff7db113ec1dc3d8f65dc7dc440a0c856d9b7ffc254enat,
    );
    let e: nat = lemma_chain_square(
        0xcbf50f162a627edff7db113ec1dc3d8f65dc7dc440a0c856d9b7ffc254enat,
        0x1db8260e5e3b460a46a0088fccf6a3a5936d75d89a776d4c0da4f338aafbnat,
        e,
        0xf69d8a4db984c26c095769fdd2deb5bd9fdae044f32f616bb2eaa2b9b5enat,
    );
}

/// Chain 15.
proof fn chain_15()
    ensures
        power_mod(
            0x19e13d64ecf8054c0c195a4fd00298835ea4ec6b4d32290aa855b6a1c94fnat,
            2,
            0x1db8260e5e3b460a46a0088fccf6a3a5936d75d89a776d4c0da4f338aafbnat,
        ) == 0x19e13d64ecf8054c0c195a4fd00298835ea4ec6b4d32290aa855b6a1c94enat,
{
    lemma_chain_start(
        0x19e13d64ecf8054c0c195a4fd00298835ea4ec6b4d32290aa855b6a1c94fnat,
        0x1db8260e5e3b460a46a0088fccf6a3a5936d75d89a776d4c0da4f338aafbnat,
    );
    let e: nat = 1;
    let e: nat = lemma_chain_square(
        0x19e13d64ecf8054c0c195a4fd00298835ea4ec6b4d32290aa855b6a1c94fnat,
        0x1db8260e5e3b460a46a0088fccf6a3a5936d75d89a776d4c0da4f338aafbnat,
        e,
        0x19e13d64ecf8054c0c195a4fd00298835ea4ec6b4d32290aa855b6a1c94fnat,
    );
}

/// `10` is a Lucas witness for `0x1db8260e5e3b460a46a0088fccf6a3a5936d75d89a776d4c0da4f338aafb`.
pub proof fn lemma_witness()
    ensures
        lucas_witness(0x1db8260e5e3b460a46a0088fccf6a3a5936d75d89a776d4c0da4f338aafbnat, 10),
{
    lemma_prime_2();
    lemma_prime_3();
    lemma_prime_5();
    lemma_prime_29();
    lemma_prime_31();
    lemma_prime_7723();
    crate::primality::prime_77::lemma_prime();
    crate::primality::prime_128::lemma_prime();
    // The base raised to n - 1, one prime power of n - 1 after the other.
    chain_1_8();
    chain_2_5();
    lemma_chain_compose(
        10,
        0xc03a94b2d3e64419a05cd8ccbf987069nat,
        0x10c6eb2a78faeab5263f8fb21101c175836a75b13ed04c6792254467e2a7nat,
        0x1c245bc19c3dfa0c4ab7,
        0x1db8260e5e3b460a46a0088fccf6a3a5936d75d89a776d4c0da4f338aafbnat,
    );
    chain_3();
    lemma_chain_compose(
        10,
        0x1521b566acaae44dd3bfeba26b05e387a0ef33b9c7afd562b50fnat,
        0x11792dcc36513c4856df221058a7336bbc5ac2cb150705479d99b477canat,
        7723,
        0x1db8260e5e3b460a46a0088fccf6a3a5936d75d89a776d4c0da4f338aafbnat,
    );
    chain_4();
    lemma_chain_compose(
        10,
        0x27d7feb807b077577e30ed99cd2aaa71ca4103d759b258a68cc2b85nat,
        0x5160f74541c11b54a4508255a4c6e15eae44f68171f0d9406831421f148nat,
        31,
        0x1db8260e5e3b460a46a0088fccf6a3a5936d75d89a776d4c0da4f338aafbnat,
    );
    chain_5();
    lemma_chain_compose(
        10,
        0x4d327d848ee5e739847ecc59fd82aa3c77ddf7713dc98bc2b0b9451bnat,
        0x434d29ac94bb97caef38373e6226b2b0a2899232f4acb605f2592e0438bnat,
        841,
        0x1db8260e5e3b460a46a0088fccf6a3a5936d75d89a776d4c0da4f338aafbnat,
    );
    chain_6();
    lemma_chain_compose(
        10,
        0xfd9ade587971449bf4448d53a1d24140a5c831e303fb1c229690a405b3nat,
        0xcbf50f162a627edff7db113ec1dc3d8f65dc7dc440a0c856d9b7ffc254enat,
        5,
        0x1db8260e5e3b460a46a0088fccf6a3a5936d75d89a776d4c0da4f338aafbnat,
    );
    chain_7();
    lemma_chain_compose(
        10,
        0x4f40657ba5f36570bc556c2a2291b46433ce8f96f13e78cacf0d3341c7fnat,
        0x19e13d64ecf8054c0c195a4fd00298835ea4ec6b4d32290aa855b6a1c94fnat,
        3,
        0x1db8260e5e3b460a46a0088fccf6a3a5936d75d89a776d4c0da4f338aafbnat,
    );
    chain_8();
    lemma_chain_compose(
        10,
        0xedc13072f1da30523500447e67b51d2c9b6baec4d3bb6a606d2799c557dnat,
        0x1db8260e5e3b460a46a0088fccf6a3a5936d75d89a776d4c0da4f338aafanat,
        2,
        0x1db8260e5e3b460a46a0088fccf6a3a5936d75d89a776d4c0da4f338aafbnat,
    );
    // The base raised to (n - 1) / q, for each prime q that divides n - 1.
    chain_9_7();
    chain_10_2();
    lemma_chain_compose(
        10,
        0xc03a94b2d3e64419a05cd8ccbf987069nat,
        0x10c6eb2a78faeab5263f8fb21101c175836a75b13ed04c6792254467e2a7nat,
        0x168090966,
        0x1db8260e5e3b460a46a0088fccf6a3a5936d75d89a776d4c0da4f338aafbnat,
    );
    chain_11_2();
    lemma_chain_compose(
        10,
        0x1521b566acaae44dd3bfeba26b05e387a0ef33b9c7afd562b50fnat,
        0x11792dcc36513c4856df221058a7336bbc5ac2cb150705479d99b477canat,
        782130,
        0x1db8260e5e3b460a46a0088fccf6a3a5936d75d89a776d4c0da4f338aafbnat,
    );
    chain_12();
    lemma_chain_compose(
        10,
        0x27d7feb807b077577e30ed99cd2aaa71ca4103d759b258a68cc2b85nat,
        0x5160f74541c11b54a4508255a4c6e15eae44f68171f0d9406831421f148nat,
        25230,
        0x1db8260e5e3b460a46a0088fccf6a3a5936d75d89a776d4c0da4f338aafbnat,
    );
    chain_13();
    lemma_chain_compose(
        10,
        0x4d327d848ee5e739847ecc59fd82aa3c77ddf7713dc98bc2b0b9451bnat,
        0x434d29ac94bb97caef38373e6226b2b0a2899232f4acb605f2592e0438bnat,
        870,
        0x1db8260e5e3b460a46a0088fccf6a3a5936d75d89a776d4c0da4f338aafbnat,
    );
    chain_14();
    lemma_chain_compose(
        10,
        0xfd9ade587971449bf4448d53a1d24140a5c831e303fb1c229690a405b3nat,
        0xcbf50f162a627edff7db113ec1dc3d8f65dc7dc440a0c856d9b7ffc254enat,
        6,
        0x1db8260e5e3b460a46a0088fccf6a3a5936d75d89a776d4c0da4f338aafbnat,
    );
    chain_15();
    lemma_chain_compose(
        10,
        0x4f40657ba5f36570bc556c2a2291b46433ce8f96f13e78cacf0d3341c7fnat,
        0x19e13d64ecf8054c0c195a4fd00298835ea4ec6b4d32290aa855b6a1c94fnat,
        2,
        0x1db8260e5e3b460a46a0088fccf6a3a5936d75d89a776d4c0da4f338aafbnat,
    );
    // No other prime divides n - 1.
    assert forall|q: nat|
        #[trigger] is_prime(q) && divides(
            q,
            (0x1db8260e5e3b460a46a0088fccf6a3a5936d75d89a776d4c0da4f338aafbnat - 1) as nat,
        ) implies power_mod(
        10,
        ((0x1db8260e5e3b460a46a0088fccf6a3a5936d75d89a776d4c0da4f338aafbnat - 1) / (q as int)) as nat,
        0x1db8260e5e3b460a46a0088fccf6a3a5936d75d89a776d4c0da4f338aafbnat,
    ) != 1 by {
        lemma_prime_factor(
            q,
            0xc03a94b2d3e64419a05cd8ccbf987069nat,
            0x27941f57fb3c037181fc07f533ea,
        );
        if q != 0xc03a94b2d3e64419a05cd8ccbf987069nat {
            lemma_prime_factor(q, 0x1c245bc19c3dfa0c4ab7, 0x168090966);
            if q != 0x1c245bc19c3dfa0c4ab7 {
                lemma_prime_factor(q, 7723, 782130);
                if q != 7723 {
                    lemma_prime_factor(q, 31, 25230);
                    if q != 31 {
                        lemma_prime_factor(q, 29, 870);
                        lemma_prime_factor(q, 29, 30);
                        if q != 29 {
                            lemma_prime_factor(q, 5, 6);
                            if q != 5 {
                                lemma_prime_factor(q, 3, 2);
                                if q != 3 {
                                    lemma_prime_factor(q, 2, 1);
                                    if q != 2 {
                                        lemma_prime_not_unit(q);
                                    }
                                }
                            }
                        }
                    }
                }
            }
        }
        if q == 0xc03a94b2d3e64419a05cd8ccbf987069nat {
            assert((0x1db8260e5e3b460a46a0088fccf6a3a5936d75d89a776d4c0da4f338aafbnat - 1)
                / 0xc03a94b2d3e64419a05cd8ccbf987069int
                == 0x27941f57fb3c037181fc07f533ea);
        }
        if q == 0x1c245bc19c3dfa0c4ab7 {
            assert((0x1db8260e5e3b460a46a0088fccf6a3a5936d75d89a776d4c0da4f338aafbnat - 1)
                / 0x1c245bc19c3dfa0c4ab7int
                == 0x10e592a395ad6cb8ff48d3cfcb53eaec04e617ad6nat);
        }
        if q == 7723 {
            assert((0x1db8260e5e3b460a46a0088fccf6a3a5936d75d89a776d4c0da4f338aafbnat - 1)
                / 7723int
                == 0xfc316459b49913dd5922a87340e42d65fa03f8fe204453cc9bf55deenat);
        }
        if q == 31 {
            assert((0x1db8260e5e3b460a46a0088fccf6a3a5936d75d89a776d4c0da4f338aafbnat - 1)
                / 31int
                == 0xf56c951bd05d191b0d6ba18abda22ea1a8b138891ca06dcee449e90dc6nat);
        }
        if q == 29 {
            assert((0x1db8260e5e3b460a46a0088fccf6a3a5936d75d89a776d4c0da4f338aafbnat - 1)
                / 29int
                == 0x1065996907da14fcd7846ea79d38a0e897f5c56ead7faf0f7a495a0d9c2nat);
        }
        if q == 5 {
            assert((0x1db8260e5e3b460a46a0088fccf6a3a5936d75d89a776d4c0da4f338aafbnat - 1)
                / 5int
                == 0x5f1a13612d8a79ba7b99b4ff5caed8783e2b12b5217e2a8cf8763d82232nat);
        }
        if q == 3 {
            assert((0x1db8260e5e3b460a46a0088fccf6a3a5936d75d89a776d4c0da4f338aafbnat - 1)
                / 3int
                == 0x9e80caf74be6cae178aad854452368c8679d1f2de27cf1959e1a66838fenat);
        }
        if q == 2 {
            assert((0x1db8260e5e3b460a46a0088fccf6a3a5936d75d89a776d4c0da4f338aafbnat - 1)
                / 2int
                == 0xedc13072f1da30523500447e67b51d2c9b6baec4d3bb6a606d2799c557dnat);
        }
    }
}

/// `0x1db8260e5e3b460a46a0088fccf6a3a5936d75d89a776d4c0da4f338aafb` is prime.
pub proof fn lemma_prime()
    ensures
        is_prime(0x1db8260e5e3b460a46a0088fccf6a3a5936d75d89a776d4c0da4f338aafbnat),
{
    lemma_witness();
    lemma_lucas(0x1db8260e5e3b460a46a0088fccf6a3a5936d75d89a776d4c0da4f338aafbnat, 10);
}

} // verus!
