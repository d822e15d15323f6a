use num_bigint::BigUint;
use secp256k1_arith::affine::{affine_add, modp};
use secp256k1_arith::scalar_mul::{affine_scalar_mul, jacobian_scalar_mul};

fn big(s: &str) -> BigUint {
    BigUint::parse_bytes(s.as_bytes(), 10).unwrap()
}

const GX: &str = "55066263022277343669578718895168534326250603453777594175500187360389116729240";
const GY: &str = "32670510020758816978083085130507043184471273380659243275938904335757337482424";
const ORDER: &str = "115792089237316195423570985008687907852837564279074904382605163141518161494337";

// Records of the form: k, P.x, P.y, expected x, expected y.
const RECORDS: [[&str; 5]; 9] = [
    ["1", GX, GY, GX, GY],
    [
        "2",
        GX,
        GY,
        "89565891926547004231252920425935692360644145829622209833684329913297188986597",
        "12158399299693830322967808612713398636155367887041628176798871954788371653930",
    ],
    [
        "3",
        GX,
        GY,
        "112711660439710606056748659173929673102114977341539408544630613555209775888121",
        "25583027980570883691656905877401976406448868254816295069919888960541586679410",
    ],
    [
        "5",
        GX,
        GY,
        "21505829891763648114329055987619236494102133314575206970830385799158076338148",
        "98003708678762621233683240503080860129026887322874138805529884920309963580118",
    ],
    [
        "7",
        GX,
        GY,
        "41948375291644419605210209193538855353224492619856392092318293986323063962044",
        "48361766907851246668144012348516735800090617714386977531302791340517493990618",
    ],
    [
        "2",
        "21505829891763648114329055987619236494102133314575206970830385799158076338148",
        "98003708678762621233683240503080860129026887322874138805529884920309963580118",
        "72488970228380509287422715226575535698893157273063074627791787432852706183111",
        "62070622898698443831883535403436258712770888294397026493185421712108624767191",
    ],
    [
        "5460065707088677537923460387337279996029946897852762777207",
        GX,
        GY,
        "84604409711820074813158336818661803408755551181626730039956660200469616897395",
        "32119804710447015884122735781472488341257720727281381158471819349800635823833",
    ],
    [
        "450563043300108022437192274762516681813546753903174624691014755169129523036554262506075830",
        GX,
        GY,
        "9635498554037783577407135746479479495928013366994750958156268894422145175894",
        "66498698794258253619567223320852161844037156188654671899260084901930915342488",
    ],
    [
        "115792089237316195423570985008687907852837564279074904382605163141518161494336",
        GX,
        GY,
        GX,
        "83121579216557378445487899878180864668798711284981320763518679672151497189239",
    ],
];

#[test]
fn test_affine_scalar() {
    for record in RECORDS.iter() {
        let parse = |i: usize| -> BigUint { big(record[i]) };

        let k = parse(0);
        let point = Some((parse(1) % modp(), parse(2) % modp()));
        let expected = (parse(3) % modp(), parse(4) % modp());

        let result = affine_scalar_mul(&k, &point).expect("Affine scalar multiplication failed");
        assert_eq!(
            result, expected,
            "Affine scalar mul failed:\nk = {}\nP = {:?}",
            k, point
        );
    }
}

#[test]
fn test_jacobian_scalar() {
    for record in RECORDS.iter() {
        let parse = |i: usize| -> BigUint { big(record[i]) };

        let k = parse(0);
        let point = (parse(1) % modp(), parse(2) % modp());
        let expected = (parse(3) % modp(), parse(4) % modp());

        let result =
            jacobian_scalar_mul(&k, &point).expect("Jacobian scalar multiplication failed");
        assert_eq!(
            result, expected,
            "Jacobian scalar mul failed:\nk = {}\nP = {:?}",
            k, point
        );
    }
}

#[test]
fn zero_scalar_gives_infinity() {
    let g = (big(GX), big(GY));
    let zero = BigUint::from(0u32);
    assert_eq!(affine_scalar_mul(&zero, &Some(g.clone())), None);
    assert_eq!(affine_scalar_mul(&zero, &None), None);
    assert_eq!(jacobian_scalar_mul(&zero, &g), None);
}

#[test]
fn infinity_times_scalar_is_infinity() {
    assert_eq!(affine_scalar_mul(&BigUint::from(12345u32), &None), None);
}

#[test]
fn small_multiples_are_repeated_additions() {
    let g = Some((big(GX), big(GY)));
    let g2 = affine_add(&g, &g);
    let g3 = affine_add(&g2, &g);
    assert_eq!(affine_scalar_mul(&BigUint::from(2u32), &g), g2);
    assert_eq!(affine_scalar_mul(&BigUint::from(3u32), &g), g3);
    let gj = (big(GX), big(GY));
    assert_eq!(jacobian_scalar_mul(&BigUint::from(2u32), &gj), g2);
    assert_eq!(jacobian_scalar_mul(&BigUint::from(3u32), &gj), g3);
}

#[test]
fn generator_times_two_in_both_systems() {
    let expected = Some((
        big("89565891926547004231252920425935692360644145829622209833684329913297188986597"),
        big("12158399299693830322967808612713398636155367887041628176798871954788371653930"),
    ));
    let g = (big(GX), big(GY));
    assert_eq!(affine_scalar_mul(&BigUint::from(2u32), &Some(g.clone())), expected);
    assert_eq!(jacobian_scalar_mul(&BigUint::from(2u32), &g), expected);
}

#[test]
fn both_systems_agree() {
    let g = (big(GX), big(GY));
    let scalars = [
        "1",
        "2",
        "3",
        "4",
        "255",
        "256",
        "65537",
        "5460065707088677537923460387337279996029946897852762777207",
        "450563043300108022437192274762516681813546753903174624691014755169129523036554262506075830",
    ];
    for s in scalars {
        let k = big(s);
        assert_eq!(affine_scalar_mul(&k, &Some(g.clone())), jacobian_scalar_mul(&k, &g));
    }
}

#[test]
fn group_order_gives_infinity() {
    let g = (big(GX), big(GY));
    let n = big(ORDER);
    assert_eq!(affine_scalar_mul(&n, &Some(g.clone())), None);
    assert_eq!(jacobian_scalar_mul(&n, &g), None);
}

#[test]
fn scalars_beyond_the_group_order_wrap_around() {
    let g = (big(GX), big(GY));
    let n = big(ORDER);
    let one = BigUint::from(1u32);
    for k in [&n + &one, &n * BigUint::from(2u32) + &one] {
        assert_eq!(affine_scalar_mul(&k, &Some(g.clone())), Some(g.clone()));
        assert_eq!(jacobian_scalar_mul(&k, &g), Some(g.clone()));
    }
    let twice = &n * BigUint::from(2u32);
    assert_eq!(affine_scalar_mul(&twice, &Some(g.clone())), None);
    assert_eq!(jacobian_scalar_mul(&twice, &g), None);
}

#[test]
fn scalar_bits_are_read_most_significant_first() {
    // 6 = 110b: ((P doubled) + P) doubled.
    let g = Some((big(GX), big(GY)));
    let g2 = affine_add(&g, &g);
    let g3 = affine_add(&g2, &g);
    let g6 = affine_add(&g3, &g3);
    assert_eq!(affine_scalar_mul(&BigUint::from(6u32), &g), g6);
    assert_eq!(jacobian_scalar_mul(&BigUint::from(6u32), &(big(GX), big(GY))), g6);
}

#[test]
fn jacobian_scalar_mul_reduces_an_unreduced_point() {
    let g = (big(GX) + modp(), big(GY) + modp());
    assert_eq!(
        jacobian_scalar_mul(&BigUint::from(1u32), &g),
        Some((big(GX), big(GY)))
    );
}
