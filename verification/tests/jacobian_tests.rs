use num_bigint::BigUint;
use secp256k1_arith::affine::{affine_add, modp, Point};
use secp256k1_arith::jacobian::{jacobian_add, jacobian_double, to_affine};

fn big(s: &str) -> BigUint {
    BigUint::parse_bytes(s.as_bytes(), 10).unwrap() % modp()
}

fn pt(x: &str, y: &str) -> Point {
    if x.is_empty() {
        None
    } else {
        Some((big(x), big(y)))
    }
}

fn jac(x: &str, y: &str, z: &str) -> (BigUint, BigUint, BigUint) {
    (big(x), big(y), big(z))
}

const GX: &str = "55066263022277343669578718895168534326250603453777594175500187360389116729240";
const GY: &str = "32670510020758816978083085130507043184471273380659243275938904335757337482424";
const G2X: &str = "89565891926547004231252920425935692360644145829622209833684329913297188986597";
const G2Y: &str = "12158399299693830322967808612713398636155367887041628176798871954788371653930";
const G3X: &str = "112711660439710606056748659173929673102114977341539408544630613555209775888121";
const G3Y: &str = "25583027980570883691656905877401976406448868254816295069919888960541586679410";
const G5X: &str = "21505829891763648114329055987619236494102133314575206970830385799158076338148";
const G5Y: &str = "98003708678762621233683240503080860129026887322874138805529884920309963580118";
const G7X: &str = "41948375291644419605210209193538855353224492619856392092318293986323063962044";
const G7Y: &str = "48361766907851246668144012348516735800090617714386977531302791340517493990618";
const G10X: &str = "72488970228380509287422715226575535698893157273063074627791787432852706183111";
const G10Y: &str = "62070622898698443831883535403436258712770888294397026493185421712108624767191";
const G12X: &str = "94111259592240215275188773285036844871058226277992966241101117022315524122714";
const G12Y: &str = "76870767327212528811304566602812752860184934880685532702451763239157141742375";

// 5G, 7G and -5G with a Z that is not one.
const J5: [&str; 3] = [
    "10019371779974958683248624884553773008284345891467337517596085658221577074124",
    "2058179960946603141324093487902542002970741920341649733368632716959978371982",
    "95097065754048712493019462230827768523616324208853691743435754128633565197370",
];
const J7: [&str; 3] = [
    "74813150429193151724840475080153812540836898834607594997340780731751674156201",
    "49581736144753990883461222935169700374299494565099689172012171747245480968941",
    "24860351219264002510127502876930881678393989031736188690584879294552619323437",
];
const J5B: [&str; 3] = [
    "80512970769460153613070517272699793784177301206238151126038826322178322903387",
    "32495645029501396790081748510596548213957327770187719366473395639419430273795",
    "63806912798634571738808025034475386892157271856625203989141421814633861828826",
];
const JN5: [&str; 3] = [
    "99258454273064951554176686807894637888142500442214237702722907591514189143569",
    "9731376156034808829567634760001322020356485659777630691218006268973916076635",
    "73021492421532667060410026606111736389590672304807578143368807500707988851240",
];

#[test]
fn csv_jacobian_vectors() {
    // Records of the form: X1, Y1, Z1, X2, Y2, Z2, expected x, expected y;
    // an empty expected x stands for the point at infinity.
    let records: [[&str; 8]; 9] = [
        [GX, GY, "1", GX, GY, "1", G2X, G2Y],
        [G2X, G2Y, "1", GX, GY, "1", G3X, G3Y],
        [J5[0], J5[1], J5[2], J7[0], J7[1], J7[2], G12X, G12Y],
        [J7[0], J7[1], J7[2], J5[0], J5[1], J5[2], G12X, G12Y],
        [J5[0], J5[1], J5[2], J5B[0], J5B[1], J5B[2], G10X, G10Y],
        [J5[0], J5[1], J5[2], JN5[0], JN5[1], JN5[2], "", ""],
        ["1", "1", "0", J7[0], J7[1], J7[2], G7X, G7Y],
        [J5[0], J5[1], J5[2], "0", "1", "0", G5X, G5Y],
        ["1", "1", "0", "0", "1", "0", "", ""],
    ];
    for record in records.iter() {
        let p = jac(record[0], record[1], record[2]);
        let q = jac(record[3], record[4], record[5]);
        let expected = pt(record[6], record[7]);
        let result = jacobian_add(&p, &q);
        assert_eq!(
            result, expected,
            "Mismatch:\nP = {:?}\nQ = {:?}\nExpected = {:?}\nGot = {:?}",
            p, q, expected, result
        );
    }
}

#[test]
fn to_affine_divides_by_powers_of_z() {
    assert_eq!(to_affine(&jac(J5[0], J5[1], J5[2])), pt(G5X, G5Y));
    assert_eq!(to_affine(&jac(J7[0], J7[1], J7[2])), pt(G7X, G7Y));
    assert_eq!(to_affine(&jac(GX, GY, "1")), pt(GX, GY));
    // (8, 27, 2) stands for (8 / 4, 27 / 8).
    let r = to_affine(&jac("8", "54", "2")).unwrap();
    assert_eq!(r.0, BigUint::from(2u32));
    assert_eq!((r.1 * BigUint::from(4u32)) % modp(), BigUint::from(27u32));
}

#[test]
fn to_affine_of_zero_z_is_infinity() {
    assert_eq!(to_affine(&jac(GX, GY, "0")), None);
}

#[test]
fn jacobian_double_known_points() {
    assert_eq!(jacobian_double(&jac(GX, GY, "1")), pt(G2X, G2Y));
    assert_eq!(jacobian_double(&jac(J5[0], J5[1], J5[2])), pt(G10X, G10Y));
    assert_eq!(jacobian_double(&jac(J5B[0], J5B[1], J5B[2])), pt(G10X, G10Y));
}

#[test]
fn jacobian_double_with_zero_y_is_infinity() {
    assert_eq!(jacobian_double(&jac("5", "0", "1")), None);
    assert_eq!(jacobian_double(&jac("5", "0", "9")), None);
}

#[test]
fn jacobian_double_of_infinity_is_infinity() {
    assert_eq!(jacobian_double(&jac("1", "1", "0")), None);
}

#[test]
fn jacobian_add_matches_affine_add() {
    let triples = [
        jac(J5[0], J5[1], J5[2]),
        jac(J7[0], J7[1], J7[2]),
        jac(J5B[0], J5B[1], J5B[2]),
        jac(JN5[0], JN5[1], JN5[2]),
        jac(GX, GY, "1"),
        jac("1", "1", "0"),
    ];
    for p in triples.iter() {
        for q in triples.iter() {
            assert_eq!(jacobian_add(p, q), affine_add(&to_affine(p), &to_affine(q)));
        }
    }
}
