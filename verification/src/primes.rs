//! Divisibility, primes and power residues, up to Lucas's criterion: a
//! number `n` is prime, and its nonzero residues form a cyclic group, once a
//! base `g` is known whose order modulo `n` is `n - 1`.

use vstd::arithmetic::div_mod::{
    lemma_fundamental_div_mod, lemma_mod_bound, lemma_mod_multiples_basic, lemma_mul_mod_noop,
    lemma_small_mod,
};
use vstd::arithmetic::power::{
    lemma_pow0, lemma_pow1, lemma_pow_adds, lemma_pow_mod_noop, lemma_pow_multiplies, pow,
};
use vstd::prelude::*;
use vstd::relations::injective_on;
use vstd::set_lib::{lemma_int_range, lemma_map_size, lemma_subset_equality, set_int_range};

verus! {

/// Whether `d` divides `n`.
pub open spec fn divides(d: nat, n: nat) -> bool {
    d > 0 && n % d == 0
}

/// Whether `n` is a prime number.
pub open spec fn is_prime(n: nat) -> bool {
    n >= 2 && forall|d: nat| 1 < d < n ==> !#[trigger] divides(d, n)
}

/// The residue of `g^e` modulo `n`.
#[verifier::opaque]
pub open spec fn power_mod(g: nat, e: nat, n: nat) -> nat {
    (pow(g as int, e) % (n as int)) as nat
}

/// A divisor times its cofactor is the number.
pub proof fn lemma_divides_cofactor(d: nat, n: nat)
    requires
        divides(d, n),
    ensures
        n == d * (n / d),
        n == (n / d) * d,
{
    lemma_fundamental_div_mod(n as int, d as int);
    assert(d * (n / d) == (n / d) * d) by (nonlinear_arith);
}

/// A factor of a product divides it.
pub proof fn lemma_divides_product(d: nat, k: nat)
    requires
        d > 0,
    ensures
        divides(d, k * d),
        divides(d, d * k),
        (k * d) / d == k,
{
    lemma_mod_multiples_basic(k as int, d as int);
    assert(d * k == k * d) by (nonlinear_arith);
    vstd::arithmetic::div_mod::lemma_div_multiples_vanish(k as int, d as int);
    assert(d * k == k * d) by (nonlinear_arith);
}

/// Divisibility is transitive.
pub proof fn lemma_divides_transitive(a: nat, b: nat, c: nat)
    requires
        divides(a, b),
        divides(b, c),
    ensures
        divides(a, c),
{
    lemma_divides_cofactor(a, b);
    lemma_divides_cofactor(b, c);
    let k = (b / a) * (c / b);
    assert(c == k * a) by (nonlinear_arith)
        requires
            b == (b / a) * a,
            c == (c / b) * b,
            k == (b / a) * (c / b),
    ;
    lemma_divides_product(a, k);
}

/// A divisor of a positive number is at most the number.
pub proof fn lemma_divisor_bound(d: nat, n: nat)
    requires
        divides(d, n),
        n > 0,
    ensures
        d <= n,
        n / d >= 1,
{
    lemma_divides_cofactor(d, n);
    let c = n / d;
    assert(c >= 1 && d <= n) by (nonlinear_arith)
        requires
            n == d * c,
            n > 0,
            d > 0,
            c >= 0,
    ;
}

/// Every number from two on has a prime divisor.
pub proof fn lemma_prime_divisor(m: nat) -> (r: nat)
    requires
        m >= 2,
    ensures
        is_prime(r),
        divides(r, m),
    decreases m,
{
    if is_prime(m) {
        assert(m % m == 0) by {
            vstd::arithmetic::div_mod::lemma_mod_self_0(m as int);
        }
        m
    } else {
        let d = choose|d: nat| 1 < d < m && divides(d, m);
        let r = lemma_prime_divisor(d);
        lemma_divides_transitive(r, d, m);
        r
    }
}

/// The greatest common divisor, by Euclid's algorithm.
pub open spec fn gcd(a: nat, b: nat) -> nat
    decreases b,
{
    if b == 0 {
        a
    } else {
        gcd(b, a % b)
    }
}

/// The greatest common divisor divides both numbers.
pub proof fn lemma_gcd_divides(a: nat, b: nat)
    requires
        a > 0 || b > 0,
    ensures
        divides(gcd(a, b), a),
        divides(gcd(a, b), b),
    decreases b,
{
    if b == 0 {
        vstd::arithmetic::div_mod::lemma_mod_self_0(a as int);
        assert(0nat % a == 0) by {
            lemma_small_mod(0, a);
        }
    } else {
        lemma_mod_bound(a as int, b as int);
        lemma_gcd_divides(b, a % b);
        let g = gcd(a, b);
        lemma_divides_cofactor(g, b);
        lemma_divides_cofactor(g, a % b);
        lemma_fundamental_div_mod(a as int, b as int);
        let k = (a / b) * (b / g) + (a % b) / g;
        assert(a == k * g) by (nonlinear_arith)
            requires
                a == b * (a / b) + a % b,
                b == (b / g) * g,
                a % b == ((a % b) / g) * g,
                k == (a / b) * (b / g) + (a % b) / g,
        ;
        assert(k >= 0) by (nonlinear_arith)
            requires
                k == (a / b) * (b / g) + (a % b) / g,
                a / b >= 0,
                b / g >= 0,
                (a % b) / g >= 0,
        ;
        lemma_divides_product(g, k as nat);
    }
}

/// Bezout's identity: the greatest common divisor is an integer combination
/// of the two numbers.
pub proof fn lemma_bezout(a: nat, b: nat) -> (st: (int, int))
    ensures
        st.0 * a + st.1 * b == gcd(a, b),
    decreases b,
{
    if b == 0 {
        assert(1 * a + 0 * b == a);
        (1, 0)
    } else {
        lemma_mod_bound(a as int, b as int);
        let (s, t) = lemma_bezout(b, a % b);
        lemma_fundamental_div_mod(a as int, b as int);
        let q = a as int / b as int;
        let r = a as int % b as int;
        let t2 = s - t * q;
        assert(t * a + t2 * b == s * b + t * r) by (nonlinear_arith)
            requires
                a == b * q + r,
                t2 == s - t * q,
        ;
        (t, t2)
    }
}

/// Euclid's lemma: a prime that divides a product divides a factor.
pub proof fn lemma_euclid(q: nat, a: nat, b: nat)
    requires
        is_prime(q),
        divides(q, a * b),
    ensures
        divides(q, a) || divides(q, b),
{
    if !divides(q, a) {
        lemma_gcd_divides(a, q);
        let g = gcd(a, q);
        lemma_divisor_bound(g, q);
        if g == q {
            assert(false);
        }
        assert(g == 1);
        let (s, t) = lemma_bezout(a, q);
        lemma_divides_cofactor(q, a * b);
        let c = ((a * b) / q) as int;
        let k = s * c + t * b;
        assert(b == k * q) by (nonlinear_arith)
            requires
                s * a + t * q == 1,
                a * b == q * c,
                k == s * c + t * b,
        ;
        lemma_mod_multiples_basic(k, q as int);
    }
}

/// A prime that divides `f * r`, where `f` is prime, is `f` or divides `r`.
pub proof fn lemma_prime_factor(q: nat, f: nat, r: nat)
    requires
        is_prime(q),
        is_prime(f),
        divides(q, f * r),
    ensures
        q == f || divides(q, r),
{
    lemma_euclid(q, f, r);
    if divides(q, f) {
        lemma_divisor_bound(q, f);
    }
}

/// No prime divides one.
pub proof fn lemma_prime_not_unit(q: nat)
    requires
        is_prime(q),
    ensures
        !divides(q, 1),
{
    lemma_small_mod(1, q);
}

/// The zeroth power leaves the residue one.
pub proof fn lemma_power_mod_zero(g: nat, n: nat)
    requires
        n >= 2,
    ensures
        power_mod(g, 0, n) == 1,
{
    reveal(power_mod);
    lemma_pow0(g as int);
    lemma_small_mod(1, n);
}

/// The first power leaves the residue of the base.
pub proof fn lemma_power_mod_one(g: nat, n: nat)
    requires
        n >= 2,
    ensures
        power_mod(g, 1, n) == g % n,
{
    reveal(power_mod);
    lemma_pow1(g as int);
}

/// A residue is below the modulus.
pub proof fn lemma_power_mod_bound(g: nat, e: nat, n: nat)
    requires
        n >= 1,
    ensures
        power_mod(g, e, n) < n,
{
    reveal(power_mod);
    lemma_mod_bound(pow(g as int, e), n as int);
}

/// The residue of a power with a sum as exponent is the product of the
/// residues.
pub proof fn lemma_power_mod_add(g: nat, e1: nat, e2: nat, n: nat)
    requires
        n >= 1,
    ensures
        power_mod(g, e1 + e2, n) == (power_mod(g, e1, n) * power_mod(g, e2, n)) % n,
{
    reveal(power_mod);
    lemma_pow_adds(g as int, e1, e2);
    lemma_mul_mod_noop(pow(g as int, e1), pow(g as int, e2), n as int);
    lemma_mod_bound(pow(g as int, e1), n as int);
    lemma_mod_bound(pow(g as int, e2), n as int);
    lemma_mod_bound(pow(g as int, e1 + e2), n as int);
}

/// The residue of a power of a residue is the residue of the power with
/// the product as exponent.
pub proof fn lemma_power_mod_of_power(g: nat, e1: nat, e2: nat, n: nat)
    requires
        n >= 1,
    ensures
        power_mod(power_mod(g, e1, n), e2, n) == power_mod(g, e1 * e2, n),
{
    reveal(power_mod);
    lemma_mod_bound(pow(g as int, e1), n as int);
    lemma_pow_mod_noop(pow(g as int, e1), e2, n as int);
    lemma_pow_multiplies(g as int, e1, e2);
}

/// If `g^e` leaves the residue one, so does every power of it.
pub proof fn lemma_power_mod_multiple(g: nat, e: nat, k: nat, n: nat)
    requires
        n >= 2,
        power_mod(g, e, n) == 1,
    ensures
        power_mod(g, k * e, n) == 1,
    decreases k,
{
    if k == 0 {
        assert(0 * e == 0);
        lemma_power_mod_zero(g, n);
    } else {
        let j = (k - 1) as nat;
        lemma_power_mod_multiple(g, e, j, n);
        assert(k * e == j * e + e) by (nonlinear_arith)
            requires
                k == j + 1,
        ;
        lemma_power_mod_add(g, j * e, e, n);
        lemma_small_mod(1, n);
    }
}

/// If two powers of `g` leave the same residue and some positive power of
/// `g` leaves one, the power with the difference as exponent leaves one.
pub proof fn lemma_power_mod_cancel(g: nat, i: nat, j: nat, n: nat, order: nat)
    requires
        n >= 2,
        order >= 1,
        power_mod(g, order, n) == 1,
        i <= j,
        power_mod(g, i, n) == power_mod(g, j, n),
    ensures
        power_mod(g, (j - i) as nat, n) == 1,
{
    let t = ((order - 1) * i) as nat;
    assert((order - 1) * i >= 0) by (nonlinear_arith)
        requires
            order >= 1,
            i >= 0,
    ;
    assert(i + t == i * order) by (nonlinear_arith)
        requires
            t == (order - 1) * i,
    ;
    lemma_power_mod_multiple(g, order, i, n);
    lemma_power_mod_add(g, i, t, n);
    lemma_power_mod_add(g, j, t, n);
    assert(power_mod(g, j + t, n) == 1);
    let d = (j - i) as nat;
    assert(j + t == d + (i + t));
    lemma_power_mod_add(g, d, i + t, n);
    lemma_power_mod_bound(g, d, n);
    assert(power_mod(g, d, n) * 1 == power_mod(g, d, n));
    lemma_small_mod(power_mod(g, d, n), n);
}

/// If `g^a` and `g^b` leave the residue one, so does `g^gcd(a, b)`.
pub proof fn lemma_power_mod_gcd(g: nat, a: nat, b: nat, n: nat)
    requires
        n >= 2,
        a >= 1,
        power_mod(g, a, n) == 1,
        power_mod(g, b, n) == 1,
    ensures
        power_mod(g, gcd(a, b), n) == 1,
    decreases b,
{
    if b != 0 {
        lemma_mod_bound(a as int, b as int);
        lemma_fundamental_div_mod(a as int, b as int);
        let k = a / b;
        lemma_power_mod_multiple(g, b, k, n);
        assert(b * k == k * b) by (nonlinear_arith);
        assert(k * b <= a);
        lemma_power_mod_cancel(g, k * b, a, n, a);
        assert((a - k * b) as nat == a % b);
        lemma_power_mod_gcd(g, b, a % b, n);
    }
}

/// Lucas's witness: `g^(n-1)` leaves the residue one modulo `n`, and for no
/// prime `q` that divides `n - 1` does `g^((n-1)/q)`.
pub open spec fn lucas_witness(n: nat, g: nat) -> bool {
    &&& n >= 2
    &&& power_mod(g, (n - 1) as nat, n) == 1
    &&& forall|q: nat|
        #[trigger] is_prime(q) && divides(q, (n - 1) as nat) ==> power_mod(
            g,
            ((n - 1) / (q as int)) as nat,
            n,
        ) != 1
}

/// With a Lucas witness `g`, no positive exponent below `n - 1` takes `g` to
/// the residue one: the order of `g` is `n - 1`.
pub proof fn lemma_full_order(n: nat, g: nat, e: nat)
    requires
        lucas_witness(n, g),
        0 < e < n - 1,
    ensures
        power_mod(g, e, n) != 1,
{
    let m = (n - 1) as nat;
    if power_mod(g, e, n) == 1 {
        lemma_power_mod_gcd(g, m, e, n);
        lemma_gcd_divides(m, e);
        let d = gcd(m, e);
        lemma_divisor_bound(d, e);
        lemma_divisor_bound(d, m);
        lemma_divides_cofactor(d, m);
        let c = m / d;
        assert(c >= 2) by (nonlinear_arith)
            requires
                m == d * c,
                d < m,
                d > 0,
                c >= 1,
        ;
        let r = lemma_prime_divisor(c);
        lemma_divides_cofactor(r, c);
        let c2 = c / r;
        let k = c2 * d;
        assert(m == k * r) by (nonlinear_arith)
            requires
                m == d * c,
                c == r * c2,
                k == c2 * d,
        ;
        lemma_divides_product(r, k);
        assert(divides(r, m));
        assert(m / r == k);
        lemma_power_mod_multiple(g, d, c2, n);
        assert(is_prime(r));
        assert(false);
    }
}

/// With a Lucas witness `g`, powers with different exponents below `n - 1`
/// leave different residues.
pub proof fn lemma_powers_distinct(n: nat, g: nat, i: nat, j: nat)
    requires
        lucas_witness(n, g),
        i < j < n - 1,
    ensures
        power_mod(g, i, n) != power_mod(g, j, n),
{
    if power_mod(g, i, n) == power_mod(g, j, n) {
        lemma_power_mod_cancel(g, i, j, n, (n - 1) as nat);
        lemma_full_order(n, g, (j - i) as nat);
    }
}

/// With a Lucas witness `g`, no power of `g` up to the `(n-1)`th leaves the
/// residue zero.
pub proof fn lemma_powers_nonzero(n: nat, g: nat, i: nat)
    requires
        lucas_witness(n, g),
        i <= n - 1,
    ensures
        0 < power_mod(g, i, n) < n,
{
    lemma_power_mod_bound(g, i, n);
    if power_mod(g, i, n) == 0 {
        let r = (n - 1 - i) as nat;
        lemma_power_mod_add(g, i, r, n);
        assert(0 * power_mod(g, r, n) == 0);
        lemma_small_mod(0, n);
        assert(i + r == n - 1);
    }
}

/// With a Lucas witness `g`, every nonzero residue is a power of `g`.
pub proof fn lemma_powers_cover(n: nat, g: nat, a: nat) -> (i: nat)
    requires
        lucas_witness(n, g),
        1 <= a < n,
    ensures
        i < n - 1,
        power_mod(g, i, n) == a,
{
    let m = n - 1;
    let dom = set_int_range(0, m);
    let cod = set_int_range(1, n as int);
    let f = |i: int| power_mod(g, i as nat, n) as int;
    let img = dom.map(f);
    lemma_int_range(0, m);
    lemma_int_range(1, n as int);
    assert(injective_on(f, dom)) by {
        assert forall|x1: int, x2: int|
            dom.contains(x1) && dom.contains(x2) && #[trigger] f(x1) == #[trigger] f(x2) implies x1
            == x2 by {
            if x1 < x2 {
                lemma_powers_distinct(n, g, x1 as nat, x2 as nat);
            }
            if x2 < x1 {
                lemma_powers_distinct(n, g, x2 as nat, x1 as nat);
            }
        }
    }
    lemma_map_size(dom, img, f);
    assert(img.subset_of(cod)) by {
        assert forall|b: int| img.contains(b) implies cod.contains(b) by {
            let x = choose|x: int| dom.contains(x) && f(x) == b;
            lemma_powers_nonzero(n, g, x as nat);
        }
    }
    lemma_subset_equality(img, cod);
    assert(cod.contains(a as int));
    assert(img.contains(a as int));
    let x = choose|x: int| dom.contains(x) && f(x) == a as int;
    x as nat
}

/// Fermat's little theorem for a modulus with a Lucas witness: every number
/// that is not a multiple of `n`, raised to the power `n - 1`, leaves the
/// residue one.
pub proof fn lemma_fermat(n: nat, g: nat, a: nat)
    requires
        lucas_witness(n, g),
        a % n != 0,
    ensures
        power_mod(a, (n - 1) as nat, n) == 1,
{
    reveal(power_mod);
    let m = (n - 1) as nat;
    lemma_mod_bound(a as int, n as int);
    let r = a % n;
    let i = lemma_powers_cover(n, g, r);
    lemma_pow_mod_noop(a as int, m, n as int);
    assert(power_mod(a, m, n) == power_mod(r, m, n));
    lemma_power_mod_of_power(g, i, m, n);
    lemma_power_mod_multiple(g, m, i, n);
}

/// Lucas's criterion: a number with a Lucas witness is prime.
pub proof fn lemma_lucas(n: nat, g: nat)
    requires
        lucas_witness(n, g),
    ensures
        is_prime(n),
{
    reveal(power_mod);
    assert forall|d: nat| 1 < d < n implies !#[trigger] divides(d, n) by {
        if divides(d, n) {
            let m = (n - 1) as nat;
            lemma_small_mod(d, n);
            lemma_fermat(n, g, d);
            let e = (m - 1) as nat;
            lemma_pow_adds(d as int, 1, e);
            lemma_pow1(d as int);
            let x = pow(d as int, e);
            let y = pow(d as int, m);
            assert(y == d * x);
            lemma_fundamental_div_mod(y, n as int);
            lemma_divides_cofactor(d, n);
            let c = (n / d) as int;
            let k = y / (n as int);
            let z = x - c * k;
            assert(d * z == 1) by (nonlinear_arith)
                requires
                    d * x == n * k + 1,
                    n == d * c,
                    z == x - c * k,
            ;
            assert(false) by (nonlinear_arith)
                requires
                    d * z == 1,
                    d >= 2,
            ;
        }
    }
}

} // verus!
