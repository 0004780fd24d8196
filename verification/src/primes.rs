//! Divisibility facts behind the factorization of `pq`: Bezout's identity,
//! Euclid's lemma, and the uniqueness of the factorization of a product of
//! two primes.
use vstd::prelude::*;
use vstd::arithmetic::div_mod::{lemma_fundamental_div_mod, lemma_mod_pos_bound, lemma_mod_multiples_basic};
use crate::utils::{divides, is_prime, product};

verus! {

/// The greatest common divisor of `a` and `b`, by Euclid's algorithm.
pub open spec fn gcd(a: nat, b: nat) -> nat
    decreases b,
{
    if b == 0 {
        a
    } else {
        proof {
            lemma_mod_pos_bound(a as int, b as int);
        }
        gcd(b, a % b)
    }
}

/// Bezout's identity: the gcd is an integer combination of the two numbers.
pub proof fn lemma_bezout(a: nat, b: nat) -> (xy: (int, int))
    ensures
        a * xy.0 + b * xy.1 == gcd(a, b),
    decreases b,
{
    if b == 0 {
        (1, 0)
    } else {
        lemma_mod_pos_bound(a as int, b as int);
        let (x, y) = lemma_bezout(b, a % b);
        lemma_fundamental_div_mod(a as int, b as int);
        let q = a as int / b as int;
        let r = a as int % b as int;
        assert(a * y + b * (x - q * y) == b * x + r * y) by (nonlinear_arith)
            requires
                a == b * q + r,
        ;
        (y, x - q * y)
    }
}

/// `d` divides `n` exactly when `n` is `d` times some integer.
proof fn lemma_divides_witness(d: nat, n: nat, k: int)
    requires
        d > 0,
        n == d * k,
    ensures
        divides(d, n),
{
    lemma_mod_multiples_basic(k, d as int);
    assert(k * d == d * k) by (nonlinear_arith);
}

/// The quotient of a divisible number.
proof fn lemma_divides_quotient(d: nat, n: nat)
    requires
        d > 0,
        divides(d, n),
    ensures
        n == d * (n / d),
{
    lemma_fundamental_div_mod(n as int, d as int);
}

/// The gcd divides both numbers (when the first is positive).
pub proof fn lemma_gcd_divides(a: nat, b: nat)
    requires
        a > 0,
    ensures
        gcd(a, b) > 0,
        divides(gcd(a, b), a),
        divides(gcd(a, b), b),
    decreases b,
{
    if b == 0 {
        lemma_divides_witness(a, a, 1);
        lemma_divides_witness(a, 0, 0);
    } else {
        lemma_mod_pos_bound(a as int, b as int);
        lemma_gcd_divides(b, a % b);
        let g = gcd(a, b);
        lemma_divides_quotient(g, b);
        lemma_divides_quotient(g, a % b);
        lemma_fundamental_div_mod(a as int, b as int);
        let q = a as int / b as int;
        let kb = (b / g) as int;
        let kr = ((a % b) / g) as int;
        assert(a == g * (kb * q + kr)) by (nonlinear_arith)
            requires
                a == b * q + a % b,
                b == g * kb,
                a % b == g * kr,
        ;
        lemma_divides_witness(g, a, kb * q + kr);
    }
}

/// A positive number's divisors are at most the number.
pub proof fn lemma_divisor_le(d: nat, n: nat)
    requires
        d > 0,
        n > 0,
        divides(d, n),
    ensures
        d <= n,
{
    lemma_divides_quotient(d, n);
    let k = n / d;
    assert(d <= n) by (nonlinear_arith)
        requires
            n == d * k,
            n > 0,
            d > 0,
    ;
}

/// A divisor of at least two of a prime is the prime.
pub proof fn lemma_prime_divisor(d: nat, p: nat)
    requires
        is_prime(p),
        d >= 2,
        divides(d, p),
    ensures
        d == p,
{
    lemma_divisor_le(d, p);
    if d < p {
        assert(!divides(d, p));
    }
}

/// Euclid's lemma: a prime that divides a product divides one of the factors.
pub proof fn lemma_euclid(r: nat, a: nat, b: nat)
    requires
        is_prime(r),
        a > 0,
        b > 0,
        divides(r, a * b),
    ensures
        divides(r, a) || divides(r, b),
{
    if !divides(r, a) {
        let g = gcd(r, a);
        lemma_gcd_divides(r, a);
        lemma_divisor_le(g, r);
        if g >= 2 {
            lemma_prime_divisor(g, r);
        }
        assert(g == 1);
        let (x, y) = lemma_bezout(r, a);
        lemma_divides_quotient(r, a * b);
        let k = ((a * b) / r) as int;
        assert(b == r * (b * x + k * y)) by (nonlinear_arith)
            requires
                r * x + a * y == 1,
                a * b == r * k,
        ;
        lemma_divides_witness(r, b, b * x + k * y);
    }
}

/// A product of numbers that are all at least one is at least one, and at
/// least two when one of them is at least two.
proof fn lemma_product_positive(s: Seq<u64>)
    requires
        forall|i: int| 0 <= i < s.len() ==> #[trigger] s[i] >= 1,
    ensures
        product(s) >= 1,
        s.len() > 0 && s[0] >= 2 ==> product(s) >= 2,
    decreases s.len(),
{
    if s.len() > 0 {
        let t = s.drop_first();
        assert forall|i: int| 0 <= i < t.len() implies #[trigger] t[i] >= 1 by {
            assert(t[i] == s[i + 1]);
        }
        lemma_product_positive(t);
        let a = s[0] as nat;
        let b = product(t);
        assert(a * b >= 1 && (a >= 2 ==> a * b >= 2)) by (nonlinear_arith)
            requires
                a >= 1,
                b >= 1,
        ;
    }
}

/// A list of primes whose product is the prime `s` is the one-element list `[s]`.
proof fn lemma_primes_with_prime_product(f: Seq<u64>, s: nat)
    requires
        is_prime(s),
        forall|i: int| 0 <= i < f.len() ==> is_prime(#[trigger] f[i] as nat),
        product(f) == s,
    ensures
        f.len() == 1,
        f[0] == s,
{
    assert(f.len() > 0);
    let t = f.drop_first();
    assert forall|i: int| 0 <= i < t.len() implies #[trigger] t[i] >= 1 by {
        assert(t[i] == f[i + 1]);
        assert(is_prime(f[i + 1] as nat));
    }
    lemma_product_positive(t);
    let r = f[0] as nat;
    assert(is_prime(r));
    lemma_divides_witness(r, s, product(t) as int);
    lemma_prime_divisor(r, s);
    assert(product(t) == 1) by (nonlinear_arith)
        requires
            r * product(t) == r,
            r >= 2,
    ;
    if t.len() > 0 {
        assert(is_prime(f[1] as nat));
        assert(t[0] == f[1]);
    }
}

/// The factorization of a product of two primes `p <= q`, as a sorted list
/// of primes, is `[p, q]`.
pub proof fn lemma_semiprime_factorization(f: Seq<u64>, p: nat, q: nat)
    requires
        is_prime(p),
        is_prime(q),
        p <= q,
        forall|i: int, j: int| 0 <= i <= j < f.len() ==> f[i] <= f[j],
        forall|i: int| 0 <= i < f.len() ==> is_prime(#[trigger] f[i] as nat),
        product(f) == p * q,
    ensures
        f.len() == 2,
        f[0] == p,
        f[1] == q,
{
    assert(p * q >= 4) by (nonlinear_arith)
        requires
            p >= 2,
            q >= 2,
    ;
    assert(f.len() > 0);
    let t = f.drop_first();
    assert forall|i: int| 0 <= i < t.len() implies is_prime(#[trigger] t[i] as nat) by {
        assert(t[i] == f[i + 1]);
    }
    let r = f[0] as nat;
    assert(is_prime(r));
    let n = p * q;
    lemma_divides_witness(r, n, product(t) as int);
    lemma_euclid(r, p, q);
    if divides(r, p) {
        lemma_prime_divisor(r, p);
        assert(product(t) == q) by (nonlinear_arith)
            requires
                r * product(t) == r * q,
                r >= 2,
        ;
        lemma_primes_with_prime_product(t, q);
    } else {
        lemma_prime_divisor(r, q);
        assert(product(t) == p) by (nonlinear_arith)
            requires
                r * product(t) == p * r,
                r >= 2,
        ;
        lemma_primes_with_prime_product(t, p);
        assert(f[1] == t[0]);
        assert(f[0] <= f[1]);
    }
    assert(f[1] == t[0]);
}

} // verus!
