//! Integer facts behind modular arithmetic: greatest common divisors, the
//! coefficient found by the extended Euclidean algorithm, and the canonical
//! inverse and power of a residue.
use vstd::arithmetic::div_mod::*;
use vstd::arithmetic::power::*;
use vstd::prelude::*;

verus! {

/// A modulus that the residues of an `i64` can use.
pub open spec fn valid_modulus(m: int) -> bool {
    0 < m <= i64::MAX
}

pub open spec fn abs(i: int) -> int {
    if i < 0 {
        -i
    } else {
        i
    }
}

/// Greatest common divisor, by Euclid's recursion.
pub open spec fn gcd(a: nat, b: nat) -> nat
    decreases b,
{
    if b == 0 {
        a
    } else {
        gcd(b, a % b)
    }
}

/// The coefficient of `a` reached by the extended Euclidean algorithm
/// started on `(a, b)` with the coefficient pair `(u, v)`.
pub open spec fn euclid_coef(a: nat, b: nat, u: int, v: int) -> int
    decreases b,
{
    if b == 0 {
        u
    } else {
        euclid_coef(b, a % b, v, u - (a / b) as int * v)
    }
}

/// The inverse of `x` modulo `m` as the extended Euclidean algorithm finds it:
/// the Bezout coefficient of `x` against `m`, made canonical.
pub open spec fn inverse_of(x: int, m: int) -> int {
    euclid_coef(x as nat, m as nat, 1, 0) % m
}

/// The canonical residue of `x` raised to the signed power `p`: a negative
/// power raises the inverse.
pub open spec fn power_of(x: int, p: int, m: int) -> int {
    if p < 0 {
        pow(inverse_of(x, m), (-p) as nat) % m
    } else {
        pow(x, p as nat) % m
    }
}

/// Each step of the extended Euclidean algorithm keeps both coefficients
/// congruent, times `x`, to their remainders modulo `m`; so the final
/// coefficient times `x` is congruent to the gcd. The result is the multiple
/// of `m` that separates them.
pub proof fn lemma_euclid_congruent(
    a: nat,
    b: nat,
    u: int,
    v: int,
    x: int,
    m: int,
    ku: int,
    kv: int,
) -> (k: int)
    requires
        u * x - a == ku * m,
        v * x - b == kv * m,
    ensures
        euclid_coef(a, b, u, v) * x - gcd(a, b) == k * m,
    decreases b,
{
    if b == 0 {
        ku
    } else {
        let t = (a / b) as int;
        let rem = (a % b) as int;
        lemma_fundamental_div_mod(a as int, b as int);
        assert((u - t * v) * x - rem == (ku - t * kv) * m) by (nonlinear_arith)
            requires
                u * x - a == ku * m,
                v * x - b == kv * m,
                a as int == b * t + rem,
        ;
        lemma_euclid_congruent(b, a % b, v, u - t * v, x, m, kv, ku - t * kv)
    }
}

/// The inverse found by the extended Euclidean algorithm, times `x`, is the
/// gcd of `x` and `m`, modulo `m`.
pub proof fn lemma_inverse_times(x: int, m: int)
    requires
        0 <= x,
        0 < m,
    ensures
        0 <= inverse_of(x, m) < m,
        (x * inverse_of(x, m)) % m == gcd(x as nat, m as nat) as int % m,
{
    let c = euclid_coef(x as nat, m as nat, 1, 0);
    let g = gcd(x as nat, m as nat) as int;
    let k = lemma_euclid_congruent(x as nat, m as nat, 1, 0, x, m, 0, -1);
    lemma_mul_mod_noop_right(x, c, m);
    assert(x * c == m * k + g) by (nonlinear_arith)
        requires
            c * x - g == k * m,
    ;
    lemma_mod_multiples_vanish(k, g, m);
}

/// `g` divides `a`.
pub open spec fn divides(g: int, a: int) -> bool {
    exists|k: int| a == #[trigger] (g * k)
}

/// The divisor found by Euclid's recursion divides both arguments.
pub proof fn lemma_gcd_divides(a: nat, b: nat)
    ensures
        divides(gcd(a, b) as int, a as int),
        divides(gcd(a, b) as int, b as int),
    decreases b,
{
    if b == 0 {
        assert(a == gcd(a, b) * 1);
        assert(0 == gcd(a, b) * 0);
    } else {
        let g = gcd(a, b) as int;
        lemma_gcd_divides(b, a % b);
        let kb = choose|k: int| b as int == #[trigger] (g * k);
        let kr = choose|k: int| (a % b) as int == #[trigger] (g * k);
        lemma_fundamental_div_mod(a as int, b as int);
        let q = (a / b) as int;
        assert(a as int == g * (kb * q + kr)) by (nonlinear_arith)
            requires
                a as int == b as int * q + (a % b) as int,
                b as int == g * kb,
                (a % b) as int == g * kr,
        ;
    }
}

/// An integer with an inverse modulo `m` shares no divisor with `m` but 1.
pub proof fn lemma_invertible_coprime(x: int, y: int, m: int)
    requires
        0 <= x,
        0 < m,
        (x * y) % m == 1int % m,
    ensures
        gcd(x as nat, m as nat) == 1,
{
    let g = gcd(x as nat, m as nat) as int;
    lemma_gcd_divides(x as nat, m as nat);
    let kx = choose|k: int| x == #[trigger] (g * k);
    let km = choose|k: int| m == #[trigger] (g * k);
    lemma_fundamental_div_mod(x * y, m);
    lemma_fundamental_div_mod(1int, m);
    let d = (x * y) / m - 1int / m;
    assert(x * y - m * d == 1) by (nonlinear_arith)
        requires
            x * y == m * ((x * y) / m) + (x * y) % m,
            1 == m * (1int / m) + 1int % m,
            (x * y) % m == 1int % m,
            d == (x * y) / m - 1int / m,
    ;
    if m == 1 {
        assert(g * km == 1);
        assert(g == 1) by (nonlinear_arith)
            requires
                g * km == 1,
                g >= 0,
        ;
    } else {
        lemma_small_mod(1nat, m as nat);
        assert(g * (kx * y - km * d) == 1) by (nonlinear_arith)
            requires
                x * y - m * d == 1,
                x == g * kx,
                m == g * km,
        ;
        assert(g == 1) by (nonlinear_arith)
            requires
                g * (kx * y - km * d) == 1,
                g >= 0,
        ;
    }
}

} // verus!
