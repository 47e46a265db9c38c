//! Laws that relate the operations of modular integers to one another.
use crate::modint::ModInt;
use crate::residue::{
    gcd, inverse_of, lemma_invertible_coprime, lemma_inverse_times, power_of, valid_modulus,
};
use vstd::arithmetic::div_mod::{
    lemma_fundamental_div_mod_converse_mod, lemma_mul_mod_noop_left, lemma_mul_mod_noop_right,
    lemma_small_mod,
};
use vstd::arithmetic::power::pow;
use vstd::prelude::*;
use vstd::std_specs::ops::{DivSpec, MulSpec};

verus! {

/// The residue of `-1` is the residue of `m - 1`.
pub proof fn lemma_negative_one(m: int)
    requires
        0 < m,
    ensures
        (-1int) % m == (m - 1) % m,
{
    lemma_fundamental_div_mod_converse_mod(-1, m, -1, m - 1);
    lemma_small_mod((m - 1) as nat, m as nat);
}

/// Dividing by `b` is multiplying by the inverse of `b`.
pub proof fn lemma_div_is_mul_inverse<const MOD: u64>(a: ModInt<MOD>, b: ModInt<MOD>)
    requires
        a.wf(),
        b.wf(),
    ensures
        a.div_spec(b) == a.mul_spec(ModInt::<MOD>::from_residue(inverse_of(b@, MOD as int))),
{
    lemma_inverse_times(b@, MOD as int);
    ModInt::<MOD>::lemma_from_residue(inverse_of(b@, MOD as int));
}

/// Multiplying a quotient by a divisor coprime to the modulus gives back the
/// dividend.
pub proof fn lemma_div_round_trip(a: int, b: int, m: int)
    requires
        valid_modulus(m),
        0 <= a < m,
        0 <= b < m,
        gcd(b as nat, m as nat) == 1,
    ensures
        (((a * inverse_of(b, m)) % m) * b) % m == a,
{
    let y = inverse_of(b, m);
    lemma_inverse_times(b, m);
    lemma_mul_mod_noop_left(a * y, b, m);
    assert((a * y) * b == a * (b * y)) by (nonlinear_arith);
    lemma_mul_mod_noop_right(a, b * y, m);
    lemma_mul_mod_noop_right(a, 1, m);
    lemma_small_mod(a as nat, m as nat);
}

/// Each further power multiplies by the base once more, so a power is the
/// base multiplied by itself that many times.
pub proof fn lemma_pow_step(x: int, n: nat, m: int)
    requires
        0 < m,
    ensures
        power_of(x, n + 1int, m) == (power_of(x, n as int, m) * x) % m,
{
    reveal(pow);
    assert(pow(x, (n + 1) as nat) == x * pow(x, n));
    assert(x * pow(x, n) == pow(x, n) * x) by (nonlinear_arith);
    lemma_mul_mod_noop_left(pow(x, n), x, m);
}

/// A negative power is the matching power of the inverse.
pub proof fn lemma_pow_negative(x: int, n: int, m: int)
    requires
        0 < m,
        0 < n,
    ensures
        power_of(x, -n, m) == power_of(inverse_of(x, m), n, m),
{
}

/// The power 0 of every value, zero included, is 1.
pub proof fn lemma_pow_zero(x: int, m: int)
    requires
        0 < m,
    ensures
        power_of(x, 0, m) == 1int % m,
{
    reveal(pow);
    assert(pow(x, 0) == 1);
}

/// For a value coprime to the modulus, the inverse times the value is 1 and
/// the inverse of the inverse is the value.
pub proof fn lemma_inverse_round_trip(x: int, m: int)
    requires
        valid_modulus(m),
        0 <= x < m,
        gcd(x as nat, m as nat) == 1,
    ensures
        (x * inverse_of(x, m)) % m == 1int % m,
        inverse_of(inverse_of(x, m), m) == x,
{
    let y = inverse_of(x, m);
    lemma_inverse_times(x, m);
    assert(y * x == x * y) by (nonlinear_arith);
    lemma_invertible_coprime(y, x, m);
    let z = inverse_of(y, m);
    lemma_inverse_times(y, m);
    assert(z * (x * y) == x * (y * z)) by (nonlinear_arith);
    lemma_mul_mod_noop_right(z, x * y, m);
    lemma_mul_mod_noop_right(z, 1, m);
    lemma_mul_mod_noop_right(x, y * z, m);
    lemma_mul_mod_noop_right(x, 1, m);
    lemma_small_mod(x as nat, m as nat);
    lemma_small_mod(z as nat, m as nat);
}

} // verus!
