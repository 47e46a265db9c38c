//! The modular integer type.
use crate::text::{decimal_text, decimal_value, i64_text, parse_i64, parses_as_i64};
use crate::residue::{
    abs, euclid_coef, gcd, inverse_of, lemma_inverse_times, power_of, valid_modulus,
};
use vstd::arithmetic::div_mod::*;
use vstd::arithmetic::power::*;
use vstd::prelude::*;

verus! {

/// An integer modulo `MOD`, held as its least non-negative residue.
#[derive(Clone, Copy, PartialEq, Eq, Hash, Debug)]
pub struct ModInt<const MOD: u64> {
    val: i64,
}

impl<const MOD: u64> View for ModInt<MOD> {
    type V = int;

    closed spec fn view(&self) -> int {
        self.val as int
    }
}

impl<const MOD: u64> ModInt<MOD> {
    /// The modulus is usable and the residue is canonical.
    pub open spec fn wf(self) -> bool {
        valid_modulus(MOD as int) && 0 <= self@ < MOD as int
    }

    /// The value whose residue is `v`.
    pub closed spec fn from_residue(v: int) -> Self {
        ModInt { val: v as i64 }
    }

    /// A residue that an `i64` holds survives `from_residue`.
    pub proof fn lemma_from_residue(v: int)
        requires
            0 <= v <= i64::MAX,
        ensures
            Self::from_residue(v)@ == v,
    {
    }

    /// A value is determined by its residue.
    pub proof fn lemma_residue_determines(self)
        ensures
            self == Self::from_residue(self@),
    {
    }

    /// Constructs the residue of `x`, for negative `x` too.
    pub fn new(x: i64) -> (r: Self)
        requires
            valid_modulus(MOD as int),
        ensures
            r.wf(),
            r@ == x as int % MOD as int,
    {
        let ghost m = MOD as int;
        if x >= 0 {
            let v = (x as u64) % MOD;
            ModInt { val: v as i64 }
        } else {
            let y: u64 = (-(x as i128)) as u64;
            let r = y % MOD;
            proof {
                lemma_fundamental_div_mod(y as int, m);
                let q = y as int / m;
                if r == 0 {
                    assert(x as int == (-q) * m + 0) by (nonlinear_arith)
                        requires
                            y as int == m * q + 0,
                            x as int == -(y as int),
                    ;
                    lemma_fundamental_div_mod_converse_mod(x as int, m, -q, 0);
                } else {
                    assert(x as int == (-q - 1) * m + (m - r)) by (nonlinear_arith)
                        requires
                            y as int == m * q + r,
                            x as int == -(y as int),
                    ;
                    lemma_fundamental_div_mod_converse_mod(x as int, m, -q - 1, m - r);
                }
            }
            if r == 0 {
                ModInt { val: 0 }
            } else {
                ModInt { val: (MOD - r) as i64 }
            }
        }
    }

    /// The modulus.
    pub fn m() -> (r: i64)
        requires
            valid_modulus(MOD as int),
        ensures
            r == MOD,
    {
        MOD as i64
    }

    /// The residue, in `[0, MOD)`.
    pub fn value(self) -> (r: i64)
        requires
            self.wf(),
        ensures
            r == self@,
    {
        self.val
    }

    /// The residue as a position in a sequence.
    pub fn index(self) -> (r: usize)
        requires
            self.wf(),
            self@ <= usize::MAX,
        ensures
            r == self@,
    {
        self.val as usize
    }

    /// The element of `v` at the position given by the residue, if there is one.
    pub fn select<T>(self, v: &Vec<T>) -> (r: Option<&T>)
        requires
            self.wf(),
        ensures
            r is Some <==> self@ < v@.len(),
            r is Some ==> *r->Some_0 == v@[self@],
    {
        if (self.val as u64) < (v.len() as u64) {
            Some(&v[self.val as usize])
        } else {
            None
        }
    }

    /// Reads a signed decimal integer and takes its residue; text of any other
    /// shape, or out of the range of an `i64`, is an error.
    pub fn parse(s: &str) -> (r: Result<Self, std::num::ParseIntError>)
        requires
            valid_modulus(MOD as int),
        ensures
            r is Ok <==> parses_as_i64(s@),
            r is Ok ==> r->Ok_0.wf() && r->Ok_0@ == decimal_value(s@)->Some_0 % (MOD as int),
    {
        match parse_i64(s) {
            Ok(x) => Ok(Self::new(x)),
            Err(e) => Err(e),
        }
    }

    /// The residue in decimal.
    pub fn to_string(self) -> (r: String)
        requires
            self.wf(),
        ensures
            r@ == decimal_text(self@),
    {
        i64_text(self.val)
    }

    /// The residue and the modulus, as `<residue> mod <modulus>`.
    pub fn to_debug_string(self) -> (r: String)
        requires
            self.wf(),
        ensures
            r@ == decimal_text(self@) + " mod "@ + decimal_text(MOD as int),
    {
        let mut s = i64_text(self.val);
        s.append(" mod ");
        let m = i64_text(MOD as i64);
        s.append(m.as_str());
        proof {
            reveal_strlit(" mod ");
        }
        s
    }

    /// The inverse by the extended Euclidean algorithm against the modulus.
    /// Where the residue is not coprime to the modulus the result is still the
    /// canonical Bezout coefficient, whose product with the residue is the gcd.
    pub fn inv(self) -> (r: Self)
        requires
            self.wf(),
        ensures
            r.wf(),
            r@ == inverse_of(self@, MOD as int),
            (self@ * r@) % (MOD as int) == gcd(self@ as nat, MOD as nat) as int % (MOD as int),
    {
        let ghost x = self@;
        let ghost m = MOD as int;
        let mut a: u64 = self.val as u64;
        let mut b: u64 = MOD;
        let mut u: i128 = 1;
        let mut v: i128 = 0;
        while b > 0
            invariant
                valid_modulus(m),
                m == MOD,
                0 <= x < m,
                a <= m,
                b <= m,
                euclid_coef(a as nat, b as nat, u as int, v as int) == euclid_coef(
                    x as nat,
                    m as nat,
                    1,
                    0,
                ),
                abs(u as int) <= m,
                abs(v as int) <= m,
                abs(u as int) * b + abs(v as int) * a <= m,
            decreases b,
        {
            let t = a / b;
            let rem = a % b;
            proof {
                lemma_fundamental_div_mod(a as int, b as int);
                assert(t * b <= a) by (nonlinear_arith)
                    requires
                        a as int == b * t + rem,
                        rem >= 0,
                ;
                assert(t * abs(v as int) <= m) by (nonlinear_arith)
                    requires
                        t * b <= a,
                        abs(v as int) * a <= m,
                        b >= 1,
                        t >= 0,
                        abs(v as int) >= 0,
                ;
                assert(abs(u - t * v) <= abs(u as int) + t * abs(v as int)) by (nonlinear_arith)
                    requires
                        t >= 0,
                ;
                assert(abs(v as int) * rem + abs(u - t * v) * b <= m) by (nonlinear_arith)
                    requires
                        abs(u - t * v) <= abs(u as int) + t * abs(v as int),
                        a as int == b * t + rem,
                        abs(u as int) * b + abs(v as int) * a <= m,
                        b >= 1,
                        t >= 0,
                        abs(v as int) >= 0,
                ;
                assert(abs(u - t * v) <= m) by (nonlinear_arith)
                    requires
                        abs(u - t * v) * b <= m - abs(v as int) * rem,
                        abs(v as int) * rem >= 0,
                        b >= 1,
                ;
            }
            let w = u - (t as i128) * v;
            a = b;
            b = rem;
            u = v;
            v = w;
        }
        proof {
            lemma_inverse_times(x, m);
        }
        Self::new(u as i64)
    }

    /// `self` to the power `n`, by squaring.
    fn pow_by_squaring(self, n: u64) -> (r: Self)
        requires
            self.wf(),
        ensures
            r.wf(),
            r@ == pow(self@, n as nat) % (MOD as int),
        decreases n,
    {
        let ghost m = MOD as int;
        if n == 0 {
            proof {
                reveal(pow);
            }
            Self::new(1)
        } else {
            let h = n / 2;
            let e = self.pow_by_squaring(h);
            let sq = e.times(e);
            proof {
                let ph = pow(self@, h as nat);
                lemma_mul_mod_noop(ph, ph, m);
                lemma_pow_adds(self@, h as nat, h as nat);
                assert(sq@ == pow(self@, (h + h) as nat) % m);
            }
            if n % 2 == 1 {
                let r = sq.times(self);
                proof {
                    let p2 = pow(self@, (h + h) as nat);
                    lemma_mul_mod_noop_left(p2, self@, m);
                    lemma_pow_adds(self@, (h + h) as nat, 1);
                    lemma_pow1(self@);
                    assert((h + h + 1) as nat == n as nat);
                }
                r
            } else {
                proof {
                    assert((h + h) as nat == n as nat);
                }
                sq
            }
        }
    }

    /// `self` to the power `p`; a negative `p` raises the inverse, and the
    /// power 0 is 1, of zero too.
    pub fn pow(self, p: i64) -> (r: Self)
        requires
            self.wf(),
        ensures
            r.wf(),
            r@ == power_of(self@, p as int, MOD as int),
    {
        if p == 0 {
            proof {
                reveal(pow);
            }
            Self::new(1)
        } else {
            let s = if p < 0 {
                self.inv()
            } else {
                self
            };
            let n: u64 = if p < 0 {
                (-(p as i128)) as u64
            } else {
                p as u64
            };
            s.pow_by_squaring(n)
        }
    }

    /// The sum, reduced.
    pub(crate) fn plus(self, rhs: Self) -> (r: Self)
        requires
            self.wf(),
            rhs.wf(),
        ensures
            r.wf(),
            r@ == (self@ + rhs@) % (MOD as int),
    {
        let s = (self.val as u64) + (rhs.val as u64);
        ModInt { val: (s % MOD) as i64 }
    }

    /// The difference, reduced.
    pub(crate) fn minus(self, rhs: Self) -> (r: Self)
        requires
            self.wf(),
            rhs.wf(),
        ensures
            r.wf(),
            r@ == (self@ - rhs@) % (MOD as int),
    {
        Self::new(self.val - rhs.val)
    }

    /// The product, reduced.
    pub(crate) fn times(self, rhs: Self) -> (r: Self)
        requires
            self.wf(),
            rhs.wf(),
        ensures
            r.wf(),
            r@ == (self@ * rhs@) % (MOD as int),
    {
        let a = self.val as u128;
        let b = rhs.val as u128;
        proof {
            assert(a * b <= (i64::MAX as int) * (i64::MAX as int)) by (nonlinear_arith)
                requires
                    0 <= a <= i64::MAX,
                    0 <= b <= i64::MAX,
            ;
        }
        let p: u128 = a * b;
        let r = p % (MOD as u128);
        ModInt { val: r as i64 }
    }
}

impl<const MOD: u64> std::str::FromStr for ModInt<MOD> {
    type Err = std::num::ParseIntError;

    fn from_str(s: &str) -> (r: Result<Self, Self::Err>)
        requires
            valid_modulus(MOD as int),
        ensures
            r is Ok <==> parses_as_i64(s@),
            r is Ok ==> r->Ok_0.wf() && r->Ok_0@ == decimal_value(s@)->Some_0 % (MOD as int),
    {
        Self::parse(s)
    }
}

impl<const MOD: u64> From<i64> for ModInt<MOD> {
    /// The same residue as `new`. `From` admits no precondition, so the
    /// modulus is tested here: under one that is zero or beyond `i64` no value
    /// is well formed, and `x` is kept unreduced.
    fn from(x: i64) -> (r: Self)
        ensures
            valid_modulus(MOD as int) ==> r.wf() && r@ == x as int % MOD as int,
    {
        if 0 < MOD && MOD <= i64::MAX as u64 {
            Self::new(x)
        } else {
            ModInt { val: x }
        }
    }
}

impl<const MOD: u64> vstd::std_specs::convert::FromSpecImpl<i64> for ModInt<MOD> {
    open spec fn obeys_from_spec() -> bool {
        valid_modulus(MOD as int)
    }

    open spec fn from_spec(x: i64) -> Self {
        Self::from_residue(x as int % MOD as int)
    }
}

} // verus!
