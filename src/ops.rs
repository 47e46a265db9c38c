//! Arithmetic operators on modular integers. Each accepts another value of
//! the same modulus or a plain `i64`, which is reduced first; division
//! multiplies by the inverse of the divisor.
use crate::modint::ModInt;
use crate::residue::inverse_of;
use vstd::arithmetic::div_mod::{
    lemma_add_mod_noop_right, lemma_mul_mod_noop_right, lemma_sub_mod_noop_right,
};
use vstd::prelude::*;
use vstd::std_specs::ops::{AddSpec, DivSpec, MulSpec, SubSpec};

verus! {

impl<const MOD: u64> std::ops::Add for ModInt<MOD> {
    type Output = Self;

    fn add(self, rhs: Self) -> (r: Self)
        ensures
            r.wf(),
            r@ == (self@ + rhs@) % (MOD as int),
    {
        let r = self.plus(rhs);
        proof {
            r.lemma_residue_determines();
        }
        r
    }
}

impl<const MOD: u64> vstd::std_specs::ops::AddSpecImpl for ModInt<MOD> {
    open spec fn obeys_add_spec() -> bool {
        true
    }

    open spec fn add_req(self, rhs: Self) -> bool {
        self.wf() && rhs.wf()
    }

    open spec fn add_spec(self, rhs: Self) -> Self {
        Self::from_residue((self@ + rhs@) % (MOD as int))
    }
}

impl<const MOD: u64> std::ops::AddAssign for ModInt<MOD> {
    fn add_assign(&mut self, rhs: Self)
        requires
            old(self).wf(),
            rhs.wf(),
        ensures
            final(self).wf(),
            *final(self) == old(self).add_spec(rhs),
            final(self)@ == (old(self)@ + rhs@) % (MOD as int),
    {
        *self = *self + rhs;
    }
}

impl<const MOD: u64> std::ops::Add<i64> for ModInt<MOD> {
    type Output = Self;

    fn add(self, rhs: i64) -> (r: Self)
        ensures
            r.wf(),
            r@ == (self@ + rhs as int) % (MOD as int),
    {
        let r = self.plus(Self::new(rhs));
        proof {
            lemma_add_mod_noop_right(self@, rhs as int, MOD as int);
            r.lemma_residue_determines();
        }
        r
    }
}

impl<const MOD: u64> vstd::std_specs::ops::AddSpecImpl<i64> for ModInt<MOD> {
    open spec fn obeys_add_spec() -> bool {
        true
    }

    open spec fn add_req(self, rhs: i64) -> bool {
        self.wf()
    }

    open spec fn add_spec(self, rhs: i64) -> Self {
        Self::from_residue((self@ + rhs as int) % (MOD as int))
    }
}

impl<const MOD: u64> std::ops::AddAssign<i64> for ModInt<MOD> {
    fn add_assign(&mut self, rhs: i64)
        requires
            old(self).wf(),
        ensures
            final(self).wf(),
            *final(self) == old(self).add_spec(rhs),
            final(self)@ == (old(self)@ + rhs as int) % (MOD as int),
    {
        *self = *self + rhs;
    }
}

impl<const MOD: u64> std::ops::Sub for ModInt<MOD> {
    type Output = Self;

    fn sub(self, rhs: Self) -> (r: Self)
        ensures
            r.wf(),
            r@ == (self@ - rhs@) % (MOD as int),
    {
        let r = self.minus(rhs);
        proof {
            r.lemma_residue_determines();
        }
        r
    }
}

impl<const MOD: u64> vstd::std_specs::ops::SubSpecImpl for ModInt<MOD> {
    open spec fn obeys_sub_spec() -> bool {
        true
    }

    open spec fn sub_req(self, rhs: Self) -> bool {
        self.wf() && rhs.wf()
    }

    open spec fn sub_spec(self, rhs: Self) -> Self {
        Self::from_residue((self@ - rhs@) % (MOD as int))
    }
}

impl<const MOD: u64> std::ops::SubAssign for ModInt<MOD> {
    fn sub_assign(&mut self, rhs: Self)
        requires
            old(self).wf(),
            rhs.wf(),
        ensures
            final(self).wf(),
            *final(self) == old(self).sub_spec(rhs),
            final(self)@ == (old(self)@ - rhs@) % (MOD as int),
    {
        *self = *self - rhs;
    }
}

impl<const MOD: u64> std::ops::Sub<i64> for ModInt<MOD> {
    type Output = Self;

    fn sub(self, rhs: i64) -> (r: Self)
        ensures
            r.wf(),
            r@ == (self@ - rhs as int) % (MOD as int),
    {
        let r = self.minus(Self::new(rhs));
        proof {
            lemma_sub_mod_noop_right(self@, rhs as int, MOD as int);
            r.lemma_residue_determines();
        }
        r
    }
}

impl<const MOD: u64> vstd::std_specs::ops::SubSpecImpl<i64> for ModInt<MOD> {
    open spec fn obeys_sub_spec() -> bool {
        true
    }

    open spec fn sub_req(self, rhs: i64) -> bool {
        self.wf()
    }

    open spec fn sub_spec(self, rhs: i64) -> Self {
        Self::from_residue((self@ - rhs as int) % (MOD as int))
    }
}

impl<const MOD: u64> std::ops::SubAssign<i64> for ModInt<MOD> {
    fn sub_assign(&mut self, rhs: i64)
        requires
            old(self).wf(),
        ensures
            final(self).wf(),
            *final(self) == old(self).sub_spec(rhs),
            final(self)@ == (old(self)@ - rhs as int) % (MOD as int),
    {
        *self = *self - rhs;
    }
}

impl<const MOD: u64> std::ops::Mul for ModInt<MOD> {
    type Output = Self;

    fn mul(self, rhs: Self) -> (r: Self)
        ensures
            r.wf(),
            r@ == (self@ * rhs@) % (MOD as int),
    {
        let r = self.times(rhs);
        proof {
            r.lemma_residue_determines();
        }
        r
    }
}

impl<const MOD: u64> vstd::std_specs::ops::MulSpecImpl for ModInt<MOD> {
    open spec fn obeys_mul_spec() -> bool {
        true
    }

    open spec fn mul_req(self, rhs: Self) -> bool {
        self.wf() && rhs.wf()
    }

    open spec fn mul_spec(self, rhs: Self) -> Self {
        Self::from_residue((self@ * rhs@) % (MOD as int))
    }
}

impl<const MOD: u64> std::ops::MulAssign for ModInt<MOD> {
    fn mul_assign(&mut self, rhs: Self)
        requires
            old(self).wf(),
            rhs.wf(),
        ensures
            final(self).wf(),
            *final(self) == old(self).mul_spec(rhs),
            final(self)@ == (old(self)@ * rhs@) % (MOD as int),
    {
        *self = *self * rhs;
    }
}

impl<const MOD: u64> std::ops::Mul<i64> for ModInt<MOD> {
    type Output = Self;

    fn mul(self, rhs: i64) -> (r: Self)
        ensures
            r.wf(),
            r@ == (self@ * rhs as int) % (MOD as int),
    {
        let r = self.times(Self::new(rhs));
        proof {
            lemma_mul_mod_noop_right(self@, rhs as int, MOD as int);
            r.lemma_residue_determines();
        }
        r
    }
}

impl<const MOD: u64> vstd::std_specs::ops::MulSpecImpl<i64> for ModInt<MOD> {
    open spec fn obeys_mul_spec() -> bool {
        true
    }

    open spec fn mul_req(self, rhs: i64) -> bool {
        self.wf()
    }

    open spec fn mul_spec(self, rhs: i64) -> Self {
        Self::from_residue((self@ * rhs as int) % (MOD as int))
    }
}

impl<const MOD: u64> std::ops::MulAssign<i64> for ModInt<MOD> {
    fn mul_assign(&mut self, rhs: i64)
        requires
            old(self).wf(),
        ensures
            final(self).wf(),
            *final(self) == old(self).mul_spec(rhs),
            final(self)@ == (old(self)@ * rhs as int) % (MOD as int),
    {
        *self = *self * rhs;
    }
}

impl<const MOD: u64> std::ops::Div for ModInt<MOD> {
    type Output = Self;

    fn div(self, rhs: Self) -> (r: Self)
        ensures
            r.wf(),
            r@ == (self@ * inverse_of(rhs@, MOD as int)) % (MOD as int),
    {
        let r = self.times(rhs.inv());
        proof {
            r.lemma_residue_determines();
        }
        r
    }
}

impl<const MOD: u64> vstd::std_specs::ops::DivSpecImpl for ModInt<MOD> {
    open spec fn obeys_div_spec() -> bool {
        true
    }

    open spec fn div_req(self, rhs: Self) -> bool {
        self.wf() && rhs.wf()
    }

    open spec fn div_spec(self, rhs: Self) -> Self {
        Self::from_residue((self@ * inverse_of(rhs@, MOD as int)) % (MOD as int))
    }
}

impl<const MOD: u64> std::ops::DivAssign for ModInt<MOD> {
    fn div_assign(&mut self, rhs: Self)
        requires
            old(self).wf(),
            rhs.wf(),
        ensures
            final(self).wf(),
            *final(self) == old(self).div_spec(rhs),
            final(self)@ == (old(self)@ * inverse_of(rhs@, MOD as int)) % (MOD as int),
    {
        *self = *self / rhs;
    }
}

impl<const MOD: u64> std::ops::Div<i64> for ModInt<MOD> {
    type Output = Self;

    fn div(self, rhs: i64) -> (r: Self)
        ensures
            r.wf(),
            r@ == (self@ * inverse_of((rhs as int) % (MOD as int), MOD as int)) % (MOD as int),
    {
        let r = self.times(Self::new(rhs).inv());
        proof {
            r.lemma_residue_determines();
        }
        r
    }
}

impl<const MOD: u64> vstd::std_specs::ops::DivSpecImpl<i64> for ModInt<MOD> {
    open spec fn obeys_div_spec() -> bool {
        true
    }

    open spec fn div_req(self, rhs: i64) -> bool {
        self.wf()
    }

    open spec fn div_spec(self, rhs: i64) -> Self {
        Self::from_residue((self@ * inverse_of((rhs as int) % (MOD as int), MOD as int)) % (MOD as int))
    }
}

impl<const MOD: u64> std::ops::DivAssign<i64> for ModInt<MOD> {
    fn div_assign(&mut self, rhs: i64)
        requires
            old(self).wf(),
        ensures
            final(self).wf(),
            *final(self) == old(self).div_spec(rhs),
            final(self)@ == (old(self)@ * inverse_of((rhs as int) % (MOD as int), MOD as int)) % (MOD as int),
    {
        *self = *self / rhs;
    }
}

} // verus!
