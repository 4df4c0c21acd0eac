//! Integer powers by repeated squaring. Every multiplication rounds toward zero, so the result
//! is defined by the order of the multiplications, which `pow_steps` fixes.
use vstd::prelude::*;

use crate::dec19x19::{in_range, scale, Dec19x19, FRAC_SCALE_I128};
use crate::div::div_repr;
use crate::mul::mul_repr;
use crate::ops::{CheckedDiv, CheckedMul, CheckedPow, UncheckedPow};

verus! {

/// The product of the representations `a` and `b` where it is representable.
pub open spec fn checked_mul_repr(a: int, b: int) -> Option<int> {
    if in_range(mul_repr(a, b)) {
        Some(mul_repr(a, b))
    } else {
        None
    }
}

/// Binary exponentiation from the lowest bit of `e`: multiply `result` by `base` where the bit
/// is set, then square `base` while bits remain; `None` once a product is not representable.
pub open spec fn pow_steps(result: int, base: int, e: nat) -> Option<int>
    decreases e,
{
    if e == 0 {
        Some(result)
    } else {
        let next = if e % 2 == 1 {
            checked_mul_repr(result, base)
        } else {
            Some(result)
        };
        match next {
            None => None,
            Some(r) => if e / 2 == 0 {
                Some(r)
            } else {
                match checked_mul_repr(base, base) {
                    None => None,
                    Some(b) => pow_steps(r, b, e / 2),
                }
            },
        }
    }
}

/// The representation of `v ^ exp`: a negative exponent starts from `1 / v`, which fails for
/// `v = 0`.
pub open spec fn pow_repr(v: int, exp: int) -> Option<int> {
    if exp >= 0 {
        pow_steps(scale(), v, exp as nat)
    } else if v == 0 || !in_range(div_repr(scale(), v)) {
        None
    } else {
        pow_steps(scale(), div_repr(scale(), v), (-exp) as nat)
    }
}

impl CheckedPow<i32> for Dec19x19 {
    type Output = Self;

    /// `self` to the power `exp`, or `None` where a step overflows or `exp < 0` and `self` is
    /// zero.
    fn checked_pow(self, exp: i32) -> (r: Option<Self>)
        ensures
            match r {
                Some(d) => pow_repr(self.repr as int, exp as int) == Some(d.repr as int),
                None => pow_repr(self.repr as int, exp as int) is None,
            },
    {
        let ghost target = pow_repr(self.repr as int, exp as int);
        let one = Dec19x19 { repr: FRAC_SCALE_I128 };
        let mut result = one;
        let mut base = if exp >= 0 {
            self
        } else {
            one.checked_div(self)?
        };
        let mut e: u32 = if exp < 0 { (-(exp as i64)) as u32 } else { exp as u32 };
        assert(target == pow_steps(result.repr as int, base.repr as int, e as nat));
        if e > 0 {
            let e2 = e / 2;
            let f2 = e % 2;
            if f2 == 1 {
                result = result.checked_mul(base)?;
            }
            e = e2;
        }
        while e > 0
            invariant
                target == pow_repr(self.repr as int, exp as int),
                target == (if e == 0 {
                    Some(result.repr as int)
                } else {
                    match checked_mul_repr(base.repr as int, base.repr as int) {
                        None => None,
                        Some(b) => pow_steps(result.repr as int, b, e as nat),
                    }
                }),
            decreases e,
        {
            base = base.checked_mul(base)?;
            let e2 = e / 2;
            let f2 = e % 2;
            if f2 == 1 {
                result = result.checked_mul(base)?;
            }
            e = e2;
        }
        Some(result)
    }
}

impl UncheckedPow<i32> for Dec19x19 {
    type Output = Self;

    open spec fn unchecked_pow_defined(self, exp: i32) -> bool {
        pow_repr(self.repr as int, exp as int) is Some
    }

    /// `self` to the power `exp`.
    fn unchecked_pow(self, exp: i32) -> (r: Self)
        ensures
            pow_repr(self.repr as int, exp as int) == Some(r.repr as int),
    {
        self.checked_pow(exp).unwrap()
    }
}

} // verus!
