//! Division: the representation of `a / b` is `a * 10^19 / b` rounded toward zero, with the
//! numerator formed in 256 bits.
use vstd::prelude::*;

use crate::dec19x19::{
    checked_result, div_toward_zero, in_range, saturate, scale, Dec19x19, FRAC_SCALE_I128,
};
use crate::ops::{CheckedDiv, SaturatingDiv, UncheckedDiv};
use crate::wide::{checked_div_wide, mul_wide, narrow, word};

verus! {

/// The representation of the quotient of the values represented by `a` and `b`, for `b != 0`.
pub open spec fn div_repr(a: int, b: int) -> int {
    div_toward_zero(a * scale(), b)
}

proof fn lemma_numerator_bounds(a: int)
    requires
        in_range(a),
    ensures
        -word() * word() / 2 < a * scale() < word() * word() / 2,
{
    assert(-word() * word() / 2 < a * scale() < word() * word() / 2) by (nonlinear_arith)
        requires
            i128::MIN <= a <= i128::MAX,
            scale() == 10_000_000_000_000_000_000,
            word() == u128::MAX as int + 1,
    ;
}

impl CheckedDiv for Dec19x19 {
    type Output = Self;

    /// The quotient, or `None` for a zero divisor or a quotient that is not representable.
    fn checked_div(self, rhs: Self) -> (r: Option<Self>)
        ensures
            rhs.repr == 0 ==> r is None,
            rhs.repr != 0 ==> checked_result(r, div_repr(self.repr as int, rhs.repr as int)),
    {
        if rhs.repr == 0 {
            return None;
        }
        proof {
            lemma_numerator_bounds(self.repr as int);
        }
        let n = mul_wide(self.repr, FRAC_SCALE_I128);
        let q = checked_div_wide(n, rhs.repr).unwrap();
        match narrow(q) {
            Some(repr) => Some(Dec19x19 { repr }),
            None => None,
        }
    }
}

impl UncheckedDiv for Dec19x19 {
    type Output = Self;

    open spec fn unchecked_div_defined(self, rhs: Self) -> bool {
        rhs.repr != 0 && in_range(div_repr(self.repr as int, rhs.repr as int))
    }

    fn unchecked_div(self, rhs: Self) -> (r: Self)
        ensures
            r.repr == div_repr(self.repr as int, rhs.repr as int),
    {
        self.checked_div(rhs).unwrap()
    }
}

impl SaturatingDiv for Dec19x19 {
    type Output = Self;

    /// The quotient clamped to `MIN..=MAX`; a zero divisor gives `MAX`.
    fn saturating_div(self, rhs: Self) -> (r: Self)
        ensures
            rhs.repr == 0 ==> r.repr == i128::MAX,
            rhs.repr != 0 ==> r.repr == saturate(div_repr(self.repr as int, rhs.repr as int)),
    {
        match self.checked_div(rhs) {
            Some(result) => result,
            None => {
                let sa: i128 = if self.repr < 0 { -1 } else if self.repr > 0 { 1 } else { 0 };
                let sb: i128 = if rhs.repr < 0 { -1 } else if rhs.repr > 0 { 1 } else { 0 };
                if sa * sb >= 0 {
                    Dec19x19 { repr: i128::MAX }
                } else {
                    Dec19x19 { repr: i128::MIN }
                }
            },
        }
    }
}

impl core::ops::Div for Dec19x19 {
    type Output = Self;

    fn div(self, rhs: Self) -> (r: Self)
        ensures
            r.repr == div_repr(self.repr as int, rhs.repr as int),
    {
        self.unchecked_div(rhs)
    }
}

impl vstd::std_specs::ops::DivSpecImpl for Dec19x19 {
    open spec fn obeys_div_spec() -> bool {
        true
    }

    open spec fn div_req(self, rhs: Self) -> bool {
        rhs.repr != 0 && in_range(div_repr(self.repr as int, rhs.repr as int))
    }

    open spec fn div_spec(self, rhs: Self) -> Self {
        Dec19x19 { repr: div_repr(self.repr as int, rhs.repr as int) as i128 }
    }
}

} // verus!
