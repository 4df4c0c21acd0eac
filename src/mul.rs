//! Multiplication: the exact product of the representations divided by the scale, rounded
//! toward zero. Two implementations: one that always forms all partial products, and one that
//! skips those that are zero when an operand is an integer or a pure fraction.
use vstd::prelude::*;

use vstd::arithmetic::div_mod::{
    lemma_fundamental_div_mod, lemma_fundamental_div_mod_converse, lemma_mod_bound,
};

use crate::dec19x19::{in_range, sign, magnitude, saturate, scale, Dec19x19, FRAC_SCALE_U128};
use crate::i128_ops::mag;
use crate::ops::{CheckedMul, SaturatingMul, Signum, UncheckedMul};

verus! {

/// The representation of the product of the values represented by `a` and `b`: `a * b / 10^19`
/// rounded toward zero.
pub open spec fn mul_repr(a: int, b: int) -> int {
    let m = mag(a) * mag(b) / scale();
    if (a < 0) != (b < 0) {
        -m
    } else {
        m
    }
}

/// The product of two magnitudes split into integer and fractional parts at the scale.
proof fn lemma_mul_parts(ua: int, ub: int)
    requires
        ua >= 0,
        ub >= 0,
    ensures
        ({
            let s = scale();
            let (ai, af, bi, bf) = (ua / s, ua % s, ub / s, ub % s);
            &&& 0 <= af < s
            &&& 0 <= bf < s
            &&& ai >= 0 && bi >= 0
            &&& ua == ai * s + af
            &&& ub == bi * s + bf
            &&& 0 <= ai * bi <= ai * bi * s
            &&& 0 <= ai * bf
            &&& 0 <= bi * af
            &&& 0 <= af * bf < s * s
            &&& 0 <= af * bf / s < s
            &&& ua * ub / s == ai * bi * s + (ai * bf + bi * af) + af * bf / s
        }),
{
    let s = scale();
    let (ai, af, bi, bf) = (ua / s, ua % s, ub / s, ub % s);
    lemma_fundamental_div_mod(ua, s);
    lemma_fundamental_div_mod(ub, s);
    lemma_mod_bound(ua, s);
    lemma_mod_bound(ub, s);
    assert(ai >= 0 && bi >= 0) by (nonlinear_arith)
        requires
            ua == s * ai + af,
            ub == s * bi + bf,
            0 <= af < s,
            0 <= bf < s,
            ua >= 0,
            ub >= 0,
    ;
    assert(0 <= ai * bi <= ai * bi * s) by (nonlinear_arith)
        requires
            ai >= 0,
            bi >= 0,
            s > 1,
    ;
    assert(0 <= ai * bf && 0 <= bi * af) by (nonlinear_arith)
        requires
            ai >= 0,
            bi >= 0,
            af >= 0,
            bf >= 0,
    ;
    assert(0 <= af * bf < s * s) by (nonlinear_arith)
        requires
            0 <= af < s,
            0 <= bf < s,
    ;
    let k = ai * bi * s + (ai * bf + bi * af);
    let p = af * bf;
    lemma_fundamental_div_mod(p, s);
    lemma_mod_bound(p, s);
    assert(0 <= p / s < s) by (nonlinear_arith)
        requires
            p == s * (p / s) + p % s,
            0 <= p % s < s,
            0 <= p < s * s,
    ;
    assert((s * ai + af) * (s * bi + bf) == k * s + p) by (nonlinear_arith)
        requires
            k == ai * bi * s + (ai * bf + bi * af),
            p == af * bf,
    ;
    let (q, r) = (p / s, p % s);
    assert(k * s + p == (k + q) * s + r) by (nonlinear_arith)
        requires
            p == s * q + r,
    ;
    assert(ua * ub == (k + q) * s + r);
    lemma_fundamental_div_mod_converse(ua * ub, s, k + p / s, p % s);
}

/// `-m` if `neg`, else `m`, where that is representable.
fn signed_from_magnitude(neg: bool, m: u128) -> (r: Option<i128>)
    ensures
        ({
            let v = if neg { -(m as int) } else { m as int };
            match r {
                Some(x) => in_range(v) && x == v,
                None => !in_range(v),
            }
        }),
{
    if neg {
        if m <= 0x8000_0000_0000_0000_0000_0000_0000_0000 {
            if m == 0x8000_0000_0000_0000_0000_0000_0000_0000 {
                Some(i128::MIN)
            } else {
                Some(-(m as i128))
            }
        } else {
            None
        }
    } else if m <= 0x7fff_ffff_ffff_ffff_ffff_ffff_ffff_ffff {
        Some(m as i128)
    } else {
        None
    }
}

impl Dec19x19 {
    /// The product, forming every partial product of the integer and fractional parts.
    pub fn unchecked_mul_no_opt(self, rhs: Self) -> (r: Self)
        requires
            in_range(mul_repr(self.repr as int, rhs.repr as int)),
        ensures
            r.repr == mul_repr(self.repr as int, rhs.repr as int),
    {
        let neg = (self.repr < 0) != (rhs.repr < 0);
        let ua = magnitude(self.repr);
        let ub = magnitude(rhs.repr);
        proof {
            lemma_mul_parts(ua as int, ub as int);
        }
        let ai = ua / FRAC_SCALE_U128;
        let af = ua % FRAC_SCALE_U128;
        let bi = ub / FRAC_SCALE_U128;
        let bf = ub % FRAC_SCALE_U128;
        let whole = ai * bi;
        let cross = ai * bf + bi * af;
        let frac = af * bf / FRAC_SCALE_U128;
        let m = whole * FRAC_SCALE_U128 + cross + frac;
        Dec19x19 { repr: signed_from_magnitude(neg, m).unwrap() }
    }

    /// The product, skipping the partial products that vanish when `rhs` is an integer or a
    /// pure fraction, or `self` is an integer.
    pub fn unchecked_mul_opt(self, rhs: Self) -> (r: Self)
        requires
            in_range(mul_repr(self.repr as int, rhs.repr as int)),
        ensures
            r.repr == mul_repr(self.repr as int, rhs.repr as int),
    {
        let neg = (self.repr < 0) != (rhs.repr < 0);
        let ua = magnitude(self.repr);
        let ub = magnitude(rhs.repr);
        proof {
            lemma_mul_parts(ua as int, ub as int);
        }
        let bi = ub / FRAC_SCALE_U128;
        let bf = ub % FRAC_SCALE_U128;
        let m = if bf == 0 {
            proof {
                let (x, y, s) = (ua as int, bi as int, scale());
                assert(x * y == x * (y * s + 0) / s) by (nonlinear_arith)
                    requires
                        s > 0,
                ;
            }
            ua * bi
        } else if bi == 0 {
            proof {
                let (x, y) = (ua / FRAC_SCALE_U128, ua % FRAC_SCALE_U128);
                assert(x * 0 * scale() == 0 && 0 * y == 0) by (nonlinear_arith);
            }
            let ai = ua / FRAC_SCALE_U128;
            let af = ua % FRAC_SCALE_U128;
            let cross = ai * bf;
            let frac = af * bf / FRAC_SCALE_U128;
            cross + frac
        } else {
            let ai = ua / FRAC_SCALE_U128;
            let af = ua % FRAC_SCALE_U128;
            let whole = ai * bi * FRAC_SCALE_U128;
            if af == 0 {
                proof {
                    assert(bi * 0 == 0 && 0 * bf == 0) by (nonlinear_arith);
                }
                let cross = ai * bf;
                whole + cross
            } else {
                let cross = ai * bf + bi * af;
                let frac = af * bf / FRAC_SCALE_U128;
                whole + cross + frac
            }
        };
        Dec19x19 { repr: signed_from_magnitude(neg, m).unwrap() }
    }
    /// The product, or `None` where it is not representable; forms every partial product.
    pub fn checked_mul_no_opt(self, rhs: Self) -> (r: Option<Self>)
        ensures
            checked_mul_result(r, self.repr as int, rhs.repr as int),
    {
        let neg = (self.repr < 0) != (rhs.repr < 0);
        let ua = magnitude(self.repr);
        let ub = magnitude(rhs.repr);
        proof {
            lemma_mul_parts(ua as int, ub as int);
        }
        let ai = ua / FRAC_SCALE_U128;
        let af = ua % FRAC_SCALE_U128;
        let bi = ub / FRAC_SCALE_U128;
        let bf = ub % FRAC_SCALE_U128;
        let whole = ai.checked_mul(bi)?;
        let t1 = ai.checked_mul(bf)?;
        let t2 = bi.checked_mul(af)?;
        let cross = t1.checked_add(t2)?;
        let frac_mul = af.checked_mul(bf)?;
        let frac = frac_mul / FRAC_SCALE_U128;
        let scaled_whole = whole.checked_mul(FRAC_SCALE_U128)?;
        let sum1 = scaled_whole.checked_add(cross)?;
        let m = sum1.checked_add(frac)?;
        let repr = signed_from_magnitude(neg, m)?;
        Some(Dec19x19 { repr })
    }

    /// The product, or `None` where it is not representable; skips the partial products that
    /// vanish when `rhs` is an integer or a pure fraction, or `self` is an integer.
    pub fn checked_mul_opt(self, rhs: Self) -> (r: Option<Self>)
        ensures
            checked_mul_result(r, self.repr as int, rhs.repr as int),
    {
        let neg = (self.repr < 0) != (rhs.repr < 0);
        let ua = magnitude(self.repr);
        let ub = magnitude(rhs.repr);
        proof {
            lemma_mul_parts(ua as int, ub as int);
        }
        let bi = ub / FRAC_SCALE_U128;
        let bf = ub % FRAC_SCALE_U128;
        let m = if bf == 0 {
            proof {
                let (x, y, s) = (ua as int, bi as int, scale());
                assert(x * y == x * (y * s + 0) / s) by (nonlinear_arith)
                    requires
                        s > 0,
                ;
            }
            ua.checked_mul(bi)?
        } else if bi == 0 {
            proof {
                let (x, y) = (ua / FRAC_SCALE_U128, ua % FRAC_SCALE_U128);
                assert(x * 0 * scale() == 0 && 0 * y == 0) by (nonlinear_arith);
            }
            let ai = ua / FRAC_SCALE_U128;
            let af = ua % FRAC_SCALE_U128;
            let cross = ai.checked_mul(bf)?;
            let frac_mul = af.checked_mul(bf)?;
            let frac = frac_mul / FRAC_SCALE_U128;
            cross.checked_add(frac)?
        } else {
            let ai = ua / FRAC_SCALE_U128;
            let af = ua % FRAC_SCALE_U128;
            let whole = ai.checked_mul(bi)?.checked_mul(FRAC_SCALE_U128)?;
            if af == 0 {
                proof {
                    assert(bi * 0 == 0 && 0 * bf == 0) by (nonlinear_arith);
                }
                let cross = ai.checked_mul(bf)?;
                whole.checked_add(cross)?
            } else {
                let t1 = ai.checked_mul(bf)?;
                let t2 = bi.checked_mul(af)?;
                let cross = t1.checked_add(t2)?;
                let frac_mul = af.checked_mul(bf)?;
                let frac = frac_mul / FRAC_SCALE_U128;
                let sum1 = whole.checked_add(cross)?;
                sum1.checked_add(frac)?
            }
        };
        let repr = signed_from_magnitude(neg, m)?;
        Some(Dec19x19 { repr })
    }
}

/// The result of a checked multiplication of the representations `a` and `b`.
pub open spec fn checked_mul_result(r: Option<Dec19x19>, a: int, b: int) -> bool {
    match r {
        Some(d) => in_range(mul_repr(a, b)) && d.repr == mul_repr(a, b),
        None => !in_range(mul_repr(a, b)),
    }
}

impl UncheckedMul for Dec19x19 {
    type Output = Self;

    open spec fn unchecked_mul_defined(self, rhs: Self) -> bool {
        in_range(mul_repr(self.repr as int, rhs.repr as int))
    }

    fn unchecked_mul(self, rhs: Self) -> (r: Self)
        ensures
            r.repr == mul_repr(self.repr as int, rhs.repr as int),
    {
        self.unchecked_mul_opt(rhs)
    }
}

impl CheckedMul for Dec19x19 {
    type Output = Self;

    fn checked_mul(self, rhs: Self) -> (r: Option<Self>)
        ensures
            checked_mul_result(r, self.repr as int, rhs.repr as int),
    {
        self.checked_mul_opt(rhs)
    }
}

impl SaturatingMul for Dec19x19 {
    type Output = Self;

    /// The product, clamped to `MIN..=MAX`.
    fn saturating_mul(self, rhs: Self) -> (r: Self)
        ensures
            r.repr == saturate(mul_repr(self.repr as int, rhs.repr as int)),
    {
        match self.checked_mul(rhs) {
            Some(result) => result,
            None => {
                proof {
                    let m = mag(self.repr as int) * mag(rhs.repr as int);
                    assert(0 <= mag(self.repr as int) * mag(rhs.repr as int)) by (nonlinear_arith)
                        requires
                            mag(self.repr as int) >= 0,
                            mag(rhs.repr as int) >= 0,
                    ;
                    assert(0 <= m / scale());
                    assert(mag(self.repr as int) != 0 && mag(rhs.repr as int) != 0) by {
                        if mag(self.repr as int) == 0 || mag(rhs.repr as int) == 0 {
                            assert(m == 0) by (nonlinear_arith)
                                requires
                                    mag(self.repr as int) == 0 || mag(rhs.repr as int) == 0,
                                    m == mag(self.repr as int) * mag(rhs.repr as int),
                            ;
                        }
                    }
                }
                let sa = self.signum_i128();
                let sb = rhs.signum_i128();
                assert(sa * sb > 0 <==> (self.repr < 0) == (rhs.repr < 0)) by (nonlinear_arith)
                    requires
                        sa == sign(self.repr as int),
                        sb == sign(rhs.repr as int),
                        self.repr != 0,
                        rhs.repr != 0,
                ;
                if sa * sb > 0 {
                    Dec19x19 { repr: i128::MAX }
                } else {
                    Dec19x19 { repr: i128::MIN }
                }
            },
        }
    }
}

impl core::ops::Mul for Dec19x19 {
    type Output = Self;

    fn mul(self, rhs: Self) -> (r: Self)
        ensures
            r.repr == mul_repr(self.repr as int, rhs.repr as int),
    {
        self.unchecked_mul(rhs)
    }
}

impl vstd::std_specs::ops::MulSpecImpl for Dec19x19 {
    open spec fn obeys_mul_spec() -> bool {
        true
    }

    open spec fn mul_req(self, rhs: Self) -> bool {
        in_range(mul_repr(self.repr as int, rhs.repr as int))
    }

    open spec fn mul_spec(self, rhs: Self) -> Self {
        Dec19x19 { repr: mul_repr(self.repr as int, rhs.repr as int) as i128 }
    }
}

} // verus!
