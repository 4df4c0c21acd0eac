//! Rounding to a multiple of a power of ten: toward zero, down, up, and half away from zero.
//!
//! Each operation works at a scale `s`: `10^19` rounds to an integer, and `scale_for(digits)`
//! rounds to `digits` fractional digits (a negative count rounds to tens, hundreds, ...).
use vstd::prelude::*;

use vstd::arithmetic::div_mod::{
    lemma_fundamental_div_mod, lemma_fundamental_div_mod_converse, lemma_mod_bound,
};

use crate::dec19x19::{div_toward_zero, in_range, scale, Dec19x19, FRAC_SCALE_I128, FRAC_SCALE_I128_HALF};
use crate::i128_ops::{clamp_digits, mag, pow10, scale_for};
use crate::ops::{Ceil, CeilTo, Floor, FloorTo, Round, RoundTo, Trunc, TruncTo};

verus! {

/// A valid rounding scale: `10^k` for `k` in `0..=38`.
pub open spec fn is_scale(s: int) -> bool {
    exists|k: nat| k <= 38 && s == pow10(k)
}

/// `v` rounded toward zero to a multiple of `s`.
pub open spec fn trunc_repr(v: int, s: int) -> int {
    div_toward_zero(v, s) * s
}

/// The greatest multiple of `s` that is at most `v`.
pub open spec fn floor_mult(v: int, s: int) -> int {
    (v / s) * s
}

/// The least multiple of `s` that is at least `v`.
pub open spec fn ceil_mult(v: int, s: int) -> int {
    -(((-v) / s) * s)
}

/// `v` rounded to the nearest multiple of `s`, halves away from zero.
pub open spec fn round_half_away(v: int, s: int) -> int {
    let m = (mag(v) + s / 2) / s * s;
    if v < 0 {
        -m
    } else {
        m
    }
}

/// What flooring does: the floor where it is representable, else `v` itself.
pub open spec fn floor_repr(v: int, s: int) -> int {
    if in_range(floor_mult(v, s)) {
        floor_mult(v, s)
    } else {
        v
    }
}

/// What ceiling does: the ceiling where it is representable, else `v` itself.
pub open spec fn ceil_repr(v: int, s: int) -> int {
    if in_range(ceil_mult(v, s)) {
        ceil_mult(v, s)
    } else {
        v
    }
}

/// `v` moved away from zero by half of `s`.
pub open spec fn biased(v: int, s: int) -> int {
    if v < 0 {
        v - s / 2
    } else {
        v + s / 2
    }
}

/// What rounding does: half away from zero where adding the half-scale bias does not
/// overflow, else toward zero.
pub open spec fn round_repr(v: int, s: int) -> int {
    if in_range(biased(v, s)) {
        round_half_away(v, s)
    } else {
        trunc_repr(v, s)
    }
}

/// The scale that `digits` selects.
pub open spec fn digits_scale(digits: int) -> int {
    pow10((19 - clamp_digits(digits)) as nat)
}

proof fn lemma_scale_positive(s: int)
    requires
        is_scale(s),
    ensures
        s >= 1,
        s <= 100_000_000_000_000_000_000_000_000_000_000_000_000,
{
    let k = choose|k: nat| k <= 38 && s == pow10(k);
    crate::i128_ops::lemma_pow10_positive(k);
    crate::i128_ops::lemma_pow10_monotonic(k, 38);
    crate::i128_ops::lemma_pow10_table();
}

proof fn lemma_digits_scale(digits: int)
    ensures
        is_scale(digits_scale(digits)),
{
    let k = (19 - clamp_digits(digits)) as nat;
    assert(k <= 38 && digits_scale(digits) == pow10(k));
}

proof fn lemma_frac_scale()
    ensures
        is_scale(FRAC_SCALE_I128 as int),
{
    crate::i128_ops::lemma_pow10_table();
    assert(19 <= 38 && FRAC_SCALE_I128 as int == pow10(19));
}

impl Dec19x19 {
    pub fn trunc_impl(self, scale: i128) -> (r: Self)
        requires
            is_scale(scale as int),
        ensures
            r.repr == trunc_repr(self.repr as int, scale as int),
    {
        proof {
            lemma_scale_positive(scale as int);
            lemma_trunc_bounds(self.repr as int, scale as int);
        }
        let int_part = self.repr / scale;
        Dec19x19 { repr: int_part * scale }
    }

    pub fn floor_impl(self, scale: i128) -> (r: Self)
        requires
            is_scale(scale as int),
        ensures
            r.repr == floor_repr(self.repr as int, scale as int),
    {
        proof {
            lemma_scale_positive(scale as int);
            lemma_trunc_bounds(self.repr as int, scale as int);
            lemma_floor_from_trunc(self.repr as int, scale as int);
        }
        let frac = self.repr % scale;
        let has_fraction = frac != 0;
        let is_negative = self.repr < 0;
        let subtract_one = has_fraction && is_negative;
        let truncated = (self.repr / scale) * scale;
        let repr = if subtract_one {
            match truncated.checked_sub(scale) {
                Some(result) => result,
                None => self.repr,
            }
        } else {
            truncated
        };
        Dec19x19 { repr }
    }

    pub fn ceil_impl(self, scale: i128) -> (r: Self)
        requires
            is_scale(scale as int),
        ensures
            r.repr == ceil_repr(self.repr as int, scale as int),
    {
        proof {
            lemma_scale_positive(scale as int);
            lemma_trunc_bounds(self.repr as int, scale as int);
            lemma_ceil_from_trunc(self.repr as int, scale as int);
        }
        let frac = self.repr % scale;
        let has_fraction = frac != 0;
        let is_positive = self.repr > 0;
        let add_one = has_fraction && is_positive;
        let truncated = (self.repr / scale) * scale;
        let repr = if add_one {
            match truncated.checked_add(scale) {
                Some(result) => result,
                None => self.repr,
            }
        } else {
            truncated
        };
        Dec19x19 { repr }
    }
}

/// Rounding toward zero stays between zero and `v`.
proof fn lemma_trunc_bounds(v: int, s: int)
    requires
        s >= 1,
    ensures
        v >= 0 ==> 0 <= trunc_repr(v, s) <= v,
        v < 0 ==> v <= trunc_repr(v, s) <= 0,
        v >= 0 ==> trunc_repr(v, s) == (v / s) * s,
        v < 0 ==> trunc_repr(v, s) == -(((-v) / s) * s),
{
    if v >= 0 {
        assert(0 <= (v / s) * s <= v) by (nonlinear_arith)
            requires
                v >= 0,
                s >= 1,
        ;
    } else {
        let q = (-v) / s;
        assert(0 <= q * s <= -v) by (nonlinear_arith)
            requires
                v < 0,
                s >= 1,
                q == (-v) / s,
        ;
        assert((-q) * s == -(q * s)) by (nonlinear_arith);
        assert(div_toward_zero(v, s) == -q);
    }
}

proof fn lemma_floor_from_trunc(v: int, s: int)
    requires
        s >= 1,
    ensures
        v >= 0 || (-v) % s == 0 ==> floor_mult(v, s) == trunc_repr(v, s),
        v < 0 && (-v) % s != 0 ==> floor_mult(v, s) == trunc_repr(v, s) - s,
{
    lemma_trunc_bounds(v, s);
    if v < 0 {
        let u = -v;
        let (q, r) = (u / s, u % s);
        lemma_fundamental_div_mod(u, s);
        lemma_mod_bound(u, s);
        if r == 0 {
            assert(v == (-q) * s + 0) by (nonlinear_arith)
                requires
                    u == s * q + r,
                    r == 0,
                    v == -u,
            ;
            lemma_fundamental_div_mod_converse(v, s, -q, 0);
        } else {
            assert(v == (-q - 1) * s + (s - r)) by (nonlinear_arith)
                requires
                    u == s * q + r,
                    v == -u,
            ;
            lemma_fundamental_div_mod_converse(v, s, -q - 1, s - r);
            assert((-q - 1) * s == -(q * s) - s) by (nonlinear_arith);
        }
    }
}

proof fn lemma_ceil_from_trunc(v: int, s: int)
    requires
        s >= 1,
    ensures
        v <= 0 || v % s == 0 ==> ceil_mult(v, s) == trunc_repr(v, s),
        v > 0 && v % s != 0 ==> ceil_mult(v, s) == trunc_repr(v, s) + s,
{
    lemma_trunc_bounds(v, s);
    if v > 0 {
        let (q, r) = (v / s, v % s);
        lemma_fundamental_div_mod(v, s);
        lemma_mod_bound(v, s);
        if r == 0 {
            assert(-v == (-q) * s + 0) by (nonlinear_arith)
                requires
                    v == s * q + r,
                    r == 0,
            ;
            lemma_fundamental_div_mod_converse(-v, s, -q, 0);
            assert(-((-q) * s) == q * s) by (nonlinear_arith);
        } else {
            assert(-v == (-q - 1) * s + (s - r)) by (nonlinear_arith)
                requires
                    v == s * q + r,
            ;
            lemma_fundamental_div_mod_converse(-v, s, -q - 1, s - r);
            assert(-((-q - 1) * s) == q * s + s) by (nonlinear_arith);
        }
    }
}

impl Dec19x19 {
    pub fn round_impl(self, scale: i128, scale_half: i128) -> (r: Self)
        requires
            is_scale(scale as int),
            scale_half == scale / 2,
        ensures
            r.repr == round_repr(self.repr as int, scale as int),
    {
        proof {
            lemma_scale_positive(scale as int);
            lemma_trunc_bounds(self.repr as int, scale as int);
        }
        let v = self.repr;
        let sign = v >> 127u32;
        assert(sign == if v < 0 { -1i128 } else { 0i128 }) by (bit_vector)
            requires
                sign == v >> 127u32,
        ;
        assert(sign == -1i128 ==> (scale_half ^ sign) == -scale_half - 1) by (bit_vector);
        assert(sign == 0i128 ==> (scale_half ^ sign) == scale_half) by (bit_vector);
        let bias = (scale_half ^ sign) - sign;
        let rounded = match v.checked_add(bias) {
            Some(t) => {
                proof {
                    lemma_round_biased(v as int, scale as int);
                    lemma_trunc_bounds(t as int, scale as int);
                }
                t / scale
            },
            None => v / scale,
        };
        Dec19x19 { repr: rounded * scale }
    }
}

/// Dividing `v` plus the signed half-scale bias rounds half away from zero.
proof fn lemma_round_biased(v: int, s: int)
    requires
        s >= 1,
    ensures
        ({
            let t = if v < 0 { v - s / 2 } else { v + s / 2 };
            &&& div_toward_zero(t, s) * s == round_half_away(v, s)
            &&& mag(t) == mag(v) + s / 2
        }),
{
    let h = s / 2;
    if v < 0 {
        let q = (-v + h) / s;
        assert((-q) * s == -(q * s)) by (nonlinear_arith);
    }
}

impl Trunc for Dec19x19 {
    /// Drops the fractional digits.
    fn trunc(self) -> (r: Self)
        ensures
            r.repr == trunc_repr(self.repr as int, scale()),
    {
        proof {
            lemma_frac_scale();
        }
        self.trunc_impl(FRAC_SCALE_I128)
    }
}

impl TruncTo for Dec19x19 {
    /// Drops the digits past `digits` fractional places.
    fn trunc_to(self, digits: i64) -> (r: Self)
        ensures
            r.repr == trunc_repr(self.repr as int, digits_scale(digits as int)),
    {
        proof {
            lemma_digits_scale(digits as int);
        }
        let scale = scale_for(digits);
        self.trunc_impl(scale)
    }
}

impl Floor for Dec19x19 {
    /// The greatest integer at most `self`; below `MIN_INT` the value is kept.
    fn floor(self) -> (r: Self)
        ensures
            r.repr == floor_repr(self.repr as int, scale()),
    {
        proof {
            lemma_frac_scale();
        }
        self.floor_impl(FRAC_SCALE_I128)
    }
}

impl FloorTo for Dec19x19 {
    fn floor_to(self, digits: i64) -> (r: Self)
        ensures
            r.repr == floor_repr(self.repr as int, digits_scale(digits as int)),
    {
        proof {
            lemma_digits_scale(digits as int);
        }
        let scale = scale_for(digits);
        self.floor_impl(scale)
    }
}

impl Ceil for Dec19x19 {
    /// The least integer at least `self`; above `MAX_INT` the value is kept.
    fn ceil(self) -> (r: Self)
        ensures
            r.repr == ceil_repr(self.repr as int, scale()),
    {
        proof {
            lemma_frac_scale();
        }
        self.ceil_impl(FRAC_SCALE_I128)
    }
}

impl CeilTo for Dec19x19 {
    fn ceil_to(self, digits: i64) -> (r: Self)
        ensures
            r.repr == ceil_repr(self.repr as int, digits_scale(digits as int)),
    {
        proof {
            lemma_digits_scale(digits as int);
        }
        let scale = scale_for(digits);
        self.ceil_impl(scale)
    }
}

impl Round for Dec19x19 {
    /// The nearest integer, halves away from zero.
    fn round(self) -> (r: Self)
        ensures
            r.repr == round_repr(self.repr as int, scale()),
    {
        proof {
            lemma_frac_scale();
        }
        self.round_impl(FRAC_SCALE_I128, FRAC_SCALE_I128_HALF)
    }
}

impl RoundTo for Dec19x19 {
    /// The nearest multiple of `10^-digits`, halves away from zero.
    fn round_to(self, digits: i64) -> (r: Self)
        ensures
            r.repr == round_repr(self.repr as int, digits_scale(digits as int)),
    {
        proof {
            lemma_digits_scale(digits as int);
            lemma_scale_positive(digits_scale(digits as int));
        }
        let scale = scale_for(digits);
        let scale_half = scale / 2;
        self.round_impl(scale, scale_half)
    }
}

/// Flooring and ceiling bracket a value at every scale, and they agree exactly on the
/// multiples of the scale; rounding is half away from zero wherever the half-scale bias fits.
pub proof fn lemma_rounding_laws(v: i128, digits: i64)
    ensures
        ({
            let s = digits_scale(digits as int);
            &&& floor_repr(v as int, s) <= v <= ceil_repr(v as int, s)
            &&& (floor_repr(v as int, s) == ceil_repr(v as int, s)) <==> (v as int) % s == 0
            &&& in_range(biased(v as int, s)) ==> round_repr(v as int, s) == round_half_away(
                v as int,
                s,
            )
        }),
        floor_repr(v as int, scale()) <= v <= ceil_repr(v as int, scale()),
        (floor_repr(v as int, scale()) == ceil_repr(v as int, scale())) <==> (v as int) % scale()
            == 0,
{
    let s = digits_scale(digits as int);
    lemma_digits_scale(digits as int);
    lemma_scale_positive(s);
    lemma_floor_ceil_bracket(v as int, s);
    lemma_frac_scale();
    lemma_scale_positive(scale());
    lemma_floor_ceil_bracket(v as int, scale());
}

proof fn lemma_floor_ceil_bracket(v: int, s: int)
    requires
        1 <= s <= 100_000_000_000_000_000_000_000_000_000_000_000_000,
        in_range(v),
    ensures
        floor_repr(v, s) <= v <= ceil_repr(v, s),
        (floor_repr(v, s) == ceil_repr(v, s)) <==> v % s == 0,
{
    lemma_fundamental_div_mod(v, s);
    lemma_mod_bound(v, s);
    lemma_fundamental_div_mod(-v, s);
    lemma_mod_bound(-v, s);
    let (q, r) = (v / s, v % s);
    assert(floor_mult(v, s) == v - r) by (nonlinear_arith)
        requires
            v == s * q + r,
            floor_mult(v, s) == q * s,
    ;
    if r == 0 {
        assert(-v == (-q) * s + 0) by (nonlinear_arith)
            requires
                v == s * q + r,
                r == 0,
        ;
        lemma_fundamental_div_mod_converse(-v, s, -q, 0);
        assert(-((-q) * s) == q * s) by (nonlinear_arith);
    } else {
        assert(-v == (-q - 1) * s + (s - r)) by (nonlinear_arith)
            requires
                v == s * q + r,
        ;
        lemma_fundamental_div_mod_converse(-v, s, -q - 1, s - r);
        assert(-((-q - 1) * s) == v - r + s) by (nonlinear_arith)
            requires
                v == s * q + r,
        ;
    }
}

} // verus!
