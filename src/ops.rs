//! The operations of a fixed-point number, one trait per operation and overflow policy.
//!
//! The `Unchecked*` traits carry a precondition, `*_defined`, which says on which operands the
//! operation has a representable result; `Checked*` return `None` elsewhere and `Saturating*`
//! clamp to the bounds.
use vstd::prelude::*;

verus! {

/// A type with a largest value.
pub trait HasMax: Sized {
    fn max_value() -> Self;

    fn is_max(self) -> bool;
}

/// A type with a smallest value.
pub trait HasMin: Sized {
    fn min_value() -> Self;

    fn is_min(self) -> bool;
}

/// The sign of a value.
pub trait Signum {
    fn signum(self) -> Self;

    fn signum_i128(self) -> i128;
}

/// The magnitude of a value.
pub trait Abs {
    fn abs(self) -> Self;
}

/// Addition on operands whose sum is representable.
pub trait UncheckedAdd<Rhs = Self> {
    type Output;

    spec fn unchecked_add_defined(self, rhs: Rhs) -> bool;

    fn unchecked_add(self, rhs: Rhs) -> Self::Output
        requires
            self.unchecked_add_defined(rhs),
    ;
}

/// Addition that reports an unrepresentable sum.
pub trait CheckedAdd<Rhs = Self> {
    type Output;

    fn checked_add(self, rhs: Rhs) -> Option<Self::Output>;
}

/// Addition that clamps to the bounds.
pub trait SaturatingAdd<Rhs = Self> {
    type Output;

    fn saturating_add(self, rhs: Rhs) -> Self::Output;
}

/// Subtraction on operands whose difference is representable.
pub trait UncheckedSub<Rhs = Self> {
    type Output;

    spec fn unchecked_sub_defined(self, rhs: Rhs) -> bool;

    fn unchecked_sub(self, rhs: Rhs) -> Self::Output
        requires
            self.unchecked_sub_defined(rhs),
    ;
}

/// Subtraction that reports an unrepresentable difference.
pub trait CheckedSub<Rhs = Self> {
    type Output;

    fn checked_sub(self, rhs: Rhs) -> Option<Self::Output>;
}

/// Subtraction that clamps to the bounds.
pub trait SaturatingSub<Rhs = Self> {
    type Output;

    fn saturating_sub(self, rhs: Rhs) -> Self::Output;
}

/// Multiplication on operands whose product is representable.
pub trait UncheckedMul<Rhs = Self> {
    type Output;

    spec fn unchecked_mul_defined(self, rhs: Rhs) -> bool;

    fn unchecked_mul(self, rhs: Rhs) -> Self::Output
        requires
            self.unchecked_mul_defined(rhs),
    ;
}

/// Multiplication that reports an unrepresentable product.
pub trait CheckedMul<Rhs = Self> {
    type Output;

    fn checked_mul(self, rhs: Rhs) -> Option<Self::Output>;
}

/// Multiplication that clamps to the bounds.
pub trait SaturatingMul<Rhs = Self> {
    type Output;

    fn saturating_mul(self, rhs: Rhs) -> Self::Output;
}

/// Division by a nonzero divisor with a representable quotient.
pub trait UncheckedDiv<Rhs = Self> {
    type Output;

    spec fn unchecked_div_defined(self, rhs: Rhs) -> bool;

    fn unchecked_div(self, rhs: Rhs) -> Self::Output
        requires
            self.unchecked_div_defined(rhs),
    ;
}

/// Division that reports a zero divisor or an unrepresentable quotient.
pub trait CheckedDiv<Rhs = Self> {
    type Output;

    fn checked_div(self, rhs: Rhs) -> Option<Self::Output>;
}

/// Division that clamps to the bounds.
pub trait SaturatingDiv<Rhs = Self> {
    type Output;

    fn saturating_div(self, rhs: Rhs) -> Self::Output;
}

/// Rounding toward zero to an integer.
pub trait Trunc {
    fn trunc(self) -> Self;
}

/// Rounding toward zero to a number of fractional digits.
pub trait TruncTo {
    fn trunc_to(self, digits: i64) -> Self;
}

/// Rounding down to an integer.
pub trait Floor {
    fn floor(self) -> Self;
}

/// Rounding down to a number of fractional digits.
pub trait FloorTo {
    fn floor_to(self, digits: i64) -> Self;
}

/// Rounding up to an integer.
pub trait Ceil {
    fn ceil(self) -> Self;
}

/// Rounding up to a number of fractional digits.
pub trait CeilTo {
    fn ceil_to(self, digits: i64) -> Self;
}

/// Rounding half away from zero to an integer.
pub trait Round {
    fn round(self) -> Self;
}

/// Rounding half away from zero to a number of fractional digits.
pub trait RoundTo {
    fn round_to(self, digits: i64) -> Self;
}

/// The square root of a non-negative value.
pub trait UncheckedSqrt {
    spec fn unchecked_sqrt_defined(self) -> bool;

    fn unchecked_sqrt(self) -> Self
        requires
            self.unchecked_sqrt_defined(),
    ;
}

/// The square root, or nothing for a negative value.
pub trait CheckedSqrt: Sized {
    fn checked_sqrt(self) -> Option<Self>;
}

/// Integer powers whose every step is representable.
pub trait UncheckedPow<Exp = Self> {
    type Output;

    spec fn unchecked_pow_defined(self, exp: Exp) -> bool;

    fn unchecked_pow(self, exp: Exp) -> Self::Output
        requires
            self.unchecked_pow_defined(exp),
    ;
}

/// Integer powers that report a failed step.
pub trait CheckedPow<Rhs = Self> {
    type Output;

    fn checked_pow(self, exp: Rhs) -> Option<Self::Output>;
}

/// The decimal logarithm of a positive value, rounded down.
pub trait UncheckedLog10Floor {
    spec fn unchecked_log10_floor_defined(self) -> bool;

    fn unchecked_log10_floor(self) -> Self
        requires
            self.unchecked_log10_floor_defined(),
    ;
}

/// The decimal logarithm rounded down, or nothing for a value that is not positive.
pub trait CheckedLog10Floor: Sized {
    fn checked_log10_floor(self) -> Option<Self>;
}

/// The natural logarithm of a positive value.
pub trait UncheckedLn {
    spec fn unchecked_ln_defined(self) -> bool;

    fn unchecked_ln(self) -> Self
        requires
            self.unchecked_ln_defined(),
    ;
}

/// The natural logarithm, or nothing for a value that is not positive.
pub trait CheckedLn: Sized {
    fn checked_ln(self) -> Option<Self>;
}

} // verus!
