use vstd::prelude::*;

use crate::i128_ops::mag;
use crate::ops::{
    Abs, CheckedAdd, CheckedSub, HasMax, HasMin, SaturatingAdd, SaturatingSub, Signum,
    UncheckedAdd, UncheckedSub,
};

verus! {

/// `10^19`: multiplying by it moves the fractional digits into the integer part.
pub const FRAC_SCALE_I128: i128 = 10_000_000_000_000_000_000;

pub const FRAC_SCALE_U128: u128 = 10_000_000_000_000_000_000;

/// Half of the scale, the bias of rounding half away from zero.
pub const FRAC_SCALE_I128_HALF: i128 = 5_000_000_000_000_000_000;

/// The scale as a mathematical integer.
pub open spec fn scale() -> int {
    10_000_000_000_000_000_000
}

/// Whether an integer is the representation of some value.
pub open spec fn in_range(v: int) -> bool {
    i128::MIN <= v <= i128::MAX
}

/// `a / b` rounded toward zero.
pub open spec fn div_toward_zero(a: int, b: int) -> int {
    let q = mag(a) / mag(b);
    if (a < 0) != (b < 0) {
        -q
    } else {
        q
    }
}

/// The remainder of `a / b` rounded toward zero; it has the sign of `a`.
pub open spec fn rem_toward_zero(a: int, b: int) -> int {
    let r = mag(a) % mag(b);
    if a < 0 {
        -r
    } else {
        r
    }
}

/// A decimal number with 19 integer and 19 fractional digits: the value is `repr / 10^19`.
///
/// Every value has exactly one representation, so equality and order are those of `repr`.
#[derive(Clone, Copy, PartialEq, Eq, Structural, Ord, Hash, Debug)]
pub struct Dec19x19 {
    pub repr: i128,
}

/// The magnitude of an `i128` as a `u128`.
pub fn magnitude(v: i128) -> (r: u128)
    ensures
        r == mag(v as int),
{
    if v < 0 {
        ((-(v + 1)) as u128) + 1
    } else {
        v as u128
    }
}

impl Dec19x19 {
    /// The largest integer value, `17014118346046923173`.
    pub const MAX_INT_REPR: i128 = 170141183460469231730000000000000000000;

    /// The smallest integer value, `-17014118346046923173`.
    pub const MIN_INT_REPR: i128 = -170141183460469231730000000000000000000;

    /// The natural logarithm of 2, to all 19 fractional digits.
    pub const LN_2_REPR: i128 = 6931471805599453094;

    /// The largest integer value, `MAX` without its fractional digits.
    pub fn max_int() -> (r: Self)
        ensures
            r.repr == Self::MAX_INT_REPR,
    {
        Dec19x19 { repr: Self::MAX_INT_REPR }
    }

    /// The smallest integer value, `MIN` without its fractional digits.
    pub fn min_int() -> (r: Self)
        ensures
            r.repr == Self::MIN_INT_REPR,
    {
        Dec19x19 { repr: Self::MIN_INT_REPR }
    }

    /// `ln 2`, the constant that the logarithm adds back per halving.
    pub fn ln_2() -> (r: Self)
        ensures
            r.repr == Self::LN_2_REPR,
    {
        Dec19x19 { repr: Self::LN_2_REPR }
    }

    /// The smallest positive value, `10^-19`.
    pub fn smallest_step() -> (r: Self)
        ensures
            r.repr == 1,
    {
        Dec19x19 { repr: 1 }
    }

    /// The value whose representation is `repr`, read as `repr / 10^19`.
    pub fn from_repr(repr: i128) -> (r: Self)
        ensures
            r.repr == repr,
    {
        Dec19x19 { repr }
    }

    pub fn is_zero(self) -> (r: bool)
        ensures
            r == (self.repr == 0),
    {
        self.repr == 0
    }
}

impl Default for Dec19x19 {
    fn default() -> (r: Self)
        ensures
            r.repr == 0,
    {
        Dec19x19 { repr: 0 }
    }
}

impl PartialOrd for Dec19x19 {
    /// Values compare as their representations do.
    fn partial_cmp(&self, other: &Self) -> (r: Option<core::cmp::Ordering>)
        ensures
            r == Some(
                if self.repr < other.repr {
                    core::cmp::Ordering::Less
                } else if self.repr > other.repr {
                    core::cmp::Ordering::Greater
                } else {
                    core::cmp::Ordering::Equal
                },
            ),
    {
        if self.repr < other.repr {
            Some(core::cmp::Ordering::Less)
        } else if self.repr > other.repr {
            Some(core::cmp::Ordering::Greater)
        } else {
            Some(core::cmp::Ordering::Equal)
        }
    }
}

impl vstd::std_specs::cmp::PartialOrdSpecImpl for Dec19x19 {
    open spec fn obeys_partial_cmp_spec() -> bool {
        true
    }

    open spec fn partial_cmp_spec(&self, other: &Self) -> Option<core::cmp::Ordering> {
        Some(
            if self.repr < other.repr {
                core::cmp::Ordering::Less
            } else if self.repr > other.repr {
                core::cmp::Ordering::Greater
            } else {
                core::cmp::Ordering::Equal
            },
        )
    }
}

impl HasMax for Dec19x19 {
    fn max_value() -> (r: Self)
        ensures
            r.repr == i128::MAX,
    {
        Dec19x19 { repr: i128::MAX }
    }

    fn is_max(self) -> (r: bool)
        ensures
            r == (self.repr == i128::MAX),
    {
        self.repr == i128::MAX
    }
}

impl HasMin for Dec19x19 {
    fn min_value() -> (r: Self)
        ensures
            r.repr == i128::MIN,
    {
        Dec19x19 { repr: i128::MIN }
    }

    fn is_min(self) -> (r: bool)
        ensures
            r == (self.repr == i128::MIN),
    {
        self.repr == i128::MIN
    }
}

/// The sign of `v`: `-1`, `0` or `1`.
pub open spec fn sign(v: int) -> int {
    if v < 0 {
        -1
    } else if v > 0 {
        1
    } else {
        0
    }
}

impl Signum for Dec19x19 {
    /// `-1`, `0` or `1` as a decimal value.
    fn signum(self) -> (r: Self)
        ensures
            r.repr == sign(self.repr as int) * scale(),
    {
        Dec19x19 { repr: self.signum_i128() * FRAC_SCALE_I128 }
    }

    fn signum_i128(self) -> (r: i128)
        ensures
            r == sign(self.repr as int),
    {
        if self.repr < 0 {
            -1
        } else if self.repr > 0 {
            1
        } else {
            0
        }
    }
}

/// The representation of the negation of `v`; `MIN` saturates to `MAX`.
pub open spec fn neg_repr(v: int) -> int {
    if v == i128::MIN {
        i128::MAX as int
    } else {
        -v
    }
}

impl core::ops::Neg for Dec19x19 {
    type Output = Self;

    /// `-self`; the negation of `MIN`, which is not representable, saturates to `MAX`.
    fn neg(self) -> (r: Self)
        ensures
            r.repr == neg_repr(self.repr as int),
    {
        if self.repr == i128::MIN {
            Dec19x19 { repr: i128::MAX }
        } else {
            Dec19x19 { repr: -self.repr }
        }
    }
}

impl vstd::std_specs::ops::NegSpecImpl for Dec19x19 {
    open spec fn obeys_neg_spec() -> bool {
        true
    }

    open spec fn neg_req(self) -> bool {
        true
    }

    open spec fn neg_spec(self) -> Self {
        Dec19x19 { repr: if self.repr == i128::MIN { i128::MAX } else { (-self.repr) as i128 } }
    }
}

impl Abs for Dec19x19 {
    /// `|self|`; the magnitude of `MIN`, which is not representable, saturates to `MAX`.
    fn abs(self) -> (r: Self)
        ensures
            r.repr == (if self.repr == i128::MIN { i128::MAX as int } else { mag(self.repr as int) }),
    {
        if self.repr == i128::MIN {
            return Dec19x19 { repr: i128::MAX };
        }
        Dec19x19 { repr: if self.repr < 0 { -self.repr } else { self.repr } }
    }
}

impl core::ops::Rem for Dec19x19 {
    type Output = Self;

    /// The remainder of the division of the representations, with the sign of `self`. A zero
    /// divisor gives `self` back.
    fn rem(self, rhs: Self) -> (r: Self)
        ensures
            rhs.repr == 0 ==> r == self,
            rhs.repr != 0 ==> r.repr == rem_toward_zero(self.repr as int, rhs.repr as int),
    {
        if rhs.repr == 0 {
            self
        } else {
            let m = magnitude(self.repr) % magnitude(rhs.repr);
            let repr: i128 = if self.repr < 0 { -(m as i128) } else { m as i128 };
            Dec19x19 { repr }
        }
    }
}

impl vstd::std_specs::ops::RemSpecImpl for Dec19x19 {
    open spec fn obeys_rem_spec() -> bool {
        true
    }

    open spec fn rem_req(self, rhs: Self) -> bool {
        true
    }

    open spec fn rem_spec(self, rhs: Self) -> Self {
        if rhs.repr == 0 {
            self
        } else {
            Dec19x19 { repr: rem_toward_zero(self.repr as int, rhs.repr as int) as i128 }
        }
    }
}

/// The value of `v` clamped to the range of the representation.
pub open spec fn saturate(v: int) -> i128 {
    if v > i128::MAX {
        i128::MAX
    } else if v < i128::MIN {
        i128::MIN
    } else {
        v as i128
    }
}

/// The result of a checked operation whose exact representation is `v`.
pub open spec fn checked_result(r: Option<Dec19x19>, v: int) -> bool {
    match r {
        Some(d) => in_range(v) && d.repr == v,
        None => !in_range(v),
    }
}

impl UncheckedAdd for Dec19x19 {
    type Output = Self;

    open spec fn unchecked_add_defined(self, rhs: Self) -> bool {
        in_range(self.repr + rhs.repr)
    }

    fn unchecked_add(self, rhs: Self) -> (r: Self)
        ensures
            r.repr == self.repr + rhs.repr,
    {
        Dec19x19 { repr: self.repr + rhs.repr }
    }
}

impl CheckedAdd for Dec19x19 {
    type Output = Self;

    /// The sum, or `None` where it is not representable.
    fn checked_add(self, rhs: Self) -> (r: Option<Self>)
        ensures
            checked_result(r, self.repr + rhs.repr),
    {
        match self.repr.checked_add(rhs.repr) {
            Some(repr) => Some(Dec19x19 { repr }),
            None => None,
        }
    }
}

impl SaturatingAdd for Dec19x19 {
    type Output = Self;

    /// The sum, clamped to `MIN..=MAX`.
    fn saturating_add(self, rhs: Self) -> (r: Self)
        ensures
            r.repr == saturate(self.repr + rhs.repr),
    {
        match self.checked_add(rhs) {
            Some(result) => result,
            None => if self.signum_i128() >= 0 {
                Dec19x19 { repr: i128::MAX }
            } else {
                Dec19x19 { repr: i128::MIN }
            },
        }
    }
}

impl core::ops::Add for Dec19x19 {
    type Output = Self;

    fn add(self, rhs: Self) -> (r: Self)
        ensures
            r.repr == self.repr + rhs.repr,
    {
        self.unchecked_add(rhs)
    }
}

impl vstd::std_specs::ops::AddSpecImpl for Dec19x19 {
    open spec fn obeys_add_spec() -> bool {
        true
    }

    open spec fn add_req(self, rhs: Self) -> bool {
        in_range(self.repr + rhs.repr)
    }

    open spec fn add_spec(self, rhs: Self) -> Self {
        Dec19x19 { repr: (self.repr + rhs.repr) as i128 }
    }
}

impl UncheckedSub for Dec19x19 {
    type Output = Self;

    open spec fn unchecked_sub_defined(self, rhs: Self) -> bool {
        in_range(self.repr - rhs.repr)
    }

    fn unchecked_sub(self, rhs: Self) -> (r: Self)
        ensures
            r.repr == self.repr - rhs.repr,
    {
        Dec19x19 { repr: self.repr - rhs.repr }
    }
}

impl CheckedSub for Dec19x19 {
    type Output = Self;

    /// The difference, or `None` where it is not representable.
    fn checked_sub(self, rhs: Self) -> (r: Option<Self>)
        ensures
            checked_result(r, self.repr - rhs.repr),
    {
        match self.repr.checked_sub(rhs.repr) {
            Some(repr) => Some(Dec19x19 { repr }),
            None => None,
        }
    }
}

impl SaturatingSub for Dec19x19 {
    type Output = Self;

    /// The difference, clamped to `MIN..=MAX`.
    fn saturating_sub(self, rhs: Self) -> (r: Self)
        ensures
            r.repr == saturate(self.repr - rhs.repr),
    {
        match self.checked_sub(rhs) {
            Some(result) => result,
            None => if self.signum_i128() >= 0 {
                Dec19x19 { repr: i128::MAX }
            } else {
                Dec19x19 { repr: i128::MIN }
            },
        }
    }
}

impl core::ops::Sub for Dec19x19 {
    type Output = Self;

    fn sub(self, rhs: Self) -> (r: Self)
        ensures
            r.repr == self.repr - rhs.repr,
    {
        self.unchecked_sub(rhs)
    }
}

impl vstd::std_specs::ops::SubSpecImpl for Dec19x19 {
    open spec fn obeys_sub_spec() -> bool {
        true
    }

    open spec fn sub_req(self, rhs: Self) -> bool {
        in_range(self.repr - rhs.repr)
    }

    open spec fn sub_spec(self, rhs: Self) -> Self {
        Dec19x19 { repr: (self.repr - rhs.repr) as i128 }
    }
}

} // verus!
