//! Conversions between decimal values and primitive integers. An integer `n` is the value
//! whose representation is `n * 10^19`; a value converts to an integer by dropping its
//! fractional digits.
use vstd::prelude::*;

use crate::dec19x19::{div_toward_zero, in_range, scale, Dec19x19, FRAC_SCALE_I128};

verus! {

impl Dec19x19 {
    pub fn from_i64(value: i64) -> (r: Self)
        ensures
            r.repr == value * scale(),
    {
        Dec19x19 { repr: value as i128 * FRAC_SCALE_I128 }
    }

    pub fn from_i32(value: i32) -> (r: Self)
        ensures
            r.repr == value * scale(),
    {
        Dec19x19 { repr: value as i128 * FRAC_SCALE_I128 }
    }

    pub fn from_i16(value: i16) -> (r: Self)
        ensures
            r.repr == value * scale(),
    {
        Dec19x19 { repr: value as i128 * FRAC_SCALE_I128 }
    }

    pub fn from_i8(value: i8) -> (r: Self)
        ensures
            r.repr == value * scale(),
    {
        Dec19x19 { repr: value as i128 * FRAC_SCALE_I128 }
    }

    pub fn from_u32(value: u32) -> (r: Self)
        ensures
            r.repr == value * scale(),
    {
        Dec19x19 { repr: value as i128 * FRAC_SCALE_I128 }
    }

    pub fn from_u16(value: u16) -> (r: Self)
        ensures
            r.repr == value * scale(),
    {
        Dec19x19 { repr: value as i128 * FRAC_SCALE_I128 }
    }

    pub fn from_u8(value: u8) -> (r: Self)
        ensures
            r.repr == value * scale(),
    {
        Dec19x19 { repr: value as i128 * FRAC_SCALE_I128 }
    }

    /// The value of an `i128`, or `None` where it exceeds the integer range.
    pub fn try_from_i128(value: i128) -> (r: Option<Self>)
        ensures
            match r {
                Some(d) => in_range(value * scale()) && d.repr == value * scale(),
                None => !in_range(value * scale()),
            },
    {
        match value.checked_mul(FRAC_SCALE_I128) {
            Some(repr) => Some(Dec19x19 { repr }),
            None => None,
        }
    }

    pub fn try_from_u64(value: u64) -> (r: Option<Self>)
        ensures
            match r {
                Some(d) => in_range(value * scale()) && d.repr == value * scale(),
                None => !in_range(value * scale()),
            },
    {
        Self::try_from_i128(value as i128)
    }

    pub fn try_from_u128(value: u128) -> (r: Option<Self>)
        ensures
            match r {
                Some(d) => in_range(value * scale()) && d.repr == value * scale(),
                None => !in_range(value * scale()),
            },
    {
        if value > i128::MAX as u128 {
            proof {
                assert(value * scale() > i128::MAX) by (nonlinear_arith)
                    requires
                        value > i128::MAX,
                        scale() >= 1,
                ;
            }
            None
        } else {
            Self::try_from_i128(value as i128)
        }
    }

    /// The integer part, rounded toward zero.
    pub fn into_i128(self) -> (r: i128)
        ensures
            r == div_toward_zero(self.repr as int, scale()),
    {
        self.repr / FRAC_SCALE_I128
    }

    /// The integer part, rounded toward zero; a negative one wraps modulo `2^128`.
    pub fn into_u128(self) -> (r: u128)
        ensures
            div_toward_zero(self.repr as int, scale()) >= 0 ==> r == div_toward_zero(
                self.repr as int,
                scale(),
            ),
            div_toward_zero(self.repr as int, scale()) < 0 ==> r == div_toward_zero(
                self.repr as int,
                scale(),
            ) + u128::MAX + 1,
    {
        let v = self.repr / FRAC_SCALE_I128;
        if v < 0 {
            u128::MAX - ((-(v + 1)) as u128)
        } else {
            v as u128
        }
    }

    /// The integer part as a `u64`, rounded toward zero; a negative one wraps modulo `2^64`.
    pub fn into_u64(self) -> (r: u64)
        ensures
            div_toward_zero(self.repr as int, scale()) >= 0 ==> r == div_toward_zero(
                self.repr as int,
                scale(),
            ),
            div_toward_zero(self.repr as int, scale()) < 0 ==> r == div_toward_zero(
                self.repr as int,
                scale(),
            ) + u64::MAX + 1,
    {
        let v = self.repr / FRAC_SCALE_I128;
        assert(-17_014_118_346_046_923_174 <= v <= 17_014_118_346_046_923_173) by (nonlinear_arith)
            requires
                v == div_toward_zero(self.repr as int, scale()),
                i128::MIN <= self.repr <= i128::MAX,
                scale() == 10_000_000_000_000_000_000,
        ;
        if v < 0 {
            u64::MAX - ((-(v + 1)) as u64)
        } else {
            v as u64
        }
    }

    /// The integer part as an `i64`, or `None` where it does not fit.
    pub fn try_into_i64(self) -> (r: Option<i64>)
        ensures
            fits_result(r, div_toward_zero(self.repr as int, scale()), i64::MIN as int, i64::MAX as int),
    {
        let v = self.repr / FRAC_SCALE_I128;
        if v > i64::MAX as i128 || v < i64::MIN as i128 { None } else { Some(v as i64) }
    }

    pub fn try_into_i32(self) -> (r: Option<i32>)
        ensures
            fits_result(r, div_toward_zero(self.repr as int, scale()), i32::MIN as int, i32::MAX as int),
    {
        let v = self.repr / FRAC_SCALE_I128;
        if v > i32::MAX as i128 || v < i32::MIN as i128 { None } else { Some(v as i32) }
    }

    pub fn try_into_i16(self) -> (r: Option<i16>)
        ensures
            fits_result(r, div_toward_zero(self.repr as int, scale()), i16::MIN as int, i16::MAX as int),
    {
        let v = self.repr / FRAC_SCALE_I128;
        if v > i16::MAX as i128 || v < i16::MIN as i128 { None } else { Some(v as i16) }
    }

    pub fn try_into_i8(self) -> (r: Option<i8>)
        ensures
            fits_result(r, div_toward_zero(self.repr as int, scale()), i8::MIN as int, i8::MAX as int),
    {
        let v = self.repr / FRAC_SCALE_I128;
        if v > i8::MAX as i128 || v < i8::MIN as i128 { None } else { Some(v as i8) }
    }

    pub fn try_into_u32(self) -> (r: Option<u32>)
        ensures
            fits_result(r, div_toward_zero(self.repr as int, scale()), 0, u32::MAX as int),
    {
        let v = self.repr / FRAC_SCALE_I128;
        if v > u32::MAX as i128 || v < 0 { None } else { Some(v as u32) }
    }

    pub fn try_into_u16(self) -> (r: Option<u16>)
        ensures
            fits_result(r, div_toward_zero(self.repr as int, scale()), 0, u16::MAX as int),
    {
        let v = self.repr / FRAC_SCALE_I128;
        if v > u16::MAX as i128 || v < 0 { None } else { Some(v as u16) }
    }

    pub fn try_into_u8(self) -> (r: Option<u8>)
        ensures
            fits_result(r, div_toward_zero(self.repr as int, scale()), 0, u8::MAX as int),
    {
        let v = self.repr / FRAC_SCALE_I128;
        if v > u8::MAX as i128 || v < 0 { None } else { Some(v as u8) }
    }
}

/// `r` holds `v` where `lo <= v <= hi`, and is `None` elsewhere.
pub open spec fn fits_result<T: Integer>(r: Option<T>, v: int, lo: int, hi: int) -> bool {
    match r {
        Some(x) => lo <= v <= hi && x as int == v,
        None => !(lo <= v <= hi),
    }
}

} // verus!
