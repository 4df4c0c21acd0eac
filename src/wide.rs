//! 256-bit intermediates for division and square root, computed by `ethnum::I256`.
//!
//! A [`Wide`] holds the two 128-bit words of a 256-bit two's-complement integer; each function
//! here converts to `ethnum::I256`, performs one operation, and converts back.
use vstd::prelude::*;

use ethnum::I256;

use crate::dec19x19::{div_toward_zero, in_range};

verus! {

/// `2^128`.
pub open spec fn word() -> int {
    u128::MAX as int + 1
}

/// A 256-bit signed integer as its high and low words.
#[derive(Clone, Copy)]
pub struct Wide {
    pub hi: i128,
    pub lo: i128,
}

impl Wide {
    /// The integer that the two words stand for: the low word is read as unsigned.
    pub open spec fn value(self) -> int {
        self.hi * word() + if self.lo < 0 {
            self.lo + word()
        } else {
            self.lo as int
        }
    }
}

/// Relies on `ethnum::I256::new`, `Mul for I256` and `I256::into_words`: the exact product of
/// two 128-bit integers, which always fits in 256 bits.
#[verifier::external_body]
pub fn mul_wide(a: i128, b: i128) -> (r: Wide)
    ensures
        r.value() == a * b,
{
    let (hi, lo) = (I256::new(a) * I256::new(b)).into_words();
    Wide { hi, lo }
}

/// Relies on `ethnum::I256::checked_div` (with `I256::from_words`, `I256::new` and
/// `I256::into_words` to convert): the quotient rounded toward zero, `None` for a zero divisor
/// and for the one quotient that overflows, `-2^255 / -1`.
#[verifier::external_body]
pub fn checked_div_wide(n: Wide, d: i128) -> (r: Option<Wide>)
    ensures
        match r {
            Some(q) => d != 0 && !(n.value() == -word() * word() / 2 && d == -1) && q.value()
                == div_toward_zero(n.value(), d as int),
            None => d == 0 || (n.value() == -word() * word() / 2 && d == -1),
        },
{
    match I256::from_words(n.hi, n.lo).checked_div(I256::new(d)) {
        Some(q) => {
            let (hi, lo) = q.into_words();
            Some(Wide { hi, lo })
        },
        None => None,
    }
}

/// Relies on `TryFrom<I256> for i128` (with `I256::from_words` to convert): the value where
/// it fits in 128 bits.
#[verifier::external_body]
pub fn narrow(w: Wide) -> (r: Option<i128>)
    ensures
        match r {
            Some(v) => in_range(w.value()) && v == w.value(),
            None => !in_range(w.value()),
        },
{
    i128::try_from(I256::from_words(w.hi, w.lo)).ok()
}

} // verus!
