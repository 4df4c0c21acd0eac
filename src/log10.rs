//! The decimal logarithm rounded down, read off the digit count of the representation.
use vstd::prelude::*;

use crate::dec19x19::{scale, Dec19x19};
use crate::i128_ops::{digit_count, is_digit_count};
use crate::ops::{CheckedLog10Floor, UncheckedLog10Floor};

verus! {

/// `e` is `floor(log10(v / 10^19))` for `v > 0`: `10^(e + 19) <= v < 10^(e + 20)`.
pub open spec fn is_log10_floor(v: int, e: int) -> bool {
    is_digit_count(v, e + 20)
}

impl UncheckedLog10Floor for Dec19x19 {
    open spec fn unchecked_log10_floor_defined(self) -> bool {
        self.repr > 0
    }

    /// The integer `e` with `10^e <= self < 10^(e + 1)`.
    fn unchecked_log10_floor(self) -> (r: Self)
        ensures
            (r.repr as int) % scale() == 0,
            is_log10_floor(self.repr as int, (r.repr as int) / scale()),
    {
        let d = digit_count(self.repr);
        let r = Self::from_i32(d - 20);
        assert((r.repr as int) / scale() == d - 20) by (nonlinear_arith)
            requires
                r.repr == (d - 20) * scale(),
                scale() > 0,
        ;
        r
    }
}

impl CheckedLog10Floor for Dec19x19 {
    /// The decimal logarithm rounded down, or `None` for a value that is not positive.
    fn checked_log10_floor(self) -> (r: Option<Self>)
        ensures
            self.repr <= 0 ==> r is None,
            self.repr > 0 ==> r is Some && (r->0.repr as int) % scale() == 0 && is_log10_floor(
                self.repr as int,
                (r->0.repr as int) / scale(),
            ),
    {
        if self.repr > 0 {
            Some(self.unchecked_log10_floor())
        } else {
            None
        }
    }
}

} // verus!
