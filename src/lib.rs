//! A fixed-point decimal type with 19 integer and 19 fractional digits, stored as an `i128`
//! scaled by `10^19`, with verified arithmetic, rounding, parsing and formatting.
//!
//! Each operation's contract states its result over the representation: `+` and `-` are
//! exact, `*` and `/` round toward zero at the last fractional digit, the rounding family
//! works at a power-of-ten scale, `sqrt` is the integer square root of `repr * 10^19`, and the
//! parser and formatter are specified stage by stage.

pub mod i128_ops;
pub mod ops;
pub mod dec19x19;
pub mod mul;
pub mod div;
pub mod wide;
pub mod round;
pub mod laws;
pub mod sqrt;
pub mod convert;
pub mod log10;
pub mod pow;
pub mod text;
pub mod parse;
pub mod format;
pub mod ln;
pub mod random;
pub mod unwrap;
pub mod roundtrip;

pub use dec19x19::{Dec19x19, FRAC_SCALE_I128, FRAC_SCALE_U128};
pub use format::{Alignment, Format, Formatter};
pub use i128_ops::digit_count;
pub use ops::{
    Abs, Ceil, CeilTo, CheckedAdd, CheckedDiv, CheckedLn, CheckedLog10Floor, CheckedMul,
    CheckedPow, CheckedSqrt, CheckedSub, Floor, FloorTo, HasMax, HasMin, Round, RoundTo,
    SaturatingAdd, SaturatingDiv, SaturatingMul, SaturatingSub, Signum, Trunc, TruncTo,
    UncheckedAdd, UncheckedDiv, UncheckedLn, UncheckedLog10Floor, UncheckedMul, UncheckedPow,
    UncheckedSqrt, UncheckedSub,
};
pub use parse::{parse_dec19x19_internal, shift_decimal, ParseDec19x19Error, FRAC_PLACES};
pub use random::{IntoRandRange, Rand, RandRange};
pub use unwrap::UnwrapAll;
