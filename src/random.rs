//! Deterministic pseudo-random values for tests and benchmarks, drawn from a seeded
//! `rand::rngs::StdRng`.
use vstd::prelude::*;

use rand::rngs::StdRng;
use rand::{Rng, SeedableRng};

use crate::dec19x19::Dec19x19;
use crate::i128_ops::{lemma_pow10_monotonic, lemma_pow10_positive, mag, pow10, pow10_i128};
use crate::sqrt::lemma_pow10_add;

verus! {

#[verifier::external_type_specification]
#[verifier::external_body]
pub struct ExStdRng(StdRng);

/// A range of precisions, in digits.
pub type RandRange = core::ops::RangeInclusive<u32>;

/// Relies on `RangeInclusive::start`: the lower bound.
#[verifier::external_body]
fn range_start(r: &RandRange) -> (s: u32)
    ensures
        s == r@.start,
{
    *r.start()
}

/// Relies on `RangeInclusive::end`: the upper bound.
#[verifier::external_body]
fn range_end(r: &RandRange) -> (e: u32)
    ensures
        e == r@.end,
{
    *r.end()
}

/// What can stand for a range of precisions: a range, or one precision.
pub trait IntoRandRange: Sized {
    spec fn range_lo(&self) -> u32;

    spec fn range_hi(&self) -> u32;

    fn into_rand_range(self) -> (r: RandRange)
        ensures
            r@.start == self.range_lo(),
            r@.end == self.range_hi(),
    ;
}

impl IntoRandRange for RandRange {
    open spec fn range_lo(&self) -> u32 {
        self@.start
    }

    open spec fn range_hi(&self) -> u32 {
        self@.end
    }

    fn into_rand_range(self) -> (r: RandRange) {
        self
    }
}

impl IntoRandRange for u32 {
    open spec fn range_lo(&self) -> u32 {
        *self
    }

    open spec fn range_hi(&self) -> u32 {
        *self
    }

    fn into_rand_range(self) -> (r: RandRange) {
        self..=self
    }
}

/// Values drawn from a seed, with a range of integer and of fractional digits.
pub trait Rand: Sized {
    fn rand<I: IntoRandRange, F: IntoRandRange>(seed: u64, int_digits: I, frac_digits: F) -> Self
        requires
            int_digits.range_lo() <= int_digits.range_hi() <= 19,
            frac_digits.range_lo() <= frac_digits.range_hi() <= 19,
    ;
}

/// Relies on `StdRng::seed_from_u64`: a generator determined by the seed.
#[verifier::external_body]
fn seeded(seed: u64) -> (r: StdRng) {
    StdRng::seed_from_u64(seed)
}

/// Relies on `Rng::random_range` over an inclusive range: a value between the bounds.
#[verifier::external_body]
fn draw_u32(rng: &mut StdRng, lo: u32, hi: u32) -> (r: u32)
    requires
        lo <= hi,
    ensures
        lo <= r <= hi,
{
    rng.random_range(lo..=hi)
}

/// Relies on `Rng::random_range` over an inclusive range: a value between the bounds.
#[verifier::external_body]
fn draw_i128(rng: &mut StdRng, lo: i128, hi: i128) -> (r: i128)
    requires
        lo <= hi,
    ensures
        lo <= r <= hi,
{
    rng.random_range(lo..=hi)
}

/// Relies on `Rng::random_ratio`: a fair coin.
#[verifier::external_body]
fn draw_coin(rng: &mut StdRng) -> (r: bool) {
    rng.random_ratio(1, 2)
}

proof fn lemma_neg_multiple(v: int, m: int)
    requires
        m > 0,
        v % m == 0,
    ensures
        (-v) % m == 0,
{
    vstd::arithmetic::div_mod::lemma_fundamental_div_mod(v, m);
    assert(-v == (-(v / m)) * m) by (nonlinear_arith)
        requires
            v == m * (v / m) + 0,
    ;
    vstd::arithmetic::div_mod::lemma_mod_multiples_basic(-(v / m), m);
}

/// The number of digits drawn for `int_prec` integer and `frac_prec` fractional digits.
pub open spec fn drawn_digits(int_prec: int, frac_prec: int) -> int {
    if int_prec + frac_prec > 1 {
        int_prec + frac_prec
    } else {
        1
    }
}

/// The digits drawn as one integer: the first digit, then the rest; zero becomes one.
pub open spec fn draws_magnitude(int_prec: int, frac_prec: int, first_digit: int, low: int) -> int {
    let m = first_digit * pow10((drawn_digits(int_prec, frac_prec) - 1) as nat) + low;
    if m == 0 {
        1
    } else {
        m
    }
}

/// The representation made from the draws: the digits placed so that `frac_prec` of them are
/// fractional, with the drawn sign.
pub open spec fn draws_repr(
    int_prec: int,
    frac_prec: int,
    first_digit: int,
    low: int,
    negative: bool,
) -> int {
    let v = draws_magnitude(int_prec, frac_prec, first_digit, low) * pow10((19 - frac_prec) as nat);
    if negative {
        -v
    } else {
        v
    }
}

/// Draws that [`Rand::rand`] can make for the given ranges of precisions: the precisions in
/// their ranges, a leading digit (nonzero where there are integer digits) and the remaining
/// digits below the power of ten that the precisions give.
pub open spec fn valid_draws(
    int_lo: int,
    int_hi: int,
    frac_lo: int,
    frac_hi: int,
    int_prec: int,
    frac_prec: int,
    first_digit: int,
    low: int,
) -> bool {
    &&& int_lo <= int_prec <= int_hi
    &&& frac_lo <= frac_prec <= frac_hi
    &&& (if int_prec > 0 { 1int } else { 0 }) <= first_digit <= 9
    &&& 0 <= low < pow10((drawn_digits(int_prec, frac_prec) - 1) as nat)
}

impl Dec19x19 {
    /// The value that [`Rand::rand`] builds from its draws: the precisions, the leading digit,
    /// the remaining digits and the sign.
    pub fn from_draws(int_prec: u32, frac_prec: u32, first_digit: i128, low: i128, negative: bool) -> (r: Self)
        requires
            int_prec <= 19,
            frac_prec <= 19,
            0 <= first_digit <= 9,
            0 <= low < pow10((drawn_digits(int_prec as int, frac_prec as int) - 1) as nat),
        ensures
            r.repr == draws_repr(int_prec as int, frac_prec as int, first_digit as int, low as int, negative),
    {
        let digit_count: u32 = if int_prec + frac_prec > 1 { int_prec + frac_prec } else { 1 };
        let scale = pow10_i128(digit_count - 1);
        proof {
            lemma_pow10_positive((digit_count - 1) as nat);
            lemma_pow10_add(1, (digit_count - 1) as nat);
            reveal_with_fuel(pow10, 2);
            assert(first_digit * scale + low < 10 * scale) by (nonlinear_arith)
                requires
                    0 <= first_digit <= 9,
                    0 <= low < scale,
            ;
            assert(0 <= first_digit * scale) by (nonlinear_arith)
                requires
                    0 <= first_digit,
                    0 <= scale,
            ;
            crate::i128_ops::lemma_pow10_table();
            lemma_pow10_monotonic(digit_count as nat, 38);
        }
        let mut val = first_digit * scale + low;
        if val == 0 {
            val = 1;
        }
        let shift = pow10_i128(19 - frac_prec);
        proof {
            lemma_pow10_positive((19 - frac_prec) as nat);
            lemma_pow10_add(digit_count as nat, (19 - frac_prec) as nat);
            lemma_pow10_monotonic((digit_count + 19 - frac_prec) as nat, 38);
            assert(val * shift < pow10(digit_count as nat) * shift) by (nonlinear_arith)
                requires
                    0 < val < pow10(digit_count as nat),
                    shift > 0,
            ;
            assert(0 < val * shift) by (nonlinear_arith)
                requires
                    0 < val,
                    0 < shift,
            ;
        }
        val = val * shift;
        if negative {
            val = -val;
        }
        Dec19x19 { repr: val }
    }
}

impl Rand for Dec19x19 {
    /// A nonzero value with a drawn number of integer digits (at most the upper bound of
    /// `int`, and one digit where both precisions are zero) and of fractional digits (at most
    /// the upper bound of `frac`), and a drawn sign.
    fn rand<I: IntoRandRange, F: IntoRandRange>(seed: u64, int_digits: I, frac_digits: F) -> (r: Self)
        ensures
            exists|int_prec: int, frac_prec: int, first_digit: int, low: int, negative: bool|
                valid_draws(
                    int_digits.range_lo() as int,
                    int_digits.range_hi() as int,
                    frac_digits.range_lo() as int,
                    frac_digits.range_hi() as int,
                    int_prec,
                    frac_prec,
                    first_digit,
                    low,
                ) && r.repr == draws_repr(int_prec, frac_prec, first_digit, low, negative),
            r.repr != 0,
            mag(r.repr as int) < pow10((19 + if int_digits.range_hi() == 0 { 1 } else { int_digits.range_hi() as int }) as nat),
            (r.repr as int) % pow10((19 - frac_digits.range_hi()) as nat) == 0,
    {
        let ghost int_hi = int_digits.range_hi();
        let ghost frac_hi = frac_digits.range_hi();
        let int_prec_range = int_digits.into_rand_range();
        let frac_prec_range = frac_digits.into_rand_range();
        let mut rng = seeded(seed);
        let int_start = range_start(&int_prec_range);
        let int_end = range_end(&int_prec_range);
        let int_prec = if int_start == int_end {
            int_start
        } else {
            draw_u32(&mut rng, int_start, int_end)
        };
        let frac_start = range_start(&frac_prec_range);
        let frac_end = range_end(&frac_prec_range);
        let frac_prec = if frac_start == frac_end {
            frac_start
        } else {
            draw_u32(&mut rng, frac_start, frac_end)
        };
        let digit_count: u32 = if int_prec + frac_prec > 1 { int_prec + frac_prec } else { 1 };
        let max_val = pow10_i128(digit_count - 1) - 1;
        proof {
            lemma_pow10_positive((digit_count - 1) as nat);
        }
        let first_digit_start: i128 = if int_prec > 0 { 1 } else { 0 };
        let first_digit = draw_i128(&mut rng, first_digit_start, 9);
        let low = draw_i128(&mut rng, 0, max_val);
        let negative = draw_coin(&mut rng);
        let r = Dec19x19::from_draws(int_prec, frac_prec, first_digit, low, negative);
        assert(valid_draws(
            int_digits.range_lo() as int,
            int_digits.range_hi() as int,
            frac_digits.range_lo() as int,
            frac_digits.range_hi() as int,
            int_prec as int,
            frac_prec as int,
            first_digit as int,
            low as int,
        ));
        proof {
            let val = draws_magnitude(int_prec as int, frac_prec as int, first_digit as int, low as int);
            let shift = pow10((19 - frac_prec) as nat);
            let scale = pow10((digit_count - 1) as nat);
            lemma_pow10_positive((19 - frac_prec) as nat);
            lemma_pow10_add(1, (digit_count - 1) as nat);
            reveal_with_fuel(pow10, 2);
            assert(first_digit * scale + low < 10 * scale) by (nonlinear_arith)
                requires
                    0 <= first_digit <= 9,
                    0 <= low < scale,
            ;
            assert(0 <= first_digit * scale) by (nonlinear_arith)
                requires
                    0 <= first_digit,
                    0 <= scale,
            ;
            lemma_pow10_add(digit_count as nat, (19 - frac_prec) as nat);
            let top = if int_hi == 0 { 1 } else { int_hi as int };
            lemma_pow10_monotonic((digit_count + 19 - frac_prec) as nat, (19 + top) as nat);
            assert(val * shift < pow10(digit_count as nat) * shift) by (nonlinear_arith)
                requires
                    0 < val < pow10(digit_count as nat),
                    shift > 0,
            ;
            assert(0 < val * shift) by (nonlinear_arith)
                requires
                    0 < val,
                    0 < shift,
            ;
            lemma_pow10_add((frac_hi - frac_prec) as nat, (19 - frac_hi) as nat);
            assert(val * shift == (val * pow10((frac_hi - frac_prec) as nat)) * pow10(
                (19 - frac_hi) as nat,
            )) by (nonlinear_arith)
                requires
                    shift == pow10((frac_hi - frac_prec) as nat) * pow10((19 - frac_hi) as nat),
            ;
            lemma_pow10_positive((19 - frac_hi) as nat);
            vstd::arithmetic::div_mod::lemma_mod_multiples_basic(
                val * pow10((frac_hi - frac_prec) as nat),
                pow10((19 - frac_hi) as nat),
            );
            if negative {
                lemma_neg_multiple(val * shift, pow10((19 - frac_hi) as nat));
            }
        }
        r
    }
}

} // verus!
