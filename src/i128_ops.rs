use vstd::prelude::*;

verus! {

/// `10^n`.
pub open spec fn pow10(n: nat) -> int
    decreases n,
{
    if n == 0 {
        1
    } else {
        10 * pow10((n - 1) as nat)
    }
}

/// The absolute value of an integer.
pub open spec fn mag(v: int) -> int {
    if v < 0 {
        -v
    } else {
        v
    }
}

/// The number of decimal digits of `|n|`, with `0` counted as one digit.
pub open spec fn is_digit_count(n: int, d: int) -> bool {
    &&& 1 <= d <= 39
    &&& mag(n) < pow10(d as nat)
    &&& (d > 1 ==> pow10((d - 1) as nat) <= mag(n))
}

pub broadcast proof fn lemma_pow10_positive(n: nat)
    ensures
        #[trigger] pow10(n) > 0,
    decreases n,
{
    if n > 0 {
        lemma_pow10_positive((n - 1) as nat);
    }
}

pub proof fn lemma_pow10_monotonic(a: nat, b: nat)
    requires
        a <= b,
    ensures
        pow10(a) <= pow10(b),
    decreases b,
{
    if a < b {
        lemma_pow10_monotonic(a, (b - 1) as nat);
        lemma_pow10_positive((b - 1) as nat);
    }
}

pub proof fn lemma_pow10_table()
    ensures
        pow10(0) == 1,
        pow10(1) == 10,
        pow10(2) == 100,
        pow10(3) == 1_000,
        pow10(4) == 10_000,
        pow10(5) == 100_000,
        pow10(6) == 1_000_000,
        pow10(7) == 10_000_000,
        pow10(8) == 100_000_000,
        pow10(9) == 1_000_000_000,
        pow10(10) == 10_000_000_000,
        pow10(11) == 100_000_000_000,
        pow10(12) == 1_000_000_000_000,
        pow10(13) == 10_000_000_000_000,
        pow10(14) == 100_000_000_000_000,
        pow10(15) == 1_000_000_000_000_000,
        pow10(16) == 10_000_000_000_000_000,
        pow10(17) == 100_000_000_000_000_000,
        pow10(18) == 1_000_000_000_000_000_000,
        pow10(19) == 10_000_000_000_000_000_000,
        pow10(20) == 100_000_000_000_000_000_000,
        pow10(21) == 1_000_000_000_000_000_000_000,
        pow10(22) == 10_000_000_000_000_000_000_000,
        pow10(23) == 100_000_000_000_000_000_000_000,
        pow10(24) == 1_000_000_000_000_000_000_000_000,
        pow10(25) == 10_000_000_000_000_000_000_000_000,
        pow10(26) == 100_000_000_000_000_000_000_000_000,
        pow10(27) == 1_000_000_000_000_000_000_000_000_000,
        pow10(28) == 10_000_000_000_000_000_000_000_000_000,
        pow10(29) == 100_000_000_000_000_000_000_000_000_000,
        pow10(30) == 1_000_000_000_000_000_000_000_000_000_000,
        pow10(31) == 10_000_000_000_000_000_000_000_000_000_000,
        pow10(32) == 100_000_000_000_000_000_000_000_000_000_000,
        pow10(33) == 1_000_000_000_000_000_000_000_000_000_000_000,
        pow10(34) == 10_000_000_000_000_000_000_000_000_000_000_000,
        pow10(35) == 100_000_000_000_000_000_000_000_000_000_000_000,
        pow10(36) == 1_000_000_000_000_000_000_000_000_000_000_000_000,
        pow10(37) == 10_000_000_000_000_000_000_000_000_000_000_000_000,
        pow10(38) == 100_000_000_000_000_000_000_000_000_000_000_000_000,
        pow10(39) == 1_000_000_000_000_000_000_000_000_000_000_000_000_000,
{
    reveal_with_fuel(pow10, 40);
}

/// `TEN_k` is `10^k`.
pub const TEN_0: i128 = 1;
pub const TEN_1: i128 = 10;
pub const TEN_2: i128 = 100;
pub const TEN_3: i128 = 1_000;
pub const TEN_4: i128 = 10_000;
pub const TEN_5: i128 = 100_000;
pub const TEN_6: i128 = 1_000_000;
pub const TEN_7: i128 = 10_000_000;
pub const TEN_8: i128 = 100_000_000;
pub const TEN_9: i128 = 1_000_000_000;
pub const TEN_10: i128 = 10_000_000_000;
pub const TEN_11: i128 = 100_000_000_000;
pub const TEN_12: i128 = 1_000_000_000_000;
pub const TEN_13: i128 = 10_000_000_000_000;
pub const TEN_14: i128 = 100_000_000_000_000;
pub const TEN_15: i128 = 1_000_000_000_000_000;
pub const TEN_16: i128 = 10_000_000_000_000_000;
pub const TEN_17: i128 = 100_000_000_000_000_000;
pub const TEN_18: i128 = 1_000_000_000_000_000_000;
pub const TEN_19: i128 = 10_000_000_000_000_000_000;
pub const TEN_20: i128 = 100_000_000_000_000_000_000;
pub const TEN_21: i128 = 1_000_000_000_000_000_000_000;
pub const TEN_22: i128 = 10_000_000_000_000_000_000_000;
pub const TEN_23: i128 = 100_000_000_000_000_000_000_000;
pub const TEN_24: i128 = 1_000_000_000_000_000_000_000_000;
pub const TEN_25: i128 = 10_000_000_000_000_000_000_000_000;
pub const TEN_26: i128 = 100_000_000_000_000_000_000_000_000;
pub const TEN_27: i128 = 1_000_000_000_000_000_000_000_000_000;
pub const TEN_28: i128 = 10_000_000_000_000_000_000_000_000_000;
pub const TEN_29: i128 = 100_000_000_000_000_000_000_000_000_000;
pub const TEN_30: i128 = 1_000_000_000_000_000_000_000_000_000_000;
pub const TEN_31: i128 = 10_000_000_000_000_000_000_000_000_000_000;
pub const TEN_32: i128 = 100_000_000_000_000_000_000_000_000_000_000;
pub const TEN_33: i128 = 1_000_000_000_000_000_000_000_000_000_000_000;
pub const TEN_34: i128 = 10_000_000_000_000_000_000_000_000_000_000_000;
pub const TEN_35: i128 = 100_000_000_000_000_000_000_000_000_000_000_000;
pub const TEN_36: i128 = 1_000_000_000_000_000_000_000_000_000_000_000_000;
pub const TEN_37: i128 = 10_000_000_000_000_000_000_000_000_000_000_000_000;
pub const TEN_38: i128 = 100_000_000_000_000_000_000_000_000_000_000_000_000;

/// `10^k` as an `i128`, for `k` in `0..=38`.
pub fn pow10_i128(k: u32) -> (r: i128)
    requires
        k <= 38,
    ensures
        r == pow10(k as nat),
{
    proof {
        lemma_pow10_table();
    }
    let mut r: i128 = 1;
    let mut i: u32 = 0;
    while i < k
        invariant
            i <= k <= 38,
            r == pow10(i as nat),
        decreases k - i,
    {
        proof {
            lemma_pow10_table();
            lemma_pow10_monotonic((i + 1) as nat, 38);
            assert(pow10((i + 1) as nat) == 10 * pow10(i as nat));
        }
        r = r * 10;
        i = i + 1;
    }
    r
}

/// The scale at which rounding to `digits` fractional digits works: `digits` is clamped to
/// `-19..=19` and the result is `10^(19 - digits)`.
pub fn scale_for(digits: i64) -> (r: i128)
    ensures
        r == pow10((19 - clamp_digits(digits as int)) as nat),
{
    let d: i64 = if digits < -19 {
        -19
    } else if digits > 19 {
        19
    } else {
        digits
    };
    pow10_i128((19 - d) as u32)
}

/// `digits` clamped to `-19..=19`.
pub open spec fn clamp_digits(digits: int) -> int {
    if digits < -19 {
        -19
    } else if digits > 19 {
        19
    } else {
        digits
    }
}

/// Returns the number of decimal digits of `|n|`, in `1..=39`; zero has one digit.
///
/// A balanced tree of comparisons against the powers of ten picks the count.
#[verifier::rlimit(50)]
pub fn digit_count(n: i128) -> (r: i32)
    ensures
        is_digit_count(n as int, r as int),
{
    proof {
        lemma_pow10_table();
    }
    if n == i128::MIN {
        return 39;
    }
    let n: i128 = if n < 0 { -n } else { n };
    if n < TEN_19 {
        if n < TEN_9 {
            if n < TEN_4 {
                if n < TEN_2 {
                    if n < TEN_1 { 1 } else { 2 }
                } else {
                    if n < TEN_3 { 3 } else { 4 }
                }
            } else {
                if n < TEN_7 {
                    if n < TEN_5 { 5 } else if n < TEN_6 { 6 } else { 7 }
                } else {
                    if n < TEN_8 { 8 } else { 9 }
                }
            }
        } else {
            if n < TEN_14 {
                if n < TEN_12 {
                    if n < TEN_10 { 10 } else if n < TEN_11 { 11 } else { 12 }
                } else {
                    if n < TEN_13 { 13 } else { 14 }
                }
            } else {
                if n < TEN_17 {
                    if n < TEN_15 { 15 } else if n < TEN_16 { 16 } else { 17 }
                } else {
                    if n < TEN_18 { 18 } else { 19 }
                }
            }
        }
    } else {
        if n < TEN_29 {
            if n < TEN_24 {
                if n < TEN_22 {
                    if n < TEN_20 { 20 } else if n < TEN_21 { 21 } else { 22 }
                } else {
                    if n < TEN_23 { 23 } else { 24 }
                }
            } else {
                if n < TEN_27 {
                    if n < TEN_25 { 25 } else if n < TEN_26 { 26 } else { 27 }
                } else {
                    if n < TEN_28 { 28 } else { 29 }
                }
            }
        } else {
            if n < TEN_34 {
                if n < TEN_32 {
                    if n < TEN_30 { 30 } else if n < TEN_31 { 31 } else { 32 }
                } else {
                    if n < TEN_33 { 33 } else { 34 }
                }
            } else {
                if n < TEN_37 {
                    if n < TEN_35 { 35 } else if n < TEN_36 { 36 } else { 37 }
                } else {
                    if n < TEN_38 { 38 } else { 39 }
                }
            }
        }
    }
}

} // verus!
